use vstd::prelude::*;

use crate::text::push_str;

verus! {

/// The staging path of a file being received: the full path with `.part` appended, so
/// `foo.tar.gz` stages in `foo.tar.gz.part` and `bar` in `bar.part`.
pub fn part_path_for(path: &str) -> (r: String)
    ensures
        r@ == path@ + ".part"@,
{
    let mut r = String::new();
    push_str(&mut r, path);
    push_str(&mut r, ".part");
    assert(r@ =~= path@ + ".part"@);
    r
}

} // verus!
