use vstd::prelude::*;
use vstd::string::StringExecFns;

use crate::text::{chars_of, find_last, last_index_of, push_str, string_from_chars};

verus! {

/// The final component of a path, as `std::path::Path::file_name` parses it (`None` when the
/// path ends in `..` or has no component).
pub uninterp spec fn path_file_name(path: Seq<char>) -> Option<Seq<char>>;

/// The Unicode lowercase of a string, as `str::to_lowercase` computes it.
pub uninterp spec fn unicode_lowercase(s: Seq<char>) -> Seq<char>;

/// Calls `std::path::Path::file_name` on the path. Claimed of std: the result is the path's
/// final component, a function of the path text alone; nothing more is stated.
#[verifier::external_body]
fn file_name_of(path: &str) -> (r: Option<String>)
    ensures
        match r {
            Some(name) => path_file_name(path@) == Some(name@),
            None => path_file_name(path@) is None,
        },
{
    match std::path::Path::new(path).file_name() {
        Some(name) => Some(name.to_string_lossy().into_owned()),
        None => None,
    }
}

/// Calls `str::to_lowercase`. Claimed of std: the result is the Unicode lowercase of the
/// text, a function of the text alone; nothing more is stated.
#[verifier::external_body]
fn lowercase_of(s: &str) -> (r: String)
    ensures
        r@ == unicode_lowercase(s@),
{
    s.to_lowercase()
}

/// The extension of a file name (without the dot): none when the name has no `.` other than
/// a leading one (and none for `..`); otherwise the part after the final `.`.
pub open spec fn extension_of(name: Seq<char>) -> Option<Seq<char>> {
    if name == ".."@ {
        None
    } else {
        match last_index_of(name, '.') {
            Some(i) => if i == 0 {
                None
            } else {
                Some(name.subrange(i + 1, name.len() as int))
            },
            None => None,
        }
    }
}

/// The extension of a path's file name, or the empty text when it has none.
pub open spec fn path_extension(path: Seq<char>) -> Seq<char> {
    match path_file_name(path) {
        Some(name) => match extension_of(name) {
            Some(e) => e,
            None => Seq::empty(),
        },
        None => Seq::empty(),
    }
}

/// Extensions of formats that are already compressed and gain nothing from gzip.
pub open spec fn is_incompressible_extension(e: Seq<char>) -> bool {
    ||| e == "gz"@
    ||| e == "zip"@
    ||| e == "tar"@
    ||| e == "bz2"@
    ||| e == "xz"@
    ||| e == "zst"@
    ||| e == "7z"@
    ||| e == "rar"@
    ||| e == "jpg"@
    ||| e == "jpeg"@
    ||| e == "png"@
    ||| e == "gif"@
    ||| e == "webp"@
    ||| e == "mp4"@
    ||| e == "mkv"@
    ||| e == "avi"@
    ||| e == "mp3"@
    ||| e == "flac"@
    ||| e == "dmg"@
    ||| e == "iso"@
    ||| e == "whl"@
    ||| e == "deb"@
    ||| e == "rpm"@
}

/// Whether an extension (already lowercased) is one of an already-compressed format.
pub fn is_incompressible(e: &String) -> (r: bool)
    ensures
        r == is_incompressible_extension(e@),
{
    *e == String::from_str("gz") || *e == String::from_str("zip") || *e == String::from_str("tar")
        || *e == String::from_str("bz2") || *e == String::from_str("xz") || *e == String::from_str(
        "zst",
    ) || *e == String::from_str("7z") || *e == String::from_str("rar") || *e == String::from_str(
        "jpg",
    ) || *e == String::from_str("jpeg") || *e == String::from_str("png") || *e
        == String::from_str("gif") || *e == String::from_str("webp") || *e == String::from_str(
        "mp4",
    ) || *e == String::from_str("mkv") || *e == String::from_str("avi") || *e
        == String::from_str("mp3") || *e == String::from_str("flac") || *e == String::from_str(
        "dmg",
    ) || *e == String::from_str("iso") || *e == String::from_str("whl") || *e
        == String::from_str("deb") || *e == String::from_str("rpm")
}

/// The extension of a path's file name, or the empty text when it has none.
pub fn extension_text(path: &str) -> (r: String)
    ensures
        r@ == path_extension(path@),
{
    match file_name_of(path) {
        Some(name) => {
            let chars = chars_of(name.as_str());
            proof {
                reveal_strlit("..");
            }
            if chars.len() == 2 && chars[0] == '.' && chars[1] == '.' {
                assert(chars@ =~= ".."@);
                return String::new();
            }
            assert(chars@ != ".."@) by {
                if chars@ == ".."@ {
                    assert(chars@.len() == 2);
                }
            }
            match find_last(chars.as_slice(), '.') {
                Some(i) => {
                    if i == 0 {
                        String::new()
                    } else {
                        let tail = chars.as_slice().split_at(i + 1).1;
                        let r = string_from_chars(tail);
                        assert(r@ =~= chars@.subrange(i + 1, chars@.len() as int));
                        r
                    }
                },
                None => String::new(),
            }
        },
        None => String::new(),
    }
}

/// Whether a file is worth compressing: false for the extensions of already-compressed
/// formats (compared case-insensitively).
pub fn should_compress(path: &str) -> (r: bool)
    ensures
        r == !is_incompressible_extension(unicode_lowercase(path_extension(path@))),
{
    let ext = extension_text(path);
    let lower = lowercase_of(ext.as_str());
    !is_incompressible(&lower)
}

/// Whether a file is worth compressing (the contract of `should_compress`).
pub open spec fn compressible(path: Seq<char>) -> bool {
    !is_incompressible_extension(unicode_lowercase(path_extension(path)))
}

/// The total size of the files.
pub open spec fn total_size(files: Seq<(String, u64)>) -> nat
    decreases files.len(),
{
    if files.len() == 0 {
        0
    } else {
        total_size(files.drop_last()) + files.last().1 as nat
    }
}

/// The total size of the files that are not worth compressing.
pub open spec fn incompressible_size(files: Seq<(String, u64)>) -> nat
    decreases files.len(),
{
    if files.len() == 0 {
        0
    } else {
        incompressible_size(files.drop_last()) + if compressible(files.last().0@) {
            0
        } else {
            files.last().1 as nat
        }
    }
}

/// A directory is worth gzipping unless more than 80% of its bytes are in files that are
/// already compressed (an empty directory is).
pub open spec fn gzip_worthwhile(files: Seq<(String, u64)>) -> bool {
    total_size(files) == 0 || 5 * incompressible_size(files) <= 4 * total_size(files)
}

/// Decide whether a directory should be gzipped, given its regular files (path and size).
/// Returns false if more than 80% of the total size is in incompressible files.
pub fn directory_needs_gzip(files: &[(String, u64)]) -> (r: bool)
    ensures
        r == gzip_worthwhile(files@),
{
    let mut total: u128 = 0;
    let mut incompressible: u128 = 0;
    let n = files.len();
    let mut i: usize = 0;
    while i < n
        invariant
            n == files@.len(),
            i <= n,
            total == total_size(files@.take(i as int)),
            incompressible == incompressible_size(files@.take(i as int)),
            incompressible <= total,
            total <= i * 0x1_0000_0000_0000_0000,
            n <= 0xffff_ffff_ffff_ffff,
        decreases n - i,
    {
        let (path, size) = &files[i];
        proof {
            assert(files@.take(i + 1).drop_last() == files@.take(i as int));
            assert((i + 1) * 0x1_0000_0000_0000_0000 == i * 0x1_0000_0000_0000_0000
                + 0x1_0000_0000_0000_0000) by (nonlinear_arith);
            assert(i * 0x1_0000_0000_0000_0000 <= 0xffff_ffff_ffff_ffff * 0x1_0000_0000_0000_0000)
                by (nonlinear_arith)
                requires
                    i < 0xffff_ffff_ffff_ffff,
            ;
        }
        total = total + *size as u128;
        if !should_compress(path.as_str()) {
            incompressible = incompressible + *size as u128;
        }
        i = i + 1;
    }
    proof {
        assert(files@.take(n as int) =~= files@);
        assert(total <= 0xffff_ffff_ffff_ffff * 0x1_0000_0000_0000_0000) by (nonlinear_arith)
            requires
                total <= n * 0x1_0000_0000_0000_0000,
                n <= 0xffff_ffff_ffff_ffff,
        ;
        assert((5 * incompressible <= 4 * total) == (incompressible <= total - (total + 4) / 5))
            by (nonlinear_arith)
            requires
                total >= 0,
                incompressible >= 0,
        ;
    }
    total == 0 || incompressible <= total - (total + 4) / 5
}

/// The compression asked for by a transfer entry: `Some(false)` for "none" (tar only),
/// `Some(true)` for "gzip", `None` for automatic detection.
pub open spec fn requested_gzip(compression: Option<Seq<char>>) -> Option<bool> {
    match compression {
        Some(c) => if c == "none"@ {
            Some(false)
        } else if c == "gzip"@ {
            Some(true)
        } else {
            None
        },
        None => None,
    }
}

/// Read a transfer entry's compression hint.
pub fn gzip_choice(compression: &Option<String>) -> (r: Option<bool>)
    ensures
        r == requested_gzip(match compression {
            Some(c) => Some(c@),
            None => None,
        }),
{
    match compression {
        Some(c) => {
            if *c == String::from_str("none") {
                Some(false)
            } else if *c == String::from_str("gzip") {
                Some(true)
            } else {
                None
            }
        },
        None => None,
    }
}

/// The archive file name for a directory: its relative path with `/` turned into `_`, then
/// `.tar.gz` or `.tar`.
pub open spec fn archive_file_name(relative_path: Seq<char>, use_gzip: bool) -> Seq<char> {
    relative_path.map_values(|c: char| if c == '/' { '_' } else { c }) + if use_gzip {
        ".tar.gz"@
    } else {
        ".tar"@
    }
}

/// The archive file name for a directory.
pub fn archive_name(relative_path: &str, use_gzip: bool) -> (r: String)
    ensures
        r@ == archive_file_name(relative_path@, use_gzip),
{
    let chars = chars_of(relative_path);
    let mut out: Vec<char> = Vec::new();
    let n = chars.len();
    let mut i: usize = 0;
    while i < n
        invariant
            n == chars@.len(),
            i <= n,
            out@ == chars@.take(i as int).map_values(|c: char| if c == '/' { '_' } else { c }),
        decreases n - i,
    {
        let c = chars[i];
        out.push(if c == '/' { '_' } else { c });
        i = i + 1;
        assert(out@ =~= chars@.take(i as int).map_values(|c: char| if c == '/' { '_' } else { c }));
    }
    assert(chars@.take(n as int) =~= chars@);
    let mut r = string_from_chars(out.as_slice());
    if use_gzip {
        push_str(&mut r, ".tar.gz");
    } else {
        push_str(&mut r, ".tar");
    }
    r
}

/// Failures of directory compression.
#[derive(Clone, Debug)]
pub enum CompressError {
    NotADirectory,
    Io(String),
}

impl CompressError {
    /// The error's text.
    pub fn message(&self) -> (r: String)
        ensures
            r@ == (match self {
                CompressError::NotADirectory => "not a directory"@,
                CompressError::Io(detail) => "IO error: "@ + detail@,
            }),
    {
        match self {
            CompressError::NotADirectory => String::from_str("not a directory"),
            CompressError::Io(detail) => {
                let mut r = String::from_str("IO error: ");
                push_str(&mut r, detail.as_str());
                r
            },
        }
    }
}

/// What the runtime found at the directory to archive.
#[derive(Clone, Debug)]
pub enum SourceCheck {
    /// The path did not resolve; the resolver's error text.
    Unresolved(String),
    /// The path resolved to something that is not a directory.
    NotADirectory,
    /// The path resolved to a directory.
    Directory,
}

/// How a directory is to be archived: with or without gzip, and under which archive name.
#[derive(Clone, Debug)]
pub struct ArchivePlan {
    pub use_gzip: bool,
    pub file_name: String,
}

/// Whether to gzip: as the transfer entry asks, or else as the directory's contents suggest.
pub open spec fn chosen_gzip(compression: Option<Seq<char>>, files: Seq<(String, u64)>) -> bool {
    match requested_gzip(compression) {
        Some(b) => b,
        None => gzip_worthwhile(files),
    }
}

/// Plan the archive of a directory under the root: refuse a path that does not resolve or is
/// not a directory; otherwise decide on gzip (`compression`: `None` = auto-detect from the
/// directory's regular `files`, "none" = tar only, "gzip" = tar.gz) and name the archive.
/// `files` is consulted only for auto-detection.
pub fn compress_directory(
    relative_path: &str,
    source: &SourceCheck,
    compression: &Option<String>,
    files: &[(String, u64)],
) -> (r: Result<ArchivePlan, CompressError>)
    ensures
        match source {
            SourceCheck::Unresolved(e) => r matches Err(CompressError::Io(m)) && m@
                == "Failed to resolve path: "@ + e@,
            SourceCheck::NotADirectory => r matches Err(CompressError::NotADirectory),
            SourceCheck::Directory => r matches Ok(plan) && plan.use_gzip == chosen_gzip(
                match compression {
                    Some(c) => Some(c@),
                    None => None,
                },
                files@,
            ) && plan.file_name@ == archive_file_name(relative_path@, plan.use_gzip),
        },
{
    match source {
        SourceCheck::Unresolved(e) => {
            let mut m = String::from_str("Failed to resolve path: ");
            push_str(&mut m, e.as_str());
            Err(CompressError::Io(m))
        },
        SourceCheck::NotADirectory => Err(CompressError::NotADirectory),
        SourceCheck::Directory => {
            let use_gzip = match gzip_choice(compression) {
                Some(b) => b,
                None => directory_needs_gzip(files),
            };
            Ok(ArchivePlan { use_gzip, file_name: archive_name(relative_path, use_gzip) })
        },
    }
}

/// Every extension of the already-compressed formats (archives, images, audio and video,
/// disk images and packages) makes a file not worth compressing once lowercased: a path whose
/// extension lowercases to one of them is not gzipped.
pub proof fn law_compressed_formats_are_not_recompressed(path: Seq<char>)
    ensures
        is_incompressible_extension("gz"@) && is_incompressible_extension("zip"@)
            && is_incompressible_extension("tar"@) && is_incompressible_extension("bz2"@)
            && is_incompressible_extension("xz"@) && is_incompressible_extension("zst"@)
            && is_incompressible_extension("7z"@) && is_incompressible_extension("rar"@),
        is_incompressible_extension("jpg"@) && is_incompressible_extension("jpeg"@)
            && is_incompressible_extension("png"@) && is_incompressible_extension("gif"@)
            && is_incompressible_extension("webp"@),
        is_incompressible_extension("mp4"@) && is_incompressible_extension("mkv"@)
            && is_incompressible_extension("avi"@) && is_incompressible_extension("mp3"@)
            && is_incompressible_extension("flac"@),
        is_incompressible_extension("dmg"@) && is_incompressible_extension("iso"@)
            && is_incompressible_extension("whl"@) && is_incompressible_extension("deb"@)
            && is_incompressible_extension("rpm"@),
        unicode_lowercase(path_extension(path)) == "jpg"@ ==> !compressible(path),
        unicode_lowercase(path_extension(path)) == "png"@ ==> !compressible(path),
        unicode_lowercase(path_extension(path)) == "gz"@ ==> !compressible(path),
        unicode_lowercase(path_extension(path)) == "zip"@ ==> !compressible(path),
        unicode_lowercase(path_extension(path)) == "mp4"@ ==> !compressible(path),
{
}

/// A directory made only of files in already-compressed formats (and holding some bytes) is
/// archived without gzip unless gzip is asked for: its plan is a plain tar.
pub proof fn law_compressed_directory_is_plain_tar(files: Seq<(String, u64)>)
    requires
        total_size(files) > 0,
        forall|i: int| 0 <= i < files.len() ==> !compressible(#[trigger] files[i].0@),
    ensures
        !gzip_worthwhile(files),
        !chosen_gzip(None, files),
{
    lemma_all_incompressible(files);
}

proof fn lemma_all_incompressible(files: Seq<(String, u64)>)
    requires
        forall|i: int| 0 <= i < files.len() ==> !compressible(#[trigger] files[i].0@),
    ensures
        incompressible_size(files) == total_size(files),
    decreases files.len(),
{
    if files.len() > 0 {
        let rest = files.drop_last();
        assert forall|i: int| 0 <= i < rest.len() implies !compressible(#[trigger] rest[i].0@) by {
            assert(rest[i] == files[i]);
        }
        lemma_all_incompressible(rest);
        assert(!compressible(files[files.len() - 1].0@));
    }
}

/// A directory whose files are all worth compressing is gzipped in auto mode; an explicit
/// "none" or "gzip" decides regardless of the contents.
pub proof fn law_compressible_directory_is_gzipped(files: Seq<(String, u64)>)
    requires
        forall|i: int| 0 <= i < files.len() ==> compressible(#[trigger] files[i].0@),
    ensures
        gzip_worthwhile(files),
        chosen_gzip(None, files),
        !chosen_gzip(Some("none"@), files),
        chosen_gzip(Some("gzip"@), files),
{
    lemma_all_compressible(files);
    reveal_strlit("none");
    reveal_strlit("gzip");
    assert("gzip"@ != "none"@) by {
        assert("gzip"@[0] != "none"@[0]);
    }
}

proof fn lemma_all_compressible(files: Seq<(String, u64)>)
    requires
        forall|i: int| 0 <= i < files.len() ==> compressible(#[trigger] files[i].0@),
    ensures
        incompressible_size(files) == 0,
    decreases files.len(),
{
    if files.len() > 0 {
        let rest = files.drop_last();
        assert forall|i: int| 0 <= i < rest.len() implies compressible(#[trigger] rest[i].0@) by {
            assert(rest[i] == files[i]);
        }
        lemma_all_compressible(rest);
        assert(compressible(files[files.len() - 1].0@));
    }
}

/// An archive name holds no `/` (it names a file directly inside the staging directory),
/// keeps every other character of the relative path in place, and ends in `.tar.gz` exactly
/// when gzip is used, `.tar` otherwise.
pub proof fn law_archive_name_shape(relative_path: Seq<char>, use_gzip: bool)
    ensures
        ({
            let name = archive_file_name(relative_path, use_gzip);
            let ext: Seq<char> = if use_gzip { ".tar.gz"@ } else { ".tar"@ };
            &&& name.len() == relative_path.len() + ext.len()
            &&& forall|i: int| 0 <= i < name.len() ==> name[i] != '/'
            &&& forall|i: int|
                0 <= i < relative_path.len() && relative_path[i] != '/' ==> name[i]
                    == relative_path[i]
            &&& name.subrange(relative_path.len() as int, name.len() as int) == ext
        }),
{
    reveal_strlit(".tar.gz");
    reveal_strlit(".tar");
    let name = archive_file_name(relative_path, use_gzip);
    let ext: Seq<char> = if use_gzip { ".tar.gz"@ } else { ".tar"@ };
    let mapped = relative_path.map_values(|c: char| if c == '/' { '_' } else { c });
    assert(name == mapped + ext);
    assert forall|i: int| 0 <= i < name.len() implies name[i] != '/' by {
        if i < mapped.len() {
            assert(name[i] == mapped[i]);
        } else {
            assert(name[i] == ext[i - mapped.len()]);
        }
    }
    assert(name.subrange(relative_path.len() as int, name.len() as int) =~= ext);
}

} // verus!
