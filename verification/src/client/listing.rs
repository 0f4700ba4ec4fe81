use vstd::prelude::*;
use vstd::string::StrSliceExecFns;

use crate::client::calendar::{civil_from_days, days_to_date};
use crate::protocol::messages::FileEntry;
use crate::text::{
    decimal, digit_char, push_decimal, push_repeated, push_str, push_zero_padded, repeated,
    right_aligned, zero_padded,
};

verus! {

/// Two to the power `k`.
pub open spec fn pow2(k: nat) -> nat
    decreases k,
{
    if k == 0 {
        1
    } else {
        2 * pow2((k - 1) as nat)
    }
}

/// The number of binary digits of `b` (0 for 0).
pub open spec fn bit_length(b: nat) -> nat
    decreases b,
{
    if b == 0 {
        0
    } else {
        1 + bit_length(b / 2)
    }
}

/// The value of `b as f64`: `b` rounded to 53 significant bits, to nearest with ties to even.
pub open spec fn f64_value(b: nat) -> nat {
    let k = bit_length(b);
    if k <= 53 {
        b
    } else {
        let p = pow2((k - 53) as nat);
        let m = b / p;
        let r = b % p;
        let m2 = if 2 * r > p || (2 * r == p && m % 2 == 1) {
            m + 1
        } else {
            m
        };
        m2 * p
    }
}

/// `v / den` in tenths, rounded to nearest with ties to even, as `{:.1}` rounds it.
pub open spec fn rounded_tenths(v: nat, den: nat) -> nat {
    let t = v * 10;
    let q = t / den;
    let r = t % den;
    if 2 * r > den || (2 * r == den && q % 2 == 1) {
        q + 1
    } else {
        q
    }
}

/// A count of tenths written with one decimal, as `{:.1}` writes it.
pub open spec fn tenths_text(q: nat) -> Seq<char> {
    decimal(q / 10) + seq!['.', digit_char((q % 10) as int)]
}

/// A byte count in human-readable units: whole bytes below 1 KiB, otherwise KiB, MiB or GiB
/// with one decimal (the binary value of the size divided by the unit, rounded to nearest
/// with ties to even).
pub open spec fn size_text(bytes: u64) -> Seq<char> {
    if bytes >= 1_073_741_824 {
        tenths_text(rounded_tenths(f64_value(bytes as nat), 1_073_741_824)).push('G')
    } else if bytes >= 1_048_576 {
        tenths_text(rounded_tenths(bytes as nat, 1_048_576)).push('M')
    } else if bytes >= 1024 {
        tenths_text(rounded_tenths(bytes as nat, 1024)).push('K')
    } else {
        decimal(bytes as nat).push('B')
    }
}

proof fn lemma_pow2_bound(k: nat)
    ensures
        pow2(k) >= 1,
    decreases k,
{
    if k > 0 {
        lemma_pow2_bound((k - 1) as nat);
    }
}

proof fn lemma_bit_length_bound(b: nat, k: nat)
    requires
        b < pow2(k),
    ensures
        bit_length(b) <= k,
    decreases k,
{
    if b > 0 {
        if k == 0 {
            assert(false);
        } else {
            assert(b / 2 < pow2((k - 1) as nat));
            lemma_bit_length_bound(b / 2, (k - 1) as nat);
        }
    }
}

/// The value of `b as f64`, exactly.
fn f64_value_of(b: u64) -> (r: u128)
    ensures
        r == f64_value(b as nat),
{
    proof {
        lemma_pow2_values();
        lemma_bit_length_bound(b as nat, 64);
    }
    let mut k: u64 = 0;
    let mut t: u64 = b;
    while t > 0
        invariant
            k + bit_length(t as nat) == bit_length(b as nat),
            bit_length(b as nat) <= 64,
        decreases t,
    {
        t = t / 2;
        k = k + 1;
    }
    if k <= 53 {
        return b as u128;
    }
    let s = k - 53;
    let mut p: u64 = 1;
    let mut i: u64 = 0;
    while i < s
        invariant
            i <= s,
            s <= 11,
            p == pow2(i as nat),
            p <= 2048,
        decreases s - i,
    {
        proof {
            lemma_pow2_values();
            assert(pow2((i + 1) as nat) == 2 * pow2(i as nat));
            lemma_pow2_monotone((i + 1) as nat, 11);
        }
        p = p * 2;
        i = i + 1;
    }
    proof {
        lemma_pow2_bound(s as nat);
    }
    let m = b / p;
    let r = b % p;
    let m2: u128 = if 2 * r > p || (2 * r == p && m % 2 == 1) {
        m as u128 + 1
    } else {
        m as u128
    };
    proof {
        assert(m2 * p <= 0x1_0000_0000_0000_0000 * 2048) by (nonlinear_arith)
            requires
                m2 <= m + 1,
                m <= 0xffff_ffff_ffff_ffff,
                p <= 2048,
        ;
    }
    m2 * (p as u128)
}

proof fn lemma_pow2_values()
    ensures
        pow2(11) == 2048,
        pow2(64) == 0x1_0000_0000_0000_0000nat,
{
    reveal_with_fuel(pow2, 65);
}

proof fn lemma_pow2_monotone(a: nat, b: nat)
    requires
        a <= b,
    ensures
        pow2(a) <= pow2(b),
    decreases b,
{
    if a < b {
        lemma_pow2_monotone(a, (b - 1) as nat);
    }
}

/// The tenths of `v / den`, rounded to nearest with ties to even.
fn tenths_of(v: u128, den: u128) -> (r: u128)
    requires
        0 < den <= 0x1_0000_0000,
        v <= 0x1_0000_0000_0000_0000,
    ensures
        r == rounded_tenths(v as nat, den as nat),
{
    let t = v * 10;
    let q = t / den;
    let r = t % den;
    if 2 * r > den || (2 * r == den && q % 2 == 1) {
        q + 1
    } else {
        q
    }
}

/// Append a count of tenths with one decimal.
fn push_tenths(s: &mut String, q: u128)
    requires
        q <= 0xffff_ffff_ffff_ffff,
    ensures
        final(s)@ == old(s)@ + tenths_text(q as nat),
{
    push_decimal(s, (q / 10) as u64);
    s.push('.');
    s.push((48u8 + (q % 10) as u8) as char);
    assert(s@ =~= old(s)@ + tenths_text(q as nat));
}

/// Format a byte count for a listing: `512B`, `1.5K`, `2.0M`, `3.1G`.
pub fn format_size(bytes: u64) -> (r: String)
    ensures
        r@ == size_text(bytes),
{
    let mut s = String::new();
    if bytes >= 1_073_741_824 {
        let v = f64_value_of(bytes);
        proof {
            lemma_f64_value_bound(bytes as nat);
        }
        let q = tenths_of(v, 1_073_741_824);
        proof {
            assert(q <= 0xffff_ffff_ffff_ffff) by (nonlinear_arith)
                requires
                    q <= v * 10 / 1_073_741_824 + 1,
                    v <= 0x1_0000_0000_0000_0000,
            ;
        }
        push_tenths(&mut s, q);
        s.push('G');
    } else if bytes >= 1_048_576 {
        let q = tenths_of(bytes as u128, 1_048_576);
        proof {
            assert(q <= 0xffff_ffff_ffff_ffff) by (nonlinear_arith)
                requires
                    q <= bytes * 10 / 1_048_576 + 1,
                    bytes < 1_073_741_824,
            ;
        }
        push_tenths(&mut s, q);
        s.push('M');
    } else if bytes >= 1024 {
        let q = tenths_of(bytes as u128, 1024);
        proof {
            assert(q <= 0xffff_ffff_ffff_ffff) by (nonlinear_arith)
                requires
                    q <= bytes * 10 / 1024 + 1,
                    bytes < 1_048_576,
            ;
        }
        push_tenths(&mut s, q);
        s.push('K');
    } else {
        push_decimal(&mut s, bytes);
        s.push('B');
    }
    assert(s@ =~= size_text(bytes));
    s
}

proof fn lemma_f64_value_bound(b: nat)
    requires
        b < 0x1_0000_0000_0000_0000,
    ensures
        f64_value(b) <= 0x1_0000_0000_0000_0000,
{
    let k = bit_length(b);
    lemma_pow2_values();
    lemma_bit_length_bound(b, 64);
    if k > 53 {
        let s = (k - 53) as nat;
        let p = pow2(s);
        lemma_pow2_bound(s);
        lemma_below_pow2_bit_length(b);
        lemma_pow2_add(s, 53);
        assert(pow2(53) == 0x20_0000_0000_0000nat) by {
            reveal_with_fuel(pow2, 54);
        }
        let m = b / p;
        assert(m < pow2(53)) by (nonlinear_arith)
            requires
                b < pow2(k),
                pow2(k) == p * pow2(53),
                m == b / p,
                p >= 1,
        ;
        lemma_pow2_monotone(k, 64);
        assert((m + 1) * p <= 0x1_0000_0000_0000_0000) by (nonlinear_arith)
            requires
                m + 1 <= pow2(53),
                pow2(k) == p * pow2(53),
                pow2(k) <= 0x1_0000_0000_0000_0000,
                p >= 1,
        ;
        assert(m * p <= (m + 1) * p) by (nonlinear_arith);
    }
}

proof fn lemma_below_pow2_bit_length(b: nat)
    ensures
        b < pow2(bit_length(b)),
    decreases b,
{
    if b > 0 {
        lemma_below_pow2_bit_length(b / 2);
    }
}

proof fn lemma_pow2_add(a: nat, b: nat)
    ensures
        pow2(a + b) == pow2(a) * pow2(b),
    decreases a,
{
    if a > 0 {
        lemma_pow2_add((a - 1) as nat, b);
        assert(pow2(a + b) == 2 * pow2((a - 1 + b) as nat));
        assert(2 * (pow2((a - 1) as nat) * pow2(b)) == (2 * pow2((a - 1) as nat)) * pow2(b))
            by (nonlinear_arith);
        assert(pow2(a) == 2 * pow2((a - 1) as nat));
    } else {
        assert(pow2(a) == 1);
        assert(a + b == b);
    }
}

/// Whether permission bit `k` of `mode` is set.
pub open spec fn mode_bit(mode: u32, k: u32) -> bool {
    (mode >> k) & 1 == 1
}

/// `c` where permission bit `k` is set, else `-`.
pub open spec fn mode_flag(mode: u32, k: u32, c: char) -> char {
    if mode_bit(mode, k) {
        c
    } else {
        '-'
    }
}

/// An `ls`-style permission string: the entry kind, then read/write/execute for the owner,
/// the group and others.
pub open spec fn permissions_text(mode: u32, is_dir: bool) -> Seq<char> {
    seq![
        if is_dir { 'd' } else { '-' },
        mode_flag(mode, 8, 'r'),
        mode_flag(mode, 7, 'w'),
        mode_flag(mode, 6, 'x'),
        mode_flag(mode, 5, 'r'),
        mode_flag(mode, 4, 'w'),
        mode_flag(mode, 3, 'x'),
        mode_flag(mode, 2, 'r'),
        mode_flag(mode, 1, 'w'),
        mode_flag(mode, 0, 'x'),
    ]
}

fn push_rwx(s: &mut String, mode: u32, shift: u32)
    requires
        shift == 6 || shift == 3 || shift == 0,
    ensures
        final(s)@ == old(s)@ + seq![
            mode_flag(mode, (shift + 2) as u32, 'r'),
            mode_flag(mode, (shift + 1) as u32, 'w'),
            mode_flag(mode, shift, 'x'),
        ],
{
    let bits = (mode >> shift) & 0o7;
    proof {
        assert(shift <= 6 ==> ((((mode >> shift) & 7) & 4 != 0) == ((mode >> ((shift + 2) as u32)) & 1
            == 1) && ((((mode >> shift) & 7) & 2 != 0) == ((mode >> ((shift + 1) as u32)) & 1 == 1))
            && ((((mode >> shift) & 7) & 1 != 0) == ((mode >> shift) & 1 == 1)))) by (bit_vector);
    }
    s.push(if bits & 4 != 0 { 'r' } else { '-' });
    s.push(if bits & 2 != 0 { 'w' } else { '-' });
    s.push(if bits & 1 != 0 { 'x' } else { '-' });
    assert(s@ =~= old(s)@ + seq![
        mode_flag(mode, (shift + 2) as u32, 'r'),
        mode_flag(mode, (shift + 1) as u32, 'w'),
        mode_flag(mode, shift, 'x'),
    ]);
}

/// Format a Unix mode as an `ls`-style permission string, such as `drwxr-xr-x`.
pub fn format_permissions(mode: u32, is_dir: bool) -> (r: String)
    ensures
        r@ == permissions_text(mode, is_dir),
{
    let mut s = String::new();
    s.push(if is_dir { 'd' } else { '-' });
    push_rwx(&mut s, mode, 6);
    push_rwx(&mut s, mode, 3);
    push_rwx(&mut s, mode, 0);
    assert(s@ =~= permissions_text(mode, is_dir));
    s
}

/// Rust's integer division, rounding toward zero (`b` positive).
pub open spec fn trunc_div(a: int, b: int) -> int {
    if a >= 0 {
        a / b
    } else {
        -((-a) / b)
    }
}

/// A modification time (seconds since 1970-01-01 UTC, read as a signed count) written as
/// `YYYY-MM-DD HH:MM`.
pub open spec fn timestamp_text(unix_secs: u64) -> Seq<char> {
    let secs = (unix_secs as i64) as int;
    let days = trunc_div(secs, 86400);
    let time_of_day = secs - 86400 * days;
    let hours = trunc_div(time_of_day, 3600);
    let minutes = trunc_div(time_of_day - 3600 * hours, 60);
    let date = civil_from_days(days);
    zero_padded(date.0, 4) + seq!['-'] + zero_padded(date.1, 2) + seq!['-'] + zero_padded(date.2, 2)
        + seq![' '] + zero_padded(hours, 2) + seq![':'] + zero_padded(minutes, 2)
}

/// Format a Unix timestamp as `YYYY-MM-DD HH:MM` (UTC).
pub fn format_timestamp(unix_secs: u64) -> (r: String)
    ensures
        r@ == timestamp_text(unix_secs),
{
    let secs = unix_secs as i64;
    let days = secs / 86400;
    let time_of_day = secs % 86400;
    let hours = time_of_day / 3600;
    let minutes = (time_of_day % 3600) / 60;
    let (year, month, day) = days_to_date(days);
    let mut s = String::new();
    push_zero_padded(&mut s, year, 4);
    s.push('-');
    push_zero_padded(&mut s, month as i64, 2);
    s.push('-');
    push_zero_padded(&mut s, day as i64, 2);
    s.push(' ');
    push_zero_padded(&mut s, hours, 2);
    s.push(':');
    push_zero_padded(&mut s, minutes, 2);
    assert(s@ =~= timestamp_text(unix_secs));
    s
}

/// The name of an entry as listed: directories get a trailing `/`.
pub open spec fn entry_name_text(e: FileEntry) -> Seq<char> {
    if e.is_dir {
        e.name@.push('/')
    } else {
        e.name@
    }
}

/// The width of the widest size in a listing.
pub open spec fn size_width(entries: Seq<FileEntry>) -> int
    decreases entries.len(),
{
    if entries.len() == 0 {
        0
    } else {
        let rest = size_width(entries.drop_last());
        let w = size_text(entries.last().size).len() as int;
        if w > rest {
            w
        } else {
            rest
        }
    }
}

/// One line of a listing: permissions, the size right-aligned to `width`, the modification
/// time and the name, separated by two spaces.
pub open spec fn entry_line(e: FileEntry, width: int) -> Seq<char> {
    permissions_text(e.permissions, e.is_dir) + seq![' ', ' '] + right_aligned(size_text(e.size), width)
        + seq![' ', ' '] + timestamp_text(e.modified) + seq![' ', ' '] + entry_name_text(e)
}

fn format_entry_line(e: &FileEntry, size: &str, width: usize) -> (line: String)
    requires
        size@ == size_text(e.size),
    ensures
        line@ == entry_line(*e, width as int),
{
    let mut line = format_permissions(e.permissions, e.is_dir);
    push_str(&mut line, "  ");
    let len = size.unicode_len();
    let pad: usize = if width > len { width - len } else { 0 };
    push_repeated(&mut line, ' ', pad);
    push_str(&mut line, size);
    push_str(&mut line, "  ");
    let stamp = format_timestamp(e.modified);
    push_str(&mut line, stamp.as_str());
    push_str(&mut line, "  ");
    push_str(&mut line, e.name.as_str());
    if e.is_dir {
        line.push('/');
    }
    proof {
        reveal_strlit("  ");
        assert(repeated(' ', pad as int) =~= repeated(' ', width - size_text(e.size).len()));
        assert(line@ =~= entry_line(*e, width as int));
    }
    line
}

/// The lines of a directory listing, sizes aligned on the widest one.
pub fn format_entries(entries: &[FileEntry]) -> (r: Vec<String>)
    ensures
        r@.len() == entries@.len(),
        forall|i: int|
            0 <= i < entries@.len() ==> (#[trigger] r@[i])@ == entry_line(
                entries@[i],
                size_width(entries@),
            ),
{
    let n = entries.len();
    let mut sizes: Vec<String> = Vec::new();
    let mut width: usize = 0;
    let mut i: usize = 0;
    while i < n
        invariant
            n == entries@.len(),
            i <= n,
            sizes@.len() == i,
            forall|j: int| 0 <= j < i ==> (#[trigger] sizes@[j])@ == size_text(entries@[j].size),
            width == size_width(entries@.take(i as int)),
        decreases n - i,
    {
        let text = format_size(entries[i].size);
        let len = text.as_str().unicode_len();
        proof {
            assert(entries@.take(i + 1).drop_last() == entries@.take(i as int));
        }
        if len > width {
            width = len;
        }
        sizes.push(text);
        i = i + 1;
    }
    proof {
        assert(entries@.take(n as int) == entries@);
    }
    let mut lines: Vec<String> = Vec::new();
    let mut k: usize = 0;
    while k < n
        invariant
            n == entries@.len(),
            k <= n,
            sizes@.len() == n,
            forall|j: int| 0 <= j < n ==> (#[trigger] sizes@[j])@ == size_text(entries@[j].size),
            width == size_width(entries@),
            lines@.len() == k,
            forall|j: int|
                0 <= j < k ==> (#[trigger] lines@[j])@ == entry_line(entries@[j], width as int),
        decreases n - k,
    {
        let line = format_entry_line(&entries[k], sizes[k].as_str(), width);
        lines.push(line);
        k = k + 1;
    }
    lines
}

/// The sizes of a listing are aligned to the widest of them, whatever the order of the
/// entries: the width is at least every entry's size text, and is that of some entry (0 for
/// an empty listing).
pub proof fn law_sizes_align_to_the_widest(entries: Seq<FileEntry>)
    ensures
        forall|i: int|
            0 <= i < entries.len() ==> size_text(#[trigger] entries[i].size).len() <= size_width(
                entries,
            ),
        entries.len() == 0 ==> size_width(entries) == 0,
        entries.len() > 0 ==> exists|i: int|
            0 <= i < entries.len() && size_width(entries) == size_text(
                #[trigger] entries[i].size,
            ).len(),
    decreases entries.len(),
{
    if entries.len() > 0 {
        let rest = entries.drop_last();
        law_sizes_align_to_the_widest(rest);
        let k = entries.len() - 1;
        assert forall|i: int| 0 <= i < entries.len() implies size_text(
            #[trigger] entries[i].size,
        ).len() <= size_width(entries) by {
            if i < k {
                assert(entries[i] == rest[i]);
            }
        }
        if size_text(entries[k].size).len() as int > size_width(rest) || rest.len() == 0 {
            assert(size_width(entries) == size_text(entries[k].size).len());
        } else {
            let j = choose|j: int|
                0 <= j < rest.len() && size_width(rest) == size_text(#[trigger] rest[j].size).len();
            assert(entries[j] == rest[j]);
        }
    }
}

} // verus!
