//! Verified text helpers: ASCII lowercasing and trimming, and the format
//! normalization used by the resolver and the convert stage.  Case folding
//! here is ASCII-only: format names and file extensions are ASCII.

use vstd::prelude::*;

verus! {

/// ASCII lowercase of one character: 'A'..='Z' map down, all else unchanged.
pub open spec fn spec_lower_char(c: char) -> char {
    if 'A' <= c && c <= 'Z' {
        ((c as u32) + 32) as char
    } else {
        c
    }
}

/// Relies on char::to_ascii_lowercase: 'A'..='Z' map to 'a'..='z',
/// every other character is returned unchanged.
#[verifier::external_body]
pub fn lower_char(c: char) -> (r: char)
    ensures
        r == spec_lower_char(c),
{
    c.to_ascii_lowercase()
}

/// Relies on String::push: appends exactly one character.
#[verifier::external_body]
pub fn push_char(s: &mut String, c: char)
    ensures
        final(s)@ == old(s)@.push(c),
{
    s.push(c);
}

/// The sequence with every character ASCII-lowercased.
pub open spec fn spec_lower(s: Seq<char>) -> Seq<char> {
    s.map_values(|c: char| spec_lower_char(c))
}

/// ASCII-lowercase a string.
pub fn ascii_lower(s: &str) -> (r: String)
    ensures
        r@ == spec_lower(s@),
{
    let ghost full = s@;
    let mut out = String::new();
    let n = s.unicode_len();
    let mut i: usize = 0;
    while i < n
        invariant
            n == full.len(),
            s@ == full,
            i <= n,
            out@ == spec_lower(full.take(i as int)),
        decreases n - i,
    {
        let c = s.get_char(i);
        let lc = lower_char(c);
        push_char(&mut out, lc);
        proof {
            assert(spec_lower(full.take(i + 1)) =~= spec_lower(full.take(i as int)).push(
                spec_lower_char(full[i as int]),
            ));
        }
        i = i + 1;
    }
    proof {
        assert(full.take(n as int) =~= full);
    }
    out
}

/// ASCII whitespace, as trimmed from the ends of a format string.
pub open spec fn spec_is_space(c: char) -> bool {
    c == ' ' || c == '\t' || c == '\n' || c == '\r'
}

/// Whether a character is ASCII whitespace.
pub fn is_space(c: char) -> (r: bool)
    ensures
        r == spec_is_space(c),
{
    c == ' ' || c == '\t' || c == '\n' || c == '\r'
}

/// The sequence with leading ASCII whitespace removed.
pub open spec fn spec_trim_start(s: Seq<char>) -> Seq<char>
    decreases s.len(),
{
    if s.len() == 0 {
        s
    } else if spec_is_space(s.first()) {
        spec_trim_start(s.drop_first())
    } else {
        s
    }
}

/// The sequence with trailing ASCII whitespace removed.
pub open spec fn spec_trim_end(s: Seq<char>) -> Seq<char>
    decreases s.len(),
{
    if s.len() == 0 {
        s
    } else if spec_is_space(s.last()) {
        spec_trim_end(s.drop_last())
    } else {
        s
    }
}

/// The sequence with ASCII whitespace removed from both ends.
pub open spec fn spec_trim(s: Seq<char>) -> Seq<char> {
    spec_trim_end(spec_trim_start(s))
}

/// Dropping a known run of leading spaces computes `spec_trim_start`.
proof fn lemma_trim_start_skip(s: Seq<char>, k: int)
    requires
        0 <= k <= s.len(),
        forall|i: int| 0 <= i < k ==> spec_is_space(#[trigger] s[i]),
        k == s.len() || !spec_is_space(s[k]),
    ensures
        spec_trim_start(s) =~= s.skip(k),
    decreases k,
{
    if k == 0 {
        if s.len() == 0 {
            assert(spec_trim_start(s) =~= s.skip(0));
        } else {
            assert(!spec_is_space(s.first()));
            assert(spec_trim_start(s) =~= s.skip(0));
        }
    } else {
        assert(spec_is_space(s.first()));
        lemma_trim_start_skip(s.drop_first(), k - 1);
        assert(s.drop_first().skip(k - 1) =~= s.skip(k));
    }
}

/// Taking everything before a known run of trailing spaces computes
/// `spec_trim_end`.
proof fn lemma_trim_end_take(s: Seq<char>, k: int)
    requires
        0 <= k <= s.len(),
        forall|i: int| k <= i < s.len() ==> spec_is_space(#[trigger] s[i]),
        k == 0 || !spec_is_space(s[k - 1]),
    ensures
        spec_trim_end(s) =~= s.take(k),
    decreases s.len(),
{
    if k == s.len() {
        if s.len() == 0 {
            assert(spec_trim_end(s) =~= s.take(k));
        } else {
            assert(!spec_is_space(s.last()));
            assert(spec_trim_end(s) =~= s.take(k));
        }
    } else {
        assert(spec_is_space(s.last()));
        lemma_trim_end_take(s.drop_last(), k);
        assert(s.drop_last().take(k) =~= s.take(k));
    }
}

/// Trim ASCII whitespace from both ends of a string.
pub fn trim_ascii(s: &str) -> (r: &str)
    ensures
        r@ == spec_trim(s@),
{
    let n = s.unicode_len();
    let mut lo: usize = 0;
    while lo < n && is_space(s.get_char(lo))
        invariant
            n == s@.len(),
            lo <= n,
            forall|i: int| 0 <= i < lo ==> spec_is_space(#[trigger] s@[i]),
        decreases n - lo,
    {
        lo = lo + 1;
    }
    let mut hi: usize = n;
    while hi > lo && is_space(s.get_char(hi - 1))
        invariant
            n == s@.len(),
            lo <= hi <= n,
            forall|i: int| hi <= i < n ==> spec_is_space(#[trigger] s@[i]),
        decreases hi,
    {
        hi = hi - 1;
    }
    proof {
        lemma_trim_start_skip(s@, lo as int);
        let mid = s@.skip(lo as int);
        lemma_trim_end_take(mid, hi - lo);
        assert(mid.take(hi - lo) =~= s@.subrange(lo as int, hi as int));
    }
    s.substring_char(lo, hi)
}

/// The normalized form of a format name: trimmed, ASCII-lowercased.
pub open spec fn spec_normalized_format(s: Seq<char>) -> Seq<char> {
    spec_lower(spec_trim(s))
}

/// A format name is explicit when its normalized form is non-empty and
/// not "auto".
pub open spec fn spec_is_explicit_format(s: Seq<char>) -> bool {
    spec_normalized_format(s).len() > 0 && spec_normalized_format(s) != "auto"@
}

/// Normalize a format name: trim and ASCII-lowercase it.
pub fn normalized_format(s: &str) -> (r: String)
    ensures
        r@ == spec_normalized_format(s@),
{
    ascii_lower(trim_ascii(s))
}

/// Whether a format name names an explicit output format (non-empty and
/// not "auto" once normalized).
pub fn is_explicit_format(s: &str) -> (r: bool)
    ensures
        r == spec_is_explicit_format(s@),
{
    let n = normalized_format(s);
    if n.as_str().unicode_len() == 0 {
        false
    } else {
        let auto = "auto".to_owned();
        !n.eq(&auto)
    }
}

} // verus!
