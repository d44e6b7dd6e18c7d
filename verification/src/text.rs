//! Character-level helpers shared by the request, validation and labeling code.

use vstd::prelude::*;

verus! {

/// ASCII letter.
pub open spec fn is_ascii_alpha(c: char) -> bool {
    ('a' <= c && c <= 'z') || ('A' <= c && c <= 'Z')
}

/// ASCII letter or digit.
pub open spec fn is_ascii_alnum(c: char) -> bool {
    is_ascii_alpha(c) || ('0' <= c && c <= '9')
}

/// ASCII upper-case letters mapped to lower case; every other character unchanged.
pub open spec fn ascii_lower(c: char) -> char {
    if 'A' <= c && c <= 'Z' {
        ((c as u32) + 32) as char
    } else {
        c
    }
}

/// A whole string with its ASCII letters in lower case.
pub open spec fn lower(s: Seq<char>) -> Seq<char> {
    s.map_values(|c: char| ascii_lower(c))
}

/// Characters with the Unicode `White_Space` property.
pub open spec fn is_white_space(c: char) -> bool {
    let u = c as u32;
    ||| 0x09 <= u && u <= 0x0d
    ||| u == 0x20
    ||| u == 0x85
    ||| u == 0xa0
    ||| u == 0x1680
    ||| 0x2000 <= u && u <= 0x200a
    ||| u == 0x2028
    ||| u == 0x2029
    ||| u == 0x202f
    ||| u == 0x205f
    ||| u == 0x3000
}

/// Text that trimming would leave empty: every character is white space.
pub open spec fn is_blank(s: Seq<char>) -> bool {
    forall|i: int| 0 <= i < s.len() ==> is_white_space(#[trigger] s[i])
}

/// Copies the characters of a string slice into a vector.
pub fn chars_of(s: &str) -> (v: Vec<char>)
    ensures
        v@ == s@,
{
    let mut v: Vec<char> = Vec::new();
    for c in it: s.chars()
        invariant
            v@ == it.seq().take(it.index() as int),
    {
        v.push(c);
    }
    v
}

/// Collects characters into a `String`, through std's `FromIterator<&char>` for `String`;
/// the claim is that the string holds exactly those characters, in order.
#[verifier::external_body]
pub(crate) fn string_of(chars: &[char]) -> (s: String)
    ensures
        s@ == chars@,
{
    chars.iter().collect()
}

/// Decides `is_ascii_alpha`.
pub fn ascii_alpha(c: char) -> (b: bool)
    ensures
        b == is_ascii_alpha(c),
{
    ('a' <= c && c <= 'z') || ('A' <= c && c <= 'Z')
}

/// Decides `is_ascii_alnum`.
pub fn ascii_alnum(c: char) -> (b: bool)
    ensures
        b == is_ascii_alnum(c),
{
    ascii_alpha(c) || ('0' <= c && c <= '9')
}

/// Decides `is_white_space`.
pub fn white_space(c: char) -> (b: bool)
    ensures
        b == is_white_space(c),
{
    let u = c as u32;
    (0x09 <= u && u <= 0x0d) || u == 0x20 || u == 0x85 || u == 0xa0 || u == 0x1680 || (0x2000
        <= u && u <= 0x200a) || u == 0x2028 || u == 0x2029 || u == 0x202f || u == 0x205f || u
        == 0x3000
}

/// Decides whether trimming white space from `s` leaves nothing.
pub fn blank(s: &str) -> (b: bool)
    ensures
        b == is_blank(s@),
{
    let cs = chars_of(s);
    let mut i: usize = 0;
    while i < cs.len()
        invariant
            i <= cs@.len(),
            cs@ == s@,
            forall|j: int| 0 <= j < i ==> is_white_space(#[trigger] s@[j]),
        decreases cs@.len() - i,
    {
        if !white_space(cs[i]) {
            return false;
        }
        i += 1;
    }
    true
}

/// Lower-cases the ASCII letters of `s`.
pub fn to_ascii_lower(s: &str) -> (r: String)
    ensures
        r@ == lower(s@),
{
    let cs = chars_of(s);
    let mut out: Vec<char> = Vec::new();
    let mut i: usize = 0;
    while i < cs.len()
        invariant
            i <= cs@.len(),
            cs@ == s@,
            out@ == lower(s@).take(i as int),
        decreases cs@.len() - i,
    {
        let c = cs[i];
        let l = if 'A' <= c && c <= 'Z' {
            ((c as u8) + 32) as char
        } else {
            c
        };
        out.push(l);
        assert(out@ =~= lower(s@).take(i + 1));
        i += 1;
    }
    assert(out@ =~= lower(s@));
    string_of(out.as_slice())
}

/// `s` without trailing white space.
pub open spec fn trim_end(s: Seq<char>) -> Seq<char>
    decreases s.len(),
{
    if s.len() > 0 && is_white_space(s.last()) {
        trim_end(s.drop_last())
    } else {
        s
    }
}

/// `s` without leading white space.
pub open spec fn trim_start(s: Seq<char>) -> Seq<char>
    decreases s.len(),
{
    if s.len() > 0 && is_white_space(s[0]) {
        trim_start(s.drop_first())
    } else {
        s
    }
}

/// `s` without leading or trailing white space.
pub open spec fn trim(s: Seq<char>) -> Seq<char> {
    trim_start(trim_end(s))
}

/// `s` without trailing carriage returns and line feeds.
pub open spec fn trim_line_ends(s: Seq<char>) -> Seq<char>
    decreases s.len(),
{
    if s.len() > 0 && (s.last() == '\r' || s.last() == '\n') {
        trim_line_ends(s.drop_last())
    } else {
        s
    }
}

/// Whether trimming removes `c`: white space, or only CR and LF.
fn strippable(c: char, newlines_only: bool) -> (b: bool)
    ensures
        b == if newlines_only {
            c == '\r' || c == '\n'
        } else {
            is_white_space(c)
        },
{
    if newlines_only {
        c == '\r' || c == '\n'
    } else {
        white_space(c)
    }
}

/// The index after the last character of `cs` that `strip` keeps, where `strip`
/// is white space (`newlines_only` false) or CR and LF (`newlines_only` true).
fn kept_end(cs: &Vec<char>, newlines_only: bool) -> (end: usize)
    ensures
        end <= cs@.len(),
        !newlines_only ==> trim_end(cs@) == cs@.take(end as int),
        newlines_only ==> trim_line_ends(cs@) == cs@.take(end as int),
{
    let mut end = cs.len();
    assert(cs@.take(end as int) =~= cs@);
    while end > 0 && strippable(cs[end - 1], newlines_only)
        invariant
            end <= cs@.len(),
            !newlines_only ==> trim_end(cs@) == trim_end(cs@.take(end as int)),
            newlines_only ==> trim_line_ends(cs@) == trim_line_ends(cs@.take(end as int)),
        decreases end,
    {
        assert(cs@.take(end - 1) =~= cs@.take(end as int).drop_last());
        end -= 1;
    }
    end
}

/// Removes trailing white space.
pub fn trimmed_end(s: &str) -> (r: String)
    ensures
        r@ == trim_end(s@),
{
    let cs = chars_of(s);
    let end = kept_end(&cs, false);
    string_of(vstd::slice::slice_subrange(cs.as_slice(), 0, end))
}

/// Removes trailing carriage returns and line feeds.
pub fn trimmed_line_ends(s: &str) -> (r: String)
    ensures
        r@ == trim_line_ends(s@),
{
    let cs = chars_of(s);
    let end = kept_end(&cs, true);
    string_of(vstd::slice::slice_subrange(cs.as_slice(), 0, end))
}

/// Removes leading and trailing white space.
pub fn trimmed(s: &str) -> (r: String)
    ensures
        r@ == trim(s@),
{
    let cs = chars_of(s);
    let end = kept_end(&cs, false);
    let ghost e = cs@.take(end as int);
    let mut start: usize = 0;
    assert(e.subrange(0, e.len() as int) =~= e);
    while start < end && white_space(cs[start])
        invariant
            start <= end <= cs@.len(),
            e == cs@.take(end as int),
            trim_start(e) == trim_start(e.subrange(start as int, end as int)),
        decreases end - start,
    {
        assert(e.subrange(start + 1, end as int) =~= e.subrange(start as int, end as int).drop_first());
        start += 1;
    }
    string_of(vstd::slice::slice_subrange(cs.as_slice(), start, end))
}

proof fn lemma_trim_end_keeps_non_blank(s: Seq<char>)
    requires
        !is_blank(s),
    ensures
        !is_blank(trim_end(s)),
    decreases s.len(),
{
    if s.len() > 0 && is_white_space(s.last()) {
        let i = choose|i: int| 0 <= i < s.len() && !is_white_space(s[i]);
        assert(s.drop_last()[i] == s[i]);
        lemma_trim_end_keeps_non_blank(s.drop_last());
    }
}

proof fn lemma_trim_start_keeps_non_blank(s: Seq<char>)
    requires
        !is_blank(s),
    ensures
        !is_blank(trim_start(s)),
    decreases s.len(),
{
    if s.len() > 0 && is_white_space(s[0]) {
        let i = choose|i: int| 0 <= i < s.len() && !is_white_space(s[i]);
        assert(s.drop_first()[i - 1] == s[i]);
        lemma_trim_start_keeps_non_blank(s.drop_first());
    }
}

/// Trimming text that is not blank leaves text that is not blank, and so not empty.
pub proof fn lemma_trim_keeps_non_blank(s: Seq<char>)
    requires
        !is_blank(s),
    ensures
        !is_blank(trim(s)),
        trim(s).len() > 0,
{
    lemma_trim_end_keeps_non_blank(s);
    lemma_trim_start_keeps_non_blank(trim_end(s));
}


/// Where the trimmed text stands in `s`: between white space only, and
/// neither beginning nor ending with white space.
pub(crate) proof fn lemma_trim_bounds(s: Seq<char>)
    requires
        !is_blank(s),
    ensures
        trim_end(s).len() - trim(s).len() >= 0,
        trim_end(s).len() <= s.len(),
        s.subrange(trim_end(s).len() - trim(s).len(), trim_end(s).len() as int) == trim(s),
        is_blank(s.take(trim_end(s).len() - trim(s).len())),
        is_blank(s.skip(trim_end(s).len() as int)),
        trim(s).len() > 0,
        !is_white_space(trim(s)[0]),
        !is_white_space(trim(s).last()),
{
    lemma_trim_keeps_non_blank(s);
    lemma_trim_end_bounds(s);
    let e = trim_end(s);
    lemma_trim_start_bounds(e);
    let t = trim(s);
    let m = e.len() - t.len();
    assert(s.subrange(m, e.len() as int) =~= e.skip(m));
    assert(s.take(m) =~= e.take(m));
    assert(t.last() == e.skip(m)[t.len() - 1]);
}

proof fn lemma_trim_end_bounds(s: Seq<char>)
    ensures
        trim_end(s).len() <= s.len(),
        trim_end(s) == s.take(trim_end(s).len() as int),
        is_blank(s.skip(trim_end(s).len() as int)),
        trim_end(s).len() > 0 ==> !is_white_space(trim_end(s).last()),
    decreases s.len(),
{
    if s.len() > 0 && is_white_space(s.last()) {
        let p = s.drop_last();
        lemma_trim_end_bounds(p);
        let n = trim_end(p).len() as int;
        assert(p.take(n) =~= s.take(n));
        assert forall|i: int| 0 <= i < s.skip(n).len() implies is_white_space(#[trigger] s.skip(n)[i]) by {
            if n + i < p.len() {
                assert(s.skip(n)[i] == p.skip(n)[i]);
            }
        }
    } else {
        assert(s.take(s.len() as int) =~= s);
        assert(s.skip(s.len() as int).len() == 0);
    }
}

proof fn lemma_trim_start_bounds(s: Seq<char>)
    ensures
        trim_start(s).len() <= s.len(),
        trim_start(s) == s.skip(s.len() - trim_start(s).len()),
        is_blank(s.take(s.len() - trim_start(s).len())),
        trim_start(s).len() > 0 ==> !is_white_space(trim_start(s)[0]),
    decreases s.len(),
{
    if s.len() > 0 && is_white_space(s[0]) {
        let p = s.drop_first();
        lemma_trim_start_bounds(p);
        let m = p.len() - trim_start(p).len();
        assert(p.skip(m) =~= s.skip(m + 1));
        assert forall|i: int| 0 <= i < s.take(m + 1).len() implies is_white_space(#[trigger] s.take(m + 1)[i]) by {
            if i > 0 {
                assert(s.take(m + 1)[i] == p.take(m)[i - 1]);
            }
        }
    } else {
        assert(s.skip(0) =~= s);
        assert(s.take(0).len() == 0);
    }
}

} // verus!
