//! Verified text primitives: ASCII case folding, whitespace trimming,
//! case-insensitive prefix tests, substring search and decimal formatting.
//!
//! Option names, titles and identifiers are compared with these functions;
//! their specifications are stated over `Seq<char>` views.

use vstd::prelude::*;

verus! {

/// ASCII lower-casing of a single character: `'A'..'Z'` map to `'a'..'z'`,
/// everything else is unchanged.
pub open spec fn lower_char(c: char) -> char {
    if 'A' <= c && c <= 'Z' {
        ((c as u32) + 32) as char
    } else {
        c
    }
}

/// ASCII lower-casing of a character sequence.
pub open spec fn lower(s: Seq<char>) -> Seq<char> {
    s.map_values(|c: char| lower_char(c))
}

/// Unicode white space (the `White_Space` property), the set of characters
/// that trimming removes.
pub open spec fn is_space(c: char) -> bool {
    c == ' ' || c == '\t' || c == '\n' || c == '\r' || c == '\u{b}' || c == '\u{c}'
        || c == '\u{85}' || c == '\u{a0}' || c == '\u{1680}' || ('\u{2000}' <= c
        && c <= '\u{200a}') || c == '\u{2028}' || c == '\u{2029}' || c == '\u{202f}'
        || c == '\u{205f}' || c == '\u{3000}'
}

/// The sequence with leading white space removed.
pub open spec fn trim_start(s: Seq<char>) -> Seq<char>
    decreases s.len(),
{
    if s.len() == 0 {
        s
    } else if is_space(s[0]) {
        trim_start(s.drop_first())
    } else {
        s
    }
}

/// The sequence with trailing white space removed.
pub open spec fn trim_end(s: Seq<char>) -> Seq<char>
    decreases s.len(),
{
    if s.len() == 0 {
        s
    } else if is_space(s[s.len() - 1]) {
        trim_end(s.drop_last())
    } else {
        s
    }
}

/// The sequence with leading and trailing white space removed.
pub open spec fn trim(s: Seq<char>) -> Seq<char> {
    trim_end(trim_start(s))
}

/// `needle` occurs in `haystack` starting at position `i`.
pub open spec fn matches_at(haystack: Seq<char>, needle: Seq<char>, i: int) -> bool {
    0 <= i && i + needle.len() <= haystack.len() && haystack.subrange(i, i + needle.len())
        =~= needle
}

/// `needle` occurs somewhere in `haystack`.
pub open spec fn contains_seq(haystack: Seq<char>, needle: Seq<char>) -> bool {
    exists|i: int| matches_at(haystack, needle, i)
}

/// Lower-cases one character, as `lower_char` describes.
pub fn ascii_lower_char(c: char) -> (r: char)
    ensures
        r == lower_char(c),
{
    if 'A' <= c && c <= 'Z' {
        let u: u32 = c as u32;
        assert(u <= 90);
        let b: u8 = (u + 32) as u8;
        b as char
    } else {
        c
    }
}

/// Whether `c` is white space, as `is_space` describes.
pub fn is_space_char(c: char) -> (r: bool)
    ensures
        r == is_space(c),
{
    c == ' ' || c == '\t' || c == '\n' || c == '\r' || c == '\u{b}' || c == '\u{c}'
        || c == '\u{85}' || c == '\u{a0}' || c == '\u{1680}' || ('\u{2000}' <= c
        && c <= '\u{200a}') || c == '\u{2028}' || c == '\u{2029}' || c == '\u{202f}'
        || c == '\u{205f}' || c == '\u{3000}'
}

proof fn lemma_trim_start_subrange(s: Seq<char>, k: int)
    requires
        0 <= k <= s.len(),
        forall|i: int| 0 <= i < k ==> is_space(s[i]),
        k == s.len() || !is_space(s[k]),
    ensures
        trim_start(s) =~= s.subrange(k, s.len() as int),
    decreases k,
{
    if k == 0 {
        if s.len() == 0 {
        } else {
            assert(trim_start(s) == s);
        }
    } else {
        let t = s.drop_first();
        assert(forall|i: int| 0 <= i < k - 1 ==> is_space(#[trigger] t[i]));
        assert(k - 1 == t.len() || !is_space(t[k - 1]));
        lemma_trim_start_subrange(t, k - 1);
        assert(t.subrange(k - 1, t.len() as int) =~= s.subrange(k, s.len() as int));
    }
}

proof fn lemma_trim_end_subrange(s: Seq<char>, k: int)
    requires
        0 <= k <= s.len(),
        forall|i: int| k <= i < s.len() ==> is_space(s[i]),
        k == 0 || !is_space(s[k - 1]),
    ensures
        trim_end(s) =~= s.subrange(0, k),
    decreases s.len(),
{
    if k == s.len() {
        if s.len() == 0 {
        } else {
            assert(trim_end(s) == s);
        }
        assert(s.subrange(0, k) =~= s);
    } else {
        let t = s.drop_last();
        assert(is_space(s[s.len() - 1]));
        assert(forall|i: int| k <= i < t.len() ==> is_space(#[trigger] t[i]));
        lemma_trim_end_subrange(t, k);
        assert(t.subrange(0, k) =~= s.subrange(0, k));
    }
}

/// Start and end of the trimmed span of `v`: `trim(v)` is exactly
/// `v[r.0 .. r.1]`.
pub fn trim_bounds(v: &Vec<char>) -> (r: (usize, usize))
    ensures
        r.0 <= r.1 <= v@.len(),
        trim(v@) =~= v@.subrange(r.0 as int, r.1 as int),
{
    let len = v.len();
    let mut lo: usize = 0;
    while lo < len && is_space_char(v[lo])
        invariant
            lo <= len,
            len == v@.len(),
            forall|i: int| 0 <= i < lo ==> is_space(v@[i]),
        decreases len - lo,
    {
        lo = lo + 1;
    }
    proof {
        lemma_trim_start_subrange(v@, lo as int);
    }
    if lo == len {
        proof {
            lemma_trim_end_subrange(trim_start(v@), 0);
        }
        return (len, len);
    }
    let mut hi: usize = len;
    while hi > lo && is_space_char(v[hi - 1])
        invariant
            lo <= hi <= len,
            len == v@.len(),
            forall|i: int| hi <= i < len ==> is_space(v@[i]),
        decreases hi,
    {
        hi = hi - 1;
    }
    proof {
        // Both ends of the trimmed span carry a non-space character, so
        // `hi > lo` when the second scan stops.
        assert(!is_space(v@[lo as int]));
        assert(hi > lo);
        let t = trim_start(v@);
        assert(t =~= v@.subrange(lo as int, len as int));
        assert(forall|i: int|
            hi - lo <= i < t.len() ==> is_space(#[trigger] t[i]));
        assert(!is_space(t[hi - lo - 1]));
        lemma_trim_end_subrange(t, hi - lo);
        assert(t.subrange(0, hi - lo) =~= v@.subrange(lo as int, hi as int));
    }
    (lo, hi)
}

/// The characters of `s`, as a vector.
pub fn str_chars(s: &str) -> (v: Vec<char>)
    ensures
        v@ == s@,
{
    let len: usize = s.unicode_len();
    let mut v: Vec<char> = Vec::new();
    let mut i: usize = 0;
    while i < len
        invariant
            i <= len,
            len == s@.len(),
            v@ =~= s@.take(i as int),
        decreases len - i,
    {
        v.push(s.get_char(i));
        i = i + 1;
    }
    assert(v@ =~= s@);
    v
}

/// Case-insensitive prefix test: `wanted`, lower-cased, is a prefix of the
/// trimmed and lower-cased `name`. This is the comparison the field resolver
/// performs against every option name.
pub fn prefix_matches_trimmed_ci(name: &str, wanted: &str) -> (r: bool)
    ensures
        r == lower(wanted@).is_prefix_of(lower(trim(name@))),
{
    let nv = str_chars(name);
    let wv = str_chars(wanted);
    let (lo, hi) = trim_bounds(&nv);
    let wlen = wv.len();
    if wlen > hi - lo {
        assert(lower(wanted@).len() > lower(trim(name@)).len());
        return false;
    }
    let ghost t = trim(name@);
    let mut j: usize = 0;
    while j < wlen
        invariant
            j <= wlen,
            wlen == wv@.len(),
            wv@ == wanted@,
            nv@ == name@,
            lo <= hi <= nv@.len(),
            t =~= name@.subrange(lo as int, hi as int),
            t == trim(name@),
            wlen <= hi - lo,
            forall|i: int| 0 <= i < j ==> lower_char(wanted@[i]) == lower_char(#[trigger] t[i]),
        decreases wlen - j,
    {
        let wc = ascii_lower_char(wv[j]);
        let nc = ascii_lower_char(nv[lo + j]);
        if wc != nc {
            assert(lower(wanted@)[j as int] != lower(t)[j as int]);
            assert(!lower(wanted@).is_prefix_of(lower(t)));
            return false;
        }
        j = j + 1;
    }
    assert forall|i: int| 0 <= i < lower(wanted@).len() implies lower(wanted@)[i] == lower(t).subrange(
        0,
        lower(wanted@).len() as int,
    )[i] by {
        assert(lower_char(wanted@[i]) == lower_char(t[i]));
    }
    assert(lower(wanted@) =~= lower(t).subrange(0, lower(wanted@).len() as int));
    true
}

/// Case-insensitive prefix test without trimming: `prefix`, lower-cased, is a
/// prefix of the lower-cased `s`.
pub fn starts_with_ci(s: &str, prefix: &str) -> (r: bool)
    ensures
        r == lower(prefix@).is_prefix_of(lower(s@)),
{
    let sv = str_chars(s);
    let pv = str_chars(prefix);
    let plen = pv.len();
    if plen > sv.len() {
        return false;
    }
    let mut j: usize = 0;
    while j < plen
        invariant
            j <= plen,
            plen == pv@.len(),
            pv@ == prefix@,
            sv@ == s@,
            plen <= s@.len(),
            forall|i: int| 0 <= i < j ==> lower_char(prefix@[i]) == lower_char(#[trigger] s@[i]),
        decreases plen - j,
    {
        let pc = ascii_lower_char(pv[j]);
        let sc = ascii_lower_char(sv[j]);
        if pc != sc {
            assert(lower(prefix@)[j as int] != lower(s@)[j as int]);
            assert(!lower(prefix@).is_prefix_of(lower(s@)));
            return false;
        }
        j = j + 1;
    }
    assert(lower(prefix@) =~= lower(s@).subrange(0, lower(prefix@).len() as int));
    true
}

/// Substring search: whether `needle` occurs anywhere in `haystack`.
pub fn contains_str(haystack: &str, needle: &str) -> (r: bool)
    ensures
        r == contains_seq(haystack@, needle@),
{
    let hv = str_chars(haystack);
    let nv = str_chars(needle);
    let hlen = hv.len();
    let nlen = nv.len();
    if nlen > hlen {
        assert(forall|i: int| !matches_at(haystack@, needle@, i));
        return false;
    }
    let mut i: usize = 0;
    while i <= hlen - nlen
        invariant
            hv@ == haystack@,
            nv@ == needle@,
            hlen == hv@.len(),
            nlen == nv@.len(),
            nlen <= hlen,
            i <= hlen - nlen + 1,
            forall|k: int| 0 <= k < i ==> !matches_at(haystack@, needle@, k),
        decreases hlen - nlen - i + 1,
    {
        let mut j: usize = 0;
        let mut all_eq = true;
        while j < nlen
            invariant
                j <= nlen,
                i + nlen <= hlen,
                hv@ == haystack@,
                nv@ == needle@,
                hlen == hv@.len(),
                nlen == nv@.len(),
                all_eq ==> forall|k: int| 0 <= k < j ==> haystack@[i + k] == #[trigger] needle@[k],
                !all_eq ==> !matches_at(haystack@, needle@, i as int),
            decreases nlen - j,
        {
            if hv[i + j] != nv[j] {
                proof {
                    let ii = i as int;
                    assert(haystack@.subrange(ii, ii + nlen)[j as int] != needle@[j as int]);
                }
                all_eq = false;
                j = nlen;
            } else {
                j = j + 1;
            }
        }
        if all_eq {
            proof {
                let ii = i as int;
                assert(haystack@.subrange(ii, ii + nlen) =~= needle@);
                assert(matches_at(haystack@, needle@, ii));
            }
            return true;
        }
        i = i + 1;
    }
    proof {
        assert forall|k: int| !matches_at(haystack@, needle@, k) by {
            if 0 <= k && k + needle@.len() <= haystack@.len() {
                assert(k < i);
            }
        }
    }
    false
}

/// Character-for-character equality of two string slices.
pub fn str_eq(a: &str, b: &str) -> (r: bool)
    ensures
        r == (a@ == b@),
{
    let alen = a.unicode_len();
    let blen = b.unicode_len();
    if alen != blen {
        return false;
    }
    let mut i: usize = 0;
    while i < alen
        invariant
            i <= alen,
            alen == a@.len(),
            alen == b@.len(),
            forall|j: int| 0 <= j < i ==> a@[j] == #[trigger] b@[j],
        decreases alen - i,
    {
        if a.get_char(i) != b.get_char(i) {
            return false;
        }
        i = i + 1;
    }
    proof {
        assert(a@ =~= b@);
    }
    true
}

/// The decimal digit `d` as a character (`0 <= d <= 9`).
pub open spec fn digit_char(d: int) -> char {
    (48 + d) as char
}

/// The decimal representation of `n`, most significant digit first, with no
/// leading zeros (`0` is `"0"`).
pub open spec fn digits_of(n: nat) -> Seq<char>
    decreases n,
{
    if n < 10 {
        seq![digit_char(n as int)]
    } else {
        digits_of(n / 10).push(digit_char((n % 10) as int))
    }
}

/// A one-character string slice holding the digit `d`.
pub fn digit_str(d: usize) -> (r: &'static str)
    requires
        d < 10,
    ensures
        r@ =~= seq![digit_char(d as int)],
{
    proof {
        reveal_strlit("0");
        reveal_strlit("1");
        reveal_strlit("2");
        reveal_strlit("3");
        reveal_strlit("4");
        reveal_strlit("5");
        reveal_strlit("6");
        reveal_strlit("7");
        reveal_strlit("8");
        reveal_strlit("9");
    }
    match d {
        0 => "0",
        1 => "1",
        2 => "2",
        3 => "3",
        4 => "4",
        5 => "5",
        6 => "6",
        7 => "7",
        8 => "8",
        _ => "9",
    }
}

/// The decimal representation of `n`, as `digits_of` describes.
pub fn usize_to_string(n: usize) -> (r: String)
    ensures
        r@ =~= digits_of(n as nat),
    decreases n,
{
    if n < 10 {
        String::from_str(digit_str(n))
    } else {
        let mut s = usize_to_string(n / 10);
        s.append(digit_str(n % 10));
        proof {
            assert(s@ =~= digits_of((n / 10) as nat).push(digit_char((n % 10) as int)));
        }
        s
    }
}

/// The sequence with trailing newline characters removed.
pub open spec fn trim_end_nl(s: Seq<char>) -> Seq<char>
    decreases s.len(),
{
    if s.len() == 0 {
        s
    } else if s[s.len() - 1] == '\n' {
        trim_end_nl(s.drop_last())
    } else {
        s
    }
}

proof fn lemma_trim_end_nl_subrange(s: Seq<char>, k: int)
    requires
        0 <= k <= s.len(),
        forall|i: int| k <= i < s.len() ==> s[i] == '\n',
        k == 0 || s[k - 1] != '\n',
    ensures
        trim_end_nl(s) =~= s.subrange(0, k),
    decreases s.len(),
{
    if k == s.len() {
        if s.len() == 0 {
        } else {
            assert(trim_end_nl(s) == s);
        }
        assert(s.subrange(0, k) =~= s);
    } else {
        let t = s.drop_last();
        assert(forall|i: int| k <= i < t.len() ==> #[trigger] t[i] == '\n');
        lemma_trim_end_nl_subrange(t, k);
        assert(t.subrange(0, k) =~= s.subrange(0, k));
    }
}

/// `s` with trailing newlines removed, as `trim_end_nl` describes.
pub fn str_trim_end_newlines(s: &str) -> (r: String)
    ensures
        r@ =~= trim_end_nl(s@),
{
    let v = str_chars(s);
    let len = v.len();
    let mut k: usize = len;
    while k > 0 && v[k - 1] == '\n'
        invariant
            k <= len,
            len == v@.len(),
            v@ == s@,
            forall|i: int| k <= i < len ==> s@[i] == '\n',
        decreases k,
    {
        k = k - 1;
    }
    proof {
        lemma_trim_end_nl_subrange(s@, k as int);
    }
    let r = s.substring_char(0, k);
    r.to_owned()
}

/// The sequence with leading space characters (`' '` only) removed.
pub open spec fn trim_start_spaces(s: Seq<char>) -> Seq<char>
    decreases s.len(),
{
    if s.len() == 0 {
        s
    } else if s[0] == ' ' {
        trim_start_spaces(s.drop_first())
    } else {
        s
    }
}

proof fn lemma_trim_start_spaces_subrange(s: Seq<char>, k: int)
    requires
        0 <= k <= s.len(),
        forall|i: int| 0 <= i < k ==> s[i] == ' ',
        k == s.len() || s[k] != ' ',
    ensures
        trim_start_spaces(s) =~= s.subrange(k, s.len() as int),
    decreases k,
{
    if k == 0 {
        if s.len() == 0 {
        } else {
            assert(trim_start_spaces(s) == s);
        }
        assert(s.subrange(0, s.len() as int) =~= s);
    } else {
        let t = s.drop_first();
        assert(forall|i: int| 0 <= i < k - 1 ==> #[trigger] t[i] == ' ');
        lemma_trim_start_spaces_subrange(t, k - 1);
        assert(t.subrange(k - 1, t.len() as int) =~= s.subrange(k, s.len() as int));
    }
}

/// The suffix of `s` from character position `from`, with leading space
/// characters then removed.
pub fn str_suffix_trim_start_spaces(s: &str, from: usize) -> (r: String)
    requires
        from <= s@.len(),
    ensures
        r@ =~= trim_start_spaces(s@.subrange(from as int, s@.len() as int)),
{
    let v = str_chars(s);
    let len = v.len();
    let mut k: usize = from;
    while k < len && v[k] == ' '
        invariant
            from <= k <= len,
            len == v@.len(),
            v@ == s@,
            forall|i: int| from <= i < k ==> s@[i] == ' ',
        decreases len - k,
    {
        k = k + 1;
    }
    proof {
        let tail = s@.subrange(from as int, len as int);
        assert(forall|i: int| 0 <= i < k - from ==> #[trigger] tail[i] == ' ');
        assert(k - from == tail.len() || tail[k - from] != ' ');
        lemma_trim_start_spaces_subrange(tail, k - from);
        assert(tail.subrange(k - from, tail.len() as int) =~= s@.subrange(
            k as int,
            len as int,
        ));
    }
    let r = s.substring_char(k, len);
    r.to_owned()
}

} // verus!
