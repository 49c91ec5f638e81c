//! Verified helpers over strings.
//!
//! The runtime's identifiers and channel names are ordinary strings; the
//! helpers here give the few operations the runtime needs (equality, prefix
//! and suffix tests, searching for a character, decimal parsing) with exact
//! contracts over the strings' character sequences.

use vstd::prelude::*;

verus! {

/// Character-wise equality of two string slices.
pub fn str_eq(a: &str, b: &str) -> (r: bool)
    ensures
        r == (a@ == b@),
{
    let a_len = a.unicode_len();
    let b_len = b.unicode_len();
    if a_len != b_len {
        assert(a@ != b@) by {
            assert(a@.len() != b@.len());
        }
        return false;
    }
    let mut i: usize = 0;
    while i < a_len
        invariant
            i <= a_len,
            a_len == a@.len(),
            b_len == b@.len(),
            a_len == b_len,
            forall|j: int| 0 <= j < i ==> a@[j] == b@[j],
        decreases a_len - i,
    {
        if a.get_char(i) != b.get_char(i) {
            assert(a@ != b@);
            return false;
        }
        i += 1;
    }
    assert(a@ =~= b@);
    true
}

/// Whether `s` starts with the characters of `prefix`.
pub open spec fn spec_has_prefix(s: Seq<char>, prefix: Seq<char>) -> bool {
    prefix.len() <= s.len() && s.subrange(0, prefix.len() as int) == prefix
}

/// Prefix test over the characters of the two strings.
pub fn str_has_prefix(s: &str, prefix: &str) -> (r: bool)
    ensures
        r == spec_has_prefix(s@, prefix@),
{
    let s_len = s.unicode_len();
    let p_len = prefix.unicode_len();
    if p_len > s_len {
        return false;
    }
    let mut i: usize = 0;
    while i < p_len
        invariant
            i <= p_len,
            p_len <= s_len,
            s_len == s@.len(),
            p_len == prefix@.len(),
            forall|j: int| 0 <= j < i ==> s@[j] == prefix@[j],
        decreases p_len - i,
    {
        if s.get_char(i) != prefix.get_char(i) {
            assert(s@.subrange(0, p_len as int)[i as int] != prefix@[i as int]);
            return false;
        }
        i += 1;
    }
    assert(s@.subrange(0, p_len as int) =~= prefix@);
    true
}

/// Whether `s` ends with the characters of `suffix`.
pub open spec fn spec_has_suffix(s: Seq<char>, suffix: Seq<char>) -> bool {
    suffix.len() <= s.len() && s.subrange(s.len() - suffix.len(), s.len() as int) == suffix
}

/// Suffix test over the characters of the two strings.
pub fn str_has_suffix(s: &str, suffix: &str) -> (r: bool)
    ensures
        r == spec_has_suffix(s@, suffix@),
{
    let s_len = s.unicode_len();
    let x_len = suffix.unicode_len();
    if x_len > s_len {
        return false;
    }
    let base = s_len - x_len;
    let mut i: usize = 0;
    while i < x_len
        invariant
            i <= x_len,
            x_len <= s_len,
            base == s_len - x_len,
            s_len == s@.len(),
            x_len == suffix@.len(),
            forall|j: int| 0 <= j < i ==> s@[base + j] == suffix@[j],
        decreases x_len - i,
    {
        if s.get_char(base + i) != suffix.get_char(i) {
            assert(s@.subrange(s@.len() - suffix@.len(), s@.len() as int)[i as int]
                != suffix@[i as int]);
            return false;
        }
        i += 1;
    }
    assert(s@.subrange(s@.len() - suffix@.len(), s@.len() as int) =~= suffix@);
    true
}

/// The position just after the last occurrence of `c` in `s`, or 0 when `c`
/// does not occur: the start of the final `c`-free run.
pub open spec fn spec_after_last(s: Seq<char>, c: char) -> int {
    if exists|j: int| 0 <= j < s.len() && s[j] == c {
        (choose|j: int|
            0 <= j < s.len() && s[j] == c && (forall|k: int| j < k < s.len() ==> s[k] != c)) + 1
    } else {
        0
    }
}

proof fn lemma_last_occurrence(s: Seq<char>, c: char, j: int)
    requires
        0 <= j < s.len(),
        s[j] == c,
        forall|k: int| j < k < s.len() ==> s[k] != c,
    ensures
        spec_after_last(s, c) == j + 1,
{
    let w = choose|w: int|
        0 <= w < s.len() && s[w] == c && (forall|k: int| w < k < s.len() ==> s[k] != c);
    if w < j {
        assert(s[j] == c);
        assert(false);
    } else if j < w {
        assert(s[w] == c);
        assert(false);
    }
}

/// The index one past the last occurrence of `c`, found by scanning.
pub fn find_after_last(s: &str, c: char) -> (r: usize)
    ensures
        r == spec_after_last(s@, c),
        r <= s@.len(),
        forall|k: int| r <= k < s@.len() ==> s@[k] != c,
        r > 0 ==> s@[r - 1] == c,
{
    let len = s.unicode_len();
    let mut i: usize = len;
    while i > 0
        invariant
            i <= len,
            len == s@.len(),
            forall|k: int| i <= k < s@.len() ==> s@[k] != c,
        decreases i,
    {
        if s.get_char(i - 1) == c {
            proof {
                lemma_last_occurrence(s@, c, i - 1);
            }
            return i;
        }
        i -= 1;
    }
    proof {
        if exists|j: int| 0 <= j < s@.len() && s@[j] == c {
            let j = choose|j: int| 0 <= j < s@.len() && s@[j] == c;
            assert(false);
        }
    }
    0
}

/// `s` with every occurrence of `from` replaced by `to`.
pub open spec fn spec_replace_char(s: Seq<char>, from: char, to: char) -> Seq<char> {
    s.map_values(|c: char| if c == from { to } else { c })
}

/// Builds a new string with every occurrence of `from` replaced by `to`.
pub fn replace_char(s: &str, from: char, to: char) -> (r: String)
    ensures
        r@ == spec_replace_char(s@, from, to),
{
    let len = s.unicode_len();
    let mut out = String::new();
    let mut i: usize = 0;
    while i < len
        invariant
            i <= len,
            len == s@.len(),
            out@ =~= spec_replace_char(s@.subrange(0, i as int), from, to),
        decreases len - i,
    {
        let c = s.get_char(i);
        if c == from {
            string_push(&mut out, to);
        } else {
            string_push(&mut out, c);
        }
        i += 1;
        proof {
            assert(s@.subrange(0, i as int) =~= s@.subrange(0, i - 1).push(s@[i - 1]));
            assert(out@ =~= spec_replace_char(s@.subrange(0, i as int), from, to));
        }
    }
    proof {
        assert(s@.subrange(0, len as int) =~= s@);
    }
    out
}

/// The substring of `s` from `from` (inclusive) to `to` (exclusive), built
/// character by character so that no ASCII restriction is needed.
pub fn substring(s: &str, from: usize, to: usize) -> (r: String)
    requires
        from <= to <= s@.len(),
    ensures
        r@ == s@.subrange(from as int, to as int),
{
    let mut out = String::new();
    let mut i: usize = from;
    while i < to
        invariant
            from <= i <= to <= s@.len(),
            out@ =~= s@.subrange(from as int, i as int),
        decreases to - i,
    {
        let c = s.get_char(i);
        string_push(&mut out, c);
        i += 1;
        proof {
            assert(s@.subrange(from as int, i as int) =~= s@.subrange(
                from as int,
                i - 1,
            ).push(s@[i - 1]));
        }
    }
    out
}

/// Relies on `String::push` of std: appends one character to the string.
#[verifier::external_body]
pub fn string_push(s: &mut String, c: char)
    ensures
        final(s)@ == old(s)@.push(c),
{
    s.push(c);
}

/// The numeric value of a decimal digit character, or `None` for any other
/// character.
pub open spec fn spec_digit(c: char) -> Option<u32> {
    if '0' <= c && c <= '9' {
        Some((c as u32 - '0' as u32) as u32)
    } else {
        None
    }
}

/// Whether every character of `s` is a decimal digit and `s` is non-empty.
pub open spec fn spec_all_digits(s: Seq<char>) -> bool {
    s.len() > 0 && forall|i: int| 0 <= i < s.len() ==> spec_digit(s[i]) is Some
}

/// The value of a sequence of decimal digits, most significant first.
pub open spec fn spec_digits_value(s: Seq<char>) -> nat
    decreases s.len(),
{
    if s.len() == 0 {
        0
    } else {
        spec_digits_value(s.drop_last()) * 10 + spec_digit(s.last()).unwrap_or(0) as nat
    }
}

/// Parses a non-empty all-digit string as a `u32`; any other shape, and any
/// value above `u32::MAX`, yields `None`.
pub fn parse_u32(s: &str) -> (r: Option<u32>)
    ensures
        match r {
            Some(v) => spec_all_digits(s@) && v == spec_digits_value(s@),
            None => !spec_all_digits(s@) || spec_digits_value(s@) > u32::MAX,
        },
{
    let len = s.unicode_len();
    if len == 0 {
        return None;
    }
    let mut value: u32 = 0;
    let mut i: usize = 0;
    while i < len
        invariant
            i <= len,
            len == s@.len(),
            spec_all_digits(s@) || i < len,
            forall|j: int| 0 <= j < i ==> spec_digit(s@[j]) is Some,
            value == spec_digits_value(s@.subrange(0, i as int)),
        decreases len - i,
    {
        let c = s.get_char(i);
        if c < '0' || c > '9' {
            assert(spec_digit(s@[i as int]) is None);
            return None;
        }
        let d: u32 = c as u32 - '0' as u32;
        if value > (u32::MAX - d) / 10 {
            proof {
                assert(s@.subrange(0, i + 1).drop_last() =~= s@.subrange(0, i as int));
                assert(s@.subrange(0, i + 1).last() == s@[i as int]);
                lemma_digits_value_monotonic(s@, i + 1);
            }
            return None;
        }
        value = value * 10 + d;
        i += 1;
        proof {
            assert(s@.subrange(0, i as int).drop_last() =~= s@.subrange(0, i - 1));
            assert(s@.subrange(0, i as int).last() == s@[i - 1]);
        }
    }
    proof {
        assert(s@.subrange(0, len as int) =~= s@);
    }
    Some(value)
}

/// A digit string's value only grows as more digits are appended.
proof fn lemma_digits_value_monotonic(s: Seq<char>, n: int)
    requires
        0 < n <= s.len(),
    ensures
        spec_digits_value(s.subrange(0, n)) <= spec_digits_value(s),
    decreases s.len() - n,
{
    if n == s.len() {
        assert(s.subrange(0, n) =~= s);
    } else {
        lemma_digits_value_monotonic(s, n + 1);
        assert(s.subrange(0, n + 1).drop_last() =~= s.subrange(0, n));
        assert(spec_digits_value(s.subrange(0, n + 1)) >= spec_digits_value(s.subrange(0, n)) * 10);
    }
}

/// Whitespace, as the probe output parsers treat it.
pub open spec fn is_space(c: char) -> bool {
    c == ' ' || c == '\t' || c == '\n' || c == '\r'
}

/// `s` with leading whitespace removed.
pub open spec fn spec_trim_front(s: Seq<char>) -> Seq<char>
    decreases s.len(),
{
    if s.len() > 0 && is_space(s[0]) {
        spec_trim_front(s.skip(1))
    } else {
        s
    }
}

/// `s` with trailing whitespace removed.
pub open spec fn spec_trim_back(s: Seq<char>) -> Seq<char>
    decreases s.len(),
{
    if s.len() > 0 && is_space(s.last()) {
        spec_trim_back(s.drop_last())
    } else {
        s
    }
}

/// `s` with whitespace removed from both ends.
pub open spec fn spec_trim(s: Seq<char>) -> Seq<char> {
    spec_trim_back(spec_trim_front(s))
}

/// Exec test of [`is_space`] at an index.
fn space_at(s: &str, i: usize) -> (r: bool)
    requires
        i < s@.len(),
    ensures
        r == is_space(s@[i as int]),
{
    let c = s.get_char(i);
    c == ' ' || c == '\t' || c == '\n' || c == '\r'
}

/// Removes leading and trailing whitespace.
pub fn trim(s: &str) -> (r: String)
    ensures
        r@ == spec_trim(s@),
{
    let len = s.unicode_len();
    let mut a: usize = 0;
    proof {
        assert(s@.skip(0) =~= s@);
    }
    while a < len && space_at(s, a)
        invariant
            a <= len,
            len == s@.len(),
            spec_trim_front(s@) == spec_trim_front(s@.skip(a as int)),
            forall|j: int| 0 <= j < a ==> is_space(s@[j]),
        decreases len - a,
    {
        proof {
            assert(s@.skip(a as int)[0] == s@[a as int]);
            assert(s@.skip(a as int).skip(1) =~= s@.skip(a + 1));
        }
        a += 1;
    }
    proof {
        if a < len {
            assert(s@.skip(a as int)[0] == s@[a as int]);
            assert(!is_space(s@.skip(a as int)[0]));
        } else {
            assert(s@.skip(a as int) =~= Seq::<char>::empty());
        }
        assert(spec_trim_front(s@) == s@.skip(a as int));
    }
    let mut b: usize = len;
    while b > a && space_at(s, b - 1)
        invariant
            a <= b <= len,
            len == s@.len(),
            spec_trim_front(s@) == s@.skip(a as int),
            spec_trim_back(s@.skip(a as int)) == spec_trim_back(s@.subrange(a as int, b as int)),
        decreases b,
    {
        proof {
            let cur = s@.subrange(a as int, b as int);
            assert(cur.last() == s@[b - 1]);
            assert(cur.drop_last() =~= s@.subrange(a as int, b - 1));
        }
        b -= 1;
    }
    proof {
        let cur = s@.subrange(a as int, b as int);
        if b > a {
            assert(cur.last() == s@[b - 1]);
            assert(!is_space(cur.last()));
        }
        assert(spec_trim_back(cur) == cur);
        assert(s@.skip(a as int) =~= s@.subrange(a as int, len as int));
    }
    substring(s, a, b)
}

/// The fields of `s` separated by `sep`: always at least one field, empty
/// fields preserved, so that splitting `"a::b"` at `:` yields three.
pub open spec fn spec_split(s: Seq<char>, sep: char) -> Seq<Seq<char>>
    decreases s.len(),
{
    if s.len() == 0 {
        seq![Seq::<char>::empty()]
    } else if s.last() == sep {
        spec_split(s.drop_last(), sep).push(Seq::empty())
    } else {
        let prev = spec_split(s.drop_last(), sep);
        prev.update(prev.len() - 1, prev.last().push(s.last()))
    }
}

/// A split always yields at least one field.
pub proof fn lemma_split_nonempty(s: Seq<char>, sep: char)
    ensures
        spec_split(s, sep).len() >= 1,
    decreases s.len(),
{
    if s.len() > 0 {
        lemma_split_nonempty(s.drop_last(), sep);
    }
}

/// Splits `s` at every occurrence of `sep`.
pub fn split_char(s: &str, sep: char) -> (r: Vec<String>)
    ensures
        r.deep_view() =~= spec_split(s@, sep),
        r@.len() >= 1,
{
    let len = s.unicode_len();
    let mut out: Vec<String> = Vec::new();
    let mut cur = String::new();
    let mut i: usize = 0;
    while i < len
        invariant
            i <= len,
            len == s@.len(),
            out.deep_view().push(cur@) =~= spec_split(s@.subrange(0, i as int), sep),
        decreases len - i,
    {
        let c = s.get_char(i);
        proof {
            let pre = s@.subrange(0, i as int);
            let pre1 = s@.subrange(0, i + 1);
            assert(pre1.drop_last() =~= pre);
            assert(pre1.last() == s@[i as int]);
            lemma_split_nonempty(pre, sep);
        }
        if c == sep {
            let ghost out0 = out@;
            let ghost curv = cur@;
            out.push(cur);
            cur = String::new();
            proof {
                assert forall|m: int| 0 <= m < out.deep_view().len() implies out.deep_view()[m]
                    == out0.map_values(|x: String| x@).push(curv)[m] by {
                    if m < out0.len() {
                        assert(out@[m] == out0[m]);
                    } else {
                        assert(out@[m]@ == curv);
                    }
                }
                assert(out.deep_view() =~= out0.map_values(|x: String| x@).push(curv));
                assert(out0.map_values(|x: String| x@) =~= out.deep_view().drop_last());
            }
        } else {
            string_push(&mut cur, c);
        }
        i += 1;
        proof {
            assert(out.deep_view().push(cur@) =~= spec_split(s@.subrange(0, i as int), sep));
        }
    }
    proof {
        assert(s@.subrange(0, len as int) =~= s@);
        lemma_split_nonempty(s@, sep);
    }
    out.push(cur);
    proof {
        assert(out.deep_view() =~= spec_split(s@, sep));
    }
    out
}

/// Whether `needle` occurs in `s` at offset `k`.
pub open spec fn spec_match_at(s: Seq<char>, needle: Seq<char>, k: int) -> bool {
    0 <= k && k + needle.len() <= s.len() && s.subrange(k, k + needle.len()) == needle
}

/// Whether `needle` occurs anywhere in `s`.
pub open spec fn spec_contains_str(s: Seq<char>, needle: Seq<char>) -> bool {
    exists|k: int| spec_match_at(s, needle, k)
}

/// Substring search: whether `needle` occurs anywhere in `s`.
pub fn str_contains(s: &str, needle: &str) -> (r: bool)
    ensures
        r == spec_contains_str(s@, needle@),
{
    let s_len = s.unicode_len();
    let n_len = needle.unicode_len();
    if n_len > s_len {
        proof {
            if spec_contains_str(s@, needle@) {
                let k = choose|k: int| spec_match_at(s@, needle@, k);
                assert(false);
            }
        }
        return false;
    }
    let mut k: usize = 0;
    while k <= s_len - n_len
        invariant
            n_len <= s_len,
            k <= s_len - n_len + 1,
            s_len == s@.len(),
            n_len == needle@.len(),
            forall|m: int| 0 <= m < k ==> !spec_match_at(s@, needle@, m),
        decreases s_len - n_len + 1 - k,
    {
        let mut j: usize = 0;
        let mut matches = true;
        while j < n_len
            invariant
                j <= n_len,
                k + n_len <= s_len,
                s_len == s@.len(),
                n_len == needle@.len(),
                matches == (forall|m: int| 0 <= m < j ==> s@[k + m] == needle@[m]),
            decreases n_len - j,
        {
            if s.get_char(k + j) != needle.get_char(j) {
                matches = false;
                proof {
                    assert(s@[k + j] != needle@[j as int]);
                }
                j = n_len;
            } else {
                proof {
                    assert(s@[k + j] == needle@[j as int]);
                }
                j += 1;
            }
        }
        if matches {
            proof {
                assert(s@.subrange(k as int, k + n_len) =~= needle@);
                assert(spec_match_at(s@, needle@, k as int));
            }
            return true;
        }
        proof {
            if spec_match_at(s@, needle@, k as int) {
                assert(s@.subrange(k as int, k + n_len) == needle@);
                let w = choose|w: int| 0 <= w < n_len && s@[k + w] != needle@[w];
                assert(s@.subrange(k as int, k + n_len)[w] == s@[k + w]);
                assert(false);
            }
        }
        k += 1;
    }
    proof {
        if spec_contains_str(s@, needle@) {
            let m = choose|m: int| spec_match_at(s@, needle@, m);
            assert(0 <= m < k);
        }
    }
    false
}

/// Case-insensitive equality of two characters, folding only the ASCII
/// letters.
pub open spec fn spec_char_eq_ci(a: char, b: char) -> bool {
    ||| a == b
    ||| (65 <= a as int <= 90 && b as int == a as int + 32)
    ||| (65 <= b as int <= 90 && a as int == b as int + 32)
}

/// Case-insensitive string equality over the ASCII letters.
pub open spec fn spec_str_eq_ci(a: Seq<char>, b: Seq<char>) -> bool {
    a.len() == b.len() && forall|i: int| 0 <= i < a.len() ==> spec_char_eq_ci(a[i], b[i])
}

/// Compares two strings, treating ASCII letters case-insensitively.
pub fn str_eq_ignore_ascii_case(a: &str, b: &str) -> (r: bool)
    ensures
        r == spec_str_eq_ci(a@, b@),
{
    let a_len = a.unicode_len();
    let b_len = b.unicode_len();
    if a_len != b_len {
        return false;
    }
    let mut i: usize = 0;
    while i < a_len
        invariant
            i <= a_len,
            a_len == a@.len(),
            b_len == b@.len(),
            a_len == b_len,
            forall|j: int| 0 <= j < i ==> spec_char_eq_ci(a@[j], b@[j]),
        decreases a_len - i,
    {
        let ca = a.get_char(i);
        let cb = b.get_char(i);
        let same = ca == cb || (ca as u32 >= 65 && ca as u32 <= 90 && cb as u32 == ca as u32 + 32)
            || (cb as u32 >= 65 && cb as u32 <= 90 && ca as u32 == cb as u32 + 32);
        if !same {
            assert(!spec_char_eq_ci(a@[i as int], b@[i as int]));
            return false;
        }
        i += 1;
    }
    true
}

} // verus!
