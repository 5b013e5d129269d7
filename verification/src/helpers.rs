//! Path and string helpers shared by the rest of the library.

use vstd::prelude::*;

verus! {

use vstd::string::*;

/// What joining a base path and one component yields, as `Path::join` does
/// for `/`-separated paths: an absolute component replaces the base
/// entirely; otherwise the component follows the base, with a `/` separator
/// inserted where one is missing.
pub open spec fn join_spec(base: Seq<char>, component: Seq<char>) -> Seq<char> {
    if component.len() > 0 && component[0] == '/' {
        component
    } else if base.len() == 0 {
        component
    } else if base.last() == '/' {
        base + component
    } else {
        base + seq!['/'] + component
    }
}

/// Appends one component to a base path as `Path::join` does for
/// `/`-separated paths: an absolute component replaces the base; otherwise
/// a `/` separator is inserted unless the base is empty or already ends
/// with one.
pub fn join_path(base: &str, component: &str) -> (r: String)
    ensures
        r@ == join_spec(base@, component@),
{
    let m = component.unicode_len();
    if m > 0 && component.get_char(0) == '/' {
        return String::from_str(component);
    }
    let n = base.unicode_len();
    if n == 0 {
        return String::from_str(component);
    }
    let last = base.get_char(n - 1);
    let mut r = String::from_str(base);
    if last != '/' {
        r.append("/");
        proof {
            reveal_strlit("/");
            assert(r@ =~= base@ + seq!['/']);
        }
    }
    r.append(component);
    r
}

/// Whether `s` begins with `prefix`.
pub open spec fn starts_with_spec(s: Seq<char>, prefix: Seq<char>) -> bool {
    s.len() >= prefix.len() && s.subrange(0, prefix.len() as int) == prefix
}

/// Tests whether `s` begins with `prefix`.
pub fn starts_with(s: &str, prefix: &str) -> (r: bool)
    ensures
        r == starts_with_spec(s@, prefix@),
{
    let n = s.unicode_len();
    let p = prefix.unicode_len();
    if p > n {
        return false;
    }
    let mut j: usize = 0;
    while j < p
        invariant
            j <= p,
            p <= n,
            n == s@.len(),
            p == prefix@.len(),
            forall|m: int| 0 <= m < j ==> s@[m] == prefix@[m],
        decreases p - j,
    {
        if s.get_char(j) != prefix.get_char(j) {
            proof {
                assert(s@.subrange(0, p as int)[j as int] == s@[j as int]);
            }
            return false;
        }
        j += 1;
    }
    proof {
        assert(s@.subrange(0, p as int) =~= prefix@);
    }
    true
}

/// Whether `needle` occurs in `s` starting at position `i`.
pub open spec fn is_match_at(s: Seq<char>, needle: Seq<char>, i: int) -> bool {
    0 <= i && i + needle.len() <= s.len() && s.subrange(i, i + needle.len()) == needle
}

/// Whether `needle` occurs anywhere in `s`.
pub open spec fn contains_seq(s: Seq<char>, needle: Seq<char>) -> bool {
    exists|i: int| is_match_at(s, needle, i)
}

fn match_at(s: &str, needle: &str, i: usize) -> (r: bool)
    requires
        i + needle@.len() <= s@.len(),
        s@.len() <= usize::MAX,
    ensures
        r == is_match_at(s@, needle@, i as int),
{
    let p = needle.unicode_len();
    let mut j: usize = 0;
    while j < p
        invariant
            j <= p,
            p == needle@.len(),
            i + p <= s@.len(),
            s@.len() <= usize::MAX,
            forall|m: int| 0 <= m < j ==> s@[i + m] == needle@[m],
        decreases p - j,
    {
        if s.get_char(i + j) != needle.get_char(j) {
            proof {
                assert(s@.subrange(i as int, i + p as int)[j as int] == s@[i + j]);
            }
            return false;
        }
        j += 1;
    }
    proof {
        assert(s@.subrange(i as int, i + p as int) =~= needle@);
    }
    true
}

/// Tests whether `needle` occurs anywhere in `s`.
pub fn contains_substr(s: &str, needle: &str) -> (r: bool)
    ensures
        r == contains_seq(s@, needle@),
{
    let n = s.unicode_len();
    let p = needle.unicode_len();
    if p > n {
        proof {
            assert(forall|i: int| !is_match_at(s@, needle@, i));
        }
        return false;
    }
    if p == 0 {
        proof {
            assert(s@.subrange(0, 0) =~= needle@);
            assert(is_match_at(s@, needle@, 0));
        }
        return true;
    }
    let mut i: usize = 0;
    while i <= n - p
        invariant
            1 <= p <= n,
            n == s@.len(),
            p == needle@.len(),
            i <= n - p + 1,
            forall|k: int| 0 <= k < i ==> !is_match_at(s@, needle@, k),
        decreases n - p + 1 - i,
    {
        if match_at(s, needle, i) {
            return true;
        }
        i += 1;
    }
    proof {
        assert forall|k: int| !is_match_at(s@, needle@, k) by {
            if 0 <= k < i as int {
                assert(!is_match_at(s@, needle@, k));
            }
        }
    }
    false
}

/// `s` with every trailing occurrence of `c` removed.
pub open spec fn trim_trailing(s: Seq<char>, c: char) -> Seq<char>
    decreases s.len(),
{
    if s.len() > 0 && s.last() == c {
        trim_trailing(s.drop_last(), c)
    } else {
        s
    }
}

/// `s` with every occurrence of `c` removed.
pub open spec fn remove_chars(s: Seq<char>, c: char) -> Seq<char>
    decreases s.len(),
{
    if s.len() == 0 {
        Seq::empty()
    } else if s.last() == c {
        remove_chars(s.drop_last(), c)
    } else {
        remove_chars(s.drop_last(), c).push(s.last())
    }
}

/// Collects the characters of `s`, dropping every occurrence of `c`.
pub fn remove_char_occurrences(s: &str, c: char) -> (v: Vec<char>)
    ensures
        v@ == remove_chars(s@, c),
{
    let n = s.unicode_len();
    let mut v: Vec<char> = Vec::new();
    let mut i: usize = 0;
    while i < n
        invariant
            i <= n,
            n == s@.len(),
            v@ == remove_chars(s@.subrange(0, i as int), c),
        decreases n - i,
    {
        let ch = s.get_char(i);
        proof {
            assert(s@.subrange(0, i + 1).drop_last() =~= s@.subrange(0, i as int));
            assert(s@.subrange(0, i + 1).last() == s@[i as int]);
        }
        if ch != c {
            v.push(ch);
        }
        i += 1;
    }
    proof {
        assert(s@.subrange(0, n as int) =~= s@);
    }
    v
}

/// Whether `c` is a decimal digit.
pub open spec fn is_digit(c: char) -> bool {
    48 <= c as u32 <= 57
}

/// The value of the decimal digit `c`.
pub open spec fn digit_val(c: char) -> int {
    c as u32 - 48
}

/// Whether every character of `s` is a decimal digit.
pub open spec fn all_digits(s: Seq<char>) -> bool {
    forall|i: int| 0 <= i < s.len() ==> is_digit(#[trigger] s[i])
}

/// The number the digit string `s` denotes in base ten.
pub open spec fn digits_val(s: Seq<char>) -> int
    decreases s.len(),
{
    if s.len() == 0 {
        0
    } else {
        10 * digits_val(s.drop_last()) + digit_val(s.last())
    }
}

/// What parsing `s` as a 32-bit signed integer yields, with every failure
/// (empty digits, a stray character, a value out of range) collapsed to
/// zero: an optional single `+` or `-`, then one or more decimal digits and
/// nothing else.
pub open spec fn parse_i32_or_zero(s: Seq<char>) -> int {
    let signed = s.len() > 0 && (s[0] == '+' || s[0] == '-');
    let negative = s.len() > 0 && s[0] == '-';
    let digits = if signed {
        s.drop_first()
    } else {
        s
    };
    if digits.len() == 0 || !all_digits(digits) {
        0
    } else if negative {
        if digits_val(digits) <= 0x8000_0000 {
            -digits_val(digits)
        } else {
            0
        }
    } else {
        if digits_val(digits) <= 0x7fff_ffff {
            digits_val(digits)
        } else {
            0
        }
    }
}

proof fn lemma_all_digits_drop_last(s: Seq<char>)
    requires
        all_digits(s),
        s.len() > 0,
    ensures
        all_digits(s.drop_last()),
{
    assert forall|i: int| 0 <= i < s.drop_last().len() implies is_digit(#[trigger] s.drop_last()[i]) by {
        assert(s.drop_last()[i] == s[i]);
    }
}

proof fn lemma_digits_val_nonneg(s: Seq<char>)
    requires
        all_digits(s),
    ensures
        digits_val(s) >= 0,
    decreases s.len(),
{
    if s.len() > 0 {
        lemma_all_digits_drop_last(s);
        lemma_digits_val_nonneg(s.drop_last());
        assert(is_digit(s[s.len() - 1]));
    }
}

proof fn lemma_digits_val_prefix_le(s: Seq<char>, k: int)
    requires
        all_digits(s),
        0 <= k <= s.len(),
    ensures
        digits_val(s.subrange(0, k)) <= digits_val(s),
    decreases s.len(),
{
    if k == s.len() {
        assert(s.subrange(0, k) =~= s);
    } else {
        assert(s.subrange(0, k) =~= s.drop_last().subrange(0, k));
        lemma_all_digits_drop_last(s);
        lemma_digits_val_prefix_le(s.drop_last(), k);
        lemma_digits_val_nonneg(s.drop_last());
        assert(is_digit(s[s.len() - 1]));
    }
}

/// Parses the characters as a 32-bit signed integer, yielding zero on any
/// malformed or out-of-range input, exactly as `parse_i32_or_zero` says.
pub fn parse_int_or_zero(v: &Vec<char>) -> (x: i32)
    ensures
        x as int == parse_i32_or_zero(v@),
{
    let len = v.len();
    if len == 0 {
        return 0;
    }
    let first = v[0];
    let negative = first == '-';
    let signed = negative || first == '+';
    let start: usize = if signed {
        1
    } else {
        0
    };
    let ghost digits = if signed {
        v@.drop_first()
    } else {
        v@
    };
    proof {
        assert(digits =~= v@.subrange(start as int, len as int));
    }
    if len == start {
        return 0;
    }
    let mut acc: u64 = 0;
    let mut i: usize = start;
    while i < len
        invariant
            start <= i <= len,
            len == v@.len(),
            start == 0 || start == 1,
            signed == (v@.len() > 0 && (v@[0] == '+' || v@[0] == '-')),
            negative == (v@.len() > 0 && v@[0] == '-'),
            start == if signed { 1int } else { 0int },
            digits == if signed { v@.drop_first() } else { v@ },
            digits =~= v@.subrange(start as int, len as int),
            all_digits(v@.subrange(start as int, i as int)),
            acc as int == digits_val(v@.subrange(start as int, i as int)),
            acc <= 0x8000_0000,
        decreases len - i,
    {
        let c = v[i];
        let d = c as u32;
        if d < 48 || d > 57 {
            proof {
                assert(digits[i - start] == v@[i as int]);
                assert(!is_digit(digits[i - start]));
            }
            return 0;
        }
        proof {
            assert(v@.subrange(start as int, i + 1).drop_last() =~= v@.subrange(
                start as int,
                i as int,
            ));
            assert(v@.subrange(start as int, i + 1).last() == v@[i as int]);
            assert forall|m: int| 0 <= m < i + 1 - start implies is_digit(
                #[trigger] v@.subrange(start as int, i + 1)[m],
            ) by {
                if m < i - start {
                    assert(v@.subrange(start as int, i + 1)[m] == v@.subrange(
                        start as int,
                        i as int,
                    )[m]);
                }
            }
        }
        acc = acc * 10 + (d - 48) as u64;
        if acc > 0x8000_0000 {
            proof {
                if all_digits(digits) {
                    lemma_digits_val_prefix_le(digits, i + 1 - start);
                    assert(digits.subrange(0, i + 1 - start) =~= v@.subrange(
                        start as int,
                        i + 1,
                    ));
                }
            }
            return 0;
        }
        i += 1;
    }
    proof {
        assert(v@.subrange(start as int, len as int) =~= digits);
    }
    if negative {
        if acc == 0x8000_0000 {
            i32::MIN
        } else {
            -(acc as i32)
        }
    } else {
        if acc > 0x7fff_ffff {
            0
        } else {
            acc as i32
        }
    }
}

} // verus!
