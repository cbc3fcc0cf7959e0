//! Text helpers: the order in which timestamps sort, and equality of string
//! slices, both stated over sequences of characters.

use vstd::prelude::*;
use vstd::std_specs::iter::IteratorSpec;

verus! {

/// `a` sorts strictly before `b`: at the first position where they differ the
/// character of `a` has the smaller code point, or `a` is a proper prefix of `b`.
pub open spec fn sorts_before(a: Seq<char>, b: Seq<char>) -> bool
    decreases a.len(),
{
    if b.len() == 0 {
        false
    } else if a.len() == 0 {
        true
    } else if a[0] != b[0] {
        a[0] < b[0]
    } else {
        sorts_before(a.drop_first(), b.drop_first())
    }
}

/// Whether two string slices hold the same characters.
pub fn same_text(a: &str, b: &str) -> (r: bool)
    ensures
        r == (a@ == b@),
{
    let mut ia = a.chars();
    let mut ib = b.chars();
    let ghost mut k: int = 0;
    loop
        invariant
            0 <= k <= a@.len(),
            k <= b@.len(),
            a@.subrange(0, k) == b@.subrange(0, k),
            ia.remaining() == a@.subrange(k, a@.len() as int),
            ib.remaining() == b@.subrange(k, b@.len() as int),
        decreases a@.len() - k,
    {
        let ca = ia.next();
        let cb = ib.next();
        match (ca, cb) {
            (None, None) => {
                assert(a@ =~= a@.subrange(0, k));
                assert(b@ =~= b@.subrange(0, k));
                return true;
            },
            (Some(x), Some(y)) => {
                if x != y {
                    return false;
                }
                proof {
                    assert(a@.subrange(0, k + 1) =~= a@.subrange(0, k).push(x));
                    assert(b@.subrange(0, k + 1) =~= b@.subrange(0, k).push(y));
                    k = k + 1;
                }
            },
            _ => {
                return false;
            },
        }
    }
}

/// Whether `a` starts with `prefix`.
pub fn text_starts_with(a: &str, prefix: &str) -> (r: bool)
    ensures
        r == prefix@.is_prefix_of(a@),
{
    let mut ia = a.chars();
    let mut ip = prefix.chars();
    let ghost mut k: int = 0;
    loop
        invariant
            0 <= k <= a@.len(),
            k <= prefix@.len(),
            a@.subrange(0, k) == prefix@.subrange(0, k),
            ia.remaining() == a@.subrange(k, a@.len() as int),
            ip.remaining() == prefix@.subrange(k, prefix@.len() as int),
        decreases prefix@.len() - k,
    {
        match ip.next() {
            None => {
                assert(prefix@ =~= prefix@.subrange(0, k));
                return true;
            },
            Some(y) => {
                match ia.next() {
                    None => {
                        return false;
                    },
                    Some(x) => {
                        if x != y {
                            assert(a@[k] != prefix@[k]);
                            return false;
                        }
                        proof {
                            assert(a@.subrange(0, k + 1) =~= a@.subrange(0, k).push(x));
                            assert(prefix@.subrange(0, k + 1) =~= prefix@.subrange(0, k).push(y));
                            k = k + 1;
                        }
                    },
                }
            },
        }
    }
}

/// Whether `a` sorts strictly before `b`, character by character.
pub fn text_sorts_before(a: &str, b: &str) -> (r: bool)
    ensures
        r == sorts_before(a@, b@),
{
    let mut ia = a.chars();
    let mut ib = b.chars();
    let ghost mut k: int = 0;
    loop
        invariant
            0 <= k <= a@.len(),
            k <= b@.len(),
            ia.remaining() == a@.subrange(k, a@.len() as int),
            ib.remaining() == b@.subrange(k, b@.len() as int),
            sorts_before(a@, b@) == sorts_before(ia.remaining(), ib.remaining()),
        decreases a@.len() - k,
    {
        let ghost ra = ia.remaining();
        let ghost rb = ib.remaining();
        let ca = ia.next();
        let cb = ib.next();
        match (ca, cb) {
            (_, None) => {
                return false;
            },
            (None, Some(_)) => {
                return true;
            },
            (Some(x), Some(y)) => {
                if x != y {
                    return x < y;
                }
                proof {
                    assert(ra.drop_first() =~= a@.subrange(k + 1, a@.len() as int));
                    assert(rb.drop_first() =~= b@.subrange(k + 1, b@.len() as int));
                    k = k + 1;
                }
            },
        }
    }
}

/// Of two sequences at most one sorts before the other.
pub proof fn lemma_sorts_before_asymmetric(a: Seq<char>, b: Seq<char>)
    requires
        sorts_before(a, b),
    ensures
        !sorts_before(b, a),
    decreases a.len(),
{
    if a.len() > 0 && b.len() > 0 && a[0] == b[0] {
        lemma_sorts_before_asymmetric(a.drop_first(), b.drop_first());
    }
}

/// If `a` sorts before `b` and `c` does not sort before `b`, then `a` sorts
/// before `c`.
pub proof fn lemma_sorts_before_chain(a: Seq<char>, b: Seq<char>, c: Seq<char>)
    requires
        sorts_before(a, b),
        !sorts_before(c, b),
    ensures
        sorts_before(a, c),
    decreases a.len(),
{
    if a.len() > 0 && c.len() > 0 {
        if a[0] == b[0] && b[0] == c[0] {
            lemma_sorts_before_chain(a.drop_first(), b.drop_first(), c.drop_first());
        }
    }
}

/// Whether `c` is one of the ten ASCII digits.
pub open spec fn is_digit(c: char) -> bool {
    '0' <= c <= '9'
}

/// The number that the decimal digits `s` write; leading zeros count for nothing.
pub open spec fn digits_value(s: Seq<char>) -> nat
    decreases s.len(),
{
    if s.len() == 0 {
        0
    } else {
        (digits_value(s.drop_last()) * 10 + (s.last() as int - '0' as int)) as nat
    }
}

/// Every character of `s` is a digit.
pub open spec fn all_digits(s: Seq<char>) -> bool {
    forall|i: int| 0 <= i < s.len() ==> is_digit(#[trigger] s[i])
}

/// `s` without the one plus sign that may stand in front of a number.
pub open spec fn unsigned_part(s: Seq<char>) -> Seq<char> {
    if s.len() > 0 && s[0] == '+' {
        s.drop_first()
    } else {
        s
    }
}

/// The number that `s` writes in decimal: an optional plus sign and then one
/// or more digits, with a value that fits the machine word. Anything else
/// writes no number.
pub open spec fn parsed_number(s: Seq<char>) -> Option<usize> {
    let digits = unsigned_part(s);
    if digits.len() > 0 && all_digits(digits) && digits_value(digits) <= usize::MAX {
        Some(digits_value(digits) as usize)
    } else {
        None
    }
}

/// A number is at least as large as the number its first `k` digits write.
pub proof fn lemma_digits_value_grows(s: Seq<char>, k: int)
    requires
        all_digits(s),
        0 <= k <= s.len(),
    ensures
        digits_value(s.subrange(0, k)) <= digits_value(s),
    decreases s.len() - k,
{
    if k == s.len() {
        assert(s.subrange(0, k) =~= s);
    } else {
        lemma_digits_value_grows(s, k + 1);
        let longer = s.subrange(0, k + 1);
        assert(longer.drop_last() =~= s.subrange(0, k));
        assert(is_digit(longer.last()));
    }
}

/// Reads a decimal number.
pub fn parse_number(text: &str) -> (r: Option<usize>)
    ensures
        r == parsed_number(text@),
{
    let ghost s = text@;
    let mut it = text.chars();
    let ghost mut k: int = 0;
    let ghost mut start: int = 0;
    let mut value: usize = 0;
    let mut any_digit = false;
    let mut first = true;
    loop
        invariant
            s == text@,
            0 <= start <= k <= s.len(),
            start <= 1,
            first <==> k == 0,
            start == 1 ==> s[0] == '+',
            start == 0 && k > 0 ==> s[0] != '+',
            it.remaining() == s.subrange(k, s.len() as int),
            any_digit <==> k > start,
            all_digits(s.subrange(start, k)),
            value == digits_value(s.subrange(start, k)),
        decreases s.len() - k,
    {
        let ghost digits = s.subrange(start, s.len() as int);
        match it.next() {
            None => {
                proof {
                    assert(s.subrange(start, k) =~= unsigned_part(s));
                }
                if any_digit {
                    return Some(value);
                } else {
                    return None;
                }
            },
            Some(c) => {
                proof {
                    assert(it.remaining() =~= s.subrange(k + 1, s.len() as int));
                    assert(s[k] == c);
                }
                if first && c == '+' {
                    first = false;
                    proof {
                        k = k + 1;
                        start = 1;
                        assert(s.subrange(start, k) =~= Seq::<char>::empty());
                    }
                } else {
                    first = false;
                    proof {
                        assert(unsigned_part(s) =~= digits);
                        assert(digits[k - start] == c);
                    }
                    if !('0' <= c && c <= '9') {
                        return None;
                    }
                    let digit = (c as u32 - '0' as u32) as usize;
                    proof {
                        let longer = s.subrange(start, k + 1);
                        assert(longer.drop_last() =~= s.subrange(start, k));
                        assert(longer.last() == c);
                        assert(all_digits(longer));
                        assert(digits_value(longer) == value * 10 + digit);
                        if all_digits(digits) {
                            assert(digits.subrange(0, k + 1 - start) =~= longer);
                            lemma_digits_value_grows(digits, k + 1 - start);
                        }
                    }
                    let scaled = match value.checked_mul(10) {
                        Some(v) => v,
                        None => {
                            return None;
                        },
                    };
                    value = match scaled.checked_add(digit) {
                        Some(v) => v,
                        None => {
                            return None;
                        },
                    };
                    any_digit = true;
                    proof {
                        k = k + 1;
                    }
                }
            },
        }
    }
}

} // verus!
