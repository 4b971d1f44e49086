use vstd::prelude::*;
use vstd::string::StrSliceExecFns;
use vstd::string::StringExecFns;

verus! {

pub open spec fn is_digit_char(c: char) -> bool {
    '0' <= c && c <= '9'
}

pub open spec fn digit_val(c: char) -> int {
    c as int - '0' as int
}

pub open spec fn all_digits(s: Seq<char>) -> bool {
    forall|i: int| 0 <= i < s.len() ==> is_digit_char(#[trigger] s[i])
}

/// Numeric value of a digit string, most significant digit first.
pub open spec fn dec_value(s: Seq<char>) -> int
    decreases s.len(),
{
    if s.len() == 0 {
        0
    } else {
        dec_value(s.drop_last()) * 10 + digit_val(s.last())
    }
}

/// The text parses as a number that fits the machine word.
pub open spec fn parses_to_usize(s: Seq<char>) -> bool {
    &&& all_digits(s)
    &&& s.len() > 0
    &&& dec_value(s) <= usize::MAX as int
}

pub open spec fn digit_char(d: int) -> char {
    ((48 + d) as u8) as char
}

/// Canonical decimal digits of `n > 0`; empty for `n == 0`.
pub open spec fn dec_digits_rec(n: int) -> Seq<char>
    decreases n,
{
    if n <= 0 {
        Seq::<char>::empty()
    } else {
        dec_digits_rec(n / 10).push(digit_char(n % 10))
    }
}

/// Canonical decimal rendering of a non-negative number.
pub open spec fn dec_digits(n: int) -> Seq<char> {
    if n == 0 {
        seq!['0']
    } else {
        dec_digits_rec(n)
    }
}

pub proof fn lemma_dec_value_nonneg(s: Seq<char>)
    requires
        all_digits(s),
    ensures
        dec_value(s) >= 0,
    decreases s.len(),
{
    if s.len() > 0 {
        assert(all_digits(s.drop_last())) by {
            assert(forall|i: int|
                0 <= i < s.len() - 1 ==> is_digit_char(#[trigger] s.drop_last()[i]));
        }
        lemma_dec_value_nonneg(s.drop_last());
    }
}

/// A digit string is worth at least any of its prefixes.
pub proof fn lemma_dec_value_mono(s: Seq<char>, m: int)
    requires
        all_digits(s),
        0 <= m <= s.len(),
    ensures
        dec_value(s) >= dec_value(s.take(m)),
    decreases s.len() - m,
{
    if m < s.len() {
        lemma_dec_value_mono(s, m + 1);
        assert(s.take(m + 1).drop_last() =~= s.take(m));
        assert(s.take(m + 1).last() == s[m]);
        assert(all_digits(s.take(m))) by {
            assert(forall|i: int| 0 <= i < m ==> is_digit_char(#[trigger] s.take(m)[i]));
        }
        lemma_dec_value_nonneg(s.take(m));
        assert(dec_value(s.take(m + 1)) == dec_value(s.take(m)) * 10 + digit_val(s[m]));
        assert(dec_value(s.take(m)) * 10 >= dec_value(s.take(m))) by (nonlinear_arith)
            requires
                dec_value(s.take(m)) >= 0,
        ;
    } else {
        assert(s.take(m) =~= s);
    }
}

/// Parses an unsigned decimal number. Succeeds exactly on non-empty,
/// all-digit texts whose value fits the machine word.
pub fn parse_usize(s: &str) -> (r: Option<usize>)
    ensures
        r matches Some(n) ==> parses_to_usize(s@) && n == dec_value(s@),
        r is None ==> !parses_to_usize(s@),
{
    let len = s.unicode_len();
    if len == 0 {
        return None;
    }
    let mut acc: usize = 0;
    let mut i: usize = 0;
    while i < len
        invariant
            i <= len,
            len == s@.len(),
            len > 0,
            all_digits(s@.take(i as int)),
            acc == dec_value(s@.take(i as int)),
        decreases len - i,
    {
        let c = s.get_char(i);
        let cv = c as u32;
        if cv < 48 || cv > 57 {
            return None;
        }
        let d = (cv - 48) as usize;
        assert(s@.take(i + 1).drop_last() =~= s@.take(i as int));
        assert(s@.take(i + 1).last() == s@[i as int]);
        assert(all_digits(s@.take(i + 1))) by {
            assert(forall|k: int|
                0 <= k < i + 1 ==> is_digit_char(#[trigger] s@.take(i + 1)[k]));
        }
        if acc > (usize::MAX - d) / 10 {
            // the value read so far already exceeds the machine word
            proof {
                assert(acc * 10 + d > usize::MAX) by (nonlinear_arith)
                    requires
                        acc > (usize::MAX - d) / 10,
                        0 <= d <= 9,
                ;
                if all_digits(s@) {
                    lemma_dec_value_mono(s@, i + 1);
                }
            }
            return None;
        }
        proof {
            assert(acc * 10 + d <= usize::MAX) by (nonlinear_arith)
                requires
                    acc <= (usize::MAX - d) / 10,
                    0 <= d <= 9,
            ;
        }
        acc = acc * 10 + d;
        i = i + 1;
    }
    proof {
        assert(s@.take(len as int) =~= s@);
    }
    Some(acc)
}

/// Characters of the digit values `ds` (least significant first), rendered
/// most significant first.
pub open spec fn digits_rev_chars(ds: Seq<u8>) -> Seq<char>
    decreases ds.len(),
{
    if ds.len() == 0 {
        Seq::<char>::empty()
    } else {
        seq![digit_char(ds.last() as int)] + digits_rev_chars(ds.drop_last())
    }
}

pub proof fn lemma_digits_rev_chars_len(ds: Seq<u8>)
    ensures
        digits_rev_chars(ds).len() == ds.len(),
    decreases ds.len(),
{
    if ds.len() > 0 {
        lemma_digits_rev_chars_len(ds.drop_last());
    }
}

pub proof fn lemma_digits_rev_chars_index(ds: Seq<u8>, k: int)
    requires
        0 <= k < ds.len(),
    ensures
        digits_rev_chars(ds)[k] == digit_char(ds[ds.len() - 1 - k] as int),
    decreases ds.len(),
{
    lemma_digits_rev_chars_len(ds.drop_last());
    if k > 0 {
        lemma_digits_rev_chars_index(ds.drop_last(), k - 1);
    }
}

/// Appends the single decimal digit `d` to `s`.
fn push_digit(s: &mut String, d: u8)
    requires
        d <= 9,
    ensures
        final(s)@ == old(s)@ + seq![digit_char(d as int)],
{
    proof {
        reveal_strlit("0");
        reveal_strlit("1");
        reveal_strlit("2");
        reveal_strlit("3");
        reveal_strlit("4");
        reveal_strlit("5");
        reveal_strlit("6");
        reveal_strlit("7");
        reveal_strlit("8");
        reveal_strlit("9");
    }
    match d {
        0 => s.append("0"),
        1 => s.append("1"),
        2 => s.append("2"),
        3 => s.append("3"),
        4 => s.append("4"),
        5 => s.append("5"),
        6 => s.append("6"),
        7 => s.append("7"),
        8 => s.append("8"),
        _ => {
            assert(d == 9);
            s.append("9")
        },
    }
    proof {
        assert(s@ =~= old(s)@ + seq![digit_char(d as int)]);
    }
}

/// Renders a number as decimal text; the inverse of `parse_usize` on
/// canonical input.
pub fn usize_to_string(n: usize) -> (r: String)
    ensures
        r@ == dec_digits(n as int),
{
    if n == 0 {
        let s = String::from_str("0");
        proof {
            reveal_strlit("0");
            assert(s@ =~= dec_digits(0));
        }
        return s;
    }
    let mut digits: Vec<u8> = Vec::new();
    let mut m = n;
    while m > 0
        invariant
            dec_digits_rec(n as int) =~= dec_digits_rec(m as int) + digits_rev_chars(digits@),
            forall|k: int| 0 <= k < digits@.len() ==> #[trigger] digits@[k] <= 9,
        decreases m,
    {
        let ghost pre = digits@;
        let d = (m % 10) as u8;
        digits.push(d);
        proof {
            assert(digits@.drop_last() =~= pre);
            assert(digits_rev_chars(digits@) =~= seq![digit_char(d as int)]
                + digits_rev_chars(pre));
            assert(dec_digits_rec(m as int) == dec_digits_rec(m as int / 10).push(
                digit_char(m as int % 10),
            ));
            assert(dec_digits_rec(m as int / 10) + digits_rev_chars(digits@)
                =~= dec_digits_rec(m as int) + digits_rev_chars(pre));
        }
        m = m / 10;
    }
    let ghost final_digits = digits@;
    proof {
        assert(dec_digits_rec(n as int) =~= digits_rev_chars(final_digits));
        lemma_digits_rev_chars_len(final_digits);
    }
    let total = digits.len();
    let mut s = String::new();
    let mut i: usize = total;
    while i > 0
        invariant
            i <= total,
            total == digits@.len(),
            digits@ == final_digits,
            forall|k: int| 0 <= k < digits@.len() ==> #[trigger] digits@[k] <= 9,
            s@.len() == total - i,
            forall|k: int|
                0 <= k < total - i ==> #[trigger] s@[k] == digit_char(
                    digits@[total - 1 - k] as int,
                ),
        decreases i,
    {
        let d = digits[i - 1];
        push_digit(&mut s, d);
        i = i - 1;
    }
    proof {
        assert forall|k: int| 0 <= k < total implies #[trigger] s@[k] == digits_rev_chars(
            final_digits,
        )[k] by {
            lemma_digits_rev_chars_index(final_digits, k);
        };
        assert(s@ =~= digits_rev_chars(final_digits));
    }
    s
}

} // verus!
