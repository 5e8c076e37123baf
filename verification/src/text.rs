//! Small verified text helpers: character-wise string equality and decimal
//! rendering of unsigned integers, used by the message composition code.

use vstd::prelude::*;
use vstd::string::StrSliceExecFns;
use vstd::string::StringExecFns;

verus! {

/// Compares two string slices character by character.
pub fn str_eq(a: &str, b: &str) -> (r: bool)
    ensures
        r == (a@ == b@),
{
    let alen = a.unicode_len();
    let blen = b.unicode_len();
    if alen != blen {
        return false;
    }
    let mut i: usize = 0;
    while i < alen
        invariant
            0 <= i <= alen,
            alen == a@.len(),
            alen == b@.len(),
            forall|j: int| 0 <= j < i ==> a@[j] == b@[j],
        decreases alen - i,
    {
        if a.get_char(i) != b.get_char(i) {
            return false;
        }
        i = i + 1;
    }
    proof {
        assert(a@ =~= b@);
    }
    true
}

/// The character for one decimal digit.
pub open spec fn spec_digit_char(d: int) -> char {
    if d == 0 {
        '0'
    } else if d == 1 {
        '1'
    } else if d == 2 {
        '2'
    } else if d == 3 {
        '3'
    } else if d == 4 {
        '4'
    } else if d == 5 {
        '5'
    } else if d == 6 {
        '6'
    } else if d == 7 {
        '7'
    } else if d == 8 {
        '8'
    } else {
        '9'
    }
}

/// The decimal rendering of a nonnegative integer, most significant digit
/// first, with no leading zeros (and `"0"` for zero).
pub open spec fn spec_decimal(n: int) -> Seq<char>
    recommends
        n >= 0,
    decreases n,
{
    if n < 10 {
        seq![spec_digit_char(n)]
    } else {
        spec_decimal(n / 10) + seq![spec_digit_char(n % 10)]
    }
}

/// The characters of a sequence of digit values read back to front; the first
/// loop of `u64_to_string` collects digits least significant first, so this
/// reads them in printing order.
pub open spec fn spec_digits_reversed(ds: Seq<int>) -> Seq<char>
    decreases ds.len(),
{
    if ds.len() == 0 {
        Seq::empty()
    } else {
        seq![spec_digit_char(ds.last())] + spec_digits_reversed(ds.drop_last())
    }
}

proof fn lemma_digits_reversed_index(ds: Seq<int>)
    ensures
        spec_digits_reversed(ds).len() == ds.len(),
        forall|k: int|
            0 <= k < ds.len() ==> spec_digits_reversed(ds)[k] == spec_digit_char(
                ds[ds.len() - 1 - k],
            ),
    decreases ds.len(),
{
    if ds.len() > 0 {
        lemma_digits_reversed_index(ds.drop_last());
    }
}

/// Hands out the one-character slice for a digit value.
fn digit_str(d: u64) -> (r: &'static str)
    requires
        d < 10,
    ensures
        r@ =~= seq![spec_digit_char(d as int)],
{
    let digits = "0123456789";
    proof {
        reveal_strlit("0123456789");
    }
    let r = digits.substring_char(d as usize, d as usize + 1);
    proof {
        assert(r@ =~= seq![spec_digit_char(d as int)]);
    }
    r
}

/// Renders an unsigned integer in decimal.
pub fn u64_to_string(n: u64) -> (s: String)
    ensures
        s@ == spec_decimal(n as int),
{
    if n == 0 {
        let z = digit_str(0);
        return z.to_owned();
    }
    let mut digs: Vec<u64> = Vec::new();
    let mut m: u64 = n;
    while m > 0
        invariant
            forall|i: int| 0 <= i < digs@.len() ==> digs@[i] < 10,
            m > 0 ==> spec_decimal(n as int) =~= spec_decimal(m as int) + spec_digits_reversed(
                digs@.map_values(|d: u64| d as int),
            ),
            m == 0 ==> digs@.len() > 0 && spec_decimal(n as int) =~= spec_digits_reversed(
                digs@.map_values(|d: u64| d as int),
            ),
        decreases m,
    {
        let ghost prev = digs@.map_values(|d: u64| d as int);
        let d = m % 10;
        digs.push(d);
        proof {
            let cur = digs@.map_values(|dd: u64| dd as int);
            assert(cur.drop_last() =~= prev);
            assert(cur.last() == d as int);
            assert(spec_digits_reversed(cur) =~= seq![spec_digit_char(d as int)]
                + spec_digits_reversed(prev));
        }
        m = m / 10;
    }
    let ghost all = digs@.map_values(|d: u64| d as int);
    proof {
        lemma_digits_reversed_index(all);
    }
    let mut s = String::new();
    let len = digs.len();
    let mut j: usize = len;
    while j > 0
        invariant
            0 <= j <= len,
            len == digs@.len(),
            all == digs@.map_values(|d: u64| d as int),
            forall|i: int| 0 <= i < digs@.len() ==> digs@[i] < 10,
            spec_digits_reversed(all).len() == len,
            forall|k: int|
                0 <= k < len ==> spec_digits_reversed(all)[k] == spec_digit_char(
                    all[len - 1 - k],
                ),
            s@ =~= spec_digits_reversed(all).take(len - j),
        decreases j,
    {
        let d = digs[j - 1];
        let piece = digit_str(d);
        s.append(piece);
        proof {
            assert(s@ =~= spec_digits_reversed(all).take(len - (j - 1)));
        }
        j = j - 1;
    }
    proof {
        assert(s@ =~= spec_digits_reversed(all));
        assert(s@ == spec_decimal(n as int));
    }
    s
}

} // verus!
