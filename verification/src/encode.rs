//! Textual encodings used by the ledger: lowercase hexadecimal for byte
//! strings (in responses) and decimal for block heights (in validation ids).

use vstd::prelude::*;
use vstd::string::StringExecFns;

verus! {

/// The lowercase hexadecimal digit for a value below sixteen.
pub open spec fn hex_digit(n: u8) -> char
    recommends
        n < 16,
{
    if n == 0 {
        '0'
    } else if n == 1 {
        '1'
    } else if n == 2 {
        '2'
    } else if n == 3 {
        '3'
    } else if n == 4 {
        '4'
    } else if n == 5 {
        '5'
    } else if n == 6 {
        '6'
    } else if n == 7 {
        '7'
    } else if n == 8 {
        '8'
    } else if n == 9 {
        '9'
    } else if n == 10 {
        'a'
    } else if n == 11 {
        'b'
    } else if n == 12 {
        'c'
    } else if n == 13 {
        'd'
    } else if n == 14 {
        'e'
    } else {
        'f'
    }
}

/// The lowercase hexadecimal rendering of a byte string: two digits per
/// byte, high nibble first, bytes in input order.
pub open spec fn hex_of(bytes: Seq<u8>) -> Seq<char>
    decreases bytes.len(),
{
    if bytes.len() == 0 {
        Seq::empty()
    } else {
        hex_of(bytes.drop_last()) + seq![
            hex_digit(bytes.last() / 16),
            hex_digit(bytes.last() % 16),
        ]
    }
}

/// Relies on `hex::encode`: it renders the input bytes as lowercase
/// hexadecimal, two digits per byte, high nibble first, in input order.
#[verifier::external_body]
pub(crate) fn hex_encode(bytes: &Vec<u8>) -> (r: String)
    ensures
        r@ == hex_of(bytes@),
{
    hex::encode(bytes)
}

/// The decimal digit character for a value below ten.
pub open spec fn dec_digit(n: u64) -> char
    recommends
        n < 10,
{
    if n == 0 {
        '0'
    } else if n == 1 {
        '1'
    } else if n == 2 {
        '2'
    } else if n == 3 {
        '3'
    } else if n == 4 {
        '4'
    } else if n == 5 {
        '5'
    } else if n == 6 {
        '6'
    } else if n == 7 {
        '7'
    } else if n == 8 {
        '8'
    } else {
        '9'
    }
}

/// The decimal rendering of an unsigned number, without leading zeros
/// (a single `'0'` for zero itself).
pub open spec fn dec_of(n: u64) -> Seq<char>
    decreases n,
{
    if n < 10 {
        seq![dec_digit(n)]
    } else {
        dec_of(n / 10) + seq![dec_digit(n % 10)]
    }
}

/// The characters of a digit sequence read back to front.
pub open spec fn rev_digit_chars(ds: Seq<u64>) -> Seq<char> {
    Seq::new(ds.len(), |i: int| dec_digit(ds[ds.len() - 1 - i]))
}

/// A single decimal digit as a string slice.
fn dec_digit_str(d: u64) -> (r: &'static str)
    requires
        d < 10,
    ensures
        r@ == seq![dec_digit(d)],
{
    proof {
        reveal_strlit("0");
        reveal_strlit("1");
        reveal_strlit("2");
        reveal_strlit("3");
        reveal_strlit("4");
        reveal_strlit("5");
        reveal_strlit("6");
        reveal_strlit("7");
        reveal_strlit("8");
        reveal_strlit("9");
    }
    if d == 0 {
        "0"
    } else if d == 1 {
        "1"
    } else if d == 2 {
        "2"
    } else if d == 3 {
        "3"
    } else if d == 4 {
        "4"
    } else if d == 5 {
        "5"
    } else if d == 6 {
        "6"
    } else if d == 7 {
        "7"
    } else if d == 8 {
        "8"
    } else {
        "9"
    }
}

/// Renders a number in decimal.
pub fn u64_to_dec(n: u64) -> (r: String)
    ensures
        r@ == dec_of(n),
{
    let mut rem: u64 = n;
    let mut digits: Vec<u64> = Vec::new();
    while rem >= 10
        invariant
            dec_of(n) == dec_of(rem) + rev_digit_chars(digits@),
            forall|j: int| 0 <= j < digits@.len() ==> digits@[j] < 10,
        decreases rem,
    {
        let d = rem % 10;
        proof {
            assert(rev_digit_chars(digits@.push(d)) =~= seq![dec_digit(d)] + rev_digit_chars(
                digits@,
            ));
            assert(dec_of(rem / 10) + rev_digit_chars(digits@.push(d)) =~= dec_of(rem)
                + rev_digit_chars(digits@));
        }
        digits.push(d);
        rem = rem / 10;
    }
    proof {
        assert(rev_digit_chars(digits@.push(rem)) =~= seq![dec_digit(rem)] + rev_digit_chars(
            digits@,
        ));
        assert(dec_of(n) =~= rev_digit_chars(digits@.push(rem)));
    }
    digits.push(rem);
    let ghost all = digits@;
    let mut r = String::new();
    let mut i: usize = digits.len();
    while i > 0
        invariant
            i <= all.len(),
            digits@ == all,
            forall|j: int| 0 <= j < all.len() ==> all[j] < 10,
            r@ == rev_digit_chars(all).subrange(0, all.len() - i),
        decreases i,
    {
        i = i - 1;
        let s = dec_digit_str(digits[i]);
        r.append(s);
        proof {
            assert(r@ =~= rev_digit_chars(all).subrange(0, all.len() - i));
        }
    }
    proof {
        assert(r@ =~= rev_digit_chars(all));
    }
    r
}

/// The identifier a pending validation is filed under: the block height in
/// decimal, a dash, then the submitting user's address.
pub open spec fn validation_id_of(height: u64, user: Seq<char>) -> Seq<char> {
    dec_of(height) + seq!['-'] + user
}

/// Builds the identifier a pending validation is filed under.
pub fn make_validation_id(height: u64, user: &String) -> (r: String)
    ensures
        r@ == validation_id_of(height, user@),
{
    let mut r = u64_to_dec(height);
    proof {
        reveal_strlit("-");
        assert("-"@ =~= seq!['-']);
    }
    r.append("-");
    r.append(user.as_str());
    proof {
        assert(r@ =~= validation_id_of(height, user@));
    }
    r
}

/// Copies a byte vector.
pub fn clone_bytes(v: &Vec<u8>) -> (r: Vec<u8>)
    ensures
        r@ == v@,
{
    let mut r: Vec<u8> = Vec::new();
    let mut i: usize = 0;
    while i < v.len()
        invariant
            i <= v@.len(),
            r@ == v@.subrange(0, i as int),
        decreases v@.len() - i,
    {
        r.push(v[i]);
        i = i + 1;
        proof {
            assert(r@ =~= v@.subrange(0, i as int));
        }
    }
    proof {
        assert(r@ =~= v@);
    }
    r
}

} // verus!
