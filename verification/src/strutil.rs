//! Small verified string utilities: equality, trimming, prefix tests,
//! and decimal formatting of integers and fixed-point hundredths.

use vstd::prelude::*;

verus! {

/// Exec equality of two string slices, tied to view equality.
pub fn str_eq(a: &str, b: &str) -> (r: bool)
    ensures
        r == (a@ == b@),
{
    let alen = a.unicode_len();
    let blen = b.unicode_len();
    if alen != blen {
        assert(a@ != b@) by {
            assert(a@.len() != b@.len());
        }
        return false;
    }
    let mut i: usize = 0;
    while i < alen
        invariant
            alen == a@.len(),
            alen == b@.len(),
            i <= alen,
            forall|k: int| 0 <= k < i ==> a@[k] == b@[k],
        decreases alen - i,
    {
        if a.get_char(i) != b.get_char(i) {
            return false;
        }
        i += 1;
    }
    proof {
        assert(a@ =~= b@);
    }
    true
}

/// The character for one decimal digit.
pub open spec fn digit_char(d: nat) -> char {
    if d == 0 {
        '0'
    } else if d == 1 {
        '1'
    } else if d == 2 {
        '2'
    } else if d == 3 {
        '3'
    } else if d == 4 {
        '4'
    } else if d == 5 {
        '5'
    } else if d == 6 {
        '6'
    } else if d == 7 {
        '7'
    } else if d == 8 {
        '8'
    } else {
        '9'
    }
}

/// Decimal digit string of a natural number, most significant digit first.
pub open spec fn dec_str(n: nat) -> Seq<char>
    decreases n,
{
    if n < 10 {
        seq![digit_char(n)]
    } else {
        dec_str(n / 10) + seq![digit_char(n % 10)]
    }
}

/// One-character string for a digit value below ten.
fn digit_string(d: u128) -> (s: String)
    requires
        d < 10,
    ensures
        s@ =~= seq![digit_char(d as nat)],
{
    let s: &str = if d == 0 {
        "0"
    } else if d == 1 {
        "1"
    } else if d == 2 {
        "2"
    } else if d == 3 {
        "3"
    } else if d == 4 {
        "4"
    } else if d == 5 {
        "5"
    } else if d == 6 {
        "6"
    } else if d == 7 {
        "7"
    } else if d == 8 {
        "8"
    } else {
        "9"
    };
    proof {
        reveal_strlit("0");
        reveal_strlit("1");
        reveal_strlit("2");
        reveal_strlit("3");
        reveal_strlit("4");
        reveal_strlit("5");
        reveal_strlit("6");
        reveal_strlit("7");
        reveal_strlit("8");
        reveal_strlit("9");
    }
    s.to_owned()
}

/// Decimal rendering of a natural number.
pub fn dec_string(n: u128) -> (s: String)
    ensures
        s@ == dec_str(n as nat),
    decreases n,
{
    if n < 10 {
        let s = digit_string(n);
        proof {
            assert(s@ =~= dec_str(n as nat));
        }
        s
    } else {
        let mut s = dec_string(n / 10);
        let d = digit_string(n % 10);
        s.append(d.as_str());
        proof {
            assert(s@ =~= dec_str(n as nat));
        }
        s
    }
}

/// Rendering of a fixed-point value held in hundredths: the integer part,
/// a dot, then exactly two fractional digits.
pub open spec fn centi_str(centi: nat) -> Seq<char> {
    dec_str(centi / 100) + seq!['.'] + seq![digit_char(centi % 100 / 10)] + seq![
        digit_char(centi % 10),
    ]
}

/// Renders a value held in hundredths with two decimal places.
pub fn centi_string(centi: u128) -> (s: String)
    ensures
        s@ == centi_str(centi as nat),
{
    let mut s = dec_string(centi / 100);
    let dot: &str = ".";
    proof {
        reveal_strlit(".");
    }
    s.append(dot);
    let tenths = digit_string(centi % 100 / 10);
    s.append(tenths.as_str());
    let ones = digit_string(centi % 10);
    s.append(ones.as_str());
    proof {
        assert(s@ =~= centi_str(centi as nat));
    }
    s
}

/// Whether `pre` is a prefix of `s`.
pub open spec fn has_prefix(s: Seq<char>, pre: Seq<char>) -> bool {
    pre.len() <= s.len() && s.subrange(0, pre.len() as int) == pre
}

/// Exec prefix test over string slices.
pub fn str_has_prefix(s: &str, pre: &str) -> (r: bool)
    ensures
        r == has_prefix(s@, pre@),
{
    let slen = s.unicode_len();
    let plen = pre.unicode_len();
    if plen > slen {
        assert(!has_prefix(s@, pre@));
        return false;
    }
    let mut i: usize = 0;
    while i < plen
        invariant
            slen == s@.len(),
            plen == pre@.len(),
            plen <= slen,
            i <= plen,
            forall|k: int| 0 <= k < i ==> s@[k] == pre@[k],
        decreases plen - i,
    {
        if s.get_char(i) != pre.get_char(i) {
            assert(s@.subrange(0, pre@.len() as int)[i as int] != pre@[i as int]);
            return false;
        }
        i += 1;
    }
    proof {
        assert(s@.subrange(0, pre@.len() as int) =~= pre@);
    }
    true
}

} // verus!
