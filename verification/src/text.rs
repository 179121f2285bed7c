//! Building blocks for the few strings the core produces: decimal renderings
//! of numbers, used by time-signature labels and segment identifiers.

use vstd::prelude::*;

verus! {

/// The character for one decimal digit.
pub open spec fn digit_char(d: int) -> char {
    if d == 0 {
        '0'
    } else if d == 1 {
        '1'
    } else if d == 2 {
        '2'
    } else if d == 3 {
        '3'
    } else if d == 4 {
        '4'
    } else if d == 5 {
        '5'
    } else if d == 6 {
        '6'
    } else if d == 7 {
        '7'
    } else if d == 8 {
        '8'
    } else {
        '9'
    }
}

/// Decimal rendering of a nonnegative integer, most significant digit first,
/// without leading zeros (a lone zero for 0).
pub open spec fn dec_str(n: int) -> Seq<char>
    decreases n,
{
    if n < 10 {
        seq![digit_char(n)]
    } else {
        dec_str(n / 10).push(digit_char(n % 10))
    }
}

/// Relies on std's String::push: appends the given character to the string.
pub assume_specification[ String::push ](s: &mut String, ch: char)
    ensures
        final(s)@ == old(s)@.push(ch),
;

fn digit_to_char(d: u128) -> (c: char)
    requires
        d < 10,
    ensures
        c == digit_char(d as int),
{
    if d == 0 {
        '0'
    } else if d == 1 {
        '1'
    } else if d == 2 {
        '2'
    } else if d == 3 {
        '3'
    } else if d == 4 {
        '4'
    } else if d == 5 {
        '5'
    } else if d == 6 {
        '6'
    } else if d == 7 {
        '7'
    } else if d == 8 {
        '8'
    } else {
        '9'
    }
}

/// Appends the decimal rendering of `n` to `s`.
pub fn append_dec(s: &mut String, n: u128)
    ensures
        final(s)@ == old(s)@ + dec_str(n as int),
{
    let mut digits: Vec<char> = Vec::new();
    let mut m: u128 = n;
    proof {
        assert(dec_str(n as int) + digits@.reverse() =~= dec_str(n as int));
    }
    while m >= 10
        invariant
            dec_str(n as int) == dec_str(m as int) + digits@.reverse(),
        decreases m,
    {
        let ghost prev = digits@;
        let ghost m0 = m as int;
        let d = m % 10;
        let c = digit_to_char(d);
        digits.push(c);
        m = m / 10;
        proof {
            assert(digits@.reverse() =~= seq![c] + prev.reverse());
            assert(dec_str(m0) == dec_str(m0 / 10).push(digit_char(m0 % 10)));
            assert(dec_str(m as int).push(c) + prev.reverse() =~= dec_str(m as int)
                + digits@.reverse());
        }
    }
    let ghost prev = digits@;
    let c = digit_to_char(m);
    digits.push(c);
    proof {
        assert(digits@.reverse() =~= seq![c] + prev.reverse());
        assert(dec_str(m as int) == seq![digit_char(m as int)]);
        assert(dec_str(n as int) =~= digits@.reverse());
    }
    let ghost base = s@;
    let mut i: usize = digits.len();
    proof {
        assert(base + digits@.reverse().take(digits@.len() - i) =~= base);
    }
    while i > 0
        invariant
            i <= digits.len(),
            dec_str(n as int) == digits@.reverse(),
            s@ == base + digits@.reverse().take(digits@.len() - i),
        decreases i,
    {
        i = i - 1;
        let c = digits[i];
        s.push(c);
        proof {
            let ghost r = digits@.reverse();
            let ghost k = digits@.len() - i - 1;
            assert(r[k] == digits@[i as int]);
            assert((base + r.take(k)).push(r[k]) =~= base + r.take(k + 1));
        }
    }
    proof {
        assert(base + digits@.reverse().take(digits@.len() as int) =~= old(s)@ + dec_str(
            n as int,
        ));
    }
}

/// The decimal rendering of `n` as a fresh string.
pub fn dec_to_string(n: u128) -> (s: String)
    ensures
        s@ == dec_str(n as int),
{
    let mut s = String::new();
    append_dec(&mut s, n);
    s
}


broadcast use vstd::string::axiom_spec_iter, vstd::string::next_postcondition;

/// The characters of a string, in order, as a plain vector.
pub fn chars_of(s: &str) -> (r: Vec<char>)
    ensures
        r@ == s@,
{
    let mut it = s.chars();
    let mut r: Vec<char> = Vec::new();
    loop
        invariant_except_break
            r@ + vstd::std_specs::iter::IteratorSpec::remaining(&it) == s@,
        ensures
            r@ == s@,
        decreases s@.len() - r@.len(),
    {
        match it.next() {
            Some(c) => {
                r.push(c);
                proof {
                    assert(r@ + vstd::std_specs::iter::IteratorSpec::remaining(&it) =~= s@);
                }
            },
            None => {
                proof {
                    assert(r@ =~= s@);
                }
                break;
            },
        }
    }
    r
}

/// An ASCII whitespace character, as trimming treats it.
pub open spec fn is_space(c: char) -> bool {
    c == ' ' || c == '\t' || c == '\n' || c == '\r'
}

/// Nothing but whitespace (an empty string included): what trimming leaves
/// empty.
pub open spec fn is_blank(s: Seq<char>) -> bool {
    forall|i: int| 0 <= i < s.len() ==> is_space(#[trigger] s[i])
}

fn is_space_char(c: char) -> (r: bool)
    ensures
        r == is_space(c),
{
    c == ' ' || c == '\t' || c == '\n' || c == '\r'
}

/// Whether the string holds nothing but whitespace.
#[verifier::loop_isolation(false)]
pub fn is_blank_str(s: &str) -> (r: bool)
    ensures
        r == is_blank(s@),
{
    let cs = chars_of(s);
    let mut i: usize = 0;
    while i < cs.len()
        invariant
            i <= cs@.len(),
            cs@ == s@,
            forall|j: int| 0 <= j < i ==> is_space(#[trigger] cs@[j]),
        decreases cs@.len() - i,
    {
        if !is_space_char(cs[i]) {
            return false;
        }
        i = i + 1;
    }
    true
}


/// Appends a value held in thousandths as a decimal number: the whole part,
/// a point, and exactly three fractional digits.
pub fn append_milli(s: &mut String, v: u64)
    ensures
        final(s)@ == old(s)@ + dec_str((v / 1000) as int) + seq!['.'] + seq![
            digit_char((v / 100) as int % 10),
            digit_char((v / 10) as int % 10),
            digit_char(v as int % 10),
        ],
{
    append_dec(s, (v / 1000) as u128);
    s.push('.');
    let h = (v / 100) % 10;
    let te = (v / 10) % 10;
    let o = v % 10;
    s.push(digit_to_char(h as u128));
    s.push(digit_to_char(te as u128));
    s.push(digit_to_char(o as u128));
    proof {
        assert(s@ =~= old(s)@ + dec_str((v / 1000) as int) + seq!['.'] + seq![
            digit_char((v / 100) as int % 10),
            digit_char((v / 10) as int % 10),
            digit_char(v as int % 10),
        ]);
    }
}

} // verus!
