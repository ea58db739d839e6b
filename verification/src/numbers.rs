//! Decimal numerals: rendering a number as its digit characters, and parsing
//! a numeral exactly as `usize::from_str` accepts it (an optional `+` sign,
//! then one or more decimal digits, rejected when the value overflows).

use vstd::prelude::*;

verus! {

/// The digit character for a value in `0 .. 10`.
pub open spec fn digit_char(d: int) -> char {
    if d == 0 {
        '0'
    } else if d == 1 {
        '1'
    } else if d == 2 {
        '2'
    } else if d == 3 {
        '3'
    } else if d == 4 {
        '4'
    } else if d == 5 {
        '5'
    } else if d == 6 {
        '6'
    } else if d == 7 {
        '7'
    } else if d == 8 {
        '8'
    } else {
        '9'
    }
}

/// The decimal numeral of `n`, most significant digit first, no sign and no
/// leading zeros (`0` itself is the single digit `0`).
pub open spec fn dec_of(n: nat) -> Seq<char>
    decreases n,
{
    if n < 10 {
        seq![digit_char(n as int)]
    } else {
        dec_of(n / 10).push(digit_char((n % 10) as int))
    }
}

/// Whether `c` is a decimal digit.
pub open spec fn is_digit(c: char) -> bool {
    c == '0' || c == '1' || c == '2' || c == '3' || c == '4' || c == '5' || c == '6' || c == '7'
        || c == '8' || c == '9'
}

/// The value of the digit `c`, when `is_digit(c)` holds.
pub open spec fn digit_val(c: char) -> int {
    if c == '0' {
        0
    } else if c == '1' {
        1
    } else if c == '2' {
        2
    } else if c == '3' {
        3
    } else if c == '4' {
        4
    } else if c == '5' {
        5
    } else if c == '6' {
        6
    } else if c == '7' {
        7
    } else if c == '8' {
        8
    } else {
        9
    }
}

/// Whether every character of `s` is a decimal digit.
pub open spec fn all_digits(s: Seq<char>) -> bool {
    forall|i: int| 0 <= i < s.len() ==> is_digit(#[trigger] s[i])
}

/// The value of the digit string `s`, most significant digit first.
pub open spec fn dec_val(s: Seq<char>) -> int
    decreases s.len(),
{
    if s.len() == 0 {
        0
    } else {
        dec_val(s.drop_last()) * 10 + digit_val(s.last())
    }
}

/// The digit part of a numeral: everything after an optional leading `+`.
pub open spec fn numeral_digits(s: Seq<char>) -> Seq<char> {
    if s.len() > 0 && s[0] == '+' {
        s.drop_first()
    } else {
        s
    }
}

/// Whether `usize::from_str` accepts `s`: an optional `+` sign, then at
/// least one digit, with a value that fits in `usize`.
pub open spec fn is_usize_numeral(s: Seq<char>) -> bool {
    let d = numeral_digits(s);
    d.len() > 0 && all_digits(d) && dec_val(d) <= usize::MAX as int
}

/// The value of the numeral `s`, when `is_usize_numeral(s)` holds.
pub open spec fn usize_numeral_val(s: Seq<char>) -> int {
    dec_val(numeral_digits(s))
}

/// The value of an all-digit string is never negative.
pub proof fn lemma_dec_val_nonneg(s: Seq<char>)
    requires
        all_digits(s),
    ensures
        dec_val(s) >= 0,
    decreases s.len(),
{
    if s.len() > 0 {
        assert(all_digits(s.drop_last())) by {
            assert(forall|i: int|
                0 <= i < s.len() - 1 ==> #[trigger] s.drop_last()[i] == s[i]);
        }
        lemma_dec_val_nonneg(s.drop_last());
        assert(digit_val(s.last()) >= 0);
    }
}

/// Extending an all-digit string to the right never decreases its value.
pub proof fn lemma_dec_val_prefix(s: Seq<char>, k: int)
    requires
        all_digits(s),
        0 <= k <= s.len(),
    ensures
        dec_val(s) >= dec_val(s.subrange(0, k)),
    decreases s.len() - k,
{
    if k < s.len() {
        lemma_dec_val_prefix(s, k + 1);
        let p = s.subrange(0, k + 1);
        assert(p.drop_last() =~= s.subrange(0, k));
        assert(all_digits(s.subrange(0, k))) by {
            assert(forall|i: int|
                0 <= i < k ==> #[trigger] s.subrange(0, k)[i] == s[i]);
        }
        lemma_dec_val_nonneg(s.subrange(0, k));
        assert(dec_val(p) == dec_val(s.subrange(0, k)) * 10 + digit_val(p.last()));
        assert(dec_val(s.subrange(0, k)) * 10 >= dec_val(s.subrange(0, k))) by (nonlinear_arith)
            requires
                dec_val(s.subrange(0, k)) >= 0,
        ;
        assert(digit_val(p.last()) >= 0);
    } else {
        assert(s.subrange(0, k) =~= s);
    }
}

/// The digit character of a value in `0 .. 10`.
fn digit_to_char(d: usize) -> (c: char)
    requires
        d < 10,
    ensures
        c == digit_char(d as int),
{
    if d == 0 {
        '0'
    } else if d == 1 {
        '1'
    } else if d == 2 {
        '2'
    } else if d == 3 {
        '3'
    } else if d == 4 {
        '4'
    } else if d == 5 {
        '5'
    } else if d == 6 {
        '6'
    } else if d == 7 {
        '7'
    } else if d == 8 {
        '8'
    } else {
        '9'
    }
}

/// Renders `n` as its decimal numeral.
pub fn usize_to_chars(n: usize) -> (r: Vec<char>)
    ensures
        r@ == dec_of(n as nat),
{
    let mut rev: Vec<char> = Vec::new();
    let mut m: usize = n;
    while m >= 10
        invariant
            dec_of(n as nat) == dec_of(m as nat) + rev@.reverse(),
        decreases m,
    {
        let d = m % 10;
        let ghost rev0 = rev@;
        rev.push(digit_to_char(d));
        m = m / 10;
        proof {
            assert(rev@.reverse() =~= seq![digit_char(d as int)] + rev0.reverse());
            assert(dec_of((m * 10 + d) as nat) =~= dec_of(m as nat).push(
                digit_char(d as int),
            ));
            assert(dec_of(m as nat).push(digit_char(d as int)) + rev0.reverse() =~= dec_of(
                m as nat,
            ) + (seq![digit_char(d as int)] + rev0.reverse()));
        }
    }
    let ghost revf = rev@;
    let mut r: Vec<char> = Vec::new();
    r.push(digit_to_char(m));
    let mut i: usize = rev.len();
    while i > 0
        invariant
            i <= revf.len(),
            rev@ == revf,
            r@ == seq![digit_char(m as int)] + revf.subrange(i as int, revf.len() as int).reverse(),
        decreases i,
    {
        i = i - 1;
        r.push(rev[i]);
        proof {
            assert(revf.subrange(i as int, revf.len() as int).reverse() =~= revf.subrange(
                i + 1,
                revf.len() as int,
            ).reverse().push(revf[i as int]));
            assert(r@ =~= (seq![digit_char(m as int)] + revf.subrange(
                i + 1,
                revf.len() as int,
            ).reverse()).push(revf[i as int]));
        }
    }
    proof {
        assert(revf.subrange(0, revf.len() as int) =~= revf);
        assert(r@ =~= dec_of(m as nat) + revf.reverse());
    }
    r
}

/// Parses the characters of `v` between `from` and `to` as `usize::from_str`
/// parses them: `Some` exactly on a well-formed numeral whose value fits.
pub fn parse_usize(v: &Vec<char>, from: usize, to: usize) -> (r: Option<usize>)
    requires
        from <= to,
        to <= v.len(),
    ensures
        ({
            let s = v@.subrange(from as int, to as int);
            match r {
                Some(x) => is_usize_numeral(s) && x == usize_numeral_val(s),
                None => !is_usize_numeral(s),
            }
        }),
{
    let ghost s = v@.subrange(from as int, to as int);
    let mut i: usize = from;
    if i < to && v[i] == '+' {
        i = i + 1;
    }
    let ghost d = numeral_digits(s);
    proof {
        assert(d =~= v@.subrange(i as int, to as int));
    }
    if i == to {
        // no digits at all
        return None;
    }
    let start = i;
    let mut acc: usize = 0;
    while i < to
        invariant
            start <= i <= to,
            start < to,
            to <= v.len(),
            s == v@.subrange(from as int, to as int),
            d == numeral_digits(s),
            d == v@.subrange(start as int, to as int),
            forall|j: int| 0 <= j < i - start ==> is_digit(#[trigger] d[j]),
            acc == dec_val(d.subrange(0, i - start)),
        decreases to - i,
    {
        let c = v[i];
        if !digit_of(c) {
            proof {
                assert(d[i - start] == c);
            }
            return None;
        }
        let dv = digit_value(c);
        proof {
            assert(d[i - start] == c);
        }
        if acc > (usize::MAX - dv) / 10 {
            // the digits read so far already exceed usize::MAX
            proof {
                let k = i - start + 1;
                assert(d.subrange(0, k).drop_last() =~= d.subrange(0, k - 1));
                assert(dec_val(d.subrange(0, k)) == acc * 10 + dv as int);
                assert(acc * 10 + dv > usize::MAX) by (nonlinear_arith)
                    requires
                        acc > (usize::MAX - dv) / 10,
                        0 <= dv < 10,
                        acc <= usize::MAX,
                ;
                if all_digits(d) && dec_val(d) <= usize::MAX as int {
                    lemma_dec_val_prefix(d, k);
                }
            }
            return None;
        }
        proof {
            assert(acc * 10 + dv <= usize::MAX) by (nonlinear_arith)
                requires
                    acc <= (usize::MAX - dv) / 10,
                    0 <= dv < 10,
                    acc >= 0,
            ;
            let k = i - start + 1;
            assert(d.subrange(0, k).drop_last() =~= d.subrange(0, k - 1));
            assert(d.subrange(0, k).last() == c);
        }
        acc = acc * 10 + dv;
        i = i + 1;
    }
    proof {
        assert(d.subrange(0, i - start) =~= d);
        assert(all_digits(d));
    }
    Some(acc)
}

/// Whether `c` is a decimal digit.
pub fn digit_of(c: char) -> (r: bool)
    ensures
        r == is_digit(c),
{
    c == '0' || c == '1' || c == '2' || c == '3' || c == '4' || c == '5' || c == '6' || c == '7'
        || c == '8' || c == '9'
}

/// The value of the digit `c`.
pub fn digit_value(c: char) -> (r: usize)
    requires
        is_digit(c),
    ensures
        r == digit_val(c),
        r < 10,
{
    if c == '0' {
        0
    } else if c == '1' {
        1
    } else if c == '2' {
        2
    } else if c == '3' {
        3
    } else if c == '4' {
        4
    } else if c == '5' {
        5
    } else if c == '6' {
        6
    } else if c == '7' {
        7
    } else if c == '8' {
        8
    } else {
        9
    }
}

} // verus!
