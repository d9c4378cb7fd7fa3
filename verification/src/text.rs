//! Small text helpers: character classes, lower-casing, and building strings.
//!
//! The character-class predicates and Unicode lower-casing are Unicode tables;
//! their results are functions of the input alone, so they are given names and
//! the standard library is trusted to compute them.

use vstd::prelude::*;

verus! {

/// What `char::is_alphanumeric` returns for a character.
pub uninterp spec fn alnum(c: char) -> bool;

/// What `char::is_whitespace` returns for a character.
pub uninterp spec fn white(c: char) -> bool;

/// What `str::to_lowercase` returns for a sequence of characters.
pub uninterp spec fn lower(s: Seq<char>) -> Seq<char>;

/// Relies on char::is_alphanumeric: the answer depends on the character alone.
#[verifier::external_body]
pub fn char_alnum(c: char) -> (r: bool)
    ensures
        r == alnum(c),
{
    c.is_alphanumeric()
}

/// Relies on char::is_whitespace: the answer depends on the character alone.
#[verifier::external_body]
pub fn char_white(c: char) -> (r: bool)
    ensures
        r == white(c),
{
    c.is_whitespace()
}

/// Relies on str::to_lowercase: the result depends on the characters alone,
/// and an empty string stays empty.
#[verifier::external_body]
pub fn to_lowercase(s: &str) -> (r: String)
    ensures
        r@ == lower(s@),
        s@.len() == 0 ==> r@.len() == 0,
{
    s.to_lowercase()
}

/// Relies on str's PartialEq: two string slices are equal exactly when their
/// characters are.
#[verifier::external_body]
pub fn str_eq(a: &str, b: &str) -> (r: bool)
    ensures
        r == (a@ == b@),
{
    a == b
}

/// Relies on String::push: appends exactly the given character.
#[verifier::external_body]
pub fn push_char(s: &mut String, c: char)
    ensures
        final(s)@ == old(s)@.push(c),
{
    s.push(c);
}

/// The decimal digits of `n`, most significant first.
pub open spec fn dec_digits(n: nat) -> Seq<char>
    decreases n,
{
    if n < 10 {
        seq![digit_char(n)]
    } else {
        dec_digits(n / 10).push(digit_char(n % 10))
    }
}

/// The character for one decimal digit.
pub open spec fn digit_char(d: nat) -> char {
    if d == 0 {
        '0'
    } else if d == 1 {
        '1'
    } else if d == 2 {
        '2'
    } else if d == 3 {
        '3'
    } else if d == 4 {
        '4'
    } else if d == 5 {
        '5'
    } else if d == 6 {
        '6'
    } else if d == 7 {
        '7'
    } else if d == 8 {
        '8'
    } else {
        '9'
    }
}

/// `n` written in decimal, left-padded with zeros to at least `width` characters.
pub open spec fn dec_padded(n: nat, width: nat) -> Seq<char> {
    if dec_digits(n).len() >= width {
        dec_digits(n)
    } else {
        Seq::new((width - dec_digits(n).len()) as nat, |i: int| '0') + dec_digits(n)
    }
}

fn exec_digit_char(d: u32) -> (c: char)
    requires
        d < 10,
    ensures
        c == digit_char(d as nat),
{
    match d {
        0 => '0',
        1 => '1',
        2 => '2',
        3 => '3',
        4 => '4',
        5 => '5',
        6 => '6',
        7 => '7',
        8 => '8',
        _ => '9',
    }
}

/// Appends `n` in decimal, left-padded with zeros to at least `width` characters.
pub fn push_dec_padded(out: &mut String, n: u32, width: usize)
    ensures
        final(out)@ == old(out)@ + dec_padded(n as nat, width as nat),
{
    let mut digits: Vec<char> = Vec::new();
    let mut rest: u32 = n;
    loop
        invariant_except_break
            dec_digits(n as nat) == dec_digits(rest as nat) + digits@.reverse(),
        ensures
            dec_digits(n as nat) == digits@.reverse(),
        decreases rest,
    {
        let ghost prev = digits@;
        let d = rest % 10;
        digits.push(exec_digit_char(d));
        proof {
            assert(digits@.reverse() =~= seq![digit_char((d % 10) as nat)] + prev.reverse());
        }
        if rest < 10 {
            proof {
                assert(dec_digits(rest as nat) == seq![digit_char(rest as nat)]);
                assert(dec_digits(n as nat) =~= digits@.reverse());
            }
            break;
        }
        rest = rest / 10;
        proof {
            assert(dec_digits(n as nat) =~= dec_digits(rest as nat) + digits@.reverse());
        }
    }
    let ghost ds = dec_digits(n as nat);
    let ghost base = out@;
    let len = digits.len();
    proof {
        assert(ds.len() == digits@.len());
    }
    let pads: usize = if width > len {
        width - len
    } else {
        0
    };
    let ghost zeros = Seq::new(pads as nat, |i: int| '0');
    proof {
        if width > len {
            assert(dec_padded(n as nat, width as nat) =~= zeros + ds);
        } else {
            assert(zeros =~= Seq::<char>::empty());
            assert(dec_padded(n as nat, width as nat) =~= zeros + ds);
        }
    }
    let mut p: usize = 0;
    while p < pads
        invariant
            p <= pads,
            zeros == Seq::new(pads as nat, |i: int| '0'),
            out@ == base + zeros.subrange(0, p as int),
        decreases pads - p,
    {
        proof {
            assert(zeros.subrange(0, p + 1) =~= zeros.subrange(0, p as int).push('0'));
        }
        push_char(out, '0');
        p = p + 1;
    }
    proof {
        assert(zeros.subrange(0, pads as int) =~= zeros);
    }
    let mut j: usize = 0;
    while j < len
        invariant
            j <= len,
            len == digits@.len(),
            len == ds.len(),
            ds == digits@.reverse(),
            out@ == base + zeros + ds.subrange(0, j as int),
        decreases len - j,
    {
        proof {
            assert(ds[j as int] == digits@[len - 1 - j]);
            assert(ds.subrange(0, j + 1) =~= ds.subrange(0, j as int).push(ds[j as int]));
        }
        push_char(out, digits[len - 1 - j]);
        j = j + 1;
    }
    proof {
        assert(ds.subrange(0, ds.len() as int) =~= ds);
        assert(base + zeros + ds =~= base + (zeros + ds));
    }
}

/// Whether `p` stands at the front of `s`.
pub open spec fn spec_starts_with(s: Seq<char>, p: Seq<char>) -> bool {
    s.len() >= p.len() && s.take(p.len() as int) == p
}

/// Whether `p` stands anywhere in `s`.
pub open spec fn spec_contains_seq(s: Seq<char>, p: Seq<char>) -> bool {
    exists|i: int| 0 <= i <= s.len() - p.len() && #[trigger] s.subrange(i, i + p.len()) == p
}

/// Tests whether the string starts with the prefix.
pub fn starts_with(s: &str, p: &str) -> (r: bool)
    ensures
        r == spec_starts_with(s@, p@),
{
    let sl = s.unicode_len();
    let pl = p.unicode_len();
    if sl < pl {
        return false;
    }
    let front = s.substring_char(0, pl);
    str_eq(front, p)
}

/// Tests whether the string holds the pattern anywhere.
pub fn contains_substr(s: &str, p: &str) -> (r: bool)
    ensures
        r == spec_contains_seq(s@, p@),
{
    let sl = s.unicode_len();
    let pl = p.unicode_len();
    if pl > sl {
        proof {
            assert(forall|i: int|
                0 <= i <= s@.len() - p@.len() ==> #[trigger] s@.subrange(i, i + p@.len()) != p@);
        }
        return false;
    }
    if pl == 0 {
        proof {
            assert(s@.subrange(0, 0 + p@.len() as int) =~= p@);
        }
        return true;
    }
    let mut i: usize = 0;
    while i <= sl - pl
        invariant
            1 <= pl <= sl,
            sl == s@.len(),
            pl == p@.len(),
            i <= sl - pl + 1,
            forall|j: int| 0 <= j < i ==> #[trigger] s@.subrange(j, j + p@.len()) != p@,
        decreases sl - pl - i + 1,
    {
        let piece = s.substring_char(i, i + pl);
        if str_eq(piece, p) {
            return true;
        }
        i = i + 1;
    }
    false
}

} // verus!
