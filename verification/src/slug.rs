//! The Slug Assigner: derives a URL path segment for a new entry.
//!
//! A caller-supplied slug is used verbatim. Otherwise the slug is the date,
//! `YYYY/MM/DD/`, followed by the title lower-cased, stripped of everything
//! that is neither alphanumeric nor whitespace, cut to 32 characters, with
//! each whitespace run become one hyphen; without a title, the time of day
//! `HHMMSS` stands in place of the title.

use vstd::prelude::*;

use crate::text::{
    alnum, char_alnum, char_white, dec_padded, lower, push_char, push_dec_padded, to_lowercase,
    white,
};

verus! {

broadcast use vstd::seq::group_seq_axioms, vstd::seq_lib::group_seq_lib_default;

/// A point in time as plain values, on the clock of the site's time zone.
#[derive(Clone, Copy, Debug, PartialEq, Eq, Structural)]
pub struct Timestamp {
    pub year: u32,
    pub month: u32,
    pub day: u32,
    pub hour: u32,
    pub minute: u32,
    pub second: u32,
}

/// Whether a character survives the slug filter.
pub open spec fn slug_keep(c: char) -> bool {
    alnum(c) || white(c)
}

/// The lower-cased input with everything but letters, digits and whitespace
/// removed, cut to the first `n` characters. The cut comes after the
/// filtering, so removed punctuation costs no length.
pub open spec fn spec_get_first_n(n: nat, s: Seq<char>) -> Seq<char> {
    let kept = lower(s).filter(|c: char| slug_keep(c));
    if n <= kept.len() {
        kept.take(n as int)
    } else {
        kept
    }
}

/// Whitespace runs become one hyphen each; `prev_white` says whether a run
/// is already open.
pub open spec fn hyph(s: Seq<char>, prev_white: bool) -> Seq<char>
    decreases s.len(),
{
    if s.len() == 0 {
        Seq::empty()
    } else if white(s[0]) {
        if prev_white {
            hyph(s.drop_first(), true)
        } else {
            seq!['-'] + hyph(s.drop_first(), true)
        }
    } else {
        seq![s[0]] + hyph(s.drop_first(), false)
    }
}

/// The date prefix `YYYY/MM/DD/`.
pub open spec fn date_prefix(t: Timestamp) -> Seq<char> {
    dec_padded(t.year as nat, 4) + seq!['/'] + dec_padded(t.month as nat, 2) + seq!['/']
        + dec_padded(t.day as nat, 2) + seq!['/']
}

/// The time of day `HHMMSS`.
pub open spec fn time_suffix(t: Timestamp) -> Seq<char> {
    dec_padded(t.hour as nat, 2) + dec_padded(t.minute as nat, 2) + dec_padded(t.second as nat, 2)
}

/// The slug derived for an entry without a caller-supplied slug.
pub open spec fn spec_get_slug(name: Option<Seq<char>>, t: Timestamp) -> Seq<char> {
    match name {
        Option::Some(nm) => date_prefix(t) + hyph(spec_get_first_n(32, nm), false),
        Option::None => date_prefix(t) + time_suffix(t),
    }
}

/// The lower-cased input with everything but letters, digits and whitespace
/// removed, cut to the first `n` characters.
pub fn get_first_n(n: usize, input: &str) -> (r: String)
    ensures
        r@ == spec_get_first_n(n as nat, input@),
{
    let lowered = to_lowercase(input);
    let ghost ls = lowered@;
    let ghost kept = ls.filter(|c: char| slug_keep(c));
    let len = lowered.as_str().unicode_len();
    let mut out = String::new();
    let mut k: usize = 0;
    let mut i: usize = 0;
    while i < len
        invariant
            i <= len,
            len == ls.len(),
            ls == lowered@,
            kept == ls.filter(|c: char| slug_keep(c)),
            k == out@.len(),
            out@.len() <= n,
            out@ == if ls.take(i as int).filter(|c: char| slug_keep(c)).len() <= n {
                ls.take(i as int).filter(|c: char| slug_keep(c))
            } else {
                ls.take(i as int).filter(|c: char| slug_keep(c)).take(n as int)
            },
        decreases len - i,
    {
        let ghost fprev = ls.take(i as int).filter(|c: char| slug_keep(c));
        let c = lowered.as_str().get_char(i);
        let keep = char_alnum(c) || char_white(c);
        proof {
            reveal(Seq::filter);
            assert(ls.take(i + 1).drop_last() =~= ls.take(i as int));
            assert(ls.take(i + 1).last() == ls[i as int]);
            assert(ls.take(i + 1).filter(|c: char| slug_keep(c)) == if slug_keep(ls[i as int]) {
                fprev.push(ls[i as int])
            } else {
                fprev
            });
        }
        if keep && k < n {
            push_char(&mut out, c);
            k = k + 1;
            proof {
                assert(fprev.push(c) =~= fprev + seq![c]);
                if fprev.len() + 1 > n {
                    assert(fprev.push(c).take(n as int) =~= fprev.take(n as int).push(
                        c,
                    ).take(n as int));
                    assert(fprev.push(c).take(n as int) =~= fprev);
                }
            }
        } else if keep {
            proof {
                assert(out@.len() == n);
                assert(fprev.len() >= n);
                assert(fprev.push(c).take(n as int) =~= fprev.take(n as int));
            }
        }
        i = i + 1;
    }
    proof {
        assert(ls.take(len as int) =~= ls);
    }
    out
}

/// Appends the input with each whitespace run become one hyphen.
fn append_hyphenated(out: &mut String, s: &str)
    ensures
        final(out)@ == old(out)@ + hyph(s@, false),
{
    let len = s.unicode_len();
    proof {
        assert(s@.skip(0) =~= s@);
    }
    let mut i: usize = 0;
    let mut prev_white = false;
    while i < len
        invariant
            i <= len,
            len == s@.len(),
            out@ + hyph(s@.skip(i as int), prev_white) == old(out)@ + hyph(s@, false),
        decreases len - i,
    {
        let c = s.get_char(i);
        let ghost rest = s@.skip(i as int);
        proof {
            assert(rest.len() > 0);
            assert(rest[0] == s@[i as int]);
            assert(rest.drop_first() =~= s@.skip(i + 1));
        }
        if char_white(c) {
            if !prev_white {
                push_char(out, '-');
                proof {
                    assert(out@ + hyph(s@.skip(i + 1), true) =~= old(out)@ + hyph(s@, false));
                }
            }
            prev_white = true;
        } else {
            push_char(out, c);
            proof {
                assert(out@ + hyph(s@.skip(i + 1), false) =~= old(out)@ + hyph(s@, false));
            }
            prev_white = false;
        }
        i = i + 1;
    }
    proof {
        assert(s@.skip(len as int) =~= Seq::<char>::empty());
        assert(out@ =~= out@ + hyph(s@.skip(len as int), prev_white));
    }
}

/// Appends the `YYYY/MM/DD/` date prefix.
fn append_date_prefix(out: &mut String, t: &Timestamp)
    ensures
        final(out)@ == old(out)@ + date_prefix(*t),
{
    push_dec_padded(out, t.year, 4);
    push_char(out, '/');
    push_dec_padded(out, t.month, 2);
    push_char(out, '/');
    push_dec_padded(out, t.day, 2);
    push_char(out, '/');
    proof {
        assert(out@ =~= old(out)@ + date_prefix(*t));
    }
}

/// Derives the slug for an entry that the caller gave none: the date, then
/// the cleaned title, or the time of day when there is no title.
pub fn get_slug(name: Option<&str>, now: &Timestamp) -> (r: String)
    ensures
        r@ == spec_get_slug(
            match name {
                Option::Some(n) => Option::Some(n@),
                Option::None => Option::None,
            },
            *now,
        ),
{
    let mut out = String::new();
    append_date_prefix(&mut out, now);
    match name {
        Some(n) => {
            let cleaned = get_first_n(32, n);
            append_hyphenated(&mut out, cleaned.as_str());
        },
        None => {
            push_dec_padded(&mut out, now.hour, 2);
            push_dec_padded(&mut out, now.minute, 2);
            push_dec_padded(&mut out, now.second, 2);
            proof {
                assert(out@ =~= date_prefix(*now) + time_suffix(*now));
            }
        },
    }
    out
}

/// The value of a decimal digit character; ten for anything else.
pub open spec fn digit_val(c: char) -> nat {
    if c == '0' {
        0
    } else if c == '1' {
        1
    } else if c == '2' {
        2
    } else if c == '3' {
        3
    } else if c == '4' {
        4
    } else if c == '5' {
        5
    } else if c == '6' {
        6
    } else if c == '7' {
        7
    } else if c == '8' {
        8
    } else if c == '9' {
        9
    } else {
        10
    }
}

/// Whether a character is a decimal digit.
pub open spec fn is_dec_digit(c: char) -> bool {
    digit_val(c) < 10
}

/// The value of the two digits at `i`.
pub open spec fn two_dig(s: Seq<char>, i: int) -> nat {
    digit_val(s[i]) * 10 + digit_val(s[i + 1])
}

/// The value of the four digits at `i`.
pub open spec fn four_dig(s: Seq<char>, i: int) -> nat {
    digit_val(s[i]) * 1000 + digit_val(s[i + 1]) * 100 + digit_val(s[i + 2]) * 10 + digit_val(
        s[i + 3],
    )
}

/// Whether the string has the stored timestamp shape
/// `YYYY-MM-DD HH:MM:SS`: nineteen characters, digits and separators in
/// their places.
pub open spec fn ts_shape(s: Seq<char>) -> bool {
    &&& s.len() == 19
    &&& is_dec_digit(s[0])
    &&& is_dec_digit(s[1])
    &&& is_dec_digit(s[2])
    &&& is_dec_digit(s[3])
    &&& s[4] == '-'
    &&& is_dec_digit(s[5])
    &&& is_dec_digit(s[6])
    &&& s[7] == '-'
    &&& is_dec_digit(s[8])
    &&& is_dec_digit(s[9])
    &&& s[10] == ' '
    &&& is_dec_digit(s[11])
    &&& is_dec_digit(s[12])
    &&& s[13] == ':'
    &&& is_dec_digit(s[14])
    &&& is_dec_digit(s[15])
    &&& s[16] == ':'
    &&& is_dec_digit(s[17])
    &&& is_dec_digit(s[18])
}

/// What a stored timestamp string reads as: the six calendar fields, when
/// the shape holds and each field lies in its range; nothing otherwise.
pub open spec fn spec_parse_timestamp(s: Seq<char>) -> Option<Timestamp> {
    if ts_shape(s) {
        let mo = two_dig(s, 5);
        let d = two_dig(s, 8);
        let h = two_dig(s, 11);
        let mi = two_dig(s, 14);
        let se = two_dig(s, 17);
        if 1 <= mo <= 12 && 1 <= d <= 31 && h < 24 && mi < 60 && se < 60 {
            Option::Some(
                Timestamp {
                    year: four_dig(s, 0) as u32,
                    month: mo as u32,
                    day: d as u32,
                    hour: h as u32,
                    minute: mi as u32,
                    second: se as u32,
                },
            )
        } else {
            Option::None
        }
    } else {
        Option::None
    }
}

/// The value of a decimal digit character, or ten.
fn exec_digit_val(c: char) -> (r: u32)
    ensures
        r == digit_val(c),
{
    match c {
        '0' => 0,
        '1' => 1,
        '2' => 2,
        '3' => 3,
        '4' => 4,
        '5' => 5,
        '6' => 6,
        '7' => 7,
        '8' => 8,
        '9' => 9,
        _ => 10,
    }
}

/// Reads a stored `YYYY-MM-DD HH:MM:SS` timestamp into its calendar fields.
pub fn parse_timestamp(s: &str) -> (r: Option<Timestamp>)
    ensures
        r == spec_parse_timestamp(s@),
{
    let len = s.unicode_len();
    if len != 19 {
        return None;
    }
    if !(s.get_char(4) == '-' && s.get_char(7) == '-' && s.get_char(10) == ' ' && s.get_char(13)
        == ':' && s.get_char(16) == ':') {
        return None;
    }
    let d0 = exec_digit_val(s.get_char(0));
    let d1 = exec_digit_val(s.get_char(1));
    let d2 = exec_digit_val(s.get_char(2));
    let d3 = exec_digit_val(s.get_char(3));
    let d5 = exec_digit_val(s.get_char(5));
    let d6 = exec_digit_val(s.get_char(6));
    let d8 = exec_digit_val(s.get_char(8));
    let d9 = exec_digit_val(s.get_char(9));
    let d11 = exec_digit_val(s.get_char(11));
    let d12 = exec_digit_val(s.get_char(12));
    let d14 = exec_digit_val(s.get_char(14));
    let d15 = exec_digit_val(s.get_char(15));
    let d17 = exec_digit_val(s.get_char(17));
    let d18 = exec_digit_val(s.get_char(18));
    if d0 >= 10 || d1 >= 10 || d2 >= 10 || d3 >= 10 || d5 >= 10 || d6 >= 10 || d8 >= 10 || d9 >= 10
        || d11 >= 10 || d12 >= 10 || d14 >= 10 || d15 >= 10 || d17 >= 10 || d18 >= 10 {
        return None;
    }
    let mo = d5 * 10 + d6;
    let d = d8 * 10 + d9;
    let h = d11 * 10 + d12;
    let mi = d14 * 10 + d15;
    let se = d17 * 10 + d18;
    if 1 <= mo && mo <= 12 && 1 <= d && d <= 31 && h < 24 && mi < 60 && se < 60 {
        Some(
            Timestamp {
                year: d0 * 1000 + d1 * 100 + d2 * 10 + d3,
                month: mo,
                day: d,
                hour: h,
                minute: mi,
                second: se,
            },
        )
    } else {
        None
    }
}

} // verus!
