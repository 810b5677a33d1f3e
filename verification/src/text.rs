//! Text helpers for the status grammar: splitting on a delimiter character
//! and parsing decimal integers with an explicit error taxonomy.

use vstd::prelude::*;

verus! {

/// Why a decimal parse failed: empty input, a character that is no digit
/// (a bare sign included), or a value outside the target range. Input is
/// scanned left to right, so the first failure encountered is reported.
#[derive(Debug, Clone, Copy, PartialEq, Eq, Structural)]
pub enum IntParseError {
    Empty,
    InvalidDigit,
    PosOverflow,
    NegOverflow,
}

/// True of the ten ASCII decimal digits.
pub open spec fn is_decimal_digit(c: char) -> bool {
    48 <= c as u32 <= 57
}

/// The numeric value of a decimal digit.
pub open spec fn digit_val(c: char) -> int
    recommends
        is_decimal_digit(c),
{
    c as u32 - 48
}

/// Fold the digits of `s` onto `acc` as an unsigned 16-bit value, reporting
/// the first non-digit or the first step past 0xFFFF.
pub open spec fn parse_u16_digits(s: Seq<char>, acc: int) -> Result<u16, IntParseError>
    recommends
        0 <= acc <= 0xFFFF,
    decreases s.len(),
{
    if s.len() == 0 {
        Ok(acc as u16)
    } else if !is_decimal_digit(s[0]) {
        Err(IntParseError::InvalidDigit)
    } else if acc * 10 + digit_val(s[0]) > 0xFFFF {
        Err(IntParseError::PosOverflow)
    } else {
        parse_u16_digits(s.drop_first(), acc * 10 + digit_val(s[0]))
    }
}

/// Parse an unsigned 16-bit decimal: an optional leading `+`, then one or
/// more digits. A minus sign is no digit here and is rejected as one.
pub open spec fn parse_u16_spec(s: Seq<char>) -> Result<u16, IntParseError> {
    if s.len() == 0 {
        Err(IntParseError::Empty)
    } else {
        let digits = if s[0] == '+' {
            s.drop_first()
        } else {
            s
        };
        if digits.len() == 0 {
            Err(IntParseError::InvalidDigit)
        } else {
            parse_u16_digits(digits, 0)
        }
    }
}

/// Fold the digits of `s` onto `acc` as a signed 16-bit value, accumulating
/// away from zero in the direction given by `positive`.
pub open spec fn parse_i16_digits(s: Seq<char>, acc: int, positive: bool) -> Result<
    i16,
    IntParseError,
>
    recommends
        -0x8000 <= acc <= 0x7FFF,
    decreases s.len(),
{
    if s.len() == 0 {
        Ok(acc as i16)
    } else if !is_decimal_digit(s[0]) {
        Err(IntParseError::InvalidDigit)
    } else {
        let next = if positive {
            acc * 10 + digit_val(s[0])
        } else {
            acc * 10 - digit_val(s[0])
        };
        if next > 0x7FFF {
            Err(IntParseError::PosOverflow)
        } else if next < -0x8000 {
            Err(IntParseError::NegOverflow)
        } else {
            parse_i16_digits(s.drop_first(), next, positive)
        }
    }
}

/// Parse a signed 16-bit decimal: an optional leading `+` or `-`, then one
/// or more digits.
pub open spec fn parse_i16_spec(s: Seq<char>) -> Result<i16, IntParseError> {
    if s.len() == 0 {
        Err(IntParseError::Empty)
    } else {
        let positive = s[0] != '-';
        let digits = if s[0] == '+' || s[0] == '-' {
            s.drop_first()
        } else {
            s
        };
        if digits.len() == 0 {
            Err(IntParseError::InvalidDigit)
        } else {
            parse_i16_digits(digits, 0, positive)
        }
    }
}

/// Parse an unsigned 16-bit decimal from the given characters.
pub fn parse_u16(s: &[char]) -> (r: Result<u16, IntParseError>)
    ensures
        r == parse_u16_spec(s@),
{
    if s.len() == 0 {
        return Err(IntParseError::Empty);
    }
    let start: usize = if s[0] == '+' {
        1
    } else {
        0
    };
    if start == s.len() {
        return Err(IntParseError::InvalidDigit);
    }
    proof {
        assert(s@.drop_first() =~= s@.skip(1));
        assert(s@.skip(0) =~= s@);
    }
    let mut acc: u32 = 0;
    let mut i: usize = start;
    while i < s.len()
        invariant
            start <= i <= s@.len(),
            start < s@.len(),
            acc <= 0xFFFF,
            parse_u16_spec(s@) == parse_u16_digits(s@.skip(i as int), acc as int),
        decreases s@.len() - i,
    {
        let c = s[i];
        let u = c as u32;
        proof {
            assert(s@.skip(i as int)[0] == s@[i as int]);
            assert(s@.skip(i as int).drop_first() =~= s@.skip(i as int + 1));
        }
        if u < 48 || u > 57 {
            return Err(IntParseError::InvalidDigit);
        }
        let next = acc * 10 + (u - 48);
        if next > 0xFFFF {
            return Err(IntParseError::PosOverflow);
        }
        acc = next;
        i = i + 1;
    }
    proof {
        assert(s@.skip(s@.len() as int) =~= Seq::<char>::empty());
    }
    Ok(acc as u16)
}

/// Parse a signed 16-bit decimal from the given characters.
pub fn parse_i16(s: &[char]) -> (r: Result<i16, IntParseError>)
    ensures
        r == parse_i16_spec(s@),
{
    if s.len() == 0 {
        return Err(IntParseError::Empty);
    }
    let positive = s[0] != '-';
    let start: usize = if s[0] == '+' || s[0] == '-' {
        1
    } else {
        0
    };
    if start == s.len() {
        return Err(IntParseError::InvalidDigit);
    }
    proof {
        assert(s@.drop_first() =~= s@.skip(1));
        assert(s@.skip(0) =~= s@);
    }
    let mut acc: i32 = 0;
    let mut i: usize = start;
    while i < s.len()
        invariant
            start <= i <= s@.len(),
            start < s@.len(),
            -0x8000 <= acc <= 0x7FFF,
            parse_i16_spec(s@) == parse_i16_digits(s@.skip(i as int), acc as int, positive),
        decreases s@.len() - i,
    {
        let c = s[i];
        let u = c as u32;
        proof {
            assert(s@.skip(i as int)[0] == s@[i as int]);
            assert(s@.skip(i as int).drop_first() =~= s@.skip(i as int + 1));
        }
        if u < 48 || u > 57 {
            return Err(IntParseError::InvalidDigit);
        }
        let d = (u - 48) as i32;
        let next = if positive {
            acc * 10 + d
        } else {
            acc * 10 - d
        };
        if next > 0x7FFF {
            return Err(IntParseError::PosOverflow);
        }
        if next < -0x8000 {
            return Err(IntParseError::NegOverflow);
        }
        acc = next;
        i = i + 1;
    }
    proof {
        assert(s@.skip(s@.len() as int) =~= Seq::<char>::empty());
    }
    Ok(acc as i16)
}

/// The fields of `s` split on the delimiter `d`: the text between
/// consecutive delimiters, with an empty field before a leading delimiter,
/// after a trailing one, and for empty input. There is always at least one
/// field.
pub open spec fn split_on(s: Seq<char>, d: char) -> Seq<Seq<char>>
    decreases s.len(),
{
    if s.len() == 0 {
        seq![Seq::<char>::empty()]
    } else if s[0] == d {
        seq![Seq::<char>::empty()] + split_on(s.drop_first(), d)
    } else {
        let r = split_on(s.drop_first(), d);
        seq![seq![s[0]] + r[0]] + r.drop_first()
    }
}

/// Splitting yields at least one field.
pub proof fn lemma_split_on_len(s: Seq<char>, d: char)
    ensures
        split_on(s, d).len() >= 1,
    decreases s.len(),
{
    if s.len() > 0 {
        lemma_split_on_len(s.drop_first(), d);
    }
}

/// Split `s` on the delimiter `d` into its fields.
pub fn split_char(s: &Vec<char>, d: char) -> (r: Vec<Vec<char>>)
    ensures
        r.deep_view() == split_on(s@, d),
{
    let ghost target = split_on(s@, d);
    let mut done: Vec<Vec<char>> = Vec::new();
    let mut cur: Vec<char> = Vec::new();
    let mut i: usize = 0;
    proof {
        assert(s@.skip(0) =~= s@);
        lemma_split_on_len(s@, d);
        assert(seq![target[0]] + target.drop_first() =~= target);
        assert(target =~= done.deep_view() + seq![cur@ + split_on(s@.skip(0), d)[0]] + split_on(
            s@.skip(0),
            d,
        ).drop_first());
    }
    while i < s.len()
        invariant
            i <= s@.len(),
            target == split_on(s@, d),
            split_on(s@.skip(i as int), d).len() >= 1,
            target == done.deep_view() + seq![cur@ + split_on(s@.skip(i as int), d)[0]]
                + split_on(s@.skip(i as int), d).drop_first(),
        decreases s@.len() - i,
    {
        let c = s[i];
        proof {
            assert(s@.skip(i as int)[0] == s@[i as int]);
            assert(s@.skip(i as int).drop_first() =~= s@.skip(i as int + 1));
            lemma_split_on_len(s@.skip(i as int + 1), d);
        }
        let ghost tail_old = split_on(s@.skip(i as int), d);
        let ghost tail_new = split_on(s@.skip(i as int + 1), d);
        if c == d {
            let ghost done_views = done.deep_view();
            let finished = cur;
            cur = Vec::new();
            done.push(finished);
            proof {
                assert(tail_old == seq![Seq::<char>::empty()] + tail_new);
                assert(tail_old[0] =~= Seq::<char>::empty());
                assert(tail_old.drop_first() =~= tail_new);
                assert(finished@ + tail_old[0] =~= finished@);
                assert(seq![tail_new[0]] + tail_new.drop_first() =~= tail_new);
                assert(done.deep_view() =~~= done_views.push(finished@));
                assert(target =~~= done.deep_view() + seq![cur@ + tail_new[0]]
                    + tail_new.drop_first());
            }
        } else {
            let ghost cur_old = cur@;
            cur.push(c);
            proof {
                assert(tail_old == seq![seq![s@[i as int]] + tail_new[0]]
                    + tail_new.drop_first());
                assert(tail_old[0] == seq![s@[i as int]] + tail_new[0]);
                assert(tail_old.drop_first() =~= tail_new.drop_first());
                assert(cur@ + tail_new[0] =~= cur_old + tail_old[0]);
                assert(target =~~= done.deep_view() + seq![cur@ + tail_new[0]]
                    + tail_new.drop_first());
            }
        }
        i = i + 1;
    }
    let ghost done_views = done.deep_view();
    done.push(cur);
    proof {
        assert(s@.skip(s@.len() as int) =~= Seq::<char>::empty());
        let tail = split_on(s@.skip(s@.len() as int), d);
        assert(tail == seq![Seq::<char>::empty()]);
        assert(cur@ + tail[0] =~= cur@);
        assert(tail.drop_first() =~= Seq::<Seq<char>>::empty());
        assert(done.deep_view() =~~= done_views.push(cur@));
        assert(done.deep_view() =~~= target);
    }
    done
}

} // verus!
