//! Decimal numerals: formatting integers into strings and parsing strings
//! into integers and fixed-point coordinates.
//!
//! Coordinates are held as signed 64-bit integers in units of one millionth,
//! so the token `-5.25` parses to `-5_250_000`. Fractional digits beyond the
//! sixth are truncated.

use vstd::prelude::*;
use crate::strutil::{spec_split, split_on};

verus! {

/// Whether `c` is a decimal digit.
pub open spec fn is_digit(c: char) -> bool {
    '0' as u32 <= c as u32 && c as u32 <= '9' as u32
}

/// The numeric value of a digit character.
pub open spec fn digit_val(c: char) -> int {
    c as u32 - '0' as u32
}

/// Whether every character of `s` is a decimal digit.
pub open spec fn all_digits(s: Seq<char>) -> bool {
    forall|i: int| 0 <= i < s.len() ==> is_digit(#[trigger] s[i])
}

/// The value of a digit string, most significant digit first.
pub open spec fn digits_val(s: Seq<char>) -> int
    decreases s.len(),
{
    if s.len() == 0 {
        0
    } else {
        digits_val(s.take(s.len() - 1)) * 10 + digit_val(s[s.len() - 1])
    }
}

/// Ten to the power `n`.
pub open spec fn pow10(n: nat) -> int
    decreases n,
{
    if n == 0 {
        1
    } else {
        10 * pow10((n - 1) as nat)
    }
}

/// A digit string's value is non-negative.
pub proof fn lemma_digits_val_nonneg(s: Seq<char>)
    requires
        all_digits(s),
    ensures
        digits_val(s) >= 0,
    decreases s.len(),
{
    if s.len() > 0 {
        assert(all_digits(s.take(s.len() - 1)));
        lemma_digits_val_nonneg(s.take(s.len() - 1));
    }
}

/// Extending a digit string on the right can only increase its value.
pub proof fn lemma_digits_val_prefix(s: Seq<char>, i: int)
    requires
        all_digits(s),
        0 <= i <= s.len(),
    ensures
        digits_val(s.take(i)) <= digits_val(s),
    decreases s.len() - i,
{
    if i < s.len() {
        assert(all_digits(s.take(i + 1)));
        assert(s.take(i + 1).take(i) =~= s.take(i));
        lemma_digits_val_nonneg(s.take(i));
        lemma_digits_val_prefix(s, i + 1);
        assert(digits_val(s.take(i + 1)) == digits_val(s.take(i)) * 10 + digit_val(s[i]));
    } else {
        assert(s.take(i) =~= s);
    }
}

/// The character for the digit `d`.
pub open spec fn digit_char(d: int) -> char {
    if d == 0 {
        '0'
    } else if d == 1 {
        '1'
    } else if d == 2 {
        '2'
    } else if d == 3 {
        '3'
    } else if d == 4 {
        '4'
    } else if d == 5 {
        '5'
    } else if d == 6 {
        '6'
    } else if d == 7 {
        '7'
    } else if d == 8 {
        '8'
    } else {
        '9'
    }
}

/// The decimal numeral of a non-negative number, without sign or padding.
pub open spec fn spec_dec(n: int) -> Seq<char>
    decreases n,
{
    if n < 10 {
        seq![digit_char(n)]
    } else {
        spec_dec(n / 10) + seq![digit_char(n % 10)]
    }
}

/// The decimal numeral of a signed number: a `-` sign followed by the
/// numeral of the magnitude.
pub open spec fn spec_dec_signed(n: int) -> Seq<char> {
    if n < 0 {
        seq!['-'] + spec_dec(-n)
    } else {
        spec_dec(n)
    }
}

/// The numeral of a number padded with `0` on the left to width two.
pub open spec fn spec_dec_pad2(n: int) -> Seq<char> {
    if 0 <= n < 10 {
        seq!['0'] + spec_dec(n)
    } else {
        spec_dec(n)
    }
}

fn digit_str(d: u64) -> (r: &'static str)
    requires
        d < 10,
    ensures
        r@ == seq![digit_char(d as int)],
{
    let r = match d {
        0 => "0",
        1 => "1",
        2 => "2",
        3 => "3",
        4 => "4",
        5 => "5",
        6 => "6",
        7 => "7",
        8 => "8",
        _ => "9",
    };
    proof {
        reveal_strlit("0");
        reveal_strlit("1");
        reveal_strlit("2");
        reveal_strlit("3");
        reveal_strlit("4");
        reveal_strlit("5");
        reveal_strlit("6");
        reveal_strlit("7");
        reveal_strlit("8");
        reveal_strlit("9");
        assert(r@ =~= seq![digit_char(d as int)]);
    }
    r
}

/// Appends the decimal numeral of `n` to `out`.
pub fn push_u64(out: &mut String, n: u64)
    ensures
        final(out)@ == old(out)@ + spec_dec(n as int),
    decreases n,
{
    if n >= 10 {
        push_u64(out, n / 10);
    }
    out.append(digit_str(n % 10));
    proof {
        if n < 10 {
            assert(old(out)@ + seq![digit_char(n as int)] =~= old(out)@ + spec_dec(n as int));
        } else {
            assert((old(out)@ + spec_dec(n as int / 10)) + seq![digit_char(n as int % 10)]
                =~= old(out)@ + spec_dec(n as int));
        }
    }
}

/// Appends the decimal numeral of `n`, with a `-` sign if negative.
pub fn push_i64(out: &mut String, n: i64)
    ensures
        final(out)@ == old(out)@ + spec_dec_signed(n as int),
{
    if n < 0 {
        out.append("-");
        proof {
            reveal_strlit("-");
        }
        let m: u64 = if n == i64::MIN {
            9223372036854775808u64
        } else {
            (-n) as u64
        };
        push_u64(out, m);
        proof {
            assert((old(out)@ + "-"@) + spec_dec(-(n as int)) =~= old(out)@ + spec_dec_signed(
                n as int,
            ));
        }
    } else {
        push_u64(out, n as u64);
    }
}

/// Appends the decimal numeral of `n` padded with `0` to width two.
pub fn push_u64_pad2(out: &mut String, n: u64)
    ensures
        final(out)@ == old(out)@ + spec_dec_pad2(n as int),
{
    if n < 10 {
        out.append("0");
        proof {
            reveal_strlit("0");
        }
        push_u64(out, n);
        proof {
            assert((old(out)@ + "0"@) + spec_dec(n as int) =~= old(out)@ + spec_dec_pad2(n as int));
        }
    } else {
        push_u64(out, n);
    }
}

/// The port number a decimal string denotes: an optional `+` sign, then
/// one or more digits whose value fits in sixteen bits.
pub open spec fn spec_parse_u16(s: Seq<char>) -> Option<u16> {
    let body = if s.len() > 0 && s[0] == '+' {
        s.skip(1)
    } else {
        s
    };
    if body.len() > 0 && all_digits(body) && digits_val(body) <= u16::MAX {
        Some(digits_val(body) as u16)
    } else {
        None
    }
}

fn char_digit(c: char) -> (r: Option<u64>)
    ensures
        r is Some <==> is_digit(c),
        r is Some ==> r->Some_0 == digit_val(c) && r->Some_0 < 10,
{
    let u = c as u32;
    if 48 <= u && u <= 57 {
        Some((u - 48) as u64)
    } else {
        None
    }
}

/// Parses a decimal string into a sixteen-bit number, as for a port.
pub fn parse_u16(s: &str) -> (r: Option<u16>)
    ensures
        r == spec_parse_u16(s@),
{
    let len: usize = s.unicode_len();
    let mut i: usize = 0;
    if len > 0 && s.get_char(0) == '+' {
        i = 1;
    }
    let start = i;
    let ghost body = s@.skip(start as int);
    proof {
        if start == 0 {
            assert(s@.skip(0) =~= s@);
        }
    }
    if i == len {
        return None;
    }
    let mut val: u64 = 0;
    while i < len
        invariant
            start <= i <= len,
            len == s@.len(),
            start <= 1,
            body == s@.skip(start as int),
            body == (if s@.len() > 0 && s@[0] == '+' { s@.skip(1) } else { s@ }),
            all_digits(body.take(i - start)),
            val == digits_val(body.take(i - start)),
            val <= u16::MAX,
        decreases len - i,
    {
        let c = s.get_char(i);
        proof {
            assert(body[i - start] == s@[i as int]);
            assert(body.take(i + 1 - start).take(i - start) =~= body.take(i - start));
            assert(body.take(i + 1 - start)[i - start] == body[i - start]);
        }
        match char_digit(c) {
            Some(d) => {
                let next = val * 10 + d;
                if next > 65535 {
                    proof {
                        assert(all_digits(body.take(i + 1 - start)));
                        assert(digits_val(body.take(i + 1 - start)) > u16::MAX);
                        if all_digits(body) {
                            lemma_digits_val_prefix(body, i + 1 - start);
                            assert(digits_val(body) > u16::MAX);
                        }
                        assert(spec_parse_u16(s@) is None);
                    }
                    return None;
                }
                val = next;
            },
            None => {
                proof {
                    assert(0 <= i - start < body.len());
                    assert(!is_digit(body[i - start]));
                    assert(!all_digits(body));
                }
                return None;
            },
        }
        i = i + 1;
    }
    proof {
        assert(body.take(len - start) =~= body);
    }
    Some(val as u16)
}

/// Whether `s` is a well-formed unsigned decimal body: digits, with at most
/// one point, and at least one digit in all.
pub open spec fn coord_body_ok(s: Seq<char>) -> bool {
    let parts = spec_split(s, '.');
    if parts.len() == 1 {
        parts[0].len() > 0 && all_digits(parts[0])
    } else if parts.len() == 2 {
        all_digits(parts[0]) && all_digits(parts[1]) && parts[0].len() + parts[1].len() > 0
    } else {
        false
    }
}

/// The value of a fractional digit string scaled to six places,
/// truncating digits beyond the sixth.
pub open spec fn frac_scaled(f: Seq<char>) -> int {
    if f.len() >= 6 {
        digits_val(f.take(6))
    } else {
        digits_val(f) * pow10((6 - f.len()) as nat)
    }
}

/// The scaled magnitude, in millionths, of a well-formed unsigned body.
pub open spec fn coord_body_val(s: Seq<char>) -> int {
    let parts = spec_split(s, '.');
    let frac = if parts.len() == 2 {
        frac_scaled(parts[1])
    } else {
        0
    };
    digits_val(parts[0]) * 1000000 + frac
}

/// The coordinate a decimal token denotes, in millionths: an optional sign,
/// then digits with at most one point. Tokens whose magnitude does not fit
/// in a signed 64-bit count of millionths are rejected.
pub open spec fn spec_parse_coord(s: Seq<char>) -> Option<i64> {
    let neg = s.len() > 0 && s[0] == '-';
    let body = if s.len() > 0 && (s[0] == '-' || s[0] == '+') {
        s.skip(1)
    } else {
        s
    };
    if !coord_body_ok(body) {
        None
    } else if coord_body_val(body) > i64::MAX {
        None
    } else if neg {
        Some((-coord_body_val(body)) as i64)
    } else {
        Some(coord_body_val(body) as i64)
    }
}

/// A digit string's value is below ten to its length.
pub proof fn lemma_digits_val_upper(s: Seq<char>)
    requires
        all_digits(s),
    ensures
        digits_val(s) < pow10(s.len()),
    decreases s.len(),
{
    if s.len() > 0 {
        assert(all_digits(s.take(s.len() - 1)));
        lemma_digits_val_upper(s.take(s.len() - 1));
    }
}

/// Computes the value of an all-digit string, up to a bound.
/// Returns the value when the string holds only digits and its value is at
/// most `bound`; an empty string has value zero.
fn digits_value_bounded(s: &str, bound: u64) -> (r: Option<u64>)
    requires
        bound <= 1000000000000000000,
    ensures
        (r is Some) <==> (all_digits(s@) && digits_val(s@) <= bound),
        r is Some ==> r->Some_0 == digits_val(s@),
{
    let len: usize = s.unicode_len();
    let mut i: usize = 0;
    let mut val: u64 = 0;
    proof {
        assert(s@.take(0) =~= Seq::<char>::empty());
    }
    while i < len
        invariant
            i <= len,
            len == s@.len(),
            bound <= 1000000000000000000,
            all_digits(s@.take(i as int)),
            val == digits_val(s@.take(i as int)),
            val <= bound,
        decreases len - i,
    {
        let c = s.get_char(i);
        proof {
            assert(s@.take(i + 1).take(i as int) =~= s@.take(i as int));
            assert(s@.take(i + 1)[i as int] == s@[i as int]);
        }
        match char_digit(c) {
            Some(d) => {
                let next = val * 10 + d;
                if next > bound {
                    proof {
                        assert(all_digits(s@.take(i + 1)));
                        assert(digits_val(s@.take(i + 1)) > bound);
                        if all_digits(s@) {
                            lemma_digits_val_prefix(s@, i + 1);
                            assert(digits_val(s@) > bound);
                        }
                    }
                    return None;
                }
                val = next;
            },
            None => {
                proof {
                    assert(!is_digit(s@[i as int]));
                }
                return None;
            },
        }
        i = i + 1;
    }
    proof {
        assert(s@.take(len as int) =~= s@);
    }
    Some(val)
}

fn pow10_exec(n: usize) -> (r: u64)
    requires
        n <= 6,
    ensures
        r == pow10(n as nat),
{
    proof {
        reveal_with_fuel(pow10, 7);
    }
    match n {
        0 => 1,
        1 => 10,
        2 => 100,
        3 => 1000,
        4 => 10000,
        5 => 100000,
        _ => 1000000,
    }
}

/// Parses a decimal token into a coordinate in millionths.
pub fn parse_coord(s: &str) -> (r: Option<i64>)
    ensures
        r == spec_parse_coord(s@),
{
    let len: usize = s.unicode_len();
    let mut start: usize = 0;
    let mut neg = false;
    if len > 0 {
        let c0 = s.get_char(0);
        if c0 == '-' {
            neg = true;
            start = 1;
        } else if c0 == '+' {
            start = 1;
        }
    }
    let body = s.substring_char(start, len);
    proof {
        if start == 0 {
            assert(s@.subrange(0, len as int) =~= s@);
        } else {
            assert(s@.subrange(1, len as int) =~= s@.skip(1));
        }
        assert(body@ == (if s@.len() > 0 && (s@[0] == '-' || s@[0] == '+') {
            s@.skip(1)
        } else {
            s@
        }));
    }
    let parts = split_on(body, '.');
    proof {
        assert(parts.deep_view() == spec_split(body@, '.'));
        assert(parts@.len() == parts.deep_view().len());
        assert(forall|k: int|
            0 <= k < parts@.len() ==> (#[trigger] parts@[k])@ == parts.deep_view()[k]);
    }
    if parts.len() > 2 {
        return None;
    }
    let int_part: &String = &parts[0];
    if parts.len() == 1 && int_part.as_str().is_empty() {
        return None;
    }
    // The scaled magnitude must stay within i64, so the integer part can be
    // at most the whole-unit magnitude that fits.
    let int_val = match digits_value_bounded(int_part.as_str(), 9223372036854) {
        Some(v) => v,
        None => {
            proof {
                if all_digits(int_part@) {
                    assert(digits_val(int_part@) > 9223372036854);
                    assert(digits_val(int_part@) * 1000000 >= 9223372036855 * 1000000) by (nonlinear_arith)
                        requires
                            digits_val(int_part@) >= 9223372036855,
                    ;
                    if coord_body_ok(body@) {
                        if spec_split(body@, '.').len() == 2 {
                            lemma_frac_scaled_nonneg(spec_split(body@, '.')[1]);
                        }
                        assert(coord_body_val(body@) > i64::MAX);
                    }
                }
            }
            return None;
        },
    };
    let mut frac_val: u64 = 0;
    if parts.len() == 2 {
        let frac: &String = &parts[1];
        let frac_len = frac.as_str().unicode_len();
        if int_part.as_str().is_empty() && frac.as_str().is_empty() {
            return None;
        }
        let take_n = if frac_len > 6 {
            6
        } else {
            frac_len
        };
        let head = frac.as_str().substring_char(0, take_n);
        proof {
            assert(head@ =~= frac@.take(take_n as int));
            assert(all_digits(frac@.take(take_n as int)) ==> digits_val(
                frac@.take(take_n as int),
            ) < pow10(take_n as nat)) by {
                if all_digits(frac@.take(take_n as int)) {
                    lemma_digits_val_upper(frac@.take(take_n as int));
                }
            }
            reveal_with_fuel(pow10, 7);
        }
        let hv = match digits_value_bounded(head, 999999) {
            Some(v) => v,
            None => {
                proof {
                    assert(!all_digits(frac@.take(take_n as int)));
                    let k = choose|k: int|
                        0 <= k < take_n && !is_digit(#[trigger] frac@.take(take_n as int)[k]);
                    assert(!is_digit(frac@[k]));
                }
                return None;
            },
        };
        // The digits beyond the sixth do not enter the value, but they must
        // still be digits for the token to be well formed.
        let mut j = take_n;
        while j < frac_len
            invariant
                take_n <= j <= frac_len,
                frac_len == frac@.len(),
                body@ == (if s@.len() > 0 && (s@[0] == '-' || s@[0] == '+') {
                    s@.skip(1)
                } else {
                    s@
                }),
                spec_split(body@, '.').len() == 2,
                spec_split(body@, '.')[1] == frac@,
                forall|k: int| take_n <= k < j ==> is_digit(#[trigger] frac@[k]),
            decreases frac_len - j,
        {
            match char_digit(frac.as_str().get_char(j)) {
                Some(_) => {
                    j = j + 1;
                },
                None => {
                    proof {
                        assert(!is_digit(frac@[j as int]));
                        assert(!all_digits(spec_split(body@, '.')[1]));
                        assert(!coord_body_ok(body@));
                    }
                    return None;
                },
            }
        }
        proof {
            let ghost tn = take_n as int;
            assert forall|k: int| 0 <= k < frac@.len() implies is_digit(#[trigger] frac@[k]) by {
                if k < tn {
                    assert(is_digit(frac@.take(tn)[k]));
                }
            }
            assert(all_digits(frac@));
            lemma_digits_val_upper(frac@.take(take_n as int));
        }
        let scale = pow10_exec(6 - take_n);
        proof {
            reveal_with_fuel(pow10, 7);
            assert(pow10(take_n as nat) * pow10((6 - take_n) as nat) == 1000000) by {
                lemma_pow10_add(take_n as nat, (6 - take_n) as nat);
            }
            assert(hv * scale < 1000000) by (nonlinear_arith)
                requires
                    0 <= hv,
                    hv < pow10(take_n as nat),
                    scale == pow10((6 - take_n) as nat),
                    take_n <= 6,
                    pow10(take_n as nat) * pow10((6 - take_n) as nat) == 1000000,
                    scale >= 1,
            ;
        }
        frac_val = hv * scale;
        proof {
            if frac@.len() >= 6 {
                assert(frac@.take(take_n as int) =~= frac@.take(6));
                assert(scale == 1);
            } else {
                assert(frac@.take(take_n as int) =~= frac@);
            }
            assert(frac_val == frac_scaled(frac@));
        }
    }
    proof {
        assert(coord_body_ok(body@));
        lemma_digits_val_nonneg(int_part@);
    }
    let scaled = int_val * 1000000 + frac_val;
    if scaled > 9223372036854775807u64 {
        proof {
            assert(coord_body_val(body@) > i64::MAX);
        }
        return None;
    }
    proof {
        assert(coord_body_val(body@) == scaled);
    }
    if neg {
        if scaled == 0 {
            Some(0)
        } else {
            Some(-(scaled as i64))
        }
    } else {
        Some(scaled as i64)
    }
}

/// A well-formed fractional part scales to a non-negative value.
pub proof fn lemma_frac_scaled_nonneg(f: Seq<char>)
    requires
        all_digits(f),
    ensures
        frac_scaled(f) >= 0,
{
    if f.len() >= 6 {
        assert(all_digits(f.take(6)));
        lemma_digits_val_nonneg(f.take(6));
    } else {
        lemma_digits_val_nonneg(f);
        lemma_pow10_pos((6 - f.len()) as nat);
        assert(digits_val(f) * pow10((6 - f.len()) as nat) >= 0) by (nonlinear_arith)
            requires
                digits_val(f) >= 0,
                pow10((6 - f.len()) as nat) >= 0,
        ;
    }
}

/// Ten to any power is positive.
pub proof fn lemma_pow10_pos(n: nat)
    ensures
        pow10(n) >= 1,
    decreases n,
{
    if n > 0 {
        lemma_pow10_pos((n - 1) as nat);
    }
}

/// Powers of ten multiply by adding exponents.
pub proof fn lemma_pow10_add(a: nat, b: nat)
    ensures
        pow10(a) * pow10(b) == pow10(a + b),
    decreases a,
{
    if a == 0 {
    } else {
        lemma_pow10_add((a - 1) as nat, b);
        assert(pow10(a) * pow10(b) == 10 * (pow10((a - 1) as nat) * pow10(b)))
            by (nonlinear_arith)
            requires
                pow10(a) == 10 * pow10((a - 1) as nat),
        ;
    }
}

} // verus!
