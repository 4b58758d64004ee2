use vstd::prelude::*;

use crate::error::CodecError;
use crate::text::{chars_of, push_char};

verus! {

/// A date and a time of day with microsecond precision and no time zone.
#[derive(PartialEq, Eq, Structural, Clone, Copy, Debug)]
pub struct Timestamp {
    pub year: u16,
    pub month: u8,
    pub day: u8,
    pub hour: u8,
    pub minute: u8,
    pub second: u8,
    pub microsecond: u32,
}

/// Leap years of the proleptic Gregorian calendar.
pub open spec fn is_leap_year(y: int) -> bool {
    y % 4 == 0 && (y % 100 != 0 || y % 400 == 0)
}

pub open spec fn days_in_month(y: int, m: int) -> int {
    if m == 2 {
        if is_leap_year(y) {
            29
        } else {
            28
        }
    } else if m == 4 || m == 6 || m == 9 || m == 11 {
        30
    } else {
        31
    }
}

pub open spec fn pow10(w: nat) -> nat
    decreases w,
{
    if w == 0 {
        1
    } else {
        10 * pow10((w - 1) as nat)
    }
}

pub open spec fn digit_char(d: int) -> char {
    (d + 48) as char
}

pub open spec fn is_digit(c: char) -> bool {
    '0' <= c && c <= '9'
}

/// The last `w` decimal digits of `n`, most significant first.
pub open spec fn digits(n: int, w: nat) -> Seq<char>
    decreases w,
{
    if w == 0 {
        seq![]
    } else {
        digits(n / 10, (w - 1) as nat).push(digit_char(n % 10))
    }
}

impl Timestamp {
    /// The fields name an existing instant of years 0 to 9999.
    pub open spec fn wf(&self) -> bool {
        &&& self.year <= 9999
        &&& 1 <= self.month <= 12
        &&& 1 <= self.day <= days_in_month(self.year as int, self.month as int)
        &&& self.hour < 24
        &&& self.minute < 60
        &&& self.second < 60
        &&& self.microsecond < 1_000_000
    }
}

/// The canonical text `YYYY-MM-DDTHH:MM:SS.ffffff`.
pub open spec fn timestamp_text(t: Timestamp) -> Seq<char> {
    digits(t.year as int, 4) + seq!['-'] + digits(t.month as int, 2) + seq!['-'] + digits(
        t.day as int,
        2,
    ) + seq!['T'] + digits(t.hour as int, 2) + seq![':'] + digits(t.minute as int, 2) + seq![':']
        + digits(t.second as int, 2) + seq!['.'] + digits(t.microsecond as int, 6)
}

/// What decoding a text yields: the valid instant written there in the
/// canonical form, or `InvalidTimestamp`.
pub open spec fn timestamp_of_text(s: Seq<char>) -> Result<Timestamp, CodecError> {
    if exists|t: Timestamp| t.wf() && timestamp_text(t) == s {
        Ok(choose|t: Timestamp| t.wf() && timestamp_text(t) == s)
    } else {
        Err(CodecError::InvalidTimestamp)
    }
}

/// Relies on time's `util::is_leap_year`: whether a year is a leap year of
/// the proleptic Gregorian calendar.
#[verifier::external_body]
fn leap_year(year: i32) -> (r: bool)
    requires
        0 <= year <= 9999,
    ensures
        r == is_leap_year(year as int),
{
    time::util::is_leap_year(year)
}

proof fn lemma_digits_len(n: int, w: nat)
    ensures
        digits(n, w).len() == w,
    decreases w,
{
    if w > 0 {
        lemma_digits_len(n / 10, (w - 1) as nat);
    }
}

proof fn lemma_digits_are_digits(n: int, w: nat)
    requires
        0 <= n,
    ensures
        forall|k: int| 0 <= k < w ==> is_digit(#[trigger] digits(n, w)[k]),
    decreases w,
{
    lemma_digits_len(n, w);
    if w > 0 {
        lemma_digits_are_digits(n / 10, (w - 1) as nat);
        lemma_digits_len(n / 10, (w - 1) as nat);
        assert forall|k: int| 0 <= k < w implies is_digit(#[trigger] digits(n, w)[k]) by {
            if k < w - 1 {
                assert(digits(n, w)[k] == digits(n / 10, (w - 1) as nat)[k]);
            }
        }
    }
}

proof fn lemma_digits_injective(a: int, b: int, w: nat)
    requires
        0 <= a < pow10(w),
        0 <= b < pow10(w),
        digits(a, w) == digits(b, w),
    ensures
        a == b,
    decreases w,
{
    if w > 0 {
        let wp = (w - 1) as nat;
        lemma_digits_len(a / 10, wp);
        lemma_digits_len(b / 10, wp);
        assert(digits(a, w).last() == digit_char(a % 10));
        assert(digits(b, w).last() == digit_char(b % 10));
        assert(a % 10 == b % 10);
        assert(digits(a / 10, wp) == digits(a, w).drop_last());
        assert(digits(b / 10, wp) == digits(b, w).drop_last());
        assert(a / 10 < pow10(wp)) by (nonlinear_arith)
            requires
                a < 10 * pow10(wp),
                0 <= a,
        ;
        assert(b / 10 < pow10(wp)) by (nonlinear_arith)
            requires
                b < 10 * pow10(wp),
                0 <= b,
        ;
        lemma_digits_injective(a / 10, b / 10, wp);
    }
}

/// The fields of a timestamp text stand at fixed places.
pub open spec fn text_layout(s: Seq<char>, t: Timestamp) -> bool {
    &&& s.len() == 26
    &&& s.subrange(0, 4) == digits(t.year as int, 4)
    &&& s[4] == '-'
    &&& s.subrange(5, 7) == digits(t.month as int, 2)
    &&& s[7] == '-'
    &&& s.subrange(8, 10) == digits(t.day as int, 2)
    &&& s[10] == 'T'
    &&& s.subrange(11, 13) == digits(t.hour as int, 2)
    &&& s[13] == ':'
    &&& s.subrange(14, 16) == digits(t.minute as int, 2)
    &&& s[16] == ':'
    &&& s.subrange(17, 19) == digits(t.second as int, 2)
    &&& s[19] == '.'
    &&& s.subrange(20, 26) == digits(t.microsecond as int, 6)
}

proof fn lemma_text_layout(s: Seq<char>, t: Timestamp)
    ensures
        text_layout(s, t) <==> timestamp_text(t) == s,
{
    lemma_digits_len(t.year as int, 4);
    lemma_digits_len(t.month as int, 2);
    lemma_digits_len(t.day as int, 2);
    lemma_digits_len(t.hour as int, 2);
    lemma_digits_len(t.minute as int, 2);
    lemma_digits_len(t.second as int, 2);
    lemma_digits_len(t.microsecond as int, 6);
    let x = timestamp_text(t);
    assert(text_layout(x, t)) by {
        assert(x.len() == 26);
        assert(x.subrange(0, 4) =~= digits(t.year as int, 4));
        assert(x.subrange(5, 7) =~= digits(t.month as int, 2));
        assert(x.subrange(8, 10) =~= digits(t.day as int, 2));
        assert(x.subrange(11, 13) =~= digits(t.hour as int, 2));
        assert(x.subrange(14, 16) =~= digits(t.minute as int, 2));
        assert(x.subrange(17, 19) =~= digits(t.second as int, 2));
        assert(x.subrange(20, 26) =~= digits(t.microsecond as int, 6));
    }
    if text_layout(s, t) {
        assert forall|k: int| 0 <= k < 26 implies s[k] == x[k] by {
            if k < 4 {
                assert(s[k] == s.subrange(0, 4)[k]);
                assert(x[k] == x.subrange(0, 4)[k]);
            } else if 5 <= k < 7 {
                assert(s[k] == s.subrange(5, 7)[k - 5]);
                assert(x[k] == x.subrange(5, 7)[k - 5]);
            } else if 8 <= k < 10 {
                assert(s[k] == s.subrange(8, 10)[k - 8]);
                assert(x[k] == x.subrange(8, 10)[k - 8]);
            } else if 11 <= k < 13 {
                assert(s[k] == s.subrange(11, 13)[k - 11]);
                assert(x[k] == x.subrange(11, 13)[k - 11]);
            } else if 14 <= k < 16 {
                assert(s[k] == s.subrange(14, 16)[k - 14]);
                assert(x[k] == x.subrange(14, 16)[k - 14]);
            } else if 17 <= k < 19 {
                assert(s[k] == s.subrange(17, 19)[k - 17]);
                assert(x[k] == x.subrange(17, 19)[k - 17]);
            } else if 20 <= k < 26 {
                assert(s[k] == s.subrange(20, 26)[k - 20]);
                assert(x[k] == x.subrange(20, 26)[k - 20]);
            }
        }
        assert(s =~= x);
    }
}

spec fn fits(t: Timestamp) -> bool {
    &&& t.year < 10000
    &&& t.month < 100
    &&& t.day < 100
    &&& t.hour < 100
    &&& t.minute < 100
    &&& t.second < 100
    &&& t.microsecond < 1_000_000
}

proof fn lemma_text_injective_fitting(a: Timestamp, b: Timestamp)
    requires
        fits(a),
        fits(b),
        timestamp_text(a) == timestamp_text(b),
    ensures
        a == b,
{
    let s = timestamp_text(a);
    lemma_text_layout(s, a);
    lemma_text_layout(s, b);
    reveal_with_fuel(pow10, 7);
    lemma_digits_injective(a.year as int, b.year as int, 4);
    lemma_digits_injective(a.month as int, b.month as int, 2);
    lemma_digits_injective(a.day as int, b.day as int, 2);
    lemma_digits_injective(a.hour as int, b.hour as int, 2);
    lemma_digits_injective(a.minute as int, b.minute as int, 2);
    lemma_digits_injective(a.second as int, b.second as int, 2);
    lemma_digits_injective(a.microsecond as int, b.microsecond as int, 6);
}

proof fn lemma_layout_digits(s: Seq<char>, t: Timestamp)
    requires
        text_layout(s, t),
    ensures
        forall|k: int|
            0 <= k < 26 && k != 4 && k != 7 && k != 10 && k != 13 && k != 16 && k != 19
                ==> is_digit(#[trigger] s[k]),
{
    lemma_digits_are_digits(t.year as int, 4);
    lemma_digits_are_digits(t.month as int, 2);
    lemma_digits_are_digits(t.day as int, 2);
    lemma_digits_are_digits(t.hour as int, 2);
    lemma_digits_are_digits(t.minute as int, 2);
    lemma_digits_are_digits(t.second as int, 2);
    lemma_digits_are_digits(t.microsecond as int, 6);
    assert forall|k: int|
        0 <= k < 26 && k != 4 && k != 7 && k != 10 && k != 13 && k != 16 && k != 19 implies is_digit(
        #[trigger] s[k],
    ) by {
        if k < 4 {
            assert(s[k] == s.subrange(0, 4)[k]);
        } else if 5 <= k < 7 {
            assert(s[k] == s.subrange(5, 7)[k - 5]);
        } else if 8 <= k < 10 {
            assert(s[k] == s.subrange(8, 10)[k - 8]);
        } else if 11 <= k < 13 {
            assert(s[k] == s.subrange(11, 13)[k - 11]);
        } else if 14 <= k < 16 {
            assert(s[k] == s.subrange(14, 16)[k - 14]);
        } else if 17 <= k < 19 {
            assert(s[k] == s.subrange(17, 19)[k - 17]);
        } else {
            assert(s[k] == s.subrange(20, 26)[k - 20]);
        }
    }
}

/// A valid instant is the only one with its text.
pub proof fn lemma_timestamp_text_injective(a: Timestamp, b: Timestamp)
    requires
        a.wf(),
        b.wf(),
        timestamp_text(a) == timestamp_text(b),
    ensures
        a == b,
{
    lemma_text_injective_fitting(a, b);
}

/// Decoding the canonical text of a valid instant gives that instant back.
pub proof fn lemma_timestamp_round_trip(t: Timestamp)
    requires
        t.wf(),
    ensures
        timestamp_of_text(timestamp_text(t)) == Ok::<Timestamp, CodecError>(t),
{
    let s = timestamp_text(t);
    assert(t.wf() && timestamp_text(t) == s);
    let c = choose|c: Timestamp| c.wf() && timestamp_text(c) == s;
    lemma_timestamp_text_injective(t, c);
}

/// Appends the last `w` decimal digits of `n`.
fn push_digits(s: &mut String, n: u32, w: u32)
    requires
        w <= 9,
    ensures
        final(s)@ == old(s)@ + digits(n as int, w as nat),
    decreases w,
{
    if w > 0 {
        push_digits(s, n / 10, w - 1);
        let d: u8 = (n % 10) as u8;
        let c: char = (d + 48) as char;
        assert(c == digit_char(n as int % 10));
        push_char(s, c);
    }
}

/// Reads `w` decimal digits starting at `i`.
fn read_digits(v: &Vec<char>, i: usize, w: usize) -> (r: Option<u32>)
    requires
        w <= 6,
        i + w <= v@.len(),
    ensures
        match r {
            Some(n) => n < pow10(w as nat) && digits(n as int, w as nat) == v@.subrange(
                i as int,
                i + w,
            ),
            None => exists|k: int| i <= k < i + w && !is_digit(v@[k]),
        },
{
    let len = v.len();
    let mut n: u32 = 0;
    let mut j: usize = 0;
    while j < w
        invariant
            len == v@.len(),
            w <= 6,
            i + w <= v@.len(),
            j <= w,
            n < pow10(j as nat),
            digits(n as int, j as nat) == v@.subrange(i as int, i + j),
        decreases w - j,
    {
        let c = v[i + j];
        if !('0' <= c && c <= '9') {
            return None;
        }
        let d: u32 = (c as u32) - 48;
        let ghost old_n = n as int;
        proof {
            assert(pow10((j + 1) as nat) == 10 * pow10(j as nat));
            assert(pow10(j as nat) <= 100_000) by {
                reveal_with_fuel(pow10, 7);
                assert(j < 6);
            }
            assert((old_n * 10 + d) / 10 == old_n && (old_n * 10 + d) % 10 == d as int) by (nonlinear_arith)
                requires
                    0 <= d < 10,
                    0 <= old_n,
            ;
            assert(old_n * 10 + d < 10 * pow10(j as nat)) by (nonlinear_arith)
                requires
                    old_n < pow10(j as nat),
                    0 <= d < 10,
            ;
        }
        n = n * 10 + d;
        proof {
            assert(digit_char(d as int) == c);
            assert(v@.subrange(i as int, i + j + 1) == v@.subrange(i as int, i + j).push(c));
        }
        j = j + 1;
    }
    Some(n)
}

impl Timestamp {
    /// A timestamp from its fields, when they name a valid instant.
    pub fn new(
        year: u16,
        month: u8,
        day: u8,
        hour: u8,
        minute: u8,
        second: u8,
        microsecond: u32,
    ) -> (r: Result<Timestamp, CodecError>)
        ensures
            match r {
                Ok(t) => t.wf() && t == (Timestamp {
                    year,
                    month,
                    day,
                    hour,
                    minute,
                    second,
                    microsecond,
                }),
                Err(e) => e == CodecError::InvalidTimestamp && !(Timestamp {
                    year,
                    month,
                    day,
                    hour,
                    minute,
                    second,
                    microsecond,
                }).wf(),
            },
    {
        let t = Timestamp { year, month, day, hour, minute, second, microsecond };
        if t.is_valid() {
            Ok(t)
        } else {
            Err(CodecError::InvalidTimestamp)
        }
    }

    /// Whether the fields name a valid instant.
    pub fn is_valid(&self) -> (r: bool)
        ensures
            r == self.wf(),
    {
        if self.year > 9999 || self.month < 1 || self.month > 12 || self.day < 1 {
            return false;
        }
        let leap = leap_year(self.year as i32);
        let last: u8 = if self.month == 2 {
            if leap {
                29
            } else {
                28
            }
        } else if self.month == 4 || self.month == 6 || self.month == 9 || self.month == 11 {
            30
        } else {
            31
        };
        self.day <= last && self.hour < 24 && self.minute < 60 && self.second < 60
            && self.microsecond < 1_000_000
    }

    /// Reads the canonical text of a valid instant; any other text is an
    /// `InvalidTimestamp`.
    pub fn parse(s: &str) -> (r: Result<Timestamp, CodecError>)
        ensures
            r == timestamp_of_text(s@),
    {
        let v = chars_of(s);
        let r = Self::parse_chars(&v);
        proof {
            match r {
                Ok(t) => {
                    lemma_timestamp_round_trip(t);
                },
                Err(_) => {},
            }
        }
        r
    }

    /// Reads a timestamp that may be absent: absence is `None`, while a text
    /// that is present must be canonical, as for `parse`.
    pub fn parse_optional(s: Option<&str>) -> (r: Result<Option<Timestamp>, CodecError>)
        ensures
            match s {
                None => r == Ok::<Option<Timestamp>, CodecError>(None),
                Some(text) => match timestamp_of_text(text@) {
                    Ok(t) => r == Ok::<Option<Timestamp>, CodecError>(Some(t)),
                    Err(e) => r == Err::<Option<Timestamp>, CodecError>(e),
                },
            },
    {
        match s {
            None => Ok(None),
            Some(text) => match Timestamp::parse(text) {
                Ok(t) => Ok(Some(t)),
                Err(e) => Err(e),
            },
        }
    }

    fn parse_chars(v: &Vec<char>) -> (r: Result<Timestamp, CodecError>)
        ensures
            match r {
                Ok(t) => t.wf() && timestamp_text(t) == v@,
                Err(e) => e == CodecError::InvalidTimestamp && forall|t: Timestamp|
                    t.wf() ==> timestamp_text(t) != v@,
            },
    {
        proof {
            assert forall|t: Timestamp| t.wf() && timestamp_text(t) == v@ implies text_layout(
                v@,
                t,
            ) && (forall|k: int| 0 <= k < 26 && k != 4 && k != 7 && k != 10 && k != 13 && k
                != 16 && k != 19 ==> is_digit(#[trigger] v@[k])) by {
                lemma_text_layout(v@, t);
                lemma_layout_digits(v@, t);
            }
        }
        if v.len() != 26 || v[4] != '-' || v[7] != '-' || v[10] != 'T' || v[13] != ':' || v[16]
            != ':' || v[19] != '.' {
            return Err(CodecError::InvalidTimestamp);
        }
        let year = match read_digits(v, 0, 4) {
            Some(n) => n,
            None => {
                return Err(CodecError::InvalidTimestamp);
            },
        };
        let month = match read_digits(v, 5, 2) {
            Some(n) => n,
            None => {
                return Err(CodecError::InvalidTimestamp);
            },
        };
        let day = match read_digits(v, 8, 2) {
            Some(n) => n,
            None => {
                return Err(CodecError::InvalidTimestamp);
            },
        };
        let hour = match read_digits(v, 11, 2) {
            Some(n) => n,
            None => {
                return Err(CodecError::InvalidTimestamp);
            },
        };
        let minute = match read_digits(v, 14, 2) {
            Some(n) => n,
            None => {
                return Err(CodecError::InvalidTimestamp);
            },
        };
        let second = match read_digits(v, 17, 2) {
            Some(n) => n,
            None => {
                return Err(CodecError::InvalidTimestamp);
            },
        };
        let microsecond = match read_digits(v, 20, 6) {
            Some(n) => n,
            None => {
                return Err(CodecError::InvalidTimestamp);
            },
        };
        proof {
            reveal_with_fuel(pow10, 7);
        }
        let t = Timestamp {
            year: year as u16,
            month: month as u8,
            day: day as u8,
            hour: hour as u8,
            minute: minute as u8,
            second: second as u8,
            microsecond,
        };
        proof {
            assert(text_layout(v@, t));
            lemma_text_layout(v@, t);
            assert forall|u: Timestamp| u.wf() implies timestamp_text(u) != v@ || t.wf() by {
                if timestamp_text(u) == v@ {
                    lemma_text_injective_fitting(u, t);
                }
            }
        }
        if t.is_valid() {
            Ok(t)
        } else {
            Err(CodecError::InvalidTimestamp)
        }
    }

    /// The canonical text of this instant.
    pub fn to_text(&self) -> (r: String)
        requires
            self.wf(),
        ensures
            r@ == timestamp_text(*self),
    {
        let mut s = String::new();
        push_digits(&mut s, self.year as u32, 4);
        push_char(&mut s, '-');
        push_digits(&mut s, self.month as u32, 2);
        push_char(&mut s, '-');
        push_digits(&mut s, self.day as u32, 2);
        push_char(&mut s, 'T');
        push_digits(&mut s, self.hour as u32, 2);
        push_char(&mut s, ':');
        push_digits(&mut s, self.minute as u32, 2);
        push_char(&mut s, ':');
        push_digits(&mut s, self.second as u32, 2);
        push_char(&mut s, '.');
        push_digits(&mut s, self.microsecond, 6);
        s
    }
}

} // verus!
