use vstd::prelude::*;

verus! {

pub open spec fn is_digit(c: char) -> bool {
    '0' <= c && c <= '9'
}

pub open spec fn all_digits(s: Seq<char>) -> bool {
    forall|i: int| 0 <= i < s.len() ==> is_digit(#[trigger] s[i])
}

/// The number that a run of decimal digits writes.
pub open spec fn digits_value(s: Seq<char>) -> nat
    decreases s.len(),
{
    if s.len() == 0 {
        0
    } else {
        digits_value(s.drop_last()) * 10 + ((s.last() as int - '0' as int) as nat)
    }
}

pub open spec fn is_leap_year(y: int) -> bool {
    (y % 4 == 0 && y % 100 != 0) || y % 400 == 0
}

pub open spec fn days_in_month(y: int, m: int) -> int {
    if m == 2 {
        if is_leap_year(y) {
            29
        } else {
            28
        }
    } else if m == 4 || m == 6 || m == 9 || m == 11 {
        30
    } else {
        31
    }
}

/// A calendar date of the proleptic Gregorian calendar, years 0 to 9999.
#[derive(Debug, Clone, Copy, PartialEq, Eq, Structural)]
pub struct CalendarDate {
    pub year: u16,
    pub month: u8,
    pub day: u8,
}

pub open spec fn valid_ymd(y: int, m: int, d: int) -> bool {
    0 <= y <= 9999 && 1 <= m <= 12 && 1 <= d <= days_in_month(y, m)
}

impl CalendarDate {
    pub open spec fn wf(&self) -> bool {
        valid_ymd(self.year as int, self.month as int, self.day as int)
    }

    /// The date as one number that orders dates as the calendar does.
    pub open spec fn ord(&self) -> int {
        self.year as int * 10000 + self.month as int * 100 + self.day as int
    }

    pub fn new(year: u16, month: u8, day: u8) -> (r: Option<CalendarDate>)
        ensures
            r is Some <==> valid_ymd(year as int, month as int, day as int),
            r matches Some(d) ==> d.year == year && d.month == month && d.day == day,
    {
        let leap = (year % 4 == 0 && year % 100 != 0) || year % 400 == 0;
        let dim: u8 = if month == 2 {
            if leap {
                29
            } else {
                28
            }
        } else if month == 4 || month == 6 || month == 9 || month == 11 {
            30
        } else {
            31
        };
        if year <= 9999 && 1 <= month && month <= 12 && 1 <= day && day <= dim {
            Some(CalendarDate { year, month, day })
        } else {
            None
        }
    }

    pub fn ordinal(&self) -> (r: u32)
        requires
            self.wf(),
        ensures
            r == self.ord(),
    {
        self.year as u32 * 10000 + self.month as u32 * 100 + self.day as u32
    }

    /// Reads a date written `YYYY-MM-DD`, the whole text and nothing else.
    pub fn parse(s: &str) -> (r: Option<CalendarDate>)
        ensures
            r == date_of_text(s@),
    {
        if s.unicode_len() != 10 {
            return None;
        }
        read_date(s, 0)
    }
}

/// The date that `s` writes as `YYYY-MM-DD` from position `at`, if it is a
/// valid one.
pub open spec fn date_at(s: Seq<char>, at: int) -> Option<CalendarDate> {
    let y = s.subrange(at, at + 4);
    let m = s.subrange(at + 5, at + 7);
    let d = s.subrange(at + 8, at + 10);
    if 0 <= at && at + 10 <= s.len() && s[at + 4] == '-' && s[at + 7] == '-' && all_digits(y)
        && all_digits(m) && all_digits(d) && valid_ymd(
        digits_value(y) as int,
        digits_value(m) as int,
        digits_value(d) as int,
    ) {
        Some(
            CalendarDate {
                year: digits_value(y) as u16,
                month: digits_value(m) as u8,
                day: digits_value(d) as u8,
            },
        )
    } else {
        None
    }
}

/// The date that a text of exactly the form `YYYY-MM-DD` writes.
pub open spec fn date_of_text(s: Seq<char>) -> Option<CalendarDate> {
    if s.len() == 10 {
        date_at(s, 0)
    } else {
        None
    }
}

proof fn lemma_digits_bound(s: Seq<char>)
    requires
        all_digits(s),
    ensures
        digits_value(s) < pow10(s.len()),
    decreases s.len(),
{
    if s.len() > 0 {
        assert(all_digits(s.drop_last())) by {
            assert forall|i: int| 0 <= i < s.drop_last().len() implies is_digit(
                #[trigger] s.drop_last()[i],
            ) by {
                assert(s.drop_last()[i] == s[i]);
            }
        }
        lemma_digits_bound(s.drop_last());
        assert(is_digit(s[s.len() - 1]));
    }
}

pub open spec fn pow10(n: nat) -> nat
    decreases n,
{
    if n == 0 {
        1
    } else {
        10 * pow10((n - 1) as nat)
    }
}

proof fn lemma_pow10_small()
    ensures
        pow10(0) == 1,
        pow10(1) == 10,
        pow10(2) == 100,
        pow10(3) == 1000,
        pow10(4) == 10000,
{
    reveal_with_fuel(pow10, 5);
}

/// Reads `len` decimal digits of `s` from position `at`.
fn read_digits(s: &str, at: usize, len: usize) -> (r: Option<u32>)
    requires
        at + len <= s@.len() <= usize::MAX,
        len <= 4,
    ensures
        r is Some <==> all_digits(s@.subrange(at as int, at + len)),
        r matches Some(v) ==> v == digits_value(s@.subrange(at as int, at + len)),
{
    let mut v: u32 = 0;
    let mut i: usize = 0;
    while i < len
        invariant
            at + len <= s@.len() <= usize::MAX,
            len <= 4,
            i <= len,
            all_digits(s@.subrange(at as int, at + i)),
            v == digits_value(s@.subrange(at as int, at + i)),
            v < pow10(i as nat),
        decreases len - i,
    {
        let c = s.get_char(at + i);
        let ghost prev = s@.subrange(at as int, at + i);
        let ghost next = s@.subrange(at as int, at + i + 1);
        assert(next.drop_last() =~= prev);
        if !('0' <= c && c <= '9') {
            assert(next[i as int] == c);
            assert(!all_digits(s@.subrange(at as int, at + len))) by {
                assert(s@.subrange(at as int, at + len)[i as int] == c);
            }
            return None;
        }
        proof {
            assert(pow10(i as nat + 1) == 10 * pow10(i as nat));
            lemma_pow10_small();
            assert forall|j: int| 0 <= j < next.len() implies is_digit(#[trigger] next[j]) by {
                if j < i {
                    assert(next[j] == prev[j]);
                }
            }
        }
        v = v * 10 + (c as u32 - '0' as u32);
        i = i + 1;
    }
    Some(v)
}

/// Reads a date written `YYYY-MM-DD` from position `at` of `s`.
fn read_date(s: &str, at: usize) -> (r: Option<CalendarDate>)
    requires
        at + 10 <= s@.len() <= usize::MAX,
    ensures
        r == date_at(s@, at as int),
{
    let ghost t = s@;
    if s.get_char(at + 4) != '-' || s.get_char(at + 7) != '-' {
        return None;
    }
    let y = read_digits(s, at, 4);
    let m = read_digits(s, at + 5, 2);
    let d = read_digits(s, at + 8, 2);
    match (y, m, d) {
        (Some(y), Some(m), Some(d)) => {
            proof {
                lemma_digits_bound(t.subrange(at as int, at + 4));
                lemma_digits_bound(t.subrange(at + 5, at + 7));
                lemma_digits_bound(t.subrange(at + 8, at + 10));
                lemma_pow10_small();
            }
            CalendarDate::new(y as u16, m as u8, d as u8)
        },
        _ => None,
    }
}

/// An instant of the calendar to the second, as written on a fiscal document.
#[derive(Debug, Clone, Copy, PartialEq, Eq, Structural)]
pub struct DateTime {
    pub date: CalendarDate,
    pub hour: u8,
    pub minute: u8,
    pub second: u8,
}

impl DateTime {
    pub open spec fn wf(&self) -> bool {
        self.date.wf() && self.hour < 24 && self.minute < 60 && self.second < 60
    }

    /// The instant as one number that orders instants in time.
    pub open spec fn key(&self) -> int {
        self.date.ord() * 1000000 + self.hour as int * 10000 + self.minute as int * 100
            + self.second as int
    }

    pub fn new(date: CalendarDate, hour: u8, minute: u8, second: u8) -> (r: Option<DateTime>)
        ensures
            r is Some <==> (hour < 24 && minute < 60 && second < 60),
            r matches Some(t) ==> t.date == date && t.hour == hour && t.minute == minute
                && t.second == second,
    {
        if hour < 24 && minute < 60 && second < 60 {
            Some(DateTime { date, hour, minute, second })
        } else {
            None
        }
    }

    pub fn sort_key(&self) -> (r: u64)
        requires
            self.wf(),
        ensures
            r == self.key(),
    {
        self.date.ordinal() as u64 * 1000000 + self.hour as u64 * 10000 + self.minute as u64 * 100
            + self.second as u64
    }

    /// Reads an instant written `YYYY-MM-DDTHH:MM:SS` (or with a space in
    /// place of the `T`); whatever follows the seconds, such as a fraction or
    /// an offset, is not read.
    pub fn parse(s: &str) -> (r: Option<DateTime>)
        ensures
            r == datetime_of_text(s@),
    {
        if s.unicode_len() < 19 {
            return None;
        }
        let sep = s.get_char(10);
        if sep != 'T' && sep != ' ' {
            return None;
        }
        if s.get_char(13) != ':' || s.get_char(16) != ':' {
            return None;
        }
        let date = match read_date(s, 0) {
            Some(d) => d,
            None => {
                return None;
            },
        };
        let h = read_digits(s, 11, 2);
        let mi = read_digits(s, 14, 2);
        let se = read_digits(s, 17, 2);
        match (h, mi, se) {
            (Some(h), Some(mi), Some(se)) => {
                proof {
                    lemma_digits_bound(s@.subrange(11, 13));
                    lemma_digits_bound(s@.subrange(14, 16));
                    lemma_digits_bound(s@.subrange(17, 19));
                    lemma_pow10_small();
                }
                DateTime::new(date, h as u8, mi as u8, se as u8)
            },
            _ => None,
        }
    }
}

/// The instant that `s` writes as `YYYY-MM-DDTHH:MM:SS` or
/// `YYYY-MM-DD HH:MM:SS`, followed by anything.
pub open spec fn datetime_of_text(s: Seq<char>) -> Option<DateTime> {
    let h = s.subrange(11, 13);
    let mi = s.subrange(14, 16);
    let se = s.subrange(17, 19);
    if s.len() >= 19 && (s[10] == 'T' || s[10] == ' ') && s[13] == ':' && s[16] == ':' && date_at(
        s,
        0,
    ) is Some && all_digits(h) && all_digits(mi) && all_digits(se) && digits_value(h) < 24
        && digits_value(mi) < 60 && digits_value(se) < 60 {
        Some(
            DateTime {
                date: date_at(s, 0)->0,
                hour: digits_value(h) as u8,
                minute: digits_value(mi) as u8,
                second: digits_value(se) as u8,
            },
        )
    } else {
        None
    }
}

} // verus!
