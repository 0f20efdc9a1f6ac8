use vstd::prelude::*;

verus! {

/// The smallest year that a calendar date may carry.
pub const MIN_YEAR: i32 = -262143;

/// The largest year that a calendar date may carry.
pub const MAX_YEAR: i32 = 262142;

/// The largest scale (digits after the point) of an amount.
pub const MAX_SCALE: u32 = 28;

/// The largest magnitude of an amount's mantissa: 2^96 - 1.
pub const MAX_MANTISSA: i128 = 0xFFFF_FFFF_FFFF_FFFF_FFFF_FFFF;

/// The leap-year rule of the Gregorian calendar.
pub open spec fn is_leap_year(y: int) -> bool {
    (y % 4 == 0 && y % 100 != 0) || y % 400 == 0
}

/// The number of days of month `m` of year `y`.
pub open spec fn days_in_month(y: int, m: int) -> int {
    if m == 2 {
        if is_leap_year(y) { 29 } else { 28 }
    } else if m == 4 || m == 6 || m == 9 || m == 11 {
        30
    } else {
        31
    }
}

/// An existing day of the proleptic Gregorian calendar, within the year range.
pub open spec fn valid_ymd(y: int, m: int, d: int) -> bool {
    &&& MIN_YEAR <= y <= MAX_YEAR
    &&& 1 <= m <= 12
    &&& 1 <= d <= days_in_month(y, m)
}

/// Whether the parts name an existing calendar day within the year range.
fn calendar_day_exists(year: i32, month: u32, day: u32) -> (r: bool)
    ensures
        r == valid_ymd(year as int, month as int, day as int),
{
    if year < MIN_YEAR || year > MAX_YEAR || month < 1 || month > 12 || day < 1 {
        return false;
    }
    let leap = (year % 4 == 0 && year % 100 != 0) || year % 400 == 0;
    let days: u32 = if month == 2 {
        if leap { 29 } else { 28 }
    } else if month == 4 || month == 6 || month == 9 || month == 11 {
        30
    } else {
        31
    };
    day <= days
}

/// A calendar day, held as year, month and day.
#[derive(Clone, Copy, Debug, PartialEq, Eq, Structural)]
pub struct CalendarDate {
    pub year: i32,
    pub month: u32,
    pub day: u32,
}

impl CalendarDate {
    /// The parts name an existing day.
    pub open spec fn wf(self) -> bool {
        valid_ymd(self.year as int, self.month as int, self.day as int)
    }

    /// Calendar order: by year, then month, then day.
    pub open spec fn before_or_same(self, other: CalendarDate) -> bool {
        ||| self.year < other.year
        ||| (self.year == other.year && self.month < other.month)
        ||| (self.year == other.year && self.month == other.month && self.day <= other.day)
    }

    /// The date with these parts, if that day exists.
    pub fn from_ymd(year: i32, month: u32, day: u32) -> (r: Option<CalendarDate>)
        ensures
            r is Some <==> valid_ymd(year as int, month as int, day as int),
            r matches Some(d) ==> d.year == year && d.month == month && d.day == day,
    {
        if calendar_day_exists(year, month, day) {
            Some(CalendarDate { year, month, day })
        } else {
            None
        }
    }

    /// Whether this date comes strictly after `other`.
    pub fn is_after(&self, other: &CalendarDate) -> (r: bool)
        ensures
            r == !self.before_or_same(*other),
    {
        if self.year != other.year {
            self.year > other.year
        } else if self.month != other.month {
            self.month > other.month
        } else {
            self.day > other.day
        }
    }
}

/// Ten to the power `n`.
pub open spec fn pow10(n: nat) -> int
    decreases n,
{
    if n == 0 { 1 } else { 10 * pow10((n - 1) as nat) }
}

/// An exact decimal amount: `mantissa / 10^scale`.
/// Two amounts with different parts may have the same value (1.0 and 1.00);
/// `==` compares the parts, `value_eq` compares the values.
#[derive(Clone, Copy, Debug, PartialEq, Eq, Structural)]
pub struct Amount {
    pub mantissa: i128,
    pub scale: u32,
}

impl Amount {
    /// Both parts are in the range of an exact decimal.
    pub open spec fn wf(self) -> bool {
        &&& self.scale <= MAX_SCALE
        &&& -MAX_MANTISSA <= self.mantissa <= MAX_MANTISSA
    }

    /// Equality of the values `mantissa / 10^scale`, by cross-multiplying.
    pub open spec fn same_value(self, other: Amount) -> bool {
        self.mantissa * pow10(other.scale as nat) == other.mantissa * pow10(self.scale as nat)
    }

    /// The amount `mantissa / 10^scale`, if both parts are in range.
    pub fn new(mantissa: i128, scale: u32) -> (r: Option<Amount>)
        ensures
            r is Some <==> (scale <= MAX_SCALE && -MAX_MANTISSA <= mantissa <= MAX_MANTISSA),
            r matches Some(a) ==> a.mantissa == mantissa && a.scale == scale,
    {
        if scale <= MAX_SCALE && -MAX_MANTISSA <= mantissa && mantissa <= MAX_MANTISSA {
            Some(Amount { mantissa, scale })
        } else {
            None
        }
    }

    /// Whether both parts are in range.
    pub fn in_range(&self) -> (r: bool)
        ensures
            r == self.wf(),
    {
        self.scale <= MAX_SCALE && -MAX_MANTISSA <= self.mantissa && self.mantissa <= MAX_MANTISSA
    }

    /// Whether the two amounts have the same value.
    pub fn value_eq(&self, other: &Amount) -> (r: bool)
        requires
            self.wf(),
            other.wf(),
        ensures
            r == self.same_value(*other),
    {
        decimal_eq(self, other)
    }
}

/// Relies on rust_decimal: `Decimal::from_i128_with_scale` builds
/// `mantissa / 10^scale` (it panics only outside the ranges that `wf` keeps),
/// and `==` on `Decimal` compares numeric values.
#[verifier::external_body]
fn decimal_eq(a: &Amount, b: &Amount) -> (r: bool)
    requires
        a.wf(),
        b.wf(),
    ensures
        r == a.same_value(*b),
{
    rust_decimal::Decimal::from_i128_with_scale(a.mantissa, a.scale)
        == rust_decimal::Decimal::from_i128_with_scale(b.mantissa, b.scale)
}

/// The characters with the Unicode White_Space property.
pub open spec fn white_space(c: char) -> bool {
    let u = c as u32;
    ||| 0x9 <= u <= 0xD
    ||| u == 0x20
    ||| u == 0x85
    ||| u == 0xA0
    ||| u == 0x1680
    ||| 0x2000 <= u <= 0x200A
    ||| u == 0x2028
    ||| u == 0x2029
    ||| u == 0x202F
    ||| u == 0x205F
    ||| u == 0x3000
}

/// `t` is `s` without its leading and trailing White_Space characters.
pub open spec fn trimmed_of(s: Seq<char>, t: Seq<char>) -> bool {
    exists|a: int, b: int| {
        &&& 0 <= a <= b <= s.len()
        &&& t == s.subrange(a, b)
        &&& forall|i: int| 0 <= i < a ==> white_space(#[trigger] s[i])
        &&& forall|i: int| b <= i < s.len() ==> white_space(#[trigger] s[i])
        &&& a < b ==> !white_space(s[a]) && !white_space(s[b - 1])
    }
}

/// Relies on `str::trim`, which removes the leading and trailing characters
/// that have the White_Space property.
#[verifier::external_body]
fn trim_text(s: &str) -> (r: &str)
    ensures
        trimmed_of(s@, r@),
{
    s.trim()
}

/// A text that is empty or only whitespace.
pub open spec fn is_blank(s: Seq<char>) -> bool {
    forall|i: int| 0 <= i < s.len() ==> white_space(#[trigger] s[i])
}

/// Whether the text is empty or only whitespace.
pub fn blank(s: &String) -> (r: bool)
    ensures
        r == is_blank(s@),
{
    let t = trim_text(s.as_str());
    proof {
        let (a, b) = choose|a: int, b: int| {
            &&& 0 <= a <= b <= s@.len()
            &&& t@ == s@.subrange(a, b)
            &&& forall|i: int| 0 <= i < a ==> white_space(#[trigger] s@[i])
            &&& forall|i: int| b <= i < s@.len() ==> white_space(#[trigger] s@[i])
            &&& a < b ==> !white_space(s@[a]) && !white_space(s@[b - 1])
        };
        if a == b {
            assert forall|i: int| 0 <= i < s@.len() implies white_space(#[trigger] s@[i]) by {
                if i >= b {
                } else {
                }
            }
        } else {
            assert(!white_space(s@[a]));
        }
    }
    t.is_empty()
}

/// Text equality of two optional texts.
pub open spec fn same_text(a: Option<String>, b: Option<String>) -> bool {
    match (a, b) {
        (None, None) => true,
        (Some(x), Some(y)) => x@ == y@,
        _ => false,
    }
}

/// Whether two optional texts are equal.
pub fn text_eq(a: &Option<String>, b: &Option<String>) -> (r: bool)
    ensures
        r == same_text(*a, *b),
{
    match a {
        None => b.is_none(),
        Some(x) => match b {
            None => false,
            Some(y) => String::eq(x, y),
        },
    }
}

/// A copy of an optional text.
pub fn copy_text(a: &Option<String>) -> (r: Option<String>)
    ensures
        r == *a,
{
    match a {
        None => None,
        Some(x) => Some(x.clone()),
    }
}

} // verus!
