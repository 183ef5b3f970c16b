//! What the rendering of instants promises as a whole: its shape, its precision and its order.

use std::time::SystemTime;

use vstd::prelude::*;

use crate::clock::epoch_nanos;
use crate::text::{
    all_digits, decimal, digit, lemma_decimal_reads_back, lemma_padded_reads_back, padded,
    power_of_ten, signed_value, value, zeros,
};
use crate::timestamp::{
    date_before, date_of, format_nanos, format_utc, lemma_day_number_orders_dates,
    lemma_every_day_has_a_date, utc_text, Date,
};

verus! {

/// The date of an instant, counted in nanoseconds from the Unix epoch.
pub open spec fn date_at(nanos: int) -> Date {
    date_of(nanos / 1_000_000 / 86_400_000)
}

/// Whether an instant lies in a year that four digits can show.
pub open spec fn four_digit_year(nanos: int) -> bool {
    0 <= date_at(nanos).year <= 9_999
}

/// Whether a character is a decimal digit.
pub open spec fn is_digit(c: char) -> bool {
    '0' <= c <= '9'
}

/// Whether a text has the shape `dddd-dd-ddTdd:dd:dd.ddd`, where each `d` is a digit.
pub open spec fn has_timestamp_shape(text: Seq<char>) -> bool {
    &&& text.len() == 23
    &&& text[4] == '-'
    &&& text[7] == '-'
    &&& text[10] == 'T'
    &&& text[13] == ':'
    &&& text[16] == ':'
    &&& text[19] == '.'
    &&& forall|i: int|
        0 <= i < 23 && i != 4 && i != 7 && i != 10 && i != 13 && i != 16 && i != 19 ==> is_digit(
            #[trigger] text[i],
        )
}

/// The last `width` decimal digits of `n`.
spec fn fixed(n: int, width: nat) -> Seq<char>
    decreases width,
{
    if width == 0 {
        seq![]
    } else {
        fixed(n / 10, (width - 1) as nat).push(digit(n % 10))
    }
}

proof fn lemma_fixed_zero(width: nat)
    ensures
        fixed(0, width) == zeros(width as int),
    decreases width,
{
    if width > 0 {
        lemma_fixed_zero((width - 1) as nat);
    }
    assert(fixed(0, width) =~= zeros(width as int));
}

proof fn lemma_padded_is_fixed(n: int, width: nat)
    requires
        0 <= n < power_of_ten(width),
        width > 0,
    ensures
        padded(n, width as int) == fixed(n, width),
    decreases width,
{
    let shorter = (width - 1) as nat;
    if n < 10 {
        lemma_fixed_zero(shorter);
        assert(fixed(n, width) == zeros(shorter as int).push(digit(n)));
        assert(padded(n, width as int) =~= zeros(shorter as int).push(digit(n)));
    } else {
        assert(power_of_ten(width) == 10 * power_of_ten(shorter));
        if shorter == 0 {
            assert(power_of_ten(0) == 1);
        }
        lemma_padded_is_fixed(n / 10, shorter);
        assert(decimal(n as nat) == decimal((n / 10) as nat).push(digit(n % 10)));
        assert(padded(n, width as int) =~= padded(n / 10, shorter as int).push(digit(n % 10)));
    }
}

proof fn lemma_digits_of(n: int, width: nat)
    requires
        0 <= n < power_of_ten(width),
        width == 2 || width == 3 || width == 4,
    ensures
        padded(n, width as int).len() == width,
        forall|i: int| 0 <= i < width ==> is_digit(#[trigger] padded(n, width as int)[i]),
{
    lemma_padded_is_fixed(n, width);
    reveal_with_fuel(fixed, 5);
}

/// The parts of the day that an instant lies in.
proof fn lemma_fields_are_in_range(nanos: int)
    ensures
        ({
            let date = date_at(nanos);
            let second = nanos / 1_000_000 / 1_000 % 86_400;
            &&& 1 <= date.month <= 12
            &&& 1 <= date.day <= 31
            &&& 0 <= second / 3_600 < 24
            &&& 0 <= second % 3_600 / 60 < 60
            &&& 0 <= second % 60 < 60
            &&& 0 <= nanos / 1_000_000 % 1_000 < 1_000
        }),
{
    lemma_every_day_has_a_date(nanos / 1_000_000 / 86_400_000);
}

/// Every instant of a four-digit year is rendered in exactly 23 characters, with three fractional
/// digits and nothing after them: no zone designator and no numeric offset.
pub proof fn lemma_timestamp_shape(nanos: int)
    requires
        four_digit_year(nanos),
    ensures
        has_timestamp_shape(utc_text(nanos)),
{
    let date = date_at(nanos);
    let millis = nanos / 1_000_000;
    let second = millis / 1_000 % 86_400;
    lemma_fields_are_in_range(nanos);
    reveal_with_fuel(power_of_ten, 5);
    lemma_digits_of(date.year, 4);
    lemma_digits_of(date.month, 2);
    lemma_digits_of(date.day, 2);
    lemma_digits_of(second / 3_600, 2);
    lemma_digits_of(second % 3_600 / 60, 2);
    lemma_digits_of(second % 60, 2);
    lemma_digits_of(millis % 1_000, 3);
}

/// Sub-millisecond precision is truncated, not rounded: every instant of a millisecond, before the
/// epoch or after it, is rendered as the millisecond's first.
pub proof fn lemma_precision_is_truncated(millis: int, rest: int)
    requires
        0 <= rest < 1_000_000,
    ensures
        utc_text(millis * 1_000_000 + rest) == utc_text(millis * 1_000_000),
{
    assert((millis * 1_000_000 + rest) / 1_000_000 == millis);
}

/// Whether text `a` sorts before text `b`: they agree up to some place, and `a` has the smaller
/// character there.
pub open spec fn sorts_before(a: Seq<char>, b: Seq<char>) -> bool {
    exists|i: int| #[trigger] first_difference(a, b, i) && a[i] < b[i]
}

/// Whether `i` is the first place where two texts differ.
pub open spec fn first_difference(a: Seq<char>, b: Seq<char>, i: int) -> bool {
    &&& 0 <= i < a.len()
    &&& i < b.len()
    &&& a.take(i) == b.take(i)
    &&& a[i] != b[i]
}

/// Whichever of two parts differs first decides, if the first ones are equally long.
proof fn lemma_parts_decide(a: Seq<char>, b: Seq<char>, c: Seq<char>, d: Seq<char>)
    requires
        sorts_before(a, b) || (a == b && sorts_before(c, d)),
    ensures
        sorts_before(a + c, b + d),
{
    if sorts_before(a, b) {
        let i = choose|i: int| #[trigger] first_difference(a, b, i) && a[i] < b[i];
        assert((a + c).take(i) =~= a.take(i));
        assert((b + d).take(i) =~= b.take(i));
        assert(first_difference(a + c, b + d, i));
    } else {
        let i = choose|i: int| #[trigger] first_difference(c, d, i) && c[i] < d[i];
        let k = a.len() + i;
        assert((a + c).take(k) =~= a + c.take(i));
        assert((b + d).take(k) =~= b + d.take(i));
        assert(first_difference(a + c, b + d, k));
    }
}

proof fn lemma_fixed_sorts(a: int, b: int, width: nat)
    requires
        0 <= a < b < power_of_ten(width),
    ensures
        sorts_before(fixed(a, width), fixed(b, width)),
    decreases width,
{
    if width == 0 {
        assert(power_of_ten(0) == 1);
    } else {
        let shorter = (width - 1) as nat;
        assert(power_of_ten(width) == 10 * power_of_ten(shorter));
        let left = seq![digit(a % 10)];
        let right = seq![digit(b % 10)];
        if a / 10 < b / 10 {
            lemma_fixed_sorts(a / 10, b / 10, shorter);
        } else {
            assert(left.take(0) =~= right.take(0));
            assert(first_difference(left, right, 0));
        }
        lemma_parts_decide(fixed(a / 10, shorter), fixed(b / 10, shorter), left, right);
        assert(fixed(a, width) =~= fixed(a / 10, shorter) + left);
        assert(fixed(b, width) =~= fixed(b / 10, shorter) + right);
    }
}

/// Of two numbers that fit a field, the smaller one sorts first.
proof fn lemma_padded_sorts(a: int, b: int, width: nat)
    requires
        0 <= a < b < power_of_ten(width),
        width > 0,
    ensures
        sorts_before(padded(a, width as int), padded(b, width as int)),
{
    lemma_padded_is_fixed(a, width);
    lemma_padded_is_fixed(b, width);
    lemma_fixed_sorts(a, b, width);
}

/// A field, a separator and whatever follows.
spec fn joined(field: Seq<char>, separator: char, rest: Seq<char>) -> Seq<char> {
    field + (seq![separator] + rest)
}

/// The first of two fields that differ decides.
proof fn lemma_field_decides(
    a: Seq<char>,
    b: Seq<char>,
    separator: char,
    c: Seq<char>,
    d: Seq<char>,
)
    requires
        sorts_before(a, b) || (a == b && sorts_before(c, d)),
    ensures
        sorts_before(joined(a, separator, c), joined(b, separator, d)),
{
    if !sorts_before(a, b) {
        lemma_parts_decide(seq![separator], seq![separator], c, d);
    }
    lemma_parts_decide(a, b, seq![separator] + c, seq![separator] + d);
}

/// The time of day that follows the date in the rendering, given in milliseconds.
spec fn time_text(millis: int) -> Seq<char> {
    let second = millis / 1_000;
    clock_text(second / 3_600, second % 3_600 / 60, second % 60, millis % 1_000)
}

/// A date, and whatever follows.
spec fn date_text(date: Date, rest: Seq<char>) -> Seq<char> {
    joined(
        padded(date.year, 4),
        '-',
        joined(padded(date.month, 2), '-', joined(padded(date.day, 2), 'T', rest)),
    )
}

/// A later date sorts later, whatever follows.
proof fn lemma_dates_sort(a: Date, b: Date, c: Seq<char>, d: Seq<char>)
    requires
        0 <= a.year <= 9_999,
        0 <= b.year <= 9_999,
        1 <= a.month <= 12,
        1 <= b.month <= 12,
        1 <= a.day <= 31,
        1 <= b.day <= 31,
        date_before(a, b) || (a == b && sorts_before(c, d)),
    ensures
        sorts_before(date_text(a, c), date_text(b, d)),
{
    reveal_with_fuel(power_of_ten, 5);
    let left_day = joined(padded(a.day, 2), 'T', c);
    let right_day = joined(padded(b.day, 2), 'T', d);
    let left_month = joined(padded(a.month, 2), '-', left_day);
    let right_month = joined(padded(b.month, 2), '-', right_day);
    if a.year < b.year {
        lemma_padded_sorts(a.year, b.year, 4);
    } else {
        if a.month < b.month {
            lemma_padded_sorts(a.month, b.month, 2);
        } else {
            if a.day < b.day {
                lemma_padded_sorts(a.day, b.day, 2);
            }
            lemma_field_decides(padded(a.day, 2), padded(b.day, 2), 'T', c, d);
        }
        lemma_field_decides(padded(a.month, 2), padded(b.month, 2), '-', left_day, right_day);
    }
    lemma_field_decides(padded(a.year, 4), padded(b.year, 4), '-', left_month, right_month);
}

/// A time of day: hours, minutes, seconds and milliseconds.
spec fn clock_text(hour: int, minute: int, second: int, millis: int) -> Seq<char> {
    joined(
        padded(hour, 2),
        ':',
        joined(padded(minute, 2), ':', joined(padded(second, 2), '.', padded(millis, 3))),
    )
}

/// Of two times of day, the one whose first differing part is smaller sorts first.
proof fn lemma_clocks_sort(h: int, m: int, s: int, u: int, k: int, n: int, t: int, v: int)
    requires
        0 <= h < 100 && 0 <= k < 100,
        0 <= m < 100 && 0 <= n < 100,
        0 <= s < 100 && 0 <= t < 100,
        0 <= u < 1_000 && 0 <= v < 1_000,
        h < k || (h == k && (m < n || (m == n && (s < t || (s == t && u < v))))),
    ensures
        sorts_before(clock_text(h, m, s, u), clock_text(k, n, t, v)),
{
    reveal_with_fuel(power_of_ten, 5);
    let left_second = joined(padded(s, 2), '.', padded(u, 3));
    let right_second = joined(padded(t, 2), '.', padded(v, 3));
    let left_minute = joined(padded(m, 2), ':', left_second);
    let right_minute = joined(padded(n, 2), ':', right_second);
    if h < k {
        lemma_padded_sorts(h, k, 2);
    } else {
        if m < n {
            lemma_padded_sorts(m, n, 2);
        } else {
            if s < t {
                lemma_padded_sorts(s, t, 2);
            } else {
                lemma_padded_sorts(u, v, 3);
            }
            lemma_field_decides(padded(s, 2), padded(t, 2), '.', padded(u, 3), padded(v, 3));
        }
        lemma_field_decides(padded(m, 2), padded(n, 2), ':', left_second, right_second);
    }
    lemma_field_decides(padded(h, 2), padded(k, 2), ':', left_minute, right_minute);
}

/// A later time of day sorts later.
proof fn lemma_times_sort(a: int, b: int)
    requires
        0 <= a < b < 86_400_000,
    ensures
        sorts_before(time_text(a), time_text(b)),
{
    let s = a / 1_000;
    let t = b / 1_000;
    assert(s <= t);
    assert(s == t ==> a % 1_000 < b % 1_000);
    assert(s == 3_600 * (s / 3_600) + 60 * (s % 3_600 / 60) + s % 60);
    assert(t == 3_600 * (t / 3_600) + 60 * (t % 3_600 / 60) + t % 60);
    lemma_clocks_sort(
        s / 3_600,
        s % 3_600 / 60,
        s % 60,
        a % 1_000,
        t / 3_600,
        t % 3_600 / 60,
        t % 60,
        b % 1_000,
    );
}

/// Joining fields from the left or from the right makes no difference.
proof fn lemma_joins(
    year: Seq<char>,
    month: Seq<char>,
    day: Seq<char>,
    hour: Seq<char>,
    minute: Seq<char>,
    second: Seq<char>,
    millis: Seq<char>,
)
    ensures
        year + seq!['-'] + month + seq!['-'] + day + seq!['T'] + hour + seq![':'] + minute
            + seq![':'] + second + seq!['.'] + millis == joined(
            year,
            '-',
            joined(
                month,
                '-',
                joined(day, 'T', joined(hour, ':', joined(minute, ':', joined(second, '.', millis)))),
            ),
        ),
{
    let tail = joined(second, '.', millis);
    let time = joined(hour, ':', joined(minute, ':', tail));
    let date = year + seq!['-'] + month + seq!['-'] + day + seq!['T'];
    let clock = hour + seq![':'] + minute + seq![':'] + second + seq!['.'] + millis;
    assert(clock =~= time);
    assert(date + time =~= joined(year, '-', joined(month, '-', joined(day, 'T', time))));
    assert(date + hour + seq![':'] + minute + seq![':'] + second + seq!['.'] + millis =~= date
        + clock);
}

/// The rendering of an instant is that of its date and that of its time of day.
proof fn lemma_date_then_time(nanos: int)
    ensures
        utc_text(nanos) == date_text(date_at(nanos), time_text(nanos / 1_000_000 % 86_400_000)),
{
    let millis = nanos / 1_000_000;
    let date = date_at(nanos);
    let rest = millis % 86_400_000;
    let second = millis / 1_000 % 86_400;
    assert(rest / 1_000 == second);
    assert(rest % 1_000 == millis % 1_000);
    lemma_joins(
        padded(date.year, 4),
        padded(date.month, 2),
        padded(date.day, 2),
        padded(second / 3_600, 2),
        padded(second % 3_600 / 60, 2),
        padded(second % 60, 2),
        padded(millis % 1_000, 3),
    );
}

/// Sorting entries by their timestamps as text sorts them by time: of two instants in four-digit
/// years, the one in the later millisecond has the later text.
pub proof fn lemma_later_instants_sort_later(a: int, b: int)
    requires
        four_digit_year(a),
        four_digit_year(b),
        a / 1_000_000 < b / 1_000_000,
    ensures
        sorts_before(utc_text(a), utc_text(b)),
{
    let first = a / 1_000_000;
    let second = b / 1_000_000;
    let date = date_at(a);
    let other = date_at(b);
    lemma_fields_are_in_range(a);
    lemma_fields_are_in_range(b);
    lemma_date_then_time(a);
    lemma_date_then_time(b);
    lemma_every_day_has_a_date(first / 86_400_000);
    lemma_every_day_has_a_date(second / 86_400_000);
    if first / 86_400_000 < second / 86_400_000 {
        if !date_before(date, other) {
            if date_before(other, date) {
                lemma_day_number_orders_dates(other, date);
            }
            assert(false);
        }
    } else {
        lemma_times_sort(first % 86_400_000, second % 86_400_000);
    }
    lemma_dates_sort(date, other, time_text(first % 86_400_000), time_text(second % 86_400_000));
}

/// A timestamp says which millisecond it stands for: two instants in four-digit years share a text
/// exactly if they lie in the same millisecond.
pub proof fn lemma_timestamp_identifies_its_millisecond(a: int, b: int)
    requires
        four_digit_year(a),
        four_digit_year(b),
    ensures
        utc_text(a) == utc_text(b) <==> a / 1_000_000 == b / 1_000_000,
{
    if a / 1_000_000 < b / 1_000_000 {
        lemma_later_instants_sort_later(a, b);
    } else if b / 1_000_000 < a / 1_000_000 {
        lemma_later_instants_sort_later(b, a);
    }
}

/// The number that the digits of a text from one place to another stand for.
pub open spec fn number(text: Seq<char>, from: int, to: int) -> int {
    value(text.subrange(from, to))
}

/// Whether a timestamp reads as an instant, given in nanoseconds from the Unix epoch. The last 19
/// characters are `-MM-DDThh:mm:ss.zzz` and whatever is in front of them is the year, in four
/// characters or as many as it takes. Its date is a
/// date of the calendar, and the instant's day; its time is below 24 hours, 60 minutes and 60
/// seconds, and the instant's millisecond of that day.
pub open spec fn reads_as_instant(text: Seq<char>, nanos: int) -> bool {
    let n = text.len() as int;
    let date = Date {
        year: signed_value(text.take(n - 19)),
        month: number(text, n - 18, n - 16),
        day: number(text, n - 15, n - 13),
    };
    let hour = number(text, n - 12, n - 10);
    let minute = number(text, n - 9, n - 7);
    let second = number(text, n - 6, n - 4);
    let milli = number(text, n - 3, n);
    &&& n >= 23
    &&& n > 23 ==> text[0] != '0' && (text[0] == '-' ==> text[1] != '0')
    &&& all_digits(text.take(n - 19)) || (text[0] == '-' && all_digits(text.subrange(1, n - 19)))
    &&& text[n - 19] == '-' && text[n - 16] == '-'
    &&& text[n - 13] == 'T'
    &&& text[n - 10] == ':' && text[n - 7] == ':'
    &&& text[n - 4] == '.'
    &&& all_digits(text.subrange(n - 18, n - 16)) && all_digits(text.subrange(n - 15, n - 13))
    &&& all_digits(text.subrange(n - 12, n - 10)) && all_digits(text.subrange(n - 9, n - 7))
    &&& all_digits(text.subrange(n - 6, n - 4)) && all_digits(text.subrange(n - 3, n))
    &&& date.valid()
    &&& date.day_number() == nanos / 86_400_000_000_000
    &&& 0 <= hour < 24
    &&& 0 <= minute < 60
    &&& 0 <= second < 60
    &&& 0 <= milli < 1_000
    &&& hour * 3_600_000 + minute * 60_000 + second * 1_000 + milli == nanos % 86_400_000_000_000
        / 1_000_000
}

/// Where the fields of a joined timestamp stand.
proof fn lemma_fields_stand_apart(
    year: Seq<char>,
    month: Seq<char>,
    day: Seq<char>,
    hour: Seq<char>,
    minute: Seq<char>,
    second: Seq<char>,
    millis: Seq<char>,
)
    requires
        month.len() == 2,
        day.len() == 2,
        hour.len() == 2,
        minute.len() == 2,
        second.len() == 2,
        millis.len() == 3,
    ensures
        ({
            let text = year + seq!['-'] + month + seq!['-'] + day + seq!['T'] + hour + seq![':']
                + minute + seq![':'] + second + seq!['.'] + millis;
            let n = text.len() as int;
            &&& n == year.len() + 19
            &&& text.take(n - 19) == year
            &&& text[n - 19] == '-'
            &&& text.subrange(n - 18, n - 16) == month
            &&& text[n - 16] == '-'
            &&& text.subrange(n - 15, n - 13) == day
            &&& text[n - 13] == 'T'
            &&& text.subrange(n - 12, n - 10) == hour
            &&& text[n - 10] == ':'
            &&& text.subrange(n - 9, n - 7) == minute
            &&& text[n - 7] == ':'
            &&& text.subrange(n - 6, n - 4) == second
            &&& text[n - 4] == '.'
            &&& text.subrange(n - 3, n) == millis
        }),
{
    let text = year + seq!['-'] + month + seq!['-'] + day + seq!['T'] + hour + seq![':'] + minute
        + seq![':'] + second + seq!['.'] + millis;
    let n = text.len() as int;
    assert(text.take(n - 19) =~= year);
    assert(text.subrange(n - 18, n - 16) =~= month);
    assert(text.subrange(n - 15, n - 13) =~= day);
    assert(text.subrange(n - 12, n - 10) =~= hour);
    assert(text.subrange(n - 9, n - 7) =~= minute);
    assert(text.subrange(n - 6, n - 4) =~= second);
    assert(text.subrange(n - 3, n) =~= millis);
}

/// The time of day in its parts.
proof fn lemma_parts_of_the_day(nanos: int)
    ensures
        ({
            let millis = nanos / 1_000_000;
            let second = millis / 1_000 % 86_400;
            &&& nanos / 86_400_000_000_000 == millis / 86_400_000
            &&& second / 3_600 * 3_600_000 + second % 3_600 / 60 * 60_000 + second % 60 * 1_000
                + millis % 1_000 == nanos % 86_400_000_000_000 / 1_000_000
        }),
{
    let millis = nanos / 1_000_000;
    let second = millis / 1_000 % 86_400;
    let rest = millis % 86_400_000;
    assert(second == rest / 1_000);
    assert(millis % 1_000 == rest % 1_000);
    assert(rest == nanos % 86_400_000_000_000 / 1_000_000);
    assert(second == second / 3_600 * 3_600 + second % 3_600 / 60 * 60 + second % 60);
}

/// The rendering of any instant reads back as that instant, to the millisecond.
pub proof fn lemma_timestamp_reads_back(nanos: int)
    ensures
        reads_as_instant(utc_text(nanos), nanos),
{
    let date = date_at(nanos);
    let millis = nanos / 1_000_000;
    let second = millis / 1_000 % 86_400;
    lemma_fields_are_in_range(nanos);
    lemma_every_day_has_a_date(millis / 86_400_000);
    lemma_parts_of_the_day(nanos);
    reveal_with_fuel(power_of_ten, 5);
    lemma_digits_of(date.month, 2);
    lemma_digits_of(date.day, 2);
    lemma_digits_of(second / 3_600, 2);
    lemma_digits_of(second % 3_600 / 60, 2);
    lemma_digits_of(second % 60, 2);
    lemma_digits_of(millis % 1_000, 3);
    let year = padded(date.year, 4);
    lemma_padded_reads_back(date.year, 4);
    lemma_decimal_reads_back(
        if date.year >= 0 {
            date.year as nat
        } else {
            (-date.year) as nat
        },
    );
    if date.year < 0 {
        assert(utc_text(nanos).subrange(1, year.len() as int) =~= year.drop_first());
    }
    lemma_padded_reads_back(date.month, 2);
    lemma_padded_reads_back(date.day, 2);
    lemma_padded_reads_back(second / 3_600, 2);
    lemma_padded_reads_back(second % 3_600 / 60, 2);
    lemma_padded_reads_back(second % 60, 2);
    lemma_padded_reads_back(millis % 1_000, 3);
    lemma_fields_stand_apart(
        padded(date.year, 4),
        padded(date.month, 2),
        padded(date.day, 2),
        padded(second / 3_600, 2),
        padded(second % 3_600 / 60, 2),
        padded(second % 60, 2),
        padded(millis % 1_000, 3),
    );
}

/// What is rendered of a clock reading, or of a count of nanoseconds, reads back as that instant.
pub proof fn lemma_rendered_instants_read_back(
    nanos: i128,
    time: SystemTime,
    from_nanos: String,
    from_time: String,
)
    requires
        call_ensures(format_nanos, (nanos,), from_nanos),
        call_ensures(format_utc, (time,), from_time),
    ensures
        reads_as_instant(from_nanos@, nanos as int),
        reads_as_instant(from_time@, epoch_nanos(time)),
{
    lemma_timestamp_reads_back(nanos as int);
    lemma_timestamp_reads_back(epoch_nanos(time));
}

}
