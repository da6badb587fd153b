//! What the operations of the library are for, stated on what goes in and what comes out.

use vstd::prelude::*;

use crate::calendar;
use crate::calendar::BillingPeriod;
use crate::calendar::CivilDate;
use crate::calendar::Moment;
use crate::clients;
use crate::clients::RailwayUsageRow;
use crate::config;
use crate::config::Config;
use crate::config::Environment;
use crate::failure::Failure;
use crate::http;
use crate::models;
use crate::models::Amount;
use crate::models::Invoice;
use crate::models::InvoiceItem;
use crate::models::ProjectBilling;
use crate::models::Sign;
use crate::text;

verus! {

/// The usage of a project is billed to that project, and to no other. A charged row is tagged with
/// the project and counts memory, processors, outgoing traffic, disks or backups, at the price of
/// that; every such row is charged, once and in the order of the rows. A row of another project, or
/// without a tag, is not.
pub proof fn charges_follow_the_tag(rows: Seq<RailwayUsageRow>, project_id: Seq<char>)
    requires
        rows.len() <= usize::MAX,
    ensures
        forall|i: int|
            0 <= i < clients::charges(rows, project_id).len() ==> {
                let charge = #[trigger] clients::charges(rows, project_id)[i];
                let row = rows[charge.row as int];
                let what = row.measurement@;
                let for_a_month = charge.price.hundredths * 43_200;
                &&& charge.row < rows.len()
                &&& row.tags.project_id matches Some(tag)
                &&& tag@ == project_id
                &&& ({
                    ||| what == "MEMORY_USAGE_GB"@ && for_a_month == 1000 * charge.price.minutes
                    ||| what == "CPU_USAGE"@ && for_a_month == 2000 * charge.price.minutes
                    ||| what == "NETWORK_TX_GB"@ && charge.price.hundredths == 5
                        && charge.price.minutes == 1
                    ||| what == "DISK_USAGE_GB"@ && for_a_month == 15 * charge.price.minutes
                    ||| what == "BACKUP_USAGE_GB"@ && for_a_month == 15 * charge.price.minutes
                })
            },
        forall|i: int, j: int|
            0 <= i < j < clients::charges(rows, project_id).len() ==> (#[trigger] clients::charges(
                rows,
                project_id,
            )[i]).row < (#[trigger] clients::charges(rows, project_id)[j]).row,
        forall|n: int|
            0 <= n < rows.len() && (#[trigger] rows[n]).tags.project_id is Some
                && rows[n].tags.project_id->0@ == project_id && (rows[n].measurement@
                == "MEMORY_USAGE_GB"@ || rows[n].measurement@ == "CPU_USAGE"@
                || rows[n].measurement@ == "NETWORK_TX_GB"@ || rows[n].measurement@
                == "DISK_USAGE_GB"@ || rows[n].measurement@ == "BACKUP_USAGE_GB"@)
                ==> exists|i: int|
                0 <= i < clients::charges(rows, project_id).len() && (#[trigger] clients::charges(
                    rows,
                    project_id,
                )[i]).row == n,
{
    let list = clients::charges(rows, project_id);
    clients::usage_is_charged_once(rows, project_id);
    assert forall|n: int|
        0 <= n < rows.len() && (#[trigger] rows[n]).tags.project_id is Some
            && rows[n].tags.project_id->0@ == project_id && (rows[n].measurement@
            == "MEMORY_USAGE_GB"@ || rows[n].measurement@ == "CPU_USAGE"@ || rows[n].measurement@
            == "NETWORK_TX_GB"@ || rows[n].measurement@ == "DISK_USAGE_GB"@ || rows[n].measurement@
            == "BACKUP_USAGE_GB"@) implies exists|i: int|
        0 <= i < list.len() && (#[trigger] list[i]).row == n by {
        assert(clients::is_charged(rows[n], project_id));
        let charge = clients::Charge {
            row: n as usize,
            price: clients::price_of(rows[n].measurement@)->0,
        };
        assert(list.contains(charge));
        let i = choose|i: int| 0 <= i < list.len() && list[i] == charge;
        assert(list[i].row == n);
    }
}

/// Rows of other projects do not change what a project is charged: taking them away leaves the same
/// usage at the same prices.
pub proof fn other_projects_do_not_matter(
    rows: Seq<RailwayUsageRow>,
    row: RailwayUsageRow,
    project_id: Seq<char>,
)
    requires
        rows.len() < usize::MAX,
        row.tags.project_id is Some ==> row.tags.project_id->0@ != project_id,
    ensures
        clients::charges(rows.push(row), project_id) == clients::charges(rows, project_id),
{
    assert(rows.push(row).drop_last() == rows);
}

/// The days of a month of the calendar, by its length.
pub proof fn months_have_their_lengths(year: int, month: int)
    requires
        1 <= month <= 12,
    ensures
        calendar::month_length(year, month) == (if month == 4 || month == 6 || month == 9 || month
            == 11 {
            30int
        } else if month != 2 {
            31
        } else if year % 400 == 0 || (year % 4 == 0 && year % 100 != 0) {
            29
        } else {
            28
        }),
{
}

/// Going some months on leads to the month that many months later, and there to the same day, or
/// to the last day where the month is shorter.
pub proof fn months_later_is_the_same_day(d: CivilDate, offset: int)
    requires
        1 <= d.month <= 12,
        1 <= d.day <= 31,
    ensures
        ({
            let r = calendar::months_after(d, offset);
            &&& 1 <= r.month <= 12
            &&& r.year * 12 + r.month == d.year * 12 + d.month + offset
            &&& r.day <= d.day
            &&& r.day <= calendar::month_length(r.year, r.month)
            &&& r.day == d.day || r.day == calendar::month_length(r.year, r.month)
        }),
{
}

/// A billing period starts in the month before its boundary, on the boundary's own day of the
/// month, or on the last day of that month where it has no such day; it ends the day before the
/// boundary. Its instants are at the boundary's own time of day.
pub proof fn period_starts_on_the_day_of_its_boundary(period: BillingPeriod, boundary: Moment)
    requires
        calendar::is_moment(boundary),
        calendar::is_period_before(period, boundary),
    ensures
        ({
            let from = period.from@;
            let to = period.to@;
            let length = calendar::month_length(from.year, from.month);
            &&& boundary.date.month > 1 ==> from.year == boundary.date.year && from.month
                == boundary.date.month - 1
            &&& boundary.date.month == 1 ==> from.year == boundary.date.year - 1 && from.month
                == 12
            &&& boundary.date.day <= length ==> from.day == boundary.date.day
            &&& boundary.date.day > length ==> from.day == length
            &&& boundary.date.day > 1 ==> to.year == boundary.date.year && to.month
                == boundary.date.month && to.day == boundary.date.day - 1
            &&& boundary.date.day == 1 ==> to.year == from.year && to.month == from.month && to.day
                == length
            &&& period.start@ == calendar::moment_text(
                Moment { date: from, second: boundary.second, nano: boundary.nano },
            )
            &&& period.end@ == calendar::moment_text(boundary)
        }),
{
}

/// The number of a day in a count of all days.
pub open spec fn day_number(d: CivilDate) -> int {
    let year = if d.month > 2 {
        d.year
    } else {
        d.year - 1
    };
    let month = if d.month > 2 {
        d.month - 3
    } else {
        d.month + 9
    };
    365 * year + year / 4 - year / 100 + year / 400 + (153 * month + 2) / 5 + d.day
}

#[verifier::spinoff_prover]
#[verifier::rlimit(40)]
proof fn lemma_leap_day(year: int)
    ensures
        (year / 4 - year / 100 + year / 400) - ((year - 1) / 4 - (year - 1) / 100 + (year - 1)
            / 400)
            == (if year % 400 == 0 || (year % 4 == 0 && year % 100 != 0) {
            1int
        } else {
            0
        }),
{
    assert(year / 4 - (year - 1) / 4 == (if year % 4 == 0 { 1int } else { 0 }));
    assert(year / 100 - (year - 1) / 100 == (if year % 100 == 0 { 1int } else { 0 }));
    assert(year / 400 - (year - 1) / 400 == (if year % 400 == 0 { 1int } else { 0 }));
    assert(year % 400 == 0 ==> year % 100 == 0);
    assert(year % 100 == 0 ==> year % 4 == 0);
}

/// The day after a day is the next in the count of days.
#[verifier::spinoff_prover]
#[verifier::rlimit(40)]
pub proof fn the_day_after_is_the_next(d: CivilDate)
    requires
        1 <= d.month <= 12,
        1 <= d.day <= calendar::month_length(d.year, d.month),
    ensures
        day_number(calendar::day_after(d)) == day_number(d) + 1,
{
    lemma_leap_day(d.year);
}

/// The day before a day is the one before it in the count of days.
pub proof fn the_day_before_is_the_one_before(d: CivilDate)
    requires
        1 <= d.month <= 12,
        1 <= d.day <= calendar::month_length(d.year, d.month),
    ensures
        day_number(calendar::day_before(d)) == day_number(d) - 1,
{
    let eve = calendar::day_before(d);
    assert(calendar::day_after(eve) == d);
    the_day_after_is_the_next(eve);
}

/// The day some days later is that many days on in the count of days.
pub proof fn later_days_are_counted(d: CivilDate, days: nat)
    requires
        calendar::is_date(d),
    ensures
        day_number(calendar::days_after(d, days)) == day_number(d) + days,
    decreases days,
{
    if days > 0 {
        let eve = calendar::days_after(d, (days - 1) as nat);
        later_days_are_counted(d, (days - 1) as nat);
        calendar::days_pass(d, (days - 1) as nat);
        the_day_after_is_the_next(eve);
    }
}

/// The number that two digits write at a place of a text.
pub open spec fn two_digits(s: Seq<char>, at: int) -> int {
    10 * (s[at] as int - '0' as int) + (s[at + 1] as int - '0' as int)
}

proof fn lemma_two_digits(n: nat)
    requires
        n < 100,
    ensures
        calendar::padded(n, 2).len() == 2,
        two_digits(calendar::padded(n, 2), 0) == n,
        calendar::padded(n, 2) == seq![
            calendar::digit(n as int / 10),
            calendar::digit(n as int % 10),
        ],
        '0' <= calendar::padded(n, 2)[0] <= '9',
        '0' <= calendar::padded(n, 2)[1] <= '9',
{
    reveal_with_fuel(calendar::padded, 3);
}

proof fn lemma_four_digits(n: nat)
    requires
        n < 10_000,
    ensures
        calendar::padded(n, 4).len() == 4,
        100 * two_digits(calendar::padded(n, 4), 0) + two_digits(calendar::padded(n, 4), 2) == n,
        forall|i: int| 0 <= i < 4 ==> '0' <= #[trigger] calendar::padded(n, 4)[i] <= '9',
{
    reveal_with_fuel(calendar::padded, 5);
    assert(calendar::padded(n, 4) == seq![
        calendar::digit(n as int / 1000),
        calendar::digit(n as int / 100 % 10),
        calendar::digit(n as int / 10 % 10),
        calendar::digit(n as int % 10),
    ]);
}

/// A date of the years 0 to 9999 is written in ten characters: four digits for the year, two for
/// the month and two for the day, with hyphens between.
pub proof fn dates_are_written_in_digits(d: CivilDate)
    requires
        calendar::is_date(d),
        0 <= d.year <= 9999,
    ensures
        ({
            let s = calendar::date_text(d);
            &&& s.len() == 10
            &&& s[4] == '-'
            &&& s[7] == '-'
            &&& forall|i: int|
                0 <= i < 10 && i != 4 && i != 7 ==> '0' <= #[trigger] s[i] <= '9'
            &&& d.year == 100 * two_digits(s, 0) + two_digits(s, 2)
            &&& d.month == two_digits(s, 5)
            &&& d.day == two_digits(s, 8)
        }),
{
    let year = calendar::padded(d.year as nat, 4);
    let month = calendar::padded(d.month as nat, 2);
    let day = calendar::padded(d.day as nat, 2);
    lemma_four_digits(d.year as nat);
    lemma_two_digits(d.month as nat);
    lemma_two_digits(d.day as nat);
    let s = calendar::date_text(d);
    assert(s == year + seq!['-'] + month + seq!['-'] + day);
    assert(s[0] == year[0] && s[1] == year[1] && s[2] == year[2] && s[3] == year[3]);
    assert(s[5] == month[0] && s[6] == month[1]);
    assert(s[8] == day[0] && s[9] == day[1]);
}

/// An instant is written as its date, the letter T, its hours, minutes and seconds with colons
/// between, and at the end the offset of UTC. Without a fraction of a second nothing else stands
/// there.
pub proof fn instants_are_written_in_digits(m: Moment)
    requires
        calendar::is_moment(m),
    ensures
        ({
            let s = calendar::moment_text(m);
            let n = calendar::date_text(m.date).len() as int;
            let leap: int = if m.nano >= 1_000_000_000 {
                1
            } else {
                0
            };
            &&& s.len() >= n + 15
            &&& s.take(n) == calendar::date_text(m.date)
            &&& s[n] == 'T'
            &&& s[n + 3] == ':'
            &&& s[n + 6] == ':'
            &&& 3600 * two_digits(s, n + 1) + 60 * two_digits(s, n + 4) + two_digits(s, n + 7)
                == m.second + leap
            &&& 0 <= two_digits(s, n + 1) < 24
            &&& 0 <= two_digits(s, n + 4) < 60
            &&& 0 <= two_digits(s, n + 7) < 60 + leap
            &&& s.skip(s.len() - 6) == seq!['+', '0', '0', ':', '0', '0']
            &&& m.nano == leap * 1_000_000_000 ==> s.len() == n + 15
            &&& s.len() == n + 15 ==> m.nano == leap * 1_000_000_000
        }),
{
    let leap: int = if m.nano >= 1_000_000_000 {
        1
    } else {
        0
    };
    let date = calendar::date_text(m.date);
    let hours = calendar::padded((m.second / 3600) as nat, 2);
    let minutes = calendar::padded((m.second / 60 % 60) as nat, 2);
    let seconds = calendar::padded((m.second % 60 + leap) as nat, 2);
    let fraction = calendar::fraction_text(m.nano - leap * 1_000_000_000);
    lemma_two_digits((m.second / 3600) as nat);
    lemma_two_digits((m.second / 60 % 60) as nat);
    lemma_two_digits((m.second % 60 + leap) as nat);
    let s = calendar::moment_text(m);
    let n = date.len() as int;
    let zone = seq!['+', '0', '0', ':', '0', '0'];
    let head = date + seq!['T'] + hours + seq![':'] + minutes + seq![':'] + seconds;
    assert(s == head + fraction + zone);
    assert(head.len() == n + 9);
    assert(s.take(n) == date);
    assert(s[n + 1] == hours[0] && s[n + 2] == hours[1]);
    assert(s[n + 4] == minutes[0] && s[n + 5] == minutes[1]);
    assert(s[n + 7] == seconds[0] && s[n + 8] == seconds[1]);
    assert(s.skip(s.len() - 6) == zone);
}

/// A search finds the first place from a given one on at which the pattern stands, and nothing
/// where it stands nowhere.
pub proof fn searches_find_the_first(s: Seq<char>, pattern: Seq<char>, from: int)
    requires
        0 <= from,
    ensures
        match text::first_from(s, pattern, from) {
            Some(at) => {
                &&& from <= at <= s.len() - pattern.len()
                &&& s.subrange(at, at + pattern.len()) == pattern
                &&& forall|i: int|
                    from <= i < at ==> #[trigger] s.subrange(i, i + pattern.len()) != pattern
            },
            None => forall|i: int|
                from <= i <= s.len() - pattern.len() ==> #[trigger] s.subrange(
                    i,
                    i + pattern.len(),
                ) != pattern,
        },
{
    text::lemma_first_from(s, pattern, from);
    match text::first_from(s, pattern, from) {
        Some(at) => {
            assert(text::occurs_at(s, pattern, at));
            assert forall|i: int| from <= i < at implies #[trigger] s.subrange(
                i,
                i + pattern.len(),
            ) != pattern by {
                assert(!text::occurs_at(s, pattern, i));
            }
        },
        None => {
            assert forall|i: int|
                from <= i <= s.len() - pattern.len() implies #[trigger] s.subrange(
                i,
                i + pattern.len(),
            ) != pattern by {
                assert(!text::occurs_at(s, pattern, i));
            }
        },
    }
}

/// Lowering changes the ASCII capitals, each to its small letter, and nothing else.
pub proof fn lowering_changes_capitals_only(s: Seq<char>)
    ensures
        text::ascii_lowered(s).len() == s.len(),
        forall|i: int|
            0 <= i < s.len() ==> {
                let c = #[trigger] text::ascii_lowered(s)[i];
                if 'A' <= s[i] <= 'Z' {
                    c as int == s[i] as int + 32
                } else {
                    c == s[i]
                }
            },
{
}

/// Taking a run of a character off the end of a text leaves the rest of it, which does not end
/// with that character.
pub proof fn runs_are_taken_off_the_end(s: Seq<char>, c: char)
    ensures
        ({
            let r = text::without_trailing(s, c);
            &&& r.len() <= s.len()
            &&& r == s.take(r.len() as int)
            &&& r.len() > 0 ==> r.last() != c
            &&& forall|i: int| r.len() <= i < s.len() ==> #[trigger] s[i] == c
        }),
    decreases s.len(),
{
    if s.len() > 0 && s.last() == c {
        runs_are_taken_off_the_end(s.drop_last(), c);
        let r = text::without_trailing(s, c);
        assert(r == s.take(r.len() as int));
        assert forall|i: int| r.len() <= i < s.len() implies #[trigger] s[i] == c by {
            if i < s.len() - 1 {
                assert(s.drop_last()[i] == c);
            }
        }
    } else {
        assert(s == s.take(s.len() as int));
    }
}

/// Joining two lists one after the other is joining each, with the separator between; a list of
/// one text is that text.
pub proof fn lists_are_joined_in_order(
    a: Seq<Seq<char>>,
    b: Seq<Seq<char>>,
    separator: Seq<char>,
)
    ensures
        text::joined(Seq::empty(), separator) == Seq::<char>::empty(),
        a.len() == 1 ==> text::joined(a, separator) == a[0],
        a.len() > 0 && b.len() > 0 ==> text::joined(a + b, separator) == text::joined(a, separator)
            + separator + text::joined(b, separator),
    decreases b.len(),
{
    if a.len() > 0 && b.len() > 0 {
        assert((a + b).drop_last() == a + b.drop_last());
        assert((a + b).last() == b.last());
        let head = text::joined(a, separator);
        if b.len() == 1 {
            assert(a + b.drop_last() == a);
        } else {
            lists_are_joined_in_order(a, b.drop_last(), separator);
            let tail = text::joined(b.drop_last(), separator);
            assert(head + separator + tail + separator + b.last() == head + separator + (tail
                + separator + b.last()));
        }
    }
}

/// A 16-bit number is read from its decimal digits, with a plus sign before them or not; a number
/// that is too large, other characters and no digits at all give none.
pub proof fn numbers_are_read_from_digits(digits: Seq<char>, c: char)
    ensures
        text::decimal_value(Seq::empty()) == 0,
        text::decimal_value(digits.push(c)) == 10 * text::decimal_value(digits) + (c as int
            - '0' as int),
        (forall|i: int| 0 <= i < digits.len() ==> '0' <= #[trigger] digits[i] <= '9')
            && digits.len() > 0 ==> {
            &&& text::u16_value(digits) == text::u16_value(seq!['+'] + digits)
            &&& text::decimal_value(digits) <= 65_535 ==> text::u16_value(digits) is Some
                && text::u16_value(digits)->0 == text::decimal_value(digits)
            &&& text::decimal_value(digits) > 65_535 ==> text::u16_value(digits) is None
        },
        text::u16_value(Seq::empty()) is None,
        text::u16_value(seq!['+']) is None,
        (exists|i: int|
            0 < i < digits.len() && !('0' <= #[trigger] digits[i] <= '9'))
            ==> text::u16_value(digits) is None,
        digits.len() > 0 && digits[0] != '+' && !('0' <= digits[0] <= '9') ==> text::u16_value(
            digits,
        ) is None,
{
    if forall|i: int| 0 <= i < digits.len() ==> '0' <= #[trigger] digits[i] <= '9' {
        text::lemma_decimal_value_nonnegative(digits);
    }
    assert(digits.push(c).drop_last() == digits);
    assert((seq!['+'] + digits).drop_first() == digits);
    assert(seq!['+'].drop_first() == Seq::<char>::empty());
    if exists|i: int| 0 < i < digits.len() && !('0' <= #[trigger] digits[i] <= '9') {
        let i = choose|i: int| 0 < i < digits.len() && !('0' <= #[trigger] digits[i] <= '9');
        if digits[0] == '+' {
            assert(digits.drop_first()[i - 1] == digits[i]);
        }
    }
}

/// Decimal digits write the number that they are read as, whatever the width.
pub proof fn digits_write_their_number(n: nat, width: nat)
    ensures
        text::decimal_value(calendar::padded(n, width)) == n,
    decreases n, width,
{
    let s = calendar::padded(n, width);
    if n < 10 && width <= 1 {
        reveal_with_fuel(text::decimal_value, 2);
        assert(s.drop_last() == Seq::<char>::empty());
    } else {
        let narrower = if width == 0 { 0 } else { (width - 1) as nat };
        digits_write_their_number(n / 10, narrower);
        assert(s.drop_last() == calendar::padded(n / 10, narrower));
    }
}

/// A fraction of a second is written in milliseconds, microseconds or nanoseconds, and read as the
/// nanoseconds that it is; no fraction is written where there is none.
pub proof fn fractions_are_written_in_digits(nano: int)
    requires
        0 <= nano < 1_000_000_000,
    ensures
        ({
            let s = calendar::fraction_text(nano);
            let value = text::decimal_value(s.drop_first());
            &&& nano == 0 <==> s.len() == 0
            &&& nano > 0 ==> {
                &&& s[0] == '.'
                &&& s.len() == 4 || s.len() == 7 || s.len() == 10
                &&& s.len() == 4 ==> nano == 1_000_000 * value
                &&& s.len() == 7 ==> nano == 1_000 * value && nano % 1_000_000 != 0
                &&& s.len() == 10 ==> nano == value && nano % 1_000 != 0
            }
        }),
{
    if nano > 0 {
        let s = calendar::fraction_text(nano);
        let (n, width): (nat, nat) = if nano % 1_000_000 == 0 {
            ((nano / 1_000_000) as nat, 3)
        } else if nano % 1_000 == 0 {
            ((nano / 1_000) as nat, 6)
        } else {
            (nano as nat, 9)
        };
        digits_write_their_number(n, width);
        assert(s == seq!['.'] + calendar::padded(n, width));
        assert(s.drop_first() == calendar::padded(n, width));
        assert(calendar::padded(n, width).len() == width) by {
            reveal_with_fuel(calendar::padded, 10);
        }
    }
}

/// A year outside 0 to 9999 is written with its sign and then its digits.
pub proof fn other_years_have_a_sign(year: int)
    requires
        year < 0 || year > 9999,
    ensures
        ({
            let s = calendar::year_text(year);
            &&& s.len() > 1
            &&& s[0] == (if year < 0 {
                '-'
            } else {
                '+'
            })
            &&& text::decimal_value(s.drop_first()) == (if year < 0 {
                -year
            } else {
                year
            })
        }),
{
    let n = (if year < 0 {
        -year
    } else {
        year
    }) as nat;
    let s = calendar::year_text(year);
    digits_write_their_number(n, 4);
    assert(s.drop_first() == calendar::padded(n, 4));
    reveal_with_fuel(calendar::padded, 2);
}

proof fn lemma_first_value(
    vars: Seq<(String, Result<String, String>)>,
    name: Seq<char>,
    i: int,
)
    requires
        0 <= i < vars.len(),
        vars[i].0@ == name,
        forall|j: int| 0 <= j < i ==> (#[trigger] vars[j]).0@ != name,
    ensures
        config::first_value(vars, name) == Some(vars[i].1),
    decreases i,
{
    if i > 0 {
        assert(vars[0].0@ != name);
        assert forall|j: int| 0 <= j < i - 1 implies (#[trigger] vars.drop_first()[j]).0@
            != name by {
            assert(vars[j + 1].0@ != name);
        }
        lemma_first_value(vars.drop_first(), name, i - 1);
    }
}

proof fn lemma_no_value(vars: Seq<(String, Result<String, String>)>, name: Seq<char>)
    requires
        forall|j: int| 0 <= j < vars.len() ==> (#[trigger] vars[j]).0@ != name,
    ensures
        config::first_value(vars, name) is None,
    decreases vars.len(),
{
    if vars.len() > 0 {
        assert(vars[0].0@ != name);
        assert forall|j: int| 0 <= j < vars.drop_first().len() implies (
        #[trigger] vars.drop_first()[j]).0@ != name by {
            assert(vars[j + 1].0@ != name);
        }
        lemma_no_value(vars.drop_first(), name);
    }
}

/// A setting is the value of the first variable of that name, without the white space around it and
/// the quotes around that. A value that is not a text sets nothing.
pub proof fn the_first_variable_counts(env: Environment, name: Seq<char>, i: int)
    requires
        0 <= i < env.vars@.len(),
        env.vars@[i].0@ == name,
        forall|j: int| 0 <= j < i ==> (#[trigger] env.vars@[j]).0@ != name,
    ensures
        match env.vars@[i].1 {
            Ok(value) => env.setting(name) == Some(config::normalized(value@)),
            Err(cause) => env.setting(name) is None && env.absence(name) == cause@,
        },
{
    lemma_first_value(env.vars@, name, i);
}

/// A variable that is not there sets nothing.
pub proof fn a_missing_variable_sets_nothing(env: Environment, name: Seq<char>)
    requires
        forall|j: int| 0 <= j < env.vars@.len() ==> (#[trigger] env.vars@[j]).0@ != name,
    ensures
        env.setting(name) is None,
        env.absence(name) == "environment variable not found"@,
{
    lemma_no_value(env.vars@, name);
}

/// A value keeps what is inside white space, and loses one pair of equal quotes around it; anything
/// else that is around it stays.
pub proof fn values_lose_one_pair_of_quotes(
    left: Seq<char>,
    value: Seq<char>,
    right: Seq<char>,
)
    requires
        text::is_blank(left),
        text::is_trim(value),
        text::is_blank(right),
    ensures
        value.len() >= 2 && value.first() == value.last() && (value.first() == '"' || value.first()
            == '\'') ==> config::normalized(left + value + right) == value.subrange(
            1,
            value.len() - 1,
        ),
        !(value.len() >= 2 && value.first() == value.last() && (value.first() == '"'
            || value.first() == '\'')) ==> config::normalized(left + value + right) == value,
{
    text::trimming_takes_white_space_only(left, value, right);
}

/// A flag is on for four words in whatever case, off for every other value, and where there is none
/// it is as the default says.
pub proof fn flags_are_on_for_four_words(env: Environment, name: Seq<char>, default: bool)
    ensures
        env.setting(name) is None ==> env.flag(name, default) == default,
        env.setting(name) matches Some(value) ==> (env.flag(name, default) <==> ({
            let lowered = text::ascii_lowered(value);
            ||| lowered == "1"@
            ||| lowered == "true"@
            ||| lowered == "yes"@
            ||| lowered == "on"@
        })),
{
}

/// A port is the number that a setting writes, and a default counts only where there is no
/// setting.
pub proof fn settings_come_before_defaults(env: Environment, name: Seq<char>, default: Seq<char>)
    ensures
        env.setting(name) matches Some(value) ==> env.setting_or(name, default) == value
            && env.port(name) == text::u16_value(value),
        env.setting(name) is None ==> env.setting_or(name, default) == default && env.port(
            name,
        ) is None,
{
}

/// A URL is accepted exactly where it reads as an absolute one, of the scheme http or https, with a
/// host; else the report says which of these it lacks, the first of them.
pub proof fn urls_are_absolute_http_urls(
    name: Seq<char>,
    value: Seq<char>,
    reading: Result<(Seq<char>, Option<Seq<char>>), Seq<char>>,
)
    ensures
        config::url_fault(name, value, reading) is None <==> (reading is Ok && (
        reading->Ok_0.0 == "http"@ || reading->Ok_0.0 == "https"@) && reading->Ok_0.1 is Some),
        reading matches Err(cause) ==> config::url_fault(name, value, reading) == Some(
            seq![name + " must be an absolute URL, got "@ + text::debug_text(value), cause],
        ),
        reading is Ok && reading->Ok_0.0 != "http"@ && reading->Ok_0.0 != "https"@
            ==> config::url_fault(name, value, reading) == Some(
            seq![name + " must use http or https, got "@ + text::debug_text(reading->Ok_0.0)],
        ),
        reading is Ok && (reading->Ok_0.0 == "http"@ || reading->Ok_0.0 == "https"@)
            && reading->Ok_0.1 is None ==> config::url_fault(name, value, reading) == Some(
            seq![name + " must include a host, got "@ + text::debug_text(value)],
        ),
{
}

/// The setting where there is one, else the default.
pub open spec fn set_or(setting: Option<Seq<char>>, default: Seq<char>) -> Seq<char> {
    match setting {
        Some(value) => value,
        None => default,
    }
}

/// Each part of a configuration is what its own variable is set to, or the default where that is
/// not set.
pub proof fn variables_reach_the_configuration(
    config: Config,
    env: Environment,
    today: CivilDate,
)
    requires
        config.is_of(env, today),
    ensures
        env.setting("RAILWAY_GRAPHQL_URL"@) == Some(config.railway.graphql_url@),
        env.setting("RAILWAY_TOKEN"@) == Some(config.railway.token@),
        env.setting("RAILWAY_WORKSPACE_ID"@) == Some(config.railway.workspace_id@),
        env.setting("RAILWAY_PROJECT_ID"@) == Some(config.railway.project_id@),
        env.setting("RAILWAY_TARGET_PROJECT_NAME"@) == Some(config.railway.project_name@),
        config.railway.currency@ == set_or(env.setting("RAILWAY_BILLING_CURRENCY"@), "GBP"@),
        env.setting("OIDC_TOKEN_URL"@) == Some(config.oidc.token_url@),
        env.setting("OIDC_CLIENT_ID"@) == Some(config.oidc.client_id@),
        env.setting("OIDC_CLIENT_SECRET"@) == Some(config.oidc.client_secret@),
        config.oidc.scope is Some <==> env.setting("OIDC_SCOPE"@) is Some,
        config.oidc.scope matches Some(scope) ==> env.setting("OIDC_SCOPE"@) == Some(scope@),
        config.oidc.audience is Some <==> env.setting("OIDC_AUDIENCE"@) is Some,
        config.oidc.audience matches Some(audience) ==> env.setting("OIDC_AUDIENCE"@) == Some(
            audience@,
        ),
        env.setting("SANTINVOICE_BASE_URL"@) == Some(config.santinvoice.base_url@),
{
}

/// The parts of a configuration for the invoice are what their own variables are set to, or the
/// defaults, which name the project.
pub proof fn variables_reach_the_invoice(config: Config, env: Environment, today: CivilDate)
    requires
        config.is_of(env, today),
    ensures
        env.setting("INVOICE_SUPPLIER_NAME"@) == Some(config.invoice.supplier_name@),
        env.setting("INVOICE_SUPPLIER_ADDRESS"@) == Some(config.invoice.supplier_address@),
        env.setting("INVOICE_SUPPLIER_EMAIL"@) == Some(config.invoice.supplier_email@),
        env.setting("INVOICE_CUSTOMER_NAME"@) == Some(config.invoice.customer_name@),
        env.setting("INVOICE_CUSTOMER_ADDRESS"@) == Some(config.invoice.customer_address@),
        env.setting("INVOICE_CUSTOMER_EMAIL"@) == Some(config.invoice.customer_email@),
        config.invoice.notes is Some <==> env.setting("INVOICE_NOTES"@) is Some,
        config.invoice.notes matches Some(notes) ==> env.setting("INVOICE_NOTES"@) == Some(notes@),
        config.invoice.service_summary@ == set_or(
            env.setting("INVOICE_SERVICE_SUMMARY"@),
            "Railway billing for "@ + config.railway.project_name@,
        ),
        config.invoice.service_details@ == set_or(
            env.setting("INVOICE_SERVICE_DETAILS"@),
            "Summarized Railway usage charges for project "@ + config.railway.project_name@ + "."@,
        ),
        config.invoice.idempotency_prefix@ == set_or(
            env.setting("INVOICE_IDEMPOTENCY_PREFIX"@),
            "railway-santinvoice"@,
        ),
{
}

/// The due date is the one that the variable gives, where it gives one that reads; else it lies 14
/// days after the day of the run.
pub proof fn invoices_are_due_when_said_or_in_two_weeks(
    config: Config,
    env: Environment,
    today: CivilDate,
)
    requires
        calendar::is_date(today),
        config.is_of(env, today),
    ensures
        ({
            let due = config.invoice.payment_due_by@;
            let given = env.setting("INVOICE_PAYMENT_DUE_BY"@);
            let reads = given is Some && calendar::date_reading(given->0) is Ok;
            &&& reads ==> (due.year, due.month, due.day) == calendar::date_reading(given->0)->Ok_0
            &&& !reads ==> day_number(due) == day_number(today) + 14
        }),
{
    later_days_are_counted(today, 14);
}

/// Mail delivery is configured exactly where it is enabled, each part by its own variable, or by
/// its default.
pub proof fn variables_reach_the_mail(config: Config, env: Environment, today: CivilDate)
    requires
        config.is_of(env, today),
    ensures
        config.pdf_email is Some <==> env.flag("PDF_EMAIL_ENABLED"@, false),
        config.pdf_email matches Some(mail) ==> {
            &&& env.setting("PDF_EMAIL_RECIPIENT"@) == Some(mail.recipient_email@)
            &&& env.setting("SMTP_FROM_EMAIL"@) == Some(mail.sender_email@)
            &&& env.setting("SMTP_HOST"@) == Some(mail.smtp_host@)
            &&& env.setting("SMTP_USERNAME"@) == Some(mail.smtp_username@)
            &&& env.setting("SMTP_PASSWORD"@) == Some(mail.smtp_password@)
            &&& env.port("SMTP_PORT"@) matches Some(port) ==> mail.smtp_port == port
            &&& env.port("SMTP_PORT"@) is None ==> mail.smtp_port == 587
            &&& mail.smtp_starttls == env.flag("SMTP_STARTTLS"@, true)
            &&& mail.subject@ == set_or(
                env.setting("PDF_EMAIL_SUBJECT"@),
                "Invoice for "@ + config.railway.project_name@,
            )
            &&& mail.body@ == set_or(
                env.setting("PDF_EMAIL_BODY"@),
                "Please find attached the invoice PDF for "@ + config.railway.project_name@ + "."@,
            )
        },
{
}

/// What is wrong with a variable that must be there: nothing but that it has no setting.
pub proof fn missing_variables_are_named(env: Environment, name: Seq<char>)
    ensures
        env.required_problem(name) is None <==> env.setting(name) is Some,
        env.setting(name) is None ==> {
            let report = seq!["missing required environment variable "@ + name, env.absence(name)];
            env.required_problem(name) == Some(report) && env.url_problem(name) == Some(report)
        },
        env.setting(name) matches Some(value) ==> env.url_problem(name) == config::url_fault(
            name,
            value,
            config::url_reading(value),
        ),
{
}

/// What is wrong with a variable that must be there where mail is enabled.
pub open spec fn needed_for_mail(env: Environment, name: Seq<char>) -> config::Problem {
    if env.flag("PDF_EMAIL_ENABLED"@, false) {
        env.required_problem(name)
    } else {
        None
    }
}

/// What is wrong with each of the variables that a configuration needs, in the order in which they
/// are looked at. A due date can be counted only within the calendar.
pub open spec fn problems_in_order(env: Environment, today: CivilDate) -> Seq<config::Problem> {
    let given = env.setting("INVOICE_PAYMENT_DUE_BY"@);
    let reads = given is Some && calendar::date_reading(given->0) is Ok;
    let due: config::Problem = if reads || calendar::is_date(calendar::days_after(today, 14)) {
        None
    } else {
        Some(seq!["failed to calculate default invoice due date"@])
    };
    seq![
        env.url_problem("RAILWAY_GRAPHQL_URL"@),
        env.required_problem("RAILWAY_TOKEN"@),
        env.required_problem("RAILWAY_WORKSPACE_ID"@),
        env.required_problem("RAILWAY_PROJECT_ID"@),
        env.required_problem("RAILWAY_TARGET_PROJECT_NAME"@),
        env.url_problem("OIDC_TOKEN_URL"@),
        env.required_problem("OIDC_CLIENT_ID"@),
        env.required_problem("OIDC_CLIENT_SECRET"@),
        env.url_problem("SANTINVOICE_BASE_URL"@),
        env.required_problem("INVOICE_SUPPLIER_NAME"@),
        env.required_problem("INVOICE_SUPPLIER_ADDRESS"@),
        env.required_problem("INVOICE_SUPPLIER_EMAIL"@),
        env.required_problem("INVOICE_CUSTOMER_NAME"@),
        env.required_problem("INVOICE_CUSTOMER_ADDRESS"@),
        env.required_problem("INVOICE_CUSTOMER_EMAIL"@),
        due,
        needed_for_mail(env, "PDF_EMAIL_RECIPIENT"@),
        needed_for_mail(env, "SMTP_FROM_EMAIL"@),
        needed_for_mail(env, "SMTP_HOST"@),
        needed_for_mail(env, "SMTP_USERNAME"@),
        needed_for_mail(env, "SMTP_PASSWORD"@),
    ]
}

/// A configuration is accepted where nothing is wrong with any variable that it needs, and else the
/// first one that something is wrong with is reported.
pub proof fn the_first_problem_is_reported(env: Environment, today: CivilDate, k: int)
    requires
        0 <= k <= problems_in_order(env, today).len(),
        forall|j: int| 0 <= j < k ==> #[trigger] problems_in_order(env, today)[j] is None,
    ensures
        problems_in_order(env, today).len() == 21,
        k < 21 && problems_in_order(env, today)[k] is Some ==> Config::problem(env, today)
            == problems_in_order(env, today)[k],
        k == 21 ==> Config::problem(env, today) is None,
{
    let problems = problems_in_order(env, today);
    assert(problems.len() == 21);
    assert(0 < k ==> problems[0] is None);
    assert(1 < k ==> problems[1] is None);
    assert(2 < k ==> problems[2] is None);
    assert(3 < k ==> problems[3] is None);
    assert(4 < k ==> problems[4] is None);
    assert(5 < k ==> problems[5] is None);
    assert(6 < k ==> problems[6] is None);
    assert(7 < k ==> problems[7] is None);
    assert(8 < k ==> problems[8] is None);
    assert(9 < k ==> problems[9] is None);
    assert(10 < k ==> problems[10] is None);
    assert(11 < k ==> problems[11] is None);
    assert(12 < k ==> problems[12] is None);
    assert(13 < k ==> problems[13] is None);
    assert(14 < k ==> problems[14] is None);
    assert(15 < k ==> problems[15] is None);
    assert(16 < k ==> problems[16] is None);
    assert(17 < k ==> problems[17] is None);
    assert(18 < k ==> problems[18] is None);
    assert(19 < k ==> problems[19] is None);
    assert(20 < k ==> problems[20] is None);
}

/// Only an amount that is zero or below is refused.
pub proof fn amounts_above_zero_are_charged(amount: Amount)
    ensures
        models::is_not_chargeable(amount) <==> (amount@.sign is Zero || amount@.sign is Negative),
{
}

/// A number with two digits after its point, with a minus sign before it or not, is written as an
/// amount, and so are the three words for what is no such number; anything else is not.
pub proof fn amounts_are_numbers(whole: Seq<char>, tens: char, ones: char, s: Seq<char>)
    requires
        whole.len() > 0,
        forall|i: int| 0 <= i < whole.len() ==> '0' <= #[trigger] whole[i] <= '9',
        '0' <= tens <= '9',
        '0' <= ones <= '9',
    ensures
        models::is_amount_text(whole + seq!['.', tens, ones]),
        models::is_amount_text(seq!['-'] + whole + seq!['.', tens, ones]),
        models::is_amount_text("NaN"@),
        models::is_amount_text("inf"@),
        models::is_amount_text("-inf"@),
        models::is_amount_text(s) && s != "NaN"@ && s != "inf"@ && s != "-inf"@ ==> s.len() >= 4
            && s[s.len() - 3] == '.' && forall|i: int|
            0 <= i < s.len() && i != s.len() - 3 && !(i == 0 && s[0] == '-') ==> '0'
                <= #[trigger] s[i] <= '9',
{
    let number = whole + seq!['.', tens, ones];
    let n = number.len();
    assert(number.take(n - 3) == whole);
    assert(number.skip(n - 2) == seq![tens, ones]);
    let below = seq!['-'] + whole + seq!['.', tens, ones];
    assert(below.drop_first() == number);
    reveal_strlit("NaN");
    reveal_strlit("inf");
    reveal_strlit("-inf");
    assert("-inf"@.drop_first() == "inf"@);
    if models::is_amount_text(s) && s != "NaN"@ && s != "inf"@ && s != "-inf"@ {
        let unsigned = models::without_minus(s);
        if unsigned == "inf"@ {
            assert(s == seq!['-'] + unsigned);
            assert(s == "-inf"@);
        }
        let shift: int = s.len() - unsigned.len();
        let m = unsigned.len();
        assert forall|i: int|
            0 <= i < s.len() && i != s.len() - 3 && !(i == 0 && s[0] == '-') implies '0'
            <= #[trigger] s[i] <= '9' by {
            let j = i - shift;
            assert(s[i] == unsigned[j]);
            if j < m - 3 {
                assert(unsigned.take(m - 3)[j] == unsigned[j]);
            } else {
                assert(unsigned.skip(m - 2)[j - (m - 2)] == unsigned[j]);
            }
        }
    }
}

/// An invoice is from the configured supplier to the configured customer, in the currency of the
/// billing, due when configured, under its key, with one item for the billing.
pub proof fn invoices_are_as_configured(
    invoice: Invoice,
    config: Config,
    billing: ProjectBilling,
    key: Seq<char>,
)
    requires
        invoice.is_of(config, billing, key),
    ensures
        invoice.idempotency_key@ == key,
        invoice.payment_due_by@ == config.invoice.payment_due_by@,
        invoice.currency@ == billing.amount.currency@,
        invoice.supplier.name@ == config.invoice.supplier_name@,
        invoice.supplier.address@ == config.invoice.supplier_address@,
        invoice.supplier.email@ == config.invoice.supplier_email@,
        invoice.customer.name@ == config.invoice.customer_name@,
        invoice.customer.address@ == config.invoice.customer_address@,
        invoice.customer.email@ == config.invoice.customer_email@,
        invoice.items@.len() == 1,
        invoice.notes is Some <==> config.invoice.notes is Some,
        invoice.notes matches Some(notes) ==> notes@ == config.invoice.notes->0@,
{
}

/// The item of an invoice is dated by the last day of the period, charges the amount of the
/// billing, tells the project and the period in its details after the configured ones, and is
/// tagged with both.
pub proof fn items_tell_the_project_and_the_period(
    item: InvoiceItem,
    config: Config,
    billing: ProjectBilling,
)
    requires
        item.is_of(config, billing),
    ensures
        item.date@ == billing.billing_to@,
        item.summary@ == config.invoice.service_summary@,
        item.details is Some,
        item.details->0@ == config.invoice.service_details@ + "\nProject: "@
            + billing.project_name@ + "\nProject ID: "@ + billing.project_id@ + "\nPeriod: "@
            + calendar::date_text(billing.billing_from@) + " to "@ + calendar::date_text(
            billing.billing_to@,
        ),
        item.link is None,
        item.tags@.len() == 3,
        item.tags@[0]@ == "railway"@,
        item.tags@[1]@ == "railway-project="@ + billing.project_id@,
        item.tags@[2]@ == "billing-period="@ + calendar::date_text(billing.billing_from@) + ".."@
            + calendar::date_text(billing.billing_to@),
        item.debit.currency@ == billing.amount.currency@,
        item.debit.value@ == billing.amount.value@,
        item.credit is None,
{
    let tags = item.tags.deep_view();
    assert(tags.len() == 3);
    assert(tags[0] == item.tags@[0]@);
    assert(tags[1] == item.tags@[1]@);
    assert(tags[2] == item.tags@[2]@);
}

/// A token is refused exactly where it begins, after white space, with the word Bearer and a space,
/// in whatever case; else the header is that word, a space and the token without the white space
/// around it.
pub proof fn bearer_is_written_once(token: Seq<char>)
    ensures
        clients::bearer(token) == seq!['B', 'e', 'a', 'r', 'e', 'r', ' '] + token,
        clients::has_bearer_prefix(token) <==> ({
            let t = text::trimmed(token);
            &&& t.len() >= 7
            &&& t[0] == 'b' || t[0] == 'B'
            &&& t[1] == 'e' || t[1] == 'E'
            &&& t[2] == 'a' || t[2] == 'A'
            &&& t[3] == 'r' || t[3] == 'R'
            &&& t[4] == 'e' || t[4] == 'E'
            &&& t[5] == 'r' || t[5] == 'R'
            &&& t[6] == ' '
        }),
{
    reveal_strlit("Bearer ");
    reveal_strlit("bearer ");
    let t = text::trimmed(token);
    let lowered = text::ascii_lowered(t);
    assert("Bearer "@ == seq!['B', 'e', 'a', 'r', 'e', 'r', ' ']);
    assert("bearer "@ == seq!['b', 'e', 'a', 'r', 'e', 'r', ' ']);
    if clients::has_bearer_prefix(token) {
        let head = lowered.subrange(0, 7);
        assert(head[0] == 'b' && head[1] == 'e' && head[2] == 'a' && head[3] == 'r' && head[4]
            == 'e' && head[5] == 'r' && head[6] == ' ');
        assert(lowered[0] == 'b' && lowered[1] == 'e' && lowered[2] == 'a' && lowered[3] == 'r'
            && lowered[4] == 'e' && lowered[5] == 'r' && lowered[6] == ' ');
    }
    if t.len() >= 7 && (t[0] == 'b' || t[0] == 'B') && (t[1] == 'e' || t[1] == 'E') && (t[2] == 'a'
        || t[2] == 'A') && (t[3] == 'r' || t[3] == 'R') && (t[4] == 'e' || t[4] == 'E') && (t[5]
        == 'r' || t[5] == 'R') && t[6] == ' ' {
        assert(lowered.subrange(0, 7) == "bearer "@);
    }
}

/// What keeps the Railway token from being sent: the word Bearer before it, or a control character
/// in it other than the tab. Where neither is so, nothing does.
pub proof fn tokens_are_sent_in_a_header(token: Seq<char>)
    ensures
        clients::has_bearer_prefix(token) ==> clients::token_problem(token) == Some(
            seq!["RAILWAY_TOKEN must not include a Bearer prefix for a Railway project token"@],
        ),
        !clients::has_bearer_prefix(token) ==> (clients::token_problem(token) is None
            <==> forall|i: int|
            0 <= i < text::trimmed(token).len() ==> {
                let c = #[trigger] text::trimmed(token)[i];
                (c as int >= 32 || c as int == 9) && c as int != 127
            }),
        !clients::has_bearer_prefix(token) && clients::token_problem(token) is Some
            ==> clients::token_problem(token) == Some(
            seq!["invalid Railway auth header value"@, "failed to parse header value"@],
        ),
{
    let t = text::trimmed(token);
    let header = clients::bearer(t);
    reveal_strlit("Bearer ");
    assert(header.len() == 7 + t.len());
    if forall|i: int|
        0 <= i < t.len() ==> {
            let c = #[trigger] t[i];
            (c as int >= 32 || c as int == 9) && c as int != 127
        } {
        assert forall|i: int| 0 <= i < header.len() implies (' ' <= #[trigger] header[i]
            || header[i] == '\t') && header[i] != '\u{7F}' by {
            if i >= 7 {
                assert(header[i] == t[i - 7]);
            }
        }
    }
    if http::is_header_text(header) {
        assert forall|i: int| 0 <= i < t.len() implies ({
            let c = #[trigger] t[i];
            (c as int >= 32 || c as int == 9) && c as int != 127
        }) by {
            assert(header[i + 7] == t[i]);
        }
    }
}

/// The dates are the days of the calendar in the years that it reaches, and the instants the
/// nanoseconds of such a day, with a leap second at the end of a minute.
pub proof fn dates_are_days_of_the_calendar(d: CivilDate, m: Moment)
    ensures
        calendar::is_date(d) <==> (-262_143 <= d.year <= 262_142 && 1 <= d.month <= 12 && 1 <= d.day
            && d.day <= calendar::month_length(d.year, d.month)),
        calendar::is_moment(m) <==> (calendar::is_date(m.date) && 0 <= m.second < 86_400 && 0
            <= m.nano && (m.nano < 1_000_000_000 || (m.nano < 2_000_000_000 && m.second % 60
            == 59))),
{
}

/// After its year a date is written with a hyphen and two digits for the month, and a hyphen and
/// two digits for the day, whatever the year.
pub proof fn dates_end_with_month_and_day(d: CivilDate)
    requires
        calendar::is_date(d),
    ensures
        ({
            let s = calendar::date_text(d);
            let n = calendar::year_text(d.year).len() as int;
            &&& s.len() == n + 6
            &&& s.take(n) == calendar::year_text(d.year)
            &&& s[n] == '-'
            &&& two_digits(s, n + 1) == d.month
            &&& s[n + 3] == '-'
            &&& two_digits(s, n + 4) == d.day
        }),
{
    let year = calendar::year_text(d.year);
    let month = calendar::padded(d.month as nat, 2);
    let day = calendar::padded(d.day as nat, 2);
    lemma_two_digits(d.month as nat);
    lemma_two_digits(d.day as nat);
    let s = calendar::date_text(d);
    let n = year.len() as int;
    assert(s == year + seq!['-'] + month + seq!['-'] + day);
    assert(s.take(n) == year);
    assert(s[n + 1] == month[0] && s[n + 2] == month[1]);
    assert(s[n + 4] == day[0] && s[n + 5] == day[1]);
}

/// How an amount stands to zero agrees with how it is written: with a minus sign below zero,
/// without one above it, as zero where it is that, and as no number where it is none.
pub proof fn signs_agree_with_texts(sign: Sign, s: Seq<char>)
    requires
        models::is_amount_text(s),
    ensures
        models::agrees(sign, s) <==> (match sign {
            Sign::Undefined => s == "NaN"@,
            Sign::Zero => s == "0.00"@ || s == "-0.00"@,
            Sign::Negative => s[0] == '-',
            Sign::Positive => s[0] != '-' && s != "NaN"@,
        }),
{
    reveal_strlit("NaN");
    reveal_strlit("inf");
    reveal_strlit("0.00");
    reveal_strlit("-0.00");
    assert("-0.00"@.drop_first() == "0.00"@);
    if s.len() > 0 && s[0] == '-' {
        assert(s == seq!['-'] + s.drop_first());
        assert("-0.00"@ == seq!['-'] + "0.00"@);
    }
}

/// What comes of reading the configuration is a configuration where nothing is wrong, and the
/// report of what is wrong where something is.
pub proof fn configurations_come_where_nothing_is_wrong(
    r: Result<Config, Failure>,
    env: Environment,
    today: CivilDate,
)
    requires
        Config::is_outcome(r, env, today),
    ensures
        r is Ok <==> Config::problem(env, today) is None,
        r matches Ok(config) ==> config.is_of(env, today),
        r matches Err(failure) ==> Config::problem(env, today) == Some(failure@),
{
}

/// What comes of asking for the previous billing period is the month before the instant that the
/// start reads as, and the report of a start that does not read.
pub proof fn periods_come_where_the_start_reads(
    current_start: Seq<char>,
    r: Result<BillingPeriod, Failure>,
)
    requires
        calendar::is_previous_period(current_start, r),
    ensures
        match calendar::rfc3339_reading(current_start) {
            Ok(read) => r is Ok && ({
                let boundary = Moment {
                    date: CivilDate { year: read.0, month: read.1, day: read.2 },
                    second: read.3,
                    nano: read.4,
                };
                calendar::is_moment(boundary) && calendar::is_period_before(r->Ok_0, boundary)
            }),
            Err(cause) => r is Err && r->Err_0@ == seq![
                "Railway returned an invalid billing-period start"@,
                cause,
            ],
        },
{
}

/// White space is twenty-five characters, by their code points.
pub proof fn white_space_is_these_characters(c: char)
    ensures
        text::is_white_space(c) <==> {
            let code = c as int;
            ||| 9 <= code <= 13
            ||| 0x2000 <= code <= 0x200A
            ||| seq![32int, 0x85, 0xA0, 0x1680, 0x2028, 0x2029, 0x202F, 0x205F, 0x3000].contains(
                code,
            )
        },
{
    let others = seq![32int, 0x85, 0xA0, 0x1680, 0x2028, 0x2029, 0x202F, 0x205F, 0x3000];
    assert(others[0] == 32 && others[1] == 0x85 && others[2] == 0xA0 && others[3] == 0x1680);
    assert(others[4] == 0x2028 && others[5] == 0x2029 && others[6] == 0x202F);
    assert(others[7] == 0x205F && others[8] == 0x3000);
}

/// A variable that does not read as a date is reported by its name, with the format and the cause.
pub proof fn dates_in_other_formats_are_told(name: Seq<char>, cause: Seq<char>)
    ensures
        config::date_fault(name, cause).len() == 2,
        config::date_fault(name, cause)[0] == name + " must use YYYY-MM-DD format"@,
        config::date_fault(name, cause)[1] == cause,
{
}

} // verus!
