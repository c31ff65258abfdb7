use vstd::prelude::*;

use crate::date::can_add_day;
use crate::date::can_add_hour;
use crate::date::can_add_min;
use crate::date::can_add_second;
use crate::date::date_lt;
use crate::date::date_of_text;
use crate::date::step_day;
use crate::date::step_hour;
use crate::date::step_minute;
use crate::date::step_second;
use crate::date::text_of;
use crate::date::DateView;
use crate::text::all_digits;
use crate::text::dec_rep;
use crate::text::find_idx;
use crate::text::is_digit;
use crate::text::lemma_dec_rep;
use crate::text::lemma_find_idx_is;
use crate::text::parse_uint;
use crate::util::days_before_month;
use crate::util::days_before_year;
use crate::util::lemma_days_before_month_bound;
use crate::util::lemma_days_before_month_monotone;
use crate::util::lemma_days_before_year_monotone;
use crate::util::spec_days_in_month;
use crate::util::spec_days_in_year;

verus! {

/// The whole days between the epoch and the start of this calendar day.
spec fn day_index(v: DateView) -> int {
    days_before_year(v.year) - days_before_year(1970) + days_before_month(v.year, v.month) + v.day
        - 1
}

/// The seconds elapsed within the day.
spec fn time_of_day(v: DateView) -> int {
    v.hour * 3600 + v.minute * 60 + v.second
}

/// A valid date's day index lies within its own year.
proof fn lemma_day_index_bounds(v: DateView)
    requires
        v.wf(),
    ensures
        days_before_year(v.year) - days_before_year(1970) <= day_index(v),
        day_index(v) < days_before_year(v.year + 1) - days_before_year(1970),
{
    lemma_days_before_month_monotone(v.year, 1, v.month);
    lemma_days_before_month_bound(v.year, v.month);
    assert(days_before_year(v.year + 1) == days_before_year(v.year) + spec_days_in_year(v.year));
}

/// Day indices grow along the calendar order of (year, month, day).
proof fn lemma_day_index_increasing(a: DateView, b: DateView)
    requires
        a.wf(),
        b.wf(),
        a.year < b.year || (a.year == b.year && a.month < b.month) || (a.year == b.year && a.month
            == b.month && a.day < b.day),
    ensures
        day_index(a) < day_index(b),
{
    if a.year < b.year {
        lemma_day_index_bounds(a);
        lemma_day_index_bounds(b);
        lemma_days_before_year_monotone(a.year + 1, b.year);
    } else if a.month < b.month {
        lemma_days_before_month_monotone(a.year, a.month, b.month);
    }
}

/// An earlier date in the lexicographic order lies strictly earlier on the
/// seconds scale.
proof fn lemma_lt_implies_seconds_lt(a: DateView, b: DateView)
    requires
        a.wf(),
        b.wf(),
        date_lt(a, b),
    ensures
        a.seconds() < b.seconds(),
{
    if a.year != b.year || a.month != b.month || a.day != b.day {
        lemma_day_index_increasing(a, b);
        assert(0 <= time_of_day(a) < 86400);
        assert(0 <= time_of_day(b) < 86400);
    }
}

/// Of two dates, exactly one of "earlier", "equal" and "later" holds: the
/// lexicographic comparison is a total order.
pub proof fn lemma_order_trichotomy(a: DateView, b: DateView)
    ensures
        date_lt(a, b) || a == b || date_lt(b, a),
        date_lt(a, b) ==> a != b && !date_lt(b, a),
        a == b ==> !date_lt(a, b) && !date_lt(b, a),
{
}

/// A date lies earlier in the lexicographic order exactly when it lies
/// earlier on the seconds scale.
pub proof fn lemma_lt_iff_seconds_lt(a: DateView, b: DateView)
    requires
        a.wf(),
        b.wf(),
    ensures
        date_lt(a, b) <==> a.seconds() < b.seconds(),
{
    if date_lt(a, b) {
        lemma_lt_implies_seconds_lt(a, b);
    }
    if date_lt(b, a) {
        lemma_lt_implies_seconds_lt(b, a);
    }
}

/// No two distinct valid dates lie at the same point of the seconds scale.
pub proof fn lemma_seconds_injective(a: DateView, b: DateView)
    requires
        a.wf(),
        b.wf(),
        a.seconds() == b.seconds(),
    ensures
        a == b,
{
    if date_lt(a, b) {
        lemma_lt_implies_seconds_lt(a, b);
    }
    if date_lt(b, a) {
        lemma_lt_implies_seconds_lt(b, a);
    }
}

/// The epoch is the one valid date at second zero.
pub proof fn lemma_seconds_zero_is_epoch(v: DateView)
    requires
        v.wf(),
        v.seconds() == 0,
    ensures
        v == DateView::epoch(),
{
    assert(DateView::epoch().wf());
    assert(DateView::epoch().seconds() == 0);
    lemma_seconds_injective(v, DateView::epoch());
}

/// Stepping the day moves a valid date exactly one day along the seconds
/// scale, across month and year boundaries included.
pub proof fn lemma_step_day_seconds(v: DateView)
    requires
        v.wf(),
        can_add_day(v),
    ensures
        step_day(v).wf(),
        step_day(v).seconds() == v.seconds() + 86400,
{
    if v.day == spec_days_in_month(v.year, v.month) {
        if v.month == 12 {
            lemma_days_before_month_bound(v.year, 12);
            assert(days_before_year(v.year + 1) == days_before_year(v.year) + spec_days_in_year(
                v.year,
            ));
            assert(days_before_month(v.year + 1, 1) == 0);
        } else {
            assert(days_before_month(v.year, v.month + 1) == days_before_month(v.year, v.month)
                + spec_days_in_month(v.year, v.month));
        }
    }
}

/// Stepping the hour moves a valid date exactly one hour along the seconds
/// scale.
pub proof fn lemma_step_hour_seconds(v: DateView)
    requires
        v.wf(),
        can_add_hour(v),
    ensures
        step_hour(v).wf(),
        step_hour(v).seconds() == v.seconds() + 3600,
{
    if v.hour == 23 {
        lemma_step_day_seconds(v);
    }
}

/// Stepping the minute moves a valid date exactly one minute along the
/// seconds scale.
pub proof fn lemma_step_minute_seconds(v: DateView)
    requires
        v.wf(),
        can_add_min(v),
    ensures
        step_minute(v).wf(),
        step_minute(v).seconds() == v.seconds() + 60,
{
    if v.minute == 59 {
        lemma_step_hour_seconds(v);
    }
}

/// Stepping the second moves a valid date exactly one second along the
/// seconds scale: the odometer carry is exact, across minute, hour, day,
/// month and year boundaries alike.
pub proof fn lemma_step_second_seconds(v: DateView)
    requires
        v.wf(),
        can_add_second(v),
    ensures
        step_second(v).wf(),
        step_second(v).seconds() == v.seconds() + 1,
{
    if v.second == 59 {
        lemma_step_minute_seconds(v);
    }
}

/// The date after `n` single-second steps.
pub open spec fn iter_add_second(v: DateView, n: nat) -> DateView
    decreases n,
{
    if n == 0 {
        v
    } else {
        step_second(iter_add_second(v, (n - 1) as nat))
    }
}

/// The last representable instant: the final second of the largest 16-bit
/// year.
pub open spec fn max_date() -> DateView {
    DateView { year: 65535, month: 12, day: 31, hour: 23, minute: 59, second: 59 }
}

/// No valid date lies beyond the last representable instant on the seconds
/// scale.
pub proof fn lemma_seconds_le_max(v: DateView)
    requires
        v.wf(),
    ensures
        v.seconds() <= max_date().seconds(),
{
    assert(max_date().wf());
    if date_lt(v, max_date()) {
        lemma_lt_implies_seconds_lt(v, max_date());
    }
}

/// `n` single-second steps move a valid date exactly `n` seconds along the
/// scale, every carry along the way included, as long as the walk stays
/// within the representable years.
pub proof fn lemma_iter_add_second(v: DateView, n: nat)
    requires
        v.wf(),
        v.seconds() + n <= max_date().seconds(),
    ensures
        iter_add_second(v, n).wf(),
        iter_add_second(v, n).seconds() == v.seconds() + n,
    decreases n,
{
    if n > 0 {
        lemma_iter_add_second(v, (n - 1) as nat);
        let w = iter_add_second(v, (n - 1) as nat);
        if !can_add_second(w) {
            assert(w == max_date());
            assert(w.seconds() == max_date().seconds());
        }
        lemma_step_second_seconds(w);
    }
}

/// From the last day of a month at midnight, one whole day of single
/// seconds lands exactly on the first midnight of the next month (of the
/// next year, out of December): the cascading carry is exact.
pub proof fn lemma_day_of_seconds_turns_month(v: DateView)
    requires
        v.wf(),
        v.day == spec_days_in_month(v.year, v.month),
        v.hour == 0 && v.minute == 0 && v.second == 0,
        v.year < 65535,
    ensures
        iter_add_second(v, 86400) == step_day(v),
        step_day(v).day == 1,
        step_day(v).month == if v.month == 12 {
            1int
        } else {
            v.month + 1
        },
{
    lemma_step_day_seconds(v);
    lemma_seconds_le_max(step_day(v));
    lemma_iter_add_second(v, 86400);
    lemma_seconds_injective(iter_add_second(v, 86400), step_day(v));
}

/// No character of a digit string is a non-digit separator.
proof fn lemma_digits_free_of(s: Seq<char>, c: char)
    requires
        all_digits(s),
        !is_digit(c),
    ensures
        forall|i: int| 0 <= i < s.len() ==> s[i] != c,
{
    assert forall|i: int| 0 <= i < s.len() implies s[i] != c by {
        assert(is_digit(s[i]));
    }
}

/// Splitting `x + sep + tail` at the first `sep` recovers `x` and `tail`,
/// when `x` is free of `sep`.
proof fn lemma_split_at_sep(x: Seq<char>, tail: Seq<char>, sep: char)
    requires
        forall|i: int| 0 <= i < x.len() ==> x[i] != sep,
    ensures
        find_idx(x + seq![sep] + tail, sep) == x.len(),
        (x + seq![sep] + tail).subrange(0, x.len() as int) =~= x,
        (x + seq![sep] + tail).subrange(x.len() + 1 as int, (x + seq![sep] + tail).len() as int) =~= tail,
{
    let s = x + seq![sep] + tail;
    assert forall|j: int| 0 <= j < x.len() implies s[j] != sep by {
        assert(s[j] == x[j]);
    }
    assert(s[x.len() as int] == sep);
    lemma_find_idx_is(s, sep, x.len() as int);
}

/// A string free of `sep` splits at `sep` into itself alone.
proof fn lemma_no_sep(x: Seq<char>, sep: char)
    requires
        forall|i: int| 0 <= i < x.len() ==> x[i] != sep,
    ensures
        find_idx(x, sep) == x.len(),
        x.subrange(0, x.len() as int) =~= x,
{
    lemma_find_idx_is(x, sep, x.len() as int);
}

/// A digit string with a value in range reads back as that value.
proof fn lemma_parse_dec_rep(n: int)
    requires
        0 <= n,
    ensures
        parse_uint(dec_rep(n)) == Some(n),
{
    lemma_dec_rep(n);
    assert(is_digit(dec_rep(n)[0]));
    assert(dec_rep(n)[0] != '+');
}

/// Printing a valid date canonically and parsing the text back yields the
/// same date: the parser inverts the writer.
#[verifier::rlimit(100)]
#[verifier::spinoff_prover]
pub proof fn lemma_text_round_trip(v: DateView)
    requires
        v.wf(),
    ensures
        date_of_text(text_of(v)) == Some(v),
{
    let yc = dec_rep(v.year);
    let mc = dec_rep(v.month);
    let dc = dec_rep(v.day);
    let hc = dec_rep(v.hour);
    let mic = dec_rep(v.minute);
    let sc = dec_rep(v.second);
    lemma_dec_rep(v.year);
    lemma_dec_rep(v.month);
    lemma_dec_rep(v.day);
    lemma_dec_rep(v.hour);
    lemma_dec_rep(v.minute);
    lemma_dec_rep(v.second);
    let dp = yc + seq!['-'] + mc + seq!['-'] + dc;
    let tp = hc + seq![':'] + mic + seq![':'] + sc;
    let s = text_of(v);
    assert(s =~= dp + seq!['T'] + tp);
    lemma_digits_free_of(yc, 'T');
    lemma_digits_free_of(mc, 'T');
    lemma_digits_free_of(dc, 'T');
    assert forall|i: int| 0 <= i < dp.len() implies dp[i] != 'T' by {
        if i < yc.len() {
            assert(dp[i] == yc[i]);
        } else if i == yc.len() {
            assert(dp[i] == '-');
        } else if i < yc.len() + 1 + mc.len() {
            assert(dp[i] == mc[i - yc.len() - 1]);
        } else if i == yc.len() + 1 + mc.len() {
            assert(dp[i] == '-');
        } else {
            assert(dp[i] == dc[i - yc.len() - mc.len() - 2]);
        }
    }
    lemma_split_at_sep(dp, tp, 'T');
    assert(find_idx(s, 'T') == dp.len());
    let date_part = s.subrange(0, dp.len() as int);
    let rest = s.subrange(dp.len() + 1 as int, s.len() as int);
    assert(date_part == dp);
    assert(rest == tp);
    lemma_digits_free_of(hc, 'T');
    lemma_digits_free_of(mic, 'T');
    lemma_digits_free_of(sc, 'T');
    assert forall|i: int| 0 <= i < tp.len() implies tp[i] != 'T' by {
        if i < hc.len() {
            assert(tp[i] == hc[i]);
        } else if i == hc.len() {
            assert(tp[i] == ':');
        } else if i < hc.len() + 1 + mic.len() {
            assert(tp[i] == mic[i - hc.len() - 1]);
        } else if i == hc.len() + 1 + mic.len() {
            assert(tp[i] == ':');
        } else {
            assert(tp[i] == sc[i - hc.len() - mic.len() - 2]);
        }
    }
    lemma_no_sep(tp, 'T');
    let time_part = rest.subrange(0, find_idx(rest, 'T'));
    assert(time_part == tp);
    lemma_digits_free_of(yc, '-');
    assert(dp =~= yc + seq!['-'] + (mc + seq!['-'] + dc));
    lemma_split_at_sep(yc, mc + seq!['-'] + dc, '-');
    let yseg = date_part.subrange(0, yc.len() as int);
    let drest = date_part.subrange(yc.len() + 1 as int, date_part.len() as int);
    assert(yseg == yc);
    assert(drest == mc + seq!['-'] + dc);
    lemma_digits_free_of(mc, '-');
    lemma_split_at_sep(mc, dc, '-');
    let mseg = drest.subrange(0, mc.len() as int);
    let drest2 = drest.subrange(mc.len() + 1 as int, drest.len() as int);
    assert(mseg == mc);
    assert(drest2 == dc);
    lemma_digits_free_of(dc, '-');
    lemma_no_sep(dc, '-');
    let dseg = drest2.subrange(0, find_idx(drest2, '-'));
    assert(dseg == dc);
    lemma_digits_free_of(hc, ':');
    assert(tp =~= hc + seq![':'] + (mic + seq![':'] + sc));
    lemma_split_at_sep(hc, mic + seq![':'] + sc, ':');
    let hseg = time_part.subrange(0, hc.len() as int);
    let trest = time_part.subrange(hc.len() + 1 as int, time_part.len() as int);
    assert(hseg == hc);
    assert(trest == mic + seq![':'] + sc);
    lemma_digits_free_of(mic, ':');
    lemma_split_at_sep(mic, sc, ':');
    let miseg = trest.subrange(0, mic.len() as int);
    let trest2 = trest.subrange(mic.len() + 1 as int, trest.len() as int);
    assert(miseg == mic);
    assert(trest2 == sc);
    lemma_digits_free_of(sc, ':');
    lemma_no_sep(sc, ':');
    let sseg = trest2.subrange(0, find_idx(trest2, ':'));
    assert(sseg == sc);
    lemma_parse_dec_rep(v.year);
    lemma_parse_dec_rep(v.month);
    lemma_parse_dec_rep(v.day);
    lemma_parse_dec_rep(v.hour);
    lemma_parse_dec_rep(v.minute);
    lemma_parse_dec_rep(v.second);
    assert(date_of_text(s) == Some(v));
}

} // verus!
