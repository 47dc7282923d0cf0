//! Due dates named in to-do text: relative days (今天, 明天, 后天), weekdays
//! of this or next week, this or next month, and month/day numbers.
use vstd::prelude::*;
use crate::dates::{
    add_days, date_before, date_text, day_number, days_from_civil, format_date, is_before,
    max_year, min_year, today_local, valid_date, valid_ymd, weekday_index, weekday_of,
    ymd_is_valid, CivilDate,
};
use crate::text::{
    all_digits, contains, decimal_digit, digits_value, has_infix, is_decimal_digit, occurs_at,
    pair_chars, str_chars, subvec, matches_at,
};
use crate::todo::opt_string;

verus! {

// ---------------------------------------------------------------------------
// Words
// ---------------------------------------------------------------------------

pub open spec fn is_weekday_char(c: char) -> bool {
    c == '一' || c == '二' || c == '三' || c == '四' || c == '五' || c == '六' || c == '日' || c == '天'
}

/// The weekday a character names, Monday being 0 (日 and 天 are Sunday).
pub open spec fn weekday_number(c: char) -> int {
    if c == '一' {
        0
    } else if c == '二' {
        1
    } else if c == '三' {
        2
    } else if c == '四' {
        3
    } else if c == '五' {
        4
    } else if c == '六' {
        5
    } else {
        6
    }
}

/// "下周" starts at `i`.
pub open spec fn next_week_at(t: Seq<char>, i: int) -> bool {
    occurs_at(t, seq!['下', '周'], i)
}

/// "这周" or "本周" starts at `i`.
pub open spec fn this_week_at(t: Seq<char>, i: int) -> bool {
    occurs_at(t, seq!['这', '周'], i) || occurs_at(t, seq!['本', '周'], i)
}

/// The weekday character right after the leftmost "下周" (when `next`) or
/// "这周"/"本周" that has one, searching from `i`.
pub open spec fn weekday_after(t: Seq<char>, next: bool, i: int) -> Option<char>
    decreases t.len() - i,
{
    if i < 0 || i >= t.len() {
        None
    } else if (if next {
        next_week_at(t, i)
    } else {
        this_week_at(t, i)
    }) && i + 2 < t.len() && is_weekday_char(t[i + 2]) {
        Some(t[i + 2])
    } else {
        weekday_after(t, next, i + 1)
    }
}

// ---------------------------------------------------------------------------
// Numbers
// ---------------------------------------------------------------------------

/// What `parse::<u32>().unwrap_or(0)` gives for a group of one or two decimal
/// digits: their value when they are ASCII, else 0.
pub open spec fn group_value(g: Seq<char>) -> u32 {
    if all_digits(g) {
        digits_value(g) as u32
    } else {
        0
    }
}

pub open spec fn is_day_mark(c: char) -> bool {
    c == '日' || c == '号'
}

/// Length of a one- or two-digit group at `p` that `sep` follows (two digits
/// preferred), or 0.
pub open spec fn lead_group(t: Seq<char>, p: int, sep: char) -> int {
    if p + 2 < t.len() && is_decimal_digit(t[p]) && is_decimal_digit(t[p + 1]) && t[p + 2] == sep {
        2
    } else if p + 1 < t.len() && is_decimal_digit(t[p]) && t[p + 1] == sep {
        1
    } else {
        0
    }
}

/// `(\d{1,2})月(\d{1,2})[日号]` matched at `p`: the two digit groups.
pub open spec fn month_day_at(t: Seq<char>, p: int) -> Option<(Seq<char>, Seq<char>)> {
    let a = lead_group(t, p, '月');
    let q = p + a + 1;
    let b = if q + 2 < t.len() && is_decimal_digit(t[q]) && is_decimal_digit(t[q + 1]) && is_day_mark(
        t[q + 2],
    ) {
        2
    } else if q + 1 < t.len() && is_decimal_digit(t[q]) && is_day_mark(t[q + 1]) {
        1int
    } else {
        0
    };
    if a == 0 || b == 0 {
        None
    } else {
        Some((t.subrange(p, p + a), t.subrange(q, q + b)))
    }
}

/// `(\d{1,2})/(\d{1,2})` matched at `p`: the two digit groups.
pub open spec fn slash_at(t: Seq<char>, p: int) -> Option<(Seq<char>, Seq<char>)> {
    let a = lead_group(t, p, '/');
    let q = p + a + 1;
    let b = if q + 1 < t.len() && is_decimal_digit(t[q]) && is_decimal_digit(t[q + 1]) {
        2
    } else if q < t.len() && is_decimal_digit(t[q]) {
        1int
    } else {
        0
    };
    if a == 0 || b == 0 {
        None
    } else {
        Some((t.subrange(p, p + a), t.subrange(q, q + b)))
    }
}

/// The leftmost match, from `i` on, of the month/day pattern (`slash` false)
/// or the slash pattern (`slash` true).
pub open spec fn first_numeric(t: Seq<char>, slash: bool, i: int) -> Option<(Seq<char>, Seq<char>)>
    decreases t.len() - i,
{
    if i < 0 || i >= t.len() {
        None
    } else {
        let here = if slash {
            slash_at(t, i)
        } else {
            month_day_at(t, i)
        };
        if here is Some {
            here
        } else {
            first_numeric(t, slash, i + 1)
        }
    }
}

// ---------------------------------------------------------------------------
// Dates
// ---------------------------------------------------------------------------

/// Day numbers that chrono's dates cover.
pub open spec fn in_day_range(k: int) -> bool {
    days_from_civil(min_year(), 1, 1) <= k <= days_from_civil(max_year(), 12, 31)
}

/// `r` is the date `n` days after `d` when chrono can represent it, and
/// nothing otherwise.
pub open spec fn shifted(d: CivilDate, n: int, r: Option<CivilDate>) -> bool {
    if in_day_range(day_number(d) + n) {
        r matches Some(e) && valid_date(e) && day_number(e) == day_number(d) + n
    } else {
        r is None
    }
}

/// Days from a day with weekday `current` to weekday `target` of the next
/// Monday-to-Sunday week.
pub open spec fn next_week_offset(target: int, current: int) -> int {
    7 - current + target
}

/// The date `(year, m, d)` of this year, or of next year when this year's has
/// passed and next year's exists.
pub open spec fn upcoming(today: CivilDate, m: u32, d: u32) -> CivilDate {
    let this_year = CivilDate { year: today.year, month: m, day: d };
    if date_before(this_year, today) && valid_ymd(today.year + 1, m as int, d as int) {
        CivilDate { year: (today.year + 1) as i32, month: m, day: d }
    } else {
        this_year
    }
}

/// A month/day match that names a valid date this year.
pub open spec fn numeric_date(t: Seq<char>, today: CivilDate, slash: bool) -> Option<CivilDate> {
    match first_numeric(t, slash, 0) {
        Some(g) => {
            let m = group_value(g.0);
            let d = group_value(g.1);
            if valid_ymd(today.year as int, m as int, d as int) {
                Some(upcoming(today, m, d))
            } else {
                None
            }
        },
        None => None,
    }
}

/// The 28th of next month.
pub open spec fn next_month_28(today: CivilDate) -> CivilDate {
    if today.month == 12 {
        CivilDate { year: (today.year + 1) as i32, month: 1, day: 28 }
    } else {
        CivilDate { year: today.year, month: (today.month + 1) as u32, day: 28 }
    }
}

/// How a due date is found from the text: a given date, a number of days
/// from today, or none.
pub enum DuePlan {
    Exact(CivilDate),
    Shift(int),
    Nothing,
}

/// The rule that decides the due date `t` names, seen from `today`. The
/// first that applies: 今天, 明天, 后天; a weekday of next week (下周一..下周日);
/// a weekday of this week (这周/本周 + 一..日); next week's Monday (下周);
/// this week's Friday (这周, 本周); the 28th of this month (这月) or of next
/// month (下月); a month and day (7月15日 or 7月15号, then 7/15), this year
/// or, once passed, next year.
pub open spec fn due_plan(t: Seq<char>, today: CivilDate) -> DuePlan {
    let wd = weekday_index(today);
    if contains(t, seq!['今', '天']) {
        DuePlan::Exact(today)
    } else if contains(t, seq!['明', '天']) {
        DuePlan::Shift(1)
    } else if contains(t, seq!['后', '天']) {
        DuePlan::Shift(2)
    } else if weekday_after(t, true, 0) is Some {
        DuePlan::Shift(next_week_offset(weekday_number(weekday_after(t, true, 0)->0), wd))
    } else if weekday_after(t, false, 0) is Some {
        DuePlan::Shift(weekday_number(weekday_after(t, false, 0)->0) - wd)
    } else if contains(t, seq!['下', '周']) {
        DuePlan::Shift(next_week_offset(0, wd))
    } else if contains(t, seq!['这', '周']) || contains(t, seq!['本', '周']) {
        DuePlan::Shift(4 - wd)
    } else if contains(t, seq!['这', '月']) {
        DuePlan::Exact(CivilDate { day: 28, ..today })
    } else if contains(t, seq!['下', '月']) && valid_date(next_month_28(today)) {
        DuePlan::Exact(next_month_28(today))
    } else if numeric_date(t, today, false) is Some {
        DuePlan::Exact(numeric_date(t, today, false)->0)
    } else if numeric_date(t, today, true) is Some {
        DuePlan::Exact(numeric_date(t, today, true)->0)
    } else {
        DuePlan::Nothing
    }
}

/// `r` is the due date `t` names, seen from `today` (none where the date
/// falls outside chrono's calendar).
pub open spec fn due_date_is(t: Seq<char>, today: CivilDate, r: Option<CivilDate>) -> bool {
    match due_plan(t, today) {
        DuePlan::Exact(e) => r == Some(e),
        DuePlan::Shift(n) => shifted(today, n, r),
        DuePlan::Nothing => r is None,
    }
}

// ---------------------------------------------------------------------------
// Executable parts
// ---------------------------------------------------------------------------

fn weekday_char(c: char) -> (r: bool)
    ensures
        r == is_weekday_char(c),
{
    c == '一' || c == '二' || c == '三' || c == '四' || c == '五' || c == '六' || c == '日' || c == '天'
}

fn weekday_num(c: char) -> (r: i64)
    ensures
        r == weekday_number(c),
{
    if c == '一' {
        0
    } else if c == '二' {
        1
    } else if c == '三' {
        2
    } else if c == '四' {
        3
    } else if c == '五' {
        4
    } else if c == '六' {
        5
    } else {
        6
    }
}

fn find_weekday_after(t: &Vec<char>, next: bool) -> (r: Option<char>)
    ensures
        r == weekday_after(t@, next, 0),
{
    let xia = pair_chars('下', '周');
    let zhe = pair_chars('这', '周');
    let ben = pair_chars('本', '周');
    let mut i: usize = 0;
    while i < t.len()
        invariant
            i <= t.len(),
            xia@ == seq!['下', '周'],
            zhe@ == seq!['这', '周'],
            ben@ == seq!['本', '周'],
            weekday_after(t@, next, 0) == weekday_after(t@, next, i as int),
        decreases t.len() - i,
    {
        let here = if next {
            matches_at(t, &xia, i)
        } else {
            matches_at(t, &zhe, i) || matches_at(t, &ben, i)
        };
        if here && i + 2 < t.len() && weekday_char(t[i + 2]) {
            return Some(t[i + 2]);
        }
        i += 1;
    }
    None
}

fn group_val(g: &Vec<char>) -> (r: u32)
    requires
        g.len() <= 2,
    ensures
        r == group_value(g@),
{
    let mut v: u32 = 0;
    let mut i: usize = 0;
    while i < g.len()
        invariant
            i <= g.len() <= 2,
            all_digits(g@.take(i as int)),
            v == digits_value(g@.take(i as int)),
            i == 0 ==> v == 0,
            i == 1 ==> v < 10,
            i == 2 ==> v < 100,
        decreases g.len() - i,
    {
        let c = g[i];
        assert(g@.take(i + 1).drop_last() =~= g@.take(i as int));
        if !('0' <= c && c <= '9') {
            assert(!all_digits(g@)) by {
                assert(g@[i as int] == c);
            }
            return 0;
        }
        v = v * 10 + (c as u32 - '0' as u32);
        i += 1;
        assert(all_digits(g@.take(i as int))) by {
            assert forall|k: int| 0 <= k < i implies crate::text::is_ascii_digit(
                #[trigger] g@.take(i as int)[k],
            ) by {
                if k < i - 1 {
                    assert(g@.take(i as int)[k] == g@.take(i - 1)[k]);
                }
            }
        }
    }
    assert(g@.take(g@.len() as int) =~= g@);
    v
}

fn lead_group_len(t: &Vec<char>, p: usize, sep: char) -> (r: usize)
    requires
        p < t.len(),
    ensures
        r == lead_group(t@, p as int, sep),
        r <= 2,
{
    if t.len() - p > 2 && decimal_digit(t[p]) && decimal_digit(t[p + 1]) && t[p + 2] == sep {
        2
    } else if t.len() - p > 1 && decimal_digit(t[p]) && t[p + 1] == sep {
        1
    } else {
        0
    }
}

pub open spec fn opt_groups(o: Option<(Vec<char>, Vec<char>)>) -> Option<(Seq<char>, Seq<char>)> {
    match o {
        Some(g) => Some((g.0@, g.1@)),
        None => None,
    }
}

fn numeric_at(t: &Vec<char>, p: usize, slash: bool) -> (r: Option<(Vec<char>, Vec<char>)>)
    requires
        p < t.len(),
    ensures
        opt_groups(r) == if slash {
            slash_at(t@, p as int)
        } else {
            month_day_at(t@, p as int)
        },
        r matches Some(g) ==> g.0.len() <= 2 && g.1.len() <= 2,
{
    let a = lead_group_len(t, p, if slash { '/' } else { '月' });
    if a == 0 {
        return None;
    }
    let q = p + a + 1;
    let b: usize = if slash {
        if q < t.len() && t.len() - q > 1 && decimal_digit(t[q]) && decimal_digit(t[q + 1]) {
            2
        } else if q < t.len() && decimal_digit(t[q]) {
            1
        } else {
            0
        }
    } else {
        if q < t.len() && t.len() - q > 2 && decimal_digit(t[q]) && decimal_digit(t[q + 1]) && (t[q + 2] == '日'
            || t[q + 2] == '号') {
            2
        } else if q < t.len() && t.len() - q > 1 && decimal_digit(t[q]) && (t[q + 1] == '日' || t[q + 1] == '号') {
            1
        } else {
            0
        }
    };
    if b == 0 {
        return None;
    }
    Some((subvec(t, p, p + a), subvec(t, q, q + b)))
}

fn first_numeric_exec(t: &Vec<char>, slash: bool) -> (r: Option<(Vec<char>, Vec<char>)>)
    ensures
        opt_groups(r) == first_numeric(t@, slash, 0),
        r matches Some(g) ==> g.0.len() <= 2 && g.1.len() <= 2,
{
    let mut i: usize = 0;
    while i < t.len()
        invariant
            i <= t.len(),
            first_numeric(t@, slash, 0) == first_numeric(t@, slash, i as int),
        decreases t.len() - i,
    {
        let here = numeric_at(t, i, slash);
        if here.is_some() {
            return here;
        }
        i += 1;
    }
    None
}

fn upcoming_exec(today: &CivilDate, m: u32, d: u32) -> (r: CivilDate)
    requires
        valid_date(*today),
    ensures
        r == upcoming(*today, m, d),
{
    let this_year = CivilDate { year: today.year, month: m, day: d };
    if is_before(&this_year, today) && ymd_is_valid(today.year + 1, m, d) {
        CivilDate { year: today.year + 1, month: m, day: d }
    } else {
        this_year
    }
}

fn numeric_date_exec(t: &Vec<char>, today: &CivilDate, slash: bool) -> (r: Option<CivilDate>)
    requires
        valid_date(*today),
    ensures
        r == numeric_date(t@, *today, slash),
{
    match first_numeric_exec(t, slash) {
        Some(g) => {
            let m = group_val(&g.0);
            let d = group_val(&g.1);
            if ymd_is_valid(today.year, m, d) {
                Some(upcoming_exec(today, m, d))
            } else {
                None
            }
        },
        None => None,
    }
}

fn shift_exec(today: &CivilDate, n: i64) -> (r: Option<CivilDate>)
    requires
        valid_date(*today),
        -14 <= n <= 14,
    ensures
        shifted(*today, n as int, r),
{
    add_days(today, n)
}

fn next_week_offset_exec(target: i64, current: i64) -> (r: i64)
    requires
        0 <= target < 7,
        0 <= current < 7,
    ensures
        r == next_week_offset(target as int, current as int),
        1 <= r <= 13,
{
    7 - current + target
}

/// The due date that `text` names, seen from the day `today`.
pub fn due_date_of(text: &str, today: &CivilDate) -> (r: Option<CivilDate>)
    requires
        valid_date(*today),
    ensures
        due_date_is(text@, *today, r),
{
    let t = str_chars(text);
    let wd = weekday_of(today) as i64;
    if has_infix(&t, &pair_chars('今', '天')) {
        return Some(*today);
    }
    if has_infix(&t, &pair_chars('明', '天')) {
        return shift_exec(today, 1);
    }
    if has_infix(&t, &pair_chars('后', '天')) {
        return shift_exec(today, 2);
    }
    if let Some(c) = find_weekday_after(&t, true) {
        return shift_exec(today, next_week_offset_exec(weekday_num(c), wd));
    }
    if let Some(c) = find_weekday_after(&t, false) {
        return shift_exec(today, weekday_num(c) - wd);
    }
    if has_infix(&t, &pair_chars('下', '周')) {
        return shift_exec(today, next_week_offset_exec(0, wd));
    }
    if has_infix(&t, &pair_chars('这', '周')) || has_infix(&t, &pair_chars('本', '周')) {
        return shift_exec(today, 4 - wd);
    }
    if has_infix(&t, &pair_chars('这', '月')) {
        return Some(CivilDate { day: 28, ..*today });
    }
    if has_infix(&t, &pair_chars('下', '月')) {
        let nm = if today.month == 12 {
            CivilDate { year: today.year + 1, month: 1, day: 28 }
        } else {
            CivilDate { year: today.year, month: today.month + 1, day: 28 }
        };
        if ymd_is_valid(nm.year, nm.month, nm.day) {
            return Some(nm);
        }
    }
    if let Some(d) = numeric_date_exec(&t, today, false) {
        return Some(d);
    }
    numeric_date_exec(&t, today, true)
}

proof fn lemma_exact_valid(t: Seq<char>, today: CivilDate)
    requires
        valid_date(today),
    ensures
        due_plan(t, today) matches DuePlan::Exact(e) ==> valid_date(e),
{
    let a = numeric_date(t, today, false);
    let b = numeric_date(t, today, true);
    assert(a matches Some(e) ==> valid_date(e));
    assert(b matches Some(e) ==> valid_date(e));
}

/// `r` is the due date `t` names seen from `today`, written `YYYY-MM-DD`.
pub open spec fn due_text_is(t: Seq<char>, today: CivilDate, r: Option<Seq<char>>) -> bool {
    exists|d: Option<CivilDate>|
        due_date_is(t, today, d) && r == match d {
            Some(e) => Some(date_text(e)),
            None => None,
        }
}

/// The due date that `text` names seen from `today`, written `YYYY-MM-DD`.
pub fn extract_due_date_on(text: &str, today: &CivilDate) -> (r: Option<String>)
    requires
        valid_date(*today),
    ensures
        due_text_is(text@, *today, opt_string(r)),
{
    let d = due_date_of(text, today);
    match d {
        Some(e) => {
            proof {
                lemma_exact_valid(text@, *today);
            }
            let s = format_date(&e);
            assert(due_date_is(text@, *today, d));
            Some(s)
        },
        None => {
            assert(due_date_is(text@, *today, d));
            None
        },
    }
}

/// The due date that `text` names, seen from today in the machine's time
/// zone, written `YYYY-MM-DD`.
pub fn extract_due_date(text: &str) -> (r: Option<String>)
    ensures
        exists|today: CivilDate| valid_date(today) && due_text_is(text@, today, opt_string(r)),
{
    let today = today_local();
    extract_due_date_on(text, &today)
}

} // verus!
