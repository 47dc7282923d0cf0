//! Human-readable durations for the statistics views.
use vstd::prelude::*;
use crate::text::{int_text, nat_text, push_all, push_int, push_nat};

verus! {

/// `{a}h {b}m`, `{a}m {b}s` and friends: a number followed by a unit letter.
pub open spec fn with_unit(n: nat, unit: char) -> Seq<char> {
    nat_text(n).push(unit)
}

/// What [`format_duration`] gives for `seconds`: hours and minutes when there
/// is at least an hour, minutes and seconds when there is at least a minute,
/// else seconds. A negative count keeps only its (negative) seconds part, as
/// Rust's truncating `/` and `%` leave it.
pub open spec fn duration_text(seconds: int) -> Seq<char> {
    if seconds >= 0 {
        let h = seconds / 3600;
        let m = (seconds % 3600) / 60;
        let s = seconds % 60;
        if h > 0 {
            with_unit(h as nat, 'h') + seq![' '] + with_unit(m as nat, 'm')
        } else if m > 0 {
            with_unit(m as nat, 'm') + seq![' '] + with_unit(s as nat, 's')
        } else {
            with_unit(s as nat, 's')
        }
    } else {
        int_text(-((-seconds) % 60)).push('s')
    }
}

/// Formats a number of seconds as `1h 1m`, `1m 30s` or `30s`.
pub fn format_duration(seconds: i64) -> (r: String)
    ensures
        r@ == duration_text(seconds as int),
{
    let mut out = String::new();
    if seconds >= 0 {
        let t = seconds as u64;
        let h = t / 3600;
        let m = (t % 3600) / 60;
        let s = t % 60;
        if h > 0 {
            push_nat(&mut out, h);
            push_all(&mut out, &['h', ' ']);
            push_nat(&mut out, m);
            push_all(&mut out, &['m']);
        } else if m > 0 {
            push_nat(&mut out, m);
            push_all(&mut out, &['m', ' ']);
            push_nat(&mut out, s);
            push_all(&mut out, &['s']);
        } else {
            push_nat(&mut out, s);
            push_all(&mut out, &['s']);
        }
    } else {
        let mag: u64 = if seconds == i64::MIN {
            9223372036854775808u64
        } else {
            (-seconds) as u64
        };
        let s = (mag % 60) as i64;
        push_int(&mut out, -s);
        push_all(&mut out, &['s']);
    }
    assert(out@ =~= duration_text(seconds as int));
    out
}

/// What [`format_duration_human`] gives: `0s` for no time, otherwise the
/// largest two units with a zero second unit left out (`2h 15m`, `1h`,
/// `1m 30s`, `1m`, `30s`).
pub open spec fn human_duration_text(seconds: int) -> Seq<char> {
    if seconds <= 0 {
        seq!['0', 's']
    } else {
        let h = seconds / 3600;
        let m = (seconds % 3600) / 60;
        let s = seconds % 60;
        if h > 0 {
            if m > 0 {
                with_unit(h as nat, 'h') + seq![' '] + with_unit(m as nat, 'm')
            } else {
                with_unit(h as nat, 'h')
            }
        } else if m > 0 {
            if s > 0 {
                with_unit(m as nat, 'm') + seq![' '] + with_unit(s as nat, 's')
            } else {
                with_unit(m as nat, 'm')
            }
        } else {
            with_unit(s as nat, 's')
        }
    }
}

/// Formats a number of seconds for people: `2h 15m`, `45m 30s`, `30s`.
pub fn format_duration_human(seconds: i64) -> (r: String)
    ensures
        r@ == human_duration_text(seconds as int),
{
    let mut out = String::new();
    if seconds <= 0 {
        push_all(&mut out, &['0', 's']);
        assert(out@ =~= human_duration_text(seconds as int));
        return out;
    }
    let t = seconds as u64;
    let h = t / 3600;
    let m = (t % 3600) / 60;
    let s = t % 60;
    if h > 0 {
        push_nat(&mut out, h);
        if m > 0 {
            push_all(&mut out, &['h', ' ']);
            push_nat(&mut out, m);
            push_all(&mut out, &['m']);
        } else {
            push_all(&mut out, &['h']);
        }
    } else if m > 0 {
        push_nat(&mut out, m);
        if s > 0 {
            push_all(&mut out, &['m', ' ']);
            push_nat(&mut out, s);
            push_all(&mut out, &['s']);
        } else {
            push_all(&mut out, &['m']);
        }
    } else {
        push_nat(&mut out, s);
        push_all(&mut out, &['s']);
    }
    assert(out@ =~= human_duration_text(seconds as int));
    out
}

} // verus!
