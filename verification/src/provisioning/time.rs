//! Calendar rendering of epoch seconds (`YYYY-MM-DDTHH:MM:SSZ`, UTC) and
//! compact rendering of durations (`1d1h1m1s`).

use vstd::prelude::*;
use crate::text::{append_str, dec, dec_int, fmt_i64, fmt_u64, own, push_char};

verus! {

/// The remainder of floor division by a positive divisor
/// (`i64::rem_euclid`).
fn floor_mod(a: i64, b: i64) -> (r: i64)
    requires
        b > 0,
    ensures
        r == a as int % b as int,
{
    if a >= 0 {
        a % b
    } else {
        let n: i64 = -(a + 1);
        let r0 = n % b;
        assert(b - 1 - r0 == a as int % b as int) by (nonlinear_arith)
            requires
                n == -(a + 1),
                n >= 0,
                b > 0,
                r0 == n % b,
        {
            let q0 = n / b;
            assert(n == b * q0 + r0);
            assert(0 <= r0 < b);
            assert(a == (-q0 - 1) * b + (b - 1 - r0));
            vstd::arithmetic::div_mod::lemma_fundamental_div_mod_converse_mod(a as int, b as int, -q0 - 1, b - 1 - r0);
        }
        b - 1 - r0
    }
}

/// Floor division by a positive divisor (`i64::div_euclid`).
fn floor_div(a: i64, b: i64) -> (q: i64)
    requires
        b > 0,
    ensures
        q == a as int / b as int,
{
    if a >= 0 {
        a / b
    } else {
        let n: i64 = -(a + 1);
        let q0 = n / b;
        assert(-q0 - 1 == a as int / b as int) by (nonlinear_arith)
            requires
                n == -(a + 1),
                n >= 0,
                b > 0,
                q0 == n / b,
        {
            let r0 = n % b;
            assert(n == b * q0 + r0);
            assert(0 <= r0 < b);
            assert(a == b * (-q0 - 1) + (b - 1 - r0));
            vstd::arithmetic::div_mod::lemma_fundamental_div_mod_converse_div(a as int, b as int, -q0 - 1, b - 1 - r0);
        }
        -q0 - 1
    }
}

/// The proleptic Gregorian date `(year, month, day)` of the day `z` days
/// after 1970-01-01 (negative before it), by shifting to a calendar that
/// starts in March of year 0 and splitting into 400-year eras.
pub open spec fn civil(z: int) -> (int, int, int) {
    let z2 = z + 719468;
    let era = z2 / 146097;
    let doe = z2 - era * 146097;
    let yoe = (doe - doe / 1460 + doe / 36524 - doe / 146096) / 365;
    let y = yoe + era * 400;
    let doy = doe - (365 * yoe + yoe / 4 - yoe / 100);
    let mp = (5 * doy + 2) / 153;
    let d = doy - (153 * mp + 2) / 5 + 1;
    let m = if mp < 10 {
        mp + 3
    } else {
        mp - 9
    };
    (if m <= 2 {
        y + 1
    } else {
        y
    }, m, d)
}

/// The date of day `z` after 1970-01-01 (see [`civil`]).
pub fn civil_from_days(z: i64) -> (r: (i64, i64, i64))
    requires
        -0x1_0000_0000_0000 <= z <= 0x1_0000_0000_0000,
    ensures
        r.0 == civil(z as int).0,
        r.1 == civil(z as int).1,
        r.2 == civil(z as int).2,
{
    let z2 = z + 719468;
    let era = floor_div(z2, 146097);
    assert(era == z2 / 146097);
    let doe = z2 - era * 146097;
    assert(0 <= doe < 146097);
    let yoe = (doe - doe / 1460 + doe / 36524 - doe / 146096) / 365;
    assert(-1 <= yoe <= 401) by {
        assert(0 <= doe / 1460 <= doe);
    }
    let y = yoe + era * 400;
    let doy = doe - (365 * yoe + yoe / 4 - yoe / 100);
    let mp = (5 * doy + 2) / 153;
    let d = doy - (153 * mp + 2) / 5 + 1;
    let m = if mp < 10 {
        mp + 3
    } else {
        mp - 9
    };
    let year = if m <= 2 {
        y + 1
    } else {
        y
    };
    (year, m, d)
}

/// `n` in decimal, left-padded with zeros to `w` characters (a minus sign
/// counting toward the width), as `{:0w}` formats it.
pub open spec fn zero_pad(n: int, w: nat) -> Seq<char> {
    let digits = dec((if n < 0 {
        -n
    } else {
        n
    }) as nat);
    let sign_len: int = if n < 0 {
        1
    } else {
        0
    };
    let pad = if w > digits.len() + sign_len {
        Seq::new((w - digits.len() - sign_len) as nat, |i: int| '0')
    } else {
        Seq::empty()
    };
    if n < 0 {
        seq!['-'] + pad + digits
    } else {
        pad + digits
    }
}

fn zero_padded(n: i64, w: usize) -> (s: String)
    requires
        n > i64::MIN,
        w <= 8,
    ensures
        s@ == zero_pad(n as int, w as nat),
{
    let digits = fmt_u64((if n < 0 { -n } else { n }) as u64);
    let dlen = crate::text::chars_of(digits.as_str()).len();
    let mut s = String::new();
    if n < 0 {
        push_char(&mut s, '-');
    }
    let sign_len: usize = if n < 0 {
        1
    } else {
        0
    };
    let ghost pre = s@;
    let mut k: usize = 0;
    let total: usize = if dlen < w && w - dlen > sign_len {
        w - dlen - sign_len
    } else {
        0
    };
    while k < total
        invariant
            k <= total,
            s@ == pre + Seq::new(k as nat, |i: int| '0'),
        decreases total - k,
    {
        push_char(&mut s, '0');
        assert(Seq::new((k + 1) as nat, |i: int| '0') =~= Seq::new(k as nat, |i: int| '0').push('0'));
        k = k + 1;
    }
    append_str(&mut s, digits.as_str());
    assert(s@ =~= zero_pad(n as int, w as nat));
    s
}

/// `YYYY-MM-DDTHH:MM:SSZ` for `secs` seconds after the epoch (UTC).
pub open spec fn unix_ts_text(secs: int) -> Seq<char> {
    let days = secs / 86400;
    let day_secs = secs % 86400;
    let c = civil(days);
    zero_pad(c.0, 4) + seq!['-'] + zero_pad(c.1, 2) + seq!['-'] + zero_pad(c.2, 2) + seq!['T']
        + zero_pad(day_secs / 3600, 2) + seq![':'] + zero_pad((day_secs % 3600) / 60, 2) + seq![
        ':',
    ] + zero_pad(day_secs % 60, 2) + seq!['Z']
}

/// Renders `secs` seconds after the epoch as `YYYY-MM-DDTHH:MM:SSZ` (UTC).
pub fn format_unix_ts(secs: i64) -> (s: String)
    ensures
        s@ == unix_ts_text(secs as int),
{
    let days = floor_div(secs, 86400);
    proof {
        vstd::arithmetic::div_mod::lemma_fundamental_div_mod(secs as int, 86400);
        assert(0 <= secs as int % 86400 < 86400);
        assert(days * 86400 == secs as int - secs as int % 86400);
        assert(-0x1_0000_0000_0000 <= days <= 0x1_0000_0000_0000) by (nonlinear_arith)
            requires
                secs as int == 86400 * days + (secs as int % 86400),
                0 <= secs as int % 86400 < 86400,
                i64::MIN <= secs <= i64::MAX,
        ;
    }
    let day_secs = floor_mod(secs, 86400);
    assert(days == (secs as int) / 86400);
    assert(day_secs == (secs as int) % 86400);
    let hour = day_secs / 3600;
    let minute = (day_secs % 3600) / 60;
    let second = day_secs % 60;
    let (year, month, day) = civil_from_days(days);
    assert(-0x100_0000_0000 <= year <= 0x100_0000_0000) by {
        assert(days / 146097 <= 0x100_0000_0000);
    }
    let mut s = zero_padded(year, 4);
    push_char(&mut s, '-');
    append_str(&mut s, zero_padded(month, 2).as_str());
    push_char(&mut s, '-');
    append_str(&mut s, zero_padded(day, 2).as_str());
    push_char(&mut s, 'T');
    append_str(&mut s, zero_padded(hour, 2).as_str());
    push_char(&mut s, ':');
    append_str(&mut s, zero_padded(minute, 2).as_str());
    push_char(&mut s, ':');
    append_str(&mut s, zero_padded(second, 2).as_str());
    push_char(&mut s, 'Z');
    assert(s@ =~= unix_ts_text(secs as int));
    s
}

/// Whole seconds as days, hours, minutes and seconds, each unit present
/// only when not zero (largest first); `0s` for zero.
pub open spec fn duration_text(secs: nat) -> Seq<char> {
    if secs == 0 {
        "0s"@
    } else {
        let d = secs / 86400;
        let r1 = secs % 86400;
        let h = r1 / 3600;
        let r2 = r1 % 3600;
        let m = r2 / 60;
        let s = r2 % 60;
        (if d > 0 {
            dec(d) + seq!['d']
        } else {
            Seq::empty()
        }) + (if h > 0 {
            dec(h) + seq!['h']
        } else {
            Seq::empty()
        }) + (if m > 0 {
            dec(m) + seq!['m']
        } else {
            Seq::empty()
        }) + (if s > 0 {
            dec(s) + seq!['s']
        } else {
            Seq::empty()
        })
    }
}

/// Renders whole seconds compactly (see [`duration_text`]); a fraction
/// of a second is dropped by the caller.
pub fn format_duration(secs: u64) -> (s: String)
    ensures
        s@ == duration_text(secs as nat),
{
    if secs == 0 {
        return own("0s");
    }
    let d = secs / 86400;
    let r1 = secs % 86400;
    let h = r1 / 3600;
    let r2 = r1 % 3600;
    let m = r2 / 60;
    let sec = r2 % 60;
    let mut out = String::new();
    if d > 0 {
        append_str(&mut out, fmt_u64(d).as_str());
        push_char(&mut out, 'd');
    }
    if h > 0 {
        append_str(&mut out, fmt_u64(h).as_str());
        push_char(&mut out, 'h');
    }
    if m > 0 {
        append_str(&mut out, fmt_u64(m).as_str());
        push_char(&mut out, 'm');
    }
    if sec > 0 {
        append_str(&mut out, fmt_u64(sec).as_str());
        push_char(&mut out, 's');
    }
    assert(out@ =~= duration_text(secs as nat));
    out
}

} // verus!
