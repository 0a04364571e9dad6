use vstd::prelude::*;

verus! {

/// The decimal digit character for `d`, which is below ten.
pub open spec fn digit_char(d: nat) -> char {
    if d == 0 { '0' }
    else if d == 1 { '1' }
    else if d == 2 { '2' }
    else if d == 3 { '3' }
    else if d == 4 { '4' }
    else if d == 5 { '5' }
    else if d == 6 { '6' }
    else if d == 7 { '7' }
    else if d == 8 { '8' }
    else { '9' }
}

/// The decimal representation of `n`: its digits, most significant first,
/// with no sign and no leading zero (zero itself is written `0`).
pub open spec fn decimal_of(n: nat) -> Seq<char>
    decreases n,
{
    if n < 10 {
        seq![digit_char(n)]
    } else {
        decimal_of(n / 10).push(digit_char(n % 10))
    }
}

/// The one-character text of the digit `d`.
fn digit_str(d: u64) -> (r: &'static str)
    requires
        d < 10,
    ensures
        r@ == seq![digit_char(d as nat)],
{
    if d == 0 {
        proof {
            reveal_strlit("0");
        }
        "0"
    } else if d == 1 {
        proof {
            reveal_strlit("1");
        }
        "1"
    } else if d == 2 {
        proof {
            reveal_strlit("2");
        }
        "2"
    } else if d == 3 {
        proof {
            reveal_strlit("3");
        }
        "3"
    } else if d == 4 {
        proof {
            reveal_strlit("4");
        }
        "4"
    } else if d == 5 {
        proof {
            reveal_strlit("5");
        }
        "5"
    } else if d == 6 {
        proof {
            reveal_strlit("6");
        }
        "6"
    } else if d == 7 {
        proof {
            reveal_strlit("7");
        }
        "7"
    } else if d == 8 {
        proof {
            reveal_strlit("8");
        }
        "8"
    } else {
        proof {
            reveal_strlit("9");
        }
        "9"
    }
}

/// Writes `n` in decimal.
pub fn decimal(n: u64) -> (r: String)
    ensures
        r@ == decimal_of(n as nat),
{
    let mut out = String::from_str(digit_str(n % 10));
    let mut rest: u64 = n / 10;
    while rest > 0
        invariant
            decimal_of(n as nat) == if rest == 0 {
                out@
            } else {
                decimal_of(rest as nat) + out@
            },
        decreases rest,
    {
        let digit = String::from_str(digit_str(rest % 10));
        let ghost before = out@;
        out = digit.concat(out.as_str());
        proof {
            if rest >= 10 {
                assert(decimal_of(rest as nat) + before =~= decimal_of((rest / 10) as nat) + out@);
            } else {
                assert(decimal_of(rest as nat) + before =~= out@);
            }
        }
        rest = rest / 10;
    }
    out
}

pub const SECONDS_PER_MINUTE: u64 = 60;

pub const SECONDS_PER_HOUR: u64 = 3600;

pub const SECONDS_PER_DAY: u64 = 86400;

/// How an uptime of `secs` seconds reads: whole days, then the hours and
/// minutes left over, as `<d>d <h>h <m>m`.
pub open spec fn uptime_text(secs: nat) -> Seq<char> {
    decimal_of(secs / 86400) + seq!['d', ' '] + decimal_of((secs % 86400) / 3600) + seq!['h', ' ']
        + decimal_of((secs % 3600) / 60) + seq!['m']
}

/// Writes an uptime given in seconds as days, hours and minutes.
pub fn format_uptime(secs: u64) -> (r: String)
    ensures
        r@ == uptime_text(secs as nat),
{
    let days = secs / SECONDS_PER_DAY;
    let hours = (secs % SECONDS_PER_DAY) / SECONDS_PER_HOUR;
    let minutes = (secs % SECONDS_PER_HOUR) / SECONDS_PER_MINUTE;
    let mut out = decimal(days);
    out.append("d ");
    let h = decimal(hours);
    out.append(h.as_str());
    out.append("h ");
    let m = decimal(minutes);
    out.append(m.as_str());
    out.append("m");
    proof {
        reveal_strlit("d ");
        reveal_strlit("h ");
        reveal_strlit("m");
        assert(out@ =~= uptime_text(secs as nat));
    }
    out
}

} // verus!
