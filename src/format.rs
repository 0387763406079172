//! Writing a duration for display.
use vstd::prelude::*;
use vstd::string::StringExecFns;
use crate::urls::{decimal_text, push_decimal};

verus! {

/// `sec` seconds written as days, hours, minutes and seconds, leaving out
/// the leading units that are zero: `1d 2h:3m.4s`, `2h:3m.4s`, `3m.4s`,
/// `4s`.
pub open spec fn duration_text(sec: nat) -> Seq<char> {
    let minutes = sec / 60;
    let hours = minutes / 60;
    let days = hours / 24;
    if days >= 1 {
        decimal_text(days) + "d "@ + decimal_text(hours % 24) + "h:"@ + decimal_text(minutes % 60)
            + "m."@ + decimal_text(sec % 60) + "s"@
    } else if hours >= 1 {
        decimal_text(hours) + "h:"@ + decimal_text(minutes % 60) + "m."@ + decimal_text(sec % 60)
            + "s"@
    } else if minutes >= 1 {
        decimal_text(minutes) + "m."@ + decimal_text(sec % 60) + "s"@
    } else {
        decimal_text(sec) + "s"@
    }
}

/// Writes a duration of `sec` whole seconds for display.
pub fn format_seconds(sec: usize) -> (r: String)
    ensures
        r@ == duration_text(sec as nat),
{
    let minutes = sec / 60;
    let hours = minutes / 60;
    let days = hours / 24;
    let mut s = String::new();
    if days >= 1 {
        push_decimal(&mut s, days);
        s.append("d ");
        push_decimal(&mut s, hours % 24);
        s.append("h:");
        push_decimal(&mut s, minutes % 60);
        s.append("m.");
    } else if hours >= 1 {
        push_decimal(&mut s, hours);
        s.append("h:");
        push_decimal(&mut s, minutes % 60);
        s.append("m.");
    } else if minutes >= 1 {
        push_decimal(&mut s, minutes);
        s.append("m.");
    }
    if minutes >= 1 {
        push_decimal(&mut s, sec % 60);
    } else {
        push_decimal(&mut s, sec);
    }
    s.append("s");
    proof {
        assert(s@ =~= duration_text(sec as nat));
    }
    s
}

} // verus!
