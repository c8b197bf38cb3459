//! System-property control: the properties the HWC HAL and the EBC kernel read,
//! for the main display path (not the OSD overlay). Each setter gives the property
//! write to perform (key and value); reading goes through [`get_system_mode`].

use crate::mode::{decimal, Mode};
use vstd::prelude::*;
use vstd::string::StringExecFns;

verus! {

/// Broadcast action the platform uses to request a full screen refresh
/// (`am broadcast -a hanvon.intent.fullrefrsh.user`, or `Context.sendBroadcast`).
pub const ACTION_FULL_REFRESH_USER: &'static str = "hanvon.intent.fullrefrsh.user";

/// One system property write: `key = value`.
pub struct PropertyWrite {
    pub key: String,
    pub value: String,
}

/// The decimal text of an integer, with a leading `-` when negative.
pub open spec fn signed_decimal(n: int) -> Seq<char> {
    if n < 0 {
        seq!['-'] + decimal((-n) as nat)
    } else {
        decimal(n as nat)
    }
}

/// The one-character text of digit `d`.
fn digit_str(d: u64) -> (r: &'static str)
    requires
        d < 10,
    ensures
        r@ == seq![crate::mode::digit_char(d as int)],
{
    if d == 0 {
        proof { reveal_strlit("0"); }
        "0"
    } else if d == 1 {
        proof { reveal_strlit("1"); }
        "1"
    } else if d == 2 {
        proof { reveal_strlit("2"); }
        "2"
    } else if d == 3 {
        proof { reveal_strlit("3"); }
        "3"
    } else if d == 4 {
        proof { reveal_strlit("4"); }
        "4"
    } else if d == 5 {
        proof { reveal_strlit("5"); }
        "5"
    } else if d == 6 {
        proof { reveal_strlit("6"); }
        "6"
    } else if d == 7 {
        proof { reveal_strlit("7"); }
        "7"
    } else if d == 8 {
        proof { reveal_strlit("8"); }
        "8"
    } else {
        proof { reveal_strlit("9"); }
        "9"
    }
}

/// Append the decimal text of `m` to `s`.
fn push_decimal(s: &mut String, m: u64)
    ensures
        final(s)@ == old(s)@ + decimal(m as nat),
    decreases m,
{
    if m >= 10 {
        push_decimal(s, m / 10);
    }
    s.append(digit_str(m % 10));
    proof {
        if m >= 10 {
            assert(decimal(m as nat) == decimal((m / 10) as nat).push(crate::mode::digit_char((m % 10) as int)));
            assert(final(s)@ =~= old(s)@ + decimal(m as nat));
        } else {
            assert(final(s)@ =~= old(s)@ + decimal(m as nat));
        }
    }
}

/// The decimal text of `n` (as `n.to_string()`).
pub fn decimal_string(n: i32) -> (r: String)
    ensures
        r@ == signed_decimal(n as int),
{
    let mut s = String::new();
    if n < 0 {
        proof { reveal_strlit("-"); }
        s.append("-");
        let m: u64 = (-(n as i64)) as u64;
        push_decimal(&mut s, m);
        proof {
            assert(s@ =~= signed_decimal(n as int));
        }
    } else {
        push_decimal(&mut s, n as u64);
        proof {
            assert(s@ =~= signed_decimal(n as int));
        }
    }
    s
}

/// Set `sys.eink.mode`, the waveform of the main path's next refreshes: the write of
/// the mode's decimal code. Global until changed back.
pub fn set_system_mode(mode: Mode) -> (r: PropertyWrite)
    ensures
        r.key@ == "sys.eink.mode"@,
        r.value@ == mode.text(),
{
    PropertyWrite { key: String::from_str("sys.eink.mode"), value: String::from_str(mode.as_str()) }
}

/// The current `sys.eink.mode` from the value read (`None` when the property could
/// not be read): the value read, or `"9"`, the device default, when nothing or an
/// empty value was read.
pub fn get_system_mode(read: Option<&str>) -> (r: String)
    ensures
        r@ == (match read {
            Some(v) => if v@.len() > 0 { v@ } else { "9"@ },
            None => "9"@,
        }),
{
    match read {
        Some(v) => {
            if v.is_empty() {
                String::from_str("9")
            } else {
                String::from_str(v)
            }
        },
        None => String::from_str("9"),
    }
}

/// Full-refresh cadence: one full GC16 every `n` partial refreshes (`0` disables),
/// the write of `persist.vendor.ebook.fullmode_cnt = n`.
pub fn set_full_mode_cnt(n: i32) -> (r: PropertyWrite)
    ensures
        r.key@ == "persist.vendor.ebook.fullmode_cnt"@,
        r.value@ == signed_decimal(n as int),
{
    PropertyWrite { key: String::from_str("persist.vendor.ebook.fullmode_cnt"), value: decimal_string(n) }
}

/// Night mode (global inversion): the write of `persist.sys.clr_invert = 1` when
/// `on`, `0` otherwise.
pub fn set_night_mode(on: bool) -> (r: PropertyWrite)
    ensures
        r.key@ == "persist.sys.clr_invert"@,
        r.value@ == (if on { "1"@ } else { "0"@ }),
{
    PropertyWrite {
        key: String::from_str("persist.sys.clr_invert"),
        value: String::from_str(if on { "1" } else { "0" }),
    }
}

} // verus!
