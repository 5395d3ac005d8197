use vstd::prelude::*;
use crate::codec::{RATE_UNITS, chars_of, dec, push_decimal, string_of};

verus! {

/// Seconds between two ticks of the monitor, counted from the end of a tick.
pub const TICK_SECONDS: u64 = 3600;

/// A move of more than this many percent is worth a notification.
pub const MOVE_PERCENT: u64 = 3;

/// Every hour of the day divisible by this sends a notification anyway.
pub const HEARTBEAT_HOURS: u32 = 11;

pub open spec fn abs_diff(a: int, b: int) -> int {
    if a >= b { a - b } else { b - a }
}

/// `|new - old| / old * 100 > 3`, without dividing: a zero baseline makes any
/// change infinite and no change no move.
pub open spec fn moved(old: int, new: int) -> bool {
    100 * abs_diff(new, old) > MOVE_PERCENT * old
}

pub open spec fn is_heartbeat(hour: int) -> bool {
    hour % (HEARTBEAT_HOURS as int) == 0
}

/// Whether a tick that saw `old` cached and `new` live at `hour` notifies.
pub fn should_notify(old: u64, new: u64, hour: u32) -> (b: bool)
    ensures
        b == (moved(old as int, new as int) || is_heartbeat(hour as int)),
{
    let diff: u128 = if new >= old { (new - old) as u128 } else { (old - new) as u128 };
    100 * diff > 3 * (old as u128) || hour % HEARTBEAT_HOURS == 0
}

/// What one tick of the monitor does once its reads are in.
#[derive(Debug)]
pub struct TickPlan {
    /// Send the movement message to every recipient.
    pub notify: bool,
    /// Write the live rate as the new baseline.
    pub persist: bool,
    /// Seconds until the next tick.
    pub rearm_seconds: u64,
}

/// Decides a tick from the live rate (`None`: the fetch failed) and the
/// cached baseline (`None`: it could not be read). A failed live fetch skips
/// the tick and leaves the baseline alone; otherwise the live rate becomes the
/// baseline, whatever the notification.
pub fn plan_tick(live: Option<u64>, baseline: Option<u64>, hour: u32) -> (p: TickPlan)
    ensures
        p.rearm_seconds == TICK_SECONDS,
        live is None ==> !p.notify && !p.persist,
        live matches Some(n) ==> p.persist && (p.notify == (baseline matches Some(o) && (moved(
            o as int,
            n as int,
        ) || is_heartbeat(hour as int)))),
{
    match live {
        None => TickPlan { notify: false, persist: false, rearm_seconds: TICK_SECONDS },
        Some(n) => {
            let notify = match baseline {
                Some(o) => should_notify(o, n, hour),
                None => false,
            };
            TickPlan { notify, persist: true, rearm_seconds: TICK_SECONDS }
        },
    }
}

/// `x` rate units in whole units of the quote currency, halves rounded up,
/// capped at the largest `i32`.
pub open spec fn whole_units(x: int) -> int {
    let w = (x + RATE_UNITS / 2) / (RATE_UNITS as int);
    if w > i32::MAX { i32::MAX as int } else { w }
}

/// The rise from `old` to `new` in whole percent, halves rounded up, capped at
/// the largest `u32`; a fall counts as zero, and any rise from zero as the cap.
pub open spec fn rise_percent(old: int, new: int) -> int {
    if new <= old {
        0
    } else if old == 0 {
        u32::MAX as int
    } else {
        let p = (200 * (new - old) + old) / (2 * old);
        if p > u32::MAX { u32::MAX as int } else { p }
    }
}

/// The text of a movement notification.
pub open spec fn message_text(new: int, old: int) -> Seq<char> {
    "Bitcoin is now at $"@ + dec(whole_units(new) as nat) + ", "@ + dec(
        rise_percent(old, new) as nat,
    ) + "% "@ + (if new > old { "up"@ } else { "down"@ }) + " from "@ + dec(
        whole_units(old) as nat,
    )
}

/// The text of a price answer.
pub open spec fn price_text_of(rate: int) -> Seq<char> {
    "$"@ + dec(((rate + RATE_UNITS / 2) / (RATE_UNITS as int)) as nat)
}

fn push_str(out: &mut Vec<char>, s: &str)
    ensures
        final(out)@ == old(out)@ + s@,
{
    let n = s.unicode_len();
    let mut i: usize = 0;
    let ghost start = out@;
    while i < n
        invariant
            n == s@.len(),
            i <= n,
            out@ == start + s@.subrange(0, i as int),
        decreases n - i,
    {
        out.push(s.get_char(i));
        i = i + 1;
        assert(out@ =~= start + s@.subrange(0, i as int));
    }
    assert(s@.subrange(0, n as int) =~= s@);
}

fn whole(x: u64) -> (w: u64)
    ensures
        w == whole_units(x as int),
{
    let w: u64 = ((x as u128 + (RATE_UNITS / 2) as u128) / (RATE_UNITS as u128)) as u64;
    if w > i32::MAX as u64 {
        i32::MAX as u64
    } else {
        w
    }
}

fn rise(old: u64, new: u64) -> (p: u64)
    ensures
        p == rise_percent(old as int, new as int),
{
    if new <= old {
        0
    } else if old == 0 {
        u32::MAX as u64
    } else {
        let num: u128 = 200 * ((new - old) as u128) + old as u128;
        let den: u128 = 2 * (old as u128);
        let p: u128 = num / den;
        if p > u32::MAX as u128 {
            u32::MAX as u64
        } else {
            p as u64
        }
    }
}

/// The notification sent when the rate went from `old_price` to `new_price`.
pub fn format_message(new_price: u64, old_price: u64) -> (s: String)
    ensures
        s@ == message_text(new_price as int, old_price as int),
{
    let mut out: Vec<char> = Vec::new();
    push_str(&mut out, "Bitcoin is now at $");
    push_decimal(whole(new_price), &mut out);
    push_str(&mut out, ", ");
    push_decimal(rise(old_price, new_price), &mut out);
    push_str(&mut out, "% ");
    if new_price > old_price {
        push_str(&mut out, "up");
    } else {
        push_str(&mut out, "down");
    }
    push_str(&mut out, " from ");
    push_decimal(whole(old_price), &mut out);
    assert(out@ =~= message_text(new_price as int, old_price as int));
    string_of(&out)
}

/// The answer to a price query: the rate in whole units, halves rounded up.
pub fn price_text(rate: u64) -> (s: String)
    ensures
        s@ == price_text_of(rate as int),
{
    let mut out: Vec<char> = Vec::new();
    push_str(&mut out, "$");
    let w: u64 = ((rate as u128 + (RATE_UNITS / 2) as u128) / (RATE_UNITS as u128)) as u64;
    push_decimal(w, &mut out);
    assert(out@ =~= price_text_of(rate as int));
    string_of(&out)
}

/// How much the process logs.
#[derive(Debug)]
pub enum LogLevel {
    Trace,
    Debug,
    Info,
    Warn,
    Error,
}

/// Reads a log level name; `None` for any other text.
pub fn parse_filter(log_level: &str) -> (r: Option<LogLevel>)
    ensures
        log_level@ == "trace"@ <==> r matches Some(LogLevel::Trace),
        log_level@ == "debug"@ <==> r matches Some(LogLevel::Debug),
        log_level@ == "info"@ <==> r matches Some(LogLevel::Info),
        log_level@ == "warn"@ <==> r matches Some(LogLevel::Warn),
        log_level@ == "error"@ <==> r matches Some(LogLevel::Error),
{
    proof {
        reveal_strlit("trace");
        reveal_strlit("debug");
        reveal_strlit("info");
        reveal_strlit("warn");
        reveal_strlit("error");
        assert("trace"@[0] != "debug"@[0] && "trace"@[0] != "error"@[0]);
        assert("debug"@[0] != "error"@[0] && "info"@[0] != "warn"@[0]);
    }
    let c = chars_of(log_level);
    if same_text(&c, "trace") {
        Some(LogLevel::Trace)
    } else if same_text(&c, "debug") {
        Some(LogLevel::Debug)
    } else if same_text(&c, "info") {
        Some(LogLevel::Info)
    } else if same_text(&c, "warn") {
        Some(LogLevel::Warn)
    } else if same_text(&c, "error") {
        Some(LogLevel::Error)
    } else {
        None
    }
}

fn same_text(a: &Vec<char>, b: &str) -> (r: bool)
    ensures
        r == (a@ == b@),
{
    let c = chars_of(b);
    if a.len() != c.len() {
        return false;
    }
    let mut i: usize = 0;
    while i < a.len()
        invariant
            a@.len() == c@.len(),
            c@ == b@,
            i <= a@.len(),
            forall|k: int| 0 <= k < i ==> a@[k] == c@[k],
        decreases a@.len() - i,
    {
        if a[i] != c[i] {
            return false;
        }
        i = i + 1;
    }
    assert(a@ =~= c@);
    true
}

} // verus!
