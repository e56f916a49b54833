//! The dispatcher: the command-execution semantics of the store.
//!
//! `core_logic` is the one place the store is ever read or written. The core
//! actor owns the store and calls `core_logic` for one command at a time, so
//! every command executes atomically with respect to all others.

use crate::resp::RespData;
use crate::resp::RespDataView;
use crate::store::Command;
use crate::store::CoreState;
use vstd::prelude::*;

verus! {

/// The amount an `Incr`/`Decr` applies to an existing counter: the operand
/// if one was given, else `1`.
pub open spec fn delta_of(by: Option<i64>) -> int {
    match by {
        Some(b) => b as int,
        None => 1,
    }
}

/// The reply to `Incr(k, by)` against store `m`: a fresh key is seeded with
/// `1` (the operand is deliberately not applied to the seed), an existing
/// integer is incremented by the operand (default `1`), and anything else
/// is a `NaN` error.
pub open spec fn incr_reply(m: Map<Seq<char>, RespDataView>, k: Seq<char>, by: Option<i64>) -> RespDataView {
    if !m.contains_key(k) {
        RespDataView::Number(1)
    } else {
        match m[k] {
            RespDataView::Number(n) => RespDataView::Number(n + delta_of(by)),
            _ => RespDataView::Error("NaN"@),
        }
    }
}

/// The reply to `Decr(k, by)`: symmetric to [`incr_reply`], seeding with
/// `-1` and subtracting the operand.
pub open spec fn decr_reply(m: Map<Seq<char>, RespDataView>, k: Seq<char>, by: Option<i64>) -> RespDataView {
    if !m.contains_key(k) {
        RespDataView::Number(-1)
    } else {
        match m[k] {
            RespDataView::Number(n) => RespDataView::Number(n - delta_of(by)),
            _ => RespDataView::Error("NaN"@),
        }
    }
}

/// The value every command replies with, as a function of the store it runs
/// against. This is the complete reply semantics of the dispatcher.
pub open spec fn reply_of(m: Map<Seq<char>, RespDataView>, cmd: Command) -> RespDataView {
    match cmd {
        Command::Put(_, _) => RespDataView::Okay,
        Command::Get(k) => if m.contains_key(k@) {
            m[k@]
        } else {
            RespDataView::Error("(nil)"@)
        },
        Command::FlushAll => RespDataView::Okay,
        Command::Incr(k, by) => incr_reply(m, k@, by),
        Command::Decr(k, by) => decr_reply(m, k@, by),
        Command::Unknown => RespDataView::Error("Unknown core cmd"@),
    }
}

/// The store every command leaves behind. `Get`, `Unknown` and a failed
/// `Incr`/`Decr` leave the store untouched; a successful `Incr`/`Decr`
/// stores exactly the integer it replies with.
pub open spec fn store_after(m: Map<Seq<char>, RespDataView>, cmd: Command) -> Map<
    Seq<char>,
    RespDataView,
> {
    match cmd {
        Command::Put(k, v) => m.insert(k@, v@),
        Command::Get(_) => m,
        Command::FlushAll => Map::<Seq<char>, RespDataView>::empty(),
        Command::Incr(k, by) => match incr_reply(m, k@, by) {
            RespDataView::Number(n) => m.insert(k@, RespDataView::Number(n)),
            _ => m,
        },
        Command::Decr(k, by) => match decr_reply(m, k@, by) {
            RespDataView::Number(n) => m.insert(k@, RespDataView::Number(n)),
            _ => m,
        },
        Command::Unknown => m,
    }
}

/// True when executing `cmd` against `m` stays within `i64`: the one machine
/// limit the dispatcher is subject to. Only an `Incr`/`Decr` whose target
/// holds an integer does arithmetic at all.
pub open spec fn dispatch_in_range(m: Map<Seq<char>, RespDataView>, cmd: Command) -> bool {
    match cmd {
        Command::Incr(k, by) => m.contains_key(k@) ==> match m[k@] {
            RespDataView::Number(n) => i64::MIN <= n + delta_of(by) <= i64::MAX,
            _ => true,
        },
        Command::Decr(k, by) => m.contains_key(k@) ==> match m[k@] {
            RespDataView::Number(n) => i64::MIN <= n - delta_of(by) <= i64::MAX,
            _ => true,
        },
        _ => true,
    }
}

/// Executes one command against the store and returns the reply, exactly as
/// [`store_after`] and [`reply_of`] describe. Every outcome, including every
/// error, is an ordinary returned value.
pub fn core_logic(state: &mut CoreState, cmd: Command) -> (response: RespData)
    requires
        dispatch_in_range(old(state)@, cmd),
    ensures
        final(state)@ == store_after(old(state)@, cmd),
        response@ == reply_of(old(state)@, cmd),
{
    match cmd {
        Command::Put(key, value) => {
            state.insert(key, value);
            RespData::ok()
        },
        Command::Get(key) => {
            match state.get(key.as_str()) {
                Some(v) => v.clone(),
                None => RespData::Error("(nil)".to_string()),
            }
        },
        Command::FlushAll => {
            state.clear();
            RespData::ok()
        },
        Command::Incr(key, maybe_by) => {
            let prev_num: Option<i64>;
            let prev_other: bool;
            match state.get(key.as_str()) {
                Some(RespData::Number(n)) => {
                    prev_num = Some(*n);
                    prev_other = false;
                },
                Some(_) => {
                    prev_num = None;
                    prev_other = true;
                },
                None => {
                    prev_num = None;
                    prev_other = false;
                },
            }
            if prev_other {
                RespData::Error("NaN".to_string())
            } else {
                let new_val: i64 = match prev_num {
                    Some(n) => n + maybe_by.unwrap_or(1),
                    None => 1,
                };
                state.insert(key, RespData::Number(new_val));
                RespData::Number(new_val)
            }
        },
        Command::Decr(key, maybe_by) => {
            let prev_num: Option<i64>;
            let prev_other: bool;
            match state.get(key.as_str()) {
                Some(RespData::Number(n)) => {
                    prev_num = Some(*n);
                    prev_other = false;
                },
                Some(_) => {
                    prev_num = None;
                    prev_other = true;
                },
                None => {
                    prev_num = None;
                    prev_other = false;
                },
            }
            if prev_other {
                RespData::Error("NaN".to_string())
            } else {
                let new_val: i64 = match prev_num {
                    Some(n) => n - maybe_by.unwrap_or(1),
                    None => -1,
                };
                state.insert(key, RespData::Number(new_val));
                RespData::Number(new_val)
            }
        },
        Command::Unknown => RespData::Error("Unknown core cmd".to_string()),
    }
}

/// Decides, without mutating anything, whether `cmd` can be dispatched
/// against `state` within `i64`. A caller that cannot otherwise establish
/// [`dispatch_in_range`] tests this before calling [`core_logic`].
pub fn dispatch_fits(state: &CoreState, cmd: &Command) -> (b: bool)
    ensures
        b == dispatch_in_range(state@, *cmd),
{
    match cmd {
        Command::Incr(key, maybe_by) => {
            match state.get(key.as_str()) {
                Some(RespData::Number(n)) => {
                    let delta: i64 = match maybe_by {
                        Some(b) => *b,
                        None => 1,
                    };
                    n.checked_add(delta).is_some()
                },
                _ => true,
            }
        },
        Command::Decr(key, maybe_by) => {
            match state.get(key.as_str()) {
                Some(RespData::Number(n)) => {
                    let delta: i64 = match maybe_by {
                        Some(b) => *b,
                        None => 1,
                    };
                    n.checked_sub(delta).is_some()
                },
                _ => true,
            }
        },
        _ => true,
    }
}

} // verus!
