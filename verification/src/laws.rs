//! The laws the dispatcher obeys, stated over the spec-level semantics
//! ([`store_after`], [`reply_of`]) and proved once and for all.

use crate::base_logic::reply_of;
use crate::base_logic::store_after;
use crate::resp::RespData;
use crate::resp::RespDataView;
use crate::store::Command;
use vstd::prelude::*;

verus! {

/// A `Put` replies `Okay`, a `Get` of the same key then returns exactly the
/// value that was put, and the store has grown by at most one key.
pub proof fn lemma_set_then_get(m: Map<Seq<char>, RespDataView>, key: String, v: RespData)
    requires
        m.dom().finite(),
    ensures
        reply_of(m, Command::Put(key, v)) == RespDataView::Okay,
        reply_of(store_after(m, Command::Put(key, v)), Command::Get(key)) == v@,
        store_after(m, Command::Put(key, v)).len() <= m.len() + 1,
{
    vstd::set::axiom_set_insert_len(m.dom(), key@);
}

/// Overwriting a key with a second `Put` leaves the store's size unchanged,
/// and a `Get` then returns the second value.
pub proof fn lemma_set_overwrites(
    m: Map<Seq<char>, RespDataView>,
    key: String,
    v1: RespData,
    v2: RespData,
)
    ensures
        store_after(store_after(m, Command::Put(key, v1)), Command::Put(key, v2)).len()
            == store_after(m, Command::Put(key, v1)).len(),
        reply_of(
            store_after(store_after(m, Command::Put(key, v1)), Command::Put(key, v2)),
            Command::Get(key),
        ) == v2@,
{
    assert(store_after(store_after(m, Command::Put(key, v1)), Command::Put(key, v2)).dom()
        =~= store_after(m, Command::Put(key, v1)).dom());
}

/// A `Get` of an absent key replies the `(nil)` error and leaves the store
/// exactly as it was.
pub proof fn lemma_get_absent(m: Map<Seq<char>, RespDataView>, key: String)
    requires
        !m.contains_key(key@),
    ensures
        reply_of(m, Command::Get(key)) == RespDataView::Error("(nil)"@),
        store_after(m, Command::Get(key)) == m,
{
}

/// `FlushAll` replies `Okay` and leaves a store of size zero in which every
/// key, whatever was put before, is absent.
pub proof fn lemma_flushall(m: Map<Seq<char>, RespDataView>)
    ensures
        reply_of(m, Command::FlushAll) == RespDataView::Okay,
        store_after(m, Command::FlushAll).len() == 0,
        forall|k: Seq<char>| !store_after(m, Command::FlushAll).contains_key(k),
{
    assert(store_after(m, Command::FlushAll).dom() =~= Set::<Seq<char>>::empty());
}

/// `Incr` on an absent key seeds the counter with `1` (whatever operand was
/// given is not applied to the seed); repeating it counts `2`, and an
/// explicit operand of `10` then counts to `12`, each reply being exactly
/// the integer left in the store.
pub proof fn lemma_incr_counts(m: Map<Seq<char>, RespDataView>, key: String, by: Option<i64>)
    requires
        !m.contains_key(key@),
    ensures
        reply_of(m, Command::Incr(key, by)) == RespDataView::Number(1),
        store_after(m, Command::Incr(key, by))[key@] == RespDataView::Number(1),
        reply_of(store_after(m, Command::Incr(key, by)), Command::Incr(key, None))
            == RespDataView::Number(2),
        store_after(store_after(m, Command::Incr(key, by)), Command::Incr(key, None))[key@]
            == RespDataView::Number(2),
        reply_of(
            store_after(store_after(m, Command::Incr(key, by)), Command::Incr(key, None)),
            Command::Incr(key, Some(10i64)),
        ) == RespDataView::Number(12),
        store_after(
            store_after(store_after(m, Command::Incr(key, by)), Command::Incr(key, None)),
            Command::Incr(key, Some(10i64)),
        )[key@] == RespDataView::Number(12),
{
}

/// `Decr` is symmetric to `Incr`: an absent key is seeded with `-1`, a
/// repeat counts `-2`, and an explicit operand of `10` then counts to `-12`.
pub proof fn lemma_decr_counts(m: Map<Seq<char>, RespDataView>, key: String, by: Option<i64>)
    requires
        !m.contains_key(key@),
    ensures
        reply_of(m, Command::Decr(key, by)) == RespDataView::Number(-1),
        store_after(m, Command::Decr(key, by))[key@] == RespDataView::Number(-1),
        reply_of(store_after(m, Command::Decr(key, by)), Command::Decr(key, None))
            == RespDataView::Number(-2),
        store_after(store_after(m, Command::Decr(key, by)), Command::Decr(key, None))[key@]
            == RespDataView::Number(-2),
        reply_of(
            store_after(store_after(m, Command::Decr(key, by)), Command::Decr(key, None)),
            Command::Decr(key, Some(10i64)),
        ) == RespDataView::Number(-12),
        store_after(
            store_after(store_after(m, Command::Decr(key, by)), Command::Decr(key, None)),
            Command::Decr(key, Some(10i64)),
        )[key@] == RespDataView::Number(-12),
{
}

/// `Incr` and `Decr` against a key holding anything but an integer reply
/// the `NaN` error and leave the store, the targeted value included,
/// exactly as it was.
pub proof fn lemma_incr_decr_non_number(
    m: Map<Seq<char>, RespDataView>,
    key: String,
    by: Option<i64>,
)
    requires
        m.contains_key(key@),
        !(m[key@] is Number),
    ensures
        reply_of(m, Command::Incr(key, by)) == RespDataView::Error("NaN"@),
        store_after(m, Command::Incr(key, by)) == m,
        reply_of(m, Command::Decr(key, by)) == RespDataView::Error("NaN"@),
        store_after(m, Command::Decr(key, by)) == m,
{
}

/// The store left behind by a whole sequence of commands, executed one at a
/// time in order — exactly how the core actor drains its inbox.
pub open spec fn store_after_all(m: Map<Seq<char>, RespDataView>, cmds: Seq<Command>) -> Map<
    Seq<char>,
    RespDataView,
>
    decreases cmds.len(),
{
    if cmds.len() == 0 {
        m
    } else {
        store_after_all(store_after(m, cmds[0]), cmds.drop_first())
    }
}

/// True when `cmd` can write the entry at key `k`: a `Put`, `Incr` or
/// `Decr` addressed to `k`, or a `FlushAll`, which drops every entry.
pub open spec fn writes_key(cmd: Command, k: Seq<char>) -> bool {
    match cmd {
        Command::Put(key, _) => key@ == k,
        Command::Get(_) => false,
        Command::FlushAll => true,
        Command::Incr(key, _) => key@ == k,
        Command::Decr(key, _) => key@ == k,
        Command::Unknown => false,
    }
}

/// An entry survives, unchanged, any sequence of commands none of which
/// writes its key.
pub proof fn lemma_untouched_key_survives(
    m: Map<Seq<char>, RespDataView>,
    cmds: Seq<Command>,
    k: Seq<char>,
)
    requires
        m.contains_key(k),
        forall|j: int| 0 <= j < cmds.len() ==> !writes_key(#[trigger] cmds[j], k),
    ensures
        store_after_all(m, cmds).contains_key(k),
        store_after_all(m, cmds)[k] == m[k],
    decreases cmds.len(),
{
    if cmds.len() > 0 {
        let m1 = store_after(m, cmds[0]);
        assert(m1.contains_key(k) && m1[k] == m[k]);
        assert forall|j: int|
            0 <= j < cmds.drop_first().len() implies !writes_key(
            #[trigger] cmds.drop_first()[j],
            k,
        ) by {
            assert(cmds.drop_first()[j] == cmds[j + 1]);
        }
        lemma_untouched_key_survives(m1, cmds.drop_first(), k);
    }
}

/// No lost updates under serialized execution: once a caller's `Put` has
/// executed, its own later `Get` returns the value it put, however many
/// commands from other callers ran in between, so long as none of them
/// wrote that key — which is how disjoint-key callers always find their own
/// writes.
pub proof fn lemma_no_lost_update(
    m: Map<Seq<char>, RespDataView>,
    key: String,
    v: RespData,
    between: Seq<Command>,
    reader: String,
)
    requires
        reader@ == key@,
        forall|j: int| 0 <= j < between.len() ==> !writes_key(#[trigger] between[j], key@),
    ensures
        reply_of(
            store_after_all(store_after(m, Command::Put(key, v)), between),
            Command::Get(reader),
        ) == v@,
{
    let m1 = store_after(m, Command::Put(key, v));
    lemma_untouched_key_survives(m1, between, key@);
}

} // verus!
