//! The transaction history: an `indexmap::IndexMap` from transaction id to
//! the record kept for it, in the order in which ids were first inserted.
use crate::transaction::TransactionState;
use indexmap::IndexMap;
use vstd::prelude::*;

verus! {

/// `indexmap::IndexMap`, carried as an opaque value: what it holds is known
/// only through `history_entries`.
#[verifier::external_type_specification]
#[verifier::external_body]
#[verifier::reject_recursive_types(K)]
#[verifier::reject_recursive_types(V)]
#[verifier::reject_recursive_types(S)]
pub struct ExIndexMap<K, V, S>(IndexMap<K, V, S>);

/// The key-value pairs that a history holds, in insertion order.
pub uninterp spec fn history_entries(history: IndexMap<u32, TransactionState>) -> Seq<
    (u32, TransactionState),
>;

/// `IndexMap::new`. Not proved: that a new map holds nothing.
#[verifier::external_body]
pub(crate) fn history_new() -> (r: IndexMap<u32, TransactionState>)
    ensures
        history_entries(r) == Seq::<(u32, TransactionState)>::empty(),
{
    IndexMap::new()
}

/// `IndexMap::insert`. Not proved: that a key already present keeps its
/// place and only has its value replaced, and that a new key is added with
/// its value as the last entry.
#[verifier::external_body]
pub(crate) fn history_insert(
    history: &mut IndexMap<u32, TransactionState>,
    key: u32,
    value: TransactionState,
)
    ensures
        forall|i: int|
            0 <= i < history_entries(*old(history)).len() && (#[trigger] history_entries(
                *old(history),
            )[i]).0 == key ==> history_entries(*final(history)) == history_entries(
                *old(history),
            ).update(i, (key, value)),
        (forall|i: int|
            0 <= i < history_entries(*old(history)).len() ==> (#[trigger] history_entries(
                *old(history),
            )[i]).0 != key) ==> history_entries(*final(history)) == history_entries(
            *old(history),
        ).push((key, value)),
{
    history.insert(key, value);
}

/// `IndexMap::get`, handing out a copy of the value. Not proved: that the
/// value returned is the one stored under `key`, and that `None` means no
/// entry has that key.
#[verifier::external_body]
pub(crate) fn history_get(history: &IndexMap<u32, TransactionState>, key: u32) -> (r: Option<
    TransactionState,
>)
    ensures
        match r {
            Some(value) => exists|i: int|
                0 <= i < history_entries(*history).len() && #[trigger] history_entries(
                    *history,
                )[i] == (key, value),
            None => forall|i: int|
                0 <= i < history_entries(*history).len() ==> (#[trigger] history_entries(
                    *history,
                )[i]).0 != key,
        },
{
    history.get(&key).copied()
}

/// `IndexMap::last`, handing out the key alone. Not proved: that it is the
/// key of the entry that comes last in insertion order, and `None` exactly
/// for an empty map.
#[verifier::external_body]
pub(crate) fn history_last_key(history: &IndexMap<u32, TransactionState>) -> (r: Option<u32>)
    ensures
        r == (if history_entries(*history).len() == 0 {
            None::<u32>
        } else {
            Some(history_entries(*history).last().0)
        }),
{
    history.last().map(|(key, _)| *key)
}

} // verus!
