//! The open transactions of a manager, in a `DashMap`.
//!
//! A `DashMap` can be changed through a shared reference. Here it is changed
//! through an exclusive one only, so what it holds is a function of its value.

use dashmap::mapref::one::RefMut;
use dashmap::DashMap;
use vstd::prelude::*;

use crate::tx::{DBTx, TxState};

verus! {

/// The open transactions, by context id.
pub type Contexts = Map<Seq<char>, (DBTx, TxState)>;

#[verifier::external_type_specification]
#[verifier::external_body]
#[verifier::reject_recursive_types(K)]
#[verifier::reject_recursive_types(V)]
#[verifier::reject_recursive_types(S)]
pub struct ExDashMap<K, V, S>(DashMap<K, V, S>);

#[verifier::external_type_specification]
#[verifier::external_body]
#[verifier::reject_recursive_types(K)]
#[verifier::reject_recursive_types(V)]
#[verifier::reject_recursive_types(S)]
pub struct ExRefMut<'a, K, V, S>(RefMut<'a, K, V, S>);

/// What a `DashMap` of open transactions holds: the entry under each context id.
pub uninterp spec fn entries(map: DashMap<String, (DBTx, TxState)>) -> Contexts;

/// The entry that a `RefMut` into such a map gives access to, as it is now: its
/// context id and its value.
pub uninterp spec fn held(
    guard: RefMut<'_, String, (DBTx, TxState)>,
) -> (Seq<char>, (DBTx, TxState));

/// The value that a `RefMut` into such a map leaves behind when it goes away.
pub uninterp spec fn settles(guard: RefMut<'_, String, (DBTx, TxState)>) -> (DBTx, TxState);

/// `DashMap::new`: the new map is empty.
#[verifier::external_body]
pub(crate) fn new_map() -> (made: DashMap<String, (DBTx, TxState)>)
    ensures
        entries(made) == Contexts::empty(),
{
    DashMap::new()
}

/// `DashMap::insert`: afterwards `value` stands under `key`, all else is as it
/// was, and what stood there before is handed out.
#[verifier::external_body]
pub(crate) fn insert(
    map: &mut DashMap<String, (DBTx, TxState)>,
    key: String,
    value: (DBTx, TxState),
) -> (old_value: Option<(DBTx, TxState)>)
    ensures
        entries(*final(map)) == entries(*old(map)).insert(key@, value),
        old_value == (if entries(*old(map)).contains_key(key@) {
            Some(entries(*old(map))[key@])
        } else {
            None
        }),
{
    map.insert(key, value)
}

/// `DashMap::remove`: the entry under `key` leaves the map and is handed out,
/// the key with it; where there is none the map stays as it was.
#[verifier::external_body]
pub(crate) fn remove(map: &mut DashMap<String, (DBTx, TxState)>, key: &str) -> (entry: Option<
    (String, (DBTx, TxState)),
>)
    ensures
        entries(*final(map)) == entries(*old(map)).remove(key@),
        entry is Some <==> entries(*old(map)).contains_key(key@),
        entry matches Some(e) ==> e.0@ == key@ && e.1 == entries(*old(map))[key@],
{
    map.remove(key)
}

/// `DashMap::get_mut`: access to the entry under `key`, if there is one. What
/// the guard leaves behind is what the map then holds under `key`, and all else is
/// as it was; a guard that nothing is written through leaves the entry as it was.
/// A guard that is leaked keeps its part of the map locked for good, and later
/// calls wait for it.
#[verifier::external_body]
pub(crate) fn get_mut<'a>(
    map: &'a mut DashMap<String, (DBTx, TxState)>,
    key: &str,
) -> (guard: Option<RefMut<'a, String, (DBTx, TxState)>>)
    ensures
        guard is Some <==> entries(*old(map)).contains_key(key@),
        guard matches Some(g) ==> held(g) == (key@, entries(*old(map))[key@]),
        guard matches Some(g) ==> entries(*final(map)) == entries(*old(map)).insert(
            key@,
            settles(g),
        ),
        guard matches Some(g) ==> has_resolved(g) ==> settles(g) == entries(*old(map))[key@],
        guard is None ==> entries(*final(map)) == entries(*old(map)),
{
    map.get_mut(key)
}

/// `RefMut::value_mut`: the value of the entry that `guard` gives access to. What
/// is written there is what the entry holds from then on, under the same key, and
/// what the guard leaves behind where nothing is written after that.
#[verifier::external_body]
pub(crate) fn value_mut<'g, 'a>(
    guard: &'g mut RefMut<'a, String, (DBTx, TxState)>,
) -> (value: &'g mut (DBTx, TxState))
    ensures
        *value == held(*old(guard)).1,
        held(*final(guard)) == (held(*old(guard)).0, *final(value)),
        settles(*final(guard)) == settles(*old(guard)),
        has_resolved(*final(guard)) ==> settles(*final(guard)) == *final(value),
{
    guard.value_mut()
}

/// `DashMap::iter`: every entry once, in no particular order.
#[verifier::external_body]
pub(crate) fn listed(map: &DashMap<String, (DBTx, TxState)>) -> (list: Vec<
    (String, (DBTx, TxState)),
>)
    ensures
        forall|i: int, j: int| 0 <= i < j < list@.len() ==> list@[i].0@ != list@[j].0@,
        forall|i: int|
            0 <= i < list@.len() ==> entries(*map).contains_key((#[trigger] list@[i]).0@)
                && entries(*map)[list@[i].0@] == list@[i].1,
        forall|key: Seq<char>| #[trigger]
            entries(*map).contains_key(key) ==> exists|i: int|
                0 <= i < list@.len() && (#[trigger] list@[i]).0@ == key,
{
    map.iter().map(|entry| (entry.key().clone(), *entry.value())).collect()
}

/// `DashMap::shrink_to_fit`: gives spare memory back and keeps every entry.
#[verifier::external_body]
pub(crate) fn shrink_to_fit(map: &mut DashMap<String, (DBTx, TxState)>)
    ensures
        entries(*final(map)) == entries(*old(map)),
{
    map.shrink_to_fit()
}

} // verus!
