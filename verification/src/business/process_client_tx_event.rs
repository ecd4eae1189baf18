use vstd::prelude::*;

use crate::business::store::Store;
use crate::model::tx_state::{is_lifecycle, replay, replay_emits_a_lifecycle};
use crate::model::{
    ClientID, ClientTxEvent, ClientTxStateEvent, TxEvent, TxID, TxState, TxStateEvent,
};

verus! {

/// The state of transaction `key` in `entries`: what is stored there, or the
/// state of a transaction that no event has reached.
pub open spec fn tx_state_at(entries: Map<(ClientID, TxID), TxState>, key: (ClientID, TxID)) -> TxState {
    if entries.dom().contains(key) {
        entries[key]
    } else {
        TxState::Uninitialized
    }
}

/// What the transaction layer does with one event, given the store before it:
/// the store after it, and either the state event to forward or the event it
/// refuses. The refused event's transaction keeps (and is given, if it had
/// none) its state.
pub open spec fn tx_layer_step(
    entries: Map<(ClientID, TxID), TxState>,
    event: ClientTxEvent,
) -> (Map<(ClientID, TxID), TxState>, Result<ClientTxStateEvent, ClientTxEvent>) {
    let key = (event.client_id, event.tx_id);
    let prior = tx_state_at(entries, key);
    match prior.transition(event.tx_event) {
        Some((next, out)) => (
            entries.insert(key, next),
            Ok(ClientTxStateEvent { client_id: event.client_id, tx_id: event.tx_id, tx_state_event: out }),
        ),
        None => (entries.insert(key, prior), Err(event)),
    }
}

/// Runs one event through the transaction layer: looks up the state of its
/// transaction, applies the event, stores the resulting state, and returns
/// the state event to forward or the refused event.
pub fn process_client_tx_event<T: Store<(ClientID, TxID), TxState>>(
    store: &mut T,
    event: ClientTxEvent,
) -> (r: Result<ClientTxStateEvent, ClientTxEvent>)
    ensures
        (final(store).entries(), r) == tx_layer_step(old(store).entries(), event),
{
    let ClientTxEvent { client_id, tx_id, tx_event } = event;
    let key = (client_id, tx_id);
    let state = match store.remove(&key) {
        Some(state) => state,
        None => TxState::new(),
    };
    match state.apply(tx_event) {
        Ok((new_state, new_event)) => {
            store.insert(key, new_state);
            Ok(ClientTxStateEvent { client_id, tx_id, tx_state_event: new_event })
        },
        Err((unchanged_state, unprocessed_event)) => {
            store.insert(key, unchanged_state);
            Err(ClientTxEvent { client_id, tx_id, tx_event: unprocessed_event })
        },
    }
}

/// One step of the transaction layer touches only the event's transaction:
/// every other transaction keeps its state; a forwarded state event keeps
/// the event's client and transaction ids; a refused event is handed back as
/// it came and its transaction keeps its state.
pub proof fn tx_layer_step_is_local(
    entries: Map<(ClientID, TxID), TxState>,
    event: ClientTxEvent,
    other: (ClientID, TxID),
)
    requires
        other != (event.client_id, event.tx_id),
    ensures
        tx_state_at(tx_layer_step(entries, event).0, other) == tx_state_at(entries, other),
        tx_layer_step(entries, event).1 matches Ok(out) ==> out.client_id == event.client_id
            && out.tx_id == event.tx_id,
        tx_layer_step(entries, event).1 is Err ==> tx_layer_step(entries, event).1
            == Err::<ClientTxStateEvent, ClientTxEvent>(event) && tx_state_at(
            tx_layer_step(entries, event).0,
            (event.client_id, event.tx_id),
        ) == tx_state_at(entries, (event.client_id, event.tx_id)),
{
}

/// What the transaction layer holds and forwards after `events` reach it in
/// order, one `process_client_tx_event` call each.
pub open spec fn tx_layer_run(
    entries: Map<(ClientID, TxID), TxState>,
    events: Seq<ClientTxEvent>,
) -> (Map<(ClientID, TxID), TxState>, Seq<ClientTxStateEvent>)
    decreases events.len(),
{
    if events.len() == 0 {
        (entries, Seq::empty())
    } else {
        let (held, forwarded) = tx_layer_run(entries, events.drop_last());
        let (next, r) = tx_layer_step(held, events.last());
        match r {
            Ok(out) => (next, forwarded.push(out)),
            Err(_) => (next, forwarded),
        }
    }
}

/// The events of `events` addressed to transaction `key`, in order.
pub open spec fn tx_events_for(events: Seq<ClientTxEvent>, key: (ClientID, TxID)) -> Seq<TxEvent>
    decreases events.len(),
{
    if events.len() == 0 {
        Seq::empty()
    } else {
        let rest = tx_events_for(events.drop_last(), key);
        let e = events.last();
        if (e.client_id, e.tx_id) == key {
            rest.push(e.tx_event)
        } else {
            rest
        }
    }
}

/// The state events of `out` addressed to transaction `key`, in order.
pub open spec fn state_events_for(out: Seq<ClientTxStateEvent>, key: (ClientID, TxID)) -> Seq<
    TxStateEvent,
>
    decreases out.len(),
{
    if out.len() == 0 {
        Seq::empty()
    } else {
        let rest = state_events_for(out.drop_last(), key);
        let e = out.last();
        if (e.client_id, e.tx_id) == key {
            rest.push(e.tx_state_event)
        } else {
            rest
        }
    }
}

/// Each transaction evolves on its own: after any run of the layer, the
/// state of transaction `key` and the state events forwarded for it are those
/// of replaying, from its state before the run, just the events addressed to
/// it. This is what lets the layer be sharded by transaction.
pub proof fn tx_layer_is_per_transaction(
    entries: Map<(ClientID, TxID), TxState>,
    events: Seq<ClientTxEvent>,
    key: (ClientID, TxID),
)
    ensures
        tx_state_at(tx_layer_run(entries, events).0, key) == replay(
            tx_state_at(entries, key),
            tx_events_for(events, key),
        ).0,
        state_events_for(tx_layer_run(entries, events).1, key) == replay(
            tx_state_at(entries, key),
            tx_events_for(events, key),
        ).1,
    decreases events.len(),
{
    if events.len() > 0 {
        tx_layer_is_per_transaction(entries, events.drop_last(), key);
        let (held, forwarded) = tx_layer_run(entries, events.drop_last());
        let e = events.last();
        let ek = (e.client_id, e.tx_id);
        let (next, r) = tx_layer_step(held, e);
        let evs = tx_events_for(events.drop_last(), key);
        let (mid, emitted) = replay(tx_state_at(entries, key), evs);
        if ek == key {
            let longer = evs.push(e.tx_event);
            assert(tx_events_for(events, key) == longer);
            assert(longer.drop_last() =~= evs);
            assert(longer.last() == e.tx_event);
            assert(tx_state_at(held, key) == mid);
            match mid.transition(e.tx_event) {
                Some((after, out)) => {
                    let fwd = ClientTxStateEvent {
                        client_id: e.client_id,
                        tx_id: e.tx_id,
                        tx_state_event: out,
                    };
                    assert(r == Ok::<ClientTxStateEvent, ClientTxEvent>(fwd));
                    assert(forwarded.push(fwd).drop_last() =~= forwarded);
                    assert(tx_state_at(next, key) == after);
                },
                None => {
                    assert(tx_state_at(next, key) == mid);
                },
            }
        } else {
            assert(tx_events_for(events, key) == evs);
            assert(tx_state_at(next, key) == tx_state_at(held, key));
            match r {
                Ok(out) => {
                    assert(forwarded.push(out).drop_last() =~= forwarded);
                    assert(forwarded.push(out).last() == out);
                    assert((out.client_id, out.tx_id) == ek);
                },
                Err(_) => {},
            }
        }
    }
}

/// Whatever events reach a layer that starts empty, the state events it
/// forwards for any one transaction form a prefix of one lifecycle: a
/// withdrawal, or a deposit followed at most by one dispute and then one
/// resolve or chargeback, all of the deposit's amount.
pub proof fn tx_layer_forwards_lifecycles(events: Seq<ClientTxEvent>, key: (ClientID, TxID))
    ensures
        is_lifecycle(state_events_for(tx_layer_run(Map::empty(), events).1, key)),
{
    tx_layer_is_per_transaction(Map::empty(), events, key);
    replay_emits_a_lifecycle(tx_events_for(events, key));
}

} // verus!
