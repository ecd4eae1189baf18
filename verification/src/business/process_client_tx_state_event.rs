use vstd::prelude::*;

use crate::business::store::Store;
use crate::model::account::account_replay;
use crate::model::{Account, ClientID, ClientTxStateEvent, TxStateEvent};

verus! {

/// The account of `client` in `entries`: what is stored there, or a new
/// account.
pub open spec fn account_at(entries: Map<ClientID, Account>, client: ClientID) -> Account {
    if entries.dom().contains(client) {
        entries[client]
    } else {
        Account::initial()
    }
}

/// What the account layer does with one state event, given the store before
/// it: the store after it, and whether the account took the event. A refused
/// event's client keeps (and is given, if it had none) its account.
pub open spec fn account_layer_step(
    entries: Map<ClientID, Account>,
    event: ClientTxStateEvent,
) -> (Map<ClientID, Account>, Result<(), ClientTxStateEvent>) {
    let prior = account_at(entries, event.client_id);
    if prior.accepts(event.tx_state_event) {
        (entries.insert(event.client_id, prior.applied(event.tx_state_event)), Ok(()))
    } else {
        (entries.insert(event.client_id, prior), Err(event))
    }
}

/// Runs one state event through the account layer: looks up the client's
/// account, applies the event, stores the resulting account, and reports
/// whether the account took the event.
pub fn process_client_tx_state_event<T: Store<ClientID, Account>>(
    store: &mut T,
    event: ClientTxStateEvent,
) -> (r: Result<(), ClientTxStateEvent>)
    requires
        account_at(old(store).entries(), event.client_id).can_apply(event.tx_state_event),
    ensures
        (final(store).entries(), r) == account_layer_step(old(store).entries(), event),
{
    let ClientTxStateEvent { client_id, tx_id, tx_state_event } = event;
    let key = client_id;
    let account = match store.remove(&key) {
        Some(account) => account,
        None => Account::new(),
    };
    match account.apply(tx_state_event) {
        Ok(new_account) => {
            store.insert(key, new_account);
            Ok(())
        },
        Err((unchanged_account, unprocessed_event)) => {
            store.insert(key, unchanged_account);
            Err(ClientTxStateEvent { client_id, tx_id, tx_state_event: unprocessed_event })
        },
    }
}

/// One step of the account layer touches only the event's client: every
/// other client keeps its account; a refused event is handed back as it came
/// and the client's account stays as it was.
pub proof fn account_layer_step_is_local(
    entries: Map<ClientID, Account>,
    event: ClientTxStateEvent,
    other: ClientID,
)
    requires
        other != event.client_id,
    ensures
        account_at(account_layer_step(entries, event).0, other) == account_at(entries, other),
        account_layer_step(entries, event).1 is Err ==> account_layer_step(entries, event).1
            == Err::<(), ClientTxStateEvent>(event) && account_at(
            account_layer_step(entries, event).0,
            event.client_id,
        ) == account_at(entries, event.client_id),
{
}

/// What the account layer holds after `events` reach it in order, one
/// `process_client_tx_state_event` call each.
pub open spec fn account_layer_run(entries: Map<ClientID, Account>, events: Seq<ClientTxStateEvent>) -> Map<
    ClientID,
    Account,
>
    decreases events.len(),
{
    if events.len() == 0 {
        entries
    } else {
        account_layer_step(account_layer_run(entries, events.drop_last()), events.last()).0
    }
}

/// The state events of `events` addressed to `client`, in order.
pub open spec fn state_events_of_client(events: Seq<ClientTxStateEvent>, client: ClientID) -> Seq<
    TxStateEvent,
>
    decreases events.len(),
{
    if events.len() == 0 {
        Seq::empty()
    } else {
        let rest = state_events_of_client(events.drop_last(), client);
        if events.last().client_id == client {
            rest.push(events.last().tx_state_event)
        } else {
            rest
        }
    }
}

/// Each account evolves on its own: after any run of the layer, the account
/// of `client` is its account before the run with just the events addressed
/// to it replayed. This is what lets the layer be sharded by client.
pub proof fn account_layer_is_per_client(
    entries: Map<ClientID, Account>,
    events: Seq<ClientTxStateEvent>,
    client: ClientID,
)
    ensures
        account_at(account_layer_run(entries, events), client) == account_replay(
            account_at(entries, client),
            state_events_of_client(events, client),
        ),
    decreases events.len(),
{
    if events.len() > 0 {
        account_layer_is_per_client(entries, events.drop_last(), client);
        let held = account_layer_run(entries, events.drop_last());
        let e = events.last();
        let evs = state_events_of_client(events.drop_last(), client);
        if e.client_id == client {
            let longer = evs.push(e.tx_state_event);
            assert(state_events_of_client(events, client) == longer);
            assert(longer.drop_last() =~= evs);
        } else {
            assert(state_events_of_client(events, client) == evs);
        }
    }
}

} // verus!
