use vstd::prelude::*;

use crate::business::process_client_tx_event::{
    state_events_for, tx_events_for, tx_layer_is_per_transaction, tx_layer_run, tx_state_at,
};
use crate::business::process_client_tx_state_event::{
    account_at, account_layer_is_per_client, account_layer_run, state_events_of_client,
};
use crate::model::{ClientID, ClientTxEvent, ClientTxStateEvent, TxID};

verus! {

/// Fans one stream of items out to several sinks: `selector` names, for
/// each item, the index of the sink that takes it.
#[derive(Clone)]
pub struct RouterSink<K, F> {
    sinks: Vec<K>,
    selector: F,
}

impl<K, F> RouterSink<K, F> {
    /// The sinks, in order.
    pub closed spec fn sinks_view(&self) -> Seq<K> {
        self.sinks@
    }

    /// The function that picks a sink for each item.
    pub closed spec fn selector_view(&self) -> F {
        self.selector
    }

    /// A router over `sinks` that sends each item where `selector` says.
    pub fn new(sinks: Vec<K>, selector: F) -> (r: Self)
        ensures
            r.sinks_view() == sinks@,
            r.selector_view() == selector,
    {
        RouterSink { sinks, selector }
    }

    /// The sinks, to poll or send to.
    pub fn sinks_mut(&mut self) -> (r: &mut Vec<K>)
        ensures
            r@ == old(self).sinks_view(),
            final(self).sinks_view() == final(r)@,
            final(self).selector_view() == old(self).selector_view(),
    {
        &mut self.sinks
    }

    /// The index of the sink that takes `item`, or `None` when the selector
    /// names no sink of this router.
    pub fn route<I>(&self, item: &I) -> (r: Option<usize>) where F: Fn(&I) -> usize
        requires
            self.selector_view().requires((item,)),
        ensures
            match r {
                Some(idx) => idx < self.sinks_view().len() && self.selector_view().ensures(
                    (item,),
                    idx,
                ),
                None => exists|idx: usize|
                    #![trigger self.selector_view().ensures((item,), idx)]
                    idx >= self.sinks_view().len() && self.selector_view().ensures((item,), idx),
            },
    {
        let idx = (self.selector)(item);
        if idx < self.sinks.len() {
            Some(idx)
        } else {
            None
        }
    }
}

/// The transaction-layer shard of an event: its transaction id modulo the
/// number of shards, so that every event of one transaction goes to the
/// same shard.
pub fn shard_by_tx(event: &ClientTxEvent, n_shards: usize) -> (r: usize)
    requires
        n_shards > 0,
    ensures
        r == event.tx_id as int % n_shards as int,
        r < n_shards,
{
    (event.tx_id as usize) % n_shards
}

/// The account-layer shard of a state event: its client id modulo the number
/// of shards, so that every event of one client goes to the same shard.
pub fn shard_by_client(event: &ClientTxStateEvent, n_shards: usize) -> (r: usize)
    requires
        n_shards > 0,
    ensures
        r == event.client_id as int % n_shards as int,
        r < n_shards,
{
    (event.client_id as usize) % n_shards
}

/// How many shards each layer runs, given the parallelism that the machine
/// reports (if it reports any): half of it, and at least one.
pub fn shard_count(available_parallelism: Option<usize>) -> (n: usize)
    ensures
        n >= 1,
        available_parallelism matches Some(p) ==> n == if p / 2 >= 1 {
            p / 2
        } else {
            1
        },
        available_parallelism is None ==> n == 1,
{
    match available_parallelism {
        Some(p) => {
            let half = p / 2;
            if half >= 1 {
                half
            } else {
                1
            }
        },
        None => 1,
    }
}

/// The events of `events` that `shard_by_tx` sends to shard `shard`, in order.
pub open spec fn tx_shard_events(events: Seq<ClientTxEvent>, n_shards: nat, shard: int) -> Seq<
    ClientTxEvent,
>
    decreases events.len(),
{
    if events.len() == 0 {
        Seq::empty()
    } else {
        let rest = tx_shard_events(events.drop_last(), n_shards, shard);
        if events.last().tx_id as int % n_shards as int == shard {
            rest.push(events.last())
        } else {
            rest
        }
    }
}

proof fn lemma_tx_shard_keeps_key_events(
    events: Seq<ClientTxEvent>,
    n_shards: nat,
    key: (ClientID, TxID),
)
    requires
        n_shards > 0,
    ensures
        tx_events_for(tx_shard_events(events, n_shards, key.1 as int % n_shards as int), key)
            == tx_events_for(events, key),
    decreases events.len(),
{
    if events.len() > 0 {
        let shard = key.1 as int % n_shards as int;
        lemma_tx_shard_keeps_key_events(events.drop_last(), n_shards, key);
        let rest = tx_shard_events(events.drop_last(), n_shards, shard);
        let e = events.last();
        if e.tx_id as int % n_shards as int == shard {
            assert(rest.push(e).drop_last() =~= rest);
        }
    }
}

/// Sharding the transaction layer by `shard_by_tx` changes nothing: the shard
/// that a transaction's events go to, fed only its own events, ends with the
/// same state for that transaction and forwards the same state events for it
/// as one layer fed every event.
pub proof fn tx_sharding_agrees(events: Seq<ClientTxEvent>, n_shards: nat, key: (ClientID, TxID))
    requires
        n_shards > 0,
    ensures
        ({
            let shard_events = tx_shard_events(events, n_shards, key.1 as int % n_shards as int);
            &&& tx_state_at(tx_layer_run(Map::empty(), shard_events).0, key) == tx_state_at(
                tx_layer_run(Map::empty(), events).0,
                key,
            )
            &&& state_events_for(tx_layer_run(Map::empty(), shard_events).1, key)
                == state_events_for(tx_layer_run(Map::empty(), events).1, key)
        }),
{
    let shard_events = tx_shard_events(events, n_shards, key.1 as int % n_shards as int);
    lemma_tx_shard_keeps_key_events(events, n_shards, key);
    tx_layer_is_per_transaction(Map::empty(), events, key);
    tx_layer_is_per_transaction(Map::empty(), shard_events, key);
}

/// The state events of `events` that `shard_by_client` sends to shard
/// `shard`, in order.
pub open spec fn client_shard_events(
    events: Seq<ClientTxStateEvent>,
    n_shards: nat,
    shard: int,
) -> Seq<ClientTxStateEvent>
    decreases events.len(),
{
    if events.len() == 0 {
        Seq::empty()
    } else {
        let rest = client_shard_events(events.drop_last(), n_shards, shard);
        if events.last().client_id as int % n_shards as int == shard {
            rest.push(events.last())
        } else {
            rest
        }
    }
}

proof fn lemma_client_shard_keeps_client_events(
    events: Seq<ClientTxStateEvent>,
    n_shards: nat,
    client: ClientID,
)
    requires
        n_shards > 0,
    ensures
        state_events_of_client(
            client_shard_events(events, n_shards, client as int % n_shards as int),
            client,
        ) == state_events_of_client(events, client),
    decreases events.len(),
{
    if events.len() > 0 {
        let shard = client as int % n_shards as int;
        lemma_client_shard_keeps_client_events(events.drop_last(), n_shards, client);
        let rest = client_shard_events(events.drop_last(), n_shards, shard);
        let e = events.last();
        if e.client_id as int % n_shards as int == shard {
            assert(rest.push(e).drop_last() =~= rest);
        }
    }
}

/// Sharding the account layer by `shard_by_client` changes nothing: the
/// shard that a client's events go to, fed only its own events, ends with the
/// same account for that client as one layer fed every event.
pub proof fn account_sharding_agrees(
    events: Seq<ClientTxStateEvent>,
    n_shards: nat,
    client: ClientID,
)
    requires
        n_shards > 0,
    ensures
        account_at(
            account_layer_run(
                Map::empty(),
                client_shard_events(events, n_shards, client as int % n_shards as int),
            ),
            client,
        ) == account_at(account_layer_run(Map::empty(), events), client),
{
    let shard_events = client_shard_events(events, n_shards, client as int % n_shards as int);
    lemma_client_shard_keeps_client_events(events, n_shards, client);
    account_layer_is_per_client(Map::empty(), events, client);
    account_layer_is_per_client(Map::empty(), shard_events, client);
}

} // verus!
