use payment_engine::{
    process_client_tx_event, process_client_tx_state_event, shard_by_client, shard_by_tx,
    shard_count, Account, Amount, ClientID, ClientTxEvent, ClientTxStateEvent, CsvAccount,
    RouterSink, TxEvent, TxID, TxState, TxStateEvent,
};
use std::collections::HashMap;

fn run_tx_layer(
    store: &mut HashMap<(ClientID, TxID), TxState>,
    events: Vec<ClientTxEvent>,
) -> Vec<ClientTxStateEvent> {
    let mut forwarded = Vec::new();
    for event in events {
        if let Ok(out) = process_client_tx_event(store, event) {
            forwarded.push(out);
        }
    }
    forwarded
}

fn ev(client_id: ClientID, tx_id: TxID, tx_event: TxEvent) -> ClientTxEvent {
    ClientTxEvent {
        client_id,
        tx_id,
        tx_event,
    }
}

#[test]
fn test_tx_layer_forwards_valid_events_in_order() {
    let mut store = HashMap::new();
    let forwarded = run_tx_layer(
        &mut store,
        vec![
            ev(1, 1, TxEvent::Deposit { amount: Amount(10_000) }),
            ev(1, 1, TxEvent::Dispute),
        ],
    );
    assert_eq!(
        forwarded,
        vec![
            ClientTxStateEvent {
                client_id: 1,
                tx_id: 1,
                tx_state_event: TxStateEvent::Deposit { amount: Amount(10_000) },
            },
            ClientTxStateEvent {
                client_id: 1,
                tx_id: 1,
                tx_state_event: TxStateEvent::Dispute { amount: Amount(10_000) },
            },
        ]
    );
    assert_eq!(store.get(&(1, 1)), Some(&TxState::Dispute { amount: Amount(10_000) }));
}

#[test]
fn test_tx_layer_never_disputes_twice() {
    let mut store = HashMap::new();
    let forwarded = run_tx_layer(
        &mut store,
        vec![
            ev(3, 9, TxEvent::Deposit { amount: Amount(700) }),
            ev(3, 9, TxEvent::Dispute),
            ev(3, 9, TxEvent::Dispute),
            ev(3, 9, TxEvent::Resolve),
            ev(3, 9, TxEvent::Dispute),
            ev(3, 9, TxEvent::Chargeback),
            ev(3, 9, TxEvent::Deposit { amount: Amount(1) }),
        ],
    );
    let kinds: Vec<TxStateEvent> = forwarded.into_iter().map(|e| e.tx_state_event).collect();
    assert_eq!(
        kinds,
        vec![
            TxStateEvent::Deposit { amount: Amount(700) },
            TxStateEvent::Dispute { amount: Amount(700) },
            TxStateEvent::Resolve { amount: Amount(700) },
        ]
    );
    assert_eq!(store.get(&(3, 9)), Some(&TxState::Resolve));
}

#[test]
fn test_tx_layer_keeps_transactions_apart() {
    let mut store = HashMap::new();
    let forwarded = run_tx_layer(
        &mut store,
        vec![
            ev(1, 1, TxEvent::Deposit { amount: Amount(5) }),
            ev(1, 2, TxEvent::Withdrawal { amount: Amount(6) }),
            ev(1, 2, TxEvent::Dispute),
            ev(1, 1, TxEvent::Dispute),
        ],
    );
    assert_eq!(forwarded.len(), 3);
    assert_eq!(store.get(&(1, 1)), Some(&TxState::Dispute { amount: Amount(5) }));
    assert_eq!(store.get(&(1, 2)), Some(&TxState::Withdrawal));
}

#[test]
fn test_account_layer_resolve_undoes_dispute() {
    let mut store: HashMap<ClientID, Account> = HashMap::new();
    for e in [
        TxStateEvent::Deposit { amount: Amount(9_000) },
        TxStateEvent::Withdrawal { amount: Amount(1_000) },
    ] {
        process_client_tx_state_event(
            &mut store,
            ClientTxStateEvent {
                client_id: 4,
                tx_id: 1,
                tx_state_event: e,
            },
        )
        .unwrap();
    }
    let before = *store.get(&4).unwrap();
    for e in [
        TxStateEvent::Dispute { amount: Amount(2_500) },
        TxStateEvent::Resolve { amount: Amount(2_500) },
    ] {
        process_client_tx_state_event(
            &mut store,
            ClientTxStateEvent {
                client_id: 4,
                tx_id: 2,
                tx_state_event: e,
            },
        )
        .unwrap();
    }
    assert_eq!(store.get(&4), Some(&before));
}

#[test]
fn test_account_total_changes_only_on_deposit_withdrawal_chargeback() {
    let acc = Account::new()
        .apply(TxStateEvent::Deposit { amount: Amount(8_000) })
        .unwrap();
    let disputed = acc.apply(TxStateEvent::Dispute { amount: Amount(3_000) }).unwrap();
    assert_eq!(disputed.available.0 + disputed.held.0, 8_000);
    assert_eq!(disputed.held, Amount(3_000));
    let charged = disputed
        .apply(TxStateEvent::Chargeback { amount: Amount(3_000) })
        .unwrap();
    assert_eq!(charged.available.0 + charged.held.0, 5_000);
    assert!(charged.locked);
    let ignored = charged.apply(TxStateEvent::Deposit { amount: Amount(1) });
    assert_eq!(
        ignored,
        Err((charged, TxStateEvent::Deposit { amount: Amount(1) }))
    );
}

#[test]
fn test_can_apply_exec_guards_overflow() {
    let full = Account {
        available: Amount(u64::MAX - 5),
        held: Amount(0),
        locked: false,
    };
    assert!(full.can_apply_exec(&TxStateEvent::Deposit { amount: Amount(5) }));
    assert!(!full.can_apply_exec(&TxStateEvent::Deposit { amount: Amount(6) }));
    // a dispute the account refuses cannot overflow
    assert!(Account::new().can_apply_exec(&TxStateEvent::Dispute { amount: Amount(u64::MAX) }));
    let locked = Account {
        locked: true,
        ..full
    };
    assert!(locked.can_apply_exec(&TxStateEvent::Deposit { amount: Amount(u64::MAX) }));
}

#[test]
fn test_csv_account_from() {
    let row = CsvAccount::from((
        7,
        Account {
            available: Amount(15_000),
            held: Amount(2_500),
            locked: true,
        },
    ));
    assert_eq!(row.client, 7);
    assert_eq!(row.available, Amount(15_000));
    assert_eq!(row.held, Amount(2_500));
    assert_eq!(row.total, Amount(17_500));
    assert!(row.locked);
}

#[test]
fn test_shards() {
    let e = ev(5, 17, TxEvent::Dispute);
    assert_eq!(shard_by_tx(&e, 4), 1);
    let s = ClientTxStateEvent {
        client_id: 5,
        tx_id: 17,
        tx_state_event: TxStateEvent::Resolve { amount: Amount(1) },
    };
    assert_eq!(shard_by_client(&s, 4), 1);
    assert_eq!(shard_by_client(&s, 1), 0);
    assert_eq!(shard_count(Some(8)), 4);
    assert_eq!(shard_count(Some(1)), 1);
    assert_eq!(shard_count(None), 1);
}

#[test]
fn test_router_routes_by_selector() {
    let mut router = RouterSink::new(vec![Vec::new(), Vec::new(), Vec::new()], |e: &ClientTxEvent| {
        shard_by_tx(e, 3)
    });
    let e = ev(1, 8, TxEvent::Resolve);
    let idx = router.route(&e).unwrap();
    assert_eq!(idx, 2);
    router.sinks_mut()[idx].push(e);
    assert_eq!(router.sinks_mut()[2], vec![e]);
    let far = RouterSink::new(vec![0u8], |_: &ClientTxEvent| 3usize);
    assert_eq!(far.route(&e), None);
}

#[test]
fn test_sharded_layers_agree_with_one_layer() {
    let events = vec![
        ev(1, 1, TxEvent::Deposit { amount: Amount(4_000) }),
        ev(2, 2, TxEvent::Deposit { amount: Amount(3_000) }),
        ev(1, 3, TxEvent::Withdrawal { amount: Amount(1_000) }),
        ev(1, 1, TxEvent::Dispute),
        ev(2, 2, TxEvent::Dispute),
        ev(2, 2, TxEvent::Chargeback),
        ev(1, 1, TxEvent::Resolve),
        ev(2, 4, TxEvent::Deposit { amount: Amount(9) }),
    ];
    let n = 2;

    let mut whole_tx = HashMap::new();
    let whole_forwarded = run_tx_layer(&mut whole_tx, events.clone());
    let mut whole_accounts: HashMap<ClientID, Account> = HashMap::new();
    for e in whole_forwarded.clone() {
        let _ = process_client_tx_state_event(&mut whole_accounts, e);
    }

    let mut shard_forwarded = Vec::new();
    for shard in 0..n {
        let mut store = HashMap::new();
        let mine: Vec<ClientTxEvent> = events
            .iter()
            .copied()
            .filter(|e| shard_by_tx(e, n) == shard)
            .collect();
        for out in run_tx_layer(&mut store, mine) {
            shard_forwarded.push(out);
        }
        for (key, state) in store {
            assert_eq!(whole_tx.get(&key), Some(&state));
        }
    }
    for shard in 0..n {
        let mut accounts: HashMap<ClientID, Account> = HashMap::new();
        for e in whole_forwarded.iter().copied().filter(|e| shard_by_client(e, n) == shard) {
            let _ = process_client_tx_state_event(&mut accounts, e);
        }
        for (client, account) in accounts {
            assert_eq!(whole_accounts.get(&client), Some(&account));
        }
    }
    assert_eq!(shard_forwarded.len(), whole_forwarded.len());
    assert_eq!(
        whole_accounts.get(&2),
        Some(&Account {
            available: Amount(0),
            held: Amount(0),
            locked: true,
        })
    );
    assert_eq!(
        whole_accounts.get(&1),
        Some(&Account {
            available: Amount(3_000),
            held: Amount(0),
            locked: false,
        })
    );
}
