use payment_engine::{
    process_client_tx_event, Amount, ClientID, ClientTxEvent, ClientTxStateEvent, TxEvent, TxID,
    TxState, TxStateEvent,
};
use std::collections::HashMap;

type TestStore = HashMap<(ClientID, TxID), TxState>;

#[test]
fn test_process_client_tx_event_deposit_on_new_tx() {
    let mut store: TestStore = HashMap::new();

    let result = process_client_tx_event(
        &mut store,
        ClientTxEvent {
            client_id: 1,
            tx_id: 1,
            tx_event: TxEvent::Deposit {
                amount: Amount(10_000),
            },
        },
    );

    assert_eq!(
        result,
        Ok(ClientTxStateEvent {
            client_id: 1,
            tx_id: 1,
            tx_state_event: TxStateEvent::Deposit {
                amount: Amount(10_000)
            },
        }),
    );
    assert_eq!(
        store.get(&(1, 1)),
        Some(&TxState::Deposit {
            amount: Amount(10_000)
        }),
    );
}

#[test]
fn test_process_client_tx_event_withdrawal_on_new_tx() {
    let mut store: TestStore = HashMap::new();

    let result = process_client_tx_event(
        &mut store,
        ClientTxEvent {
            client_id: 2,
            tx_id: 2,
            tx_event: TxEvent::Withdrawal {
                amount: Amount(5_000),
            },
        },
    );

    assert_eq!(
        result,
        Ok(ClientTxStateEvent {
            client_id: 2,
            tx_id: 2,
            tx_state_event: TxStateEvent::Withdrawal {
                amount: Amount(5_000)
            },
        }),
    );
    assert_eq!(store.get(&(2, 2)), Some(&TxState::Withdrawal));
}

#[test]
fn test_process_client_tx_event_dispute_after_deposit() {
    let mut store: TestStore = HashMap::new();
    store.insert(
        (1, 1),
        TxState::Deposit {
            amount: Amount(10_000),
        },
    );

    let result = process_client_tx_event(
        &mut store,
        ClientTxEvent {
            client_id: 1,
            tx_id: 1,
            tx_event: TxEvent::Dispute,
        },
    );

    assert_eq!(
        result,
        Ok(ClientTxStateEvent {
            client_id: 1,
            tx_id: 1,
            tx_state_event: TxStateEvent::Dispute {
                amount: Amount(10_000)
            },
        }),
    );
    assert_eq!(
        store.get(&(1, 1)),
        Some(&TxState::Dispute {
            amount: Amount(10_000)
        }),
    );
}

#[test]
fn test_process_client_tx_event_full_chargeback_sequence() {
    let mut store: TestStore = HashMap::new();

    process_client_tx_event(
        &mut store,
        ClientTxEvent {
            client_id: 1,
            tx_id: 1,
            tx_event: TxEvent::Deposit {
                amount: Amount(10_000),
            },
        },
    )
    .unwrap();
    process_client_tx_event(
        &mut store,
        ClientTxEvent {
            client_id: 1,
            tx_id: 1,
            tx_event: TxEvent::Dispute,
        },
    )
    .unwrap();

    let result = process_client_tx_event(
        &mut store,
        ClientTxEvent {
            client_id: 1,
            tx_id: 1,
            tx_event: TxEvent::Chargeback,
        },
    );

    assert_eq!(
        result,
        Ok(ClientTxStateEvent {
            client_id: 1,
            tx_id: 1,
            tx_state_event: TxStateEvent::Chargeback {
                amount: Amount(10_000)
            },
        }),
    );
    assert_eq!(store.get(&(1, 1)), Some(&TxState::Chargeback));
}

#[test]
fn test_process_client_tx_event_invalid_transition_on_new_tx() {
    let mut store: TestStore = HashMap::new();

    let result = process_client_tx_event(
        &mut store,
        ClientTxEvent {
            client_id: 1,
            tx_id: 1,
            tx_event: TxEvent::Dispute,
        },
    );

    assert_eq!(
        result,
        Err(ClientTxEvent {
            client_id: 1,
            tx_id: 1,
            tx_event: TxEvent::Dispute
        }),
    );
    assert_eq!(store.get(&(1, 1)), Some(&TxState::Uninitialized));
}

#[test]
fn test_process_client_tx_event_invalid_transition_leaves_state_unchanged() {
    let mut store: TestStore = HashMap::new();
    store.insert(
        (1, 1),
        TxState::Deposit {
            amount: Amount(10_000),
        },
    );

    let result = process_client_tx_event(
        &mut store,
        ClientTxEvent {
            client_id: 1,
            tx_id: 1,
            tx_event: TxEvent::Resolve,
        },
    );

    assert_eq!(
        result,
        Err(ClientTxEvent {
            client_id: 1,
            tx_id: 1,
            tx_event: TxEvent::Resolve
        }),
    );
    assert_eq!(
        store.get(&(1, 1)),
        Some(&TxState::Deposit {
            amount: Amount(10_000)
        }),
    );
}

#[test]
fn test_process_client_tx_event_tracks_independent_keys() {
    let mut store: TestStore = HashMap::new();

    process_client_tx_event(
        &mut store,
        ClientTxEvent {
            client_id: 1,
            tx_id: 1,
            tx_event: TxEvent::Deposit {
                amount: Amount(1_000),
            },
        },
    )
    .unwrap();
    process_client_tx_event(
        &mut store,
        ClientTxEvent {
            client_id: 2,
            tx_id: 1,
            tx_event: TxEvent::Deposit {
                amount: Amount(2_000),
            },
        },
    )
    .unwrap();
    process_client_tx_event(
        &mut store,
        ClientTxEvent {
            client_id: 1,
            tx_id: 2,
            tx_event: TxEvent::Withdrawal {
                amount: Amount(500),
            },
        },
    )
    .unwrap();

    assert_eq!(store.len(), 3);
    assert_eq!(
        store.get(&(1, 1)),
        Some(&TxState::Deposit {
            amount: Amount(1_000)
        }),
    );
    assert_eq!(
        store.get(&(2, 1)),
        Some(&TxState::Deposit {
            amount: Amount(2_000)
        }),
    );
    assert_eq!(store.get(&(1, 2)), Some(&TxState::Withdrawal));
}
