use vstd::prelude::*;

use crate::model::amount::{Amount, ClientID, TxID};

verus! {

/// An event of the input stream, as the transaction layer receives it.
#[derive(PartialEq, Eq, Structural, Clone, Copy, Debug)]
pub enum TxEvent {
    Deposit { amount: Amount },
    Withdrawal { amount: Amount },
    Dispute,
    Resolve,
    Chargeback,
}

/// A transition that the transaction layer accepted, as the account layer
/// receives it: every variant carries the amount it moves.
#[derive(PartialEq, Eq, Structural, Clone, Copy, Debug)]
pub enum TxStateEvent {
    Deposit { amount: Amount },
    Withdrawal { amount: Amount },
    Dispute { amount: Amount },
    Resolve { amount: Amount },
    Chargeback { amount: Amount },
}

impl TxStateEvent {
    /// The amount that the event moves.
    pub open spec fn amount(self) -> Amount {
        match self {
            TxStateEvent::Deposit { amount } => amount,
            TxStateEvent::Withdrawal { amount } => amount,
            TxStateEvent::Dispute { amount } => amount,
            TxStateEvent::Resolve { amount } => amount,
            TxStateEvent::Chargeback { amount } => amount,
        }
    }
}

/// An input event addressed to one transaction of one client.
#[derive(PartialEq, Eq, Structural, Clone, Copy, Debug)]
pub struct ClientTxEvent {
    pub client_id: ClientID,
    pub tx_id: TxID,
    pub tx_event: TxEvent,
}

/// An accepted transition addressed to one transaction of one client.
#[derive(PartialEq, Eq, Structural, Clone, Copy, Debug)]
pub struct ClientTxStateEvent {
    pub client_id: ClientID,
    pub tx_id: TxID,
    pub tx_state_event: TxStateEvent,
}

} // verus!
