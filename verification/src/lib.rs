//! A payment engine: a transaction layer that validates the lifecycle of each
//! transaction, and an account layer that applies the resulting state events
//! to client balances.
pub mod business;
pub mod inbound;
pub mod model;

pub use business::{
    process_client_tx_event, process_client_tx_state_event, shard_by_client, shard_by_tx,
    shard_count, RouterSink, Store,
};
pub use inbound::model::{
    AmountError, AmountVisitor, CsvAccount, CsvClientTxRecord, CsvTxTy,
};
pub use model::{
    Account, Amount, ClientID, ClientTxEvent, ClientTxStateEvent, TxEvent, TxID, TxState,
    TxStateEvent,
};
