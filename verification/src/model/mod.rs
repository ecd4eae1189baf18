pub mod account;
pub mod amount;
pub mod events;
pub mod tx_state;

pub use account::Account;
pub use amount::Amount;
pub use amount::{ClientID, TxID};
pub use events::{ClientTxEvent, ClientTxStateEvent, TxEvent, TxStateEvent};
pub use tx_state::TxState;
