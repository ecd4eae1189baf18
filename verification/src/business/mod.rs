pub mod process_client_tx_event;
pub mod process_client_tx_state_event;
pub mod router_sink;
pub mod store;

pub use process_client_tx_event::process_client_tx_event;
pub use process_client_tx_state_event::process_client_tx_state_event;
pub use router_sink::{shard_by_client, shard_by_tx, shard_count, RouterSink};
pub use store::Store;
