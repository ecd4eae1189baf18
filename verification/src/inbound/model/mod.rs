pub mod amount;
pub mod amount_visitor;
pub mod csv_account;
pub mod csv_client_tx_record;
pub mod decimal;

pub use amount_visitor::AmountVisitor;
pub use csv_account::CsvAccount;
pub use csv_client_tx_record::{CsvClientTxRecord, CsvTxTy};
pub use decimal::AmountError;
