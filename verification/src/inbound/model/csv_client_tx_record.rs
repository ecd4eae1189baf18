use vstd::prelude::*;

use vstd::std_specs::convert::TryFromSpec;
use vstd::std_specs::convert::TryFromSpecImpl;

use crate::model::{Amount, ClientID, ClientTxEvent, TxEvent, TxID};

verus! {

/// The `type` column of an input row.
#[derive(PartialEq, Eq, Structural, Clone, Copy, Debug)]
pub enum CsvTxTy {
    Deposit,
    Withdrawal,
    Dispute,
    Resolve,
    Chargeback,
}

/// One input row: `type, client, tx, amount`.
#[derive(PartialEq, Eq, Structural, Clone, Copy, Debug)]
pub struct CsvClientTxRecord {
    pub ty: CsvTxTy,
    pub client: ClientID,
    pub tx: TxID,
    pub amount: Option<Amount>,
}

/// The event that a row stands for: a deposit or a withdrawal must carry an
/// amount, a dispute, a resolve or a chargeback must carry none; any other
/// row stands for no event.
pub open spec fn record_tx_event(record: CsvClientTxRecord) -> Option<TxEvent> {
    match (record.ty, record.amount) {
        (CsvTxTy::Deposit, Some(amount)) => Some(TxEvent::Deposit { amount }),
        (CsvTxTy::Withdrawal, Some(amount)) => Some(TxEvent::Withdrawal { amount }),
        (CsvTxTy::Dispute, None) => Some(TxEvent::Dispute),
        (CsvTxTy::Resolve, None) => Some(TxEvent::Resolve),
        (CsvTxTy::Chargeback, None) => Some(TxEvent::Chargeback),
        _ => None,
    }
}

impl TryFromSpecImpl<CsvClientTxRecord> for ClientTxEvent {
    open spec fn obeys_try_from_spec() -> bool {
        true
    }

    open spec fn try_from_spec(record: CsvClientTxRecord) -> Result<ClientTxEvent, CsvClientTxRecord> {
        match record_tx_event(record) {
            Some(tx_event) => Ok(
                ClientTxEvent { client_id: record.client, tx_id: record.tx, tx_event },
            ),
            None => Err(record),
        }
    }
}

impl TryFrom<CsvClientTxRecord> for ClientTxEvent {
    type Error = CsvClientTxRecord;

    /// The event of a row, or the row itself when it stands for none.
    fn try_from(value: CsvClientTxRecord) -> (r: Result<ClientTxEvent, CsvClientTxRecord>) {
        match value {
            CsvClientTxRecord { ty: CsvTxTy::Deposit, client, tx, amount: Some(amount) } => Ok(
                ClientTxEvent { client_id: client, tx_id: tx, tx_event: TxEvent::Deposit { amount } },
            ),
            CsvClientTxRecord { ty: CsvTxTy::Withdrawal, client, tx, amount: Some(amount) } => Ok(
                ClientTxEvent {
                    client_id: client,
                    tx_id: tx,
                    tx_event: TxEvent::Withdrawal { amount },
                },
            ),
            CsvClientTxRecord { ty: CsvTxTy::Dispute, client, tx, amount: None } => Ok(
                ClientTxEvent { client_id: client, tx_id: tx, tx_event: TxEvent::Dispute },
            ),
            CsvClientTxRecord { ty: CsvTxTy::Resolve, client, tx, amount: None } => Ok(
                ClientTxEvent { client_id: client, tx_id: tx, tx_event: TxEvent::Resolve },
            ),
            CsvClientTxRecord { ty: CsvTxTy::Chargeback, client, tx, amount: None } => Ok(
                ClientTxEvent { client_id: client, tx_id: tx, tx_event: TxEvent::Chargeback },
            ),
            other => Err(other),
        }
    }
}

/// A row becomes an event exactly when its amount is present for a deposit
/// or a withdrawal and absent for a dispute, a resolve or a chargeback. The
/// event keeps the row's client and transaction ids, is of the row's type,
/// and carries the row's amount; a refused row is handed back as it was.
pub proof fn row_becomes_event(record: CsvClientTxRecord)
    ensures
        ({
            let r = <ClientTxEvent as TryFromSpec<CsvClientTxRecord>>::try_from_spec(record);
            let moves_funds = record.ty == CsvTxTy::Deposit || record.ty == CsvTxTy::Withdrawal;
            &&& (r is Ok) <==> (moves_funds <==> (record.amount is Some))
            &&& (r is Err) ==> (r == Err::<ClientTxEvent, CsvClientTxRecord>(record))
            &&& r matches Ok(e) ==> {
                &&& e.client_id == record.client
                &&& e.tx_id == record.tx
                &&& record.ty == CsvTxTy::Deposit ==> e.tx_event == TxEvent::Deposit {
                    amount: record.amount.unwrap(),
                }
                &&& record.ty == CsvTxTy::Withdrawal ==> e.tx_event == TxEvent::Withdrawal {
                    amount: record.amount.unwrap(),
                }
                &&& record.ty == CsvTxTy::Dispute ==> e.tx_event == TxEvent::Dispute
                &&& record.ty == CsvTxTy::Resolve ==> e.tx_event == TxEvent::Resolve
                &&& record.ty == CsvTxTy::Chargeback ==> e.tx_event == TxEvent::Chargeback
            }
        }),
{
}

} // verus!
