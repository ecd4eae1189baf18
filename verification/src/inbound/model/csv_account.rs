use vstd::prelude::*;

use crate::model::{Account, Amount, ClientID};

verus! {

/// One output row: `client, available, held, total, locked`.
#[derive(PartialEq, Eq, Structural, Clone, Copy, Debug)]
pub struct CsvAccount {
    pub client: ClientID,
    pub available: Amount,
    pub held: Amount,
    pub total: Amount,
    pub locked: bool,
}

impl CsvAccount {
    /// The output row of a client's account; its total is available plus held.
    pub fn from(pair: (ClientID, Account)) -> (r: CsvAccount)
        requires
            pair.1.total() <= u64::MAX,
        ensures
            r.client == pair.0,
            r.available == pair.1.available,
            r.held == pair.1.held,
            r.total.value() == pair.1.total(),
            r.locked == pair.1.locked,
    {
        let (client, account) = pair;
        let Account { available, held, locked } = account;
        CsvAccount { client, available, held, total: available + held, locked }
    }
}

} // verus!
