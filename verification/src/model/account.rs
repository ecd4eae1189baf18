use vstd::prelude::*;

use crate::model::amount::Amount;
use crate::model::events::TxStateEvent;

verus! {

/// The balances of one client.
#[derive(PartialEq, Eq, Structural, Clone, Copy, Debug)]
pub struct Account {
    pub available: Amount,
    pub held: Amount,
    pub locked: bool,
}

impl Account {
    /// The account of a client that no event has reached yet.
    pub open spec fn initial() -> Account {
        Account { available: Amount(0), held: Amount(0), locked: false }
    }

    /// Available and held funds together.
    pub open spec fn total(self) -> int {
        self.available.value() + self.held.value()
    }

    /// Whether the account takes the event: a locked account takes none;
    /// a withdrawal or a dispute needs that much available, a resolve or a
    /// chargeback needs that much held.
    pub open spec fn accepts(self, e: TxStateEvent) -> bool {
        !self.locked && match e {
            TxStateEvent::Deposit { .. } => true,
            TxStateEvent::Withdrawal { amount } => amount.value() <= self.available.value(),
            TxStateEvent::Dispute { amount } => amount.value() <= self.available.value(),
            TxStateEvent::Resolve { amount } => amount.value() <= self.held.value(),
            TxStateEvent::Chargeback { amount } => amount.value() <= self.held.value(),
        }
    }

    /// Whether the balances that the event raises stay within `u64`.
    pub open spec fn stays_in_range(self, e: TxStateEvent) -> bool {
        match e {
            TxStateEvent::Deposit { amount } => self.available.value() + amount.value() <= u64::MAX,
            TxStateEvent::Dispute { amount } => self.held.value() + amount.value() <= u64::MAX,
            TxStateEvent::Resolve { amount } => self.available.value() + amount.value() <= u64::MAX,
            _ => true,
        }
    }

    /// Whether `apply` can run on the event without leaving `u64`: either the
    /// account refuses the event, or the raised balance fits.
    pub open spec fn can_apply(self, e: TxStateEvent) -> bool {
        self.accepts(e) ==> self.stays_in_range(e)
    }

    /// The account after it took the event.
    pub open spec fn applied(self, e: TxStateEvent) -> Account {
        let avail = self.available.value();
        let held = self.held.value();
        match e {
            TxStateEvent::Deposit { amount } => Account {
                available: Amount((avail + amount.value()) as u64),
                ..self
            },
            TxStateEvent::Withdrawal { amount } => Account {
                available: Amount((avail - amount.value()) as u64),
                ..self
            },
            TxStateEvent::Dispute { amount } => Account {
                available: Amount((avail - amount.value()) as u64),
                held: Amount((held + amount.value()) as u64),
                ..self
            },
            TxStateEvent::Resolve { amount } => Account {
                available: Amount((avail + amount.value()) as u64),
                held: Amount((held - amount.value()) as u64),
                ..self
            },
            TxStateEvent::Chargeback { amount } => Account {
                held: Amount((held - amount.value()) as u64),
                locked: true,
                ..self
            },
        }
    }

    /// A new account: nothing available, nothing held, unlocked.
    pub fn new() -> (r: Self)
        ensures
            r == Account::initial(),
    {
        Account { available: Amount::zero(), held: Amount::zero(), locked: false }
    }

    /// Applies one state event: the updated account if it takes the event,
    /// otherwise the account and the event, unchanged.
    pub fn apply(self, tx_state_event: TxStateEvent) -> (r: Result<Account, (Account, TxStateEvent)>)
        requires
            self.can_apply(tx_state_event),
        ensures
            self.accepts(tx_state_event) ==> r == Ok::<Account, (Account, TxStateEvent)>(
                self.applied(tx_state_event),
            ),
            !self.accepts(tx_state_event) ==> r == Err::<Account, (Account, TxStateEvent)>(
                (self, tx_state_event),
            ),
    {
        let mut acc = self;
        if acc.locked {
            return Err((acc, tx_state_event));
        }
        match tx_state_event {
            TxStateEvent::Deposit { amount } => {
                acc.available.add_assign(amount);
            },
            TxStateEvent::Withdrawal { amount } => {
                if acc.available.0 < amount.0 {
                    return Err((acc, tx_state_event));
                }
                acc.available.sub_assign(amount);
            },
            TxStateEvent::Dispute { amount } => {
                if acc.available.0 < amount.0 {
                    return Err((acc, tx_state_event));
                }
                acc.available.sub_assign(amount);
                acc.held.add_assign(amount);
            },
            TxStateEvent::Resolve { amount } => {
                if acc.held.0 < amount.0 {
                    return Err((acc, tx_state_event));
                }
                acc.available.add_assign(amount);
                acc.held.sub_assign(amount);
            },
            TxStateEvent::Chargeback { amount } => {
                if acc.held.0 < amount.0 {
                    return Err((acc, tx_state_event));
                }
                acc.held.sub_assign(amount);
                acc.locked = true;
            },
        }
        Ok(acc)
    }

    /// Whether `apply` may be called on the event: the executable form of
    /// `can_apply`, for callers that hold the account.
    pub fn can_apply_exec(&self, tx_state_event: &TxStateEvent) -> (b: bool)
        ensures
            b == self.can_apply(*tx_state_event),
    {
        if self.locked {
            return true;
        }
        match *tx_state_event {
            TxStateEvent::Deposit { amount } => amount.0 <= u64::MAX - self.available.0,
            TxStateEvent::Withdrawal { .. } => true,
            TxStateEvent::Dispute { amount } => amount.0 > self.available.0 || amount.0
                <= u64::MAX - self.held.0,
            TxStateEvent::Resolve { amount } => amount.0 > self.held.0 || amount.0 <= u64::MAX
                - self.available.0,
            TxStateEvent::Chargeback { .. } => true,
        }
    }
}

/// How much an accepted event changes the account's total: a deposit adds
/// its amount, a withdrawal and a chargeback take it away, a dispute and a
/// resolve only move funds between available and held.
pub open spec fn total_change(e: TxStateEvent) -> int {
    match e {
        TxStateEvent::Deposit { amount } => amount.value(),
        TxStateEvent::Withdrawal { amount } => -amount.value(),
        TxStateEvent::Dispute { .. } => 0,
        TxStateEvent::Resolve { .. } => 0,
        TxStateEvent::Chargeback { amount } => -amount.value(),
    }
}

/// An accepted event changes the total by `total_change`, and moves between
/// available and held exactly the amount that a dispute holds back or a
/// resolve releases.
pub proof fn accepted_event_changes_total(acc: Account, e: TxStateEvent)
    requires
        acc.accepts(e),
        acc.can_apply(e),
    ensures
        acc.applied(e).total() == acc.total() + total_change(e),
        e is Dispute ==> acc.applied(e).held.value() == acc.held.value() + e.amount().value(),
        e is Resolve ==> acc.applied(e).held.value() == acc.held.value() - e.amount().value(),
        (e is Deposit) || (e is Withdrawal) ==> (acc.applied(e).held == acc.held),
{
}

/// A resolve of the amount a dispute held back takes the account back to
/// where it was before the dispute.
pub proof fn resolve_undoes_dispute(acc: Account, amount: Amount)
    requires
        acc.accepts(TxStateEvent::Dispute { amount }),
        acc.can_apply(TxStateEvent::Dispute { amount }),
    ensures
        acc.applied(TxStateEvent::Dispute { amount }).accepts(TxStateEvent::Resolve { amount }),
        acc.applied(TxStateEvent::Dispute { amount }).can_apply(TxStateEvent::Resolve { amount }),
        acc.applied(TxStateEvent::Dispute { amount }).applied(TxStateEvent::Resolve { amount })
            == acc,
{
}

/// A locked account refuses every event; an accepted chargeback locks the
/// account, and nothing else changes whether it is locked.
pub proof fn lock_is_final(acc: Account, e: TxStateEvent)
    ensures
        acc.locked ==> !acc.accepts(e),
        acc.accepts(e) ==> (acc.applied(e).locked <==> (e is Chargeback)),
{
}

/// The account after `events` reach it in order: each one it accepts is
/// applied, each one it refuses leaves it as it was.
pub open spec fn account_replay(acc: Account, events: Seq<TxStateEvent>) -> Account
    decreases events.len(),
{
    if events.len() == 0 {
        acc
    } else {
        let mid = account_replay(acc, events.drop_last());
        if mid.accepts(events.last()) {
            mid.applied(events.last())
        } else {
            mid
        }
    }
}

/// Once locked, an account stays exactly as it is, whatever events follow.
pub proof fn locked_account_never_changes(acc: Account, events: Seq<TxStateEvent>)
    requires
        acc.locked,
    ensures
        account_replay(acc, events) == acc,
    decreases events.len(),
{
    if events.len() > 0 {
        locked_account_never_changes(acc, events.drop_last());
    }
}

/// An unlocked account takes every deposit; the deposit adds its amount to
/// available funds and leaves held funds and the lock as they were.
pub proof fn deposit_adds_to_available(acc: Account, a: Amount)
    requires
        !acc.locked,
        acc.available.value() + a.value() <= u64::MAX,
    ensures
        acc.accepts(TxStateEvent::Deposit { amount: a }),
        acc.applied(TxStateEvent::Deposit { amount: a }).available.value() == acc.available.value()
            + a.value(),
        acc.applied(TxStateEvent::Deposit { amount: a }).held == acc.held,
        !acc.applied(TxStateEvent::Deposit { amount: a }).locked,
{
}

/// An unlocked account takes a withdrawal exactly when that much is
/// available; it takes the amount out of available funds only.
pub proof fn withdrawal_takes_from_available(acc: Account, a: Amount)
    ensures
        acc.accepts(TxStateEvent::Withdrawal { amount: a }) <==> !acc.locked && a.value()
            <= acc.available.value(),
        acc.accepts(TxStateEvent::Withdrawal { amount: a }) ==> {
            let after = acc.applied(TxStateEvent::Withdrawal { amount: a });
            &&& after.available.value() == acc.available.value() - a.value()
            &&& after.held == acc.held
            &&& !after.locked
        },
{
}

/// An unlocked account takes a dispute exactly when its amount is available;
/// it moves that amount from available to held.
pub proof fn dispute_holds_funds(acc: Account, a: Amount)
    ensures
        acc.accepts(TxStateEvent::Dispute { amount: a }) <==> !acc.locked && a.value()
            <= acc.available.value(),
        acc.accepts(TxStateEvent::Dispute { amount: a }) && acc.held.value() + a.value()
            <= u64::MAX ==> {
            let after = acc.applied(TxStateEvent::Dispute { amount: a });
            &&& after.available.value() == acc.available.value() - a.value()
            &&& after.held.value() == acc.held.value() + a.value()
            &&& !after.locked
        },
{
}

/// An unlocked account takes a resolve exactly when its amount is held; it
/// moves that amount from held back to available.
pub proof fn resolve_releases_funds(acc: Account, a: Amount)
    ensures
        acc.accepts(TxStateEvent::Resolve { amount: a }) <==> !acc.locked && a.value()
            <= acc.held.value(),
        acc.accepts(TxStateEvent::Resolve { amount: a }) && acc.available.value() + a.value()
            <= u64::MAX ==> {
            let after = acc.applied(TxStateEvent::Resolve { amount: a });
            &&& after.available.value() == acc.available.value() + a.value()
            &&& after.held.value() == acc.held.value() - a.value()
            &&& !after.locked
        },
{
}

/// An unlocked account takes a chargeback exactly when its amount is held;
/// it takes that amount out of held funds, leaves available funds as they
/// were, and locks the account.
pub proof fn chargeback_reverses_held_funds(acc: Account, a: Amount)
    ensures
        acc.accepts(TxStateEvent::Chargeback { amount: a }) <==> !acc.locked && a.value()
            <= acc.held.value(),
        acc.accepts(TxStateEvent::Chargeback { amount: a }) ==> {
            let after = acc.applied(TxStateEvent::Chargeback { amount: a });
            &&& after.held.value() == acc.held.value() - a.value()
            &&& after.available == acc.available
            &&& after.locked
        },
{
}

} // verus!
