use vstd::prelude::*;

use crate::model::amount::Amount;
use crate::model::events::{TxEvent, TxStateEvent};

verus! {

/// The lifecycle of one transaction:
///
/// ```text
/// Uninitialized ─▶ Deposit ─▶ Dispute ─┬─▶ Resolve (terminal)
///                                      └─▶ Chargeback (terminal)
/// Uninitialized ─▶ Withdrawal (terminal)
/// ```
#[derive(PartialEq, Eq, Structural, Clone, Copy, Debug)]
pub enum TxState {
    Uninitialized,
    Deposit { amount: Amount },
    Withdrawal,
    Dispute { amount: Amount },
    Resolve,
    Chargeback,
}

impl TxState {
    /// The transition table: the next state and the emitted state event for
    /// each legal pair, `None` for every other pair.
    pub open spec fn transition(self, tx_event: TxEvent) -> Option<(TxState, TxStateEvent)> {
        match (self, tx_event) {
            (TxState::Uninitialized, TxEvent::Deposit { amount }) => Some(
                (TxState::Deposit { amount }, TxStateEvent::Deposit { amount }),
            ),
            (TxState::Uninitialized, TxEvent::Withdrawal { amount }) => Some(
                (TxState::Withdrawal, TxStateEvent::Withdrawal { amount }),
            ),
            (TxState::Deposit { amount }, TxEvent::Dispute) => Some(
                (TxState::Dispute { amount }, TxStateEvent::Dispute { amount }),
            ),
            (TxState::Dispute { amount }, TxEvent::Resolve) => Some(
                (TxState::Resolve, TxStateEvent::Resolve { amount }),
            ),
            (TxState::Dispute { amount }, TxEvent::Chargeback) => Some(
                (TxState::Chargeback, TxStateEvent::Chargeback { amount }),
            ),
            _ => None,
        }
    }

    /// The state of a transaction that no event has reached yet.
    pub fn new() -> (r: Self)
        ensures
            r == TxState::Uninitialized,
    {
        TxState::Uninitialized
    }

    /// Applies one event: on a legal transition, the next state and the
    /// state event to forward; otherwise the state and the event, unchanged.
    pub fn apply(self, tx_event: TxEvent) -> (r: Result<(TxState, TxStateEvent), (TxState, TxEvent)>)
        ensures
            match self.transition(tx_event) {
                Some(next) => r == Ok::<(TxState, TxStateEvent), (TxState, TxEvent)>(next),
                None => r == Err::<(TxState, TxStateEvent), (TxState, TxEvent)>((self, tx_event)),
            },
    {
        match (self, tx_event) {
            (TxState::Uninitialized, TxEvent::Deposit { amount }) => {
                Ok((TxState::Deposit { amount }, TxStateEvent::Deposit { amount }))
            },
            (TxState::Uninitialized, TxEvent::Withdrawal { amount }) => {
                Ok((TxState::Withdrawal, TxStateEvent::Withdrawal { amount }))
            },
            (TxState::Deposit { amount }, TxEvent::Dispute) => {
                Ok((TxState::Dispute { amount }, TxStateEvent::Dispute { amount }))
            },
            (TxState::Dispute { amount }, TxEvent::Resolve) => {
                Ok((TxState::Resolve, TxStateEvent::Resolve { amount }))
            },
            (TxState::Dispute { amount }, TxEvent::Chargeback) => {
                Ok((TxState::Chargeback, TxStateEvent::Chargeback { amount }))
            },
            (curr, tx_ty) => Err((curr, tx_ty)),
        }
    }
}

/// The state events that a transaction emits when `events` reach it in
/// order from state `s`, and the state it ends in; a refused event emits
/// nothing and changes nothing.
pub open spec fn replay(s: TxState, events: Seq<TxEvent>) -> (TxState, Seq<TxStateEvent>)
    decreases events.len(),
{
    if events.len() == 0 {
        (s, Seq::empty())
    } else {
        let (mid, out) = replay(s, events.drop_last());
        match mid.transition(events.last()) {
            Some((next, emitted)) => (next, out.push(emitted)),
            None => (mid, out),
        }
    }
}

/// A prefix of one of the lifecycles a transaction can have: a withdrawal;
/// or a deposit, then a dispute of that deposit's amount, then a resolve or
/// a chargeback of that same amount.
pub open spec fn is_lifecycle(out: Seq<TxStateEvent>) -> bool {
    let amount = out[0].amount();
    ||| out.len() == 0
    ||| out.len() == 1 && (out[0] is Deposit || out[0] is Withdrawal)
    ||| out.len() == 2 && out[0] is Deposit && out[1] == TxStateEvent::Dispute { amount }
    ||| out.len() == 3 && out[0] is Deposit && out[1] == TxStateEvent::Dispute { amount } && (out[2]
        == TxStateEvent::Resolve { amount } || out[2] == TxStateEvent::Chargeback { amount })
}

/// What a transaction in state `s` has emitted since it was uninitialized.
pub open spec fn history_matches(s: TxState, out: Seq<TxStateEvent>) -> bool {
    let amount = out[0].amount();
    match s {
        TxState::Uninitialized => out.len() == 0,
        TxState::Deposit { amount: a } => out == seq![TxStateEvent::Deposit { amount: a }],
        TxState::Withdrawal => out.len() == 1 && out[0] is Withdrawal,
        TxState::Dispute { amount: a } => out == seq![
            TxStateEvent::Deposit { amount: a },
            TxStateEvent::Dispute { amount: a },
        ],
        TxState::Resolve => out.len() == 3 && out[0] is Deposit && out[1]
            == TxStateEvent::Dispute { amount } && out[2] == TxStateEvent::Resolve { amount },
        TxState::Chargeback => out.len() == 3 && out[0] is Deposit && out[1]
            == TxStateEvent::Dispute { amount } && out[2] == TxStateEvent::Chargeback { amount },
    }
}

proof fn lemma_replay_history(events: Seq<TxEvent>)
    ensures
        history_matches(replay(TxState::Uninitialized, events).0, replay(TxState::Uninitialized, events).1),
    decreases events.len(),
{
    if events.len() > 0 {
        lemma_replay_history(events.drop_last());
        let (mid, out) = replay(TxState::Uninitialized, events.drop_last());
        match mid.transition(events.last()) {
            Some((next, emitted)) => {
                let pushed = out.push(emitted);
                assert(pushed[out.len() as int] == emitted);
                if out.len() > 0 {
                    assert(pushed[0] == out[0]);
                }
                if out.len() > 1 {
                    assert(pushed[1] == out[1]);
                }
                match mid {
                    TxState::Uninitialized => {
                        assert(pushed =~= seq![emitted]);
                    },
                    TxState::Deposit { amount } => {
                        assert(pushed =~= seq![
                            TxStateEvent::Deposit { amount },
                            TxStateEvent::Dispute { amount },
                        ]);
                    },
                    _ => {},
                }
            },
            None => {},
        }
    }
}

/// A transaction that starts uninitialized emits, whatever events reach it,
/// a prefix of one lifecycle: a withdrawal, or a deposit followed at most by
/// one dispute and then one resolve or chargeback, all of the deposit's
/// amount. So no transaction is disputed twice, and only a deposit is ever
/// disputed.
pub proof fn replay_emits_a_lifecycle(events: Seq<TxEvent>)
    ensures
        is_lifecycle(replay(TxState::Uninitialized, events).1),
{
    lemma_replay_history(events);
}

/// A withdrawal, a resolve and a chargeback are terminal: a transaction in
/// one of these states refuses every event.
pub proof fn terminal_states_refuse_every_event(s: TxState, e: TxEvent)
    requires
        (s is Withdrawal) || (s is Resolve) || (s is Chargeback),
    ensures
        s.transition(e) == None::<(TxState, TxStateEvent)>,
{
}

/// Only a deposit can be disputed, and only a disputed deposit can be
/// resolved or charged back; each of these moves the deposit's amount. A
/// deposit or a withdrawal only starts a transaction.
pub proof fn transitions_follow_the_lifecycle(s: TxState, e: TxEvent, next: TxState, out: TxStateEvent)
    requires
        s.transition(e) == Some((next, out)),
    ensures
        (e is Dispute) ==> (s == TxState::Deposit { amount: out.amount() }),
        (e is Resolve) || (e is Chargeback) ==> (s == TxState::Dispute { amount: out.amount() }),
        (e is Deposit) || (e is Withdrawal) ==> (s == TxState::Uninitialized),
{
}

/// Every step of the lifecycle is taken, carrying the amount along: a
/// transaction with no history takes a deposit or a withdrawal of any amount;
/// a deposit can be disputed; a disputed deposit can be resolved or charged
/// back; each emits the state event of the same kind and amount.
pub proof fn lifecycle_steps_are_taken(a: Amount)
    ensures
        TxState::Uninitialized.transition(TxEvent::Deposit { amount: a }) == Some(
            (TxState::Deposit { amount: a }, TxStateEvent::Deposit { amount: a }),
        ),
        TxState::Uninitialized.transition(TxEvent::Withdrawal { amount: a }) == Some(
            (TxState::Withdrawal, TxStateEvent::Withdrawal { amount: a }),
        ),
        (TxState::Deposit { amount: a }).transition(TxEvent::Dispute) == Some(
            (TxState::Dispute { amount: a }, TxStateEvent::Dispute { amount: a }),
        ),
        (TxState::Dispute { amount: a }).transition(TxEvent::Resolve) == Some(
            (TxState::Resolve, TxStateEvent::Resolve { amount: a }),
        ),
        (TxState::Dispute { amount: a }).transition(TxEvent::Chargeback) == Some(
            (TxState::Chargeback, TxStateEvent::Chargeback { amount: a }),
        ),
{
}

} // verus!
