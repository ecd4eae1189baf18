use vstd::prelude::*;

verus! {

/// Identifier of a client account.
pub type ClientID = u16;

/// Identifier of a transaction.
pub type TxID = u32;

/// A non-negative amount of money, counted in ten-thousandths of a unit.
#[derive(PartialEq, Eq, Structural, PartialOrd, Clone, Copy, Debug)]
pub struct Amount(pub u64);

impl Amount {
    /// The amount as a mathematical integer.
    pub open spec fn value(self) -> int {
        self.0 as int
    }

    /// The amount of nothing.
    pub fn zero() -> (r: Self)
        ensures
            r.value() == 0,
    {
        Amount(0)
    }

    /// Adds `rhs` into `self`.
    pub fn add_assign(&mut self, rhs: Amount)
        requires
            old(self).value() + rhs.value() <= u64::MAX,
        ensures
            final(self).value() == old(self).value() + rhs.value(),
    {
        self.0 = self.0 + rhs.0;
    }

    /// Takes `rhs` out of `self`.
    pub fn sub_assign(&mut self, rhs: Amount)
        requires
            rhs.value() <= old(self).value(),
        ensures
            final(self).value() == old(self).value() - rhs.value(),
    {
        self.0 = self.0 - rhs.0;
    }
}

impl vstd::std_specs::ops::AddSpecImpl for Amount {
    open spec fn obeys_add_spec() -> bool {
        true
    }

    open spec fn add_req(self, rhs: Amount) -> bool {
        self.0 + rhs.0 <= u64::MAX
    }

    open spec fn add_spec(self, rhs: Amount) -> Amount {
        Amount((self.0 + rhs.0) as u64)
    }
}

impl std::ops::Add for Amount {
    type Output = Amount;

    fn add(self, rhs: Amount) -> (r: Amount) {
        Amount(self.0 + rhs.0)
    }
}

} // verus!
