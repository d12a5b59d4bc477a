//! The per-call identity record: who calls, who is called, and how much
//! value came along with the call.

use crate::bytemap::clone_bytes;
use crate::{Balance, Error};
use vstd::prelude::*;

verus! {

/// The all-zero account identifier, the default for both parties of a call.
pub open spec fn zero_account() -> Seq<u8> {
    Seq::new(32, |i: int| 0u8)
}

/// Builds the all-zero account identifier.
pub fn zero_account_vec() -> (r: Vec<u8>)
    ensures
        r@ == zero_account(),
{
    let mut r: Vec<u8> = Vec::new();
    let mut i: usize = 0;
    while i < 32
        invariant
            0 <= i <= 32,
            r@.len() == i,
            forall|j: int| 0 <= j < i ==> r@[j] == 0u8,
        decreases 32 - i,
    {
        r.push(0u8);
        i += 1;
    }
    proof {
        assert(r@ =~= zero_account());
    }
    r
}

/// The context of a contract execution.
pub struct ExecContext {
    /// The caller of the contract execution.
    ///
    /// Might be user or another contract.
    pub caller: Vec<u8>,
    /// The callee of the contract execution.
    pub callee: Vec<u8>,
    /// The value transferred to the contract as part of the call.
    pub value_transferred: Balance,
}

impl ExecContext {
    /// Returns the callee.
    pub fn callee(&self) -> (r: Result<Vec<u8>, Error>)
        ensures
            r matches Ok(v) && v@ == self.callee@,
    {
        Ok(clone_bytes(&self.callee))
    }

    /// Resets the execution context.
    pub fn reset(&mut self)
        ensures
            final(self).caller@ == zero_account(),
            final(self).callee@ == zero_account(),
            final(self).value_transferred == 0,
    {
        self.caller = zero_account_vec();
        self.callee = zero_account_vec();
        self.value_transferred = 0;
    }
}

impl Default for ExecContext {
    /// A context in which nobody calls anybody and no value moves.
    fn default() -> (r: Self)
        ensures
            r.caller@ == zero_account(),
            r.callee@ == zero_account(),
            r.value_transferred == 0,
    {
        ExecContext { caller: zero_account_vec(), callee: zero_account_vec(), value_transferred: 0 }
    }
}

} // verus!
