//! Accounts as the handler sees them for the length of one invocation.

use vstd::prelude::*;
use vstd::std_specs::cmp::PartialEqSpecImpl;

verus! {

/// The identity of an account or of a program: thirty-two bytes, compared
/// byte by byte.
#[derive(Debug, Clone, Copy, Eq)]
pub struct Identity(pub [u8; 32]);

impl PartialEq for Identity {
    fn eq(&self, other: &Self) -> (equal: bool) {
        let mut i: usize = 0;
        while i < 32
            invariant
                i <= 32,
                forall|j: int| 0 <= j < i ==> self.0[j] == other.0[j],
            decreases 32 - i,
        {
            if self.0[i] != other.0[i] {
                return false;
            }
            i += 1;
        }
        assert(self.0 =~= other.0);
        true
    }
}

impl PartialEqSpecImpl for Identity {
    open spec fn obeys_eq_spec() -> bool {
        true
    }

    open spec fn eq_spec(&self, other: &Self) -> bool {
        *self == *other
    }
}

/// One account handed to the handler: whether it signed the invocation, which
/// program owns it, and its storage.
#[derive(Debug, PartialEq, Eq)]
pub struct Account {
    pub is_signer: bool,
    pub owner: Identity,
    pub data: Vec<u8>,
}

/// An account with its storage taken as a sequence of bytes.
pub struct AccountView {
    pub is_signer: bool,
    pub owner: Identity,
    pub data: Seq<u8>,
}

impl View for Account {
    type V = AccountView;

    open spec fn view(&self) -> AccountView {
        AccountView { is_signer: self.is_signer, owner: self.owner, data: self.data@ }
    }
}

impl DeepView for Account {
    type V = AccountView;

    open spec fn deep_view(&self) -> AccountView {
        self@
    }
}

} // verus!
