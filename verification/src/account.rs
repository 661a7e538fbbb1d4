//! Accounts as an invocation sees them.

use crate::pubkey::Pubkey;
use vstd::prelude::*;

verus! {

/// One account handed to an invocation: who it is, which program controls it,
/// whether it signed, and the bytes it holds.
#[derive(Debug, PartialEq, Eq)]
pub struct Account {
    /// The account's own identity.
    pub key: Pubkey,
    /// The program that controls the account's bytes.
    pub owner: Pubkey,
    /// Whether the account signed the invocation.
    pub is_signer: bool,
    /// The bytes that the account holds.
    pub data: Vec<u8>,
}

/// An account as a mathematical value.
pub struct AccountView {
    pub key: Seq<u8>,
    pub owner: Seq<u8>,
    pub is_signer: bool,
    pub data: Seq<u8>,
}

impl AccountView {
    /// An account is valid when its key and its owner are whole keys. The
    /// view of every `Account` is.
    pub open spec fn valid(self) -> bool {
        self.key.len() == 32 && self.owner.len() == 32
    }
}

impl View for Account {
    type V = AccountView;

    open spec fn view(&self) -> AccountView {
        AccountView {
            key: self.key@,
            owner: self.owner@,
            is_signer: self.is_signer,
            data: self.data@,
        }
    }
}

impl Clone for Account {
    /// A copy that holds the same bytes under the same key, owner and flag.
    fn clone(&self) -> (copy: Account)
        ensures
            copy@ == self@,
    {
        Account {
            key: self.key,
            owner: self.owner,
            is_signer: self.is_signer,
            data: self.data.clone(),
        }
    }
}

/// The accounts of an invocation, in order, as mathematical values.
pub open spec fn account_views(accounts: Seq<Account>) -> Seq<AccountView> {
    Seq::new(accounts.len(), |i: int| accounts[i]@)
}

} // verus!
