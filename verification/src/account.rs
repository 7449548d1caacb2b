use vstd::prelude::*;
use crate::address::Address;

verus! {

/// An account as the host presents it for one instruction: who it is, who owns
/// it, what it holds, and what the transaction allows to be done with it.
#[derive(Clone, Debug, PartialEq, Eq)]
pub struct Account {
    /// The account's own address.
    pub key: Address,
    /// The program that alone may change the account's data.
    pub owner: Address,
    /// The balance of the account.
    pub lamports: u64,
    /// The bytes stored in the account.
    pub data: Vec<u8>,
    /// Whether the transaction carries this account's signature.
    pub is_signer: bool,
    /// Whether the transaction allows the account to be changed.
    pub is_writable: bool,
}

/// An account as contracts speak of it.
pub struct AccountView {
    pub key: Address,
    pub owner: Address,
    pub lamports: u64,
    pub data: Seq<u8>,
    pub is_signer: bool,
    pub is_writable: bool,
}

impl View for Account {
    type V = AccountView;

    open spec fn view(&self) -> AccountView {
        AccountView {
            key: self.key,
            owner: self.owner,
            lamports: self.lamports,
            data: self.data@,
            is_signer: self.is_signer,
            is_writable: self.is_writable,
        }
    }
}

/// The accounts of an instruction as contracts speak of them, in the order in
/// which the host lists them.
pub open spec fn views(accounts: Seq<Account>) -> Seq<AccountView> {
    accounts.map_values(|account: Account| account@)
}

impl AccountView {
    /// The same account with other bytes stored in it.
    pub open spec fn with_data(self, data: Seq<u8>) -> AccountView {
        AccountView { data, ..self }
    }

    /// An account that has never been created, or has been closed: it holds no
    /// balance. The host keeps no account without one.
    pub open spec fn is_closed(self) -> bool {
        self.lamports == 0
    }

    /// An account that nothing has been put into yet: no balance and no data.
    pub open spec fn is_fresh(self) -> bool {
        self.lamports == 0 && self.data.len() == 0
    }
}

} // verus!
