//! Account handles and storage slots as the program sees them.
//!
//! A slot is a byte buffer of fixed capacity that is allocated once. An
//! empty buffer stands for a slot that has not been allocated yet.

use crate::address::Address;
use crate::error::ReviewError;
use vstd::prelude::*;

verus! {

/// An account handed to an operation: its address, its owner, whether its
/// holder signed, and the bytes stored in it.
#[derive(Clone, Debug, PartialEq, Eq)]
pub struct Account {
    pub key: Address,
    pub owner: Address,
    pub is_signer: bool,
    pub data: Vec<u8>,
}

/// The mathematical value of an [`Account`].
pub struct AccountView {
    pub key: Seq<u8>,
    pub owner: Seq<u8>,
    pub is_signer: bool,
    pub data: Seq<u8>,
}

impl View for Account {
    type V = AccountView;

    open spec fn view(&self) -> AccountView {
        AccountView {
            key: self.key@,
            owner: self.owner@,
            is_signer: self.is_signer,
            data: self.data@,
        }
    }
}

impl DeepView for Account {
    type V = AccountView;

    open spec fn deep_view(&self) -> AccountView {
        self@
    }
}

/// `n` zero bytes: the contents of a slot right after allocation.
pub open spec fn zeroed(n: nat) -> Seq<u8> {
    Seq::new(n, |i: int| 0u8)
}

impl AccountView {
    /// Whether the value is one that an account can have: its addresses
    /// are 32 bytes wide.
    pub open spec fn valid(self) -> bool {
        self.key.len() == 32 && self.owner.len() == 32
    }

    /// Whether the slot has been allocated.
    pub open spec fn is_allocated(self) -> bool {
        self.data.len() > 0
    }

    /// The slot after a request to allocate `space` bytes for `owner`.
    /// Allocation happens once: a slot that is allocated already stays as
    /// it is.
    pub open spec fn allocate(self, space: nat, owner: Seq<u8>) -> AccountView {
        if self.is_allocated() {
            self
        } else {
            AccountView { owner, data: zeroed(space), ..self }
        }
    }

    /// The slot with `record` written over the start of its bytes.
    pub open spec fn store(self, record: Seq<u8>) -> AccountView {
        AccountView { data: stored(self.data, record), ..self }
    }
}

/// Whether every account of a list is one that an account can be.
pub open spec fn valid_accounts(accounts: Seq<AccountView>) -> bool {
    forall|i: int| 0 <= i < accounts.len() ==> (#[trigger] accounts[i]).valid()
}

/// The accounts that a program is handed are valid.
pub proof fn lemma_views_are_valid(accounts: Vec<Account>)
    ensures
        valid_accounts(accounts.deep_view()),
{
    assert forall|i: int| 0 <= i < accounts.deep_view().len() implies (
    #[trigger] accounts.deep_view()[i]).valid() by {
        assert(accounts.deep_view()[i] == accounts[i]@);
    }
}

/// `data` with `record` written over its start; the rest stays.
pub open spec fn stored(data: Seq<u8>, record: Seq<u8>) -> Seq<u8> {
    record + data.subrange(record.len() as int, data.len() as int)
}

impl Account {
    /// An account with the given parts.
    pub fn new(key: Address, owner: Address, is_signer: bool, data: Vec<u8>) -> (a: Account)
        ensures
            a.key == key,
            a.owner == owner,
            a.is_signer == is_signer,
            a.data == data,
    {
        Account { key, owner, is_signer, data }
    }

    /// A slot at `key` that has not been allocated, with `owner` as the
    /// owner that such a slot has.
    pub fn unallocated(key: Address, owner: Address) -> (a: Account)
        ensures
            a@ == (AccountView { key: key@, owner: owner@, is_signer: false, data: Seq::empty() }),
    {
        Account { key, owner, is_signer: false, data: Vec::new() }
    }

    /// Whether the slot has been allocated.
    pub fn is_allocated(&self) -> (r: bool)
        ensures
            r == self@.is_allocated(),
    {
        self.data.len() > 0
    }

    /// The slot after a request to allocate `space` bytes for `owner`.
    pub fn allocate(&self, space: usize, owner: &Address) -> (a: Account)
        ensures
            a@ == self@.allocate(space as nat, owner@),
    {
        if self.data.len() > 0 {
            Account {
                key: self.key,
                owner: self.owner,
                is_signer: self.is_signer,
                data: self.data.clone(),
            }
        } else {
            let data = vec![0u8; space];
            assert(data@ =~= zeroed(space as nat));
            Account { key: self.key, owner: *owner, is_signer: self.is_signer, data }
        }
    }

    /// The slot with `record` written over the start of its bytes. A record
    /// longer than the slot is rejected with `AccountDataTooSmall`: slots do
    /// not grow.
    pub fn store(&self, record: &Vec<u8>) -> (r: Result<Account, ReviewError>)
        ensures
            match r {
                Ok(a) => record.len() <= self.data.len() && a@ == self@.store(record@),
                Err(e) => record.len() > self.data.len() && e == ReviewError::AccountDataTooSmall,
            },
    {
        if record.len() > self.data.len() {
            return Err(ReviewError::AccountDataTooSmall);
        }
        let mut data = record.clone();
        let mut i: usize = record.len();
        while i < self.data.len()
            invariant
                record.len() <= i <= self.data.len(),
                data@ == record@ + self.data@.subrange(record.len() as int, i as int),
            decreases self.data.len() - i,
        {
            data.push(self.data[i]);
            i += 1;
            assert(data@ =~= record@ + self.data@.subrange(record.len() as int, i as int));
        }
        Ok(Account { key: self.key, owner: self.owner, is_signer: self.is_signer, data })
    }
}

} // verus!
