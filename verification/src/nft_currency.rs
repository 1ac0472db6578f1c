//! The custody ledger: who owns each token, who holds it, and who may act
//! for the owner.

use vstd::prelude::*;
use crate::bytes::{
    account_strings, byte_strings, bytes_equal, copy_byte_strings, copy_bytes, lemma_account_deep_view,
    lemma_account_strings_deep_view, lemma_byte_strings_deep_view, lemma_bytes_deep_view, same_account,
    AccountId,
};
use crate::nft_currency::index::{first_position, index_at, lemma_first_position, swap_removed};
use crate::nft_currency::model::{
    lemma_annotations_wf, lemma_empty_wf, lemma_mint_wf, lemma_owner_lists_token, lemma_transfer_custodian,
    lemma_transfer_ownership_wf, LedgerView,
};
use crate::storage::Table;

pub mod index;
pub mod model;
pub mod nft;

pub use nft::NonFungibleToken;

verus! {

/// Why the ledger refused an operation.
#[derive(Clone, Copy, Debug, PartialEq, Eq, Structural)]
pub enum Error {
    /// The caller does not own the token.
    NotOwner,
    /// Nothing is recorded under the key that was asked for.
    NoneExist,
    /// The caller neither owns the token nor acts for its owner.
    NotOwnerNorApproved,
    /// The account neither owns the token nor holds it.
    NotCustodian,
}

/// What an operation on the ledger reports.
#[derive(Clone, Debug, PartialEq)]
pub enum Event {
    /// A token was minted: its owner and its id.
    Mint(AccountId, Vec<u8>),
    /// A token changed its owner: from, to, and its id.
    Transfer(AccountId, AccountId, Vec<u8>),
    /// A token's resource identifier was set: the id and the identifier.
    SetURI(Vec<u8>, Vec<u8>),
    /// An account was approved for a token: owner, approved account, token id.
    Approve(AccountId, AccountId, Vec<u8>),
    /// An account let another act for it: owner and operator.
    ApproveForAll(AccountId, AccountId),
}

/// The ledger.
pub struct Pallet {
    total_tokens: u32,
    token_uri: Table<Vec<u8>, Vec<u8>>,
    owner_of: Table<Vec<u8>, AccountId>,
    custodian_of: Table<Vec<u8>, AccountId>,
    list_owned: Table<AccountId, Vec<Vec<u8>>>,
    approval: Table<(AccountId, AccountId), bool>,
    token_approval: Table<Vec<u8>, Vec<AccountId>>,
}

impl Pallet {
    /// Every table holds each key once.
    pub closed spec fn tables_wf(&self) -> bool {
        &&& self.token_uri.wf()
        &&& self.owner_of.wf()
        &&& self.custodian_of.wf()
        &&& self.list_owned.wf()
        &&& self.approval.wf()
        &&& self.token_approval.wf()
    }

    /// The ledger's state.
    pub closed spec fn view(&self) -> LedgerView {
        LedgerView {
            total_supply: self.total_tokens as nat,
            owners: self.owner_of@,
            custodians: self.custodian_of@,
            uris: self.token_uri@,
            owned: self.list_owned@,
            operators: self.approval@,
            approvals: self.token_approval@,
        }
    }

    /// A ledger in which nothing was minted.
    pub fn new() -> (ledger: Self)
        ensures
            ledger.wf(),
            ledger.ledger() == LedgerView::empty(),
    {
        proof {
            lemma_empty_wf();
        }
        Pallet {
            total_tokens: 0,
            token_uri: Table::new(),
            owner_of: Table::new(),
            custodian_of: Table::new(),
            list_owned: Table::new(),
            approval: Table::new(),
            token_approval: Table::new(),
        }
    }

    /// How many tokens were minted.
    pub fn total_tokens(&self) -> (total: u32)
        ensures
            total == self.ledger().total_supply,
    {
        self.total_tokens
    }

    /// The owner of a token, if it was minted.
    pub fn owner_of(&self, token_id: &Vec<u8>) -> (owner: Option<AccountId>)
        requires
            self.wf(),
        ensures
            match owner {
                Some(account) => self.ledger().minted(token_id@) && account@ == self.ledger().owners[token_id@],
                None => !self.ledger().minted(token_id@),
            },
    {
        match self.owner_of.get(token_id) {
            Some(account) => {
                proof {
                    lemma_account_deep_view(account);
                }
                Some(*account)
            },
            None => None,
        }
    }

    /// The account that holds a token in custody, if it is not its owner.
    pub fn custodian_of(&self, token_id: &Vec<u8>) -> (custodian: Option<AccountId>)
        requires
            self.wf(),
        ensures
            match custodian {
                Some(account) => self.ledger().custodians.contains_key(token_id@) && account@
                    == self.ledger().custodians[token_id@],
                None => !self.ledger().custodians.contains_key(token_id@),
            },
    {
        match self.custodian_of.get(token_id) {
            Some(account) => {
                proof {
                    lemma_account_deep_view(account);
                }
                Some(*account)
            },
            None => None,
        }
    }

    /// The tokens that an account owns.
    pub fn list_owned(&self, account: &AccountId) -> (tokens: Vec<Vec<u8>>)
        requires
            self.wf(),
        ensures
            byte_strings(tokens@) == index_at(self.ledger().owned, account@),
    {
        match self.list_owned.get(account) {
            Some(list) => {
                proof {
                    lemma_byte_strings_deep_view(list);
                }
                copy_byte_strings(list)
            },
            None => {
                let tokens: Vec<Vec<u8>> = Vec::new();
                tokens
            },
        }
    }

    /// The accounts approved for a token, in the order of their approval;
    /// `NoneExist` where none was ever approved.
    pub fn token_approval(&self, token_id: &Vec<u8>) -> (approved: Result<Vec<AccountId>, Error>)
        requires
            self.wf(),
        ensures
            match approved {
                Ok(accounts) => self.ledger().approvals.contains_key(token_id@) && account_strings(accounts@)
                    == self.ledger().approvals[token_id@],
                Err(e) => e == Error::NoneExist && !self.ledger().approvals.contains_key(token_id@),
            },
    {
        match self.token_approval.get(token_id) {
            Some(list) => {
                proof {
                    lemma_account_strings_deep_view(list);
                }
                let mut accounts: Vec<AccountId> = Vec::new();
                let mut i: usize = 0;
                while i < list.len()
                    invariant
                        i <= list@.len(),
                        accounts@ == list@.subrange(0, i as int),
                    decreases list@.len() - i,
                {
                    accounts.push(list[i]);
                    i += 1;
                }
                Ok(accounts)
            },
            None => Err(Error::NoneExist),
        }
    }

    /// The seed from which the next token's id is drawn: the supply so far,
    /// as four bytes, lowest first.
    pub fn gen_token_seed(&self) -> (seed: Vec<u8>)
        ensures
            seed@ == supply_seed(self.ledger().total_supply),
    {
        let n = self.total_tokens;
        let mut seed: Vec<u8> = Vec::new();
        seed.push((n % 256) as u8);
        seed.push(((n / 256) % 256) as u8);
        seed.push(((n / 65536) % 256) as u8);
        seed.push((n / 16777216) as u8);
        seed
    }

    /// Mints the token `token_id`, which must be new, to `to`.
    pub fn mint_to(&mut self, to: AccountId, token_id: Vec<u8>) -> (event: Result<Event, Error>)
        requires
            old(self).wf(),
            !old(self).ledger().minted(token_id@),
            old(self).ledger().total_supply < u32::MAX,
        ensures
            final(self).wf(),
            final(self).ledger() == old(self).ledger().after_mint(to@, token_id@),
            event matches Ok(Event::Mint(owner, id)) && owner@ == to@ && id@ == token_id@,
    {
        match self.mint(to, token_id) {
            Ok(id) => Ok(Event::Mint(to, id)),
            Err(e) => Err(e),
        }
    }

    /// Moves the ownership of a token from the caller `who`, its owner, to `to`.
    pub fn transfer_ownership(&mut self, who: AccountId, to: AccountId, token_id: Vec<u8>) -> (event: Result<Event, Error>)
        requires
            old(self).wf(),
        ensures
            final(self).wf(),
            match old(self).ledger().owner_refusal(who@, token_id@) {
                Some(e) => event == Err::<Event, Error>(e) && final(self).ledger() == old(self).ledger(),
                None => {
                    &&& event matches Ok(Event::Transfer(from, target, id)) && from@ == who@ && target@ == to@
                        && id@ == token_id@
                    &&& final(self).ledger() == old(self).ledger().after_transfer_ownership(who@, to@, token_id@)
                },
            },
    {
        match self.owner_of(&token_id) {
            None => Err(Error::NoneExist),
            Some(owner) => {
                if !same_account(&who, &owner) {
                    return Err(Error::NotOwner);
                }
                let id = copy_bytes(token_id.as_slice());
                match NonFungibleToken::transfer_ownership(self, who, to, token_id) {
                    Ok(()) => Ok(Event::Transfer(who, to, id)),
                    Err(e) => Err(e),
                }
            },
        }
    }

    /// Moves the ownership of a token from `from` to `to`, for a caller `who`
    /// that owns the token or that `from` let act for it. The token must be
    /// `from`'s to give: a caller that passes the check hands in the owner.
    pub fn safe_transfer_ownership(
        &mut self,
        who: AccountId,
        from: AccountId,
        to: AccountId,
        token_id: Vec<u8>,
    ) -> (event: Result<Event, Error>)
        requires
            old(self).wf(),
            old(self).ledger().transfer_refusal(who@, from@, token_id@) is None ==> old(
                self,
            ).ledger().owners[token_id@] == from@,
        ensures
            final(self).wf(),
            match old(self).ledger().transfer_refusal(who@, from@, token_id@) {
                Some(e) => event == Err::<Event, Error>(e) && final(self).ledger() == old(self).ledger(),
                None => {
                    &&& event matches Ok(Event::Transfer(source, target, id)) && source@ == from@ && target@
                        == to@ && id@ == token_id@
                    &&& final(self).ledger() == old(self).ledger().after_transfer_ownership(
                        from@,
                        to@,
                        token_id@,
                    )
                },
            },
    {
        match self.owner_of(&token_id) {
            None => Err(Error::NoneExist),
            Some(owner) => {
                if !same_account(&who, &owner) {
                    match self.is_approve_for_all((from, who)) {
                        Err(e) => {
                            return Err(e);
                        },
                        Ok(false) => {
                            return Err(Error::NotOwnerNorApproved);
                        },
                        Ok(true) => {},
                    }
                }
                let id = copy_bytes(token_id.as_slice());
                match NonFungibleToken::transfer_ownership(self, from, to, token_id) {
                    Ok(()) => Ok(Event::Transfer(from, to, id)),
                    Err(e) => Err(e),
                }
            },
        }
    }

    /// Adds `to` to the accounts approved for a token, for the caller `who`, its owner.
    pub fn approve(&mut self, who: AccountId, to: AccountId, token_id: Vec<u8>) -> (event: Result<Event, Error>)
        requires
            old(self).wf(),
        ensures
            final(self).wf(),
            match old(self).ledger().owner_refusal(who@, token_id@) {
                Some(e) => event == Err::<Event, Error>(e) && final(self).ledger() == old(self).ledger(),
                None => {
                    &&& event matches Ok(Event::Approve(owner, approved, id)) && owner@ == who@ && approved@
                        == to@ && id@ == token_id@
                    &&& final(self).ledger() == old(self).ledger().after_approve(to@, token_id@)
                },
            },
    {
        match self.owner_of(&token_id) {
            None => Err(Error::NoneExist),
            Some(owner) => {
                let id = copy_bytes(token_id.as_slice());
                match NonFungibleToken::approve(self, who, to, token_id) {
                    Ok(()) => Ok(Event::Approve(who, to, id)),
                    Err(e) => Err(e),
                }
            },
        }
    }

    /// Records that the caller `who` lets `account` act for it.
    pub fn approve_for_all(&mut self, who: AccountId, account: AccountId) -> (event: Result<Event, Error>)
        requires
            old(self).wf(),
        ensures
            final(self).wf(),
            final(self).ledger() == old(self).ledger().after_approve_for_all(who@, account@),
            event matches Ok(Event::ApproveForAll(owner, operator)) && owner@ == who@ && operator@ == account@,
    {
        match self.set_approve_for_all(who, account) {
            Ok(()) => Ok(Event::ApproveForAll(who, account)),
            Err(e) => Err(e),
        }
    }

    /// Sets a token's resource identifier, for the caller `who`, its owner.
    pub fn set_token_uri(&mut self, who: AccountId, token_id: Vec<u8>, token_uri: Vec<u8>) -> (event: Result<Event, Error>)
        requires
            old(self).wf(),
        ensures
            final(self).wf(),
            match old(self).ledger().owner_refusal(who@, token_id@) {
                Some(e) => event == Err::<Event, Error>(e) && final(self).ledger() == old(self).ledger(),
                None => {
                    &&& event matches Ok(Event::SetURI(id, uri)) && id@ == token_id@ && uri@ == token_uri@
                    &&& final(self).ledger() == old(self).ledger().after_set_uri(token_id@, token_uri@)
                },
            },
    {
        match self.owner_of(&token_id) {
            None => Err(Error::NoneExist),
            Some(owner) => {
                if !same_account(&who, &owner) {
                    return Err(Error::NotOwner);
                }
                let id = copy_bytes(token_id.as_slice());
                let uri = copy_bytes(token_uri.as_slice());
                match NonFungibleToken::set_token_uri(self, token_id, token_uri) {
                    Ok(()) => Ok(Event::SetURI(id, uri)),
                    Err(e) => Err(e),
                }
            },
        }
    }

    /// Appends `token_id` to the list of tokens that `owner` owns.
    fn push_owned(&mut self, owner: &AccountId, token_id: &Vec<u8>)
        requires
            old(self).tables_wf(),
        ensures
            final(self).tables_wf(),
            final(self)@ == (LedgerView {
                owned: old(self)@.owned.insert(owner@, index_at(old(self)@.owned, owner@).push(token_id@)),
                ..old(self)@
            }),
    {
        let mut list = match self.list_owned.remove(owner) {
            Some(list) => list,
            None => Vec::new(),
        };
        proof {
            lemma_byte_strings_deep_view(&list);
            assert(list.deep_view() =~= index_at(old(self)@.owned, owner@));
        }
        let ghost before = list@;
        list.push(copy_bytes(token_id.as_slice()));
        proof {
            lemma_byte_strings_deep_view(&list);
            assert(byte_strings(list@) =~= byte_strings(before).push(token_id@));
        }
        self.list_owned.insert(*owner, list);
        assert(self@.owned =~= old(self)@.owned.insert(owner@, index_at(old(self)@.owned, owner@).push(token_id@)));
    }

    /// Appends `account` to the accounts approved for `token_id`.
    fn push_approved(&mut self, token_id: &Vec<u8>, account: AccountId)
        requires
            old(self).tables_wf(),
        ensures
            final(self).tables_wf(),
            final(self)@ == (LedgerView {
                approvals: old(self)@.approvals.insert(token_id@, old(self)@.approved_for(token_id@).push(account@)),
                ..old(self)@
            }),
    {
        let mut approved = match self.token_approval.remove(token_id) {
            Some(approved) => approved,
            None => Vec::new(),
        };
        proof {
            lemma_account_strings_deep_view(&approved);
            assert(approved.deep_view() =~= old(self)@.approved_for(token_id@));
        }
        let ghost before = approved@;
        approved.push(account);
        proof {
            lemma_account_strings_deep_view(&approved);
            assert(account_strings(approved@) =~= account_strings(before).push(account@));
        }
        self.token_approval.insert(copy_bytes(token_id.as_slice()), approved);
        assert(self@.approvals =~= old(self)@.approvals.insert(
            token_id@,
            old(self)@.approved_for(token_id@).push(account@),
        ));
    }
}

impl NonFungibleToken for Pallet {
    closed spec fn ledger(&self) -> LedgerView {
        self@
    }

    closed spec fn wf(&self) -> bool {
        self.tables_wf() && self@.wf()
    }

    proof fn lemma_wf(&self) {
    }

    fn token_uri(&self, token_id: &Vec<u8>) -> (uri: Result<Vec<u8>, Error>) {
        match self.token_uri.get(token_id) {
            Some(bytes) => {
                proof {
                    lemma_bytes_deep_view(bytes);
                }
                Ok(copy_bytes(bytes.as_slice()))
            },
            None => Err(Error::NoneExist),
        }
    }

    fn custodian_of_token(&self, token_id: &Vec<u8>) -> (custodian: Result<AccountId, Error>) {
        match self.custodian_of.get(token_id) {
            Some(account) => {
                proof {
                    lemma_account_deep_view(account);
                }
                Ok(*account)
            },
            None => Err(Error::NoneExist),
        }
    }

    fn owner_of_token(&self, token_id: &Vec<u8>) -> (owner: Result<AccountId, Error>) {
        match self.owner_of.get(token_id) {
            Some(account) => {
                proof {
                    lemma_account_deep_view(account);
                }
                Ok(*account)
            },
            None => Err(Error::NoneExist),
        }
    }

    fn mint(&mut self, owner: AccountId, token_id: Vec<u8>) -> (minted: Result<Vec<u8>, Error>) {
        proof {
            lemma_mint_wf(self@, owner@, token_id@);
            lemma_account_deep_view(&owner);
        }
        self.total_tokens = self.total_tokens + 1;
        self.owner_of.insert(copy_bytes(token_id.as_slice()), owner);
        self.push_owned(&owner, &token_id);
        self.push_approved(&token_id, owner);
        Ok(token_id)
    }

    fn transfer_ownership(&mut self, from: AccountId, to: AccountId, token_id: Vec<u8>) -> (done: Result<(), Error>) {
        proof {
            lemma_transfer_ownership_wf(self@, from@, to@, token_id@);
            lemma_owner_lists_token(self@, token_id@);
            lemma_account_deep_view(&to);
        }
        self.owner_of.insert(copy_bytes(token_id.as_slice()), to);
        let held_by_new_owner = match self.custodian_of.get(&token_id) {
            Some(custodian) => {
                proof {
                    lemma_account_deep_view(custodian);
                }
                same_account(custodian, &to)
            },
            None => false,
        };
        if held_by_new_owner {
            let _ = self.custodian_of.remove(&token_id);
        }
        self.push_owned(&to, &token_id);
        let mut source = match self.list_owned.remove(&from) {
            Some(list) => list,
            None => Vec::new(),
        };
        proof {
            lemma_byte_strings_deep_view(&source);
        }
        let ghost before = source@;
        match token_position(&source, &token_id) {
            Some(at) => {
                source.swap_remove(at);
                proof {
                    lemma_byte_strings_deep_view(&source);
                    assert(byte_strings(source@) =~= swap_removed(byte_strings(before), at as int));
                }
            },
            None => {},
        }
        self.list_owned.insert(from, source);
        proof {
            let target = old(self)@.after_transfer_ownership(from@, to@, token_id@);
            assert(self@.owned =~= target.owned);
        }
        Ok(())
    }

    fn transfer_custodian(&mut self, from: AccountId, to: AccountId, token_id: Vec<u8>) -> (done: Result<(), Error>) {
        let owner = match self.owner_of.get(&token_id) {
            Some(owner) => *owner,
            None => {
                return Err(Error::NoneExist);
            },
        };
        proof {
            lemma_account_deep_view(&owner);
            lemma_account_deep_view(&to);
        }
        let holds = same_account(&owner, &from) || match self.custodian_of.get(&token_id) {
            Some(custodian) => {
                proof {
                    lemma_account_deep_view(custodian);
                }
                same_account(custodian, &from)
            },
            None => false,
        };
        if !holds {
            return Err(Error::NotCustodian);
        }
        proof {
            lemma_transfer_custodian(self@, to@, token_id@);
        }
        if same_account(&to, &owner) {
            let _ = self.custodian_of.remove(&token_id);
        } else {
            self.custodian_of.insert(token_id, to);
        }
        Ok(())
    }

    fn set_token_uri(&mut self, token_id: Vec<u8>, token_uri: Vec<u8>) -> (done: Result<(), Error>) {
        proof {
            lemma_annotations_wf(self@, Seq::empty(), Seq::empty(), token_id@, token_uri@);
            lemma_bytes_deep_view(&token_uri);
        }
        self.token_uri.insert(token_id, token_uri);
        Ok(())
    }

    fn is_approve_for_all(&self, account_approve: (AccountId, AccountId)) -> (approved: Result<bool, Error>) {
        match self.approval.get(&account_approve) {
            Some(flag) => Ok(*flag),
            None => Err(Error::NoneExist),
        }
    }

    fn approve(&mut self, from: AccountId, to: AccountId, token_id: Vec<u8>) -> (done: Result<(), Error>) {
        let owner = match self.owner_of.get(&token_id) {
            Some(owner) => *owner,
            None => {
                return Err(Error::NoneExist);
            },
        };
        proof {
            lemma_account_deep_view(&owner);
        }
        if !same_account(&from, &owner) {
            return Err(Error::NotOwner);
        }
        proof {
            lemma_annotations_wf(self@, from@, to@, token_id@, Seq::empty());
        }
        self.push_approved(&token_id, to);
        Ok(())
    }

    fn set_approve_for_all(&mut self, from: AccountId, to: AccountId) -> (done: Result<(), Error>) {
        proof {
            lemma_annotations_wf(self@, from@, to@, Seq::empty(), Seq::empty());
        }
        self.approval.insert((from, to), true);
        Ok(())
    }
}

/// The first place at which `token_id` stands in `list`, if it stands there at all.
fn token_position(list: &Vec<Vec<u8>>, token_id: &Vec<u8>) -> (found: Option<usize>)
    ensures
        match found {
            Some(at) => at < list@.len() && at == first_position(byte_strings(list@), token_id@),
            None => !byte_strings(list@).contains(token_id@),
        },
{
    let mut i: usize = 0;
    while i < list.len()
        invariant
            i <= list@.len(),
            forall|j: int| 0 <= j < i ==> byte_strings(list@)[j] != token_id@,
        decreases list@.len() - i,
    {
        if bytes_equal(list[i].as_slice(), token_id.as_slice()) {
            proof {
                let strings = byte_strings(list@);
                assert(strings[i as int] == token_id@);
                lemma_first_position(strings, token_id@);
            }
            return Some(i);
        }
        i += 1;
    }
    None
}

/// The supply counter as four bytes, lowest first.
pub open spec fn supply_seed(supply: nat) -> Seq<u8> {
    seq![
        (supply % 256) as u8,
        ((supply / 256) % 256) as u8,
        ((supply / 65536) % 256) as u8,
        ((supply / 16777216) % 256) as u8,
    ]
}

} // verus!
