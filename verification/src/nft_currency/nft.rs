//! What a token ledger offers to the code that builds on it.

use vstd::prelude::*;
use crate::bytes::AccountId;
use crate::nft_currency::model::LedgerView;
use crate::nft_currency::Error;

verus! {

/// A ledger of non-fungible tokens: ownership, custody, approvals.
pub trait NonFungibleToken: Sized {
    /// The ledger's state.
    spec fn ledger(&self) -> LedgerView;

    /// The ledger's representation is sound, and its state well formed.
    spec fn wf(&self) -> bool;

    proof fn lemma_wf(&self)
        requires
            self.wf(),
        ensures
            self.ledger().wf(),
    ;

    /// The resource identifier of a token; `NoneExist` where none was set.
    fn token_uri(&self, token_id: &Vec<u8>) -> (uri: Result<Vec<u8>, Error>)
        requires
            self.wf(),
        ensures
            match uri {
                Ok(bytes) => self.ledger().uris.contains_key(token_id@) && bytes@
                    == self.ledger().uris[token_id@],
                Err(e) => e == Error::NoneExist && !self.ledger().uris.contains_key(token_id@),
            },
    ;

    /// The account that holds a token in custody; `NoneExist` where its owner holds it
    /// or it was never minted.
    fn custodian_of_token(&self, token_id: &Vec<u8>) -> (custodian: Result<AccountId, Error>)
        requires
            self.wf(),
        ensures
            match custodian {
                Ok(account) => self.ledger().custodians.contains_key(token_id@) && account@
                    == self.ledger().custodians[token_id@],
                Err(e) => e == Error::NoneExist && !self.ledger().custodians.contains_key(token_id@),
            },
    ;

    /// The account that owns a token; `NoneExist` where it was never minted.
    fn owner_of_token(&self, token_id: &Vec<u8>) -> (owner: Result<AccountId, Error>)
        requires
            self.wf(),
        ensures
            match owner {
                Ok(account) => self.ledger().minted(token_id@) && account@
                    == self.ledger().owners[token_id@],
                Err(e) => e == Error::NoneExist && !self.ledger().minted(token_id@),
            },
    ;

    /// Mints the token `token_id`, which must be new, to `owner`, and hands the id back.
    fn mint(&mut self, owner: AccountId, token_id: Vec<u8>) -> (minted: Result<Vec<u8>, Error>)
        requires
            old(self).wf(),
            !old(self).ledger().minted(token_id@),
            old(self).ledger().total_supply < u32::MAX,
        ensures
            final(self).wf(),
            final(self).ledger() == old(self).ledger().after_mint(owner@, token_id@),
            final(self).ledger().approvals[token_id@] == seq![owner@],
            minted matches Ok(id) && id@ == token_id@,
    ;

    /// Moves the ownership of a token from its owner `from` to `to`. A
    /// custody record that names `to` goes with it.
    fn transfer_ownership(&mut self, from: AccountId, to: AccountId, token_id: Vec<u8>) -> (done: Result<(), Error>)
        requires
            old(self).wf(),
            old(self).ledger().minted(token_id@),
            old(self).ledger().owners[token_id@] == from@,
        ensures
            final(self).wf(),
            final(self).ledger() == old(self).ledger().after_transfer_ownership(from@, to@, token_id@),
            done is Ok,
    ;

    /// Moves the custody of a token to `to`, on behalf of `from`, who must own
    /// the token or hold it.
    fn transfer_custodian(&mut self, from: AccountId, to: AccountId, token_id: Vec<u8>) -> (done: Result<(), Error>)
        requires
            old(self).wf(),
        ensures
            final(self).wf(),
            done == (if !old(self).ledger().minted(token_id@) {
                Err::<(), Error>(Error::NoneExist)
            } else if !old(self).ledger().holds(from@, token_id@) {
                Err(Error::NotCustodian)
            } else {
                Ok(())
            }),
            done is Ok ==> final(self).ledger() == old(self).ledger().after_transfer_custodian(to@, token_id@),
            done is Err ==> final(self).ledger() == old(self).ledger(),
            done is Ok && to@ == old(self).ledger().owners[token_id@]
                ==> !final(self).ledger().custodians.contains_key(token_id@),
    ;

    /// Sets a token's resource identifier.
    fn set_token_uri(&mut self, token_id: Vec<u8>, token_uri: Vec<u8>) -> (done: Result<(), Error>)
        requires
            old(self).wf(),
        ensures
            final(self).wf(),
            final(self).ledger() == old(self).ledger().after_set_uri(token_id@, token_uri@),
            done is Ok,
    ;

    /// Whether the first account let the second act for it; `NoneExist`
    /// where nothing was ever recorded for the pair.
    fn is_approve_for_all(&self, account_approve: (AccountId, AccountId)) -> (approved: Result<bool, Error>)
        requires
            self.wf(),
        ensures
            match approved {
                Ok(flag) => self.ledger().operators.contains_key((account_approve.0@, account_approve.1@))
                    && flag == self.ledger().operators[(account_approve.0@, account_approve.1@)],
                Err(e) => e == Error::NoneExist && !self.ledger().operators.contains_key(
                    (account_approve.0@, account_approve.1@),
                ),
            },
    ;

    /// Adds `to` to the accounts approved for a token; only the owner may.
    fn approve(&mut self, from: AccountId, to: AccountId, token_id: Vec<u8>) -> (done: Result<(), Error>)
        requires
            old(self).wf(),
        ensures
            final(self).wf(),
            done == (if !old(self).ledger().minted(token_id@) {
                Err::<(), Error>(Error::NoneExist)
            } else if old(self).ledger().owners[token_id@] != from@ {
                Err(Error::NotOwner)
            } else {
                Ok(())
            }),
            done is Ok ==> final(self).ledger() == old(self).ledger().after_approve(to@, token_id@),
            done is Err ==> final(self).ledger() == old(self).ledger(),
    ;

    /// Records that `from` lets `to` act for it.
    fn set_approve_for_all(&mut self, from: AccountId, to: AccountId) -> (done: Result<(), Error>)
        requires
            old(self).wf(),
        ensures
            final(self).wf(),
            final(self).ledger() == old(self).ledger().after_approve_for_all(from@, to@),
            done is Ok,
    ;
}

} // verus!
