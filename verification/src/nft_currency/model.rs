//! The ledger as mathematics: its state, the operations as functions from
//! state to state, and the invariants that every operation keeps.

use vstd::prelude::*;
use crate::nft_currency::Error;
use crate::nft_currency::index::{
    first_position, index_at, index_total, lemma_first_position, lemma_swap_removed,
    lemma_total_insert, swap_removed,
    OwnerIndex,
};

verus! {

/// The state of a ledger.
pub struct LedgerView {
    /// How many tokens were minted.
    pub total_supply: nat,
    /// Token to the account that owns it.
    pub owners: Map<Seq<u8>, Seq<u8>>,
    /// Token to the account that holds it. A token without an entry is held by its owner.
    pub custodians: Map<Seq<u8>, Seq<u8>>,
    /// Token to its resource identifier.
    pub uris: Map<Seq<u8>, Seq<u8>>,
    /// Account to the tokens it owns.
    pub owned: OwnerIndex,
    /// Pairs (owner, operator) for which the owner let the operator act for it.
    pub operators: Map<(Seq<u8>, Seq<u8>), bool>,
    /// Token to the accounts approved for it, in the order of approval.
    pub approvals: Map<Seq<u8>, Seq<Seq<u8>>>,
}

impl LedgerView {
    /// The ledger in which nothing was minted.
    pub open spec fn empty() -> LedgerView {
        LedgerView {
            total_supply: 0,
            owners: Map::empty(),
            custodians: Map::empty(),
            uris: Map::empty(),
            owned: Map::empty(),
            operators: Map::empty(),
            approvals: Map::empty(),
        }
    }

    /// Whether `token` was minted.
    pub open spec fn minted(self, token: Seq<u8>) -> bool {
        self.owners.contains_key(token)
    }

    /// The accounts approved for `token` so far.
    pub open spec fn approved_for(self, token: Seq<u8>) -> Seq<Seq<u8>> {
        if self.approvals.contains_key(token) {
            self.approvals[token]
        } else {
            Seq::empty()
        }
    }

    /// Whether `account` owns `token` or holds it in custody.
    pub open spec fn holds(self, account: Seq<u8>, token: Seq<u8>) -> bool {
        self.minted(token) && (self.owners[token] == account || (self.custodians.contains_key(token)
            && self.custodians[token] == account))
    }

    /// The records agree: the owner index lists each minted token once,
    /// under its owner, and nothing else; the supply counts the minted
    /// tokens; no token has its owner recorded as its custodian; and only a
    /// minted token has approvals, its first from the mint.
    pub open spec fn wf(self) -> bool {
        &&& self.owners.dom().finite()
        &&& self.owned.dom().finite()
        &&& self.total_supply == self.owners.dom().len()
        &&& index_total(self.owned) == self.total_supply
        &&& forall|token: Seq<u8>| #[trigger]
            self.owners.contains_key(token) ==> index_at(self.owned, self.owners[token]).contains(token)
        &&& forall|account: Seq<u8>, i: int|
            self.owned.contains_key(account) && 0 <= i < self.owned[account].len() ==> {
                &&& self.owners.contains_key(#[trigger] self.owned[account][i])
                &&& self.owners[self.owned[account][i]] == account
            }
        &&& forall|account: Seq<u8>| #[trigger]
            self.owned.contains_key(account) ==> self.owned[account].no_duplicates()
        &&& self.custody_consistent()
        &&& forall|token: Seq<u8>| #[trigger]
            self.approvals.contains_key(token) ==> self.owners.contains_key(token)
        &&& forall|token: Seq<u8>| #[trigger]
            self.owners.contains_key(token) ==> self.approved_for(token).len() > 0
    }

    /// A custody record is that of a minted token, and names an account
    /// other than the token's owner.
    pub open spec fn custody_consistent(self) -> bool {
        forall|token: Seq<u8>| #[trigger]
            self.custodians.contains_key(token) ==> self.owners.contains_key(token)
                && self.custodians[token] != self.owners[token]
    }

    /// Why `who` may not move the ownership of `token` away from `from`, if
    /// anything stands against it: the owner may, and so may an account
    /// that `from` let act for it.
    pub open spec fn transfer_refusal(self, who: Seq<u8>, from: Seq<u8>, token: Seq<u8>) -> Option<Error> {
        if !self.minted(token) {
            Some(Error::NoneExist)
        } else if self.owners[token] == who {
            None
        } else if !self.operators.contains_key((from, who)) {
            Some(Error::NoneExist)
        } else if !self.operators[(from, who)] {
            Some(Error::NotOwnerNorApproved)
        } else {
            None
        }
    }

    /// Why `who` may not act as the owner of `token`, if anything stands against it.
    pub open spec fn owner_refusal(self, who: Seq<u8>, token: Seq<u8>) -> Option<Error> {
        if !self.minted(token) {
            Some(Error::NoneExist)
        } else if self.owners[token] != who {
            Some(Error::NotOwner)
        } else {
            None
        }
    }

    /// Whether this ledger keeps what `before` had on record: every minted
    /// token is still minted, the supply is no smaller, every list of
    /// approvals still starts with the approvals that it held, and every
    /// grant to an operator still stands.
    pub open spec fn keeps(self, before: LedgerView) -> bool {
        &&& self.total_supply >= before.total_supply
        &&& forall|token: Seq<u8>| #[trigger] before.minted(token) ==> self.minted(token)
        &&& forall|token: Seq<u8>| #[trigger]
            before.approved_for(token).is_prefix_of(self.approved_for(token))
        &&& forall|pair: (Seq<u8>, Seq<u8>)|
            before.operators.contains_key(pair) && #[trigger] before.operators[pair]
                ==> self.operators.contains_key(pair) && self.operators[pair]
    }

    /// The ledger after `token` was minted to `owner`.
    pub open spec fn after_mint(self, owner: Seq<u8>, token: Seq<u8>) -> LedgerView {
        LedgerView {
            total_supply: self.total_supply + 1,
            owners: self.owners.insert(token, owner),
            owned: self.owned.insert(owner, index_at(self.owned, owner).push(token)),
            approvals: self.approvals.insert(token, self.approved_for(token).push(owner)),
            ..self
        }
    }

    /// The owner index after `token` went from `from`'s list to `to`'s: it is
    /// appended to `to`'s list, then its first entry in `from`'s list is swap-removed.
    pub open spec fn index_after_transfer(self, from: Seq<u8>, to: Seq<u8>, token: Seq<u8>) -> OwnerIndex {
        let pushed = self.owned.insert(to, index_at(self.owned, to).push(token));
        let source = index_at(pushed, from);
        pushed.insert(from, swap_removed(source, first_position(source, token)))
    }

    /// The ledger after the ownership of `token` went from `from` to `to`.
    /// Where `to` held the token in custody, the custody record goes: the
    /// owner holds the token.
    pub open spec fn after_transfer_ownership(self, from: Seq<u8>, to: Seq<u8>, token: Seq<u8>) -> LedgerView {
        LedgerView {
            owners: self.owners.insert(token, to),
            owned: self.index_after_transfer(from, to, token),
            custodians: if self.custodians.contains_key(token) && self.custodians[token] == to {
                self.custodians.remove(token)
            } else {
                self.custodians
            },
            ..self
        }
    }

    /// The ledger after the custody of `token` went to `to`: held by the
    /// owner again, the token has no custody record.
    pub open spec fn after_transfer_custodian(self, to: Seq<u8>, token: Seq<u8>) -> LedgerView {
        LedgerView {
            custodians: if self.owners[token] == to {
                self.custodians.remove(token)
            } else {
                self.custodians.insert(token, to)
            },
            ..self
        }
    }

    /// The ledger after `to` was approved for `token`.
    pub open spec fn after_approve(self, to: Seq<u8>, token: Seq<u8>) -> LedgerView {
        LedgerView { approvals: self.approvals.insert(token, self.approved_for(token).push(to)), ..self }
    }

    /// The ledger after `from` let `to` act for it.
    pub open spec fn after_approve_for_all(self, from: Seq<u8>, to: Seq<u8>) -> LedgerView {
        LedgerView { operators: self.operators.insert((from, to), true), ..self }
    }

    /// The ledger after `token`'s resource identifier was set.
    pub open spec fn after_set_uri(self, token: Seq<u8>, uri: Seq<u8>) -> LedgerView {
        LedgerView { uris: self.uris.insert(token, uri), ..self }
    }
}

/// The empty ledger is well formed.
pub proof fn lemma_empty_wf()
    ensures
        LedgerView::empty().wf(),
{
}

/// Minting a fresh token keeps the ledger well formed; the token's
/// approvals are then its owner alone.
pub proof fn lemma_mint_wf(ledger: LedgerView, owner: Seq<u8>, token: Seq<u8>)
    requires
        ledger.wf(),
        !ledger.minted(token),
    ensures
        ledger.after_mint(owner, token).wf(),
        ledger.after_mint(owner, token).approvals[token] == seq![owner],
        !ledger.after_mint(owner, token).custodians.contains_key(token),
{
    let after = ledger.after_mint(owner, token);
    let list = index_at(ledger.owned, owner);
    lemma_total_insert(ledger.owned, owner, list.push(token));
    assert forall|t: Seq<u8>| #[trigger] after.owners.contains_key(t) implies index_at(
        after.owned,
        after.owners[t],
    ).contains(t) by {
        if t == token {
            assert(list.push(token)[list.len() as int] == token);
        } else {
            let old_list = index_at(ledger.owned, ledger.owners[t]);
            let i = choose|i: int| 0 <= i < old_list.len() && old_list[i] == t;
            if ledger.owners[t] == owner {
                assert(list.push(token)[i] == t);
            }
        }
    }
}

/// In a ledger that is well formed, the owner of a token has it in its list,
/// at the place that `first_position` names.
pub proof fn lemma_owner_lists_token(ledger: LedgerView, token: Seq<u8>)
    requires
        ledger.wf(),
        ledger.minted(token),
    ensures
        ledger.owned.contains_key(ledger.owners[token]),
        ledger.owned[ledger.owners[token]].contains(token),
        0 <= first_position(ledger.owned[ledger.owners[token]], token) < ledger.owned[ledger.owners[token]].len(),
        ledger.owned[ledger.owners[token]][first_position(ledger.owned[ledger.owners[token]], token)] == token,
{
    let owner = ledger.owners[token];
    let list = index_at(ledger.owned, owner);
    lemma_first_position(list, token);
}

/// Moving a token from its owner to another account keeps the ledger well formed.
pub proof fn lemma_transfer_ownership_wf(ledger: LedgerView, from: Seq<u8>, to: Seq<u8>, token: Seq<u8>)
    requires
        ledger.wf(),
        ledger.minted(token),
        ledger.owners[token] == from,
    ensures
        ledger.after_transfer_ownership(from, to, token).wf(),
        from == to ==> ledger.after_transfer_ownership(from, to, token) == ledger,
{
    let after = ledger.after_transfer_ownership(from, to, token);
    lemma_owner_lists_token(ledger, token);
    let target = index_at(ledger.owned, to);
    let pushed = ledger.owned.insert(to, target.push(token));
    let source = index_at(pushed, from);
    lemma_first_position(ledger.owned[from], token);
    if from == to {
        let list = ledger.owned[from];
        let p = first_position(list, token);
        assert(source[p] == token);
        lemma_first_position(source, token);
        let at = first_position(source, token);
        assert(swap_removed(source, at) =~= list);
        assert(after.owned =~= ledger.owned);
        assert(after.owners =~= ledger.owners);
    } else {
        let list = ledger.owned[from];
        let at = first_position(list, token);
        let rest = swap_removed(list, at);
        lemma_swap_removed(list, at);
        assert(!target.contains(token)) by {
            if target.contains(token) {
                let i = choose|i: int| 0 <= i < target.len() && target[i] == token;
            }
        }
        lemma_total_insert(ledger.owned, to, target.push(token));
        lemma_total_insert(pushed, from, rest);
        assert forall|t: Seq<u8>| #[trigger] after.owners.contains_key(t) implies index_at(
            after.owned,
            after.owners[t],
        ).contains(t) by {
            if t == token {
                assert(target.push(token)[target.len() as int] == token);
            } else {
                let holder = ledger.owners[t];
                let old_list = index_at(ledger.owned, holder);
                let i = choose|i: int| 0 <= i < old_list.len() && old_list[i] == t;
                if holder == to {
                    assert(target.push(token)[i] == t);
                }
            }
        }
    }
}

/// A change of custody keeps the ledger well formed, and custody handed
/// to the owner leaves no custody record.
pub proof fn lemma_transfer_custodian(ledger: LedgerView, to: Seq<u8>, token: Seq<u8>)
    requires
        ledger.wf(),
        ledger.minted(token),
    ensures
        ledger.after_transfer_custodian(to, token).wf(),
        to == ledger.owners[token] ==> !ledger.after_transfer_custodian(to, token).custodians.contains_key(token),
        to != ledger.owners[token] ==> ledger.after_transfer_custodian(to, token).custodians[token] == to,
{
}

/// Approvals of a minted token, operator grants and resource identifiers
/// leave the ownership and custody records as they are.
pub proof fn lemma_annotations_wf(ledger: LedgerView, from: Seq<u8>, to: Seq<u8>, token: Seq<u8>, uri: Seq<u8>)
    requires
        ledger.wf(),
    ensures
        ledger.minted(token) ==> ledger.after_approve(to, token).wf(),
        ledger.after_approve_for_all(from, to).wf(),
        ledger.after_set_uri(token, uri).wf(),
{
}

/// In a well-formed ledger no token has its owner recorded as its
/// custodian: a token is held by its owner, without a custody record, or
/// by another account.
pub proof fn lemma_custodian_is_not_owner(ledger: LedgerView, token: Seq<u8>)
    requires
        ledger.wf(),
        ledger.custodians.contains_key(token),
    ensures
        ledger.minted(token),
        ledger.custodians[token] != ledger.owners[token],
{
}

/// In a well-formed ledger the lists of the owner index add up to the
/// supply, and each minted token stands in the list of its owner, once, and
/// in no other list.
pub proof fn lemma_owner_index_partitions(ledger: LedgerView)
    requires
        ledger.wf(),
    ensures
        index_total(ledger.owned) == ledger.total_supply,
        ledger.total_supply == ledger.owners.dom().len(),
        forall|token: Seq<u8>, account: Seq<u8>|
            ledger.minted(token) ==> (#[trigger] index_at(ledger.owned, account).contains(token) <==> account
                == ledger.owners[token]),
        forall|account: Seq<u8>| #[trigger] index_at(ledger.owned, account).no_duplicates(),
{
}

/// The ledger after a sequence of mints, each of an owner and a token.
pub open spec fn after_mints(ledger: LedgerView, mints: Seq<(Seq<u8>, Seq<u8>)>) -> LedgerView
    decreases mints.len(),
{
    if mints.len() == 0 {
        ledger
    } else {
        after_mints(ledger, mints.drop_last()).after_mint(mints.last().0, mints.last().1)
    }
}

/// The tokens of a sequence of mints are new to the ledger and differ from each other.
pub open spec fn fresh_mints(ledger: LedgerView, mints: Seq<(Seq<u8>, Seq<u8>)>) -> bool {
    &&& forall|i: int| 0 <= i < mints.len() ==> !ledger.minted((#[trigger] mints[i]).1)
    &&& forall|i: int, j: int| 0 <= i < j < mints.len() ==> (#[trigger] mints[i]).1 != (#[trigger] mints[j]).1
}

/// Whatever is minted, in whatever order, to whichever owners: the lists
/// of the owner index add up to the supply, the supply grows by one with
/// each mint, and each minted token stands in the list of its owner and in
/// no other.
pub proof fn lemma_mints_keep_index(ledger: LedgerView, mints: Seq<(Seq<u8>, Seq<u8>)>)
    requires
        ledger.wf(),
        fresh_mints(ledger, mints),
    ensures
        after_mints(ledger, mints).wf(),
        after_mints(ledger, mints).total_supply == ledger.total_supply + mints.len(),
        index_total(after_mints(ledger, mints).owned) == ledger.total_supply + mints.len(),
        forall|token: Seq<u8>|
            after_mints(ledger, mints).minted(token) <==> ledger.minted(token) || exists|i: int|
                0 <= i < mints.len() && (#[trigger] mints[i]).1 == token,
        forall|token: Seq<u8>, account: Seq<u8>|
            after_mints(ledger, mints).minted(token) ==> (#[trigger] index_at(
                after_mints(ledger, mints).owned,
                account,
            ).contains(token) <==> account == after_mints(ledger, mints).owners[token]),
    decreases mints.len(),
{
    let after = after_mints(ledger, mints);
    if mints.len() > 0 {
        let front = mints.drop_last();
        let before = after_mints(ledger, front);
        lemma_mints_keep_index(ledger, front);
        let last = mints.last();
        assert(!before.minted(last.1)) by {
            if before.minted(last.1) {
                let i = choose|i: int| 0 <= i < front.len() && (#[trigger] front[i]).1 == last.1;
            }
        }
        lemma_mint_wf(before, last.0, last.1);
        assert forall|token: Seq<u8>|
            after.minted(token) <==> ledger.minted(token) || exists|i: int|
                0 <= i < mints.len() && (#[trigger] mints[i]).1 == token by {
            if after.minted(token) {
                if token == last.1 {
                } else {
                    if !ledger.minted(token) {
                        let i = choose|i: int| 0 <= i < front.len() && (#[trigger] front[i]).1 == token;
                    }
                }
            }
            if exists|i: int| 0 <= i < mints.len() && (#[trigger] mints[i]).1 == token {
                let i = choose|i: int| 0 <= i < mints.len() && (#[trigger] mints[i]).1 == token;
                if i < front.len() {
                    assert(front[i] == mints[i]);
                }
            }
        }
    }
    lemma_owner_index_partitions(after);
}

/// No operation takes anything off the record: tokens stay minted,
/// approvals stay in their places, grants to operators stay.
pub proof fn lemma_operations_keep_records(
    ledger: LedgerView,
    owner: Seq<u8>,
    from: Seq<u8>,
    to: Seq<u8>,
    token: Seq<u8>,
    uri: Seq<u8>,
)
    ensures
        ledger.after_mint(owner, token).keeps(ledger),
        ledger.after_transfer_ownership(from, to, token).keeps(ledger),
        ledger.after_transfer_custodian(to, token).keeps(ledger),
        ledger.after_approve(to, token).keeps(ledger),
        ledger.after_approve_for_all(from, to).keeps(ledger),
        ledger.after_set_uri(token, uri).keeps(ledger),
{
}

} // verus!
