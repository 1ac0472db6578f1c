//! The owner index as mathematics: for each account the list of the tokens
//! it owns, and the facts about such lists that the ledger's proofs use.

use vstd::prelude::*;

verus! {

/// An owner index: account to the list of token ids it owns.
pub type OwnerIndex = Map<Seq<u8>, Seq<Seq<u8>>>;

/// The tokens listed for `account`; an account that is not in the index owns none.
pub open spec fn index_at(index: OwnerIndex, account: Seq<u8>) -> Seq<Seq<u8>> {
    if index.contains_key(account) {
        index[account]
    } else {
        Seq::empty()
    }
}

/// The sum of the lengths of all lists of the index.
pub open spec fn index_total(index: OwnerIndex) -> nat
    decreases index.dom().len(),
    when index.dom().finite()
{
    if index.dom().len() == 0 {
        0
    } else {
        let account = index.dom().choose();
        index[account].len() + index_total(index.remove(account))
    }
}

/// The total does not depend on which account is counted first.
pub proof fn lemma_total_remove(index: OwnerIndex, account: Seq<u8>)
    requires
        index.dom().finite(),
        index.contains_key(account),
    ensures
        index_total(index) == index[account].len() + index_total(index.remove(account)),
    decreases index.dom().len(),
{
    let first = index.dom().choose();
    if first != account {
        lemma_total_remove(index.remove(first), account);
        lemma_total_remove(index.remove(account), first);
        assert(index.remove(first).remove(account) =~= index.remove(account).remove(first));
    }
}

/// Replacing one account's list changes the total by the change in that list's length.
pub proof fn lemma_total_insert(index: OwnerIndex, account: Seq<u8>, list: Seq<Seq<u8>>)
    requires
        index.dom().finite(),
    ensures
        index_total(index.insert(account, list)) + index_at(index, account).len() == index_total(index)
            + list.len(),
{
    let grown = index.insert(account, list);
    lemma_total_remove(grown, account);
    assert(grown.remove(account) =~= index.remove(account));
    if index.contains_key(account) {
        lemma_total_remove(index, account);
    } else {
        assert(index.remove(account) =~= index);
    }
}

/// The first place at which `token` stands in `list`.
pub open spec fn first_position(list: Seq<Seq<u8>>, token: Seq<u8>) -> int {
    choose|at: int|
        0 <= at < list.len() && list[at] == token && forall|j: int| 0 <= j < at ==> list[j] != token
}

/// A list that holds `token` has a first place at which it stands.
pub proof fn lemma_first_position(list: Seq<Seq<u8>>, token: Seq<u8>)
    requires
        list.contains(token),
    ensures
        0 <= first_position(list, token) < list.len(),
        list[first_position(list, token)] == token,
        forall|j: int| 0 <= j < first_position(list, token) ==> list[j] != token,
    decreases list.len(),
{
    let some = choose|i: int| 0 <= i < list.len() && list[i] == token;
    if exists|j: int| 0 <= j < some && list[j] == token {
        let front = list.subrange(0, some);
        let j = choose|j: int| 0 <= j < some && list[j] == token;
        assert(front[j] == token);
        lemma_first_position(front, token);
        let at = first_position(front, token);
        assert forall|k: int| 0 <= k < at implies list[k] != token by {
            assert(front[k] == list[k]);
        }
    } else {
        assert(0 <= some < list.len() && list[some] == token && forall|k: int|
            0 <= k < some ==> list[k] != token);
    }
}

/// The list without its entry at `at`: the last entry takes the vacated place.
pub open spec fn swap_removed(list: Seq<Seq<u8>>, at: int) -> Seq<Seq<u8>> {
    list.update(at, list.last()).drop_last()
}

/// In a list without repetitions, swap-removing an entry leaves exactly the others, each once.
pub proof fn lemma_swap_removed(list: Seq<Seq<u8>>, at: int)
    requires
        list.no_duplicates(),
        0 <= at < list.len(),
    ensures
        swap_removed(list, at).no_duplicates(),
        swap_removed(list, at).len() == list.len() - 1,
        forall|token: Seq<u8>|
            swap_removed(list, at).contains(token) <==> (list.contains(token) && token != list[at]),
{
    let rest = swap_removed(list, at);
    assert forall|token: Seq<u8>|
        rest.contains(token) <==> (list.contains(token) && token != list[at]) by {
        if rest.contains(token) {
            let i = choose|i: int| 0 <= i < rest.len() && rest[i] == token;
        }
        if list.contains(token) && token != list[at] {
            let a = choose|a: int| 0 <= a < list.len() && list[a] == token;
            let i = if a == list.len() - 1 { at } else { a };
            assert(rest[i] == token);
        }
    }
}

} // verus!
