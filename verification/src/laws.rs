use vstd::prelude::*;
use crate::token::{
    TokenRec, has_token, token_ids_distinct, is_approved_account, has_approval, owned_tokens,
};
use crate::contract::{transfer_check, transfer_effect, approve_effect, revoke_effect};
use crate::error::NftError;

verus! {

/// After a successful transfer of `token_id` to `receiver`, the token is still
/// minted, every ledger entry carrying that id — there is exactly one — is
/// owned by `receiver`, and every approval previously granted on it is gone.
pub proof fn lemma_transfer_updates_owner(
    old_toks: Seq<TokenRec>,
    new_toks: Seq<TokenRec>,
    token_id: Seq<char>,
    receiver: Seq<char>,
)
    requires
        has_token(old_toks, token_id),
        transfer_effect(old_toks, new_toks, token_id, receiver),
    ensures
        has_token(new_toks, token_id),
        forall|i: int|
            0 <= i < new_toks.len() && (#[trigger] new_toks[i]).token_id@ == token_id ==> {
                &&& new_toks[i].owner_id@ == receiver
                &&& new_toks[i].approvals@.len() == 0
                &&& forall|x: Seq<char>| !is_approved_account(new_toks[i].approvals@, x)
            },
{
    let k = choose|k: int| 0 <= k < old_toks.len() && old_toks[k].token_id@ == token_id;
    assert(new_toks[k].token_id@ == token_id);
    assert forall|i: int|
        0 <= i < new_toks.len() && (#[trigger] new_toks[i]).token_id@ == token_id implies {
        &&& new_toks[i].owner_id@ == receiver
        &&& new_toks[i].approvals@.len() == 0
        &&& forall|x: Seq<char>| !is_approved_account(new_toks[i].approvals@, x)
    } by {
        if old_toks[i].token_id@ != token_id {
            assert(new_toks[i] == old_toks[i]);
        }
    }
}

/// A transfer attempted by an account that neither owns the token nor holds
/// any approval on it is refused, whatever receiver and approval id it quotes;
/// the transfer entry points then leave the ledger unchanged.
pub proof fn lemma_unauthorized_transfer_is_refused(
    rec: TokenRec,
    sender: Seq<char>,
    receiver: Seq<char>,
    approval_id: Option<u64>,
)
    requires
        rec.owner_id@ != sender,
        !is_approved_account(rec.approvals@, sender),
    ensures
        transfer_check(rec, sender, receiver, approval_id) == Result::<(), NftError>::Err(
            NftError::SenderNotApproved,
        ),
{
}

/// Approving an account and then revoking the same account on the same token
/// leaves the account without any approval on it: afterwards, an approval
/// check for that account comes out false, whether or not it quotes an
/// approval id.
pub proof fn lemma_approve_then_revoke(
    toks0: Seq<TokenRec>,
    toks1: Seq<TokenRec>,
    toks2: Seq<TokenRec>,
    token_id: Seq<char>,
    account: Seq<char>,
    granted: u64,
)
    requires
        has_token(toks0, token_id),
        approve_effect(toks0, toks1, token_id, account, granted),
        revoke_effect(toks1, toks2, token_id, account),
    ensures
        has_token(toks2, token_id),
        forall|i: int|
            0 <= i < toks2.len() && (#[trigger] toks2[i]).token_id@ == token_id ==> {
                &&& !is_approved_account(toks2[i].approvals@, account)
                &&& forall|idv: u64| !has_approval(toks2[i].approvals@, account, idv)
            },
{
    let k = choose|k: int| 0 <= k < toks0.len() && toks0[k].token_id@ == token_id;
    assert(toks0[k].token_id@ == token_id);
    assert(toks1[k].token_id@ == token_id);
    assert(toks2[k].token_id@ == token_id);
    assert forall|i: int|
        0 <= i < toks2.len() && (#[trigger] toks2[i]).token_id@ == token_id implies {
        &&& !is_approved_account(toks2[i].approvals@, account)
        &&& forall|idv: u64| !has_approval(toks2[i].approvals@, account, idv)
    } by {
        if toks1[i].token_id@ == token_id {
            assert(!is_approved_account(toks2[i].approvals@, account));
            assert forall|idv: u64| !has_approval(toks2[i].approvals@, account, idv) by {
                if has_approval(toks2[i].approvals@, account, idv) {
                    let j = choose|j: int|
                        0 <= j < toks2[i].approvals@.len() && toks2[i].approvals@[j].account_id@
                            == account && toks2[i].approvals@[j].approval_id == idv;
                    assert(is_approved_account(toks2[i].approvals@, account));
                }
            }
        } else {
            if toks0[i].token_id@ == token_id {
                assert(toks1[i].token_id == toks0[i].token_id);
                assert(false);
            } else {
                assert(toks1[i] == toks0[i]);
                assert(toks2[i].token_id@ != token_id);
                assert(false);
            }
        }
    }
}

/// The listing of an owner's tokens is exactly the owned part of the ledger:
/// every listed token is a ledger entry owned by `owner`, and every ledger
/// entry owned by `owner` is listed.
pub proof fn lemma_owned_tokens_members(toks: Seq<TokenRec>, owner: Seq<char>)
    ensures
        forall|m: int|
            0 <= m < owned_tokens(toks, owner).len() ==> (#[trigger] owned_tokens(toks, owner)[m]).owner_id@
                == owner && toks.contains(owned_tokens(toks, owner)[m]),
        forall|i: int|
            0 <= i < toks.len() && (#[trigger] toks[i]).owner_id@ == owner ==> owned_tokens(
                toks,
                owner,
            ).contains(toks[i]),
    decreases toks.len(),
{
    if toks.len() == 0 {
    } else {
        let rest = toks.drop_last();
        lemma_owned_tokens_members(rest, owner);
        let owned = owned_tokens(toks, owner);
        let owned_rest = owned_tokens(rest, owner);
        assert forall|m: int|
            0 <= m < owned.len() implies (#[trigger] owned[m]).owner_id@ == owner && toks.contains(
            owned[m],
        ) by {
            if m < owned_rest.len() {
                assert(owned[m] == owned_rest[m]);
                let w = choose|w: int| 0 <= w < rest.len() && rest[w] == owned_rest[m];
                assert(toks[w] == owned_rest[m]);
            } else {
                assert(owned[m] == toks.last());
                assert(toks[toks.len() - 1] == toks.last());
            }
        }
        assert forall|i: int|
            0 <= i < toks.len() && (#[trigger] toks[i]).owner_id@ == owner implies owned.contains(
            toks[i],
        ) by {
            if i < toks.len() - 1 {
                assert(rest[i] == toks[i]);
                assert(owned_rest.contains(toks[i]));
                let w = choose|w: int| 0 <= w < owned_rest.len() && owned_rest[w] == toks[i];
                assert(owned[w] == toks[i]);
            } else {
                assert(owned[owned.len() - 1] == toks.last());
            }
        }
    }
}

/// The total supply counts the distinct minted token ids: on a ledger whose
/// ids are pairwise distinct, the set of ids is as large as the ledger.
pub proof fn lemma_supply_counts_distinct_ids(toks: Seq<TokenRec>)
    requires
        token_ids_distinct(toks),
    ensures
        toks.map_values(|t: TokenRec| t.token_id@).to_set().len() == toks.len(),
{
    let ids = toks.map_values(|t: TokenRec| t.token_id@);
    assert(ids.no_duplicates());
    ids.unique_seq_to_set();
}

} // verus!
