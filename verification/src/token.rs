use vstd::prelude::*;
use crate::metadata::{TokenMetadata, token_meta_eq};

verus! {

/// One entry of a token's approval list: `account_id` may transfer the token,
/// quoting `approval_id`.
pub struct Approval {
    pub account_id: String,
    pub approval_id: u64,
}

/// A token as the ledger records it: its unique id, its single current owner,
/// its metadata, its approval list, and the id the next approval will get.
pub struct TokenRec {
    pub token_id: String,
    pub owner_id: String,
    pub metadata: TokenMetadata,
    pub approvals: Vec<Approval>,
    pub next_approval_id: u64,
}

/// A token as lookup and enumeration calls return it: the approval list is a
/// copy, without the internal approval-id counter.
pub struct Token {
    pub token_id: String,
    pub owner_id: String,
    pub metadata: TokenMetadata,
    pub approved_account_ids: Vec<Approval>,
}

/// `account` stands in the approval list.
pub open spec fn is_approved_account(approvals: Seq<Approval>, account: Seq<char>) -> bool {
    exists|i: int| 0 <= i < approvals.len() && approvals[i].account_id@ == account
}

/// `account` stands in the approval list under approval id `id`.
pub open spec fn has_approval(approvals: Seq<Approval>, account: Seq<char>, id: u64) -> bool {
    exists|i: int|
        0 <= i < approvals.len() && approvals[i].account_id@ == account
            && approvals[i].approval_id == id
}

/// The approval accounts are pairwise distinct and every granted id is below
/// the token's next approval id.
pub open spec fn approvals_wf(approvals: Seq<Approval>, next_id: u64) -> bool {
    &&& forall|i: int, j: int|
        0 <= i < j < approvals.len() ==> approvals[i].account_id@ != approvals[j].account_id@
    &&& forall|i: int| 0 <= i < approvals.len() ==> #[trigger] approvals[i].approval_id < next_id
}

/// Two approval lists grant the same approvals in the same order.
pub open spec fn approvals_eq(a: Seq<Approval>, b: Seq<Approval>) -> bool {
    &&& a.len() == b.len()
    &&& forall|i: int|
        0 <= i < a.len() ==> #[trigger] a[i].account_id@ == b[i].account_id@
            && a[i].approval_id == b[i].approval_id
}

/// A ledger record is well formed.
pub open spec fn token_rec_wf(t: TokenRec) -> bool {
    approvals_wf(t.approvals@, t.next_approval_id)
}

/// The token ids of the ledger are pairwise distinct.
pub open spec fn token_ids_distinct(tokens: Seq<TokenRec>) -> bool {
    forall|i: int, j: int|
        0 <= i < j < tokens.len() ==> tokens[i].token_id@ != tokens[j].token_id@
}

/// Some ledger record carries the token id `id`.
pub open spec fn has_token(tokens: Seq<TokenRec>, id: Seq<char>) -> bool {
    exists|i: int| 0 <= i < tokens.len() && tokens[i].token_id@ == id
}

/// The subsequence of the ledger owned by `owner`, in ledger order.
pub open spec fn owned_tokens(tokens: Seq<TokenRec>, owner: Seq<char>) -> Seq<TokenRec>
    decreases tokens.len(),
{
    if tokens.len() == 0 {
        Seq::empty()
    } else if tokens.last().owner_id@ == owner {
        owned_tokens(tokens.drop_last(), owner).push(tokens.last())
    } else {
        owned_tokens(tokens.drop_last(), owner)
    }
}

/// A returned `Token` reports exactly the state of the ledger record `rec`.
pub open spec fn token_reports_rec(t: Token, rec: TokenRec) -> bool {
    &&& t.token_id@ == rec.token_id@
    &&& t.owner_id@ == rec.owner_id@
    &&& token_meta_eq(t.metadata, rec.metadata)
    &&& approvals_eq(t.approved_account_ids@, rec.approvals@)
}

/// Copy an approval list, keeping every entry.
pub fn copy_approvals(approvals: &Vec<Approval>) -> (r: Vec<Approval>)
    ensures
        approvals_eq(r@, approvals@),
{
    let mut r: Vec<Approval> = Vec::new();
    let mut i: usize = 0;
    while i < approvals.len()
        invariant
            i <= approvals.len(),
            r@.len() == i,
            forall|j: int|
                0 <= j < i ==> #[trigger] r@[j].account_id@ == approvals@[j].account_id@
                    && r@[j].approval_id == approvals@[j].approval_id,
        decreases approvals.len() - i,
    {
        let a = &approvals[i];
        let entry = Approval { account_id: a.account_id.clone(), approval_id: a.approval_id };
        proof {
            assert(entry.account_id@ == approvals@[i as int].account_id@);
            assert(entry.approval_id == approvals@[i as int].approval_id);
        }
        let ghost r0 = r@;
        r.push(entry);
        i = i + 1;
        proof {
            assert forall|j: int|
                0 <= j < i implies #[trigger] r@[j].account_id@ == approvals@[j].account_id@
                    && r@[j].approval_id == approvals@[j].approval_id by {
                if j < i - 1 {
                    assert(r@[j] == r0[j]);
                } else {
                    assert(r@[j] == entry);
                }
            }
        }
    }
    r
}

/// In a ledger with pairwise distinct token ids, an id picks out at most one
/// entry.
pub proof fn lemma_token_index_unique(tokens: Seq<TokenRec>, id: Seq<char>, k: int)
    requires
        token_ids_distinct(tokens),
        0 <= k < tokens.len(),
        tokens[k].token_id@ == id,
    ensures
        forall|i: int| 0 <= i < tokens.len() && tokens[i].token_id@ == id ==> i == k,
{
    assert forall|i: int| 0 <= i < tokens.len() && tokens[i].token_id@ == id implies i == k by {
        if i < k {
            assert(tokens[i].token_id@ != tokens[k].token_id@);
        } else if k < i {
            assert(tokens[k].token_id@ != tokens[i].token_id@);
        }
    }
}

/// Find the position of an account in an approval list.
pub fn find_approval_index(approvals: &Vec<Approval>, account: &String) -> (r: Option<usize>)
    ensures
        match r {
            Option::Some(i) => i < approvals@.len() && approvals@[i as int].account_id@
                == account@,
            Option::None => !is_approved_account(approvals@, account@),
        },
{
    let mut i: usize = 0;
    while i < approvals.len()
        invariant
            i <= approvals@.len(),
            forall|j: int| 0 <= j < i ==> approvals@[j].account_id@ != account@,
        decreases approvals@.len() - i,
    {
        if approvals[i].account_id == *account {
            return Option::Some(i);
        }
        i = i + 1;
    }
    Option::None
}

impl TokenRec {
    /// Report this ledger record as a `Token`.
    pub fn report(&self) -> (r: Token)
        ensures
            token_reports_rec(r, *self),
    {
        Token {
            token_id: self.token_id.clone(),
            owner_id: self.owner_id.clone(),
            metadata: self.metadata.duplicate(),
            approved_account_ids: copy_approvals(&self.approvals),
        }
    }
}

} // verus!
