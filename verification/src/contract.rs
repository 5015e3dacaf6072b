use vstd::prelude::*;
use crate::error::NftError;
use crate::metadata::{NFTContractMetadata, TokenMetadata, contract_meta_eq};
use crate::token::{
    Approval, Token, TokenRec, has_token, token_ids_distinct, token_rec_wf, token_reports_rec,
    is_approved_account, has_approval, find_approval_index, approvals_eq, approvals_wf,
    copy_approvals, lemma_token_index_unique, owned_tokens,
};

verus! {

/// What a successful mint hands back: the freshly minted token and the part of
/// the attached deposit left over once the storage cost is covered, owed back
/// to the caller.
pub struct MintOutcome {
    pub token: Token,
    pub refund: u128,
}

/// What a transfer-with-callback hands back for the host to act on: the
/// receiver is to be told of the transfer with `msg`, and on a rejected
/// transfer the previous owner and the approvals recorded here are what the
/// reversal restores. Scheduling the callback and the reversal protocol itself
/// belong to the host.
pub struct TransferCallReceipt {
    pub previous_owner_id: String,
    pub previous_approvals: Vec<Approval>,
    pub msg: String,
}

/// What transferred from a successful internal transfer: the previous owner
/// and the approval list the transfer cleared.
pub struct TransferOutcome {
    pub previous_owner_id: String,
    pub previous_approvals: Vec<Approval>,
}

/// The checks that guard a transfer of the token recorded as `rec`, in the
/// order the ledger applies them: the sender must be the owner or hold an
/// approval (matching the quoted approval id, when one is quoted), and the
/// owner and the receiver must differ.
pub open spec fn transfer_check(
    rec: TokenRec,
    sender: Seq<char>,
    receiver: Seq<char>,
    approval_id: Option<u64>,
) -> Result<(), NftError> {
    if rec.owner_id@ != sender && !is_approved_account(rec.approvals@, sender) {
        Result::Err(NftError::SenderNotApproved)
    } else if rec.owner_id@ != sender && (approval_id matches Option::Some(id)
        && !has_approval(rec.approvals@, sender, id)) {
        Result::Err(NftError::ApprovalIdMismatch)
    } else if rec.owner_id@ == receiver {
        Result::Err(NftError::OwnerAndReceiverEqual)
    } else {
        Result::Ok(())
    }
}

/// How a successful transfer changes the ledger: every other token is left
/// untouched, and the token quoted by `token_id` keeps its id, metadata and
/// approval-id counter, is now owned by `receiver`, and has its approval list
/// cleared.
pub open spec fn transfer_effect(
    old_toks: Seq<TokenRec>,
    new_toks: Seq<TokenRec>,
    token_id: Seq<char>,
    receiver: Seq<char>,
) -> bool {
    &&& new_toks.len() == old_toks.len()
    &&& forall|i: int|
        0 <= i < old_toks.len() && (#[trigger] old_toks[i]).token_id@ != token_id
            ==> new_toks[i] == old_toks[i]
    &&& forall|i: int|
        0 <= i < old_toks.len() && (#[trigger] old_toks[i]).token_id@ == token_id ==> {
            &&& new_toks[i].token_id == old_toks[i].token_id
            &&& new_toks[i].owner_id@ == receiver
            &&& new_toks[i].metadata == old_toks[i].metadata
            &&& new_toks[i].approvals@.len() == 0
            &&& new_toks[i].next_approval_id == old_toks[i].next_approval_id
        }
}

/// What a successful approval with a message hands back for the host to act
/// on: the approved account is to be told of the approval it was granted,
/// under `msg`. Scheduling that call belongs to the host.
pub struct ApprovalReceipt {
    pub account_id: String,
    pub approval_id: u64,
    pub msg: String,
}

/// How a successful approval changes the ledger: every other token is left
/// untouched, and the token quoted by `token_id` keeps its id, owner and
/// metadata, grants `account` the fresh approval id `granted` — its
/// approval-id counter moving past it — and leaves every other account's
/// approvals exactly as they were.
pub open spec fn approve_effect(
    old_toks: Seq<TokenRec>,
    new_toks: Seq<TokenRec>,
    token_id: Seq<char>,
    account: Seq<char>,
    granted: u64,
) -> bool {
    &&& new_toks.len() == old_toks.len()
    &&& forall|i: int|
        0 <= i < old_toks.len() && (#[trigger] old_toks[i]).token_id@ != token_id
            ==> new_toks[i] == old_toks[i]
    &&& forall|i: int|
        0 <= i < old_toks.len() && (#[trigger] old_toks[i]).token_id@ == token_id ==> {
            &&& new_toks[i].token_id == old_toks[i].token_id
            &&& new_toks[i].owner_id == old_toks[i].owner_id
            &&& new_toks[i].metadata == old_toks[i].metadata
            &&& granted == old_toks[i].next_approval_id
            &&& new_toks[i].next_approval_id == old_toks[i].next_approval_id + 1
            &&& has_approval(new_toks[i].approvals@, account, granted)
            &&& forall|x: Seq<char>, idv: u64|
                x != account ==> (#[trigger] has_approval(new_toks[i].approvals@, x, idv)
                    <==> has_approval(old_toks[i].approvals@, x, idv))
            &&& forall|idv: u64|
                idv != granted ==> !#[trigger] has_approval(new_toks[i].approvals@, account, idv)
        }
}

/// How a successful revocation changes the ledger: every other token is left
/// untouched, and the token quoted by `token_id` keeps its id, owner, metadata
/// and approval-id counter, no longer approves `account`, and leaves every
/// other account's approvals exactly as they were.
pub open spec fn revoke_effect(
    old_toks: Seq<TokenRec>,
    new_toks: Seq<TokenRec>,
    token_id: Seq<char>,
    account: Seq<char>,
) -> bool {
    &&& new_toks.len() == old_toks.len()
    &&& forall|i: int|
        0 <= i < old_toks.len() && (#[trigger] old_toks[i]).token_id@ != token_id
            ==> new_toks[i] == old_toks[i]
    &&& forall|i: int|
        0 <= i < old_toks.len() && (#[trigger] old_toks[i]).token_id@ == token_id ==> {
            &&& new_toks[i].token_id == old_toks[i].token_id
            &&& new_toks[i].owner_id == old_toks[i].owner_id
            &&& new_toks[i].metadata == old_toks[i].metadata
            &&& new_toks[i].next_approval_id == old_toks[i].next_approval_id
            &&& !is_approved_account(new_toks[i].approvals@, account)
            &&& forall|x: Seq<char>, idv: u64|
                x != account ==> (#[trigger] has_approval(new_toks[i].approvals@, x, idv)
                    <==> has_approval(old_toks[i].approvals@, x, idv))
        }
}

/// The start index of a listing: the quoted one, or zero when none is quoted.
pub open spec fn start_of(from_index: Option<u128>) -> nat {
    match from_index {
        Option::Some(s) => s as nat,
        Option::None => 0,
    }
}

/// How many entries a page holds that starts at `start` in a listing of
/// `total` entries, under an optional limit: all that remain, capped by the
/// limit when one is given.
pub open spec fn page_len(start: nat, limit: Option<u64>, total: nat) -> nat
    recommends
        start <= total,
{
    let avail = (total - start) as nat;
    match limit {
        Option::Some(l) => if (l as nat) < avail {
            l as nat
        } else {
            avail
        },
        Option::None => avail,
    }
}

/// The contract state: the account that deployed it, the contract-level
/// metadata fixed at initialization, and the token ledger. Each ledger entry
/// carries its owner, its metadata and its approval list, and the ledger keeps
/// the tokens in mint order.
pub struct Contract {
    pub owner_id: String,
    pub metadata: NFTContractMetadata,
    pub tokens: Vec<TokenRec>,
}

impl Contract {
    /// The state invariant: token ids are pairwise distinct, and every
    /// approval list is itself well formed.
    pub open spec fn wf(self) -> bool {
        &&& token_ids_distinct(self.tokens@)
        &&& forall|i: int| 0 <= i < self.tokens@.len() ==> token_rec_wf(#[trigger] self.tokens@[i])
    }

    /// Some ledger entry carries the token id `id`.
    pub open spec fn spec_has_token(self, id: Seq<char>) -> bool {
        has_token(self.tokens@, id)
    }

    /// Initialize the contract with explicit metadata. `state_exists` reports
    /// whether contract state is already stored: initialization is
    /// exactly-once, so against existing state the call fails, regardless of
    /// the other arguments, and a fresh contract starts with an empty ledger.
    pub fn new(state_exists: bool, owner_id: String, metadata: NFTContractMetadata) -> (r: Result<
        Contract,
        NftError,
    >)
        ensures
            r is Ok <==> !state_exists,
            state_exists ==> r == Result::<Contract, NftError>::Err(NftError::AlreadyInitialized),
            r is Ok ==> {
                &&& r.unwrap().wf()
                &&& r.unwrap().owner_id == owner_id
                &&& r.unwrap().metadata == metadata
                &&& r.unwrap().tokens@.len() == 0
            },
    {
        if state_exists {
            return Result::Err(NftError::AlreadyInitialized);
        }
        Result::Ok(Contract { owner_id, metadata, tokens: Vec::new() })
    }

    /// Initialize the contract with the default metadata: the fixed name and
    /// symbol, the current metadata spec string, and every optional field
    /// unset. Fails against existing state exactly as `new` does.
    pub fn new_default_meta(state_exists: bool, owner_id: String) -> (r: Result<
        Contract,
        NftError,
    >)
        ensures
            r is Ok <==> !state_exists,
            state_exists ==> r == Result::<Contract, NftError>::Err(NftError::AlreadyInitialized),
            r is Ok ==> {
                &&& r.unwrap().wf()
                &&& r.unwrap().owner_id == owner_id
                &&& r.unwrap().tokens@.len() == 0
                &&& r.unwrap().metadata.spec_version@ == "nft-1.0.0"@
                &&& r.unwrap().metadata.name@ == "Knight LEGACY NFT "@
                &&& r.unwrap().metadata.symbol@ == "KLN"@
                &&& r.unwrap().metadata.icon is None
                &&& r.unwrap().metadata.base_uri is None
                &&& r.unwrap().metadata.reference is None
                &&& r.unwrap().metadata.reference_hash is None
            },
    {
        let metadata = NFTContractMetadata {
            spec_version: "nft-1.0.0".to_owned(),
            name: "Knight LEGACY NFT ".to_owned(),
            symbol: "KLN".to_owned(),
            icon: Option::None,
            base_uri: Option::None,
            reference: Option::None,
            reference_hash: Option::None,
        };
        Self::new(state_exists, owner_id, metadata)
    }

    /// Find the ledger index of a token id.
    fn token_index(&self, token_id: &String) -> (r: Option<usize>)
        ensures
            match r {
                Option::Some(i) => i < self.tokens@.len() && self.tokens@[i as int].token_id@
                    == token_id@,
                Option::None => !has_token(self.tokens@, token_id@),
            },
    {
        let mut i: usize = 0;
        while i < self.tokens.len()
            invariant
                i <= self.tokens@.len(),
                forall|j: int| 0 <= j < i ==> self.tokens@[j].token_id@ != token_id@,
            decreases self.tokens@.len() - i,
        {
            if self.tokens[i].token_id == *token_id {
                return Option::Some(i);
            }
            i = i + 1;
        }
        Option::None
    }

    /// Mint a new token with a caller-chosen id, owned by `receiver_id` and
    /// carrying `token_metadata`. The id must not already be in use, and the
    /// attached deposit must cover the storage cost of the new record, as the
    /// host has measured it; the excess is owed back to the caller as the
    /// refund. Any caller willing to pay may mint. On failure the ledger is
    /// left exactly as it was.
    pub fn nft_mint(
        &mut self,
        token_id: String,
        receiver_id: String,
        token_metadata: TokenMetadata,
        attached_deposit: u128,
        storage_cost: u128,
    ) -> (r: Result<MintOutcome, NftError>)
        requires
            old(self).wf(),
        ensures
            final(self).wf(),
            final(self).owner_id == old(self).owner_id,
            final(self).metadata == old(self).metadata,
            r is Ok <==> !old(self).spec_has_token(token_id@) && attached_deposit >= storage_cost,
            old(self).spec_has_token(token_id@) ==> r == Result::<MintOutcome, NftError>::Err(
                NftError::TokenIdAlreadyExists,
            ),
            !old(self).spec_has_token(token_id@) && attached_deposit < storage_cost ==> r
                == Result::<MintOutcome, NftError>::Err(NftError::InsufficientDeposit),
            r is Err ==> *final(self) == *old(self),
            r is Ok ==> {
                &&& final(self).tokens@.len() == old(self).tokens@.len() + 1
                &&& forall|i: int|
                    0 <= i < old(self).tokens@.len() ==> final(self).tokens@[i] == old(
                        self,
                    ).tokens@[i]
                &&& final(self).tokens@.last().token_id == token_id
                &&& final(self).tokens@.last().owner_id == receiver_id
                &&& final(self).tokens@.last().metadata == token_metadata
                &&& final(self).tokens@.last().approvals@.len() == 0
                &&& final(self).tokens@.last().next_approval_id == 1
                &&& final(self).spec_has_token(token_id@)
                &&& r.unwrap().refund == attached_deposit - storage_cost
                &&& token_reports_rec(r.unwrap().token, final(self).tokens@.last())
            },
    {
        if self.token_index(&token_id).is_some() {
            return Result::Err(NftError::TokenIdAlreadyExists);
        }
        if attached_deposit < storage_cost {
            return Result::Err(NftError::InsufficientDeposit);
        }
        let rec = TokenRec {
            token_id,
            owner_id: receiver_id,
            metadata: token_metadata,
            approvals: Vec::new(),
            next_approval_id: 1,
        };
        let token = rec.report();
        let refund = attached_deposit - storage_cost;
        let ghost toks0 = self.tokens@;
        self.tokens.push(rec);
        proof {
            let toks = self.tokens@;
            assert forall|i: int, j: int|
                0 <= i < j < toks.len() implies toks[i].token_id@ != toks[j].token_id@ by {
                if j < toks.len() - 1 {
                    assert(toks[i] == toks0[i] && toks[j] == toks0[j]);
                } else {
                    assert(toks[i] == toks0[i]);
                    assert(!has_token(toks0, toks[j].token_id@));
                }
            }
            assert forall|i: int| 0 <= i < toks.len() implies token_rec_wf(#[trigger] toks[i]) by {
                if i < toks.len() - 1 {
                    assert(toks[i] == toks0[i]);
                    assert(token_rec_wf(toks0[i]));
                }
            }
        }
        Result::Ok(MintOutcome { token, refund })
    }

    /// Transfer the token to `receiver_id`, checking that the sender may: the
    /// checks and their order are those of `transfer_check`. On success the
    /// approval list is cleared and the previous owner and approvals are
    /// returned.
    fn internal_transfer(
        &mut self,
        sender_id: &String,
        receiver_id: String,
        token_id: &String,
        approval_id: Option<u64>,
    ) -> (r: Result<TransferOutcome, NftError>)
        requires
            old(self).wf(),
        ensures
            final(self).wf(),
            final(self).owner_id == old(self).owner_id,
            final(self).metadata == old(self).metadata,
            r is Err ==> *final(self) == *old(self),
            !old(self).spec_has_token(token_id@) ==> r == Result::<TransferOutcome, NftError>::Err(
                NftError::TokenNotFound,
            ),
            r is Ok ==> old(self).spec_has_token(token_id@),
            forall|i: int|
                0 <= i < old(self).tokens@.len() && (#[trigger] old(self).tokens@[i]).token_id@
                    == token_id@ ==> (match transfer_check(
                    old(self).tokens@[i],
                    sender_id@,
                    receiver_id@,
                    approval_id,
                ) {
                    Result::Err(e) => r == Result::<TransferOutcome, NftError>::Err(e),
                    Result::Ok(u) => {
                        &&& r is Ok
                        &&& r.unwrap().previous_owner_id@ == old(self).tokens@[i].owner_id@
                        &&& approvals_eq(
                            r.unwrap().previous_approvals@,
                            old(self).tokens@[i].approvals@,
                        )
                    },
                }),
            r is Ok ==> transfer_effect(
                old(self).tokens@,
                final(self).tokens@,
                token_id@,
                receiver_id@,
            ),
    {
        let k = match self.token_index(token_id) {
            Option::None => {
                return Result::Err(NftError::TokenNotFound);
            },
            Option::Some(k) => k,
        };
        proof {
            lemma_token_index_unique(self.tokens@, token_id@, k as int);
            assert(token_rec_wf(self.tokens@[k as int]));
        }
        if !(self.tokens[k].owner_id == *sender_id) {
            match find_approval_index(&self.tokens[k].approvals, sender_id) {
                Option::None => {
                    return Result::Err(NftError::SenderNotApproved);
                },
                Option::Some(a) => {
                    if let Option::Some(id) = approval_id {
                        if self.tokens[k].approvals[a].approval_id != id {
                            proof {
                                let approvals = self.tokens@[k as int].approvals@;
                                assert forall|j: int|
                                    0 <= j < approvals.len() && approvals[j].account_id@
                                        == sender_id@ implies j == a as int by {
                                    if j < a as int {
                                        assert(approvals[j].account_id@ != approvals[a as int].account_id@);
                                    } else if (a as int) < j {
                                        assert(approvals[a as int].account_id@ != approvals[j].account_id@);
                                    }
                                }
                                assert(!has_approval(approvals, sender_id@, id));
                            }
                            return Result::Err(NftError::ApprovalIdMismatch);
                        }
                    }
                },
            }
        }
        if self.tokens[k].owner_id == receiver_id {
            return Result::Err(NftError::OwnerAndReceiverEqual);
        }
        let prev_owner = self.tokens[k].owner_id.clone();
        let prev_approvals = copy_approvals(&self.tokens[k].approvals);
        let ghost toks0 = self.tokens@;
        let rec = &mut self.tokens[k];
        rec.owner_id = receiver_id;
        rec.approvals = Vec::new();
        proof {
            let toks = self.tokens@;
            assert(toks.len() == toks0.len());
            assert forall|i: int, j: int|
                0 <= i < j < toks.len() implies toks[i].token_id@ != toks[j].token_id@ by {
                assert(toks[i].token_id == toks0[i].token_id);
                assert(toks[j].token_id == toks0[j].token_id);
            }
            assert forall|i: int| 0 <= i < toks.len() implies token_rec_wf(#[trigger] toks[i]) by {
                if i != k as int {
                    assert(toks[i] == toks0[i]);
                    assert(token_rec_wf(toks0[i]));
                }
            }
        }
        Result::Ok(
            TransferOutcome { previous_owner_id: prev_owner, previous_approvals: prev_approvals },
        )
    }

    /// Transfer a token, called by `sender_id` with exactly one yocto
    /// attached. The sender must be the current owner or hold an approval on
    /// the token, quoting the granted approval id when one is given, and the
    /// receiver must differ from the current owner. On success the receiver
    /// becomes the owner and every previous approval is cleared; on failure
    /// the ledger is left exactly as it was. The memo only feeds the host's
    /// transfer log.
    pub fn nft_transfer(
        &mut self,
        receiver_id: String,
        token_id: String,
        approval_id: Option<u64>,
        memo: Option<String>,
        sender_id: String,
        attached_deposit: u128,
    ) -> (r: Result<(), NftError>)
        requires
            old(self).wf(),
        ensures
            final(self).wf(),
            final(self).owner_id == old(self).owner_id,
            final(self).metadata == old(self).metadata,
            r is Err ==> *final(self) == *old(self),
            attached_deposit != 1 ==> r == Result::<(), NftError>::Err(NftError::OneYoctoRequired),
            attached_deposit == 1 && !old(self).spec_has_token(token_id@) ==> r == Result::<
                (),
                NftError,
            >::Err(NftError::TokenNotFound),
            attached_deposit == 1 ==> forall|i: int|
                0 <= i < old(self).tokens@.len() && (#[trigger] old(self).tokens@[i]).token_id@
                    == token_id@ ==> (match transfer_check(
                    old(self).tokens@[i],
                    sender_id@,
                    receiver_id@,
                    approval_id,
                ) {
                    Result::Err(e) => r == Result::<(), NftError>::Err(e),
                    Result::Ok(u) => r is Ok,
                }),
            r is Ok ==> attached_deposit == 1 && old(self).spec_has_token(token_id@)
                && transfer_effect(
                old(self).tokens@,
                final(self).tokens@,
                token_id@,
                receiver_id@,
            ),
    {
        if attached_deposit != 1 {
            return Result::Err(NftError::OneYoctoRequired);
        }
        match self.internal_transfer(&sender_id, receiver_id, &token_id, approval_id) {
            Result::Ok(_) => Result::Ok(()),
            Result::Err(e) => Result::Err(e),
        }
    }

    /// Transfer a token and hand back what the host needs to notify the
    /// receiver and, should the receiver reject the token, to reverse the
    /// transfer. The checks and the effect on the ledger are exactly those of
    /// `nft_transfer`.
    pub fn nft_transfer_call(
        &mut self,
        receiver_id: String,
        token_id: String,
        approval_id: Option<u64>,
        memo: Option<String>,
        msg: String,
        sender_id: String,
        attached_deposit: u128,
    ) -> (r: Result<TransferCallReceipt, NftError>)
        requires
            old(self).wf(),
        ensures
            final(self).wf(),
            final(self).owner_id == old(self).owner_id,
            final(self).metadata == old(self).metadata,
            r is Err ==> *final(self) == *old(self),
            attached_deposit != 1 ==> r == Result::<TransferCallReceipt, NftError>::Err(
                NftError::OneYoctoRequired,
            ),
            attached_deposit == 1 && !old(self).spec_has_token(token_id@) ==> r == Result::<
                TransferCallReceipt,
                NftError,
            >::Err(NftError::TokenNotFound),
            attached_deposit == 1 ==> forall|i: int|
                0 <= i < old(self).tokens@.len() && (#[trigger] old(self).tokens@[i]).token_id@
                    == token_id@ ==> (match transfer_check(
                    old(self).tokens@[i],
                    sender_id@,
                    receiver_id@,
                    approval_id,
                ) {
                    Result::Err(e) => r == Result::<TransferCallReceipt, NftError>::Err(e),
                    Result::Ok(u) => {
                        &&& r is Ok
                        &&& r.unwrap().previous_owner_id@ == old(self).tokens@[i].owner_id@
                        &&& approvals_eq(
                            r.unwrap().previous_approvals@,
                            old(self).tokens@[i].approvals@,
                        )
                    },
                }),
            r is Ok ==> attached_deposit == 1 && old(self).spec_has_token(token_id@)
                && transfer_effect(
                old(self).tokens@,
                final(self).tokens@,
                token_id@,
                receiver_id@,
            ) && r.unwrap().msg == msg,
    {
        if attached_deposit != 1 {
            return Result::Err(NftError::OneYoctoRequired);
        }
        match self.internal_transfer(&sender_id, receiver_id, &token_id, approval_id) {
            Result::Ok(outcome) => Result::Ok(
                TransferCallReceipt {
                    previous_owner_id: outcome.previous_owner_id,
                    previous_approvals: outcome.previous_approvals,
                    msg,
                },
            ),
            Result::Err(e) => Result::Err(e),
        }
    }

    /// Grant `account_id` an approval on the token, called by the token's
    /// owner `sender_id` with at least one yocto attached. The approval gets
    /// the token's next approval id, fresh by construction; approving an
    /// already approved account replaces its approval id by the fresh one.
    /// When a message is given, the outcome carries what the host needs to
    /// notify the approved account. On failure the ledger is left exactly as
    /// it was.
    pub fn nft_approve(
        &mut self,
        token_id: String,
        account_id: String,
        msg: Option<String>,
        sender_id: String,
        attached_deposit: u128,
    ) -> (r: Result<Option<ApprovalReceipt>, NftError>)
        requires
            old(self).wf(),
        ensures
            final(self).wf(),
            final(self).owner_id == old(self).owner_id,
            final(self).metadata == old(self).metadata,
            r is Err ==> *final(self) == *old(self),
            attached_deposit < 1 ==> r == Result::<Option<ApprovalReceipt>, NftError>::Err(
                NftError::DepositRequired,
            ),
            attached_deposit >= 1 && !old(self).spec_has_token(token_id@) ==> r == Result::<
                Option<ApprovalReceipt>,
                NftError,
            >::Err(NftError::TokenNotFound),
            attached_deposit >= 1 ==> forall|i: int|
                0 <= i < old(self).tokens@.len() && (#[trigger] old(self).tokens@[i]).token_id@
                    == token_id@ ==> {
                    &&& old(self).tokens@[i].owner_id@ != sender_id@ ==> r == Result::<
                        Option<ApprovalReceipt>,
                        NftError,
                    >::Err(NftError::NotTokenOwner)
                    &&& old(self).tokens@[i].owner_id@ == sender_id@ && old(
                        self,
                    ).tokens@[i].next_approval_id == u64::MAX ==> r == Result::<
                        Option<ApprovalReceipt>,
                        NftError,
                    >::Err(NftError::ApprovalIdsExhausted)
                    &&& old(self).tokens@[i].owner_id@ == sender_id@ && old(
                        self,
                    ).tokens@[i].next_approval_id < u64::MAX ==> {
                        &&& r is Ok
                        &&& approve_effect(
                            old(self).tokens@,
                            final(self).tokens@,
                            token_id@,
                            account_id@,
                            old(self).tokens@[i].next_approval_id,
                        )
                        &&& (r.unwrap() is Some <==> msg is Some)
                        &&& msg matches Option::Some(m) ==> {
                            &&& r.unwrap().unwrap().account_id@ == account_id@
                            &&& r.unwrap().unwrap().approval_id == old(
                                self,
                            ).tokens@[i].next_approval_id
                            &&& r.unwrap().unwrap().msg == m
                        }
                    }
                },
            r is Ok ==> attached_deposit >= 1 && old(self).spec_has_token(token_id@),
    {
        if attached_deposit < 1 {
            return Result::Err(NftError::DepositRequired);
        }
        let k = match self.token_index(&token_id) {
            Option::None => {
                return Result::Err(NftError::TokenNotFound);
            },
            Option::Some(k) => k,
        };
        proof {
            lemma_token_index_unique(self.tokens@, token_id@, k as int);
            assert(token_rec_wf(self.tokens@[k as int]));
        }
        if !(self.tokens[k].owner_id == sender_id) {
            return Result::Err(NftError::NotTokenOwner);
        }
        let granted = self.tokens[k].next_approval_id;
        if granted == u64::MAX {
            return Result::Err(NftError::ApprovalIdsExhausted);
        }
        let existing = find_approval_index(&self.tokens[k].approvals, &account_id);
        let ghost toks0 = self.tokens@;
        let ghost approvals0 = self.tokens@[k as int].approvals@;
        let rec = &mut self.tokens[k];
        match existing {
            Option::Some(a) => {
                let slot = &mut rec.approvals[a];
                slot.approval_id = granted;
            },
            Option::None => {
                rec.approvals.push(Approval { account_id: account_id.clone(), approval_id: granted });
            },
        }
        rec.next_approval_id = granted + 1;
        proof {
            let toks = self.tokens@;
            let approvals = toks[k as int].approvals@;
            // every account keeps its position; `account_id` holds `granted`
            // at its old position or at the freshly pushed one
            assert forall|j: int, l: int|
                0 <= j < l < approvals.len() implies approvals[j].account_id@
                    != approvals[l].account_id@ by {
                match existing {
                    Option::Some(a) => {
                        assert(approvals[j].account_id@ == approvals0[j].account_id@);
                        assert(approvals[l].account_id@ == approvals0[l].account_id@);
                    },
                    Option::None => {
                        assert(approvals[j].account_id@ == approvals0[j].account_id@);
                        if l < approvals.len() - 1 {
                            assert(approvals[l].account_id@ == approvals0[l].account_id@);
                        } else {
                            assert(!is_approved_account(approvals0, account_id@));
                        }
                    },
                }
            }
            assert forall|j: int|
                0 <= j < approvals.len() implies #[trigger] approvals[j].approval_id < granted
                    + 1 by {
                match existing {
                    Option::Some(a) => {
                        if j != a as int {
                            assert(approvals[j] == approvals0[j]);
                        }
                    },
                    Option::None => {
                        if j < approvals.len() - 1 {
                            assert(approvals[j] == approvals0[j]);
                        }
                    },
                }
            }
            assert(approvals_wf(approvals, (granted + 1) as u64));
            assert forall|i: int| 0 <= i < toks.len() implies token_rec_wf(#[trigger] toks[i]) by {
                if i != k as int {
                    assert(toks[i] == toks0[i]);
                    assert(token_rec_wf(toks0[i]));
                }
            }
            assert forall|i: int, j: int|
                0 <= i < j < toks.len() implies toks[i].token_id@ != toks[j].token_id@ by {
                assert(toks[i].token_id == toks0[i].token_id);
                assert(toks[j].token_id == toks0[j].token_id);
            }
            // the granted approval stands
            match existing {
                Option::Some(a) => {
                    assert(approvals[a as int].account_id@ == account_id@);
                    assert(has_approval(approvals, account_id@, granted));
                },
                Option::None => {
                    assert(approvals[approvals.len() - 1].account_id@ == account_id@);
                    assert(has_approval(approvals, account_id@, granted));
                },
            }
            // only the granted id stands for `account_id`
            assert forall|idv: u64|
                idv != granted implies !#[trigger] has_approval(
                    approvals,
                    account_id@,
                    idv,
                ) by {
                assert forall|j: int|
                    0 <= j < approvals.len() && approvals[j].account_id@ == account_id@
                        implies approvals[j].approval_id == granted by {
                    match existing {
                        Option::Some(a) => {
                            if j != a as int {
                                assert(approvals[j].account_id@ == approvals0[j].account_id@);
                                assert(approvals0[a as int].account_id@ == account_id@);
                                assert(approvals_wf(approvals0, granted));
                            }
                        },
                        Option::None => {
                            if j < approvals.len() - 1 {
                                assert(approvals[j] == approvals0[j]);
                                assert(!is_approved_account(approvals0, account_id@));
                            }
                        },
                    }
                }
            }
            // every other account's approvals are untouched
            assert forall|x: Seq<char>, idv: u64|
                x != account_id@ implies (#[trigger] has_approval(approvals, x, idv)
                    <==> has_approval(approvals0, x, idv)) by {
                match existing {
                    Option::Some(a) => {
                        if has_approval(approvals, x, idv) {
                            let j = choose|j: int|
                                0 <= j < approvals.len() && approvals[j].account_id@ == x
                                    && approvals[j].approval_id == idv;
                            assert(j != a as int);
                            assert(approvals[j] == approvals0[j]);
                        }
                        if has_approval(approvals0, x, idv) {
                            let j = choose|j: int|
                                0 <= j < approvals0.len() && approvals0[j].account_id@ == x
                                    && approvals0[j].approval_id == idv;
                            assert(approvals0[a as int].account_id@ == account_id@);
                            assert(j != a as int);
                            assert(approvals[j] == approvals0[j]);
                        }
                    },
                    Option::None => {
                        if has_approval(approvals, x, idv) {
                            let j = choose|j: int|
                                0 <= j < approvals.len() && approvals[j].account_id@ == x
                                    && approvals[j].approval_id == idv;
                            assert(j < approvals.len() - 1);
                            assert(approvals[j] == approvals0[j]);
                        }
                        if has_approval(approvals0, x, idv) {
                            let j = choose|j: int|
                                0 <= j < approvals0.len() && approvals0[j].account_id@ == x
                                    && approvals0[j].approval_id == idv;
                            assert(approvals[j] == approvals0[j]);
                        }
                    },
                }
            }
        }
        match msg {
            Option::Some(m) => Result::Ok(
                Option::Some(ApprovalReceipt { account_id, approval_id: granted, msg: m }),
            ),
            Option::None => Result::Ok(Option::None),
        }
    }

    /// Withdraw the approval granted to `account_id` on the token, called by
    /// the token's owner `sender_id` with exactly one yocto attached.
    /// Revoking an account that holds no approval changes nothing. On failure
    /// the ledger is left exactly as it was.
    pub fn nft_revoke(
        &mut self,
        token_id: String,
        account_id: String,
        sender_id: String,
        attached_deposit: u128,
    ) -> (r: Result<(), NftError>)
        requires
            old(self).wf(),
        ensures
            final(self).wf(),
            final(self).owner_id == old(self).owner_id,
            final(self).metadata == old(self).metadata,
            r is Err ==> *final(self) == *old(self),
            attached_deposit != 1 ==> r == Result::<(), NftError>::Err(NftError::OneYoctoRequired),
            attached_deposit == 1 && !old(self).spec_has_token(token_id@) ==> r == Result::<
                (),
                NftError,
            >::Err(NftError::TokenNotFound),
            attached_deposit == 1 ==> forall|i: int|
                0 <= i < old(self).tokens@.len() && (#[trigger] old(self).tokens@[i]).token_id@
                    == token_id@ ==> {
                    &&& old(self).tokens@[i].owner_id@ != sender_id@ ==> r == Result::<
                        (),
                        NftError,
                    >::Err(NftError::NotTokenOwner)
                    &&& old(self).tokens@[i].owner_id@ == sender_id@ ==> r is Ok
                        && revoke_effect(
                        old(self).tokens@,
                        final(self).tokens@,
                        token_id@,
                        account_id@,
                    )
                },
            r is Ok ==> attached_deposit == 1 && old(self).spec_has_token(token_id@),
    {
        if attached_deposit != 1 {
            return Result::Err(NftError::OneYoctoRequired);
        }
        let k = match self.token_index(&token_id) {
            Option::None => {
                return Result::Err(NftError::TokenNotFound);
            },
            Option::Some(k) => k,
        };
        proof {
            lemma_token_index_unique(self.tokens@, token_id@, k as int);
            assert(token_rec_wf(self.tokens@[k as int]));
        }
        if !(self.tokens[k].owner_id == sender_id) {
            return Result::Err(NftError::NotTokenOwner);
        }
        let a = match find_approval_index(&self.tokens[k].approvals, &account_id) {
            Option::None => {
                return Result::Ok(());
            },
            Option::Some(a) => a,
        };
        let ghost toks0 = self.tokens@;
        let ghost approvals0 = self.tokens@[k as int].approvals@;
        let rec = &mut self.tokens[k];
        rec.approvals.remove(a);
        proof {
            let toks = self.tokens@;
            let approvals = toks[k as int].approvals@;
            assert forall|j: int|
                0 <= j < approvals.len() implies approvals[j] == (if j < a as int {
                approvals0[j]
            } else {
                approvals0[j + 1]
            }) by {}
            assert forall|j: int, l: int|
                0 <= j < l < approvals.len() implies approvals[j].account_id@
                    != approvals[l].account_id@ by {}
            assert(approvals_wf(approvals, toks[k as int].next_approval_id));
            assert forall|i: int| 0 <= i < toks.len() implies token_rec_wf(#[trigger] toks[i]) by {
                if i != k as int {
                    assert(toks[i] == toks0[i]);
                    assert(token_rec_wf(toks0[i]));
                }
            }
            assert forall|i: int, j: int|
                0 <= i < j < toks.len() implies toks[i].token_id@ != toks[j].token_id@ by {
                assert(toks[i].token_id == toks0[i].token_id);
                assert(toks[j].token_id == toks0[j].token_id);
            }
            // `account_id` held only the removed entry
            assert forall|j: int|
                0 <= j < approvals.len() implies approvals[j].account_id@ != account_id@ by {
                if j < a as int {
                    assert(approvals0[j].account_id@ != approvals0[a as int].account_id@);
                } else {
                    assert(approvals0[a as int].account_id@ != approvals0[j + 1].account_id@);
                }
            }
            // every other account's approvals are untouched
            assert forall|x: Seq<char>, idv: u64|
                x != account_id@ implies (#[trigger] has_approval(approvals, x, idv)
                    <==> has_approval(approvals0, x, idv)) by {
                if has_approval(approvals, x, idv) {
                    let j = choose|j: int|
                        0 <= j < approvals.len() && approvals[j].account_id@ == x
                            && approvals[j].approval_id == idv;
                    if j < a as int {
                        assert(approvals0[j].account_id@ == x && approvals0[j].approval_id == idv);
                    } else {
                        assert(approvals0[j + 1].account_id@ == x && approvals0[j + 1].approval_id
                            == idv);
                    }
                }
                if has_approval(approvals0, x, idv) {
                    let j = choose|j: int|
                        0 <= j < approvals0.len() && approvals0[j].account_id@ == x
                            && approvals0[j].approval_id == idv;
                    assert(j != a as int);
                    if j < a as int {
                        assert(approvals[j].account_id@ == x && approvals[j].approval_id == idv);
                    } else {
                        assert(approvals[j - 1].account_id@ == x && approvals[j - 1].approval_id
                            == idv);
                    }
                }
            }
        }
        Result::Ok(())
    }

    /// Withdraw every approval on the token, called by the token's owner
    /// `sender_id` with exactly one yocto attached. On failure the ledger is
    /// left exactly as it was.
    pub fn nft_revoke_all(
        &mut self,
        token_id: String,
        sender_id: String,
        attached_deposit: u128,
    ) -> (r: Result<(), NftError>)
        requires
            old(self).wf(),
        ensures
            final(self).wf(),
            final(self).owner_id == old(self).owner_id,
            final(self).metadata == old(self).metadata,
            r is Err ==> *final(self) == *old(self),
            attached_deposit != 1 ==> r == Result::<(), NftError>::Err(NftError::OneYoctoRequired),
            attached_deposit == 1 && !old(self).spec_has_token(token_id@) ==> r == Result::<
                (),
                NftError,
            >::Err(NftError::TokenNotFound),
            attached_deposit == 1 ==> forall|i: int|
                0 <= i < old(self).tokens@.len() && (#[trigger] old(self).tokens@[i]).token_id@
                    == token_id@ ==> {
                    &&& old(self).tokens@[i].owner_id@ != sender_id@ ==> r == Result::<
                        (),
                        NftError,
                    >::Err(NftError::NotTokenOwner)
                    &&& old(self).tokens@[i].owner_id@ == sender_id@ ==> {
                        &&& r is Ok
                        &&& final(self).tokens@.len() == old(self).tokens@.len()
                        &&& final(self).tokens@[i].token_id == old(self).tokens@[i].token_id
                        &&& final(self).tokens@[i].owner_id == old(self).tokens@[i].owner_id
                        &&& final(self).tokens@[i].metadata == old(self).tokens@[i].metadata
                        &&& final(self).tokens@[i].next_approval_id == old(
                            self,
                        ).tokens@[i].next_approval_id
                        &&& final(self).tokens@[i].approvals@.len() == 0
                        &&& forall|j: int|
                            0 <= j < old(self).tokens@.len() && old(self).tokens@[j].token_id@
                                != token_id@ ==> final(self).tokens@[j] == old(self).tokens@[j]
                    }
                },
            r is Ok ==> attached_deposit == 1 && old(self).spec_has_token(token_id@),
    {
        if attached_deposit != 1 {
            return Result::Err(NftError::OneYoctoRequired);
        }
        let k = match self.token_index(&token_id) {
            Option::None => {
                return Result::Err(NftError::TokenNotFound);
            },
            Option::Some(k) => k,
        };
        proof {
            lemma_token_index_unique(self.tokens@, token_id@, k as int);
        }
        if !(self.tokens[k].owner_id == sender_id) {
            return Result::Err(NftError::NotTokenOwner);
        }
        let ghost toks0 = self.tokens@;
        let rec = &mut self.tokens[k];
        rec.approvals = Vec::new();
        proof {
            let toks = self.tokens@;
            assert forall|i: int| 0 <= i < toks.len() implies token_rec_wf(#[trigger] toks[i]) by {
                if i != k as int {
                    assert(toks[i] == toks0[i]);
                    assert(token_rec_wf(toks0[i]));
                }
            }
            assert forall|i: int, j: int|
                0 <= i < j < toks.len() implies toks[i].token_id@ != toks[j].token_id@ by {
                assert(toks[i].token_id == toks0[i].token_id);
                assert(toks[j].token_id == toks0[j].token_id);
            }
        }
        Result::Ok(())
    }

    /// Look a token up by id. Returns the record of the unique ledger entry
    /// with that id — its current owner, metadata and approval list — and
    /// `None` exactly when no such token was ever minted.
    pub fn nft_token(&self, token_id: String) -> (r: Option<Token>)
        requires
            self.wf(),
        ensures
            r is Some <==> self.spec_has_token(token_id@),
            forall|i: int|
                0 <= i < self.tokens@.len() && self.tokens@[i].token_id@ == token_id@
                    ==> r is Some && token_reports_rec(r.unwrap(), #[trigger] self.tokens@[i]),
    {
        match self.token_index(&token_id) {
            Option::None => Option::None,
            Option::Some(k) => {
                let t = self.tokens[k].report();
                proof {
                    assert forall|i: int|
                        0 <= i < self.tokens@.len() && self.tokens@[i].token_id@ == token_id@
                            implies i == k as int by {
                        if i != k as int {
                            assert(self.tokens@[i].token_id@ != self.tokens@[k as int].token_id@);
                        }
                    }
                }
                Option::Some(t)
            },
        }
    }

    /// Report the contract-level metadata, exactly as initialization stored
    /// it.
    pub fn nft_metadata(&self) -> (r: NFTContractMetadata)
        ensures
            contract_meta_eq(r, self.metadata),
    {
        self.metadata.duplicate()
    }

    /// The number of tokens minted so far; token ids being unique, this is the
    /// count of distinct minted token ids.
    pub fn nft_total_supply(&self) -> (r: u128)
        ensures
            r as nat == self.tokens@.len(),
    {
        self.tokens.len() as u128
    }

    /// How many tokens `account_id` currently owns.
    pub fn nft_supply_for_owner(&self, account_id: String) -> (r: u128)
        ensures
            r as nat == owned_tokens(self.tokens@, account_id@).len(),
    {
        let mut count: u128 = 0;
        let mut i: usize = 0;
        while i < self.tokens.len()
            invariant
                i <= self.tokens@.len(),
                count as nat <= i as nat,
                count as nat == owned_tokens(self.tokens@.take(i as int), account_id@).len(),
            decreases self.tokens@.len() - i,
        {
            proof {
                let t1 = self.tokens@.take(i as int + 1);
                assert(t1.drop_last() =~= self.tokens@.take(i as int));
                assert(t1.last() == self.tokens@[i as int]);
            }
            if self.tokens[i].owner_id == account_id {
                count = count + 1;
            }
            i = i + 1;
        }
        proof {
            assert(self.tokens@.take(self.tokens@.len() as int) =~= self.tokens@);
        }
        count
    }

    /// List the minted tokens in ledger order, from `from_index` (zero when
    /// not quoted) and at most `limit` of them (all that remain when not
    /// quoted). The start index may not lie past the total supply, and a
    /// quoted limit may not be zero.
    pub fn nft_tokens(&self, from_index: Option<u128>, limit: Option<u64>) -> (r: Result<
        Vec<Token>,
        NftError,
    >)
        ensures
            start_of(from_index) > self.tokens@.len() ==> r == Result::<Vec<Token>, NftError>::Err(
                NftError::IndexOutOfBounds,
            ),
            start_of(from_index) <= self.tokens@.len() && limit == Option::Some(0u64) ==> r
                == Result::<Vec<Token>, NftError>::Err(NftError::ZeroLimit),
            r is Ok <==> start_of(from_index) <= self.tokens@.len() && limit != Option::Some(0u64),
            r is Ok ==> {
                &&& r.unwrap()@.len() == page_len(
                    start_of(from_index),
                    limit,
                    self.tokens@.len(),
                )
                &&& forall|j: int|
                    0 <= j < r.unwrap()@.len() ==> token_reports_rec(
                        #[trigger] r.unwrap()@[j],
                        self.tokens@[start_of(from_index) + j],
                    )
            },
    {
        let total: usize = self.tokens.len();
        let start_big: u128 = match from_index {
            Option::Some(s) => s,
            Option::None => 0,
        };
        if start_big > total as u128 {
            return Result::Err(NftError::IndexOutOfBounds);
        }
        let start: usize = start_big as usize;
        let count: usize = match limit {
            Option::Some(l) => {
                if l == 0 {
                    return Result::Err(NftError::ZeroLimit);
                }
                let avail: usize = total - start;
                if (l as u128) < (avail as u128) {
                    l as usize
                } else {
                    avail
                }
            },
            Option::None => total - start,
        };
        proof {
            assert(count as nat == page_len(start_of(from_index), limit, self.tokens@.len()));
        }
        let mut out: Vec<Token> = Vec::new();
        let mut j: usize = 0;
        while j < count
            invariant
                j <= count,
                total == self.tokens@.len(),
                start + count <= total,
                out@.len() == j,
                forall|m: int|
                    0 <= m < j ==> token_reports_rec(
                        #[trigger] out@[m],
                        self.tokens@[start + m],
                    ),
            decreases count - j,
        {
            let t = self.tokens[start + j].report();
            let ghost out0 = out@;
            out.push(t);
            j = j + 1;
            proof {
                assert forall|m: int|
                    0 <= m < j implies token_reports_rec(
                        #[trigger] out@[m],
                        self.tokens@[start + m],
                    ) by {
                    if m < j - 1 {
                        assert(out@[m] == out0[m]);
                    } else {
                        assert(out@[m] == t);
                    }
                }
            }
        }
        Result::Ok(out)
    }

    /// List the tokens `account_id` currently owns, in ledger order, from
    /// `from_index` (zero when not quoted) and at most `limit` of them (all
    /// that remain when not quoted). An account that owns nothing gets the
    /// empty listing whatever the other arguments; otherwise a quoted limit
    /// may not be zero and the start index must lie below the account's
    /// holdings.
    pub fn nft_tokens_for_owner(
        &self,
        account_id: String,
        from_index: Option<u128>,
        limit: Option<u64>,
    ) -> (r: Result<Vec<Token>, NftError>)
        ensures
            owned_tokens(self.tokens@, account_id@).len() == 0 ==> r is Ok && r.unwrap()@.len()
                == 0,
            owned_tokens(self.tokens@, account_id@).len() > 0 && limit == Option::Some(0u64) ==> r
                == Result::<Vec<Token>, NftError>::Err(NftError::ZeroLimit),
            owned_tokens(self.tokens@, account_id@).len() > 0 && limit != Option::Some(0u64)
                && start_of(from_index) >= owned_tokens(self.tokens@, account_id@).len() ==> r
                == Result::<Vec<Token>, NftError>::Err(NftError::IndexOutOfBounds),
            r is Ok <==> (owned_tokens(self.tokens@, account_id@).len() == 0 || (limit
                != Option::Some(0u64) && start_of(from_index) < owned_tokens(
                self.tokens@,
                account_id@,
            ).len())),
            r is Ok && owned_tokens(self.tokens@, account_id@).len() > 0 ==> {
                &&& r.unwrap()@.len() == page_len(
                    start_of(from_index),
                    limit,
                    owned_tokens(self.tokens@, account_id@).len(),
                )
                &&& forall|j: int|
                    0 <= j < r.unwrap()@.len() ==> token_reports_rec(
                        #[trigger] r.unwrap()@[j],
                        owned_tokens(self.tokens@, account_id@)[start_of(from_index) + j],
                    )
            },
    {
        let ghost owned = owned_tokens(self.tokens@, account_id@);
        let mut idxs: Vec<usize> = Vec::new();
        let mut i: usize = 0;
        while i < self.tokens.len()
            invariant
                i <= self.tokens@.len(),
                idxs@.len() == owned_tokens(self.tokens@.take(i as int), account_id@).len(),
                forall|m: int|
                    0 <= m < idxs@.len() ==> (#[trigger] idxs@[m]) < i && self.tokens@[idxs@[m] as int]
                        == owned_tokens(self.tokens@.take(i as int), account_id@)[m],
            decreases self.tokens@.len() - i,
        {
            proof {
                let t1 = self.tokens@.take(i as int + 1);
                assert(t1.drop_last() =~= self.tokens@.take(i as int));
                assert(t1.last() == self.tokens@[i as int]);
            }
            let ghost idxs0 = idxs@;
            let ghost o0 = owned_tokens(self.tokens@.take(i as int), account_id@);
            if self.tokens[i].owner_id == account_id {
                idxs.push(i);
            }
            i = i + 1;
            proof {
                let o1 = owned_tokens(self.tokens@.take(i as int), account_id@);
                assert forall|m: int|
                    0 <= m < idxs@.len() implies (#[trigger] idxs@[m]) < i
                        && self.tokens@[idxs@[m] as int] == o1[m] by {
                    if m < idxs0.len() {
                        assert(idxs@[m] == idxs0[m]);
                        assert(o1[m] == o0[m]);
                    } else {
                        assert(idxs@[m] == i - 1);
                        assert(o1[m] == o1.last());
                    }
                }
            }
        }
        proof {
            assert(self.tokens@.take(self.tokens@.len() as int) =~= self.tokens@);
        }
        let owned_count: usize = idxs.len();
        if owned_count == 0 {
            return Result::Ok(Vec::new());
        }
        if let Option::Some(l) = limit {
            if l == 0 {
                return Result::Err(NftError::ZeroLimit);
            }
        }
        let start_big: u128 = match from_index {
            Option::Some(s) => s,
            Option::None => 0,
        };
        if start_big >= owned_count as u128 {
            return Result::Err(NftError::IndexOutOfBounds);
        }
        let start: usize = start_big as usize;
        let count: usize = match limit {
            Option::Some(l) => {
                let avail: usize = owned_count - start;
                if (l as u128) < (avail as u128) {
                    l as usize
                } else {
                    avail
                }
            },
            Option::None => owned_count - start,
        };
        proof {
            assert(count as nat == page_len(start_of(from_index), limit, owned.len()));
        }
        let mut out: Vec<Token> = Vec::new();
        let mut j: usize = 0;
        while j < count
            invariant
                j <= count,
                owned_count == idxs@.len(),
                start + count <= owned_count,
                idxs@.len() == owned.len(),
                owned == owned_tokens(self.tokens@, account_id@),
                forall|m: int|
                    0 <= m < idxs@.len() ==> (#[trigger] idxs@[m]) < self.tokens@.len()
                        && self.tokens@[idxs@[m] as int] == owned[m],
                out@.len() == j,
                forall|m: int|
                    0 <= m < j ==> token_reports_rec(#[trigger] out@[m], owned[start + m]),
            decreases count - j,
        {
            let t = self.tokens[idxs[start + j]].report();
            let ghost out0 = out@;
            out.push(t);
            j = j + 1;
            proof {
                assert forall|m: int|
                    0 <= m < j implies token_reports_rec(#[trigger] out@[m], owned[start + m]) by {
                    if m < j - 1 {
                        assert(out@[m] == out0[m]);
                    } else {
                        assert(out@[m] == t);
                    }
                }
            }
        }
        Result::Ok(out)
    }

    /// Whether `approved_account_id` currently holds an approval on the token,
    /// and, when an approval id is quoted, whether it is the granted one.
    /// Fails exactly when the token id is unknown.
    pub fn nft_is_approved(
        &self,
        token_id: String,
        approved_account_id: String,
        approval_id: Option<u64>,
    ) -> (r: Result<bool, NftError>)
        requires
            self.wf(),
        ensures
            r is Err <==> !self.spec_has_token(token_id@),
            r is Err ==> r == Result::<bool, NftError>::Err(NftError::TokenNotFound),
            forall|i: int|
                0 <= i < self.tokens@.len() && self.tokens@[i].token_id@ == token_id@ ==> r
                    == Result::<bool, NftError>::Ok(
                    match approval_id {
                        Option::None => is_approved_account(
                            (#[trigger] self.tokens@[i]).approvals@,
                            approved_account_id@,
                        ),
                        Option::Some(id) => has_approval(
                            self.tokens@[i].approvals@,
                            approved_account_id@,
                            id,
                        ),
                    },
                ),
    {
        let k = match self.token_index(&token_id) {
            Option::None => {
                return Result::Err(NftError::TokenNotFound);
            },
            Option::Some(k) => k,
        };
        proof {
            assert forall|i: int|
                0 <= i < self.tokens@.len() && self.tokens@[i].token_id@ == token_id@
                    implies i == k as int by {
                if i != k as int {
                    assert(self.tokens@[i].token_id@ != self.tokens@[k as int].token_id@);
                }
            }
        }
        let rec = &self.tokens[k];
        let granted = match find_approval_index(&rec.approvals, &approved_account_id) {
            Option::None => {
                return Result::Ok(false);
            },
            Option::Some(a) => a,
        };
        match approval_id {
            Option::None => Result::Ok(true),
            Option::Some(id) => {
                let actual = rec.approvals[granted].approval_id;
                proof {
                    assert forall|j: int|
                        0 <= j < rec.approvals@.len() && rec.approvals@[j].account_id@
                            == approved_account_id@ implies j == granted as int by {
                        assert(token_rec_wf(self.tokens@[k as int]));
                    }
                }
                Result::Ok(actual == id)
            },
        }
    }
}

} // verus!
