//! Proved laws of the instruction processor.
//!
//! The record and instruction codecs' round-trip laws live beside the
//! codecs themselves ([`crate::state::lemma_state_round_trip`],
//! [`crate::state::lemma_grant_round_trip`],
//! [`crate::state::lemma_index_round_trip`],
//! [`crate::instruction::lemma_instruction_round_trip`]); the chained
//! index's append-and-overflow law is the contract of
//! [`crate::index_chain::IndexChain::append`]. The laws here govern the
//! processor's authorization and share-budget bookkeeping.

use vstd::prelude::*;

verus! {

use crate::addresses::{found_address, dataset_seeds, associated_access_seeds};
use crate::error::DataNexusError;
use crate::instruction::ParamsView;
use crate::layout::zero32;
use crate::processor::{AccountView, spec_set_params, spec_share_access};
use crate::layout::wf_opt32;
use crate::processor::{spec_purchase_access, spec_init_dataset_account, spec_index_append,
    lemma_first_free_in_range};
use crate::index_chain::slots_full;
use crate::state::{IndexView, spec_decode_index, spec_encode_index, lemma_decode_index_wf,
    lemma_state_round_trip, lemma_index_round_trip};
use crate::state::{GrantView, StateView, spec_decode_state, spec_decode_grant, spec_encode_grant,
    lemma_grant_round_trip, lemma_decode_state_wf, lemma_decode_grant_wf};

/// A `SetDataParams` instruction whose signer is any identity other
/// than the record's owner fails, and — since a failed operation
/// produces no byte image at all — leaves the record's bytes unchanged.
/// When every other validation passes, the error is precisely
/// `Unauthorized`.
pub proof fn lemma_set_params_requires_owner(
    pid: Seq<u8>,
    authority: AccountView,
    dataset: AccountView,
    hash: Seq<u8>,
    params: ParamsView,
)
    requires
        spec_decode_state(dataset.data) matches Some(sv) && sv.owner != authority.key,
    ensures
        spec_set_params(pid, authority, dataset, hash, params) is Err,
        (authority.is_signer && found_address(dataset_seeds(hash), pid) == Some(dataset.key)
            && spec_decode_state(dataset.data)->Some_0.initialized) ==> spec_set_params(
            pid,
            authority,
            dataset,
            hash,
            params,
        ) == Err::<StateView, DataNexusError>(DataNexusError::Unauthorized),
{
}

/// A dataset record's owner and content hash are immutable: whatever
/// parameter selection a successful `SetDataParams` writes, the record
/// it returns keeps the owner, the hash and the `initialized` flag of
/// the record it started from.
pub proof fn lemma_set_params_preserves_owner(
    pid: Seq<u8>,
    authority: AccountView,
    dataset: AccountView,
    hash: Seq<u8>,
    params: ParamsView,
)
    requires
        spec_set_params(pid, authority, dataset, hash, params) is Ok,
    ensures
        spec_decode_state(dataset.data) matches Some(sv) && {
            let after = spec_set_params(pid, authority, dataset, hash, params)->Ok_0;
            after.owner == sv.owner && after.hash == sv.hash && after.initialized
                == sv.initialized
        },
{
}

/// A successful parameter write keeps the record representable, and a
/// field once set is never reset to absent: the key, price and share
/// limit of the record that comes out are set wherever they were set
/// before, and so is the reference under every single-field selection.
/// (The full initialization tuple rewrites the reference as given,
/// which may be absent.)
pub proof fn lemma_set_params_never_unsets(
    pid: Seq<u8>,
    authority: AccountView,
    dataset: AccountView,
    hash: Seq<u8>,
    params: ParamsView,
)
    requires
        spec_set_params(pid, authority, dataset, hash, params) is Ok,
    ensures
        ({
            let sv = spec_decode_state(dataset.data)->Some_0;
            let after = spec_set_params(pid, authority, dataset, hash, params)->Ok_0;
            &&& after.wf()
            &&& sv.key is Some ==> after.key is Some
            &&& sv.value is Some ==> after.value is Some
            &&& sv.share_limit is Some ==> after.share_limit is Some
            &&& !(params is Init) && sv.reference is Some ==> after.reference is Some
        }),
{
    lemma_decode_state_wf(dataset.data);
}

/// Share-budget exhaustion. With every identity and address validation
/// in place and a stored sharer grant whose remaining budget is
/// `g.share_limit`:
///
/// - while the budget is at least one, a `ShareAccess` succeeds, the
///   sharer's budget decreases by exactly one and nothing else of the
///   sharer's grant changes, and the recipient's grant copies the key,
///   names the sharer, and carries no budget of its own;
/// - once the budget reaches zero, the next `ShareAccess` fails with
///   the guarded-decrement error rather than wrapping — and a failed
///   operation produces no byte image, so the grant is unchanged.
///
/// Applied at each step, a budget of `n` admits exactly `n` consecutive
/// successful shares before the guarded decrement fires.
pub proof fn lemma_share_limit_exhaustion(
    pid: Seq<u8>,
    hash: Seq<u8>,
    user: AccountView,
    user_access: AccountView,
    recipient: AccountView,
    recipient_access: AccountView,
    dataset: AccountView,
    g: GrantView,
)
    requires
        user.is_signer,
        user.key.len() == 32,
        user.key != zero32(),
        found_address(dataset_seeds(hash), pid) == Some(dataset.key),
        found_address(associated_access_seeds(user.key, dataset.key), pid) == Some(
            user_access.key,
        ),
        found_address(associated_access_seeds(recipient.key, dataset.key), pid) == Some(
            recipient_access.key,
        ),
        g.wf(),
        g.initialized,
        g.hash == hash,
        user_access.data == spec_encode_grant(g),
        spec_decode_grant(recipient_access.data) matches Some(rg) && rg.initialized,
    ensures
        g.share_limit >= 1 ==> (spec_share_access(pid, hash, user, user_access, recipient,
        recipient_access, dataset) matches Ok(p) && p.0 == (GrantView {
            share_limit: (g.share_limit - 1) as u64,
            ..g
        }) && p.1 == (GrantView {
            initialized: true,
            hash: hash,
            key: g.key,
            granted_by: Some(user.key),
            share_limit: 0,
        })),
        g.share_limit == 0 ==> spec_share_access(pid, hash, user, user_access, recipient,
        recipient_access, dataset) == Err::<(GrantView, GrantView), DataNexusError>(
            DataNexusError::ArithmeticError,
        ),
{
    lemma_grant_round_trip(g);
}

/// Every grant image a share or a purchase returns is representable, so
/// it decodes back to exactly the grant that was written: nothing the
/// processor stores can fail to be read later.
pub proof fn lemma_grant_outputs_decode(
    pid: Seq<u8>,
    hash: Seq<u8>,
    amount: u64,
    user: AccountView,
    user_access: AccountView,
    user_token: AccountView,
    owner_token: AccountView,
    recipient: AccountView,
    recipient_access: AccountView,
    dataset: AccountView,
    token_program: AccountView,
    transfer_ok: bool,
)
    ensures
        spec_share_access(pid, hash, user, user_access, recipient, recipient_access, dataset)
            matches Ok(p) ==> p.0.wf() && p.1.wf() && spec_decode_grant(spec_encode_grant(p.0))
            == Some(p.0) && spec_decode_grant(spec_encode_grant(p.1)) == Some(p.1),
        spec_purchase_access(pid, hash, amount, user, user_access, user_token, owner_token,
        dataset, token_program, transfer_ok) matches Ok(q) ==> q.0.wf() && spec_decode_grant(
            spec_encode_grant(q.0),
        ) == Some(q.0),
{
    if spec_share_access(pid, hash, user, user_access, recipient, recipient_access, dataset)
        is Ok {
        lemma_decode_grant_wf(user_access.data);
        let p = spec_share_access(pid, hash, user, user_access, recipient, recipient_access,
        dataset)->Ok_0;
        lemma_grant_round_trip(p.0);
        lemma_grant_round_trip(p.1);
    }
    if spec_purchase_access(pid, hash, amount, user, user_access, user_token, owner_token,
    dataset, token_program, transfer_ok) is Ok {
        lemma_decode_state_wf(dataset.data);
        lemma_decode_grant_wf(user_access.data);
        let q = spec_purchase_access(pid, hash, amount, user, user_access, user_token,
        owner_token, dataset, token_program, transfer_ok)->Ok_0;
        lemma_grant_round_trip(q.0);
    }
}

/// Every image a dataset creation returns — the record, the owner's
/// index page, and the chained page if one was needed — is
/// representable, so each decodes back to exactly what was written.
pub proof fn lemma_init_dataset_outputs_decode(
    pid: Seq<u8>,
    hash: Seq<u8>,
    authority: AccountView,
    owner_index: AccountView,
    dataset: AccountView,
    continuation: Option<AccountView>,
)
    ensures
        spec_init_dataset_account(pid, hash, authority, owner_index, dataset, continuation)
            matches Ok(v) ==> {
            &&& v.0.wf()
            &&& spec_decode_state(crate::state::spec_encode_state(v.0)) == Some(v.0)
            &&& v.1.wf()
            &&& spec_decode_index(spec_encode_index(v.1)) == Some(v.1)
            &&& (v.2 matches Some(f) ==> f.wf() && spec_decode_index(spec_encode_index(f))
                == Some(f))
        },
{
    if spec_init_dataset_account(pid, hash, authority, owner_index, dataset, continuation)
        is Ok {
        let v = spec_init_dataset_account(pid, hash, authority, owner_index, dataset,
        continuation)->Ok_0;
        lemma_decode_index_wf(owner_index.data);
        let iv = spec_decode_index(owner_index.data)->Some_0;
        lemma_state_round_trip(v.0);
        lemma_index_append_wf(iv, dataset.key, continuation);
        lemma_index_round_trip(v.1);
        match v.2 {
            Some(f) => {
                lemma_index_round_trip(f);
            },
            None => {},
        }
    }
}

/// Appending a real, non-sentinel entry to a representable index page
/// yields representable pages.
proof fn lemma_index_append_wf(iv: IndexView, entry: Seq<u8>, continuation: Option<AccountView>)
    requires
        iv.wf(),
        entry.len() == 32,
        entry != zero32(),
    ensures
        spec_index_append(iv, entry, continuation) matches Ok(p) ==> p.0.wf() && (
        p.1 matches Some(f) ==> f.wf()),
{
    if spec_index_append(iv, entry, continuation) is Ok {
        let p = spec_index_append(iv, entry, continuation)->Ok_0;
        if !slots_full(iv.slots) {
            lemma_first_free_in_range(iv.slots);
            assert forall|i: int| 0 <= i < p.0.slots.len() implies wf_opt32(
                #[trigger] p.0.slots[i],
            ) by {
                if i != crate::processor::first_free(iv.slots) {
                    assert(p.0.slots[i] == iv.slots[i]);
                }
            }
        } else {
            let f = p.1->Some_0;
            assert forall|i: int| 0 <= i < f.slots.len() implies wf_opt32(
                #[trigger] f.slots[i],
            ) by {}
        }
    }
}

} // verus!
