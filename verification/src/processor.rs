//! The instruction processor: the deterministic state machine.
//!
//! The processor validates the account set and the authorization of each
//! instruction, then produces the new record images and, for a purchase,
//! the payment order for the external payment collaborator. It never
//! mutates an account in place: every operation either returns the
//! complete set of new byte images, or an error and nothing else, so a
//! late-discovered failure can never leave a half-written record. The
//! hosting runtime applies the returned writes atomically.
//!
//! Every operation independently recomputes the expected address of each
//! record it touches from the instruction's own inputs (identity, content
//! hash) and rejects the instruction when a caller-supplied account does
//! not match: a caller-supplied address is never trusted bare.

use vstd::prelude::*;

verus! {

use crate::addresses::{found_address, owner_seeds, access_seeds, dataset_seeds,
    associated_access_seeds, get_owner_address, get_access_address, get_dataset_address,
    get_associated_access_address};
use crate::error::DataNexusError;
use crate::instruction::{Params, ParamsView};
use crate::layout::{zero32, opt_block32, opt_word16, bytes_eq, block_is_zero, copy_bytes};
use crate::layout::{wf_opt32, push_zero32};
use crate::state::{AccountFlag, AccountState, StateView, spec_encode_state, spec_decode_state,
    AccessGrant, GrantView, spec_encode_grant, spec_decode_grant, AccountIndex, IndexView,
    spec_encode_index, spec_decode_index, opt_bytes_view, copy_opt_bytes, lemma_decode_index_wf,
    INDEX_SLOTS};
use crate::index_chain::{slots_dense, slots_full, find_free_slot, set_slot, set_pointer,
    fresh_index};

/// One account of an instruction's ordered account list, as the hosting
/// runtime presents it: its address, whether its holder co-signed the
/// invocation, and its current record bytes.
pub struct Account {
    pub key: Vec<u8>,
    pub is_signer: bool,
    pub data: Vec<u8>,
}

/// The view of an `Account`.
pub struct AccountView {
    pub key: Seq<u8>,
    pub is_signer: bool,
    pub data: Seq<u8>,
}

impl View for Account {
    type V = AccountView;

    open spec fn view(&self) -> AccountView {
        AccountView { key: self.key@, is_signer: self.is_signer, data: self.data@ }
    }
}

/// What the processor asks of the external payment collaborator: move
/// `amount` from `source` to `destination` under `authority`'s signature,
/// atomically with the instruction.
pub struct PaymentOrder {
    pub source: Vec<u8>,
    pub destination: Vec<u8>,
    pub authority: Vec<u8>,
    pub amount: u64,
}

/// The view of a `PaymentOrder`.
pub struct PaymentOrderView {
    pub source: Seq<u8>,
    pub destination: Seq<u8>,
    pub authority: Seq<u8>,
    pub amount: u64,
}

impl View for PaymentOrder {
    type V = PaymentOrderView;

    open spec fn view(&self) -> PaymentOrderView {
        PaymentOrderView {
            source: self.source@,
            destination: self.destination@,
            authority: self.authority@,
            amount: self.amount,
        }
    }
}

/// Whether a key is the identity of the external token program that
/// performs payment transfers. A pure function of the key.
pub uninterp spec fn is_token_program(key: Seq<u8>) -> bool;

/// Relies on `spl_token::check_id`: whether a key equals the token
/// program's published identity.
#[verifier::external_body]
fn token_program_check(key: &Vec<u8>) -> (r: bool)
    requires
        key@.len() == 32,
    ensures
        r == is_token_program(key@),
{
    let mut arr = [0u8; 32];
    arr.copy_from_slice(key.as_slice());
    spl_token::check_id(&spl_token::solana_program::pubkey::Pubkey::new_from_array(arr))
}

/// Whether a buffer holds pre-existing initialized data: any non-zero
/// flag byte counts, so an uninitialized record can never be mistaken
/// for live data.
pub open spec fn is_initialized_data(d: Seq<u8>) -> bool {
    d.len() > 0 && d[0] != 0
}

/// Exec check of [`is_initialized_data`].
fn initialized_data_check(d: &Vec<u8>) -> (r: bool)
    ensures
        r == is_initialized_data(d@),
{
    d.len() > 0 && d[0] != 0
}

/// The zero state of an index record: initialized, unchained, all slots
/// empty.
pub open spec fn fresh_index_view() -> IndexView {
    IndexView {
        initialized: true,
        pointer: None,
        slots: Seq::new(INDEX_SLOTS as nat, |i: int| None),
    }
}

/// The state of a dataset record at creation: owned by its creator, all
/// optional parameters still absent.
pub open spec fn new_dataset_view(owner: Seq<u8>, hash: Seq<u8>) -> StateView {
    StateView {
        initialized: true,
        owner: owner,
        hash: hash,
        key: None,
        value: None,
        share_limit: None,
        reference: None,
    }
}

/// The state of an access grant record at creation: initialized for its
/// hash, with no key, no granter and no re-share budget yet.
pub open spec fn fresh_grant_view(hash: Seq<u8>) -> GrantView {
    GrantView { initialized: true, hash: hash, key: zero32(), granted_by: None, share_limit: 0 }
}

/// The index of the first empty slot.
pub open spec fn first_free(slots: Seq<Option<Seq<u8>>>) -> int
    decreases slots.len(),
{
    if slots.len() == 0 {
        0
    } else if slots[0] is None {
        0
    } else {
        1 + first_free(slots.skip(1))
    }
}

/// A slot run that is not full has its first empty slot in range,
/// behind a fully occupied prefix.
pub proof fn lemma_first_free_in_range(slots: Seq<Option<Seq<u8>>>)
    requires
        !slots_full(slots),
    ensures
        0 <= first_free(slots) < slots.len(),
        slots[first_free(slots)] is None,
        forall|i: int| 0 <= i < first_free(slots) ==> (#[trigger] slots[i]) is Some,
    decreases slots.len(),
{
    let j = choose|j: int| 0 <= j < slots.len() && !(slots[j] is Some);
    if slots[0] is Some {
        assert(j >= 1);
        assert(!(slots.skip(1)[j - 1] is Some));
        assert(!slots_full(slots.skip(1)));
        lemma_first_free_in_range(slots.skip(1));
        assert(slots[first_free(slots)] == slots.skip(1)[first_free(slots.skip(1))]);
        assert forall|i: int| 0 <= i < first_free(slots) implies (
        #[trigger] slots[i]) is Some by {
            if i > 0 {
                assert(slots.skip(1)[i - 1] is Some);
            }
        }
    }
}

/// An empty slot behind an occupied prefix is the first empty slot.
pub proof fn lemma_first_free_char(slots: Seq<Option<Seq<u8>>>, j: int)
    requires
        0 <= j < slots.len(),
        slots[j] is None,
        forall|i: int| 0 <= i < j ==> (#[trigger] slots[i]) is Some,
    ensures
        first_free(slots) == j,
    decreases slots.len(),
{
    if j > 0 {
        lemma_first_free_char(slots.skip(1), j - 1);
    }
}

/// The seeds of the index record an `InitAccount` for an index kind
/// creates: the dataset (owner) index or the access index of the target
/// identity.
pub open spec fn flag_seeds(flag: AccountFlag, authority: Seq<u8>) -> Seq<Seq<u8>> {
    match flag {
        AccountFlag::Dataset => owner_seeds(authority),
        AccountFlag::Access => access_seeds(authority),
    }
}

/// The instruction processor. All operations are pure: they take the
/// current account contents and return either every new record image at
/// once, or an error and no change.
pub struct Processor {}

/// What initializing an index record returns: the new index image.
pub open spec fn spec_init_user_account(
    pid: Seq<u8>,
    flag: AccountFlag,
    payer: AccountView,
    authority: AccountView,
    user_account: AccountView,
) -> Result<IndexView, DataNexusError> {
    if !payer.is_signer {
        Err(DataNexusError::Unauthorized)
    } else if found_address(flag_seeds(flag, authority.key), pid) != Some(user_account.key) {
        Err(DataNexusError::Unauthorized)
    } else if is_initialized_data(user_account.data) {
        Err(DataNexusError::InvalidAccountData)
    } else {
        Ok(fresh_index_view())
    }
}

/// A parameter selection the record layout can store. The layout keeps
/// optional fields under zero sentinels, so a zero key, price, share
/// limit or reference cannot be stored as a present value: writing one
/// would silently reset the field to absent. The processor rejects such
/// a write, which keeps every set field set.
pub open spec fn params_storable(p: ParamsView) -> bool {
    &&& p.wf()
    &&& match p {
        ParamsView::Init(k, v, l, r) => k != zero32() && v != 0 && l != 0,
        ParamsView::Key(k) => k != zero32(),
        ParamsView::Value(v) => v != 0,
        ParamsView::ShareLimit(l) => l != 0,
        ParamsView::ReferenceData(d) => d != zero32(),
    }
}

/// What `SetDataParams` does to a dataset record's content.
pub open spec fn apply_params(sv: StateView, p: ParamsView) -> StateView {
    match p {
        ParamsView::Init(k, v, l, r) => StateView {
            initialized: sv.initialized,
            owner: sv.owner,
            hash: sv.hash,
            key: Some(k),
            value: Some(v),
            share_limit: Some(l),
            reference: r,
        },
        ParamsView::Key(k) => StateView {
            initialized: sv.initialized,
            owner: sv.owner,
            hash: sv.hash,
            key: Some(k),
            value: sv.value,
            share_limit: sv.share_limit,
            reference: sv.reference,
        },
        ParamsView::Value(v) => StateView {
            initialized: sv.initialized,
            owner: sv.owner,
            hash: sv.hash,
            key: sv.key,
            value: Some(v),
            share_limit: sv.share_limit,
            reference: sv.reference,
        },
        ParamsView::ShareLimit(l) => StateView {
            initialized: sv.initialized,
            owner: sv.owner,
            hash: sv.hash,
            key: sv.key,
            value: sv.value,
            share_limit: Some(l),
            reference: sv.reference,
        },
        ParamsView::ReferenceData(d) => StateView {
            initialized: sv.initialized,
            owner: sv.owner,
            hash: sv.hash,
            key: sv.key,
            value: sv.value,
            share_limit: sv.share_limit,
            reference: Some(d),
        },
    }
}

/// What `SetDataParams` returns: the updated dataset record, or the
/// exact error. Only the transaction's signer may write, and only when
/// that signer is the record's owner; the dataset account must sit at
/// the address derived from the instruction's hash.
pub open spec fn spec_set_params(
    pid: Seq<u8>,
    authority: AccountView,
    dataset: AccountView,
    hash: Seq<u8>,
    params: ParamsView,
) -> Result<StateView, DataNexusError> {
    if !authority.is_signer {
        Err(DataNexusError::Unauthorized)
    } else if found_address(dataset_seeds(hash), pid) != Some(dataset.key) {
        Err(DataNexusError::Unauthorized)
    } else {
        match spec_decode_state(dataset.data) {
            None => Err(DataNexusError::InvalidAccountData),
            Some(sv) => {
                if !sv.initialized {
                    Err(DataNexusError::InvalidAccountData)
                } else if sv.owner != authority.key {
                    Err(DataNexusError::Unauthorized)
                } else if !params_storable(params) {
                    Err(DataNexusError::InvalidInstruction)
                } else {
                    Ok(apply_params(sv, params))
                }
            },
        }
    }
}

/// What `PurchaseAccess` returns: the buyer's new grant — seeded with
/// the dataset's current key and share limit — and the payment order,
/// or the exact error. The caller-proposed amount is forwarded to the
/// payment collaborator as given; when the collaborator reports failure
/// no grant is written.
pub open spec fn spec_purchase_access(
    pid: Seq<u8>,
    hash: Seq<u8>,
    amount: u64,
    user_authority: AccountView,
    user_access: AccountView,
    user_token: AccountView,
    owner_token: AccountView,
    dataset: AccountView,
    token_program: AccountView,
    transfer_ok: bool,
) -> Result<(GrantView, PaymentOrderView), DataNexusError> {
    if !user_authority.is_signer {
        Err(DataNexusError::Unauthorized)
    } else if token_program.key.len() != 32 || !is_token_program(token_program.key) {
        Err(DataNexusError::Unauthorized)
    } else if found_address(dataset_seeds(hash), pid) != Some(dataset.key) {
        Err(DataNexusError::Unauthorized)
    } else if found_address(associated_access_seeds(user_authority.key, dataset.key), pid)
        != Some(user_access.key) {
        Err(DataNexusError::Unauthorized)
    } else {
        match spec_decode_state(dataset.data) {
            None => Err(DataNexusError::InvalidAccountData),
            Some(sv) => {
                if !sv.initialized {
                    Err(DataNexusError::InvalidAccountData)
                } else {
                    match spec_decode_grant(user_access.data) {
                        None => Err(DataNexusError::InvalidAccountData),
                        Some(gv) => {
                            if !gv.initialized {
                                Err(DataNexusError::InvalidAccountData)
                            } else if gv.hash != hash {
                                Err(DataNexusError::Unauthorized)
                            } else if !transfer_ok {
                                Err(DataNexusError::PaymentFailed)
                            } else {
                                Ok(
                                    (
                                        GrantView {
                                            initialized: true,
                                            hash: hash,
                                            key: opt_block32(sv.key),
                                            granted_by: None,
                                            share_limit: opt_word16(sv.share_limit) as u64,
                                        },
                                        PaymentOrderView {
                                            source: user_token.key,
                                            destination: owner_token.key,
                                            authority: user_authority.key,
                                            amount: amount,
                                        },
                                    ),
                                )
                            }
                        },
                    }
                }
            },
        }
    }
}

/// What `ShareAccess` returns: the sharer's grant with its budget
/// decremented by exactly one, and the recipient's grant — carrying the
/// sharer's key copy, naming the sharer, with no re-share budget of its
/// own — or the exact error. A budget already at zero fails the guarded
/// decrement and changes nothing.
pub open spec fn spec_share_access(
    pid: Seq<u8>,
    hash: Seq<u8>,
    user_authority: AccountView,
    user_access: AccountView,
    recipient_authority: AccountView,
    recipient_access: AccountView,
    dataset: AccountView,
) -> Result<(GrantView, GrantView), DataNexusError> {
    if !user_authority.is_signer {
        Err(DataNexusError::Unauthorized)
    } else if user_authority.key.len() != 32 || user_authority.key == zero32() {
        Err(DataNexusError::Unauthorized)
    } else if found_address(dataset_seeds(hash), pid) != Some(dataset.key) {
        Err(DataNexusError::Unauthorized)
    } else if found_address(associated_access_seeds(user_authority.key, dataset.key), pid)
        != Some(user_access.key) {
        Err(DataNexusError::Unauthorized)
    } else if found_address(associated_access_seeds(recipient_authority.key, dataset.key), pid)
        != Some(recipient_access.key) {
        Err(DataNexusError::Unauthorized)
    } else {
        match spec_decode_grant(user_access.data) {
            None => Err(DataNexusError::InvalidAccountData),
            Some(ug) => {
                if !ug.initialized {
                    Err(DataNexusError::InvalidAccountData)
                } else if ug.hash != hash {
                    Err(DataNexusError::Unauthorized)
                } else {
                    match spec_decode_grant(recipient_access.data) {
                        None => Err(DataNexusError::InvalidAccountData),
                        Some(rg) => {
                            if !rg.initialized {
                                Err(DataNexusError::InvalidAccountData)
                            } else if ug.share_limit == 0 {
                                Err(DataNexusError::ArithmeticError)
                            } else {
                                Ok(
                                    (
                                        GrantView {
                                            initialized: ug.initialized,
                                            hash: ug.hash,
                                            key: ug.key,
                                            granted_by: ug.granted_by,
                                            share_limit: (ug.share_limit - 1) as u64,
                                        },
                                        GrantView {
                                            initialized: true,
                                            hash: hash,
                                            key: ug.key,
                                            granted_by: Some(user_authority.key),
                                            share_limit: 0,
                                        },
                                    ),
                                )
                            }
                        },
                    }
                }
            },
        }
    }
}


/// The view of an optional account reference.
pub open spec fn opt_account_view(o: Option<&Account>) -> Option<AccountView> {
    match o {
        Some(a) => Some(a@),
        None => None,
    }
}

/// The view of an optional index record.
pub open spec fn opt_index_view(o: Option<AccountIndex>) -> Option<IndexView> {
    match o {
        Some(x) => Some(x@),
        None => None,
    }
}

/// Exec check of [`slots_dense`]: live entries must sit in a dense
/// prefix before the processor will append behind them.
fn dense_check(idx: &AccountIndex) -> (r: bool)
    ensures
        r == slots_dense(idx@.slots),
{
    let n = idx.datasets.len();
    let mut i: usize = 0;
    let mut seen_none = false;
    let ghost mut k: int = 0;
    while i < n
        invariant
            0 <= i <= n,
            n == idx.datasets@.len(),
            idx@.slots.len() == n,
            !seen_none ==> forall|j: int| 0 <= j < i ==> (#[trigger] idx@.slots[j]) is Some,
            seen_none ==> 0 <= k < i && idx@.slots[k] is None && (forall|j: int|
                0 <= j < k ==> (#[trigger] idx@.slots[j]) is Some) && (forall|j: int|
                k <= j < i ==> (#[trigger] idx@.slots[j]) is None),
        decreases n - i,
    {
        proof {
            assert(idx@.slots[i as int] == opt_bytes_view(idx.datasets@[i as int]));
        }
        if idx.datasets[i].is_none() {
            proof {
                assert(idx@.slots[i as int] is None);
            }
            if !seen_none {
                seen_none = true;
                proof {
                    k = i as int;
                }
            }
        } else {
            proof {
                assert(idx@.slots[i as int] is Some);
            }
            if seen_none {
                proof {
                    assert(idx@.slots[k] is None);
                }
                return false;
            }
        }
        i += 1;
    }
    proof {
        if seen_none {
            assert forall|a: int, b: int|
                #![trigger idx@.slots[a], idx@.slots[b]]
                0 <= a <= b < idx@.slots.len() && idx@.slots[b] is Some implies idx@.slots[a] is Some by {
                assert(b < k);
            }
        }
    }
    true
}

/// What appending one entry does to a loaded index page: the entry
/// lands in the first free slot; a full page instead chains the fresh
/// continuation account, which must be a real, uninitialized account,
/// and the entry opens the fresh page. Without a continuation a full
/// page cannot take the entry, and the whole instruction fails.
pub open spec fn spec_index_append(
    iv: IndexView,
    entry: Seq<u8>,
    continuation: Option<AccountView>,
) -> Result<(IndexView, Option<IndexView>), DataNexusError> {
    if !slots_full(iv.slots) {
        Ok(
            (
                IndexView {
                    initialized: iv.initialized,
                    pointer: iv.pointer,
                    slots: iv.slots.update(first_free(iv.slots), Some(entry)),
                },
                None,
            ),
        )
    } else {
        match continuation {
            None => Err(DataNexusError::InvalidAccountData),
            Some(c) => {
                if c.key.len() != 32 || c.key == zero32() || is_initialized_data(c.data) {
                    Err(DataNexusError::InvalidAccountData)
                } else {
                    Ok(
                        (
                            IndexView {
                                initialized: iv.initialized,
                                pointer: Some(c.key),
                                slots: iv.slots,
                            },
                            Some(
                                IndexView {
                                    initialized: true,
                                    pointer: None,
                                    slots: fresh_index_view().slots.update(0, Some(entry)),
                                },
                            ),
                        ),
                    )
                }
            },
        }
    }
}

/// Performs [`spec_index_append`] on a decoded index record.
fn index_append_exec(idx: AccountIndex, entry: &Vec<u8>, continuation: Option<&Account>) -> (r:
    Result<(AccountIndex, Option<AccountIndex>), DataNexusError>)
    ensures
        match r {
            Ok(p) => spec_index_append(idx@, entry@, opt_account_view(continuation)) matches Ok(v)
                && p.0@ == v.0 && opt_index_view(p.1) == v.1,
            Err(e) => spec_index_append(idx@, entry@, opt_account_view(continuation)) == Err::<
                (IndexView, Option<IndexView>),
                DataNexusError,
            >(e),
        },
        idx@.wf() && entry@.len() == 32 && entry@ != zero32() ==> match r {
            Ok(p) => p.0@.wf() && match p.1 {
                Some(f) => f@.wf(),
                None => true,
            },
            Err(e) => true,
        },
{
    let ghost iv = idx@;
    let mut work = idx;
    match find_free_slot(&work) {
        Some(j) => {
            proof {
                lemma_first_free_char(iv.slots, j as int);
            }
            set_slot(&mut work, j, entry);
            proof {
                if iv.wf() && entry@.len() == 32 && entry@ != zero32() {
                    assert forall|i: int| 0 <= i < work@.slots.len() implies wf_opt32(
                        #[trigger] work@.slots[i],
                    ) by {
                        if i != j {
                            assert(work@.slots[i] == iv.slots[i]);
                        }
                    }
                }
            }
            Ok((work, None))
        },
        None => {
            match continuation {
                None => Err(DataNexusError::InvalidAccountData),
                Some(c) => {
                    if c.key.len() != 32 {
                        return Err(DataNexusError::InvalidAccountData);
                    }
                    if block_is_zero(&c.key) {
                        return Err(DataNexusError::InvalidAccountData);
                    }
                    if initialized_data_check(&c.data) {
                        return Err(DataNexusError::InvalidAccountData);
                    }
                    set_pointer(&mut work, &c.key);
                    let mut fresh = fresh_index();
                    set_slot(&mut fresh, 0, entry);
                    proof {
                        assert(fresh@.slots =~= fresh_index_view().slots.update(
                            0,
                            Some(entry@),
                        ));
                        if iv.wf() && entry@.len() == 32 && entry@ != zero32() {
                            assert forall|i: int| 0 <= i < fresh@.slots.len() implies wf_opt32(
                                #[trigger] fresh@.slots[i],
                            ) by {}
                        }
                    }
                    Ok((work, Some(fresh)))
                },
            }
        },
    }
}

/// What creating a dataset record returns: the fresh dataset record,
/// the owner's updated index page, and the freshly chained index page
/// when the owner's page was full. The dataset account must sit at the
/// address derived from the content hash alone, so a second record for
/// the same hash is rejected by construction, and the index append and
/// the record creation succeed or fail together.
pub open spec fn spec_init_dataset_account(
    pid: Seq<u8>,
    hash: Seq<u8>,
    authority: AccountView,
    owner_index: AccountView,
    dataset: AccountView,
    continuation: Option<AccountView>,
) -> Result<(StateView, IndexView, Option<IndexView>), DataNexusError> {
    if !authority.is_signer {
        Err(DataNexusError::Unauthorized)
    } else if authority.key.len() != 32 {
        Err(DataNexusError::Unauthorized)
    } else if hash.len() != 32 {
        Err(DataNexusError::InvalidInstruction)
    } else if found_address(dataset_seeds(hash), pid) != Some(dataset.key) {
        Err(DataNexusError::Unauthorized)
    } else if dataset.key.len() != 32 || dataset.key == zero32() {
        Err(DataNexusError::Unauthorized)
    } else if found_address(owner_seeds(authority.key), pid) != Some(owner_index.key) {
        Err(DataNexusError::Unauthorized)
    } else if is_initialized_data(dataset.data) {
        Err(DataNexusError::InvalidAccountData)
    } else {
        match spec_decode_index(owner_index.data) {
            None => Err(DataNexusError::InvalidAccountData),
            Some(iv) => {
                if !iv.initialized {
                    Err(DataNexusError::InvalidAccountData)
                } else if !slots_dense(iv.slots) {
                    Err(DataNexusError::InvalidAccountData)
                } else {
                    match spec_index_append(iv, dataset.key, continuation) {
                        Err(e) => Err(e),
                        Ok(p) => Ok((new_dataset_view(authority.key, hash), p.0, p.1)),
                    }
                }
            },
        }
    }
}

/// What creating an access grant record returns: the zeroed grant for
/// the hash, the holder's updated access index page, and the freshly
/// chained index page when that page was full.
pub open spec fn spec_init_access_account(
    pid: Seq<u8>,
    hash: Seq<u8>,
    payer: AccountView,
    authority: AccountView,
    access_index: AccountView,
    grant_account: AccountView,
    continuation: Option<AccountView>,
) -> Result<(GrantView, IndexView, Option<IndexView>), DataNexusError> {
    if !payer.is_signer {
        Err(DataNexusError::Unauthorized)
    } else if hash.len() != 32 {
        Err(DataNexusError::InvalidInstruction)
    } else {
        match found_address(dataset_seeds(hash), pid) {
            None => Err(DataNexusError::Unauthorized),
            Some(da) => {
                if found_address(associated_access_seeds(authority.key, da), pid) != Some(
                    grant_account.key,
                ) {
                    Err(DataNexusError::Unauthorized)
                } else if grant_account.key.len() != 32 || grant_account.key == zero32() {
                    Err(DataNexusError::Unauthorized)
                } else if found_address(access_seeds(authority.key), pid) != Some(
                    access_index.key,
                ) {
                    Err(DataNexusError::Unauthorized)
                } else if is_initialized_data(grant_account.data) {
                    Err(DataNexusError::InvalidAccountData)
                } else {
                    match spec_decode_index(access_index.data) {
                        None => Err(DataNexusError::InvalidAccountData),
                        Some(iv) => {
                            if !iv.initialized {
                                Err(DataNexusError::InvalidAccountData)
                            } else if !slots_dense(iv.slots) {
                                Err(DataNexusError::InvalidAccountData)
                            } else {
                                match spec_index_append(iv, grant_account.key, continuation) {
                                    Err(e) => Err(e),
                                    Ok(p) => Ok((fresh_grant_view(hash), p.0, p.1)),
                                }
                            }
                        },
                    }
                }
            },
        }
    }
}

/// The byte images an `InitAccount` instruction for a dataset record or
/// an access grant record produces: the new record, the updated index
/// page, and the freshly chained index page if one was needed.
pub struct InitRecordEffects {
    pub record_data: Vec<u8>,
    pub index_data: Vec<u8>,
    pub continuation_data: Option<Vec<u8>>,
}

impl Processor {
    /// Creates a fresh, empty index record of the kind `flag` selects,
    /// for the target identity, funded by the signing payer. Fails when
    /// the payer did not sign, the account does not sit at the derived
    /// index address, or initialized data already lives there.
    pub fn process_init_user_account(
        program_id: &Vec<u8>,
        flag: AccountFlag,
        payer: &Account,
        authority: &Account,
        user_account: &Account,
    ) -> (r: Result<Vec<u8>, DataNexusError>)
        requires
            program_id@.len() == 32,
        ensures
            match r {
                Ok(b) => spec_init_user_account(program_id@, flag, payer@, authority@,
                user_account@) matches Ok(v) && b@ == spec_encode_index(v),
                Err(e) => spec_init_user_account(program_id@, flag, payer@, authority@,
                user_account@) == Err::<IndexView, DataNexusError>(e),
            },
    {
        if !payer.is_signer {
            return Err(DataNexusError::Unauthorized);
        }
        let derived = match flag {
            AccountFlag::Dataset => get_owner_address(program_id, &authority.key),
            AccountFlag::Access => get_access_address(program_id, &authority.key),
        };
        let matches_derived = match &derived {
            Some(a) => bytes_eq(a, &user_account.key),
            None => false,
        };
        if !matches_derived {
            return Err(DataNexusError::Unauthorized);
        }
        if initialized_data_check(&user_account.data) {
            return Err(DataNexusError::InvalidAccountData);
        }
        let idx = fresh_index();
        proof {
            assert(idx@.slots =~= fresh_index_view().slots);
            assert(idx@ == fresh_index_view());
        }
        Ok(idx.pack())
    }

    /// Applies a `SetDataParams` instruction to a dataset record and
    /// returns the record's new byte image. Fails when the authority
    /// did not sign, the dataset account does not sit at the address
    /// derived from the hash, the record does not decode, or the signer
    /// is not the record's owner — and then no image is produced at
    /// all, so the record's bytes stay as they were.
    pub fn process_set_params(
        program_id: &Vec<u8>,
        authority: &Account,
        dataset_account: &Account,
        hash: &Vec<u8>,
        params: &Params,
    ) -> (r: Result<Vec<u8>, DataNexusError>)
        requires
            program_id@.len() == 32,
        ensures
            match r {
                Ok(b) => spec_set_params(program_id@, authority@, dataset_account@, hash@,
                params@) matches Ok(v) && b@ == spec_encode_state(v),
                Err(e) => spec_set_params(program_id@, authority@, dataset_account@, hash@,
                params@) == Err::<StateView, DataNexusError>(e),
            },
    {
        if !authority.is_signer {
            return Err(DataNexusError::Unauthorized);
        }
        let derived = get_dataset_address(program_id, hash);
        let matches_derived = match &derived {
            Some(a) => bytes_eq(a, &dataset_account.key),
            None => false,
        };
        if !matches_derived {
            return Err(DataNexusError::Unauthorized);
        }
        let st = match AccountState::unpack_from_slice(dataset_account.data.as_slice()) {
            Ok(st) => st,
            Err(_) => {
                return Err(DataNexusError::InvalidAccountData);
            },
        };
        if !st.is_initialized {
            return Err(DataNexusError::InvalidAccountData);
        }
        if !bytes_eq(&st.owner, &authority.key) {
            return Err(DataNexusError::Unauthorized);
        }
        if !params_storable_check(params) {
            return Err(DataNexusError::InvalidInstruction);
        }
        let updated = apply_params_exec(&st, params);
        proof {
            assert(updated@ == apply_params(st@, params@));
        }
        Ok(updated.pack())
    }

    /// Validates a `PurchaseAccess` instruction and, when the payment
    /// collaborator reports the transfer succeeded, returns the buyer's
    /// new grant image together with the payment order that was placed.
    /// The grant copies the dataset's current key and share limit. When
    /// the transfer fails, no grant image is produced at all.
    pub fn process_purchase_access(
        program_id: &Vec<u8>,
        hash: &Vec<u8>,
        amount: u64,
        user_authority: &Account,
        user_access_account: &Account,
        user_token_account: &Account,
        owner_token_account: &Account,
        dataset_account: &Account,
        token_program: &Account,
        transfer_ok: bool,
    ) -> (r: Result<(Vec<u8>, PaymentOrder), DataNexusError>)
        requires
            program_id@.len() == 32,
        ensures
            match r {
                Ok(p) => spec_purchase_access(program_id@, hash@, amount, user_authority@,
                user_access_account@, user_token_account@, owner_token_account@, dataset_account@,
                token_program@, transfer_ok) matches Ok(v) && p.0@ == spec_encode_grant(v.0)
                    && p.1@ == v.1,
                Err(e) => spec_purchase_access(program_id@, hash@, amount, user_authority@,
                user_access_account@, user_token_account@, owner_token_account@, dataset_account@,
                token_program@, transfer_ok) == Err::<(GrantView, PaymentOrderView),
                DataNexusError>(e),
            },
    {
        if !user_authority.is_signer {
            return Err(DataNexusError::Unauthorized);
        }
        if token_program.key.len() != 32 {
            return Err(DataNexusError::Unauthorized);
        }
        if !token_program_check(&token_program.key) {
            return Err(DataNexusError::Unauthorized);
        }
        let derived = get_dataset_address(program_id, hash);
        let matches_derived = match &derived {
            Some(a) => bytes_eq(a, &dataset_account.key),
            None => false,
        };
        if !matches_derived {
            return Err(DataNexusError::Unauthorized);
        }
        let grant_addr = get_associated_access_address(
            program_id,
            &user_authority.key,
            &dataset_account.key,
        );
        let grant_matches = match &grant_addr {
            Some(a) => bytes_eq(a, &user_access_account.key),
            None => false,
        };
        if !grant_matches {
            return Err(DataNexusError::Unauthorized);
        }
        let sv = match AccountState::unpack_from_slice(dataset_account.data.as_slice()) {
            Ok(sv) => sv,
            Err(_) => {
                return Err(DataNexusError::InvalidAccountData);
            },
        };
        if !sv.is_initialized {
            return Err(DataNexusError::InvalidAccountData);
        }
        let gv = match AccessGrant::unpack_from_slice(user_access_account.data.as_slice()) {
            Ok(gv) => gv,
            Err(_) => {
                return Err(DataNexusError::InvalidAccountData);
            },
        };
        if !gv.is_initialized {
            return Err(DataNexusError::InvalidAccountData);
        }
        if !bytes_eq(&gv.hash, hash) {
            return Err(DataNexusError::Unauthorized);
        }
        if !transfer_ok {
            return Err(DataNexusError::PaymentFailed);
        }
        let key_copy = match &sv.key {
            Some(k) => copy_bytes(k),
            None => {
                let mut z: Vec<u8> = Vec::new();
                crate::layout::push_zero32(&mut z);
                z
            },
        };
        let seeded_limit: u64 = match sv.share_limit {
            Some(l) => l as u64,
            None => 0,
        };
        let grant = AccessGrant {
            is_initialized: true,
            hash: copy_bytes(hash),
            key: key_copy,
            granted_by: None,
            share_limit: seeded_limit,
        };
        let order = PaymentOrder {
            source: copy_bytes(&user_token_account.key),
            destination: copy_bytes(&owner_token_account.key),
            authority: copy_bytes(&user_authority.key),
            amount,
        };
        proof {
            assert(grant@.key =~= opt_block32(sv@.key));
        }
        Ok((grant.pack(), order))
    }

    /// Validates a `ShareAccess` instruction and returns the two new
    /// grant images: the sharer's, with its re-share budget decremented
    /// by exactly one, and the recipient's, carrying a copy of the key,
    /// naming the sharer, and with no budget of its own. A budget
    /// already at zero fails the guarded decrement with an arithmetic
    /// error and produces no image at all.
    pub fn process_share_access(
        program_id: &Vec<u8>,
        hash: &Vec<u8>,
        user_authority: &Account,
        user_access_account: &Account,
        recipient_authority: &Account,
        recipient_access_account: &Account,
        dataset_account: &Account,
    ) -> (r: Result<(Vec<u8>, Vec<u8>), DataNexusError>)
        requires
            program_id@.len() == 32,
        ensures
            match r {
                Ok(p) => spec_share_access(program_id@, hash@, user_authority@,
                user_access_account@, recipient_authority@, recipient_access_account@,
                dataset_account@) matches Ok(v) && p.0@ == spec_encode_grant(v.0) && p.1@
                    == spec_encode_grant(v.1),
                Err(e) => spec_share_access(program_id@, hash@, user_authority@,
                user_access_account@, recipient_authority@, recipient_access_account@,
                dataset_account@) == Err::<(GrantView, GrantView), DataNexusError>(e),
            },
    {
        if !user_authority.is_signer {
            return Err(DataNexusError::Unauthorized);
        }
        if user_authority.key.len() != 32 {
            return Err(DataNexusError::Unauthorized);
        }
        if block_is_zero(&user_authority.key) {
            return Err(DataNexusError::Unauthorized);
        }
        let derived = get_dataset_address(program_id, hash);
        let matches_derived = match &derived {
            Some(a) => bytes_eq(a, &dataset_account.key),
            None => false,
        };
        if !matches_derived {
            return Err(DataNexusError::Unauthorized);
        }
        let user_grant_addr = get_associated_access_address(
            program_id,
            &user_authority.key,
            &dataset_account.key,
        );
        let user_grant_matches = match &user_grant_addr {
            Some(a) => bytes_eq(a, &user_access_account.key),
            None => false,
        };
        if !user_grant_matches {
            return Err(DataNexusError::Unauthorized);
        }
        let recipient_grant_addr = get_associated_access_address(
            program_id,
            &recipient_authority.key,
            &dataset_account.key,
        );
        let recipient_grant_matches = match &recipient_grant_addr {
            Some(a) => bytes_eq(a, &recipient_access_account.key),
            None => false,
        };
        if !recipient_grant_matches {
            return Err(DataNexusError::Unauthorized);
        }
        let ug = match AccessGrant::unpack_from_slice(user_access_account.data.as_slice()) {
            Ok(g) => g,
            Err(_) => {
                return Err(DataNexusError::InvalidAccountData);
            },
        };
        if !ug.is_initialized {
            return Err(DataNexusError::InvalidAccountData);
        }
        if !bytes_eq(&ug.hash, hash) {
            return Err(DataNexusError::Unauthorized);
        }
        let rg = match AccessGrant::unpack_from_slice(recipient_access_account.data.as_slice()) {
            Ok(g) => g,
            Err(_) => {
                return Err(DataNexusError::InvalidAccountData);
            },
        };
        if !rg.is_initialized {
            return Err(DataNexusError::InvalidAccountData);
        }
        if ug.share_limit == 0 {
            return Err(DataNexusError::ArithmeticError);
        }
        let sharer_grant = AccessGrant {
            is_initialized: ug.is_initialized,
            hash: copy_bytes(&ug.hash),
            key: copy_bytes(&ug.key),
            granted_by: copy_opt_bytes(&ug.granted_by),
            share_limit: ug.share_limit - 1,
        };
        let recipient_grant = AccessGrant {
            is_initialized: true,
            hash: copy_bytes(hash),
            key: copy_bytes(&ug.key),
            granted_by: Some(copy_bytes(&user_authority.key)),
            share_limit: 0,
        };
        Ok((sharer_grant.pack(), recipient_grant.pack()))
    }
}

/// Exec check of [`params_storable`].
fn params_storable_check(params: &Params) -> (r: bool)
    ensures
        r == params_storable(params@),
{
    match params {
        Params::Init(k, v, l, rd) => {
            if k.len() != 32 || block_is_zero(k) || *v == 0 || *l == 0 {
                return false;
            }
            match rd {
                Some(d) => d.len() == 32 && !block_is_zero(d),
                None => true,
            }
        },
        Params::Key(k) => k.len() == 32 && !block_is_zero(k),
        Params::Value(v) => *v != 0,
        Params::ShareLimit(l) => *l != 0,
        Params::ReferenceData(d) => d.len() == 32 && !block_is_zero(d),
    }
}

/// Builds the updated dataset record a parameter write produces.
fn apply_params_exec(st: &AccountState, params: &Params) -> (r: AccountState)
    ensures
        r@ == apply_params(st@, params@),
{
    match params {
        Params::Init(k, v, l, rd) => AccountState {
            is_initialized: st.is_initialized,
            owner: copy_bytes(&st.owner),
            hash: copy_bytes(&st.hash),
            key: Some(copy_bytes(k)),
            value: Some(*v),
            share_limit: Some(*l),
            reference: copy_opt_bytes(rd),
        },
        Params::Key(k) => AccountState {
            is_initialized: st.is_initialized,
            owner: copy_bytes(&st.owner),
            hash: copy_bytes(&st.hash),
            key: Some(copy_bytes(k)),
            value: st.value,
            share_limit: st.share_limit,
            reference: copy_opt_bytes(&st.reference),
        },
        Params::Value(v) => AccountState {
            is_initialized: st.is_initialized,
            owner: copy_bytes(&st.owner),
            hash: copy_bytes(&st.hash),
            key: copy_opt_bytes(&st.key),
            value: Some(*v),
            share_limit: st.share_limit,
            reference: copy_opt_bytes(&st.reference),
        },
        Params::ShareLimit(l) => AccountState {
            is_initialized: st.is_initialized,
            owner: copy_bytes(&st.owner),
            hash: copy_bytes(&st.hash),
            key: copy_opt_bytes(&st.key),
            value: st.value,
            share_limit: Some(*l),
            reference: copy_opt_bytes(&st.reference),
        },
        Params::ReferenceData(d) => AccountState {
            is_initialized: st.is_initialized,
            owner: copy_bytes(&st.owner),
            hash: copy_bytes(&st.hash),
            key: copy_opt_bytes(&st.key),
            value: st.value,
            share_limit: st.share_limit,
            reference: Some(copy_bytes(d)),
        },
    }
}

/// One record write the processor orders: the new bytes for the
/// account at `index` of the instruction's account list.
pub struct AccountWrite {
    pub index: usize,
    pub data: Vec<u8>,
}

/// The view of an `AccountWrite`.
pub struct WriteView {
    pub index: int,
    pub data: Seq<u8>,
}

impl View for AccountWrite {
    type V = WriteView;

    open spec fn view(&self) -> WriteView {
        WriteView { index: self.index as int, data: self.data@ }
    }
}

/// The views of a write list.
pub open spec fn writes_view(ws: Seq<AccountWrite>) -> Seq<WriteView> {
    ws.map_values(|w: AccountWrite| w@)
}

/// The views of an account list.
pub open spec fn accounts_view(accts: Seq<Account>) -> Seq<AccountView> {
    accts.map_values(|a: Account| a@)
}

/// What processing one instruction does, over the whole instruction
/// set: the ordered record writes and, for a purchase, the payment
/// order — or the exact error, and then no write at all.
///
/// Account order per instruction:
/// - `InitAccount(DatasetIndex | AccessIndex)`: payer, authority, new index account.
/// - `InitAccount(Dataset(hash))`: authority, owner index, new dataset account, then
///   optionally the fresh continuation index account.
/// - `InitAccount(Access(hash))`: payer, authority, access index, new grant account,
///   then optionally the fresh continuation index account.
/// - `SetDataParams`: authority, dataset account.
/// - `PurchaseAccess`: user authority, user grant account, user token account,
///   owner token account, dataset account, token program.
/// - `ShareAccess`: user authority, user grant account, recipient authority,
///   recipient grant account, dataset account.
pub open spec fn spec_process_instruction(
    pid: Seq<u8>,
    accts: Seq<AccountView>,
    data: Seq<u8>,
    transfer_ok: bool,
) -> Result<(Seq<WriteView>, Option<PaymentOrderView>), DataNexusError> {
    match crate::instruction::spec_unpack(data) {
        None => Err(DataNexusError::InvalidInstruction),
        Some(iv) => match iv {
            crate::instruction::InstructionView::InitAccount(t) => match t {
                crate::instruction::AccountTypeView::DatasetIndex => {
                    if accts.len() < 3 {
                        Err(DataNexusError::InvalidAccountData)
                    } else {
                        match spec_init_user_account(pid, AccountFlag::Dataset, accts[0],
                        accts[1], accts[2]) {
                            Err(e) => Err(e),
                            Ok(v) => Ok(
                                (seq![WriteView { index: 2, data: spec_encode_index(v) }], None),
                            ),
                        }
                    }
                },
                crate::instruction::AccountTypeView::AccessIndex => {
                    if accts.len() < 3 {
                        Err(DataNexusError::InvalidAccountData)
                    } else {
                        match spec_init_user_account(pid, AccountFlag::Access, accts[0], accts[1],
                        accts[2]) {
                            Err(e) => Err(e),
                            Ok(v) => Ok(
                                (seq![WriteView { index: 2, data: spec_encode_index(v) }], None),
                            ),
                        }
                    }
                },
                crate::instruction::AccountTypeView::Dataset(h) => {
                    if accts.len() < 3 {
                        Err(DataNexusError::InvalidAccountData)
                    } else {
                        let cont = if accts.len() >= 4 {
                            Some(accts[3])
                        } else {
                            None
                        };
                        match spec_init_dataset_account(pid, h, accts[0], accts[1], accts[2],
                        cont) {
                            Err(e) => Err(e),
                            Ok(v) => Ok(
                                (
                                    seq![
                                        WriteView { index: 2, data: spec_encode_state(v.0) },
                                        WriteView { index: 1, data: spec_encode_index(v.1) },
                                    ] + match v.2 {
                                        Some(f) => seq![
                                            WriteView { index: 3, data: spec_encode_index(f) },
                                        ],
                                        None => Seq::empty(),
                                    },
                                    None,
                                ),
                            ),
                        }
                    }
                },
                crate::instruction::AccountTypeView::Access(h) => {
                    if accts.len() < 4 {
                        Err(DataNexusError::InvalidAccountData)
                    } else {
                        let cont = if accts.len() >= 5 {
                            Some(accts[4])
                        } else {
                            None
                        };
                        match spec_init_access_account(pid, h, accts[0], accts[1], accts[2],
                        accts[3], cont) {
                            Err(e) => Err(e),
                            Ok(v) => Ok(
                                (
                                    seq![
                                        WriteView { index: 3, data: spec_encode_grant(v.0) },
                                        WriteView { index: 2, data: spec_encode_index(v.1) },
                                    ] + match v.2 {
                                        Some(f) => seq![
                                            WriteView { index: 4, data: spec_encode_index(f) },
                                        ],
                                        None => Seq::empty(),
                                    },
                                    None,
                                ),
                            ),
                        }
                    }
                },
            },
            crate::instruction::InstructionView::SetDataParams { hash, params } => {
                if accts.len() < 2 {
                    Err(DataNexusError::InvalidAccountData)
                } else {
                    match spec_set_params(pid, accts[0], accts[1], hash, params) {
                        Err(e) => Err(e),
                        Ok(v) => Ok(
                            (seq![WriteView { index: 1, data: spec_encode_state(v) }], None),
                        ),
                    }
                }
            },
            crate::instruction::InstructionView::PurchaseAccess { hash, amount } => {
                if accts.len() < 6 {
                    Err(DataNexusError::InvalidAccountData)
                } else {
                    match spec_purchase_access(pid, hash, amount, accts[0], accts[1], accts[2],
                    accts[3], accts[4], accts[5], transfer_ok) {
                        Err(e) => Err(e),
                        Ok(v) => Ok(
                            (
                                seq![WriteView { index: 1, data: spec_encode_grant(v.0) }],
                                Some(v.1),
                            ),
                        ),
                    }
                }
            },
            crate::instruction::InstructionView::ShareAccess { hash } => {
                if accts.len() < 5 {
                    Err(DataNexusError::InvalidAccountData)
                } else {
                    match spec_share_access(pid, hash, accts[0], accts[1], accts[2], accts[3],
                    accts[4]) {
                        Err(e) => Err(e),
                        Ok(v) => Ok(
                            (
                                seq![
                                    WriteView { index: 1, data: spec_encode_grant(v.0) },
                                    WriteView { index: 3, data: spec_encode_grant(v.1) },
                                ],
                                None,
                            ),
                        ),
                    }
                }
            },
        },
    }
}


impl Processor {
    /// Creates a dataset record for `hash`, owned by the signing
    /// authority, and appends its address to the owner's dataset index
    /// — chaining the supplied fresh index account when the page is
    /// full. Record creation and index append succeed or fail
    /// together: on any error no image is produced at all.
    pub fn process_init_dataset_account(
        program_id: &Vec<u8>,
        hash: &Vec<u8>,
        authority: &Account,
        owner_index: &Account,
        dataset_account: &Account,
        continuation: Option<&Account>,
    ) -> (r: Result<InitRecordEffects, DataNexusError>)
        requires
            program_id@.len() == 32,
        ensures
            match r {
                Ok(eff) => spec_init_dataset_account(program_id@, hash@, authority@, owner_index@,
                dataset_account@, opt_account_view(continuation)) matches Ok(v)
                    && eff.record_data@ == spec_encode_state(v.0) && eff.index_data@
                    == spec_encode_index(v.1) && (match eff.continuation_data {
                    Some(b) => v.2 is Some && b@ == spec_encode_index(v.2->Some_0),
                    None => v.2 is None,
                }),
                Err(e) => spec_init_dataset_account(program_id@, hash@, authority@, owner_index@,
                dataset_account@, opt_account_view(continuation)) == Err::<
                    (StateView, IndexView, Option<IndexView>),
                    DataNexusError,
                >(e),
            },
    {
        if !authority.is_signer {
            return Err(DataNexusError::Unauthorized);
        }
        if authority.key.len() != 32 {
            return Err(DataNexusError::Unauthorized);
        }
        if hash.len() != 32 {
            return Err(DataNexusError::InvalidInstruction);
        }
        let derived = get_dataset_address(program_id, hash);
        let matches_derived = match &derived {
            Some(a) => bytes_eq(a, &dataset_account.key),
            None => false,
        };
        if !matches_derived {
            return Err(DataNexusError::Unauthorized);
        }
        if dataset_account.key.len() != 32 || block_is_zero(&dataset_account.key) {
            return Err(DataNexusError::Unauthorized);
        }
        let iderived = get_owner_address(program_id, &authority.key);
        let imatches = match &iderived {
            Some(a) => bytes_eq(a, &owner_index.key),
            None => false,
        };
        if !imatches {
            return Err(DataNexusError::Unauthorized);
        }
        if initialized_data_check(&dataset_account.data) {
            return Err(DataNexusError::InvalidAccountData);
        }
        let idx = match AccountIndex::unpack_from_slice(owner_index.data.as_slice()) {
            Ok(x) => x,
            Err(_) => {
                return Err(DataNexusError::InvalidAccountData);
            },
        };
        if !idx.is_initialized {
            return Err(DataNexusError::InvalidAccountData);
        }
        if !dense_check(&idx) {
            return Err(DataNexusError::InvalidAccountData);
        }
        proof {
            lemma_decode_index_wf(owner_index.data@);
        }
        match index_append_exec(idx, &dataset_account.key, continuation) {
            Err(e) => Err(e),
            Ok(p) => {
                let (idx2, cont2) = p;
                let record = AccountState {
                    is_initialized: true,
                    owner: copy_bytes(&authority.key),
                    hash: copy_bytes(hash),
                    key: None,
                    value: None,
                    share_limit: None,
                    reference: None,
                };
                proof {
                    assert(record@ == new_dataset_view(authority@.key, hash@));
                }
                let record_data = record.pack();
                let index_data = idx2.pack();
                let continuation_data = match cont2 {
                    Some(f) => Some(f.pack()),
                    None => None,
                };
                Ok(InitRecordEffects { record_data, index_data, continuation_data })
            },
        }
    }

    /// Creates a zeroed access grant record for `hash`, held by the
    /// target identity and funded by the signing payer, and appends its
    /// address to that identity's access index — chaining the supplied
    /// fresh index account when the page is full.
    pub fn process_init_access_account(
        program_id: &Vec<u8>,
        hash: &Vec<u8>,
        payer: &Account,
        authority: &Account,
        access_index: &Account,
        grant_account: &Account,
        continuation: Option<&Account>,
    ) -> (r: Result<InitRecordEffects, DataNexusError>)
        requires
            program_id@.len() == 32,
        ensures
            match r {
                Ok(eff) => spec_init_access_account(program_id@, hash@, payer@, authority@,
                access_index@, grant_account@, opt_account_view(continuation)) matches Ok(v)
                    && eff.record_data@ == spec_encode_grant(v.0) && eff.index_data@
                    == spec_encode_index(v.1) && (match eff.continuation_data {
                    Some(b) => v.2 is Some && b@ == spec_encode_index(v.2->Some_0),
                    None => v.2 is None,
                }),
                Err(e) => spec_init_access_account(program_id@, hash@, payer@, authority@,
                access_index@, grant_account@, opt_account_view(continuation)) == Err::<
                    (GrantView, IndexView, Option<IndexView>),
                    DataNexusError,
                >(e),
            },
    {
        if !payer.is_signer {
            return Err(DataNexusError::Unauthorized);
        }
        if hash.len() != 32 {
            return Err(DataNexusError::InvalidInstruction);
        }
        let da = match get_dataset_address(program_id, hash) {
            Some(da) => da,
            None => {
                return Err(DataNexusError::Unauthorized);
            },
        };
        let gderived = get_associated_access_address(program_id, &authority.key, &da);
        let gmatches = match &gderived {
            Some(a) => bytes_eq(a, &grant_account.key),
            None => false,
        };
        if !gmatches {
            return Err(DataNexusError::Unauthorized);
        }
        if grant_account.key.len() != 32 || block_is_zero(&grant_account.key) {
            return Err(DataNexusError::Unauthorized);
        }
        let iderived = get_access_address(program_id, &authority.key);
        let imatches = match &iderived {
            Some(a) => bytes_eq(a, &access_index.key),
            None => false,
        };
        if !imatches {
            return Err(DataNexusError::Unauthorized);
        }
        if initialized_data_check(&grant_account.data) {
            return Err(DataNexusError::InvalidAccountData);
        }
        let idx = match AccountIndex::unpack_from_slice(access_index.data.as_slice()) {
            Ok(x) => x,
            Err(_) => {
                return Err(DataNexusError::InvalidAccountData);
            },
        };
        if !idx.is_initialized {
            return Err(DataNexusError::InvalidAccountData);
        }
        if !dense_check(&idx) {
            return Err(DataNexusError::InvalidAccountData);
        }
        proof {
            lemma_decode_index_wf(access_index.data@);
        }
        match index_append_exec(idx, &grant_account.key, continuation) {
            Err(e) => Err(e),
            Ok(p) => {
                let (idx2, cont2) = p;
                let mut zero_key: Vec<u8> = Vec::new();
                push_zero32(&mut zero_key);
                let record = AccessGrant {
                    is_initialized: true,
                    hash: copy_bytes(hash),
                    key: zero_key,
                    granted_by: None,
                    share_limit: 0,
                };
                proof {
                    assert(record@.key =~= zero32());
                    assert(record@ == fresh_grant_view(hash@));
                }
                let record_data = record.pack();
                let index_data = idx2.pack();
                let continuation_data = match cont2 {
                    Some(f) => Some(f.pack()),
                    None => None,
                };
                Ok(InitRecordEffects { record_data, index_data, continuation_data })
            },
        }
    }

    /// Decodes one instruction and runs it against the ordered account
    /// list, returning the record writes to apply atomically and, for a
    /// purchase, the payment order placed with the collaborator whose
    /// reported outcome is `transfer_ok`. Any failure returns the exact
    /// error and no write at all.
    #[verifier::rlimit(100)]
    pub fn process_instruction(
        program_id: &Vec<u8>,
        accounts: &Vec<Account>,
        data: &[u8],
        transfer_ok: bool,
    ) -> (r: Result<(Vec<AccountWrite>, Option<PaymentOrder>), DataNexusError>)
        requires
            program_id@.len() == 32,
        ensures
            match r {
                Ok(out) => spec_process_instruction(program_id@, accounts_view(accounts@), data@,
                transfer_ok) matches Ok(v) && writes_view(out.0@) == v.0 && (match out.1 {
                    Some(o) => v.1 == Some(o@),
                    None => v.1 is None,
                }),
                Err(e) => spec_process_instruction(program_id@, accounts_view(accounts@), data@,
                transfer_ok) == Err::<(Seq<WriteView>, Option<PaymentOrderView>), DataNexusError>(
                    e,
                ),
            },
    {
        let instruction = match crate::instruction::DataNexusInstruction::unpack(data) {
            Ok(i) => i,
            Err(_) => {
                return Err(DataNexusError::InvalidInstruction);
            },
        };
        match &instruction {
            crate::instruction::DataNexusInstruction::InitAccount(t) => {
                match t {
                    crate::instruction::AccountType::DatasetIndex => {
                        if accounts.len() < 3 {
                            return Err(DataNexusError::InvalidAccountData);
                        }
                        match Self::process_init_user_account(program_id, AccountFlag::Dataset,
                        &accounts[0], &accounts[1], &accounts[2]) {
                            Err(e) => Err(e),
                            Ok(b) => {
                                let mut writes: Vec<AccountWrite> = Vec::new();
                                writes.push(AccountWrite { index: 2, data: b });
                                proof {
                                    assert(writes_view(writes@) =~= seq![writes@[0]@]);
                                }
                                Ok((writes, None))
                            },
                        }
                    },
                    crate::instruction::AccountType::AccessIndex => {
                        if accounts.len() < 3 {
                            return Err(DataNexusError::InvalidAccountData);
                        }
                        match Self::process_init_user_account(program_id, AccountFlag::Access,
                        &accounts[0], &accounts[1], &accounts[2]) {
                            Err(e) => Err(e),
                            Ok(b) => {
                                let mut writes: Vec<AccountWrite> = Vec::new();
                                writes.push(AccountWrite { index: 2, data: b });
                                proof {
                                    assert(writes_view(writes@) =~= seq![writes@[0]@]);
                                }
                                Ok((writes, None))
                            },
                        }
                    },
                    crate::instruction::AccountType::Dataset(h) => {
                        if accounts.len() < 3 {
                            return Err(DataNexusError::InvalidAccountData);
                        }
                        let cont: Option<&Account> = if accounts.len() >= 4 {
                            Some(&accounts[3])
                        } else {
                            None
                        };
                        match Self::process_init_dataset_account(program_id, h, &accounts[0],
                        &accounts[1], &accounts[2], cont) {
                            Err(e) => Err(e),
                            Ok(eff) => {
                                let mut writes: Vec<AccountWrite> = Vec::new();
                                writes.push(AccountWrite { index: 2, data: eff.record_data });
                                writes.push(AccountWrite { index: 1, data: eff.index_data });
                                match eff.continuation_data {
                                    Some(b) => {
                                        writes.push(AccountWrite { index: 3, data: b });
                                        proof {
                                            assert(writes_view(writes@) =~= seq![writes@[0]@,
                                            writes@[1]@, writes@[2]@]);
                                        }
                                    },
                                    None => {
                                        proof {
                                            assert(writes_view(writes@) =~= seq![writes@[0]@,
                                            writes@[1]@]);
                                        }
                                    },
                                }
                                Ok((writes, None))
                            },
                        }
                    },
                    crate::instruction::AccountType::Access(h) => {
                        if accounts.len() < 4 {
                            return Err(DataNexusError::InvalidAccountData);
                        }
                        let cont: Option<&Account> = if accounts.len() >= 5 {
                            Some(&accounts[4])
                        } else {
                            None
                        };
                        match Self::process_init_access_account(program_id, h, &accounts[0],
                        &accounts[1], &accounts[2], &accounts[3], cont) {
                            Err(e) => Err(e),
                            Ok(eff) => {
                                let mut writes: Vec<AccountWrite> = Vec::new();
                                writes.push(AccountWrite { index: 3, data: eff.record_data });
                                writes.push(AccountWrite { index: 2, data: eff.index_data });
                                match eff.continuation_data {
                                    Some(b) => {
                                        writes.push(AccountWrite { index: 4, data: b });
                                        proof {
                                            assert(writes_view(writes@) =~= seq![writes@[0]@,
                                            writes@[1]@, writes@[2]@]);
                                        }
                                    },
                                    None => {
                                        proof {
                                            assert(writes_view(writes@) =~= seq![writes@[0]@,
                                            writes@[1]@]);
                                        }
                                    },
                                }
                                Ok((writes, None))
                            },
                        }
                    },
                }
            },
            crate::instruction::DataNexusInstruction::SetDataParams { hash, params } => {
                if accounts.len() < 2 {
                    return Err(DataNexusError::InvalidAccountData);
                }
                match Self::process_set_params(program_id, &accounts[0], &accounts[1], hash,
                params) {
                    Err(e) => Err(e),
                    Ok(b) => {
                        let mut writes: Vec<AccountWrite> = Vec::new();
                        writes.push(AccountWrite { index: 1, data: b });
                        proof {
                            assert(writes_view(writes@) =~= seq![writes@[0]@]);
                        }
                        Ok((writes, None))
                    },
                }
            },
            crate::instruction::DataNexusInstruction::PurchaseAccess { hash, amount } => {
                if accounts.len() < 6 {
                    return Err(DataNexusError::InvalidAccountData);
                }
                match Self::process_purchase_access(program_id, hash, *amount, &accounts[0],
                &accounts[1], &accounts[2], &accounts[3], &accounts[4], &accounts[5],
                transfer_ok) {
                    Err(e) => Err(e),
                    Ok(p) => {
                        let (b, order) = p;
                        let mut writes: Vec<AccountWrite> = Vec::new();
                        writes.push(AccountWrite { index: 1, data: b });
                        proof {
                            assert(writes_view(writes@) =~= seq![writes@[0]@]);
                        }
                        Ok((writes, Some(order)))
                    },
                }
            },
            crate::instruction::DataNexusInstruction::ShareAccess { hash } => {
                if accounts.len() < 5 {
                    return Err(DataNexusError::InvalidAccountData);
                }
                match Self::process_share_access(program_id, hash, &accounts[0], &accounts[1],
                &accounts[2], &accounts[3], &accounts[4]) {
                    Err(e) => Err(e),
                    Ok(p) => {
                        let (b0, b1) = p;
                        let mut writes: Vec<AccountWrite> = Vec::new();
                        writes.push(AccountWrite { index: 1, data: b0 });
                        writes.push(AccountWrite { index: 3, data: b1 });
                        proof {
                            assert(writes_view(writes@) =~= seq![writes@[0]@, writes@[1]@]);
                        }
                        Ok((writes, None))
                    },
                }
            },
        }
    }
}

} // verus!
