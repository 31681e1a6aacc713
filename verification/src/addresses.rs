//! Deterministic, seed-based derivation of record locations.
//!
//! A record's location is computed from seeds — a role marker and an
//! identity, a content hash alone, or an identity and a dataset address —
//! together with the hosting program's own identity. Two modes exist: a
//! *validating* derivation (`create_*`) that succeeds only on a location
//! outside the space of ordinary key pairs, used when creating a record,
//! and a *lookup* derivation (`get_*`) that recomputes the expected
//! location for verification. Both are pure functions of their seeds, so
//! the processor can independently recompute an expected address and
//! reject an instruction whose caller-supplied account does not match.
//!
//! The derivations themselves are performed by the host chain's
//! program-derived-address scheme.

use vstd::prelude::*;

verus! {

use crate::layout::copy_bytes;

/// What the host chain's validating derivation returns for the given
/// seeds and program identity: a 32-byte location, or nothing when the
/// candidate falls inside the space of ordinary key pairs or a seed is
/// oversized. A pure function of its arguments.
pub uninterp spec fn created_address(seeds: Seq<Seq<u8>>, program_id: Seq<u8>) -> Option<Seq<u8>>;

/// What the host chain's lookup derivation returns for the given seeds
/// and program identity: the first valid location over the bump search,
/// or nothing in the statistically improbable event that none exists.
/// A pure function of its arguments.
pub uninterp spec fn found_address(seeds: Seq<Seq<u8>>, program_id: Seq<u8>) -> Option<Seq<u8>>;

/// Relies on `Pubkey::create_program_address`: a deterministic SHA-256
/// hash of the seeds and the program identity, rejected when the result
/// lies on the ed25519 curve or a seed is oversized.
#[verifier::external_body]
fn pda_create(seeds: &Vec<Vec<u8>>, program_id: &Vec<u8>) -> (r: Option<Vec<u8>>)
    requires
        program_id@.len() == 32,
    ensures
        match r {
            Some(a) => created_address(seeds.deep_view(), program_id@) == Some(a@) && a@.len()
                == 32,
            None => created_address(seeds.deep_view(), program_id@) is None,
        },
{
    let mut pid = [0u8; 32];
    pid.copy_from_slice(program_id.as_slice());
    let pid = solana_program::pubkey::Pubkey::new_from_array(pid);
    let seed_refs: Vec<&[u8]> = seeds.iter().map(|s| s.as_slice()).collect();
    match solana_program::pubkey::Pubkey::create_program_address(&seed_refs, &pid) {
        Ok(a) => Some(a.to_bytes().to_vec()),
        Err(_) => None,
    }
}

/// Relies on `Pubkey::try_find_program_address`: the deterministic bump
/// search over `create_program_address`, returning the first valid
/// location, or nothing when no bump yields one.
#[verifier::external_body]
fn pda_find(seeds: &Vec<Vec<u8>>, program_id: &Vec<u8>) -> (r: Option<Vec<u8>>)
    requires
        program_id@.len() == 32,
    ensures
        match r {
            Some(a) => found_address(seeds.deep_view(), program_id@) == Some(a@) && a@.len() == 32,
            None => found_address(seeds.deep_view(), program_id@) is None,
        },
{
    let mut pid = [0u8; 32];
    pid.copy_from_slice(program_id.as_slice());
    let pid = solana_program::pubkey::Pubkey::new_from_array(pid);
    let seed_refs: Vec<&[u8]> = seeds.iter().map(|s| s.as_slice()).collect();
    match solana_program::pubkey::Pubkey::try_find_program_address(&seed_refs, &pid) {
        Some((a, _)) => Some(a.to_bytes().to_vec()),
        None => None,
    }
}

/// The role marker of a per-identity dataset (owner) index.
pub open spec fn owner_marker() -> Seq<u8> {
    seq![0x6fu8, 0x77u8, 0x6eu8, 0x65u8, 0x72u8]
}

/// The role marker of a per-identity access index.
pub open spec fn access_marker() -> Seq<u8> {
    seq![0x61u8, 0x63u8, 0x63u8, 0x65u8, 0x73u8, 0x73u8]
}

/// The seeds of a per-identity dataset (owner) index location.
pub open spec fn owner_seeds(authority: Seq<u8>) -> Seq<Seq<u8>> {
    seq![owner_marker(), authority]
}

/// The seeds of a per-identity access index location.
pub open spec fn access_seeds(authority: Seq<u8>) -> Seq<Seq<u8>> {
    seq![access_marker(), authority]
}

/// The seeds of a dataset record location: its content hash alone.
pub open spec fn dataset_seeds(hash: Seq<u8>) -> Seq<Seq<u8>> {
    seq![hash]
}

/// The seeds of an access grant location: the holder and the dataset.
pub open spec fn associated_access_seeds(authority: Seq<u8>, dataset_address: Seq<u8>) -> Seq<
    Seq<u8>,
> {
    seq![authority, dataset_address]
}

/// The bytes of the dataset-index role marker, `owner`.
fn owner_marker_bytes() -> (r: Vec<u8>)
    ensures
        r@ == owner_marker(),
{
    let mut v: Vec<u8> = Vec::new();
    v.push(0x6f);
    v.push(0x77);
    v.push(0x6e);
    v.push(0x65);
    v.push(0x72);
    proof {
        assert(v@ =~= owner_marker());
    }
    v
}

/// The bytes of the access-index role marker, `access`.
fn access_marker_bytes() -> (r: Vec<u8>)
    ensures
        r@ == access_marker(),
{
    let mut v: Vec<u8> = Vec::new();
    v.push(0x61);
    v.push(0x63);
    v.push(0x63);
    v.push(0x65);
    v.push(0x73);
    v.push(0x73);
    proof {
        assert(v@ =~= access_marker());
    }
    v
}

/// Validating derivation of an identity's dataset index location.
pub fn create_owner_address(program_id: &Vec<u8>, authority: &Vec<u8>) -> (r: Option<Vec<u8>>)
    requires
        program_id@.len() == 32,
    ensures
        match r {
            Some(a) => created_address(owner_seeds(authority@), program_id@) == Some(a@)
                && a@.len() == 32,
            None => created_address(owner_seeds(authority@), program_id@) is None,
        },
{
    let mut seeds: Vec<Vec<u8>> = Vec::new();
    seeds.push(owner_marker_bytes());
    seeds.push(copy_bytes(authority));
    proof {
        assert(seeds.deep_view() =~~= owner_seeds(authority@));
    }
    pda_create(&seeds, program_id)
}

/// Lookup derivation of an identity's dataset index location.
pub fn get_owner_address(program_id: &Vec<u8>, authority: &Vec<u8>) -> (r: Option<Vec<u8>>)
    requires
        program_id@.len() == 32,
    ensures
        match r {
            Some(a) => found_address(owner_seeds(authority@), program_id@) == Some(a@) && a@.len()
                == 32,
            None => found_address(owner_seeds(authority@), program_id@) is None,
        },
{
    let mut seeds: Vec<Vec<u8>> = Vec::new();
    seeds.push(owner_marker_bytes());
    seeds.push(copy_bytes(authority));
    proof {
        assert(seeds.deep_view() =~~= owner_seeds(authority@));
    }
    pda_find(&seeds, program_id)
}

/// Validating derivation of an identity's access index location.
pub fn create_access_address(program_id: &Vec<u8>, authority: &Vec<u8>) -> (r: Option<Vec<u8>>)
    requires
        program_id@.len() == 32,
    ensures
        match r {
            Some(a) => created_address(access_seeds(authority@), program_id@) == Some(a@)
                && a@.len() == 32,
            None => created_address(access_seeds(authority@), program_id@) is None,
        },
{
    let mut seeds: Vec<Vec<u8>> = Vec::new();
    seeds.push(access_marker_bytes());
    seeds.push(copy_bytes(authority));
    proof {
        assert(seeds.deep_view() =~~= access_seeds(authority@));
    }
    pda_create(&seeds, program_id)
}

/// Lookup derivation of an identity's access index location.
pub fn get_access_address(program_id: &Vec<u8>, authority: &Vec<u8>) -> (r: Option<Vec<u8>>)
    requires
        program_id@.len() == 32,
    ensures
        match r {
            Some(a) => found_address(access_seeds(authority@), program_id@) == Some(a@) && a@.len()
                == 32,
            None => found_address(access_seeds(authority@), program_id@) is None,
        },
{
    let mut seeds: Vec<Vec<u8>> = Vec::new();
    seeds.push(access_marker_bytes());
    seeds.push(copy_bytes(authority));
    proof {
        assert(seeds.deep_view() =~~= access_seeds(authority@));
    }
    pda_find(&seeds, program_id)
}

/// Validating derivation of a dataset record location from its hash.
pub fn create_dataset_address(program_id: &Vec<u8>, hash: &Vec<u8>) -> (r: Option<Vec<u8>>)
    requires
        program_id@.len() == 32,
    ensures
        match r {
            Some(a) => created_address(dataset_seeds(hash@), program_id@) == Some(a@) && a@.len()
                == 32,
            None => created_address(dataset_seeds(hash@), program_id@) is None,
        },
{
    let mut seeds: Vec<Vec<u8>> = Vec::new();
    seeds.push(copy_bytes(hash));
    proof {
        assert(seeds.deep_view() =~~= dataset_seeds(hash@));
    }
    pda_create(&seeds, program_id)
}

/// Lookup derivation of a dataset record location from its hash.
pub fn get_dataset_address(program_id: &Vec<u8>, hash: &Vec<u8>) -> (r: Option<Vec<u8>>)
    requires
        program_id@.len() == 32,
    ensures
        match r {
            Some(a) => found_address(dataset_seeds(hash@), program_id@) == Some(a@) && a@.len()
                == 32,
            None => found_address(dataset_seeds(hash@), program_id@) is None,
        },
{
    let mut seeds: Vec<Vec<u8>> = Vec::new();
    seeds.push(copy_bytes(hash));
    proof {
        assert(seeds.deep_view() =~~= dataset_seeds(hash@));
    }
    pda_find(&seeds, program_id)
}

/// Validating derivation of an access grant location from its holder and
/// the dataset's address.
pub fn create_associated_access_address(
    program_id: &Vec<u8>,
    authority: &Vec<u8>,
    dataset_address: &Vec<u8>,
) -> (r: Option<Vec<u8>>)
    requires
        program_id@.len() == 32,
    ensures
        match r {
            Some(a) => created_address(
                associated_access_seeds(authority@, dataset_address@),
                program_id@,
            ) == Some(a@) && a@.len() == 32,
            None => created_address(
                associated_access_seeds(authority@, dataset_address@),
                program_id@,
            ) is None,
        },
{
    let mut seeds: Vec<Vec<u8>> = Vec::new();
    seeds.push(copy_bytes(authority));
    seeds.push(copy_bytes(dataset_address));
    proof {
        assert(seeds.deep_view() =~~= associated_access_seeds(authority@, dataset_address@));
    }
    pda_create(&seeds, program_id)
}

/// Lookup derivation of an access grant location from its holder and the
/// dataset's address.
pub fn get_associated_access_address(
    program_id: &Vec<u8>,
    authority: &Vec<u8>,
    dataset_address: &Vec<u8>,
) -> (r: Option<Vec<u8>>)
    requires
        program_id@.len() == 32,
    ensures
        match r {
            Some(a) => found_address(
                associated_access_seeds(authority@, dataset_address@),
                program_id@,
            ) == Some(a@) && a@.len() == 32,
            None => found_address(
                associated_access_seeds(authority@, dataset_address@),
                program_id@,
            ) is None,
        },
{
    let mut seeds: Vec<Vec<u8>> = Vec::new();
    seeds.push(copy_bytes(authority));
    seeds.push(copy_bytes(dataset_address));
    proof {
        assert(seeds.deep_view() =~~= associated_access_seeds(authority@, dataset_address@));
    }
    pda_find(&seeds, program_id)
}

} // verus!
