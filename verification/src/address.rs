use vstd::prelude::*;

use crate::errors::TodoError;
use crate::states::Identity;

verus! {

/// Namespace discriminator: it keeps profile addresses and task addresses
/// apart. Its single byte is the first derivation seed.
#[derive(Clone, Copy, Debug, PartialEq, Eq, Structural)]
pub enum RecordTag {
    Profile,
    Task,
}

/// The seed byte a namespace tag contributes to derivation.
pub open spec fn tag_byte(tag: RecordTag) -> u8 {
    match tag {
        RecordTag::Profile => 1,
        RecordTag::Task => 2,
    }
}

/// The eight little-endian bytes of one identity word.
pub open spec fn le_word_bytes(w: u64) -> Seq<u8> {
    seq![
        (w % 256) as u8,
        ((w / 256) % 256) as u8,
        ((w / 65536) % 256) as u8,
        ((w / 16777216) % 256) as u8,
        ((w / 4294967296) % 256) as u8,
        ((w / 1099511627776) % 256) as u8,
        ((w / 281474976710656) % 256) as u8,
        ((w / 72057594037927936) % 256) as u8,
    ]
}

/// The 32 bytes an identity contributes to derivation: its four words, each
/// little-endian.
pub open spec fn identity_seed(owner: Identity) -> Seq<u8> {
    le_word_bytes(owner.w0) + le_word_bytes(owner.w1) + le_word_bytes(owner.w2) + le_word_bytes(
        owner.w3,
    )
}

/// The seed sequence that addresses an owner's profile record.
pub open spec fn profile_seeds(owner: Identity) -> Seq<Seq<u8>> {
    seq![seq![tag_byte(RecordTag::Profile)], identity_seed(owner)]
}

/// The seed sequence that addresses an owner's task record at `index`.
pub open spec fn task_seeds(owner: Identity, index: u8) -> Seq<Seq<u8>> {
    seq![seq![tag_byte(RecordTag::Task)], identity_seed(owner), seq![index]]
}

/// What the storage backend's raw derivation yields for one full seed
/// sequence under one program id: either the 32 derived address bytes, or
/// nothing when these seeds produce no backend-valid address.
pub uninterp spec fn pda_candidate(seeds: Seq<Seq<u8>>, program_id: Seq<u8>) -> Option<Seq<u8>>;

/// The view of a raw derivation outcome.
pub open spec fn candidate_view(r: Option<Vec<u8>>) -> Option<Seq<u8>> {
    match r {
        Some(bytes) => Some(bytes@),
        None => None,
    }
}

/// Relies on solana_pubkey::Pubkey::create_program_address: for one seed
/// sequence and one program id it deterministically returns either the
/// 32-byte derived address or an error (the hash landing on the ed25519
/// curve, or a seed over the backend's length limits), so its outcome is a
/// function of the arguments alone.
#[verifier::external_body]
fn create_candidate(seeds: &Vec<Vec<u8>>, program_id: &[u8; 32]) -> (r: Option<Vec<u8>>)
    ensures
        candidate_view(r) == pda_candidate(seeds.deep_view(), program_id@),
        r matches Some(bytes) ==> bytes@.len() == 32,
{
    let seed_slices: Vec<&[u8]> = seeds.iter().map(|s| s.as_slice()).collect();
    let program = solana_pubkey::Pubkey::new_from_array(*program_id);
    match solana_pubkey::Pubkey::create_program_address(&seed_slices, &program) {
        Ok(address) => Some(address.to_bytes().to_vec()),
        Err(_) => None,
    }
}

/// The bounded disambiguation search, from `disamb` down to 0: the first
/// disambiguator whose candidate the backend accepts wins, together with
/// its address.
pub open spec fn search_from(seeds: Seq<Seq<u8>>, program_id: Seq<u8>, disamb: int) -> Option<
    (Seq<u8>, u8),
>
    decreases disamb + 1,
{
    if disamb < 0 {
        None
    } else {
        match pda_candidate(seeds.push(seq![disamb as u8]), program_id) {
            Some(address) => Some((address, disamb as u8)),
            None => search_from(seeds, program_id, disamb - 1),
        }
    }
}

/// The derived address for a seed sequence: the candidate at the largest
/// disambiguator in 255..0 that the backend accepts, if any.
pub open spec fn derived_address(seeds: Seq<Seq<u8>>, program_id: Seq<u8>) -> Option<(Seq<u8>, u8)> {
    search_from(seeds, program_id, 255)
}

/// The derived address of an owner's profile record. Determinism is built
/// in: the address is a function of the owner and the program id alone.
pub open spec fn derived_profile_address(owner: Identity, program_id: Seq<u8>) -> Option<
    (Seq<u8>, u8),
> {
    derived_address(profile_seeds(owner), program_id)
}

/// The derived address of an owner's task record at `index`.
pub open spec fn derived_task_address(owner: Identity, index: u8, program_id: Seq<u8>) -> Option<
    (Seq<u8>, u8),
> {
    derived_address(task_seeds(owner, index), program_id)
}

/// A backend-valid storage address: the 32 derived bytes and the
/// disambiguator that produced them.
#[derive(Debug)]
pub struct DerivedAddress {
    pub bytes: Vec<u8>,
    pub bump: u8,
}

/// Run the bounded disambiguation search for one seed sequence: try each
/// disambiguator from 255 down to 0 and return the first backend-valid
/// address, or `AddressSpaceExhausted` when the whole domain fails.
#[verifier::loop_isolation(false)]
fn derive_with_seeds(seeds: Vec<Vec<u8>>, program_id: &[u8; 32]) -> (r: Result<
    DerivedAddress,
    TodoError,
>)
    ensures
        match r {
            Ok(d) => derived_address(seeds.deep_view(), program_id@) == Some((d.bytes@, d.bump))
                && d.bytes@.len() == 32,
            Err(e) => e == TodoError::AddressSpaceExhausted && derived_address(
                seeds.deep_view(),
                program_id@,
            ) is None,
        },
{
    let ghost orig: Seq<Seq<u8>> = seeds.deep_view();
    let mut s = seeds;
    let mut i: u16 = 0;
    while i < 256
        invariant
            i <= 256,
            s.deep_view() == orig,
            search_from(orig, program_id@, 255) == search_from(orig, program_id@, 255 - i),
        decreases 256 - i,
    {
        let disamb: u8 = (255 - i) as u8;
        let mut disamb_seed: Vec<u8> = Vec::new();
        disamb_seed.push(disamb);
        proof {
            assert(disamb_seed@ =~= seq![disamb]);
        }
        s.push(disamb_seed);
        proof {
            assert(s.deep_view() =~~= orig.push(seq![disamb]));
        }
        let candidate = create_candidate(&s, program_id);
        let _ = s.pop();
        proof {
            assert(s.deep_view() =~~= orig);
        }
        match candidate {
            Some(bytes) => {
                proof {
                    assert(pda_candidate(orig.push(seq![disamb]), program_id@) == Some(bytes@));
                    assert(search_from(orig, program_id@, 255 - i) == Some((bytes@, disamb)));
                }
                return Ok(DerivedAddress { bytes, bump: disamb });
            },
            None => {
                proof {
                    assert(pda_candidate(orig.push(seq![disamb]), program_id@) is None);
                    assert(search_from(orig, program_id@, 255 - i) == search_from(
                        orig,
                        program_id@,
                        255 - i - 1,
                    ));
                }
                i += 1;
            },
        }
    }
    Err(TodoError::AddressSpaceExhausted)
}

/// Derive the storage address of the owner's profile record. The result is
/// a function of the owner and program id alone, so repeated calls agree.
pub fn derive_profile_address(owner: &Identity, program_id: &[u8; 32]) -> (r: Result<
    DerivedAddress,
    TodoError,
>)
    ensures
        match r {
            Ok(d) => derived_profile_address(*owner, program_id@) == Some((d.bytes@, d.bump))
                && d.bytes@.len() == 32,
            Err(e) => e == TodoError::AddressSpaceExhausted && derived_profile_address(
                *owner,
                program_id@,
            ) is None,
        },
{
    derive_with_seeds(make_seeds(RecordTag::Profile, owner, None), program_id)
}

/// Derive the storage address of the owner's task record at `index`. The
/// result is a function of the owner, index, and program id alone.
pub fn derive_task_address(owner: &Identity, index: u8, program_id: &[u8; 32]) -> (r: Result<
    DerivedAddress,
    TodoError,
>)
    ensures
        match r {
            Ok(d) => derived_task_address(*owner, index, program_id@) == Some((d.bytes@, d.bump))
                && d.bytes@.len() == 32,
            Err(e) => e == TodoError::AddressSpaceExhausted && derived_task_address(
                *owner,
                index,
                program_id@,
            ) is None,
        },
{
    derive_with_seeds(make_seeds(RecordTag::Task, owner, Some(index)), program_id)
}

/// The disambiguator alone for an arbitrary seed sequence.
pub fn bump(seeds: Vec<Vec<u8>>, program_id: &[u8; 32]) -> (r: Result<u8, TodoError>)
    ensures
        match r {
            Ok(b) => derived_address(seeds.deep_view(), program_id@) matches Some(p) && p.1 == b,
            Err(e) => e == TodoError::AddressSpaceExhausted && derived_address(
                seeds.deep_view(),
                program_id@,
            ) is None,
        },
{
    match derive_with_seeds(seeds, program_id) {
        Ok(d) => Ok(d.bump),
        Err(e) => Err(e),
    }
}

/// Append the eight little-endian bytes of one identity word.
fn push_word_bytes(out: &mut Vec<u8>, w: u64)
    ensures
        final(out)@ == old(out)@ + le_word_bytes(w),
{
    out.push((w % 256) as u8);
    out.push(((w / 256) % 256) as u8);
    out.push(((w / 65536) % 256) as u8);
    out.push(((w / 16777216) % 256) as u8);
    out.push(((w / 4294967296) % 256) as u8);
    out.push(((w / 1099511627776) % 256) as u8);
    out.push(((w / 281474976710656) % 256) as u8);
    out.push(((w / 72057594037927936) % 256) as u8);
    proof {
        assert(out@ =~= old(out)@ + le_word_bytes(w));
    }
}

/// Build the owner's 32 seed bytes.
pub fn identity_seed_bytes(owner: &Identity) -> (out: Vec<u8>)
    ensures
        out@ == identity_seed(*owner),
{
    let mut out: Vec<u8> = Vec::new();
    push_word_bytes(&mut out, owner.w0);
    push_word_bytes(&mut out, owner.w1);
    push_word_bytes(&mut out, owner.w2);
    push_word_bytes(&mut out, owner.w3);
    proof {
        assert(out@ =~= identity_seed(*owner));
    }
    out
}

/// The tag's seed byte, as a value.
pub fn record_tag_byte(tag: RecordTag) -> (b: u8)
    ensures
        b == tag_byte(tag),
{
    match tag {
        RecordTag::Profile => 1,
        RecordTag::Task => 2,
    }
}

/// Build the full seed sequence for one record kind: tag byte, owner bytes,
/// and for tasks the index byte.
#[verifier::rlimit(30)]
pub fn make_seeds(tag: RecordTag, owner: &Identity, index: Option<u8>) -> (seeds: Vec<Vec<u8>>)
    ensures
        index matches Some(i) ==> (tag == RecordTag::Task ==> seeds.deep_view() == task_seeds(
            *owner,
            i,
        )),
        index is None && tag == RecordTag::Profile ==> seeds.deep_view() == profile_seeds(*owner),
{
    let mut seeds: Vec<Vec<u8>> = Vec::new();
    let mut tag_seed: Vec<u8> = Vec::new();
    tag_seed.push(record_tag_byte(tag));
    seeds.push(tag_seed);
    seeds.push(identity_seed_bytes(owner));
    match index {
        Some(i) => {
            let mut index_seed: Vec<u8> = Vec::new();
            index_seed.push(i);
            seeds.push(index_seed);
            proof {
                if tag == RecordTag::Task {
                    assert(seeds.deep_view() =~~= task_seeds(*owner, i));
                }
            }
        },
        None => {
            proof {
                if tag == RecordTag::Profile {
                    assert(seeds.deep_view() =~~= profile_seeds(*owner));
                }
            }
        },
    }
    seeds
}

/// Law: one owner's task seed sequences are pairwise distinct — the index
/// byte is itself a seed, so distinct indices can never contend for one
/// derivation input.
pub proof fn lemma_task_seeds_distinct(owner: Identity, i: u8, j: u8)
    requires
        i != j,
    ensures
        task_seeds(owner, i) != task_seeds(owner, j),
{
    assert(task_seeds(owner, i)[2] == seq![i]);
    assert(task_seeds(owner, j)[2] == seq![j]);
    assert(seq![i][0] == i);
    assert(seq![j][0] == j);
}

/// Law: a profile's seed sequence is never a task's seed sequence, whatever
/// the owners: the namespaces cannot collide at the derivation inputs.
pub proof fn lemma_namespace_distinct(owner1: Identity, owner2: Identity, index: u8)
    ensures
        profile_seeds(owner1) != task_seeds(owner2, index),
{
    assert(profile_seeds(owner1).len() == 2);
    assert(task_seeds(owner2, index).len() == 3);
}

} // verus!
