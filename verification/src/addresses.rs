//! Deterministic address derivation. A record's address is derived from an
//! ordered sequence of seed byte strings together with a program namespace;
//! the derivation also yields a one-byte bump that marks the address as a
//! derived one. The derivation itself is an external primitive; this module
//! names its result and builds the seed sequences for the two record kinds.

use vstd::prelude::*;

verus! {

/// Number of bytes in a public-key identifier or derived address.
pub const KEY_LENGTH: usize = 32;

/// The views of a sequence of seed byte strings.
pub open spec fn views_of(seeds: Seq<Vec<u8>>) -> Seq<Seq<u8>> {
    seeds.map_values(|s: Vec<u8>| s@)
}

/// The 32-byte address and canonical bump that program-address derivation
/// yields for a seed sequence under a program namespace. The derivation is a
/// pure function of its inputs (a chain of SHA-256 hashes), so its result is
/// named here rather than written out.
pub uninterp spec fn pda_of(seeds: Seq<Seq<u8>>, program_id: Seq<u8>) -> (Seq<u8>, u8);

/// Relies on anchor_lang::prelude::Pubkey::find_program_address: derives a
/// 32-byte program address and its canonical bump, a pure function of the
/// seeds and the program id. Accepts at most 15 seeds of at most 32 bytes
/// each; panics only in the statistically improbable case that no bump yields
/// a valid derived address.
#[verifier::external_body]
fn find_program_address(seeds: &Vec<Vec<u8>>, program_id: &[u8; 32]) -> (r: ([u8; 32], u8))
    requires
        seeds@.len() < 16,
        forall|i: int| 0 <= i < seeds@.len() ==> (#[trigger] seeds@[i])@.len() <= 32,
    ensures
        r.0@ == pda_of(views_of(seeds@), program_id@).0,
        r.1 == pda_of(views_of(seeds@), program_id@).1,
        r.0@.len() == KEY_LENGTH,
{
    let seed_slices: Vec<&[u8]> = seeds.iter().map(|s| s.as_slice()).collect();
    let (address, bump) = anchor_lang::prelude::Pubkey::find_program_address(
        &seed_slices,
        &anchor_lang::prelude::Pubkey::new_from_array(*program_id),
    );
    (address.to_bytes(), bump)
}

/// Seed tag of collection addresses: the bytes of "blog_v0".
pub open spec fn blog_seed_tag() -> Seq<u8> {
    seq![98u8, 108u8, 111u8, 103u8, 95u8, 118u8, 48u8]
}

/// Seed tag of entry addresses: the bytes of "post".
pub open spec fn post_seed_tag() -> Seq<u8> {
    seq![112u8, 111u8, 115u8, 116u8]
}

/// Seed sequence of the collection address owned by an authority.
pub open spec fn blog_seeds(user: Seq<u8>) -> Seq<Seq<u8>> {
    seq![blog_seed_tag(), user]
}

/// Seed sequence of an entry address: the owning collection's address and the
/// collection's entry counter at creation time, truncated to one byte.
pub open spec fn post_seeds(blog_address: Seq<u8>, index: u8) -> Seq<Seq<u8>> {
    seq![post_seed_tag(), blog_address, seq![index]]
}

/// Derived address and canonical bump of an authority's collection.
pub open spec fn blog_pda(user: Seq<u8>, program_id: Seq<u8>) -> (Seq<u8>, u8) {
    pda_of(blog_seeds(user), program_id)
}

/// Derived address and canonical bump of the entry created at a given counter
/// value under a collection.
pub open spec fn post_pda(blog_address: Seq<u8>, index: u8, program_id: Seq<u8>) -> (Seq<u8>, u8) {
    pda_of(post_seeds(blog_address, index), program_id)
}

fn blog_tag_vec() -> (v: Vec<u8>)
    ensures
        v@ == blog_seed_tag(),
{
    let mut v: Vec<u8> = Vec::new();
    v.push(98);
    v.push(108);
    v.push(111);
    v.push(103);
    v.push(95);
    v.push(118);
    v.push(48);
    proof {
        assert(v@ =~= blog_seed_tag());
    }
    v
}

fn post_tag_vec() -> (v: Vec<u8>)
    ensures
        v@ == post_seed_tag(),
{
    let mut v: Vec<u8> = Vec::new();
    v.push(112);
    v.push(111);
    v.push(115);
    v.push(116);
    proof {
        assert(v@ =~= post_seed_tag());
    }
    v
}

fn key_to_vec(key: &[u8; 32]) -> (v: Vec<u8>)
    ensures
        v@ == key@,
{
    vstd::slice::slice_to_vec(vstd::array::array_as_slice(key))
}

/// Byte-for-byte equality of two 32-byte identifiers.
pub fn key_eq(a: &[u8; 32], b: &[u8; 32]) -> (r: bool)
    ensures
        r <==> a@ == b@,
{
    let mut i: usize = 0;
    while i < 32
        invariant
            i <= 32,
            forall|j: int| 0 <= j < i ==> a@[j] == b@[j],
        decreases 32 - i,
    {
        if a[i] != b[i] {
            return false;
        }
        i = i + 1;
    }
    proof {
        assert(a@ =~= b@);
    }
    true
}

/// Derives the collection address and canonical bump for an authority.
pub fn derive_blog_address(user: &[u8; 32], program_id: &[u8; 32]) -> (r: ([u8; 32], u8))
    ensures
        r.0@ == blog_pda(user@, program_id@).0,
        r.1 == blog_pda(user@, program_id@).1,
{
    let mut seeds: Vec<Vec<u8>> = Vec::new();
    seeds.push(blog_tag_vec());
    seeds.push(key_to_vec(user));
    proof {
        assert(views_of(seeds@) =~~= blog_seeds(user@));
    }
    find_program_address(&seeds, program_id)
}

/// Derives an entry address and canonical bump from the owning collection's
/// address and the collection's entry counter at creation time.
pub fn derive_post_address(blog_address: &[u8; 32], index: u8, program_id: &[u8; 32]) -> (r:
    ([u8; 32], u8))
    ensures
        r.0@ == post_pda(blog_address@, index, program_id@).0,
        r.1 == post_pda(blog_address@, index, program_id@).1,
{
    let mut seeds: Vec<Vec<u8>> = Vec::new();
    seeds.push(post_tag_vec());
    seeds.push(key_to_vec(blog_address));
    let mut index_seed: Vec<u8> = Vec::new();
    index_seed.push(index);
    seeds.push(index_seed);
    proof {
        assert(views_of(seeds@) =~~= post_seeds(blog_address@, index));
    }
    find_program_address(&seeds, program_id)
}

} // verus!
