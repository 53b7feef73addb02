//! Capacity planning: the exact number of bytes to allocate for a record,
//! computed from its fixed header and the creation-time lengths of its
//! variable-length fields. Each variable-length field is reserved at twice its
//! creation-time length, so a later update can grow it up to double its
//! original size without reallocation.

use vstd::prelude::*;

verus! {

/// Width of the record type discriminator that starts every account.
pub const DISCRIMINATOR_LENGTH: usize = 8;

/// Width of the stored bump byte.
pub const BUMP: usize = 1;

/// Width of the entry counter.
pub const COUNTER: usize = 1;

/// Width of a public-key identifier.
pub const PUBKEY: usize = 32;

/// Fixed size of a collection account: discriminator, bump, counter, authority.
pub const BLOG_LEN: usize = DISCRIMINATOR_LENGTH + BUMP + COUNTER + PUBKEY;

pub const POST_DISCRIMINATOR_LENGTH: usize = 8;

pub const POST_BUMP: usize = 1;

pub const POST_ENTRY: usize = 1;

/// Width of the length prefix stored before the title bytes.
pub const POST_TITLE_LENGTH_PREFIX: usize = 4;

/// Width of the length prefix stored before the body bytes.
pub const POST_CONTENT_LENGTH_PREFIX: usize = 4;

pub const POST_PUBKEY: usize = 32;

/// Fixed header size of an entry account: discriminator, bump, entry index,
/// one length prefix per variable field, and the authority key.
pub const POST_LEN: usize = POST_DISCRIMINATOR_LENGTH + POST_BUMP + POST_ENTRY
    + POST_TITLE_LENGTH_PREFIX + POST_CONTENT_LENGTH_PREFIX + POST_PUBKEY;

/// Total bytes to allocate for a record with the given fixed header size and
/// the byte lengths of its variable-length fields at creation time: each
/// variable field is reserved at twice its creation-time length.
pub open spec fn spec_plan(fixed_header_bytes: nat, field_lens: Seq<nat>) -> nat
    decreases field_lens.len(),
{
    if field_lens.len() == 0 {
        fixed_header_bytes
    } else {
        spec_plan(fixed_header_bytes, field_lens.drop_last()) + 2 * field_lens.last()
    }
}

/// Storage size of an entry account created with the given field lengths:
/// the fixed header plus exactly twice each creation-time field length.
pub open spec fn spec_post_space(title_len: nat, body_len: nat) -> nat {
    (POST_LEN + 2 * title_len + 2 * body_len) as nat
}

/// Computes the exact storage size for a new record: the fixed header plus
/// twice the creation-time byte length of each variable-length field.
pub fn plan(fixed_header_bytes: usize, field_lens: &Vec<usize>) -> (total: usize)
    requires
        spec_plan(fixed_header_bytes as nat, field_lens@.map_values(|l: usize| l as nat))
            <= usize::MAX,
    ensures
        total == spec_plan(
            fixed_header_bytes as nat,
            field_lens@.map_values(|l: usize| l as nat),
        ),
{
    let ghost lens = field_lens@.map_values(|l: usize| l as nat);
    let mut total: usize = fixed_header_bytes;
    let mut i: usize = 0;
    while i < field_lens.len()
        invariant
            i <= field_lens.len(),
            lens == field_lens@.map_values(|l: usize| l as nat),
            total == spec_plan(fixed_header_bytes as nat, lens.take(i as int)),
            spec_plan(fixed_header_bytes as nat, lens) <= usize::MAX,
        decreases field_lens.len() - i,
    {
        proof {
            lemma_spec_plan_take_monotonic(fixed_header_bytes as nat, lens, i + 1);
            assert(lens.take(i + 1).drop_last() =~= lens.take(i as int));
            assert(lens.take(i + 1).last() == lens[i as int]);
        }
        total = total + 2 * field_lens[i];
        i = i + 1;
    }
    proof {
        assert(lens.take(field_lens@.len() as int) =~= lens);
    }
    total
}

/// A prefix of the planned fields never needs more space than the whole plan.
proof fn lemma_spec_plan_take_monotonic(fixed: nat, lens: Seq<nat>, n: int)
    requires
        0 <= n <= lens.len(),
    ensures
        spec_plan(fixed, lens.take(n)) <= spec_plan(fixed, lens),
    decreases lens.len(),
{
    if n < lens.len() {
        lemma_spec_plan_take_monotonic(fixed, lens.drop_last(), n);
        assert(lens.drop_last().take(n) =~= lens.take(n));
    } else {
        assert(lens.take(n) =~= lens);
    }
}

/// Storage size of a collection account: a constant, since it has no
/// variable-length fields.
pub fn blog_space() -> (total: usize)
    ensures
        total == BLOG_LEN,
{
    let field_lens: Vec<usize> = Vec::new();
    plan(BLOG_LEN, &field_lens)
}

/// Storage size of an entry account created with the given title and body
/// byte lengths: the fixed header plus twice each length, exactly.
pub fn post_space(title_len: usize, body_len: usize) -> (total: usize)
    requires
        spec_post_space(title_len as nat, body_len as nat) <= usize::MAX,
    ensures
        total == spec_post_space(title_len as nat, body_len as nat),
{
    let mut field_lens: Vec<usize> = Vec::new();
    field_lens.push(title_len);
    field_lens.push(body_len);
    proof {
        let lens = field_lens@.map_values(|l: usize| l as nat);
        assert(lens =~= seq![title_len as nat, body_len as nat]);
        assert(lens.drop_last() =~= seq![title_len as nat]);
        assert(lens.drop_last().drop_last() =~= Seq::<nat>::empty());
        assert(spec_plan(POST_LEN as nat, Seq::<nat>::empty()) == POST_LEN as nat);
        assert(spec_plan(POST_LEN as nat, seq![title_len as nat]) == POST_LEN + 2 * title_len)
            by {
            assert(seq![title_len as nat].drop_last() =~= Seq::<nat>::empty());
            assert(seq![title_len as nat].last() == title_len as nat);
        }
        assert(spec_plan(POST_LEN as nat, lens) == spec_post_space(
            title_len as nat,
            body_len as nat,
        ));
    }
    plan(POST_LEN, &field_lens)
}

} // verus!
