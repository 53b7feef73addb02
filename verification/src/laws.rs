//! Laws of the instruction state machine, proved over the spec transitions of
//! the ledger: creation happens exactly once per derived address, entry
//! indexes follow the counter, authority gates leave state untouched, update
//! capacity is exactly twice each creation-time length, and deletion releases
//! exactly one account.

use crate::addresses::{blog_pda, post_pda};
use crate::capacity::spec_post_space;
use crate::ledger::{
    blog_view, is_blog, is_post, post_body_capacity, post_title_capacity, post_view,
    spec_create_post, spec_delete_post, spec_initialize, spec_update_post, wrap_inc,
    InstructionError, LedgerView,
};
use vstd::prelude::*;

verus! {

/// A collection is created exactly once per authority: after a successful
/// initialize, a repeated initialize declaring the same derived address and
/// bump fails with AddressAlreadyInUse and leaves every record, the first
/// collection included, unchanged.
pub proof fn lemma_initialize_exactly_once(
    m: LedgerView,
    program_id: Seq<u8>,
    user: Seq<u8>,
    bump: u8,
)
    requires
        spec_initialize(m, program_id, blog_pda(user, program_id).0, user, bump).1 is Ok,
    ensures
        ({
            let m1 = spec_initialize(m, program_id, blog_pda(user, program_id).0, user, bump).0;
            let (m2, r2) = spec_initialize(
                m1,
                program_id,
                blog_pda(user, program_id).0,
                user,
                bump,
            );
            &&& m2 == m1
            &&& r2 == Err::<(), InstructionError>(InstructionError::AddressAlreadyInUse)
        }),
{
}

/// A successful initialize creates the collection with a zero entry counter,
/// owned by the caller and carrying the verified bump.
pub proof fn lemma_initialize_creates_collection(
    m: LedgerView,
    program_id: Seq<u8>,
    blog_account: Seq<u8>,
    user: Seq<u8>,
    bump: u8,
)
    requires
        spec_initialize(m, program_id, blog_account, user, bump).1 is Ok,
    ensures
        ({
            let m1 = spec_initialize(m, program_id, blog_account, user, bump).0;
            let a = blog_pda(user, program_id).0;
            &&& blog_account == a
            &&& bump == blog_pda(user, program_id).1
            &&& !m.contains_key(a)
            &&& is_blog(m1, a)
            &&& blog_view(m1, a) == (crate::records::BlogView {
                bump,
                post_count: 0u8,
                authority: user,
            })
        }),
{
}

/// A successful creation captures the collection's current counter as the new
/// entry's index and moves the counter up by exactly one, wrapping at 256; no
/// other instruction moves the counter (see the persistence laws below), so
/// the Nth successful creation under a fresh collection stores index N-1 and
/// leaves the counter at N while N stays below the wraparound bound.
pub proof fn lemma_create_post_indexing(
    m: LedgerView,
    program_id: Seq<u8>,
    blog_account: Seq<u8>,
    post_account: Seq<u8>,
    authority: Seq<u8>,
    bump: u8,
    title: Seq<u8>,
    body: Seq<u8>,
)
    requires
        spec_create_post(m, program_id, blog_account, post_account, authority, bump, title, body).1
            is Ok,
    ensures
        ({
            let c = blog_view(m, blog_account).post_count;
            let m1 = spec_create_post(
                m,
                program_id,
                blog_account,
                post_account,
                authority,
                bump,
                title,
                body,
            ).0;
            let post_addr = post_pda(blog_account, c, program_id).0;
            &&& post_account == post_addr
            &&& is_post(m1, post_addr)
            &&& post_view(m1, post_addr).entry == c
            &&& post_view(m1, post_addr).title == title
            &&& post_view(m1, post_addr).body == body
            &&& post_view(m1, post_addr).authority == authority
            &&& is_blog(m1, blog_account)
            &&& blog_view(m1, blog_account).post_count == wrap_inc(c)
            &&& blog_view(m1, blog_account).authority == blog_view(m, blog_account).authority
        }),
{
    let c = blog_view(m, blog_account).post_count;
    let post_addr = post_pda(blog_account, c, program_id).0;
    assert(m.contains_key(blog_account) && !m.contains_key(post_addr));
    assert(post_addr != blog_account);
}

/// A run of creations under one collection, each declaring the canonical
/// derived address and bump for the counter it sees; the flag says whether
/// every call succeeded.
pub open spec fn apply_creates(
    m: LedgerView,
    program_id: Seq<u8>,
    blog_account: Seq<u8>,
    authority: Seq<u8>,
    fields: Seq<(Seq<u8>, Seq<u8>)>,
) -> (LedgerView, bool)
    decreases fields.len(),
{
    if fields.len() == 0 {
        (m, true)
    } else {
        let (mp, okp) = apply_creates(m, program_id, blog_account, authority, fields.drop_last());
        let derived = post_pda(blog_account, blog_view(mp, blog_account).post_count, program_id);
        let (m1, r) = spec_create_post(
            mp,
            program_id,
            blog_account,
            derived.0,
            authority,
            derived.1,
            fields.last().0,
            fields.last().1,
        );
        (m1, okp && r is Ok)
    }
}

/// Entry numbering over whole runs: when every creation in a run succeeds and
/// the counter stays below its wraparound bound, the Nth call stores an entry
/// carrying index N-1 and leaves the counter at N (counting from a fresh
/// collection, whose counter is zero); every entry of the run is still there
/// at the end, with its own fields.
pub proof fn lemma_create_run_indexing(
    m: LedgerView,
    program_id: Seq<u8>,
    blog_account: Seq<u8>,
    authority: Seq<u8>,
    fields: Seq<(Seq<u8>, Seq<u8>)>,
)
    requires
        is_blog(m, blog_account),
        apply_creates(m, program_id, blog_account, authority, fields).1,
        blog_view(m, blog_account).post_count + fields.len() <= 255,
    ensures
        ({
            let m1 = apply_creates(m, program_id, blog_account, authority, fields).0;
            let c0 = blog_view(m, blog_account).post_count as int;
            &&& is_blog(m1, blog_account)
            &&& blog_view(m1, blog_account).authority == blog_view(m, blog_account).authority
            &&& blog_view(m1, blog_account).post_count as int == c0 + fields.len()
            &&& forall|k: int|
                0 <= k < fields.len() ==> {
                    let addr = post_pda(blog_account, #[trigger] ((c0 + k) as u8), program_id).0;
                    &&& is_post(m1, addr)
                    &&& post_view(m1, addr).entry as int == c0 + k
                    &&& post_view(m1, addr).title == fields[k].0
                    &&& post_view(m1, addr).body == fields[k].1
                }
        }),
    decreases fields.len(),
{
    if fields.len() > 0 {
        let prefix = fields.drop_last();
        lemma_create_run_indexing(m, program_id, blog_account, authority, prefix);
        let mp = apply_creates(m, program_id, blog_account, authority, prefix).0;
        let c0 = blog_view(m, blog_account).post_count as int;
        let c = blog_view(mp, blog_account).post_count;
        let derived = post_pda(blog_account, c, program_id);
        let m1 = spec_create_post(
            mp,
            program_id,
            blog_account,
            derived.0,
            authority,
            derived.1,
            fields.last().0,
            fields.last().1,
        ).0;
        assert(!mp.contains_key(derived.0));
        assert(derived.0 != blog_account);
        assert forall|k: int| 0 <= k < fields.len() implies {
            let addr = post_pda(blog_account, #[trigger] ((c0 + k) as u8), program_id).0;
            &&& is_post(m1, addr)
            &&& post_view(m1, addr).entry as int == c0 + k
            &&& post_view(m1, addr).title == fields[k].0
            &&& post_view(m1, addr).body == fields[k].1
        } by {
            let addr = post_pda(blog_account, (c0 + k) as u8, program_id).0;
            if k < fields.len() - 1 {
                assert(is_post(mp, addr));
                assert(addr != derived.0);
                assert(addr != blog_account);
                assert(fields[k] == prefix[k]);
            } else {
                assert((c0 + k) as u8 == c);
            }
        }
    }
}

/// A successful creation reserves exactly twice each field's creation-time
/// length, and sizes the account at the fixed header plus those two reserves.
pub proof fn lemma_create_post_capacity(
    m: LedgerView,
    program_id: Seq<u8>,
    blog_account: Seq<u8>,
    post_account: Seq<u8>,
    authority: Seq<u8>,
    bump: u8,
    title: Seq<u8>,
    body: Seq<u8>,
)
    requires
        spec_create_post(m, program_id, blog_account, post_account, authority, bump, title, body).1
            is Ok,
        spec_post_space(title.len(), body.len()) <= usize::MAX,
    ensures
        ({
            let m1 = spec_create_post(
                m,
                program_id,
                blog_account,
                post_account,
                authority,
                bump,
                title,
                body,
            ).0;
            &&& post_title_capacity(m1, post_account) == 2 * title.len()
            &&& post_body_capacity(m1, post_account) == 2 * body.len()
            &&& m1[post_account].space == spec_post_space(title.len(), body.len())
        }),
{
}

/// An update whose signer is not the required authority fails with
/// AuthorityMismatch and leaves every record, the stored title and body
/// included, unchanged.
pub proof fn lemma_update_post_authority_gate(
    m: LedgerView,
    blog_account: Seq<u8>,
    post_account: Seq<u8>,
    authority: Seq<u8>,
    title: Seq<u8>,
    body: Seq<u8>,
)
    requires
        is_blog(m, blog_account),
        is_post(m, post_account),
        blog_view(m, blog_account).authority != authority || post_view(
            m,
            post_account,
        ).authority != authority,
    ensures
        ({
            let (m1, r) = spec_update_post(m, blog_account, post_account, authority, title, body);
            &&& m1 == m
            &&& r == Err::<(), InstructionError>(InstructionError::AuthorityMismatch)
        }),
{
}

/// On a freshly created entry, an update succeeds exactly when each new field
/// fits twice its creation-time length; otherwise it fails with
/// StorageOverflow and changes nothing. On success exactly the title and body
/// change, in place.
pub proof fn lemma_update_capacity_bound(
    m: LedgerView,
    program_id: Seq<u8>,
    blog_account: Seq<u8>,
    post_account: Seq<u8>,
    authority: Seq<u8>,
    bump: u8,
    title0: Seq<u8>,
    body0: Seq<u8>,
    title: Seq<u8>,
    body: Seq<u8>,
)
    requires
        spec_create_post(
            m,
            program_id,
            blog_account,
            post_account,
            authority,
            bump,
            title0,
            body0,
        ).1 is Ok,
        spec_post_space(title0.len(), body0.len()) <= usize::MAX,
    ensures
        ({
            let m1 = spec_create_post(
                m,
                program_id,
                blog_account,
                post_account,
                authority,
                bump,
                title0,
                body0,
            ).0;
            let (m2, r2) = spec_update_post(m1, blog_account, post_account, authority, title, body);
            &&& (r2 is Ok <==> title.len() <= 2 * title0.len() && body.len() <= 2 * body0.len())
            &&& (r2 is Ok ==> post_view(m2, post_account).title == title && post_view(
                m2,
                post_account,
            ).body == body && post_view(m2, post_account).entry == post_view(
                m1,
                post_account,
            ).entry && m2 == m1.insert(post_account, m2[post_account]))
            &&& (!(r2 is Ok) ==> m2 == m1 && r2 == Err::<(), InstructionError>(
                InstructionError::StorageOverflow,
            ))
        }),
{
    let c = blog_view(m, blog_account).post_count;
    let post_addr = post_pda(blog_account, c, program_id).0;
    assert(post_addr != blog_account);
}

/// Deleting an entry releases exactly its account: the owning collection and
/// its entry counter are untouched, every other record is unchanged, and a
/// subsequent creation whose derived address is free succeeds.
pub proof fn lemma_delete_then_create(
    m: LedgerView,
    program_id: Seq<u8>,
    blog_account: Seq<u8>,
    post_account: Seq<u8>,
    authority: Seq<u8>,
    title: Seq<u8>,
    body: Seq<u8>,
)
    requires
        is_blog(m, blog_account),
        blog_view(m, blog_account).authority == authority,
        is_post(m, post_account),
        post_view(m, post_account).authority == authority,
    ensures
        ({
            let (m1, r1) = spec_delete_post(m, post_account, authority);
            let c = blog_view(m, blog_account).post_count;
            let derived = post_pda(blog_account, c, program_id);
            &&& r1 is Ok
            &&& m1 == m.remove(post_account)
            &&& is_blog(m1, blog_account)
            &&& blog_view(m1, blog_account) == blog_view(m, blog_account)
            &&& !m1.contains_key(post_account)
            &&& (!m1.contains_key(derived.0) ==> spec_create_post(
                m1,
                program_id,
                blog_account,
                derived.0,
                authority,
                derived.1,
                title,
                body,
            ).1 is Ok)
        }),
{
    assert(blog_account != post_account);
}

/// No instruction but a successful creation under it touches a collection:
/// initialize inserts only at a free address, update rewrites only an entry
/// account, and delete removes only an entry account. A collection therefore
/// persists, with its authority, bump and counter intact, across every other
/// instruction.
pub proof fn lemma_collection_persists(
    m: LedgerView,
    program_id: Seq<u8>,
    a: Seq<u8>,
    blog_account: Seq<u8>,
    post_account: Seq<u8>,
    authority: Seq<u8>,
    bump: u8,
    title: Seq<u8>,
    body: Seq<u8>,
)
    requires
        is_blog(m, a),
    ensures
        ({
            let m1 = spec_initialize(m, program_id, blog_account, authority, bump).0;
            is_blog(m1, a) && blog_view(m1, a) == blog_view(m, a)
        }),
        ({
            let m1 = spec_update_post(m, blog_account, post_account, authority, title, body).0;
            is_blog(m1, a) && blog_view(m1, a) == blog_view(m, a)
        }),
        ({
            let m1 = spec_delete_post(m, post_account, authority).0;
            is_blog(m1, a) && blog_view(m1, a) == blog_view(m, a)
        }),
        ({
            let m1 = spec_create_post(
                m,
                program_id,
                blog_account,
                post_account,
                authority,
                bump,
                title,
                body,
            ).0;
            &&& is_blog(m1, a)
            &&& blog_view(m1, a).authority == blog_view(m, a).authority
            &&& blog_view(m1, a).bump == blog_view(m, a).bump
            &&& (a != blog_account ==> blog_view(m1, a) == blog_view(m, a))
        }),
{
    let init = spec_initialize(m, program_id, blog_account, authority, bump);
    if init.1 is Ok {
        assert(!m.contains_key(blog_pda(authority, program_id).0));
    }
    let upd = spec_update_post(m, blog_account, post_account, authority, title, body);
    if upd.1 is Ok {
        assert(is_post(m, post_account));
        assert(post_account != a);
    }
    let del = spec_delete_post(m, post_account, authority);
    if del.1 is Ok {
        assert(post_account != a);
    }
    let cre = spec_create_post(
        m,
        program_id,
        blog_account,
        post_account,
        authority,
        bump,
        title,
        body,
    );
    if cre.1 is Ok {
        let c = blog_view(m, blog_account).post_count;
        assert(!m.contains_key(post_pda(blog_account, c, program_id).0));
        assert(post_pda(blog_account, c, program_id).0 != a);
    }
}

} // verus!

