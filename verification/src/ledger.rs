//! The instruction handlers: a state machine over records held at derived
//! addresses. The hosting runtime executes one instruction at a time, each to
//! completion or full rollback; every handler here is all-or-nothing and
//! leaves the ledger exactly as it was on any failure.
//!
//! The ledger's mathematical model is a map from 32-byte addresses to account
//! views; each instruction's effect on that map is written out as a spec
//! transition function, and the executable handler is proved to implement it.

use crate::addresses::{blog_pda, derive_blog_address, derive_post_address, key_eq, post_pda};
use crate::capacity::{blog_space, post_space, spec_post_space, BLOG_LEN, POST_LEN};
use crate::records::{Blog, BlogView, Post, PostView};
use vstd::pervasive::arbitrary;
use vstd::prelude::*;

verus! {

/// Why an instruction was rejected. Every failure aborts the instruction and
/// leaves every record unchanged.
#[derive(Clone, Copy, Debug, PartialEq, Eq, Structural)]
pub enum InstructionError {
    /// The derived address is already occupied: a repeated initialize, or an
    /// entry creation whose derived address collides with a live account.
    AddressAlreadyInUse,
    /// The signer does not match the required authority field.
    AuthorityMismatch,
    /// An update's field exceeds the space reserved for it at creation.
    StorageOverflow,
    /// A claimed address or bump does not re-derive from the declared seeds.
    AddressMismatch,
    /// A declared account does not exist or holds the wrong record kind.
    AccountNotFound,
}

/// A record held by an account, together with what was reserved for it.
pub enum StoredRecord {
    BlogAccount { blog: Blog },
    PostAccount {
        post: Post,
        /// Bytes reserved for the title at creation: twice its creation-time length.
        title_capacity: usize,
        /// Bytes reserved for the body at creation: twice its creation-time length.
        body_capacity: usize,
    },
}

/// Mathematical view of a stored record.
#[verifier::ext_equal]
pub enum RecordView {
    BlogAccount { blog: BlogView },
    PostAccount { post: PostView, title_capacity: usize, body_capacity: usize },
}

impl View for StoredRecord {
    type V = RecordView;

    open spec fn view(&self) -> RecordView {
        match self {
            StoredRecord::BlogAccount { blog } => RecordView::BlogAccount { blog: blog@ },
            StoredRecord::PostAccount { post, title_capacity, body_capacity } => {
                RecordView::PostAccount {
                    post: post@,
                    title_capacity: *title_capacity,
                    body_capacity: *body_capacity,
                }
            },
        }
    }
}

/// One account: a record stored at a derived address with a fixed allocation.
pub struct StoredAccount {
    pub address: [u8; 32],
    /// Total bytes allocated for this account; fixed at creation.
    pub space: usize,
    pub record: StoredRecord,
}

/// Mathematical view of an account.
#[verifier::ext_equal]
pub struct AccountView {
    pub space: usize,
    pub record: RecordView,
}

impl View for StoredAccount {
    type V = AccountView;

    open spec fn view(&self) -> AccountView {
        AccountView { space: self.space, record: self.record@ }
    }
}

/// The ledger's mathematical model: live accounts, keyed by address.
pub type LedgerView = Map<Seq<u8>, AccountView>;

/// The account store as a map from address to account view.
pub open spec fn accounts_map(s: Seq<StoredAccount>) -> LedgerView
    decreases s.len(),
{
    if s.len() == 0 {
        Map::empty()
    } else {
        accounts_map(s.drop_last()).insert(s.last().address@, s.last()@)
    }
}

/// No two live accounts share an address.
pub open spec fn distinct_addresses(s: Seq<StoredAccount>) -> bool {
    forall|i: int, j: int| 0 <= i < j < s.len() ==> s[i].address@ != s[j].address@
}

/// Every account's allocation is consistent with the record it holds: a
/// collection account has the fixed collection size; an entry account has its
/// fixed header plus the two reserved field capacities, and the stored fields
/// fit within them.
pub open spec fn account_wf(a: StoredAccount) -> bool {
    match a.record {
        StoredRecord::BlogAccount { blog } => a.space == BLOG_LEN,
        StoredRecord::PostAccount { post, title_capacity, body_capacity } => {
            &&& a.space == POST_LEN + title_capacity + body_capacity
            &&& post.title@.len() <= title_capacity
            &&& post.body@.len() <= body_capacity
        },
    }
}

/// The address holds a collection record.
pub open spec fn is_blog(m: LedgerView, a: Seq<u8>) -> bool {
    m.contains_key(a) && m[a].record is BlogAccount
}

/// The collection record held at an address.
pub open spec fn blog_view(m: LedgerView, a: Seq<u8>) -> BlogView
    recommends
        is_blog(m, a),
{
    match m[a].record {
        RecordView::BlogAccount { blog } => blog,
        RecordView::PostAccount { .. } => arbitrary(),
    }
}

/// The address holds an entry record.
pub open spec fn is_post(m: LedgerView, a: Seq<u8>) -> bool {
    m.contains_key(a) && m[a].record is PostAccount
}

/// The entry record held at an address.
pub open spec fn post_view(m: LedgerView, a: Seq<u8>) -> PostView
    recommends
        is_post(m, a),
{
    match m[a].record {
        RecordView::PostAccount { post, .. } => post,
        RecordView::BlogAccount { .. } => arbitrary(),
    }
}

/// Bytes reserved for an entry's title at creation.
pub open spec fn post_title_capacity(m: LedgerView, a: Seq<u8>) -> usize
    recommends
        is_post(m, a),
{
    match m[a].record {
        RecordView::PostAccount { title_capacity, .. } => title_capacity,
        RecordView::BlogAccount { .. } => arbitrary(),
    }
}

/// Bytes reserved for an entry's body at creation.
pub open spec fn post_body_capacity(m: LedgerView, a: Seq<u8>) -> usize
    recommends
        is_post(m, a),
{
    match m[a].record {
        RecordView::PostAccount { body_capacity, .. } => body_capacity,
        RecordView::BlogAccount { .. } => arbitrary(),
    }
}

/// The entry counter after a successful creation: up by one, wrapping to zero
/// after 255. The counter is one byte, so addresses alias after 256 creations.
pub open spec fn wrap_inc(c: u8) -> u8 {
    if c == 255 {
        0u8
    } else {
        (c + 1) as u8
    }
}

/// Effect of Initialize(bump): creates the caller's collection, with a zero
/// entry counter, at the address derived from the caller's key. Rejects a
/// declared address or bump that does not re-derive, and an address that is
/// already occupied.
pub open spec fn spec_initialize(
    m: LedgerView,
    program_id: Seq<u8>,
    blog_account: Seq<u8>,
    user: Seq<u8>,
    bump: u8,
) -> (LedgerView, Result<(), InstructionError>) {
    let derived = blog_pda(user, program_id);
    if blog_account != derived.0 || bump != derived.1 {
        (m, Err(InstructionError::AddressMismatch))
    } else if m.contains_key(derived.0) {
        (m, Err(InstructionError::AddressAlreadyInUse))
    } else {
        let blog = BlogView { bump, post_count: 0, authority: user };
        (
            m.insert(
                derived.0,
                AccountView { space: BLOG_LEN, record: RecordView::BlogAccount { blog } },
            ),
            Ok(()),
        )
    }
}

/// Effect of CreateEntry(bump, title, body): requires the signer to be the
/// collection's authority and the entry address (derived from the collection
/// address and its current counter) to be free; stores the entry with the
/// counter captured as its index, reserves twice each field's length, and
/// increments the counter, wrapping at 256.
pub open spec fn spec_create_post(
    m: LedgerView,
    program_id: Seq<u8>,
    blog_account: Seq<u8>,
    post_account: Seq<u8>,
    authority: Seq<u8>,
    bump: u8,
    title: Seq<u8>,
    body: Seq<u8>,
) -> (LedgerView, Result<(), InstructionError>) {
    if !is_blog(m, blog_account) {
        (m, Err(InstructionError::AccountNotFound))
    } else {
        let blog = blog_view(m, blog_account);
        if blog.authority != authority {
            (m, Err(InstructionError::AuthorityMismatch))
        } else {
            let derived = post_pda(blog_account, blog.post_count, program_id);
            if post_account != derived.0 || bump != derived.1 {
                (m, Err(InstructionError::AddressMismatch))
            } else if m.contains_key(derived.0) {
                (m, Err(InstructionError::AddressAlreadyInUse))
            } else {
                let updated = AccountView {
                    space: m[blog_account].space,
                    record: RecordView::BlogAccount {
                        blog: BlogView {
                            bump: blog.bump,
                            post_count: wrap_inc(blog.post_count),
                            authority: blog.authority,
                        },
                    },
                };
                let created = AccountView {
                    space: spec_post_space(title.len(), body.len()) as usize,
                    record: RecordView::PostAccount {
                        post: PostView { authority, title, body, bump, entry: blog.post_count },
                        title_capacity: (2 * title.len()) as usize,
                        body_capacity: (2 * body.len()) as usize,
                    },
                };
                (m.insert(blog_account, updated).insert(derived.0, created), Ok(()))
            }
        }
    }
}

/// Effect of UpdateEntry(title, body): requires the signer to be both the
/// collection's and the entry's authority; overwrites title and body in place
/// when each fits the space reserved for it at creation, and rejects the
/// update with StorageOverflow otherwise.
pub open spec fn spec_update_post(
    m: LedgerView,
    blog_account: Seq<u8>,
    post_account: Seq<u8>,
    authority: Seq<u8>,
    title: Seq<u8>,
    body: Seq<u8>,
) -> (LedgerView, Result<(), InstructionError>) {
    if !is_blog(m, blog_account) {
        (m, Err(InstructionError::AccountNotFound))
    } else if blog_view(m, blog_account).authority != authority {
        (m, Err(InstructionError::AuthorityMismatch))
    } else if !is_post(m, post_account) {
        (m, Err(InstructionError::AccountNotFound))
    } else if post_view(m, post_account).authority != authority {
        (m, Err(InstructionError::AuthorityMismatch))
    } else if title.len() > post_title_capacity(m, post_account) || body.len()
        > post_body_capacity(m, post_account) {
        (m, Err(InstructionError::StorageOverflow))
    } else {
        let old_post = post_view(m, post_account);
        let updated = AccountView {
            space: m[post_account].space,
            record: RecordView::PostAccount {
                post: PostView {
                    authority: old_post.authority,
                    title,
                    body,
                    bump: old_post.bump,
                    entry: old_post.entry,
                },
                title_capacity: post_title_capacity(m, post_account),
                body_capacity: post_body_capacity(m, post_account),
            },
        };
        (m.insert(post_account, updated), Ok(()))
    }
}

/// Effect of DeleteEntry(): requires the signer to be the entry's authority;
/// releases the entry's account. No other record changes: in particular the
/// collection's entry counter is untouched.
pub open spec fn spec_delete_post(m: LedgerView, post_account: Seq<u8>, authority: Seq<u8>) -> (
    LedgerView,
    Result<(), InstructionError>,
) {
    if !is_post(m, post_account) {
        (m, Err(InstructionError::AccountNotFound))
    } else if post_view(m, post_account).authority != authority {
        (m, Err(InstructionError::AuthorityMismatch))
    } else {
        (m.remove(post_account), Ok(()))
    }
}

/// Accounts declared by the Initialize instruction: the collection account to
/// create, and the signing user who will own it.
pub struct Initialize {
    pub blog_account: [u8; 32],
    pub user: [u8; 32],
}

/// Accounts declared by the CreateEntry instruction: the owning collection,
/// the entry account to create, and the signing authority.
pub struct CreatePost {
    pub blog_account: [u8; 32],
    pub post_account: [u8; 32],
    pub authority: [u8; 32],
}

/// Accounts declared by the UpdateEntry instruction.
pub struct UpdatePost {
    pub blog_account: [u8; 32],
    pub post_account: [u8; 32],
    pub authority: [u8; 32],
}

/// Accounts declared by the DeleteEntry instruction.
pub struct DeletePost {
    pub post_account: [u8; 32],
    pub authority: [u8; 32],
}

/// The ledger: all live accounts of one program namespace. The hosting
/// runtime serializes instructions, so each handler holds the whole state for
/// the duration of one call.
pub struct Ledger {
    pub program_id: [u8; 32],
    pub accounts: Vec<StoredAccount>,
}

impl View for Ledger {
    type V = LedgerView;

    open spec fn view(&self) -> LedgerView {
        accounts_map(self.accounts@)
    }
}

proof fn lemma_accounts_map_contains(s: Seq<StoredAccount>, a: Seq<u8>)
    ensures
        accounts_map(s).contains_key(a) <==> exists|i: int|
            0 <= i < s.len() && #[trigger] s[i].address@ == a,
    decreases s.len(),
{
    if s.len() > 0 {
        lemma_accounts_map_contains(s.drop_last(), a);
        if s.last().address@ == a {
            assert(s[s.len() - 1].address@ == a);
        } else {
            if accounts_map(s).contains_key(a) {
                let i = choose|i: int|
                    0 <= i < s.drop_last().len() && #[trigger] s.drop_last()[i].address@ == a;
                assert(s[i].address@ == a);
            }
            if exists|i: int| 0 <= i < s.len() && #[trigger] s[i].address@ == a {
                let i = choose|i: int| 0 <= i < s.len() && #[trigger] s[i].address@ == a;
                assert(s.drop_last()[i].address@ == a);
            }
        }
    }
}

proof fn lemma_accounts_map_value(s: Seq<StoredAccount>, i: int)
    requires
        distinct_addresses(s),
        0 <= i < s.len(),
    ensures
        accounts_map(s).contains_key(s[i].address@),
        accounts_map(s)[s[i].address@] == s[i]@,
    decreases s.len(),
{
    if i < s.len() - 1 {
        lemma_accounts_map_value(s.drop_last(), i);
        assert(s.drop_last()[i] == s[i]);
        assert(s.last().address@ != s[i].address@);
    }
}

proof fn lemma_accounts_map_update(s: Seq<StoredAccount>, i: int, x: StoredAccount)
    requires
        distinct_addresses(s),
        0 <= i < s.len(),
        x.address@ == s[i].address@,
    ensures
        accounts_map(s.update(i, x)) == accounts_map(s).insert(x.address@, x@),
    decreases s.len(),
{
    let t = s.update(i, x);
    if i == s.len() - 1 {
        assert(t.drop_last() =~= s.drop_last());
        assert(t.last() == x);
        assert(accounts_map(t) == accounts_map(s.drop_last()).insert(x.address@, x@));
        assert(accounts_map(s.drop_last()).insert(x.address@, x@) =~= accounts_map(s).insert(
            x.address@,
            x@,
        ));
    } else {
        assert(t.drop_last() =~= s.drop_last().update(i, x));
        assert(t.last() == s.last());
        lemma_accounts_map_update(s.drop_last(), i, x);
        assert(s.last().address@ != x.address@);
        assert(accounts_map(t) == accounts_map(s.drop_last()).insert(x.address@, x@).insert(
            s.last().address@,
            s.last()@,
        ));
        assert(accounts_map(s.drop_last()).insert(x.address@, x@).insert(
            s.last().address@,
            s.last()@,
        ) =~= accounts_map(s).insert(x.address@, x@));
    }
}

proof fn lemma_accounts_map_remove(s: Seq<StoredAccount>, i: int)
    requires
        distinct_addresses(s),
        0 <= i < s.len(),
    ensures
        accounts_map(s.remove(i)) == accounts_map(s).remove(s[i].address@),
    decreases s.len(),
{
    let t = s.remove(i);
    if i == s.len() - 1 {
        assert(t =~= s.drop_last());
        lemma_accounts_map_contains(s.drop_last(), s[i].address@);
        assert(forall|j: int|
            0 <= j < s.drop_last().len() ==> s.drop_last()[j].address@ != s[i].address@);
        assert(!accounts_map(s.drop_last()).contains_key(s[i].address@));
        assert(accounts_map(s.drop_last()) =~= accounts_map(s).remove(s[i].address@));
    } else {
        assert(t.drop_last() =~= s.drop_last().remove(i));
        assert(t.last() == s.last());
        lemma_accounts_map_remove(s.drop_last(), i);
        assert(s.last().address@ != s[i].address@);
        assert(accounts_map(t) == accounts_map(s.drop_last()).remove(s[i].address@).insert(
            s.last().address@,
            s.last()@,
        ));
        assert(accounts_map(s.drop_last()).remove(s[i].address@).insert(
            s.last().address@,
            s.last()@,
        ) =~= accounts_map(s).remove(s[i].address@));
    }
}

impl Ledger {
    /// Internal invariant: addresses are unique and every account's allocation
    /// matches the record it holds.
    pub open spec fn wf(&self) -> bool {
        &&& distinct_addresses(self.accounts@)
        &&& forall|i: int| 0 <= i < self.accounts@.len() ==> account_wf(#[trigger] self.accounts@[i])
    }

    /// An empty ledger for a program namespace.
    pub fn new(program_id: [u8; 32]) -> (l: Ledger)
        ensures
            l.wf(),
            l@ == Map::<Seq<u8>, AccountView>::empty(),
            l.program_id@ == program_id@,
    {
        Ledger { program_id, accounts: Vec::new() }
    }

    /// Index of the live account at an address, if any.
    fn find_account(&self, address: &[u8; 32]) -> (r: Option<usize>)
        requires
            self.wf(),
        ensures
            match r {
                Some(i) => {
                    &&& (i as int) < self.accounts@.len()
                    &&& self.accounts@[i as int].address@ == address@
                    &&& self@.contains_key(address@)
                    &&& self@[address@] == self.accounts@[i as int]@
                },
                None => !self@.contains_key(address@),
            },
    {
        let mut i: usize = 0;
        while i < self.accounts.len()
            invariant
                self.wf(),
                i <= self.accounts@.len(),
                forall|j: int| 0 <= j < i ==> self.accounts@[j].address@ != address@,
            decreases self.accounts@.len() - i,
        {
            if key_eq(&self.accounts[i].address, address) {
                proof {
                    lemma_accounts_map_value(self.accounts@, i as int);
                }
                return Some(i);
            }
            i = i + 1;
        }
        proof {
            lemma_accounts_map_contains(self.accounts@, address@);
        }
        None
    }

    /// Creates the caller's collection record at its derived address.
    pub fn initialize(&mut self, accounts: &Initialize, blog_account_bump: u8) -> (r: Result<
        (),
        InstructionError,
    >)
        requires
            old(self).wf(),
        ensures
            final(self).wf(),
            final(self).program_id@ == old(self).program_id@,
            ({
                let (m1, res) = spec_initialize(
                    old(self)@,
                    old(self).program_id@,
                    accounts.blog_account@,
                    accounts.user@,
                    blog_account_bump,
                );
                final(self)@ == m1 && r == res
            }),
    {
        let (derived_address, derived_bump) = derive_blog_address(
            &accounts.user,
            &self.program_id,
        );
        if !key_eq(&accounts.blog_account, &derived_address) || blog_account_bump != derived_bump {
            return Err(InstructionError::AddressMismatch);
        }
        match self.find_account(&derived_address) {
            Some(_) => {
                return Err(InstructionError::AddressAlreadyInUse);
            },
            None => {},
        }
        proof {
            lemma_accounts_map_contains(self.accounts@, derived_address@);
        }
        let space = blog_space();
        let account = StoredAccount {
            address: derived_address,
            space,
            record: StoredRecord::BlogAccount {
                blog: Blog { bump: blog_account_bump, post_count: 0, authority: accounts.user },
            },
        };
        self.accounts.push(account);
        proof {
            assert(self.accounts@.drop_last() =~= old(self).accounts@);
            assert(self@ == old(self)@.insert(derived_address@, account@));
        }
        Ok(())
    }

    /// Creates an entry under the caller's collection: captures the current
    /// counter as the entry's index, reserves twice each field's length, and
    /// increments the counter, wrapping at 256.
    pub fn create_post(
        &mut self,
        accounts: &CreatePost,
        post_account_bump: u8,
        title: Vec<u8>,
        body: Vec<u8>,
    ) -> (r: Result<(), InstructionError>)
        requires
            old(self).wf(),
            spec_post_space(title@.len(), body@.len()) <= usize::MAX,
        ensures
            final(self).wf(),
            final(self).program_id@ == old(self).program_id@,
            ({
                let (m1, res) = spec_create_post(
                    old(self)@,
                    old(self).program_id@,
                    accounts.blog_account@,
                    accounts.post_account@,
                    accounts.authority@,
                    post_account_bump,
                    title@,
                    body@,
                );
                final(self)@ == m1 && r == res
            }),
    {
        let blog_index = match self.find_account(&accounts.blog_account) {
            Some(i) => i,
            None => {
                return Err(InstructionError::AccountNotFound);
            },
        };
        let (blog_bump, blog_count, blog_authority) = match &self.accounts[blog_index].record {
            StoredRecord::BlogAccount { blog } => (blog.bump, blog.post_count, blog.authority),
            StoredRecord::PostAccount { .. } => {
                return Err(InstructionError::AccountNotFound);
            },
        };
        if !key_eq(&blog_authority, &accounts.authority) {
            return Err(InstructionError::AuthorityMismatch);
        }
        let (derived_address, derived_bump) = derive_post_address(
            &accounts.blog_account,
            blog_count,
            &self.program_id,
        );
        if !key_eq(&accounts.post_account, &derived_address) || post_account_bump != derived_bump {
            return Err(InstructionError::AddressMismatch);
        }
        match self.find_account(&derived_address) {
            Some(_) => {
                return Err(InstructionError::AddressAlreadyInUse);
            },
            None => {},
        }
        proof {
            lemma_accounts_map_contains(self.accounts@, derived_address@);
        }
        let title_capacity = 2 * title.len();
        let body_capacity = 2 * body.len();
        let space = post_space(title.len(), body.len());
        let new_count: u8 = if blog_count == 255 {
            0
        } else {
            blog_count + 1
        };
        let blog_space_val = self.accounts[blog_index].space;
        let updated_blog = StoredAccount {
            address: accounts.blog_account,
            space: blog_space_val,
            record: StoredRecord::BlogAccount {
                blog: Blog { bump: blog_bump, post_count: new_count, authority: blog_authority },
            },
        };
        proof {
            lemma_accounts_map_update(self.accounts@, blog_index as int, updated_blog);
        }
        self.accounts.set(blog_index, updated_blog);
        let created_post = StoredAccount {
            address: derived_address,
            space,
            record: StoredRecord::PostAccount {
                post: Post {
                    authority: accounts.authority,
                    title,
                    body,
                    bump: post_account_bump,
                    entry: blog_count,
                },
                title_capacity,
                body_capacity,
            },
        };
        proof {
            assert(distinct_addresses(self.accounts@)) by {
                assert(forall|k: int|
                    0 <= k < self.accounts@.len() ==> self.accounts@[k].address@ == old(
                        self,
                    ).accounts@[k].address@);
            }
            assert(forall|k: int|
                0 <= k < self.accounts@.len() ==> self.accounts@[k].address@ != derived_address@);
        }
        self.accounts.push(created_post);
        proof {
            assert(self.accounts@.drop_last() =~= old(self).accounts@.update(
                blog_index as int,
                updated_blog,
            ));
            assert(self@ == old(self)@.insert(accounts.blog_account@, updated_blog@).insert(
                derived_address@,
                created_post@,
            ));
        }
        Ok(())
    }

    /// Overwrites an entry's title and body in place, when each fits the
    /// space reserved for it at creation.
    pub fn update_post(&mut self, accounts: &UpdatePost, title: Vec<u8>, body: Vec<u8>) -> (r:
        Result<(), InstructionError>)
        requires
            old(self).wf(),
        ensures
            final(self).wf(),
            final(self).program_id@ == old(self).program_id@,
            ({
                let (m1, res) = spec_update_post(
                    old(self)@,
                    accounts.blog_account@,
                    accounts.post_account@,
                    accounts.authority@,
                    title@,
                    body@,
                );
                final(self)@ == m1 && r == res
            }),
    {
        let blog_index = match self.find_account(&accounts.blog_account) {
            Some(i) => i,
            None => {
                return Err(InstructionError::AccountNotFound);
            },
        };
        let blog_authority = match &self.accounts[blog_index].record {
            StoredRecord::BlogAccount { blog } => blog.authority,
            StoredRecord::PostAccount { .. } => {
                return Err(InstructionError::AccountNotFound);
            },
        };
        if !key_eq(&blog_authority, &accounts.authority) {
            return Err(InstructionError::AuthorityMismatch);
        }
        let post_index = match self.find_account(&accounts.post_account) {
            Some(i) => i,
            None => {
                return Err(InstructionError::AccountNotFound);
            },
        };
        let (post_authority, post_bump, post_entry, title_capacity, body_capacity) = match &self
            .accounts[post_index].record {
            StoredRecord::PostAccount { post, title_capacity, body_capacity } => {
                (post.authority, post.bump, post.entry, *title_capacity, *body_capacity)
            },
            StoredRecord::BlogAccount { .. } => {
                return Err(InstructionError::AccountNotFound);
            },
        };
        if !key_eq(&post_authority, &accounts.authority) {
            return Err(InstructionError::AuthorityMismatch);
        }
        if title.len() > title_capacity || body.len() > body_capacity {
            return Err(InstructionError::StorageOverflow);
        }
        let space = self.accounts[post_index].space;
        let updated_post = StoredAccount {
            address: accounts.post_account,
            space,
            record: StoredRecord::PostAccount {
                post: Post {
                    authority: post_authority,
                    title,
                    body,
                    bump: post_bump,
                    entry: post_entry,
                },
                title_capacity,
                body_capacity,
            },
        };
        proof {
            lemma_accounts_map_update(self.accounts@, post_index as int, updated_post);
        }
        self.accounts.set(post_index, updated_post);
        proof {
            assert(distinct_addresses(self.accounts@)) by {
                assert(forall|k: int|
                    0 <= k < self.accounts@.len() ==> self.accounts@[k].address@ == old(
                        self,
                    ).accounts@[k].address@);
            }
        }
        Ok(())
    }

    /// Releases an entry's account. The owning collection, and in particular
    /// its entry counter, is untouched.
    pub fn delete_post(&mut self, accounts: &DeletePost) -> (r: Result<(), InstructionError>)
        requires
            old(self).wf(),
        ensures
            final(self).wf(),
            final(self).program_id@ == old(self).program_id@,
            ({
                let (m1, res) = spec_delete_post(
                    old(self)@,
                    accounts.post_account@,
                    accounts.authority@,
                );
                final(self)@ == m1 && r == res
            }),
    {
        let post_index = match self.find_account(&accounts.post_account) {
            Some(i) => i,
            None => {
                return Err(InstructionError::AccountNotFound);
            },
        };
        let post_authority = match &self.accounts[post_index].record {
            StoredRecord::PostAccount { post, .. } => post.authority,
            StoredRecord::BlogAccount { .. } => {
                return Err(InstructionError::AccountNotFound);
            },
        };
        if !key_eq(&post_authority, &accounts.authority) {
            return Err(InstructionError::AuthorityMismatch);
        }
        proof {
            lemma_accounts_map_remove(self.accounts@, post_index as int);
        }
        self.accounts.remove(post_index);
        proof {
            assert forall|k: int| 0 <= k < self.accounts@.len() implies account_wf(
                #[trigger] self.accounts@[k],
            ) by {
                if k < post_index as int {
                    assert(self.accounts@[k] == old(self).accounts@[k]);
                } else {
                    assert(self.accounts@[k] == old(self).accounts@[k + 1]);
                }
            }
            assert forall|a: int, b: int|
                0 <= a < b < self.accounts@.len() implies self.accounts@[a].address@
                != self.accounts@[b].address@ by {
                let ia = if a < post_index as int {
                    a
                } else {
                    a + 1
                };
                let ib = if b < post_index as int {
                    b
                } else {
                    b + 1
                };
                assert(self.accounts@[a] == old(self).accounts@[ia]);
                assert(self.accounts@[b] == old(self).accounts@[ib]);
            }
        }
        Ok(())
    }

    /// The collection record at an address, if one is there.
    pub fn get_blog(&self, address: &[u8; 32]) -> (r: Option<&Blog>)
        requires
            self.wf(),
        ensures
            match r {
                Some(blog) => is_blog(self@, address@) && blog@ == blog_view(self@, address@),
                None => !is_blog(self@, address@),
            },
    {
        match self.find_account(address) {
            Some(i) => match &self.accounts[i].record {
                StoredRecord::BlogAccount { blog } => Some(blog),
                StoredRecord::PostAccount { .. } => None,
            },
            None => None,
        }
    }

    /// The entry record at an address, if one is there.
    pub fn get_post(&self, address: &[u8; 32]) -> (r: Option<&Post>)
        requires
            self.wf(),
        ensures
            match r {
                Some(post) => is_post(self@, address@) && post@ == post_view(self@, address@),
                None => !is_post(self@, address@),
            },
    {
        match self.find_account(address) {
            Some(i) => match &self.accounts[i].record {
                StoredRecord::PostAccount { post, .. } => Some(post),
                StoredRecord::BlogAccount { .. } => None,
            },
            None => None,
        }
    }

    /// The title and body capacities reserved for an entry at creation.
    pub fn get_post_capacities(&self, address: &[u8; 32]) -> (r: Option<(usize, usize)>)
        requires
            self.wf(),
        ensures
            match r {
                Some(caps) => {
                    &&& is_post(self@, address@)
                    &&& caps.0 == post_title_capacity(self@, address@)
                    &&& caps.1 == post_body_capacity(self@, address@)
                },
                None => !is_post(self@, address@),
            },
    {
        match self.find_account(address) {
            Some(i) => match &self.accounts[i].record {
                StoredRecord::PostAccount { title_capacity, body_capacity, .. } => {
                    Some((*title_capacity, *body_capacity))
                },
                StoredRecord::BlogAccount { .. } => None,
            },
            None => None,
        }
    }

    /// The total bytes allocated for the account at an address.
    pub fn get_space(&self, address: &[u8; 32]) -> (r: Option<usize>)
        requires
            self.wf(),
        ensures
            match r {
                Some(space) => self@.contains_key(address@) && space == self@[address@].space,
                None => !self@.contains_key(address@),
            },
    {
        match self.find_account(address) {
            Some(i) => Some(self.accounts[i].space),
            None => None,
        }
    }

    /// Number of live accounts.
    pub fn account_count(&self) -> (n: usize)
        ensures
            n == self.accounts@.len(),
    {
        self.accounts.len()
    }
}

} // verus!
