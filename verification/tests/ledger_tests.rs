use blog_dapp::addresses::{derive_blog_address, derive_post_address};
use blog_dapp::ledger::{CreatePost, DeletePost, Initialize, InstructionError, Ledger, UpdatePost};

const PROGRAM_ID: [u8; 32] = [7u8; 32];
const USER: [u8; 32] = [2u8; 32];
const STRANGER: [u8; 32] = [9u8; 32];

fn setup_blog(user: [u8; 32]) -> (Ledger, [u8; 32], u8) {
    let mut ledger = Ledger::new(PROGRAM_ID);
    let (blog_addr, bump) = derive_blog_address(&user, &PROGRAM_ID);
    let r = ledger.initialize(
        &Initialize {
            blog_account: blog_addr,
            user,
        },
        bump,
    );
    assert_eq!(r, Ok(()));
    (ledger, blog_addr, bump)
}

fn create(
    ledger: &mut Ledger,
    blog_addr: [u8; 32],
    authority: [u8; 32],
    title: &[u8],
    body: &[u8],
) -> Result<[u8; 32], InstructionError> {
    let count = ledger.get_blog(&blog_addr).unwrap().post_count;
    let (post_addr, bump) = derive_post_address(&blog_addr, count, &PROGRAM_ID);
    ledger
        .create_post(
            &CreatePost {
                blog_account: blog_addr,
                post_account: post_addr,
                authority,
            },
            bump,
            title.to_vec(),
            body.to_vec(),
        )
        .map(|_| post_addr)
}

#[test]
fn initialize_creates_collection() {
    let (ledger, blog_addr, bump) = setup_blog(USER);
    let blog = ledger.get_blog(&blog_addr).unwrap();
    assert_eq!(blog.post_count, 0);
    assert_eq!(blog.authority, USER);
    assert_eq!(blog.bump, bump);
    assert_eq!(ledger.account_count(), 1);
    assert_eq!(ledger.get_space(&blog_addr), Some(42));
}

#[test]
fn initialize_succeeds_exactly_once() {
    let (mut ledger, blog_addr, bump) = setup_blog(USER);
    let r = ledger.initialize(
        &Initialize {
            blog_account: blog_addr,
            user: USER,
        },
        bump,
    );
    assert_eq!(r, Err(InstructionError::AddressAlreadyInUse));
    let blog = ledger.get_blog(&blog_addr).unwrap();
    assert_eq!(blog.post_count, 0);
    assert_eq!(blog.authority, USER);
    assert_eq!(ledger.account_count(), 1);
}

#[test]
fn initialize_rejects_wrong_bump() {
    let mut ledger = Ledger::new(PROGRAM_ID);
    let (blog_addr, bump) = derive_blog_address(&USER, &PROGRAM_ID);
    let r = ledger.initialize(
        &Initialize {
            blog_account: blog_addr,
            user: USER,
        },
        bump.wrapping_add(1),
    );
    assert_eq!(r, Err(InstructionError::AddressMismatch));
    assert_eq!(ledger.account_count(), 0);
}

#[test]
fn initialize_rejects_undeclared_address() {
    let mut ledger = Ledger::new(PROGRAM_ID);
    let (_, bump) = derive_blog_address(&USER, &PROGRAM_ID);
    let r = ledger.initialize(
        &Initialize {
            blog_account: USER,
            user: USER,
        },
        bump,
    );
    assert_eq!(r, Err(InstructionError::AddressMismatch));
}

#[test]
fn create_post_numbers_entries_in_order() {
    let (mut ledger, blog_addr, _) = setup_blog(USER);
    let first = create(&mut ledger, blog_addr, USER, b"one", b"first body").unwrap();
    assert_eq!(ledger.get_post(&first).unwrap().entry, 0);
    assert_eq!(ledger.get_blog(&blog_addr).unwrap().post_count, 1);
    let second = create(&mut ledger, blog_addr, USER, b"two", b"second body").unwrap();
    assert_eq!(ledger.get_post(&second).unwrap().entry, 1);
    assert_eq!(ledger.get_blog(&blog_addr).unwrap().post_count, 2);
    assert_ne!(first, second);
    let post = ledger.get_post(&second).unwrap();
    assert_eq!(post.title, b"two".to_vec());
    assert_eq!(post.body, b"second body".to_vec());
    assert_eq!(post.authority, USER);
}

#[test]
fn create_post_allocates_exact_space() {
    let (mut ledger, blog_addr, _) = setup_blog(USER);
    let post_addr = create(&mut ledger, blog_addr, USER, b"Hi", b"World").unwrap();
    // fixed header 50, plus twice each field length
    assert_eq!(ledger.get_space(&post_addr), Some(50 + 2 * 2 + 2 * 5));
    assert_eq!(ledger.get_post_capacities(&post_addr), Some((4, 10)));
}

#[test]
fn create_post_rejects_non_authority() {
    let (mut ledger, blog_addr, _) = setup_blog(USER);
    let r = create(&mut ledger, blog_addr, STRANGER, b"t", b"b");
    assert_eq!(r, Err(InstructionError::AuthorityMismatch));
    assert_eq!(ledger.account_count(), 1);
}

#[test]
fn create_post_rejects_undeclared_address() {
    let (mut ledger, blog_addr, _) = setup_blog(USER);
    let (_, bump) = derive_post_address(&blog_addr, 0, &PROGRAM_ID);
    let r = ledger.create_post(
        &CreatePost {
            blog_account: blog_addr,
            post_account: STRANGER,
            authority: USER,
        },
        bump,
        b"t".to_vec(),
        b"b".to_vec(),
    );
    assert_eq!(r, Err(InstructionError::AddressMismatch));
}

#[test]
fn create_post_requires_collection() {
    let mut ledger = Ledger::new(PROGRAM_ID);
    let (blog_addr, _) = derive_blog_address(&USER, &PROGRAM_ID);
    let (post_addr, bump) = derive_post_address(&blog_addr, 0, &PROGRAM_ID);
    let r = ledger.create_post(
        &CreatePost {
            blog_account: blog_addr,
            post_account: post_addr,
            authority: USER,
        },
        bump,
        b"t".to_vec(),
        b"b".to_vec(),
    );
    assert_eq!(r, Err(InstructionError::AccountNotFound));
}

#[test]
fn update_post_within_reserved_space() {
    let (mut ledger, blog_addr, _) = setup_blog(USER);
    let post_addr = create(&mut ledger, blog_addr, USER, b"Hi", b"World").unwrap();
    // both fields grow to exactly twice their creation-time length
    let r = ledger.update_post(
        &UpdatePost {
            blog_account: blog_addr,
            post_account: post_addr,
            authority: USER,
        },
        b"Hi!!".to_vec(),
        b"WorldWorld".to_vec(),
    );
    assert_eq!(r, Ok(()));
    let post = ledger.get_post(&post_addr).unwrap();
    assert_eq!(post.title, b"Hi!!".to_vec());
    assert_eq!(post.body, b"WorldWorld".to_vec());
    assert_eq!(post.entry, 0);
    // the allocation and the reserved capacities do not move on update
    assert_eq!(ledger.get_space(&post_addr), Some(64));
    assert_eq!(ledger.get_post_capacities(&post_addr), Some((4, 10)));
}

#[test]
fn update_post_rejects_field_over_reserve() {
    let (mut ledger, blog_addr, _) = setup_blog(USER);
    let post_addr = create(&mut ledger, blog_addr, USER, b"Hi", b"World").unwrap();
    // len("Hi!!!!") = 6 exceeds the 4 bytes reserved for a 2-byte title
    let r = ledger.update_post(
        &UpdatePost {
            blog_account: blog_addr,
            post_account: post_addr,
            authority: USER,
        },
        b"Hi!!!!".to_vec(),
        b"World".to_vec(),
    );
    assert_eq!(r, Err(InstructionError::StorageOverflow));
    let post = ledger.get_post(&post_addr).unwrap();
    assert_eq!(post.title, b"Hi".to_vec());
    assert_eq!(post.body, b"World".to_vec());
}

#[test]
fn update_post_rejects_non_authority() {
    let (mut ledger, blog_addr, _) = setup_blog(USER);
    let post_addr = create(&mut ledger, blog_addr, USER, b"Hi", b"World").unwrap();
    let r = ledger.update_post(
        &UpdatePost {
            blog_account: blog_addr,
            post_account: post_addr,
            authority: STRANGER,
        },
        b"X".to_vec(),
        b"Y".to_vec(),
    );
    assert_eq!(r, Err(InstructionError::AuthorityMismatch));
    let post = ledger.get_post(&post_addr).unwrap();
    assert_eq!(post.title, b"Hi".to_vec());
    assert_eq!(post.body, b"World".to_vec());
}

#[test]
fn update_post_requires_entry() {
    let (mut ledger, blog_addr, _) = setup_blog(USER);
    let (post_addr, _) = derive_post_address(&blog_addr, 0, &PROGRAM_ID);
    let r = ledger.update_post(
        &UpdatePost {
            blog_account: blog_addr,
            post_account: post_addr,
            authority: USER,
        },
        b"X".to_vec(),
        b"Y".to_vec(),
    );
    assert_eq!(r, Err(InstructionError::AccountNotFound));
}

#[test]
fn delete_post_releases_storage_and_keeps_counter() {
    let (mut ledger, blog_addr, _) = setup_blog(USER);
    let post_addr = create(&mut ledger, blog_addr, USER, b"Hi", b"World").unwrap();
    assert_eq!(ledger.account_count(), 2);
    let r = ledger.delete_post(&DeletePost {
        post_account: post_addr,
        authority: USER,
    });
    assert_eq!(r, Ok(()));
    assert!(ledger.get_post(&post_addr).is_none());
    assert_eq!(ledger.account_count(), 1);
    // the counter does not move on deletion
    assert_eq!(ledger.get_blog(&blog_addr).unwrap().post_count, 1);
    // a subsequent creation at the next, non-colliding index succeeds
    let next = create(&mut ledger, blog_addr, USER, b"again", b"more").unwrap();
    assert_ne!(next, post_addr);
    assert_eq!(ledger.get_post(&next).unwrap().entry, 1);
}

#[test]
fn delete_post_rejects_non_authority() {
    let (mut ledger, blog_addr, _) = setup_blog(USER);
    let post_addr = create(&mut ledger, blog_addr, USER, b"Hi", b"World").unwrap();
    let r = ledger.delete_post(&DeletePost {
        post_account: post_addr,
        authority: STRANGER,
    });
    assert_eq!(r, Err(InstructionError::AuthorityMismatch));
    assert!(ledger.get_post(&post_addr).is_some());
}

#[test]
fn delete_post_requires_entry() {
    let (mut ledger, blog_addr, _) = setup_blog(USER);
    let (post_addr, _) = derive_post_address(&blog_addr, 0, &PROGRAM_ID);
    let r = ledger.delete_post(&DeletePost {
        post_account: post_addr,
        authority: USER,
    });
    assert_eq!(r, Err(InstructionError::AccountNotFound));
    // an address holding a collection is no entry either
    let r = ledger.delete_post(&DeletePost {
        post_account: blog_addr,
        authority: USER,
    });
    assert_eq!(r, Err(InstructionError::AccountNotFound));
}

#[test]
fn empty_fields_reserve_no_headroom() {
    let (mut ledger, blog_addr, _) = setup_blog(USER);
    let post_addr = create(&mut ledger, blog_addr, USER, b"", b"").unwrap();
    assert_eq!(ledger.get_space(&post_addr), Some(50));
    assert_eq!(ledger.get_post_capacities(&post_addr), Some((0, 0)));
    // an empty field can only be rewritten as empty
    let r = ledger.update_post(
        &UpdatePost {
            blog_account: blog_addr,
            post_account: post_addr,
            authority: USER,
        },
        b"x".to_vec(),
        b"".to_vec(),
    );
    assert_eq!(r, Err(InstructionError::StorageOverflow));
    let r = ledger.update_post(
        &UpdatePost {
            blog_account: blog_addr,
            post_account: post_addr,
            authority: USER,
        },
        b"".to_vec(),
        b"".to_vec(),
    );
    assert_eq!(r, Ok(()));
}

#[test]
fn counter_wraps_after_256_creations() {
    let (mut ledger, blog_addr, _) = setup_blog(USER);
    let first = create(&mut ledger, blog_addr, USER, b"t", b"b").unwrap();
    for _ in 1..256 {
        create(&mut ledger, blog_addr, USER, b"t", b"b").unwrap();
    }
    assert_eq!(ledger.get_blog(&blog_addr).unwrap().post_count, 0);
    // the 257th creation re-derives the first entry's address and collides
    let r = create(&mut ledger, blog_addr, USER, b"t", b"b");
    assert_eq!(r, Err(InstructionError::AddressAlreadyInUse));
    // once the first entry is deleted, the freed slot is silently reused
    ledger
        .delete_post(&DeletePost {
            post_account: first,
            authority: USER,
        })
        .unwrap();
    let reused = create(&mut ledger, blog_addr, USER, b"t", b"b").unwrap();
    assert_eq!(reused, first);
    assert_eq!(ledger.get_post(&reused).unwrap().entry, 0);
}

#[test]
fn scenario_initialize_create_update() {
    let mut ledger = Ledger::new(PROGRAM_ID);
    let (blog_addr, b0) = derive_blog_address(&USER, &PROGRAM_ID);
    ledger
        .initialize(
            &Initialize {
                blog_account: blog_addr,
                user: USER,
            },
            b0,
        )
        .unwrap();
    assert_eq!(ledger.get_blog(&blog_addr).unwrap().post_count, 0);
    let post_addr = create(&mut ledger, blog_addr, USER, b"Hi", b"World").unwrap();
    let post = ledger.get_post(&post_addr).unwrap();
    assert_eq!(post.entry, 0);
    assert_eq!(post.title, b"Hi".to_vec());
    assert_eq!(post.body, b"World".to_vec());
    assert_eq!(ledger.get_blog(&blog_addr).unwrap().post_count, 1);
    assert_eq!(ledger.get_space(&post_addr), Some(50 + 4 + 10));
    let r = ledger.update_post(
        &UpdatePost {
            blog_account: blog_addr,
            post_account: post_addr,
            authority: USER,
        },
        b"Hi!!!!".to_vec(),
        b"World".to_vec(),
    );
    assert_eq!(r, Err(InstructionError::StorageOverflow));
}
