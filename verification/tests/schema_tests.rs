use blog_dapp::addresses::{derive_blog_address, derive_post_address};
use blog_dapp::capacity::{blog_space, plan, post_space};
use blog_dapp::records::{decode_blog, decode_post, encode_blog, encode_post, Blog, Post};

const PROGRAM_ID: [u8; 32] = [7u8; 32];

#[test]
fn plan_doubles_each_variable_field() {
    assert_eq!(plan(10, &vec![]), 10);
    assert_eq!(plan(10, &vec![3]), 16);
    assert_eq!(plan(50, &vec![2, 5]), 64);
}

#[test]
fn collection_space_is_fixed() {
    assert_eq!(blog_space(), 42);
}

#[test]
fn entry_space_formula_is_exact() {
    assert_eq!(post_space(0, 0), 50);
    assert_eq!(post_space(2, 5), 50 + 4 + 10);
    assert_eq!(post_space(100, 1000), 50 + 200 + 2000);
}

#[test]
fn derivation_is_deterministic() {
    let user = [2u8; 32];
    let a = derive_blog_address(&user, &PROGRAM_ID);
    let b = derive_blog_address(&user, &PROGRAM_ID);
    assert_eq!(a, b);
    let (blog_addr, _) = a;
    let p0 = derive_post_address(&blog_addr, 0, &PROGRAM_ID);
    let p0_again = derive_post_address(&blog_addr, 0, &PROGRAM_ID);
    assert_eq!(p0, p0_again);
}

#[test]
fn derivation_depends_on_every_seed() {
    let user = [2u8; 32];
    let (blog_addr, _) = derive_blog_address(&user, &PROGRAM_ID);
    // the derived address is not any of its inputs handed back
    assert_ne!(blog_addr, user);
    assert_ne!(blog_addr, PROGRAM_ID);
    // a different authority, counter or namespace moves the address
    let (other_blog, _) = derive_blog_address(&[3u8; 32], &PROGRAM_ID);
    assert_ne!(blog_addr, other_blog);
    let (p0, _) = derive_post_address(&blog_addr, 0, &PROGRAM_ID);
    let (p1, _) = derive_post_address(&blog_addr, 1, &PROGRAM_ID);
    assert_ne!(p0, p1);
    assert_ne!(p0, blog_addr);
    let (elsewhere, _) = derive_blog_address(&user, &[8u8; 32]);
    assert_ne!(blog_addr, elsewhere);
}

#[test]
fn blog_record_round_trips() {
    let blog = Blog {
        bump: 254,
        post_count: 3,
        authority: [5u8; 32],
    };
    let mut bytes = encode_blog(&blog);
    assert_eq!(bytes.len(), 42);
    assert_eq!(&bytes[0..8], b"blogacct");
    let decoded = decode_blog(&bytes).unwrap();
    assert_eq!(decoded.bump, 254);
    assert_eq!(decoded.post_count, 3);
    assert_eq!(decoded.authority, [5u8; 32]);
    // allocation padding after the record is ignored
    bytes.extend_from_slice(&[0u8; 16]);
    let padded = decode_blog(&bytes).unwrap();
    assert_eq!(padded.post_count, 3);
}

#[test]
fn blog_decoder_rejects_foreign_bytes() {
    assert!(decode_blog(&[0u8; 41]).is_none());
    assert!(decode_blog(&[0u8; 42]).is_none());
    let post = Post {
        authority: [5u8; 32],
        title: b"Hi".to_vec(),
        body: b"World".to_vec(),
        bump: 1,
        entry: 0,
    };
    assert!(decode_blog(&encode_post(&post)).is_none());
}

#[test]
fn post_record_round_trips() {
    let post = Post {
        authority: [5u8; 32],
        title: b"Hi".to_vec(),
        body: b"World".to_vec(),
        bump: 253,
        entry: 7,
    };
    let mut bytes = encode_post(&post);
    assert_eq!(bytes.len(), 50 + 2 + 5);
    assert_eq!(&bytes[0..8], b"postacct");
    let decoded = decode_post(&bytes).unwrap();
    assert_eq!(decoded.authority, [5u8; 32]);
    assert_eq!(decoded.title, b"Hi".to_vec());
    assert_eq!(decoded.body, b"World".to_vec());
    assert_eq!(decoded.bump, 253);
    assert_eq!(decoded.entry, 7);
    // allocation padding after the record is ignored
    bytes.extend_from_slice(&[0u8; 7]);
    let padded = decode_post(&bytes).unwrap();
    assert_eq!(padded.title, b"Hi".to_vec());
}

#[test]
fn post_decoder_rejects_truncated_bytes() {
    let post = Post {
        authority: [5u8; 32],
        title: b"Hi".to_vec(),
        body: b"World".to_vec(),
        bump: 253,
        entry: 7,
    };
    let bytes = encode_post(&post);
    assert!(decode_post(&bytes[..bytes.len() - 1]).is_none());
    assert!(decode_post(&bytes[..44]).is_none());
    assert!(decode_post(&[0u8; 60]).is_none());
}
