//! The two record kinds and their binary layout. Every record starts with an
//! 8-byte type discriminator, followed by its fields in declared order;
//! variable-length fields are stored as a 4-byte little-endian length prefix
//! followed by the raw bytes. The layout is a pure description: it performs no
//! validation beyond recognising its own discriminator and length prefixes.

use vstd::bytes::{spec_u32_from_le_bytes, spec_u32_to_le_bytes, u32_from_le_bytes, u32_to_le_bytes};
use vstd::prelude::*;
use vstd::slice::{slice_subrange, slice_to_vec};

verus! {

/// A collection record: one per owning authority.
pub struct Blog {
    /// Verification byte of this record's derived address.
    pub bump: u8,
    /// Counter of entries created under this collection; never decremented.
    pub post_count: u8,
    /// Public-key identifier of the owning principal.
    pub authority: [u8; 32],
}

/// Mathematical view of a collection record.
pub struct BlogView {
    pub bump: u8,
    pub post_count: u8,
    pub authority: Seq<u8>,
}

impl View for Blog {
    type V = BlogView;

    open spec fn view(&self) -> BlogView {
        BlogView { bump: self.bump, post_count: self.post_count, authority: self.authority@ }
    }
}

/// An entry record: one per post, owned by a collection.
pub struct Post {
    /// Public-key identifier of the authority that created the entry.
    pub authority: [u8; 32],
    /// Title bytes.
    pub title: Vec<u8>,
    /// Body bytes.
    pub body: Vec<u8>,
    /// Verification byte of this record's derived address.
    pub bump: u8,
    /// The owning collection's entry counter captured at creation.
    pub entry: u8,
}

/// Mathematical view of an entry record.
pub struct PostView {
    pub authority: Seq<u8>,
    pub title: Seq<u8>,
    pub body: Seq<u8>,
    pub bump: u8,
    pub entry: u8,
}

impl View for Post {
    type V = PostView;

    open spec fn view(&self) -> PostView {
        PostView {
            authority: self.authority@,
            title: self.title@,
            body: self.body@,
            bump: self.bump,
            entry: self.entry,
        }
    }
}

/// Type discriminator of collection records: the bytes of "blogacct".
pub open spec fn blog_discriminator() -> Seq<u8> {
    seq![98u8, 108u8, 111u8, 103u8, 97u8, 99u8, 99u8, 116u8]
}

/// Type discriminator of entry records: the bytes of "postacct".
pub open spec fn post_discriminator() -> Seq<u8> {
    seq![112u8, 111u8, 115u8, 116u8, 97u8, 99u8, 99u8, 116u8]
}

/// Encoded form of a collection record: discriminator, bump, counter,
/// authority key. Always 42 bytes.
pub open spec fn spec_encode_blog(b: BlogView) -> Seq<u8> {
    blog_discriminator() + seq![b.bump, b.post_count] + b.authority
}

/// Encoded form of an entry record: discriminator, authority key, then title
/// and body each as a 4-byte little-endian length prefix plus raw bytes, then
/// bump and entry index.
pub open spec fn spec_encode_post(p: PostView) -> Seq<u8> {
    post_discriminator() + p.authority + spec_u32_to_le_bytes(p.title.len() as u32) + p.title
        + spec_u32_to_le_bytes(p.body.len() as u32) + p.body + seq![p.bump, p.entry]
}

/// The collection record whose encoding a byte string begins with, if any:
/// the first 42 bytes must be present and start with the collection
/// discriminator; trailing bytes are allocation padding and are ignored.
pub open spec fn spec_decode_blog(data: Seq<u8>) -> Option<BlogView> {
    if data.len() >= 42 && data.subrange(0, 8) == blog_discriminator() {
        Some(
            BlogView { bump: data[8], post_count: data[9], authority: data.subrange(10, 42) },
        )
    } else {
        None
    }
}

/// The entry record whose encoding a byte string begins with, if any; trailing
/// bytes are allocation padding and are ignored.
pub open spec fn spec_decode_post(data: Seq<u8>) -> Option<PostView> {
    if data.len() >= 44 && data.subrange(0, 8) == post_discriminator() {
        let title_len = vstd::bytes::spec_u32_from_le_bytes(data.subrange(40, 44)) as int;
        if data.len() >= 48 + title_len {
            let body_len = vstd::bytes::spec_u32_from_le_bytes(
                data.subrange(44 + title_len, 48 + title_len),
            ) as int;
            if data.len() >= 50 + title_len + body_len {
                Some(
                    PostView {
                        authority: data.subrange(8, 40),
                        title: data.subrange(44, 44 + title_len),
                        body: data.subrange(48 + title_len, 48 + title_len + body_len),
                        bump: data[48 + title_len + body_len],
                        entry: data[49 + title_len + body_len],
                    },
                )
            } else {
                None
            }
        } else {
            None
        }
    } else {
        None
    }
}

fn push_bytes(out: &mut Vec<u8>, bytes: &[u8])
    ensures
        final(out)@ == old(out)@ + bytes@,
{
    let mut i: usize = 0;
    while i < bytes.len()
        invariant
            i <= bytes@.len(),
            out@ == old(out)@ + bytes@.take(i as int),
        decreases bytes@.len() - i,
    {
        out.push(bytes[i]);
        proof {
            assert(old(out)@ + bytes@.take(i + 1) =~= (old(out)@ + bytes@.take(i as int)).push(
                bytes@[i as int],
            ));
        }
        i = i + 1;
    }
    proof {
        assert(bytes@.take(bytes@.len() as int) =~= bytes@);
    }
}

fn push_blog_discriminator(out: &mut Vec<u8>)
    ensures
        final(out)@ == old(out)@ + blog_discriminator(),
{
    out.push(98);
    out.push(108);
    out.push(111);
    out.push(103);
    out.push(97);
    out.push(99);
    out.push(99);
    out.push(116);
    proof {
        assert(out@ =~= old(out)@ + blog_discriminator());
    }
}

fn push_post_discriminator(out: &mut Vec<u8>)
    ensures
        final(out)@ == old(out)@ + post_discriminator(),
{
    out.push(112);
    out.push(111);
    out.push(115);
    out.push(116);
    out.push(97);
    out.push(99);
    out.push(99);
    out.push(116);
    proof {
        assert(out@ =~= old(out)@ + post_discriminator());
    }
}

/// Encodes a collection record into its 42-byte form.
pub fn encode_blog(b: &Blog) -> (out: Vec<u8>)
    ensures
        out@ == spec_encode_blog(b@),
        out@.len() == crate::capacity::BLOG_LEN,
{
    let mut out: Vec<u8> = Vec::new();
    push_blog_discriminator(&mut out);
    out.push(b.bump);
    out.push(b.post_count);
    push_bytes(&mut out, vstd::array::array_as_slice(&b.authority));
    proof {
        assert(out@ =~= spec_encode_blog(b@));
    }
    out
}

/// Encodes an entry record: each variable-length field is stored as a 4-byte
/// little-endian length prefix followed by its raw bytes.
pub fn encode_post(p: &Post) -> (out: Vec<u8>)
    requires
        p.title@.len() < 0x1_0000_0000,
        p.body@.len() < 0x1_0000_0000,
        50 + p.title@.len() + p.body@.len() <= usize::MAX,
    ensures
        out@ == spec_encode_post(p@),
        out@.len() == 50 + p.title@.len() + p.body@.len(),
{
    let mut out: Vec<u8> = Vec::new();
    push_post_discriminator(&mut out);
    push_bytes(&mut out, vstd::array::array_as_slice(&p.authority));
    let title_len_bytes = u32_to_le_bytes(p.title.len() as u32);
    push_bytes(&mut out, title_len_bytes.as_slice());
    push_bytes(&mut out, p.title.as_slice());
    let body_len_bytes = u32_to_le_bytes(p.body.len() as u32);
    push_bytes(&mut out, body_len_bytes.as_slice());
    push_bytes(&mut out, p.body.as_slice());
    out.push(p.bump);
    out.push(p.entry);
    proof {
        vstd::bytes::lemma_auto_spec_u32_to_from_le_bytes();
        assert(out@ =~= spec_encode_post(p@));
    }
    out
}

fn copy_32(data: &[u8], start: usize) -> (out: [u8; 32])
    requires
        start + 32 <= data@.len(),
    ensures
        out@ == data@.subrange(start as int, start + 32),
{
    let n = data.len();
    let mut out: [u8; 32] = [0u8; 32];
    let mut i: usize = 0;
    while i < 32
        invariant
            i <= 32,
            n == data@.len(),
            start + 32 <= data@.len(),
            forall|j: int| 0 <= j < i ==> out@[j] == data@[start + j],
        decreases 32 - i,
    {
        out[i] = data[start + i];
        i = i + 1;
    }
    proof {
        assert(out@ =~= data@.subrange(start as int, start + 32));
    }
    out
}

/// Decodes the collection record that an account's data begins with, if any;
/// trailing allocation padding is ignored.
pub fn decode_blog(data: &[u8]) -> (r: Option<Blog>)
    ensures
        match r {
            Some(b) => spec_decode_blog(data@) == Some(b@),
            None => spec_decode_blog(data@) is None,
        },
{
    if data.len() < 42 {
        return None;
    }
    proof {
        assert(forall|k: int| 0 <= k < 8 ==> data@.subrange(0, 8)[k] == data@[k]);
    }
    let disc_ok = data[0] == 98 && data[1] == 108 && data[2] == 111 && data[3] == 103 && data[4]
        == 97 && data[5] == 99 && data[6] == 99 && data[7] == 116;
    if !disc_ok {
        return None;
    }
    proof {
        assert(data@.subrange(0, 8) =~= blog_discriminator());
    }
    let bump = data[8];
    let post_count = data[9];
    let authority = copy_32(data, 10);
    Some(Blog { bump, post_count, authority })
}

/// Decodes the entry record that an account's data begins with, if any;
/// trailing allocation padding is ignored.
pub fn decode_post(data: &[u8]) -> (r: Option<Post>)
    ensures
        match r {
            Some(p) => spec_decode_post(data@) == Some(p@),
            None => spec_decode_post(data@) is None,
        },
{
    if data.len() < 44 {
        return None;
    }
    proof {
        assert(forall|k: int| 0 <= k < 8 ==> data@.subrange(0, 8)[k] == data@[k]);
    }
    let disc_ok = data[0] == 112 && data[1] == 111 && data[2] == 115 && data[3] == 116 && data[4]
        == 97 && data[5] == 99 && data[6] == 99 && data[7] == 116;
    if !disc_ok {
        return None;
    }
    proof {
        assert(data@.subrange(0, 8) =~= post_discriminator());
    }
    let authority = copy_32(data, 8);
    let title_len = u32_from_le_bytes(slice_subrange(data, 40, 44)) as usize;
    if data.len() < 48 || data.len() - 48 < title_len {
        return None;
    }
    let title = slice_to_vec(slice_subrange(data, 44, 44 + title_len));
    let body_len = u32_from_le_bytes(slice_subrange(data, 44 + title_len, 48 + title_len))
        as usize;
    let rest = data.len() - 48 - title_len;
    if rest < 2 || rest - 2 < body_len {
        return None;
    }
    let body = slice_to_vec(slice_subrange(data, 48 + title_len, 48 + title_len + body_len));
    let bump = data[48 + title_len + body_len];
    let entry = data[49 + title_len + body_len];
    Some(Post { authority, title, body, bump, entry })
}

/// Decoding an encoded collection record, possibly followed by allocation
/// padding, gives back exactly the record.
pub proof fn lemma_blog_round_trip(b: BlogView, pad: Seq<u8>)
    requires
        b.authority.len() == 32,
    ensures
        spec_decode_blog(spec_encode_blog(b) + pad) == Some(b),
{
    let e = spec_encode_blog(b) + pad;
    assert(e.len() == 42 + pad.len());
    assert(e.subrange(0, 8) =~= blog_discriminator());
    assert(e[8] == b.bump);
    assert(e[9] == b.post_count);
    assert(e.subrange(10, 42) =~= b.authority);
}

/// Decoding an encoded entry record, possibly followed by allocation padding,
/// gives back exactly the record.
pub proof fn lemma_post_round_trip(p: PostView, pad: Seq<u8>)
    requires
        p.authority.len() == 32,
        p.title.len() < 0x1_0000_0000,
        p.body.len() < 0x1_0000_0000,
    ensures
        spec_decode_post(spec_encode_post(p) + pad) == Some(p),
{
    vstd::bytes::lemma_auto_spec_u32_to_from_le_bytes();
    let e = spec_encode_post(p) + pad;
    let tl = p.title.len() as int;
    let bl = p.body.len() as int;
    assert(spec_u32_to_le_bytes(p.title.len() as u32).len() == 4);
    assert(spec_u32_to_le_bytes(p.body.len() as u32).len() == 4);
    assert(e.len() == 50 + tl + bl + pad.len());
    assert(e.subrange(0, 8) =~= post_discriminator());
    assert(e.subrange(8, 40) =~= p.authority);
    assert(e.subrange(40, 44) =~= spec_u32_to_le_bytes(p.title.len() as u32));
    assert(spec_u32_from_le_bytes(e.subrange(40, 44)) == p.title.len() as u32);
    assert(e.subrange(44, 44 + tl) =~= p.title);
    assert(e.subrange(44 + tl, 48 + tl) =~= spec_u32_to_le_bytes(p.body.len() as u32));
    assert(spec_u32_from_le_bytes(e.subrange(44 + tl, 48 + tl)) == p.body.len() as u32);
    assert(e.subrange(48 + tl, 48 + tl + bl) =~= p.body);
    assert(e[48 + tl + bl] == p.bump);
    assert(e[49 + tl + bl] == p.entry);
}

} // verus!
