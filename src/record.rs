//! The record kept for each wish, and its byte layout in storage: an eight-byte
//! type tag, the title as a four-byte little-endian length followed by its
//! UTF-8 bytes, the timestamp as eight little-endian bytes, then the author.
use crate::address::Address;
use crate::runtime::{sha256, sha256_of, string_from_utf8};
use vstd::bytes::{
    lemma_auto_spec_u32_to_from_le_bytes, lemma_auto_spec_u64_to_from_le_bytes,
    spec_u32_from_le_bytes, spec_u32_to_le_bytes, spec_u64_from_le_bytes, spec_u64_to_le_bytes,
    u32_from_le_bytes, u32_to_le_bytes, u64_from_le_bytes, u64_to_le_bytes,
};
use vstd::prelude::*;
use vstd::slice::{slice_subrange, slice_to_vec};
use vstd::string::StringSliceAdditionalSpecFns;
use vstd::utf8::{decode_utf8, encode_utf8, valid_utf8};

verus! {

/// Bytes taken by the type tag at the start of a record.
pub const TAG_LEN: usize = 8;

/// Bytes taken by the length that precedes the title.
pub const TITLE_LEN_PREFIX: usize = 4;

/// Bytes taken by the timestamp.
pub const TIMESTAMP_LEN: usize = 8;

/// Bytes taken by the author's identity.
pub const AUTHOR_LEN: usize = 32;

/// A stored wish: its title, when it was created, and who created it.
#[derive(Debug)]
pub struct AWish {
    pub title: String,
    pub timestamp: i64,
    pub author: Address,
}

/// What a stored wish holds, as the contracts speak of it.
pub struct WishView {
    pub title: Seq<char>,
    pub timestamp: i64,
    pub author: Seq<u8>,
}

impl View for AWish {
    type V = WishView;

    open spec fn view(&self) -> WishView {
        WishView { title: self.title@, timestamp: self.timestamp, author: self.author@ }
    }
}

/// The name from which the type tag of a wish record is hashed.
pub open spec fn wish_tag_name() -> Seq<u8> {
    "account:AWish".spec_bytes()
}

/// The type tag of a wish record: the first eight bytes of the SHA-256 digest
/// of its name.
pub open spec fn wish_discriminator() -> Seq<u8> {
    sha256_of(wish_tag_name())@.subrange(0, TAG_LEN as int)
}

/// The number of bytes that a record with a title of `title_len` bytes takes.
pub open spec fn wish_space(title_len: int) -> int {
    TAG_LEN + TITLE_LEN_PREFIX + title_len + TIMESTAMP_LEN + AUTHOR_LEN
}

/// The number of bytes to allocate for a wish titled `title`.
pub fn space_for(title: &str) -> (r: usize)
    requires
        encode_utf8(title@).len() <= usize::MAX - 52,
    ensures
        r == wish_space(encode_utf8(title@).len() as int),
{
    TAG_LEN + TITLE_LEN_PREFIX + title.len() + TIMESTAMP_LEN + AUTHOR_LEN
}

/// The bytes that store `w`.
pub open spec fn wish_layout(w: WishView) -> Seq<u8> {
    let title = encode_utf8(w.title);
    wish_discriminator() + spec_u32_to_le_bytes(title.len() as u32) + title
        + spec_u64_to_le_bytes(w.timestamp as u64) + w.author
}

/// The record that `data` stores, if `data` is a well-formed wish record.
pub open spec fn parse_wish(data: Seq<u8>) -> Option<WishView> {
    if data.len() < TAG_LEN + TITLE_LEN_PREFIX || data.subrange(0, TAG_LEN as int)
        != wish_discriminator() {
        None
    } else {
        let n = spec_u32_from_le_bytes(data.subrange(8, 12)) as int;
        let title = data.subrange(12, 12 + n);
        if data.len() != wish_space(n) || !valid_utf8(title) {
            None
        } else {
            Some(
                WishView {
                    title: decode_utf8(title),
                    timestamp: spec_u64_from_le_bytes(data.subrange(12 + n, 20 + n)) as i64,
                    author: data.subrange(20 + n, 52 + n),
                },
            )
        }
    }
}

/// The view of a decoding result.
pub open spec fn parsed_view(r: Option<AWish>) -> Option<WishView> {
    match r {
        Some(w) => Some(w@),
        None => None,
    }
}

/// Appends the bytes of `src` to `out`.
fn append_bytes(out: &mut Vec<u8>, src: &[u8])
    ensures
        final(out)@ == old(out)@ + src@,
{
    let mut i: usize = 0;
    while i < src.len()
        invariant
            i <= src@.len(),
            out@ == old(out)@ + src@.subrange(0, i as int),
        decreases src@.len() - i,
    {
        out.push(src[i]);
        i = i + 1;
        assert(src@.subrange(0, i as int) =~= src@.subrange(0, i - 1) + seq![src@[i - 1]]);
    }
    assert(src@.subrange(0, i as int) =~= src@);
}

/// The type tag that starts every wish record.
pub fn discriminator() -> (r: Vec<u8>)
    ensures
        r@ == wish_discriminator(),
{
    let name: &str = "account:AWish";
    let digest = sha256(name.as_bytes());
    let mut r: Vec<u8> = Vec::new();
    append_bytes(&mut r, slice_subrange(digest.as_slice(), 0, TAG_LEN));
    r
}

/// A stored wish takes exactly the space reserved for its title: the tag, the
/// length prefix, the title's bytes, the timestamp and the author, with no
/// slack.
pub proof fn lemma_layout_fills_space(w: WishView)
    requires
        w.author.len() == AUTHOR_LEN,
    ensures
        wish_layout(w).len() == wish_space(encode_utf8(w.title).len() as int),
        wish_space(encode_utf8(w.title).len() as int) == 52 + encode_utf8(w.title).len(),
{
    lemma_auto_spec_u32_to_from_le_bytes();
    lemma_auto_spec_u64_to_from_le_bytes();
}

/// Reading back the bytes that store a wish gives the same title, timestamp
/// and author.
pub proof fn lemma_layout_round_trip(w: WishView)
    requires
        w.author.len() == AUTHOR_LEN,
        encode_utf8(w.title).len() <= u32::MAX,
    ensures
        parse_wish(wish_layout(w)) == Some(w),
{
    broadcast use vstd::utf8::encode_utf8_valid_utf8, vstd::utf8::encode_utf8_decode_utf8;

    lemma_auto_spec_u32_to_from_le_bytes();
    lemma_auto_spec_u64_to_from_le_bytes();
    let title = encode_utf8(w.title);
    let data = wish_layout(w);
    let n = title.len() as int;
    assert(data.subrange(0, 8) =~= wish_discriminator());
    assert(data.subrange(8, 12) =~= spec_u32_to_le_bytes(n as u32));
    assert(data.subrange(12, 12 + n) =~= title);
    assert(data.subrange(12 + n, 20 + n) =~= spec_u64_to_le_bytes(w.timestamp as u64));
    assert(data.subrange(20 + n, 52 + n) =~= w.author);
    let t = w.timestamp;
    assert(((t as u64) as i64) == t) by (bit_vector);
}

impl AWish {
    /// The bytes that store this wish.
    pub fn to_bytes(&self) -> (r: Vec<u8>)
        requires
            encode_utf8(self.title@).len() <= u32::MAX,
        ensures
            r@ == wish_layout(self@),
            r@.len() == wish_space(encode_utf8(self.title@).len() as int),
    {
        proof {
            lemma_auto_spec_u32_to_from_le_bytes();
            lemma_auto_spec_u64_to_from_le_bytes();
        }
        let title = self.title.as_str().as_bytes();
        let mut out = discriminator();
        let len_bytes = u32_to_le_bytes(title.len() as u32);
        append_bytes(&mut out, len_bytes.as_slice());
        append_bytes(&mut out, title);
        let time_bytes = u64_to_le_bytes(self.timestamp as u64);
        append_bytes(&mut out, time_bytes.as_slice());
        append_bytes(&mut out, self.author.bytes.as_slice());
        out
    }

    /// The wish that `data` stores, or `None` where `data` is not a
    /// well-formed wish record.
    pub fn from_bytes(data: &[u8]) -> (r: Option<AWish>)
        ensures
            parsed_view(r) == parse_wish(data@),
    {
        proof {
            lemma_auto_spec_u32_to_from_le_bytes();
            lemma_auto_spec_u64_to_from_le_bytes();
        }
        if data.len() < TAG_LEN + TITLE_LEN_PREFIX {
            return None;
        }
        let tag = discriminator();
        let mut i: usize = 0;
        while i < TAG_LEN
            invariant
                i <= TAG_LEN,
                tag@ == wish_discriminator(),
                data@.len() >= 12,
                forall|j: int| 0 <= j < i ==> data@[j] == tag@[j],
            decreases TAG_LEN - i,
        {
            if data[i] != tag[i] {
                assert(data@.subrange(0, 8)[i as int] != wish_discriminator()[i as int]);
                return None;
            }
            i = i + 1;
        }
        assert(data@.subrange(0, 8) =~= wish_discriminator());
        let n = u32_from_le_bytes(slice_subrange(data, 8, 12)) as usize;
        let total = data.len();
        if total < 52 || total - 52 != n {
            return None;
        }
        let title_bytes = slice_to_vec(slice_subrange(data, 12, 12 + n));
        let title = match string_from_utf8(title_bytes) {
            Some(s) => s,
            None => {
                return None;
            },
        };
        let timestamp = #[verifier::truncate] (u64_from_le_bytes(slice_subrange(data, 12 + n, 20 + n)) as i64);
        let mut author: [u8; 32] = [0u8; 32];
        let mut j: usize = 0;
        while j < AUTHOR_LEN
            invariant
                j <= AUTHOR_LEN,
                data@.len() == total,
                total == 52 + n,
                author@.len() == 32,
                forall|k: int| 0 <= k < j ==> author@[k] == data@[20 + n + k],
            decreases AUTHOR_LEN - j,
        {
            author[j] = data[20 + n + j];
            j = j + 1;
        }
        assert(author@ =~= data@.subrange(20 + n, 52 + n));
        Some(AWish { title, timestamp, author: Address { bytes: author } })
    }
}

} // verus!
