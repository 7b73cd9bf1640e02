//! The execution layer: block headers.

use alloy_rlp::Decodable;
use vstd::prelude::*;

use crate::common::fixed_bytes::B256;
use crate::common::hashing;
use crate::common::hashing::keccak256;

verus! {

/// A block header: the fields that are read here, and the RLP encoding of the whole. The fields are
/// those of the encoded header.
#[derive(Debug, PartialEq, Eq)]
pub struct Header {
    parent_hash: B256,
    number: u64,
    timestamp: u64,
    state_root: B256,
    withdrawals_root: Option<B256>,
    rlp: Vec<u8>,
}

/// A header as a mathematical value.
pub struct HeaderView {
    pub parent_hash: B256,
    pub number: u64,
    pub timestamp: u64,
    pub state_root: B256,
    pub withdrawals_root: Option<B256>,
    pub rlp: Seq<u8>,
}

impl HeaderView {
    /// The fields are those of the encoded header, and the encoding is that of these fields.
    pub open spec fn is_encoded(self) -> bool {
        decoded_header(self.rlp) == Some(self)
    }
}

impl View for Header {
    type V = HeaderView;

    closed spec fn view(&self) -> HeaderView {
        HeaderView {
            parent_hash: self.parent_hash,
            number: self.number,
            timestamp: self.timestamp,
            state_root: self.state_root,
            withdrawals_root: self.withdrawals_root,
            rlp: self.rlp@,
        }
    }
}

impl Header {
    #[verifier::type_invariant]
    spec fn wf(self) -> bool {
        self@.is_encoded()
    }

    pub fn parent_hash(&self) -> (r: B256)
        ensures
            r == self@.parent_hash,
            self@.is_encoded(),
    {
        proof {
            use_type_invariant(self);
        }
        self.parent_hash
    }

    pub fn number(&self) -> (r: u64)
        ensures
            r == self@.number,
            self@.is_encoded(),
    {
        proof {
            use_type_invariant(self);
        }
        self.number
    }

    pub fn timestamp(&self) -> (r: u64)
        ensures
            r == self@.timestamp,
            self@.is_encoded(),
    {
        proof {
            use_type_invariant(self);
        }
        self.timestamp
    }

    pub fn state_root(&self) -> (r: B256)
        ensures
            r == self@.state_root,
            self@.is_encoded(),
    {
        proof {
            use_type_invariant(self);
        }
        self.state_root
    }

    pub fn withdrawals_root(&self) -> (r: Option<B256>)
        ensures
            r == self@.withdrawals_root,
            self@.is_encoded(),
    {
        proof {
            use_type_invariant(self);
        }
        self.withdrawals_root
    }

    /// The encoding of the header.
    pub fn rlp(&self) -> (r: &Vec<u8>)
        ensures
            r@ == self@.rlp,
            self@.is_encoded(),
    {
        proof {
            use_type_invariant(self);
        }
        &self.rlp
    }

    /// The block hash: the hash of the header's encoding.
    pub fn hash_slow(&self) -> (r: B256)
        ensures
            r@ == hashing::keccak256_digest(self@.rlp),
    {
        keccak256(self.rlp.as_slice())
    }
}

/// The header at the start of `raw`; `None` if there is none.
pub uninterp spec fn decoded_header(raw: Seq<u8>) -> Option<HeaderView>;

/// `alloy_consensus::Header::decode`: a function of the bytes alone. The result is handed on as the
/// fields that are read here and as its encoding by `alloy_rlp::encode`; decoding that again gives
/// the same. What bytes make up a header is not said.
#[verifier::external_body]
fn decode_header(raw: &[u8]) -> (r: Option<Header>)
    ensures
        r is Some <==> decoded_header(raw@) is Some,
        r is Some ==> r->0@ == decoded_header(raw@)->0,
        r is Some ==> r->0@.is_encoded(),
{
    match alloy_consensus::Header::decode(&mut &raw[..]) {
        Ok(header) => Some(
            Header {
                parent_hash: B256 { bytes: header.parent_hash.0 },
                number: header.number,
                timestamp: header.timestamp,
                state_root: B256 { bytes: header.state_root.0 },
                withdrawals_root: header.withdrawals_root.map(|root| B256 { bytes: root.0 }),
                rlp: alloy_rlp::encode(&header),
            },
        ),
        Err(_) => None,
    }
}

/// Why there is no header.
#[derive(Clone, Copy, Debug, PartialEq, Eq)]
pub enum HeaderError {
    /// The node knows no such block.
    NullResp,
}

/// The header out of a raw header, if the node gave one that can be read. If not, the block has to
/// be asked for.
pub fn header_from_raw(raw: Option<Vec<u8>>) -> (r: Option<Header>)
    ensures
        r is Some <==> raw is Some && decoded_header(raw->0@) is Some,
        r is Some ==> r->0@ == decoded_header(raw->0@)->0,
        r is Some ==> r->0@.is_encoded(),
{
    match raw {
        Some(raw) => decode_header(raw.as_slice()),
        None => None,
    }
}

/// The header of a block that was asked for.
pub fn header_from_block(header: Option<Header>) -> (r: Result<Header, HeaderError>)
    ensures
        r == (match header {
            Some(h) => Ok::<Header, HeaderError>(h),
            None => Err(HeaderError::NullResp),
        }),
{
    match header {
        Some(header) => Ok(header),
        None => Err(HeaderError::NullResp),
    }
}

/// The headers out of raw headers, if the node gave them and all of them can be read. If not, each
/// header has to be asked for on its own.
pub fn headers_from_raw(raws: Option<Vec<Vec<u8>>>) -> (r: Option<Vec<Header>>)
    ensures
        r is Some <==> raws is Some && forall|i: int|
            0 <= i < raws->0@.len() ==> decoded_header((#[trigger] raws->0@[i])@) is Some,
        r is Some ==> r->0@.len() == raws->0@.len() && forall|i: int|
            0 <= i < raws->0@.len() ==> (#[trigger] r->0@[i])@ == decoded_header(
                raws->0@[i]@,
            )->0,
        r is Some ==> forall|i: int| 0 <= i < r->0@.len() ==> (#[trigger] r->0@[i])@.is_encoded(),
{
    let list = match raws {
        Some(list) => list,
        None => {
            return None;
        },
    };
    let mut headers: Vec<Header> = Vec::new();
    for i in 0..list.len()
        invariant
            raws == Some(list),
            headers@.len() == i,
            forall|j: int|
                0 <= j < i ==> decoded_header((#[trigger] list@[j])@) is Some && headers@[j]@
                    == decoded_header(list@[j]@)->0,
            forall|j: int| 0 <= j < i ==> (#[trigger] headers@[j])@.is_encoded(),
    {
        match decode_header(list[i].as_slice()) {
            Some(header) => {
                headers.push(header);
            },
            None => {
                assert(decoded_header(raws->0@[i as int]@) is None);
                return None;
            },
        }
    }
    Some(headers)
}

} // verus!
