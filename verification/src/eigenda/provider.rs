//! Payloads from an EigenDA proxy.

use alloy_transport_http::reqwest::Url;
use vstd::prelude::*;
use vstd::string::StrSliceExecFns;
use vstd::string::StringExecFns;

use crate::common::text;

verus! {

/// The status code with which the proxy reports an error of the data itself.
pub const STATUS_TEAPOT: u16 = 418;

/// How many characters a URL may have. No request can be sent to a longer one.
pub const MAX_URL_LEN: usize = 0x10_0000;

/// Two digits for each byte.
pub open spec fn hex_text(bytes: Seq<u8>) -> Seq<char> {
    Seq::new(
        2 * bytes.len(),
        |i: int|
            text::hex_char(
                if i % 2 == 0 {
                    bytes[i / 2] as int / 16
                } else {
                    bytes[i / 2] as int % 16
                },
            ),
    )
}

/// `hex::encode`: each byte as two digits, in lower case.
#[verifier::external_body]
fn encode_hex(bytes: &[u8]) -> (r: String)
    ensures
        r@ == hex_text(bytes@),
{
    hex::encode(bytes)
}

/// Different bytes have different texts.
pub proof fn hex_text_is_injective(a: Seq<u8>, b: Seq<u8>)
    requires
        hex_text(a) == hex_text(b),
    ensures
        a == b,
{
    assert(hex_text(a).len() == 2 * a.len() && hex_text(b).len() == 2 * b.len());
    assert forall|i: int| 0 <= i < a.len() implies a[i] == b[i] by {
        let (x, y) = (hex_text(a), hex_text(b));
        assert(x[2 * i] == text::hex_char(a[i] as int / 16));
        assert(y[2 * i] == text::hex_char(b[i] as int / 16));
        assert(x[2 * i + 1] == text::hex_char(a[i] as int % 16));
        assert(y[2 * i + 1] == text::hex_char(b[i] as int % 16));
    }
    assert(a =~= b);
}

/// `path` taken relative to `base`; `None` if that is no URL.
pub uninterp spec fn joined_url(base: Seq<char>, path: Seq<char>) -> Option<Seq<char>>;

/// `reqwest::Url::join`, on a base that is given as text: a function of the two texts alone. How
/// URLs are written is not said.
#[verifier::external_body]
fn join_url(base: &str, path: &str) -> (r: Option<String>)
    ensures
        r is Some <==> joined_url(base@, path@) is Some,
        r is Some ==> r->0@ == joined_url(base@, path@)->0,
{
    Some(Url::parse(base).ok()?.join(path).ok()?.to_string())
}

/// `url` with one more pair in its query; `None` if it is no URL.
pub uninterp spec fn url_with_pair(
    url: Seq<char>,
    name: Seq<char>,
    value: Seq<char>,
) -> Option<Seq<char>>;

/// `append_pair` of the serializer that `reqwest::Url::query_pairs_mut` hands out, on a URL that is
/// given as text: a function of the texts alone. How queries are written is not said. Parts of a
/// URL are found by 32-bit positions, so that much longer texts than these cannot be handled.
#[verifier::external_body]
fn append_query_pair(url: &str, name: &str, value: &str) -> (r: Option<String>)
    requires
        url@.len() <= MAX_URL_LEN,
        name@.len() <= MAX_URL_LEN,
        value@.len() <= MAX_URL_LEN,
    ensures
        r is Some <==> url_with_pair(url@, name@, value@) is Some,
        r is Some ==> r->0@ == url_with_pair(url@, name@, value@)->0,
{
    let mut parsed = Url::parse(url).ok()?;
    parsed.query_pairs_mut().append_pair(name, value);
    Some(parsed.to_string())
}

/// The path of a commitment, relative to the proxy's address.
pub fn payload_path(commitment: &[u8]) -> (r: String)
    ensures
        r@ == "get/"@ + hex_text(commitment@),
{
    "get/".to_owned().concat(encode_hex(commitment).as_str())
}

/// Why there is no payload.
#[derive(Clone, Copy, Debug, PartialEq, Eq, Structural)]
pub enum PayloadError {
    /// It may be there later. The proxy has answered with this status code.
    Temporary(u16),
    /// It cannot be fetched.
    Critical(PayloadFailure),
}

/// Why a payload cannot be fetched.
#[derive(Clone, Copy, Debug, PartialEq, Eq, Structural)]
pub enum PayloadFailure {
    BuildUrl,
    /// No answer came back, or the URL is too long for a request.
    Request,
    /// The error that the proxy reports cannot be read.
    Deserialize,
    /// The proxy reports another error than that the certificate is invalid.
    BadResponse,
    ReadBody,
    InvalidCommitment,
}

/// `url` with one more pair in its query.
pub open spec fn extended_url(
    url: Result<Seq<char>, PayloadFailure>,
    name: Seq<char>,
    value: Seq<char>,
) -> Result<Seq<char>, PayloadFailure> {
    match url {
        Ok(url) => if url.len() > MAX_URL_LEN {
            Err(PayloadFailure::Request)
        } else {
            match url_with_pair(url, name, value) {
                Some(extended) => Ok(extended),
                None => Err(PayloadFailure::BuildUrl),
            }
        },
        Err(failure) => Err(failure),
    }
}

fn extend_url(url: &str, name: &str, value: &str) -> (r: Result<String, PayloadFailure>)
    requires
        name@.len() <= MAX_URL_LEN,
        value@.len() <= MAX_URL_LEN,
    ensures
        match extended_url(Ok(url@), name@, value@) {
            Ok(extended) => r is Ok && r->Ok_0@ == extended,
            Err(failure) => r == Err::<String, PayloadFailure>(failure),
        },
{
    if url.unicode_len() > MAX_URL_LEN {
        return Err(PayloadFailure::Request);
    }
    match append_query_pair(url, name, value) {
        Some(extended) => Ok(extended),
        None => Err(PayloadFailure::BuildUrl),
    }
}

/// Where the payload of a commitment is fetched from: `get/` and the commitment in hexadecimal
/// digits, relative to the proxy's address `base`, with two pairs in its query.
pub open spec fn url_of_payload(base: Seq<char>, commitment: Seq<u8>) -> Result<
    Seq<char>,
    PayloadFailure,
> {
    let path_url = match joined_url(base, "get/"@ + hex_text(commitment)) {
        Some(url) => Ok(url),
        None => Err(PayloadFailure::BuildUrl),
    };
    extended_url(
        extended_url(path_url, "commitment_mode"@, "optimism_generic"@),
        "return_encoded_payload"@,
        "true"@,
    )
}

/// Where the payload of a commitment is fetched from. `base` is the proxy's address.
pub fn payload_url(base: &str, commitment: &[u8]) -> (r: Result<String, PayloadError>)
    ensures
        match url_of_payload(base@, commitment@) {
            Ok(url) => r is Ok && r->Ok_0@ == url,
            Err(failure) => r == Err::<String, PayloadError>(PayloadError::Critical(failure)),
        },
{
    proof {
        reveal_strlit("commitment_mode");
        reveal_strlit("optimism_generic");
        reveal_strlit("return_encoded_payload");
        reveal_strlit("true");
    }
    let path = payload_path(commitment);
    let url = match join_url(base, path.as_str()) {
        Some(url) => url,
        None => {
            return Err(PayloadError::Critical(PayloadFailure::BuildUrl));
        },
    };
    let url = match extend_url(url.as_str(), "commitment_mode", "optimism_generic") {
        Ok(url) => url,
        Err(failure) => {
            return Err(PayloadError::Critical(failure));
        },
    };
    match extend_url(url.as_str(), "return_encoded_payload", "true") {
        Ok(url) => Ok(url),
        Err(failure) => Err(PayloadError::Critical(failure)),
    }
}

/// What to read out of a response.
#[derive(Clone, Copy, Debug, PartialEq, Eq, Structural)]
pub enum ResponseBody {
    /// The payload.
    Payload,
    /// An error of the data itself.
    DerivationError,
}

/// Decides by the status code what the body of a response holds. `None` stands for a request that
/// has failed.
pub fn classify_response(status: Option<u16>) -> (r: Result<ResponseBody, PayloadError>)
    ensures
        r == (match status {
            None => Err::<ResponseBody, PayloadError>(
                PayloadError::Critical(PayloadFailure::Request),
            ),
            Some(status) => if 200 <= status < 300 {
                Ok(ResponseBody::Payload)
            } else if status == STATUS_TEAPOT {
                Ok(ResponseBody::DerivationError)
            } else {
                Err(PayloadError::Temporary(status))
            },
        }),
{
    match status {
        None => Err(PayloadError::Critical(PayloadFailure::Request)),
        Some(status) => {
            if 200 <= status && status < 300 {
                Ok(ResponseBody::Payload)
            } else if status == STATUS_TEAPOT {
                Ok(ResponseBody::DerivationError)
            } else {
                Err(PayloadError::Temporary(status))
            }
        },
    }
}

/// An error of the data itself, as the proxy reports it.
#[derive(Clone, Copy, Debug, PartialEq, Eq, Structural)]
pub enum DerivationVerdict {
    InvalidCert,
    Other,
}

/// The body of a response.
#[derive(Debug, PartialEq, Eq)]
pub enum FetchedBody {
    /// The payload; `None` if it could not be read.
    Payload(Option<Vec<u8>>),
    /// The error of the data itself; `None` if it could not be read.
    DerivationError(Option<DerivationVerdict>),
}

/// The payload out of a response. An invalid certificate has none.
pub fn fetched_payload(body: FetchedBody) -> (r: Result<Option<Vec<u8>>, PayloadError>)
    ensures
        match body {
            FetchedBody::Payload(Some(bytes)) => r == Ok::<Option<Vec<u8>>, PayloadError>(
                Some(bytes),
            ),
            FetchedBody::Payload(None) => r == Err::<Option<Vec<u8>>, PayloadError>(
                PayloadError::Critical(PayloadFailure::ReadBody),
            ),
            FetchedBody::DerivationError(Some(DerivationVerdict::InvalidCert)) => r == Ok::<
                Option<Vec<u8>>,
                PayloadError,
            >(None),
            FetchedBody::DerivationError(Some(DerivationVerdict::Other)) => r == Err::<
                Option<Vec<u8>>,
                PayloadError,
            >(PayloadError::Critical(PayloadFailure::BadResponse)),
            FetchedBody::DerivationError(None) => r == Err::<Option<Vec<u8>>, PayloadError>(
                PayloadError::Critical(PayloadFailure::Deserialize),
            ),
        },
{
    match body {
        FetchedBody::Payload(Some(bytes)) => Ok(Some(bytes)),
        FetchedBody::Payload(None) => Err(PayloadError::Critical(PayloadFailure::ReadBody)),
        FetchedBody::DerivationError(Some(DerivationVerdict::InvalidCert)) => Ok(None),
        FetchedBody::DerivationError(Some(DerivationVerdict::Other)) => Err(
            PayloadError::Critical(PayloadFailure::BadResponse),
        ),
        FetchedBody::DerivationError(None) => Err(
            PayloadError::Critical(PayloadFailure::Deserialize),
        ),
    }
}

/// A certificate is valid if it has a payload.
pub open spec fn validity_of(payload: Result<Option<Vec<u8>>, PayloadError>) -> Result<
    bool,
    PayloadError,
> {
    match payload {
        Ok(payload) => Ok(payload is Some),
        Err(e) => Err(e),
    }
}

/// The payload of a certificate; it is an error if it has none.
pub open spec fn encoded_payload_of(payload: Result<Option<Vec<u8>>, PayloadError>) -> Result<
    Vec<u8>,
    PayloadError,
> {
    match payload {
        Ok(Some(bytes)) => Ok(bytes),
        Ok(None) => Err(PayloadError::Critical(PayloadFailure::InvalidCommitment)),
        Err(e) => Err(e),
    }
}

/// Whether a certificate is valid.
pub fn get_validity(payload: Result<Option<Vec<u8>>, PayloadError>) -> (r: Result<
    bool,
    PayloadError,
>)
    ensures
        r == validity_of(payload),
{
    match payload {
        Ok(payload) => Ok(payload.is_some()),
        Err(e) => Err(e),
    }
}

/// The payload of a certificate that has one.
pub fn get_encoded_payload(payload: Result<Option<Vec<u8>>, PayloadError>) -> (r: Result<
    Vec<u8>,
    PayloadError,
>)
    ensures
        r == encoded_payload_of(payload),
{
    match payload {
        Ok(Some(bytes)) => Ok(bytes),
        Ok(None) => Err(PayloadError::Critical(PayloadFailure::InvalidCommitment)),
        Err(e) => Err(e),
    }
}

/// A certificate is valid if and only if its payload can be had.
pub proof fn valid_certs_have_payloads(payload: Result<Option<Vec<u8>>, PayloadError>)
    ensures
        validity_of(payload) == Ok::<bool, PayloadError>(true) <==> encoded_payload_of(
            payload,
        ) is Ok,
        validity_of(payload) is Err ==> encoded_payload_of(payload) is Err,
{
}

} // verus!
