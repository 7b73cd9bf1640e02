//! Where payloads are asked for, and what the answers of the proxy mean.

use vstd::prelude::*;

use crate::common::text;
use crate::eigenda::provider;
use crate::eigenda::provider::classify_response;
use crate::eigenda::provider::fetched_payload;
use crate::eigenda::provider::get_encoded_payload;
use crate::eigenda::provider::get_validity;
use crate::eigenda::provider::payload_path;
use crate::eigenda::provider::payload_url;
use crate::eigenda::provider::DerivationVerdict;
use crate::eigenda::provider::FetchedBody;
use crate::eigenda::provider::PayloadError;
use crate::eigenda::provider::PayloadFailure;
use crate::eigenda::provider::ResponseBody;

verus! {

/// The path holds two digits for each byte of the commitment, of which the first counts sixteens.
pub proof fn path_spells_commitment(commitment: &[u8], path: String, i: int)
    requires
        call_ensures(payload_path, (commitment,), path),
        0 <= i < commitment@.len(),
    ensures
        path@.len() == 4 + 2 * commitment@.len(),
        path@.take(4) == seq!['g', 'e', 't', '/'],
        0 <= text::hex_value(path@[4 + 2 * i]) < 16,
        0 <= text::hex_value(path@[5 + 2 * i]) < 16,
        commitment@[i] == 16 * text::hex_value(path@[4 + 2 * i]) + text::hex_value(path@[5 + 2 * i]),
{
    reveal_strlit("get/");
    let hex = provider::hex_text(commitment@);
    assert(path@.take(4) =~= seq!['g', 'e', 't', '/']);
    assert(path@[4 + 2 * i] == hex[2 * i]);
    assert(path@[5 + 2 * i] == hex[2 * i + 1]);
    let b = commitment@[i] as int;
    assert(hex[2 * i] == text::hex_char(b / 16));
    assert(hex[2 * i + 1] == text::hex_char(b % 16));
    text::hex_char_spells(b / 16);
    text::hex_char_spells(b % 16);
}

/// A payload is asked for at the path of its commitment, taken relative to the proxy's address, in
/// the generic commitment mode and in encoded form.
pub proof fn url_names_commitment_and_mode(
    base: &str,
    commitment: &[u8],
    path: String,
    joined: Seq<char>,
    with_mode: Seq<char>,
    r: Result<String, PayloadError>,
)
    requires
        call_ensures(payload_url, (base, commitment), r),
        call_ensures(payload_path, (commitment,), path),
    ensures
        provider::joined_url(base@, path@) == Some(joined) && joined.len() <= 0x10_0000
            && provider::url_with_pair(joined, "commitment_mode"@, "optimism_generic"@) == Some(
            with_mode,
        ) && with_mode.len() <= 0x10_0000 ==> match provider::url_with_pair(
            with_mode,
            "return_encoded_payload"@,
            "true"@,
        ) {
            Some(url) => r is Ok && r->Ok_0@ == url,
            None => r == Err::<String, PayloadError>(
                PayloadError::Critical(PayloadFailure::BuildUrl),
            ),
        },
        provider::joined_url(base@, path@) is None ==> r == Err::<String, PayloadError>(
            PayloadError::Critical(PayloadFailure::BuildUrl),
        ),
        provider::joined_url(base@, path@) == Some(joined) && joined.len() > 0x10_0000 ==> r
            == Err::<String, PayloadError>(PayloadError::Critical(PayloadFailure::Request)),
{
}

/// A response with a status of success holds the payload, one with status 418 an error of the data.
/// With any other status the payload may be there later, and without a response it cannot be had.
pub proof fn status_says_what_body_holds(
    status: Option<u16>,
    r: Result<ResponseBody, PayloadError>,
)
    requires
        call_ensures(classify_response, (status,), r),
    ensures
        r == Ok::<ResponseBody, PayloadError>(ResponseBody::Payload) <==> (status matches Some(s)
            && s / 100 == 2),
        r == Ok::<ResponseBody, PayloadError>(ResponseBody::DerivationError) <==> status == Some(
            418u16,
        ),
        status is None ==> r == Err::<ResponseBody, PayloadError>(
            PayloadError::Critical(PayloadFailure::Request),
        ),
        forall|s: u16|
            status == Some(s) && s / 100 != 2 && s != 418 ==> r == Err::<
                ResponseBody,
                PayloadError,
            >(PayloadError::Temporary(s)),
{
}

/// A certificate is valid exactly if the proxy has given its payload, and then that payload is what
/// comes back. It is invalid if the proxy says so. In all other cases neither is known, and the same
/// error says why.
pub proof fn body_decides_validity(
    body: FetchedBody,
    payload: Result<Option<Vec<u8>>, PayloadError>,
    valid: Result<bool, PayloadError>,
    encoded: Result<Vec<u8>, PayloadError>,
)
    requires
        call_ensures(fetched_payload, (body,), payload),
        call_ensures(get_validity, (payload,), valid),
        call_ensures(get_encoded_payload, (payload,), encoded),
    ensures
        forall|data: Vec<u8>|
            body == FetchedBody::Payload(Some(data)) ==> encoded == Ok::<Vec<u8>, PayloadError>(
                data,
            ),
        valid == Ok::<bool, PayloadError>(true) <==> (body matches FetchedBody::Payload(Some(_))),
        valid == Ok::<bool, PayloadError>(false) <==> (body matches FetchedBody::DerivationError(
            Some(DerivationVerdict::InvalidCert),
        )),
        valid == Ok::<bool, PayloadError>(false) ==> encoded == Err::<Vec<u8>, PayloadError>(
            PayloadError::Critical(PayloadFailure::InvalidCommitment),
        ),
        valid matches Err(e) ==> encoded == Err::<Vec<u8>, PayloadError>(e),
        body matches FetchedBody::Payload(None) ==> valid == Err::<bool, PayloadError>(
            PayloadError::Critical(PayloadFailure::ReadBody),
        ),
        body matches FetchedBody::DerivationError(None) ==> valid == Err::<bool, PayloadError>(
            PayloadError::Critical(PayloadFailure::Deserialize),
        ),
        body matches FetchedBody::DerivationError(Some(DerivationVerdict::Other)) ==> valid
            == Err::<bool, PayloadError>(PayloadError::Critical(PayloadFailure::BadResponse)),
{
}

} // verus!
