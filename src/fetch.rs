use crate::decode::{decode_payload, spec_decode};
use crate::models::{DownloadInfo, InfoModel, PipelineError};
use vstd::prelude::*;

verus! {

/// The decimal digit for `d`.
pub open spec fn digit_char(d: nat) -> char {
    if d == 0 { '0' }
    else if d == 1 { '1' }
    else if d == 2 { '2' }
    else if d == 3 { '3' }
    else if d == 4 { '4' }
    else if d == 5 { '5' }
    else if d == 6 { '6' }
    else if d == 7 { '7' }
    else if d == 8 { '8' }
    else { '9' }
}

/// The decimal digits of `n`, most significant first, without leading zeros.
pub open spec fn digits(n: nat) -> Seq<char>
    decreases n,
{
    if n < 10 {
        seq![digit_char(n)]
    } else {
        digits(n / 10).push(digit_char(n % 10))
    }
}

/// `n` written in decimal, with a leading `-` where it is negative.
pub open spec fn decimal(n: int) -> Seq<char> {
    if n < 0 {
        seq!['-'] + digits((-n) as nat)
    } else {
        digits(n as nat)
    }
}

/// The downloads endpoint of the registry for a package, with a
/// cache-busting query parameter.
pub open spec fn download_url_spec(package: Seq<char>, timestamp: int) -> Seq<char> {
    "https://crates.io/api/v1/crates/"@ + package + "/downloads?_="@ + decimal(timestamp)
}

fn digit_str(d: u64) -> (r: &'static str)
    requires
        d < 10,
    ensures
        r@ == seq![digit_char(d as nat)],
{
    proof {
        reveal_strlit("0");
        reveal_strlit("1");
        reveal_strlit("2");
        reveal_strlit("3");
        reveal_strlit("4");
        reveal_strlit("5");
        reveal_strlit("6");
        reveal_strlit("7");
        reveal_strlit("8");
        reveal_strlit("9");
    }
    if d == 0 { "0" }
    else if d == 1 { "1" }
    else if d == 2 { "2" }
    else if d == 3 { "3" }
    else if d == 4 { "4" }
    else if d == 5 { "5" }
    else if d == 6 { "6" }
    else if d == 7 { "7" }
    else if d == 8 { "8" }
    else { "9" }
}

fn append_digits(s: &mut String, n: u64)
    ensures
        final(s)@ == old(s)@ + digits(n as nat),
    decreases n,
{
    if n >= 10 {
        append_digits(s, n / 10);
    }
    s.append(digit_str(n % 10));
    assert(final(s)@ =~= old(s)@ + digits(n as nat));
}

/// Writes `n` in decimal.
pub fn decimal_text(n: i64) -> (r: String)
    ensures
        r@ == decimal(n as int),
{
    let mut s = <String as vstd::string::StringExecFns>::from_str("");
    proof {
        reveal_strlit("");
        reveal_strlit("-");
    }
    if n < 0 {
        s.append("-");
        let m: u64 = (-(n as i128)) as u64;
        append_digits(&mut s, m);
    } else {
        append_digits(&mut s, n as u64);
    }
    assert(s@ =~= decimal(n as int));
    s
}

/// The URL that fetches the download counts of `package`, made unique by
/// `timestamp` so that no cache answers it.
pub fn download_url(package: &str, timestamp: i64) -> (r: String)
    ensures
        r@ == download_url_spec(package@, timestamp as int),
{
    let mut s = <String as vstd::string::StringExecFns>::from_str("https://crates.io/api/v1/crates/");
    s.append(package);
    s.append("/downloads?_=");
    let t = decimal_text(timestamp);
    s.append(t.as_str());
    assert(s@ =~= download_url_spec(package@, timestamp as int));
    s
}

/// Whether an HTTP status code reports success.
pub open spec fn is_success(status: u32) -> bool {
    200 <= status < 300
}

/// Accepts a success status and refuses any other with `Transport`.
pub fn check_status(status: u32) -> (r: Result<(), PipelineError>)
    ensures
        r is Ok <==> is_success(status),
        !is_success(status) ==> r == Err::<(), PipelineError>(PipelineError::Transport),
{
    if 200 <= status && status < 300 {
        Ok(())
    } else {
        Err(PipelineError::Transport)
    }
}

/// The text that a byte sequence encodes in UTF-8, if it is valid UTF-8.
pub uninterp spec fn utf8_text(b: Seq<u8>) -> Option<Seq<char>>;

/// Relies on String::from_utf8: the text that the bytes encode, or nothing
/// where they are not valid UTF-8.
#[verifier::external_body]
fn text_of_bytes(b: Vec<u8>) -> (r: Option<String>)
    ensures
        match r {
            Some(s) => utf8_text(b@) == Some(s@),
            None => utf8_text(b@) is None,
        },
{
    match String::from_utf8(b) {
        Ok(s) => Some(s),
        Err(_) => None,
    }
}

/// Turns a response body into text: fails with `Encoding` where it is not
/// valid UTF-8.
pub fn body_text(body: Vec<u8>) -> (r: Result<String, PipelineError>)
    ensures
        match utf8_text(body@) {
            Some(t) => r is Ok && r->Ok_0@ == t,
            None => r == Err::<String, PipelineError>(PipelineError::Encoding),
        },
{
    match text_of_bytes(body) {
        Some(s) => Ok(s),
        None => Err(PipelineError::Encoding),
    }
}

/// What a response with this status and body decodes to, or the first error
/// in the order status, encoding, payload.
pub open spec fn spec_response(status: u32, body: Seq<u8>) -> Result<InfoModel, PipelineError> {
    if !is_success(status) {
        Err(PipelineError::Transport)
    } else {
        match utf8_text(body) {
            None => Err(PipelineError::Encoding),
            Some(t) => match spec_decode(t) {
                Some(m) => Ok(m),
                None => Err(PipelineError::MalformedPayload),
            },
        }
    }
}

/// Where the outcome of reading a response matches what its model gives.
pub open spec fn read_as(r: Result<DownloadInfo, PipelineError>, m: Result<InfoModel, PipelineError>) -> bool {
    match m {
        Ok(model) => r is Ok && r->Ok_0@ == model,
        Err(e) => r == Err::<DownloadInfo, PipelineError>(e),
    }
}

/// Reads a fetched response: checks the status, then the encoding, then
/// decodes the payload.
pub fn read_response(status: u32, body: Vec<u8>) -> (r: Result<DownloadInfo, PipelineError>)
    ensures
        read_as(r, spec_response(status, body@)),
{
    check_status(status)?;
    let text = body_text(body)?;
    decode_payload(text.as_str())
}

/// A response whose status is not a success stops the run with `Transport`,
/// whatever its body holds.
pub proof fn lemma_failed_status_aborts(status: u32, body: Seq<u8>)
    requires
        !is_success(status),
    ensures
        spec_response(status, body) == Err::<InfoModel, PipelineError>(PipelineError::Transport),
{
}

} // verus!
