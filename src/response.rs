//! An HTTP response as the idempotency store keeps it: a status code, the
//! header pairs in order, and the raw body.
use vstd::prelude::*;
use vstd::string::StrSliceExecFns;
use vstd::utf8::encode_utf8;

verus! {

/// The content of a stored response.
pub struct ResponseModel {
    pub status_code: u16,
    pub headers: Seq<(Seq<char>, Seq<u8>)>,
    pub body: Seq<u8>,
}

pub open spec fn header_view(h: (String, Vec<u8>)) -> (Seq<char>, Seq<u8>) {
    (h.0@, h.1@)
}

/// A response: status, ordered (name, value bytes) header pairs, body bytes.
#[derive(Debug)]
pub struct StoredResponse {
    pub status_code: u16,
    pub headers: Vec<(String, Vec<u8>)>,
    pub body: Vec<u8>,
}

impl View for StoredResponse {
    type V = ResponseModel;

    open spec fn view(&self) -> ResponseModel {
        ResponseModel {
            status_code: self.status_code,
            headers: self.headers@.map_values(|h: (String, Vec<u8>)| header_view(h)),
            body: self.body@,
        }
    }
}

fn copy_bytes(b: &Vec<u8>) -> (r: Vec<u8>)
    ensures
        r@ == b@,
{
    let mut r: Vec<u8> = Vec::new();
    let mut i: usize = 0;
    while i < b.len()
        invariant
            i <= b.len(),
            r@ == b@.subrange(0, i as int),
        decreases b.len() - i,
    {
        r.push(b[i]);
        i += 1;
        assert(r@ =~= b@.subrange(0, i as int));
    }
    assert(b@.subrange(0, b.len() as int) =~= b@);
    r
}

impl StoredResponse {
    /// A copy with the same status, headers and body.
    pub fn duplicate(&self) -> (r: StoredResponse)
        ensures
            r@ == self@,
    {
        let mut headers: Vec<(String, Vec<u8>)> = Vec::new();
        let mut i: usize = 0;
        while i < self.headers.len()
            invariant
                i <= self.headers.len(),
                headers.len() == i,
                forall|j: int|
                    0 <= j < i ==> header_view(#[trigger] headers@[j]) == header_view(
                        self.headers@[j],
                    ),
            decreases self.headers.len() - i,
        {
            let name = self.headers[i].0.clone();
            let value = copy_bytes(&self.headers[i].1);
            headers.push((name, value));
            i += 1;
        }
        assert(headers@.map_values(|h: (String, Vec<u8>)| header_view(h))
            =~= self.headers@.map_values(|h: (String, Vec<u8>)| header_view(h)));
        StoredResponse { status_code: self.status_code, headers, body: copy_bytes(&self.body) }
    }
}

/// The status of a "303 See Other" redirect.
pub const SEE_OTHER: u16 = 303;

/// A body-less redirect to `location`.
pub open spec fn see_other_model(location: Seq<char>) -> ResponseModel {
    ResponseModel {
        status_code: SEE_OTHER,
        headers: seq![("location"@, encode_utf8(location))],
        body: Seq::empty(),
    }
}

/// A "303 See Other" response whose one header, `location`, sends the client
/// to `location`.
pub fn see_other(location: &str) -> (r: StoredResponse)
    ensures
        r@ == see_other_model(location@),
{
    let mut headers: Vec<(String, Vec<u8>)> = Vec::new();
    headers.push((String::from_str("location"), location.as_bytes_vec()));
    let r = StoredResponse { status_code: SEE_OTHER, headers, body: Vec::new() };
    assert(r@.headers =~= see_other_model(location@).headers);
    assert(r@.body =~= see_other_model(location@).body);
    r
}

/// The JSON text that `serde_json` writes for a header list: an array of
/// `[name, [byte, ...]]` pairs.
pub uninterp spec fn headers_json(h: Seq<(Seq<char>, Seq<u8>)>) -> Seq<u8>;

/// The header list that `serde_json` reads from `b`, or `None` where `b` does
/// not hold one.
pub uninterp spec fn headers_from_json(b: Seq<u8>) -> Option<Seq<(Seq<char>, Seq<u8>)>>;

/// Relies on `serde_json::to_vec` for a list of (name, value bytes) pairs.
/// It fails only where a `Serialize` impl fails or a map has keys that are
/// not strings; strings, byte vectors, tuples and vectors do neither, so the
/// error arm is never taken.
#[verifier::external_body]
fn encode_headers(h: &Vec<(String, Vec<u8>)>) -> (r: Vec<u8>)
    ensures
        r@ == headers_json(h@.map_values(|x: (String, Vec<u8>)| header_view(x))),
{
    serde_json::to_vec(h).unwrap_or_default()
}

/// Relies on `serde_json::from_slice` for a list of (name, value bytes) pairs.
#[verifier::external_body]
fn decode_headers(b: &[u8]) -> (r: Option<Vec<(String, Vec<u8>)>>)
    ensures
        match r {
            Some(h) => headers_from_json(b@) == Some(
                h@.map_values(|x: (String, Vec<u8>)| header_view(x)),
            ),
            None => headers_from_json(b@) is None,
        },
{
    serde_json::from_slice(b).ok()
}

/// The smallest and largest status codes that HTTP admits.
pub const MIN_STATUS: u16 = 100;

pub const MAX_STATUS: u16 = 999;

pub open spec fn status_valid(code: int) -> bool {
    MIN_STATUS <= code <= MAX_STATUS
}

/// A response as its storage columns hold it: a signed 16-bit status, the
/// headers as JSON text, and the body.
#[derive(Debug)]
pub struct ResponseRow {
    pub status_code: i16,
    pub headers: Vec<u8>,
    pub body: Vec<u8>,
}

/// Why a stored row is not a response.
#[derive(PartialEq, Eq, Structural, Debug, Clone, Copy)]
pub enum RowError {
    /// The status column holds no HTTP status code.
    InvalidStatus,
    /// The header column holds no header list.
    InvalidHeaders,
}

impl StoredResponse {
    /// The storage row for this response: the status as a signed 16-bit
    /// number, the headers as JSON, the body as it is. A status outside 100
    /// to 999 has no row.
    pub fn to_row(&self) -> (r: Option<ResponseRow>)
        ensures
            !status_valid(self.status_code as int) ==> r is None,
            status_valid(self.status_code as int) ==> r is Some,
            r matches Some(row) ==> {
                &&& row.status_code as int == self.status_code as int
                &&& row.headers@ == headers_json(self@.headers)
                &&& row.body@ == self.body@
            },
    {
        if self.status_code < MIN_STATUS || self.status_code > MAX_STATUS {
            return None;
        }
        Some(
            ResponseRow {
                status_code: self.status_code as i16,
                headers: encode_headers(&self.headers),
                body: copy_bytes(&self.body),
            },
        )
    }

    /// The response that `row` holds. A status outside 100 to 999 is refused
    /// first, then header bytes that are no JSON header list.
    pub fn from_row(row: &ResponseRow) -> (r: Result<StoredResponse, RowError>)
        ensures
            !status_valid(row.status_code as int) ==> r == Err::<StoredResponse, RowError>(
                RowError::InvalidStatus,
            ),
            status_valid(row.status_code as int) && headers_from_json(row.headers@) is None ==> r
                == Err::<StoredResponse, RowError>(RowError::InvalidHeaders),
            status_valid(row.status_code as int) && headers_from_json(row.headers@) is Some ==> (
            r matches Ok(x) && x@ == (ResponseModel {
                status_code: row.status_code as u16,
                headers: headers_from_json(row.headers@)->0,
                body: row.body@,
            })),
    {
        if row.status_code < 100 || row.status_code > 999 {
            return Err(RowError::InvalidStatus);
        }
        match decode_headers(row.headers.as_slice()) {
            Some(headers) => Ok(
                StoredResponse {
                    status_code: row.status_code as u16,
                    headers,
                    body: copy_bytes(&row.body),
                },
            ),
            None => Err(RowError::InvalidHeaders),
        }
    }
}

} // verus!
