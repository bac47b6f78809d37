//! Decisions of the fetch-and-persist operation.
//!
//! The operation runs `Idle → Requesting → Finalizing → Done`, any failure
//! ending it in a failed state. The caller performs the GET and the file write;
//! the functions here take what those produced and decide what comes next.
use crate::headers::{
    pairs_view, translate_headers, translation, HeaderError, HeaderFault, MAX_HEADERS,
};
use reqwest::header::{HeaderMap, HeaderValue};
use vstd::prelude::*;

verus! {

/// A GET to perform, with validated headers.
pub struct Request {
    pub url: String,
    pub headers: HeaderMap<HeaderValue>,
    pub file_path: Option<String>,
    pub return_value: bool,
}

/// What one fetch produced: status code, body length, and the body itself
/// where the caller asked for it.
pub struct Outcome {
    pub status: u16,
    pub size: u64,
    pub payload: Option<Vec<u8>>,
}

/// A file to create (or truncate) at `path`, holding exactly `contents`.
pub struct PendingWrite {
    pub path: String,
    pub contents: Vec<u8>,
}

/// The failures of the operation; each carries a descriptive message.
pub enum FetchError {
    InvalidHeaderName { key: String, message: String },
    InvalidHeaderValue { key: String, message: String },
    NetworkError { message: String },
    PersistenceError { path: String, message: String },
}

pub open spec fn opt_text(o: Option<String>) -> Option<Seq<char>> {
    match o {
        Some(s) => Some(s@),
        None => None,
    }
}

pub open spec fn opt_bytes(o: Option<Vec<u8>>) -> Option<Seq<u8>> {
    match o {
        Some(v) => Some(v@),
        None => None,
    }
}

impl PendingWrite {
    pub open spec fn view(&self) -> (Seq<char>, Seq<u8>) {
        (self.path@, self.contents@)
    }
}

pub open spec fn opt_write(o: Option<PendingWrite>) -> Option<(Seq<char>, Seq<u8>)> {
    match o {
        Some(w) => Some(w.view()),
        None => None,
    }
}

/// The body is written only where a path was given, the status is below 400
/// and the body is not empty.
pub open spec fn persists(has_path: bool, status: u16, size: nat) -> bool {
    has_path && status < 400 && size > 0
}

/// The file write that a response calls for, if any.
pub open spec fn planned_write(file_path: Option<Seq<char>>, status: u16, body: Seq<u8>) -> Option<
    (Seq<char>, Seq<u8>),
> {
    match file_path {
        Some(p) => if persists(true, status, body.len()) {
            Some((p, body))
        } else {
            None
        },
        None => None,
    }
}

/// The bytes handed back: the whole body when asked for, else nothing.
pub open spec fn payload_of(return_value: bool, body: Seq<u8>) -> Option<Seq<u8>> {
    if return_value {
        Some(body)
    } else {
        None
    }
}

/// The files by path after a planned write has been carried out: create or
/// truncate, then the whole body.
pub open spec fn files_after(
    files: Map<Seq<char>, Seq<u8>>,
    write: Option<(Seq<char>, Seq<u8>)>,
) -> Map<Seq<char>, Seq<u8>> {
    match write {
        Some((p, b)) => files.insert(p, b),
        None => files,
    }
}

impl FetchError {
    /// The error that a refused header pair becomes.
    pub fn from_header_error(e: HeaderError) -> (r: FetchError)
        ensures
            e matches HeaderError::InvalidHeaderName { key, message } ==> r
                == (FetchError::InvalidHeaderName { key, message }),
            e matches HeaderError::InvalidHeaderValue { key, message } ==> r
                == (FetchError::InvalidHeaderValue { key, message }),
    {
        match e {
            HeaderError::InvalidHeaderName { key, message } => FetchError::InvalidHeaderName {
                key,
                message,
            },
            HeaderError::InvalidHeaderValue { key, message } => FetchError::InvalidHeaderValue {
                key,
                message,
            },
        }
    }
}

/// Leaves `Idle`: validates the headers and, if they are all legal, yields the
/// request to send. A refused header ends the operation before any request
/// exists, so no network call can follow.
pub fn prepare_request(
    url: String,
    headers: &Vec<(String, String)>,
    file_path: Option<String>,
    return_value: bool,
) -> (r: Result<Request, FetchError>)
    requires
        headers@.len() <= MAX_HEADERS,
    ensures
        r is Ok <==> translation(pairs_view(headers@)) is Ok,
        r matches Ok(req) ==> translation(pairs_view(headers@)) == Ok::<_, HeaderFault>(
            crate::headers::header_map_entries(req.headers),
        ) && req.url == url && req.file_path == file_path && req.return_value == return_value,
        r matches Err(FetchError::InvalidHeaderName { key, message }) ==> translation(
            pairs_view(headers@),
        ) == Err::<Map<Seq<char>, Seq<char>>, _>(HeaderFault::BadName(key@)) && message@
            == crate::headers::name_message(),
        r matches Err(FetchError::InvalidHeaderValue { key, message }) ==> translation(
            pairs_view(headers@),
        ) == Err::<Map<Seq<char>, Seq<char>>, _>(HeaderFault::BadValue(key@)) && message@
            == crate::headers::value_message(),
        !(r matches Err(FetchError::NetworkError { .. })),
        !(r matches Err(FetchError::PersistenceError { .. })),
{
    match translate_headers(headers) {
        Ok(map) => Ok(Request { url, headers: map, file_path, return_value }),
        Err(e) => Err(FetchError::from_header_error(e)),
    }
}

/// Whether a response calls for the file write.
pub fn should_persist(file_path: &Option<String>, status: u16, size: u64) -> (r: bool)
    ensures
        r == persists(file_path is Some, status, size as nat),
{
    file_path.is_some() && status < 400 && size > 0
}

/// Leaves `Requesting` once the whole body has arrived: shapes the outcome and
/// says which file write, if any, must happen before it is handed back. The
/// payload is a copy of the body, independent of what is written.
pub fn finish_response(
    file_path: Option<String>,
    return_value: bool,
    status: u16,
    body: Vec<u8>,
) -> (r: (Outcome, Option<PendingWrite>))
    ensures
        r.0.status == status,
        r.0.size == body@.len(),
        opt_bytes(r.0.payload) == payload_of(return_value, body@),
        !return_value ==> r.0.payload is None,
        opt_write(r.1) == planned_write(opt_text(file_path), status, body@),
        r.1 is Some <==> persists(file_path is Some, status, body@.len()),
{
    let size = body.len() as u64;
    let payload = if return_value {
        let copy = body.clone();
        assert(copy@ =~= body@);
        Some(copy)
    } else {
        None
    };
    let write = if should_persist(&file_path, status, size) {
        match file_path {
            Some(path) => Some(PendingWrite { path, contents: body }),
            None => None,
        }
    } else {
        None
    };
    (Outcome { status, size, payload }, write)
}

/// A transport failure ends the operation with its message.
pub fn network_failed(message: String) -> (r: FetchError)
    ensures
        r == (FetchError::NetworkError { message }),
{
    FetchError::NetworkError { message }
}

/// Leaves `Finalizing` after the file write: the outcome stands if it
/// succeeded; otherwise only the persistence failure is reported.
pub fn finish_write(outcome: Outcome, path: String, written: Result<(), String>) -> (r: Result<
    Outcome,
    FetchError,
>)
    ensures
        written is Ok ==> r == Ok::<_, FetchError>(outcome),
        written matches Err(message) ==> r == Err::<Outcome, _>(
            FetchError::PersistenceError { path, message },
        ),
{
    match written {
        Ok(()) => Ok(outcome),
        Err(message) => Err(FetchError::PersistenceError { path, message }),
    }
}

/// A response with a status below 400 and a non-empty body, fetched with a
/// destination, leaves that file holding exactly the body, so its length is
/// the reported size; a requested payload is the same bytes.
pub proof fn lemma_success_persists_body(
    files: Map<Seq<char>, Seq<u8>>,
    path: Seq<char>,
    status: u16,
    body: Seq<u8>,
    return_value: bool,
)
    requires
        status < 400,
        body.len() > 0,
    ensures
        files_after(files, planned_write(Some(path), status, body)).contains_key(path),
        files_after(files, planned_write(Some(path), status, body))[path] == body,
        return_value ==> payload_of(return_value, body) == Some(body),
{
}

/// A status of 400 or more leaves every file as it was, whatever the body.
pub proof fn lemma_error_status_writes_nothing(
    files: Map<Seq<char>, Seq<u8>>,
    file_path: Option<Seq<char>>,
    status: u16,
    body: Seq<u8>,
)
    requires
        status >= 400,
    ensures
        planned_write(file_path, status, body) is None,
        files_after(files, planned_write(file_path, status, body)) == files,
{
}

/// An empty body leaves every file as it was.
pub proof fn lemma_empty_body_writes_nothing(
    files: Map<Seq<char>, Seq<u8>>,
    file_path: Option<Seq<char>>,
    status: u16,
)
    ensures
        planned_write(file_path, status, Seq::empty()) is None,
        files_after(files, planned_write(file_path, status, Seq::empty())) == files,
{
}

/// Repeating a fetch that gets the same response changes nothing further:
/// the file is overwritten with the same bytes, whatever it held before.
pub proof fn lemma_repeat_overwrites(
    files: Map<Seq<char>, Seq<u8>>,
    earlier: Map<Seq<char>, Seq<u8>>,
    file_path: Option<Seq<char>>,
    status: u16,
    body: Seq<u8>,
)
    ensures
        files_after(files_after(files, planned_write(file_path, status, body)), planned_write(
            file_path,
            status,
            body,
        )) =~= files_after(files, planned_write(file_path, status, body)),
        planned_write(file_path, status, body) matches Some((p, b)) ==> files_after(
            files,
            planned_write(file_path, status, body),
        )[p] == b && b == body && files_after(earlier, planned_write(file_path, status, body))[p]
            == body,
{
}

} // verus!
