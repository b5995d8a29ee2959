//! Calls into the outside crates the library relies on: `serde_json` for
//! JSON, `httparse` for request heads, `uuid` for session identifiers and
//! `mime_guess` for file types. Each is a trusted wrapper; its doc comment
//! says what is claimed.
use vstd::prelude::*;

verus! {

/// What `serde_json` makes of a byte string: `Ok` with the compact text of
/// the parsed value (`Value::to_string`), or `Err` with the text of the
/// parse error.
pub uninterp spec fn json_reserialized(data: Seq<u8>) -> Result<Seq<char>, Seq<char>>;

/// The compact JSON text of an object whose members are the given
/// (key, string value) pairs.
pub uninterp spec fn json_object_text(members: Seq<(Seq<char>, Seq<char>)>) -> Seq<char>;

/// `serde_json::from_slice::<Value>` followed by `Value::to_string` (or the
/// error's `to_string`). Claimed: the result is `json_reserialized` of the
/// bytes.
#[verifier::external_body]
pub(crate) fn parse_json(data: &[u8]) -> (r: Result<String, String>)
    ensures
        match (r, json_reserialized(data@)) {
            (Ok(t), Ok(s)) => t@ == s,
            (Err(e), Err(s)) => e@ == s,
            _ => false,
        },
{
    match serde_json::from_slice::<serde_json::Value>(data) {
        Ok(v) => Ok(v.to_string()),
        Err(e) => Err(e.to_string()),
    }
}

/// The pairs of a list of string pairs, as text.
pub open spec fn pair_texts(v: Seq<(String, String)>) -> Seq<(Seq<char>, Seq<char>)> {
    v.map_values(|p: (String, String)| (p.0@, p.1@))
}

/// The compact text of the `serde_json` object built from (key, string
/// value) pairs (a `Map` filled in order, printed with `to_string`).
/// Claimed: the result is `json_object_text` of the pairs.
#[verifier::external_body]
pub(crate) fn json_object(members: &Vec<(String, String)>) -> (r: String)
    ensures
        r@ == json_object_text(pair_texts(members@)),
{
    let mut m = serde_json::Map::new();
    for (k, v) in members.iter() {
        m.insert(k.clone(), serde_json::Value::String(v.clone()));
    }
    serde_json::Value::Object(m).to_string()
}

/// A request head as `httparse` reads it: method, path, version, the
/// header lines (name and raw value) and the length of the head.
pub struct RawHead {
    pub method: Option<String>,
    pub path: Option<String>,
    pub version: Option<u8>,
    pub headers: Vec<(String, Vec<u8>)>,
    pub len: usize,
}

/// The text of an optional string.
pub open spec fn opt_str(o: Option<String>) -> Option<Seq<char>> {
    match o {
        Some(s) => Some(s@),
        None => None,
    }
}

/// The header lines of a head, as text names and byte values.
pub open spec fn raw_lines(hs: Seq<(String, Vec<u8>)>) -> Seq<(Seq<char>, Seq<u8>)> {
    hs.map_values(|h: (String, Vec<u8>)| (h.0@, h.1@))
}

/// What `httparse::Request::parse` (with room for 64 headers) reads from a
/// byte string when it finds a complete head: method, path, version, the
/// header lines and the number of bytes of the head; `None` when the head
/// is incomplete or malformed.
pub uninterp spec fn httparse_head(bytes: Seq<u8>) -> Option<(Option<Seq<char>>, Option<Seq<char>>, Option<u8>, Seq<(Seq<char>, Seq<u8>)>, nat)>;

/// `httparse::Request::parse` with 64 header slots; `None` unless it
/// returns `Ok(Status::Complete(len))`. Claimed: the result is
/// `httparse_head` of the bytes; on a complete head the method, path and
/// version are present (the parser sets them before it reports
/// completion) and the head is no longer than the input.
#[verifier::external_body]
pub(crate) fn parse_head(bytes: &[u8]) -> (r: Option<RawHead>)
    ensures
        match (r, httparse_head(bytes@)) {
            (Some(h), Some(s)) => s == (opt_str(h.method), opt_str(h.path), h.version, raw_lines(
                h.headers@,
            ), h.len as nat) && h.method is Some && h.path is Some && h.version is Some && h.len
                <= bytes@.len(),
            (None, None) => true,
            _ => false,
        },
{
    let mut headers = [httparse::EMPTY_HEADER; 64];
    let mut req = httparse::Request::new(&mut headers);
    match req.parse(bytes) {
        Ok(httparse::Status::Complete(len)) => Some(RawHead {
            method: req.method.map(|m| m.to_string()),
            path: req.path.map(|p| p.to_string()),
            version: req.version,
            headers: req.headers.iter().map(|h| (h.name.to_string(), h.value.to_vec())).collect(),
            len,
        }),
        _ => None,
    }
}

/// The MIME type `mime_guess` gives a path: the first type known for its
/// extension, `application/octet-stream` when none is.
pub uninterp spec fn guessed_mime(path: Seq<char>) -> Seq<char>;

/// `mime_guess::from_path(path).first_or_octet_stream()`, as text. Claimed:
/// the result is `guessed_mime` of the path, and a path without an
/// extension gets `application/octet-stream`.
#[verifier::external_body]
pub(crate) fn mime_of_path(path: &str) -> (r: String)
    ensures
        r@ == guessed_mime(path@),
        crate::sys::path_extension(path@) is None ==> r@ == "application/octet-stream"@,
{
    mime_guess::from_path(path).first_or_octet_stream().to_string()
}

/// `Uuid::new_v4().to_string()`: a random identifier. Claimed: the text
/// is the hyphenated form, 36 characters with `-` at positions 8, 13, 18
/// and 23. Being random, nothing more is claimed of it. The crate panics
/// when the system gives no random bytes, which no argument can rule out.
#[verifier::external_body]
pub(crate) fn new_session_id() -> (r: String)
    ensures
        r@.len() == 36,
        r@[8] == '-' && r@[13] == '-' && r@[18] == '-' && r@[23] == '-',
{
    uuid::Uuid::new_v4().to_string()
}

} // verus!
