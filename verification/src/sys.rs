//! Calls into the standard library whose behaviour vstd does not specify:
//! Unicode case mapping, UTF-8 decoding, the clock and path names.
//! Each is a trusted wrapper; its doc comment says what is claimed.
use vstd::prelude::*;
use vstd::utf8::{valid_utf8, decode_utf8};
use vstd::string::StringSliceAdditionalSpecFns;
use crate::text::{is_ascii_text, lower_ascii_text, upper_ascii_text};

verus! {

/// A point in time: whole seconds and nanoseconds since the Unix epoch.
#[derive(Debug, Clone, Copy, PartialEq, Eq, Structural)]
pub struct TimeStamp {
    pub secs: u64,
    pub nanos: u32,
}

/// What `str::to_lowercase` gives for a text (the Unicode lower-case
/// mapping).
pub uninterp spec fn unicode_lower(s: Seq<char>) -> Seq<char>;

/// What `str::to_uppercase` gives for a text (the Unicode upper-case
/// mapping).
pub uninterp spec fn unicode_upper(s: Seq<char>) -> Seq<char>;

/// What `String::from_utf8_lossy` gives for a byte string.
pub uninterp spec fn utf8_lossy(b: Seq<u8>) -> Seq<char>;

/// The `Debug` text of the `SystemTime` that lies `secs` seconds and
/// `nanos` nanoseconds after the Unix epoch.
pub uninterp spec fn time_debug_text(secs: u64, nanos: u32) -> Seq<char>;

/// The extension that `Path::extension` finds in a path.
pub uninterp spec fn path_extension(p: Seq<char>) -> Option<Seq<char>>;

/// The stem that `Path::file_stem` finds in a path.
pub uninterp spec fn path_file_stem(p: Seq<char>) -> Option<Seq<char>>;

/// Whether `Path` compares two paths equal (component by component).
pub uninterp spec fn same_path(a: Seq<char>, b: Seq<char>) -> bool;

/// `Path::new(a) == Path::new(b)`. Claimed: the result is `same_path` of
/// the two texts, and equal texts are equal paths.
#[verifier::external_body]
pub(crate) fn paths_equal(a: &str, b: &str) -> (r: bool)
    ensures
        r == same_path(a@, b@),
        a@ == b@ ==> r,
{
    std::path::Path::new(a) == std::path::Path::new(b)
}

/// `str::to_lowercase`. Claimed: the result is `unicode_lower` of the
/// text, and on ASCII text it is the text with `A`-`Z` made `a`-`z`.
#[verifier::external_body]
pub(crate) fn to_lowercase(s: &str) -> (r: String)
    ensures
        r@ == unicode_lower(s@),
        is_ascii_text(s@) ==> r@ == lower_ascii_text(s@),
{
    s.to_lowercase()
}

/// `str::to_uppercase`. Claimed: the result is `unicode_upper` of the
/// text, and on ASCII text it is the text with `a`-`z` made `A`-`Z`.
#[verifier::external_body]
pub(crate) fn to_uppercase(s: &str) -> (r: String)
    ensures
        r@ == unicode_upper(s@),
        is_ascii_text(s@) ==> r@ == upper_ascii_text(s@),
{
    s.to_uppercase()
}

/// `std::str::from_utf8`. Claimed: it succeeds exactly on valid UTF-8,
/// and then the text is the decoding of the bytes.
#[verifier::external_body]
pub(crate) fn from_utf8(b: &[u8]) -> (r: Option<String>)
    ensures
        r is Some <==> valid_utf8(b@),
        r matches Some(s) ==> s@ == decode_utf8(b@),
{
    match std::str::from_utf8(b) {
        Ok(s) => Some(s.to_string()),
        Err(_) => None,
    }
}

/// `String::from_utf8_lossy`. Claimed: the result is `utf8_lossy` of the
/// bytes, and on valid UTF-8 it is the decoding of the bytes.
#[verifier::external_body]
pub(crate) fn from_utf8_lossy(b: &[u8]) -> (r: String)
    ensures
        r@ == utf8_lossy(b@),
        valid_utf8(b@) ==> r@ == decode_utf8(b@),
{
    String::from_utf8_lossy(b).into_owned()
}

/// The UTF-8 bytes of a text (`str::as_bytes`, copied).
pub fn utf8_bytes(s: &str) -> (r: Vec<u8>)
    ensures
        r@ == s.spec_bytes(),
{
    let b = s.as_bytes();
    let mut r: Vec<u8> = Vec::new();
    let mut i: usize = 0;
    while i < b.len()
        invariant
            i <= b@.len(),
            r@ == b@.take(i as int),
        decreases b@.len() - i,
    {
        r.push(b[i]);
        i = i + 1;
        assert(b@.take(i as int) == b@.take(i - 1).push(b@[i - 1]));
    }
    assert(b@.take(i as int) =~= b@);
    r
}

/// `SystemTime::now`, as the time since the Unix epoch (a clock set
/// before the epoch reads as the epoch itself). Nothing is claimed of the
/// value but that the nanoseconds are below one second.
#[verifier::external_body]
pub(crate) fn now() -> (r: TimeStamp)
    ensures
        r.nanos < 1_000_000_000,
{
    let d = std::time::SystemTime::now().duration_since(std::time::UNIX_EPOCH).unwrap_or_default();
    TimeStamp { secs: d.as_secs(), nanos: d.subsec_nanos() }
}

/// The `Debug` text of the `SystemTime` at `t` (`format!("{:?}", ..)`).
/// Claimed: it is `time_debug_text` of the time. Adding the time to the
/// epoch panics past what the system clock holds (seconds beyond
/// `i64::MAX`), so such times are left out.
#[verifier::external_body]
pub(crate) fn time_debug(t: &TimeStamp) -> (r: String)
    requires
        t.nanos < 1_000_000_000,
        t.secs <= i64::MAX,
    ensures
        r@ == time_debug_text(t.secs, t.nanos),
{
    let st = std::time::UNIX_EPOCH + std::time::Duration::new(t.secs, t.nanos);
    format!("{:?}", st)
}

/// `Path::extension` followed by `OsStr::to_str` (an extension of a text
/// path is text). Claimed: the result is `path_extension` of the path.
#[verifier::external_body]
pub(crate) fn extension_of(p: &str) -> (r: Option<String>)
    ensures
        r matches Some(e) ==> path_extension(p@) == Some(e@),
        r is None ==> path_extension(p@) is None,
{
    std::path::Path::new(p).extension().and_then(|e| e.to_str()).map(|e| e.to_string())
}

/// `Path::file_stem` followed by `OsStr::to_str`. Claimed: the result is
/// `path_file_stem` of the path.
#[verifier::external_body]
pub(crate) fn file_stem_of(p: &str) -> (r: Option<String>)
    ensures
        r matches Some(e) ==> path_file_stem(p@) == Some(e@),
        r is None ==> path_file_stem(p@) is None,
{
    std::path::Path::new(p).file_stem().and_then(|e| e.to_str()).map(|e| e.to_string())
}

} // verus!
