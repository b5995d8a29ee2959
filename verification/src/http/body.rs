//! Message bodies: text, JSON, URL-encoded forms, binary data and
//! multipart forms, and how a body is read according to its MIME type.
use vstd::prelude::*;
use vstd::utf8::{valid_utf8, decode_utf8, encode_utf8};
use vstd::string::StringSliceAdditionalSpecFns;
use crate::bytes::{find_sub, find_subsequence_from, lemma_find_sub_props, lemma_find_sub_first, occurs_at, slice_bytes, push_bytes};
use crate::deps::{json_reserialized, parse_json};
use crate::http::header::{
    Header, HeaderName, HeaderNameSpec, ParsedContentDisposition, ContentType, spec_name_from_str,
    spec_parsed_value, trimmed_pieces, spec_params, param_key, param_value, law_header_name_round_trip,
    lemma_trim_after_space,
};
use crate::map::{StrMap, Duplicate, map_get, map_insert, distinct_keys, lemma_insert_distinct, lemma_key_index_none, lemma_get_after_insert};
use crate::sys::{TimeStamp, from_utf8, from_utf8_lossy, to_lowercase, unicode_lower, utf8_lossy};
use crate::text::{
    chars_is, chars_begin, chars_of, chars_eq, owned, push_str, push_all, string_of, split, split_on, split_once,
    split_once_on, views, has_prefix, starts_with, decimal, decimal_chars, find_char, lemma_find_char_at,
    lemma_split_whole, lemma_split_last, lemma_split_first, trim, trim_char, trim_char_start, trim_char_end, is_space,
};

verus! {

// ============= Multipart parsing =============
/// The two bytes that end a line.
pub open spec fn crlf() -> Seq<u8> {
    seq![13u8, 10u8]
}

/// The parts of a multipart body that `split_multipart` cuts out, looking
/// for the boundary `b` from position `cur` on: the bytes between one
/// occurrence of the boundary and the next, less the two bytes that end
/// the line before the next boundary; the bytes before the first boundary
/// are no part.
#[verifier::opaque]
pub open spec fn spec_split_from(data: Seq<u8>, b: Seq<u8>, cur: int) -> Seq<Seq<u8>>
    decreases data.len() - cur,
{
    if !(0 <= cur <= data.len()) || b.len() == 0 {
        Seq::empty()
    } else {
        match find_sub(data.skip(cur), b) {
            Some(pos) => {
                if 0 <= pos && cur + pos + b.len() <= data.len() {
                    let next = spec_split_from(data, b, cur + pos + b.len());
                    if cur > 0 {
                        seq![data.subrange(cur, cur + pos - 2)] + next
                    } else {
                        next
                    }
                } else {
                    Seq::empty()
                }
            },
            None => Seq::empty(),
        }
    }
}

/// Whether splitting from `cur` on never meets two boundaries less than
/// two bytes apart (on which `split_multipart` panics).
#[verifier::opaque]
pub open spec fn split_defined(data: Seq<u8>, b: Seq<u8>, cur: int) -> bool
    decreases data.len() - cur,
{
    if !(0 <= cur <= data.len()) || b.len() == 0 {
        true
    } else {
        match find_sub(data.skip(cur), b) {
            Some(pos) => {
                if 0 <= pos && cur + pos + b.len() <= data.len() {
                    (cur > 0 ==> pos >= 2) && split_defined(data, b, cur + pos + b.len())
                } else {
                    true
                }
            },
            None => true,
        }
    }
}

/// The header lines (name and value, split at the first `:`) and the data
/// that `parse_part` reads from position `pos` of a part: each line that
/// ends with CRLF is a header when it is UTF-8 text with a `:` (other lines
/// are dropped); an empty line ends the head, and all that follows it is
/// the data. Without an empty line, what follows the last line end is the
/// data.
#[verifier::opaque]
pub open spec fn spec_part_lines(part: Seq<u8>, pos: int) -> (Seq<(Seq<char>, Seq<char>)>, Seq<u8>)
    decreases part.len() - pos,
{
    if !(0 <= pos <= part.len()) {
        (Seq::empty(), Seq::empty())
    } else {
        match find_sub(part.skip(pos), crlf()) {
            None => (Seq::empty(), part.skip(pos)),
            Some(le) => {
                if !(0 <= le && pos + le + 2 <= part.len()) {
                    (Seq::empty(), Seq::empty())
                } else if le == 0 {
                    (Seq::empty(), part.skip(pos + 2))
                } else {
                    let line = part.subrange(pos, pos + le);
                    let rest = spec_part_lines(part, pos + le + 2);
                    if valid_utf8(line) {
                        match split_once(decode_utf8(line), ':') {
                            Some((n, v)) => (seq![(n, v)] + rest.0, rest.1),
                            None => rest,
                        }
                    } else {
                        rest
                    }
                }
            },
        }
    }
}

/// Where the head of a part begins: after the line end that closes the
/// boundary line, when the part starts with one.
pub open spec fn part_start(part: Seq<u8>) -> int {
    if part.len() >= 2 && part[0] == 13u8 && part[1] == 10u8 {
        2
    } else {
        0
    }
}

/// The header lines and the data of a part.
pub open spec fn spec_part(part: Seq<u8>) -> (Seq<(Seq<char>, Seq<char>)>, Seq<u8>) {
    spec_part_lines(part, part_start(part))
}

proof fn lemma_split_step(data: Seq<u8>, b: Seq<u8>, cur: int, pos: int)
    requires
        0 <= cur <= data.len(),
        b.len() > 0,
        find_sub(data.skip(cur), b) == Some(pos),
        occurs_at(data.skip(cur), b, pos),
    ensures
        cur + pos + b.len() <= data.len(),
        spec_split_from(data, b, cur) == (if cur > 0 {
            seq![data.subrange(cur, cur + pos - 2)]
        } else {
            Seq::empty()
        }) + spec_split_from(data, b, cur + pos + b.len()),
        split_defined(data, b, cur) == ((cur > 0 ==> pos >= 2) && split_defined(
            data,
            b,
            cur + pos + b.len(),
        )),
{
    reveal(spec_split_from);
    reveal(split_defined);
    if cur == 0 {
        assert(Seq::<Seq<u8>>::empty() + spec_split_from(data, b, cur + pos + b.len())
            =~= spec_split_from(data, b, cur + pos + b.len()));
    }
}

proof fn lemma_split_none(data: Seq<u8>, b: Seq<u8>, cur: int)
    requires
        0 <= cur <= data.len(),
        b.len() > 0,
        find_sub(data.skip(cur), b) is None,
    ensures
        spec_split_from(data, b, cur) == Seq::<Seq<u8>>::empty(),
        split_defined(data, b, cur),
{
    reveal(spec_split_from);
    reveal(split_defined);
}

proof fn lemma_part_lines_stop(part: Seq<u8>, pos: int)
    requires
        0 <= pos <= part.len(),
        find_sub(part.skip(pos), crlf()) is None,
    ensures
        spec_part_lines(part, pos) == (Seq::<(Seq<char>, Seq<char>)>::empty(), part.skip(pos)),
{
    reveal(spec_part_lines);
}

proof fn lemma_part_lines_blank(part: Seq<u8>, pos: int)
    requires
        0 <= pos <= part.len(),
        find_sub(part.skip(pos), crlf()) == Some(0int),
        occurs_at(part.skip(pos), crlf(), 0),
    ensures
        pos + 2 <= part.len(),
        spec_part_lines(part, pos) == (Seq::<(Seq<char>, Seq<char>)>::empty(), part.skip(pos + 2)),
{
    reveal(spec_part_lines);
}

proof fn lemma_part_lines_step(part: Seq<u8>, pos: int, le: int)
    requires
        0 <= pos <= part.len(),
        find_sub(part.skip(pos), crlf()) == Some(le),
        occurs_at(part.skip(pos), crlf(), le),
        le != 0,
    ensures
        pos + le + 2 <= part.len(),
        ({
            let line = part.subrange(pos, pos + le);
            let rest = spec_part_lines(part, pos + le + 2);
            spec_part_lines(part, pos) == if valid_utf8(line) {
                match split_once(decode_utf8(line), ':') {
                    Some((n, v)) => (seq![(n, v)] + rest.0, rest.1),
                    None => rest,
                }
            } else {
                rest
            }
        }),
{
    reveal(spec_part_lines);
    lemma_find_sub_props(part.skip(pos), crlf());
}

/// The position of the first header line whose name is `n`.
pub open spec fn first_named(hs: Seq<(Seq<char>, Seq<char>)>, n: HeaderNameSpec) -> Option<int>
    decreases hs.len(),
{
    if hs.len() == 0 {
        None
    } else if spec_name_from_str(hs[0].0) == n {
        Some(0)
    } else {
        match first_named(hs.drop_first(), n) {
            Some(i) => Some(i + 1),
            None => None,
        }
    }
}

pub proof fn lemma_first_named(hs: Seq<(Seq<char>, Seq<char>)>, n: HeaderNameSpec)
    ensures
        first_named(hs, n) matches Some(i) ==> 0 <= i < hs.len() && spec_name_from_str(hs[i].0)
            == n && forall|j: int| 0 <= j < i ==> spec_name_from_str(hs[j].0) != n,
        first_named(hs, n) is None ==> forall|j: int|
            0 <= j < hs.len() ==> spec_name_from_str(hs[j].0) != n,
    decreases hs.len(),
{
    if hs.len() > 0 {
        lemma_first_named(hs.drop_first(), n);
        if spec_name_from_str(hs[0].0) != n {
            assert forall|j: int| 0 < j < hs.len() implies hs[j] == hs.drop_first()[j - 1] by {}
        }
    }
}

/// Whether the headers `hs` are those read from the lines `ls`.
pub open spec fn headers_of_lines(hs: Seq<Header>, ls: Seq<(Seq<char>, Seq<char>)>) -> bool {
    &&& hs.len() == ls.len()
    &&& forall|i: int|
        0 <= i < hs.len() ==> (#[trigger] hs[i]).name@ == spec_name_from_str(ls[i].0)
            && hs[i].value.value@ == ls[i].1
}

/// The parts of a multipart body: the pieces between the boundaries.
pub fn split_multipart(data: &[u8], boundary: &[u8]) -> (r: Vec<Vec<u8>>)
    requires
        boundary.len() > 0,
        split_defined(data@, boundary@, 0),
    ensures
        r@.map_values(|p: Vec<u8>| p@) == spec_split_from(data@, boundary@, 0),
{
    let mut parts: Vec<Vec<u8>> = Vec::new();
    let mut current_pos: usize = 0;
    assert(parts@.map_values(|p: Vec<u8>| p@) =~= Seq::<Seq<u8>>::empty());
    loop
        invariant
            current_pos <= data.len(),
            boundary.len() > 0,
            split_defined(data@, boundary@, current_pos as int),
            spec_split_from(data@, boundary@, 0) == parts@.map_values(|p: Vec<u8>| p@)
                + spec_split_from(data@, boundary@, current_pos as int),
        decreases data.len() - current_pos,
    {
        let found = find_subsequence_from(data, current_pos, boundary);
        proof {
            lemma_find_sub_props(data@.skip(current_pos as int), boundary@);
        }
        match found {
            Some(pos) => {
                proof {
                    assert(occurs_at(data@.skip(current_pos as int), boundary@, pos as int));
                    lemma_split_step(data@, boundary@, current_pos as int, pos as int);
                }
                if current_pos > 0 {
                    let piece = slice_bytes(data, current_pos, current_pos + pos - 2);
                    proof {
                        assert(parts@.push(piece).map_values(|p: Vec<u8>| p@) =~= parts@.map_values(
                            |p: Vec<u8>| p@,
                        ).push(piece@));
                    }
                    parts.push(piece);
                }
                current_pos = current_pos + pos + boundary.len();
            },
            None => {
                proof {
                    lemma_split_none(data@, boundary@, current_pos as int);
                }
                assert(parts@.map_values(|p: Vec<u8>| p@) + Seq::<Seq<u8>>::empty() =~= parts@.map_values(
                    |p: Vec<u8>| p@,
                ));
                return parts;
            },
        }
    }
}

/// Whether splitting `data` at `boundary` is defined.
fn splittable(data: &[u8], boundary: &[u8]) -> (r: bool)
    requires
        boundary.len() > 0,
    ensures
        r == split_defined(data@, boundary@, 0),
{
    let mut current_pos: usize = 0;
    loop
        invariant
            current_pos <= data.len(),
            boundary.len() > 0,
            split_defined(data@, boundary@, 0) == split_defined(data@, boundary@, current_pos as int),
        decreases data.len() - current_pos,
    {
        let found = find_subsequence_from(data, current_pos, boundary);
        proof {
            lemma_find_sub_props(data@.skip(current_pos as int), boundary@);
        }
        match found {
            Some(pos) => {
                proof {
                    assert(occurs_at(data@.skip(current_pos as int), boundary@, pos as int));
                    lemma_split_step(data@, boundary@, current_pos as int, pos as int);
                }
                if current_pos > 0 && pos < 2 {
                    return false;
                }
                current_pos = current_pos + pos + boundary.len();
            },
            None => {
                proof {
                    lemma_split_none(data@, boundary@, current_pos as int);
                }
                return true;
            },
        }
    }
}

/// Whether reading a multipart body with the given boundary is defined.
pub fn multipart_splittable(data: &[u8], boundary: &str) -> (r: bool)
    ensures
        r == multipart_defined(data@, boundary@),
{
    let mut marker: Vec<u8> = Vec::new();
    marker.push(45u8);
    marker.push(45u8);
    let b = crate::sys::utf8_bytes(boundary);
    push_bytes(&mut marker, &b);
    assert(marker@ =~= boundary_marker(boundary@));
    splittable(data, &marker)
}

/// Reads the header lines and data of a multipart part.
pub fn parse_part(part: &[u8]) -> (r: Option<(Vec<Header>, Vec<u8>)>)
    ensures
        r matches Some((hs, d)) && headers_of_lines(hs@, spec_part(part@).0) && d@ == spec_part(part@).1,
{
    let mut headers: Vec<Header> = Vec::new();
    let mut pos: usize = if part.len() >= 2 && part[0] == 13u8 && part[1] == 10u8 {
        2
    } else {
        0
    };
    let ghost start = pos as int;
    assert(start == part_start(part@));
    let mut nl: Vec<u8> = Vec::new();
    nl.push(13u8);
    nl.push(10u8);
    assert(nl@ =~= crlf());
    let ghost hl: Seq<(Seq<char>, Seq<char>)> = Seq::empty();
    assert(hl + spec_part_lines(part@, start).0 =~= spec_part_lines(part@, start).0);
    let mut part_data: Vec<u8> = Vec::new();
    loop
        invariant
            pos <= part.len(),
            nl@ == crlf(),
            start == part_start(part@),
            headers_of_lines(headers@, hl),
            spec_part(part@).0 == hl + spec_part_lines(part@, pos as int).0,
            spec_part(part@).1 == spec_part_lines(part@, pos as int).1,
        ensures
            headers_of_lines(headers@, spec_part(part@).0),
            part_data@ == spec_part(part@).1,
        decreases part.len() - pos,
    {
        let found = find_subsequence_from(part, pos, &nl);
        proof {
            lemma_find_sub_props(part@.skip(pos as int), crlf());
        }
        match found {
            None => {
                proof {
                    lemma_part_lines_stop(part@, pos as int);
                }
                assert(hl + Seq::<(Seq<char>, Seq<char>)>::empty() =~= hl);
                part_data = slice_bytes(part, pos, part.len());
                assert(part_data@ =~= part@.skip(pos as int));
                break ;
            },
            Some(line_end) => {
                proof {
                    assert(occurs_at(part@.skip(pos as int), crlf(), line_end as int));
                }
                if line_end == 0 {
                    proof {
                        lemma_part_lines_blank(part@, pos as int);
                    }
                    assert(hl + Seq::<(Seq<char>, Seq<char>)>::empty() =~= hl);
                    part_data = slice_bytes(part, pos + 2, part.len());
                    assert(part_data@ =~= part@.skip(pos + 2));
                    break ;
                }
                proof {
                    lemma_part_lines_step(part@, pos as int, line_end as int);
                }
                let line = slice_bytes(part, pos, pos + line_end);
                match from_utf8(&line) {
                    Some(text) => {
                        let chars = chars_of(text.as_str());
                        match split_once_on(&chars, ':') {
                            Some((name, value)) => {
                                let ns = string_of(&name);
                                let vs = string_of(&value);
                                let h = Header::from_str(ns.as_str(), vs.as_str());
                                proof {
                                    let hl2 = hl.push((name@, value@));
                                    assert forall|i: int| 0 <= i < headers@.push(h).len() implies (
                                    #[trigger] headers@.push(h)[i]).name@ == spec_name_from_str(
                                        hl2[i].0,
                                    ) && headers@.push(h)[i].value.value@ == hl2[i].1 by {
                                        if i < headers@.len() {
                                            assert(headers@.push(h)[i] == headers@[i]);
                                        }
                                    }
                                    assert(hl + spec_part_lines(part@, pos as int).0 =~= hl2
                                        + spec_part_lines(part@, (pos + line_end + 2) as int).0);
                                    hl = hl2;
                                }
                                headers.push(h);
                            },
                            None => {},
                        }
                    },
                    None => {},
                }
                pos = pos + line_end + 2;
            },
        }
    }
    Some((headers, part_data))
}

// ============= Types =============
/// A JSON value, held as its compact text (what `serde_json` prints for
/// it).
#[derive(Debug, Clone)]
pub struct JsonValue {
    text: String,
}

impl View for JsonValue {
    type V = Seq<char>;

    closed spec fn view(&self) -> Seq<char> {
        self.text@
    }
}

impl JsonValue {
    /// The value whose compact JSON text is `text`.
    pub fn from_serialized(text: String) -> (r: JsonValue)
        ensures
            r@ == text@,
    {
        JsonValue { text }
    }

    /// The compact JSON text.
    pub fn as_text(&self) -> (r: &str)
        ensures
            r@ == self@,
    {
        self.text.as_str()
    }
}

/// Form fields from an `application/x-www-form-urlencoded` body.
#[derive(Debug)]
pub struct FormUrlEncoded {
    data: StrMap<String>,
}

impl View for FormUrlEncoded {
    type V = Seq<(Seq<char>, Seq<char>)>;

    closed spec fn view(&self) -> Seq<(Seq<char>, Seq<char>)> {
        self.data@
    }
}

/// A file sent in a multipart form.
#[derive(Debug, Clone)]
pub struct MultipartFile {
    pub filename: String,
    pub content_type: String,
    pub data: Vec<u8>,
}

pub struct FileSpec {
    pub filename: Seq<char>,
    pub content_type: Seq<char>,
    pub data: Seq<u8>,
}

impl View for MultipartFile {
    type V = FileSpec;

    open spec fn view(&self) -> FileSpec {
        FileSpec { filename: self.filename@, content_type: self.content_type@, data: self.data@ }
    }
}

/// The fields and files of a `multipart/form-data` body.
#[derive(Debug)]
pub struct MultipartForm {
    pub fields: StrMap<String>,
    pub files: StrMap<MultipartFile>,
}

pub struct MultipartSpec {
    pub fields: Seq<(Seq<char>, Seq<char>)>,
    pub files: Seq<(Seq<char>, FileSpec)>,
}

impl View for MultipartForm {
    type V = MultipartSpec;

    open spec fn view(&self) -> MultipartSpec {
        MultipartSpec { fields: self.fields@, files: self.files@ }
    }
}

/// Why a body could not be read.
#[derive(Debug)]
pub enum BodyError {
    InvalidUtf8(String),
    InvalidJson(String),
    UnsupportedMimeType(String),
    ParseError(String),
    MultipartError(String),
    EmptyBody(String),
}

pub enum BodyErrorSpec {
    InvalidUtf8(Seq<char>),
    InvalidJson(Seq<char>),
    UnsupportedMimeType(Seq<char>),
    ParseError(Seq<char>),
    MultipartError(Seq<char>),
    EmptyBody(Seq<char>),
}

impl View for BodyError {
    type V = BodyErrorSpec;

    open spec fn view(&self) -> BodyErrorSpec {
        match self {
            BodyError::InvalidUtf8(s) => BodyErrorSpec::InvalidUtf8(s@),
            BodyError::InvalidJson(s) => BodyErrorSpec::InvalidJson(s@),
            BodyError::UnsupportedMimeType(s) => BodyErrorSpec::UnsupportedMimeType(s@),
            BodyError::ParseError(s) => BodyErrorSpec::ParseError(s@),
            BodyError::MultipartError(s) => BodyErrorSpec::MultipartError(s@),
            BodyError::EmptyBody(s) => BodyErrorSpec::EmptyBody(s@),
        }
    }
}

/// The text of a body error (what `Display` prints).
pub open spec fn spec_body_error_text(e: BodyErrorSpec) -> Seq<char> {
    match e {
        BodyErrorSpec::InvalidUtf8(m) => "Invalid UTF-8: "@ + m,
        BodyErrorSpec::InvalidJson(m) => "Invalid JSON: "@ + m,
        BodyErrorSpec::UnsupportedMimeType(m) => "Unsupported MIME type: "@ + m,
        BodyErrorSpec::ParseError(m) => "Parse error: "@ + m,
        BodyErrorSpec::MultipartError(m) => "Multipart error: "@ + m,
        BodyErrorSpec::EmptyBody(m) => "Empty body: "@ + m,
    }
}

impl BodyError {
    /// The text of the error (what `Display` prints).
    pub fn to_text(&self) -> (r: String)
        ensures
            r@ == spec_body_error_text(self@),
    {
        let (prefix, m) = match self {
            BodyError::InvalidUtf8(m) => ("Invalid UTF-8: ", m),
            BodyError::InvalidJson(m) => ("Invalid JSON: ", m),
            BodyError::UnsupportedMimeType(m) => ("Unsupported MIME type: ", m),
            BodyError::ParseError(m) => ("Parse error: ", m),
            BodyError::MultipartError(m) => ("Multipart error: ", m),
            BodyError::EmptyBody(m) => ("Empty body: ", m),
        };
        let mut v = chars_of(prefix);
        push_str(&mut v, m.as_str());
        string_of(&v)
    }
}

/// A message body.
#[derive(Debug)]
pub enum Body {
    Text(String),
    Json(JsonValue),
    FormUrlEncoded(FormUrlEncoded),
    Binary(Vec<u8>),
    Multipart(MultipartForm),
    Empty,
}

pub enum BodySpec {
    Text(Seq<char>),
    Json(Seq<char>),
    FormUrlEncoded(Seq<(Seq<char>, Seq<char>)>),
    Binary(Seq<u8>),
    Multipart(MultipartSpec),
    Empty,
}

impl View for Body {
    type V = BodySpec;

    open spec fn view(&self) -> BodySpec {
        match self {
            Body::Text(t) => BodySpec::Text(t@),
            Body::Json(j) => BodySpec::Json(j@),
            Body::FormUrlEncoded(f) => BodySpec::FormUrlEncoded(f@),
            Body::Binary(b) => BodySpec::Binary(b@),
            Body::Multipart(m) => BodySpec::Multipart(m@),
            Body::Empty => BodySpec::Empty,
        }
    }
}

// ============= Multipart forms =============
/// The MIME type of a part: that of its first `Content-Type` header,
/// `text/plain` without one.
pub open spec fn part_mime(hs: Seq<(Seq<char>, Seq<char>)>) -> Seq<char> {
    match first_named(hs, HeaderNameSpec::ContentType) {
        Some(j) => trimmed_pieces(hs[j].1)[0],
        None => "text/plain"@,
    }
}

/// The form after reading one part: a part with a `Content-Disposition`
/// header and a `name` parameter becomes a file (of the part's MIME type)
/// when it has a `filename` parameter, else a field when its data is UTF-8
/// text.
pub open spec fn spec_add_part(form: MultipartSpec, part: Seq<u8>) -> MultipartSpec {
    let hs = spec_part(part).0;
    let d = spec_part(part).1;
    match first_named(hs, HeaderNameSpec::ContentDisposition) {
        Some(i) => {
            let cdp = spec_params(trimmed_pieces(hs[i].1).skip(1));
            let mime = part_mime(hs);
            match map_get(cdp, "name"@) {
                Some(name) => match map_get(cdp, "filename"@) {
                    Some(fname) => MultipartSpec {
                        files: map_insert(
                            form.files,
                            name,
                            FileSpec { filename: fname, content_type: mime, data: d },
                        ),
                        ..form
                    },
                    None => if valid_utf8(d) {
                        MultipartSpec {
                            fields: map_insert(form.fields, name, decode_utf8(d)),
                            ..form
                        }
                    } else {
                        form
                    },
                },
                None => form,
            }
        },
        None => form,
    }
}

/// The form after reading the parts `ps` in turn.
pub open spec fn spec_add_parts(form: MultipartSpec, ps: Seq<Seq<u8>>) -> MultipartSpec
    decreases ps.len(),
{
    if ps.len() == 0 {
        form
    } else {
        spec_add_part(spec_add_parts(form, ps.drop_last()), ps.last())
    }
}

/// The parameters of the `Content-Disposition` header of a part, when it
/// has one.
pub open spec fn part_disposition(part: Seq<u8>) -> Option<Seq<(Seq<char>, Seq<char>)>> {
    let hs = spec_part(part).0;
    match first_named(hs, HeaderNameSpec::ContentDisposition) {
        Some(i) => Some(spec_params(trimmed_pieces(hs[i].1).skip(1))),
        None => None,
    }
}

/// The `name` a part gives in its `Content-Disposition` header.
pub open spec fn part_name(part: Seq<u8>) -> Option<Seq<char>> {
    match part_disposition(part) {
        Some(ps) => map_get(ps, "name"@),
        None => None,
    }
}

/// The `filename` a part gives in its `Content-Disposition` header.
pub open spec fn part_filename(part: Seq<u8>) -> Option<Seq<char>> {
    match part_disposition(part) {
        Some(ps) => map_get(ps, "filename"@),
        None => None,
    }
}

/// What the form holds under the name of a part once the part is read:
/// with a file name, the file (its name, its MIME type, its data); else
/// the field of its text.
pub open spec fn holds_part(form: MultipartSpec, part: Seq<u8>) -> bool {
    let n = part_name(part)->0;
    let d = spec_part(part).1;
    match part_filename(part) {
        Some(f) => map_get(form.files, n) == Some(FileSpec { filename: f, content_type: part_mime(spec_part(part).0), data: d }),
        None => map_get(form.fields, n) == Some(decode_utf8(d)),
    }
}

/// Whether the parts can all be read into a form: each names itself, no
/// two share a name, and a part without a file name holds UTF-8 text.
pub open spec fn readable_parts(ps: Seq<Seq<u8>>) -> bool {
    &&& forall|k: int| 0 <= k < ps.len() ==> (#[trigger] part_name(ps[k])) is Some
    &&& forall|k: int| 0 <= k < ps.len() ==> (#[trigger] part_filename(ps[k]) is None ==> valid_utf8(spec_part(ps[k]).1))
    &&& forall|j: int, k: int| 0 <= j < k < ps.len() ==> #[trigger] part_name(ps[j]) != #[trigger] part_name(ps[k])
}

/// Reading a part keeps the form's names distinct, and leaves what the
/// form holds under every other name as it was.
proof fn lemma_add_part_other(form: MultipartSpec, part: Seq<u8>, q: Seq<char>)
    requires
        distinct_keys(form.fields),
        distinct_keys(form.files),
        part_name(part) is Some,
        q != part_name(part)->0,
    ensures
        distinct_keys(spec_add_part(form, part).fields),
        distinct_keys(spec_add_part(form, part).files),
        map_get(spec_add_part(form, part).fields, q) == map_get(form.fields, q),
        map_get(spec_add_part(form, part).files, q) == map_get(form.files, q),
{
    let n = part_name(part)->0;
    let d = spec_part(part).1;
    let fs = FileSpec { filename: part_filename(part)->0, content_type: part_mime(spec_part(part).0), data: d };
    lemma_insert_distinct(form.files, n, fs);
    lemma_get_after_insert(form.files, n, fs, q);
    lemma_insert_distinct(form.fields, n, decode_utf8(d));
    lemma_get_after_insert(form.fields, n, decode_utf8(d), q);
}

/// Reading parts that can all be read leaves the form holding every one
/// of them under its name: none is dropped, whatever their number.
pub proof fn law_every_part_read(form: MultipartSpec, ps: Seq<Seq<u8>>)
    requires
        distinct_keys(form.fields),
        distinct_keys(form.files),
        readable_parts(ps),
    ensures
        distinct_keys(spec_add_parts(form, ps).fields),
        distinct_keys(spec_add_parts(form, ps).files),
        forall|k: int| 0 <= k < ps.len() ==> holds_part(spec_add_parts(form, ps), #[trigger] ps[k]),
    decreases ps.len(),
{
    if ps.len() > 0 {
        let q = ps.drop_last();
        let last = ps.last();
        assert(readable_parts(q)) by {
            assert forall|k: int| 0 <= k < q.len() implies (#[trigger] part_name(q[k])) is Some by {
                assert(q[k] == ps[k]);
            }
            assert forall|k: int| 0 <= k < q.len() implies (#[trigger] part_filename(q[k]) is None ==> valid_utf8(spec_part(q[k]).1)) by {
                assert(q[k] == ps[k]);
            }
            assert forall|j: int, k: int| 0 <= j < k < q.len() implies #[trigger] part_name(q[j]) != #[trigger] part_name(q[k]) by {
                assert(q[j] == ps[j]);
                assert(q[k] == ps[k]);
            }
        }
        law_every_part_read(form, q);
        let mid = spec_add_parts(form, q);
        assert(part_name(ps[ps.len() - 1]) is Some);
        let n = part_name(last)->0;
        let d = spec_part(last).1;
        let fs = FileSpec { filename: part_filename(last)->0, content_type: part_mime(spec_part(last).0), data: d };
        lemma_insert_distinct(mid.files, n, fs);
        lemma_get_after_insert(mid.files, n, fs, n);
        lemma_insert_distinct(mid.fields, n, decode_utf8(d));
        lemma_get_after_insert(mid.fields, n, decode_utf8(d), n);
        assert(part_filename(ps[ps.len() - 1]) is None ==> valid_utf8(spec_part(ps[ps.len() - 1]).1));
        assert forall|k: int| 0 <= k < ps.len() implies holds_part(spec_add_parts(form, ps), #[trigger] ps[k]) by {
            if k < ps.len() - 1 {
                assert(ps[k] == q[k]);
                assert(part_name(ps[k]) != part_name(ps[ps.len() - 1]));
                assert(part_name(ps[k]) is Some);
                lemma_add_part_other(mid, last, part_name(ps[k])->0);
            }
        }
    }
}

/// Parts framed by a boundary marker `b`: each part, the line end, the
/// marker; then `tail` (what follows the last marker).
pub open spec fn framed(b: Seq<u8>, ps: Seq<Seq<u8>>, tail: Seq<u8>) -> Seq<u8>
    decreases ps.len(),
{
    if ps.len() == 0 {
        tail
    } else {
        ps[0] + crlf() + b + framed(b, ps.drop_first(), tail)
    }
}

/// The marker `b` first occurs, in a part followed by a line end and the
/// marker, at that marker.
pub open spec fn marker_free(p: Seq<u8>, b: Seq<u8>) -> bool {
    forall|j: int| 0 <= j < p.len() + 2 ==> !occurs_at(p + crlf() + b, b, j)
}

proof fn lemma_first_marker(p: Seq<u8>, b: Seq<u8>, x: Seq<u8>)
    requires
        b.len() > 0,
        marker_free(p, b),
    ensures
        find_sub(p + crlf() + b + x, b) == Some(p.len() + 2int),
        occurs_at(p + crlf() + b + x, b, p.len() + 2int),
{
    let q = p + crlf() + b;
    let h = q + x;
    let i: int = p.len() + 2int;
    assert(h.subrange(i, i + b.len()) =~= b);
    assert forall|j: int| 0 <= j < i implies !occurs_at(h, b, j) by {
        if occurs_at(h, b, j) {
            assert(h.subrange(j, j + b.len()) =~= q.subrange(j, j + b.len()));
            assert(occurs_at(q, b, j));
        }
    }
    lemma_find_sub_first(h, b, i);
}

proof fn lemma_split_framed(data: Seq<u8>, b: Seq<u8>, cur: int, ps: Seq<Seq<u8>>, tail: Seq<u8>)
    requires
        0 < cur <= data.len(),
        b.len() > 0,
        data.skip(cur) == framed(b, ps, tail),
        forall|k: int| 0 <= k < ps.len() ==> marker_free(#[trigger] ps[k], b),
        find_sub(tail, b) is None,
    ensures
        spec_split_from(data, b, cur) == ps,
        split_defined(data, b, cur),
    decreases ps.len(),
{
    if ps.len() == 0 {
        lemma_split_none(data, b, cur);
    } else {
        let p0 = ps[0];
        let rest = ps.drop_first();
        assert(marker_free(ps[0], b));
        lemma_first_marker(p0, b, framed(b, rest, tail));
        assert(data.skip(cur) == p0 + crlf() + b + framed(b, rest, tail));
        let pos: int = p0.len() + 2int;
        lemma_split_step(data, b, cur, pos);
        assert(data.subrange(cur, cur + pos - 2) =~= p0) by {
            assert forall|j: int| 0 <= j < p0.len() implies data.subrange(cur, cur + pos - 2)[j] == p0[j] by {
                assert(data.skip(cur)[j] == data[cur + j]);
                assert((p0 + crlf() + b + framed(b, rest, tail))[j] == p0[j]);
            }
        }
        let nxt = cur + pos + b.len();
        assert(data.skip(nxt) =~= framed(b, rest, tail)) by {
            assert forall|j: int| 0 <= j < data.skip(nxt).len() implies data.skip(nxt)[j] == framed(b, rest, tail)[j] by {
                assert(data.skip(cur)[pos + b.len() + j] == data[nxt + j]);
            }
        }
        assert forall|k: int| 0 <= k < rest.len() implies marker_free(#[trigger] rest[k], b) by {
            assert(rest[k] == ps[k + 1]);
        }
        lemma_split_framed(data, b, nxt, rest, tail);
        assert(seq![p0] + rest =~= ps);
    }
}

/// A multipart body made of parts framed by the boundary marker (the
/// marker, then each part followed by a line end and the marker, then a
/// tail without the marker, such as `--`) is read part by part: reading it
/// is defined, and the form holds every part that can be read under its
/// name.
pub proof fn law_multipart_body_read(form: MultipartSpec, boundary: Seq<char>, ps: Seq<Seq<u8>>, tail: Seq<u8>)
    requires
        distinct_keys(form.fields),
        distinct_keys(form.files),
        readable_parts(ps),
        forall|k: int| 0 <= k < ps.len() ==> marker_free(#[trigger] ps[k], boundary_marker(boundary)),
        find_sub(tail, boundary_marker(boundary)) is None,
    ensures
        multipart_defined(boundary_marker(boundary) + framed(boundary_marker(boundary), ps, tail), boundary),
        spec_split_from(boundary_marker(boundary) + framed(boundary_marker(boundary), ps, tail), boundary_marker(boundary), 0) == ps,
        forall|k: int| 0 <= k < ps.len() ==> holds_part(
            spec_set_data(form, boundary_marker(boundary) + framed(boundary_marker(boundary), ps, tail), boundary),
            #[trigger] ps[k],
        ),
{
    let b = boundary_marker(boundary);
    let data = b + framed(b, ps, tail);
    assert(data.skip(0) =~= data);
    assert(data.subrange(0, b.len() as int) =~= b);
    lemma_find_sub_first(data, b, 0);
    lemma_split_step(data, b, 0, 0);
    assert(data.skip(b.len() as int) =~= framed(b, ps, tail));
    if b.len() < data.len() || b.len() == data.len() {
        lemma_split_framed(data, b, b.len() as int, ps, tail);
    }
    law_every_part_read(form, ps);
}

/// Header lines as sent in a part: each followed by a line end.
pub open spec fn header_block(ls: Seq<Seq<u8>>) -> Seq<u8>
    decreases ls.len(),
{
    if ls.len() == 0 {
        Seq::empty()
    } else {
        ls[0] + crlf() + header_block(ls.drop_first())
    }
}

/// The (name, value) pairs of header lines: each split at its first colon.
pub open spec fn line_pairs(ls: Seq<Seq<u8>>) -> Seq<(Seq<char>, Seq<char>)> {
    ls.map_values(|l: Seq<u8>| split_once(decode_utf8(l), ':')->0)
}

/// A header line of a part: not empty, without carriage return, UTF-8
/// text with a colon.
pub open spec fn part_header_line(l: Seq<u8>) -> bool {
    &&& l.len() > 0
    &&& forall|j: int| 0 <= j < l.len() ==> l[j] != 13u8
    &&& valid_utf8(l)
    &&& split_once(decode_utf8(l), ':') is Some
}

proof fn lemma_crlf_first(l: Seq<u8>, rest: Seq<u8>)
    requires
        forall|j: int| 0 <= j < l.len() ==> l[j] != 13u8,
    ensures
        find_sub(l + crlf() + rest, crlf()) == Some(l.len() as int),
        occurs_at(l + crlf() + rest, crlf(), l.len() as int),
{
    let h = l + crlf() + rest;
    assert(h.subrange(l.len() as int, l.len() + 2int) =~= crlf());
    assert forall|j: int| 0 <= j < l.len() implies !occurs_at(h, crlf(), j) by {
        assert(h[j] == l[j]);
        if occurs_at(h, crlf(), j) {
            assert(h.subrange(j, j + 2)[0] == h[j]);
        }
    }
    lemma_find_sub_first(h, crlf(), l.len() as int);
}

proof fn lemma_part_lines_block(part: Seq<u8>, pos: int, ls: Seq<Seq<u8>>, data: Seq<u8>)
    requires
        0 <= pos <= part.len(),
        part.skip(pos) == header_block(ls) + crlf() + data,
        forall|k: int| 0 <= k < ls.len() ==> part_header_line(#[trigger] ls[k]),
    ensures
        spec_part_lines(part, pos) == (line_pairs(ls), data),
    decreases ls.len(),
{
    if ls.len() == 0 {
        assert(part.skip(pos) =~= crlf() + data);
        assert(part.skip(pos) =~= Seq::<u8>::empty() + crlf() + data);
        lemma_crlf_first(Seq::<u8>::empty(), data);
        lemma_part_lines_blank(part, pos);
        assert(part.skip(pos + 2) =~= part.skip(pos).skip(2));
        assert((crlf() + data).skip(2) =~= data);
        assert(line_pairs(ls) =~= Seq::<(Seq<char>, Seq<char>)>::empty());
    } else {
        let l0 = ls[0];
        let t = ls.drop_first();
        assert(part_header_line(ls[0]));
        let after = header_block(t) + crlf() + data;
        assert(part.skip(pos) =~= l0 + crlf() + after);
        lemma_crlf_first(l0, after);
        lemma_part_lines_step(part, pos, l0.len() as int);
        assert(part.subrange(pos, pos + l0.len()) =~= l0) by {
            assert forall|j: int| 0 <= j < l0.len() implies part.subrange(pos, pos + l0.len())[j] == l0[j] by {
                assert(part.skip(pos)[j] == part[pos + j]);
                assert((l0 + crlf() + after)[j] == l0[j]);
            }
        }
        let nxt = pos + l0.len() + 2;
        assert(part.skip(nxt) =~= after) by {
            assert forall|j: int| 0 <= j < part.skip(nxt).len() implies part.skip(nxt)[j] == after[j] by {
                assert(part.skip(pos)[l0.len() + 2 + j] == part[nxt + j]);
            }
        }
        assert forall|k: int| 0 <= k < t.len() implies part_header_line(#[trigger] t[k]) by {
            assert(t[k] == ls[k + 1]);
        }
        lemma_part_lines_block(part, nxt, t, data);
        assert(line_pairs(ls) =~= seq![split_once(decode_utf8(l0), ':')->0] + line_pairs(t));
    }
}

/// A part laid out as sent (a line end, its header lines, a blank line,
/// then its data) reads as those header lines, each split at its first
/// colon, and exactly that data, whatever bytes the data holds.
pub proof fn law_part_layout(ls: Seq<Seq<u8>>, data: Seq<u8>)
    requires
        forall|k: int| 0 <= k < ls.len() ==> part_header_line(#[trigger] ls[k]),
    ensures
        spec_part(crlf() + header_block(ls) + crlf() + data) == (line_pairs(ls), data),
{
    let part = crlf() + header_block(ls) + crlf() + data;
    assert(part[0] == 13u8 && part[1] == 10u8);
    assert(part_start(part) == 2);
    assert(part.skip(2) =~= header_block(ls) + crlf() + data);
    lemma_part_lines_block(part, 2, ls, data);
}

/// The text of a `Content-Disposition` line of a part that uploads file
/// `f` under the name `n`.
pub open spec fn file_disposition(n: Seq<char>, f: Seq<char>) -> Seq<char> {
    "Content-Disposition: form-data; name=\""@ + n + "\"; filename=\""@ + f + "\""@
}

/// A name or file name fit to stand between double quotes in a header:
/// not empty, without `;`, `=` or `"`.
pub open spec fn plain_quoted(n: Seq<char>) -> bool {
    &&& n.len() > 0
    &&& forall|j: int| 0 <= j < n.len() ==> n[j] != ';' && n[j] != '=' && n[j] != '"'
}

/// A quoted text loses its quotes.
proof fn lemma_unquote(n: Seq<char>)
    requires
        plain_quoted(n),
    ensures
        trim_char(seq!['"'] + n + seq!['"'], '"') == n,
        forall|j: int| 0 <= j < (seq!['"'] + n + seq!['"']).len() ==> (seq!['"'] + n + seq!['"'])[j] != ';'
            && (seq!['"'] + n + seq!['"'])[j] != '=',
{
    let q = seq!['"'] + n + seq!['"'];
    assert(q.drop_first() =~= n + seq!['"']);
    assert((n + seq!['"'])[0] == n[0]);
    assert(trim_char_start(n + seq!['"'], '"') == n + seq!['"']);
    assert(trim_char_start(q, '"') == n + seq!['"']);
    assert((n + seq!['"']).drop_last() =~= n);
    assert(n.last() == n[n.len() - 1]);
    assert(trim_char_end(n, '"') == n);
    assert(trim_char_end(n + seq!['"'], '"') == n);
    assert forall|j: int| 0 <= j < q.len() implies q[j] != ';' && q[j] != '=' by {
        if 0 < j < q.len() - 1 {
            assert(q[j] == n[j - 1]);
        }
    }
}

/// One `key="value"` parameter piece after a space: it reads as the key
/// and the unquoted value.
proof fn lemma_quoted_param(key: Seq<char>, v: Seq<char>)
    requires
        key.len() > 0,
        !is_space(key[0]),
        forall|j: int| 0 <= j < key.len() ==> key[j] != '=' && key[j] != ';',
        plain_quoted(v),
    ensures
        trim(seq![' '] + key + seq!['='] + (seq!['"'] + v + seq!['"'])) == key + seq!['='] + (seq!['"'] + v + seq!['"']),
        param_key(key + seq!['='] + (seq!['"'] + v + seq!['"'])) == key,
        trim_char(param_value(key + seq!['='] + (seq!['"'] + v + seq!['"'])), '"') == v,
        forall|j: int| 0 <= j < (seq![' '] + key + seq!['='] + (seq!['"'] + v + seq!['"'])).len()
            ==> (seq![' '] + key + seq!['='] + (seq!['"'] + v + seq!['"']))[j] != ';',
{
    let q = seq!['"'] + v + seq!['"'];
    lemma_unquote(v);
    let w = key + seq!['='] + q;
    assert(w[0] == key[0]);
    assert(w.last() == '"');
    lemma_trim_after_space(w);
    assert(seq![' '] + key + seq!['='] + q =~= seq![' '] + w);
    lemma_split_first(key, q, '=');
    lemma_split_whole(q, '=');
    assert(split(w, '=') =~= seq![key, q]);
    let pw = seq![' '] + w;
    assert forall|j: int| 0 <= j < pw.len() implies pw[j] != ';' by {
        if 1 <= j < 1 + key.len() {
            assert(pw[j] == key[j - 1]);
        } else if j > 1 + key.len() {
            assert(pw[j] == q[j - 2 - key.len()]);
        }
    }
}

/// The `Content-Disposition` line of a file part, as the first header
/// line of a part, gives the part its name and its file name.
pub proof fn law_file_disposition(ls: Seq<Seq<u8>>, data: Seq<u8>, n: Seq<char>, f: Seq<char>)
    requires
        forall|k: int| 0 <= k < ls.len() ==> part_header_line(#[trigger] ls[k]),
        ls.len() > 0,
        decode_utf8(ls[0]) == file_disposition(n, f),
        plain_quoted(n),
        plain_quoted(f),
    ensures
        part_name(crlf() + header_block(ls) + crlf() + data) == Some(n),
        part_filename(crlf() + header_block(ls) + crlf() + data) == Some(f),
        spec_part(crlf() + header_block(ls) + crlf() + data).1 == data,
{
    let part = crlf() + header_block(ls) + crlf() + data;
    law_part_layout(ls, data);
    let hs = line_pairs(ls);
    reveal_strlit("Content-Disposition: form-data; name=\"");
    reveal_strlit("\"; filename=\"");
    reveal_strlit("\"");
    reveal_strlit("Content-Disposition");
    let t = file_disposition(n, f);
    let head = "Content-Disposition"@;
    let v = t.skip(20);
    assert(t[19] == ':');
    assert forall|j: int| 0 <= j < 19 implies t[j] != ':' by {
        assert(t[j] == "Content-Disposition: form-data; name=\""@[j]);
    }
    lemma_find_char_at(t, ':', 19);
    assert(t.take(19) =~= head);
    assert(hs[0] == (head, v));
    law_header_name_round_trip(HeaderNameSpec::ContentDisposition, head);
    assert(spec_name_from_str(hs[0].0) == HeaderNameSpec::ContentDisposition);
    assert(first_named(hs, HeaderNameSpec::ContentDisposition) == Some(0int));
    // the value: " form-data", " name=\"n\"", " filename=\"f\""
    let fd = " form-data"@;
    reveal_strlit(" form-data");
    reveal_strlit("name");
    reveal_strlit("filename");
    let qn = seq!['"'] + n + seq!['"'];
    let qf = seq!['"'] + f + seq!['"'];
    let p1 = seq![' '] + "name"@ + seq!['='] + qn;
    let p2 = seq![' '] + "filename"@ + seq!['='] + qf;
    assert(v =~= fd + seq![';'] + p1 + seq![';'] + p2);
    lemma_quoted_param("name"@, n);
    lemma_quoted_param("filename"@, f);
    assert forall|j: int| 0 <= j < fd.len() implies fd[j] != ';' by {}
    lemma_split_first(fd, p1 + seq![';'] + p2, ';');
    lemma_split_first(p1, p2, ';');
    lemma_split_whole(p2, ';');
    assert(fd + seq![';'] + (p1 + seq![';'] + p2) =~= v);
    assert(split(v, ';') =~= seq![fd, p1, p2]);
    let tp = trimmed_pieces(v);
    let w1 = "name"@ + seq!['='] + qn;
    let w2 = "filename"@ + seq!['='] + qf;
    assert(tp.skip(1) =~= seq![w1, w2]);
    let ps = tp.skip(1);
    let e = Seq::<(Seq<char>, Seq<char>)>::empty();
    assert(ps.drop_last() =~= seq![w1]);
    assert(seq![w1].drop_last() =~= Seq::<Seq<char>>::empty());
    let m1 = map_insert(e, "name"@, n);
    assert(spec_params(Seq::<Seq<char>>::empty()) == e);
    assert(seq![w1].last() == w1);
    assert(param_key(w1) == "name"@);
    assert(trim_char(param_value(w1), '"') == n);
    assert(spec_params(seq![w1]) == m1);
    assert(ps.last() == w2);
    let m2 = map_insert(m1, "filename"@, f);
    assert(spec_params(ps) == m2);
    assert(distinct_keys(e));
    lemma_insert_distinct(e, "name"@, n);
    lemma_get_after_insert(e, "name"@, n, "name"@);
    lemma_get_after_insert(m1, "filename"@, f, "name"@);
    lemma_get_after_insert(m1, "filename"@, f, "filename"@);
    assert("name"@ != "filename"@);
    assert(part_disposition(part) == Some(m2));
}

/// The bytes of the boundary line marker `--` followed by `boundary`.
pub open spec fn boundary_marker(boundary: Seq<char>) -> Seq<u8> {
    seq![45u8, 45u8] + vstd::utf8::encode_utf8(boundary)
}

/// Reading a multipart body with the given boundary is defined (it does
/// not meet two boundary markers less than two bytes apart).
pub open spec fn multipart_defined(data: Seq<u8>, boundary: Seq<char>) -> bool {
    split_defined(data, boundary_marker(boundary), 0)
}

/// The form after reading a multipart body with the given boundary.
pub open spec fn spec_set_data(form: MultipartSpec, data: Seq<u8>, boundary: Seq<char>) -> MultipartSpec {
    spec_add_parts(form, spec_split_from(data, boundary_marker(boundary), 0))
}

impl MultipartForm {
    pub open spec fn wf(&self) -> bool {
        self.fields.wf() && self.files.wf()
    }

    pub fn new() -> (r: Self)
        ensures
            r@.fields == Seq::<(Seq<char>, Seq<char>)>::empty(),
            r@.files == Seq::<(Seq<char>, FileSpec)>::empty(),
            r.wf(),
    {
        MultipartForm { fields: StrMap::new(), files: StrMap::new() }
    }

    /// Reads the parts of a multipart body into the form.
    pub fn set_data(&mut self, data: Vec<u8>, boundary: &str)
        requires
            old(self).wf(),
            multipart_defined(data@, boundary@),
        ensures
            final(self).wf(),
            final(self)@ == spec_set_data(old(self)@, data@, boundary@),
    {
        let mut marker: Vec<u8> = Vec::new();
        marker.push(45u8);
        marker.push(45u8);
        let b = crate::sys::utf8_bytes(boundary);
        push_bytes(&mut marker, &b);
        assert(marker@ =~= boundary_marker(boundary@));
        let parts = split_multipart(&data, &marker);
        let ghost pv = parts@.map_values(|p: Vec<u8>| p@);
        let mut i: usize = 0;
        assert(pv.take(0) =~= Seq::<Seq<u8>>::empty());
        while i < parts.len()
            invariant
                i <= parts@.len(),
                pv == parts@.map_values(|p: Vec<u8>| p@),
                pv == spec_split_from(data@, boundary_marker(boundary@), 0),
                self.wf(),
                self@ == spec_add_parts(old(self)@, pv.take(i as int)),
            decreases parts@.len() - i,
        {
            proof {
                assert(pv.take(i + 1).drop_last() =~= pv.take(i as int));
                assert(pv.take(i + 1).last() == parts@[i as int]@);
            }
            self.add_part(&parts[i]);
            i = i + 1;
        }
        assert(pv.take(i as int) =~= pv);
    }

    /// Reads one part into the form.
    fn add_part(&mut self, part: &Vec<u8>)
        requires
            old(self).wf(),
        ensures
            final(self).wf(),
            final(self)@ == spec_add_part(old(self)@, part@),
    {
        let ghost hl = spec_part(part@).0;
        proof {
            lemma_first_named(hl, HeaderNameSpec::ContentDisposition);
            lemma_first_named(hl, HeaderNameSpec::ContentType);
        }
        if let Some((headers, data)) = parse_part(part) {
            let cd = find_header(&headers, &HeaderName::ContentDisposition, Ghost(hl));
            let ct = find_header(&headers, &HeaderName::ContentType, Ghost(hl));
            if let Some(i) = cd {
                let mime = match ct {
                    Some(j) => match ContentType::parse_content_type(&headers[j]) {
                        Some(ctp) => ctp.mime,
                        None => owned("text/plain"),
                    },
                    None => owned("text/plain"),
                };
                assert(mime@ == part_mime(hl));
                if let Some(cdp) = ParsedContentDisposition::parse_content_disposition(&headers[i]) {
                    match cdp.params.get("name") {
                        Some(name) => {
                            match cdp.params.get("filename") {
                                Some(filename) => {
                                    let file = MultipartFile { filename: filename.clone(), content_type: mime, data };
                                    self.files.insert(name.clone(), file);
                                },
                                None => {
                                    if let Some(text) = from_utf8(&data) {
                                        self.fields.insert(name.clone(), text);
                                    }
                                },
                            }
                        },
                        None => {},
                    }
                }
            }
        }
    }

    pub fn add_field(&mut self, name: &str, value: &str)
        requires
            old(self).wf(),
        ensures
            final(self).wf(),
            final(self)@.fields == map_insert(old(self)@.fields, name@, value@),
            final(self)@.files == old(self)@.files,
    {
        self.fields.insert(owned(name), owned(value));
    }

    pub fn add_file(&mut self, name: &str, file: MultipartFile)
        requires
            old(self).wf(),
        ensures
            final(self).wf(),
            final(self)@.files == map_insert(old(self)@.files, name@, file@),
            final(self)@.fields == old(self)@.fields,
    {
        self.files.insert(owned(name), file);
    }

    pub fn get_field(&self, name: &str) -> (r: Option<&String>)
        ensures
            r matches Some(v) ==> map_get(self@.fields, name@) == Some(v@),
            r is None ==> map_get(self@.fields, name@) is None,
    {
        self.fields.get(name)
    }

    pub fn get_file(&self, name: &str) -> (r: Option<&MultipartFile>)
        ensures
            r matches Some(v) ==> map_get(self@.files, name@) == Some(v@),
            r is None ==> map_get(self@.files, name@) is None,
    {
        self.files.get(name)
    }
}

/// The position of the first header named `name` among `headers`.
pub(crate) fn find_header(headers: &Vec<Header>, name: &HeaderName, Ghost(hl): Ghost<Seq<(Seq<char>, Seq<char>)>>) -> (r: Option<usize>)
    requires
        headers_of_lines(headers@, hl),
    ensures
        r matches Some(i) ==> first_named(hl, name@) == Some(i as int),
        r is None ==> first_named(hl, name@) is None,
{
    proof {
        lemma_first_named(hl, name@);
    }
    let mut i: usize = 0;
    while i < headers.len()
        invariant
            i <= headers@.len(),
            headers_of_lines(headers@, hl),
            forall|j: int| 0 <= j < i ==> spec_name_from_str(hl[j].0) != name@,
        decreases headers@.len() - i,
    {
        assert(headers@[i as int].name@ == spec_name_from_str(hl[i as int].0));
        if headers[i].name.same(name) {
            proof {
                lemma_first_named_at(hl, name@, i as int);
            }
            return Some(i);
        }
        i = i + 1;
    }
    None
}

pub proof fn lemma_first_named_at(hs: Seq<(Seq<char>, Seq<char>)>, n: HeaderNameSpec, k: int)
    requires
        0 <= k < hs.len(),
        spec_name_from_str(hs[k].0) == n,
        forall|j: int| 0 <= j < k ==> spec_name_from_str(hs[j].0) != n,
    ensures
        first_named(hs, n) == Some(k),
    decreases k,
{
    if k > 0 {
        lemma_first_named_at(hs.drop_first(), n, k - 1);
    }
}

// ============= URL-encoded forms =============
/// The fields after reading the `&`-separated pieces `ps` in turn: empty
/// pieces are skipped, a piece `key=value` sets `key` (the value is all
/// after the first `=`), and a piece without `=` stops the reading with an
/// error (`false`), keeping what was read before it.
pub open spec fn spec_form_parse(e: Seq<(Seq<char>, Seq<char>)>, ps: Seq<Seq<char>>) -> (Seq<(Seq<char>, Seq<char>)>, bool)
    decreases ps.len(),
{
    if ps.len() == 0 {
        (e, true)
    } else if ps[0].len() == 0 {
        spec_form_parse(e, ps.drop_first())
    } else {
        match split_once(ps[0], '=') {
            Some((k, v)) => spec_form_parse(map_insert(e, k, v), ps.drop_first()),
            None => (e, false),
        }
    }
}

/// The text of form fields: `key=value` pairs joined with `&`.
pub open spec fn form_text(e: Seq<(Seq<char>, Seq<char>)>) -> Seq<char>
    decreases e.len(),
{
    if e.len() == 0 {
        Seq::empty()
    } else if e.len() == 1 {
        e[0].0 + "="@ + e[0].1
    } else {
        form_text(e.drop_last()) + "&"@ + e.last().0 + "="@ + e.last().1
    }
}

/// Reading the pieces `ps1` then `ps2` is reading `ps1`, then, unless that
/// failed, reading `ps2` from where it left the fields.
proof fn lemma_form_parse_append(e: Seq<(Seq<char>, Seq<char>)>, ps1: Seq<Seq<char>>, ps2: Seq<Seq<char>>)
    ensures
        spec_form_parse(e, ps1 + ps2) == if spec_form_parse(e, ps1).1 {
            spec_form_parse(spec_form_parse(e, ps1).0, ps2)
        } else {
            spec_form_parse(e, ps1)
        },
    decreases ps1.len(),
{
    if ps1.len() == 0 {
        assert(ps1 + ps2 =~= ps2);
    } else {
        assert((ps1 + ps2).drop_first() =~= ps1.drop_first() + ps2);
        assert((ps1 + ps2)[0] == ps1[0]);
        if ps1[0].len() == 0 {
            lemma_form_parse_append(e, ps1.drop_first(), ps2);
        } else {
            match split_once(ps1[0], '=') {
                Some((k, v)) => lemma_form_parse_append(map_insert(e, k, v), ps1.drop_first(), ps2),
                None => {},
            }
        }
    }
}

/// Fields whose names hold neither `=` nor `&`, and whose values hold no
/// `&`.
pub open spec fn plain_form_fields(e: Seq<(Seq<char>, Seq<char>)>) -> bool {
    &&& forall|i: int, j: int|
        0 <= i < e.len() && 0 <= j < e[i].0.len() ==> #[trigger] e[i].0[j] != '=' && e[i].0[j] != '&'
    &&& forall|i: int, j: int| 0 <= i < e.len() && 0 <= j < e[i].1.len() ==> #[trigger] e[i].1[j] != '&'
}

/// Form fields written as text (the text of a form body) read back
/// (`FormUrlEncoded::parse_str` on an empty form) as the same fields, in
/// the same order, without error, when their names hold neither `=` nor
/// `&` and their values hold no `&`.
pub proof fn law_form_text_parses_back(e: Seq<(Seq<char>, Seq<char>)>)
    requires
        distinct_keys(e),
        plain_form_fields(e),
    ensures
        spec_form_parse(Seq::empty(), split(form_text(e), '&')) == (e, true),
    decreases e.len(),
{
    reveal_strlit("=");
    reveal_strlit("&");
    if e.len() == 0 {
        lemma_split_whole(Seq::<char>::empty(), '&');
        assert(split(form_text(e), '&') =~= seq![Seq::<char>::empty()]);
        assert(seq![Seq::<char>::empty()].drop_first() =~= Seq::<Seq<char>>::empty());
        assert(e =~= Seq::<(Seq<char>, Seq<char>)>::empty());
        assert(spec_form_parse(Seq::empty(), seq![Seq::<char>::empty()]) == spec_form_parse(
            Seq::<(Seq<char>, Seq<char>)>::empty(),
            Seq::<Seq<char>>::empty(),
        ));
    } else {
        let pre = e.drop_last();
        let k = e.last().0;
        let v = e.last().1;
        let t = k + "="@ + v;
        assert(forall|j: int| 0 <= j < k.len() ==> k[j] == e[e.len() - 1].0[j]);
        assert(forall|j: int| 0 <= j < v.len() ==> v[j] == e[e.len() - 1].1[j]);
        assert forall|j: int| 0 <= j < t.len() implies t[j] != '&' by {
            if j < k.len() {
                assert(t[j] == k[j]);
                assert(e[e.len() - 1].0[j] != '&');
            } else if j > k.len() {
                assert(t[j] == v[j - k.len() - 1]);
                assert(e[e.len() - 1].1[j - k.len() - 1] != '&');
            }
        }
        assert forall|j: int| 0 <= j < k.len() implies t[j] != '=' by {
            assert(t[j] == k[j]);
            assert(e[e.len() - 1].0[j] != '=');
        }
        assert(t[k.len() as int] == '=');
        lemma_find_char_at(t, '=', k.len() as int);
        assert(t.take(k.len() as int) =~= k);
        assert(t.skip(k.len() + 1int) =~= v);
        assert(forall|j: int| 0 <= j < pre.len() ==> pre[j] == e[j]);
        assert(forall|j: int| 0 <= j < pre.len() ==> pre[j].0 != k);
        lemma_key_index_none(pre, k);
        assert(pre.push((k, v)) =~= e);
        let one = seq![t];
        assert(spec_form_parse(pre, one) == spec_form_parse(map_insert(pre, k, v), one.drop_first()));
        assert(one.drop_first() =~= Seq::<Seq<char>>::empty());
        if e.len() == 1 {
            assert(form_text(e) == t);
            lemma_split_whole(t, '&');
            assert(pre =~= Seq::<(Seq<char>, Seq<char>)>::empty());
            assert(split(form_text(e), '&') == one);
            assert(spec_form_parse(Seq::empty(), one) == spec_form_parse(pre, one));
        } else {
            assert(distinct_keys(pre));
            assert(plain_form_fields(pre)) by {
                assert forall|i: int, j: int| 0 <= i < pre.len() && 0 <= j < pre[i].0.len() implies #[trigger] pre[i].0[j]
                    != '=' && pre[i].0[j] != '&' by {
                    assert(pre[i] == e[i]);
                }
                assert forall|i: int, j: int| 0 <= i < pre.len() && 0 <= j < pre[i].1.len() implies #[trigger] pre[i].1[j]
                    != '&' by {
                    assert(pre[i] == e[i]);
                }
            }
            law_form_text_parses_back(pre);
            assert(form_text(e) =~= form_text(pre) + seq!['&'] + t);
            lemma_split_last(form_text(pre), t, '&');
            lemma_form_parse_append(Seq::empty(), split(form_text(pre), '&'), one);
            assert(split(form_text(e), '&') == split(form_text(pre), '&') + one);
        }
    }
}

proof fn lemma_form_parse_distinct(e: Seq<(Seq<char>, Seq<char>)>, ps: Seq<Seq<char>>)
    requires
        distinct_keys(e),
    ensures
        distinct_keys(spec_form_parse(e, ps).0),
    decreases ps.len(),
{
    if ps.len() > 0 && ps[0].len() > 0 {
        match split_once(ps[0], '=') {
            Some((k, v)) => {
                lemma_insert_distinct(e, k, v);
                lemma_form_parse_distinct(map_insert(e, k, v), ps.drop_first());
            },
            None => {},
        }
    } else if ps.len() > 0 {
        lemma_form_parse_distinct(e, ps.drop_first());
    }
}

impl FormUrlEncoded {
    pub open spec fn wf(&self) -> bool {
        distinct_keys(self@)
    }

    pub fn new() -> (r: Self)
        ensures
            r@ == Seq::<(Seq<char>, Seq<char>)>::empty(),
            r.wf(),
    {
        FormUrlEncoded { data: StrMap::new() }
    }

    /// Sets the value of `key`.
    pub fn add(&mut self, key: &str, value: &str)
        requires
            old(self).wf(),
        ensures
            final(self).wf(),
            final(self)@ == map_insert(old(self)@, key@, value@),
    {
        self.data.insert(owned(key), owned(value));
    }

    /// The value of `key`.
    pub fn get(&self, key: &str) -> (r: Option<&String>)
        ensures
            r matches Some(v) ==> map_get(self@, key@) == Some(v@),
            r is None ==> map_get(self@, key@) is None,
    {
        self.data.get(key)
    }

    /// The number of fields.
    pub fn len(&self) -> (r: usize)
        ensures
            r == self@.len(),
    {
        self.data.len()
    }

    /// The `i`-th field, in insertion order (in place of `iter`).
    pub fn entry(&self, i: usize) -> (r: (&String, &String))
        requires
            i < self@.len(),
        ensures
            r.0@ == self@[i as int].0,
            r.1@ == self@[i as int].1,
    {
        self.data.entry(i)
    }

    /// Reads `key=value` pairs separated by `&` into the form; a non-empty
    /// pair without `=` is an error, after which the pairs before it stay
    /// read.
    pub fn parse_str(&mut self, input: &str) -> (r: Result<(), BodyError>)
        requires
            old(self).wf(),
        ensures
            final(self).wf(),
            final(self)@ == spec_form_parse(old(self)@, split(input@, '&')).0,
            r is Ok <==> spec_form_parse(old(self)@, split(input@, '&')).1,
            r matches Err(e) ==> e@ == BodyErrorSpec::ParseError("Invalid form data format"@),
    {
        let s = chars_of(input);
        let pairs = split_on(&s, '&');
        let ghost ps = views(pairs@);
        let ghost goal = spec_form_parse(old(self)@, ps);
        let mut i: usize = 0;
        assert(ps.skip(0) =~= ps);
        while i < pairs.len()
            invariant
                i <= pairs@.len(),
                ps == views(pairs@),
                ps == split(input@, '&'),
                self.wf(),
                goal == spec_form_parse(self@, ps.skip(i as int)),
                goal == spec_form_parse(old(self)@, split(input@, '&')),
            decreases pairs@.len() - i,
        {
            assert(ps.skip(i as int).drop_first() =~= ps.skip(i + 1));
            assert(ps.skip(i as int)[0] == pairs@[i as int]@);
            if pairs[i].len() > 0 {
                match split_once_on(&pairs[i], '=') {
                    Some((k, v)) => {
                        let ks = string_of(&k);
                        let vs = string_of(&v);
                        self.add(ks.as_str(), vs.as_str());
                    },
                    None => {
                        assert(ps.skip(i as int).len() > 0);
                        assert(ps.skip(i as int)[0].len() > 0);
                        assert(goal == (self@, false));
                        return Err(BodyError::ParseError(owned("Invalid form data format")));
                    },
                }
            }
            i = i + 1;
        }
        Ok(())
    }
}

/// The characters of the form text of the fields.
fn form_text_chars(f: &FormUrlEncoded) -> (r: Vec<char>)
    ensures
        r@ == form_text(f@),
{
    let mut s: Vec<char> = Vec::new();
    let mut i: usize = 0;
    while i < f.len()
        invariant
            i <= f@.len(),
            s@ == form_text(f@.take(i as int)),
        decreases f@.len() - i,
    {
        let (k, v) = f.entry(i);
        if i > 0 {
            push_str(&mut s, "&");
        }
        push_str(&mut s, k.as_str());
        push_str(&mut s, "=");
        push_str(&mut s, v.as_str());
        proof {
            let t = f@.take(i + 1);
            assert(t.drop_last() =~= f@.take(i as int));
            if i == 0 {
                assert(s@ =~= form_text(t));
            } else {
                assert(s@ =~= form_text(t));
            }
        }
        i = i + 1;
    }
    assert(f@.take(i as int) =~= f@);
    s
}

// ============= Body =============
/// The number of bytes of the UTF-8 encoding of a text.
pub open spec fn utf8_len(s: Seq<char>) -> int {
    encode_utf8(s).len() as int
}

/// The total length of the names and values of form fields.
pub open spec fn fields_len(e: Seq<(Seq<char>, Seq<char>)>) -> int
    decreases e.len(),
{
    if e.len() == 0 {
        0
    } else {
        fields_len(e.drop_last()) + utf8_len(e.last().0) + utf8_len(e.last().1)
    }
}

/// The total length of the names, file names, content types and data of
/// form files.
pub open spec fn files_len(e: Seq<(Seq<char>, FileSpec)>) -> int
    decreases e.len(),
{
    if e.len() == 0 {
        0
    } else {
        files_len(e.drop_last()) + utf8_len(e.last().0) + utf8_len(e.last().1.filename) + utf8_len(
            e.last().1.content_type,
        ) + e.last().1.data.len()
    }
}

/// The length that `body_len` reports for a body.
pub open spec fn spec_body_len(b: BodySpec) -> int {
    match b {
        BodySpec::Text(t) => utf8_len(t),
        BodySpec::Json(t) => utf8_len(t),
        BodySpec::FormUrlEncoded(e) => utf8_len(form_text(e)),
        BodySpec::Binary(d) => d.len() as int,
        BodySpec::Multipart(m) => fields_len(m.fields) + files_len(m.files),
        BodySpec::Empty => 0,
    }
}

/// The text of a body (what `Display` prints); a binary body is its bytes
/// read as UTF-8, invalid sequences replaced.
pub open spec fn spec_body_text(b: BodySpec) -> Seq<char> {
    match b {
        BodySpec::Text(t) => t,
        BodySpec::Json(t) => t,
        BodySpec::FormUrlEncoded(e) => form_text(e),
        BodySpec::Binary(d) => utf8_lossy(d),
        BodySpec::Multipart(m) => "Multipart Form (Fields: "@ + decimal(m.fields.len()) + ", Files: "@
            + decimal(m.files.len()) + ")"@,
        BodySpec::Empty => Seq::empty(),
    }
}

/// The MIME types (Unicode lower-cased) read as text.
pub open spec fn is_text_mime(l: Seq<char>) -> bool {
    l == "text/plain"@ || l == "text/html"@ || l == "text/css"@ || l == "text/javascript"@ || l
        == "text/csv"@
}

/// The MIME types (Unicode lower-cased) read as binary data.
pub open spec fn is_binary_mime(l: Seq<char>) -> bool {
    ||| has_prefix(l, "image/"@)
    ||| l == "application/pdf"@
    ||| l == "application/msword"@
    ||| l == "application/vnd.openxmlformats-officedocument.wordprocessingml.document"@
    ||| l == "application/vnd.ms-excel"@
    ||| l == "application/vnd.openxmlformats-officedocument.spreadsheetml.sheet"@
    ||| l == "application/vnd.ms-powerpoint"@
    ||| l == "application/vnd.openxmlformats-officedocument.presentationml.presentation"@
    ||| has_prefix(l, "audio/"@)
    ||| has_prefix(l, "video/"@)
    ||| l == "application/zip"@
    ||| l == "application/x-rar-compressed"@
    ||| l == "application/x-7z-compressed"@
    ||| l == "application/x-tar"@
    ||| l == "application/gzip"@
    ||| l == "application/octet-stream"@
}

/// `Body::from_mime` is defined: a multipart body with a boundary does not
/// meet two boundary markers less than two bytes apart.
pub open spec fn from_mime_defined(mime: Seq<char>, data: Seq<u8>, boundary: Option<Seq<char>>) -> bool {
    unicode_lower(mime) == "multipart/form-data"@ ==> match boundary {
        Some(b) => multipart_defined(data, b),
        None => true,
    }
}

/// The empty multipart form.
pub open spec fn empty_multipart() -> MultipartSpec {
    MultipartSpec { fields: Seq::empty(), files: Seq::empty() }
}

/// How `Body::from_mime` reads `data` sent with the MIME type `mime`.
pub open spec fn spec_from_mime(mime: Seq<char>, data: Seq<u8>, boundary: Option<Seq<char>>) -> Result<BodySpec, BodyErrorSpec> {
    let l = unicode_lower(mime);
    if is_text_mime(l) {
        if valid_utf8(data) {
            Ok(BodySpec::Text(decode_utf8(data)))
        } else {
            Err(BodyErrorSpec::InvalidUtf8(mime))
        }
    } else if l == "application/json"@ {
        match json_reserialized(data) {
            Ok(t) => Ok(BodySpec::Json(t)),
            Err(e) => Err(BodyErrorSpec::InvalidJson(e)),
        }
    } else if l == "application/x-www-form-urlencoded"@ {
        if !valid_utf8(data) {
            Err(BodyErrorSpec::InvalidUtf8("form data"@))
        } else {
            let p = spec_form_parse(Seq::empty(), split(decode_utf8(data), '&'));
            if p.1 {
                Ok(BodySpec::FormUrlEncoded(p.0))
            } else {
                Err(BodyErrorSpec::ParseError("Invalid form data format"@))
            }
        }
    } else if l == "multipart/form-data"@ {
        match boundary {
            Some(b) => Ok(BodySpec::Multipart(spec_set_data(empty_multipart(), data, b))),
            None => Err(BodyErrorSpec::MultipartError("Missing boundary"@)),
        }
    } else if is_binary_mime(l) {
        Ok(BodySpec::Binary(data))
    } else {
        Err(BodyErrorSpec::UnsupportedMimeType(mime))
    }
}

pub proof fn lemma_fields_len_prefix(e: Seq<(Seq<char>, Seq<char>)>, i: int)
    requires
        0 <= i <= e.len(),
    ensures
        0 <= fields_len(e.take(i)) <= fields_len(e),
    decreases e.len() - i,
{
    if i < e.len() {
        lemma_fields_len_prefix(e, i + 1);
        assert(e.take(i + 1).drop_last() =~= e.take(i));
    } else {
        assert(e.take(i) =~= e);
    }
    lemma_fields_len_nonneg(e.take(i));
}

proof fn lemma_fields_len_nonneg(e: Seq<(Seq<char>, Seq<char>)>)
    ensures
        fields_len(e) >= 0,
    decreases e.len(),
{
    if e.len() > 0 {
        lemma_fields_len_nonneg(e.drop_last());
    }
}

proof fn lemma_files_len_nonneg(e: Seq<(Seq<char>, FileSpec)>)
    ensures
        files_len(e) >= 0,
    decreases e.len(),
{
    if e.len() > 0 {
        lemma_files_len_nonneg(e.drop_last());
    }
}

pub proof fn lemma_files_len_prefix(e: Seq<(Seq<char>, FileSpec)>, i: int)
    requires
        0 <= i <= e.len(),
    ensures
        0 <= files_len(e.take(i)) <= files_len(e),
    decreases e.len() - i,
{
    if i < e.len() {
        lemma_files_len_prefix(e, i + 1);
        assert(e.take(i + 1).drop_last() =~= e.take(i));
    } else {
        assert(e.take(i) =~= e);
    }
    lemma_files_len_nonneg(e.take(i));
}

/// The number of bytes of the UTF-8 encoding of `s`.
fn str_len(s: &str) -> (r: usize)
    ensures
        r == utf8_len(s@),
{
    s.as_bytes().len()
}

impl Body {
    pub open spec fn wf(&self) -> bool {
        match self {
            Body::FormUrlEncoded(f) => f.wf(),
            Body::Multipart(m) => m.wf(),
            _ => true,
        }
    }

    /// `body_len` is defined: the lengths of a multipart form add up to a
    /// `usize`.
    pub open spec fn len_defined(&self) -> bool {
        match self@ {
            BodySpec::Multipart(m) => fields_len(m.fields) + files_len(m.files) <= usize::MAX,
            _ => true,
        }
    }

    pub fn text(content: &str) -> (r: Self)
        ensures
            r@ == BodySpec::Text(content@),
            r.wf(),
    {
        Body::Text(owned(content))
    }

    pub fn json(content: JsonValue) -> (r: Self)
        ensures
            r@ == BodySpec::Json(content@),
            r.wf(),
    {
        Body::Json(content)
    }

    pub fn form(form: FormUrlEncoded) -> (r: Self)
        ensures
            r@ == BodySpec::FormUrlEncoded(form@),
    {
        Body::FormUrlEncoded(form)
    }

    pub fn binary(data: Vec<u8>) -> (r: Self)
        ensures
            r@ == BodySpec::Binary(data@),
            r.wf(),
    {
        Body::Binary(data)
    }

    pub fn empty() -> (r: Self)
        ensures
            r@ == BodySpec::Empty,
            r.wf(),
    {
        Body::Empty
    }

    /// Reads `data` according to its MIME type (compared without regard to
    /// case): text types as UTF-8 text, JSON through `serde_json`, URL-encoded
    /// forms, multipart forms (which need a boundary), known binary types as
    /// they are; any other type is an error.
    pub fn from_mime(mime: &str, data: Vec<u8>, boundary: Option<&str>) -> (r: Result<Body, BodyError>)
        requires
            from_mime_defined(
                mime@,
                data@,
                match boundary {
                    Some(b) => Some(b@),
                    None => None,
                },
            ),
        ensures
            match (
                r,
                spec_from_mime(
                    mime@,
                    data@,
                    match boundary {
                        Some(b) => Some(b@),
                        None => None,
                    },
                ),
            ) {
                (Ok(b), Ok(s)) => b@ == s && b.wf(),
                (Err(e), Err(s)) => e@ == s,
                _ => false,
            },
    {
        let l = chars_of(to_lowercase(mime).as_str());
        if chars_is(&l, "text/plain") || chars_is(&l, "text/html") || chars_is(&l, "text/css")
            || chars_is(&l, "text/javascript") || chars_is(&l, "text/csv") {
            match from_utf8(&data) {
                Some(text) => Ok(Body::Text(text)),
                None => Err(BodyError::InvalidUtf8(owned(mime))),
            }
        } else if chars_is(&l, "application/json") {
            match parse_json(&data) {
                Ok(t) => Ok(Body::Json(JsonValue { text: t })),
                Err(e) => Err(BodyError::InvalidJson(e)),
            }
        } else if chars_is(&l, "application/x-www-form-urlencoded") {
            match from_utf8(&data) {
                Some(form_str) => {
                    let mut form = FormUrlEncoded::new();
                    match form.parse_str(form_str.as_str()) {
                        Ok(()) => Ok(Body::FormUrlEncoded(form)),
                        Err(e) => Err(e),
                    }
                },
                None => Err(BodyError::InvalidUtf8(owned("form data"))),
            }
        } else if chars_is(&l, "multipart/form-data") {
            match boundary {
                Some(b) => {
                    let mut form = MultipartForm::new();
                    assert(form@ == empty_multipart());
                    form.set_data(data, b);
                    Ok(Body::Multipart(form))
                },
                None => Err(BodyError::MultipartError(owned("Missing boundary"))),
            }
        } else if Self::binary_mime(&l) {
            Ok(Body::Binary(data))
        } else {
            Err(BodyError::UnsupportedMimeType(owned(mime)))
        }
    }

    fn binary_mime(l: &Vec<char>) -> (r: bool)
        ensures
            r == is_binary_mime(l@),
    {
        chars_begin(l, "image/") || chars_is(l, "application/pdf") || chars_is(
            l,
            "application/msword",
        ) || chars_is(l, "application/vnd.openxmlformats-officedocument.wordprocessingml.document")
            || chars_is(l, "application/vnd.ms-excel") || chars_is(
            l,
            "application/vnd.openxmlformats-officedocument.spreadsheetml.sheet",
        ) || chars_is(l, "application/vnd.ms-powerpoint") || chars_is(
            l,
            "application/vnd.openxmlformats-officedocument.presentationml.presentation",
        ) || chars_begin(l, "audio/") || chars_begin(l, "video/") || chars_is(l, "application/zip")
            || chars_is(l, "application/x-rar-compressed") || chars_is(
            l,
            "application/x-7z-compressed",
        ) || chars_is(l, "application/x-tar") || chars_is(l, "application/gzip") || chars_is(
            l,
            "application/octet-stream",
        )
    }

    /// The length of the body in bytes: the UTF-8 length of text and JSON
    /// bodies and of the text of a form, the length of binary data, the sum
    /// of the lengths of the names, values, file names, content types and
    /// data of a multipart form, 0 for an empty body.
    pub fn body_len(&self) -> (r: usize)
        requires
            self.len_defined(),
        ensures
            r == spec_body_len(self@),
    {
        match self {
            Body::Text(text) => str_len(text.as_str()),
            Body::Json(json) => str_len(json.text.as_str()),
            Body::FormUrlEncoded(form) => {
                let t = form_text_chars(form);
                let ts = string_of(&t);
                str_len(ts.as_str())
            },
            Body::Binary(data) => data.len(),
            Body::Multipart(data) => {
                proof {
                    lemma_fields_len_nonneg(data@.fields);
                    lemma_files_len_nonneg(data@.files);
                }
                let a = multipart_fields_len(data);
                let b = multipart_files_len(data);
                a + b
            },
            Body::Empty => 0,
        }
    }

    /// The text of a text body.
    pub fn as_text(&self) -> (r: Option<&str>)
        ensures
            r matches Some(t) ==> self@ == BodySpec::Text(t@),
            r is None ==> !(self@ is Text),
    {
        match self {
            Body::Text(text) => Some(text.as_str()),
            _ => None,
        }
    }

    pub fn as_json(&self) -> (r: Option<&JsonValue>)
        ensures
            r matches Some(t) ==> self@ == BodySpec::Json(t@),
            r is None ==> !(self@ is Json),
    {
        match self {
            Body::Json(json) => Some(json),
            _ => None,
        }
    }

    pub fn as_form(&self) -> (r: Option<&FormUrlEncoded>)
        ensures
            r matches Some(t) ==> self@ == BodySpec::FormUrlEncoded(t@),
            r is None ==> !(self@ is FormUrlEncoded),
    {
        match self {
            Body::FormUrlEncoded(form) => Some(form),
            _ => None,
        }
    }

    pub fn as_binary(&self) -> (r: Option<&Vec<u8>>)
        ensures
            r matches Some(t) ==> self@ == BodySpec::Binary(t@),
            r is None ==> !(self@ is Binary),
    {
        match self {
            Body::Binary(data) => Some(data),
            _ => None,
        }
    }

    pub fn as_multipart(&self) -> (r: Option<&MultipartForm>)
        ensures
            r matches Some(t) ==> self@ == BodySpec::Multipart(t@),
            r is None ==> !(self@ is Multipart),
    {
        match self {
            Body::Multipart(form) => Some(form),
            _ => None,
        }
    }

    /// The text of the body (what `Display` prints).
    pub fn to_text(&self) -> (r: String)
        ensures
            r@ == spec_body_text(self@),
    {
        match self {
            Body::Text(text) => text.clone(),
            Body::Json(json) => json.text.clone(),
            Body::FormUrlEncoded(form) => {
                let t = form_text_chars(form);
                string_of(&t)
            },
            Body::Binary(data) => from_utf8_lossy(data.as_slice()),
            Body::Multipart(form) => {
                let mut v = chars_of("Multipart Form (Fields: ");
                let a = decimal_chars(form.fields.len() as u64);
                push_all(&mut v, &a);
                push_str(&mut v, ", Files: ");
                let b = decimal_chars(form.files.len() as u64);
                push_all(&mut v, &b);
                push_str(&mut v, ")");
                string_of(&v)
            },
            Body::Empty => string_of(&Vec::new()),
        }
    }
}

fn multipart_fields_len(m: &MultipartForm) -> (r: usize)
    requires
        fields_len(m@.fields) <= usize::MAX,
    ensures
        r == fields_len(m@.fields),
{
    let mut total: usize = 0;
    let mut i: usize = 0;
    while i < m.fields.len()
        invariant
            i <= m@.fields.len(),
            fields_len(m@.fields) <= usize::MAX,
            total == fields_len(m@.fields.take(i as int)),
        decreases m@.fields.len() - i,
    {
        let (k, v) = m.fields.entry(i);
        let a = str_len(k.as_str());
        let b = str_len(v.as_str());
        proof {
            assert(m@.fields.take(i + 1).drop_last() =~= m@.fields.take(i as int));
            lemma_fields_len_prefix(m@.fields, i + 1);
        }
        total = total + a + b;
        i = i + 1;
    }
    assert(m@.fields.take(i as int) =~= m@.fields);
    total
}

fn multipart_files_len(m: &MultipartForm) -> (r: usize)
    requires
        files_len(m@.files) <= usize::MAX,
    ensures
        r == files_len(m@.files),
{
    let mut total: usize = 0;
    let mut i: usize = 0;
    while i < m.files.len()
        invariant
            i <= m@.files.len(),
            files_len(m@.files) <= usize::MAX,
            total == files_len(m@.files.take(i as int)),
        decreases m@.files.len() - i,
    {
        let (k, f) = m.files.entry(i);
        let a = str_len(k.as_str());
        let b = str_len(f.filename.as_str());
        let c = str_len(f.content_type.as_str());
        let d = f.data.len();
        proof {
            assert(m@.files.take(i + 1).drop_last() =~= m@.files.take(i as int));
            lemma_files_len_prefix(m@.files, i + 1);
        }
        total = total + a + b + c + d;
        i = i + 1;
    }
    assert(m@.files.take(i as int) =~= m@.files);
    total
}

// ============= Copies =============
impl Duplicate for MultipartFile {
    fn duplicate(&self) -> (r: Self) {
        let data = slice_bytes(self.data.as_slice(), 0, self.data.len());
        assert(data@ =~= self.data@);
        MultipartFile {
            filename: owned(self.filename.as_str()),
            content_type: owned(self.content_type.as_str()),
            data,
        }
    }
}

impl Body {
    /// A copy of the body.
    pub fn duplicate(&self) -> (r: Body)
        ensures
            r@ == self@,
            r.wf() == self.wf(),
    {
        match self {
            Body::Text(t) => Body::Text(owned(t.as_str())),
            Body::Json(j) => Body::Json(JsonValue { text: owned(j.text.as_str()) }),
            Body::FormUrlEncoded(f) => Body::FormUrlEncoded(FormUrlEncoded { data: f.data.duplicate() }),
            Body::Binary(b) => {
                let c = slice_bytes(b.as_slice(), 0, b.len());
                assert(c@ =~= b@);
                Body::Binary(c)
            },
            Body::Multipart(m) => Body::Multipart(
                MultipartForm { fields: m.fields.duplicate(), files: m.files.duplicate() },
            ),
            Body::Empty => Body::Empty,
        }
    }
}

/// The length of a text, JSON, form or empty body is the number of bytes
/// of its text in UTF-8 (what `Display` writes); that of a binary body is
/// the number of its bytes.
pub proof fn law_body_len_is_text_len(b: BodySpec)
    ensures
        (b is Text || b is Json || b is FormUrlEncoded || b is Empty) ==> spec_body_len(b) == utf8_len(spec_body_text(b)),
        b matches BodySpec::Binary(d) ==> spec_body_len(b) == d.len(),
{
    if b is Empty {
        assert(encode_utf8(Seq::<char>::empty()) =~= Seq::<u8>::empty());
    }
}

} // verus!
