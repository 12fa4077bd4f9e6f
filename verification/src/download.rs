//! Sending files: validators, preconditions, ranges and the chunks of a body.
use crate::http_utils;
use crate::http_utils::{eq_ignore_ascii_case, FieldValue};
use crate::identifiers;
use crate::identifiers::sha256_digest;
use crate::io_error::IoErrorKind;
use crate::paths;
use crate::paths::LexicalPath;
use crate::response::{Body, BodyView, Response, ResponseView};
use crate::server;
use crate::server::{set_content_disposition, status_not_found};
use crate::text;
use crate::text::{
    decimal_text, encode_hex, lossy_text, parse_digits, split_once, trim_blanks, utf8_text,
};
use headers::{Header, HeaderMapExt};
use vstd::bytes::*;
use vstd::prelude::*;
use vstd::string::*;
use vstd::utf8::*;

verus! {

/// How long the next chunk of a body may take, in seconds.
pub const DOWNLOAD_READ_IDLE_TIMEOUT_SECONDS: u64 = 30;

/// The most bytes that one read of a body asks for.
pub const CHUNK_BYTES: u64 = 65536;

/// The first second that has no HTTP date any more.
pub const HTTP_DATE_END: u64 = 253402300800;

/// What is known of an open file.
#[derive(Clone, Copy)]
pub struct FileFacts {
    pub is_file: bool,
    pub size: u64,
    pub device: u64,
    pub inode: u64,
    pub mtime: i64,
    pub mtime_nsec: i64,
    pub ctime: i64,
    pub ctime_nsec: i64,
    /// When the file was last changed, or else made, in seconds since the epoch.
    pub modified: Option<u64>,
}

impl FileFacts {
    /// The time of the file can be written as an HTTP date.
    pub open spec fn has_http_date(self) -> bool {
        self.modified matches Some(seconds) ==> seconds < HTTP_DATE_END
    }
}

pub open spec fn signed_le_bytes(number: i64) -> Seq<u8> {
    spec_u64_to_le_bytes(number as u64)
}

/// What the validator of a file is made from.
pub open spec fn validator_bytes(facts: FileFacts) -> Seq<u8> {
    spec_u64_to_le_bytes(facts.device) + spec_u64_to_le_bytes(facts.inode) + spec_u64_to_le_bytes(
        facts.size,
    ) + signed_le_bytes(facts.mtime) + signed_le_bytes(facts.mtime_nsec) + signed_le_bytes(
        facts.ctime,
    ) + signed_le_bytes(facts.ctime_nsec)
}

/// The entity tag of a file: a weak one, since it stands for what is known of the
/// file and not for its contents.
pub open spec fn entity_tag(facts: FileFacts) -> Seq<char> {
    "W/\""@ + text::hex(identifiers::sha256(validator_bytes(facts))) + "\""@
}

/// A weak entity tag.
pub open spec fn is_weak_tag(tag: Seq<char>) -> bool {
    &&& tag.len() >= 4
    &&& tag[0] == 'W'
    &&& tag[1] == '/'
    &&& tag[2] == '"'
    &&& tag.last() == '"'
    &&& forall|i: int|
        3 <= i < tag.len() - 1 ==> '!' <= #[trigger] tag[i] <= '~' && tag[i] != '"'
}

fn push_all(bytes: &mut Vec<u8>, more: &Vec<u8>)
    ensures
        final(bytes)@ == old(bytes)@ + more@,
{
    let mut index: usize = 0;
    while index < more.len()
        invariant
            index <= more@.len(),
            bytes@ == old(bytes)@ + more@.subrange(0, index as int),
        decreases more@.len() - index,
    {
        bytes.push(more[index]);
        assert(bytes@ =~= old(bytes)@ + more@.subrange(0, index + 1));
        index += 1;
    }
    assert(more@.subrange(0, index as int) =~= more@);
}

fn push_signed(bytes: &mut Vec<u8>, number: i64)
    ensures
        final(bytes)@ == old(bytes)@ + signed_le_bytes(number),
{
    push_all(bytes, &u64_to_le_bytes(#[verifier::truncate] (number as u64)));
}

/// The entity tag of a file.
pub fn etag_of(facts: &FileFacts) -> (tag: String)
    ensures
        tag@ == entity_tag(*facts),
        is_weak_tag(tag@),
{
    let mut bytes: Vec<u8> = u64_to_le_bytes(facts.device);
    push_all(&mut bytes, &u64_to_le_bytes(facts.inode));
    push_all(&mut bytes, &u64_to_le_bytes(facts.size));
    push_signed(&mut bytes, facts.mtime);
    push_signed(&mut bytes, facts.mtime_nsec);
    push_signed(&mut bytes, facts.ctime);
    push_signed(&mut bytes, facts.ctime_nsec);
    let digest = sha256_digest(bytes.as_slice());
    let mut tag = String::from_str("W/\"");
    tag.append(encode_hex(digest.as_slice()).as_str());
    tag.append("\"");
    proof {
        reveal_strlit("W/\"");
        reveal_strlit("\"");
        assert(bytes@ == validator_bytes(*facts));
        assert forall|i: int| 3 <= i < tag@.len() - 1 implies '!' <= #[trigger] tag@[i] <= '~'
            && tag@[i] != '"' by {
            let hex = text::hex(digest@);
            assert(tag@[i] == hex[i - 3]);
        }
    }
    tag
}

/// Files that differ in anything but the time that clients are shown have
/// different things to make their entity tags from.
pub proof fn law_validators_cover_the_file(left: FileFacts, right: FileFacts)
    requires
        validator_bytes(left) == validator_bytes(right),
    ensures
        left.device == right.device,
        left.inode == right.inode,
        left.size == right.size,
        left.mtime == right.mtime,
        left.mtime_nsec == right.mtime_nsec,
        left.ctime == right.ctime,
        left.ctime_nsec == right.ctime_nsec,
{
    lemma_auto_spec_u64_to_from_le_bytes();
    let a = validator_bytes(left);
    let b = validator_bytes(right);
    assert(spec_u64_to_le_bytes(left.device) =~= a.subrange(0, 8));
    assert(spec_u64_to_le_bytes(right.device) =~= b.subrange(0, 8));
    assert(spec_u64_to_le_bytes(left.inode) =~= a.subrange(8, 16));
    assert(spec_u64_to_le_bytes(right.inode) =~= b.subrange(8, 16));
    assert(spec_u64_to_le_bytes(left.size) =~= a.subrange(16, 24));
    assert(spec_u64_to_le_bytes(right.size) =~= b.subrange(16, 24));
    assert(signed_le_bytes(left.mtime) =~= a.subrange(24, 32));
    assert(signed_le_bytes(right.mtime) =~= b.subrange(24, 32));
    assert(signed_le_bytes(left.mtime_nsec) =~= a.subrange(32, 40));
    assert(signed_le_bytes(right.mtime_nsec) =~= b.subrange(32, 40));
    assert(signed_le_bytes(left.ctime) =~= a.subrange(40, 48));
    assert(signed_le_bytes(right.ctime) =~= b.subrange(40, 48));
    assert(signed_le_bytes(left.ctime_nsec) =~= a.subrange(48, 56));
    assert(signed_le_bytes(right.ctime_nsec) =~= b.subrange(48, 56));
    lemma_signed_numbers_differ(left.mtime, right.mtime);
    lemma_signed_numbers_differ(left.mtime_nsec, right.mtime_nsec);
    lemma_signed_numbers_differ(left.ctime, right.ctime);
    lemma_signed_numbers_differ(left.ctime_nsec, right.ctime_nsec);
}

proof fn lemma_signed_numbers_differ(left: i64, right: i64)
    requires
        left as u64 == right as u64,
    ensures
        left == right,
{
    assert(left == right) by (bit_vector)
        requires
            left as u64 == right as u64,
    ;
}

/// What the header of a range asks for.
#[derive(Clone, Copy, Debug, Eq, PartialEq, Structural)]
pub enum ParsedRange {
    /// The first and the last byte to be sent.
    Satisfiable(u64, u64),
    Unsatisfiable,
    /// The unit of the range is not known.
    Ignore,
}

/// The bytes that one range of a byte-range set names.
pub open spec fn byte_range(first: Seq<char>, last: Seq<char>, size: u64) -> ParsedRange {
    if first.len() == 0 {
        match text::written_digits(last) {
            Some(count) => if count == 0 || size == 0 {
                ParsedRange::Unsatisfiable
            } else if count >= size {
                ParsedRange::Satisfiable(0, (size - 1) as u64)
            } else {
                ParsedRange::Satisfiable((size - count) as u64, (size - 1) as u64)
            },
            None => ParsedRange::Unsatisfiable,
        }
    } else {
        match text::written_digits(first) {
            Some(start) => if start >= size {
                ParsedRange::Unsatisfiable
            } else if last.len() == 0 {
                ParsedRange::Satisfiable(start as u64, (size - 1) as u64)
            } else {
                match text::written_digits(last) {
                    Some(end) => if end < start {
                        ParsedRange::Unsatisfiable
                    } else if end >= size {
                        ParsedRange::Satisfiable(start as u64, (size - 1) as u64)
                    } else {
                        ParsedRange::Satisfiable(start as u64, end as u64)
                    },
                    None => ParsedRange::Unsatisfiable,
                }
            },
            None => ParsedRange::Unsatisfiable,
        }
    }
}

/// What a range header asks of a file of this size: one range of bytes.
pub open spec fn range_of(value: Seq<char>, size: u64) -> ParsedRange {
    match text::divided(value, '=') {
        None => ParsedRange::Ignore,
        Some((unit, set)) => if !http_utils::equal_but_case(text::trimmed(unit), "bytes"@) {
            ParsedRange::Ignore
        } else {
            match text::divided(set, '-') {
                None => ParsedRange::Unsatisfiable,
                Some((first, last)) => byte_range(text::trimmed(first), text::trimmed(last), size),
            }
        },
    }
}

/// Reads a range header.
pub fn parse_range(value: &str, size: u64) -> (range: ParsedRange)
    ensures
        range == range_of(value@, size),
{
    let (unit, set) = match split_once(value, '=') {
        None => return ParsedRange::Ignore,
        Some(parts) => parts,
    };
    if !eq_ignore_ascii_case(trim_blanks(unit.as_str()).as_str(), "bytes") {
        return ParsedRange::Ignore;
    }
    let (before, after) = match split_once(set.as_str(), '-') {
        None => return ParsedRange::Unsatisfiable,
        Some(parts) => parts,
    };
    let first = trim_blanks(before.as_str());
    let last = trim_blanks(after.as_str());
    if first.as_str().unicode_len() == 0 {
        return match parse_digits(last.as_str()) {
            Some(count) => {
                if count == 0 || size == 0 {
                    ParsedRange::Unsatisfiable
                } else if count >= size {
                    ParsedRange::Satisfiable(0, size - 1)
                } else {
                    ParsedRange::Satisfiable(size - count, size - 1)
                }
            },
            None => ParsedRange::Unsatisfiable,
        };
    }
    let start: u64 = match parse_digits(first.as_str()) {
        Some(start) => start,
        None => return ParsedRange::Unsatisfiable,
    };
    if start >= size {
        return ParsedRange::Unsatisfiable;
    }
    if last.as_str().unicode_len() == 0 {
        return ParsedRange::Satisfiable(start, size - 1);
    }
    match parse_digits(last.as_str()) {
        Some(end) => {
            if end < start {
                ParsedRange::Unsatisfiable
            } else if end >= size {
                ParsedRange::Satisfiable(start, size - 1)
            } else {
                ParsedRange::Satisfiable(start, end)
            }
        },
        None => ParsedRange::Unsatisfiable,
    }
}

/// A range that can be sent lies inside the file and is not empty.
pub proof fn law_ranges_lie_in_the_file(value: Seq<char>, size: u64)
    ensures
        range_of(value, size) matches ParsedRange::Satisfiable(first, last) ==> first <= last
            < size,
{
}

/// What the range fields of a request ask for. An unknown unit is ignored however
/// often it is asked for; apart from that a range can be asked for but once.
pub open spec fn requested_range(values: Seq<Seq<u8>>, size: u64) -> Option<ParsedRange> {
    if values.len() == 0 {
        None
    } else {
        let parsed = match http_utils::visible_text(values[0]) {
            Some(value) => range_of(value, size),
            None => ParsedRange::Unsatisfiable,
        };
        if parsed != ParsedRange::Ignore && values.len() > 1 {
            Some(ParsedRange::Unsatisfiable)
        } else {
            Some(parsed)
        }
    }
}

fn select_range(values: &Vec<FieldValue>, size: u64) -> (range: Option<ParsedRange>)
    ensures
        range == requested_range(http_utils::value_bytes(values@), size),
{
    if values.len() == 0 {
        return None;
    }
    assert(http_utils::value_bytes(values@)[0] == values@[0]@);
    let parsed = match values[0].to_text() {
        Some(value) => parse_range(value.as_str(), size),
        None => ParsedRange::Unsatisfiable,
    };
    if parsed != ParsedRange::Ignore && values.len() > 1 {
        Some(ParsedRange::Unsatisfiable)
    } else {
        Some(parsed)
    }
}

/// The bytes of values that can all be part of header fields.
pub open spec fn are_field_values(values: Seq<Vec<u8>>) -> bool {
    forall|i: int, j: int|
        0 <= i < values.len() && 0 <= j < values[i]@.len() ==> http_utils::is_field_byte(
            #[trigger] values[i]@[j],
        )
}

/// Whether quotes are open at the end of a value.
pub open spec fn in_quotes(value: Seq<u8>) -> bool
    decreases value.len(),
{
    if value.len() == 0 {
        false
    } else if value.last() == 34 {
        !in_quotes(value.drop_last())
    } else {
        in_quotes(value.drop_last())
    }
}

pub open spec fn is_quoted_blank(value: Seq<u8>, place: int) -> bool {
    (value[place] == 32 || value[place] == 9) && in_quotes(value.subrange(0, place))
}

/// No blank stands between quotes.
pub open spec fn has_no_quoted_blanks(value: Seq<u8>) -> bool {
    forall|i: int| 0 <= i < value.len() ==> !#[trigger] is_quoted_blank(value, i)
}

/// A value with an exclamation mark for each blank between quotes. An entity tag
/// with a blank in it is not valid; with the mark in its place it is still equal to
/// no tag that is sent.
pub open spec fn without_quoted_blanks(value: Seq<u8>) -> Seq<u8> {
    Seq::new(
        value.len(),
        |i: int|
            if is_quoted_blank(value, i) {
                33u8
            } else {
                value[i]
            },
    )
}

/// The values of a list field as one value.
pub open spec fn list_value(values: Seq<Seq<u8>>) -> Seq<u8>
    decreases values.len(),
{
    if values.len() == 0 {
        Seq::empty()
    } else if values.len() == 1 {
        values[0]
    } else {
        list_value(values.drop_last()) + seq![44u8, 32u8] + values.last()
    }
}

/// What is compared with the entity tag of a file.
pub open spec fn tag_list(values: Seq<Seq<u8>>) -> Seq<u8> {
    without_quoted_blanks(list_value(values))
}

proof fn lemma_marks_keep_quotes(value: Seq<u8>, length: int)
    requires
        0 <= length <= value.len(),
    ensures
        in_quotes(without_quoted_blanks(value).subrange(0, length)) == in_quotes(
            value.subrange(0, length),
        ),
    decreases length,
{
    let marked = without_quoted_blanks(value);
    if length > 0 {
        lemma_marks_keep_quotes(value, length - 1);
        assert(marked.subrange(0, length).drop_last() =~= marked.subrange(0, length - 1));
        assert(value.subrange(0, length).drop_last() =~= value.subrange(0, length - 1));
        assert(marked.subrange(0, length).last() == marked[length - 1]);
        assert(value.subrange(0, length).last() == value[length - 1]);
    } else {
        assert(marked.subrange(0, 0) =~= value.subrange(0, 0));
    }
}

fn mark_quoted_blanks(value: &Vec<u8>) -> (marked: Vec<u8>)
    requires
        forall|i: int| 0 <= i < value@.len() ==> http_utils::is_field_byte(#[trigger] value@[i]),
    ensures
        marked@ == without_quoted_blanks(value@),
        has_no_quoted_blanks(marked@),
        forall|i: int| 0 <= i < marked@.len() ==> http_utils::is_field_byte(#[trigger] marked@[i]),
{
    let mut marked: Vec<u8> = Vec::new();
    let mut quoted = false;
    let mut index: usize = 0;
    assert(value@.subrange(0, 0) =~= Seq::empty());
    while index < value.len()
        invariant
            index <= value@.len(),
            quoted == in_quotes(value@.subrange(0, index as int)),
            marked@ == without_quoted_blanks(value@).subrange(0, index as int),
        decreases value@.len() - index,
    {
        let ghost longer = value@.subrange(0, index + 1);
        assert(longer.drop_last() =~= value@.subrange(0, index as int));
        assert(longer.last() == value@[index as int]);
        let byte = value[index];
        if quoted && (byte == 32 || byte == 9) {
            marked.push(33u8);
        } else {
            marked.push(byte);
        }
        if byte == 34 {
            quoted = !quoted;
        }
        assert(marked@ =~= without_quoted_blanks(value@).subrange(0, index + 1));
        index += 1;
    }
    proof {
        assert(marked@ =~= without_quoted_blanks(value@));
        assert forall|i: int| 0 <= i < marked@.len() implies !#[trigger] is_quoted_blank(
            marked@,
            i,
        ) by {
            lemma_marks_keep_quotes(value@, i);
        }
    }
    marked
}

fn join_values(values: &Vec<FieldValue>) -> (joined: Vec<u8>)
    ensures
        joined@ == list_value(http_utils::value_bytes(values@)),
        forall|i: int| 0 <= i < joined@.len() ==> http_utils::is_field_byte(#[trigger] joined@[i]),
{
    let mut joined: Vec<u8> = Vec::new();
    let ghost all = http_utils::value_bytes(values@);
    let mut index: usize = 0;
    assert(all.subrange(0, 0) =~= Seq::empty());
    while index < values.len()
        invariant
            index <= values@.len(),
            all == http_utils::value_bytes(values@),
            joined@ == list_value(all.subrange(0, index as int)),
            forall|i: int|
                0 <= i < joined@.len() ==> http_utils::is_field_byte(#[trigger] joined@[i]),
        decreases values@.len() - index,
    {
        let ghost longer = all.subrange(0, index + 1);
        assert(longer.drop_last() =~= all.subrange(0, index as int));
        assert(longer.last() == values@[index as int]@);
        let ghost before = joined@;
        if index > 0 {
            joined.push(44u8);
            joined.push(32u8);
        }
        assert(joined@ =~= (if index > 0 {
            before + seq![44u8, 32u8]
        } else {
            before
        }));
        let ghost separated = joined@;
        let value = values[index].as_bytes();
        push_all(&mut joined, value);
        assert forall|i: int| 0 <= i < joined@.len() implies http_utils::is_field_byte(
            #[trigger] joined@[i],
        ) by {
            if i < separated.len() {
                assert(joined@[i] == separated[i]);
            } else {
                assert(joined@[i] == value@[i - separated.len()]);
            }
        }
        assert(joined@ =~= list_value(longer));
        index += 1;
    }
    assert(all.subrange(0, all.len() as int) =~= all);
    joined
}

/// `headers::IfMatch::decode` and `IfMatch::precondition_passes`, which compares
/// entity tags strongly. A weak tag is strongly equal to none, so that the
/// condition passes for a weak tag only where the value is an asterisk.
#[verifier::external_body]
fn if_match_passes(value: &Vec<u8>, tag: &str) -> (passes: Option<bool>)
    requires
        forall|i: int| 0 <= i < value@.len() ==> http_utils::is_field_byte(#[trigger] value@[i]),
        has_no_quoted_blanks(value@),
        is_weak_tag(tag@),
    ensures
        passes == Some(value@ == seq![42u8]),
{
    let field = http::HeaderValue::from_bytes(value).unwrap();
    let tag: headers::ETag = tag.parse().unwrap();
    headers::IfMatch::decode(&mut std::iter::once(&field)).ok().map(
        |condition| condition.precondition_passes(&tag),
    )
}

/// What `headers::IfNoneMatch` finds of the value of a field and an entity tag:
/// that none of the tags in the value is weakly equal to it.
pub uninterp spec fn matches_none(value: Seq<u8>, tag: Seq<char>) -> bool;

/// `headers::IfNoneMatch::decode` and `IfNoneMatch::precondition_passes`: the
/// condition always decodes; it fails for an asterisk and for the tag itself.
#[verifier::external_body]
fn if_none_match_passes(value: &Vec<u8>, tag: &str) -> (passes: Option<bool>)
    requires
        forall|i: int| 0 <= i < value@.len() ==> http_utils::is_field_byte(#[trigger] value@[i]),
        has_no_quoted_blanks(value@),
        is_weak_tag(tag@),
    ensures
        passes == Some(matches_none(value@, tag@)),
        value@ == seq![42u8] ==> passes == Some(false),
        value@ == encode_utf8(tag@) ==> passes == Some(false),
{
    let field = http::HeaderValue::from_bytes(value).unwrap();
    let tag: headers::ETag = tag.parse().unwrap();
    headers::IfNoneMatch::decode(&mut std::iter::once(&field)).ok().map(
        |condition| condition.precondition_passes(&tag),
    )
}

/// What `headers::IfUnmodifiedSince` finds of the values of a field and a time:
/// nothing where there is not one date, else whether the time is not later.
pub uninterp spec fn unmodified_since(values: Seq<Seq<u8>>, seconds: u64) -> Option<bool>;

/// `headers::IfUnmodifiedSince::decode` and
/// `IfUnmodifiedSince::precondition_passes`.
#[verifier::external_body]
fn if_unmodified_since_passes(values: &Vec<Vec<u8>>, seconds: u64) -> (passes: Option<bool>)
    requires
        values@.len() > 0,
        are_field_values(values@),
        seconds < HTTP_DATE_END,
    ensures
        passes == unmodified_since(paths::name_list(values@), seconds),
{
    let fields: Vec<http::HeaderValue> = values.iter().map(
        |value| http::HeaderValue::from_bytes(value).unwrap(),
    ).collect();
    let time = std::time::UNIX_EPOCH + std::time::Duration::from_secs(seconds);
    headers::IfUnmodifiedSince::decode(&mut fields.iter()).ok().map(
        |condition| condition.precondition_passes(time),
    )
}

/// What `headers::IfModifiedSince` finds of the values of a field and a time:
/// nothing where there is not one date, else whether the time is later.
pub uninterp spec fn modified_since(values: Seq<Seq<u8>>, seconds: u64) -> Option<bool>;

/// `headers::IfModifiedSince::decode` and `IfModifiedSince::is_modified`.
#[verifier::external_body]
fn if_modified_since_passes(values: &Vec<Vec<u8>>, seconds: u64) -> (passes: Option<bool>)
    requires
        values@.len() > 0,
        are_field_values(values@),
        seconds < HTTP_DATE_END,
    ensures
        passes == modified_since(paths::name_list(values@), seconds),
{
    let fields: Vec<http::HeaderValue> = values.iter().map(
        |value| http::HeaderValue::from_bytes(value).unwrap(),
    ).collect();
    let time = std::time::UNIX_EPOCH + std::time::Duration::from_secs(seconds);
    headers::IfModifiedSince::decode(&mut fields.iter()).ok().map(
        |condition| condition.is_modified(time),
    )
}

/// The HTTP date of a time.
pub uninterp spec fn http_date(seconds: u64) -> Seq<char>;

/// `headers::LastModified`: writes a time as an HTTP date. Read back, the date is
/// the same second, so that the time is neither later nor earlier than it.
#[verifier::external_body]
fn last_modified_text(seconds: u64) -> (date: String)
    requires
        seconds < HTTP_DATE_END,
    ensures
        date@ == http_date(seconds),
        modified_since(seq![encode_utf8(date@)], seconds) == Some(false),
        unmodified_since(seq![encode_utf8(date@)], seconds) == Some(true),
{
    let time = std::time::UNIX_EPOCH + std::time::Duration::from_secs(seconds);
    let mut map = http::HeaderMap::new();
    map.typed_insert(headers::LastModified::from(time));
    map[http::header::LAST_MODIFIED].to_str().unwrap().to_string()
}

/// `headers::CacheControl` with `private` and `no-store`.
#[verifier::external_body]
pub(crate) fn private_cache_control() -> (directives: String)
    ensures
        directives@ == "no-store, private"@,
{
    let mut map = http::HeaderMap::new();
    map.typed_insert(headers::CacheControl::new().with_private().with_no_store());
    map[http::header::CACHE_CONTROL].to_str().unwrap().to_string()
}

/// The media type that `mime_guess` has first for the extension of a file name,
/// or the one of unknown bytes where it has none.
pub uninterp spec fn guessed_media_type(name: Seq<char>) -> Seq<char>;

/// `mime_guess::from_path` and `MimeGuess::first_or_octet_stream`. A name without
/// a dot has no extension.
#[verifier::external_body]
fn guess_media_type(name: &str) -> (media_type: String)
    ensures
        media_type@ == guessed_media_type(name@),
        !name@.contains('.') ==> media_type@ == "application/octet-stream"@,
{
    mime_guess::from_path(name).first_or_octet_stream().to_string()
}

/// The media type of a file, by its name.
pub fn get_content_type(name: &str) -> (media_type: String)
    ensures
        media_type@ == guessed_media_type(name@),
        !name@.contains('.') ==> media_type@ == "application/octet-stream"@,
{
    guess_media_type(name)
}

/// What a request for a file says in its header.
pub struct DownloadRequest {
    pub head_only: bool,
    pub if_match: Vec<FieldValue>,
    pub if_unmodified_since: Vec<FieldValue>,
    pub if_none_match: Vec<FieldValue>,
    pub if_modified_since: Vec<FieldValue>,
    pub range: Vec<FieldValue>,
    pub has_if_range: bool,
}

/// What the conditions of a request come to.
#[derive(Clone, Copy, Debug, Eq, PartialEq, Structural)]
pub enum Freshness {
    Proceed,
    PreconditionFailed,
    NotModified,
}

/// The file may be sent, as far as the client must know its version.
pub open spec fn precondition_holds(
    request: DownloadRequest,
    tag: Seq<char>,
    seconds: u64,
) -> bool {
    if request.if_match@.len() > 0 {
        tag_list(http_utils::value_bytes(request.if_match@)) == seq![42u8]
    } else if request.if_unmodified_since@.len() > 0 {
        unmodified_since(http_utils::value_bytes(request.if_unmodified_since@), seconds) != Some(
            false,
        )
    } else {
        true
    }
}

/// The client does not have this version of the file.
pub open spec fn is_news(request: DownloadRequest, tag: Seq<char>, seconds: u64) -> bool {
    if request.if_none_match@.len() > 0 {
        matches_none(tag_list(http_utils::value_bytes(request.if_none_match@)), tag)
    } else if request.if_modified_since@.len() > 0 {
        modified_since(http_utils::value_bytes(request.if_modified_since@), seconds) != Some(false)
    } else {
        true
    }
}

/// Only a file with a validator has conditions tested.
pub open spec fn freshness(facts: FileFacts, request: DownloadRequest) -> Freshness {
    match facts.modified {
        None => Freshness::Proceed,
        Some(seconds) => if !precondition_holds(request, entity_tag(facts), seconds) {
            Freshness::PreconditionFailed
        } else if !is_news(request, entity_tag(facts), seconds) {
            Freshness::NotModified
        } else {
            Freshness::Proceed
        },
    }
}

/// The range to be sent. Where there is a validator, it is too weak for the client
/// to hold on to a part of the file, so that any such demand gets all of it.
pub open spec fn sent_range(facts: FileFacts, request: DownloadRequest) -> Option<ParsedRange> {
    if request.head_only || (facts.modified is Some && request.has_if_range) {
        None
    } else {
        requested_range(http_utils::value_bytes(request.range@), facts.size)
    }
}

/// The name of a file as text.
pub open spec fn file_name_text(path: Seq<Seq<u8>>) -> Option<Seq<char>> {
    if path.len() > 0 && valid_utf8(path.last()) {
        Some(decode_utf8(path.last()))
    } else {
        None
    }
}

/// The response with its validators.
pub open spec fn validated(response: ResponseView, facts: FileFacts) -> ResponseView {
    let private = response.with_header("cache-control"@, "no-store, private"@);
    match facts.modified {
        None => private,
        Some(seconds) => private.with_header("last-modified"@, http_date(seconds)).with_header(
            "etag"@,
            entity_tag(facts),
        ),
    }
}

/// The name that the media type of a file is told by. Where it is not text, it has
/// replacement characters; its extension stays what it is, as far as that is text.
pub open spec fn typed_name(path: Seq<Seq<u8>>) -> Seq<char> {
    match file_name_text(path) {
        Some(name) => name,
        None => if path.len() == 0 {
            Seq::empty()
        } else {
            text::lossy_utf8(path.last())
        },
    }
}

/// The response with the media type of the file.
pub open spec fn typed(response: ResponseView, path: Seq<Seq<u8>>) -> ResponseView {
    response.with_header("content-type"@, guessed_media_type(typed_name(path)))
}

/// The response with what it says of the file.
pub open spec fn described(
    response: ResponseView,
    path: Seq<Seq<u8>>,
    name: Seq<char>,
) -> ResponseView {
    typed(response, path).with_header(
        "content-disposition"@,
        server::disposition(name),
    ).with_header("accept-ranges"@, "bytes"@)
}

/// All of the file is sent.
pub open spec fn whole(response: ResponseView, size: u64, head_only: bool) -> ResponseView {
    let sized = response.with_header("content-length"@, text::decimal(size as nat));
    if head_only {
        sized
    } else {
        sized.with_body(BodyView::File(0, size))
    }
}

/// One range of the file is sent.
pub open spec fn partial(response: ResponseView, first: u64, last: u64, size: u64) -> ResponseView {
    let length = (last - first + 1) as u64;
    response.with_status(206).with_header(
        "content-range"@,
        "bytes "@ + text::decimal(first as nat) + "-"@ + text::decimal(last as nat) + "/"@
            + text::decimal(size as nat),
    ).with_header("content-length"@, text::decimal(length as nat)).with_body(
        BodyView::File(first, length),
    )
}

/// The range lies outside of the file.
pub open spec fn out_of_range(response: ResponseView, size: u64) -> ResponseView {
    response.with_status(416).with_header("content-range"@, "bytes */"@ + text::decimal(size as nat))
}

/// The response to a request for an open file, or nothing where the file has no
/// name that can be written.
pub open spec fn file_response(
    response: ResponseView,
    path: Seq<Seq<u8>>,
    facts: FileFacts,
    request: DownloadRequest,
) -> Option<ResponseView> {
    if !facts.is_file {
        Some(response.with_status(404).with_body(BodyView::Text("Not Found"@)))
    } else {
        match freshness(facts, request) {
            Freshness::PreconditionFailed => Some(validated(response, facts).with_status(412)),
            Freshness::NotModified => Some(validated(response, facts).with_status(304)),
            Freshness::Proceed => match file_name_text(path) {
                None => None,
                Some(name) => {
                    let head = described(validated(response, facts), path, name);
                    match sent_range(facts, request) {
                        Some(ParsedRange::Satisfiable(first, last)) => Some(
                            partial(head, first, last, facts.size),
                        ),
                        Some(ParsedRange::Unsatisfiable) => Some(out_of_range(head, facts.size)),
                        _ => Some(whole(head, facts.size, request.head_only)),
                    }
                },
            },
        }
    }
}

proof fn lemma_tags_hold_no_blanks(tag: Seq<char>)
    requires
        is_weak_tag(tag),
    ensures
        has_no_quoted_blanks(encode_utf8(tag)),
{
    assert forall|i: int| 0 <= i < tag.len() implies '!' <= #[trigger] tag[i] <= '~' by {
        assert(i == 0 || i == 1 || i == 2 || i == tag.len() - 1 || 3 <= i < tag.len() - 1);
    }
    assert(is_ascii_chars(tag));
    is_ascii_chars_encode_utf8(tag);
}

fn raw_values(values: &Vec<FieldValue>) -> (raw: Vec<Vec<u8>>)
    ensures
        paths::name_list(raw@) == http_utils::value_bytes(values@),
        raw@.len() == values@.len(),
        are_field_values(raw@),
{
    let mut raw: Vec<Vec<u8>> = Vec::new();
    let mut index: usize = 0;
    while index < values.len()
        invariant
            index <= values@.len(),
            raw@.len() == index,
            forall|i: int| 0 <= i < index ==> (#[trigger] raw@[i])@ == values@[i]@,
            are_field_values(raw@),
        decreases values@.len() - index,
    {
        let value = values[index].as_bytes();
        let copy = text::copy_bytes(value.as_slice());
        raw.push(copy);
        index += 1;
    }
    assert(paths::name_list(raw@) =~= http_utils::value_bytes(values@));
    raw
}

fn check_freshness(request: &DownloadRequest, tag: &str, seconds: u64) -> (freshness: Freshness)
    requires
        is_weak_tag(tag@),
        seconds < HTTP_DATE_END,
    ensures
        freshness == (if !precondition_holds(*request, tag@, seconds) {
            Freshness::PreconditionFailed
        } else if !is_news(*request, tag@, seconds) {
            Freshness::NotModified
        } else {
            Freshness::Proceed
        }),
        http_utils::value_bytes(request.if_none_match@) == seq![encode_utf8(tag@)] ==> freshness
            != Freshness::Proceed,
{
    if request.if_match.len() > 0 {
        let value = mark_quoted_blanks(&join_values(&request.if_match));
        if let Some(false) = if_match_passes(&value, tag) {
            return Freshness::PreconditionFailed;
        }
    } else if request.if_unmodified_since.len() > 0 {
        let values = raw_values(&request.if_unmodified_since);
        if let Some(false) = if_unmodified_since_passes(&values, seconds) {
            return Freshness::PreconditionFailed;
        }
    }
    if request.if_none_match.len() > 0 {
        let value = mark_quoted_blanks(&join_values(&request.if_none_match));
        proof {
            let values = http_utils::value_bytes(request.if_none_match@);
            if values == seq![encode_utf8(tag@)] {
                lemma_tags_hold_no_blanks(tag@);
                assert(list_value(values) == encode_utf8(tag@));
                assert(tag_list(values) =~= encode_utf8(tag@));
            }
        }
        if let Some(false) = if_none_match_passes(&value, tag) {
            return Freshness::NotModified;
        }
    } else if request.if_modified_since.len() > 0 {
        let values = raw_values(&request.if_modified_since);
        if let Some(false) = if_modified_since_passes(&values, seconds) {
            return Freshness::NotModified;
        }
    }
    assert(http_utils::value_bytes(request.if_none_match@).len() == request.if_none_match@.len());
    Freshness::Proceed
}

/// The name of a file, where it can be written.
pub fn try_get_file_name(path: &LexicalPath) -> (name: Option<String>)
    ensures
        match name {
            Some(name) => file_name_text(path@) == Some(name@),
            None => file_name_text(path@) is None,
        },
{
    match path.file_name() {
        Some(name) => utf8_text(name.as_slice()),
        None => None,
    }
}

/// The file has no name that can be written.
#[derive(Clone, Copy, Debug, Eq, PartialEq, Structural)]
pub struct UnnamedFile;

/// Answers a request for an open file.
pub fn send_open_file(
    response: &mut Response,
    path: &LexicalPath,
    facts: &FileFacts,
    request: &DownloadRequest,
) -> (sent: Result<(), UnnamedFile>)
    requires
        facts.has_http_date(),
    ensures
        match file_response(old(response)@, path@, *facts, *request) {
            Some(view) => sent is Ok && final(response)@ == view,
            None => sent is Err && final(response)@ == typed(
                validated(old(response)@, *facts),
                path@,
            ),
        },
        facts.is_file && facts.modified is Some && request.if_match@.len() == 0
            && request.if_unmodified_since@.len() == 0 && http_utils::value_bytes(
            request.if_none_match@,
        ) == seq![encode_utf8(entity_tag(*facts))] ==> final(response)@.status == 304,
        facts.is_file && facts.modified is Some && request.if_match@.len() == 0
            && request.if_unmodified_since@.len() == 0 && request.if_none_match@.len() == 0
            && http_utils::value_bytes(request.if_modified_since@) == seq![
            encode_utf8(http_date(facts.modified->0)),
        ] ==> final(response)@.status == 304,
{
    if !facts.is_file {
        status_not_found(response);
        return Ok(());
    }
    let size: u64 = facts.size;
    response.set_header("cache-control", private_cache_control().as_str());
    if let Some(seconds) = facts.modified {
        let tag = etag_of(facts);
        let date = last_modified_text(seconds);
        response.set_header("last-modified", date.as_str());
        response.set_header("etag", tag.as_str());
        assert(http_utils::value_bytes(request.if_modified_since@).len()
            == request.if_modified_since@.len());
        match check_freshness(request, tag.as_str(), seconds) {
            Freshness::PreconditionFailed => {
                response.status = 412;
                return Ok(());
            },
            Freshness::NotModified => {
                response.status = 304;
                return Ok(());
            },
            Freshness::Proceed => {},
        }
    }
    let range = if request.head_only || (facts.modified.is_some() && request.has_if_range) {
        None
    } else {
        select_range(&request.range, size)
    };
    let typed_by: String = match path.file_name() {
        Some(name) => lossy_text(name.as_slice()),
        None => String::new(),
    };
    assert(typed_by@ =~= typed_name(path@));
    response.set_header("content-type", get_content_type(typed_by.as_str()).as_str());
    let name = match try_get_file_name(path) {
        Some(name) => name,
        None => return Err(UnnamedFile),
    };
    set_content_disposition(response, name.as_str());
    response.set_header("accept-ranges", "bytes");
    match range {
        Some(ParsedRange::Satisfiable(first, last)) => {
            proof {
                if let Some(value) = http_utils::visible_text(
                    http_utils::value_bytes(request.range@)[0],
                ) {
                    law_ranges_lie_in_the_file(value, size);
                }
            }
            let length: u64 = last - first + 1;
            response.status = 206;
            let mut content_range = String::from_str("bytes ");
            content_range.append(decimal_text(first).as_str());
            content_range.append("-");
            content_range.append(decimal_text(last).as_str());
            content_range.append("/");
            content_range.append(decimal_text(size).as_str());
            response.set_header("content-range", content_range.as_str());
            response.set_header("content-length", decimal_text(length).as_str());
            response.body = Body::File(first, length);
        },
        Some(ParsedRange::Unsatisfiable) => {
            response.status = 416;
            let mut content_range = String::from_str("bytes */");
            content_range.append(decimal_text(size).as_str());
            response.set_header("content-range", content_range.as_str());
        },
        _ => {
            response.set_header("content-length", decimal_text(size).as_str());
            if !request.head_only {
                response.body = Body::File(0, size);
            }
        },
    }
    Ok(())
}

/// What a file that is sent is framed by lies inside of it, and the header gives
/// its length.
pub proof fn law_lengths_frame_the_body(
    response: ResponseView,
    path: Seq<Seq<u8>>,
    facts: FileFacts,
    request: DownloadRequest,
    offset: u64,
    length: u64,
)
    requires
        !(response.body is File),
        file_response(response, path, facts, request) is Some,
        file_response(response, path, facts, request)->0.body == BodyView::File(offset, length),
    ensures
        offset + length <= facts.size,
        file_response(response, path, facts, request)->0.headers["content-length"@]
            == text::decimal(length as nat),
{
    let values = http_utils::value_bytes(request.range@);
    if let Some(value) = http_utils::visible_text(values[0]) {
        law_ranges_lie_in_the_file(value, facts.size);
    }
}

/// A request for the head of a file alone gets no body and never a part of the file.
pub proof fn law_heads_have_no_body(
    response: ResponseView,
    path: Seq<Seq<u8>>,
    facts: FileFacts,
    request: DownloadRequest,
)
    requires
        facts.is_file,
        request.head_only,
        file_response(response, path, facts, request) is Some,
    ensures
        file_response(response, path, facts, request)->0.body == response.body,
        file_response(response, path, facts, request)->0.status == response.status || file_response(
            response,
            path,
            facts,
            request,
        )->0.status == 412 || file_response(response, path, facts, request)->0.status == 304,
{
}

/// A client that holds on to a part of a file with a weak validator gets all of it.
pub proof fn law_held_parts_get_the_whole(facts: FileFacts, request: DownloadRequest)
    requires
        facts.modified is Some,
        request.has_if_range,
    ensures
        sent_range(facts, request) is None,
{
}

/// What opening the file of a request came to.
pub enum OpenedFile {
    Opened(FileFacts),
    Failed(IoErrorKind),
}

/// Why a file could not be sent.
#[derive(Clone, Copy, Debug, Eq, PartialEq, Structural)]
pub enum SendFailure {
    Open(IoErrorKind),
    Unnamed,
}

/// The file is not there, or something on the way to it is no directory.
pub open spec fn is_absent(kind: IoErrorKind) -> bool {
    kind == IoErrorKind::NotFound || kind == IoErrorKind::NotADirectory
}

/// Answers a request for a file.
pub fn handle_send_file(
    response: &mut Response,
    path: &LexicalPath,
    opened: OpenedFile,
    request: &DownloadRequest,
) -> (sent: Result<(), SendFailure>)
    requires
        opened matches OpenedFile::Opened(facts) ==> facts.has_http_date(),
    ensures
        match opened {
            OpenedFile::Failed(kind) => if is_absent(kind) {
                sent is Ok && final(response)@ == old(response)@.with_status(404).with_body(
                    BodyView::Text("Not Found"@),
                )
            } else {
                sent == Err::<(), SendFailure>(SendFailure::Open(kind)) && final(response)@ == old(
                    response,
                )@
            },
            OpenedFile::Opened(facts) => match file_response(
                old(response)@,
                path@,
                facts,
                *request,
            ) {
                Some(view) => sent is Ok && final(response)@ == view,
                None => sent == Err::<(), SendFailure>(SendFailure::Unnamed) && final(response)@
                    == typed(validated(old(response)@, facts), path@),
            },
        },
{
    match opened {
        OpenedFile::Failed(kind) => match kind {
            IoErrorKind::NotFound | IoErrorKind::NotADirectory => {
                status_not_found(response);
                Ok(())
            },
            _ => Err(SendFailure::Open(kind)),
        },
        OpenedFile::Opened(facts) => match send_open_file(response, path, &facts, request) {
            Ok(()) => Ok(()),
            Err(_) => Err(SendFailure::Unnamed),
        },
    }
}

/// Where the reading of a body stands.
#[derive(Clone, Copy, Debug, Eq, PartialEq, Structural)]
pub struct DownloadReadState {
    offset: u64,
    remaining: u64,
}

/// The file ended before its advertised length.
#[derive(Clone, Copy, Debug, Eq, PartialEq, Structural)]
pub struct EndedEarly;

impl EndedEarly {
    pub fn message(self) -> (message: &'static str)
        ensures
            message@ == "download file ended before its advertised length"@,
    {
        "download file ended before its advertised length"
    }
}

impl DownloadReadState {
    pub closed spec fn at(self) -> nat {
        self.offset as nat
    }

    pub closed spec fn left(self) -> nat {
        self.remaining as nat
    }

    #[verifier::type_invariant]
    spec fn fits(self) -> bool {
        self.offset + self.remaining <= u64::MAX
    }

    /// Starts a body of so many bytes from an offset on.
    pub fn new(offset: u64, remaining: u64) -> (state: DownloadReadState)
        requires
            offset + remaining <= u64::MAX,
        ensures
            state.at() == offset,
            state.left() == remaining,
    {
        DownloadReadState { offset, remaining }
    }

    pub fn offset(&self) -> (offset: u64)
        ensures
            offset == self.at(),
    {
        self.offset
    }

    /// How many bytes the next read asks for; none where the body is complete.
    pub fn next_chunk(&self) -> (chunk: Option<usize>)
        ensures
            match chunk {
                None => self.left() == 0,
                Some(chunk) => 0 < chunk && chunk == (if self.left() < CHUNK_BYTES {
                    self.left()
                } else {
                    CHUNK_BYTES as nat
                }),
            },
    {
        if self.remaining == 0 {
            None
        } else if self.remaining < CHUNK_BYTES {
            Some(self.remaining as usize)
        } else {
            Some(CHUNK_BYTES as usize)
        }
    }

    /// Takes note of a read. A read of nothing means that the file has ended.
    pub fn advance(&mut self, read: usize) -> (result: Result<(), EndedEarly>)
        requires
            read <= old(self).left(),
        ensures
            result is Err <==> read == 0,
            final(self).at() == old(self).at() + read,
            final(self).left() == old(self).left() - read,
    {
        proof {
            use_type_invariant(&*self);
        }
        if read == 0 {
            return Err(EndedEarly);
        }
        *self = DownloadReadState {
            offset: self.offset + read as u64,
            remaining: self.remaining - read as u64,
        };
        Ok(())
    }
}

proof fn lemma_numbers_stand_alone(number: u64)
    ensures
        text::trimmed(text::decimal(number as nat)) == text::decimal(number as nat),
        text::decimal(number as nat).len() > 0,
        !text::decimal(number as nat).contains('='),
        !text::decimal(number as nat).contains('-'),
        text::written_digits(text::decimal(number as nat)) == Some(number as nat),
{
    let digits = text::decimal(number as nat);
    text::law_decimals_read_back(number as nat, 0);
    assert forall|i: int| 0 <= i < digits.len() implies '0' <= #[trigger] digits[i] <= '9' by {
        assert(text::is_digit(digits[i]));
    }
    text::law_blanks_are_trimmed(Seq::empty(), digits, Seq::empty());
    assert(Seq::<char>::empty() + digits + Seq::<char>::empty() =~= digits);
}

proof fn lemma_byte_sets(first: Seq<char>, last: Seq<char>, size: u64)
    requires
        !first.contains('-'),
    ensures
        range_of("bytes="@ + first + "-"@ + last, size) == byte_range(
            text::trimmed(first),
            text::trimmed(last),
            size,
        ),
{
    reveal_strlit("bytes=");
    reveal_strlit("bytes");
    reveal_strlit("-");
    let unit = "bytes"@;
    let set = first + seq!['-'] + last;
    assert("bytes="@ + first + "-"@ + last =~= unit + seq!['='] + set);
    text::law_texts_divide_at_the_first(unit, set, '=');
    text::law_texts_divide_at_the_first(first, last, '-');
    text::law_blanks_are_trimmed(Seq::empty(), unit, Seq::empty());
    assert(Seq::<char>::empty() + unit + Seq::<char>::empty() =~= unit);
}

/// A range from one byte to another is read as those two bytes, and ends with the file
/// where it would go beyond it. It cannot be sent where it starts behind the file or
/// ends before it starts.
pub proof fn law_ranges_are_read_as_written(first: u64, last: u64, size: u64)
    ensures
        range_of(
            "bytes="@ + text::decimal(first as nat) + "-"@ + text::decimal(last as nat),
            size,
        ) == (if first <= last && first < size {
            ParsedRange::Satisfiable(
                first,
                if last < size {
                    last
                } else {
                    (size - 1) as u64
                },
            )
        } else {
            ParsedRange::Unsatisfiable
        }),
{
    lemma_numbers_stand_alone(first);
    lemma_numbers_stand_alone(last);
    lemma_byte_sets(text::decimal(first as nat), text::decimal(last as nat), size);
}

/// A range without an end goes to the end of the file, and one without a start is the
/// last so many bytes of it, or all of it where it has fewer.
pub proof fn law_open_ranges_reach_the_end(number: u64, size: u64)
    ensures
        range_of("bytes="@ + text::decimal(number as nat) + "-"@, size) == (if number < size {
            ParsedRange::Satisfiable(number, (size - 1) as u64)
        } else {
            ParsedRange::Unsatisfiable
        }),
        range_of("bytes="@ + "-"@ + text::decimal(number as nat), size) == (if number == 0 || size
            == 0 {
            ParsedRange::Unsatisfiable
        } else if number < size {
            ParsedRange::Satisfiable((size - number) as u64, (size - 1) as u64)
        } else {
            ParsedRange::Satisfiable(0, (size - 1) as u64)
        }),
{
    let digits = text::decimal(number as nat);
    let nothing = Seq::<char>::empty();
    lemma_numbers_stand_alone(number);
    text::law_blanks_are_trimmed(nothing, nothing, nothing);
    assert(nothing + nothing + nothing =~= nothing);
    lemma_byte_sets(digits, nothing, size);
    assert("bytes="@ + digits + "-"@ + nothing =~= "bytes="@ + digits + "-"@);
    lemma_byte_sets(nothing, digits, size);
    assert("bytes="@ + nothing + "-"@ + digits =~= "bytes="@ + "-"@ + digits);
}

/// Ranges of other units than bytes are ignored, and so are fields that name no unit.
pub proof fn law_other_units_are_ignored(unit: Seq<char>, set: Seq<char>, size: u64)
    requires
        !unit.contains('='),
    ensures
        range_of(unit, size) == ParsedRange::Ignore,
        !http_utils::equal_but_case(text::trimmed(unit), "bytes"@) ==> range_of(
            unit + seq!['='] + set,
            size,
        ) == ParsedRange::Ignore,
        http_utils::equal_but_case(text::trimmed(unit), "bytes"@) ==> range_of(
            unit + seq!['='] + set,
            size,
        ) != ParsedRange::Ignore,
{
    text::law_texts_divide_at_the_first(unit, set, '=');
}

/// A part of a file is exactly what its header names: of a range from one byte to
/// another, the body starts at the first of them, ends with the second and has as many
/// bytes as the header says, and both lie inside the file.
pub proof fn law_parts_are_what_their_header_names(
    response: ResponseView,
    path: Seq<Seq<u8>>,
    facts: FileFacts,
    request: DownloadRequest,
    view: ResponseView,
)
    requires
        response.status != 206,
        file_response(response, path, facts, request) == Some(view),
        view.status == 206,
    ensures
        exists|first: u64, last: u64| #[trigger]
            names_the_part(view, first, last, facts.size) && first <= last < facts.size
                && view.body == BodyView::File(first, (last - first + 1) as u64)
                && view.headers["content-length"@] == text::decimal((last - first + 1) as nat),
{
    let values = http_utils::value_bytes(request.range@);
    if let Some(ParsedRange::Satisfiable(first, last)) = sent_range(facts, request) {
        if let Some(value) = http_utils::visible_text(values[0]) {
            law_ranges_lie_in_the_file(value, facts.size);
        }
        lemma_field_names_differ();
        assert(names_the_part(view, first, last, facts.size));
    }
}

/// The header names the part of a file of some size between two of its bytes.
pub open spec fn names_the_part(view: ResponseView, first: u64, last: u64, size: u64) -> bool {
    view.headers["content-range"@] == "bytes "@ + text::decimal(first as nat) + "-"@
        + text::decimal(last as nat) + "/"@ + text::decimal(size as nat)
}

proof fn lemma_field_names_differ()
    ensures
        "content-range"@ != "content-length"@,
        "content-range"@ != "accept-ranges"@,
        "content-length"@ != "accept-ranges"@,
        "content-type"@ != "content-length"@,
        "content-type"@ != "content-range"@,
        "content-type"@ != "accept-ranges"@,
        "content-type"@ != "content-disposition"@,
        "content-disposition"@ != "content-length"@,
        "content-disposition"@ != "content-range"@,
        "content-disposition"@ != "accept-ranges"@,
        "cache-control"@ != "last-modified"@,
        "cache-control"@ != "etag"@,
        "cache-control"@ != "content-type"@,
        "cache-control"@ != "content-disposition"@,
        "cache-control"@ != "accept-ranges"@,
        "cache-control"@ != "content-length"@,
        "cache-control"@ != "content-range"@,
        "last-modified"@ != "etag"@,
        "last-modified"@ != "content-type"@,
        "last-modified"@ != "content-disposition"@,
        "last-modified"@ != "accept-ranges"@,
        "last-modified"@ != "content-length"@,
        "last-modified"@ != "content-range"@,
        "etag"@ != "content-type"@,
        "etag"@ != "content-disposition"@,
        "etag"@ != "accept-ranges"@,
        "etag"@ != "content-length"@,
        "etag"@ != "content-range"@,
{
    reveal_strlit("cache-control");
    reveal_strlit("last-modified");
    reveal_strlit("etag");
    reveal_strlit("content-type");
    reveal_strlit("content-disposition");
    reveal_strlit("accept-ranges");
    reveal_strlit("content-length");
    reveal_strlit("content-range");
    assert("content-type"@.len() == 12);
    assert("content-disposition"@.len() == 19);
    assert("content-length"@.len() == 14);
    assert("content-range"@.len() == 13);
    assert("etag"@.len() == 4);
    assert("cache-control"@[0] == 'c' && "cache-control"@[1] == 'a');
    assert("last-modified"@[0] == 'l');
    assert("accept-ranges"@[0] == 'a');
    assert("content-range"@[0] == 'c' && "content-range"@[1] == 'o');
}

/// What is not a part of a file is all of it or nothing: a body that is sent with
/// another status starts at the first byte and has as many as the file.
pub proof fn law_whole_files_are_complete(
    response: ResponseView,
    path: Seq<Seq<u8>>,
    facts: FileFacts,
    request: DownloadRequest,
    view: ResponseView,
    offset: u64,
    length: u64,
)
    requires
        !(response.body is File),
        file_response(response, path, facts, request) == Some(view),
        view.status != 206,
        view.body == BodyView::File(offset, length),
    ensures
        offset == 0,
        length == facts.size,
        view.status == response.status,
        view.headers["content-length"@] == text::decimal(facts.size as nat),
{
}

/// A request for a file without conditions and without a range gets all of it, with its
/// length, its media type, its name and its validators. A request for its head gets the
/// same fields.
pub proof fn law_plain_requests_get_the_file(
    response: ResponseView,
    path: Seq<Seq<u8>>,
    name: Seq<char>,
    facts: FileFacts,
    request: DownloadRequest,
)
    requires
        facts.is_file,
        path.len() > 0,
        path.last() == encode_utf8(name),
        request.if_match@.len() == 0,
        request.if_unmodified_since@.len() == 0,
        request.if_none_match@.len() == 0,
        request.if_modified_since@.len() == 0,
        request.head_only || request.range@.len() == 0 || (facts.modified is Some
            && request.has_if_range),
    ensures
        file_response(response, path, facts, request) matches Some(view) && {
            &&& view.status == response.status
            &&& view.body == (if request.head_only {
                response.body
            } else {
                BodyView::File(0, facts.size)
            })
            &&& view.headers["content-length"@] == text::decimal(facts.size as nat)
            &&& view.headers["content-type"@] == guessed_media_type(name)
            &&& view.headers["content-disposition"@] == server::disposition(name)
            &&& view.headers["accept-ranges"@] == "bytes"@
            &&& view.headers["cache-control"@] == "no-store, private"@
            &&& facts.modified matches Some(seconds) ==> view.headers["etag"@] == entity_tag(facts)
                && view.headers["last-modified"@] == http_date(seconds)
        },
{
    broadcast use {encode_utf8_valid_utf8, encode_utf8_decode_utf8};

    lemma_field_names_differ();
    assert(http_utils::value_bytes(request.range@).len() == request.range@.len());
}

/// One range that can be sent is sent, one that cannot is refused with the size of the
/// file, and a range of another unit gets all of it.
pub proof fn law_asked_ranges_are_answered(
    response: ResponseView,
    path: Seq<Seq<u8>>,
    name: Seq<char>,
    facts: FileFacts,
    request: DownloadRequest,
    value: Seq<char>,
)
    requires
        facts.is_file,
        path.len() > 0,
        path.last() == encode_utf8(name),
        request.if_match@.len() == 0,
        request.if_unmodified_since@.len() == 0,
        request.if_none_match@.len() == 0,
        request.if_modified_since@.len() == 0,
        !request.head_only,
        facts.modified is None || !request.has_if_range,
        request.range@.len() == 1,
        http_utils::visible_text(request.range@[0]@) == Some(value),
    ensures
        file_response(response, path, facts, request) matches Some(view) && (match range_of(
            value,
            facts.size,
        ) {
            ParsedRange::Satisfiable(first, last) => view.status == 206 && view.body
                == BodyView::File(first, (last - first + 1) as u64) && names_the_part(
                view,
                first,
                last,
                facts.size,
            ),
            ParsedRange::Unsatisfiable => view.status == 416 && view.body == response.body
                && view.headers["content-range"@] == "bytes */"@ + text::decimal(
                facts.size as nat,
            ),
            ParsedRange::Ignore => view.status == response.status && view.body == BodyView::File(
                0,
                facts.size,
            ),
        }),
{
    broadcast use {encode_utf8_valid_utf8, encode_utf8_decode_utf8};

    lemma_field_names_differ();
    assert(http_utils::value_bytes(request.range@)[0] == request.range@[0]@);
}

/// More than one range field of bytes cannot be served; the first of them decides
/// whether they are of bytes.
pub proof fn law_repeated_ranges_are_refused(values: Seq<Seq<u8>>, size: u64)
    requires
        values.len() > 1,
    ensures
        requested_range(values, size) == Some(
            if http_utils::visible_text(values[0]) is Some && range_of(
                http_utils::visible_text(values[0])->0,
                size,
            ) == ParsedRange::Ignore {
                ParsedRange::Ignore
            } else {
                ParsedRange::Unsatisfiable
            },
        ),
{
}

/// A precondition fails only where the client asked for another version of a file with
/// a validator, and a file is said not to be modified only where the client said that it
/// has it. A precondition is tested first, and a tag is preferred to a time.
pub proof fn law_conditions_decide_the_status(
    response: ResponseView,
    path: Seq<Seq<u8>>,
    facts: FileFacts,
    request: DownloadRequest,
    view: ResponseView,
)
    requires
        response.status != 412,
        response.status != 304,
        facts.is_file,
        file_response(response, path, facts, request) == Some(view),
    ensures
        view.status == 412 <==> facts.modified is Some && (if request.if_match@.len() > 0 {
            tag_list(http_utils::value_bytes(request.if_match@)) != seq![42u8]
        } else {
            request.if_unmodified_since@.len() > 0 && unmodified_since(
                http_utils::value_bytes(request.if_unmodified_since@),
                facts.modified->0,
            ) == Some(false)
        }),
        view.status == 304 <==> view.status != 412 && facts.modified is Some && (
        if request.if_none_match@.len() > 0 {
            !matches_none(
                tag_list(http_utils::value_bytes(request.if_none_match@)),
                entity_tag(facts),
            )
        } else {
            request.if_modified_since@.len() > 0 && modified_since(
                http_utils::value_bytes(request.if_modified_since@),
                facts.modified->0,
            ) == Some(false)
        }),
        view.status == 412 || view.status == 304 ==> view.body == response.body,
{
}

/// Only files are sent.
pub proof fn law_other_entries_are_not_found(
    response: ResponseView,
    path: Seq<Seq<u8>>,
    facts: FileFacts,
    request: DownloadRequest,
)
    requires
        !facts.is_file,
    ensures
        file_response(response, path, facts, request) matches Some(view) && view.status == 404
            && view.body == BodyView::Text("Not Found"@) && view.headers == response.headers,
{
}

/// The values of a list field are joined in their order, with a comma and a space
/// between them; what stands outside of quotes stays as it is.
pub proof fn law_list_fields_are_joined(values: Seq<Seq<u8>>, value: Seq<u8>, place: int)
    ensures
        list_value(seq![value]) == value,
        values.len() > 0 ==> list_value(values.push(value)) == list_value(values) + seq![44u8, 32u8]
            + value,
        without_quoted_blanks(value).len() == value.len(),
        0 <= place < value.len() && value[place] != 32 && value[place] != 9
            ==> without_quoted_blanks(value)[place] == value[place],
        0 <= place < value.len() && without_quoted_blanks(value)[place] != value[place]
            ==> value.subrange(0, place).contains(34u8),
        in_quotes(value.push(34u8)) == !in_quotes(value),
        !value.contains(34u8) ==> !in_quotes(value),
{
    assert(values.push(value).drop_last() =~= values);
    assert(value.push(34u8).drop_last() =~= value);
    lemma_quotes_need_a_mark(value);
    if 0 <= place < value.len() {
        lemma_quotes_need_a_mark(value.subrange(0, place));
    }
}

proof fn lemma_quotes_need_a_mark(value: Seq<u8>)
    ensures
        !value.contains(34u8) ==> !in_quotes(value),
    decreases value.len(),
{
    if value.len() > 0 && !value.contains(34u8) {
        let front = value.drop_last();
        assert forall|i: int| 0 <= i < front.len() implies front[i] != 34u8 by {
            assert(value.contains(value[i]));
        }
        assert(value.contains(value.last()));
        lemma_quotes_need_a_mark(front);
    }
}

/// The entity tag of a file is a weak one.
pub proof fn law_entity_tags_are_weak(facts: FileFacts)
    ensures
        exists|digits: Seq<char>| entity_tag(facts) == seq!['W', '/', '"'] + digits + seq!['"'],
{
    reveal_strlit("W/\"");
    reveal_strlit("\"");
    let digits = text::hex(identifiers::sha256(validator_bytes(facts)));
    assert(entity_tag(facts) =~= seq!['W', '/', '"'] + digits + seq!['"']);
}

/// The time of a file can be written as an HTTP date up to the end of the year 9999.
pub proof fn law_dates_end_with_four_digit_years(facts: FileFacts, seconds: u64)
    ensures
        facts.modified is None ==> facts.has_http_date(),
        facts.modified == Some(seconds) ==> (facts.has_http_date() <==> seconds < 253402300800),
{
}

/// The media type of a file is told by its name where that is text, by what can be read
/// of its name where it is not, and by nothing where there is no name.
pub proof fn law_types_are_told_by_the_name(path: Seq<Seq<u8>>)
    ensures
        file_name_text(path) matches Some(name) ==> typed_name(path) == name,
        file_name_text(path) is None && path.len() > 0 ==> typed_name(path) == text::lossy_utf8(
            path.last(),
        ),
        file_name_text(path) is None && path.len() == 0 ==> typed_name(path)
            == Seq::<char>::empty(),
{
}

} // verus!
