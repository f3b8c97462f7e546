//! The metadata operations behind `?info` and `?list`: per-file metadata
//! with a full-content hash, and non-recursive directory listings, both
//! answered as a JSON envelope.

use crate::json::dec_digits;
use crate::json::hex16_of;
use crate::json::json_escaped;
use crate::json::push_dec_u64;
use crate::json::push_hex16_u64;
use crate::json::push_json_escaped;
use crate::resource::DirEntryInfo;
use crate::resource::ResourceDescriptor;
use crate::text::chars_to_string;
use crate::text::push_str_chars;
use vstd::prelude::*;

verus! {

/// What xxHash64 with the given seed makes of a byte sequence.
pub uninterp spec fn xxh64_of(bytes: Seq<u8>, seed: u64) -> u64;

/// Relies on xxhash_rust::xxh64::xxh64: the digest is a pure function of the
/// input bytes and the seed.
#[verifier::external_body]
fn xxh64_digest(bytes: &Vec<u8>, seed: u64) -> (r: u64)
    ensures
        r == xxh64_of(bytes@, seed),
{
    xxhash_rust::xxh64::xxh64(bytes.as_slice(), seed)
}

/// The RFC 3339 rendering, in UTC, of a timestamp.
pub uninterp spec fn rfc3339_of(secs: i64, nanos: u32) -> Seq<char>;

/// Relies on chrono's DateTime::from_timestamp and DateTime::to_rfc3339: the
/// rendering is a pure function of the timestamp, and a timestamp between
/// the Unix epoch and the end of year 9999 with nanoseconds below one
/// billion is well inside the range chrono represents, so from_timestamp
/// returns a value there.
#[verifier::external_body]
fn rfc3339_utc(secs: i64, nanos: u32) -> (r: String)
    requires
        0 <= secs <= 253_402_300_799,
        nanos < 1_000_000_000,
    ensures
        r@ == rfc3339_of(secs, nanos),
{
    chrono::DateTime::<chrono::Utc>::from_timestamp(secs, nanos).unwrap().to_rfc3339()
}

/// A finished JSON answer: an HTTP status and the envelope to send.
pub struct JsonPayload {
    pub status: u16,
    pub body: String,
}

/// The success envelope around a JSON data value.
pub open spec fn success_envelope(data: Seq<char>) -> Seq<char> {
    "{\"data\":"@ + data + ",\"success\":true}"@
}

/// The failure envelope around an error message.
pub open spec fn error_envelope(msg: Seq<char>) -> Seq<char> {
    "{\"error\":\""@ + json_escaped(msg) + "\",\"success\":false}"@
}

/// The data object `?info` answers with: content hash, modification time,
/// the path as requested, and the size in bytes.
pub open spec fn file_info_data(
    rel: Seq<char>,
    size: u64,
    modified: Seq<char>,
    hash: u64,
) -> Seq<char> {
    "{\"hash_xxh64\":\""@ + hex16_of(hash) + "\",\"modified_time\":\""@ + json_escaped(modified)
        + "\",\"path\":\""@ + json_escaped(rel) + "\",\"size_bytes\":"@ + dec_digits(size as int)
        + "}"@
}

/// The JSON object describing one directory entry.
pub open spec fn entry_json(e: DirEntryInfo) -> Seq<char> {
    "{\"is_dir\":"@ + (if e.is_dir {
        "true"@
    } else {
        "false"@
    }) + ",\"modified_time\":\""@ + json_escaped(rfc3339_of(e.modified.secs, e.modified.nanos))
        + "\",\"name\":\""@ + json_escaped(e.name@) + "\"}"@
}

/// The comma-separated entry objects of a listing.
pub open spec fn listing_inner(entries: Seq<DirEntryInfo>) -> Seq<char>
    decreases entries.len(),
{
    if entries.len() == 0 {
        Seq::<char>::empty()
    } else if entries.len() == 1 {
        entry_json(entries[0])
    } else {
        listing_inner(entries.drop_last()) + seq![','] + entry_json(entries.last())
    }
}

/// The data value `?list` answers with: the array of entry objects.
pub open spec fn listing_data(entries: Seq<DirEntryInfo>) -> Seq<char> {
    seq!['['] + listing_inner(entries) + seq![']']
}

/// What `?info` answers, as a (status, body) pair: 404 when nothing is
/// there, 400 on a directory, 500 when an I/O step failed, and otherwise
/// 200 with the file's metadata and content hash.
pub open spec fn spec_file_info(
    rel: Seq<char>,
    lookup: Result<ResourceDescriptor, String>,
    content: Result<Vec<u8>, String>,
) -> (int, Seq<char>) {
    match lookup {
        Err(m) => (500int, error_envelope("Failed to read file metadata: "@ + m@)),
        Ok(ResourceDescriptor::Missing) => (404int, error_envelope("Resource not found."@)),
        Ok(ResourceDescriptor::Directory { .. }) => (
            400int,
            error_envelope("The '?info' parameter can only be used on files."@),
        ),
        Ok(ResourceDescriptor::File { size, modified }) => match content {
            Err(m) => (500int, error_envelope("Failed to read file: "@ + m@)),
            Ok(bytes) => (
                200int,
                success_envelope(
                    file_info_data(
                        rel,
                        size,
                        rfc3339_of(modified.secs, modified.nanos),
                        xxh64_of(bytes@, 0),
                    ),
                ),
            ),
        },
    }
}

/// What `?list` answers, as a (status, body) pair: 404 when nothing is
/// there, 400 on a file, 500 when an I/O step failed, and otherwise 200
/// with the entries as given.
pub open spec fn spec_list_directory(lookup: Result<ResourceDescriptor, String>) -> (
    int,
    Seq<char>,
) {
    match lookup {
        Err(m) => (500int, error_envelope("Failed to read directory: "@ + m@)),
        Ok(ResourceDescriptor::Missing) => (404int, error_envelope("Resource not found."@)),
        Ok(ResourceDescriptor::File { .. }) => (
            400int,
            error_envelope("The '?list' parameter can only be used on directories."@),
        ),
        Ok(ResourceDescriptor::Directory { entries }) => (200int, success_envelope(
            listing_data(entries@),
        )),
    }
}

/// Law: `?info` on an existing directory is a bad request (400), whatever
/// the directory holds and whatever was read.
pub proof fn lemma_info_on_directory_bad_request(
    rel: Seq<char>,
    entries: Vec<DirEntryInfo>,
    content: Result<Vec<u8>, String>,
)
    ensures
        spec_file_info(rel, Ok(ResourceDescriptor::Directory { entries }), content).0 == 400,
{
}

/// Law: `?list` on an existing file is a bad request (400), whatever the
/// file's metadata.
pub proof fn lemma_list_on_file_bad_request(size: u64, modified: crate::resource::Timestamp)
    ensures
        spec_list_directory(Ok(ResourceDescriptor::File { size, modified })).0 == 400,
{
}

/// Law: both operations answer 404 where nothing exists.
pub proof fn lemma_missing_not_found(rel: Seq<char>, content: Result<Vec<u8>, String>)
    ensures
        spec_file_info(rel, Ok(ResourceDescriptor::Missing), content).0 == 404,
        spec_list_directory(Ok(ResourceDescriptor::Missing)).0 == 404,
{
}

/// Law: the `?info` answer is a function of the file's bytes, not of the
/// buffer that holds them; in particular, hashing unmodified content twice
/// gives the same `hash_xxh64`.
pub proof fn lemma_info_deterministic(
    rel: Seq<char>,
    lookup: Result<ResourceDescriptor, String>,
    first: Vec<u8>,
    second: Vec<u8>,
)
    requires
        first@ == second@,
    ensures
        spec_file_info(rel, lookup, Ok(first)) == spec_file_info(rel, lookup, Ok(second)),
{
}

/// Builds the failure envelope for a fixed message.
fn error_payload(status: u16, msg: &str) -> (r: JsonPayload)
    ensures
        r.status == status,
        r.body@ == error_envelope(msg@),
{
    let mut out: Vec<char> = Vec::new();
    push_str_chars(&mut out, "{\"error\":\"");
    push_json_escaped(&mut out, msg);
    push_str_chars(&mut out, "\",\"success\":false}");
    proof {
        assert(out@ =~= error_envelope(msg@));
    }
    JsonPayload { status, body: chars_to_string(&out) }
}

/// Builds the failure envelope for a message with a diagnostic tail.
fn error_payload_detail(status: u16, prefix: &str, detail: &str) -> (r: JsonPayload)
    ensures
        r.status == status,
        r.body@ == error_envelope(prefix@ + detail@),
{
    let mut msg: Vec<char> = Vec::new();
    push_str_chars(&mut msg, prefix);
    push_str_chars(&mut msg, detail);
    let joined = chars_to_string(&msg);
    let mut out: Vec<char> = Vec::new();
    push_str_chars(&mut out, "{\"error\":\"");
    push_json_escaped(&mut out, joined.as_str());
    push_str_chars(&mut out, "\",\"success\":false}");
    proof {
        assert(out@ =~= error_envelope(prefix@ + detail@));
    }
    JsonPayload { status, body: chars_to_string(&out) }
}

/// Builds the success envelope around finished data text.
fn success_payload(data: Vec<char>) -> (r: JsonPayload)
    ensures
        r.status == 200,
        r.body@ == success_envelope(data@),
{
    let mut out: Vec<char> = Vec::new();
    push_str_chars(&mut out, "{\"data\":");
    let mut d = data;
    let ghost dv = d@;
    out.append(&mut d);
    push_str_chars(&mut out, ",\"success\":true}");
    proof {
        assert(out@ =~= success_envelope(dv));
    }
    JsonPayload { status: 200, body: chars_to_string(&out) }
}

/// The `?info` operation on a classified path whose content was read:
/// answers exactly as `spec_file_info` says.
pub fn file_info(
    rel_path: &str,
    lookup: &Result<ResourceDescriptor, String>,
    content: &Result<Vec<u8>, String>,
) -> (r: JsonPayload)
    requires
        *lookup matches Ok(ResourceDescriptor::File { size, modified }) ==> modified.valid(),
    ensures
        (r.status as int, r.body@) == spec_file_info(rel_path@, *lookup, *content),
{
    match lookup {
        Err(m) => error_payload_detail(500, "Failed to read file metadata: ", m.as_str()),
        Ok(ResourceDescriptor::Missing) => error_payload(404, "Resource not found."),
        Ok(ResourceDescriptor::Directory { .. }) => error_payload(
            400,
            "The '?info' parameter can only be used on files.",
        ),
        Ok(ResourceDescriptor::File { size, modified }) => match content {
            Err(m) => error_payload_detail(500, "Failed to read file: ", m.as_str()),
            Ok(bytes) => {
                let hash = xxh64_digest(bytes, 0);
                let mtime = rfc3339_utc(modified.secs, modified.nanos);
                let mut data: Vec<char> = Vec::new();
                push_str_chars(&mut data, "{\"hash_xxh64\":\"");
                push_hex16_u64(&mut data, hash);
                push_str_chars(&mut data, "\",\"modified_time\":\"");
                push_json_escaped(&mut data, mtime.as_str());
                push_str_chars(&mut data, "\",\"path\":\"");
                push_json_escaped(&mut data, rel_path);
                push_str_chars(&mut data, "\",\"size_bytes\":");
                push_dec_u64(&mut data, *size);
                push_str_chars(&mut data, "}");
                proof {
                    assert(data@ =~= file_info_data(
                        rel_path@,
                        *size,
                        rfc3339_of(modified.secs, modified.nanos),
                        xxh64_of(bytes@, 0),
                    ));
                }
                success_payload(data)
            },
        },
    }
}

/// The `?list` operation on a classified path: answers exactly as
/// `spec_list_directory` says.
pub fn list_directory(lookup: &Result<ResourceDescriptor, String>) -> (r: JsonPayload)
    requires
        *lookup matches Ok(ResourceDescriptor::Directory { entries }) ==> forall|i: int|
            0 <= i < entries@.len() ==> (#[trigger] entries@[i]).modified.valid(),
    ensures
        (r.status as int, r.body@) == spec_list_directory(*lookup),
{
    match lookup {
        Err(m) => error_payload_detail(500, "Failed to read directory: ", m.as_str()),
        Ok(ResourceDescriptor::Missing) => error_payload(404, "Resource not found."),
        Ok(ResourceDescriptor::File { .. }) => error_payload(
            400,
            "The '?list' parameter can only be used on directories.",
        ),
        Ok(ResourceDescriptor::Directory { entries }) => {
            let mut data: Vec<char> = Vec::new();
            data.push('[');
            let mut i: usize = 0;
            while i < entries.len()
                invariant
                    i <= entries.len(),
                    data@ == seq!['['] + listing_inner(entries@.take(i as int)),
                    forall|j: int|
                        0 <= j < entries@.len() ==> (#[trigger] entries@[j]).modified.valid(),
                decreases entries.len() - i,
            {
                proof {
                    assert(entries@.take((i + 1) as int).drop_last() =~= entries@.take(i as int));
                    assert(entries@.take((i + 1) as int).last() == entries@[i as int]);
                }
                if i > 0 {
                    data.push(',');
                }
                let e = &entries[i];
                push_str_chars(&mut data, "{\"is_dir\":");
                if e.is_dir {
                    push_str_chars(&mut data, "true");
                } else {
                    push_str_chars(&mut data, "false");
                }
                push_str_chars(&mut data, ",\"modified_time\":\"");
                let mtime = rfc3339_utc(e.modified.secs, e.modified.nanos);
                push_json_escaped(&mut data, mtime.as_str());
                push_str_chars(&mut data, "\",\"name\":\"");
                push_json_escaped(&mut data, e.name.as_str());
                push_str_chars(&mut data, "\"}");
                proof {
                    if i == 0 {
                        assert(data@ =~= seq!['['] + listing_inner(
                            entries@.take((i + 1) as int),
                        ));
                    } else {
                        assert(data@ =~= seq!['['] + listing_inner(
                            entries@.take((i + 1) as int),
                        ));
                    }
                }
                i += 1;
            }
            proof {
                assert(entries@.take(entries@.len() as int) =~= entries@);
            }
            data.push(']');
            proof {
                assert(data@ =~= listing_data(entries@));
            }
            success_payload(data)
        },
    }
}

} // verus!
