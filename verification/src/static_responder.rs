//! The static responder: decides whether a classified, read path is served
//! as raw bytes, and with which guessed content type. A path that is not a
//! readable file is a miss, handed on to the fallback engine.

use crate::resource::ResourceDescriptor;
use vstd::prelude::*;

verus! {

/// The MIME type guessed from a path's extension; application/octet-stream
/// when nothing is known.
pub uninterp spec fn mime_of(path: Seq<char>) -> Seq<char>;

/// Relies on mime_guess::from_path(..).first_or_octet_stream(): the guess is
/// a lookup in a fixed table keyed by the path's extension alone, with
/// application/octet-stream standing in when the table knows nothing.
#[verifier::external_body]
fn guess_mime(path: &str) -> (r: String)
    ensures
        r@ == mime_of(path@),
{
    mime_guess::from_path(path).first_or_octet_stream().to_string()
}

/// A static answer: the file's bytes under the guessed content type,
/// served with status 200.
pub struct StaticContent {
    pub bytes: Vec<u8>,
    pub content_type: String,
}

/// Serves a classified path whose bytes were read: a hit exactly when the
/// path is an existing file whose content could be read; anything else is a
/// miss for the fallback engine to answer. A hit carries the bytes as read
/// and the content type guessed from the requested path.
pub fn serve_static(rel_path: &str, lookup: &ResourceDescriptor, content: Option<Vec<u8>>) -> (r:
    Option<StaticContent>)
    ensures
        r is Some <==> (lookup is File && content is Some),
        r matches Some(sc) ==> {
            &&& content matches Some(b) && sc.bytes@ == b@
            &&& sc.content_type@ == mime_of(rel_path@)
        },
{
    match lookup {
        ResourceDescriptor::File { .. } => match content {
            Some(bytes) => Some(
                StaticContent { bytes, content_type: guess_mime(rel_path) },
            ),
            None => None,
        },
        _ => None,
    }
}

} // verus!
