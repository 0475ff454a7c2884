//! Core of an MCP bridge to Namibia's public eJustice court portal: the
//! data model of case records and documents, the reading of a case page,
//! the decisions of the HTTP client, and the answers of the MCP tools.
use vstd::prelude::*;

pub mod client;
pub mod parser;
pub mod server;
pub mod strmap;
pub mod text;
pub mod types;

use crate::text::concat;

verus! {

/// URI scheme for eJustice documents exposed as MCP resources; a full
/// document URI is this scheme followed by the document's `fileId`.
pub const DOCUMENT_URI_SCHEME: &'static str = "ejustice-document://";

/// Cache TTL, in milliseconds, advertised to MCP clients on resource
/// listings (one day).
pub const CACHE_TTL_MS: u64 = 24 * 60 * 60 * 1000;

/// The characters of the document URI scheme.
pub open spec fn scheme() -> Seq<char> {
    "ejustice-document://"@
}

/// The resource URI of the document with the given `fileId`.
pub open spec fn spec_document_uri(file_id: Seq<char>) -> Seq<char> {
    scheme() + file_id
}

/// Builds the full `ejustice-document://<fileId>` resource URI for a
/// document, given its `fileId`.
pub fn document_uri(file_id: &str) -> (r: String)
    ensures
        r@ == spec_document_uri(file_id@),
{
    concat("ejustice-document://", file_id)
}

} // verus!
