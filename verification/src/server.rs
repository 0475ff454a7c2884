//! The answers of the MCP tools and resource handlers: the requests they
//! take, how a document URI is read, and what each outcome is answered.
use vstd::prelude::*;

use crate::text::{concat, has_prefix, strip_prefix};
use crate::types::{
    CaseDocument, DocumentBytes, DocumentResource, DocumentsGridSection, GridSection, is_resource_of,
    spec_panel_title,
};
use crate::{scheme, spec_document_uri};

verus! {

/// Request parameters for the `search_case` tool.
#[derive(Debug)]
pub struct MCPSearchCaseRequest {
    /// The exact eJustice case number as it appears on the portal.
    pub case_no: String,
}

/// Request parameters for the `get_case_section` tool.
#[derive(Debug)]
pub struct MCPGetCaseSectionRequest {
    /// The exact eJustice case number as it appears on the portal.
    pub case_no: String,
    /// The accordion section to fetch.
    pub section: GridSection,
}

/// Request parameters for the `fetch_document` tool.
#[derive(Debug)]
pub struct MCPFetchDocumentRequest {
    /// The document's resource URI, `ejustice-document://<fileId>`.
    pub file_url: String,
}

/// `s` is at most ten ASCII digits: what a document row's numeric `id`
/// looks like, as opposed to its long hex `fileId`.
pub open spec fn is_short_numeric(s: Seq<char>) -> bool {
    &&& s.len() <= 10
    &&& forall|i: int| 0 <= i < s.len() ==> '0' <= #[trigger] s[i] <= '9'
}

/// Whether `s` is at most ten ASCII digits
/// (`s.chars().all(|c| c.is_ascii_digit()) && s.len() <= 10`).
pub fn is_short_numeric_exec(s: &str) -> (r: bool)
    ensures
        r == is_short_numeric(s@),
{
    let cs = crate::text::chars_of(s);
    let mut i: usize = 0;
    while i < cs.len()
        invariant
            cs@ == s@,
            i <= cs.len(),
            forall|k: int| 0 <= k < i ==> '0' <= #[trigger] cs@[k] <= '9',
        decreases cs.len() - i,
    {
        if !('0' <= cs[i] && cs[i] <= '9') {
            return false;
        }
        i = i + 1;
    }
    cs.len() <= 10
}

/// Why a document URI was refused.
#[derive(Debug)]
pub enum DocumentUriError {
    /// The URI does not start with `ejustice-document://`.
    UnsupportedScheme { uri: String },
    /// What follows the scheme is a short number: a row `id`, not a `fileId`.
    NumericRowId { id: String },
}

/// The `fileId` after the scheme of a document URI.
pub open spec fn uri_rest(uri: Seq<char>) -> Seq<char> {
    uri.skip(scheme().len() as int)
}

/// Reads the `fileId` out of an `ejustice-document://<fileId>` URI,
/// refusing other schemes and short numeric ids.
pub fn document_file_id(uri: &str) -> (r: Result<String, DocumentUriError>)
    ensures
        !has_prefix(uri@, scheme()) ==> (r matches Err(DocumentUriError::UnsupportedScheme { uri: u })
            && u@ == uri@),
        has_prefix(uri@, scheme()) && is_short_numeric(uri_rest(uri@)) ==> (r matches Err(
            DocumentUriError::NumericRowId { id },
        ) && id@ == uri_rest(uri@)),
        has_prefix(uri@, scheme()) && !is_short_numeric(uri_rest(uri@)) ==> (r matches Ok(id)
            && id@ == uri_rest(uri@)),
{
    match strip_prefix(uri, "ejustice-document://") {
        None => Err(DocumentUriError::UnsupportedScheme { uri: uri.to_owned() }),
        Some(id) => {
            if is_short_numeric_exec(id.as_str()) {
                Err(DocumentUriError::NumericRowId { id })
            } else {
                Ok(id)
            }
        },
    }
}

/// A document URI built from a `fileId` reads back as that `fileId`,
/// unless the `fileId` is a short number, which is refused as a row `id`.
pub proof fn document_uri_round_trip(file_id: Seq<char>)
    ensures
        has_prefix(spec_document_uri(file_id), scheme()),
        uri_rest(spec_document_uri(file_id)) == file_id,
{
    let u = spec_document_uri(file_id);
    assert(u.take(scheme().len() as int) =~= scheme());
    assert(u.skip(scheme().len() as int) =~= file_id);
}

/// The URI of a document's resource reads back as the document's
/// `fileId`.
pub proof fn resource_uri_reads_back(r: DocumentResource, d: CaseDocument, base_url: Seq<char>)
    requires
        is_resource_of(r, d, base_url),
    ensures
        has_prefix(r.uri@, scheme()),
        uri_rest(r.uri@) == d.file_id@,
{
    document_uri_round_trip(d.file_id@);
}

/// The text of the refusal of an unsupported URI.
pub open spec fn spec_unsupported_uri_message(uri: Seq<char>) -> Seq<char> {
    "Unsupported resource URI '"@ + uri + "' - expected an 'ejustice-document://' URI."@
}

/// The text of the refusal of a row `id` passed as a `fileId`.
pub open spec fn spec_numeric_id_message(id: Seq<char>) -> Seq<char> {
    "'"@ + id
        + "' is a short numeric value, which suggests you passed a document row `id` instead of a `fileId`. `fileId` is a longer hex string (e.g. '350a0adf36b646db88b56fe18b05096b'). Copy it from the `fileId` field of a row in the documents section."@
}

impl DocumentUriError {
    /// What the client is told when its URI is refused.
    pub fn message(&self) -> (r: String)
        ensures
            self matches DocumentUriError::UnsupportedScheme { uri } ==> r@
                == spec_unsupported_uri_message(uri@),
            self matches DocumentUriError::NumericRowId { id } ==> r@ == spec_numeric_id_message(
                id@,
            ),
    {
        match self {
            DocumentUriError::UnsupportedScheme { uri } => {
                let m = concat("Unsupported resource URI '", uri.as_str());
                concat(m.as_str(), "' - expected an 'ejustice-document://' URI.")
            },
            DocumentUriError::NumericRowId { id } => {
                let m = concat("'", id.as_str());
                concat(
                    m.as_str(),
                    "' is a short numeric value, which suggests you passed a document row `id` instead of a `fileId`. `fileId` is a longer hex string (e.g. '350a0adf36b646db88b56fe18b05096b'). Copy it from the `fileId` field of a row in the documents section.",
                )
            },
        }
    }
}

/// The digit of the standard base64 alphabet for the 6-bit value `v`:
/// `A`-`Z`, `a`-`z`, `0`-`9`, `+`, `/`.
pub open spec fn base64_digit(v: int) -> char {
    if v < 26 {
        (65 + v) as char
    } else if v < 52 {
        (97 + v - 26) as char
    } else if v < 62 {
        (48 + v - 52) as char
    } else if v == 62 {
        '+'
    } else {
        '/'
    }
}

/// The standard base64 encoding of `b` (RFC 4648, section 4): each group of
/// three bytes becomes four digits of six bits each, most significant
/// first; a final group of one or two bytes is padded with zero bits and
/// completed with `=`.
pub open spec fn spec_base64_standard(b: Seq<u8>) -> Seq<char>
    decreases b.len(),
{
    if b.len() == 0 {
        seq![]
    } else {
        let x = b[0] as int;
        let y = if b.len() > 1 { b[1] as int } else { 0 };
        let z = if b.len() > 2 { b[2] as int } else { 0 };
        let d0 = base64_digit(x / 4);
        let d1 = base64_digit((x % 4) * 16 + y / 16);
        let d2 = base64_digit((y % 16) * 4 + z / 64);
        let d3 = base64_digit(z % 64);
        if b.len() == 1 {
            seq![d0, d1, '=', '=']
        } else if b.len() == 2 {
            seq![d0, d1, d2, '=']
        } else {
            seq![d0, d1, d2, d3] + spec_base64_standard(b.skip(3))
        }
    }
}

/// `base64::engine::general_purpose::STANDARD.encode(bytes)`: the standard,
/// padded base64 encoding of `bytes`, as the crate documents its
/// `STANDARD` engine (RFC 4648 alphabet, with padding).
#[verifier::external_body]
fn base64_standard(bytes: &[u8]) -> (r: String)
    ensures
        r@ == spec_base64_standard(bytes@),
{
    base64::Engine::encode(&base64::engine::general_purpose::STANDARD, bytes)
}

/// Which handler asks for a document: the `fetch_document` tool or the
/// `resources/read` handler. They word a missing document differently.
#[derive(Debug, Clone, Copy, PartialEq, Eq, Structural)]
pub enum DocumentEndpoint {
    Tool,
    Resource,
}

/// The answer to a request for a document.
#[derive(Debug)]
pub enum DocumentReply {
    /// The document, base64-encoded, under the given resource URI.
    Blob { blob: String, uri: String, mime_type: String },
    /// The portal does not have the document.
    NotFound { message: String },
    /// The download failed.
    Failed { message: String },
}

/// The text of the answer when a document is not found.
pub open spec fn spec_document_not_found_message(endpoint: DocumentEndpoint, file_id: Seq<char>) -> Seq<char> {
    let name = match endpoint {
        DocumentEndpoint::Tool => "file_url"@,
        DocumentEndpoint::Resource => "file_id"@,
    };
    "Document with "@ + name + " '"@ + file_id
        + "' not found. It may have been sealed, deleted, or the ID is incorrect."@
}

/// The text of the answer when a download fails.
pub open spec fn spec_download_failed_message(file_id: Seq<char>, err: Seq<char>) -> Seq<char> {
    "Failed to download document '"@ + file_id + "': "@ + err
}

/// `r` answers `download` as the endpoint does: the bytes base64-encoded
/// with their content type, under the resource URI that was requested; a
/// missing document or a failed download by its message.
pub open spec fn answers_download(
    endpoint: DocumentEndpoint,
    request_uri: Seq<char>,
    file_id: Seq<char>,
    download: Result<Option<DocumentBytes>, String>,
    r: DocumentReply,
) -> bool {
    match download {
        Ok(Some(doc)) => r matches DocumentReply::Blob { blob, uri, mime_type } && blob@
            == spec_base64_standard(doc.bytes@) && mime_type == doc.content_type && uri@ == request_uri,
        Ok(None) => r matches DocumentReply::NotFound { message } && message@
            == spec_document_not_found_message(endpoint, file_id),
        Err(e) => r matches DocumentReply::Failed { message } && message@
            == spec_download_failed_message(file_id, e@),
    }
}

/// What a document request is answered once the download is done: both
/// the tool and the resource handler label the blob with the resource URI
/// they were asked for.
pub fn document_reply(
    endpoint: DocumentEndpoint,
    request_uri: &str,
    file_id: &str,
    download: Result<Option<DocumentBytes>, String>,
) -> (r: DocumentReply)
    ensures
        answers_download(endpoint, request_uri@, file_id@, download, r),
{
    match download {
        Ok(Some(doc)) => {
            let blob = base64_standard(doc.bytes.as_slice());
            DocumentReply::Blob { blob, uri: request_uri.to_owned(), mime_type: doc.content_type }
        },
        Ok(None) => {
            let name = match endpoint {
                DocumentEndpoint::Tool => "file_url",
                DocumentEndpoint::Resource => "file_id",
            };
            let m = concat("Document with ", name);
            let m = concat(m.as_str(), " '");
            let m = concat(m.as_str(), file_id);
            let message = concat(
                m.as_str(),
                "' not found. It may have been sealed, deleted, or the ID is incorrect.",
            );
            DocumentReply::NotFound { message }
        },
        Err(e) => {
            let m = concat("Failed to download document '", file_id);
            let m = concat(m.as_str(), "': ");
            DocumentReply::Failed { message: concat(m.as_str(), e.as_str()) }
        },
    }
}

/// `fetch_document` and `resources/read` return identical results: asked
/// for the same URI, with the same download of the same file, the tool and
/// the resource handler both answer with a blob or both do not; the blobs
/// carry the same base64 text, content type and resource URI; and a failed
/// download is reported in the same words.
pub proof fn tool_and_resource_answer_alike(
    uri: Seq<char>,
    file_id: Seq<char>,
    download: Result<Option<DocumentBytes>, String>,
    tool: DocumentReply,
    resource: DocumentReply,
)
    requires
        answers_download(DocumentEndpoint::Tool, uri, file_id, download, tool),
        answers_download(DocumentEndpoint::Resource, uri, file_id, download, resource),
    ensures
        tool is Blob <==> resource is Blob,
        tool is NotFound <==> resource is NotFound,
        tool matches DocumentReply::Blob { blob: b1, uri: u1, mime_type: m1 } ==> (
        resource matches DocumentReply::Blob { blob: b2, uri: u2, mime_type: m2 } && b1@ == b2@
            && u1@ == u2@ && m1@ == m2@),
        tool matches DocumentReply::Failed { message: e1 } ==> (
        resource matches DocumentReply::Failed { message: e2 } && e1@ == e2@),
{
}

/// What `get_case_section` answers with rows it fetched.
#[derive(Debug)]
pub enum SectionContent {
    /// The rows themselves, as JSON text.
    Rows,
    /// One resource link per document row.
    Links(Vec<DocumentResource>),
    /// The documents rows could not be read; the error text.
    Unreadable(String),
}

/// How `get_case_section` answers the rows of `section`, given those rows
/// read as a documents grid (or the reason they could not be): the
/// documents section as resource links, any other section as its rows.
pub fn section_content(section: GridSection, base_url: &str, documents: Result<DocumentsGridSection, String>) -> (r:
    SectionContent)
    ensures
        section != GridSection::Documents ==> r is Rows,
        section == GridSection::Documents ==> match documents {
            Ok(sec) => r matches SectionContent::Links(links) && links.len() == sec.data.len() && (forall|
                k: int,
            | 0 <= k < links.len() ==> is_resource_of(#[trigger] links[k], sec.data[k], base_url@)),
            Err(e) => r matches SectionContent::Unreadable(m) && m@
                == "Failed to parse documents section: "@ + e@,
        },
{
    if section != GridSection::Documents {
        return SectionContent::Rows;
    }
    match documents {
        Ok(sec) => SectionContent::Links(sec.resources(base_url)),
        Err(e) => SectionContent::Unreadable(concat("Failed to parse documents section: ", e.as_str())),
    }
}

/// The text of the answer when a searched case does not exist.
pub open spec fn spec_case_not_found_message(case_no: Seq<char>) -> Seq<char> {
    "Case number '"@ + case_no
        + "' not found in the eJustice portal. Please verify the exact formatting (e.g., 'HC-MD-CIV-MOT-GEN-2025/00343') and try again."@
}

/// What `search_case` answers: the case, or the error text shown to the
/// client when there is no such case or the search failed.
pub fn search_case_reply<T>(case_no: &str, result: Result<Option<T>, String>) -> (r: Result<T, String>)
    ensures
        result matches Ok(Some(c)) ==> r == Ok::<T, String>(c),
        result is Ok && result->Ok_0 is None ==> (r matches Err(m) && m@ == spec_case_not_found_message(
            case_no@,
        )),
        result matches Err(e) ==> (r matches Err(m) && m@ == "Failed to search for case '"@
            + case_no@ + "': "@ + e@),
{
    match result {
        Ok(Some(c)) => Ok(c),
        Ok(None) => {
            let m = concat("Case number '", case_no);
            Err(
                concat(
                    m.as_str(),
                    "' not found in the eJustice portal. Please verify the exact formatting (e.g., 'HC-MD-CIV-MOT-GEN-2025/00343') and try again.",
                ),
            )
        },
        Err(e) => {
            let m = concat("Failed to search for case '", case_no);
            let m = concat(m.as_str(), "': ");
            Err(concat(m.as_str(), e.as_str()))
        },
    }
}

/// What `get_case_section` answers: the section's rows, or the error text
/// shown to the client when the case or section is missing or the fetch
/// failed.
pub fn section_reply<T>(case_no: &str, section: GridSection, result: Result<Option<T>, String>) -> (r:
    Result<T, String>)
    ensures
        result matches Ok(Some(v)) ==> r == Ok::<T, String>(v),
        result is Ok && result->Ok_0 is None ==> (r matches Err(m) && m@ == "Case number '"@
            + case_no@ + "' not found in the eJustice portal."@),
        result matches Err(e) ==> (r matches Err(m) && m@ == "Failed to fetch '"@
            + spec_panel_title(section) + "' section for case '"@ + case_no@ + "': "@ + e@),
{
    match result {
        Ok(Some(v)) => Ok(v),
        Ok(None) => {
            let m = concat("Case number '", case_no);
            Err(concat(m.as_str(), "' not found in the eJustice portal."))
        },
        Err(e) => {
            let m = concat("Failed to fetch '", section.panel_title());
            let m = concat(m.as_str(), "' section for case '");
            let m = concat(m.as_str(), case_no);
            let m = concat(m.as_str(), "': ");
            Err(concat(m.as_str(), e.as_str()))
        },
    }
}

} // verus!
