use ejustice_mcp::server::{section_content, SectionContent};
use ejustice_mcp::types::DocumentsGridSection;
use ejustice_mcp::server::{
    document_file_id, document_reply, is_short_numeric_exec, search_case_reply, section_reply,
    DocumentEndpoint, DocumentReply, DocumentUriError,
};
use ejustice_mcp::types::{DocumentBytes, GridSection};
use ejustice_mcp::{document_uri, CACHE_TTL_MS, DOCUMENT_URI_SCHEME};

#[test]
fn uri_is_scheme_and_file_id() {
    assert_eq!(DOCUMENT_URI_SCHEME, "ejustice-document://");
    assert_eq!(
        document_uri("350a0adf36b646db88b56fe18b05096b"),
        "ejustice-document://350a0adf36b646db88b56fe18b05096b"
    );
    assert_eq!(CACHE_TTL_MS, 86_400_000);
}

#[test]
fn uri_round_trip() {
    let id = "350a0adf36b646db88b56fe18b05096b";
    match document_file_id(&document_uri(id)) {
        Ok(f) => assert_eq!(f, id),
        Err(_) => panic!("refused"),
    }
}

#[test]
fn unsupported_scheme_is_refused() {
    match document_file_id("https://x/1") {
        Err(e @ DocumentUriError::UnsupportedScheme { .. }) => assert_eq!(
            e.message(),
            "Unsupported resource URI 'https://x/1' - expected an 'ejustice-document://' URI."
        ),
        _ => panic!("accepted"),
    }
}

#[test]
fn row_id_is_refused() {
    match document_file_id("ejustice-document://1611669") {
        Err(e @ DocumentUriError::NumericRowId { .. }) => assert_eq!(
            e.message(),
            "'1611669' is a short numeric value, which suggests you passed a document row `id` instead of a `fileId`. `fileId` is a longer hex string (e.g. '350a0adf36b646db88b56fe18b05096b'). Copy it from the `fileId` field of a row in the documents section."
        ),
        _ => panic!("accepted"),
    }
    assert!(matches!(
        document_file_id("ejustice-document://"),
        Err(DocumentUriError::NumericRowId { .. })
    ));
    assert!(matches!(document_file_id("ejustice-document://12345678901"), Ok(_)));
}

#[test]
fn short_numeric() {
    assert!(is_short_numeric_exec("0123456789"));
    assert!(!is_short_numeric_exec("01234567890"));
    assert!(!is_short_numeric_exec("12a"));
    assert!(is_short_numeric_exec(""));
}

fn doc() -> DocumentBytes {
    DocumentBytes { bytes: b"hello".to_vec(), content_type: "text/plain".to_string(), filename: None }
}

#[test]
fn document_replies() {
    match document_reply(DocumentEndpoint::Tool, "ejustice-document://ab12", "ab12", Ok(Some(doc()))) {
        DocumentReply::Blob { blob, uri, mime_type } => {
            assert_eq!(blob, "aGVsbG8=");
            assert_eq!(uri, "ejustice-document://ab12");
            assert_eq!(mime_type, "text/plain");
        }
        _ => panic!("no blob"),
    }
    match document_reply(DocumentEndpoint::Resource, "ejustice-document://ab12", "ab12", Ok(Some(doc()))) {
        DocumentReply::Blob { uri, .. } => assert_eq!(uri, "ejustice-document://ab12"),
        _ => panic!("no blob"),
    }
    match document_reply(DocumentEndpoint::Tool, "u", "ab12", Ok(None)) {
        DocumentReply::NotFound { message } => assert_eq!(
            message,
            "Document with file_url 'ab12' not found. It may have been sealed, deleted, or the ID is incorrect."
        ),
        _ => panic!("found"),
    }
    match document_reply(DocumentEndpoint::Resource, "u", "ab12", Ok(None)) {
        DocumentReply::NotFound { message } => assert_eq!(
            message,
            "Document with file_id 'ab12' not found. It may have been sealed, deleted, or the ID is incorrect."
        ),
        _ => panic!("found"),
    }
    match document_reply(DocumentEndpoint::Resource, "u", "ab12", Err("down".to_string())) {
        DocumentReply::Failed { message } => {
            assert_eq!(message, "Failed to download document 'ab12': down")
        }
        _ => panic!("no failure"),
    }
}

#[test]
fn search_replies() {
    assert_eq!(search_case_reply("C1", Ok(Some(7))), Ok(7));
    assert_eq!(
        search_case_reply::<i32>("C1", Ok(None)),
        Err("Case number 'C1' not found in the eJustice portal. Please verify the exact formatting (e.g., 'HC-MD-CIV-MOT-GEN-2025/00343') and try again.".to_string())
    );
    assert_eq!(
        search_case_reply::<i32>("C1", Err("x".to_string())),
        Err("Failed to search for case 'C1': x".to_string())
    );
}

#[test]
fn section_replies() {
    assert_eq!(section_reply("C1", GridSection::Hearings, Ok(Some(1))), Ok(1));
    assert_eq!(
        section_reply::<i32>("C1", GridSection::Hearings, Ok(None)),
        Err("Case number 'C1' not found in the eJustice portal.".to_string())
    );
    assert_eq!(
        section_reply::<i32>("C1", GridSection::CaseHistory, Err("x".to_string())),
        Err("Failed to fetch 'CASE HISTORY' section for case 'C1': x".to_string())
    );
}

#[test]
fn tool_and_resource_serve_the_same_blob() {
    let uri = document_uri("ab12");
    let tool = document_reply(DocumentEndpoint::Tool, &uri, "ab12", Ok(Some(doc())));
    let resource = document_reply(DocumentEndpoint::Resource, &uri, "ab12", Ok(Some(doc())));
    match (tool, resource) {
        (
            DocumentReply::Blob { blob: b1, uri: u1, mime_type: m1 },
            DocumentReply::Blob { blob: b2, uri: u2, mime_type: m2 },
        ) => {
            assert_eq!(b1, b2);
            assert_eq!(u1, u2);
            assert_eq!(u1, uri);
            assert_eq!(m1, m2);
        }
        _ => panic!("not both blobs"),
    }
    let failed = |e: DocumentEndpoint| match document_reply(e, &uri, "ab12", Err("503".to_string())) {
        DocumentReply::Failed { message } => message,
        _ => panic!("no failure"),
    };
    assert_eq!(failed(DocumentEndpoint::Tool), failed(DocumentEndpoint::Resource));
}

#[test]
fn section_content_by_section() {
    let empty = || Ok(DocumentsGridSection { total: 0, data: vec![] });
    assert!(matches!(section_content(GridSection::Hearings, "b", empty()), SectionContent::Rows));
    assert!(matches!(
        section_content(GridSection::Hearings, "b", Err("bad".to_string())),
        SectionContent::Rows
    ));
    match section_content(GridSection::Documents, "b", empty()) {
        SectionContent::Links(l) => assert!(l.is_empty()),
        _ => panic!("no links"),
    }
    match section_content(GridSection::Documents, "b", Err("missing field `total`".to_string())) {
        SectionContent::Unreadable(m) => {
            assert_eq!(m, "Failed to parse documents section: missing field `total`")
        }
        _ => panic!("read"),
    }
}
