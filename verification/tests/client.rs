use ejustice_mcp::client::{
    download_body_unreadable, download_rejected, download_unsent, grid_task_panicked,
    search_body_unreadable, search_network_failure, search_rejected, unreadable_error_body,
};
use ejustice_mcp::text::decimal_string;
use ejustice_mcp::client::{grid_http_failure, grid_network_failure, grid_parse_failure, GridFailure};
use ejustice_mcp::client::{
    case_search_result, content_type_or_default, disposition_filename, document_download_url,
    download_status, downloaded_document, grid_failure_reason, grid_url, is_error_status,
    is_success_status, rejection_hint, response_snippet, search_failure_reason, search_url,
    section_request, CaseInfoSearchForm, DownloadStatus,
};
use ejustice_mcp::parser::parse_case_detail;
use ejustice_mcp::types::GridSection;

#[test]
fn urls() {
    assert_eq!(
        search_url("https://ejustice.jud.na/ejustice/"),
        "https://ejustice.jud.na/ejustice/f/caseinfo/publicsearch"
    );
    assert_eq!(
        search_url("https://ejustice.jud.na/ejustice"),
        "https://ejustice.jud.na/ejustice/f/caseinfo/publicsearch"
    );
    assert_eq!(grid_url("https://h/e//", "/f/grid/1"), "https://h/e/f/grid/1");
    assert_eq!(
        document_download_url("https://h/e/", "abc"),
        "https://h/e/document/download/abc"
    );
}

#[test]
fn failure_reasons() {
    assert_eq!(search_failure_reason(true, true, true), "connection refused/failed");
    assert_eq!(search_failure_reason(false, true, true), "request timed out");
    assert_eq!(search_failure_reason(false, false, true), "redirect loop/failure");
    assert_eq!(search_failure_reason(false, false, false), "network error");
    assert_eq!(grid_failure_reason(false, true), "request timed out");
    assert_eq!(grid_failure_reason(false, false), "network error");
    assert_eq!(grid_failure_reason(true, false), "connection refused/failed");
}

#[test]
fn hints() {
    let hint = " (Hint: Likely invalid CSRF token, missing session cookie, or blocked by WAF)";
    assert_eq!(rejection_hint(Some(403)), hint);
    assert_eq!(rejection_hint(Some(400)), hint);
    assert_eq!(rejection_hint(Some(500)), "");
    assert_eq!(rejection_hint(None), "");
}

#[test]
fn statuses() {
    assert_eq!(download_status(404), DownloadStatus::NotFound);
    assert_eq!(download_status(403), DownloadStatus::Rejected);
    assert_eq!(download_status(503), DownloadStatus::Rejected);
    assert_eq!(download_status(200), DownloadStatus::Accepted);
    assert_eq!(download_status(302), DownloadStatus::Accepted);
    assert!(is_error_status(599));
    assert!(!is_error_status(600));
    assert!(is_success_status(204));
    assert!(!is_success_status(301));
}

#[test]
fn download_metadata() {
    assert_eq!(content_type_or_default(None), "application/octet-stream");
    assert_eq!(content_type_or_default(Some("application/pdf".to_string())), "application/pdf");
    assert_eq!(
        disposition_filename("attachment; filename=\"order.pdf\""),
        Some("order.pdf".to_string())
    );
    assert_eq!(disposition_filename("inline;filename=a.pdf;filename=b.pdf"), Some("a.pdf".to_string()));
    assert_eq!(disposition_filename("attachment"), None);
    assert_eq!(disposition_filename("attachment; name=\"x\""), None);
}

#[test]
fn empty_download_is_not_found() {
    assert!(downloaded_document(Vec::new(), "text/plain".to_string(), None).is_none());
    let d = downloaded_document(vec![1, 2], "application/pdf".to_string(), Some("a.pdf".to_string()))
        .unwrap();
    assert_eq!(d.bytes, vec![1, 2]);
    assert_eq!(d.content_type, "application/pdf");
    assert_eq!(d.filename.as_deref(), Some("a.pdf"));
}

#[test]
fn snippet_is_truncated() {
    let raw: String = std::iter::repeat('x').take(600).collect();
    assert_eq!(response_snippet(&raw).chars().count(), 500);
    assert_eq!(response_snippet("short"), "short");
}

#[test]
fn search_form() {
    let f = CaseInfoSearchForm::new("HC-1");
    assert_eq!(f.page_refresh, "true");
    assert_eq!(f.page_draft, "");
    assert_eq!(f.dyna_form, "");
    assert_eq!(f.current_version, 0);
    assert_eq!(f.session_key, "");
    assert_eq!(f.case_no_search, "HC-1");
    assert_eq!(f.case_no_search_history, "");
    assert_eq!(f.case_parties, "grid-readonly-15");
    assert_eq!(f.case_lawyers, "grid-readonly-31");
    assert_eq!(f.csrf, "");
}

const PAGE: &str = r##"<html><body><div class="panel"><h4 class="panel-title"><a>Case Hearings</a></h4><div id="grid-3"></div></div>
<p data-static-name="caseno">C</p><input name="dynaForm" value="d"><input name="sessionKey" value="s"><input name="_csrf" value="t">
<script>$("#grid-3").kendoGrid({ read: { url: "/f/hearings" } })</script></body></html>"##;

#[test]
fn section_requests() {
    let req = section_request("C", parse_case_detail(PAGE, "C"), GridSection::Hearings).unwrap();
    assert_eq!(req, Some(("/f/hearings".to_string(), Some("t".to_string()))));
    let none = section_request("C", parse_case_detail(PAGE, "C"), GridSection::Parties).unwrap();
    assert_eq!(none, None);
    assert_eq!(section_request("C", Ok(None), GridSection::Parties).unwrap(), None);
    assert_eq!(
        section_request("C", Err("boom".to_string()), GridSection::Parties).unwrap_err(),
        "Failed to parse case search detail for C: boom"
    );
}

#[test]
fn search_results() {
    assert!(case_search_result("C", Ok(None)).unwrap().is_none());
    assert_eq!(
        case_search_result("C", Err("boom".to_string())).unwrap_err(),
        "Failed to parse case search detail for case number C: boom"
    );
    let found = case_search_result("C", parse_case_detail(PAGE, "C")).unwrap().unwrap();
    assert_eq!(found.case_no, "C");
}

#[test]
fn grid_failures_are_described() {
    let n = grid_network_failure("https://h/f/g", false, true, "timed out");
    assert_eq!(n.kind(), "network_failure");
    match n {
        GridFailure::Network { message } => {
            assert_eq!(message, "[Network] POST to https://h/f/g failed (request timed out): timed out")
        }
        _ => panic!("wrong kind"),
    }
    let long = "x".repeat(600);
    let h = grid_http_failure("https://h/f/g", 403, "403 Forbidden", &long);
    assert_eq!(h.kind(), "http_error");
    match h {
        GridFailure::Http { status_code, message, raw_response_snippet } => {
            assert_eq!(status_code, 403);
            assert_eq!(message, "[HTTP] Server rejected request to https://h/f/g with status 403 Forbidden");
            assert_eq!(raw_response_snippet.chars().count(), 500);
        }
        _ => panic!("wrong kind"),
    }
    let p = grid_parse_failure("https://h/f/g", "EOF");
    assert_eq!(p.kind(), "parse_error");
    match p {
        GridFailure::Parse { message } => {
            assert_eq!(message, "[Parse] Failed to parse JSON response from https://h/f/g: EOF")
        }
        _ => panic!("wrong kind"),
    }
}

#[test]
fn request_errors_are_described() {
    assert_eq!(
        search_network_failure("https://h/s", false, false, true, "too many redirects"),
        "[Network] POST to https://h/s failed (redirect loop/failure): too many redirects"
    );
    assert_eq!(
        search_rejected("https://h/s", Some(403), "HTTP status client error"),
        "[HTTP] Server rejected search POST to https://h/s with status 403 (Hint: Likely invalid CSRF token, missing session cookie, or blocked by WAF): HTTP status client error"
    );
    assert_eq!(
        search_rejected("https://h/s", Some(500), "e"),
        "[HTTP] Server rejected search POST to https://h/s with status 500: e"
    );
    assert_eq!(
        search_rejected("https://h/s", None, "e"),
        "[HTTP] Server rejected search POST to https://h/s with status unknown: e"
    );
    assert_eq!(
        search_body_unreadable("https://h/s", "eof"),
        "[Stream] Failed to read HTML response body from https://h/s: eof"
    );
    assert_eq!(
        download_unsent("https://h/d", "refused"),
        "[Network] Failed to initiate download from https://h/d : refused"
    );
    assert_eq!(
        download_rejected("https://h/d", Some("500 Internal Server Error".to_string()), "e"),
        "[HTTP] Server rejected download for https://h/d with status 500 Internal Server Error: e"
    );
    assert_eq!(
        download_rejected("https://h/d", None, "e"),
        "[HTTP] Server rejected download for https://h/d with status unknown: e"
    );
    assert_eq!(
        download_body_unreadable("https://h/d", "Kind(Body)"),
        "[Stream] Failed to read document body from https://h/d: Kind(Body)"
    );
    assert_eq!(unreadable_error_body("x"), "Failed to read error body: x");
    assert_eq!(grid_task_panicked("boom"), "A grid fetch task panicked: boom");
}

#[test]
fn status_numerals() {
    assert_eq!(decimal_string(0), "0");
    assert_eq!(decimal_string(404), "404");
    assert_eq!(decimal_string(65535), "65535");
}
