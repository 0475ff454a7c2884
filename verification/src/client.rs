//! The decisions of the eJustice HTTP client: the URLs it requests, the
//! form it posts, how it reads responses and what its errors say. The
//! requests themselves are made by the caller.
use vstd::prelude::*;

use crate::text::{
    concat, decimal, decimal_string, occurs_at, split_from, strip_end, strip_start, has_prefix, split_on, split_on_pattern, strip_prefix, take_chars, take_prefix_chars,
    trim, trim_char, trim_end_char, trim_end_matches_char, trim_matches_char, trim_whitespace,
};
use crate::types::{CaseSearchDetail, DocumentBytes, GridSection, spec_panel_title};

verus! {

/// `base_url` without trailing slashes, followed by `path`.
pub open spec fn spec_endpoint_url(base_url: Seq<char>, path: Seq<char>) -> Seq<char> {
    trim_end_char(base_url, '/') + path
}

/// The public case-search endpoint: `{base_url}/f/caseinfo/publicsearch`
/// (trailing slashes of `base_url` removed).
pub fn search_url(base_url: &str) -> (r: String)
    ensures
        r@ == spec_endpoint_url(base_url@, "/f/caseinfo/publicsearch"@),
{
    let base = trim_end_matches_char(base_url, '/');
    concat(base.as_str(), "/f/caseinfo/publicsearch")
}

/// The URL of a grid endpoint path: `{base_url}{path}` (trailing slashes of
/// `base_url` removed).
pub fn grid_url(base_url: &str, path: &str) -> (r: String)
    ensures
        r@ == spec_endpoint_url(base_url@, path@),
{
    let base = trim_end_matches_char(base_url, '/');
    concat(base.as_str(), path)
}

/// The download URL of a document: `{base_url}/document/download/{file_id}`
/// (trailing slashes of `base_url` removed).
pub fn document_download_url(base_url: &str, file_id: &str) -> (r: String)
    ensures
        r@ == spec_endpoint_url(base_url@, "/document/download/"@ + file_id@),
{
    let base = trim_end_matches_char(base_url, '/');
    let a = concat(base.as_str(), "/document/download/");
    let r = concat(a.as_str(), file_id);
    proof {
        assert(r@ =~= trim_end_char(base_url@, '/') + ("/document/download/"@ + file_id@));
    }
    r
}

/// Why the case-search POST could not be sent: the first of connect,
/// timeout and redirect failure that holds, else a plain network error.
pub open spec fn spec_search_failure_reason(is_connect: bool, is_timeout: bool, is_redirect: bool) -> Seq<
    char,
> {
    if is_connect {
        "connection refused/failed"@
    } else if is_timeout {
        "request timed out"@
    } else if is_redirect {
        "redirect loop/failure"@
    } else {
        "network error"@
    }
}

/// The reason given when the case-search POST could not be sent.
pub fn search_failure_reason(is_connect: bool, is_timeout: bool, is_redirect: bool) -> (r:
    &'static str)
    ensures
        r@ == spec_search_failure_reason(is_connect, is_timeout, is_redirect),
{
    if is_connect {
        "connection refused/failed"
    } else if is_timeout {
        "request timed out"
    } else if is_redirect {
        "redirect loop/failure"
    } else {
        "network error"
    }
}

/// Why a grid request could not be sent: connect failure, then timeout,
/// else a plain network error.
pub open spec fn spec_grid_failure_reason(is_connect: bool, is_timeout: bool) -> Seq<char> {
    if is_connect {
        "connection refused/failed"@
    } else if is_timeout {
        "request timed out"@
    } else {
        "network error"@
    }
}

/// The reason given when a grid request could not be sent.
pub fn grid_failure_reason(is_connect: bool, is_timeout: bool) -> (r: &'static str)
    ensures
        r@ == spec_grid_failure_reason(is_connect, is_timeout),
{
    if is_connect {
        "connection refused/failed"
    } else if is_timeout {
        "request timed out"
    } else {
        "network error"
    }
}

/// The hint added to a rejected case search: statuses 400 and 403 usually
/// mean a bad CSRF token, a missing session cookie or a firewall block.
pub open spec fn spec_rejection_hint(status: Option<u16>) -> Seq<char> {
    if status == Some(403u16) || status == Some(400u16) {
        " (Hint: Likely invalid CSRF token, missing session cookie, or blocked by WAF)"@
    } else {
        ""@
    }
}

/// The hint for a rejected case search with this status.
pub fn rejection_hint(status: Option<u16>) -> (r: &'static str)
    ensures
        r@ == spec_rejection_hint(status),
{
    match status {
        Some(code) => {
            if code == 403 || code == 400 {
                " (Hint: Likely invalid CSRF token, missing session cookie, or blocked by WAF)"
            } else {
                ""
            }
        },
        None => "",
    }
}

/// The status is a client or server error (400 to 599), which makes
/// `error_for_status` fail.
pub open spec fn spec_is_error_status(status: u16) -> bool {
    400 <= status < 600
}

/// The status is a success (200 to 299).
pub open spec fn spec_is_success_status(status: u16) -> bool {
    200 <= status < 300
}

/// Whether a response with this status is an error
/// (`StatusCode::is_client_error() || StatusCode::is_server_error()`).
pub fn is_error_status(status: u16) -> (r: bool)
    ensures
        r == spec_is_error_status(status),
{
    400 <= status && status < 600
}

/// Whether a response with this status is a success (`StatusCode::is_success`).
pub fn is_success_status(status: u16) -> (r: bool)
    ensures
        r == spec_is_success_status(status),
{
    200 <= status && status < 300
}

/// How a document download answered, by its status.
#[derive(Debug, Clone, Copy, PartialEq, Eq, Structural)]
pub enum DownloadStatus {
    /// 404: the document does not exist.
    NotFound,
    /// Another client or server error.
    Rejected,
    /// Anything else: the body is read.
    Accepted,
}

/// Classifies a document download response by its status.
pub fn download_status(status: u16) -> (r: DownloadStatus)
    ensures
        status == 404 ==> r == DownloadStatus::NotFound,
        status != 404 && spec_is_error_status(status) ==> r == DownloadStatus::Rejected,
        !spec_is_error_status(status) ==> r == DownloadStatus::Accepted,
{
    if status == 404 {
        DownloadStatus::NotFound
    } else if is_error_status(status) {
        DownloadStatus::Rejected
    } else {
        DownloadStatus::Accepted
    }
}

/// The `Content-Type` of a download, or `application/octet-stream` when the
/// header is absent or not text.
pub fn content_type_or_default(header: Option<String>) -> (r: String)
    ensures
        header matches Some(h) ==> r@ == h@,
        header is None ==> r@ == "application/octet-stream"@,
{
    match header {
        Some(h) => h,
        None => "application/octet-stream".to_owned(),
    }
}

/// The file name in a `Content-Disposition` header: the first `;`-separated
/// part that, trimmed, starts with `filename=`, with that prefix and any
/// surrounding double quotes removed.
pub open spec fn spec_disposition_filename(cd: Seq<char>) -> Option<Seq<char>> {
    first_filename(split_on(cd, ";"@))
}

/// The file name given by the first part of `parts` that names one.
pub open spec fn first_filename(parts: Seq<Seq<char>>) -> Option<Seq<char>>
    decreases parts.len(),
{
    if parts.len() == 0 {
        None
    } else {
        let p = trim(parts[0]);
        if has_prefix(p, "filename="@) {
            Some(trim_char(p.skip("filename="@.len() as int), '"'))
        } else {
            first_filename(parts.drop_first())
        }
    }
}

/// Reads the file name out of a `Content-Disposition` header value.
pub fn disposition_filename(cd: &str) -> (r: Option<String>)
    ensures
        r matches Some(f) ==> spec_disposition_filename(cd@) == Some(f@),
        r is None ==> spec_disposition_filename(cd@) is None,
{
    let cs = crate::text::chars_of(cd);
    let sep = crate::text::chars_of(";");
    proof {
        reveal_strlit(";");
    }
    let parts = split_on_pattern(&cs, &sep);
    let ghost views = parts@.map_values(|p: String| p@);
    assert(views.skip(0) =~= views);
    let mut i: usize = 0;
    while i < parts.len()
        invariant
            i <= parts.len(),
            views == parts@.map_values(|p: String| p@),
            views == split_on(cd@, ";"@),
            first_filename(views) == first_filename(views.skip(i as int)),
        decreases parts.len() - i,
    {
        let part = trim_whitespace(parts[i].as_str());
        proof {
            assert(views.skip(i as int).drop_first() =~= views.skip(i + 1));
            assert(views.skip(i as int)[0] == views[i as int]);
        }
        match strip_prefix(part.as_str(), "filename=") {
            Some(rest) => {
                return Some(trim_matches_char(rest.as_str(), '"'));
            },
            None => {},
        }
        i = i + 1;
    }
    proof {
        assert(views.skip(parts.len() as int) =~= Seq::<Seq<char>>::empty());
    }
    None
}

/// A downloaded document, or `None` when the body is empty: an empty
/// download counts as "not found", not as a zero-byte file.
pub fn downloaded_document(bytes: Vec<u8>, content_type: String, filename: Option<String>) -> (r:
    Option<DocumentBytes>)
    ensures
        bytes@.len() == 0 ==> r is None,
        bytes@.len() > 0 ==> (r matches Some(d) && d.bytes@ == bytes@ && d.content_type
            == content_type && d.filename == filename),
{
    if bytes.len() == 0 {
        None
    } else {
        Some(DocumentBytes { bytes, content_type, filename })
    }
}

/// The part of a rejected grid response's body kept for debugging: its
/// first 500 characters.
pub fn response_snippet(raw: &str) -> (r: String)
    ensures
        r@ == take_chars(raw@, 500),
{
    take_prefix_chars(raw, 500)
}

/// The numeral of a response status, or `unknown` when there was none.
pub open spec fn status_numeral(status: Option<u16>) -> Seq<char> {
    match status {
        Some(c) => decimal(c as nat),
        None => "unknown"@,
    }
}

/// The error of a case-search POST to `url` that could not be sent, given
/// what kind of failure the client reported and its text.
pub fn search_network_failure(url: &str, is_connect: bool, is_timeout: bool, is_redirect: bool, err: &str) -> (r:
    String)
    ensures
        r@ == "[Network] POST to "@ + url@ + " failed ("@ + spec_search_failure_reason(
            is_connect,
            is_timeout,
            is_redirect,
        ) + "): "@ + err@,
{
    let m = concat("[Network] POST to ", url);
    let m = concat(m.as_str(), " failed (");
    let m = concat(m.as_str(), search_failure_reason(is_connect, is_timeout, is_redirect));
    let m = concat(m.as_str(), "): ");
    concat(m.as_str(), err)
}

/// The error of a case-search POST to `url` that the portal rejected with
/// `status` (none when the client reported no status), with the hint for
/// statuses 400 and 403.
pub fn search_rejected(url: &str, status: Option<u16>, err: &str) -> (r: String)
    ensures
        r@ == "[HTTP] Server rejected search POST to "@ + url@ + " with status "@ + status_numeral(
            status,
        ) + spec_rejection_hint(status) + ": "@ + err@,
{
    let code = match status {
        Some(c) => decimal_string(c),
        None => "unknown".to_owned(),
    };
    proof {
        reveal_strlit("unknown");
    }
    let m = concat("[HTTP] Server rejected search POST to ", url);
    let m = concat(m.as_str(), " with status ");
    let m = concat(m.as_str(), code.as_str());
    let m = concat(m.as_str(), rejection_hint(status));
    let m = concat(m.as_str(), ": ");
    concat(m.as_str(), err)
}

/// The error when the body of the case-search page at `url` cannot be read.
pub fn search_body_unreadable(url: &str, err: &str) -> (r: String)
    ensures
        r@ == "[Stream] Failed to read HTML response body from "@ + url@ + ": "@ + err@,
{
    let m = concat("[Stream] Failed to read HTML response body from ", url);
    let m = concat(m.as_str(), ": ");
    concat(m.as_str(), err)
}

/// The error of a document download from `url` that could not be sent.
pub fn download_unsent(url: &str, err: &str) -> (r: String)
    ensures
        r@ == "[Network] Failed to initiate download from "@ + url@ + " : "@ + err@,
{
    let m = concat("[Network] Failed to initiate download from ", url);
    let m = concat(m.as_str(), " : ");
    concat(m.as_str(), err)
}

/// The error of a document download from `url` that the portal rejected,
/// with the status as shown (`unknown` when the client reported none).
pub fn download_rejected(url: &str, status: Option<String>, err: &str) -> (r: String)
    ensures
        r@ == "[HTTP] Server rejected download for "@ + url@ + " with status "@ + (match status {
            Some(s) => s@,
            None => "unknown"@,
        }) + ": "@ + err@,
{
    let shown = match status {
        Some(s) => s,
        None => "unknown".to_owned(),
    };
    let m = concat("[HTTP] Server rejected download for ", url);
    let m = concat(m.as_str(), " with status ");
    let m = concat(m.as_str(), shown.as_str());
    let m = concat(m.as_str(), ": ");
    concat(m.as_str(), err)
}

/// The error when the body of the document at `url` cannot be read.
pub fn download_body_unreadable(url: &str, err: &str) -> (r: String)
    ensures
        r@ == "[Stream] Failed to read document body from "@ + url@ + ": "@ + err@,
{
    let m = concat("[Stream] Failed to read document body from ", url);
    let m = concat(m.as_str(), ": ");
    concat(m.as_str(), err)
}

/// What stands for the body of a rejected grid request when that body
/// cannot be read.
pub fn unreadable_error_body(err: &str) -> (r: String)
    ensures
        r@ == "Failed to read error body: "@ + err@,
{
    concat("Failed to read error body: ", err)
}

/// The error when one of the concurrent grid fetches panicked.
pub fn grid_task_panicked(err: &str) -> (r: String)
    ensures
        r@ == "A grid fetch task panicked: "@ + err@,
{
    concat("A grid fetch task panicked: ", err)
}

/// Why a grid request produced no rows; the JSON error object it is
/// answered with has these fields.
#[derive(Debug)]
pub enum GridFailure {
    /// The request could not be sent.
    Network { message: String },
    /// The portal answered with a status other than a success.
    Http { status_code: u16, message: String, raw_response_snippet: String },
    /// The answer was not JSON.
    Parse { message: String },
}

impl GridFailure {
    /// The `error` field of the JSON error object.
    pub fn kind(&self) -> (r: &'static str)
        ensures
            self is Network ==> r@ == "network_failure"@,
            self is Http ==> r@ == "http_error"@,
            self is Parse ==> r@ == "parse_error"@,
    {
        match self {
            GridFailure::Network { .. } => "network_failure",
            GridFailure::Http { .. } => "http_error",
            GridFailure::Parse { .. } => "parse_error",
        }
    }
}

/// The failure of a grid request to `url` that could not be sent, given
/// what kind of failure the client reported and its text.
pub fn grid_network_failure(url: &str, is_connect: bool, is_timeout: bool, err: &str) -> (r:
    GridFailure)
    ensures
        r matches GridFailure::Network { message } && message@ == "[Network] POST to "@ + url@
            + " failed ("@ + spec_grid_failure_reason(is_connect, is_timeout) + "): "@ + err@,
{
    let m = concat("[Network] POST to ", url);
    let m = concat(m.as_str(), " failed (");
    let m = concat(m.as_str(), grid_failure_reason(is_connect, is_timeout));
    let m = concat(m.as_str(), "): ");
    GridFailure::Network { message: concat(m.as_str(), err) }
}

/// The failure of a grid request to `url` answered with `status_code`,
/// shown as `status`, and the body `raw`, of which the first 500
/// characters are kept.
pub fn grid_http_failure(url: &str, status_code: u16, status: &str, raw: &str) -> (r: GridFailure)
    ensures
        r matches GridFailure::Http { status_code: c, message, raw_response_snippet } && c
            == status_code && message@ == "[HTTP] Server rejected request to "@ + url@
            + " with status "@ + status@ && raw_response_snippet@ == take_chars(raw@, 500),
{
    let m = concat("[HTTP] Server rejected request to ", url);
    let m = concat(m.as_str(), " with status ");
    GridFailure::Http {
        status_code,
        message: concat(m.as_str(), status),
        raw_response_snippet: response_snippet(raw),
    }
}

/// The failure of a grid request to `url` whose answer was not JSON.
pub fn grid_parse_failure(url: &str, err: &str) -> (r: GridFailure)
    ensures
        r matches GridFailure::Parse { message } && message@
            == "[Parse] Failed to parse JSON response from "@ + url@ + ": "@ + err@,
{
    let m = concat("[Parse] Failed to parse JSON response from ", url);
    let m = concat(m.as_str(), ": ");
    GridFailure::Parse { message: concat(m.as_str(), err) }
}

/// Form body for the public case-search POST
/// (`{base_url}/f/caseinfo/publicsearch`).
#[derive(Debug)]
pub struct CaseInfoSearchForm<'a> {
    pub page_refresh: &'a str,
    pub page_draft: &'a str,
    pub dyna_form: &'a str,
    pub current_version: i32,
    pub session_key: &'a str,
    pub case_no_search: &'a str,
    pub case_no_search_history: &'a str,
    pub case_parties: &'a str,
    pub case_lawyers: &'a str,
    pub csrf: &'a str,
}

impl<'a> CaseInfoSearchForm<'a> {
    /// Builds the form body for searching `case_no`.
    pub fn new(case_no: &'a str) -> (r: Self)
        ensures
            r.page_refresh@ == "true"@,
            r.page_draft@ == ""@,
            r.dyna_form@ == ""@,
            r.current_version == 0,
            r.session_key@ == ""@,
            r.case_no_search == case_no,
            r.case_no_search_history@ == ""@,
            r.case_parties@ == "grid-readonly-15"@,
            r.case_lawyers@ == "grid-readonly-31"@,
            r.csrf@ == ""@,
    {
        Self {
            page_refresh: "true",
            page_draft: "",
            dyna_form: "",
            current_version: 0,
            session_key: "",
            case_no_search: case_no,
            case_no_search_history: "",
            case_parties: "grid-readonly-15",
            case_lawyers: "grid-readonly-31",
            csrf: "",
        }
    }
}

/// What `search_case` returns once the case page has been read: the case,
/// `None` when there is no such case, or the parse error explained.
pub fn case_search_result(case_no: &str, parsed: Result<Option<CaseSearchDetail>, String>) -> (r:
    Result<Option<CaseSearchDetail>, String>)
    ensures
        parsed matches Ok(c) ==> r == Ok::<Option<CaseSearchDetail>, String>(c),
        parsed matches Err(e) ==> (r matches Err(m) && m@
            == "Failed to parse case search detail for case number "@ + case_no@ + ": "@ + e@),
{
    match parsed {
        Ok(c) => Ok(c),
        Err(e) => {
            let m = concat("Failed to parse case search detail for case number ", case_no);
            let m = concat(m.as_str(), ": ");
            Err(concat(m.as_str(), e.as_str()))
        },
    }
}

/// What `fetch_section` requests once the case page has been read: the
/// section's grid endpoint path and the page's CSRF token; `None` when the
/// case does not exist or its page has no grid for `section`.
pub fn section_request(
    case_no: &str,
    parsed: Result<Option<CaseSearchDetail>, String>,
    section: GridSection,
) -> (r: Result<Option<(String, Option<String>)>, String>)
    ensures
        parsed matches Err(e) ==> (r matches Err(m) && m@
            == "Failed to parse case search detail for "@ + case_no@ + ": "@ + e@),
        parsed matches Ok(None) ==> r matches Ok(None),
        parsed matches Ok(Some(info)) ==> (r is Ok && (r->Ok_0 is Some
            <==> info.grid_endpoints@.contains_key(spec_panel_title(section)))),
        parsed matches Ok(Some(info)) ==> (r matches Ok(Some(p)) ==> p.0@
            == info.grid_endpoints@[spec_panel_title(section)] && p.1 == info.csrf),
{
    match parsed {
        Ok(Some(info)) => {
            match info.grid_endpoints.get(section.panel_title()) {
                Some(path) => Ok(Some((path.clone(), info.csrf))),
                None => Ok(None),
            }
        },
        Ok(None) => Ok(None),
        Err(e) => {
            let m = concat("Failed to parse case search detail for ", case_no);
            let m = concat(m.as_str(), ": ");
            Err(concat(m.as_str(), e.as_str()))
        },
    }
}

/// The file name of `attachment; filename="n"` is `n` itself, for any
/// name `n` without `;` or `"`: spaces and every other character inside
/// the quotes are kept.
pub proof fn disposition_filename_keeps_quoted_name(n: Seq<char>)
    requires
        forall|i: int| 0 <= i < n.len() ==> #[trigger] n[i] != ';' && n[i] != '"',
    ensures
        spec_disposition_filename("attachment; filename=\""@ + n + "\""@) == Some(n),
{
    reveal_strlit("attachment; filename=\"");
    reveal_strlit("\"");
    reveal_strlit(";");
    reveal_strlit("filename=");
    let a: Seq<char> = seq!['a', 't', 't', 'a', 'c', 'h', 'm', 'e', 'n', 't'];
    let semi: Seq<char> = seq![';'];
    let head: Seq<char> = seq![' ', 'f', 'i', 'l', 'e', 'n', 'a', 'm', 'e', '=', '"'];
    let q: Seq<char> = seq!['"'];
    let b = head + n + q;
    let cd = "attachment; filename=\""@ + n + "\""@;
    assert(cd =~= a + semi + b);
    assert(";"@ =~= semi);
    // `b` holds no `;`
    assert forall|k: int| 0 <= k < b.len() implies #[trigger] b[k] != ';' by {
        if k >= head.len() && k < head.len() + n.len() {
            assert(b[k] == n[k - head.len()]);
        }
    }
    assert forall|j: int| 0 <= j < 10 implies !occurs_at(cd, semi, j) by {
        assert(cd.subrange(j, j + 1)[0] == cd[j]);
        assert(cd[j] == a[j]);
    }
    assert(cd.subrange(10, 11) =~= semi);
    crate::text::lemma_find_from_at(cd, semi, 0, 10);
    assert forall|j: int| 11 <= j implies !occurs_at(cd, semi, j) by {
        if j + 1 <= cd.len() {
            assert(cd.subrange(j, j + 1)[0] == cd[j]);
            assert(cd[j] == b[j - 11]);
        }
    }
    crate::text::lemma_find_from_none(cd, semi, 11);
    assert(cd.subrange(0, 10) =~= a);
    assert(cd.skip(11) =~= b);
    assert(split_from(cd, semi, 11) == seq![b]);
    assert(split_on(cd, semi) =~= seq![a, b]);
    // the first part is no file name
    assert(trim(a) == a) by {
        assert(strip_end(a, crate::text::ws_pred()) == a);
        assert(strip_start(a, crate::text::ws_pred()) == a);
    }
    assert(!has_prefix(a, "filename="@)) by {
        assert(a.take(9)[0] != "filename="@[0]);
    }
    let parts = seq![a, b];
    assert(parts.drop_first() =~= seq![b]);
    // the second part, trimmed, is `filename="n"`
    let c = b.drop_first();
    assert(strip_end(b, crate::text::ws_pred()) == b) by {
        assert(b.last() == '"');
    }
    assert(strip_start(c, crate::text::ws_pred()) == c) by {
        assert(c[0] == b[1]);
        assert(!crate::text::ws_pred()(c[0]));
    }
    assert(strip_start(b, crate::text::ws_pred()) == c) by {
        assert(crate::text::ws_pred()(b[0]));
    }
    assert(trim(b) == c);
    assert(c.take(9) =~= "filename="@);
    let d = c.skip(9);
    assert(d =~= q + n + q);
    // and its quotes come off
    let cp = crate::text::char_pred('"');
    let dq = q + n;
    assert(d.drop_last() =~= dq);
    assert(strip_end(d, cp) == strip_end(dq, cp)) by {
        assert(d.last() == '"');
    }
    if n.len() > 0 {
        assert(dq.last() == n.last());
        assert(n.last() == n[n.len() - 1]);
        assert(strip_end(dq, cp) == dq);
        assert(dq.drop_first() =~= n);
        assert(strip_start(n, cp) == n) by {
            assert(n[0] != '"');
        }
        assert(strip_start(dq, cp) == n);
    } else {
        assert(dq =~= q);
        assert(dq.drop_last() =~= Seq::<char>::empty());
        assert(dq.last() == '"');
        assert(cp(dq.last()));
        assert(strip_end(Seq::<char>::empty(), cp) =~= Seq::<char>::empty());
        assert(strip_end(dq, cp) == strip_end(dq.drop_last(), cp));
        assert(strip_end(dq, cp) =~= Seq::<char>::empty());
        assert(strip_start(Seq::<char>::empty(), cp) =~= n);
    }
    assert(trim_char(d, '"') == n);
    assert("filename="@.len() == 9);
    assert(first_filename(seq![b]) == Some(n));
    assert(first_filename(parts) == first_filename(seq![b]));
}

/// Trailing slashes on the base URL do not change the URLs built from it.
pub proof fn endpoint_url_ignores_trailing_slash(base_url: Seq<char>, path: Seq<char>)
    ensures
        spec_endpoint_url(base_url.push('/'), path) == spec_endpoint_url(base_url, path),
{
    assert(base_url.push('/').drop_last() =~= base_url);
}

} // verus!
