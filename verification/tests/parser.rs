use ejustice_mcp::parser::{
    discover_grid_endpoints, item_text, normalize_texts, parse_case_detail, relief_claims,
    script_bodies, ScrapedElement, TreeToken,
};

const CASE_PAGE: &str = r##"<html><head><title>Case</title></head><body>
<div class="panel"><div class="panel-heading"><h4 class="panel-title"><a>  Case
   Parties </a></h4></div>
<div class="panel-body"><div id="grid-readonly-15"></div></div></div>
<div class="panel"><h4 class="panel-title"><a>Documents</a></h4><div id="document-group-7"></div></div>
<div class="panel"><h4 class="panel-title"><a></a></h4><div id="grid-untitled"></div></div>
<div class="case">
<p class="form-control-static" data-static-name="caseno">HC-MD-CIV-MOT-GEN-2025/00343</p>
<p class="form-control-static" data-static-name="title">  Smith   v
   Jones </p>
<p class="form-control-static" data-static-name="casedetails">Details</p>
<ol><li> First  claim </li><li>Second <b>part</b><ol><li>nested</li></ol> tail</li><li>   </li></ol>
</div>
<form><input type="hidden" name="dynaForm" value=" 4711 "><input type="hidden" name="sessionKey" value="abc"><input type="hidden" name="_csrf" value="tok"></form>
<script>$("#grid-readonly-15").kendoGrid({ dataSource: { transport: { read: { url: eJustice.contextPath + "/f/grid/parties" } } } });</script>
<script>$("#document-group-7").kendoGrid({ dataSource: { transport: { read: {url: "/f/grid/docs"} } } });</script>
<script>$("#grid-untitled").kendoGrid({ read: { url: "/f/grid/none" } });</script>
</body></html>"##;

#[test]
fn case_page_is_read() {
    let case = parse_case_detail(CASE_PAGE, "HC-MD-CIV-MOT-GEN-2025/00343")
        .unwrap()
        .unwrap();
    assert_eq!(case.case_no, "HC-MD-CIV-MOT-GEN-2025/00343");
    assert_eq!(case.dyna_form_id, "4711");
    assert_eq!(case.session_key, "abc");
    assert_eq!(case.current_version, "");
    assert_eq!(case.csrf.as_deref(), Some("tok"));
    assert_eq!(case.fields.len(), 3);
    assert_eq!(
        case.fields.get("caseno").map(|s| s.as_str()),
        Some("HC-MD-CIV-MOT-GEN-2025/00343")
    );
    assert_eq!(case.fields.get("title").map(|s| s.as_str()), Some("Smith v Jones"));
    assert_eq!(case.fields.get("casedetails").map(|s| s.as_str()), Some("Details"));
    assert_eq!(
        case.relief_claim,
        vec!["First claim".to_string(), "Second part tail".to_string(), "nested".to_string()]
    );
    assert_eq!(case.grid_endpoints.len(), 2);
    assert_eq!(
        case.grid_endpoints.get("Case Parties").map(|s| s.as_str()),
        Some("/f/grid/parties")
    );
    assert_eq!(
        case.grid_endpoints.get("Documents").map(|s| s.as_str()),
        Some("/f/grid/docs")
    );
    assert!(case.grids.is_none());
}

#[test]
fn page_without_case_number_is_no_case() {
    let page = "<html><body><p data-static-name=\"title\">x</p></body></html>";
    assert!(parse_case_detail(page, "X-1").unwrap().is_none());
}

#[test]
fn missing_dyna_form_is_an_error() {
    let page = "<html><body><p data-static-name=\"caseno\">X</p><input name=\"sessionKey\" value=\"s\"></body></html>";
    assert_eq!(
        parse_case_detail(page, "X").unwrap_err(),
        "missing hidden input: dynaForm"
    );
}

#[test]
fn missing_session_key_is_an_error() {
    let page = "<html><body><p data-static-name=\"caseno\">X</p><input name=\"dynaForm\" value=\"d\"></body></html>";
    assert_eq!(
        parse_case_detail(page, "X").unwrap_err(),
        "missing hidden input: sessionKey"
    );
}

#[test]
fn case_without_relief_list_has_no_claims() {
    let page = "<html><body><p data-static-name=\"caseno\">X</p><input name=\"dynaForm\" value=\"d\"><input name=\"sessionKey\" value=\"s\"><input name=\"currentVersion\" value=\" 3 \"></body></html>";
    let case = parse_case_detail(page, "X").unwrap().unwrap();
    assert!(case.relief_claim.is_empty());
    assert_eq!(case.current_version, "3");
    assert!(case.csrf.is_none());
    assert_eq!(case.grid_endpoints.len(), 0);
    assert_eq!(case.fields.len(), 0);
}

#[test]
fn item_text_skips_nested_lists() {
    let tokens = vec![
        TreeToken::Open("li".to_string()),
        TreeToken::Text("  Alpha ".to_string()),
        TreeToken::Close,
        TreeToken::Open("ol".to_string()),
        TreeToken::Open("li".to_string()),
        TreeToken::Text("hidden".to_string()),
        TreeToken::Close,
        TreeToken::Close,
        TreeToken::Close,
        TreeToken::OpenOther,
        TreeToken::Close,
        TreeToken::Open("span".to_string()),
        TreeToken::Text("beta\n gamma".to_string()),
        TreeToken::Close,
        TreeToken::Close,
        TreeToken::Close,
    ];
    assert_eq!(item_text(&tokens, 0, tokens.len()), "Alpha beta gamma");
    assert_eq!(item_text(&tokens, 11, 14), "beta gamma");
}

#[test]
fn relief_claims_take_items_of_first_list() {
    let open = |n: &str| TreeToken::Open(n.to_string());
    let text = |t: &str| TreeToken::Text(t.to_string());
    // <div><p>x</p><ol><li> </li><li>one</li></ol><ol><li>two</li></ol></div>
    let walk = vec![
        open("div"),
        open("p"), text("x"), TreeToken::Close, TreeToken::Close,
        open("ol"),
        open("li"), text(" "), TreeToken::Close, TreeToken::Close,
        open("li"), text("one"), TreeToken::Close, TreeToken::Close,
        TreeToken::Close,
        open("ol"),
        open("li"), text("two"), TreeToken::Close, TreeToken::Close,
        TreeToken::Close,
        TreeToken::Close,
    ];
    let mut lists = vec![false; walk.len()];
    lists[5] = true;
    lists[15] = true;
    let mut items = vec![false; walk.len()];
    items[6] = true;
    items[10] = true;
    items[16] = true;
    let claims = relief_claims(Ok(Some(walk)), Ok(Some(lists)), Ok(Some(items))).unwrap();
    assert_eq!(claims, vec!["one".to_string()]);
    assert!(relief_claims(Ok(None), Ok(None), Ok(None)).unwrap().is_empty());
    assert_eq!(
        relief_claims(Err("bad".to_string()), Ok(None), Ok(None)).unwrap_err(),
        "Selector parse error: bad"
    );
}

#[test]
fn texts_are_concatenated_and_collapsed() {
    let texts = vec!["  a ".to_string(), "b\t\tc".to_string(), "".to_string(), "d".to_string()];
    assert_eq!(normalize_texts(&texts), "a b cd");
    let parts = vec!["HC-MD".to_string(), "-CIV".to_string(), "/2025".to_string()];
    assert_eq!(normalize_texts(&parts), "HC-MD-CIV/2025");
}

#[test]
fn field_text_is_the_element_text_content() {
    let page = "<html><body><p class=\"form-control-static\" data-static-name=\"caseno\">HC-MD<b>-CIV</b>/2025</p><p class=\"form-control-static\" data-static-name=\"judge\">Justice <i>A.</i>\n  Smith</p><input name=\"dynaForm\" value=\"d\"><input name=\"sessionKey\" value=\"s\"></body></html>";
    let case = parse_case_detail(page, "HC-MD-CIV/2025").unwrap().unwrap();
    assert_eq!(case.fields.get("caseno").map(|s| s.as_str()), Some("HC-MD-CIV/2025"));
    assert_eq!(case.fields.get("judge").map(|s| s.as_str()), Some("Justice A. Smith"));
}

#[test]
fn scripts_are_cut_out() {
    let html = "x<script>one</script>y<script>two</script><script>open";
    assert_eq!(script_bodies(html), vec!["one".to_string(), "two".to_string()]);
    assert!(script_bodies("no scripts").is_empty());
}

#[test]
fn endpoints_need_a_titled_panel() {
    let html = "<div class=\"panel\"><h4 class=\"panel-title\"><a>Case Judges</a></h4><div id=\"grid-9\"></div></div><script>$(\"#grid-9\").kendoGrid({read: {url: \"/judges\"}})</script><script>$(\"#grid-10\").kendoGrid({read: {url: \"/other\"}})</script>";
    let m = discover_grid_endpoints(html).unwrap();
    assert_eq!(m.len(), 1);
    assert_eq!(m.get("Case Judges").map(|s| s.as_str()), Some("/judges"));
}

#[test]
fn scraped_element_fields_are_public() {
    let e = ScrapedElement { attr: Some("k".to_string()), texts: vec!["v".to_string()] };
    let fields = ejustice_mcp::parser::collect_fields(&vec![e]);
    assert_eq!(fields.get("k").map(|s| s.as_str()), Some("v"));
}
