use ejustice_mcp::server::document_file_id;
use ejustice_mcp::strmap::StrMap;
use ejustice_mcp::types::{CaseDocument, CaseSearchDetail, DocType, DocumentsGridSection, GridSection};
use serde_json::Value;

#[test]
fn panel_titles() {
    let all = [
        (GridSection::Parties, "Case Parties"),
        (GridSection::LegalPractitioners, "Legal Practitioners"),
        (GridSection::Judges, "Case Judges"),
        (GridSection::Hearings, "Case Hearings"),
        (GridSection::ReturnOfServices, "Return of Services"),
        (GridSection::CaseHistory, "CASE HISTORY"),
        (GridSection::Interlocutories, "Interlocutories"),
        (GridSection::Documents, "Documents"),
    ];
    for (s, t) in all {
        assert_eq!(s.panel_title(), t);
    }
    for (a, ta) in all {
        for (b, tb) in all {
            assert_eq!(a == b, ta == tb);
        }
    }
}

fn document(description: Option<&str>) -> CaseDocument {
    CaseDocument {
        id: 1611669,
        created_by: 1,
        created_by_user_name: "clerk".to_string(),
        created_date: "2025-01-01".to_string(),
        updated_by: 2,
        updated_by_user_name: "judge".to_string(),
        updated_date: "2025-01-02".to_string(),
        version: 3,
        doc_type: DocType { id: 9, name: "Affidavit".to_string() },
        composite_name: "c".to_string(),
        file_id: "350a0adf36b646db88b56fe18b05096b".to_string(),
        description: description.map(|d| d.to_string()),
        file_name: "founding.pdf".to_string(),
        system_file_name: "s.pdf".to_string(),
        file_extension: "pdf".to_string(),
        sub_folder: "f".to_string(),
        file_size: 2048,
        content_type: "application/pdf".to_string(),
        uploaded_date: "2025-01-01".to_string(),
        storage_type: "disk".to_string(),
        display_name: "Founding affidavit".to_string(),
        document_group_key: "g".to_string(),
        document_key: "k".to_string(),
    }
}

#[test]
fn descriptions() {
    assert_eq!(document(None).resource_description(), "Document type: Affidavit");
    assert_eq!(document(Some("")).resource_description(), "Document type: Affidavit");
    assert_eq!(document(Some("founding.pdf")).resource_description(), "Document type: Affidavit");
    assert_eq!(
        document(Some("Signed copy")).resource_description(),
        "Document type: Affidavit. Signed copy"
    );
}

#[test]
fn resources() {
    let r = document(Some("Signed copy")).into_resource("https://h/e");
    assert_eq!(r.uri, "ejustice-document://350a0adf36b646db88b56fe18b05096b");
    assert_eq!(r.name, "founding.pdf");
    assert_eq!(r.title, "Founding affidavit");
    assert_eq!(r.description, "Document type: Affidavit. Signed copy");
    assert_eq!(r.mime_type, "application/pdf");
    assert_eq!(r.size, 2048);
    assert_eq!(r.direct_https_url, "https://h/e/download/document/350a0adf36b646db88b56fe18b05096b");
    let mut negative = document(None);
    negative.file_size = -1;
    assert_eq!(negative.into_resource("b").size, u64::MAX);
}

#[test]
fn resource_uri_reads_back_as_file_id() {
    let d = document(None);
    let r = d.into_resource("https://h/e");
    match document_file_id(&r.uri) {
        Ok(id) => assert_eq!(id, d.file_id),
        Err(_) => panic!("refused"),
    }
}

#[test]
fn grid_section_resources() {
    let section = DocumentsGridSection { total: 2, data: vec![document(None), document(Some("x"))] };
    let rs = section.resources("https://h/e");
    assert_eq!(rs.len(), 2);
    assert_eq!(rs[1].description, "Document type: Affidavit. x");
}

fn case_with_grids(grids: Option<Vec<(String, Value)>>) -> CaseSearchDetail {
    CaseSearchDetail {
        case_no: "HC-MD-CIV-MOT-GEN-2025/00343".to_string(),
        dyna_form_id: "4711".to_string(),
        session_key: "abc".to_string(),
        current_version: String::new(),
        fields: StrMap::new(),
        relief_claim: vec!["First claim".to_string()],
        grid_endpoints: StrMap::new(),
        grids,
        csrf: None,
    }
}

#[test]
fn documents_grid_is_found_by_title() {
    let grids = vec![
        ("Case Parties".to_string(), Value::from(1)),
        ("Documents".to_string(), Value::String("rows".to_string())),
    ];
    let case = case_with_grids(Some(grids));
    assert_eq!(case.documents_grid(), Some(&Value::String("rows".to_string())));
    assert_eq!(case_with_grids(None).documents_grid(), None);
    let no_docs = case_with_grids(Some(vec![("Case Judges".to_string(), Value::Null)]));
    assert_eq!(no_docs.documents_grid(), None);
}

#[test]
fn documents_grid_is_taken_out_when_read() {
    let grids = vec![
        ("Case Parties".to_string(), Value::from(1)),
        ("Documents".to_string(), Value::Null),
        ("Case Hearings".to_string(), Value::from(2)),
    ];
    let mut case = case_with_grids(Some(grids));
    let section = DocumentsGridSection { total: 1, data: vec![document(None)] };
    let rs = case.take_document_resources("https://h/e", Some(section));
    assert_eq!(rs.len(), 1);
    assert_eq!(rs[0].uri, "ejustice-document://350a0adf36b646db88b56fe18b05096b");
    let left: Vec<&str> = case.grids.as_ref().unwrap().iter().map(|(k, _)| k.as_str()).collect();
    assert_eq!(left, vec!["Case Parties", "Case Hearings"]);
    assert_eq!(case.relief_claim, vec!["First claim".to_string()]);
}

#[test]
fn unreadable_documents_grid_stays() {
    let grids = vec![("Documents".to_string(), Value::from(3))];
    let mut case = case_with_grids(Some(grids));
    assert!(case.take_document_resources("https://h/e", None).is_empty());
    assert_eq!(case.grids.as_ref().unwrap().len(), 1);
    let mut bare = case_with_grids(None);
    let section = DocumentsGridSection { total: 0, data: vec![] };
    assert!(bare.take_document_resources("https://h/e", Some(section)).is_empty());
    assert!(bare.grids.is_none());
}

#[test]
fn attached_grids_are_keyed_by_title() {
    let mut case = case_with_grids(None);
    case.attach_grids(vec![
        ("Case Parties".to_string(), Value::from(1)),
        ("Documents".to_string(), Value::from(2)),
        ("Case Parties".to_string(), Value::from(3)),
    ]);
    let grids = case.grids.as_ref().unwrap();
    assert_eq!(grids.len(), 2);
    let parties: Vec<&Value> = grids.iter().filter(|(k, _)| k == "Case Parties").map(|(_, v)| v).collect();
    assert_eq!(parties, vec![&Value::from(3)]);
    assert_eq!(case.documents_grid(), Some(&Value::from(2)));
    assert_eq!(case.case_no, "HC-MD-CIV-MOT-GEN-2025/00343");
    let section = DocumentsGridSection { total: 0, data: vec![] };
    assert!(case.take_document_resources("https://h/e", Some(section)).is_empty());
    assert_eq!(case.documents_grid(), None);
    assert_eq!(case.grids.as_ref().unwrap().len(), 1);
}
