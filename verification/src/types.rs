//! The data model of case records, accordion sections and documents.
use vstd::prelude::*;

use crate::strmap::{StrMap, keys_unique, lemma_map_of_remove, lemma_map_of_update, map_of};
use crate::text::{concat, join_sep};
use crate::{document_uri, spec_document_uri};

verus! {

/// A JSON value, as the portal's grid endpoints return it.
#[verifier::external_type_specification]
#[verifier::external_body]
pub struct ExJsonValue(serde_json::Value);

/// A full eJustice case record, as read from a case-search page.
#[derive(Debug)]
pub struct CaseSearchDetail {
    /// The human-readable case number (e.g. `HC-MD-CIV-MOT-GEN-2025/00343`).
    pub case_no: String,
    /// The `dynaForm` hidden input: the portal's id of the case.
    pub dyna_form_id: String,
    /// The `sessionKey` hidden input.
    pub session_key: String,
    /// The `currentVersion` hidden input, empty when absent.
    pub current_version: String,
    /// The visible static fields, keyed by their `data-static-name`.
    pub fields: StrMap,
    /// The relief claim list items.
    pub relief_claim: Vec<String>,
    /// Panel title -> the grid endpoint path that loads that panel's rows.
    pub grid_endpoints: StrMap,
    /// Panel title -> the rows that panel's endpoint returned.
    pub grids: Option<Vec<(String, serde_json::Value)>>,
    /// The `_csrf` hidden input.
    pub csrf: Option<String>,
}

/// A case record, by the views of its fields; `has_grids` tells whether
/// the grids' rows are attached.
pub struct CaseView {
    pub case_no: Seq<char>,
    pub dyna_form_id: Seq<char>,
    pub session_key: Seq<char>,
    pub current_version: Seq<char>,
    pub fields: Map<Seq<char>, Seq<char>>,
    pub relief_claim: Seq<Seq<char>>,
    pub grid_endpoints: Map<Seq<char>, Seq<char>>,
    pub csrf: Option<Seq<char>>,
    pub has_grids: bool,
}

/// The view of a case record.
pub open spec fn case_view(c: CaseSearchDetail) -> CaseView {
    CaseView {
        case_no: c.case_no@,
        dyna_form_id: c.dyna_form_id@,
        session_key: c.session_key@,
        current_version: c.current_version@,
        fields: c.fields@,
        relief_claim: c.relief_claim@.map_values(|t: String| t@),
        grid_endpoints: c.grid_endpoints@,
        csrf: opt_view(c.csrf),
        has_grids: c.grids is Some,
    }
}

/// The position of the first grid keyed `key` among `grids[from..]`.
pub open spec fn key_index_from(grids: Seq<(String, serde_json::Value)>, key: Seq<char>, from: int) -> Option<
    int,
>
    decreases grids.len() - from,
{
    if from < 0 || from >= grids.len() {
        None
    } else if grids[from].0@ == key {
        Some(from)
    } else {
        key_index_from(grids, key, from + 1)
    }
}

/// The grids' rows keyed by the views of their panel titles.
pub open spec fn grid_entries(grids: Seq<(String, serde_json::Value)>) -> Seq<(Seq<char>, serde_json::Value)> {
    grids.map_values(|e: (String, serde_json::Value)| (e.0@, e.1))
}

/// No panel title occurs twice among the attached grids of `c` (the grids
/// are a map from panel titles to rows).
pub open spec fn grids_unique(c: CaseSearchDetail) -> bool {
    match c.grids {
        Some(g) => keys_unique(grid_entries(g@)),
        None => true,
    }
}

/// The position of the `"Documents"` grid among the grids of `c`; `None`
/// when the grids are not attached or do not hold it.
pub open spec fn documents_index(c: CaseSearchDetail) -> Option<int> {
    match c.grids {
        Some(g) => key_index_from(g@, spec_panel_title(GridSection::Documents), 0),
        None => None,
    }
}

/// Finds the first grid keyed `key` among `grids`.
fn grid_key_index(grids: &Vec<(String, serde_json::Value)>, key: &str) -> (r: Option<usize>)
    ensures
        r matches Some(i) ==> i < grids.len() && key_index_from(grids@, key@, 0) == Some(i as int)
            && grids@[i as int].0@ == key@,
        r is None ==> key_index_from(grids@, key@, 0) is None && forall|k: int|
            0 <= k < grids.len() ==> #[trigger] grids@[k].0@ != key@,
{
    let mut i: usize = 0;
    while i < grids.len()
        invariant
            i <= grids.len(),
            key_index_from(grids@, key@, 0) == key_index_from(grids@, key@, i as int),
            forall|k: int| 0 <= k < i ==> #[trigger] grids@[k].0@ != key@,
        decreases grids.len() - i,
    {
        if crate::text::str_eq(grids[i].0.as_str(), key) {
            return Some(i);
        }
        i = i + 1;
    }
    None
}

impl CaseSearchDetail {
    /// Attaches the rows fetched for the grids, as a map from panel titles:
    /// a later row replaces an earlier one with the same title.
    pub fn attach_grids(&mut self, rows: Vec<(String, serde_json::Value)>)
        ensures
            final(self).grids is Some,
            grids_unique(*final(self)),
            map_of(grid_entries(final(self).grids.unwrap()@)) == map_of(grid_entries(rows@)),
            final(self).case_no == old(self).case_no,
            final(self).dyna_form_id == old(self).dyna_form_id,
            final(self).session_key == old(self).session_key,
            final(self).current_version == old(self).current_version,
            final(self).fields == old(self).fields,
            final(self).relief_claim == old(self).relief_claim,
            final(self).grid_endpoints == old(self).grid_endpoints,
            final(self).csrf == old(self).csrf,
    {
        let ghost orig = grid_entries(rows@);
        let mut rows = rows;
        let mut out: Vec<(String, serde_json::Value)> = Vec::new();
        let ghost mut n: int = 0;
        assert(orig.take(0) =~= Seq::<(Seq<char>, serde_json::Value)>::empty());
        assert(grid_entries(out@) =~= Seq::<(Seq<char>, serde_json::Value)>::empty());
        while rows.len() > 0
            invariant
                0 <= n <= orig.len(),
                grid_entries(rows@) == orig.skip(n),
                keys_unique(grid_entries(out@)),
                map_of(grid_entries(out@)) == map_of(orig.take(n)),
            decreases rows.len(),
        {
            let ghost before = grid_entries(out@);
            let ghost rest = grid_entries(rows@);
            assert(rest.len() == rows.len());
            assert(orig.skip(n)[0] == orig[n]);
            let (key, value) = rows.remove(0);
            proof {
                assert(rest[0] == (key@, value));
                assert(orig[n] == rest[0]);
                assert(grid_entries(rows@) =~= rest.drop_first());
                assert(orig.take(n + 1).drop_last() =~= orig.take(n));
                n = n + 1;
                assert(grid_entries(rows@) =~= orig.skip(n));
            }
            match grid_key_index(&out, key.as_str()) {
                Some(j) => {
                    proof {
                        lemma_map_of_update(before, j as int, value);
                    }
                    out.set(j, (key, value));
                    let ghost after = before.update(j as int, (before[j as int].0, value));
                    assert(grid_entries(out@) =~= after);
                    assert forall|a: int, b: int| 0 <= a < b < after.len() implies #[trigger] after[a].0
                        != #[trigger] after[b].0 by {
                        assert(after[a].0 == before[a].0);
                        assert(after[b].0 == before[b].0);
                    }
                },
                None => {
                    out.push((key, value));
                    let ghost after = before.push((key@, value));
                    assert(grid_entries(out@) =~= after);
                    assert(after.drop_last() =~= before);
                    assert forall|a: int, b: int| 0 <= a < b < after.len() implies #[trigger] after[a].0
                        != #[trigger] after[b].0 by {
                        assert(after[a].0 == before[a].0);
                        if b < before.len() {
                            assert(after[b].0 == before[b].0);
                        }
                    }
                },
            }
        }
        assert(orig.take(n) =~= orig);
        self.grids = Some(out);
    }

    /// The rows of the `"Documents"` grid, when the grids are attached and
    /// hold it.
    pub fn documents_grid(&self) -> (r: Option<&serde_json::Value>)
        ensures
            documents_index(*self) matches Some(i) ==> (r matches Some(v) && *v
                == self.grids.unwrap()@[i].1),
            documents_index(*self) is None ==> r is None,
    {
        match &self.grids {
            Some(g) => match grid_key_index(g, GridSection::Documents.panel_title()) {
                Some(i) => Some(&g[i].1),
                None => None,
            },
            None => None,
        }
    }

    /// Pulls the `"Documents"` grid out of the grids, given `documents`, its
    /// rows as read (`None` when they could not be read): the resources of
    /// those rows, with the grid removed; otherwise no resources and the
    /// case unchanged. With titles unique, as `attach_grids` leaves them,
    /// the grids afterwards are the former map without `"Documents"`.
    pub fn take_document_resources(&mut self, base_url: &str, documents: Option<DocumentsGridSection>) -> (r:
        Vec<DocumentResource>)
        ensures
            (documents is Some && documents_index(*old(self)) is Some) ==> r.len()
                == documents.unwrap().data.len(),
            (documents is Some && documents_index(*old(self)) is Some) ==> forall|k: int|
                0 <= k < r.len() ==> is_resource_of(
                    #[trigger] r[k],
                    documents.unwrap().data[k],
                    base_url@,
                ),
            (documents is Some && documents_index(*old(self)) is Some) ==> (final(self).grids is Some
                && final(self).grids.unwrap()@ == old(self).grids.unwrap()@.remove(
                documents_index(*old(self)).unwrap(),
            )),
            (documents is Some && documents_index(*old(self)) is Some) ==> case_view(*final(self))
                == case_view(*old(self)),
            !(documents is Some && documents_index(*old(self)) is Some) ==> r.len() == 0 && *final(self)
                == *old(self),
            grids_unique(*old(self)) ==> grids_unique(*final(self)),
            (grids_unique(*old(self)) && documents is Some && documents_index(*old(self)) is Some) ==> map_of(
                grid_entries(final(self).grids.unwrap()@),
            ) == map_of(grid_entries(old(self).grids.unwrap()@)).remove(
                spec_panel_title(GridSection::Documents),
            ),
    {
        let idx = match &self.grids {
            Some(g) => grid_key_index(g, GridSection::Documents.panel_title()),
            None => None,
        };
        match (idx, documents) {
            (Some(i), Some(sec)) => {
                let ghost old_entries = grid_entries(self.grids.unwrap()@);
                let mut grids: Option<Vec<(String, serde_json::Value)>> = None;
                std::mem::swap(&mut grids, &mut self.grids);
                match grids {
                    Some(mut g) => {
                        let ghost g0 = g@;
                        g.remove(i);
                        proof {
                            assert(grid_entries(g@) =~= old_entries.remove(i as int));
                            if keys_unique(old_entries) {
                                lemma_map_of_remove(old_entries, i as int);
                            }
                        }
                        self.grids = Some(g);
                    },
                    None => {},
                }
                sec.resources(base_url)
            },
            _ => Vec::new(),
        }
    }
}

/// The eight accordion panels on a case page that load their rows via a
/// separate AJAX call. Maps 1:1 to `panel-title` text (see
/// [`GridSection::panel_title`]).
#[derive(Debug, Clone, Copy, PartialEq, Eq, Structural)]
pub enum GridSection {
    /// The parties involved in the case (Applicants, Respondents, etc.).
    Parties,
    /// The legal practitioners (lawyers) representing the parties.
    LegalPractitioners,
    /// The judges assigned to the case and their approval history.
    Judges,
    /// Scheduled court hearings, dates, times, and locations.
    Hearings,
    /// Return of services (proof that documents were officially served).
    ReturnOfServices,
    /// The internal workflow and task history of the case.
    CaseHistory,
    /// Interlocutory applications (sub-cases or interim motions).
    Interlocutories,
    /// Uploaded court documents (PDFs, affidavits, etc.).
    Documents,
}

/// The panel-title text of each section.
pub open spec fn spec_panel_title(s: GridSection) -> Seq<char> {
    match s {
        GridSection::Parties => "Case Parties"@,
        GridSection::LegalPractitioners => "Legal Practitioners"@,
        GridSection::Judges => "Case Judges"@,
        GridSection::Hearings => "Case Hearings"@,
        GridSection::ReturnOfServices => "Return of Services"@,
        GridSection::CaseHistory => "CASE HISTORY"@,
        GridSection::Interlocutories => "Interlocutories"@,
        GridSection::Documents => "Documents"@,
    }
}

impl GridSection {
    /// The exact panel-title text this section corresponds to on the page.
    pub fn panel_title(self) -> (r: &'static str)
        ensures
            r@ == spec_panel_title(self),
    {
        match self {
            GridSection::Parties => "Case Parties",
            GridSection::LegalPractitioners => "Legal Practitioners",
            GridSection::Judges => "Case Judges",
            GridSection::Hearings => "Case Hearings",
            GridSection::ReturnOfServices => "Return of Services",
            GridSection::CaseHistory => "CASE HISTORY",
            GridSection::Interlocutories => "Interlocutories",
            GridSection::Documents => "Documents",
        }
    }
}

/// Distinct sections have distinct panel titles: the map from sections to
/// panel titles is one to one.
pub proof fn panel_title_injective(a: GridSection, b: GridSection)
    ensures
        spec_panel_title(a) == spec_panel_title(b) ==> a == b,
{
    reveal_strlit("Case Parties");
    reveal_strlit("Legal Practitioners");
    reveal_strlit("Case Judges");
    reveal_strlit("Case Hearings");
    reveal_strlit("Return of Services");
    reveal_strlit("CASE HISTORY");
    reveal_strlit("Interlocutories");
    reveal_strlit("Documents");
    if spec_panel_title(a) == spec_panel_title(b) && a != b {
        let ta = spec_panel_title(a);
        let tb = spec_panel_title(b);
        assert(ta.len() != tb.len() || ta[0] != tb[0] || ta[5] != tb[5]);
    }
}

/// A document's type/category on the portal (e.g. "Affidavit").
#[derive(Debug, Clone)]
pub struct DocType {
    pub id: i64,
    pub name: String,
}

/// One row of a case's `"Documents"` grid: an uploaded court document and
/// its metadata.
#[derive(Debug, Clone)]
pub struct CaseDocument {
    pub id: i64,
    pub created_by: i64,
    pub created_by_user_name: String,
    pub created_date: String,
    pub updated_by: i64,
    pub updated_by_user_name: String,
    pub updated_date: String,
    pub version: i32,
    pub doc_type: DocType,
    pub composite_name: String,
    /// The long hex identifier used to download this document and to build
    /// its `ejustice-document://` resource URI.
    pub file_id: String,
    pub description: Option<String>,
    pub file_name: String,
    pub system_file_name: String,
    pub file_extension: String,
    pub sub_folder: String,
    pub file_size: i64,
    pub content_type: String,
    pub uploaded_date: String,
    pub storage_type: String,
    pub display_name: String,
    pub document_group_key: String,
    pub document_key: String,
}

/// The `"Documents"` accordion section's grid response.
#[derive(Debug, Clone)]
pub struct DocumentsGridSection {
    /// Total number of documents reported by the portal for this grid page.
    pub total: u32,
    /// The document rows themselves.
    pub data: Vec<CaseDocument>,
}

/// What an MCP client is shown of one document: the fields of its
/// resource and the direct download URL carried in its metadata.
#[derive(Debug, Clone)]
pub struct DocumentResource {
    pub uri: String,
    pub name: String,
    pub title: String,
    pub description: String,
    pub mime_type: String,
    pub size: u64,
    pub direct_https_url: String,
}

/// A downloaded document's bytes with the metadata of the download response.
#[derive(Debug, Clone)]
pub struct DocumentBytes {
    pub bytes: Vec<u8>,
    /// From the `Content-Type` header, or `"application/octet-stream"`.
    pub content_type: String,
    /// From the `Content-Disposition` header's `filename=` parameter.
    pub filename: Option<String>,
}

/// The human-readable summary of a document: its type, then its description
/// when that is non-empty and differs from the file name.
pub open spec fn spec_resource_description(
    kind_name: Seq<char>,
    description: Option<Seq<char>>,
    file_name: Seq<char>,
) -> Seq<char> {
    let head = "Document type: "@ + kind_name;
    match description {
        Some(d) => if d.len() > 0 && d != file_name {
            head + ". "@ + d
        } else {
            head
        },
        None => head,
    }
}

/// `base_url/download/document/<fileId>`: a document's direct HTTPS URL.
pub open spec fn spec_direct_https_url(base_url: Seq<char>, file_id: Seq<char>) -> Seq<char> {
    base_url + "/download/document/"@ + file_id
}

/// The views of an optional string.
pub open spec fn opt_view(o: Option<String>) -> Option<Seq<char>> {
    match o {
        Some(s) => Some(s@),
        None => None,
    }
}

/// The resource that `into_resource` builds for `d`.
pub open spec fn is_resource_of(r: DocumentResource, d: CaseDocument, base_url: Seq<char>) -> bool {
    &&& r.uri@ == spec_document_uri(d.file_id@)
    &&& r.name@ == d.file_name@
    &&& r.title@ == d.display_name@
    &&& r.description@ == spec_resource_description(
        d.doc_type.name@,
        opt_view(d.description),
        d.file_name@,
    )
    &&& r.mime_type@ == d.content_type@
    &&& r.size == d.file_size as u64
    &&& r.direct_https_url@ == spec_direct_https_url(base_url, d.file_id@)
}

impl CaseDocument {
    /// Human-readable summary shown as the resource's description.
    pub fn resource_description(&self) -> (r: String)
        ensures
            r@ == spec_resource_description(
                self.doc_type.name@,
                opt_view(self.description),
                self.file_name@,
            ),
    {
        let head = concat("Document type: ", self.doc_type.name.as_str());
        let mut parts: Vec<String> = Vec::new();
        parts.push(head);
        match &self.description {
            Some(desc) => {
                if crate::text::char_count(desc.as_str()) > 0 && !crate::text::str_eq(
                    desc.as_str(),
                    self.file_name.as_str(),
                ) {
                    parts.push(desc.clone());
                }
            },
            None => {},
        }
        let r = crate::text::join_with(&parts, ". ");
        proof {
            let views = parts@.map_values(|p: String| p@);
            assert(views[0] == "Document type: "@ + self.doc_type.name@);
            assert(views.len() == 1 || views.len() == 2);
            if views.len() == 1 {
                assert(r@ == views[0]);
                if self.description is Some {
                    let d = self.description.unwrap()@;
                    assert(!(d.len() > 0 && d != self.file_name@));
                }
            }
            if views.len() == 2 {
                assert(self.description is Some);
                assert(views[1] == self.description.unwrap()@);
                assert(views.drop_last() =~= seq![views[0]]);
                assert(join_sep(views.drop_last(), ". "@) == views[0]);
                let d = self.description.unwrap()@;
                assert(d.len() > 0);
                assert(d != self.file_name@);
                assert(r@ == views[0] + ". "@ + d);
            }
        }
        r
    }

    /// The resource an MCP client sees for this document row.
    pub fn into_resource(&self, base_url: &str) -> (r: DocumentResource)
        ensures
            is_resource_of(r, *self, base_url@),
    {
        let direct = concat(base_url, "/download/document/");
        let direct = concat(direct.as_str(), self.file_id.as_str());
        DocumentResource {
            uri: document_uri(self.file_id.as_str()),
            name: self.file_name.clone(),
            title: self.display_name.clone(),
            description: self.resource_description(),
            mime_type: self.content_type.clone(),
            size: self.file_size as u64,
            direct_https_url: direct,
        }
    }
}

impl DocumentsGridSection {
    /// The resources of every document row, in row order.
    pub fn resources(&self, base_url: &str) -> (r: Vec<DocumentResource>)
        ensures
            r.len() == self.data.len(),
            forall|i: int| 0 <= i < r.len() ==> is_resource_of(#[trigger] r[i], self.data[i], base_url@),
    {
        let mut out: Vec<DocumentResource> = Vec::new();
        let mut i: usize = 0;
        while i < self.data.len()
            invariant
                i <= self.data.len(),
                out.len() == i,
                forall|k: int| 0 <= k < i ==> is_resource_of(#[trigger] out[k], self.data[k], base_url@),
            decreases self.data.len() - i,
        {
            out.push(self.data[i].into_resource(base_url));
            i = i + 1;
        }
        out
    }
}

} // verus!
