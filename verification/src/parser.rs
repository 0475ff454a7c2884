//! Reading a case-search page: whether it shows a case, its static fields,
//! hidden inputs, relief claims and the endpoints of its accordion grids.
//!
//! The HTML parsing, CSS selection and regular expressions are those of
//! `scraper` and `regex`, reached through the functions at the top of this
//! file; what is done with their results is verified below them.
use vstd::prelude::*;

use ego_tree::iter::Edge;
use scraper::{ElementRef, Html, Node, Selector};

use crate::strmap::StrMap;
use crate::text::{
    concat, chars_of, find, join_sep, join_space, join_with, normalize, normalize_whitespace, split_on,
    split_on_pattern, string_from, trim, trim_whitespace, is_ws, trim_removes_only_outer_whitespace,
};
use crate::types::{CaseSearchDetail, CaseView, case_view, opt_view};

verus! {

// ---------------------------------------------------------------------------
// What `scraper` and `regex` give
// ---------------------------------------------------------------------------

/// An element matched by a selector: the value of one of its attributes
/// and the texts of its descendant text nodes, in document order.
#[derive(Debug, Clone)]
pub struct ScrapedElement {
    pub attr: Option<String>,
    pub texts: Vec<String>,
}

/// One step of a walk through a subtree (`ego_tree`'s `traverse`): the
/// opening of an element, of a text node or of another node, or the
/// closing of the node last opened.
#[derive(Debug, Clone, PartialEq, Eq)]
pub enum TreeToken {
    Open(String),
    Text(String),
    OpenOther,
    Close,
}

/// A matched element, by its views.
pub type ElementView = (Option<Seq<char>>, Seq<Seq<char>>);

/// A walk step, by its views.
pub enum TokenView {
    Open(Seq<char>),
    Text(Seq<char>),
    OpenOther,
    Close,
}

pub open spec fn element_view(e: ScrapedElement) -> ElementView {
    (opt_view(e.attr), e.texts@.map_values(|t: String| t@))
}

pub open spec fn elements_view(v: Seq<ScrapedElement>) -> Seq<ElementView> {
    v.map_values(|e: ScrapedElement| element_view(e))
}

pub open spec fn token_view(t: TreeToken) -> TokenView {
    match t {
        TreeToken::Open(n) => TokenView::Open(n@),
        TreeToken::Text(s) => TokenView::Text(s@),
        TreeToken::OpenOther => TokenView::OpenOther,
        TreeToken::Close => TokenView::Close,
    }
}

pub open spec fn tokens_view(v: Seq<TreeToken>) -> Seq<TokenView> {
    v.map_values(|t: TreeToken| token_view(t))
}

pub open spec fn select_view(r: Result<Vec<ScrapedElement>, String>) -> Result<
    Seq<ElementView>,
    Seq<char>,
> {
    match r {
        Ok(v) => Ok(elements_view(v@)),
        Err(e) => Err(e@),
    }
}

pub open spec fn nested_view(r: Result<Vec<Vec<ScrapedElement>>, String>) -> Result<
    Seq<Seq<ElementView>>,
    Seq<char>,
> {
    match r {
        Ok(v) => Ok(v@.map_values(|w: Vec<ScrapedElement>| elements_view(w@))),
        Err(e) => Err(e@),
    }
}

pub open spec fn walk_view(r: Result<Option<Vec<TreeToken>>, String>) -> Result<
    Option<Seq<TokenView>>,
    Seq<char>,
> {
    match r {
        Ok(Some(v)) => Ok(Some(tokens_view(v@))),
        Ok(None) => Ok(None),
        Err(e) => Err(e@),
    }
}

pub open spec fn flags_view(r: Result<Option<Vec<bool>>, String>) -> Result<Option<Seq<bool>>, Seq<char>> {
    match r {
        Ok(Some(v)) => Ok(Some(v@)),
        Ok(None) => Ok(None),
        Err(e) => Err(e@),
    }
}

/// The elements of the document `html` that `selector` matches, in the
/// order `scraper` yields them, each with its attribute `attr` and its
/// texts; or the selector's parse error.
pub uninterp spec fn spec_select(html: Seq<char>, selector: Seq<char>, attr: Seq<char>) -> Result<
    Seq<ElementView>,
    Seq<char>,
>;

/// For each element of `html` that `outer` matches, the descendant elements
/// that `inner` matches, each with its attribute `attr` and its texts; or
/// the parse error of the first selector that fails.
pub uninterp spec fn spec_select_within(
    html: Seq<char>,
    outer: Seq<char>,
    inner: Seq<char>,
    attr: Seq<char>,
) -> Result<Seq<Seq<ElementView>>, Seq<char>>;

/// The walk of the parent element of the first element of `html` that
/// `anchor` matches; `None` when there is no such element or its parent is
/// not an element; or the text of the selector's parse error.
pub uninterp spec fn spec_parent_walk(html: Seq<char>, anchor: Seq<char>) -> Result<
    Option<Seq<TokenView>>,
    Seq<char>,
>;

/// For each step of the walk of `spec_parent_walk(html, anchor)`: whether
/// it opens an element that `selector` matches, with that parent as scope;
/// `None` as for the walk; or the text of the first selector parse error.
pub uninterp spec fn spec_parent_flags(html: Seq<char>, anchor: Seq<char>, selector: Seq<char>) -> Result<
    Option<Seq<bool>>,
    Seq<char>,
>;

/// The first capture group of the first match of the regular expression
/// `pattern` in `text`; `None` when there is no match.
pub uninterp spec fn spec_regex_group1(pattern: Seq<char>, text: Seq<char>) -> Option<Seq<char>>;

/// `Html::parse_document(html).select(&Selector::parse(selector)?)`, each
/// element taken by `attr(attr)` and `text()`; a selector error by its text.
#[verifier::external_body]
fn select_document(html: &str, selector: &str, attr: &str) -> (r: Result<Vec<ScrapedElement>, String>)
    ensures
        select_view(r) == spec_select(html@, selector@, attr@),
{
    let doc = Html::parse_document(html);
    let sel = Selector::parse(selector).map_err(|e| e.to_string())?;
    Ok(doc.select(&sel).map(|el| ScrapedElement {
        attr: el.value().attr(attr).map(|s| s.to_string()),
        texts: el.text().map(|t| t.to_string()).collect(),
    }).collect())
}

/// `ElementRef::select(&inner)` within each element of
/// `Html::parse_document(html).select(&outer)`, elements taken as in
/// `select_document`.
#[verifier::external_body]
fn select_within(html: &str, outer: &str, inner: &str, attr: &str) -> (r: Result<
    Vec<Vec<ScrapedElement>>,
    String,
>)
    ensures
        nested_view(r) == spec_select_within(html@, outer@, inner@, attr@),
{
    let doc = Html::parse_document(html);
    let o = Selector::parse(outer).map_err(|e| e.to_string())?;
    let i = Selector::parse(inner).map_err(|e| e.to_string())?;
    Ok(doc.select(&o).map(|p| p.select(&i).map(|el| ScrapedElement {
        attr: el.value().attr(attr).map(|s| s.to_string()),
        texts: el.text().map(|t| t.to_string()).collect(),
    }).collect()).collect())
}

/// The parent element of the first `anchor` element, walked with
/// `traverse()`.
#[verifier::external_body]
fn parent_walk(html: &str, anchor: &str) -> (r: Result<Option<Vec<TreeToken>>, String>)
    ensures
        walk_view(r) == spec_parent_walk(html@, anchor@),
{
    let doc = Html::parse_document(html);
    let a = Selector::parse(anchor).map_err(|e| e.to_string())?;
    let Some(area) = doc.select(&a).next().and_then(|p| ElementRef::wrap(p.parent()?)) else { return Ok(None) };
    Ok(Some(area.traverse().map(|e| match e {
        Edge::Open(n) => match n.value() {
            Node::Text(t) => TreeToken::Text(t.to_string()),
            Node::Element(el) => TreeToken::Open(el.name().to_string()),
            _ => TreeToken::OpenOther,
        },
        Edge::Close(_) => TreeToken::Close,
    }).collect()))
}

/// Along the walk of `parent_walk`, whether each step opens an element that
/// `selector` matches with the parent as scope.
#[verifier::external_body]
fn parent_flags(html: &str, anchor: &str, selector: &str) -> (r: Result<Option<Vec<bool>>, String>)
    ensures
        flags_view(r) == spec_parent_flags(html@, anchor@, selector@),
{
    let doc = Html::parse_document(html);
    let a = Selector::parse(anchor).map_err(|e| e.to_string())?;
    let Some(area) = doc.select(&a).next().and_then(|p| ElementRef::wrap(p.parent()?)) else { return Ok(None) };
    let sel = Selector::parse(selector).map_err(|e| e.to_string())?;
    Ok(Some(area.traverse().map(|e| match e {
        Edge::Open(n) => ElementRef::wrap(n).is_some_and(|x| sel.matches_with_scope(&x, Some(area))),
        Edge::Close(_) => false,
    }).collect()))
}

/// `Regex::new(pattern)?.captures(text)` and its group 1.
#[verifier::external_body]
fn regex_group1(pattern: &str, text: &str) -> (r: Option<String>)
    ensures
        opt_view(r) == spec_regex_group1(pattern@, text@),
{
    regex::Regex::new(pattern).ok()?.captures(text)?.get(1).map(|m| m.as_str().to_string())
}

// ---------------------------------------------------------------------------
// Element texts and attributes
// ---------------------------------------------------------------------------

/// The text of an element: its text content (its texts concatenated),
/// with whitespace runs collapsed to single spaces and trimmed.
pub open spec fn text_value(texts: Seq<Seq<char>>) -> Seq<char> {
    normalize(join_sep(texts, seq![]))
}

/// Collapses an element's text content (its texts concatenated) to a single
/// line with single-space whitespace.
pub fn normalize_texts(texts: &Vec<String>) -> (r: String)
    ensures
        r@ == text_value(texts@.map_values(|t: String| t@)),
{
    let joined = join_with(texts, "");
    proof {
        reveal_strlit("");
        assert(""@ =~= Seq::<char>::empty());
    }
    normalize_whitespace(joined.as_str())
}

/// The static fields of a page: each matched element's key attribute
/// mapped to its text, later elements replacing earlier ones with the
/// same key; elements without the attribute are skipped.
pub open spec fn spec_fields(els: Seq<ElementView>) -> Map<Seq<char>, Seq<char>>
    decreases els.len(),
{
    if els.len() == 0 {
        Map::empty()
    } else {
        let m = spec_fields(els.drop_last());
        match els.last().0 {
            Some(k) => m.insert(k, text_value(els.last().1)),
            None => m,
        }
    }
}

/// Collects the static fields of a page from its matched elements.
pub fn collect_fields(els: &Vec<ScrapedElement>) -> (r: StrMap)
    ensures
        r@ == spec_fields(elements_view(els@)),
{
    let ghost v = elements_view(els@);
    let mut m = StrMap::new();
    let mut i: usize = 0;
    while i < els.len()
        invariant
            i <= els.len(),
            v == elements_view(els@),
            m@ == spec_fields(v.take(i as int)),
        decreases els.len() - i,
    {
        proof {
            assert(v.take(i + 1).drop_last() =~= v.take(i as int));
            assert(v.take(i + 1).last() == element_view(els@[i as int]));
        }
        match &els[i].attr {
            Some(k) => {
                let value = normalize_texts(&els[i].texts);
                m.insert(k.clone(), value);
            },
            None => {},
        }
        i = i + 1;
    }
    assert(v.take(els.len() as int) =~= v);
    m
}

/// The trimmed value of the first matched element's attribute; `None`
/// when the selection failed, matched nothing, or the attribute is absent.
pub open spec fn spec_first_value(sel: Result<Seq<ElementView>, Seq<char>>) -> Option<Seq<char>> {
    match sel {
        Ok(els) => if els.len() > 0 {
            match els[0].0 {
                Some(v) => Some(trim(v)),
                None => None,
            }
        } else {
            None
        },
        Err(_) => None,
    }
}

/// Reads the trimmed attribute of the first matched element: how the
/// hidden `<input>` fields carrying session state are read.
pub fn first_value(sel: Result<Vec<ScrapedElement>, String>) -> (r: Option<String>)
    ensures
        opt_view(r) == spec_first_value(select_view(sel)),
{
    match sel {
        Ok(els) => {
            if els.len() > 0 {
                match &els[0].attr {
                    Some(v) => Some(trim_whitespace(v.as_str())),
                    None => None,
                }
            } else {
                None
            }
        },
        Err(_) => None,
    }
}

// ---------------------------------------------------------------------------
// List item texts
// ---------------------------------------------------------------------------

/// Walks `tokens`, keeping the flags of the open nodes (set for `ol`
/// elements and for nodes that are neither elements nor text) and the
/// texts of text nodes none of whose open ancestors is flagged.
pub open spec fn scan(tokens: Seq<TokenView>) -> (Seq<bool>, Seq<Seq<char>>)
    decreases tokens.len(),
{
    if tokens.len() == 0 {
        (seq![], seq![])
    } else {
        let (stack, texts) = scan(tokens.drop_last());
        match tokens.last() {
            TokenView::Open(name) => (stack.push(name == "ol"@), texts),
            TokenView::OpenOther => (stack.push(true), texts),
            TokenView::Text(t) => (
                stack.push(false),
                if stack.contains(true) {
                    texts
                } else {
                    texts.push(t)
                },
            ),
            TokenView::Close => (
                if stack.len() > 0 {
                    stack.drop_last()
                } else {
                    stack
                },
                texts,
            ),
        }
    }
}

/// The texts of a walked subtree that lie outside nested `ol` lists.
pub open spec fn visible_texts(tokens: Seq<TokenView>) -> Seq<Seq<char>> {
    scan(tokens).1
}

/// The text of a list item: its texts outside nested lists, whitespace
/// collapsed to single spaces.
pub open spec fn spec_item_text(tokens: Seq<TokenView>) -> Seq<char> {
    normalize(join_space(visible_texts(tokens)))
}

/// How many flags of `s` are set.
pub open spec fn count_set(s: Seq<bool>) -> nat
    decreases s.len(),
{
    if s.len() == 0 {
        0
    } else {
        count_set(s.drop_last()) + if s.last() {
            1nat
        } else {
            0nat
        }
    }
}

proof fn lemma_count_set(s: Seq<bool>)
    ensures
        count_set(s) > 0 <==> s.contains(true),
        count_set(s) <= s.len(),
    decreases s.len(),
{
    if s.len() > 0 {
        lemma_count_set(s.drop_last());
        if s.drop_last().contains(true) {
            let i = choose|i: int| 0 <= i < s.drop_last().len() && s.drop_last()[i] == true;
            assert(s[i] == true);
        }
        if s.contains(true) && !s.last() {
            let i = choose|i: int| 0 <= i < s.len() && s[i] == true;
            assert(s.drop_last()[i] == true);
        }
        if s.last() {
            assert(s[s.len() - 1] == true);
        }
    }
}

/// The text of the list item walked by `tokens[from..to]`, ignoring any
/// nested `ol` and its children.
pub fn item_text(tokens: &Vec<TreeToken>, from: usize, to: usize) -> (r: String)
    requires
        from <= to <= tokens.len(),
    ensures
        r@ == spec_item_text(tokens_view(tokens@).subrange(from as int, to as int)),
{
    let ghost tv = tokens_view(tokens@).subrange(from as int, to as int);
    let mut stack: Vec<bool> = Vec::new();
    let mut flagged: usize = 0;
    let mut texts: Vec<String> = Vec::new();
    let mut i: usize = from;
    while i < to
        invariant
            from <= i <= to <= tokens.len(),
            tv == tokens_view(tokens@).subrange(from as int, to as int),
            stack@ == scan(tv.take(i - from)).0,
            texts@.map_values(|t: String| t@) == scan(tv.take(i - from)).1,
            flagged == count_set(stack@),
            stack.len() <= i - from,
        decreases to - i,
    {
        let ghost prev_texts = texts@.map_values(|t: String| t@);
        let ghost k = i - from;
        proof {
            assert(tv.take(k + 1).drop_last() =~= tv.take(k));
            assert(tv.take(k + 1).last() == token_view(tokens@[i as int]));
            lemma_count_set(stack@);
            reveal_strlit("ol");
        }
        match &tokens[i] {
            TreeToken::Open(name) => {
                let is_list = crate::text::str_eq(name.as_str(), "ol");
                stack.push(is_list);
                if is_list {
                    flagged = flagged + 1;
                }
                proof {
                    assert(stack@.drop_last() =~= scan(tv.take(k)).0);
                }
            },
            TreeToken::OpenOther => {
                stack.push(true);
                flagged = flagged + 1;
                proof {
                    assert(stack@.drop_last() =~= scan(tv.take(k)).0);
                }
            },
            TreeToken::Text(t) => {
                if flagged == 0 {
                    texts.push(t.clone());
                    proof {
                        assert(texts@.map_values(|t: String| t@) =~= prev_texts.push(t@));
                    }
                }
                stack.push(false);
                proof {
                    assert(stack@.drop_last() =~= scan(tv.take(k)).0);
                }
            },
            TreeToken::Close => {
                match stack.pop() {
                    Some(top) => {
                        proof {
                            assert(stack@ =~= scan(tv.take(k)).0.drop_last());
                        }
                        if top {
                            flagged = flagged - 1;
                        }
                    },
                    None => {},
                }
            },
        }
        i = i + 1;
    }
    proof {
        assert(tv.take(to - from) =~= tv);
    }
    let joined = join_with(&texts, " ");
    proof {
        reveal_strlit(" ");
        assert(" "@ =~= seq![' ']);
    }
    normalize_whitespace(joined.as_str())
}

/// The end (exclusive) of the subtree whose walk continues at step `j`
/// with `d` nodes open: the step after the one that closes them all.
pub open spec fn end_from(t: Seq<TokenView>, j: int, d: int) -> int
    decreases t.len() - j,
{
    if j < 0 || j >= t.len() {
        t.len() as int
    } else {
        let d2 = if t[j] is Close {
            d - 1
        } else {
            d + 1
        };
        if d2 <= 0 {
            j + 1
        } else {
            end_from(t, j + 1, d2)
        }
    }
}

/// The end (exclusive) of the walk of the node opened at step `k`.
pub open spec fn subtree_end(t: Seq<TokenView>, k: int) -> int {
    end_from(t, k, 0)
}

proof fn lemma_end_from(t: Seq<TokenView>, j: int, d: int)
    requires
        0 <= j,
    ensures
        j < t.len() ==> j < end_from(t, j, d) <= t.len(),
        j >= t.len() ==> end_from(t, j, d) == t.len(),
    decreases t.len() - j,
{
    if j < t.len() {
        let d2 = if t[j] is Close {
            d - 1
        } else {
            d + 1
        };
        if d2 > 0 {
            lemma_end_from(t, j + 1, d2);
        }
    }
}

/// The end (exclusive) of the walk of the node opened at step `k`.
pub fn subtree_end_exec(tokens: &Vec<TreeToken>, k: usize) -> (r: usize)
    requires
        k < tokens.len(),
    ensures
        r == subtree_end(tokens_view(tokens@), k as int),
        k < r <= tokens.len(),
{
    let ghost tv = tokens_view(tokens@);
    proof {
        lemma_end_from(tv, k as int, 0);
    }
    let mut j = k;
    let mut d: usize = 0;
    while j < tokens.len()
        invariant
            k <= j <= tokens.len(),
            d <= j - k,
            tv == tokens_view(tokens@),
            j == k ==> d == 0,
            j > k ==> d > 0,
            end_from(tv, k as int, 0) == end_from(tv, j as int, d as int),
        decreases tokens.len() - j,
    {
        proof {
            assert(tv[j as int] == token_view(tokens@[j as int]));
        }
        match &tokens[j] {
            TreeToken::Close => {
                if d <= 1 {
                    return j + 1;
                }
                d = d - 1;
            },
            _ => {
                d = d + 1;
            },
        }
        j = j + 1;
    }
    tokens.len()
}

/// The first flagged step at or after `from`.
pub open spec fn first_flagged(f: Seq<bool>, from: int) -> Option<int>
    decreases f.len() - from,
{
    if from < 0 || from >= f.len() {
        None
    } else if f[from] {
        Some(from)
    } else {
        first_flagged(f, from + 1)
    }
}

/// Finds the first flagged step at or after `from`.
pub fn first_flagged_exec(flags: &Vec<bool>, from: usize) -> (r: Option<usize>)
    ensures
        r matches Some(i) ==> first_flagged(flags@, from as int) == Some(i as int) && from <= i
            < flags.len(),
        r is None ==> first_flagged(flags@, from as int) is None,
{
    let mut i = from;
    while i < flags.len()
        invariant
            from <= i,
            first_flagged(flags@, from as int) == first_flagged(flags@, i as int),
        decreases flags.len() - i,
    {
        if flags[i] {
            return Some(i);
        }
        i = i + 1;
    }
    None
}

/// The walks of the flagged nodes opened strictly after step `start` and
/// before step `upto`, in walk order.
pub open spec fn flagged_items(t: Seq<TokenView>, f: Seq<bool>, start: int, upto: int) -> Seq<
    Seq<TokenView>,
>
    decreases upto - start,
{
    if upto <= start + 1 {
        seq![]
    } else {
        let k = upto - 1;
        let prev = flagged_items(t, f, start, k);
        if k < f.len() && k < t.len() && f[k] {
            prev.push(t.subrange(k, subtree_end(t, k)))
        } else {
            prev
        }
    }
}

/// The non-empty elements of `s`, in order.
pub open spec fn keep_nonempty(s: Seq<Seq<char>>) -> Seq<Seq<char>>
    decreases s.len(),
{
    if s.len() == 0 {
        seq![]
    } else if s.last().len() > 0 {
        keep_nonempty(s.drop_last()).push(s.last())
    } else {
        keep_nonempty(s.drop_last())
    }
}

/// The text of a selector parse error, as reported.
pub open spec fn spec_selector_error(e: Seq<char>) -> Seq<char> {
    "Selector parse error: "@ + e
}

/// Reports a selector parse error.
pub fn selector_error(e: String) -> (r: String)
    ensures
        r@ == spec_selector_error(e@),
{
    concat("Selector parse error: ", e.as_str())
}

/// The relief claims of a case, from the walk of the case-details
/// paragraph's parent and the flags of its `ol` and `li` elements: the
/// non-empty texts of the `li` elements inside the first `ol`; none when
/// there is no such paragraph, parent or list.
pub open spec fn spec_relief(
    walk: Result<Option<Seq<TokenView>>, Seq<char>>,
    lists: Result<Option<Seq<bool>>, Seq<char>>,
    items: Result<Option<Seq<bool>>, Seq<char>>,
) -> Result<Seq<Seq<char>>, Seq<char>> {
    match walk {
        Err(e) => Err(spec_selector_error(e)),
        Ok(None) => Ok(seq![]),
        Ok(Some(t)) => match lists {
            Err(e) => Err(spec_selector_error(e)),
            Ok(None) => Ok(seq![]),
            Ok(Some(lf)) => match first_flagged(lf, 1) {
                None => Ok(seq![]),
                Some(top) => match items {
                    Err(e) => Err(spec_selector_error(e)),
                    Ok(None) => Ok(seq![]),
                    Ok(Some(itf)) => Ok(
                        keep_nonempty(
                            flagged_items(t, itf, top, subtree_end(t, top)).map_values(
                                |w: Seq<TokenView>| spec_item_text(w),
                            ),
                        ),
                    ),
                },
            },
        },
    }
}

/// Reads the relief claims of a case: the walk of the case-details
/// paragraph's parent, and which of its steps open `ol` and `li` elements.
pub fn relief_claims(
    walk: Result<Option<Vec<TreeToken>>, String>,
    lists: Result<Option<Vec<bool>>, String>,
    items: Result<Option<Vec<bool>>, String>,
) -> (r: Result<Vec<String>, String>)
    ensures
        match (r, spec_relief(walk_view(walk), flags_view(lists), flags_view(items))) {
            (Ok(v), Ok(w)) => v@.map_values(|t: String| t@) == w,
            (Err(e), Err(f)) => e@ == f,
            _ => false,
        },
{
    let empty: Vec<String> = Vec::new();
    assert(empty@.map_values(|t: String| t@) =~= Seq::<Seq<char>>::empty());
    let tokens = match walk {
        Err(e) => return Err(selector_error(e)),
        Ok(None) => return Ok(empty),
        Ok(Some(t)) => t,
    };
    let lf = match lists {
        Err(e) => return Err(selector_error(e)),
        Ok(None) => return Ok(empty),
        Ok(Some(f)) => f,
    };
    let top = match first_flagged_exec(&lf, 1) {
        None => return Ok(empty),
        Some(k) => k,
    };
    let itf = match items {
        Err(e) => return Err(selector_error(e)),
        Ok(None) => return Ok(empty),
        Ok(Some(f)) => f,
    };
    let ghost tv = tokens_view(tokens@);
    let end = if top < tokens.len() {
        subtree_end_exec(&tokens, top)
    } else {
        proof {
            lemma_end_from(tv, top as int, 0);
        }
        tokens.len()
    };
    let ghost texts = flagged_items(tv, itf@, top as int, end as int).map_values(
        |w: Seq<TokenView>| spec_item_text(w),
    );
    let mut out: Vec<String> = Vec::new();
    let mut k: usize = top + 1;
    proof {
        assert(flagged_items(tv, itf@, top as int, top + 1) =~= Seq::<Seq<TokenView>>::empty());
    }
    while k < end
        invariant
            top < k,
            end <= tokens.len() || end <= top + 1,
            k <= end || k == top + 1,
            tv == tokens_view(tokens@),
            end == subtree_end(tv, top as int),
            out@.map_values(|t: String| t@) == keep_nonempty(
                flagged_items(tv, itf@, top as int, k as int).map_values(
                    |w: Seq<TokenView>| spec_item_text(w),
                ),
            ),
        decreases end - k,
    {
        let ghost before = out@.map_values(|t: String| t@);
        let ghost prev = flagged_items(tv, itf@, top as int, k as int);
        let ghost pmap = prev.map_values(|w: Seq<TokenView>| spec_item_text(w));
        if k < itf.len() && itf[k] {
            let e = subtree_end_exec(&tokens, k);
            let t = item_text(&tokens, k, e);
            proof {
                assert(flagged_items(tv, itf@, top as int, k + 1) == prev.push(
                    tv.subrange(k as int, e as int),
                ));
                assert(prev.push(tv.subrange(k as int, e as int)).map_values(
                    |w: Seq<TokenView>| spec_item_text(w),
                ) =~= pmap.push(t@));
                assert(pmap.push(t@).drop_last() =~= pmap);
            }
            if crate::text::char_count(t.as_str()) > 0 {
                out.push(t);
                assert(out@.map_values(|t: String| t@) =~= before.push(t@));
            }
        } else {
            proof {
                assert(flagged_items(tv, itf@, top as int, k + 1) == prev);
            }
        }
        k = k + 1;
    }
    Ok(out)
}

// ---------------------------------------------------------------------------
// Grid endpoints
// ---------------------------------------------------------------------------

/// A panel's title: the text of its first title link, or empty.
pub open spec fn spec_title(links: Seq<ElementView>) -> Seq<char> {
    if links.len() > 0 {
        text_value(links[0].1)
    } else {
        seq![]
    }
}

/// `m` with each grid id among `grids` mapped to `title`.
pub open spec fn add_ids(m: Map<Seq<char>, Seq<char>>, grids: Seq<ElementView>, title: Seq<char>) -> Map<
    Seq<char>,
    Seq<char>,
>
    decreases grids.len(),
{
    if grids.len() == 0 {
        m
    } else {
        let prev = add_ids(m, grids.drop_last(), title);
        match grids.last().0 {
            Some(id) => prev.insert(id, title),
            None => prev,
        }
    }
}

/// Grid element id -> the title of the panel holding it, for the panels
/// whose title is not empty; a later panel wins for an id found twice.
pub open spec fn spec_grid_titles(titles: Seq<Seq<ElementView>>, grids: Seq<Seq<ElementView>>) -> Map<
    Seq<char>,
    Seq<char>,
>
    decreases titles.len(),
{
    if titles.len() == 0 {
        Map::empty()
    } else {
        let i = titles.len() - 1;
        let m = spec_grid_titles(titles.drop_last(), grids);
        let t = spec_title(titles[i]);
        if t.len() == 0 {
            m
        } else {
            add_ids(
                m,
                if i < grids.len() {
                    grids[i]
                } else {
                    seq![]
                },
                t,
            )
        }
    }
}

/// Maps each grid id to the title of its panel, given for each panel its
/// title links and its grid elements (taken by their `id`).
pub fn grid_titles(titles: &Vec<Vec<ScrapedElement>>, grids: &Vec<Vec<ScrapedElement>>) -> (r: StrMap)
    ensures
        r@ == spec_grid_titles(
            titles@.map_values(|w: Vec<ScrapedElement>| elements_view(w@)),
            grids@.map_values(|w: Vec<ScrapedElement>| elements_view(w@)),
        ),
{
    let ghost tv = titles@.map_values(|w: Vec<ScrapedElement>| elements_view(w@));
    let ghost gv = grids@.map_values(|w: Vec<ScrapedElement>| elements_view(w@));
    let mut m = StrMap::new();
    let mut i: usize = 0;
    while i < titles.len()
        invariant
            i <= titles.len(),
            tv == titles@.map_values(|w: Vec<ScrapedElement>| elements_view(w@)),
            gv == grids@.map_values(|w: Vec<ScrapedElement>| elements_view(w@)),
            m@ == spec_grid_titles(tv.take(i as int), gv),
        decreases titles.len() - i,
    {
        proof {
            assert(tv.take(i + 1).drop_last() =~= tv.take(i as int));
            assert(tv.take(i + 1)[i as int] == elements_view(titles@[i as int]@));
        }
        let title = if titles[i].len() > 0 {
            normalize_texts(&titles[i][0].texts)
        } else {
            String::new()
        };
        if crate::text::char_count(title.as_str()) > 0 {
            let ghost start = m@;
            let empty: Vec<ScrapedElement> = Vec::new();
            let row = if i < grids.len() {
                &grids[i]
            } else {
                &empty
            };
            let ghost rv = elements_view(row@);
            proof {
                assert(i < grids.len() ==> rv == gv[i as int]);
                assert(i >= grids.len() ==> rv =~= Seq::<ElementView>::empty());
            }
            let mut j: usize = 0;
            while j < row.len()
                invariant
                    j <= row.len(),
                    rv == elements_view(row@),
                    m@ == add_ids(start, rv.take(j as int), title@),
                decreases row.len() - j,
            {
                proof {
                    assert(rv.take(j + 1).drop_last() =~= rv.take(j as int));
                    assert(rv.take(j + 1).last() == element_view(row@[j as int]));
                }
                match &row[j].attr {
                    Some(id) => {
                        m.insert(id.clone(), title.clone());
                    },
                    None => {},
                }
                j = j + 1;
            }
            proof {
                assert(rv.take(row.len() as int) =~= rv);
            }
        }
        i = i + 1;
    }
    proof {
        assert(tv.take(titles.len() as int) =~= tv);
    }
    m
}

/// The code of a script block: what precedes its first `</script>`.
pub open spec fn script_body(block: Seq<char>) -> Option<Seq<char>> {
    match find(block, "</script>"@) {
        Some(k) => Some(block.take(k)),
        None => None,
    }
}

/// The codes of the blocks that have one, in order.
pub open spec fn bodies_of(blocks: Seq<Seq<char>>) -> Seq<Seq<char>>
    decreases blocks.len(),
{
    if blocks.len() == 0 {
        seq![]
    } else {
        match script_body(blocks.last()) {
            Some(c) => bodies_of(blocks.drop_last()).push(c),
            None => bodies_of(blocks.drop_last()),
        }
    }
}

/// The inline scripts of a page: for each `<script>`, the text up to the
/// next `</script>`, skipping blocks that are not closed.
pub open spec fn spec_script_bodies(html: Seq<char>) -> Seq<Seq<char>> {
    bodies_of(split_on(html, "<script>"@).drop_first())
}

/// Cuts the inline scripts out of a page's HTML.
pub fn script_bodies(html: &str) -> (r: Vec<String>)
    ensures
        r@.map_values(|t: String| t@) == spec_script_bodies(html@),
{
    let cs = chars_of(html);
    let open = chars_of("<script>");
    let close = chars_of("</script>");
    proof {
        reveal_strlit("<script>");
    }
    let blocks = split_on_pattern(&cs, &open);
    let ghost bv = blocks@.map_values(|t: String| t@);
    let ghost rest = bv.drop_first();
    let mut out: Vec<String> = Vec::new();
    let mut i: usize = 1;
    proof {
        assert(rest.take(0) =~= Seq::<Seq<char>>::empty());
    }
    while i < blocks.len()
        invariant
            1 <= i <= blocks.len() || (i == 1 && blocks.len() == 0),
            bv == blocks@.map_values(|t: String| t@),
            rest == bv.drop_first(),
            close@ == "</script>"@,
            out@.map_values(|t: String| t@) == bodies_of(rest.take(i - 1)),
        decreases blocks.len() - i,
    {
        let ghost before = out@.map_values(|t: String| t@);
        let bc = chars_of(blocks[i].as_str());
        proof {
            assert(rest.take(i as int).drop_last() =~= rest.take(i - 1));
            assert(rest.take(i as int).last() == bv[i as int]);
        }
        match crate::text::find_from_exec(&bc, &close, 0) {
            Some(k) => {
                proof {
                    crate::text::lemma_find_from(bc@, close@, 0);
                }
                let code = string_from(&bc, 0, k);
                assert(code@ =~= bc@.take(k as int));
                out.push(code);
                assert(out@.map_values(|t: String| t@) =~= before.push(code@));
            },
            None => {},
        }
        i = i + 1;
    }
    proof {
        if blocks.len() > 0 {
            assert(rest.take(blocks.len() - 1) =~= rest);
        } else {
            assert(rest =~= Seq::<Seq<char>>::empty());
        }
    }
    out
}

/// Panel title -> endpoint, from the `(grid id, url)` captures of each
/// script: a script counts when both were captured and the grid id belongs
/// to a titled panel; a later script wins for a title found twice.
pub open spec fn spec_endpoints(
    id_titles: Map<Seq<char>, Seq<char>>,
    caps: Seq<(Option<Seq<char>>, Option<Seq<char>>)>,
) -> Map<Seq<char>, Seq<char>>
    decreases caps.len(),
{
    if caps.len() == 0 {
        Map::empty()
    } else {
        let m = spec_endpoints(id_titles, caps.drop_last());
        match caps.last() {
            (Some(id), Some(url)) => if id_titles.contains_key(id) {
                m.insert(id_titles[id], url)
            } else {
                m
            },
            _ => m,
        }
    }
}

/// The views of a list of captures.
pub open spec fn caps_view(v: Seq<(Option<String>, Option<String>)>) -> Seq<
    (Option<Seq<char>>, Option<Seq<char>>),
> {
    v.map_values(|c: (Option<String>, Option<String>)| (opt_view(c.0), opt_view(c.1)))
}

/// Correlates the captures of the scripts with the panels' grid ids.
pub fn endpoints_from_captures(id_titles: &StrMap, caps: &Vec<(Option<String>, Option<String>)>) -> (r:
    StrMap)
    ensures
        r@ == spec_endpoints(id_titles@, caps_view(caps@)),
{
    let ghost cv = caps_view(caps@);
    let mut m = StrMap::new();
    let mut i: usize = 0;
    while i < caps.len()
        invariant
            i <= caps.len(),
            cv == caps_view(caps@),
            m@ == spec_endpoints(id_titles@, cv.take(i as int)),
        decreases caps.len() - i,
    {
        proof {
            assert(cv.take(i + 1).drop_last() =~= cv.take(i as int));
            assert(cv.take(i + 1).last() == cv[i as int]);
        }
        match (&caps[i].0, &caps[i].1) {
            (Some(id), Some(url)) => {
                match id_titles.get(id.as_str()) {
                    Some(title) => {
                        m.insert(title.clone(), url.clone());
                    },
                    None => {},
                }
            },
            _ => {},
        }
        i = i + 1;
    }
    proof {
        assert(cv.take(caps.len() as int) =~= cv);
    }
    m
}

/// Matches a Kendo grid element's `id` in an inline script, e.g.
/// `$("#grid-readonly-15").kendoGrid(...)`.
pub open spec fn grid_id_pattern() -> Seq<char> {
    "\\$\\(\"#(grid-[\\w-]+|document-group-[\\w-]+)\"\\)\\.kendoGrid"@
}

/// Matches a Kendo grid's `DataSource.transport.read.url` in an inline
/// script, e.g. `read: { url: eJustice.contextPath + "/f/..." }`.
pub open spec fn grid_url_pattern() -> Seq<char> {
    "read:\\s*\\{\\s*url:\\s*(?:eJustice\\.contextPath\\s*\\+\\s*)?\"([^\"]+)\""@
}

/// Regex syntax for a run of one or more word characters and dashes.
pub open spec fn word_or_dash_run() -> Seq<char> {
    "[\\w-]+"@
}

/// The grid-id pattern matches `$("#` then an id, captured, that is
/// `grid-` or `document-group-` followed by a run of word characters and
/// dashes, then `").kendoGrid`.
pub proof fn grid_id_pattern_captures_grid_ids()
    ensures
        grid_id_pattern() == "\\$\\(\"#("@ + "grid-"@ + word_or_dash_run() + "|"@ + "document-group-"@
            + word_or_dash_run() + ")\"\\)\\.kendoGrid"@,
{
    reveal_strlit("[\\w-]+");
    reveal_strlit("\\$\\(\"#(");
    reveal_strlit("grid-");
    reveal_strlit("|");
    reveal_strlit("document-group-");
    reveal_strlit(")\"\\)\\.kendoGrid");
    reveal_strlit("\\$\\(\"#(grid-[\\w-]+|document-group-[\\w-]+)\"\\)\\.kendoGrid");
    assert(grid_id_pattern() =~= "\\$\\(\"#("@ + "grid-"@ + word_or_dash_run() + "|"@
        + "document-group-"@ + word_or_dash_run() + ")\"\\)\\.kendoGrid"@);
}

/// Regex syntax for any run of whitespace, line breaks included, or none.
pub open spec fn any_spacing() -> Seq<char> {
    "\\s*"@
}

/// The read-URL pattern allows any run of whitespace, line breaks included,
/// or none, between each of its tokens: `read:`, `{`, `url:`, the optional
/// `eJustice.contextPath` and `+`, and the quoted URL it captures.
pub proof fn grid_url_pattern_allows_any_spacing()
    ensures
        grid_url_pattern() == "read:"@ + any_spacing() + "\\{"@ + any_spacing() + "url:"@
            + any_spacing() + "(?:eJustice\\.contextPath"@ + any_spacing() + "\\+"@ + any_spacing()
            + ")?\"([^\"]+)\""@,
{
    reveal_strlit("\\s*");
    reveal_strlit("read:");
    reveal_strlit("\\{");
    reveal_strlit("url:");
    reveal_strlit("(?:eJustice\\.contextPath");
    reveal_strlit("\\+");
    reveal_strlit(")?\"([^\"]+)\"");
    reveal_strlit("read:\\s*\\{\\s*url:\\s*(?:eJustice\\.contextPath\\s*\\+\\s*)?\"([^\"]+)\"");
    assert(grid_url_pattern() =~= "read:"@ + any_spacing() + "\\{"@ + any_spacing() + "url:"@
        + any_spacing() + "(?:eJustice\\.contextPath"@ + any_spacing() + "\\+"@ + any_spacing()
        + ")?\"([^\"]+)\""@);
}

/// The `(grid id, url)` captured from each script.
pub open spec fn spec_captures(bodies: Seq<Seq<char>>) -> Seq<(Option<Seq<char>>, Option<Seq<char>>)> {
    bodies.map_values(
        |c: Seq<char>| (spec_regex_group1(grid_id_pattern(), c), spec_regex_group1(grid_url_pattern(), c)),
    )
}

/// Selects the accordion panels.
pub open spec fn panel_selector() -> Seq<char> {
    ".panel"@
}

/// Selects a panel's title link.
pub open spec fn panel_title_selector() -> Seq<char> {
    ".panel-title a"@
}

/// Selects a panel's grid elements.
pub open spec fn grid_selector() -> Seq<char> {
    "[id^=\"grid-\"], [id^=\"document-group-\"]"@
}

/// Panel title -> grid endpoint path of a page: panel titles are matched
/// with grid element ids, and the inline scripts with the grid ids and
/// `read.url`s they name.
pub open spec fn spec_discover(html: Seq<char>) -> Result<Map<Seq<char>, Seq<char>>, Seq<char>> {
    match spec_select_within(html, panel_selector(), panel_title_selector(), "id"@) {
        Err(e) => Err(spec_selector_error(e)),
        Ok(titles) => match spec_select_within(html, panel_selector(), grid_selector(), "id"@) {
            Err(e) => Err(spec_selector_error(e)),
            Ok(grids) => Ok(
                spec_endpoints(spec_grid_titles(titles, grids), spec_captures(spec_script_bodies(html))),
            ),
        },
    }
}

/// Discovers every accordion section's endpoint: which panels exist, and
/// their grid element ids, vary per case.
pub fn discover_grid_endpoints(html: &str) -> (r: Result<StrMap, String>)
    ensures
        match (r, spec_discover(html@)) {
            (Ok(m), Ok(n)) => m@ == n,
            (Err(e), Err(f)) => e@ == f,
            _ => false,
        },
{
    let titles = match select_within(html, ".panel", ".panel-title a", "id") {
        Ok(t) => t,
        Err(e) => return Err(selector_error(e)),
    };
    let grids = match select_within(html, ".panel", "[id^=\"grid-\"], [id^=\"document-group-\"]", "id") {
        Ok(g) => g,
        Err(e) => return Err(selector_error(e)),
    };
    let id_titles = grid_titles(&titles, &grids);
    let bodies = script_bodies(html);
    let ghost bv = bodies@.map_values(|t: String| t@);
    let mut caps: Vec<(Option<String>, Option<String>)> = Vec::new();
    let mut i: usize = 0;
    while i < bodies.len()
        invariant
            i <= bodies.len(),
            bv == bodies@.map_values(|t: String| t@),
            caps_view(caps@) == spec_captures(bv.take(i as int)),
        decreases bodies.len() - i,
    {
        let id = regex_group1(
            "\\$\\(\"#(grid-[\\w-]+|document-group-[\\w-]+)\"\\)\\.kendoGrid",
            bodies[i].as_str(),
        );
        let url = regex_group1(
            "read:\\s*\\{\\s*url:\\s*(?:eJustice\\.contextPath\\s*\\+\\s*)?\"([^\"]+)\"",
            bodies[i].as_str(),
        );
        let ghost before = caps_view(caps@);
        caps.push((id, url));
        proof {
            assert(bv.take(i + 1) =~= bv.take(i as int).push(bv[i as int]));
            assert(bv[i as int] == bodies@[i as int]@);
            assert(caps_view(caps@) =~= before.push(caps_view(caps@).last()));
            assert(spec_captures(bv.take(i + 1)) =~= spec_captures(bv.take(i as int)).push(
                spec_captures(bv.take(i + 1)).last(),
            ));
            assert(caps_view(caps@) =~= spec_captures(bv.take(i + 1)));
        }
        i = i + 1;
    }
    proof {
        assert(bv.take(bodies.len() as int) =~= bv);
    }
    Ok(endpoints_from_captures(&id_titles, &caps))
}

// ---------------------------------------------------------------------------
// The case page
// ---------------------------------------------------------------------------

/// Selects the case-number paragraph, present exactly on case pages.
pub open spec fn case_no_selector() -> Seq<char> {
    "p[data-static-name=\"caseno\"]"@
}

/// Selects the visible static fields.
pub open spec fn static_field_selector() -> Seq<char> {
    "p.form-control-static[data-static-name]"@
}

/// The value of the hidden input selected by `selector`.
pub open spec fn spec_input(html: Seq<char>, selector: Seq<char>) -> Option<Seq<char>> {
    spec_first_value(spec_select(html, selector, "value"@))
}

/// The relief claims of the page `html`.
pub open spec fn spec_page_relief(html: Seq<char>) -> Result<Seq<Seq<char>>, Seq<char>> {
    let anchor = "p[data-static-name=\"casedetails\"]"@;
    spec_relief(
        spec_parent_walk(html, anchor),
        spec_parent_flags(html, anchor, "ol"@),
        spec_parent_flags(html, anchor, "li"@),
    )
}

/// What reading the page `html` of the case `case_no` gives: `None` when
/// the page shows no case; else the case with its static fields, hidden
/// inputs (`dynaForm` and `sessionKey` required), relief claims and grid
/// endpoints, and no grid rows yet; or the first error met.
pub open spec fn spec_parse_case_detail(html: Seq<char>, case_no: Seq<char>) -> Result<
    Option<CaseView>,
    Seq<char>,
> {
    match spec_select(html, case_no_selector(), "data-static-name"@) {
        Err(e) => Err(spec_selector_error(e)),
        Ok(found) => if found.len() == 0 {
            Ok(None)
        } else {
            match spec_select(html, static_field_selector(), "data-static-name"@) {
                Err(e) => Err(spec_selector_error(e)),
                Ok(statics) => match spec_input(html, "input[name=\"dynaForm\"]"@) {
                    None => Err("missing hidden input: dynaForm"@),
                    Some(dyna) => match spec_input(html, "input[name=\"sessionKey\"]"@) {
                        None => Err("missing hidden input: sessionKey"@),
                        Some(session) => match spec_page_relief(html) {
                            Err(e) => Err(e),
                            Ok(relief) => match spec_discover(html) {
                                Err(e) => Err(e),
                                Ok(endpoints) => Ok(
                                    Some(
                                        CaseView {
                                            case_no,
                                            dyna_form_id: dyna,
                                            session_key: session,
                                            current_version: match spec_input(
                                                html,
                                                "input[name=\"currentVersion\"]"@,
                                            ) {
                                                Some(v) => v,
                                                None => seq![],
                                            },
                                            fields: spec_fields(statics),
                                            relief_claim: relief,
                                            grid_endpoints: endpoints,
                                            csrf: spec_input(html, "input[name=\"_csrf\"]"@),
                                            has_grids: false,
                                        },
                                    ),
                                ),
                            },
                        },
                    },
                },
            }
        },
    }
}

/// The views of a parse result.
pub open spec fn parsed_view(r: Result<Option<CaseSearchDetail>, String>) -> Result<
    Option<CaseView>,
    Seq<char>,
> {
    match r {
        Ok(Some(c)) => Ok(Some(case_view(c))),
        Ok(None) => Ok(None),
        Err(e) => Err(e@),
    }
}

/// Parses a case-search HTML page. Returns `Ok(None)`, not an error, when
/// the page has no case-number paragraph: that is how a missing case is
/// told apart from a case page.
pub fn parse_case_detail(html: &str, case_no: &str) -> (r: Result<Option<CaseSearchDetail>, String>)
    ensures
        parsed_view(r) == spec_parse_case_detail(html@, case_no@),
{
    let found = match select_document(html, "p[data-static-name=\"caseno\"]", "data-static-name") {
        Ok(f) => f,
        Err(e) => return Err(selector_error(e)),
    };
    if found.len() == 0 {
        return Ok(None);
    }
    let statics = match select_document(
        html,
        "p.form-control-static[data-static-name]",
        "data-static-name",
    ) {
        Ok(s) => s,
        Err(e) => return Err(selector_error(e)),
    };
    let fields = collect_fields(&statics);
    let dyna_form_id = match first_value(
        select_document(html, "input[name=\"dynaForm\"]", "value"),
    ) {
        Some(v) => v,
        None => return Err("missing hidden input: dynaForm".to_owned()),
    };
    let session_key = match first_value(
        select_document(html, "input[name=\"sessionKey\"]", "value"),
    ) {
        Some(v) => v,
        None => return Err("missing hidden input: sessionKey".to_owned()),
    };
    let current_version = match first_value(
        select_document(html, "input[name=\"currentVersion\"]", "value"),
    ) {
        Some(v) => v,
        None => String::new(),
    };
    let csrf = first_value(select_document(html, "input[name=\"_csrf\"]", "value"));
    let anchor = "p[data-static-name=\"casedetails\"]";
    let relief = match relief_claims(
        parent_walk(html, anchor),
        parent_flags(html, anchor, "ol"),
        parent_flags(html, anchor, "li"),
    ) {
        Ok(r) => r,
        Err(e) => return Err(e),
    };
    let grid_endpoints = match discover_grid_endpoints(html) {
        Ok(m) => m,
        Err(e) => return Err(e),
    };
    Ok(
        Some(
            CaseSearchDetail {
                case_no: case_no.to_owned(),
                dyna_form_id,
                session_key,
                current_version,
                fields,
                relief_claim: relief,
                grid_endpoints,
                grids: None,
                csrf,
            },
        ),
    )
}

// ---------------------------------------------------------------------------
// Laws
// ---------------------------------------------------------------------------

/// A page without the case-number paragraph is "no such case", not an
/// error; a page read as a case carries the case number searched for and
/// no grid rows yet.
pub proof fn missing_case_is_not_an_error(html: Seq<char>, case_no: Seq<char>)
    ensures
        spec_select(html, case_no_selector(), "data-static-name"@) matches Ok(found) && found.len()
            == 0 ==> spec_parse_case_detail(html, case_no) == Ok::<Option<CaseView>, Seq<char>>(
            None,
        ),
        spec_parse_case_detail(html, case_no) matches Ok(Some(c)) ==> c.case_no == case_no
            && !c.has_grids,
{
}

/// A hidden input's value is its `value` attribute with leading and
/// trailing whitespace removed, and nothing else: the value read is a
/// contiguous part of the attribute, only whitespace is cut off around
/// it, and it neither starts nor ends with whitespace. No other length
/// limit or change applies.
pub proof fn hidden_input_value_is_trimmed_attribute(els: Seq<ElementView>, v: Seq<char>)
    requires
        els.len() > 0,
        els[0].0 == Some(v),
    ensures
        spec_first_value(Ok(els)) is Some,
        exists|a: int, b: int|
            0 <= a <= b <= v.len() && spec_first_value(Ok(els)) == Some(v.subrange(a, b)) && (forall|
                k: int,
            | 0 <= k < a ==> is_ws(#[trigger] v[k])) && (forall|k: int|
                b <= k < v.len() ==> is_ws(#[trigger] v[k])),
        spec_first_value(Ok(els)) matches Some(t) ==> (t.len() > 0 ==> !is_ws(t[0]) && !is_ws(
            t.last(),
        )),
{
    trim_removes_only_outer_whitespace(v);
}

/// Every matched element with a key attribute gives a static field: the
/// keys of the fields are exactly the keys of the matched elements, each
/// holding the collapsed text of the last element with that key, empty
/// text included.
pub proof fn static_fields_keep_every_key(els: Seq<ElementView>)
    ensures
        forall|i: int|
            0 <= i < els.len() && (#[trigger] els[i]).0 is Some ==> spec_fields(els).contains_key(
                els[i].0.unwrap(),
            ),
        forall|k: Seq<char>|
            #[trigger] spec_fields(els).contains_key(k) ==> exists|i: int|
                0 <= i < els.len() && (#[trigger] els[i]).0 == Some(k),
        forall|i: int|
            0 <= i < els.len() && (#[trigger] els[i]).0 is Some && (forall|j: int|
                i < j < els.len() ==> els[j].0 != els[i].0) ==> spec_fields(els)[els[i].0.unwrap()]
                == text_value(els[i].1),
    decreases els.len(),
{
    if els.len() > 0 {
        let p = els.drop_last();
        let e = els.last();
        static_fields_keep_every_key(p);
        let m = spec_fields(p);
        assert forall|i: int|
            0 <= i < els.len() && (#[trigger] els[i]).0 is Some implies spec_fields(
            els,
        ).contains_key(els[i].0.unwrap()) by {
            if i < els.len() - 1 {
                assert(p[i] == els[i]);
            }
        }
        assert forall|k: Seq<char>| #[trigger] spec_fields(els).contains_key(k) implies exists|
            i: int,
        | 0 <= i < els.len() && (#[trigger] els[i]).0 == Some(k) by {
            if e.0 == Some(k) {
                assert(els[els.len() - 1].0 == Some(k));
            } else {
                assert(m.contains_key(k));
                let i = choose|i: int| 0 <= i < p.len() && (#[trigger] p[i]).0 == Some(k);
                assert(els[i] == p[i]);
            }
        }
        assert forall|i: int|
            0 <= i < els.len() && (#[trigger] els[i]).0 is Some && (forall|j: int|
                i < j < els.len() ==> els[j].0 != els[i].0) implies spec_fields(els)[els[i].0.unwrap()]
            == text_value(els[i].1) by {
            if i < els.len() - 1 {
                assert(p[i] == els[i]);
                assert(els[els.len() - 1].0 != els[i].0);
                assert forall|j: int| i < j < p.len() implies p[j].0 != p[i].0 by {
                    assert(p[j] == els[j]);
                }
            }
        }
    }
}

/// The texts of distinct text nodes of a list item are kept apart: when an
/// item's visible texts are `t1` and `t2`, its text is that of `t1`, a
/// space and `t2`, collapsed; so the last word of `t1` and the first word
/// of `t2` are never fused.
pub proof fn item_text_separates_text_nodes(tokens: Seq<TokenView>, t1: Seq<char>, t2: Seq<char>)
    requires
        visible_texts(tokens) == seq![t1, t2],
    ensures
        spec_item_text(tokens) == normalize(t1 + seq![' '] + t2),
{
    let v = seq![t1, t2];
    let sp: Seq<char> = seq![' '];
    assert(v.drop_last() =~= seq![t1]);
    assert(join_sep(seq![t1], sp) == t1);
    assert(v.last() == t2);
    assert(join_sep(v, sp) == t1 + sp + t2);
}

/// The walk of `<li>t1<x></x>t2</li>`, for an element `x` that is not a
/// list, shows both texts: `x` (such as a `<br>`) separates them.
pub proof fn text_nodes_around_an_element_are_visible(li: Seq<char>, x: Seq<char>, t1: Seq<char>, t2: Seq<char>)
    requires
        li != "ol"@,
        x != "ol"@,
    ensures
        visible_texts(
            seq![
                TokenView::Open(li),
                TokenView::Text(t1),
                TokenView::Open(x),
                TokenView::Close,
                TokenView::Text(t2),
                TokenView::Close,
            ],
        ) == seq![t1, t2],
{
    let w = seq![
        TokenView::Open(li),
        TokenView::Text(t1),
        TokenView::Open(x),
        TokenView::Close,
        TokenView::Text(t2),
        TokenView::Close,
    ];
    assert(w.take(0) =~= Seq::<TokenView>::empty());
    assert(w.take(1).drop_last() =~= w.take(0));
    assert(w.take(2).drop_last() =~= w.take(1));
    assert(w.take(3).drop_last() =~= w.take(2));
    assert(w.take(4).drop_last() =~= w.take(3));
    assert(w.take(5).drop_last() =~= w.take(4));
    assert(w.take(6) =~= w);
    assert(w.drop_last() =~= w.take(5));
    assert(w.take(1).last() == w[0]);
    assert(w.take(2).last() == w[1]);
    assert(w.take(3).last() == w[2]);
    assert(w.take(4).last() == w[3]);
    assert(w.take(5).last() == w[4]);
    assert(w.last() == w[5]);
    let s0 = scan(w.take(0));
    assert(s0.0 =~= Seq::<bool>::empty() && s0.1 =~= Seq::<Seq<char>>::empty());
    let s1 = scan(w.take(1));
    assert(s1.0 =~= seq![false] && s1.1 =~= Seq::<Seq<char>>::empty());
    let s2 = scan(w.take(2));
    assert(!s1.0.contains(true));
    assert(s2.0 =~= seq![false, false] && s2.1 =~= seq![t1]);
    let s3 = scan(w.take(3));
    assert(s3.0 =~= seq![false, false, false] && s3.1 =~= seq![t1]);
    let s4 = scan(w.take(4));
    assert(s4.0 =~= seq![false, false] && s4.1 =~= seq![t1]);
    let s5 = scan(w.take(5));
    assert(!s4.0.contains(true));
    assert(s5.1 =~= seq![t1, t2]);
}

proof fn lemma_keep_nonempty(s: Seq<Seq<char>>)
    ensures
        forall|i: int| 0 <= i < keep_nonempty(s).len() ==> (#[trigger] keep_nonempty(s)[i]).len() > 0,
    decreases s.len(),
{
    if s.len() > 0 {
        lemma_keep_nonempty(s.drop_last());
        let p = keep_nonempty(s.drop_last());
        assert forall|i: int| 0 <= i < keep_nonempty(s).len() implies (#[trigger] keep_nonempty(
            s,
        )[i]).len() > 0 by {
            if i < p.len() {
                assert(keep_nonempty(s)[i] == p[i]);
            }
        }
    }
}

/// Every relief claim read is non-empty.
pub proof fn relief_claims_are_nonempty(
    walk: Result<Option<Seq<TokenView>>, Seq<char>>,
    lists: Result<Option<Seq<bool>>, Seq<char>>,
    items: Result<Option<Seq<bool>>, Seq<char>>,
)
    ensures
        spec_relief(walk, lists, items) matches Ok(v) ==> forall|i: int|
            0 <= i < v.len() ==> (#[trigger] v[i]).len() > 0,
{
    match (walk, lists, items) {
        (Ok(Some(t)), Ok(Some(lf)), Ok(Some(itf))) => {
            match first_flagged(lf, 1) {
                Some(top) => {
                    lemma_keep_nonempty(
                        flagged_items(t, itf, top, subtree_end(t, top)).map_values(
                            |w: Seq<TokenView>| spec_item_text(w),
                        ),
                    );
                },
                None => {},
            }
        },
        _ => {},
    }
}

/// A case without a relief-claim section has an empty claim list, not an
/// error: when the case-details paragraph is missing or has no element
/// parent, or when that parent holds no `ol`.
pub proof fn missing_relief_section_gives_no_claims(
    walk: Result<Option<Seq<TokenView>>, Seq<char>>,
    lists: Result<Option<Seq<bool>>, Seq<char>>,
    items: Result<Option<Seq<bool>>, Seq<char>>,
)
    ensures
        walk is Ok && walk->Ok_0 is None ==> spec_relief(walk, lists, items) == Ok::<
            Seq<Seq<char>>,
            Seq<char>,
        >(seq![]),
        walk is Ok && walk->Ok_0 is Some && (lists matches Ok(Some(lf)) && first_flagged(lf, 1) is None)
            ==> spec_relief(walk, lists, items) == Ok::<Seq<Seq<char>>, Seq<char>>(seq![]),
{
}

proof fn lemma_add_ids_values(m: Map<Seq<char>, Seq<char>>, grids: Seq<ElementView>, title: Seq<char>)
    requires
        title.len() > 0,
        forall|k: Seq<char>| #[trigger] m.contains_key(k) ==> m[k].len() > 0,
    ensures
        forall|k: Seq<char>| #[trigger] add_ids(m, grids, title).contains_key(k) ==> add_ids(
            m,
            grids,
            title,
        )[k].len() > 0,
    decreases grids.len(),
{
    if grids.len() > 0 {
        lemma_add_ids_values(m, grids.drop_last(), title);
        let prev = add_ids(m, grids.drop_last(), title);
        let cur = add_ids(m, grids, title);
        assert forall|k: Seq<char>| #[trigger] cur.contains_key(k) implies cur[k].len() > 0 by {
            match grids.last().0 {
                Some(id) => {
                    if k != id {
                        assert(prev.contains_key(k));
                    }
                },
                None => {},
            }
        }
    }
}

proof fn lemma_grid_titles_values(titles: Seq<Seq<ElementView>>, grids: Seq<Seq<ElementView>>)
    ensures
        forall|k: Seq<char>| #[trigger] spec_grid_titles(titles, grids).contains_key(k)
            ==> spec_grid_titles(titles, grids)[k].len() > 0,
    decreases titles.len(),
{
    if titles.len() > 0 {
        lemma_grid_titles_values(titles.drop_last(), grids);
        let i = titles.len() - 1;
        let t = spec_title(titles[i]);
        let prev = spec_grid_titles(titles.drop_last(), grids);
        assert forall|k: Seq<char>| #[trigger] prev.contains_key(k) implies prev[k].len() > 0 by {}
        if t.len() > 0 {
            lemma_add_ids_values(
                spec_grid_titles(titles.drop_last(), grids),
                if i < grids.len() {
                    grids[i]
                } else {
                    seq![]
                },
                t,
            );
        }
    }
}

proof fn lemma_endpoint_keys(
    id_titles: Map<Seq<char>, Seq<char>>,
    caps: Seq<(Option<Seq<char>>, Option<Seq<char>>)>,
)
    ensures
        forall|k: Seq<char>| #[trigger] spec_endpoints(id_titles, caps).contains_key(k) ==> exists|
            id: Seq<char>,
        | #[trigger] id_titles.contains_key(id) && id_titles[id] == k,
    decreases caps.len(),
{
    if caps.len() > 0 {
        lemma_endpoint_keys(id_titles, caps.drop_last());
        let prev = spec_endpoints(id_titles, caps.drop_last());
        let cur = spec_endpoints(id_titles, caps);
        assert forall|k: Seq<char>| #[trigger] cur.contains_key(k) implies exists|id: Seq<char>|
            #[trigger] id_titles.contains_key(id) && id_titles[id] == k by {
            match caps.last() {
                (Some(id), Some(url)) => {
                    if id_titles.contains_key(id) && k == id_titles[id] {
                    } else {
                        assert(prev.contains_key(k));
                    }
                },
                _ => {
                    assert(prev.contains_key(k));
                },
            }
        }
    }
}

/// The grid endpoints of a page are keyed by panel titles: each key is the
/// non-empty title of a panel holding a grid.
pub proof fn grid_endpoints_keyed_by_titles(html: Seq<char>)
    ensures
        spec_discover(html) matches Ok(m) ==> forall|k: Seq<char>| #[trigger] m.contains_key(k)
            ==> k.len() > 0,
{
    if spec_discover(html) is Ok {
        let titles = spec_select_within(html, panel_selector(), panel_title_selector(), "id"@)->Ok_0;
        let grids = spec_select_within(html, panel_selector(), grid_selector(), "id"@)->Ok_0;
        let ids = spec_grid_titles(titles, grids);
        let caps = spec_captures(spec_script_bodies(html));
        lemma_grid_titles_values(titles, grids);
        lemma_endpoint_keys(ids, caps);
        assert forall|k: Seq<char>| #[trigger] spec_endpoints(ids, caps).contains_key(k) implies k.len()
            > 0 by {
            let id = choose|id: Seq<char>| #[trigger] ids.contains_key(id) && ids[id] == k;
        }
    }
}

} // verus!
