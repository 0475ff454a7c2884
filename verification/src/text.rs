//! Character-level text handling: whitespace, words, joining, trimming,
//! prefix tests and substring search, each stated over `Seq<char>`.
use vstd::prelude::*;

verus! {

// ---------------------------------------------------------------------------
// Specifications
// ---------------------------------------------------------------------------

/// Unicode `White_Space`: the characters that `char::is_whitespace` accepts.
pub open spec fn is_ws(c: char) -> bool {
    ||| c == '\t'
    ||| c == '\n'
    ||| c == '\x0B'
    ||| c == '\x0C'
    ||| c == '\r'
    ||| c == ' '
    ||| c == '\u{85}'
    ||| c == '\u{A0}'
    ||| c == '\u{1680}'
    ||| ('\u{2000}' <= c && c <= '\u{200A}')
    ||| c == '\u{2028}'
    ||| c == '\u{2029}'
    ||| c == '\u{202F}'
    ||| c == '\u{205F}'
    ||| c == '\u{3000}'
}

/// The maximal runs of non-whitespace characters of `s`, left to right.
pub open spec fn words(s: Seq<char>) -> Seq<Seq<char>>
    decreases s.len(),
{
    if s.len() == 0 {
        seq![]
    } else {
        let p = s.drop_last();
        let c = s.last();
        if is_ws(c) {
            words(p)
        } else if p.len() == 0 || is_ws(p.last()) {
            words(p).push(seq![c])
        } else {
            let w = words(p);
            w.update(w.len() - 1, w.last().push(c))
        }
    }
}

/// `parts` joined with `sep` between consecutive parts.
pub open spec fn join_sep(parts: Seq<Seq<char>>, sep: Seq<char>) -> Seq<char>
    decreases parts.len(),
{
    if parts.len() == 0 {
        seq![]
    } else if parts.len() == 1 {
        parts[0]
    } else {
        join_sep(parts.drop_last(), sep) + sep + parts.last()
    }
}

/// `parts` joined with single spaces.
pub open spec fn join_space(parts: Seq<Seq<char>>) -> Seq<char> {
    join_sep(parts, seq![' '])
}

/// The words of `s` joined with single spaces: what
/// `s.split_whitespace().collect::<Vec<_>>().join(" ")` gives.
pub open spec fn normalize(s: Seq<char>) -> Seq<char> {
    join_space(words(s))
}

/// `s` without the trailing characters that satisfy `p`.
pub open spec fn strip_end(s: Seq<char>, p: spec_fn(char) -> bool) -> Seq<char>
    decreases s.len(),
{
    if s.len() > 0 && p(s.last()) {
        strip_end(s.drop_last(), p)
    } else {
        s
    }
}

/// `s` without the leading characters that satisfy `p`.
pub open spec fn strip_start(s: Seq<char>, p: spec_fn(char) -> bool) -> Seq<char>
    decreases s.len(),
{
    if s.len() > 0 && p(s[0]) {
        strip_start(s.drop_first(), p)
    } else {
        s
    }
}

/// The whitespace test as a predicate.
pub open spec fn ws_pred() -> spec_fn(char) -> bool {
    |c: char| is_ws(c)
}

/// The test "is `ch`" as a predicate.
pub open spec fn char_pred(ch: char) -> spec_fn(char) -> bool {
    |c: char| c == ch
}

/// `s` without leading and trailing whitespace (`str::trim`).
pub open spec fn trim(s: Seq<char>) -> Seq<char> {
    strip_start(strip_end(s, ws_pred()), ws_pred())
}

/// `s` without trailing copies of `ch` (`str::trim_end_matches(ch)`).
pub open spec fn trim_end_char(s: Seq<char>, ch: char) -> Seq<char> {
    strip_end(s, char_pred(ch))
}

/// `s` without leading and trailing copies of `ch` (`str::trim_matches(ch)`).
pub open spec fn trim_char(s: Seq<char>, ch: char) -> Seq<char> {
    strip_start(strip_end(s, char_pred(ch)), char_pred(ch))
}

/// `s` begins with `p`.
pub open spec fn has_prefix(s: Seq<char>, p: Seq<char>) -> bool {
    p.len() <= s.len() && s.take(p.len() as int) == p
}

/// `pat` occurs in `s` at position `i`.
pub open spec fn occurs_at(s: Seq<char>, pat: Seq<char>, i: int) -> bool {
    0 <= i && i + pat.len() <= s.len() && s.subrange(i, i + pat.len()) == pat
}

/// The least position `>= from` at which `pat` occurs in `s`.
pub open spec fn find_from(s: Seq<char>, pat: Seq<char>, from: int) -> Option<int>
    decreases s.len() + 1 - from,
{
    if from < 0 || from + pat.len() > s.len() {
        None
    } else if occurs_at(s, pat, from) {
        Some(from)
    } else {
        find_from(s, pat, from + 1)
    }
}

/// The first position at which `pat` occurs in `s`.
pub open spec fn find(s: Seq<char>, pat: Seq<char>) -> Option<int> {
    find_from(s, pat, 0)
}

/// The pieces of `s[start..]` between the occurrences of `pat`, left to right.
pub open spec fn split_from(s: Seq<char>, pat: Seq<char>, start: int) -> Seq<Seq<char>>
    decreases s.len() + 1 - start,
{
    if pat.len() == 0 || start < 0 || start > s.len() {
        seq![s.skip(start)]
    } else {
        match find_from(s, pat, start) {
            None => seq![s.skip(start)],
            Some(i) => {
                if i < start || i + pat.len() > s.len() {
                    seq![s.skip(start)]
                } else {
                    seq![s.subrange(start, i)] + split_from(s, pat, i + pat.len())
                }
            },
        }
    }
}

/// The pieces of `s` between the occurrences of `pat`, left to right
/// (`str::split(pat)` for a non-empty `pat`).
pub open spec fn split_on(s: Seq<char>, pat: Seq<char>) -> Seq<Seq<char>> {
    split_from(s, pat, 0)
}

/// The first `n` characters of `s`, or all of it when it is shorter.
pub open spec fn take_chars(s: Seq<char>, n: nat) -> Seq<char> {
    if s.len() <= n {
        s
    } else {
        s.take(n as int)
    }
}

// ---------------------------------------------------------------------------
// Lemmas
// ---------------------------------------------------------------------------

/// Every word is non-empty and holds no whitespace.
pub proof fn lemma_words_wf(s: Seq<char>)
    ensures
        forall|i: int| 0 <= i < words(s).len() ==> (#[trigger] words(s)[i]).len() > 0,
        forall|i: int, j: int|
            0 <= i < words(s).len() && 0 <= j < words(s)[i].len() ==> !is_ws(
                #[trigger] words(s)[i][j],
            ),
    decreases s.len(),
{
    if s.len() > 0 {
        let p = s.drop_last();
        let c = s.last();
        lemma_words_wf(p);
        lemma_words_nonempty(p);
        let w = words(p);
        if is_ws(c) {
        } else if p.len() == 0 || is_ws(p.last()) {
            assert forall|i: int| 0 <= i < words(s).len() implies (#[trigger] words(s)[i]).len()
                > 0 by {
                if i < w.len() {
                    assert(words(s)[i] == w[i]);
                }
            }
            assert forall|i: int, j: int|
                0 <= i < words(s).len() && 0 <= j < words(s)[i].len() implies !is_ws(
                #[trigger] words(s)[i][j],
            ) by {
                if i < w.len() {
                    assert(words(s)[i] == w[i]);
                }
            }
        } else {
            let k = w.len() - 1;
            assert forall|i: int| 0 <= i < words(s).len() implies (#[trigger] words(s)[i]).len()
                > 0 by {
                if i < k {
                    assert(words(s)[i] == w[i]);
                }
            }
            assert forall|i: int, j: int|
                0 <= i < words(s).len() && 0 <= j < words(s)[i].len() implies !is_ws(
                #[trigger] words(s)[i][j],
            ) by {
                if i < k {
                    assert(words(s)[i] == w[i]);
                } else {
                    assert(words(s)[i] == w[k].push(c));
                    if j < w[k].len() {
                        assert(words(s)[i][j] == w[k][j]);
                    }
                }
            }
        }
    }
}

/// A non-empty text whose last character is not whitespace has a word.
pub proof fn lemma_words_nonempty(s: Seq<char>)
    ensures
        s.len() > 0 && !is_ws(s.last()) ==> words(s).len() > 0,
    decreases s.len(),
{
    if s.len() > 0 {
        lemma_words_nonempty(s.drop_last());
    }
}

/// Joining non-empty, whitespace-free parts with single spaces gives a
/// text whose only whitespace is single spaces between non-blank characters.
pub proof fn lemma_join_single_spaced(parts: Seq<Seq<char>>)
    requires
        forall|i: int| 0 <= i < parts.len() ==> (#[trigger] parts[i]).len() > 0,
        forall|i: int, j: int|
            0 <= i < parts.len() && 0 <= j < parts[i].len() ==> !is_ws(#[trigger] parts[i][j]),
    ensures
        single_spaced(join_space(parts)),
    decreases parts.len(),
{
    let n = join_space(parts);
    if parts.len() == 1 {
        assert forall|i: int| 0 <= i < n.len() implies !is_ws(#[trigger] n[i]) by {
            assert(n[i] == parts[0][i]);
        }
    } else if parts.len() > 1 {
        let p = parts.drop_last();
        assert forall|i: int| 0 <= i < p.len() implies (#[trigger] p[i]).len() > 0 by {
            assert(p[i] == parts[i]);
        }
        assert forall|i: int, j: int| 0 <= i < p.len() && 0 <= j < p[i].len() implies !is_ws(
            #[trigger] p[i][j],
        ) by {
            assert(p[i] == parts[i]);
        }
        lemma_join_single_spaced(p);
        let a = join_space(p);
        let w = parts.last();
        assert(w == parts[parts.len() - 1]);
        assert(n == a + seq![' '] + w);
        assert forall|i: int| 0 <= i < w.len() implies !is_ws(#[trigger] w[i]) by {
            assert(w[i] == parts[parts.len() - 1][i]);
        }
        assert forall|i: int| 0 <= i < n.len() && is_ws(#[trigger] n[i]) implies n[i] == ' '
            && 0 < i < n.len() - 1 && !is_ws(n[i - 1]) && !is_ws(n[i + 1]) by {
            if i < a.len() {
                assert(n[i] == a[i]);
                assert(n[i - 1] == a[i - 1]);
                if i + 1 < a.len() {
                    assert(n[i + 1] == a[i + 1]);
                }
            } else if i == a.len() {
                assert(n[i - 1] == a[a.len() - 1]);
                assert(n[i + 1] == w[0]);
            } else {
                assert(n[i] == w[i - a.len() - 1]);
            }
        }
    }
}

/// `n`'s only whitespace is single spaces, each between two characters
/// that are not whitespace: one line, no leading, trailing or repeated
/// blanks.
pub open spec fn single_spaced(n: Seq<char>) -> bool {
    forall|i: int|
        0 <= i < n.len() && is_ws(#[trigger] n[i]) ==> n[i] == ' ' && 0 < i < n.len() - 1 && !is_ws(
            n[i - 1],
        ) && !is_ws(n[i + 1])
}

/// Normalizing collapses a text to one line: single spaces between words,
/// no other whitespace.
pub proof fn normalize_is_single_spaced(s: Seq<char>)
    ensures
        single_spaced(normalize(s)),
{
    lemma_words_wf(s);
    lemma_join_single_spaced(words(s));
}

proof fn lemma_join_push(parts: Seq<Seq<char>>, sep: Seq<char>, x: Seq<char>)
    ensures
        join_sep(parts.push(x), sep) == if parts.len() == 0 {
            x
        } else {
            join_sep(parts, sep) + sep + x
        },
{
    assert(parts.push(x).drop_last() =~= parts);
}

proof fn lemma_join_extend_last(parts: Seq<Seq<char>>, sep: Seq<char>, c: char)
    requires
        parts.len() > 0,
    ensures
        join_sep(parts.update(parts.len() - 1, parts.last().push(c)), sep) == join_sep(
            parts,
            sep,
        ).push(c),
{
    let q = parts.update(parts.len() - 1, parts.last().push(c));
    if parts.len() > 1 {
        assert(q.drop_last() =~= parts.drop_last());
        assert(join_sep(q, sep) =~= join_sep(parts, sep).push(c));
    }
}

proof fn lemma_strip_end_suffix(s: Seq<char>, p: spec_fn(char) -> bool, j: int)
    requires
        0 <= j <= s.len(),
        forall|k: int| j <= k < s.len() ==> p(#[trigger] s[k]),
    ensures
        strip_end(s, p) == strip_end(s.take(j), p),
    decreases s.len() - j,
{
    if j < s.len() {
        assert(s.drop_last() =~= s.take(s.len() - 1));
        lemma_strip_end_suffix(s.drop_last(), p, j);
        assert(s.drop_last().take(j) =~= s.take(j));
    } else {
        assert(s.take(j) =~= s);
    }
}

proof fn lemma_strip_start_prefix(s: Seq<char>, p: spec_fn(char) -> bool, i: int)
    requires
        0 <= i <= s.len(),
        forall|k: int| 0 <= k < i ==> p(#[trigger] s[k]),
    ensures
        strip_start(s, p) == strip_start(s.skip(i), p),
    decreases i,
{
    if i > 0 {
        lemma_strip_start_prefix(s.drop_first(), p, i - 1);
        assert(s.drop_first().skip(i - 1) =~= s.skip(i));
    } else {
        assert(s.skip(0) =~= s);
    }
}

/// A found position lies at or after the start and is an occurrence.
pub proof fn lemma_find_from(s: Seq<char>, pat: Seq<char>, from: int)
    ensures
        find_from(s, pat, from) matches Some(i) ==> from <= i && occurs_at(s, pat, i),
        find_from(s, pat, from) matches Some(i) ==> forall|j: int|
            from <= j < i ==> !occurs_at(s, pat, j),
        find_from(s, pat, from) is None && from >= 0 ==> forall|j: int|
            from <= j ==> !occurs_at(s, pat, j),
    decreases s.len() + 1 - from,
{
    if from < 0 || from + pat.len() > s.len() {
    } else if occurs_at(s, pat, from) {
    } else {
        lemma_find_from(s, pat, from + 1);
    }
}

/// `strip_end` keeps a prefix and removes exactly the trailing run of
/// characters satisfying `p`.
proof fn lemma_strip_end_shape(s: Seq<char>, p: spec_fn(char) -> bool) -> (b: int)
    ensures
        0 <= b <= s.len(),
        strip_end(s, p) == s.take(b),
        forall|k: int| b <= k < s.len() ==> p(#[trigger] s[k]),
        b > 0 ==> !p(s[b - 1]),
    decreases s.len(),
{
    if s.len() > 0 && p(s.last()) {
        let q = s.drop_last();
        let b = lemma_strip_end_shape(q, p);
        assert(q.take(b) =~= s.take(b));
        assert forall|k: int| b <= k < s.len() implies p(#[trigger] s[k]) by {
            if k < s.len() - 1 {
                assert(q[k] == s[k]);
            }
        }
        if b > 0 {
            assert(q[b - 1] == s[b - 1]);
        }
        b
    } else {
        assert(s.take(s.len() as int) =~= s);
        s.len() as int
    }
}

/// `strip_start` keeps a suffix and removes exactly the leading run of
/// characters satisfying `p`.
proof fn lemma_strip_start_shape(s: Seq<char>, p: spec_fn(char) -> bool) -> (a: int)
    ensures
        0 <= a <= s.len(),
        strip_start(s, p) == s.skip(a),
        forall|k: int| 0 <= k < a ==> p(#[trigger] s[k]),
        a < s.len() ==> !p(s[a]),
    decreases s.len(),
{
    if s.len() > 0 && p(s[0]) {
        let q = s.drop_first();
        let a = lemma_strip_start_shape(q, p);
        assert(q.skip(a) =~= s.skip(a + 1));
        assert forall|k: int| 0 <= k < a + 1 implies p(#[trigger] s[k]) by {
            if k > 0 {
                assert(q[k - 1] == s[k]);
            }
        }
        if a + 1 < s.len() {
            assert(q[a] == s[a + 1]);
        }
        a + 1
    } else {
        assert(s.skip(0) =~= s);
        0
    }
}

/// Trimming removes whitespace at both ends and nothing else: the result
/// is a contiguous part of `s`, everything cut off before and after it is
/// whitespace, and it neither starts nor ends with whitespace.
pub proof fn trim_removes_only_outer_whitespace(s: Seq<char>)
    ensures
        exists|a: int, b: int|
            0 <= a <= b <= s.len() && trim(s) == s.subrange(a, b) && (forall|k: int|
                0 <= k < a ==> is_ws(#[trigger] s[k])) && (forall|k: int|
                b <= k < s.len() ==> is_ws(#[trigger] s[k])),
        trim(s).len() > 0 ==> !is_ws(trim(s)[0]) && !is_ws(trim(s).last()),
{
    let b = lemma_strip_end_shape(s, ws_pred());
    let t = s.take(b);
    let a = lemma_strip_start_shape(t, ws_pred());
    assert(t.skip(a) =~= s.subrange(a, b));
    assert forall|k: int| 0 <= k < a implies is_ws(#[trigger] s[k]) by {
        assert(t[k] == s[k]);
        assert(ws_pred()(t[k]));
    }
    assert forall|k: int| b <= k < s.len() implies is_ws(#[trigger] s[k]) by {
        assert(ws_pred()(s[k]));
    }
    if trim(s).len() > 0 {
        assert(trim(s)[0] == t[a]);
        assert(trim(s).last() == s[b - 1]);
    }
}

/// The first occurrence of `pat` at or after `from` is at `i` when `pat`
/// occurs at `i` and nowhere between.
pub proof fn lemma_find_from_at(s: Seq<char>, pat: Seq<char>, from: int, i: int)
    requires
        0 <= from <= i,
        occurs_at(s, pat, i),
        forall|j: int| from <= j < i ==> !occurs_at(s, pat, j),
    ensures
        find_from(s, pat, from) == Some(i),
    decreases i - from,
{
    if from < i {
        lemma_find_from_at(s, pat, from + 1, i);
    }
}

/// `pat` is not found at or after `from` when it occurs nowhere there.
pub proof fn lemma_find_from_none(s: Seq<char>, pat: Seq<char>, from: int)
    requires
        0 <= from,
        forall|j: int| from <= j ==> !occurs_at(s, pat, j),
    ensures
        find_from(s, pat, from) is None,
    decreases s.len() + 1 - from,
{
    if from + pat.len() <= s.len() {
        lemma_find_from_none(s, pat, from + 1);
    }
}

/// The decimal digit `d` (`0` to `9`).
pub open spec fn digit_char(d: nat) -> char {
    (48 + d) as char
}

/// The decimal numeral of `n`, without leading zeros.
pub open spec fn decimal(n: nat) -> Seq<char>
    decreases n,
{
    if n < 10 {
        seq![digit_char(n)]
    } else {
        decimal(n / 10).push(digit_char(n % 10))
    }
}

// ---------------------------------------------------------------------------
// Executable functions
// ---------------------------------------------------------------------------

/// Appends one character to a string (`String::push`).
#[verifier::external_body]
pub(crate) fn push_char(s: &mut String, c: char)
    ensures
        final(s)@ == old(s)@.push(c),
{
    s.push(c);
}

/// Whether `c` is Unicode whitespace (`char::is_whitespace`).
pub fn is_whitespace(c: char) -> (r: bool)
    ensures
        r == is_ws(c),
{
    c == '\t' || c == '\n' || c == '\x0B' || c == '\x0C' || c == '\r' || c == ' ' || c == '\u{85}'
        || c == '\u{A0}' || c == '\u{1680}' || ('\u{2000}' <= c && c <= '\u{200A}') || c
        == '\u{2028}' || c == '\u{2029}' || c == '\u{202F}' || c == '\u{205F}' || c == '\u{3000}'
}

/// The characters of `s`, in order.
pub fn chars_of(s: &str) -> (r: Vec<char>)
    ensures
        r@ == s@,
{
    let mut out: Vec<char> = Vec::new();
    for c in it: s.chars()
        invariant
            out@ == it.seq().take(it.index() as int),
    {
        out.push(c);
    }
    out
}

/// The string made of `cs[from..to]`.
pub fn string_from(cs: &Vec<char>, from: usize, to: usize) -> (r: String)
    requires
        from <= to <= cs.len(),
    ensures
        r@ == cs@.subrange(from as int, to as int),
{
    let mut out = String::new();
    let mut i = from;
    while i < to
        invariant
            from <= i <= to <= cs.len(),
            out@ == cs@.subrange(from as int, i as int),
        decreases to - i,
    {
        push_char(&mut out, cs[i]);
        i = i + 1;
        assert(out@ =~= cs@.subrange(from as int, i as int));
    }
    out
}

/// `a` followed by `b`.
pub fn concat(a: &str, b: &str) -> (r: String)
    ensures
        r@ == a@ + b@,
{
    let mut out = a.to_owned();
    out.append(b);
    out
}

/// `parts` joined with `sep` between consecutive parts (`[..].join(sep)`).
pub fn join_with(parts: &Vec<String>, sep: &str) -> (r: String)
    ensures
        r@ == join_sep(parts@.map_values(|p: String| p@), sep@),
{
    let ghost views = parts@.map_values(|p: String| p@);
    let mut out = String::new();
    let mut i: usize = 0;
    while i < parts.len()
        invariant
            i <= parts.len(),
            views == parts@.map_values(|p: String| p@),
            out@ == join_sep(views.take(i as int), sep@),
        decreases parts.len() - i,
    {
        proof {
            assert(views.take(i + 1) =~= views.take(i as int).push(views[i as int]));
            lemma_join_push(views.take(i as int), sep@, views[i as int]);
        }
        if i > 0 {
            out.append(sep);
        }
        out.append(parts[i].as_str());
        i = i + 1;
    }
    assert(views.take(parts.len() as int) =~= views);
    out
}

/// The words of `s` joined with single spaces
/// (`s.split_whitespace().collect::<Vec<_>>().join(" ")`).
pub fn normalize_whitespace(s: &str) -> (r: String)
    ensures
        r@ == normalize(s@),
{
    let mut out = String::new();
    let mut in_word = false;
    let mut started = false;
    let ghost mut seen: Seq<char> = seq![];
    for c in it: s.chars()
        invariant
            seen == it.seq().take(it.index() as int),
            out@ == join_space(words(seen)),
            in_word == (seen.len() > 0 && !is_ws(seen.last())),
            started == (words(seen).len() > 0),
    {
        let ghost prev = seen;
        proof {
            seen = seen.push(c);
            assert(seen =~= it.seq().take(it.index() + 1));
            assert(seen.drop_last() =~= prev);
            lemma_words_nonempty(prev);
        }
        if is_whitespace(c) {
            in_word = false;
        } else if in_word {
            proof {
                lemma_join_extend_last(words(prev), seq![' '], c);
            }
            push_char(&mut out, c);
        } else {
            proof {
                lemma_join_push(words(prev), seq![' '], seq![c]);
            }
            if started {
                push_char(&mut out, ' ');
            }
            push_char(&mut out, c);
            in_word = true;
            started = true;
            proof {
                assert(words(prev).len() == 0 ==> out@ =~= seq![c]);
            }
        }
    }
    assert(seen =~= s@);
    out
}


/// `s` without leading and trailing whitespace (`str::trim`).
pub fn trim_whitespace(s: &str) -> (r: String)
    ensures
        r@ == trim(s@),
{
    let cs = chars_of(s);
    let mut e = cs.len();
    while e > 0 && is_whitespace(cs[e - 1])
        invariant
            e <= cs.len(),
            forall|k: int| e <= k < cs.len() ==> (ws_pred())(#[trigger] cs@[k]),
        decreases e,
    {
        e = e - 1;
    }
    let mut b: usize = 0;
    while b < e && is_whitespace(cs[b])
        invariant
            b <= e <= cs.len(),
            forall|k: int| 0 <= k < b ==> (ws_pred())(#[trigger] cs@[k]),
        decreases e - b,
    {
        b = b + 1;
    }
    proof {
        let t = cs@.take(e as int);
        lemma_strip_end_suffix(cs@, ws_pred(), e as int);
        assert(strip_end(t, ws_pred()) == t);
        assert forall|k: int| 0 <= k < b implies (ws_pred())(#[trigger] t[k]) by {
            assert(t[k] == cs@[k]);
        }
        lemma_strip_start_prefix(t, ws_pred(), b as int);
        assert(t.skip(b as int) =~= cs@.subrange(b as int, e as int));
        assert(strip_start(t.skip(b as int), ws_pred()) == t.skip(b as int));
    }
    string_from(&cs, b, e)
}

/// `s` without trailing copies of `ch` (`str::trim_end_matches(ch)`).
pub fn trim_end_matches_char(s: &str, ch: char) -> (r: String)
    ensures
        r@ == trim_end_char(s@, ch),
{
    let cs = chars_of(s);
    let mut e = cs.len();
    while e > 0 && cs[e - 1] == ch
        invariant
            e <= cs.len(),
            forall|k: int| e <= k < cs.len() ==> (char_pred(ch))(#[trigger] cs@[k]),
        decreases e,
    {
        e = e - 1;
    }
    proof {
        let t = cs@.take(e as int);
        lemma_strip_end_suffix(cs@, char_pred(ch), e as int);
        assert(strip_end(t, char_pred(ch)) == t);
        assert(t =~= cs@.subrange(0, e as int));
    }
    string_from(&cs, 0, e)
}

/// `s` without leading and trailing copies of `ch` (`str::trim_matches(ch)`).
pub fn trim_matches_char(s: &str, ch: char) -> (r: String)
    ensures
        r@ == trim_char(s@, ch),
{
    let cs = chars_of(s);
    let mut e = cs.len();
    while e > 0 && cs[e - 1] == ch
        invariant
            e <= cs.len(),
            forall|k: int| e <= k < cs.len() ==> (char_pred(ch))(#[trigger] cs@[k]),
        decreases e,
    {
        e = e - 1;
    }
    let mut b: usize = 0;
    while b < e && cs[b] == ch
        invariant
            b <= e <= cs.len(),
            forall|k: int| 0 <= k < b ==> (char_pred(ch))(#[trigger] cs@[k]),
        decreases e - b,
    {
        b = b + 1;
    }
    proof {
        let t = cs@.take(e as int);
        lemma_strip_end_suffix(cs@, char_pred(ch), e as int);
        assert(strip_end(t, char_pred(ch)) == t);
        assert forall|k: int| 0 <= k < b implies (char_pred(ch))(#[trigger] t[k]) by {
            assert(t[k] == cs@[k]);
        }
        lemma_strip_start_prefix(t, char_pred(ch), b as int);
        assert(t.skip(b as int) =~= cs@.subrange(b as int, e as int));
        assert(strip_start(t.skip(b as int), char_pred(ch)) == t.skip(b as int));
    }
    string_from(&cs, b, e)
}

/// Whether `pat` occurs in `s` at position `i`.
pub fn occurs_at_exec(s: &Vec<char>, pat: &Vec<char>, i: usize) -> (r: bool)
    ensures
        r == occurs_at(s@, pat@, i as int),
{
    if i > s.len() || pat.len() > s.len() - i {
        return false;
    }
    let mut k: usize = 0;
    while k < pat.len()
        invariant
            i + pat.len() <= s.len(),
            k <= pat.len(),
            forall|m: int| 0 <= m < k ==> s@[i + m] == pat@[m],
        decreases pat.len() - k,
    {
        if s[i + k] != pat[k] {
            assert(s@.subrange(i as int, i + pat.len())[k as int] != pat@[k as int]);
            return false;
        }
        k = k + 1;
    }
    assert(s@.subrange(i as int, i + pat.len()) =~= pat@);
    true
}

/// The least position `>= from` at which `pat` occurs in `s`.
pub fn find_from_exec(s: &Vec<char>, pat: &Vec<char>, from: usize) -> (r: Option<usize>)
    ensures
        r matches Some(i) ==> find_from(s@, pat@, from as int) == Some(i as int),
        r is None ==> find_from(s@, pat@, from as int) is None,
{
    let mut i = from;
    while i <= s.len() && pat.len() <= s.len() - i
        invariant
            from <= i,
            find_from(s@, pat@, from as int) == find_from(s@, pat@, i as int),
        decreases s.len() + 1 - i,
    {
        if occurs_at_exec(s, pat, i) {
            return Some(i);
        }
        if i == s.len() {
            assert(find_from(s@, pat@, i + 1) is None);
            return None;
        }
        i = i + 1;
    }
    None
}

/// Whether `s` begins with `p` (`str::starts_with`).
pub fn starts_with(s: &str, p: &str) -> (r: bool)
    ensures
        r == has_prefix(s@, p@),
{
    let cs = chars_of(s);
    let ps = chars_of(p);
    let r = occurs_at_exec(&cs, &ps, 0);
    proof {
        if ps@.len() <= cs@.len() {
            assert(cs@.subrange(0, ps@.len() as int) =~= cs@.take(ps@.len() as int));
        }
    }
    r
}

/// `s` without the prefix `p`, when it begins with it (`str::strip_prefix`).
pub fn strip_prefix(s: &str, p: &str) -> (r: Option<String>)
    ensures
        r is Some <==> has_prefix(s@, p@),
        r matches Some(t) ==> t@ == s@.skip(p@.len() as int),
{
    let cs = chars_of(s);
    let ps = chars_of(p);
    if occurs_at_exec(&cs, &ps, 0) {
        assert(cs@.subrange(0, ps@.len() as int) =~= cs@.take(ps@.len() as int));
        let t = string_from(&cs, ps.len(), cs.len());
        assert(t@ =~= s@.skip(p@.len() as int));
        Some(t)
    } else {
        proof {
            if ps@.len() <= cs@.len() {
                assert(cs@.subrange(0, ps@.len() as int) =~= cs@.take(ps@.len() as int));
            }
        }
        None
    }
}

/// The pieces of `s` between the occurrences of `pat`, left to right
/// (`str::split(pat)`).
pub fn split_on_pattern(s: &Vec<char>, pat: &Vec<char>) -> (r: Vec<String>)
    requires
        pat.len() > 0,
    ensures
        r@.map_values(|p: String| p@) == split_on(s@, pat@),
{
    let mut pieces: Vec<String> = Vec::new();
    let mut start: usize = 0;
    loop
        invariant
            pat.len() > 0,
            start <= s.len(),
            pieces@.map_values(|p: String| p@) + split_from(s@, pat@, start as int) == split_on(
                s@,
                pat@,
            ),
        decreases s.len() + 1 - start,
    {
        proof {
            lemma_find_from(s@, pat@, start as int);
        }
        match find_from_exec(s, pat, start) {
            None => {
                let last = string_from(s, start, s.len());
                proof {
                    assert(last@ =~= s@.skip(start as int));
                    assert(pieces@.push(last).map_values(|p: String| p@) =~= pieces@.map_values(
                        |p: String| p@,
                    ) + split_from(s@, pat@, start as int));
                }
                pieces.push(last);
                return pieces;
            },
            Some(i) => {
                let piece = string_from(s, start, i);
                proof {
                    let ghost before = pieces@.map_values(|p: String| p@);
                    assert(pieces@.push(piece).map_values(|p: String| p@) =~= before.push(
                        piece@,
                    ));
                    assert(split_from(s@, pat@, start as int) == seq![piece@] + split_from(
                        s@,
                        pat@,
                        i + pat@.len(),
                    ));
                    assert(before.push(piece@) + split_from(s@, pat@, i + pat@.len()) =~= before
                        + split_from(s@, pat@, start as int));
                }
                pieces.push(piece);
                start = i + pat.len();
            },
        }
    }
}

/// The first `n` characters of `s` (`s.chars().take(n).collect::<String>()`).
pub fn take_prefix_chars(s: &str, n: usize) -> (r: String)
    ensures
        r@ == take_chars(s@, n as nat),
{
    let cs = chars_of(s);
    let e = if cs.len() <= n {
        cs.len()
    } else {
        n
    };
    let r = string_from(&cs, 0, e);
    assert(r@ =~= take_chars(s@, n as nat));
    r
}

/// Whether `a` and `b` hold the same characters (`a == b`).
pub fn str_eq(a: &str, b: &str) -> (r: bool)
    ensures
        r == (a@ == b@),
{
    let x = chars_of(a);
    let y = chars_of(b);
    if x.len() != y.len() {
        return false;
    }
    let mut i: usize = 0;
    while i < x.len()
        invariant
            x@ == a@,
            y@ == b@,
            x.len() == y.len(),
            i <= x.len(),
            forall|k: int| 0 <= k < i ==> x@[k] == y@[k],
        decreases x.len() - i,
    {
        if x[i] != y[i] {
            assert(x@[i as int] != y@[i as int]);
            assert(x@ != y@);
            return false;
        }
        i = i + 1;
    }
    assert(x@ =~= y@);
    true
}

/// The number of characters of `s`.
pub fn char_count(s: &str) -> (r: usize)
    ensures
        r == s@.len(),
{
    chars_of(s).len()
}


/// The decimal digit `d`.
fn digit(d: u16) -> (r: char)
    requires
        d < 10,
    ensures
        r == digit_char(d as nat),
{
    if d == 0 {
        '0'
    } else if d == 1 {
        '1'
    } else if d == 2 {
        '2'
    } else if d == 3 {
        '3'
    } else if d == 4 {
        '4'
    } else if d == 5 {
        '5'
    } else if d == 6 {
        '6'
    } else if d == 7 {
        '7'
    } else if d == 8 {
        '8'
    } else {
        '9'
    }
}

/// The decimal numeral of `n` (`n.to_string()`).
pub fn decimal_string(n: u16) -> (r: String)
    ensures
        r@ == decimal(n as nat),
    decreases n,
{
    if n < 10 {
        let mut s = String::new();
        push_char(&mut s, digit(n));
        s
    } else {
        let mut s = decimal_string(n / 10);
        push_char(&mut s, digit(n % 10));
        s
    }
}

} // verus!
