//! The markdown subset of chat messages: headings `#`/`##`/`###`, quotes `>`, bullets
//! `-`/`*`, bold `**`, italic `*`, underline `__`, strike `~~`, inline code, fenced code
//! blocks with highlighting, raw URLs underlined. Also the fuzzy matcher and the
//! truncation to a display width.

use crate::style;
use crate::style::{extend_lines, extend_spans, Color, Line, Span, Style};
use crate::text;
use vstd::prelude::*;

verus! {

// ---------------------------------------------------------------------------
// Links
// ---------------------------------------------------------------------------

pub open spec fn link_style() -> Style {
    Style::new().fg(Color::Cyan).underlined()
}

pub open spec fn is_web_address(s: Seq<char>) -> bool {
    text::begins_with(s, "http://"@) || text::begins_with(s, "https://"@)
}

/// The word that begins with `http`: a link where it is an `http` or `https` address.
pub open spec fn link_span(word: Seq<char>) -> style::SpanView {
    if is_web_address(word) {
        style::styled(word, link_style())
    } else {
        style::raw(word)
    }
}

/// A text cut into spans, so that each word from `http` on stands by itself.
pub open spec fn links(s: Seq<char>) -> Seq<style::SpanView>
    decreases s.len(),
{
    match text::find_from(s, seq!['h', 't', 't', 'p'], 0) {
        None => if s.len() == 0 {
            Seq::empty()
        } else {
            seq![style::raw(s)]
        },
        Some(k) => {
            let end = text::next_space(s, k + 4);
            proof {
                text::lemma_find_from(s, seq!['h', 't', 't', 'p'], 0);
                text::lemma_next_space(s, k + 4);
            }
            let before = if k > 0 {
                seq![style::raw(s.take(k))]
            } else {
                Seq::empty()
            };
            before + seq![link_span(s.subrange(k, end))] + links(s.skip(end))
        },
    }
}

fn web_address(s: &str) -> (r: bool)
    ensures
        r == is_web_address(s@),
{
    text::starts_with(s, "http://") || text::starts_with(s, "https://")
}

/// Underlines the `http://` and `https://` addresses in a run of plain text.
pub fn linkify(chunk: &str) -> (r: Vec<Span>)
    ensures
        style::span_views(r@) == links(chunk@),
{
    let mut out: Vec<Span> = Vec::new();
    let v = text::chars_of(chunk);
    let http: Vec<char> = vec!['h', 't', 't', 'p'];
    assert(http@ =~= seq!['h', 't', 't', 'p']);
    let mut lo: usize = 0;
    assert(v@.skip(0) =~= chunk@);
    assert(style::span_views(out@) + links(v@.skip(0)) =~= links(chunk@));
    loop
        invariant
            lo <= v@.len(),
            http@ == seq!['h', 't', 't', 'p'],
            style::span_views(out@) + links(v@.skip(lo as int)) == links(chunk@),
        decreases v@.len() - lo,
    {
        let ghost rest = v@.skip(lo as int);
        let ghost before = style::span_views(out@);
        proof {
            lemma_find_skip(v@, http@, lo as int, lo as int);
            text::lemma_find_from(v@, http@, lo as int);
        }
        match text::find(&v, &http, lo) {
            None => {
                if lo < v.len() {
                    let tail = text::text_of(&v, lo, v.len());
                    assert(tail@ =~= rest);
                    out.push(Span::raw(tail));
                    assert(style::span_views(out@) =~= before + links(rest));
                } else {
                    assert(before + links(rest) =~= before);
                }
                return out;
            },
            Some(k) => {
                assert(k + 4 <= v@.len());
                assert(v.len() == v@.len());
                let end = text::space_after(&v, k + 4);
                if k > lo {
                    let plain = text::text_of(&v, lo, k);
                    assert(plain@ =~= rest.take(k - lo));
                    out.push(Span::raw(plain));
                }
                let ghost middle = style::span_views(out@);
                let word = text::text_of(&v, k, end);
                proof {
                    lemma_next_space_skip(v@, lo as int, k + 4);
                    assert(word@ =~= rest.subrange(k - lo, end - lo));
                    assert(rest.skip(end - lo) =~= v@.skip(end as int));
                    assert(middle =~= before + (if k > lo {
                        seq![style::raw(rest.take(k - lo))]
                    } else {
                        Seq::empty()
                    }));
                }
                if web_address(word.as_str()) {
                    out.push(Span::styled(word, Style::new().fg(Color::Cyan).underlined()));
                } else {
                    out.push(Span::raw(word));
                }
                lo = end;
                proof {
                    assert(style::span_views(out@) =~= middle.push(link_span(word@)));
                    assert(style::span_views(out@) + links(v@.skip(lo as int)) =~= before + links(
                        rest,
                    ));
                }
            },
        }
    }
}

pub proof fn lemma_find_skip(s: Seq<char>, p: Seq<char>, lo: int, i: int)
    requires
        0 <= lo <= i,
        lo <= s.len(),
    ensures
        match text::find_from(s, p, i) {
            Some(k) => text::find_from(s.skip(lo), p, i - lo) == Some(k - lo),
            None => text::find_from(s.skip(lo), p, i - lo) is None,
        },
    decreases s.len() + 1 - i,
{
    if i + p.len() <= s.len() {
        assert(s.skip(lo).subrange(i - lo, i - lo + p.len()) =~= s.subrange(i, i + p.len()));
        if !text::occurs_at(s, p, i) {
            lemma_find_skip(s, p, lo, i + 1);
        }
    }
}

pub proof fn lemma_next_space_skip(s: Seq<char>, lo: int, i: int)
    requires
        0 <= lo <= i <= s.len(),
    ensures
        text::next_space(s.skip(lo), i - lo) == text::next_space(s, i) - lo,
    decreases s.len() - i,
{
    if i < s.len() && !text::is_white_space(s[i]) {
        lemma_next_space_skip(s, lo, i + 1);
    }
}

/// Linking loses and adds nothing: the spans put together are the text.
pub proof fn law_links_keep_the_text(s: Seq<char>)
    ensures
        style::joined_spans(links(s)) == s,
    decreases s.len(),
{
    let http = seq!['h', 't', 't', 'p'];
    text::lemma_find_from(s, http, 0);
    match text::find_from(s, http, 0) {
        None => {
            reveal_with_fuel(style::joined_spans, 2);
            assert(style::joined_spans(links(s)) =~= s);
        },
        Some(k) => {
            text::lemma_next_space(s, k + 4);
            let end = text::next_space(s, k + 4);
            law_links_keep_the_text(s.skip(end));
            let before = if k > 0 {
                seq![style::raw(s.take(k))]
            } else {
                Seq::empty()
            };
            let word = seq![link_span(s.subrange(k, end))];
            style::lemma_joined_spans_add(before + word, links(s.skip(end)));
            style::lemma_joined_spans_add(before, word);
            reveal_with_fuel(style::joined_spans, 2);
            assert(style::joined_spans(before) =~= s.take(k));
            assert(style::joined_spans(word) =~= s.subrange(k, end));
            assert(s.take(k) + s.subrange(k, end) + s.skip(end) =~= s);
        },
    }
}

// ---------------------------------------------------------------------------
// Marks inside a line
// ---------------------------------------------------------------------------

/// A marked run that opens at some position: where its text begins and ends, where the
/// scan goes on, and how the text looks.
pub struct Mark {
    pub lo: int,
    pub hi: int,
    pub next: int,
    pub style: Style,
}

/// A run between two doubled delimiters, with something between them.
pub open spec fn doubled_mark(s: Seq<char>, i: int, c: char, look: Style) -> Option<Mark> {
    if text::occurs_at(s, seq![c, c], i) {
        match text::find_from(s, seq![c, c], i + 2) {
            Some(k) => if k > i + 2 {
                Some(Mark { lo: i + 2, hi: k, next: k + 2, style: look })
            } else {
                None
            },
            None => None,
        }
    } else {
        None
    }
}

/// A run between two single delimiters, which may be empty.
pub open spec fn single_mark(s: Seq<char>, i: int, c: char, look: Style) -> Option<Mark> {
    if 0 <= i < s.len() && s[i] == c {
        match text::first_index(s, c, i + 1) {
            Some(k) => Some(Mark { lo: i + 1, hi: k, next: k + 1, style: look }),
            None => None,
        }
    } else {
        None
    }
}

/// The marked run that opens at position `i`, if one does.
pub open spec fn mark_at(s: Seq<char>, i: int) -> Option<Mark> {
    let bold = doubled_mark(s, i, '*', Style::new().bold());
    let strike = doubled_mark(s, i, '~', Style::new().crossed_out());
    let under = doubled_mark(s, i, '_', Style::new().underlined());
    let code = single_mark(s, i, '`', Style::new().fg(Color::Rgb(255, 165, 0)));
    if bold is Some {
        bold
    } else if strike is Some {
        strike
    } else if under is Some {
        under
    } else if code is Some {
        code
    } else if text::occurs_at(s, seq!['*', '*'], i) {
        None
    } else {
        single_mark(s, i, '*', Style::new().italic())
    }
}

pub proof fn lemma_mark_at(s: Seq<char>, i: int)
    requires
        0 <= i < s.len(),
    ensures
        mark_at(s, i) matches Some(m) ==> i < m.lo <= m.hi < m.next <= s.len(),
{
    text::lemma_find_from(s, seq!['*', '*'], i + 2);
    text::lemma_find_from(s, seq!['~', '~'], i + 2);
    text::lemma_find_from(s, seq!['_', '_'], i + 2);
    text::lemma_first_index(s, '`', i + 1);
    text::lemma_first_index(s, '*', i + 1);
}

/// The spans of a line from position `i` on, where the plain text since `start` is still
/// to be shown.
pub open spec fn spans_from(s: Seq<char>, start: int, i: int) -> Seq<style::SpanView>
    decreases s.len() - i,
{
    if i < 0 || i >= s.len() {
        links(s.subrange(start, s.len() as int))
    } else {
        proof {
            lemma_mark_at(s, i);
        }
        match mark_at(s, i) {
            Some(m) => links(s.subrange(start, i)) + seq![
                style::styled(s.subrange(m.lo, m.hi), m.style),
            ] + spans_from(s, m.next, m.next),
            None => spans_from(s, start, i + 1),
        }
    }
}

/// The spans of a line: marked runs in their style, the text between them with its links.
pub open spec fn inline_spans(s: Seq<char>) -> Seq<style::SpanView> {
    let spans = spans_from(s, 0, 0);
    if spans.len() == 0 {
        seq![style::raw(""@)]
    } else {
        spans
    }
}

struct Run {
    lo: usize,
    hi: usize,
    next: usize,
    style: Style,
}

spec fn run_is(r: Option<Run>, m: Option<Mark>) -> bool {
    match r {
        Some(x) => m == Some(
            Mark { lo: x.lo as int, hi: x.hi as int, next: x.next as int, style: x.style },
        ),
        None => m is None,
    }
}

/// The first delimiter behind the one that opens at `i`. There is none in a text that is too
/// short for the one that opens.
fn find_closer(v: &Vec<char>, i: usize, delim: &Vec<char>) -> (r: Option<usize>)
    ensures
        match r {
            Some(k) => text::find_from(v@, delim@, i + delim@.len()) == Some(k as int),
            None => text::find_from(v@, delim@, i + delim@.len()) is None,
        },
{
    assert(v.len() == v@.len() && delim.len() == delim@.len());
    if i > v.len() || delim.len() > v.len() - i {
        return None;
    }
    text::find(v, delim, i + delim.len())
}

fn doubled_run(v: &Vec<char>, i: usize, c: char, look: Style) -> (r: Option<Run>)
    requires
        i < v@.len(),
    ensures
        run_is(r, doubled_mark(v@, i as int, c, look)),
{
    let delim: Vec<char> = vec![c, c];
    assert(delim@ =~= seq![c, c]);
    if !text::occurs(v, &delim, i) {
        return None;
    }
    proof {
        text::lemma_find_from(v@, delim@, i + 2);
    }
    match find_closer(v, i, &delim) {
        Some(k) => {
            assert(k + 2 <= v.len());
            if k > i + 2 {
                Some(Run { lo: i + 2, hi: k, next: k + 2, style: look })
            } else {
                None
            }
        },
        None => None,
    }
}

fn single_run(v: &Vec<char>, i: usize, c: char, look: Style) -> (r: Option<Run>)
    requires
        i < v@.len(),
    ensures
        run_is(r, single_mark(v@, i as int, c, look)),
{
    assert(v.len() == v@.len());
    if v[i] != c {
        return None;
    }
    match text::index_of(v, c, i + 1) {
        Some(k) => Some(Run { lo: i + 1, hi: k, next: k + 1, style: look }),
        None => None,
    }
}

fn run_at(v: &Vec<char>, i: usize) -> (r: Option<Run>)
    requires
        i < v@.len(),
    ensures
        run_is(r, mark_at(v@, i as int)),
{
    let bold = doubled_run(v, i, '*', Style::new().bold());
    if bold.is_some() {
        return bold;
    }
    let strike = doubled_run(v, i, '~', Style::new().crossed_out());
    if strike.is_some() {
        return strike;
    }
    let under = doubled_run(v, i, '_', Style::new().underlined());
    if under.is_some() {
        return under;
    }
    let code = single_run(v, i, '`', Style::new().fg(Color::Rgb(255, 165, 0)));
    if code.is_some() {
        return code;
    }
    let stars: Vec<char> = vec!['*', '*'];
    assert(stars@ =~= seq!['*', '*']);
    if text::occurs(v, &stars, i) {
        return None;
    }
    single_run(v, i, '*', Style::new().italic())
}

/// The spans of one line of a message.
pub fn inline(s: &str) -> (r: Vec<Span>)
    ensures
        style::span_views(r@) == inline_spans(s@),
{
    let v = text::chars_of(s);
    let mut spans: Vec<Span> = Vec::new();
    let mut i: usize = 0;
    let mut start: usize = 0;
    assert(style::span_views(spans@) + spans_from(s@, 0, 0) =~= spans_from(s@, 0, 0));
    while i < v.len()
        invariant
            start <= i <= v@.len(),
            v@ == s@,
            style::span_views(spans@) + spans_from(s@, start as int, i as int) == spans_from(
                s@,
                0,
                0,
            ),
        decreases v@.len() - i,
    {
        proof {
            lemma_mark_at(s@, i as int);
        }
        match run_at(&v, i) {
            Some(run) => {
                let ghost before = style::span_views(spans@);
                let plain = text::text_of(&v, start, i);
                extend_spans(&mut spans, linkify(plain.as_str()));
                let ghost middle = style::span_views(spans@);
                let inner = text::text_of(&v, run.lo, run.hi);
                spans.push(Span::styled(inner, run.style));
                proof {
                    assert(style::span_views(spans@) =~= middle.push(
                        style::styled(inner@, run.style),
                    ));
                    assert(style::span_views(spans@) + spans_from(
                        s@,
                        run.next as int,
                        run.next as int,
                    ) =~= before + spans_from(s@, start as int, i as int));
                }
                i = run.next;
                start = i;
            },
            None => {
                i += 1;
            },
        }
    }
    let plain = text::text_of(&v, start, v.len());
    extend_spans(&mut spans, linkify(plain.as_str()));
    if spans.len() == 0 {
        assert(style::span_views(spans@).len() == 0);
        spans.push(Span::raw("".to_owned()));
        assert(style::span_views(spans@) =~= seq![style::raw(""@)]);
    } else {
        assert(style::span_views(spans@).len() > 0);
    }
    spans
}


/// A text that opens no mark.
pub open spec fn is_unmarked(s: Seq<char>) -> bool {
    forall|i: int|
        0 <= i < s.len() ==> #[trigger] s[i] != '*' && s[i] != '~' && s[i] != '_' && s[i] != '`'
}

pub proof fn lemma_not_doubled(s: Seq<char>, c: char, i: int)
    requires
        0 <= i < s.len(),
        i + 1 < s.len() ==> s[i] != c || s[i + 1] != c,
    ensures
        !text::occurs_at(s, seq![c, c], i),
{
    if text::occurs_at(s, seq![c, c], i) {
        assert(s.subrange(i, i + 2)[0] == c);
        assert(s.subrange(i, i + 2)[1] == c);
    }
}

pub proof fn lemma_unmarked_from(s: Seq<char>, start: int, i: int, end: int)
    requires
        0 <= start <= i <= end <= s.len(),
        forall|k: int|
            i <= k < end ==> #[trigger] s[k] != '*' && s[k] != '~' && s[k] != '_' && s[k] != '`',
    ensures
        spans_from(s, start, i) == spans_from(s, start, end),
    decreases end - i,
{
    if i < end {
        assert(s[i] != '*' && s[i] != '~' && s[i] != '_');
        lemma_not_doubled(s, '*', i);
        lemma_not_doubled(s, '~', i);
        lemma_not_doubled(s, '_', i);
        assert(s[i] != '*' && s[i] != '`');
        assert(mark_at(s, i) is None);
        lemma_unmarked_from(s, start, i + 1, end);
    }
}

/// A text without marks is shown as it is, with its links.
pub proof fn law_unmarked_text_is_shown_as_it_is(s: Seq<char>)
    requires
        is_unmarked(s),
    ensures
        spans_from(s, 0, 0) == links(s),
        style::joined_spans(inline_spans(s)) == s,
{
    lemma_unmarked_from(s, 0, 0, s.len() as int);
    assert(s.subrange(0, s.len() as int) =~= s);
    law_links_keep_the_text(s);
    reveal_strlit("");
    reveal_with_fuel(style::joined_spans, 2);
    if links(s).len() == 0 {
        assert(style::joined_spans(inline_spans(s)) =~= s);
    }
}

/// The delimiter and the look of the three doubled marks.
pub open spec fn doubled_look(c: char) -> Option<Style> {
    if c == '*' {
        Some(Style::new().bold())
    } else if c == '~' {
        Some(Style::new().crossed_out())
    } else if c == '_' {
        Some(Style::new().underlined())
    } else {
        None
    }
}

proof fn lemma_doubled_mark_found(s: Seq<char>, n: int, c: char, m: int)
    requires
        doubled_look(c) is Some,
        0 <= n,
        0 < m,
        n + 4 + m <= s.len(),
        s[n] == c,
        s[n + 1] == c,
        s[n + 2 + m] == c,
        s[n + 3 + m] == c,
        forall|j: int| n + 2 <= j < n + 2 + m ==> #[trigger] s[j] != c,
    ensures
        mark_at(s, n) == Some(
            Mark { lo: n + 2, hi: n + 2 + m, next: n + 4 + m, style: doubled_look(c)->0 },
        ),
{
    let d = seq![c, c];
    assert(s.subrange(n, n + 2) =~= d);
    assert(s.subrange(n + 2 + m, n + 4 + m) =~= d);
    assert(text::occurs_at(s, d, n));
    assert(text::occurs_at(s, d, n + 2 + m));
    text::lemma_find_from(s, d, n + 2);
    assert forall|j: int| n + 2 <= j < n + 2 + m implies !#[trigger] text::occurs_at(s, d, j) by {
        lemma_not_doubled(s, c, j);
    }
    assert(text::find_from(s, d, n + 2) == Some(n + 2 + m));
    if c != '*' {
        lemma_not_doubled(s, '*', n);
    }
    if c == '_' {
        lemma_not_doubled(s, '~', n);
    }
}

pub proof fn lemma_no_links_in_nothing(s: Seq<char>)
    requires
        s.len() == 0,
    ensures
        links(s) == Seq::<style::SpanView>::empty(),
{
}

/// `**bold**`, `~~strike~~` and `__underline__` show the text between the delimiters in
/// their style, behind whatever unmarked text comes first.
pub proof fn law_doubled_marks(before: Seq<char>, c: char, body: Seq<char>)
    requires
        is_unmarked(before),
        doubled_look(c) is Some,
        body.len() > 0,
        forall|i: int| 0 <= i < body.len() ==> #[trigger] body[i] != c,
    ensures
        inline_spans(before + seq![c, c] + body + seq![c, c]) == links(before) + seq![
            style::styled(body, doubled_look(c)->0),
        ],
{
    let s = before + seq![c, c] + body + seq![c, c];
    let n = before.len() as int;
    let m = body.len() as int;
    assert(forall|k: int| 0 <= k < n ==> s[k] == before[k]);
    lemma_unmarked_from(s, 0, 0, n);
    assert forall|j: int| n + 2 <= j < n + 2 + m implies #[trigger] s[j] != c by {
        assert(s[j] == body[j - n - 2]);
    }
    lemma_doubled_mark_found(s, n, c, m);
    assert(s.subrange(n + 2, n + 2 + m) =~= body);
    assert(s.subrange(0, n) =~= before);
    let end = n + 4 + m;
    lemma_no_links_in_nothing(s.subrange(end, s.len() as int));
    assert(spans_from(s, end, end) == Seq::<style::SpanView>::empty());
    let shown = links(before) + seq![style::styled(body, doubled_look(c)->0)];
    assert(spans_from(s, 0, n) == shown + spans_from(s, end, end));
    assert(shown + spans_from(s, end, end) =~= shown);
}

/// The delimiter and the look of the two single marks.
pub open spec fn single_look(c: char) -> Option<Style> {
    if c == '`' {
        Some(Style::new().fg(Color::Rgb(255, 165, 0)))
    } else if c == '*' {
        Some(Style::new().italic())
    } else {
        None
    }
}

/// `` `code` `` and `*italic*` show the text between the delimiters in their style, behind
/// whatever unmarked text comes first.
pub proof fn law_single_marks(before: Seq<char>, c: char, body: Seq<char>)
    requires
        is_unmarked(before),
        single_look(c) is Some,
        body.len() > 0,
        forall|i: int| 0 <= i < body.len() ==> #[trigger] body[i] != c,
    ensures
        inline_spans(before + seq![c] + body + seq![c]) == links(before) + seq![
            style::styled(body, single_look(c)->0),
        ],
{
    let s = before + seq![c] + body + seq![c];
    let n = before.len() as int;
    let m = body.len() as int;
    assert(forall|k: int| 0 <= k < n ==> s[k] == before[k]);
    lemma_unmarked_from(s, 0, 0, n);
    assert(s[n] == c && s[n + 1] == body[0]);
    lemma_not_doubled(s, '*', n);
    lemma_not_doubled(s, '~', n);
    lemma_not_doubled(s, '_', n);
    text::lemma_first_index(s, c, n + 1);
    assert forall|j: int| n + 1 <= j < n + 1 + m implies #[trigger] s[j] != c by {
        assert(s[j] == body[j - n - 1]);
    }
    assert(s[n + 1 + m] == c);
    assert(text::first_index(s, c, n + 1) == Some(n + 1 + m));
    assert(mark_at(s, n) == Some(
        Mark { lo: n + 1, hi: n + 1 + m, next: n + 2 + m, style: single_look(c)->0 },
    ));
    assert(s.subrange(n + 1, n + 1 + m) =~= body);
    assert(s.subrange(0, n) =~= before);
    let tail = s.subrange(n + 2 + m, s.len() as int);
    assert(tail.len() == 0);
    text::lemma_find_from(tail, seq!['h', 't', 't', 'p'], 0);
    assert(links(tail) =~= Seq::empty());
    assert(spans_from(s, n + 2 + m, n + 2 + m) == links(tail));
    assert(spans_from(s, 0, n) =~= links(before) + seq![style::styled(body, single_look(c)->0)]);
}

// ---------------------------------------------------------------------------
// Lines
// ---------------------------------------------------------------------------

pub open spec fn mark_style() -> Style {
    Style::new().fg(Color::DarkGray)
}

pub open spec fn prefixed_line(prefix: Seq<char>, body: Seq<char>, look: Style) -> style::LineView {
    style::LineView {
        spans: seq![style::styled(prefix, mark_style())] + inline_spans(body),
        style: look,
    }
}

/// One line outside a code block: a heading, a quote, a bullet or plain text.
pub open spec fn line_shown(s: Seq<char>) -> style::LineView {
    if let Some(body) = text::after_prefix(s, "### "@) {
        prefixed_line("### "@, body, Style::new().bold())
    } else if let Some(body) = text::after_prefix(s, "## "@) {
        prefixed_line("## "@, body, Style::new().bold().underline_color(Color::Gray))
    } else if let Some(body) = text::after_prefix(s, "# "@) {
        prefixed_line("# "@, body, Style::new().fg(Color::Cyan).bold())
    } else if let Some(body) = text::after_prefix(s, "> "@) {
        prefixed_line("▌ "@, body, Style::new().fg(Color::Gray))
    } else if let Some(body) = text::after_prefix(s, "- "@) {
        prefixed_line("• "@, body, Style::new())
    } else if let Some(body) = text::after_prefix(s, "* "@) {
        prefixed_line("• "@, body, Style::new())
    } else {
        style::plain_line(inline_spans(s))
    }
}

fn prefixed(prefix: &str, body: &str, look: Style) -> (r: Line)
    ensures
        r@ == prefixed_line(prefix@, body@, look),
{
    let mut spans: Vec<Span> = Vec::new();
    spans.push(Span::styled(prefix.to_owned(), Style::new().fg(Color::DarkGray)));
    assert(style::span_views(spans@) =~= seq![style::styled(prefix@, mark_style())]);
    extend_spans(&mut spans, inline(body));
    Line { spans, style: look }
}

/// Shows one line that stands outside a code block.
pub fn render_line(s: &str) -> (r: Line)
    ensures
        r@ == line_shown(s@),
{
    if let Some(body) = text::strip_prefix(s, "### ") {
        return prefixed("### ", body.as_str(), Style::new().bold());
    }
    if let Some(body) = text::strip_prefix(s, "## ") {
        return prefixed(
            "## ",
            body.as_str(),
            Style::new().bold().underline_color(Color::Gray),
        );
    }
    if let Some(body) = text::strip_prefix(s, "# ") {
        return prefixed("# ", body.as_str(), Style::new().fg(Color::Cyan).bold());
    }
    if let Some(body) = text::strip_prefix(s, "> ") {
        return prefixed("▌ ", body.as_str(), Style::new().fg(Color::Gray));
    }
    if let Some(body) = text::strip_prefix(s, "- ") {
        return prefixed("• ", body.as_str(), Style::new());
    }
    if let Some(body) = text::strip_prefix(s, "* ") {
        return prefixed("• ", body.as_str(), Style::new());
    }
    Line::plain(inline(s))
}

// ---------------------------------------------------------------------------
// Code blocks
// ---------------------------------------------------------------------------

/// A piece of a highlighted line: red, green and blue of its colour, and its text.
pub type Piece = (u8, u8, u8, String);

/// What the pieces of a line are.
pub open spec fn piece_views(v: Seq<Piece>) -> Seq<(u8, u8, u8, Seq<char>)> {
    v.map_values(|p: Piece| (p.0, p.1, p.2, p.3@))
}

/// What the pieces of several lines are.
pub open spec fn piece_lines(v: Seq<Vec<Piece>>) -> Seq<Seq<(u8, u8, u8, Seq<char>)>> {
    v.map_values(|l: Vec<Piece>| piece_views(l@))
}

/// The text of the pieces of a line, put together.
pub open spec fn joined_pieces(pieces: Seq<(u8, u8, u8, Seq<char>)>) -> Seq<char>
    decreases pieces.len(),
{
    if pieces.len() == 0 {
        Seq::empty()
    } else {
        joined_pieces(pieces.drop_last()) + pieces.last().3
    }
}

/// There is a run of pieces for every line, which put together are a beginning of it.
pub open spec fn are_cut_from(v: Seq<Vec<Piece>>, lines: Seq<String>) -> bool {
    &&& v.len() == lines.len()
    &&& forall|i: int|
        0 <= i < v.len() ==> text::begins_with(
            lines[i]@,
            joined_pieces(piece_views((#[trigger] v[i])@)),
        )
}

/// The pieces that syntect's highlighter cuts some lines into, fed to it one after the
/// other: in the default syntax that it finds for a token, in a default theme; nothing
/// where it finds no syntax for the token.
pub uninterp spec fn highlighted(
    lines: Seq<Seq<char>>,
    token: Seq<char>,
    theme: Seq<char>,
) -> Option<Seq<Seq<(u8, u8, u8, Seq<char>)>>>;

/// The same pieces, in syntect's plain text syntax.
pub uninterp spec fn highlighted_plain(lines: Seq<Seq<char>>, theme: Seq<char>) -> Seq<
    Seq<(u8, u8, u8, Seq<char>)>,
>;

/// `HighlightLines::highlight_line` of syntect on each line in turn, in the syntax that
/// `SyntaxSet::find_syntax_by_token` finds; a line that it cannot parse has no pieces.
/// Each line gives one run of pieces, cut from it one behind the other from its beginning
/// on. The theme has to be one of syntect's own.
#[verifier::external_body]
fn highlight(lines: &Vec<String>, token: &str, theme: &str) -> (r: Option<Vec<Vec<Piece>>>)
    requires
        theme@ == "base16-ocean.dark"@,
    ensures
        r is Some == highlighted(text::texts(lines@), token@, theme@) is Some,
        r matches Some(v) ==> are_cut_from(v@, lines@) && highlighted(
            text::texts(lines@),
            token@,
            theme@,
        ) == Some(piece_lines(v@)),
{
    let syntaxes = syntect::parsing::SyntaxSet::load_defaults_newlines();
    let themes = syntect::highlighting::ThemeSet::load_defaults();
    let syntax = syntaxes.find_syntax_by_token(token)?;
    let mut h = syntect::easy::HighlightLines::new(syntax, &themes.themes[theme]);
    let pieces = |(s, t): (syntect::highlighting::Style, &str)| {
        (s.foreground.r, s.foreground.g, s.foreground.b, t.to_string())
    };
    Some(lines.iter().map(|line| {
        h.highlight_line(line, &syntaxes).unwrap_or_default().into_iter().map(pieces).collect()
    }).collect())
}

/// `HighlightLines::highlight_line` of syntect on each line in turn, in the syntax that
/// `SyntaxSet::find_syntax_plain_text` gives; a line that it cannot parse has no pieces.
/// Each line gives one run of pieces, cut from it one behind the other from its beginning
/// on. The theme has to be one of syntect's own.
#[verifier::external_body]
fn highlight_plain(lines: &Vec<String>, theme: &str) -> (r: Vec<Vec<Piece>>)
    requires
        theme@ == "base16-ocean.dark"@,
    ensures
        are_cut_from(r@, lines@),
        piece_lines(r@) == highlighted_plain(text::texts(lines@), theme@),
{
    let syntaxes = syntect::parsing::SyntaxSet::load_defaults_newlines();
    let themes = syntect::highlighting::ThemeSet::load_defaults();
    let syntax = syntaxes.find_syntax_plain_text();
    let mut h = syntect::easy::HighlightLines::new(syntax, &themes.themes[theme]);
    let pieces = |(s, t): (syntect::highlighting::Style, &str)| {
        (s.foreground.r, s.foreground.g, s.foreground.b, t.to_string())
    };
    lines.iter().map(|line| {
        h.highlight_line(line, &syntaxes).unwrap_or_default().into_iter().map(pieces).collect()
    }).collect()
}

/// The spans of the pieces that hold more than line feeds, without the line feeds that
/// they end in.
pub open spec fn piece_spans(pieces: Seq<(u8, u8, u8, Seq<char>)>) -> Seq<style::SpanView>
    decreases pieces.len(),
{
    if pieces.len() == 0 {
        Seq::empty()
    } else {
        let before = piece_spans(pieces.drop_last());
        let (red, green, blue, content) = pieces.last();
        let kept = text::without_trailing(content, '\n');
        if kept.len() == 0 {
            before
        } else {
            before.push(style::styled(kept, Style::new().fg(Color::Rgb(red, green, blue))))
        }
    }
}

/// A line feed stands nowhere but at the very end.
spec fn feeds_at_end(s: Seq<char>) -> bool {
    forall|i: int| 0 <= i < s.len() - 1 ==> #[trigger] s[i] != '\n'
}

proof fn lemma_piece_spans_keep_the_text(pieces: Seq<(u8, u8, u8, Seq<char>)>)
    requires
        feeds_at_end(joined_pieces(pieces)),
    ensures
        style::joined_spans(piece_spans(pieces)) == {
            let s = joined_pieces(pieces);
            if s.len() > 0 && s.last() == '\n' {
                s.drop_last()
            } else {
                s
            }
        },
    decreases pieces.len(),
{
    if pieces.len() > 0 {
        let all = joined_pieces(pieces);
        let first = joined_pieces(pieces.drop_last());
        let content = pieces.last().3;
        assert forall|i: int| 0 <= i < first.len() - 1 implies #[trigger] first[i] != '\n' by {
            assert(all[i] == first[i]);
        }
        lemma_piece_spans_keep_the_text(pieces.drop_last());
        if content.len() == 0 {
            assert(all =~= first);
        } else {
            if first.len() > 0 {
                assert(all[first.len() - 1] == first.last());
            }
            assert(all.last() == content.last());
            let kept = text::without_trailing(content, '\n');
            if content.last() == '\n' {
                let short = content.drop_last();
                if short.len() > 0 {
                    assert(all[all.len() - 2] == short.last());
                }
                reveal_with_fuel(text::without_trailing, 2);
                assert(kept == short);
                assert(all.drop_last() =~= first + short);
            }
            if kept.len() > 0 {
                let look = Style::new().fg(
                    Color::Rgb(pieces.last().0, pieces.last().1, pieces.last().2),
                );
                let last = seq![style::styled(kept, look)];
                let before = piece_spans(pieces.drop_last());
                assert(before.push(style::styled(kept, look)) =~= before + last);
                style::lemma_joined_spans_add(before, last);
                reveal_with_fuel(style::joined_spans, 2);
                assert(style::joined_spans(last) =~= kept);
            } else {
                assert(all.drop_last() =~= first);
            }
        }
    }
}

/// A line of code shows a beginning of the line that its pieces were cut from.
proof fn lemma_code_line_shows_the_line(pieces: Seq<(u8, u8, u8, Seq<char>)>, line: Seq<char>)
    requires
        text::begins_with(line + "\n"@, joined_pieces(pieces)),
        forall|i: int| 0 <= i < line.len() ==> #[trigger] line[i] != '\n',
    ensures
        text::begins_with(line, style::joined_spans(code_line(pieces).spans)),
{
    reveal_strlit("\n");
    reveal_strlit("");
    let fed = line + "\n"@;
    let s = joined_pieces(pieces);
    assert forall|i: int| 0 <= i < s.len() - 1 implies #[trigger] s[i] != '\n' by {
        assert(s[i] == fed[i]);
    }
    lemma_piece_spans_keep_the_text(pieces);
    reveal_with_fuel(style::joined_spans, 2);
    let shown = style::joined_spans(piece_spans(pieces));
    if s.len() > 0 {
        assert(s.last() == fed[s.len() - 1]);
    }
    assert(shown =~= line.take(shown.len() as int));
    if piece_spans(pieces).len() == 0 {
        let empty = style::joined_spans(seq![style::raw(""@)]);
        assert(empty =~= line.take(0));
    }
}

/// A line of code.
pub open spec fn code_line(pieces: Seq<(u8, u8, u8, Seq<char>)>) -> style::LineView {
    let spans = piece_spans(pieces);
    style::plain_line(
        if spans.len() == 0 {
            seq![style::raw(""@)]
        } else {
            spans
        },
    )
}

/// The label above a code block: its language, or `code`.
pub open spec fn code_label(lang: Seq<char>) -> style::LineView {
    let name = if lang.len() == 0 {
        "code"@
    } else {
        lang
    };
    style::plain_line(
        seq![
            style::styled(
                " "@ + name + " "@,
                Style::new().fg(Color::Black).bg(Color::DarkGray),
            ),
        ],
    )
}

/// The rule below a code block.
pub open spec fn code_rule() -> style::LineView {
    style::plain_line(
        seq![style::styled(Seq::new(24, |i: int| '─'), Style::new().fg(Color::DarkGray))],
    )
}

/// A code block: its label, its lines, its rule.
pub open spec fn framed(
    lines: Seq<Seq<(u8, u8, u8, Seq<char>)>>,
    lang: Seq<char>,
) -> Seq<style::LineView> {
    seq![code_label(lang)] + lines.map_values(|l: Seq<(u8, u8, u8, Seq<char>)>| code_line(l))
        + seq![code_rule()]
}

/// Each line with its line feed, as the highlighter wants it.
pub open spec fn with_line_feeds(lines: Seq<Seq<char>>) -> Seq<Seq<char>> {
    lines.map_values(|l: Seq<char>| l + "\n"@)
}

/// The pieces of a code block: highlighted for its language, or as plain text where the
/// language is unknown.
pub open spec fn block_pieces(lines: Seq<Seq<char>>, lang: Seq<char>) -> Seq<
    Seq<(u8, u8, u8, Seq<char>)>,
> {
    match highlighted(with_line_feeds(lines), lang, "base16-ocean.dark"@) {
        Some(pieces) => pieces,
        None => highlighted_plain(with_line_feeds(lines), "base16-ocean.dark"@),
    }
}

pub open spec fn code_block(lines: Seq<Seq<char>>, lang: Seq<char>) -> Seq<style::LineView> {
    framed(block_pieces(lines, lang), lang)
}

fn line_of_pieces(pieces: &Vec<Piece>) -> (r: Line)
    ensures
        r@ == code_line(piece_views(pieces@)),
{
    let mut spans: Vec<Span> = Vec::new();
    let mut i: usize = 0;
    let ghost all = piece_views(pieces@);
    while i < pieces.len()
        invariant
            i <= pieces@.len(),
            all == piece_views(pieces@),
            style::span_views(spans@) == piece_spans(all.take(i as int)),
        decreases pieces@.len() - i,
    {
        let kept = text::trim_end_char(pieces[i].3.as_str(), '\n');
        proof {
            assert(all.take(i + 1).drop_last() =~= all.take(i as int));
            assert(all.take(i + 1).last() == all[i as int]);
        }
        let ghost before = style::span_views(spans@);
        if !kept.as_str().is_empty() {
            let look = Style::new().fg(Color::Rgb(pieces[i].0, pieces[i].1, pieces[i].2));
            spans.push(Span::styled(kept, look));
            assert(style::span_views(spans@) =~= before.push(style::styled(kept@, look)));
        }
        i += 1;
    }
    assert(all.take(i as int) =~= all);
    if spans.len() == 0 {
        assert(style::span_views(spans@).len() == 0);
        spans.push(Span::raw("".to_owned()));
        assert(style::span_views(spans@) =~= seq![style::raw(""@)]);
    } else {
        assert(style::span_views(spans@).len() > 0);
    }
    Line::plain(spans)
}

/// The lines that show a code block whose lines were cut into `pieces`.
pub fn frame_code(pieces: &Vec<Vec<Piece>>, lang: &str) -> (r: Vec<Line>)
    ensures
        style::line_views(r@) == framed(piece_lines(pieces@), lang@),
        r@.len() == pieces@.len() + 2,
{
    let mut out: Vec<Line> = Vec::new();
    let name = if lang.is_empty() {
        "code"
    } else {
        lang
    };
    let mut label = text::joined(" ", name);
    label.append(" ");
    out.push(Line::styled(label, Style::new().fg(Color::Black).bg(Color::DarkGray)));
    let ghost all = piece_lines(pieces@);
    let ghost shown = all.map_values(|l: Seq<(u8, u8, u8, Seq<char>)>| code_line(l));
    let mut i: usize = 0;
    assert(style::line_views(out@) =~= seq![code_label(lang@)] + shown.take(0));
    while i < pieces.len()
        invariant
            i <= pieces@.len(),
            all == piece_lines(pieces@),
            shown == all.map_values(|l: Seq<(u8, u8, u8, Seq<char>)>| code_line(l)),
            style::line_views(out@) == seq![code_label(lang@)] + shown.take(i as int),
        decreases pieces@.len() - i,
    {
        let ghost before = style::line_views(out@);
        let line = line_of_pieces(&pieces[i]);
        out.push(line);
        proof {
            assert(style::line_views(out@) =~= before.push(line@));
            assert(shown.take(i + 1) =~= shown.take(i as int).push(shown[i as int]));
            assert(before.push(line@) =~= seq![code_label(lang@)] + shown.take(i + 1));
        }
        i += 1;
    }
    let ghost before = style::line_views(out@);
    let rule = Line::styled(text::repeated('─', 24), Style::new().fg(Color::DarkGray));
    out.push(rule);
    proof {
        assert(shown.take(i as int) =~= shown);
        assert(rule@.spans[0].content =~= code_rule().spans[0].content);
        assert(rule@ =~= code_rule());
        assert(style::line_views(out@) =~= before.push(rule@));
        assert(style::line_views(out@) =~= framed(all, lang@));
        assert(style::line_views(out@).len() == out@.len());
    }
    out
}

/// Shows the lines of a fenced code block, each in a line, with the label above and the
/// rule below them. A line is shown as it is, as far as the highlighter comes with it.
pub fn render_code_block(lines: &Vec<String>, lang: &str) -> (r: Vec<Line>)
    ensures
        style::line_views(r@) == code_block(text::texts(lines@), lang@),
        r@.len() == lines@.len() + 2,
        forall|k: int|
            1 <= k <= lines@.len() && !lines@[k - 1]@.contains('\n') ==> text::begins_with(
                lines@[k - 1]@,
                style::joined_spans((#[trigger] r@[k])@.spans),
            ),
{
    let mut fed: Vec<String> = Vec::new();
    let mut i: usize = 0;
    let ghost want = with_line_feeds(text::texts(lines@));
    assert(text::texts(fed@) =~= want.take(0));
    while i < lines.len()
        invariant
            i <= lines@.len(),
            want == with_line_feeds(text::texts(lines@)),
            text::texts(fed@) == want.take(i as int),
        decreases lines@.len() - i,
    {
        let ghost before = text::texts(fed@);
        let line = text::joined(lines[i].as_str(), "\n");
        fed.push(line);
        proof {
            assert(text::texts(fed@) =~= before.push(line@));
            assert(want.take(i + 1) =~= want.take(i as int).push(want[i as int]));
        }
        i += 1;
    }
    assert(want.take(i as int) =~= want);
    assert(text::texts(fed@).len() == fed@.len() && want.len() == lines@.len());
    let pieces = match highlight(&fed, lang, "base16-ocean.dark") {
        Some(p) => p,
        None => highlight_plain(&fed, "base16-ocean.dark"),
    };
    let r = frame_code(&pieces, lang);
    proof {
        assert forall|k: int| 1 <= k <= lines@.len() && !lines@[k - 1]@.contains(
            '\n',
        ) implies text::begins_with(
            lines@[k - 1]@,
            style::joined_spans((#[trigger] r@[k])@.spans),
        ) by {
            let i: int = k - 1;
            assert(text::texts(fed@)[i] == want[i]);
            assert(fed@[i]@ == lines@[i]@ + "\n"@);
            lemma_code_line_shows_the_line(piece_views(pieces@[i]@), lines@[i]@);
            assert(style::line_views(r@)[k] == r@[k]@);
            assert(framed(piece_lines(pieces@), lang@)[k] == code_line(
                piece_views(pieces@[i]@),
            ));
        }
    }
    r
}

/// What a list of lines shows from line `i` on. `fence` is the language of the code block
/// that is open, and `block` holds its lines so far. A block that is never closed is shown
/// as far as it goes.
pub open spec fn shown_from(
    lines: Seq<Seq<char>>,
    i: int,
    fence: Option<Seq<char>>,
    block: Seq<Seq<char>>,
) -> Seq<style::LineView>
    decreases lines.len() - i,
{
    if i < 0 || i >= lines.len() {
        if block.len() == 0 {
            Seq::empty()
        } else {
            code_block(
                block,
                match fence {
                    Some(lang) => lang,
                    None => Seq::empty(),
                },
            )
        }
    } else {
        match (text::after_prefix(lines[i], "```"@), fence) {
            (Some(_), Some(lang)) => code_block(block, lang) + shown_from(
                lines,
                i + 1,
                None,
                Seq::empty(),
            ),
            (Some(rest), None) => shown_from(lines, i + 1, Some(text::trimmed(rest)), block),
            (None, Some(_)) => shown_from(lines, i + 1, fence, block.push(lines[i])),
            (None, None) => seq![line_shown(lines[i])] + shown_from(lines, i + 1, None, block),
        }
    }
}

/// What a message shows: its lines and its code blocks, or one empty line.
pub open spec fn markdown_shown(s: Seq<char>) -> Seq<style::LineView> {
    let lines = shown_from(text::lines_of(s), 0, None, Seq::empty());
    if lines.len() == 0 {
        seq![style::plain_line(Seq::empty())]
    } else {
        lines
    }
}

/// How many lines a list of lines shows as from line `i` on, in a code block with `block`
/// lines so far or outside of one. A block shows two lines more than it holds, also where it
/// is never closed, unless it is empty then. Its fences show none.
pub open spec fn count_from(lines: Seq<Seq<char>>, i: int, fenced: bool, block: nat) -> nat
    decreases lines.len() - i,
{
    if i < 0 || i >= lines.len() {
        if block == 0 {
            0
        } else {
            block + 2
        }
    } else if text::after_prefix(lines[i], "```"@) is Some {
        if fenced {
            block + 2 + count_from(lines, i + 1, false, 0)
        } else {
            count_from(lines, i + 1, true, block)
        }
    } else if fenced {
        count_from(lines, i + 1, true, block + 1)
    } else {
        1 + count_from(lines, i + 1, false, block)
    }
}

/// How many lines a message shows as, which is one at least.
pub open spec fn line_count(s: Seq<char>) -> nat {
    let n = count_from(text::lines_of(s), 0, false, 0);
    if n == 0 {
        1
    } else {
        n
    }
}

/// Shows a message in the markdown subset.
pub fn render_markdown(input: &str) -> (r: Vec<Line>)
    ensures
        style::line_views(r@) == markdown_shown(input@),
        r@.len() == line_count(input@),
{
    let all = text::lines(input);
    let ghost lines = text::texts(all@);
    let mut out: Vec<Line> = Vec::new();
    let mut fence: Option<String> = None;
    let mut block: Vec<String> = Vec::new();
    let ghost total = shown_from(lines, 0, None, Seq::empty());
    let mut i: usize = 0;
    assert(text::texts(block@) =~= Seq::<Seq<char>>::empty());
    assert(style::line_views(out@) + total =~= total);
    while i < all.len()
        invariant
            i <= all@.len(),
            lines == text::texts(all@),
            style::line_views(out@) + shown_from(
                lines,
                i as int,
                match fence {
                    Some(lang) => Some(lang@),
                    None => None,
                },
                text::texts(block@),
            ) == total,
            out@.len() + count_from(lines, i as int, fence is Some, block@.len()) == count_from(
                lines,
                0,
                false,
                0,
            ),
        decreases all@.len() - i,
    {
        let ghost before = style::line_views(out@);
        let ghost held = text::texts(block@);
        assert(lines[i as int] == all@[i as int]@);
        match text::strip_prefix(all[i].as_str(), "```") {
            Some(rest) => match fence {
                Some(lang) => {
                    extend_lines(&mut out, render_code_block(&block, lang.as_str()));
                    block = Vec::new();
                    fence = None;
                    proof {
                        assert(text::texts(block@) =~= Seq::<Seq<char>>::empty());
                        assert(style::line_views(out@) + shown_from(
                            lines,
                            i + 1,
                            None,
                            Seq::empty(),
                        ) =~= before + (code_block(held, lang@) + shown_from(
                            lines,
                            i + 1,
                            None,
                            Seq::empty(),
                        )));
                    }
                },
                None => {
                    fence = Some(text::trim(rest.as_str()));
                },
            },
            None => {
                if fence.is_some() {
                    block.push(all[i].clone());
                    assert(text::texts(block@) =~= held.push(lines[i as int]));
                } else {
                    let line = render_line(all[i].as_str());
                    out.push(line);
                    proof {
                        assert(style::line_views(out@) =~= before.push(line@));
                        assert(style::line_views(out@) + shown_from(lines, i + 1, None, held)
                            =~= before + (seq![line_shown(lines[i as int])] + shown_from(
                            lines,
                            i + 1,
                            None,
                            held,
                        )));
                    }
                }
            },
        }
        i += 1;
    }
    if block.len() > 0 {
        let lang = match fence {
            Some(l) => l,
            None => String::new(),
        };
        extend_lines(&mut out, render_code_block(&block, lang.as_str()));
    } else {
        assert(style::line_views(out@) + Seq::<style::LineView>::empty() =~= style::line_views(
            out@,
        ));
    }
    if out.len() == 0 {
        assert(style::line_views(out@).len() == 0);
        out.push(Line::plain(Vec::new()));
        assert(style::span_views(out@[0].spans@) =~= Seq::<style::SpanView>::empty());
        assert(style::line_views(out@) =~= seq![style::plain_line(Seq::empty())]);
    } else {
        assert(style::line_views(out@).len() > 0);
    }
    out
}

/// Whatever a message holds, it shows at least one line.
pub proof fn law_a_message_shows_a_line(s: Seq<char>)
    ensures
        markdown_shown(s).len() > 0,
{
}

// ---------------------------------------------------------------------------
// Fuzzy matching
// ---------------------------------------------------------------------------

/// Positions in `t` that rise and hold the characters of `q` one by one.
pub open spec fn spells(q: Seq<char>, t: Seq<char>, at: Seq<int>) -> bool {
    &&& at.len() == q.len()
    &&& forall|i: int| 0 <= i < at.len() ==> 0 <= #[trigger] at[i] < t.len() && t[at[i]] == q[i]
    &&& forall|i: int, j: int| 0 <= i < j < at.len() ==> at[i] < at[j]
}

/// The characters of `q` occur in `t` in the same order, not necessarily side by side.
pub open spec fn is_subsequence(q: Seq<char>, t: Seq<char>) -> bool {
    exists|at: Seq<int>| spells(q, t, at)
}

/// The score of a query against a target, both in lower case. Higher is better. A target
/// that holds the query scores 100, or 150 where it begins with it, less the bytes that it
/// has more than the query; one that holds the query's characters in order scores 10 for
/// each, less its own bytes. Any other target does not match.
pub open spec fn fuzzy_rank(q: Seq<char>, t: Seq<char>) -> Option<i64> {
    if text::contains_text(t, q) {
        let base: int = if text::begins_with(t, q) {
            150
        } else {
            100
        };
        Some((base - (text::utf8_len(t) - text::utf8_len(q))) as i64)
    } else if is_subsequence(q, t) {
        Some((q.len() * 10 - text::utf8_len(t)) as i64)
    } else {
        None
    }
}

/// The greedy scan: how far the characters of `q` from `i` on are found in `t` from `k` on.
spec fn scan(q: Seq<char>, i: int, t: Seq<char>, k: int) -> bool
    decreases t.len() - k,
{
    if i >= q.len() {
        true
    } else if k < 0 || k >= t.len() {
        false
    } else if t[k] == q[i] {
        scan(q, i + 1, t, k + 1)
    } else {
        scan(q, i, t, k + 1)
    }
}

proof fn lemma_scan_finds(q: Seq<char>, i: int, t: Seq<char>, k: int) -> (at: Seq<int>)
    requires
        0 <= i <= q.len(),
        0 <= k,
        scan(q, i, t, k),
    ensures
        spells(q.skip(i), t, at),
        forall|j: int| 0 <= j < at.len() ==> k <= #[trigger] at[j],
    decreases t.len() - k,
{
    if i >= q.len() {
        Seq::empty()
    } else if t[k] == q[i] {
        let rest = lemma_scan_finds(q, i + 1, t, k + 1);
        let at = seq![k] + rest;
        assert forall|j: int| 0 <= j < at.len() implies 0 <= #[trigger] at[j] < t.len() && t[at[j]]
            == q.skip(i)[j] && k <= at[j] by {
            if j > 0 {
                assert(at[j] == rest[j - 1]);
                assert(q.skip(i)[j] == q.skip(i + 1)[j - 1]);
            }
        }
        assert forall|a: int, b: int| 0 <= a < b < at.len() implies at[a] < at[b] by {
            assert(at[b] == rest[b - 1]);
            if a > 0 {
                assert(at[a] == rest[a - 1]);
            }
        }
        at
    } else {
        lemma_scan_finds(q, i, t, k + 1)
    }
}

proof fn lemma_scan_misses_nothing(q: Seq<char>, i: int, t: Seq<char>, k: int, at: Seq<int>)
    requires
        0 <= i <= q.len(),
        0 <= k,
        spells(q.skip(i), t, at),
        forall|j: int| 0 <= j < at.len() ==> k <= #[trigger] at[j],
    ensures
        scan(q, i, t, k),
    decreases t.len() - k,
{
    if i < q.len() {
        assert(at[0] < t.len() && t[at[0]] == q.skip(i)[0]);
        if t[k] == q[i] {
            let rest = at.drop_first();
            assert forall|j: int| 0 <= j < rest.len() implies 0 <= #[trigger] rest[j] < t.len()
                && t[rest[j]] == q.skip(i + 1)[j] && k + 1 <= rest[j] by {
                assert(rest[j] == at[j + 1]);
                assert(at[0] < at[j + 1]);
                assert(q.skip(i)[j + 1] == q.skip(i + 1)[j]);
            }
            assert forall|a: int, b: int| 0 <= a < b < rest.len() implies rest[a] < rest[b] by {
                assert(at[a + 1] < at[b + 1]);
            }
            lemma_scan_misses_nothing(q, i + 1, t, k + 1, rest);
        } else {
            assert forall|j: int| 0 <= j < at.len() implies k + 1 <= #[trigger] at[j] by {
                if at[j] == k {
                    if j > 0 {
                        assert(at[0] < at[j]);
                    }
                    assert(t[at[j]] == q.skip(i)[j]);
                }
            }
            lemma_scan_misses_nothing(q, i, t, k + 1, at);
        }
    }
}

proof fn lemma_scan(q: Seq<char>, t: Seq<char>)
    ensures
        scan(q, 0, t, 0) == is_subsequence(q, t),
{
    assert(q.skip(0) =~= q);
    if scan(q, 0, t, 0) {
        let at = lemma_scan_finds(q, 0, t, 0);
    }
    if is_subsequence(q, t) {
        let at = choose|at: Seq<int>| spells(q, t, at);
        lemma_scan_misses_nothing(q, 0, t, 0, at);
    }
}

fn subsequence(q: &Vec<char>, t: &Vec<char>) -> (r: bool)
    ensures
        r == is_subsequence(q@, t@),
{
    let mut i: usize = 0;
    let mut k: usize = 0;
    proof {
        lemma_scan(q@, t@);
    }
    while k < t.len() && i < q.len()
        invariant
            i <= q@.len(),
            k <= t@.len(),
            scan(q@, 0, t@, 0) == scan(q@, i as int, t@, k as int),
        decreases t@.len() - k,
    {
        if t[k] == q[i] {
            i += 1;
        }
        k += 1;
    }
    i == q.len()
}

/// The score of a query against a target that are both in lower case already.
pub fn fuzzy_score_lowered(q: &str, t: &str) -> (r: Option<i64>)
    ensures
        r == fuzzy_rank(q@, t@),
        1 <= q@.len() <= 16 && vstd::utf8::encode_utf8(t@).len() <= i64::MAX ==> (
        r matches Some(x) ==> x <= 150 && (x == 150 <==> t@ == q@)),
{
    let t_len: i128 = text::byte_len(t) as i128;
    let q_len: i128 = text::byte_len(q) as i128;
    proof {
        if 1 <= q@.len() <= 16 && t_len <= i64::MAX {
            law_fuzzy_exact_match_is_never_outranked(q@, t@);
        }
    }
    if text::contains(t, q) {
        let base: i128 = if text::starts_with(t, q) {
            150
        } else {
            100
        };
        let score: i128 = base - (t_len - q_len);
        return Some(score as i64);
    }
    let qs = text::chars_of(q);
    let ts = text::chars_of(t);
    if subsequence(&qs, &ts) {
        let score: i128 = qs.len() as i128 * 10 - t_len;
        Some(score as i64)
    } else {
        None
    }
}

/// The score of a query against a target, whatever their case. The empty query matches
/// everything, with a score of nothing. A query of up to 16 characters scores 150 against
/// itself, and less against any other target.
pub fn fuzzy_score(query: &str, target: &str) -> (r: Option<i64>)
    ensures
        query@.len() > 0 && 1 <= text::lowercased(query@).len() <= 16
            && vstd::utf8::encode_utf8(text::lowercased(target@)).len() <= i64::MAX ==> (
        r matches Some(x) ==> x <= 150 && (x == 150 <==> text::lowercased(target@)
            == text::lowercased(query@))),
        query@.len() == 0 ==> r == Some(0i64),
        query@.len() > 0 ==> r == fuzzy_rank(
            text::lowercased(query@),
            text::lowercased(target@),
        ),
{
    if query.is_empty() {
        return Some(0);
    }
    let q = text::lowercase(query);
    let t = text::lowercase(target);
    fuzzy_score_lowered(q.as_str(), t.as_str())
}

/// A target matches exactly where it holds the characters of the query in order.
pub proof fn law_fuzzy_matches_subsequences(q: Seq<char>, t: Seq<char>)
    ensures
        fuzzy_rank(q, t) is Some <==> is_subsequence(q, t),
{
    if text::contains_text(t, q) {
        let k = choose|k: int| text::occurs_at(t, q, k);
        let at = Seq::new(q.len(), |i: int| k + i);
        assert forall|i: int| 0 <= i < at.len() implies 0 <= #[trigger] at[i] < t.len() && t[at[i]]
            == q[i] by {
            assert(t.subrange(k, k + q.len())[i] == t[k + i]);
        }
        assert(spells(q, t, at));
    }
}

/// No target outranks one that is the query itself: a query of up to 16 characters scores
/// 150 against itself, and less against any other target.
pub proof fn law_fuzzy_exact_match_is_never_outranked(q: Seq<char>, t: Seq<char>)
    requires
        1 <= q.len() <= 16,
        vstd::utf8::encode_utf8(q).len() <= usize::MAX,
        vstd::utf8::encode_utf8(t).len() <= usize::MAX,
        vstd::utf8::encode_utf8(t).len() <= i64::MAX,
    ensures
        fuzzy_rank(q, q) == Some(150i64),
        fuzzy_rank(q, t) matches Some(x) ==> x <= 150 && (x == 150 <==> t == q),
{
    assert(q.subrange(0, q.len() as int) =~= q);
    assert(q.take(q.len() as int) =~= q);
    assert(text::occurs_at(q, q, 0));
    if text::contains_text(t, q) {
        let k = choose|k: int| text::occurs_at(t, q, k);
        let before = t.take(k);
        let after = t.skip(k + q.len());
        assert(t =~= before + (q + after));
        text::lemma_bytes_add_up(before, q + after);
        text::lemma_bytes_add_up(q, after);
        text::lemma_bytes_add_up(after, q);
        if before.len() == 0 && after.len() == 0 {
            assert(t =~= q);
        }
    } else if is_subsequence(q, t) {
        let at = choose|at: Seq<int>| spells(q, t, at);
        lemma_spelled_is_no_shorter(q, t, at, q.len() as int);
        text::lemma_bytes_add_up(t, q);
    }
}

proof fn lemma_spelled_is_no_shorter(q: Seq<char>, t: Seq<char>, at: Seq<int>, n: int)
    requires
        spells(q, t, at),
        0 <= n <= q.len(),
    ensures
        n <= t.len(),
        n > 0 ==> n - 1 <= at[n - 1],
    decreases n,
{
    if n > 0 {
        lemma_spelled_is_no_shorter(q, t, at, n - 1);
        if n > 1 {
            assert(at[n - 2] < at[n - 1]);
        }
        assert(0 <= at[n - 1] < t.len());
    }
}

/// Of two targets of the same size, the one that begins with the query scores 50 more than
/// the one that only holds it.
pub proof fn law_fuzzy_prefix_bonus(q: Seq<char>, t: Seq<char>, u: Seq<char>)
    requires
        text::begins_with(t, q),
        text::contains_text(u, q),
        !text::begins_with(u, q),
        text::utf8_len(t) == text::utf8_len(u),
        text::utf8_len(t) <= i64::MAX,
        text::utf8_len(q) <= i64::MAX - 150,
    ensures
        fuzzy_rank(q, t) is Some,
        fuzzy_rank(q, u) is Some,
        fuzzy_rank(q, t)->0 == fuzzy_rank(q, u)->0 + 50,
{
    assert(t.subrange(0, q.len() as int) =~= t.take(q.len() as int));
    assert(text::occurs_at(t, q, 0));
}

/// What the scores are: a target that holds the query scores 100, or 150 where it begins with
/// it, less one for every byte around it. One that only spells it out scores ten for each
/// character of the query, less one for every byte that it has.
pub proof fn law_fuzzy_scores(q: Seq<char>, before: Seq<char>, after: Seq<char>, t: Seq<char>)
    requires
        vstd::utf8::encode_utf8(before + q + after).len() <= usize::MAX,
        vstd::utf8::encode_utf8(before + q + after).len() <= i64::MAX,
        vstd::utf8::encode_utf8(t).len() <= usize::MAX,
        vstd::utf8::encode_utf8(t).len() <= i64::MAX,
        q.len() * 10 <= i64::MAX,
    ensures
        fuzzy_rank(q, q + after) == Some(
            (150 - vstd::utf8::encode_utf8(after).len()) as i64,
        ),
        before.len() > 0 && !text::begins_with(before + q + after, q) ==> fuzzy_rank(
            q,
            before + q + after,
        ) == Some(
            (100 - vstd::utf8::encode_utf8(before).len() - vstd::utf8::encode_utf8(
                after,
            ).len()) as i64,
        ),
        is_subsequence(q, t) && !text::contains_text(t, q) ==> fuzzy_rank(q, t) == Some(
            (q.len() * 10 - vstd::utf8::encode_utf8(t).len()) as i64,
        ),
{
    let s = before + q + after;
    assert(s =~= before + (q + after));
    text::lemma_bytes_add_up(before, q + after);
    text::lemma_bytes_add_up(q, after);
    assert(s.subrange(before.len() as int, (before.len() + q.len()) as int) =~= q);
    assert(text::occurs_at(s, q, before.len() as int));
    assert((q + after).subrange(0, q.len() as int) =~= q);
    assert((q + after).take(q.len() as int) =~= q);
    assert(text::occurs_at(q + after, q, 0));
}

// ---------------------------------------------------------------------------
// Display width
// ---------------------------------------------------------------------------

/// The columns that unicode-width gives a text.
pub uninterp spec fn text_width(s: Seq<char>) -> usize;

/// `UnicodeWidthStr::width` of unicode-width, by the name of its result.
#[verifier::external_body]
fn width_of(s: &str) -> (r: usize)
    ensures
        r == text_width(s@),
{
    unicode_width::UnicodeWidthStr::width(s)
}

/// The columns that unicode-width gives a character, or nothing for a control character.
pub uninterp spec fn char_width(c: char) -> Option<usize>;

/// `UnicodeWidthChar::width` of unicode-width, by the name of its result.
#[verifier::external_body]
fn width_of_char(c: char) -> (r: Option<usize>)
    ensures
        r == char_width(c),
{
    unicode_width::UnicodeWidthChar::width(c)
}

/// The columns that a character is taken to fill.
pub open spec fn columns(c: char) -> usize {
    match char_width(c) {
        Some(w) => w,
        None => 1,
    }
}

/// The characters from `i` on that fit into `room` columns, and an ellipsis where one does
/// not fit.
pub open spec fn cut(s: Seq<char>, widths: Seq<usize>, i: int, room: int) -> Seq<char>
    decreases s.len() - i,
{
    if i < 0 || i >= s.len() {
        Seq::empty()
    } else if widths[i] > room {
        seq!['…']
    } else {
        seq![s[i]] + cut(s, widths, i + 1, room - widths[i])
    }
}

/// The characters that fit into `room` columns, by the columns that each of them fills,
/// with an ellipsis where one does not fit.
pub fn cut_to_width(s: &Vec<char>, widths: &Vec<usize>, room: usize) -> (r: String)
    requires
        widths@.len() == s@.len(),
    ensures
        r@ == cut(s@, widths@, 0, room as int),
{
    let mut out = String::new();
    let mut left: usize = room;
    let mut i: usize = 0;
    assert(out@ + cut(s@, widths@, 0, room as int) =~= cut(s@, widths@, 0, room as int));
    while i < s.len()
        invariant
            i <= s@.len(),
            widths@.len() == s@.len(),
            out@ + cut(s@, widths@, i as int, left as int) == cut(s@, widths@, 0, room as int),
        decreases s@.len() - i,
    {
        let ghost before = out@;
        if widths[i] > left {
            out.push('…');
            assert(out@ =~= before + cut(s@, widths@, i as int, left as int));
            return out;
        }
        out.push(s[i]);
        assert(out@ + cut(s@, widths@, i + 1, left - widths@[i as int]) =~= before + cut(
            s@,
            widths@,
            i as int,
            left as int,
        ));
        left = left - widths[i];
        i += 1;
    }
    assert(out@ + cut(s@, widths@, i as int, left as int) =~= out@);
    out
}

/// The columns that a run of characters fills.
pub open spec fn total_width(widths: Seq<usize>) -> int
    decreases widths.len(),
{
    if widths.len() == 0 {
        0
    } else {
        widths[0] + total_width(widths.drop_first())
    }
}

/// What is cut off is shown by an ellipsis, and what is kept is the longest beginning of the
/// text that fits into the room there was.
pub proof fn law_cut_fits(s: Seq<char>, widths: Seq<usize>, i: int, room: int) -> (n: int)
    requires
        widths.len() == s.len(),
        0 <= i <= s.len(),
        0 <= room,
    ensures
        i <= n <= s.len(),
        total_width(widths.subrange(i, n)) <= room,
        n < s.len() ==> total_width(widths.subrange(i, n + 1)) > room,
        cut(s, widths, i, room) == (if n < s.len() {
            s.subrange(i, n).push('…')
        } else {
            s.subrange(i, n)
        }),
    decreases s.len() - i,
{
    if i >= s.len() {
        assert(cut(s, widths, i, room) =~= s.subrange(i, i));
        i
    } else if widths[i] > room {
        assert(s.subrange(i, i).push('…') =~= seq!['…']);
        let one = widths.subrange(i, i + 1);
        assert(one.drop_first() =~= Seq::<usize>::empty());
        reveal_with_fuel(total_width, 2);
        i
    } else {
        let n = law_cut_fits(s, widths, i + 1, room - widths[i]);
        if n < s.len() {
            assert(widths.subrange(i, n + 1).drop_first() =~= widths.subrange(i + 1, n + 1));
        }
        assert(widths.subrange(i, n).drop_first() =~= widths.subrange(i + 1, n));
        assert(seq![s[i]] + s.subrange(i + 1, n) =~= s.subrange(i, n));
        assert(seq![s[i]] + s.subrange(i + 1, n).push('…') =~= s.subrange(i, n).push('…'));
        n
    }
}

/// The columns that are left for text beside an ellipsis.
pub open spec fn room_beside_ellipsis(max: usize) -> int {
    if max == 0 {
        0
    } else {
        max - 1
    }
}

/// What is left of a text in `max` columns.
pub open spec fn truncated(s: Seq<char>, max: usize) -> Seq<char> {
    if text_width(s) <= max {
        s
    } else {
        cut(s, s.map_values(|c: char| columns(c)), 0, room_beside_ellipsis(max))
    }
}

/// A text that fits is not cut. Of any other one the longest beginning is left that fills one
/// column less than there are, with an ellipsis behind it where something is missing.
pub proof fn law_long_texts_are_cut(s: Seq<char>, max: usize) -> (n: int)
    requires
        max > 0,
    ensures
        text_width(s) <= max ==> truncated(s, max) == s,
        text_width(s) > max ==> ({
            let widths = s.map_values(|c: char| columns(c));
            &&& 0 <= n <= s.len()
            &&& total_width(widths.take(n)) <= max - 1
            &&& n < s.len() ==> total_width(widths.take(n + 1)) > max - 1
            &&& truncated(s, max) == (if n < s.len() {
                s.take(n).push('…')
            } else {
                s
            })
        }),
{
    let widths = s.map_values(|c: char| columns(c));
    let n = law_cut_fits(s, widths, 0, max - 1);
    assert(widths.subrange(0, n) =~= widths.take(n));
    assert(s.subrange(0, n) =~= s.take(n));
    if n < s.len() {
        assert(widths.subrange(0, n + 1) =~= widths.take(n + 1));
    } else {
        assert(s.take(n) =~= s);
    }
    n
}

/// The text, cut so that it fills no more than `max` columns.
pub fn truncate(s: &str, max: usize) -> (r: String)
    ensures
        r@ == truncated(s@, max),
        text_width(s@) <= max ==> r@ == s@,
        text_width(s@) > max ==> r@ == cut(
            s@,
            s@.map_values(|c: char| columns(c)),
            0,
            room_beside_ellipsis(max),
        ),
{
    if width_of(s) <= max {
        return s.to_owned();
    }
    let v = text::chars_of(s);
    let mut widths: Vec<usize> = Vec::new();
    let ghost want = s@.map_values(|c: char| columns(c));
    let mut i: usize = 0;
    while i < v.len()
        invariant
            i <= v@.len(),
            v@ == s@,
            want == s@.map_values(|c: char| columns(c)),
            widths@ == want.take(i as int),
        decreases v@.len() - i,
    {
        let w: usize = match width_of_char(v[i]) {
            Some(w) => w,
            None => 1,
        };
        widths.push(w);
        assert(want.take(i + 1) =~= want.take(i as int).push(want[i as int]));
        i += 1;
    }
    assert(widths@ =~= want);
    cut_to_width(&v, &widths, max.saturating_sub(1))
}

} // verus!
