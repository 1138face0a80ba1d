//! What is seen of a message: which of its words are links, which runs stand in which style,
//! and how its lines are laid out.

use crate::markdown;
use crate::markdown::{inline_spans, links, mark_at, spans_from, Mark};
use crate::style;
use crate::style::{Color, LineView, SpanView, Style};
use crate::text;
use vstd::prelude::*;

verus! {

/// Nothing is set.
pub open spec fn bare() -> Style {
    Style {
        fg: None,
        bg: None,
        underline_color: None,
        bold: false,
        dim: false,
        italic: false,
        underlined: false,
        crossed_out: false,
    }
}

/// A run of text in a style.
pub open spec fn run(content: Seq<char>, look: Style) -> SpanView {
    SpanView { content, style: look }
}

/// A run of text in a colour.
pub open spec fn tinted(content: Seq<char>, c: Color) -> SpanView {
    SpanView { content, style: Style { fg: Some(c), ..bare() } }
}

// ---------------------------------------------------------------------------
// Links
// ---------------------------------------------------------------------------

/// A web address by itself: cyan and underlined.
pub open spec fn link(word: Seq<char>) -> SpanView {
    SpanView {
        content: word,
        style: Style { fg: Some(Color::Cyan), underlined: true, ..bare() },
    }
}

/// A text begins with `http://` or `https://`.
pub open spec fn is_address(s: Seq<char>) -> bool {
    ||| s.len() >= 7 && s.take(7) == seq!['h', 't', 't', 'p', ':', '/', '/']
    ||| s.len() >= 8 && s.take(8) == seq!['h', 't', 't', 'p', 's', ':', '/', '/']
}

/// `http` stands at a position.
pub open spec fn is_http_at(s: Seq<char>, k: int) -> bool {
    0 <= k <= s.len() - 4 && s[k] == 'h' && s[k + 1] == 't' && s[k + 2] == 't' && s[k + 3] == 'p'
}

/// There is white space in a text from a position on.
pub open spec fn has_space_from(s: Seq<char>, k: int) -> bool {
    exists|j: int| k <= j < s.len() && text::is_white_space(#[trigger] s[j])
}

proof fn lemma_http(s: Seq<char>, k: int)
    ensures
        text::occurs_at(s, seq!['h', 't', 't', 'p'], k) == is_http_at(s, k),
{
    let http = seq!['h', 't', 't', 'p'];
    if is_http_at(s, k) {
        assert(s.subrange(k, k + 4) =~= http);
    }
    if text::occurs_at(s, http, k) {
        let sub = s.subrange(k, k + 4);
        assert(sub[0] == s[k] && sub[1] == s[k + 1] && sub[2] == s[k + 2] && sub[3] == s[k + 3]);
    }
}

proof fn lemma_address(s: Seq<char>)
    ensures
        markdown::is_web_address(s) == is_address(s),
        is_address(s) ==> is_http_at(s, 0),
{
    reveal_strlit("http://");
    reveal_strlit("https://");
    assert("http://"@ =~= seq!['h', 't', 't', 'p', ':', '/', '/']);
    assert("https://"@ =~= seq!['h', 't', 't', 'p', 's', ':', '/', '/']);
    if s.len() >= 7 && s.take(7) == seq!['h', 't', 't', 'p', ':', '/', '/'] {
        let t = s.take(7);
        assert(t[0] == s[0] && t[1] == s[1] && t[2] == s[2] && t[3] == s[3]);
    }
    if s.len() >= 8 && s.take(8) == seq!['h', 't', 't', 'p', 's', ':', '/', '/'] {
        let t = s.take(8);
        assert(t[0] == s[0] && t[1] == s[1] && t[2] == s[2] && t[3] == s[3]);
    }
}

/// What a text is cut into: the spans put together are the text, none of them is empty, and
/// one is a link exactly where it begins with `http://` or `https://`, else it is plain.
/// Within a span `http` stands at the beginning or nowhere, and behind it there is no white
/// space. A span ends only where the next one begins with `http`, or, where it begins so
/// itself, at white space.
pub proof fn law_addresses_and_nothing_else_are_links(s: Seq<char>)
    ensures
        style::joined_spans(links(s)) == s,
        forall|i: int|
            0 <= i < links(s).len() - 1 ==> {
                let next = links(s)[i + 1].content;
                if is_http_at((#[trigger] links(s)[i]).content, 0) {
                    text::is_white_space(next[0])
                } else {
                    is_http_at(next, 0)
                }
            },
        forall|i: int|
            0 <= i < links(s).len() ==> {
                let span = #[trigger] links(s)[i];
                &&& span.content.len() > 0
                &&& span == (if is_address(span.content) {
                    link(span.content)
                } else {
                    run(span.content, bare())
                })
                &&& is_http_at(span.content, 0) ==> !has_space_from(span.content, 0)
                &&& forall|k: int| 0 < k && !is_http_at(span.content, 0) ==> !#[trigger] is_http_at(
                    span.content,
                    k,
                )
            },
    decreases s.len(),
{
    markdown::law_links_keep_the_text(s);
    let http = seq!['h', 't', 't', 'p'];
    text::lemma_find_from(s, http, 0);
    match text::find_from(s, http, 0) {
        None => {
            if s.len() > 0 {
                assert(links(s) =~= seq![style::raw(s)]);
                lemma_address(s);
                lemma_http(s, 0);
                assert(!is_http_at(s, 0));
                assert forall|k: int| 0 < k implies !#[trigger] is_http_at(s, k) by {
                    lemma_http(s, k);
                    if 0 <= k {
                        assert(!text::occurs_at(s, http, k));
                    }
                }
            }
        },
        Some(k) => {
            lemma_http(s, k);
            text::lemma_next_space(s, k + 4);
            let end = text::next_space(s, k + 4);
            law_addresses_and_nothing_else_are_links(s.skip(end));
            let word = s.subrange(k, end);
            lemma_address(word);
            assert(is_http_at(word, 0));
            assert forall|j: int| 0 <= j < word.len() implies !text::is_white_space(
                #[trigger] word[j],
            ) by {
                assert(word[j] == s[k + j]);
            }
            let plain = s.take(k);
            lemma_address(plain);
            assert forall|j: int| 0 <= j implies !#[trigger] is_http_at(plain, j) by {
                if is_http_at(plain, j) {
                    assert(plain[j] == s[j] && plain[j + 1] == s[j + 1] && plain[j + 2] == s[j + 2]
                        && plain[j + 3] == s[j + 3]);
                    lemma_http(s, j);
                    assert(!text::occurs_at(s, http, j));
                }
            }
            let before = if k > 0 {
                seq![style::raw(plain)]
            } else {
                Seq::empty()
            };
            let rest = links(s.skip(end));
            let all = before + seq![markdown::link_span(word)] + rest;
            assert(links(s) == all);
            assert forall|i: int| 0 <= i < all.len() implies {
                let span = #[trigger] all[i];
                &&& span.content.len() > 0
                &&& span == (if is_address(span.content) {
                    link(span.content)
                } else {
                    run(span.content, bare())
                })
                &&& is_http_at(span.content, 0) ==> !has_space_from(span.content, 0)
                &&& forall|k: int| 0 < k && !is_http_at(span.content, 0) ==> !#[trigger] is_http_at(
                    span.content,
                    k,
                )
            } by {
                if i >= before.len() + 1 {
                    assert(all[i] == rest[i - before.len() - 1]);
                } else if i == before.len() {
                    assert(all[i] == markdown::link_span(word));
                } else {
                    assert(all[i] == style::raw(plain));
                    assert(!is_http_at(plain, 0));
                }
            }
            if rest.len() > 0 {
                reveal_with_fuel(style::joined_spans, 2);
                assert(style::joined_spans(rest) == rest[0].content + style::joined_spans(
                    rest.drop_first(),
                ));
                assert(rest[0].content[0] == s.skip(end)[0]);
                assert(s.skip(end)[0] == s[end]);
            }
            assert forall|i: int| 0 <= i < all.len() - 1 implies {
                let next = all[i + 1].content;
                if is_http_at((#[trigger] all[i]).content, 0) {
                    text::is_white_space(next[0])
                } else {
                    is_http_at(next, 0)
                }
            } by {
                if i >= before.len() + 1 {
                    assert(all[i] == rest[i - before.len() - 1]);
                    assert(all[i + 1] == rest[i - before.len()]);
                } else if i == before.len() {
                    assert(all[i] == markdown::link_span(word));
                    assert(all[i + 1] == rest[0]);
                } else {
                    assert(all[i] == style::raw(plain));
                    assert(all[i + 1] == markdown::link_span(word));
                    assert(!is_http_at(plain, 0));
                }
            }
        },
    }
}

/// An address that stands between other texts is a link by itself: it goes to the next white
/// space, and no `http` before it reaches up to it.
pub proof fn law_an_address_is_a_link(before: Seq<char>, word: Seq<char>, after: Seq<char>)
    requires
        is_address(word),
        !has_space_from(word, 0),
        after.len() == 0 || text::is_white_space(after[0]),
        forall|k: int| #[trigger] is_http_at(before, k) ==> has_space_from(before, k + 4),
    ensures
        links(before + word + after).contains(link(word)),
    decreases before.len(),
{
    let s = before + word + after;
    let n = before.len() as int;
    let http = seq!['h', 't', 't', 'p'];
    lemma_address(word);
    assert(is_http_at(s, n)) by {
        assert(s[n] == word[0] && s[n + 1] == word[1] && s[n + 2] == word[2] && s[n + 3]
            == word[3]);
    }
    lemma_http(s, n);
    text::lemma_find_from(s, http, 0);
    let k = text::find_from(s, http, 0)->0;
    assert(text::find_from(s, http, 0) is Some);
    assert(k <= n);
    lemma_http(s, k);
    text::lemma_next_space(s, k + 4);
    let end = text::next_space(s, k + 4);
    let head = if k > 0 {
        seq![style::raw(s.take(k))]
    } else {
        Seq::empty()
    };
    let middle = head + seq![markdown::link_span(s.subrange(k, end))];
    let rest = links(s.skip(end));
    assert(links(s) == middle + rest);
    if k == n {
        assert forall|j: int| n <= j < n + word.len() implies !text::is_white_space(
            #[trigger] s[j],
        ) by {
            assert(s[j] == word[j - n]);
        }
        if after.len() > 0 {
            assert(s[n + word.len()] == after[0]);
        }
        assert(end == n + word.len());
        assert(s.subrange(k, end) =~= word);
        assert(links(s)[head.len() as int] == link(word));
    } else {
        // `http` does not overlap itself.
        if k + 4 > n {
            assert(s[n] == 'h');
        }
        assert(is_http_at(before, k)) by {
            assert(before[k] == s[k] && before[k + 1] == s[k + 1] && before[k + 2] == s[k + 2]
                && before[k + 3] == s[k + 3]);
        }
        let j = choose|j: int| k + 4 <= j < before.len() && text::is_white_space(
            #[trigger] before[j],
        );
        assert(s[j] == before[j]);
        assert(end <= j);
        let shorter = before.skip(end);
        assert(s.skip(end) =~= shorter + word + after);
        assert forall|i: int| #[trigger] is_http_at(shorter, i) implies has_space_from(
            shorter,
            i + 4,
        ) by {
            assert(before[end + i] == shorter[i] && before[end + i + 1] == shorter[i + 1]
                && before[end + i + 2] == shorter[i + 2] && before[end + i + 3] == shorter[i + 3]);
            assert(is_http_at(before, end + i));
            let j = choose|j: int| end + i + 4 <= j < before.len() && text::is_white_space(
                #[trigger] before[j],
            );
            assert(shorter[j - end] == before[j]);
        }
        law_an_address_is_a_link(shorter, word, after);
        let i = choose|i: int| 0 <= i < rest.len() && rest[i] == link(word);
        assert(links(s)[middle.len() + i] == link(word));
    }
}

// ---------------------------------------------------------------------------
// Marks
// ---------------------------------------------------------------------------

/// The marks inside a line.
pub enum Delimiter {
    Bold,
    Strike,
    Underline,
    Code,
    Italic,
}

impl Delimiter {
    /// What is written on both sides of the text.
    pub open spec fn sign(self) -> Seq<char> {
        match self {
            Delimiter::Bold => seq!['*', '*'],
            Delimiter::Strike => seq!['~', '~'],
            Delimiter::Underline => seq!['_', '_'],
            Delimiter::Code => seq!['`'],
            Delimiter::Italic => seq!['*'],
        }
    }

    /// How the text between them looks.
    pub open spec fn look(self) -> Style {
        match self {
            Delimiter::Bold => Style { bold: true, ..bare() },
            Delimiter::Strike => Style { crossed_out: true, ..bare() },
            Delimiter::Underline => Style { underlined: true, ..bare() },
            Delimiter::Code => Style { fg: Some(Color::Rgb(255, 165, 0)), ..bare() },
            Delimiter::Italic => Style { italic: true, ..bare() },
        }
    }

    /// A text that the delimiter can stand around: the closing one is the first behind it.
    /// Only code may be empty.
    pub open spec fn may_hold(self, body: Seq<char>) -> bool {
        match self {
            Delimiter::Code => !body.contains('`'),
            Delimiter::Italic => body.len() > 0 && !body.contains('*'),
            _ => {
                &&& body.len() > 0
                &&& body.last() != self.sign()[0]
                &&& forall|i: int|
                    0 <= i < body.len() - 1 ==> !(#[trigger] body[i] == self.sign()[0] && body[i + 1]
                        == self.sign()[0])
            },
        }
    }
}

/// A run of text between delimiters, and the text without marks before it.
pub struct Marked {
    pub before: Seq<char>,
    pub delimiter: Delimiter,
    pub body: Seq<char>,
}

/// A text in which no delimiter stands.
pub open spec fn is_plain(s: Seq<char>) -> bool {
    !s.contains('*') && !s.contains('~') && !s.contains('_') && !s.contains('`')
}

/// A line that is made of some marked runs and the text without marks behind the last one.
pub open spec fn written(runs: Seq<Marked>, tail: Seq<char>) -> Seq<char>
    decreases runs.len(),
{
    if runs.len() == 0 {
        tail
    } else {
        let m = runs[0];
        m.before + m.delimiter.sign() + m.body + m.delimiter.sign() + written(
            runs.drop_first(),
            tail,
        )
    }
}

/// Such a line as it is seen: the text outside the runs with its links, and each run in its
/// style, without the delimiters.
pub open spec fn seen(runs: Seq<Marked>, tail: Seq<char>) -> Seq<SpanView>
    decreases runs.len(),
{
    if runs.len() == 0 {
        links(tail)
    } else {
        let m = runs[0];
        links(m.before) + seq![run(m.body, m.delimiter.look())] + seen(runs.drop_first(), tail)
    }
}

pub open spec fn are_marked(runs: Seq<Marked>) -> bool {
    forall|i: int|
        0 <= i < runs.len() ==> is_plain((#[trigger] runs[i]).before) && runs[i].delimiter.may_hold(
            runs[i].body,
        )
}

proof fn lemma_occurs_shift(p: Seq<char>, t: Seq<char>, d: Seq<char>, i: int)
    requires
        0 <= i,
    ensures
        text::occurs_at(p + t, d, p.len() + i) == text::occurs_at(t, d, i),
{
    let s = p + t;
    let n = p.len() as int;
    if i + d.len() <= t.len() {
        assert(s.subrange(n + i, n + i + d.len()) =~= t.subrange(i, i + d.len()));
    }
}

proof fn lemma_doubled_shift(p: Seq<char>, t: Seq<char>, i: int, c: char, look: Style)
    requires
        0 <= i < t.len(),
    ensures
        ({
            let n = p.len() as int;
            markdown::doubled_mark(p + t, n + i, c, look) == match markdown::doubled_mark(
                t,
                i,
                c,
                look,
            ) {
                Some(m) => Some(
                    Mark { lo: n + m.lo, hi: n + m.hi, next: n + m.next, style: m.style },
                ),
                None => None,
            }
        }),
{
    let n = p.len() as int;
    let s = p + t;
    assert(s.skip(n) =~= t);
    lemma_occurs_shift(p, t, seq![c, c], i);
    markdown::lemma_find_skip(s, seq![c, c], n, n + i + 2);
}

proof fn lemma_single_shift(p: Seq<char>, t: Seq<char>, i: int, c: char, look: Style)
    requires
        0 <= i < t.len(),
    ensures
        ({
            let n = p.len() as int;
            markdown::single_mark(p + t, n + i, c, look) == match markdown::single_mark(
                t,
                i,
                c,
                look,
            ) {
                Some(m) => Some(
                    Mark { lo: n + m.lo, hi: n + m.hi, next: n + m.next, style: m.style },
                ),
                None => None,
            }
        }),
{
    let n = p.len() as int;
    let s = p + t;
    assert(s.skip(n) =~= t);
    text::lemma_first_index_skip(s, c, n, n + i + 1);
}

/// What stands before a position does not change how the line goes on from there.
proof fn lemma_spans_shift(p: Seq<char>, t: Seq<char>, start: int, i: int)
    requires
        0 <= start <= i <= t.len(),
    ensures
        spans_from(p + t, p.len() + start, p.len() + i) == spans_from(t, start, i),
    decreases t.len() - i,
{
    let s = p + t;
    let n = p.len() as int;
    if i < t.len() {
        lemma_doubled_shift(p, t, i, '*', Style::new().bold());
        lemma_doubled_shift(p, t, i, '~', Style::new().crossed_out());
        lemma_doubled_shift(p, t, i, '_', Style::new().underlined());
        lemma_single_shift(p, t, i, '`', Style::new().fg(Color::Rgb(255, 165, 0)));
        lemma_single_shift(p, t, i, '*', Style::new().italic());
        lemma_occurs_shift(p, t, seq!['*', '*'], i);
        markdown::lemma_mark_at(t, i);
        match mark_at(t, i) {
            Some(m) => {
                lemma_spans_shift(p, t, m.next, m.next);
                assert(s.subrange(n + start, n + i) =~= t.subrange(start, i));
                assert(s.subrange(n + m.lo, n + m.hi) =~= t.subrange(m.lo, m.hi));
            },
            None => {
                lemma_spans_shift(p, t, start, i + 1);
            },
        }
    } else {
        assert(s.subrange(n + start, s.len() as int) =~= t.subrange(start, t.len() as int));
    }
}

proof fn lemma_doubled_found(s: Seq<char>, n: int, c: char, k: int)
    requires
        c == '*' || c == '~' || c == '_',
        0 <= n,
        n + 2 < k,
        k + 2 <= s.len(),
        s[n] == c && s[n + 1] == c && s[k] == c && s[k + 1] == c,
        forall|j: int| n + 2 <= j < k ==> !(#[trigger] s[j] == c && s[j + 1] == c),
    ensures
        mark_at(s, n) == Some(
            Mark {
                lo: n + 2,
                hi: k,
                next: k + 2,
                style: if c == '*' {
                    Delimiter::Bold.look()
                } else if c == '~' {
                    Delimiter::Strike.look()
                } else {
                    Delimiter::Underline.look()
                },
            },
        ),
{
    let d = seq![c, c];
    assert(s.subrange(n, n + 2) =~= d);
    assert(s.subrange(k, k + 2) =~= d);
    assert(text::occurs_at(s, d, n));
    assert(text::occurs_at(s, d, k));
    text::lemma_find_from(s, d, n + 2);
    assert forall|j: int| n + 2 <= j < k implies !#[trigger] text::occurs_at(s, d, j) by {
        markdown::lemma_not_doubled(s, c, j);
    }
    assert(text::find_from(s, d, n + 2) == Some(k));
    if c != '*' {
        markdown::lemma_not_doubled(s, '*', n);
    }
    if c == '_' {
        markdown::lemma_not_doubled(s, '~', n);
    }
}

proof fn lemma_single_found(s: Seq<char>, n: int, c: char, k: int)
    requires
        c == '`' || (c == '*' && n + 1 < k),
        0 <= n < k < s.len(),
        s[n] == c && s[k] == c,
        forall|j: int| n < j < k ==> #[trigger] s[j] != c,
    ensures
        mark_at(s, n) == Some(
            Mark {
                lo: n + 1,
                hi: k,
                next: k + 1,
                style: if c == '`' {
                    Delimiter::Code.look()
                } else {
                    Delimiter::Italic.look()
                },
            },
        ),
{
    markdown::lemma_not_doubled(s, '*', n);
    markdown::lemma_not_doubled(s, '~', n);
    markdown::lemma_not_doubled(s, '_', n);
    text::lemma_first_index(s, c, n + 1);
    assert(text::first_index(s, c, n + 1) == Some(k));
}

/// The run that opens behind a text without marks is found.
proof fn lemma_mark_found(m: Marked, rest: Seq<char>)
    requires
        m.delimiter.may_hold(m.body),
    ensures
        ({
            let d = m.delimiter.sign();
            let n = m.before.len() as int;
            mark_at(m.before + d + m.body + d + rest, n) == Some(
                Mark {
                    lo: n + d.len(),
                    hi: n + d.len() + m.body.len(),
                    next: n + 2 * d.len() + m.body.len(),
                    style: m.delimiter.look(),
                },
            )
        }),
{
    let d = m.delimiter.sign();
    let c = d[0];
    let body = m.body;
    let s = m.before + d + body + d + rest;
    let n = m.before.len() as int;
    let k = n + d.len() + body.len();
    assert(s[n] == c && s[k] == c);
    if d.len() == 1 {
        assert forall|j: int| n < j < k implies #[trigger] s[j] != c by {
            assert(s[j] == body[j - n - 1]);
            assert(body.contains(body[j - n - 1]));
        }
        lemma_single_found(s, n, c, k);
    } else {
        assert(s[n + 1] == c && s[k + 1] == c);
        assert forall|j: int| n + 2 <= j < k implies !(#[trigger] s[j] == c && s[j + 1] == c) by {
            assert(s[j] == body[j - n - 2]);
            if j + 1 < k {
                assert(s[j + 1] == body[j - n - 1]);
            } else {
                assert(body.last() == s[j]);
            }
        }
        lemma_doubled_found(s, n, c, k);
    }
}

proof fn lemma_seen(runs: Seq<Marked>, tail: Seq<char>)
    requires
        are_marked(runs),
        is_plain(tail),
    ensures
        spans_from(written(runs, tail), 0, 0) == seen(runs, tail),
    decreases runs.len(),
{
    let s = written(runs, tail);
    if runs.len() == 0 {
        assert forall|k: int| 0 <= k < s.len() implies #[trigger] s[k] != '*' && s[k] != '~' && s[k]
            != '_' && s[k] != '`' by {
            assert(s.contains(s[k]));
        }
        markdown::lemma_unmarked_from(s, 0, 0, s.len() as int);
        assert(s.subrange(0, s.len() as int) =~= s);
    } else {
        let m = runs[0];
        let d = m.delimiter.sign();
        let rest = written(runs.drop_first(), tail);
        let n = m.before.len() as int;
        assert forall|k: int| 0 <= k < n implies #[trigger] s[k] != '*' && s[k] != '~' && s[k]
            != '_' && s[k] != '`' by {
            assert(s[k] == m.before[k]);
            assert(m.before.contains(m.before[k]));
        }
        markdown::lemma_unmarked_from(s, 0, 0, n);
        lemma_mark_found(m, rest);
        let head = m.before + d + m.body + d;
        let end = head.len() as int;
        assert(s =~= head + rest);
        assert(end == n + 2 * d.len() + m.body.len());
        lemma_spans_shift(head, rest, 0, 0);
        let others = runs.drop_first();
        assert forall|i: int| 0 <= i < others.len() implies is_plain((#[trigger] others[i]).before)
            && others[i].delimiter.may_hold(others[i].body) by {
            assert(others[i] == runs[i + 1]);
        }
        lemma_seen(others, tail);
        assert(s.subrange(0, n) =~= m.before);
        assert(s.subrange(n + d.len(), n + d.len() + m.body.len()) =~= m.body);
    }
}

proof fn lemma_links_show_something(s: Seq<char>)
    requires
        s.len() > 0,
    ensures
        links(s).len() > 0,
{
    markdown::law_links_keep_the_text(s);
    if links(s).len() == 0 {
        assert(style::joined_spans(links(s)).len() == 0);
    }
}

/// A line of marked runs is seen run by run: `**bold**`, `~~strike~~`, `__underline__`,
/// `` `code` `` and `*italic*` in their styles, and all text outside them with its links,
/// also that behind the last run. A line with nothing in it shows one empty span.
pub proof fn law_a_line_is_seen_run_by_run(runs: Seq<Marked>, tail: Seq<char>)
    requires
        are_marked(runs),
        is_plain(tail),
    ensures
        runs.len() > 0 || tail.len() > 0 ==> inline_spans(written(runs, tail)) == seen(runs, tail),
        runs.len() == 0 && tail.len() == 0 ==> inline_spans(written(runs, tail)) == seq![
            run(Seq::empty(), bare()),
        ],
{
    lemma_seen(runs, tail);
    if runs.len() == 0 {
        if tail.len() > 0 {
            lemma_links_show_something(tail);
        } else {
            markdown::lemma_no_links_in_nothing(tail);
            reveal_strlit("");
            assert(""@ =~= Seq::<char>::empty());
        }
    }
}

/// What follows a marked run is seen as if it were a line by itself, whatever it holds.
pub proof fn law_what_follows_a_run_is_seen_by_itself(m: Marked, rest: Seq<char>)
    requires
        is_plain(m.before),
        m.delimiter.may_hold(m.body),
    ensures
        inline_spans(m.before + m.delimiter.sign() + m.body + m.delimiter.sign() + rest) == links(
            m.before,
        ) + seq![run(m.body, m.delimiter.look())] + (if rest.len() > 0 {
            inline_spans(rest)
        } else {
            Seq::empty()
        }),
{
    let d = m.delimiter.sign();
    let s = m.before + d + m.body + d + rest;
    let n = m.before.len() as int;
    assert forall|k: int| 0 <= k < n implies #[trigger] s[k] != '*' && s[k] != '~' && s[k] != '_'
        && s[k] != '`' by {
        assert(s[k] == m.before[k]);
        assert(m.before.contains(m.before[k]));
    }
    markdown::lemma_unmarked_from(s, 0, 0, n);
    lemma_mark_found(m, rest);
    let head = m.before + d + m.body + d;
    assert(s =~= head + rest);
    assert(head.len() == n + 2 * d.len() + m.body.len());
    lemma_spans_shift(head, rest, 0, 0);
    assert(s.subrange(0, n) =~= m.before);
    assert(s.subrange(n + d.len(), n + d.len() + m.body.len()) =~= m.body);
    if rest.len() > 0 {
        lemma_spans_show_something(rest, 0, 0);
    } else {
        assert(rest.subrange(0, 0) =~= rest);
        markdown::lemma_no_links_in_nothing(rest);
        assert(spans_from(rest, 0, 0) =~= Seq::<SpanView>::empty());
    }
}

proof fn lemma_spans_show_something(s: Seq<char>, start: int, i: int)
    requires
        0 <= start <= i <= s.len(),
        start < s.len(),
    ensures
        spans_from(s, start, i).len() > 0,
    decreases s.len() - i,
{
    if i < s.len() {
        markdown::lemma_mark_at(s, i);
        if mark_at(s, i) is None {
            lemma_spans_show_something(s, start, i + 1);
        }
    } else {
        lemma_links_show_something(s.subrange(start, s.len() as int));
    }
}

proof fn lemma_seen_parts(runs: Seq<Marked>, tail: Seq<char>, i: int, span: SpanView)
    requires
        0 <= i <= runs.len(),
        i < runs.len() ==> links(runs[i].before).contains(span),
        i == runs.len() ==> links(tail).contains(span),
    ensures
        seen(runs, tail).contains(span),
    decreases runs.len(),
{
    if runs.len() > 0 {
        let m = runs[0];
        let first = links(m.before);
        let rest = seen(runs.drop_first(), tail);
        let all = first + seq![run(m.body, m.delimiter.look())] + rest;
        if i == 0 {
            let j = choose|j: int| 0 <= j < first.len() && first[j] == span;
            assert(all[j] == span);
        } else {
            if i < runs.len() {
                assert(runs.drop_first()[i - 1] == runs[i]);
            }
            lemma_seen_parts(runs.drop_first(), tail, i - 1, span);
            let j = choose|j: int| 0 <= j < rest.len() && rest[j] == span;
            assert(all[first.len() + 1 + j] == span);
        }
    }
}

/// Every `http://` or `https://` word of a line that lies outside all marked runs, before,
/// between or behind them, is a span of its own, cyan and underlined.
pub proof fn law_every_address_outside_the_runs_is_a_link(
    runs: Seq<Marked>,
    tail: Seq<char>,
    i: int,
    before: Seq<char>,
    word: Seq<char>,
    after: Seq<char>,
)
    requires
        are_marked(runs),
        is_plain(tail),
        0 <= i <= runs.len(),
        before + word + after == (if i < runs.len() {
            runs[i].before
        } else {
            tail
        }),
        is_address(word),
        !has_space_from(word, 0),
        after.len() == 0 || text::is_white_space(after[0]),
        forall|k: int| #[trigger] is_http_at(before, k) ==> has_space_from(before, k + 4),
    ensures
        inline_spans(written(runs, tail)).contains(link(word)),
{
    law_an_address_is_a_link(before, word, after);
    lemma_seen_parts(runs, tail, i, link(word));
    law_a_line_is_seen_run_by_run(runs, tail);
}

/// A delimiter that nothing closes is shown as it is: a line in which `*` and `` ` `` stand
/// at most once, and of which `~~` and `__` open no run, has no marked runs.
pub proof fn law_an_open_mark_is_shown_as_it_is(s: Seq<char>)
    requires
        s.len() > 0,
        forall|i: int, j: int|
            0 <= i < j < s.len() && #[trigger] s[i] == #[trigger] s[j] ==> s[i] != '*' && s[i]
                != '`',
        forall|i: int, j: int|
            0 <= i && i + 2 <= j < s.len() - 1 && #[trigger] s[i] == s[i + 1] && #[trigger] s[j]
                == s[j + 1] && s[i] == s[j] ==> s[i] != '~' && s[i] != '_',
    ensures
        inline_spans(s) == links(s),
{
    lemma_no_marks(s, 0);
    assert(s.subrange(0, s.len() as int) =~= s);
    lemma_links_show_something(s);
}

/// Doubled delimiters with nothing between them are no run: they are shown as they are.
pub proof fn law_nothing_between_delimiters_is_no_run(before: Seq<char>, c: char, after: Seq<char>)
    requires
        is_plain(before),
        is_plain(after),
        c == '*' || c == '~' || c == '_',
    ensures
        inline_spans(before + seq![c, c, c, c] + after) == links(
            before + seq![c, c, c, c] + after,
        ),
{
    let s = before + seq![c, c, c, c] + after;
    let n = before.len() as int;
    assert forall|k: int| 0 <= k < s.len() && (k < n || n + 4 <= k) implies #[trigger] s[k] != '*'
        && s[k] != '~' && s[k] != '_' && s[k] != '`' by {
        if k < n {
            assert(s[k] == before[k]);
            assert(before.contains(before[k]));
        } else {
            assert(s[k] == after[k - n - 4]);
            assert(after.contains(after[k - n - 4]));
        }
    }
    assert(s[n] == c && s[n + 1] == c && s[n + 2] == c && s[n + 3] == c);
    markdown::lemma_unmarked_from(s, 0, 0, n);
    lemma_no_mark_in_four(s, n, c, n);
    lemma_no_mark_in_four(s, n, c, n + 1);
    lemma_no_mark_in_four(s, n, c, n + 2);
    lemma_no_mark_in_four(s, n, c, n + 3);
    assert(spans_from(s, 0, n) == spans_from(s, 0, n + 1));
    assert(spans_from(s, 0, n + 1) == spans_from(s, 0, n + 2));
    assert(spans_from(s, 0, n + 2) == spans_from(s, 0, n + 3));
    assert(spans_from(s, 0, n + 3) == spans_from(s, 0, n + 4));
    markdown::lemma_unmarked_from(s, 0, n + 4, s.len() as int);
    assert(s.subrange(0, s.len() as int) =~= s);
    lemma_links_show_something(s);
}

proof fn lemma_no_mark_in_four(s: Seq<char>, n: int, c: char, i: int)
    requires
        0 <= n <= i < n + 4 <= s.len(),
        c == '*' || c == '~' || c == '_',
        s[n] == c && s[n + 1] == c && s[n + 2] == c && s[n + 3] == c,
        forall|k: int|
            0 <= k < s.len() && (k < n || n + 4 <= k) ==> #[trigger] s[k] != '*' && s[k] != '~'
                && s[k] != '_' && s[k] != '`',
    ensures
        mark_at(s, i) is None,
{
    let d = seq![c, c];
    lemma_pair(s, '*', i);
    lemma_pair(s, '~', i);
    lemma_pair(s, '_', i);
    text::lemma_find_from(s, d, i + 2);
    if let Some(k) = text::find_from(s, d, i + 2) {
        lemma_pair(s, c, k);
        assert(k == i + 2);
    }
    if i < n + 3 {
        assert(s.subrange(i, i + 2) =~= d);
        assert(text::occurs_at(s, d, i));
    }
    text::lemma_first_index(s, '`', i + 1);
    text::lemma_first_index(s, '*', i + 1);
}

proof fn lemma_pair(s: Seq<char>, c: char, i: int)
    ensures
        text::occurs_at(s, seq![c, c], i) ==> 0 <= i < s.len() - 1 && s[i] == c && s[i + 1] == c,
{
    if text::occurs_at(s, seq![c, c], i) {
        let sub = s.subrange(i, i + 2);
        assert(sub[0] == s[i] && sub[1] == s[i + 1]);
    }
}

proof fn lemma_no_marks(s: Seq<char>, i: int)
    requires
        0 <= i <= s.len(),
        forall|i: int, j: int|
            0 <= i < j < s.len() && #[trigger] s[i] == #[trigger] s[j] ==> s[i] != '*' && s[i]
                != '`',
        forall|i: int, j: int|
            0 <= i && i + 2 <= j < s.len() - 1 && #[trigger] s[i] == s[i + 1] && #[trigger] s[j]
                == s[j + 1] && s[i] == s[j] ==> s[i] != '~' && s[i] != '_',
    ensures
        spans_from(s, 0, i) == links(s.subrange(0, s.len() as int)),
    decreases s.len() - i,
{
    if i < s.len() {
        lemma_pair(s, '*', i);
        lemma_pair(s, '~', i);
        lemma_pair(s, '_', i);
        text::lemma_find_from(s, seq!['~', '~'], i + 2);
        text::lemma_find_from(s, seq!['_', '_'], i + 2);
        if let Some(k) = text::find_from(s, seq!['~', '~'], i + 2) {
            lemma_pair(s, '~', k);
        }
        if let Some(k) = text::find_from(s, seq!['_', '_'], i + 2) {
            lemma_pair(s, '_', k);
        }
        text::lemma_first_index(s, '`', i + 1);
        text::lemma_first_index(s, '*', i + 1);
        assert(mark_at(s, i) is None);
        lemma_no_marks(s, i + 1);
    }
}

// ---------------------------------------------------------------------------
// Lines and code blocks
// ---------------------------------------------------------------------------

/// A heading shows its signs in grey before the text, bold, and in the largest one cyan. A
/// quote has a bar, and is grey. A bullet has a dot. What follows the sign is shown as any
/// other line is.
pub proof fn law_headings_quotes_and_bullets(body: Seq<char>)
    ensures
        markdown::line_shown("### "@ + body) == (LineView {
            spans: seq![tinted("### "@, Color::DarkGray)] + inline_spans(body),
            style: Style { bold: true, ..bare() },
        }),
        markdown::line_shown("## "@ + body) == (LineView {
            spans: seq![tinted("## "@, Color::DarkGray)] + inline_spans(body),
            style: Style { bold: true, underline_color: Some(Color::Gray), ..bare() },
        }),
        markdown::line_shown("# "@ + body) == (LineView {
            spans: seq![tinted("# "@, Color::DarkGray)] + inline_spans(body),
            style: Style { bold: true, fg: Some(Color::Cyan), ..bare() },
        }),
        markdown::line_shown("> "@ + body) == (LineView {
            spans: seq![tinted("▌ "@, Color::DarkGray)] + inline_spans(body),
            style: Style { fg: Some(Color::Gray), ..bare() },
        }),
        markdown::line_shown("- "@ + body) == (LineView {
            spans: seq![tinted("• "@, Color::DarkGray)] + inline_spans(body),
            style: bare(),
        }),
        markdown::line_shown("* "@ + body) == (LineView {
            spans: seq![tinted("• "@, Color::DarkGray)] + inline_spans(body),
            style: bare(),
        }),
{
    lemma_signs();
    lemma_prefix("### "@, body);
    lemma_prefix("## "@, body);
    lemma_prefix("# "@, body);
    lemma_prefix("> "@, body);
    lemma_prefix("- "@, body);
    lemma_prefix("* "@, body);
    lemma_not_prefix("## "@ + body, "### "@, 2);
    lemma_not_prefix("# "@ + body, "### "@, 1);
    lemma_not_prefix("# "@ + body, "## "@, 1);
    lemma_not_prefix("> "@ + body, "### "@, 0);
    lemma_not_prefix("> "@ + body, "## "@, 0);
    lemma_not_prefix("> "@ + body, "# "@, 0);
    lemma_not_prefix("- "@ + body, "### "@, 0);
    lemma_not_prefix("- "@ + body, "## "@, 0);
    lemma_not_prefix("- "@ + body, "# "@, 0);
    lemma_not_prefix("- "@ + body, "> "@, 0);
    lemma_not_prefix("* "@ + body, "### "@, 0);
    lemma_not_prefix("* "@ + body, "## "@, 0);
    lemma_not_prefix("* "@ + body, "# "@, 0);
    lemma_not_prefix("* "@ + body, "> "@, 0);
    lemma_not_prefix("* "@ + body, "- "@, 0);
}

proof fn lemma_signs()
    ensures
        "### "@ == seq!['#', '#', '#', ' '],
        "## "@ == seq!['#', '#', ' '],
        "# "@ == seq!['#', ' '],
        "> "@ == seq!['>', ' '],
        "- "@ == seq!['-', ' '],
        "* "@ == seq!['*', ' '],
{
    reveal_strlit("### ");
    reveal_strlit("## ");
    reveal_strlit("# ");
    reveal_strlit("> ");
    reveal_strlit("- ");
    reveal_strlit("* ");
    assert("### "@ =~= seq!['#', '#', '#', ' ']);
    assert("## "@ =~= seq!['#', '#', ' ']);
    assert("# "@ =~= seq!['#', ' ']);
    assert("> "@ =~= seq!['>', ' ']);
    assert("- "@ =~= seq!['-', ' ']);
    assert("* "@ =~= seq!['*', ' ']);
}

proof fn lemma_prefix(p: Seq<char>, body: Seq<char>)
    ensures
        text::after_prefix(p + body, p) == Some(body),
{
    assert((p + body).take(p.len() as int) =~= p);
    assert((p + body).skip(p.len() as int) =~= body);
}

proof fn lemma_not_prefix(s: Seq<char>, p: Seq<char>, i: int)
    requires
        0 <= i < p.len(),
        i < s.len() ==> s[i] != p[i],
    ensures
        text::after_prefix(s, p) is None,
{
    if text::begins_with(s, p) {
        assert(s.take(p.len() as int)[i] == s[i]);
    }
}

/// A line with none of these signs and a space at its beginning is shown as it is, in no
/// style of its own.
pub proof fn law_other_lines_are_shown_as_they_are(s: Seq<char>)
    requires
        !(s.len() >= 2 && s[1] == ' ' && (s[0] == '#' || s[0] == '>' || s[0] == '-' || s[0]
            == '*')),
        !(s.len() >= 3 && s[0] == '#' && s[1] == '#' && s[2] == ' '),
        !(s.len() >= 4 && s[0] == '#' && s[1] == '#' && s[2] == '#' && s[3] == ' '),
    ensures
        markdown::line_shown(s) == (LineView { spans: inline_spans(s), style: bare() }),
{
    lemma_signs();
    lemma_prefix_chars(s, "### "@);
    lemma_prefix_chars(s, "## "@);
    lemma_prefix_chars(s, "# "@);
    lemma_prefix_chars(s, "> "@);
    lemma_prefix_chars(s, "- "@);
    lemma_prefix_chars(s, "* "@);
}

proof fn lemma_prefix_chars(s: Seq<char>, p: Seq<char>)
    ensures
        text::begins_with(s, p) ==> forall|i: int| 0 <= i < p.len() ==> s[i] == #[trigger] p[i],
{
    if text::begins_with(s, p) {
        assert forall|i: int| 0 <= i < p.len() implies s[i] == #[trigger] p[i] by {
            assert(s.take(p.len() as int)[i] == s[i]);
        }
    }
}

/// A line opens or closes a code block.
pub open spec fn is_fence(line: Seq<char>) -> bool {
    line.len() >= 3 && line[0] == '`' && line[1] == '`' && line[2] == '`'
}

proof fn lemma_fence(line: Seq<char>)
    ensures
        text::after_prefix(line, "```"@) is Some == is_fence(line),
        is_fence(line) ==> text::after_prefix(line, "```"@) == Some(line.skip(3)),
{
    reveal_strlit("```");
    assert("```"@ =~= seq!['`', '`', '`']);
    lemma_prefix_chars(line, "```"@);
    if is_fence(line) {
        assert(line.take(3) =~= "```"@);
    }
}

/// No line is a fence.
pub open spec fn no_fences(lines: Seq<Seq<char>>) -> bool {
    forall|i: int| 0 <= i < lines.len() ==> !is_fence(#[trigger] lines[i])
}

/// Each line by itself.
pub open spec fn line_by_line(lines: Seq<Seq<char>>) -> Seq<LineView> {
    lines.map_values(|l: Seq<char>| markdown::line_shown(l))
}

proof fn lemma_unfenced(lines: Seq<Seq<char>>, i: int, end: int)
    requires
        0 <= i <= end <= lines.len(),
        no_fences(lines.subrange(i, end)),
    ensures
        markdown::shown_from(lines, i, None, Seq::empty()) == line_by_line(
            lines.subrange(i, end),
        ) + markdown::shown_from(lines, end, None, Seq::empty()),
    decreases end - i,
{
    let some = lines.subrange(i, end);
    if i < end {
        assert(some[0] == lines[i]);
        lemma_fence(lines[i]);
        let rest = lines.subrange(i + 1, end);
        assert forall|j: int| 0 <= j < rest.len() implies !is_fence(#[trigger] rest[j]) by {
            assert(rest[j] == some[j + 1]);
        }
        lemma_unfenced(lines, i + 1, end);
        assert(line_by_line(some) =~= seq![markdown::line_shown(lines[i])] + line_by_line(rest));
        assert(markdown::shown_from(lines, i, None, Seq::empty()) =~= line_by_line(some)
            + markdown::shown_from(lines, end, None, Seq::empty()));
    } else {
        assert(line_by_line(some) + markdown::shown_from(lines, end, None, Seq::empty())
            =~= markdown::shown_from(lines, end, None, Seq::empty()));
    }
}

proof fn lemma_in_block(
    lines: Seq<Seq<char>>,
    i: int,
    end: int,
    lang: Seq<char>,
    block: Seq<Seq<char>>,
)
    requires
        0 <= i <= end <= lines.len(),
        no_fences(lines.subrange(i, end)),
    ensures
        markdown::shown_from(lines, i, Some(lang), block) == markdown::shown_from(
            lines,
            end,
            Some(lang),
            block + lines.subrange(i, end),
        ),
    decreases end - i,
{
    let some = lines.subrange(i, end);
    if i < end {
        assert(some[0] == lines[i]);
        lemma_fence(lines[i]);
        let rest = lines.subrange(i + 1, end);
        assert forall|j: int| 0 <= j < rest.len() implies !is_fence(#[trigger] rest[j]) by {
            assert(rest[j] == some[j + 1]);
        }
        lemma_in_block(lines, i + 1, end, lang, block.push(lines[i]));
        assert(block.push(lines[i]) + rest =~= block + some);
    } else {
        assert(block + some =~= block);
    }
}

proof fn lemma_shown_skip(lines: Seq<Seq<char>>, lo: int, i: int, fence: Option<Seq<char>>, block: Seq<Seq<char>>)
    requires
        0 <= lo <= i <= lines.len(),
    ensures
        markdown::shown_from(lines, i, fence, block) == markdown::shown_from(
            lines.skip(lo),
            i - lo,
            fence,
            block,
        ),
    decreases lines.len() - i,
{
    if i < lines.len() {
        assert(lines.skip(lo)[i - lo] == lines[i]);
        match (text::after_prefix(lines[i], "```"@), fence) {
            (Some(_), Some(lang)) => {
                lemma_shown_skip(lines, lo, i + 1, None, Seq::empty());
            },
            (Some(rest), None) => {
                lemma_shown_skip(lines, lo, i + 1, Some(text::trimmed(rest)), block);
            },
            (None, Some(_)) => {
                lemma_shown_skip(lines, lo, i + 1, fence, block.push(lines[i]));
            },
            (None, None) => {
                lemma_shown_skip(lines, lo, i + 1, None, block);
            },
        }
    }
}

/// A message without fences is shown line by line, all its lines in their order. A message
/// without lines shows an empty one.
pub proof fn law_lines_are_shown_one_by_one(s: Seq<char>)
    requires
        no_fences(text::lines_of(s)),
    ensures
        text::lines_of(s).len() > 0 ==> markdown::markdown_shown(s) == line_by_line(
            text::lines_of(s),
        ),
        text::lines_of(s).len() == 0 ==> markdown::markdown_shown(s) == seq![
            LineView { spans: Seq::empty(), style: bare() },
        ],
{
    let lines = text::lines_of(s);
    assert(lines.subrange(0, lines.len() as int) =~= lines);
    lemma_unfenced(lines, 0, lines.len() as int);
    assert(line_by_line(lines) + Seq::<LineView>::empty() =~= line_by_line(lines));
    assert(line_by_line(lines).len() == lines.len());
}

/// The lines between two fences are one code block, in the language that stands behind the
/// first fence; what comes before is shown line by line, and what follows as if it were a
/// message by itself. The fences are not shown. A block that is never closed is shown as far
/// as it goes, unless it is empty.
pub proof fn law_fences_make_a_code_block(
    s: Seq<char>,
    before: Seq<Seq<char>>,
    open: Seq<char>,
    block: Seq<Seq<char>>,
    close: Seq<char>,
    after: Seq<Seq<char>>,
)
    requires
        no_fences(before),
        is_fence(open),
        no_fences(block),
        is_fence(close),
    ensures
        text::lines_of(s) == before.push(open) + block.push(close) + after
            ==> markdown::markdown_shown(s) == line_by_line(before) + markdown::code_block(
            block,
            text::trimmed(open.skip(3)),
        ) + markdown::shown_from(after, 0, None, Seq::empty()),
        text::lines_of(s) == before.push(open) + block && block.len() > 0
            ==> markdown::markdown_shown(s) == line_by_line(before) + markdown::code_block(
            block,
            text::trimmed(open.skip(3)),
        ),
        text::lines_of(s) == before.push(open) && before.len() > 0 ==> markdown::markdown_shown(s)
            == line_by_line(before),
{
    let lang = text::trimmed(open.skip(3));
    let n = before.len() as int;
    let m = n + 1 + block.len();
    lemma_fence(open);
    lemma_fence(close);
    let lines = text::lines_of(s);
    let closed = before.push(open) + block.push(close) + after;
    let unclosed = before.push(open) + block;
    if lines == closed || lines == unclosed || lines == before.push(open) {
        assert(lines.subrange(0, n) =~= before);
        lemma_unfenced(lines, 0, n);
        assert(lines[n] == open);
        assert(line_by_line(before).len() == n);
    }
    if lines == closed || lines == unclosed {
        assert(lines.subrange(n + 1, m) =~= block);
        lemma_in_block(lines, n + 1, m, lang, Seq::empty());
        assert(Seq::<Seq<char>>::empty() + block =~= block);
    }
    if lines == closed {
        assert(lines[m] == close);
        assert(lines.skip(m + 1) =~= after);
        lemma_shown_skip(lines, m + 1, m + 1, None, Seq::empty());
        let rest = markdown::shown_from(after, 0, None, Seq::empty());
        let shown = markdown::shown_from(lines, 0, None, Seq::empty());
        assert(shown =~= line_by_line(before) + markdown::code_block(block, lang) + rest);
        assert(markdown::code_block(block, lang).len() >= 2);
    }
    if lines == unclosed && block.len() > 0 {
        let shown = markdown::shown_from(lines, 0, None, Seq::empty());
        assert(shown =~= line_by_line(before) + markdown::code_block(block, lang));
        assert(markdown::code_block(block, lang).len() >= 2);
    }
    if lines == before.push(open) && before.len() > 0 {
        assert(markdown::shown_from(lines, n + 1, Some(lang), Seq::empty()) =~= Seq::<
            LineView,
        >::empty());
        let shown = markdown::shown_from(lines, 0, None, Seq::empty());
        assert(shown =~= line_by_line(before));
    }
}

/// A code block has its language above it, between spaces and black on grey, or `code` where
/// it has none, and a rule of 24 below it. Between them is one line for each run of pieces.
pub proof fn law_code_blocks_are_framed(
    pieces: Seq<Seq<(u8, u8, u8, Seq<char>)>>,
    lang: Seq<char>,
    i: int,
)
    requires
        0 <= i < pieces.len(),
    ensures
        markdown::framed(pieces, lang).len() == pieces.len() + 2,
        markdown::framed(pieces, lang)[0] == (LineView {
            spans: seq![
                run(
                    seq![' '] + (if lang.len() > 0 {
                        lang
                    } else {
                        seq!['c', 'o', 'd', 'e']
                    }) + seq![' '],
                    Style { fg: Some(Color::Black), bg: Some(Color::DarkGray), ..bare() },
                ),
            ],
            style: bare(),
        }),
        markdown::framed(pieces, lang)[i + 1] == markdown::code_line(pieces[i]),
        markdown::framed(pieces, lang)[pieces.len() as int + 1] == (LineView {
            spans: seq![tinted(Seq::new(24, |k: int| '─'), Color::DarkGray)],
            style: bare(),
        }),
{
    reveal_strlit(" ");
    reveal_strlit("code");
    assert(" "@ =~= seq![' ']);
    assert("code"@ =~= seq!['c', 'o', 'd', 'e']);
}

/// Every piece of a line of code is a span in its colour, without the line feeds at its end;
/// a piece of nothing but line feeds is left out. A line without pieces shows one empty span.
pub proof fn law_code_is_shown_piece_by_piece(
    pieces: Seq<(u8, u8, u8, Seq<char>)>,
    red: u8,
    green: u8,
    blue: u8,
    content: Seq<char>,
    feeds: nat,
)
    requires
        content.len() > 0,
        content[0] != '\n',
        content.last() != '\n',
    ensures
        markdown::code_line(Seq::empty()) == (LineView {
            spans: seq![run(Seq::empty(), bare())],
            style: bare(),
        }),
        markdown::piece_spans(
            pieces.push((red, green, blue, content + Seq::new(feeds, |i: int| '\n'))),
        ) == markdown::piece_spans(pieces).push(tinted(content, Color::Rgb(red, green, blue))),
        markdown::piece_spans(
            pieces.push((red, green, blue, Seq::new(feeds, |i: int| '\n'))),
        ) == markdown::piece_spans(pieces),
        markdown::piece_spans(pieces).len() > 0 ==> markdown::code_line(pieces) == (LineView {
            spans: markdown::piece_spans(pieces),
            style: bare(),
        }),
{
    reveal_strlit("");
    assert(""@ =~= Seq::<char>::empty());
    text::law_one_character_is_taken_away(content, '\n', feeds);
    let full = pieces.push((red, green, blue, content + Seq::new(feeds, |i: int| '\n')));
    assert(full.drop_last() =~= pieces);
    let empty = pieces.push((red, green, blue, Seq::new(feeds, |i: int| '\n')));
    assert(empty.drop_last() =~= pieces);
    lemma_only_feeds(feeds);
}

proof fn lemma_only_feeds(n: nat)
    ensures
        text::without_trailing(Seq::new(n, |i: int| '\n'), '\n').len() == 0,
    decreases n,
{
    let all = Seq::new(n, |i: int| '\n');
    if n > 0 {
        lemma_only_feeds((n - 1) as nat);
        assert(all.drop_last() =~= Seq::new((n - 1) as nat, |i: int| '\n'));
    }
}

/// A code block is highlighted for the language that it names, each of its lines with a line
/// feed behind it, and as plain text where there is no such language.
pub proof fn law_code_is_highlighted(lines: Seq<Seq<char>>, lang: Seq<char>)
    ensures
        ({
            let fed = Seq::new(lines.len(), |i: int| lines[i].push('\n'));
            markdown::code_block(lines, lang) == markdown::framed(
                match markdown::highlighted(fed, lang, "base16-ocean.dark"@) {
                    Some(pieces) => pieces,
                    None => markdown::highlighted_plain(fed, "base16-ocean.dark"@),
                },
                lang,
            )
        }),
{
    reveal_strlit("\n");
    let fed = Seq::new(lines.len(), |i: int| lines[i].push('\n'));
    assert forall|i: int| 0 <= i < lines.len() implies markdown::with_line_feeds(lines)[i]
        == fed[i] by {
        assert(lines[i] + "\n"@ =~= lines[i].push('\n'));
    }
    assert(markdown::with_line_feeds(lines) =~= fed);
}

} // verus!
