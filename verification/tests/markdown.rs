use tuimessager::markdown::{
    cut_to_width, frame_code, fuzzy_score, fuzzy_score_lowered, linkify,
    render_code_block, render_line, render_markdown, truncate,
};
use tuimessager::style::{Color, Line, Span, Style};

fn contents(spans: &[Span]) -> Vec<&str> {
    spans.iter().map(|s| s.content.as_str()).collect()
}

fn line_text(l: &Line) -> String {
    l.spans.iter().map(|s| s.content.as_str()).collect()
}

#[test]
fn markdown_basics() {
    let lines = render_markdown("# hi\n**bold** and `code` https://example.com");
    assert!(lines.len() >= 2);
}

#[test]
fn fuzzy() {
    assert!(fuzzy_score("gen", "general").unwrap() > fuzzy_score("gen", "random").unwrap_or(-999));
    assert!(fuzzy_score("xyz", "general").is_none());
}

#[test]
fn fuzzy_scores_are_exact() {
    assert_eq!(fuzzy_score("", "anything"), Some(0));
    assert_eq!(fuzzy_score("gen", "general"), Some(150 - 4));
    assert_eq!(fuzzy_score("GEN", "#General"), Some(100 - 5));
    assert_eq!(fuzzy_score("gnl", "general"), Some(30 - 7));
    assert_eq!(fuzzy_score_lowered("é", "éa"), Some(150 - 1));
    assert_eq!(fuzzy_score_lowered("É", "éa"), None);
}

#[test]
fn links_keep_the_text() {
    let spans = linkify("see https://a.b/c http and x");
    assert_eq!(contents(&spans), vec!["see ", "https://a.b/c", " ", "http", " and x"]);
    assert_eq!(spans[1].style, Style::new().fg(Color::Cyan).underlined());
    assert_eq!(spans[3].style, Style::new());
    assert!(linkify("").is_empty());
}

#[test]
fn marks_become_styles() {
    let spans = tuimessager::markdown::inline("hello **b** ~~s~~ __u__ `c` *i* *");
    assert_eq!(contents(&spans), vec!["hello ", "b", " ", "s", " ", "u", " ", "c", " ", "i", " *"]);
    assert_eq!(spans[1].style, Style::new().bold());
    assert_eq!(spans[3].style, Style::new().crossed_out());
    assert_eq!(spans[5].style, Style::new().underlined());
    assert_eq!(spans[7].style, Style::new().fg(Color::Rgb(255, 165, 0)));
    assert_eq!(spans[9].style, Style::new().italic());
    assert_eq!(contents(&tuimessager::markdown::inline("")), vec![""]);
    assert_eq!(contents(&tuimessager::markdown::inline("no marks é🔥")), vec!["no marks é🔥"]);
}

#[test]
fn lines_have_prefixes() {
    let l = render_line("# T");
    assert_eq!(contents(&l.spans), vec!["# ", "T"]);
    assert_eq!(l.style, Style::new().fg(Color::Cyan).bold());
    let l = render_line("## T");
    assert_eq!(l.style, Style::new().bold().underline_color(Color::Gray));
    let l = render_line("### T");
    assert_eq!(l.style, Style::new().bold());
    let l = render_line("> q");
    assert_eq!(contents(&l.spans), vec!["▌ ", "q"]);
    assert_eq!(l.style, Style::new().fg(Color::Gray));
    assert_eq!(contents(&render_line("- x").spans), vec!["• ", "x"]);
    assert_eq!(contents(&render_line("* x").spans), vec!["• ", "x"]);
}

#[test]
fn fences_become_blocks() {
    let lines = render_markdown("a\n```rust\nfn main() {}\n```\nb");
    let texts: Vec<String> = lines.iter().map(line_text).collect();
    assert_eq!(texts[0], "a");
    assert_eq!(texts[1], " rust ");
    assert_eq!(texts[2], "fn main() {}");
    assert_eq!(texts[3], "─".repeat(24));
    assert_eq!(texts[4], "b");
    // Highlighting colours the words apart.
    assert!(lines[2].spans.len() > 1);
    // An open fence is shown all the same, and an empty message is one line.
    let lines = render_markdown("```\nx");
    assert_eq!(lines.len(), 3);
    assert_eq!(line_text(&lines[0]), " code ");
    assert_eq!(render_markdown("").len(), 1);
    // Without a known language the text is plain.
    let lines = render_code_block(&vec!["plain".to_string()], "nosuchlanguage");
    assert_eq!(line_text(&lines[0]), " nosuchlanguage ");
    assert_eq!(line_text(&lines[1]), "plain");
}

#[test]
fn code_is_framed() {
    let pieces = vec![vec![(1u8, 2u8, 3u8, "x\n".to_string())], vec![]];
    let lines = frame_code(&pieces, "");
    assert_eq!(lines.len(), 4);
    assert_eq!(contents(&lines[1].spans), vec!["x"]);
    assert_eq!(lines[1].spans[0].style, Style::new().fg(Color::Rgb(1, 2, 3)));
    assert_eq!(contents(&lines[2].spans), vec![""]);
}

#[test]
fn long_texts_are_cut() {
    assert_eq!(truncate("short", 5), "short");
    assert_eq!(truncate("longer", 5), "long…");
    // A wide character fills two columns.
    assert_eq!(truncate("日本語", 5), "日本…");
    assert_eq!(truncate("日本語", 4), "日…");
    assert_eq!(truncate("ab", 0), "…");
    let chars: Vec<char> = "abc".chars().collect();
    assert_eq!(cut_to_width(&chars, &vec![1, 1, 1], 2), "ab…");
}

#[test]
fn blocks_show_two_lines_more_than_they_hold() {
    let count = |s: &str| render_markdown(s).len();
    assert_eq!(count(""), 1);
    assert_eq!(render_markdown("")[0].spans.len(), 0);
    assert_eq!(count("```"), 1);
    assert_eq!(count("```\n```"), 2);
    assert_eq!(count("```rust\nfn f() {}\n\nx\n```\nend"), 6);
    assert_eq!(count("a\n```\nopen"), 4);
    assert_eq!(count("a\n\nb"), 3);
}

#[test]
fn an_exact_match_is_never_outranked() {
    let query = "abcdefghijklmnop";
    assert_eq!(fuzzy_score(query, query), Some(150));
    assert_eq!(fuzzy_score(query, "ABCDEFGHIJKLMNOP"), Some(150));
    assert_eq!(fuzzy_score(query, "abcdefghijklmnopq"), Some(149));
    assert_eq!(fuzzy_score(query, "abcdefghijklmno-p"), Some(143));
    assert_eq!(fuzzy_score("a", "a"), Some(150));
}

#[test]
fn delimiters_without_room_open_nothing() {
    for s in ["*", "**", "***", "~~", "__", "a**", "**a"] {
        let spans = tuimessager::markdown::inline(s);
        assert_eq!(contents(&spans).concat(), s);
    }
}
