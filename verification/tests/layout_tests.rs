//! Layout engine behaviour: word-wrapping, hard breaks, structural
//! breaks, link indexing, determinism, and the rendered invariants on
//! concrete documents.

use wiki_tui::document::{Data, DocNode, Document, Link};
use wiki_tui::layout::{render_document, render_for_mode, Renderer};
use wiki_tui::style::Theme;

fn leaf(data: Data, idx: usize) -> DocNode {
    DocNode { data, last_descendant: idx }
}

fn text(s: &str, idx: usize) -> DocNode {
    leaf(Data::Text { content: s.to_string() }, idx)
}

fn link(target: &str, label: &str, idx: usize) -> DocNode {
    leaf(
        Data::Link { link: Link::Internal { page: target.to_string() }, text: label.to_string() },
        idx,
    )
}

fn doc(nodes: Vec<DocNode>) -> Document {
    Document::new(nodes).expect("well-formed document")
}

#[test]
fn wraps_words_at_whitespace() {
    let d = doc(vec![text("aaa bb c", 0)]);
    let rd = render_document(&d, Theme::plain(), 4);
    assert_eq!(rd.lines.len(), 2);
    assert_eq!(rd.lines[0].len(), 1);
    assert_eq!(rd.lines[0][0].content, "aaa");
    assert_eq!(rd.lines[0][0].whitespace, 0);
    assert_eq!(rd.lines[1].len(), 2);
    assert_eq!(rd.lines[1][0].content, "bb");
    assert_eq!(rd.lines[1][0].whitespace, 1);
    assert_eq!(rd.lines[1][1].content, "c");
    assert_eq!(rd.lines[1][1].whitespace, 0);
}

#[test]
fn hard_breaks_overlong_words() {
    let d = doc(vec![text("abcdef", 0)]);
    let rd = render_document(&d, Theme::plain(), 3);
    assert_eq!(rd.lines.len(), 2);
    assert_eq!(rd.lines[0][0].content, "abc");
    assert_eq!(rd.lines[1][0].content, "def");
}

#[test]
fn collapses_repeated_spaces() {
    let d = doc(vec![text("a  b", 0)]);
    let rd = render_document(&d, Theme::plain(), 10);
    assert_eq!(rd.lines.len(), 1);
    assert_eq!(rd.lines[0].len(), 2);
    assert_eq!(rd.lines[0][0].content, "a");
    assert_eq!(rd.lines[0][1].content, "b");
}

#[test]
fn header_gets_leading_and_trailing_blank_line() {
    let d = doc(vec![leaf(
        Data::Header { text: "Title".to_string(), anchor: "t".to_string() },
        0,
    )]);
    let rd = render_document(&d, Theme::plain(), 20);
    assert_eq!(rd.lines.len(), 3);
    assert!(rd.lines[0].is_empty());
    assert_eq!(rd.lines[1][0].content, "Title");
    assert!(rd.lines[2].is_empty());
}

#[test]
fn newline_nodes_break_lines_and_make_blanks() {
    let d = doc(vec![
        text("a", 0),
        leaf(Data::Newline, 1),
        leaf(Data::Newline, 2),
        text("b", 3),
    ]);
    let rd = render_document(&d, Theme::plain(), 10);
    assert_eq!(rd.lines.len(), 3);
    assert_eq!(rd.lines[0][0].content, "a");
    assert!(rd.lines[1].is_empty());
    assert_eq!(rd.lines[2][0].content, "b");
}

#[test]
fn words_carry_source_node_index() {
    let d = doc(vec![text("one", 0), link("Page", "two", 1)]);
    let rd = render_document(&d, Theme::plain(), 20);
    assert_eq!(rd.lines.len(), 1);
    assert_eq!(rd.lines[0][0].index, 0);
    assert_eq!(rd.lines[0][1].index, 1);
}

#[test]
fn link_index_records_first_line_of_each_link() {
    let d = doc(vec![
        text("intro", 0),
        leaf(Data::Newline, 1),
        link("A", "alpha", 2),
        leaf(Data::Newline, 3),
        link("B", "beta", 4),
    ]);
    let rd = render_document(&d, Theme::plain(), 20);
    assert_eq!(rd.links.len(), 2);
    assert_eq!(rd.links[0].line, 1);
    assert_eq!(rd.links[0].index, 2);
    assert_eq!(rd.links[1].line, 2);
    assert_eq!(rd.links[1].index, 4);
}

#[test]
fn link_wrapped_over_lines_is_recorded_once() {
    let d = doc(vec![link("A", "aaa bbb ccc", 0)]);
    let rd = render_document(&d, Theme::plain(), 4);
    assert_eq!(rd.lines.len(), 3);
    assert_eq!(rd.links.len(), 1);
    assert_eq!(rd.links[0].line, 0);
    assert_eq!(rd.links[0].index, 0);
}

#[test]
fn rendering_twice_is_identical() {
    let d = doc(vec![
        leaf(Data::Header { text: "T".to_string(), anchor: "t".to_string() }, 0),
        text("some words to wrap around the width", 1),
        link("P", "a link", 2),
    ]);
    let rd1 = render_document(&d, Theme::plain(), 11);
    let rd2 = render_document(&d, Theme::plain(), 11);
    assert_eq!(rd1, rd2);
}

#[test]
fn produced_lines_respect_width() {
    let d = doc(vec![text("the quick brown fox jumps over the lazy dog", 0)]);
    let w: usize = 10;
    let rd = render_document(&d, Theme::plain(), w as u16);
    for line in &rd.lines {
        let mut used = 0;
        for word in line {
            used += word.content.chars().count() + word.whitespace;
        }
        assert!(used <= w);
    }
}

#[test]
fn indices_non_decreasing_across_lines() {
    let d = doc(vec![
        text("alpha beta", 0),
        leaf(Data::Newline, 1),
        text("gamma delta epsilon", 2),
        link("X", "zeta", 3),
    ]);
    let rd = render_document(&d, Theme::plain(), 7);
    let mut last = 0;
    for line in &rd.lines {
        for word in line {
            assert!(word.index >= last);
            last = word.index;
        }
    }
}

#[test]
fn emphasis_nodes_style_their_subtree() {
    let d = doc(vec![
        DocNode { data: Data::Effect { bold: true, italic: false, underline: false }, last_descendant: 1 },
        text("bolded", 1),
        text("plain", 2),
    ]);
    let rd = render_document(&d, Theme::plain(), 20);
    assert_eq!(rd.lines.len(), 1);
    assert!(rd.lines[0][0].style.bold);
    assert!(!rd.lines[0][1].style.bold);
}

#[test]
fn list_items_start_marked_lines() {
    let d = doc(vec![
        DocNode { data: Data::List, last_descendant: 4 },
        leaf(Data::ListItem, 1),
        text("first", 2),
        leaf(Data::ListItem, 3),
        text("second", 4),
    ]);
    let rd = render_document(&d, Theme::plain(), 20);
    assert_eq!(rd.lines.len(), 2);
    assert_eq!(rd.lines[0][0].content, "-");
    assert_eq!(rd.lines[0][1].content, "first");
    assert_eq!(rd.lines[1][0].content, "-");
    assert_eq!(rd.lines[1][1].content, "second");
}

#[test]
fn renderer_cycles_through_modes() {
    let r = Renderer::Default;
    let r1 = r.next();
    let r2 = r1.next();
    let r3 = r2.next();
    let r4 = r3.next();
    assert_eq!(r1, Renderer::TestRendererTreeData);
    assert_eq!(r2, Renderer::TestRendererTreeRaw);
    assert_eq!(r3, Renderer::TestRendererNodeRaw);
    assert_eq!(r4, Renderer::Default);
}

#[test]
fn raw_dump_tags_each_node() {
    let d = doc(vec![text("hi", 0), leaf(Data::Newline, 1)]);
    let rd = render_for_mode(&d, Theme::plain(), 80, Renderer::TestRendererTreeRaw);
    assert_eq!(rd.lines.len(), 2);
    assert_eq!(rd.lines[0][0].content, "Thi");
    assert_eq!(rd.lines[1][0].content, "N");
    assert!(rd.links.is_empty());
}

#[test]
fn document_rejects_malformed_subtree_ranges() {
    let bad = vec![DocNode { data: Data::List, last_descendant: 5 }];
    assert!(Document::new(bad).is_none());
    let bad2 = vec![
        text("a", 0),
        DocNode { data: Data::List, last_descendant: 0 },
    ];
    assert!(Document::new(bad2).is_none());
}
