//! Table-of-contents derivation and anchor resolution, the compiled
//! article wrapper, and the root component's key and action handling.

use wiki_tui::action::{Action, Key};
use wiki_tui::document::{Data, DocNode, Document};
use wiki_tui::root::{Context, Root};
use wiki_tui::toc::{Article, TableOfContents};

fn header(text: &str, anchor: &str, idx: usize) -> DocNode {
    DocNode {
        data: Data::Header { text: text.to_string(), anchor: anchor.to_string() },
        last_descendant: idx,
    }
}

fn text(s: &str, idx: usize) -> DocNode {
    DocNode { data: Data::Text { content: s.to_string() }, last_descendant: idx }
}

fn doc(nodes: Vec<DocNode>) -> Document {
    Document::new(nodes).expect("well-formed document")
}

#[test]
fn toc_lists_headers_in_order_with_numbers() {
    let d = doc(vec![
        header("Intro", "intro", 0),
        text("body", 1),
        header("Details", "details", 2),
        header("End", "end", 3),
    ]);
    let toc = TableOfContents::from_document(&d);
    assert_eq!(toc.count(), 3);
    assert_eq!(toc.get(0).number, 1);
    assert_eq!(toc.get(0).text, "Intro");
    assert_eq!(toc.get(0).anchor, "intro");
    assert_eq!(toc.get(0).node_index, 0);
    assert_eq!(toc.get(1).number, 2);
    assert_eq!(toc.get(1).node_index, 2);
    assert_eq!(toc.get(2).number, 3);
    assert_eq!(toc.get(2).node_index, 3);
}

#[test]
fn toc_resolves_anchors() {
    let d = doc(vec![header("A", "a", 0), header("B", "b", 1)]);
    let toc = TableOfContents::from_document(&d);
    assert_eq!(toc.resolve_anchor(&"b".to_string()), Some(1));
    assert_eq!(toc.resolve_anchor(&"missing".to_string()), None);
}

#[test]
fn toc_of_headerless_document_is_empty() {
    let d = doc(vec![text("just text", 0)]);
    let toc = TableOfContents::from_document(&d);
    assert_eq!(toc.count(), 0);
}

#[test]
fn article_keeps_elements_and_toc() {
    let d = doc(vec![header("A", "a", 0), text("b", 1)]);
    let toc = TableOfContents::from_document(&d);
    let elements = vec![header("A", "a", 0), text("b", 1)];
    let article = Article::new(elements.clone(), Some(toc.clone()));
    assert_eq!(article.elements(), &elements);
    assert_eq!(article.toc(), Some(&toc));

    let bare = Article::new(elements.clone(), None);
    assert_eq!(bare.toc(), None);
}

#[test]
fn root_starts_at_home_with_logger_hidden() {
    let root = Root::new();
    assert_eq!(root.context, Context::Home);
    assert!(!root.show_logger);
}

#[test]
fn root_maps_global_keys() {
    let root = Root::new();
    assert_eq!(root.handle_key_events(Key::Char('q')), Some(Action::Quit));
    assert_eq!(root.handle_key_events(Key::Char('l')), Some(Action::ToggleShowLogger));
    assert_eq!(
        root.handle_key_events(Key::Char('s')),
        Some(Action::EnterContext(Context::Search))
    );
    assert_eq!(root.handle_key_events(Key::Char('x')), Some(Action::Noop));
}

#[test]
fn root_delegates_search_keys_to_context() {
    let mut root = Root::new();
    root.dispatch(&Action::EnterContext(Context::Search));
    assert_eq!(root.context, Context::Search);
    // in the search context, non-global keys are the search component's
    assert_eq!(root.handle_key_events(Key::Char('s')), None);
    // global keys still work
    assert_eq!(root.handle_key_events(Key::Char('q')), Some(Action::Quit));
}

#[test]
fn root_dispatch_toggles_and_switches() {
    let mut root = Root::new();
    assert!(root.dispatch(&Action::ToggleShowLogger));
    assert!(root.show_logger);
    assert!(root.dispatch(&Action::ToggleShowLogger));
    assert!(!root.show_logger);
    assert!(!root.dispatch(&Action::Quit));
    assert_eq!(root.context, Context::Home);
}

#[test]
fn section_label_joins_number_and_title() {
    let d = doc(vec![header("History", "history", 0)]);
    let toc = TableOfContents::from_document(&d);
    assert_eq!(toc.get(0).label(), "1 History");

    let wide = wiki_tui::toc::Section {
        number: 12,
        text: "Later years".to_string(),
        anchor: "later".to_string(),
        node_index: 40,
    };
    assert_eq!(wide.label(), "12 Later years");
    assert_eq!(wiki_tui::toc::format_u64(0), "0");
    assert_eq!(wiki_tui::toc::format_u64(908), "908");
    assert_eq!(wiki_tui::toc::format_u64(18446744073709551615), "18446744073709551615");
}
