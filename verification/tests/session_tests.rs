//! Session behaviour: selection navigation, viewport clamping, the
//! synchronization policy, cache retention across resizes, and link
//! activation.

use wiki_tui::action::{Action, ActionResult, Key, PageAction};
use wiki_tui::document::{Data, DocNode, Document, Link};
use wiki_tui::page::{Page, PageComponent};
use wiki_tui::style::Theme;

fn leaf(data: Data, idx: usize) -> DocNode {
    DocNode { data, last_descendant: idx }
}

fn text(s: &str, idx: usize) -> DocNode {
    leaf(Data::Text { content: s.to_string() }, idx)
}

fn internal_link(target: &str, label: &str, idx: usize) -> DocNode {
    leaf(
        Data::Link { link: Link::Internal { page: target.to_string() }, text: label.to_string() },
        idx,
    )
}

fn doc(nodes: Vec<DocNode>) -> Document {
    Document::new(nodes).expect("well-formed document")
}

/// A page rendering to one line per element: element `k` sits on line
/// `k`, and the elements listed in `link_lines` are links.
fn page_with_lines(total: usize, link_lines: &[usize]) -> Page {
    let mut nodes = Vec::new();
    for k in 0..total {
        let idx = nodes.len();
        if link_lines.contains(&k) {
            nodes.push(internal_link("Target", "link", idx));
        } else {
            nodes.push(text("line", idx));
        }
        let idx = nodes.len();
        nodes.push(leaf(Data::Newline, idx));
    }
    Page::new("Test".to_string(), doc(nodes))
}

fn session(total: usize, link_lines: &[usize], height: usize) -> PageComponent {
    let mut pc = PageComponent::new(page_with_lines(total, link_lines), Theme::plain());
    pc.resize(80, height);
    pc
}

#[test]
fn three_links_selected_in_turn_and_viewport_follows() {
    // links on lines 2, 10 and 20 of a 21-line document, viewport height 5
    let mut pc = session(21, &[2, 10, 20], 5);
    assert_eq!(pc.viewport.y, 0);

    pc.update(Action::Page(PageAction::SelectNextLink));
    assert_eq!(pc.selected, (4, 4));
    assert_eq!(pc.viewport.y, 0);

    pc.update(Action::Page(PageAction::SelectNextLink));
    assert_eq!(pc.selected, (20, 20));
    assert_eq!(pc.viewport.y, 6);

    pc.update(Action::Page(PageAction::SelectNextLink));
    assert_eq!(pc.selected, (40, 40));
    assert_eq!(pc.viewport.y, 16);
}

#[test]
fn scroll_far_past_end_clamps() {
    // 50 lines, viewport height 10: a request for line 1000 lands on 40
    let mut pc = session(50, &[], 10);
    pc.scroll_to_y(1000);
    assert_eq!(pc.viewport.y, 40);
}

#[test]
fn resize_keeps_other_width_cached() {
    let mut pc = session(5, &[], 3);
    pc.ensure_rendered(80);
    assert!(pc.rendered_page(80).is_some());

    pc.resize(40, 3);
    assert!(pc.rendered_page(40).is_none());
    pc.ensure_rendered(40);
    assert!(pc.rendered_page(40).is_some());
    // the width-80 layout is still retrievable if the width reverts
    assert!(pc.rendered_page(80).is_some());
}

#[test]
fn top_anchor_scrolls_to_line_zero_without_selection_change() {
    let mut pc = session(30, &[3], 5);
    pc.update(Action::Page(PageAction::SelectNextLink));
    pc.scroll_to_y(12);
    let selected = pc.selected;
    pc.select_header(&"top".to_string());
    assert_eq!(pc.viewport.y, 0);
    assert_eq!(pc.selected, selected);
}

#[test]
fn select_prev_walks_backwards() {
    let mut pc = session(9, &[1, 4, 7], 5);
    pc.update(Action::Page(PageAction::SelectNextLink));
    pc.update(Action::Page(PageAction::SelectNextLink));
    assert_eq!(pc.selected, (8, 8));
    pc.update(Action::Page(PageAction::SelectPrevLink));
    assert_eq!(pc.selected, (2, 2));
}

#[test]
fn select_first_is_absolute_and_select_last_is_relative() {
    let mut pc = session(9, &[1, 4, 7], 5);
    pc.update(Action::Page(PageAction::SelectLastLink));
    assert_eq!(pc.selected, (14, 14));
    // "last" is relative to the current end: nothing lies beyond it
    pc.update(Action::Page(PageAction::SelectLastLink));
    assert_eq!(pc.selected, (14, 14));
    pc.update(Action::Page(PageAction::SelectFirstLink));
    assert_eq!(pc.selected, (2, 2));
}

#[test]
fn navigation_without_any_link_is_a_no_op() {
    let mut pc = session(6, &[], 4);
    let before = pc.selected;
    let y = pc.viewport.y;
    pc.update(Action::Page(PageAction::SelectNextLink));
    pc.update(Action::Page(PageAction::SelectPrevLink));
    pc.update(Action::Page(PageAction::SelectFirstLink));
    pc.update(Action::Page(PageAction::SelectLastLink));
    assert_eq!(pc.selected, before);
    assert_eq!(pc.viewport.y, y);
}

#[test]
fn unknown_anchor_is_a_no_op() {
    let mut pc = session(6, &[2], 4);
    let before = (pc.selected, pc.viewport.y);
    pc.select_header(&"no_such_anchor".to_string());
    assert_eq!((pc.selected, pc.viewport.y), before);
}

#[test]
fn scrolling_away_snaps_selection_to_visible_link() {
    let mut pc = session(30, &[2, 20], 5);
    pc.update(Action::Page(PageAction::SelectNextLink));
    assert_eq!(pc.selected, (4, 4));
    // scroll far down: line 2 leaves the viewport, the link on line 20
    // becomes the visible one
    pc.scroll_to_y(18);
    assert_eq!(pc.viewport.y, 18);
    assert_eq!(pc.selected, (40, 40));
}

#[test]
fn scrolling_with_no_visible_link_keeps_selection() {
    let mut pc = session(30, &[2], 5);
    pc.update(Action::Page(PageAction::SelectNextLink));
    assert_eq!(pc.selected, (4, 4));
    pc.scroll_to_y(18);
    assert_eq!(pc.viewport.y, 18);
    assert_eq!(pc.selected, (4, 4));
}

#[test]
fn sync_is_idempotent_on_concrete_session() {
    let mut pc = session(30, &[2, 20], 5);
    pc.update(Action::Page(PageAction::SelectNextLink));
    pc.scroll_to_y(18);
    let state = (pc.selected, pc.viewport.y);
    pc.check_and_update_selection();
    assert_eq!((pc.selected, pc.viewport.y), state);
    pc.check_and_update_scrolling();
    assert_eq!((pc.selected, pc.viewport.y), state);
}

#[test]
fn switch_renderer_clears_cache_and_selection() {
    let mut pc = session(6, &[2], 4);
    pc.ensure_rendered(80);
    pc.update(Action::Page(PageAction::SelectNextLink));
    assert_ne!(pc.selected, (0, 0));
    let next = pc.renderer.next();
    pc.switch_renderer(next);
    assert_eq!(pc.selected, (0, 0));
    assert!(pc.rendered_page(80).is_none());
}

#[test]
fn scroll_up_and_down_move_by_amount() {
    let mut pc = session(50, &[], 10);
    pc.update(Action::ScrollDown(7));
    assert_eq!(pc.viewport.y, 7);
    pc.update(Action::ScrollUp(3));
    assert_eq!(pc.viewport.y, 4);
    pc.update(Action::ScrollUp(100));
    assert_eq!(pc.viewport.y, 0);
    pc.update(Action::ScrollToBottom);
    assert_eq!(pc.viewport.y, 40);
    pc.update(Action::ScrollToTop);
    assert_eq!(pc.viewport.y, 0);
}

#[test]
fn contents_cursor_wraps_around() {
    let mut nodes = Vec::new();
    for k in 0..3 {
        let idx = nodes.len();
        nodes.push(leaf(
            Data::Header { text: format!("S{}", k), anchor: format!("s{}", k) },
            idx,
        ));
    }
    let mut pc = PageComponent::new(
        Page::new("T".to_string(), doc(nodes)),
        Theme::plain(),
    );
    pc.resize(80, 5);
    pc.update(Action::Page(PageAction::ToggleContents));
    assert_eq!(pc.contents_selected, 0);
    pc.update(Action::ScrollUp(1));
    assert_eq!(pc.contents_selected, 2);
    pc.update(Action::ScrollDown(1));
    assert_eq!(pc.contents_selected, 0);
    pc.update(Action::ScrollDown(1));
    assert_eq!(pc.contents_selected, 1);
}

#[test]
fn open_link_classifies_targets() {
    let nodes = vec![
        internal_link("Other page", "go", 0),
        leaf(
            Data::Link {
                link: Link::External { url: "https://example.com".to_string() },
                text: "ext".to_string(),
            },
            1,
        ),
        text("plain", 2),
    ];
    let mut pc = PageComponent::new(Page::new("T".to_string(), doc(nodes)), Theme::plain());
    pc.resize(80, 5);

    pc.select_node(0);
    match pc.open_link() {
        ActionResult::Act(Action::PopupDialog { title, body, link }) => {
            assert_eq!(title, "Information");
            assert_eq!(body, "Do you want to open the page 'Other page'");
            assert_eq!(link, Link::Internal { page: "Other page".to_string() });
        },
        other => panic!("unexpected result: {:?}", other),
    }

    pc.select_node(1);
    match pc.open_link() {
        ActionResult::Act(Action::PopupMessage { title, body }) => {
            assert_eq!(title, "Warning");
            assert_eq!(body, "This link leads to the external webpage: https://example.com");
        },
        other => panic!("unexpected result: {:?}", other),
    }

    pc.select_node(2);
    assert!(matches!(pc.open_link(), ActionResult::Ignored));
}

#[test]
fn key_events_map_to_page_actions() {
    let mut pc = session(6, &[2], 4);
    assert!(matches!(
        pc.handle_key_events(Key::Right, false, false),
        ActionResult::Act(Action::Page(PageAction::SelectNextLink))
    ));
    assert!(matches!(
        pc.handle_key_events(Key::Left, false, true),
        ActionResult::Act(Action::Page(PageAction::SelectFirstLink))
    ));
    assert!(matches!(
        pc.handle_key_events(Key::Char('r'), true, false),
        ActionResult::Act(Action::Page(PageAction::SwitchRenderer(_)))
    ));
    assert!(matches!(
        pc.handle_key_events(Key::Char('x'), false, false),
        ActionResult::Ignored
    ));
    pc.update(Action::Page(PageAction::ToggleContents));
    assert!(matches!(
        pc.handle_key_events(Key::Tab, false, false),
        ActionResult::Act(Action::Page(PageAction::ToggleContents))
    ));
}

#[test]
fn resize_then_scroll_uses_new_width_layout() {
    // at width 12 one long text occupies more lines than at width 40
    let nodes = vec![text("one two three four five six seven eight", 0)];
    let mut pc = PageComponent::new(Page::new("T".to_string(), doc(nodes)), Theme::plain());
    pc.resize(40, 2);
    pc.ensure_rendered(40);
    let wide_lines = pc.rendered_page(40).unwrap().line_count();
    pc.resize(12, 2);
    pc.scroll_to_y(1000);
    pc.ensure_rendered(12);
    let narrow_lines = pc.rendered_page(12).unwrap().line_count();
    assert!(narrow_lines > wide_lines);
    assert_eq!(pc.viewport.y, narrow_lines - 2);
}

#[test]
fn visible_line_range_is_clamped_to_content() {
    let mut pc = session(8, &[], 5);
    pc.ensure_rendered(80);
    assert_eq!(pc.visible_line_range(), (0, 5));
    pc.scroll_to_y(3);
    assert_eq!(pc.visible_line_range(), (3, 8));
    let mut small = session(3, &[], 10);
    small.ensure_rendered(80);
    assert_eq!(small.visible_line_range(), (0, 3));
}

#[test]
fn selected_header_follows_contents_cursor() {
    let mut nodes = Vec::new();
    for k in 0..2 {
        let idx = nodes.len();
        nodes.push(leaf(
            Data::Header { text: format!("S{}", k), anchor: format!("s{}", k) },
            idx,
        ));
    }
    let mut pc = PageComponent::new(Page::new("T".to_string(), doc(nodes)), Theme::plain());
    pc.resize(80, 5);
    pc.update(Action::Page(PageAction::ToggleContents));
    assert_eq!(pc.selected_header().unwrap().anchor, "s0");
    pc.update(Action::ScrollDown(1));
    assert_eq!(pc.selected_header().unwrap().anchor, "s1");

    let empty = session(3, &[], 4);
    assert!(empty.selected_header().is_none());
}

#[test]
fn replacing_the_page_discards_all_derived_state() {
    let mut pc = session(20, &[2], 6);
    pc.update(Action::Page(PageAction::SelectNextLink));
    pc.scroll_to_y(9);
    assert!(pc.rendered_page(80).is_some());

    pc.replace_page(page_with_lines(4, &[]));
    assert_eq!(pc.selected, (0, 0));
    assert_eq!(pc.viewport.y, 0);
    assert!(pc.rendered_page(80).is_none());
    assert_eq!(pc.viewport.width, 80);
    assert_eq!(pc.viewport.height, 6);
}

#[test]
fn invalidate_all_clears_cache_and_selection_only() {
    let mut pc = session(20, &[2], 6);
    pc.update(Action::Page(PageAction::SelectNextLink));
    pc.scroll_to_y(9);
    let y = pc.viewport.y;
    pc.invalidate_all();
    assert_eq!(pc.selected, (0, 0));
    assert!(pc.rendered_page(80).is_none());
    assert_eq!(pc.viewport.y, y);
}
