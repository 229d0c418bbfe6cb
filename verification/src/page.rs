//! The page session: one loaded document together with its render cache,
//! link selection, viewport, and the synchronization policy that keeps
//! selection and viewport mutually consistent.

use vstd::prelude::*;

use crate::action::{Action, ActionResult, Key, PageAction};
use crate::cache::RenderCache;
use crate::document::{Data, DocNode, Document, Link};
use crate::layout::{
    render_for_mode, spec_render_for_mode, LinkEntryV, RenderedDocument, RenderedDocumentV,
    Renderer, Word, WordV,
};
use crate::style::Theme;
use crate::toc::{sections_view, spec_sections, Section};

verus! {

/// The visible window over the rendered line sequence: `y` is the topmost
/// visible line, `width` the render width, `height` the number of visible
/// lines.
#[derive(Clone, Copy, Debug, PartialEq, Eq, Structural)]
pub struct Viewport {
    pub y: usize,
    pub width: u16,
    pub height: usize,
}

/// A loaded page: its title, its document tree, and the section index
/// derived from the tree's headers.
#[derive(Debug)]
pub struct Page {
    pub title: String,
    pub content: Document,
    pub sections: Vec<Section>,
}

impl Page {
    /// The invariant a constructed page satisfies: a well-formed tree and
    /// a section index that is exactly the tree's headers.
    pub open spec fn wf(&self) -> bool {
        &&& self.content.wf()
        &&& sections_view(self.sections@) == spec_sections(self.content@, self.content@.len() as int)
    }

    /// Bundles a document with its derived section index.
    pub fn new(title: String, content: Document) -> (r: Page)
        requires
            content.wf(),
        ensures
            r.wf(),
            r.title@ == title@,
            r.content@ == content@,
    {
        let sections = crate::toc::build_sections(&content);
        Page { title, content, sections }
    }
}

/// Whether some word of `line` comes from a node in `[f, l]`.
pub open spec fn line_has_index_in(line: Seq<WordV>, f: int, l: int) -> bool {
    exists|k: int| 0 <= k < line.len() && f <= #[trigger] line[k].index <= l
}

/// The first display line holding a word from a node in `[f, l]`, if any.
pub open spec fn spec_find_sel_line(lines: Seq<Seq<WordV>>, f: int, l: int) -> Option<int>
    decreases lines.len(),
{
    if lines.len() == 0 {
        None
    } else if line_has_index_in(lines[0], f, l) {
        Some(0)
    } else {
        match spec_find_sel_line(lines.drop_first(), f, l) {
            Some(y) => Some(y + 1),
            None => None,
        }
    }
}

/// `spec_find_sel_line` returns exactly the first matching line.
pub proof fn lemma_find_sel_line(lines: Seq<Seq<WordV>>, f: int, l: int)
    ensures
        match spec_find_sel_line(lines, f, l) {
            Some(y) => 0 <= y < lines.len() && line_has_index_in(lines[y], f, l) && forall|y2: int|
                0 <= y2 < y ==> !line_has_index_in(#[trigger] lines[y2], f, l),
            None => forall|y2: int|
                0 <= y2 < lines.len() ==> !line_has_index_in(#[trigger] lines[y2], f, l),
        },
    decreases lines.len(),
{
    if lines.len() == 0 {
    } else if line_has_index_in(lines[0], f, l) {
    } else {
        lemma_find_sel_line(lines.drop_first(), f, l);
        match spec_find_sel_line(lines.drop_first(), f, l) {
            Some(y) => {
                assert(lines.drop_first()[y] == lines[y + 1]);
                assert forall|y2: int| 0 <= y2 < y + 1 implies !line_has_index_in(
                    #[trigger] lines[y2],
                    f,
                    l,
                ) by {
                    if y2 > 0 {
                        assert(lines[y2] == lines.drop_first()[y2 - 1]);
                    }
                }
            },
            None => {
                assert forall|y2: int| 0 <= y2 < lines.len() implies !line_has_index_in(
                    #[trigger] lines[y2],
                    f,
                    l,
                ) by {
                    if y2 > 0 {
                        assert(lines[y2] == lines.drop_first()[y2 - 1]);
                    }
                }
            },
        }
    }
}

/// The first matching line is unique: a witness pins the result.
pub proof fn lemma_find_sel_line_is(lines: Seq<Seq<WordV>>, f: int, l: int, y: int)
    requires
        0 <= y < lines.len(),
        line_has_index_in(lines[y], f, l),
        forall|y2: int| 0 <= y2 < y ==> !line_has_index_in(#[trigger] lines[y2], f, l),
    ensures
        spec_find_sel_line(lines, f, l) == Some(y),
{
    lemma_find_sel_line(lines, f, l);
    match spec_find_sel_line(lines, f, l) {
        Some(y0) => {
            if y0 < y {
                assert(!line_has_index_in(lines[y0], f, l));
            } else if y0 > y {
                assert(!line_has_index_in(lines[y], f, l));
            }
        },
        None => {
            assert(!line_has_index_in(lines[y], f, l));
        },
    }
}

/// The visual line of the selection `[f, l]`: the first line holding one
/// of its words, or line zero when it has none.
pub open spec fn spec_selected_y(rd: RenderedDocumentV, f: int, l: int) -> int {
    match spec_find_sel_line(rd.lines, f, l) {
        Some(y) => y,
        None => 0,
    }
}

/// Whether some word of this rendered line comes from a node in `[f, l]`.
fn line_has_exec(line: &Vec<Word>, f: usize, l: usize) -> (r: bool)
    ensures
        r == line_has_index_in(crate::layout::words_view(line@), f as int, l as int),
{
    let ghost lv = crate::layout::words_view(line@);
    let m = line.len();
    let mut k: usize = 0;
    while k < m
        invariant
            k <= m,
            m == line@.len(),
            lv == crate::layout::words_view(line@),
            forall|k2: int| 0 <= k2 < k ==> !(f <= #[trigger] lv[k2].index <= l),
        decreases m - k,
    {
        let idx = line[k].index;
        if f <= idx && idx <= l {
            proof {
                assert(lv[k as int].index == idx as nat);
            }
            return true;
        }
        k = k + 1;
    }
    false
}

/// The first display line holding a word from a node in `[f, l]`.
pub fn find_line_of_range(rd: &RenderedDocument, f: usize, l: usize) -> (r: Option<usize>)
    ensures
        match r {
            Some(y) => spec_find_sel_line(rd@.lines, f as int, l as int) == Some(y as int),
            None => spec_find_sel_line(rd@.lines, f as int, l as int) is None,
        },
{
    let n = rd.lines.len();
    let mut y: usize = 0;
    while y < n
        invariant
            y <= n,
            n == rd.lines@.len(),
            forall|y2: int|
                0 <= y2 < y ==> !line_has_index_in(#[trigger] rd@.lines[y2], f as int, l as int),
        decreases n - y,
    {
        if line_has_exec(&rd.lines[y], f, l) {
            proof {
                lemma_find_sel_line_is(rd@.lines, f as int, l as int, y as int);
            }
            return Some(y);
        }
        y = y + 1;
    }
    proof {
        lemma_find_sel_line(rd@.lines, f as int, l as int);
        if spec_find_sel_line(rd@.lines, f as int, l as int) is Some {
            let y0 = spec_find_sel_line(rd@.lines, f as int, l as int)->Some_0;
            assert(!line_has_index_in(rd@.lines[y0], f as int, l as int));
        }
    }
    None
}

/// The visual line of the selection `[f, l]`, or zero when none of its
/// words is on any line.
pub fn selected_y_in(rd: &RenderedDocument, f: usize, l: usize) -> (y: usize)
    ensures
        y as int == spec_selected_y(rd@, f as int, l as int),
        (y as int) < rd@.lines.len() || y == 0,
    {
    proof {
        lemma_find_sel_line(rd@.lines, f as int, l as int);
    }
    match find_line_of_range(rd, f, l) {
        Some(y) => y,
        None => 0,
    }
}

/// Clamps a requested scroll target: the viewport never scrolls past the
/// available content, and at minimum shows line zero.
pub open spec fn spec_clamp(y: int, total: int, h: int) -> int {
    if y + h >= total {
        if total - h >= 0 {
            total - h
        } else {
            0
        }
    } else {
        y
    }
}

/// The clamped scroll target always lies in `[0, max(0, total - h)]`.
pub proof fn lemma_clamp_bounds(y: int, total: int, h: int)
    requires
        y >= 0,
        total >= 0,
        h >= 0,
    ensures
        0 <= spec_clamp(y, total, h),
        spec_clamp(y, total, h) <= if total - h >= 0 {
            total - h
        } else {
            0
        },
{
}

/// Whether a link-index entry lies within the viewport `[y, y + h)`.
pub open spec fn entry_in_view(e: LinkEntryV, y: int, h: int) -> bool {
    y <= e.line < y + h
}

/// The first link-index entry within the viewport, if any.
pub open spec fn spec_find_entry_fwd(links: Seq<LinkEntryV>, y: int, h: int) -> Option<LinkEntryV>
    decreases links.len(),
{
    if links.len() == 0 {
        None
    } else if entry_in_view(links[0], y, h) {
        Some(links[0])
    } else {
        spec_find_entry_fwd(links.drop_first(), y, h)
    }
}

/// The last link-index entry within the viewport, if any.
pub open spec fn spec_find_entry_bwd(links: Seq<LinkEntryV>, y: int, h: int) -> Option<LinkEntryV>
    decreases links.len(),
{
    if links.len() == 0 {
        None
    } else if entry_in_view(links.last(), y, h) {
        Some(links.last())
    } else {
        spec_find_entry_bwd(links.drop_last(), y, h)
    }
}

/// A witness pins the forward search: the first entry in view is returned.
pub proof fn lemma_find_entry_fwd_is(links: Seq<LinkEntryV>, y: int, h: int, i: int)
    requires
        0 <= i < links.len(),
        entry_in_view(links[i], y, h),
        forall|k: int| 0 <= k < i ==> !entry_in_view(#[trigger] links[k], y, h),
    ensures
        spec_find_entry_fwd(links, y, h) == Some(links[i]),
    decreases links.len(),
{
    if i == 0 {
    } else {
        assert(!entry_in_view(links[0], y, h));
        assert forall|k: int| 0 <= k < i - 1 implies !entry_in_view(
            #[trigger] links.drop_first()[k],
            y,
            h,
        ) by {
            assert(links.drop_first()[k] == links[k + 1]);
        }
        assert(links.drop_first()[i - 1] == links[i]);
        lemma_find_entry_fwd_is(links.drop_first(), y, h, i - 1);
    }
}

/// With no entry in view, the forward search returns nothing.
pub proof fn lemma_find_entry_fwd_none(links: Seq<LinkEntryV>, y: int, h: int)
    requires
        forall|k: int| 0 <= k < links.len() ==> !entry_in_view(#[trigger] links[k], y, h),
    ensures
        spec_find_entry_fwd(links, y, h) is None,
    decreases links.len(),
{
    if links.len() > 0 {
        assert forall|k: int| 0 <= k < links.len() - 1 implies !entry_in_view(
            #[trigger] links.drop_first()[k],
            y,
            h,
        ) by {
            assert(links.drop_first()[k] == links[k + 1]);
        }
        lemma_find_entry_fwd_none(links.drop_first(), y, h);
    }
}

/// A witness pins the backward search: the last entry in view is returned.
pub proof fn lemma_find_entry_bwd_is(links: Seq<LinkEntryV>, y: int, h: int, i: int)
    requires
        0 <= i < links.len(),
        entry_in_view(links[i], y, h),
        forall|k: int| i < k < links.len() ==> !entry_in_view(#[trigger] links[k], y, h),
    ensures
        spec_find_entry_bwd(links, y, h) == Some(links[i]),
    decreases links.len(),
{
    if i == links.len() - 1 {
    } else {
        assert(!entry_in_view(links.last(), y, h));
        assert forall|k: int| i < k < links.len() - 1 implies !entry_in_view(
            #[trigger] links.drop_last()[k],
            y,
            h,
        ) by {
            assert(links.drop_last()[k] == links[k]);
        }
        assert(links.drop_last()[i] == links[i]);
        lemma_find_entry_bwd_is(links.drop_last(), y, h, i);
    }
}

/// With no entry in view, the backward search returns nothing.
pub proof fn lemma_find_entry_bwd_none(links: Seq<LinkEntryV>, y: int, h: int)
    requires
        forall|k: int| 0 <= k < links.len() ==> !entry_in_view(#[trigger] links[k], y, h),
    ensures
        spec_find_entry_bwd(links, y, h) is None,
    decreases links.len(),
{
    if links.len() > 0 {
        assert forall|k: int| 0 <= k < links.len() - 1 implies !entry_in_view(
            #[trigger] links.drop_last()[k],
            y,
            h,
        ) by {
            assert(links.drop_last()[k] == links[k]);
        }
        lemma_find_entry_bwd_none(links.drop_last(), y, h);
    }
}

/// The first link-index entry lying within `[y, y + h)`.
fn find_entry_fwd_exec(rd: &RenderedDocument, y: usize, h: usize) -> (r: Option<
    crate::layout::LinkEntry,
>)
    ensures
        match r {
            Some(e) => spec_find_entry_fwd(rd@.links, y as int, h as int) == Some(e@),
            None => spec_find_entry_fwd(rd@.links, y as int, h as int) is None,
        },
{
    let n = rd.links.len();
    let mut i: usize = 0;
    while i < n
        invariant
            i <= n,
            n == rd.links@.len(),
            forall|k: int| 0 <= k < i ==> !entry_in_view(#[trigger] rd@.links[k], y as int, h as int),
        decreases n - i,
    {
        let e = rd.links[i];
        if e.line >= y && e.line - y < h {
            proof {
                assert(rd@.links[i as int] == e@);
                lemma_find_entry_fwd_is(rd@.links, y as int, h as int, i as int);
            }
            return Some(e);
        }
        i = i + 1;
    }
    proof {
        lemma_find_entry_fwd_none(rd@.links, y as int, h as int);
    }
    None
}

/// The last link-index entry lying within `[y, y + h)`.
fn find_entry_bwd_exec(rd: &RenderedDocument, y: usize, h: usize) -> (r: Option<
    crate::layout::LinkEntry,
>)
    ensures
        match r {
            Some(e) => spec_find_entry_bwd(rd@.links, y as int, h as int) == Some(e@),
            None => spec_find_entry_bwd(rd@.links, y as int, h as int) is None,
        },
{
    let n = rd.links.len();
    let mut i: usize = n;
    while i > 0
        invariant
            i <= n,
            n == rd.links@.len(),
            forall|k: int| i <= k < n ==> !entry_in_view(#[trigger] rd@.links[k], y as int, h as int),
        decreases i,
    {
        i = i - 1;
        let e = rd.links[i];
        if e.line >= y && e.line - y < h {
            proof {
                assert(rd@.links[i as int] == e@);
                lemma_find_entry_bwd_is(rd@.links, y as int, h as int, i as int);
            }
            return Some(e);
        }
    }
    proof {
        lemma_find_entry_bwd_none(rd@.links, y as int, h as int);
    }
    None
}

/// The page component: the session object owning the loaded page, the
/// rendering mode, the per-width render cache, the viewport, the link
/// selection, and the contents-sidebar cursor.
pub struct PageComponent {
    pub page: Page,
    pub renderer: Renderer,
    pub render_cache: RenderCache,
    pub viewport: Viewport,
    pub selected: (usize, usize),
    pub theme: Theme,
    pub is_contents: bool,
    pub contents_selected: usize,
    pub max_idx_section: usize,
}

/// What one operation never touches: the loaded page, the theme, the
/// rendering mode, the viewport size, and the contents-sidebar state.
pub open spec fn same_context(pre: &PageComponent, post: &PageComponent) -> bool {
    &&& post.page == pre.page
    &&& post.renderer == pre.renderer
    &&& post.theme == pre.theme
    &&& post.is_contents == pre.is_contents
    &&& post.contents_selected == pre.contents_selected
    &&& post.max_idx_section == pre.max_idx_section
    &&& post.viewport.width == pre.viewport.width
    &&& post.viewport.height == pre.viewport.height
}

impl PageComponent {
    /// What rendering the session's document at width `w` yields in the
    /// current mode; every cache entry holds exactly this value.
    pub open spec fn spec_rd(&self, w: int) -> RenderedDocumentV {
        spec_render_for_mode(self.page.content@, self.theme, w, self.renderer)
    }

    /// The number of display lines at the current width.
    pub open spec fn spec_total(&self) -> int {
        self.spec_rd(self.viewport.width as int).lines.len() as int
    }

    /// The session invariant: a well-formed page, an ordered selection
    /// range inside the tree, a coherent render cache, and a contents
    /// cursor inside the section list.
    pub open spec fn wf(&self) -> bool {
        &&& self.page.wf()
        &&& self.selected.0 <= self.selected.1
        &&& (self.page.content@.len() > 0 ==> (self.selected.1 as int) < self.page.content@.len())
        &&& (self.page.content@.len() == 0 ==> self.selected == (0usize, 0usize))
        &&& (forall|i: int|
            0 <= i < self.render_cache.entries@.len()
                ==> (#[trigger] self.render_cache.entries@[i]).doc@ == self.spec_rd(
                self.render_cache.entries@[i].width as int,
            ))
        &&& self.max_idx_section == self.page.sections@.len()
        &&& (self.page.sections@.len() > 0 ==> self.contents_selected < self.page.sections@.len())
        &&& (self.page.sections@.len() == 0 ==> self.contents_selected == 0)
    }

    /// A fresh session over a loaded page: default rendering mode, empty
    /// cache, zero viewport, empty selection, contents cursor at the top.
    pub fn new(page: Page, theme: Theme) -> (r: PageComponent)
        requires
            page.wf(),
        ensures
            r.wf(),
            r.page == page,
            r.theme == theme,
            r.renderer == Renderer::Default,
            r.render_cache.entries@.len() == 0,
            r.viewport == (Viewport { y: 0, width: 0, height: 0 }),
            r.selected == (0usize, 0usize),
            r.is_contents == false,
            r.contents_selected == 0,
    {
        let max_idx_section = page.sections.len();
        PageComponent {
            page,
            renderer: Renderer::Default,
            render_cache: RenderCache::new(),
            viewport: Viewport { y: 0, width: 0, height: 0 },
            selected: (0, 0),
            theme,
            is_contents: false,
            contents_selected: 0,
            max_idx_section,
        }
    }

    /// Renders the document at width `w` unless a layout for `w` is
    /// already cached; afterwards the cache holds the layout for `w`.
    pub fn ensure_rendered(&mut self, w: u16)
        requires
            old(self).wf(),
        ensures
            final(self).wf(),
            same_context(old(self), final(self)),
            final(self).selected == old(self).selected,
            final(self).viewport == old(self).viewport,
            final(self).render_cache.spec_has(w as int),
            forall|w2: int|
                old(self).render_cache.spec_has(w2) ==> final(self).render_cache.spec_has(w2),
    {
        if !self.render_cache.has(w) {
            proof {
                assert forall|i: int| 0 <= i < self.page.content@.len() implies match #[trigger] self
                    .page
                    .content@[i]
                    .data {
                    Data::Header { text, .. } => text@.len() <= usize::MAX - 2,
                    Data::Text { content } => content@.len() <= usize::MAX - 2,
                    Data::Link { text, .. } => text@.len() <= usize::MAX - 2,
                    _ => true,
                } by {
                    assert(self.page.content@[i].last_descendant >= 0);
                    assert(crate::document::node_text_ok(self.page.content@[i]));
                }
            }
            let rd = render_for_mode(&self.page.content, self.theme, w, self.renderer);
            self.render_cache.insert(w, rd);
        }
    }

    /// The cached layout for width `w`, if one is stored; a stored layout
    /// is exactly what rendering at `w` in the current mode yields.
    pub fn rendered_page(&self, w: u16) -> (r: Option<&RenderedDocument>)
        requires
            self.wf(),
        ensures
            r is Some <==> self.render_cache.spec_has(w as int),
            match r {
                Some(rd) => rd@ == self.spec_rd(w as int),
                None => true,
            },
    {
        let r = self.render_cache.get(w);
        proof {
            match r {
                Some(rd) => {
                    let i = choose|i: int|
                        0 <= i < self.render_cache.entries@.len()
                            && #[trigger] self.render_cache.entries@[i].width == w as int
                            && self.render_cache.entries@[i].doc@ == rd@;
                    assert(self.render_cache.entries@[i].doc@ == self.spec_rd(w as int));
                },
                None => {},
            }
        }
        r
    }

    /// Scrolls to line `y` clamped against the available content, without
    /// reconciling the selection.
    fn scroll_to_y_raw(&mut self, y: usize)
        requires
            old(self).wf(),
        ensures
            final(self).wf(),
            same_context(old(self), final(self)),
            final(self).selected == old(self).selected,
            final(self).viewport.y as int == spec_clamp(
                y as int,
                old(self).spec_total(),
                old(self).viewport.height as int,
            ),
            final(self).render_cache.spec_has(old(self).viewport.width as int),
            forall|w2: int|
                old(self).render_cache.spec_has(w2) ==> final(self).render_cache.spec_has(w2),
    {
        let w = self.viewport.width;
        self.ensure_rendered(w);
        let total = self.rendered_page(w).unwrap().line_count();
        let h = self.viewport.height;
        let maxy = if total > h {
            total - h
        } else {
            0
        };
        let past_end = if total >= h {
            y >= total - h
        } else {
            true
        };
        let newy = if past_end {
            maxy
        } else {
            y
        };
        self.viewport.y = newy;
    }

    /// The viewport top after reconciling it with the selection: scroll
    /// up just enough when the selection's line lies above the viewport,
    /// down just enough when it lies at or below the bottom, and not at
    /// all when it is already visible.
    pub open spec fn spec_sel_to_vp_y(rd: RenderedDocumentV, f: int, l: int, y: int, h: int) -> int {
        let sy = spec_selected_y(rd, f, l);
        let total = rd.lines.len() as int;
        if sy < y {
            spec_clamp(sy, total, h)
        } else if sy >= y + h {
            spec_clamp(
                if sy - h + 1 >= 1 {
                    sy - h + 1
                } else {
                    1
                },
                total,
                h,
            )
        } else {
            y
        }
    }

    /// Selection-to-viewport reconciliation: adjusts the viewport
    /// minimally so the selection's line is visible.
    pub fn check_and_update_scrolling(&mut self)
        requires
            old(self).wf(),
        ensures
            final(self).wf(),
            same_context(old(self), final(self)),
            final(self).selected == old(self).selected,
            final(self).viewport.y as int == Self::spec_sel_to_vp_y(
                old(self).spec_rd(old(self).viewport.width as int),
                old(self).selected.0 as int,
                old(self).selected.1 as int,
                old(self).viewport.y as int,
                old(self).viewport.height as int,
            ),
            final(self).render_cache.spec_has(old(self).viewport.width as int),
            forall|w2: int|
                old(self).render_cache.spec_has(w2) ==> final(self).render_cache.spec_has(w2),
    {
        let w = self.viewport.width;
        self.ensure_rendered(w);
        let (sy, total): (usize, usize) = {
            let rd = self.rendered_page(w).unwrap();
            (selected_y_in(rd, self.selected.0, self.selected.1), rd.line_count())
        };
        let h = self.viewport.height;
        if sy < self.viewport.y {
            self.scroll_to_y_raw(sy);
        } else if sy - self.viewport.y >= h {
            let raw = if sy >= h {
                sy - h + 1
            } else {
                1
            };
            self.scroll_to_y_raw(raw);
        }
    }
}

/// Whether `j` is the first link node at or after `from`.
pub open spec fn is_first_link_at_or_after(nodes: Seq<DocNode>, from: int, j: int) -> bool {
    &&& from <= j < nodes.len()
    &&& nodes[j].data.spec_is_link()
    &&& forall|k: int| from <= k < j ==> !(#[trigger] nodes[k].data.spec_is_link())
}

/// Whether `j` is the last link node strictly after `from`.
pub open spec fn is_last_link_after(nodes: Seq<DocNode>, from: int, j: int) -> bool {
    &&& from < j < nodes.len()
    &&& nodes[j].data.spec_is_link()
    &&& forall|k: int| j < k < nodes.len() ==> !(#[trigger] nodes[k].data.spec_is_link())
}

/// Whether `j` is the last link node strictly before `bound`.
pub open spec fn is_last_link_before(nodes: Seq<DocNode>, bound: int, j: int) -> bool {
    &&& 0 <= j < bound
    &&& j < nodes.len()
    &&& nodes[j].data.spec_is_link()
    &&& forall|k: int|
        j < k < bound && k < nodes.len() ==> !(#[trigger] nodes[k].data.spec_is_link())
}

/// Whether `j` is the last header node whose anchor is `a`.
pub open spec fn is_last_header_with_anchor(nodes: Seq<DocNode>, a: Seq<char>, j: int) -> bool {
    &&& 0 <= j < nodes.len()
    &&& Document::spec_header_matches(nodes[j], a)
    &&& forall|k: int|
        j < k < nodes.len() ==> !Document::spec_header_matches(#[trigger] nodes[k], a)
}

/// Whether the operation left selection and viewport exactly as before.
pub open spec fn unchanged_view_state(pre: &PageComponent, post: &PageComponent) -> bool {
    &&& post.selected == pre.selected
    &&& post.viewport == pre.viewport
}

/// Whether `post` is `pre` with node `j` selected (the node together with
/// its descendants) and the viewport reconciled to show it.
pub open spec fn post_selected_node(pre: &PageComponent, post: &PageComponent, j: int) -> bool {
    let ld = pre.page.content@[j].last_descendant as int;
    &&& post.selected.0 as int == j
    &&& post.selected.1 as int == ld
    &&& post.viewport.y as int == PageComponent::spec_sel_to_vp_y(
        pre.spec_rd(pre.viewport.width as int),
        j,
        ld,
        pre.viewport.y as int,
        pre.viewport.height as int,
    )
}

impl PageComponent {
    /// The selection after reconciling it with the viewport: kept when
    /// its line is visible or no node is selected; otherwise snapped to a
    /// link whose first line falls inside the viewport — the first such
    /// link when the selection lies above, the last when it lies below —
    /// and kept when no link is visible at all.
    pub open spec fn spec_vp_to_sel(
        rd: RenderedDocumentV,
        nodes: Seq<DocNode>,
        f: int,
        l: int,
        y: int,
        h: int,
    ) -> (int, int) {
        let sy = spec_selected_y(rd, f, l);
        if !(0 <= f < nodes.len()) {
            (f, l)
        } else if y <= sy < y + h {
            (f, l)
        } else if sy < y {
            match spec_find_entry_fwd(rd.links, y, h) {
                Some(e) => if e.index < nodes.len() {
                    (e.index as int, nodes[e.index as int].last_descendant as int)
                } else {
                    (f, l)
                },
                None => (f, l),
            }
        } else {
            match spec_find_entry_bwd(rd.links, y, h) {
                Some(e) => if e.index < nodes.len() {
                    (e.index as int, nodes[e.index as int].last_descendant as int)
                } else {
                    (f, l)
                },
                None => (f, l),
            }
        }
    }

    /// Viewport-to-selection reconciliation: snaps the selection to a
    /// visible link when it fell outside the viewport, and otherwise
    /// leaves it untouched.
    pub fn check_and_update_selection(&mut self)
        requires
            old(self).wf(),
        ensures
            final(self).wf(),
            same_context(old(self), final(self)),
            final(self).viewport == old(self).viewport,
            ({
                let s = Self::spec_vp_to_sel(
                    old(self).spec_rd(old(self).viewport.width as int),
                    old(self).page.content@,
                    old(self).selected.0 as int,
                    old(self).selected.1 as int,
                    old(self).viewport.y as int,
                    old(self).viewport.height as int,
                );
                final(self).selected.0 as int == s.0 && final(self).selected.1 as int == s.1
            }),
            final(self).render_cache.spec_has(old(self).viewport.width as int),
            forall|w2: int|
                old(self).render_cache.spec_has(w2) ==> final(self).render_cache.spec_has(w2),
    {
        let w = self.viewport.width;
        self.ensure_rendered(w);
        let y = self.viewport.y;
        let h = self.viewport.height;
        let n = self.page.content.len();
        let (sy, entry_fwd, entry_bwd) = {
            let rd = self.rendered_page(w).unwrap();
            (
                selected_y_in(rd, self.selected.0, self.selected.1),
                find_entry_fwd_exec(rd, y, h),
                find_entry_bwd_exec(rd, y, h),
            )
        };
        if self.selected.0 >= n {
            return ;
        }
        if y <= sy && sy - y < h {
            return ;
        }
        if sy < y {
            match entry_fwd {
                Some(e) => {
                    if e.index < n {
                        let ld = self.page.content.last_descendant(e.index);
                        self.selected = (e.index, ld);
                    }
                },
                None => {},
            }
        } else {
            match entry_bwd {
                Some(e) => {
                    if e.index < n {
                        let ld = self.page.content.last_descendant(e.index);
                        self.selected = (e.index, ld);
                    }
                },
                None => {},
            }
        }
    }

    /// Selects the node `idx` together with its descendants and brings it
    /// into view; out-of-range indices leave the state untouched.
    pub fn select_node(&mut self, idx: usize)
        requires
            old(self).wf(),
        ensures
            final(self).wf(),
            same_context(old(self), final(self)),
            (idx as int) < old(self).page.content@.len() ==> post_selected_node(
                old(self),
                final(self),
                idx as int,
            ),
            (idx as int) >= old(self).page.content@.len() ==> unchanged_view_state(
                old(self),
                final(self),
            ),
    {
        if idx < self.page.content.len() {
            let ld = self.page.content.last_descendant(idx);
            self.selected = (idx, ld);
            self.check_and_update_scrolling();
        }
    }

    /// Selects the first link of the document, if any.
    pub fn select_first(&mut self)
        requires
            old(self).wf(),
        ensures
            final(self).wf(),
            same_context(old(self), final(self)),
            forall|j: int|
                #[trigger] is_first_link_at_or_after(old(self).page.content@, 0, j) ==> post_selected_node(
                    old(self),
                    final(self),
                    j,
                ),
            (forall|j: int| !#[trigger] is_first_link_at_or_after(old(self).page.content@, 0, j))
                ==> unchanged_view_state(old(self), final(self)),
    {
        let ghost nodes = old(self).page.content@;
        match self.page.content.find_link_at_or_after(0) {
            Some(j) => {
                proof {
                    assert(is_first_link_at_or_after(nodes, 0, j as int));
                }
                self.select_node(j);
            },
            None => {
                proof {
                    assert forall|j: int| !#[trigger] is_first_link_at_or_after(
                        nodes,
                        0,
                        j,
                    ) by {
                        if 0 <= j < nodes.len() {
                            assert(!nodes[j].data.spec_is_link());
                        }
                    }
                }
            },
        }
    }

    /// Selects the first link strictly after the current selection's end,
    /// if any.
    pub fn select_next(&mut self)
        requires
            old(self).wf(),
        ensures
            final(self).wf(),
            same_context(old(self), final(self)),
            forall|j: int|
                #[trigger] is_first_link_at_or_after(
                    old(self).page.content@,
                    old(self).selected.1 + 1,
                    j,
                ) ==> post_selected_node(old(self), final(self), j),
            (forall|j: int|
                !#[trigger] is_first_link_at_or_after(old(self).page.content@, old(self).selected.1 + 1, j))
                ==> unchanged_view_state(old(self), final(self)),
    {
        let ghost nodes = old(self).page.content@;
        let ghost from = old(self).selected.1 + 1;
        let n = self.page.content.len();
        if self.selected.1 >= n {
            proof {
                assert forall|j: int| !#[trigger] is_first_link_at_or_after(nodes, from, j) by {}
            }
            return ;
        }
        match self.page.content.find_link_at_or_after(self.selected.1 + 1) {
            Some(j) => {
                proof {
                    assert(is_first_link_at_or_after(nodes, from, j as int));
                }
                self.select_node(j);
            },
            None => {
                proof {
                    assert forall|j: int| !#[trigger] is_first_link_at_or_after(
                        nodes,
                        from,
                        j,
                    ) by {
                        if from <= j < nodes.len() {
                            assert(!nodes[j].data.spec_is_link());
                        }
                    }
                }
            },
        }
    }

    /// Selects the last link strictly after the current selection's end,
    /// if any: extend-to-end semantics, relative to the current position.
    pub fn select_last(&mut self)
        requires
            old(self).wf(),
        ensures
            final(self).wf(),
            same_context(old(self), final(self)),
            forall|j: int|
                #[trigger] is_last_link_after(old(self).page.content@, old(self).selected.1 as int, j)
                    ==> post_selected_node(old(self), final(self), j),
            (forall|j: int|
                !#[trigger] is_last_link_after(old(self).page.content@, old(self).selected.1 as int, j))
                ==> unchanged_view_state(old(self), final(self)),
    {
        let ghost nodes = old(self).page.content@;
        let ghost from = old(self).selected.1 as int;
        match self.page.content.find_last_link_after(self.selected.1) {
            Some(j) => {
                proof {
                    assert(is_last_link_after(nodes, from, j as int));
                }
                self.select_node(j);
            },
            None => {
                proof {
                    assert forall|j: int| !#[trigger] is_last_link_after(nodes, from, j) by {
                        if from < j < nodes.len() {
                            assert(!nodes[j].data.spec_is_link());
                        }
                    }
                }
            },
        }
    }

    /// Selects the last link strictly before the current selection's
    /// start, if any.
    pub fn select_prev(&mut self)
        requires
            old(self).wf(),
        ensures
            final(self).wf(),
            same_context(old(self), final(self)),
            forall|j: int|
                #[trigger] is_last_link_before(old(self).page.content@, old(self).selected.0 as int, j)
                    ==> post_selected_node(old(self), final(self), j),
            (forall|j: int|
                !#[trigger] is_last_link_before(old(self).page.content@, old(self).selected.0 as int, j))
                ==> unchanged_view_state(old(self), final(self)),
    {
        let ghost nodes = old(self).page.content@;
        let ghost bound = old(self).selected.0 as int;
        match self.page.content.find_last_link_before(self.selected.0) {
            Some(j) => {
                proof {
                    assert(is_last_link_before(nodes, bound, j as int));
                }
                self.select_node(j);
            },
            None => {
                proof {
                    assert forall|j: int| !#[trigger] is_last_link_before(nodes, bound, j) by {
                        if 0 <= j < bound && j < nodes.len() {
                            assert(!nodes[j].data.spec_is_link());
                        }
                    }
                }
            },
        }
    }
}

/// Whether `post` is `pre` scrolled to target line `y`: the viewport top
/// is the clamped target, and the selection is reconciled against the
/// new viewport.
pub open spec fn post_scrolled_to(pre: &PageComponent, post: &PageComponent, y: int) -> bool {
    let rd = pre.spec_rd(pre.viewport.width as int);
    let total = rd.lines.len() as int;
    let h = pre.viewport.height as int;
    let y2 = spec_clamp(y, total, h);
    let sel = PageComponent::spec_vp_to_sel(
        rd,
        pre.page.content@,
        pre.selected.0 as int,
        pre.selected.1 as int,
        y2,
        h,
    );
    &&& post.viewport.y as int == y2
    &&& post.selected.0 as int == sel.0
    &&& post.selected.1 as int == sel.1
}

/// Whether `post` is `pre` scrolled to the line of node `j`'s subtree:
/// a no-op when no line shows the subtree.
pub open spec fn post_scrolled_to_node(pre: &PageComponent, post: &PageComponent, j: int) -> bool {
    let rd = pre.spec_rd(pre.viewport.width as int);
    let ld = pre.page.content@[j].last_descendant as int;
    match spec_find_sel_line(rd.lines, j, ld) {
        Some(y) => post_scrolled_to(pre, post, y),
        None => unchanged_view_state(pre, post),
    }
}

impl PageComponent {
    /// Scrolls to line `y`, clamped to the available content, then
    /// reconciles the selection with the new viewport.
    pub fn scroll_to_y(&mut self, y: usize)
        requires
            old(self).wf(),
        ensures
            final(self).wf(),
            same_context(old(self), final(self)),
            post_scrolled_to(old(self), final(self), y as int),
    {
        self.scroll_to_y_raw(y);
        self.check_and_update_selection();
    }

    /// Scrolls to the very end of the content.
    pub fn scroll_to_bottom(&mut self)
        requires
            old(self).wf(),
        ensures
            final(self).wf(),
            same_context(old(self), final(self)),
            post_scrolled_to(
                old(self),
                final(self),
                old(self).spec_rd(old(self).viewport.width as int).lines.len() as int,
            ),
    {
        let w = self.viewport.width;
        self.ensure_rendered(w);
        let total = self.rendered_page(w).unwrap().line_count();
        self.scroll_to_y(total);
    }

    /// The contents cursor one step up, wrapping to the last section.
    pub open spec fn spec_cursor_up(cur: int, count: int) -> int {
        if count == 0 {
            0
        } else if cur == 0 {
            count - 1
        } else {
            cur - 1
        }
    }

    /// The contents cursor one step down, wrapping to the first section.
    pub open spec fn spec_cursor_down(cur: int, count: int) -> int {
        if count == 0 {
            0
        } else if cur >= count - 1 {
            0
        } else {
            cur + 1
        }
    }

    /// Scrolls up by `amount` lines; in the contents sidebar, moves the
    /// section cursor up instead, wrapping around.
    pub fn scroll_up(&mut self, amount: usize)
        requires
            old(self).wf(),
        ensures
            final(self).wf(),
            old(self).is_contents ==> final(self).contents_selected as int
                == Self::spec_cursor_up(
                old(self).contents_selected as int,
                old(self).max_idx_section as int,
            ) && unchanged_view_state(old(self), final(self)) && final(self).page == old(self).page
                && final(self).renderer == old(self).renderer && final(self).theme == old(self).theme && final(self).is_contents && final(self).max_idx_section == old(self).max_idx_section,
            !old(self).is_contents ==> same_context(old(self), final(self)) && post_scrolled_to(
                old(self),
                final(self),
                if old(self).viewport.y >= amount {
                    old(self).viewport.y - amount
                } else {
                    0
                },
            ),
    {
        if self.is_contents {
            let cur = self.contents_selected;
            let count = self.max_idx_section;
            self.contents_selected = if count == 0 {
                0
            } else if cur == 0 {
                count - 1
            } else {
                cur - 1
            };
            return ;
        }
        let target = if self.viewport.y >= amount {
            self.viewport.y - amount
        } else {
            0
        };
        self.scroll_to_y(target);
    }

    /// Scrolls down by `amount` lines; in the contents sidebar, moves the
    /// section cursor down instead, wrapping around.
    pub fn scroll_down(&mut self, amount: usize)
        requires
            old(self).wf(),
        ensures
            final(self).wf(),
            old(self).is_contents ==> final(self).contents_selected as int
                == Self::spec_cursor_down(
                old(self).contents_selected as int,
                old(self).max_idx_section as int,
            ) && unchanged_view_state(old(self), final(self)) && final(self).page == old(self).page
                && final(self).renderer == old(self).renderer && final(self).theme == old(self).theme && final(self).is_contents && final(self).max_idx_section == old(self).max_idx_section,
            !old(self).is_contents ==> same_context(old(self), final(self)) && post_scrolled_to(
                old(self),
                final(self),
                if old(self).viewport.y + amount <= usize::MAX {
                    old(self).viewport.y + amount
                } else {
                    usize::MAX as int
                },
            ),
    {
        if self.is_contents {
            let cur = self.contents_selected;
            let count = self.max_idx_section;
            self.contents_selected = if count == 0 {
                0
            } else if cur >= count - 1 {
                0
            } else {
                cur + 1
            };
            return ;
        }
        let target = if self.viewport.y <= usize::MAX - amount {
            self.viewport.y + amount
        } else {
            usize::MAX
        };
        self.scroll_to_y(target);
    }

    /// Scrolls so that the first line showing node `idx`'s subtree
    /// becomes visible; a no-op when the node is out of range or none of
    /// its words is on any line.
    pub fn scroll_to_node(&mut self, idx: usize)
        requires
            old(self).wf(),
        ensures
            final(self).wf(),
            same_context(old(self), final(self)),
            (idx as int) < old(self).page.content@.len() ==> post_scrolled_to_node(
                old(self),
                final(self),
                idx as int,
            ),
            (idx as int) >= old(self).page.content@.len() ==> unchanged_view_state(
                old(self),
                final(self),
            ),
    {
        let n = self.page.content.len();
        if idx >= n {
            return ;
        }
        let ld = self.page.content.last_descendant(idx);
        let w = self.viewport.width;
        self.ensure_rendered(w);
        let found = {
            let rd = self.rendered_page(w).unwrap();
            find_line_of_range(rd, idx, ld)
        };
        match found {
            Some(y) => {
                self.scroll_to_y(y);
            },
            None => {},
        }
    }

    /// Jumps to the header whose anchor is `anchor`.  The sentinel
    /// anchor `"top"` scrolls straight to line zero without resolving
    /// any node and without touching the selection; otherwise the last
    /// matching header is scrolled into view, and an unknown anchor is a
    /// no-op.
    pub fn select_header(&mut self, anchor: &String)
        requires
            old(self).wf(),
        ensures
            final(self).wf(),
            same_context(old(self), final(self)),
            anchor@ == "top"@ ==> final(self).viewport.y == 0 && final(self).selected == old(self).selected,
            anchor@ != "top"@ ==> ((forall|j: int|
                #[trigger] is_last_header_with_anchor(old(self).page.content@, anchor@, j)
                    ==> post_scrolled_to_node(old(self), final(self), j)) && ((forall|j: int|
                !#[trigger] is_last_header_with_anchor(old(self).page.content@, anchor@, j))
                ==> unchanged_view_state(old(self), final(self)))),
    {
        let top = String::from_str("top");
        if *anchor == top {
            self.viewport.y = 0;
            return ;
        }
        let ghost nodes = old(self).page.content@;
        match self.page.content.find_header_by_anchor(anchor) {
            Some(j) => {
                proof {
                    assert(is_last_header_with_anchor(nodes, anchor@, j as int));
                }
                self.scroll_to_node(j);
            },
            None => {
                proof {
                    assert forall|j: int| !#[trigger] is_last_header_with_anchor(
                        nodes,
                        anchor@,
                        j,
                    ) by {
                        if 0 <= j < nodes.len() {
                            assert(!Document::spec_header_matches(nodes[j], anchor@));
                        }
                    }
                }
            },
        }
    }

    /// Switches the rendering mode: every cached layout is dropped and
    /// the selection is reset, since node-to-line mappings no longer
    /// hold.
    pub fn switch_renderer(&mut self, renderer: Renderer)
        requires
            old(self).wf(),
        ensures
            final(self).wf(),
            final(self).renderer == renderer,
            final(self).render_cache.entries@.len() == 0,
            final(self).selected == (0usize, 0usize),
            final(self).viewport == old(self).viewport,
            final(self).page == old(self).page,
            final(self).theme == old(self).theme,
            final(self).is_contents == old(self).is_contents,
            final(self).contents_selected == old(self).contents_selected,
            final(self).max_idx_section == old(self).max_idx_section,
    {
        self.invalidate_all();
        self.renderer = renderer;
    }

    /// Drops every cached layout and resets the selection: once the
    /// document or the rendering mode changed, node-to-line mappings
    /// from older layouts hold for no previously selected range.
    pub fn invalidate_all(&mut self)
        requires
            old(self).wf(),
        ensures
            final(self).wf(),
            final(self).render_cache.entries@.len() == 0,
            final(self).selected == (0usize, 0usize),
            final(self).viewport == old(self).viewport,
            final(self).page == old(self).page,
            final(self).renderer == old(self).renderer,
            final(self).theme == old(self).theme,
            final(self).is_contents == old(self).is_contents,
            final(self).contents_selected == old(self).contents_selected,
            final(self).max_idx_section == old(self).max_idx_section,
    {
        self.render_cache.clear();
        self.selected = (0, 0);
    }

    /// Replaces the loaded document atomically: the old tree, its cached
    /// layouts, the selection and the scroll position are discarded
    /// together, while the display size, theme and rendering mode stay.
    pub fn replace_page(&mut self, page: Page)
        requires
            old(self).wf(),
            page.wf(),
        ensures
            final(self).wf(),
            final(self).page == page,
            final(self).render_cache.entries@.len() == 0,
            final(self).selected == (0usize, 0usize),
            final(self).viewport.y == 0,
            final(self).viewport.width == old(self).viewport.width,
            final(self).viewport.height == old(self).viewport.height,
            final(self).renderer == old(self).renderer,
            final(self).theme == old(self).theme,
            final(self).is_contents == old(self).is_contents,
            final(self).contents_selected == 0,
            final(self).max_idx_section == page.sections@.len(),
    {
        let max_idx_section = page.sections.len();
        self.page = page;
        self.render_cache.clear();
        self.selected = (0, 0);
        self.viewport.y = 0;
        self.contents_selected = 0;
        self.max_idx_section = max_idx_section;
    }

    /// Updates the viewport size.  A changed width keys a different
    /// cached layout, so scroll operations after a resize work against
    /// the layout for the new width.
    pub fn resize(&mut self, width: u16, height: usize)
        requires
            old(self).wf(),
        ensures
            final(self).wf(),
            final(self).viewport.width == width,
            final(self).viewport.height == height,
            final(self).viewport.y == old(self).viewport.y,
            final(self).selected == old(self).selected,
            final(self).page == old(self).page,
            final(self).renderer == old(self).renderer,
            final(self).theme == old(self).theme,
            final(self).is_contents == old(self).is_contents,
            final(self).contents_selected == old(self).contents_selected,
            final(self).max_idx_section == old(self).max_idx_section,
            final(self).render_cache == old(self).render_cache,
    {
        self.viewport.width = width;
        self.viewport.height = height;
    }
}

/// What activating the selection yields, as a mathematical value: a
/// confirmation dialog for links that lead to another page or anchor, a
/// notice for external, red and media links, and nothing for a
/// non-link selection.
pub open spec fn spec_open_link(nodes: Seq<DocNode>, f: int) -> crate::action::ActionResultV {
    if !(0 <= f < nodes.len()) {
        crate::action::ActionResultV::Ignored
    } else {
        match nodes[f].data {
            Data::Link { link, .. } => match link {
                Link::Internal { page } => crate::action::ActionResultV::Act(
                    crate::action::ActionV::PopupDialog {
                        title: "Information"@,
                        body: "Do you want to open the page '"@ + page@ + "'"@,
                        link: crate::action::LinkV::Internal { page: page@ },
                    },
                ),
                Link::Anchor { anchor } => crate::action::ActionResultV::Act(
                    crate::action::ActionV::PopupDialog {
                        title: "Information"@,
                        body: "Do you want to open the page '"@ + anchor@ + "'"@,
                        link: crate::action::LinkV::Anchor { anchor: anchor@ },
                    },
                ),
                Link::External { url } => crate::action::ActionResultV::Act(
                    crate::action::ActionV::PopupMessage {
                        title: "Warning"@,
                        body: "This link leads to the external webpage: "@ + url@,
                    },
                ),
                Link::RedLink { title } => crate::action::ActionResultV::Act(
                    crate::action::ActionV::PopupMessage {
                        title: "Information"@,
                        body: "The page '"@ + title@ + "' doesn't exist yet"@,
                    },
                ),
                Link::Media { .. } => crate::action::ActionResultV::Act(
                    crate::action::ActionV::PopupMessage {
                        title: "Information"@,
                        body: "This type of link is not supported yet"@,
                    },
                ),
            },
            _ => crate::action::ActionResultV::Ignored,
        }
    }
}

impl PageComponent {
    /// Activates the current selection: classifies the selected link so
    /// the shell can navigate, confirm, or show a notice; ignored when
    /// the selection is not a link.
    pub fn open_link(&self) -> (r: ActionResult)
        requires
            self.wf(),
        ensures
            r@ == spec_open_link(self.page.content@, self.selected.0 as int),
    {
        let idx = self.selected.0;
        if idx >= self.page.content.len() {
            return ActionResult::Ignored;
        }
        match &self.page.content.node(idx).data {
            Data::Link { link, .. } => match link {
                Link::Internal { page } => {
                    let mut body = String::from_str("Do you want to open the page '");
                    body.append(page.as_str());
                    body.append("'");
                    ActionResult::Act(
                        Action::PopupDialog {
                            title: String::from_str("Information"),
                            body,
                            link: Link::Internal { page: page.clone() },
                        },
                    )
                },
                Link::Anchor { anchor } => {
                    let mut body = String::from_str("Do you want to open the page '");
                    body.append(anchor.as_str());
                    body.append("'");
                    ActionResult::Act(
                        Action::PopupDialog {
                            title: String::from_str("Information"),
                            body,
                            link: Link::Anchor { anchor: anchor.clone() },
                        },
                    )
                },
                Link::External { url } => {
                    let mut body = String::from_str("This link leads to the external webpage: ");
                    body.append(url.as_str());
                    ActionResult::Act(
                        Action::PopupMessage { title: String::from_str("Warning"), body },
                    )
                },
                Link::RedLink { title } => {
                    let mut body = String::from_str("The page '");
                    body.append(title.as_str());
                    body.append("' doesn't exist yet");
                    ActionResult::Act(
                        Action::PopupMessage { title: String::from_str("Information"), body },
                    )
                },
                Link::Media { .. } => ActionResult::Act(
                    Action::PopupMessage {
                        title: String::from_str("Information"),
                        body: String::from_str("This type of link is not supported yet"),
                    },
                ),
            },
            _ => ActionResult::Ignored,
        }
    }

    /// What a key press in the page view maps to, as a mathematical
    /// value.
    pub open spec fn spec_handle_key(&self, key: Key, ctrl: bool, shift: bool)
        -> crate::action::ActionResultV {
        if self.is_contents {
            match key {
                Key::Tab | Key::BackTab => crate::action::ActionResultV::Act(
                    crate::action::ActionV::Page(crate::action::PageActionV::ToggleContents),
                ),
                Key::Enter => if self.max_idx_section > 0 {
                    crate::action::ActionResultV::Packet(
                        seq![
                            crate::action::ActionV::Page(
                                crate::action::PageActionV::GoToHeader(
                                    self.page.sections@[self.contents_selected as int].anchor@,
                                ),
                            ),
                            crate::action::ActionV::Page(
                                crate::action::PageActionV::ToggleContents,
                            ),
                        ],
                    )
                } else {
                    crate::action::ActionResultV::Ignored
                },
                _ => crate::action::ActionResultV::Ignored,
            }
        } else {
            match key {
                Key::Char('r') => if ctrl {
                    crate::action::ActionResultV::Act(
                        crate::action::ActionV::Page(
                            crate::action::PageActionV::SwitchRenderer(self.renderer.spec_next()),
                        ),
                    )
                } else {
                    crate::action::ActionResultV::Ignored
                },
                Key::Tab | Key::BackTab => crate::action::ActionResultV::Act(
                    crate::action::ActionV::Page(crate::action::PageActionV::ToggleContents),
                ),
                Key::Left => crate::action::ActionResultV::Act(
                    crate::action::ActionV::Page(
                        if shift {
                            crate::action::PageActionV::SelectFirstLink
                        } else {
                            crate::action::PageActionV::SelectPrevLink
                        },
                    ),
                ),
                Key::Right => crate::action::ActionResultV::Act(
                    crate::action::ActionV::Page(
                        if shift {
                            crate::action::PageActionV::SelectLastLink
                        } else {
                            crate::action::PageActionV::SelectNextLink
                        },
                    ),
                ),
                Key::Up => if shift {
                    crate::action::ActionResultV::Act(
                        crate::action::ActionV::Page(crate::action::PageActionV::SelectTopLink),
                    )
                } else {
                    crate::action::ActionResultV::Ignored
                },
                Key::Down => if shift {
                    crate::action::ActionResultV::Act(
                        crate::action::ActionV::Page(
                            crate::action::PageActionV::SelectBottomLink,
                        ),
                    )
                } else {
                    crate::action::ActionResultV::Ignored
                },
                Key::Enter => spec_open_link(self.page.content@, self.selected.0 as int),
                _ => crate::action::ActionResultV::Ignored,
            }
        }
    }

    /// Maps a key press to the action it commands: sidebar navigation
    /// when the contents pane has focus, link and scroll commands
    /// otherwise.
    pub fn handle_key_events(&self, key: Key, ctrl: bool, shift: bool) -> (r: ActionResult)
        requires
            self.wf(),
        ensures
            r@ == self.spec_handle_key(key, ctrl, shift),
    {
        if self.is_contents {
            return match key {
                Key::Tab | Key::BackTab => ActionResult::Act(
                    Action::Page(PageAction::ToggleContents),
                ),
                Key::Enter => {
                    if self.max_idx_section > 0 {
                        let anchor = self.page.sections[self.contents_selected].anchor.clone();
                        let mut packet: Vec<Action> = Vec::new();
                        packet.push(Action::Page(PageAction::GoToHeader(anchor)));
                        packet.push(Action::Page(PageAction::ToggleContents));
                        proof {
                            assert(crate::action::actions_view(packet@) =~= seq![
                                packet@[0]@,
                                packet@[1]@,
                            ]);
                        }
                        ActionResult::Packet(packet)
                    } else {
                        ActionResult::Ignored
                    }
                },
                _ => ActionResult::Ignored,
            };
        }
        match key {
            Key::Char('r') => {
                if ctrl {
                    ActionResult::Act(
                        Action::Page(PageAction::SwitchRenderer(self.renderer.next())),
                    )
                } else {
                    ActionResult::Ignored
                }
            },
            Key::Tab | Key::BackTab => ActionResult::Act(Action::Page(PageAction::ToggleContents)),
            Key::Left => ActionResult::Act(
                Action::Page(
                    if shift {
                        PageAction::SelectFirstLink
                    } else {
                        PageAction::SelectPrevLink
                    },
                ),
            ),
            Key::Right => ActionResult::Act(
                Action::Page(
                    if shift {
                        PageAction::SelectLastLink
                    } else {
                        PageAction::SelectNextLink
                    },
                ),
            ),
            Key::Up => {
                if shift {
                    ActionResult::Act(Action::Page(PageAction::SelectTopLink))
                } else {
                    ActionResult::Ignored
                }
            },
            Key::Down => {
                if shift {
                    ActionResult::Act(Action::Page(PageAction::SelectBottomLink))
                } else {
                    ActionResult::Ignored
                }
            },
            Key::Enter => self.open_link(),
            _ => ActionResult::Ignored,
        }
    }
}

impl PageComponent {
    /// Applies one action to the session: rendering-mode switches,
    /// contents toggling, link navigation, header jumps, scrolling and
    /// resizing are consumed; anything else is ignored and changes
    /// nothing.
    pub fn update(&mut self, action: Action) -> (r: ActionResult)
        requires
            old(self).wf(),
        ensures
            final(self).wf(),
            match action {
                Action::Page(pa) => match pa {
                    PageAction::SwitchRenderer(rr) => r is Consumed && final(self).renderer == rr
                        && final(self).render_cache.entries@.len() == 0 && final(self).selected == (
                        0usize,
                        0usize,
                    ) && final(self).viewport == old(self).viewport && final(self).page == old(self).page,
                    PageAction::ToggleContents => r is Consumed && final(self).is_contents == !old(self).is_contents && unchanged_view_state(old(self), final(self)) && final(self).page == old(self).page && final(self).renderer == old(self).renderer,
                    PageAction::SelectFirstLink => r is Consumed && same_context(
                        old(self),
                        final(self),
                    ) && (forall|j: int|
                        #[trigger] is_first_link_at_or_after(old(self).page.content@, 0, j)
                            ==> post_selected_node(old(self), final(self), j)) && ((forall|j: int|
                        !#[trigger] is_first_link_at_or_after(old(self).page.content@, 0, j))
                        ==> unchanged_view_state(old(self), final(self))),
                    PageAction::SelectNextLink => r is Consumed && same_context(
                        old(self),
                        final(self),
                    ) && (forall|j: int|
                        #[trigger] is_first_link_at_or_after(
                            old(self).page.content@,
                            old(self).selected.1 + 1,
                            j,
                        ) ==> post_selected_node(old(self), final(self), j)) && ((forall|j: int|
                        !#[trigger] is_first_link_at_or_after(
                            old(self).page.content@,
                            old(self).selected.1 + 1,
                            j,
                        )) ==> unchanged_view_state(old(self), final(self))),
                    PageAction::SelectLastLink => r is Consumed && same_context(
                        old(self),
                        final(self),
                    ) && (forall|j: int|
                        #[trigger] is_last_link_after(
                            old(self).page.content@,
                            old(self).selected.1 as int,
                            j,
                        ) ==> post_selected_node(old(self), final(self), j)) && ((forall|j: int|
                        !#[trigger] is_last_link_after(
                            old(self).page.content@,
                            old(self).selected.1 as int,
                            j,
                        )) ==> unchanged_view_state(old(self), final(self))),
                    PageAction::SelectPrevLink => r is Consumed && same_context(
                        old(self),
                        final(self),
                    ) && (forall|j: int|
                        #[trigger] is_last_link_before(
                            old(self).page.content@,
                            old(self).selected.0 as int,
                            j,
                        ) ==> post_selected_node(old(self), final(self), j)) && ((forall|j: int|
                        !#[trigger] is_last_link_before(
                            old(self).page.content@,
                            old(self).selected.0 as int,
                            j,
                        )) ==> unchanged_view_state(old(self), final(self))),
                    PageAction::SelectTopLink | PageAction::SelectBottomLink => r is Consumed
                        && *final(self) == *old(self),
                    PageAction::GoToHeader(anchor) => r is Consumed && same_context(
                        old(self),
                        final(self),
                    ) && (anchor@ == "top"@ ==> final(self).viewport.y == 0 && final(self).selected
                        == old(self).selected) && (anchor@ != "top"@ ==> ((forall|j: int|
                        #[trigger] is_last_header_with_anchor(old(self).page.content@, anchor@, j)
                            ==> post_scrolled_to_node(old(self), final(self), j)) && ((forall|
                        j: int,
                    |
                        !#[trigger] is_last_header_with_anchor(old(self).page.content@, anchor@, j))
                        ==> unchanged_view_state(old(self), final(self))))),
                },
                Action::ScrollUp(amount) => r is Consumed && (old(self).is_contents ==> final(self).contents_selected as int == Self::spec_cursor_up(
                    old(self).contents_selected as int,
                    old(self).max_idx_section as int,
                ) && unchanged_view_state(old(self), final(self))) && (!old(self).is_contents
                    ==> same_context(old(self), final(self)) && post_scrolled_to(
                    old(self),
                    final(self),
                    if old(self).viewport.y >= amount {
                        old(self).viewport.y - amount
                    } else {
                        0
                    },
                )),
                Action::ScrollDown(amount) => r is Consumed && (old(self).is_contents ==> final(self).contents_selected as int == Self::spec_cursor_down(
                    old(self).contents_selected as int,
                    old(self).max_idx_section as int,
                ) && unchanged_view_state(old(self), final(self))) && (!old(self).is_contents
                    ==> same_context(old(self), final(self)) && post_scrolled_to(
                    old(self),
                    final(self),
                    if old(self).viewport.y + amount <= usize::MAX {
                        old(self).viewport.y + amount
                    } else {
                        usize::MAX as int
                    },
                )),
                Action::ScrollHalfUp => r is Consumed && (!old(self).is_contents ==> same_context(
                    old(self),
                    final(self),
                ) && post_scrolled_to(
                    old(self),
                    final(self),
                    if old(self).viewport.y >= old(self).viewport.height / 2 {
                        old(self).viewport.y - old(self).viewport.height / 2
                    } else {
                        0
                    },
                )),
                Action::ScrollHalfDown => r is Consumed && (!old(self).is_contents
                    ==> same_context(old(self), final(self)) && post_scrolled_to(
                    old(self),
                    final(self),
                    if old(self).viewport.y + old(self).viewport.height / 2 <= usize::MAX {
                        old(self).viewport.y + old(self).viewport.height / 2
                    } else {
                        usize::MAX as int
                    },
                )),
                Action::ScrollToTop => r is Consumed && same_context(old(self), final(self))
                    && post_scrolled_to(old(self), final(self), 0),
                Action::ScrollToBottom => r is Consumed && same_context(old(self), final(self))
                    && post_scrolled_to(
                    old(self),
                    final(self),
                    old(self).spec_rd(old(self).viewport.width as int).lines.len() as int,
                ),
                Action::Resize(width, height) => r is Consumed && final(self).viewport.width
                    == width && final(self).viewport.height == height && final(self).selected
                    == old(self).selected && final(self).viewport.y == old(self).viewport.y
                    && final(self).page == old(self).page,
                _ => r is Ignored && *final(self) == *old(self),
            },
    {
        match action {
            Action::Page(page_action) => match page_action {
                PageAction::SwitchRenderer(renderer) => self.switch_renderer(renderer),
                PageAction::ToggleContents => {
                    self.is_contents = !self.is_contents;
                },
                PageAction::SelectFirstLink => self.select_first(),
                PageAction::SelectLastLink => self.select_last(),
                PageAction::SelectTopLink | PageAction::SelectBottomLink => {},
                PageAction::SelectPrevLink => self.select_prev(),
                PageAction::SelectNextLink => self.select_next(),
                PageAction::GoToHeader(anchor) => self.select_header(&anchor),
            },
            Action::ScrollUp(amount) => self.scroll_up(amount),
            Action::ScrollDown(amount) => self.scroll_down(amount),
            Action::ScrollHalfUp => {
                let half = self.viewport.height / 2;
                self.scroll_up(half);
            },
            Action::ScrollHalfDown => {
                let half = self.viewport.height / 2;
                self.scroll_down(half);
            },
            Action::ScrollToTop => self.scroll_to_y(0),
            Action::ScrollToBottom => self.scroll_to_bottom(),
            Action::Resize(width, height) => self.resize(width, height),
            _ => {
                return ActionResult::Ignored;
            },
        }
        ActionResult::Consumed
    }
}

impl PageComponent {
    /// The line range `[start, end)` the viewport shows of the layout at
    /// the current width, clamped to the content.
    pub fn visible_line_range(&self) -> (r: (usize, usize))
        requires
            self.wf(),
            self.render_cache.spec_has(self.viewport.width as int),
        ensures
            ({
                let total = self.spec_rd(self.viewport.width as int).lines.len() as int;
                let start = if self.viewport.y as int <= total {
                    self.viewport.y as int
                } else {
                    total
                };
                let end = if self.viewport.y + self.viewport.height <= total {
                    self.viewport.y + self.viewport.height
                } else {
                    total
                };
                r.0 == start && r.1 == end && r.0 <= r.1
            }),
    {
        let total = self.rendered_page(self.viewport.width).unwrap().line_count();
        let start = if self.viewport.y <= total {
            self.viewport.y
        } else {
            total
        };
        let end = if self.viewport.height <= total - start {
            start + (self.viewport.height - 0)
        } else {
            total
        };
        (start, end)
    }

    /// Whether the word of node `idx` falls inside the current selection,
    /// for the shell's highlight overlay.
    pub fn is_selected_index(&self, idx: usize) -> (r: bool)
        ensures
            r == (self.selected.0 <= idx <= self.selected.1),
    {
        self.selected.0 <= idx && idx <= self.selected.1
    }
}

impl PageComponent {
    /// The section under the contents-sidebar cursor, if the page has
    /// any sections.
    pub fn selected_header(&self) -> (r: Option<&Section>)
        requires
            self.wf(),
        ensures
            match r {
                Some(sec) => self.page.sections@.len() > 0 && *sec
                    == self.page.sections@[self.contents_selected as int],
                None => self.page.sections@.len() == 0,
            },
    {
        if self.page.sections.len() == 0 {
            return None;
        }
        Some(&self.page.sections[self.contents_selected])
    }

    /// The node at the start of the current selection, if the selection
    /// points into the tree.
    pub fn selected_node(&self) -> (r: Option<&DocNode>)
        ensures
            match r {
                Some(node) => (self.selected.0 as int) < self.page.content@.len() && *node
                    == self.page.content@[self.selected.0 as int],
                None => (self.selected.0 as int) >= self.page.content@.len(),
            },
    {
        if self.selected.0 < self.page.content.len() {
            Some(self.page.content.node(self.selected.0))
        } else {
            None
        }
    }
}

} // verus!
