//! The laws of the layout engine and the synchronization policy, proved
//! once over the pure layout fold: every rendered line fits the display
//! width, source node indices never decrease across the output, the link
//! index is sound, and each direction of the synchronization policy is
//! idempotent.

use vstd::prelude::*;

use crate::document::DocNode;
use crate::layout::{
    line_width, spec_layout, spec_render, st_blank, st_break, st_emit_word, st_flush, st_init,
    st_node, st_run, LinkEntryV, RenderedDocumentV, St, WordV,
};
use crate::page::{spec_selected_y, PageComponent};
use crate::style::Theme;

verus! {

/// All words of all lines, in visual order.
pub open spec fn flat_lines(lines: Seq<Seq<WordV>>) -> Seq<WordV>
    decreases lines.len(),
{
    if lines.len() == 0 {
        Seq::empty()
    } else {
        flat_lines(lines.drop_last()) + lines.last()
    }
}

/// All words of a layout state, completed lines first, in visual order.
pub open spec fn flat_st(st: St) -> Seq<WordV> {
    flat_lines(st.lines) + st.cur
}

/// Source node indices never decrease along the word sequence.
pub open spec fn words_mono(s: Seq<WordV>) -> bool {
    forall|p: int, q: int| 0 <= p < q < s.len() ==> #[trigger] s[p].index <= #[trigger] s[q].index
}

/// Every word comes from a node with index below `b`.
pub open spec fn words_below(s: Seq<WordV>, b: int) -> bool {
    forall|p: int| 0 <= p < s.len() ==> (#[trigger] s[p].index) < b
}

/// Every line's total width stays within `w`.
pub open spec fn lines_fit(lines: Seq<Seq<WordV>>, w: int) -> bool {
    forall|y: int| 0 <= y < lines.len() ==> line_width(#[trigger] lines[y]) <= w
}

/// Soundness of one link-index entry against the layout state: it names a
/// link node, its line (the one being built when it equals the count of
/// completed lines) holds a word of that node, and every earlier line
/// holds only words of earlier nodes.
pub open spec fn entry_wf(st: St, nodes: Seq<DocNode>, ent: LinkEntryV) -> bool {
    &&& (ent.index as int) < nodes.len()
    &&& nodes[ent.index as int].data.spec_is_link()
    &&& ent.line <= st.lines.len()
    &&& (ent.line < st.lines.len() ==> exists|k: int|
        0 <= k < st.lines[ent.line as int].len() && (#[trigger] st.lines[ent.line as int][k].index)
            == ent.index)
    &&& (ent.line == st.lines.len() ==> exists|k: int|
        0 <= k < st.cur.len() && (#[trigger] st.cur[k].index) == ent.index)
    &&& forall|l2: int, k: int|
        0 <= l2 < ent.line && 0 <= k < st.lines[l2].len() ==> (#[trigger] st.lines[l2][k].index)
            < ent.index
}

/// Soundness of the whole link index.
pub open spec fn links_wf(st: St, nodes: Seq<DocNode>) -> bool {
    forall|e: int| 0 <= e < st.links.len() ==> entry_wf(st, nodes, #[trigger] st.links[e])
}

/// Once a word of node `i` is placed, the link index's last entry names
/// `i`: the guarantee that makes first-occurrence recording exact.
pub open spec fn recorded_if_present(st: St, i: nat) -> bool {
    (exists|p: int| 0 <= p < flat_st(st).len() && (#[trigger] flat_st(st)[p].index) == i) ==> (
    st.links.len() > 0 && st.links.last().index == i)
}

/// The full invariant of a layout state reached after the nodes below
/// `b`, at width `w`.
pub open spec fn st_inv(st: St, nodes: Seq<DocNode>, b: int, w: int) -> bool {
    &&& words_mono(flat_st(st))
    &&& words_below(flat_st(st), b)
    &&& (w >= 1 ==> lines_fit(st.lines, w) && line_width(st.cur) <= w)
    &&& links_wf(st, nodes)
}

/// Appending a line flattens to appending its words.
proof fn lemma_flat_push(lines: Seq<Seq<WordV>>, l: Seq<WordV>)
    ensures
        flat_lines(lines.push(l)) == flat_lines(lines) + l,
{
    assert(lines.push(l).drop_last() =~= lines);
    assert(lines.push(l).last() == l);
}

/// Placing one word of node `i` preserves the layout invariant.
proof fn lemma_emit_word_inv(
    st: St,
    content: Seq<char>,
    style: crate::style::Style,
    i: int,
    is_link: bool,
    w: int,
    nodes: Seq<DocNode>,
)
    requires
        st_inv(st, nodes, i + 1, w),
        0 <= i < nodes.len(),
        is_link ==> nodes[i].data.spec_is_link(),
        is_link ==> recorded_if_present(st, i as nat),
        content.len() >= 1,
        w >= 1 ==> content.len() <= w,
    ensures
        st_inv(st_emit_word(st, content, style, i as nat, is_link, w), nodes, i + 1, w),
        is_link ==> recorded_if_present(
            st_emit_word(st, content, style, i as nat, is_link, w),
            i as nat,
        ),
{
    let wv = WordV { content, whitespace: 0, style, index: i as nat };
    let st2 = st_emit_word(st, content, style, i as nat, is_link, w);
    let f = flat_st(st);
    let f2 = flat_st(st2);

    // The flat word sequence gains exactly one word at the end, with at
    // most the whitespace of the previous word changed.
    if st.cur.len() == 0 {
        assert(st.cur =~= Seq::<WordV>::empty());
        assert(f =~= flat_lines(st.lines));
        assert(f2 =~= f.push(wv));
    } else if line_width(st.cur) + 1 + content.len() <= w {
        assert(f2.len() == f.len() + 1);
    } else {
        lemma_flat_push(st.lines, st.cur);
        assert(f2 =~= f.push(wv));
    }
    assert(f2.len() == f.len() + 1);
    assert forall|p: int| 0 <= p < f2.len() implies #[trigger] f2[p].index == (if p < f.len() {
        f[p].index
    } else {
        i as nat
    }) by {
        if st.cur.len() == 0 {
        } else if line_width(st.cur) + 1 + content.len() <= w {
            if p < flat_lines(st.lines).len() {
            } else if p < f.len() {
                assert(f2[p] == crate::layout::bump_last(st.cur).push(wv)[p - flat_lines(
                    st.lines,
                ).len()]);
            }
        } else {
        }
    }

    // Order and bound.
    assert forall|p: int, q: int| 0 <= p < q < f2.len() implies #[trigger] f2[p].index
        <= #[trigger] f2[q].index by {
        if q < f.len() {
        } else {
            assert(f2[q].index == i as nat);
            assert(f2[p].index == f[p].index);
            assert(f[p].index < i + 1);
        }
    }
    assert forall|p: int| 0 <= p < f2.len() implies (#[trigger] f2[p].index) < i + 1 by {
        if p < f.len() {
            assert(f2[p].index == f[p].index);
        }
    }
    assert(words_mono(f2));
    assert(words_below(f2, i + 1));

    // Width bound.
    if w >= 1 {
        if st.cur.len() == 0 {
            assert(st2.cur =~= seq![wv]);
            assert(st2.cur.drop_last() =~= Seq::<WordV>::empty());
            assert(line_width(Seq::<WordV>::empty()) == 0);
            assert(line_width(st2.cur) == content.len());
        } else if line_width(st.cur) + 1 + content.len() <= w {
            crate::layout::lemma_line_width_bump_push(st.cur, wv);
        } else {
            assert(st2.cur =~= seq![wv]);
            assert(st2.cur.drop_last() =~= Seq::<WordV>::empty());
            assert(line_width(Seq::<WordV>::empty()) == 0);
            assert(line_width(st2.cur) == content.len());
            assert(lines_fit(st2.lines, w));
        }
    }

    // Link-index soundness.
    let created = is_link && (st.links.len() == 0 || st.links.last().index != i as nat);
    assert forall|e: int| 0 <= e < st2.links.len() implies entry_wf(
        st2,
        nodes,
        #[trigger] st2.links[e],
    ) by {
        if e < st.links.len() {
            let ent = st.links[e];
            assert(entry_wf(st, nodes, ent));
            if st.cur.len() > 0 && !(line_width(st.cur) + 1 + content.len() <= w) {
                // the current line was completed
                if ent.line < st.lines.len() {
                    assert(st2.lines[ent.line as int] == st.lines[ent.line as int]);
                } else {
                    assert(st2.lines[ent.line as int] == st.cur);
                }
                assert forall|l2: int, k: int|
                    0 <= l2 < ent.line && 0 <= k < st2.lines[l2].len() implies (
                #[trigger] st2.lines[l2][k].index) < ent.index by {
                    assert(st2.lines[l2] == st.lines[l2]);
                }
            } else {
                if ent.line < st.lines.len() {
                } else {
                    // the entry's word stays on the line being built
                    let k = choose|k: int|
                        0 <= k < st.cur.len() && (#[trigger] st.cur[k].index) == ent.index;
                    if st.cur.len() > 0 {
                        assert(st2.cur[k] == crate::layout::bump_last(st.cur).push(wv)[k]);
                        assert(st2.cur[k].index == ent.index);
                    }
                }
            }
        } else {
            // the freshly created entry
            let ent = st2.links[e];
            assert(created && ent == (LinkEntryV { line: st2.lines.len(), index: i as nat }));
            assert(st2.cur.len() > 0 && st2.cur.last().index == i as nat);
            assert(st2.cur[st2.cur.len() - 1].index == i as nat);
            // no earlier word names node i, so every completed line holds
            // only smaller indices
            assert forall|l2: int, k: int|
                0 <= l2 < ent.line && 0 <= k < st2.lines[l2].len() implies (
            #[trigger] st2.lines[l2][k].index) < ent.index by {
                let base = flat_lines_prefix_index(st2.lines, l2, k);
                assert(f2[base].index == st2.lines[l2][k].index);
                assert(f2[base].index <= i as nat);
                if f2[base].index == i as nat {
                    assert(base < f.len() && f[base].index == i as nat);
                    assert(st.links.len() > 0 && st.links.last().index == i as nat);
                }
            }
        }
    }

    if is_link {
        assert(st2.links.len() > 0 && st2.links.last().index == i as nat);
    }
}

/// The flat position of word `k` of line `l2`, such that the flat
/// sequence holds that very word there.
proof fn flat_lines_prefix_index(lines: Seq<Seq<WordV>>, l2: int, k: int) -> (p: int)
    requires
        0 <= l2 < lines.len(),
        0 <= k < lines[l2].len(),
    ensures
        0 <= p < flat_lines(lines).len(),
        flat_lines(lines)[p] == lines[l2][k],
    decreases lines.len(),
{
    if l2 == lines.len() - 1 {
        flat_lines(lines.drop_last()).len() + k
    } else {
        let p = flat_lines_prefix_index(lines.drop_last(), l2, k);
        assert(lines.drop_last()[l2] == lines[l2]);
        p
    }
}

/// Word-wrapping one text run of node `i` preserves the layout invariant.
proof fn lemma_run_inv(
    st: St,
    s: Seq<char>,
    buf: Seq<char>,
    style: crate::style::Style,
    i: int,
    is_link: bool,
    w: int,
    nodes: Seq<DocNode>,
)
    requires
        st_inv(st, nodes, i + 1, w),
        0 <= i < nodes.len(),
        is_link ==> nodes[i].data.spec_is_link(),
        is_link ==> recorded_if_present(st, i as nat),
        w >= 1 ==> buf.len() < w,
    ensures
        st_inv(st_run(st, s, buf, style, i as nat, is_link, w), nodes, i + 1, w),
        is_link ==> recorded_if_present(st_run(st, s, buf, style, i as nat, is_link, w), i as nat),
    decreases s.len(),
{
    if s.len() == 0 {
        if buf.len() > 0 {
            lemma_emit_word_inv(st, buf, style, i, is_link, w, nodes);
        }
    } else {
        let c = s[0];
        if c == ' ' {
            if buf.len() > 0 {
                lemma_emit_word_inv(st, buf, style, i, is_link, w, nodes);
            }
            let st1 = if buf.len() > 0 {
                st_emit_word(st, buf, style, i as nat, is_link, w)
            } else {
                st
            };
            lemma_run_inv(st1, s.drop_first(), Seq::empty(), style, i, is_link, w, nodes);
        } else {
            let b2 = buf.push(c);
            if b2.len() == w {
                lemma_emit_word_inv(st, b2, style, i, is_link, w, nodes);
                lemma_run_inv(
                    st_emit_word(st, b2, style, i as nat, is_link, w),
                    s.drop_first(),
                    Seq::empty(),
                    style,
                    i,
                    is_link,
                    w,
                    nodes,
                );
            } else {
                lemma_run_inv(st, s.drop_first(), b2, style, i, is_link, w, nodes);
            }
        }
    }
}

/// Completing the current line preserves the layout invariant.
proof fn lemma_flush_inv(st: St, nodes: Seq<DocNode>, b: int, w: int)
    requires
        st_inv(st, nodes, b, w),
    ensures
        st_inv(st_flush(st), nodes, b, w),
{
    let st2 = st_flush(st);
    if st.cur.len() > 0 {
        lemma_flat_push(st.lines, st.cur);
        assert(flat_st(st2) =~= flat_st(st));
        assert forall|e: int| 0 <= e < st2.links.len() implies entry_wf(
            st2,
            nodes,
            #[trigger] st2.links[e],
        ) by {
            let ent = st.links[e];
            assert(entry_wf(st, nodes, ent));
            if ent.line < st.lines.len() {
                assert(st2.lines[ent.line as int] == st.lines[ent.line as int]);
            } else {
                assert(st2.lines[ent.line as int] == st.cur);
            }
            assert forall|l2: int, k: int|
                0 <= l2 < ent.line && 0 <= k < st2.lines[l2].len() implies (
            #[trigger] st2.lines[l2][k].index) < ent.index by {
                assert(st2.lines[l2] == st.lines[l2]);
            }
        }
    }
}

/// An explicit line break preserves the layout invariant.
proof fn lemma_break_inv(st: St, nodes: Seq<DocNode>, b: int, w: int)
    requires
        st_inv(st, nodes, b, w),
    ensures
        st_inv(st_break(st), nodes, b, w),
{
    let st2 = st_break(st);
    lemma_flat_push(st.lines, st.cur);
    assert(flat_st(st2) =~= flat_st(st));
    if w >= 1 {
        assert forall|y: int| 0 <= y < st2.lines.len() implies line_width(
            #[trigger] st2.lines[y],
        ) <= w by {
            if y < st.lines.len() {
                assert(st2.lines[y] == st.lines[y]);
            } else {
                assert(st2.lines[y] == st.cur);
            }
        }
        assert(st2.cur =~= Seq::<WordV>::empty());
        assert(line_width(st2.cur) == 0);
    }
    assert forall|e: int| 0 <= e < st2.links.len() implies entry_wf(
        st2,
        nodes,
        #[trigger] st2.links[e],
    ) by {
        let ent = st.links[e];
        assert(entry_wf(st, nodes, ent));
        if ent.line < st.lines.len() {
            assert(st2.lines[ent.line as int] == st.lines[ent.line as int]);
        } else {
            assert(st2.lines[ent.line as int] == st.cur);
        }
        assert forall|l2: int, k: int|
            0 <= l2 < ent.line && 0 <= k < st2.lines[l2].len() implies (
        #[trigger] st2.lines[l2][k].index) < ent.index by {
            assert(st2.lines[l2] == st.lines[l2]);
        }
    }
}

/// Completing the line and adding a blank one preserves the invariant.
proof fn lemma_blank_inv(st: St, nodes: Seq<DocNode>, b: int, w: int)
    requires
        st_inv(st, nodes, b, w),
    ensures
        st_inv(st_blank(st), nodes, b, w),
{
    lemma_flush_inv(st, nodes, b, w);
    let st1 = st_flush(st);
    let st2 = st_blank(st);
    assert(st2.lines == st1.lines.push(Seq::<WordV>::empty()));
    lemma_flat_push(st1.lines, Seq::empty());
    assert(flat_st(st2) =~= flat_st(st1));
    if w >= 1 {
        assert forall|y: int| 0 <= y < st2.lines.len() implies line_width(
            #[trigger] st2.lines[y],
        ) <= w by {
            if y < st1.lines.len() {
                assert(st2.lines[y] == st1.lines[y]);
            } else {
                assert(st2.lines[y] =~= Seq::<WordV>::empty());
                assert(line_width(st2.lines[y]) == 0);
            }
        }
    }
    assert forall|e: int| 0 <= e < st2.links.len() implies entry_wf(
        st2,
        nodes,
        #[trigger] st2.links[e],
    ) by {
        let ent = st1.links[e];
        assert(entry_wf(st1, nodes, ent));
        assert(ent.line != st1.lines.len());
        assert(st2.lines[ent.line as int] == st1.lines[ent.line as int]);
        assert forall|l2: int, k: int|
            0 <= l2 < ent.line && 0 <= k < st2.lines[l2].len() implies (
        #[trigger] st2.lines[l2][k].index) < ent.index by {
            assert(st2.lines[l2] == st1.lines[l2]);
        }
    }
}

/// Processing one node preserves the layout invariant, with the bound
/// advanced past the node.
proof fn lemma_node_inv(st: St, nodes: Seq<DocNode>, i: int, theme: Theme, w: int)
    requires
        st_inv(st, nodes, i, w),
        0 <= i < nodes.len(),
    ensures
        st_inv(st_node(st, nodes, i, theme, w), nodes, i + 1, w),
{
    assert(words_below(flat_st(st), i + 1));
    assert(st_inv(st, nodes, i + 1, w));
    let style = crate::layout::node_style(nodes, i, theme);
    match nodes[i].data {
        crate::document::Data::Header { text, anchor: _ } => {
            lemma_blank_inv(st, nodes, i + 1, w);
            let st1 = st_blank(st);
            lemma_run_inv(st1, text@, Seq::empty(), style, i, false, w, nodes);
            let st2 = st_run(st1, text@, Seq::empty(), style, i as nat, false, w);
            lemma_blank_inv(st2, nodes, i + 1, w);
        },
        crate::document::Data::Text { content } => {
            lemma_run_inv(st, content@, Seq::empty(), style, i, false, w, nodes);
        },
        crate::document::Data::Link { link: _, text } => {
            assert(recorded_if_present(st, i as nat)) by {
                if exists|p: int|
                    0 <= p < flat_st(st).len() && (#[trigger] flat_st(st)[p].index) == i as nat {
                    let p = choose|p: int|
                        0 <= p < flat_st(st).len() && (#[trigger] flat_st(st)[p].index)
                            == i as nat;
                    assert(flat_st(st)[p].index < i);
                }
            }
            lemma_run_inv(st, text@, Seq::empty(), style, i, true, w, nodes);
        },
        crate::document::Data::List => {
            lemma_flush_inv(st, nodes, i + 1, w);
        },
        crate::document::Data::ListItem => {
            lemma_flush_inv(st, nodes, i + 1, w);
            lemma_emit_word_inv(st_flush(st), seq!['-'], style, i, false, w, nodes);
        },
        crate::document::Data::Newline => {
            lemma_break_inv(st, nodes, i + 1, w);
        },
        crate::document::Data::Effect { .. } => {},
    }
}

/// The layout invariant holds after any prefix of the document.
proof fn lemma_layout_inv(nodes: Seq<DocNode>, theme: Theme, w: int, n: int)
    requires
        0 <= n <= nodes.len(),
    ensures
        st_inv(spec_layout(nodes, theme, w, n), nodes, n, w),
    decreases n,
{
    if n == 0 {
        let st = st_init();
        assert(flat_st(st) =~= Seq::<WordV>::empty());
        assert(line_width(st.cur) == 0);
    } else {
        lemma_layout_inv(nodes, theme, w, n - 1);
        lemma_node_inv(spec_layout(nodes, theme, w, n - 1), nodes, n - 1, theme, w);
    }
}

/// Soundness of a finished rendering: lines fit the width, indices are
/// monotone, and each link-index entry names a link node whose first
/// line is exactly the recorded one.
pub open spec fn rd_wf(rd: RenderedDocumentV, nodes: Seq<DocNode>, w: int) -> bool {
    &&& words_mono(flat_lines(rd.lines))
    &&& (w >= 1 ==> lines_fit(rd.lines, w))
    &&& forall|e: int|
        0 <= e < rd.links.len() ==> {
            let ent = #[trigger] rd.links[e];
            &&& (ent.index as int) < nodes.len()
            &&& nodes[ent.index as int].data.spec_is_link()
            &&& ent.line < rd.lines.len()
            &&& (exists|k: int|
                0 <= k < rd.lines[ent.line as int].len() && (
                #[trigger] rd.lines[ent.line as int][k].index) == ent.index)
            &&& forall|l2: int, k: int|
                0 <= l2 < ent.line && 0 <= k < rd.lines[l2].len() ==> (
                #[trigger] rd.lines[l2][k].index) < ent.index
        }
}

/// What the default renderer yields is sound in the sense of `rd_wf`.
pub proof fn lemma_render_wf(nodes: Seq<DocNode>, theme: Theme, w: int)
    ensures
        rd_wf(spec_render(nodes, theme, w), nodes, w),
{
    lemma_layout_inv(nodes, theme, w, nodes.len() as int);
    let st = spec_layout(nodes, theme, w, nodes.len() as int);
    lemma_flush_inv(st, nodes, nodes.len() as int, w);
    let stf = st_flush(st);
    let rd = spec_render(nodes, theme, w);
    assert(rd.lines == stf.lines && rd.links == stf.links);
    assert(stf.cur.len() == 0);
    assert(flat_st(stf) =~= flat_lines(stf.lines));
    assert forall|e: int| 0 <= e < rd.links.len() implies {
        let ent = #[trigger] rd.links[e];
        &&& (ent.index as int) < nodes.len()
        &&& nodes[ent.index as int].data.spec_is_link()
        &&& ent.line < rd.lines.len()
        &&& (exists|k: int|
            0 <= k < rd.lines[ent.line as int].len() && (
            #[trigger] rd.lines[ent.line as int][k].index) == ent.index)
        &&& forall|l2: int, k: int|
            0 <= l2 < ent.line && 0 <= k < rd.lines[l2].len() ==> (
            #[trigger] rd.lines[l2][k].index) < ent.index
    } by {
        let ent = rd.links[e];
        assert(entry_wf(stf, nodes, ent));
        if ent.line == stf.lines.len() {
            assert(false);
        }
    }
}

/// Determinism of rendering: any two layout results of the same tree at
/// the same width and theme are identical, since the renderer's contract
/// pins its result to the pure layout fold.
pub proof fn lemma_render_deterministic(
    rd1: RenderedDocumentV,
    rd2: RenderedDocumentV,
    nodes: Seq<DocNode>,
    theme: Theme,
    w: int,
)
    requires
        rd1 == spec_render(nodes, theme, w),
        rd2 == spec_render(nodes, theme, w),
    ensures
        rd1 == rd2,
{
}

/// The word-wrap bound: in every line the default renderer produces at a
/// positive width, the word contents plus the inter-word spacing never
/// exceed that width.
pub proof fn lemma_word_wrap_bound(nodes: Seq<DocNode>, theme: Theme, w: int, y: int)
    requires
        w >= 1,
        0 <= y < spec_render(nodes, theme, w).lines.len(),
    ensures
        line_width(spec_render(nodes, theme, w).lines[y]) <= w,
{
    lemma_render_wf(nodes, theme, w);
}

/// Index monotonicity: across the rendered lines, in visual order, the
/// source node indices of the words never decrease.
pub proof fn lemma_index_monotonicity(nodes: Seq<DocNode>, theme: Theme, w: int)
    ensures
        words_mono(flat_lines(spec_render(nodes, theme, w).lines)),
{
    lemma_render_wf(nodes, theme, w);
}

/// In a layout whose every line is one word of the node numbered like
/// the line, the flat word sequence simply counts up.
proof fn lemma_singleton_lines_flat(lines: Seq<Seq<WordV>>)
    requires
        forall|y: int|
            0 <= y < lines.len() ==> (#[trigger] lines[y]).len() == 1 && lines[y][0].index
                == y as nat,
    ensures
        flat_lines(lines).len() == lines.len(),
        forall|p: int|
            0 <= p < lines.len() ==> (#[trigger] flat_lines(lines)[p].index) == p as nat,
    decreases lines.len(),
{
    if lines.len() > 0 {
        assert forall|y: int| 0 <= y < lines.drop_last().len() implies (
        #[trigger] lines.drop_last()[y]).len() == 1 && lines.drop_last()[y][0].index
            == y as nat by {
            assert(lines.drop_last()[y] == lines[y]);
        }
        lemma_singleton_lines_flat(lines.drop_last());
        assert(lines.last().len() == 1 && lines.last()[0].index == (lines.len() - 1) as nat);
    }
}

/// Index monotonicity holds in the diagnostic dump modes as well: each
/// node occupies its own line, in document order.
pub proof fn lemma_index_monotonicity_dump(
    nodes: Seq<DocNode>,
    theme: Theme,
    w: int,
    mode: crate::layout::Renderer,
)
    requires
        mode != crate::layout::Renderer::Default,
    ensures
        words_mono(flat_lines(crate::layout::spec_render_for_mode(nodes, theme, w, mode).lines)),
{
    let rd = crate::layout::spec_render_for_mode(nodes, theme, w, mode);
    lemma_singleton_lines_flat(rd.lines);
}

/// The selection order invariant: in every well-formed session state the
/// selection range's first index never exceeds its last.
pub proof fn lemma_selection_order(s: &PageComponent)
    requires
        s.wf(),
    ensures
        s.selected.0 <= s.selected.1,
{
}

/// The viewport clamp: any scroll lands the viewport top inside
/// `[0, max(0, total - height)]`.
pub proof fn lemma_viewport_clamp(pre: &PageComponent, post: &PageComponent, y: int)
    requires
        crate::page::post_scrolled_to(pre, post, y),
        y >= 0,
    ensures
        0 <= post.viewport.y,
        post.viewport.y as int <= ({
            let total = pre.spec_rd(pre.viewport.width as int).lines.len() as int;
            let h = pre.viewport.height as int;
            if total - h >= 0 {
                total - h
            } else {
                0
            }
        }),
{
    let total = pre.spec_rd(pre.viewport.width as int).lines.len() as int;
    let h = pre.viewport.height as int;
    crate::page::lemma_clamp_bounds(y, total, h);
}

/// Selection-to-viewport reconciliation is idempotent: once the viewport
/// was adjusted for the selection, adjusting it again moves nothing.
pub proof fn lemma_sync_scroll_idempotent(
    rd: RenderedDocumentV,
    f: int,
    l: int,
    y: int,
    h: int,
)
    requires
        h >= 1,
        y >= 0,
    ensures
        ({
            let y1 = PageComponent::spec_sel_to_vp_y(rd, f, l, y, h);
            PageComponent::spec_sel_to_vp_y(rd, f, l, y1, h) == y1
        }),
{
    crate::page::lemma_find_sel_line(rd.lines, f, l);
    let sy = spec_selected_y(rd, f, l);
    let total = rd.lines.len() as int;
    assert(0 <= sy);
    assert(sy < total || sy == 0);
}

/// The forward entry search returns an entry of the index, lying in view.
proof fn lemma_find_entry_fwd_mem(links: Seq<LinkEntryV>, y: int, h: int)
    ensures
        match crate::page::spec_find_entry_fwd(links, y, h) {
            Some(e) => crate::page::entry_in_view(e, y, h) && exists|i: int|
                0 <= i < links.len() && links[i] == e,
            None => true,
        },
    decreases links.len(),
{
    if links.len() > 0 {
        if crate::page::entry_in_view(links[0], y, h) {
            assert(links[0] == links[0]);
        } else {
            lemma_find_entry_fwd_mem(links.drop_first(), y, h);
            match crate::page::spec_find_entry_fwd(links.drop_first(), y, h) {
                Some(e) => {
                    let i = choose|i: int|
                        0 <= i < links.drop_first().len() && links.drop_first()[i] == e;
                    assert(links[i + 1] == e);
                },
                None => {},
            }
        }
    }
}

/// The backward entry search returns an entry of the index, lying in view.
proof fn lemma_find_entry_bwd_mem(links: Seq<LinkEntryV>, y: int, h: int)
    ensures
        match crate::page::spec_find_entry_bwd(links, y, h) {
            Some(e) => crate::page::entry_in_view(e, y, h) && exists|i: int|
                0 <= i < links.len() && links[i] == e,
            None => true,
        },
    decreases links.len(),
{
    if links.len() > 0 {
        if crate::page::entry_in_view(links.last(), y, h) {
            assert(links[links.len() - 1] == links.last());
        } else {
            lemma_find_entry_bwd_mem(links.drop_last(), y, h);
            match crate::page::spec_find_entry_bwd(links.drop_last(), y, h) {
                Some(e) => {
                    let i = choose|i: int|
                        0 <= i < links.drop_last().len() && links.drop_last()[i] == e;
                    assert(links[i] == e);
                },
                None => {},
            }
        }
    }
}

/// The selection snapped to a link-index entry sits exactly on the
/// entry's line: the recorded line holds a word of the link, and every
/// earlier line holds only words of earlier nodes.
proof fn lemma_selected_y_of_entry(
    rd: RenderedDocumentV,
    nodes: Seq<DocNode>,
    w: int,
    ent: LinkEntryV,
    l: int,
)
    requires
        rd_wf(rd, nodes, w),
        exists|i: int| 0 <= i < rd.links.len() && rd.links[i] == ent,
        ent.index as int <= l,
    ensures
        spec_selected_y(rd, ent.index as int, l) == ent.line as int,
{
    let e = choose|i: int| 0 <= i < rd.links.len() && rd.links[i] == ent;
    assert(rd.links[e] == ent);
    let f = ent.index as int;
    let k = choose|k: int|
        0 <= k < rd.lines[ent.line as int].len() && (
        #[trigger] rd.lines[ent.line as int][k].index) == ent.index;
    assert(crate::page::line_has_index_in(rd.lines[ent.line as int], f, l));
    assert forall|y2: int| 0 <= y2 < ent.line implies !crate::page::line_has_index_in(
        #[trigger] rd.lines[y2],
        f,
        l,
    ) by {
        if crate::page::line_has_index_in(rd.lines[y2], f, l) {
            let k2 = choose|k2: int|
                0 <= k2 < rd.lines[y2].len() && f <= (#[trigger] rd.lines[y2][k2].index) <= l;
            assert(rd.lines[y2][k2].index < ent.index);
        }
    }
    crate::page::lemma_find_sel_line_is(rd.lines, f, l, ent.line as int);
}

/// Viewport-to-selection reconciliation is idempotent: once the
/// selection was snapped for the viewport, snapping again changes
/// nothing.
pub proof fn lemma_sync_selection_idempotent(
    rd: RenderedDocumentV,
    nodes: Seq<DocNode>,
    w: int,
    f: int,
    l: int,
    y: int,
    h: int,
)
    requires
        rd_wf(rd, nodes, w),
        crate::document::nodes_wf(nodes),
    ensures
        ({
            let s = PageComponent::spec_vp_to_sel(rd, nodes, f, l, y, h);
            PageComponent::spec_vp_to_sel(rd, nodes, s.0, s.1, y, h) == s
        }),
{
    let s = PageComponent::spec_vp_to_sel(rd, nodes, f, l, y, h);
    if s == (f, l) {
    } else {
        let sy = spec_selected_y(rd, f, l);
        let ent = if sy < y {
            lemma_find_entry_fwd_mem(rd.links, y, h);
            crate::page::spec_find_entry_fwd(rd.links, y, h)->Some_0
        } else {
            lemma_find_entry_bwd_mem(rd.links, y, h);
            crate::page::spec_find_entry_bwd(rd.links, y, h)->Some_0
        };
        assert(s.0 == ent.index as int && s.1 == nodes[ent.index as int].last_descendant as int);
        assert(ent.index as int <= s.1) by {
            assert(nodes[ent.index as int].last_descendant >= ent.index as int);
        }
        lemma_selected_y_of_entry(rd, nodes, w, ent, s.1);
        assert(spec_selected_y(rd, s.0, s.1) == ent.line as int);
        assert(y <= ent.line < y + h);
    }
}

/// The dump renderers produce an empty link index.
proof fn lemma_dump_links_empty(nodes: Seq<DocNode>, theme: Theme, w: int, mode: crate::layout::Renderer)
    requires
        mode != crate::layout::Renderer::Default,
    ensures
        crate::layout::spec_render_for_mode(nodes, theme, w, mode).links.len() == 0,
{
}

/// Sync convergence for a live session: reconciling the selection with
/// the viewport a second time changes nothing, in every rendering mode.
pub proof fn lemma_session_selection_sync_stable(s: &PageComponent)
    requires
        s.wf(),
    ensures
        ({
            let rd = s.spec_rd(s.viewport.width as int);
            let sel = PageComponent::spec_vp_to_sel(
                rd,
                s.page.content@,
                s.selected.0 as int,
                s.selected.1 as int,
                s.viewport.y as int,
                s.viewport.height as int,
            );
            PageComponent::spec_vp_to_sel(
                rd,
                s.page.content@,
                sel.0,
                sel.1,
                s.viewport.y as int,
                s.viewport.height as int,
            ) == sel
        }),
{
    let rd = s.spec_rd(s.viewport.width as int);
    let nodes = s.page.content@;
    let f = s.selected.0 as int;
    let l = s.selected.1 as int;
    let y = s.viewport.y as int;
    let h = s.viewport.height as int;
    if s.renderer == crate::layout::Renderer::Default {
        lemma_render_wf(nodes, s.theme, s.viewport.width as int);
        lemma_sync_selection_idempotent(
            rd,
            nodes,
            s.viewport.width as int,
            f,
            l,
            y,
            h,
        );
    } else {
        // the diagnostic dumps index no links, so the reconciliation
        // never moves the selection at all
        lemma_dump_links_empty(nodes, s.theme, s.viewport.width as int, s.renderer);
        let sel = PageComponent::spec_vp_to_sel(rd, nodes, f, l, y, h);
        assert(sel == (f, l));
    }
}

/// Sync convergence for a live session, the other direction: adjusting
/// the viewport for the selection a second time moves nothing, whenever
/// the viewport has at least one visible line.
pub proof fn lemma_session_scroll_sync_stable(s: &PageComponent)
    requires
        s.wf(),
        s.viewport.height >= 1,
    ensures
        ({
            let rd = s.spec_rd(s.viewport.width as int);
            let y1 = PageComponent::spec_sel_to_vp_y(
                rd,
                s.selected.0 as int,
                s.selected.1 as int,
                s.viewport.y as int,
                s.viewport.height as int,
            );
            PageComponent::spec_sel_to_vp_y(
                rd,
                s.selected.0 as int,
                s.selected.1 as int,
                y1,
                s.viewport.height as int,
            ) == y1
        }),
{
    lemma_sync_scroll_idempotent(
        s.spec_rd(s.viewport.width as int),
        s.selected.0 as int,
        s.selected.1 as int,
        s.viewport.y as int,
        s.viewport.height as int,
    );
}

} // verus!
