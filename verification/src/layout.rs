//! The layout engine: walks the document tree in order and produces a
//! `RenderedDocument` for a given display width — word-wrapped, styled
//! lines whose words keep a back-reference to their source node, plus an
//! index of the lines on which each link first appears.
//!
//! The whole engine is specified by one pure fold (`spec_layout`): the
//! executable renderer is proved to return exactly that fold's result, so
//! rendering is deterministic by construction.

use vstd::prelude::*;

use crate::document::{Data, DocNode, Document};
use crate::style::{Style, Theme};

verus! {

/// A wrapped text fragment: its content, the width of the whitespace that
/// follows it on the line, its style, and the index of the node it came
/// from.
#[derive(Clone, Debug, PartialEq, Eq)]
pub struct Word {
    pub content: String,
    pub whitespace: usize,
    pub style: Style,
    pub index: usize,
}

/// The mathematical value of a `Word`.
pub struct WordV {
    pub content: Seq<char>,
    pub whitespace: nat,
    pub style: Style,
    pub index: nat,
}

impl View for Word {
    type V = WordV;

    open spec fn view(&self) -> WordV {
        WordV {
            content: self.content@,
            whitespace: self.whitespace as nat,
            style: self.style,
            index: self.index as nat,
        }
    }
}

/// One entry of the link index: `line` is the first display line on which
/// the link node `index` appears.
#[derive(Clone, Copy, Debug, PartialEq, Eq, Structural)]
pub struct LinkEntry {
    pub line: usize,
    pub index: usize,
}

/// The mathematical value of a `LinkEntry`.
pub struct LinkEntryV {
    pub line: nat,
    pub index: nat,
}

impl View for LinkEntry {
    type V = LinkEntryV;

    open spec fn view(&self) -> LinkEntryV {
        LinkEntryV { line: self.line as nat, index: self.index as nat }
    }
}

/// The width one word takes up on a line: its content plus the whitespace
/// that follows it.
pub open spec fn word_width(w: WordV) -> int {
    w.content.len() + w.whitespace as int
}

/// The total width of a line.
pub open spec fn line_width(l: Seq<WordV>) -> int
    decreases l.len(),
{
    if l.len() == 0 {
        0
    } else {
        line_width(l.drop_last()) + word_width(l.last())
    }
}

/// The view of a sequence of words.
pub open spec fn words_view(v: Seq<Word>) -> Seq<WordV> {
    Seq::new(v.len(), |i: int| v[i]@)
}

/// The view of a sequence of lines.
pub open spec fn lines_view(v: Seq<Vec<Word>>) -> Seq<Seq<WordV>> {
    Seq::new(v.len(), |i: int| words_view(v[i]@))
}

/// The view of a link index.
pub open spec fn links_view(v: Seq<LinkEntry>) -> Seq<LinkEntryV> {
    Seq::new(v.len(), |i: int| v[i]@)
}

/// Intermediate layout state: the completed lines, the line being built,
/// and the link index so far.  The line being built, once completed, will
/// be the line numbered `lines.len()`.
#[verifier::ext_equal]
pub struct St {
    pub lines: Seq<Seq<WordV>>,
    pub cur: Seq<WordV>,
    pub links: Seq<LinkEntryV>,
}

/// The empty layout state.
pub open spec fn st_init() -> St {
    St { lines: Seq::empty(), cur: Seq::empty(), links: Seq::empty() }
}

/// The last word of `l` with its trailing whitespace widened by one: the
/// inter-word space added before a further word is appended.
pub open spec fn bump_last(l: Seq<WordV>) -> Seq<WordV>
    recommends
        l.len() > 0,
{
    l.update(
        l.len() - 1,
        WordV {
            content: l.last().content,
            whitespace: l.last().whitespace + 1,
            style: l.last().style,
            index: l.last().index,
        },
    )
}

/// Places one word: appends it to the current line when it fits after an
/// inter-word space, and otherwise completes the current line and starts a
/// new one with it.  When the word belongs to a link node whose first word
/// this is, the link index records the line the word lands on.
pub open spec fn st_emit_word(
    st: St,
    content: Seq<char>,
    style: Style,
    index: nat,
    is_link: bool,
    w: int,
) -> St {
    let wv = WordV { content, whitespace: 0, style, index };
    let (nlines, ncur): (Seq<Seq<WordV>>, Seq<WordV>) = if st.cur.len() == 0 {
        (st.lines, seq![wv])
    } else if line_width(st.cur) + 1 + content.len() <= w {
        (st.lines, bump_last(st.cur).push(wv))
    } else {
        (st.lines.push(st.cur), seq![wv])
    };
    let nlinks = if is_link && (st.links.len() == 0 || st.links.last().index != index) {
        st.links.push(LinkEntryV { line: nlines.len(), index })
    } else {
        st.links
    };
    St { lines: nlines, cur: ncur, links: nlinks }
}

/// Word-wraps one text run: whitespace separates words, and a word that
/// reaches the full display width is hard-broken there.  `buf` is the part
/// of the current word read so far.
pub open spec fn st_run(
    st: St,
    s: Seq<char>,
    buf: Seq<char>,
    style: Style,
    index: nat,
    is_link: bool,
    w: int,
) -> St
    decreases s.len(),
{
    if s.len() == 0 {
        if buf.len() > 0 {
            st_emit_word(st, buf, style, index, is_link, w)
        } else {
            st
        }
    } else {
        let c = s[0];
        if c == ' ' {
            let st1 = if buf.len() > 0 {
                st_emit_word(st, buf, style, index, is_link, w)
            } else {
                st
            };
            st_run(st1, s.drop_first(), Seq::empty(), style, index, is_link, w)
        } else {
            let b2 = buf.push(c);
            if b2.len() == w {
                st_run(
                    st_emit_word(st, b2, style, index, is_link, w),
                    s.drop_first(),
                    Seq::empty(),
                    style,
                    index,
                    is_link,
                    w,
                )
            } else {
                st_run(st, s.drop_first(), b2, style, index, is_link, w)
            }
        }
    }
}

/// Completes the current line if it holds any words.
pub open spec fn st_flush(st: St) -> St {
    if st.cur.len() > 0 {
        St { lines: st.lines.push(st.cur), cur: Seq::empty(), links: st.links }
    } else {
        st
    }
}

/// An explicit line break: completes the current line, producing an empty
/// line where no words were pending.
pub open spec fn st_break(st: St) -> St {
    St { lines: st.lines.push(st.cur), cur: Seq::empty(), links: st.links }
}

/// Completes the current line and then adds one blank line.
pub open spec fn st_blank(st: St) -> St {
    let f = st_flush(st);
    St { lines: f.lines.push(Seq::empty()), cur: f.cur, links: f.links }
}

/// Whether an emphasis node with the bold flag encloses node `i`.
pub open spec fn eff_bold(nodes: Seq<DocNode>, i: int) -> bool {
    exists|j: int|
        0 <= j < i && i <= #[trigger] nodes[j].last_descendant && (nodes[j].data matches Data::Effect {
            bold: true,
            ..
        })
}

/// Whether an emphasis node with the italic flag encloses node `i`.
pub open spec fn eff_italic(nodes: Seq<DocNode>, i: int) -> bool {
    exists|j: int|
        0 <= j < i && i <= #[trigger] nodes[j].last_descendant && (nodes[j].data matches Data::Effect {
            italic: true,
            ..
        })
}

/// Whether an emphasis node with the underline flag encloses node `i`.
pub open spec fn eff_underline(nodes: Seq<DocNode>, i: int) -> bool {
    exists|j: int|
        0 <= j < i && i <= #[trigger] nodes[j].last_descendant && (nodes[j].data matches Data::Effect {
            underline: true,
            ..
        })
}

/// The style node `i` renders with: the base style of its kind composed
/// with the emphasis flags of the nodes that enclose it.
pub open spec fn node_style(nodes: Seq<DocNode>, i: int, theme: Theme) -> Style {
    let base = match nodes[i].data {
        Data::Header { .. } => theme.title,
        Data::Link { .. } => theme.link,
        _ => theme.text,
    };
    base.spec_with_effects(eff_bold(nodes, i), eff_italic(nodes, i), eff_underline(nodes, i))
}

/// Processes one node: headers get one leading and one trailing blank
/// line, text and link runs are word-wrapped, list items start a fresh
/// marked line, explicit breaks end the line, and emphasis nodes
/// contribute nothing of their own.
pub open spec fn st_node(st: St, nodes: Seq<DocNode>, i: int, theme: Theme, w: int) -> St {
    let style = node_style(nodes, i, theme);
    match nodes[i].data {
        Data::Header { text, anchor: _ } => {
            let st1 = st_blank(st);
            let st2 = st_run(st1, text@, Seq::empty(), style, i as nat, false, w);
            st_blank(st2)
        },
        Data::Text { content } => st_run(st, content@, Seq::empty(), style, i as nat, false, w),
        Data::Link { link: _, text } => st_run(
            st,
            text@,
            Seq::empty(),
            style,
            i as nat,
            true,
            w,
        ),
        Data::List => st_flush(st),
        Data::ListItem => st_emit_word(st_flush(st), seq!['-'], style, i as nat, false, w),
        Data::Newline => st_break(st),
        Data::Effect { .. } => st,
    }
}

/// The layout state after the first `n` nodes.
pub open spec fn spec_layout(nodes: Seq<DocNode>, theme: Theme, w: int, n: int) -> St
    decreases n,
{
    if n <= 0 {
        st_init()
    } else {
        st_node(spec_layout(nodes, theme, w, n - 1), nodes, n - 1, theme, w)
    }
}

/// The mathematical value of a `RenderedDocument`.
#[verifier::ext_equal]
pub struct RenderedDocumentV {
    pub lines: Seq<Seq<WordV>>,
    pub links: Seq<LinkEntryV>,
}

/// What rendering the whole document at width `w` yields.
pub open spec fn spec_render(nodes: Seq<DocNode>, theme: Theme, w: int) -> RenderedDocumentV {
    let f = st_flush(spec_layout(nodes, theme, w, nodes.len() as int));
    RenderedDocumentV { lines: f.lines, links: f.links }
}

/// A width-specific layout result: display lines of styled words in strict
/// top-to-bottom order, plus the link index.
#[derive(Debug, PartialEq, Eq)]
pub struct RenderedDocument {
    pub lines: Vec<Vec<Word>>,
    pub links: Vec<LinkEntry>,
}

impl View for RenderedDocument {
    type V = RenderedDocumentV;

    open spec fn view(&self) -> RenderedDocumentV {
        RenderedDocumentV { lines: lines_view(self.lines@), links: links_view(self.links@) }
    }
}

impl RenderedDocument {
    /// The number of display lines.
    pub fn line_count(&self) -> (r: usize)
        ensures
            r == self@.lines.len(),
    {
        self.lines.len()
    }
}

/// The layout builder: the executable mirror of `St`, with the running
/// width of the current line cached.
struct Builder {
    lines: Vec<Vec<Word>>,
    cur: Vec<Word>,
    cur_width: usize,
    links: Vec<LinkEntry>,
}

impl Builder {
    spec fn view(&self) -> St {
        St {
            lines: lines_view(self.lines@),
            cur: words_view(self.cur@),
            links: links_view(self.links@),
        }
    }

    spec fn inv(&self) -> bool {
        &&& self.cur_width == line_width(words_view(self.cur@))
        &&& (self.cur@.len() > 0 ==> self.cur@.last()@.whitespace == 0)
        &&& self.cur_width <= usize::MAX - 2
    }

    fn new() -> (r: Builder)
        ensures
            r.inv(),
            r@ =~~= st_init(),
    {
        let r = Builder { lines: Vec::new(), cur: Vec::new(), cur_width: 0, links: Vec::new() };
        proof {
            assert(words_view(r.cur@) =~= Seq::<WordV>::empty());
            assert(lines_view(r.lines@) =~= Seq::<Seq<WordV>>::empty());
            assert(links_view(r.links@) =~= Seq::<LinkEntryV>::empty());
        }
        r
    }

    /// Moves the current line into the completed lines unconditionally.
    fn push_cur(&mut self)
        requires
            old(self).inv(),
        ensures
            final(self).inv(),
            final(self)@ =~~= (St {
                lines: old(self)@.lines.push(old(self)@.cur),
                cur: Seq::empty(),
                links: old(self)@.links,
            }),
    {
        let mut tmp: Vec<Word> = Vec::new();
        core::mem::swap(&mut self.cur, &mut tmp);
        self.lines.push(tmp);
        self.cur_width = 0;
        proof {
            assert(words_view(self.cur@) =~= Seq::<WordV>::empty());
            assert(lines_view(self.lines@) =~~= lines_view(old(self).lines@).push(
                words_view(old(self).cur@),
            ));
        }
    }

    fn flush(&mut self)
        requires
            old(self).inv(),
        ensures
            final(self).inv(),
            final(self)@ =~~= st_flush(old(self)@),
    {
        if self.cur.len() > 0 {
            self.push_cur();
        }
    }

    fn break_line(&mut self)
        requires
            old(self).inv(),
        ensures
            final(self).inv(),
            final(self)@ =~~= st_break(old(self)@),
    {
        self.push_cur();
    }

    fn blank(&mut self)
        requires
            old(self).inv(),
        ensures
            final(self).inv(),
            final(self)@ =~~= st_blank(old(self)@),
    {
        self.flush();
        self.lines.push(Vec::new());
        proof {
            assert(words_view(Seq::<Word>::empty()) =~= Seq::<WordV>::empty());
            assert(lines_view(self.lines@) =~~= st_blank(old(self)@).lines);
        }
    }

    fn emit_word(&mut self, content: String, style: Style, index: usize, is_link: bool, w: u16)
        requires
            old(self).inv(),
            content@.len() <= usize::MAX - 2,
        ensures
            final(self).inv(),
            final(self)@ =~~= st_emit_word(
                old(self)@,
                content@,
                style,
                index as nat,
                is_link,
                w as int,
            ),
    {
        let clen = content.as_str().unicode_len();
        let word = Word { content, whitespace: 0, style, index };
        if self.cur.len() == 0 {
            self.cur.push(word);
            self.cur_width = clen;
            proof {
                assert(words_view(self.cur@) =~= seq![word@]);
                assert(words_view(self.cur@).drop_last() =~= Seq::<WordV>::empty());
                assert(line_width(Seq::<WordV>::empty()) == 0);
                assert(words_view(self.cur@).last() == word@);
                assert(line_width(words_view(self.cur@)) == word_width(word@));
            }
        } else if self.cur_width < w as usize && clen <= w as usize - self.cur_width - 1 {
            let mut lastw = self.cur.pop().unwrap();
            lastw.whitespace = lastw.whitespace + 1;
            self.cur.push(lastw);
            self.cur.push(word);
            self.cur_width = self.cur_width + 1 + clen;
            proof {
                let oldcur = words_view(old(self).cur@);
                assert(words_view(self.cur@) =~= bump_last(oldcur).push(word@));
                lemma_line_width_bump_push(oldcur, word@);
            }
        } else {
            self.push_cur();
            self.cur.push(word);
            self.cur_width = clen;
            proof {
                assert(words_view(self.cur@) =~= seq![word@]);
                assert(words_view(self.cur@).drop_last() =~= Seq::<WordV>::empty());
                assert(line_width(Seq::<WordV>::empty()) == 0);
                assert(words_view(self.cur@).last() == word@);
                assert(line_width(words_view(self.cur@)) == word_width(word@));
            }
        }
        if is_link && (self.links.len() == 0 || self.links[self.links.len() - 1].index != index) {
            let entry = LinkEntry { line: self.lines.len(), index };
            self.links.push(entry);
            proof {
                assert(links_view(self.links@) =~= links_view(old(self).links@).push(entry@));
            }
        }
    }

    /// Word-wraps one text run into the layout.
    fn emit_run(&mut self, s: &str, style: Style, index: usize, is_link: bool, w: u16)
        requires
            old(self).inv(),
            s@.len() <= usize::MAX - 2,
        ensures
            final(self).inv(),
            final(self)@ =~~= st_run(old(self)@, s@, Seq::empty(), style, index as nat, is_link, w as int),
    {
        let ghost target = st_run(
            old(self)@,
            s@,
            Seq::empty(),
            style,
            index as nat,
            is_link,
            w as int,
        );
        let n = s.unicode_len();
        let mut i: usize = 0;
        let mut start: usize = 0;
        proof {
            assert(s@.skip(0) =~= s@);
            assert(s@.subrange(0, 0) =~= Seq::<char>::empty());
        }
        while i < n
            invariant
                self.inv(),
                start <= i <= n,
                n == s@.len(),
                n <= usize::MAX - 2,
                w > 0 ==> i - start < w,
                target =~~= st_run(
                    self@,
                    s@.skip(i as int),
                    s@.subrange(start as int, i as int),
                    style,
                    index as nat,
                    is_link,
                    w as int,
                ),
            decreases n - i,
        {
            let ghost pre = self@;
            let ghost buf = s@.subrange(start as int, i as int);
            let c = s.get_char(i);
            proof {
                assert(s@.skip(i as int)[0] == c);
                assert(s@.skip(i as int).drop_first() =~= s@.skip(i + 1));
            }
            if c == ' ' {
                if start < i {
                    let wtxt = s.substring_char(start, i).to_owned();
                    self.emit_word(wtxt, style, index, is_link, w);
                }
                i = i + 1;
                start = i;
                proof {
                    assert(s@.subrange(start as int, i as int) =~= Seq::<char>::empty());
                }
            } else {
                i = i + 1;
                proof {
                    assert(s@.subrange(start as int, i as int) =~= buf.push(c));
                }
                if w > 0 && i - start == w as usize {
                    let wtxt = s.substring_char(start, i).to_owned();
                    self.emit_word(wtxt, style, index, is_link, w);
                    start = i;
                    proof {
                        assert(s@.subrange(start as int, i as int) =~= Seq::<char>::empty());
                    }
                }
            }
        }
        proof {
            assert(s@.skip(n as int) =~= Seq::<char>::empty());
        }
        if start < n {
            let wtxt = s.substring_char(start, n).to_owned();
            self.emit_word(wtxt, style, index, is_link, w);
        }
    }

    fn finish(self) -> (rd: RenderedDocument)
        requires
            self.inv(),
        ensures
            rd@.lines =~~= st_flush(self@).lines,
            rd@.links =~~= st_flush(self@).links,
    {
        let mut b = self;
        b.flush();
        RenderedDocument { lines: b.lines, links: b.links }
    }
}

pub proof fn lemma_line_width_bump_push(l: Seq<WordV>, wv: WordV)
    requires
        l.len() > 0,
        wv.whitespace == 0,
    ensures
        line_width(bump_last(l).push(wv)) == line_width(l) + 1 + wv.content.len(),
{
    let b = bump_last(l);
    assert(b.push(wv).drop_last() =~= b);
    assert(b.drop_last() =~= l.drop_last());
    assert(line_width(b.push(wv)) == line_width(b) + word_width(wv));
    assert(line_width(b) == line_width(b.drop_last()) + word_width(b.last()));
    assert(line_width(l) == line_width(l.drop_last()) + word_width(l.last()));
    assert(word_width(b.last()) == word_width(l.last()) + 1);
}

/// The emphasis flags active at node `i`: each is on exactly when an
/// enclosing emphasis node carries it.
fn effects_at(doc: &Document, i: usize) -> (r: (bool, bool, bool))
    requires
        i < doc@.len(),
    ensures
        r.0 == eff_bold(doc@, i as int),
        r.1 == eff_italic(doc@, i as int),
        r.2 == eff_underline(doc@, i as int),
{
    let mut bold = false;
    let mut italic = false;
    let mut underline = false;
    let mut j: usize = 0;
    while j < i
        invariant
            j <= i < doc@.len(),
            bold == exists|k: int|
                0 <= k < j && i <= #[trigger] doc@[k].last_descendant && (
                doc@[k].data matches Data::Effect { bold: true, .. }),
            italic == exists|k: int|
                0 <= k < j && i <= #[trigger] doc@[k].last_descendant && (
                doc@[k].data matches Data::Effect { italic: true, .. }),
            underline == exists|k: int|
                0 <= k < j && i <= #[trigger] doc@[k].last_descendant && (
                doc@[k].data matches Data::Effect { underline: true, .. }),
        decreases i - j,
    {
        let node = doc.node(j);
        if node.last_descendant >= i {
            match &node.data {
                Data::Effect { bold: b, italic: it, underline: u } => {
                    bold = bold || *b;
                    italic = italic || *it;
                    underline = underline || *u;
                },
                _ => {},
            }
        }
        j = j + 1;
    }
    (bold, italic, underline)
}

/// Renders the document at width `w`: the executable layout engine,
/// returning exactly the value of the pure layout fold.
pub fn render_document(doc: &Document, theme: Theme, w: u16) -> (rd: RenderedDocument)
    requires
        doc.wf(),
        forall|i: int|
            0 <= i < doc@.len() ==> match #[trigger] doc@[i].data {
                Data::Header { text, .. } => text@.len() <= usize::MAX - 2,
                Data::Text { content } => content@.len() <= usize::MAX - 2,
                Data::Link { text, .. } => text@.len() <= usize::MAX - 2,
                _ => true,
            },
    ensures
        rd@ =~~= spec_render(doc@, theme, w as int),
{
    let mut b = Builder::new();
    let n = doc.len();
    let mut i: usize = 0;
    while i < n
        invariant
            b.inv(),
            i <= n,
            n == doc@.len(),
            doc.wf(),
            forall|k: int|
                0 <= k < doc@.len() ==> match #[trigger] doc@[k].data {
                    Data::Header { text, .. } => text@.len() <= usize::MAX - 2,
                    Data::Text { content } => content@.len() <= usize::MAX - 2,
                    Data::Link { text, .. } => text@.len() <= usize::MAX - 2,
                    _ => true,
                },
            b@ =~~= spec_layout(doc@, theme, w as int, i as int),
        decreases n - i,
    {
        let (bold, italic, underline) = effects_at(doc, i);
        let node = doc.node(i);
        match &node.data {
            Data::Header { text, anchor: _ } => {
                let style = Style {
                    fg: theme.title.fg,
                    bg: theme.title.bg,
                    bold: theme.title.bold || bold,
                    italic: theme.title.italic || italic,
                    underline: theme.title.underline || underline,
                };
                emit_header(&mut b, text, style, i, false, w);
            },
            Data::Text { content } => {
                let style = Style {
                    fg: theme.text.fg,
                    bg: theme.text.bg,
                    bold: theme.text.bold || bold,
                    italic: theme.text.italic || italic,
                    underline: theme.text.underline || underline,
                };
                b.emit_run(content.as_str(), style, i, false, w);
            },
            Data::Link { link: _, text } => {
                let style = Style {
                    fg: theme.link.fg,
                    bg: theme.link.bg,
                    bold: theme.link.bold || bold,
                    italic: theme.link.italic || italic,
                    underline: theme.link.underline || underline,
                };
                b.emit_run(text.as_str(), style, i, true, w);
            },
            Data::List => {
                b.flush();
            },
            Data::ListItem => {
                let style = Style {
                    fg: theme.text.fg,
                    bg: theme.text.bg,
                    bold: theme.text.bold || bold,
                    italic: theme.text.italic || italic,
                    underline: theme.text.underline || underline,
                };
                b.flush();
                let marker = "-".to_owned();
                proof {
                    reveal_strlit("-");
                    assert(marker@ =~= seq!['-']);
                }
                b.emit_word(marker, style, i, false, w);
            },
            Data::Newline => {
                b.break_line();
            },
            Data::Effect { .. } => {},
        }
        i = i + 1;
    }
    b.finish()
}

/// Header layout: leading blank line, the wrapped header text, trailing
/// blank line.
fn emit_header(b: &mut Builder, text: &String, style: Style, index: usize, is_link: bool, w: u16)
    requires
        old(b).inv(),
        text@.len() <= usize::MAX - 2,
    ensures
        final(b).inv(),
        final(b)@ =~~= st_blank(
            st_run(
                st_blank(old(b)@),
                text@,
                Seq::empty(),
                style,
                index as nat,
                is_link,
                w as int,
            ),
        ),
{
    b.blank();
    b.emit_run(text.as_str(), style, index, is_link, w);
    b.blank();
}

/// The selectable rendering mode: the default word-wrapping renderer plus
/// diagnostic renderers that dump the tree or the nodes raw.  Switching
/// modes invalidates every cached layout.
#[derive(Clone, Copy, Debug, PartialEq, Eq, Structural)]
pub enum Renderer {
    Default,
    TestRendererTreeData,
    TestRendererTreeRaw,
    TestRendererNodeRaw,
}

impl Renderer {
    /// The mode `next` cycles to.
    pub open spec fn spec_next(self) -> Renderer {
        match self {
            Renderer::Default => Renderer::TestRendererTreeData,
            Renderer::TestRendererTreeData => Renderer::TestRendererTreeRaw,
            Renderer::TestRendererTreeRaw => Renderer::TestRendererNodeRaw,
            Renderer::TestRendererNodeRaw => Renderer::Default,
        }
    }

    /// Cycles to the next rendering mode, returning to the default after
    /// the last diagnostic mode.
    pub fn next(&self) -> (r: Self)
        ensures
            r == self.spec_next(),
    {
        match self {
            Renderer::Default => Renderer::TestRendererTreeData,
            Renderer::TestRendererTreeData => Renderer::TestRendererTreeRaw,
            Renderer::TestRendererTreeRaw => Renderer::TestRendererNodeRaw,
            Renderer::TestRendererNodeRaw => Renderer::Default,
        }
    }
}

impl Default for Renderer {
    /// The default mode is the word-wrapping renderer.
    fn default() -> (r: Self)
        ensures
            r == Renderer::Default,
    {
        Renderer::Default
    }
}

/// The text a node contributes to a diagnostic dump.
pub open spec fn node_text(data: Data) -> Seq<char> {
    match data {
        Data::Header { text, .. } => text@,
        Data::Text { content } => content@,
        Data::Link { link: _, text } => text@,
        Data::ListItem => seq!['-'],
        _ => Seq::empty(),
    }
}

/// The tag character a node kind dumps as.
pub open spec fn node_tag(data: Data) -> Seq<char> {
    match data {
        Data::Header { .. } => seq!['H'],
        Data::Text { .. } => seq!['T'],
        Data::Link { .. } => seq!['L'],
        Data::List => seq!['U'],
        Data::ListItem => seq!['I'],
        Data::Newline => seq!['N'],
        Data::Effect { .. } => seq!['E'],
    }
}

/// The tree-data dump: one line per node holding the node's text.
pub open spec fn spec_dump_data(nodes: Seq<DocNode>, theme: Theme) -> RenderedDocumentV {
    RenderedDocumentV {
        lines: Seq::new(
            nodes.len(),
            |i: int|
                seq![
                    WordV {
                        content: node_text(nodes[i].data),
                        whitespace: 0,
                        style: theme.text,
                        index: i as nat,
                    },
                ],
        ),
        links: Seq::empty(),
    }
}

/// The raw tree dump: one line per node holding the node's kind tag and
/// its text.
pub open spec fn spec_dump_raw(nodes: Seq<DocNode>, theme: Theme) -> RenderedDocumentV {
    RenderedDocumentV {
        lines: Seq::new(
            nodes.len(),
            |i: int|
                seq![
                    WordV {
                        content: node_tag(nodes[i].data) + node_text(nodes[i].data),
                        whitespace: 0,
                        style: theme.text,
                        index: i as nat,
                    },
                ],
        ),
        links: Seq::empty(),
    }
}

/// What a rendering mode yields on a document: the default mode renders
/// at the given width, the diagnostic modes dump regardless of width.
pub open spec fn spec_render_for_mode(
    nodes: Seq<DocNode>,
    theme: Theme,
    w: int,
    mode: Renderer,
) -> RenderedDocumentV {
    match mode {
        Renderer::Default => spec_render(nodes, theme, w),
        Renderer::TestRendererTreeData => spec_dump_data(nodes, theme),
        Renderer::TestRendererNodeRaw => spec_dump_data(nodes, theme),
        Renderer::TestRendererTreeRaw => spec_dump_raw(nodes, theme),
    }
}

/// The tag string the raw dump prefixes a node's text with.
fn node_tag_str(data: &Data) -> (r: &'static str)
    ensures
        r@ == node_tag(*data),
{
    proof {
        reveal_strlit("H");
        reveal_strlit("T");
        reveal_strlit("L");
        reveal_strlit("U");
        reveal_strlit("I");
        reveal_strlit("N");
        reveal_strlit("E");
    }
    match data {
        Data::Header { .. } => "H",
        Data::Text { .. } => "T",
        Data::Link { .. } => "L",
        Data::List => "U",
        Data::ListItem => "I",
        Data::Newline => "N",
        Data::Effect { .. } => "E",
    }
}

/// The node's dump text as an owned string.
fn node_text_string(data: &Data) -> (r: String)
    ensures
        r@ == node_text(*data),
{
    proof {
        reveal_strlit("-");
        reveal_strlit("");
    }
    match data {
        Data::Header { text, .. } => text.clone(),
        Data::Text { content } => content.clone(),
        Data::Link { link: _, text } => text.clone(),
        Data::ListItem => "-".to_owned(),
        _ => "".to_owned(),
    }
}

/// Renders a diagnostic dump: one line per node, optionally tagged with
/// the node's kind.
fn render_dump(doc: &Document, theme: Theme, tagged: bool) -> (rd: RenderedDocument)
    ensures
        tagged ==> rd@ =~~= spec_dump_raw(doc@, theme),
        !tagged ==> rd@ =~~= spec_dump_data(doc@, theme),
{
    let ghost target = if tagged {
        spec_dump_raw(doc@, theme)
    } else {
        spec_dump_data(doc@, theme)
    };
    let mut lines: Vec<Vec<Word>> = Vec::new();
    let n = doc.len();
    let mut i: usize = 0;
    proof {
        assert(lines_view(lines@) =~~= target.lines.take(0));
        assert(lines_view(lines@) == target.lines.take(0));
    }
    while i < n
        invariant
            i <= n,
            n == doc@.len(),
            target == (if tagged {
                spec_dump_raw(doc@, theme)
            } else {
                spec_dump_data(doc@, theme)
            }),
            lines_view(lines@) == target.lines.take(i as int),
        decreases n - i,
    {
        let node = doc.node(i);
        let content = if tagged {
            let mut s = node_tag_str(&node.data).to_owned();
            s.append(node_text_string(&node.data).as_str());
            s
        } else {
            node_text_string(&node.data)
        };
        let word = Word { content, whitespace: 0, style: theme.text, index: i };
        let mut line: Vec<Word> = Vec::new();
        line.push(word);
        let ghost prev = lines@;
        lines.push(line);
        proof {
            assert(prev.len() == lines_view(prev).len());
            assert(prev.len() == i);
            assert(words_view(line@) =~= seq![word@]);
            assert(word@.content =~= target.lines[i as int][0].content);
            assert(word@ == target.lines[i as int][0]);
            assert(words_view(line@) =~= target.lines[i as int]);
            assert forall|k: int| 0 <= k < i + 1 implies lines_view(lines@)[k] == target.lines.take(
                i + 1,
            )[k] by {
                if k < i {
                    assert(lines@[k] == prev[k]);
                    assert(lines_view(lines@)[k] == words_view(prev[k]@));
                    assert(lines_view(prev)[k] == words_view(prev[k]@));
                    assert(lines_view(prev)[k] == target.lines.take(i as int)[k]);
                } else {
                    assert(lines@[k] == line);
                }
            }
            assert(lines_view(lines@) =~~= target.lines.take(i + 1));
            assert(lines_view(lines@) == target.lines.take(i + 1));
        }
        i = i + 1;
    }
    proof {
        assert(target.lines.take(n as int) =~~= target.lines);
        assert(target.lines.take(n as int) == target.lines);
        assert(links_view(Seq::<LinkEntry>::empty()) =~= Seq::<LinkEntryV>::empty());
    }
    RenderedDocument { lines, links: Vec::new() }
}

/// Renders the document in the given mode at the given width.
pub fn render_for_mode(doc: &Document, theme: Theme, w: u16, mode: Renderer) -> (rd:
    RenderedDocument)
    requires
        doc.wf(),
        forall|i: int|
            0 <= i < doc@.len() ==> match #[trigger] doc@[i].data {
                Data::Header { text, .. } => text@.len() <= usize::MAX - 2,
                Data::Text { content } => content@.len() <= usize::MAX - 2,
                Data::Link { text, .. } => text@.len() <= usize::MAX - 2,
                _ => true,
            },
    ensures
        rd@ =~~= spec_render_for_mode(doc@, theme, w as int, mode),
{
    match mode {
        Renderer::Default => render_document(doc, theme, w),
        Renderer::TestRendererTreeData => render_dump(doc, theme, false),
        Renderer::TestRendererNodeRaw => render_dump(doc, theme, false),
        Renderer::TestRendererTreeRaw => render_dump(doc, theme, true),
    }
}

} // verus!
