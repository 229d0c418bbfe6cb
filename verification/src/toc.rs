//! The table-of-contents index: a flat, width-independent list of the
//! document's sections, derived once from its header nodes, plus the
//! compiled-article value that bundles a node list with its contents.

use vstd::prelude::*;

use crate::document::{Data, DocNode, Document};

verus! {

/// One section entry: its one-based number, its title text, and the
/// anchor identifier used for direct jumps, together with the index of
/// the header node it was derived from.
#[derive(Clone, Debug, PartialEq, Eq)]
pub struct Section {
    pub number: usize,
    pub text: String,
    pub anchor: String,
    pub node_index: usize,
}

/// The mathematical value of a `Section`.
pub struct SectionV {
    pub number: nat,
    pub text: Seq<char>,
    pub anchor: Seq<char>,
    pub node_index: nat,
}

impl View for Section {
    type V = SectionV;

    open spec fn view(&self) -> SectionV {
        SectionV {
            number: self.number as nat,
            text: self.text@,
            anchor: self.anchor@,
            node_index: self.node_index as nat,
        }
    }
}

/// The view of a section list.
pub open spec fn sections_view(v: Seq<Section>) -> Seq<SectionV> {
    Seq::new(v.len(), |i: int| v[i]@)
}

/// The sections derived from the first `n` nodes: one entry per header
/// node, numbered in order of appearance.
pub open spec fn spec_sections(nodes: Seq<DocNode>, n: int) -> Seq<SectionV>
    decreases n,
{
    if n <= 0 {
        Seq::empty()
    } else {
        let p = spec_sections(nodes, n - 1);
        match nodes[n - 1].data {
            Data::Header { text, anchor } => p.push(
                SectionV {
                    number: p.len() + 1,
                    text: text@,
                    anchor: anchor@,
                    node_index: (n - 1) as nat,
                },
            ),
            _ => p,
        }
    }
}

/// Builds the section list of a document: one entry per header node, in
/// document order, numbered from one.
pub fn build_sections(doc: &Document) -> (r: Vec<Section>)
    ensures
        sections_view(r@) == spec_sections(doc@, doc@.len() as int),
{
    let mut out: Vec<Section> = Vec::new();
    let n = doc.len();
    let mut i: usize = 0;
    proof {
        assert(sections_view(out@) =~= spec_sections(doc@, 0));
    }
    while i < n
        invariant
            i <= n,
            n == doc@.len(),
            sections_view(out@) == spec_sections(doc@, i as int),
            out@.len() <= i,
        decreases n - i,
    {
        let node = doc.node(i);
        match &node.data {
            Data::Header { text, anchor } => {
                let entry = Section {
                    number: out.len() + 1,
                    text: text.clone(),
                    anchor: anchor.clone(),
                    node_index: i,
                };
                let ghost prev = out@;
                out.push(entry);
                proof {
                    assert(sections_view(out@) =~= sections_view(prev).push(entry@));
                }
            },
            _ => {},
        }
        i = i + 1;
    }
    out
}

/// The table of contents: the ordered section list, supporting listing,
/// counting, and anchor resolution.
#[derive(Clone, Debug, PartialEq, Eq)]
pub struct TableOfContents {
    pub sections: Vec<Section>,
}

impl TableOfContents {
    /// Derives the table of contents from a document's header nodes.
    pub fn from_document(doc: &Document) -> (r: TableOfContents)
        ensures
            sections_view(r.sections@) == spec_sections(doc@, doc@.len() as int),
    {
        TableOfContents { sections: build_sections(doc) }
    }

    /// The number of sections.
    pub fn count(&self) -> (r: usize)
        ensures
            r == self.sections@.len(),
    {
        self.sections.len()
    }

    /// The section under the given list cursor.
    pub fn get(&self, i: usize) -> (r: &Section)
        requires
            i < self.sections@.len(),
        ensures
            *r == self.sections@[i as int],
    {
        &self.sections[i]
    }

    /// The node index of the first section whose anchor equals `anchor`,
    /// if any: `Some` exactly when a section carries that anchor.
    pub fn resolve_anchor(&self, anchor: &String) -> (r: Option<usize>)
        ensures
            match r {
                Some(idx) => exists|i: int|
                    0 <= i < self.sections@.len() && #[trigger] self.sections@[i].anchor@
                        == anchor@ && self.sections@[i].node_index == idx,
                None => forall|i: int|
                    0 <= i < self.sections@.len() ==> #[trigger] self.sections@[i].anchor@
                        != anchor@,
            },
    {
        let n = self.sections.len();
        let mut i: usize = 0;
        while i < n
            invariant
                i <= n,
                n == self.sections@.len(),
                forall|k: int| 0 <= k < i ==> #[trigger] self.sections@[k].anchor@ != anchor@,
            decreases n - i,
        {
            if self.sections[i].anchor == *anchor {
                return Some(self.sections[i].node_index);
            }
            i = i + 1;
        }
        None
    }
}

/// A fully parsed article: its node list together with an optional table
/// of contents.
#[derive(Debug, PartialEq, Eq)]
pub struct Article {
    elements: Vec<DocNode>,
    toc: Option<TableOfContents>,
}

impl Article {
    /// Bundles parsed elements with an optional table of contents.
    pub fn new(elements: Vec<DocNode>, toc: Option<TableOfContents>) -> (r: Article)
        ensures
            r.spec_elements() == elements@,
            r.spec_toc() == toc,
    {
        Article { elements, toc }
    }

    /// The elements this article holds.
    pub closed spec fn spec_elements(&self) -> Seq<DocNode> {
        self.elements@
    }

    /// The optional table of contents.
    pub closed spec fn spec_toc(&self) -> Option<TableOfContents> {
        self.toc
    }

    /// All of the elements contained in this article.
    pub fn elements(&self) -> (r: &Vec<DocNode>)
        ensures
            r@ == self.spec_elements(),
    {
        &self.elements
    }

    /// The optional table of contents.
    pub fn toc(&self) -> (r: Option<&TableOfContents>)
        ensures
            match r {
                Some(t) => self.spec_toc() is Some && *t == self.spec_toc()->Some_0,
                None => self.spec_toc() is None,
            },
    {
        self.toc.as_ref()
    }
}

/// The character for one decimal digit.
pub open spec fn digit_char(d: nat) -> char {
    if d == 0 {
        '0'
    } else if d == 1 {
        '1'
    } else if d == 2 {
        '2'
    } else if d == 3 {
        '3'
    } else if d == 4 {
        '4'
    } else if d == 5 {
        '5'
    } else if d == 6 {
        '6'
    } else if d == 7 {
        '7'
    } else if d == 8 {
        '8'
    } else {
        '9'
    }
}

/// The decimal digits of `n`, most significant first.
pub open spec fn spec_digits(n: nat) -> Seq<char>
    decreases n,
{
    if n < 10 {
        seq![digit_char(n)]
    } else {
        spec_digits(n / 10).push(digit_char(n % 10))
    }
}

/// One decimal digit as a string slice.
fn digit_str(d: u64) -> (r: &'static str)
    requires
        d < 10,
    ensures
        r@ == seq![digit_char(d as nat)],
{
    proof {
        reveal_strlit("0");
        reveal_strlit("1");
        reveal_strlit("2");
        reveal_strlit("3");
        reveal_strlit("4");
        reveal_strlit("5");
        reveal_strlit("6");
        reveal_strlit("7");
        reveal_strlit("8");
        reveal_strlit("9");
    }
    if d == 0 {
        "0"
    } else if d == 1 {
        "1"
    } else if d == 2 {
        "2"
    } else if d == 3 {
        "3"
    } else if d == 4 {
        "4"
    } else if d == 5 {
        "5"
    } else if d == 6 {
        "6"
    } else if d == 7 {
        "7"
    } else if d == 8 {
        "8"
    } else {
        "9"
    }
}

/// Writes `n` in decimal.
pub fn format_u64(n: u64) -> (r: String)
    ensures
        r@ == spec_digits(n as nat),
    decreases n,
{
    if n < 10 {
        digit_str(n).to_owned()
    } else {
        let mut s = format_u64(n / 10);
        s.append(digit_str(n % 10));
        proof {
            assert(spec_digits((n / 10) as nat) + seq![digit_char((n % 10) as nat)]
                =~= spec_digits(n as nat));
        }
        s
    }
}

impl Section {
    /// The sidebar label of this section: its number and its title.
    pub fn label(&self) -> (r: String)
        requires
            self.number <= u64::MAX,
        ensures
            r@ == spec_digits(self.number as nat) + seq![' '] + self.text@,
    {
        let mut s = format_u64(self.number as u64);
        proof {
            reveal_strlit(" ");
        }
        s.append(" ");
        s.append(self.text.as_str());
        proof {
            assert(s@ =~= spec_digits(self.number as nat) + seq![' '] + self.text@);
        }
        s
    }
}

} // verus!
