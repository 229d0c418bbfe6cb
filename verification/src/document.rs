//! The document tree: an immutable, pre-order indexed sequence of content
//! nodes.  A node's subtree is the contiguous index range
//! `[i, last_descendant(i)]`, so descendant traversal is a plain index scan
//! and no recursion is needed.

use vstd::prelude::*;

verus! {

/// The target of a link node: where activating it would lead.
#[derive(Clone, Debug, PartialEq, Eq)]
pub enum Link {
    /// A reference to another page of the same wiki.
    Internal { page: String },
    /// A jump target inside the current page.
    Anchor { anchor: String },
    /// An external URL.
    External { url: String },
    /// A page that does not exist yet.
    RedLink { title: String },
    /// A media resource; activation is unsupported.
    Media { url: String },
}

/// The payload of a document node: a closed set of variants over which all
/// consumers match exhaustively.
#[derive(Clone, Debug, PartialEq, Eq)]
pub enum Data {
    /// A section heading with its anchor identifier.
    Header { text: String, anchor: String },
    /// A run of plain text.
    Text { content: String },
    /// A navigable link with its display text.
    Link { link: Link, text: String },
    /// A list container; contributes structure, no text of its own.
    List,
    /// A list item marker: the item starts on a fresh, marked line.
    ListItem,
    /// An explicit line break.
    Newline,
    /// An emphasis node: its subtree is styled with the given flags.
    Effect { bold: bool, italic: bool, underline: bool },
}

impl Data {
    /// Whether this payload is selectable by link navigation.
    pub open spec fn spec_is_link(&self) -> bool {
        self is Link
    }

    #[verifier::when_used_as_spec(spec_is_link)]
    pub fn is_link(&self) -> (r: bool)
        ensures
            r == self.spec_is_link(),
    {
        match self {
            Data::Link { .. } => true,
            _ => false,
        }
    }
}

/// One node of the tree: its payload and the index of its deepest last
/// descendant (equal to the node's own index for a leaf).
#[derive(Clone, Debug, PartialEq, Eq)]
pub struct DocNode {
    pub data: Data,
    pub last_descendant: usize,
}

/// Whether a node's text is short enough that layout arithmetic on its
/// length cannot overflow a machine word.
pub open spec fn node_text_ok(node: DocNode) -> bool {
    match node.data {
        Data::Header { text, .. } => text@.len() <= usize::MAX - 2,
        Data::Text { content } => content@.len() <= usize::MAX - 2,
        Data::Link { link: _, text } => text@.len() <= usize::MAX - 2,
        _ => true,
    }
}

/// Well-formedness of a node sequence: every subtree range stays inside
/// the document and starts at its own node, and every text fits a machine
/// word with room to spare.
pub open spec fn nodes_wf(nodes: Seq<DocNode>) -> bool {
    forall|i: int|
        0 <= i < nodes.len() ==> i <= #[trigger] nodes[i].last_descendant < nodes.len()
            && node_text_ok(nodes[i])
}

/// An immutable document tree.  Nodes are identified by their stable,
/// dense, zero-based pre-order index; the index is the sole identity used
/// for cross-referencing.
#[derive(Clone, Debug, PartialEq, Eq)]
pub struct Document {
    nodes: Vec<DocNode>,
}

impl View for Document {
    type V = Seq<DocNode>;

    closed spec fn view(&self) -> Seq<DocNode> {
        self.nodes@
    }
}

impl Document {
    /// The well-formedness invariant every constructed document satisfies.
    pub open spec fn wf(&self) -> bool {
        nodes_wf(self@)
    }

    /// An empty document.
    pub fn empty() -> (r: Document)
        ensures
            r.wf(),
            r@.len() == 0,
    {
        Document { nodes: Vec::new() }
    }

    /// Builds a document from a node sequence, rejecting one whose subtree
    /// ranges are malformed.
    pub fn new(nodes: Vec<DocNode>) -> (r: Option<Document>)
        ensures
            r is Some <==> nodes_wf(nodes@),
            r is Some ==> r->Some_0@ == nodes@ && r->Some_0.wf(),
    {
        let n = nodes.len();
        let mut i: usize = 0;
        while i < n
            invariant
                n == nodes@.len(),
                i <= n,
                forall|k: int|
                    0 <= k < i ==> k <= #[trigger] nodes@[k].last_descendant < n && node_text_ok(
                        nodes@[k],
                    ),
            decreases n - i,
        {
            let last = nodes[i].last_descendant;
            if last < i || last >= n {
                return None;
            }
            let text_ok = match &nodes[i].data {
                Data::Header { text, .. } => text.as_str().unicode_len() <= usize::MAX - 2,
                Data::Text { content } => content.as_str().unicode_len() <= usize::MAX - 2,
                Data::Link { link: _, text } => text.as_str().unicode_len() <= usize::MAX - 2,
                _ => true,
            };
            if !text_ok {
                return None;
            }
            i += 1;
        }
        Some(Document { nodes })
    }

    /// The number of nodes.
    pub fn len(&self) -> (r: usize)
        ensures
            r == self@.len(),
    {
        self.nodes.len()
    }

    /// The node at `idx`.
    pub fn node(&self, idx: usize) -> (r: &DocNode)
        requires
            idx < self@.len(),
        ensures
            *r == self@[idx as int],
    {
        &self.nodes[idx]
    }

    /// The index of the deepest last descendant of the node at `idx`: the
    /// inclusive end of its subtree range.
    pub fn last_descendant(&self, idx: usize) -> (r: usize)
        requires
            self.wf(),
            idx < self@.len(),
        ensures
            r == self@[idx as int].last_descendant,
            idx <= r < self@.len(),
    {
        self.nodes[idx].last_descendant
    }

    /// The first link node with index not below `from`, if any: `Some(j)`
    /// exactly when a link at or after `from` exists, and then `j` is the
    /// least such index.
    pub fn find_link_at_or_after(&self, from: usize) -> (r: Option<usize>)
        ensures
            match r {
                Some(j) => from <= j < self@.len() && self@[j as int].data.spec_is_link()
                    && forall|k: int|
                        from <= k < j ==> !(#[trigger] self@[k].data.spec_is_link()),
                None => forall|k: int|
                    from <= k < self@.len() ==> !(#[trigger] self@[k].data.spec_is_link()),
            },
    {
        let n = self.nodes.len();
        let mut i: usize = from;
        while i < n
            invariant
                n == self@.len(),
                from <= i,
                forall|k: int| from <= k < i ==> !(#[trigger] self@[k].data.spec_is_link()),
            decreases n - i,
        {
            if self.nodes[i].data.is_link() {
                return Some(i);
            }
            i += 1;
        }
        None
    }

    /// The last link node with index strictly above `from`, if any:
    /// `Some(j)` exactly when a link after `from` exists, and then `j` is
    /// the greatest such index.
    pub fn find_last_link_after(&self, from: usize) -> (r: Option<usize>)
        ensures
            match r {
                Some(j) => from < j < self@.len() && self@[j as int].data.spec_is_link()
                    && forall|k: int|
                        j < k < self@.len() ==> !(#[trigger] self@[k].data.spec_is_link()),
                None => forall|k: int|
                    from < k < self@.len() ==> !(#[trigger] self@[k].data.spec_is_link()),
            },
    {
        let n = self.nodes.len();
        let mut i: usize = n;
        while i > 0
            invariant
                n == self@.len(),
                i <= n,
                forall|k: int| i <= k < n ==> !(#[trigger] self@[k].data.spec_is_link()),
            decreases i,
        {
            i -= 1;
            if i > from && self.nodes[i].data.is_link() {
                return Some(i);
            }
            if i <= from {
                return None;
            }
        }
        None
    }

    /// The last link node with index strictly below `bound`, if any:
    /// `Some(j)` exactly when a link before `bound` exists, and then `j` is
    /// the greatest such index.
    pub fn find_last_link_before(&self, bound: usize) -> (r: Option<usize>)
        ensures
            match r {
                Some(j) => j < bound && j < self@.len() && self@[j as int].data.spec_is_link()
                    && forall|k: int|
                        j < k < bound && k < self@.len()
                            ==> !(#[trigger] self@[k].data.spec_is_link()),
                None => forall|k: int|
                    0 <= k < bound && k < self@.len()
                        ==> !(#[trigger] self@[k].data.spec_is_link()),
            },
    {
        let n = self.nodes.len();
        let mut i: usize = if bound < n {
            bound
        } else {
            n
        };
        while i > 0
            invariant
                n == self@.len(),
                i <= bound,
                i <= n,
                forall|k: int|
                    i <= k < bound && k < n ==> !(#[trigger] self@[k].data.spec_is_link()),
            decreases i,
        {
            i -= 1;
            if self.nodes[i].data.is_link() {
                return Some(i);
            }
        }
        None
    }

    /// Whether the node at `idx` is a header whose anchor equals `anchor`.
    pub open spec fn spec_header_matches(node: DocNode, anchor: Seq<char>) -> bool {
        match node.data {
            Data::Header { text: _, anchor: a } => a@ == anchor,
            _ => false,
        }
    }

    /// The last header node whose anchor identifier equals `anchor`, if
    /// any: `Some(j)` exactly when a matching header exists, and then `j`
    /// is the greatest matching index.
    pub fn find_header_by_anchor(&self, anchor: &String) -> (r: Option<usize>)
        ensures
            match r {
                Some(j) => j < self@.len() && Self::spec_header_matches(self@[j as int], anchor@)
                    && forall|k: int|
                        j < k < self@.len()
                            ==> !Self::spec_header_matches(#[trigger] self@[k], anchor@),
                None => forall|k: int|
                    0 <= k < self@.len()
                        ==> !Self::spec_header_matches(#[trigger] self@[k], anchor@),
            },
    {
        let n = self.nodes.len();
        let mut i: usize = n;
        while i > 0
            invariant
                n == self@.len(),
                i <= n,
                forall|k: int|
                    i <= k < n ==> !Self::spec_header_matches(#[trigger] self@[k], anchor@),
            decreases i,
        {
            i -= 1;
            let matched = match &self.nodes[i].data {
                Data::Header { text: _, anchor: a } => *a == *anchor,
                _ => false,
            };
            if matched {
                return Some(i);
            }
        }
        None
    }
}

} // verus!
