//! The render cache: memoizes one `RenderedDocument` per display width.
//! A hit returns the stored layout; the whole cache is dropped when the
//! document or the rendering mode changes.

use vstd::prelude::*;

use crate::layout::{RenderedDocument, RenderedDocumentV};

verus! {

/// One cache slot: the width it was rendered for and the result.
pub struct CacheEntry {
    pub width: u16,
    pub doc: RenderedDocument,
}

/// A width-keyed memo of rendered layouts.
pub struct RenderCache {
    pub entries: Vec<CacheEntry>,
}

impl RenderCache {
    /// Whether a layout for width `w` is stored.
    pub open spec fn spec_has(&self, w: int) -> bool {
        exists|i: int| 0 <= i < self.entries@.len() && #[trigger] self.entries@[i].width == w
    }

    /// Whether `v` is stored as the layout for width `w`.
    pub open spec fn spec_stores(&self, w: int, v: RenderedDocumentV) -> bool {
        exists|i: int|
            0 <= i < self.entries@.len() && #[trigger] self.entries@[i].width == w
                && self.entries@[i].doc@ == v
    }

    /// An empty cache.
    pub fn new() -> (r: RenderCache)
        ensures
            r.entries@.len() == 0,
    {
        RenderCache { entries: Vec::new() }
    }

    /// Whether a layout for width `w` is stored.
    pub fn has(&self, w: u16) -> (r: bool)
        ensures
            r == self.spec_has(w as int),
    {
        let n = self.entries.len();
        let mut i: usize = 0;
        while i < n
            invariant
                i <= n,
                n == self.entries@.len(),
                forall|k: int| 0 <= k < i ==> #[trigger] self.entries@[k].width != w,
            decreases n - i,
        {
            if self.entries[i].width == w {
                return true;
            }
            i = i + 1;
        }
        false
    }

    /// The stored layout for width `w`, if any.
    pub fn get(&self, w: u16) -> (r: Option<&RenderedDocument>)
        ensures
            r is Some <==> self.spec_has(w as int),
            match r {
                Some(rd) => self.spec_stores(w as int, rd@),
                None => true,
            },
    {
        let n = self.entries.len();
        let mut i: usize = 0;
        while i < n
            invariant
                i <= n,
                n == self.entries@.len(),
                forall|k: int| 0 <= k < i ==> #[trigger] self.entries@[k].width != w,
            decreases n - i,
        {
            if self.entries[i].width == w {
                return Some(&self.entries[i].doc);
            }
            i = i + 1;
        }
        None
    }

    /// Stores a layout for width `w`, leaving every other entry in place.
    pub fn insert(&mut self, w: u16, doc: RenderedDocument)
        ensures
            final(self).entries@.len() == old(self).entries@.len() + 1,
            final(self).entries@ == old(self).entries@.push(
                CacheEntry { width: w, doc: doc },
            ),
            final(self).spec_has(w as int),
            final(self).spec_stores(w as int, doc@),
            forall|w2: int, v: RenderedDocumentV|
                old(self).spec_stores(w2, v) ==> final(self).spec_stores(w2, v),
            forall|w2: int| old(self).spec_has(w2) ==> final(self).spec_has(w2),
    {
        let entry = CacheEntry { width: w, doc };
        self.entries.push(entry);
        proof {
            let n = self.entries@.len() - 1;
            assert(self.entries@[n].width == w);
            assert forall|w2: int, v: RenderedDocumentV|
                old(self).spec_stores(w2, v) implies self.spec_stores(w2, v) by {
                let i = choose|i: int|
                    0 <= i < old(self).entries@.len() && #[trigger] old(
                        self,
                    ).entries@[i].width == w2 && old(self).entries@[i].doc@ == v;
                assert(self.entries@[i].width == w2 && self.entries@[i].doc@ == v);
            }
            assert forall|w2: int| old(self).spec_has(w2) implies self.spec_has(w2) by {
                let i = choose|i: int|
                    0 <= i < old(self).entries@.len() && #[trigger] old(self).entries@[i].width
                        == w2;
                assert(self.entries@[i].width == w2);
            }
        }
    }

    /// Drops every stored layout.
    pub fn clear(&mut self)
        ensures
            final(self).entries@.len() == 0,
            forall|w: int| !final(self).spec_has(w),
    {
        self.entries.clear();
    }
}

} // verus!
