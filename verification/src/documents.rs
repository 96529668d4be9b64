//! The documents that a client has open.

use crate::text::same_text;
use vstd::prelude::*;

verus! {

/// Documents by their URIs.
pub struct Documents<D> {
    entries: Vec<(String, D)>,
}

/// Some entry is for `uri`.
spec fn has_entry<D>(entries: Seq<(String, D)>, uri: Seq<char>) -> bool {
    exists|i: int| 0 <= i < entries.len() && (#[trigger] entries[i]).0@ == uri
}

/// No two entries are for one URI.
spec fn are_unique<D>(entries: Seq<(String, D)>) -> bool {
    forall|i: int, j: int|
        0 <= i < j < entries.len() ==> (#[trigger] entries[i]).0@ != (#[trigger] entries[j]).0@
}

/// The document of an entry for `uri`.
spec fn entry<D>(entries: Seq<(String, D)>, uri: Seq<char>) -> D {
    entries[choose|i: int| 0 <= i < entries.len() && (#[trigger] entries[i]).0@ == uri].1
}

impl<D> View for Documents<D> {
    type V = Map<Seq<char>, D>;

    closed spec fn view(&self) -> Map<Seq<char>, D> {
        Map::new(
            |uri: Seq<char>| has_entry(self.entries@, uri),
            |uri: Seq<char>| entry(self.entries@, uri),
        )
    }
}

impl<D> Documents<D> {
    /// No two entries are for one URI.
    #[verifier::type_invariant]
    spec fn has_unique_uris(self) -> bool {
        are_unique(self.entries@)
    }

    /// No documents.
    pub fn new() -> (documents: Self)
        ensures
            documents@ == Map::<Seq<char>, D>::empty(),
    {
        let documents = Documents { entries: Vec::new() };
        assert(documents@ =~= Map::<Seq<char>, D>::empty());
        documents
    }

    /// The place of the entry for `uri`.
    fn position(&self, uri: &str) -> (position: Option<usize>)
        ensures
            match position {
                Some(i) => {
                    &&& i < self.entries@.len()
                    &&& self.entries@[i as int].0@ == uri@
                    &&& self@.contains_key(uri@)
                    &&& self@[uri@] == self.entries@[i as int].1
                },
                None => !self@.contains_key(uri@),
            },
    {
        proof {
            use_type_invariant(self);
        }
        let mut i: usize = 0;
        while i < self.entries.len()
            invariant
                i <= self.entries@.len(),
                self.has_unique_uris(),
                forall|k: int| 0 <= k < i ==> (#[trigger] self.entries@[k]).0@ != uri@,
            decreases self.entries@.len() - i,
        {
            if same_text(self.entries[i].0.as_str(), uri) {
                assert(has_entry(self.entries@, uri@));
                return Some(i);
            }
            i += 1;
        }
        None
    }

    /// The document for `uri`, if it is open.
    pub fn get(&self, uri: &str) -> (document: Option<&D>)
        ensures
            match document {
                Some(document) => self@.contains_key(uri@) && self@[uri@] == *document,
                None => !self@.contains_key(uri@),
            },
    {
        match self.position(uri) {
            Some(i) => Some(&self.entries[i].1),
            None => None,
        }
    }

    /// Opens a document, or puts it in the place of the one that is open under `uri`.
    pub fn open(&mut self, uri: String, document: D)
        ensures
            final(self)@ == old(self)@.insert(uri@, document),
    {
        let position = self.position(uri.as_str());
        proof {
            use_type_invariant(&*self);
        }
        let ghost before = self.entries@;
        let mut entries: Vec<(String, D)> = Vec::new();
        std::mem::swap(&mut entries, &mut self.entries);
        match position {
            Some(i) => {
                entries.set(i, (uri, document));
            },
            None => {
                assert(!has_entry(before, uri@));
                entries.push((uri, document));
            },
        }
        self.entries = entries;
        proof {
            entries_are_found(before);
            entries_are_found(self.entries@);
            let expected = old(self)@.insert(uri@, document);
            assert forall|other: Seq<char>| #[trigger]
                self@.contains_key(other) == expected.contains_key(other) by {
                if has_entry(before, other) {
                    let i = choose|i: int| 0 <= i < before.len() && (#[trigger] before[i]).0@ == other;
                    assert(self.entries@[i].0@ == other);
                }
                if position is None {
                    assert(self.entries@[before.len() as int].0@ == uri@);
                }
            }
            assert forall|other: Seq<char>| self@.contains_key(other) implies #[trigger] self@[other]
                == expected[other] by {
                let i = choose|i: int|
                    0 <= i < self.entries@.len() && (#[trigger] self.entries@[i]).0@ == other;
                assert(self.entries@[i].0@ == other);
                if i < before.len() {
                    assert(before[i].0@ == other);
                }
            }
            assert(self@ =~= expected);
        }
    }

    /// Closes the document for `uri`, if it is open.
    pub fn close(&mut self, uri: &str)
        ensures
            final(self)@ == old(self)@.remove(uri@),
    {
        let position = self.position(uri);
        if let Some(i) = position {
            proof {
                use_type_invariant(&*self);
            }
            let ghost before = self.entries@;
            let mut entries: Vec<(String, D)> = Vec::new();
            std::mem::swap(&mut entries, &mut self.entries);
            entries.remove(i);
            self.entries = entries;
            proof {
                entries_are_found(before);
                entries_are_found(self.entries@);
                let expected = old(self)@.remove(uri@);
                assert forall|other: Seq<char>| #[trigger]
                    self@.contains_key(other) == expected.contains_key(other) by {
                    if has_entry(before, other) && other != uri@ {
                        let k = choose|k: int|
                            0 <= k < before.len() && (#[trigger] before[k]).0@ == other;
                        let moved = if k < i { k } else { k - 1 };
                        assert(self.entries@[moved].0@ == other);
                    }
                    if has_entry(self.entries@, other) {
                        let k = choose|k: int|
                            0 <= k < self.entries@.len() && (#[trigger] self.entries@[k]).0@ == other;
                        let moved = if k < i { k } else { k + 1 };
                        assert(before[moved].0@ == other);
                        assert(before[i as int].0@ == uri@);
                    }
                }
                assert forall|other: Seq<char>| self@.contains_key(other) implies #[trigger] self@[
                    other
                ] == expected[other] by {
                    let k = choose|k: int|
                        0 <= k < self.entries@.len() && (#[trigger] self.entries@[k]).0@ == other;
                    let moved = if k < i { k } else { k + 1 };
                    assert(before[moved].0@ == other);
                }
                assert(self@ =~= expected);
            }
        } else {
            assert(self@ =~= old(self)@.remove(uri@));
        }
    }
}

proof fn entries_are_found<D>(entries: Seq<(String, D)>)
    requires
        are_unique(entries),
    ensures
        forall|i: int|
            0 <= i < entries.len() ==> entry(entries, (#[trigger] entries[i]).0@) == entries[i].1,
{
}

} // verus!
