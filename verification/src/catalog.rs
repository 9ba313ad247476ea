use vstd::prelude::*;

use crate::error::MartinError;
use crate::pg_source::{concat_schema_table, dynamic_source_id};
use crate::source::{catalog_entry_of, TileCatalog, TileSources};
use crate::text::lex_lt;

verus! {

// ---------------------------------------------------------------------------
// The server catalog
//
// What the transport layer publishes: the tile catalog derived from the live
// registry, plus the descriptors of dynamically registered sources.
// ---------------------------------------------------------------------------

/// The identity of a dynamically registered source.
#[derive(Debug, PartialEq, Eq)]
pub struct SourceMetadata {
    pub schema: String,
    pub table_or_function: String,
}

/// The mathematical value of a `SourceMetadata`.
pub struct SourceMetadataV {
    pub schema: Seq<char>,
    pub table_or_function: Seq<char>,
}

impl View for SourceMetadata {
    type V = SourceMetadataV;

    open spec fn view(&self) -> SourceMetadataV {
        SourceMetadataV {
            schema: self.schema@,
            table_or_function: self.table_or_function@,
        }
    }
}

impl Clone for SourceMetadata {
    fn clone(&self) -> (r: Self)
        ensures
            r@ == self@,
    {
        SourceMetadata {
            schema: self.schema.clone(),
            table_or_function: self.table_or_function.clone(),
        }
    }
}

impl Default for SourceMetadata {
    /// Empty schema and table names.
    fn default() -> (r: Self)
        ensures
            r@.schema.len() == 0,
            r@.table_or_function.len() == 0,
    {
        SourceMetadata {
            schema: String::new(),
            table_or_function: String::new(),
        }
    }
}

/// A request to register `schema.table_or_function` as a new source.
#[derive(Debug, PartialEq, Eq)]
pub struct AddSourceInput {
    pub schema: String,
    pub table_or_function: String,
}

/// The published catalog: the tile catalog plus the dynamically registered
/// source descriptors, keyed by `schema.table`.
#[derive(Debug)]
pub struct Catalog {
    pub tiles: TileCatalog,
    pub sources: Vec<(String, SourceMetadata)>,
}

impl Catalog {
    /// The keys of the registered descriptors, in storage order.
    pub closed spec fn skeys(&self) -> Seq<Seq<char>> {
        self.sources@.map_values(|p: (String, SourceMetadata)| p.0@)
    }

    /// The number of registered descriptors.
    pub open spec fn sources_len(&self) -> nat {
        self.skeys().len()
    }

    /// Well-formed: descriptor keys are unique.
    pub closed spec fn swf(&self) -> bool {
        forall|i: int, j: int| 0 <= i < j < self.sources@.len()
            ==> (#[trigger] self.sources@[i].0@) != (#[trigger] self.sources@[j].0@)
    }

    /// Whether a descriptor is registered under `k`.
    pub open spec fn has_key(&self, k: Seq<char>) -> bool {
        self.skeys().contains(k)
    }

    /// The storage index of the descriptor registered under `k`.
    pub closed spec fn key_index(&self, k: Seq<char>) -> int {
        choose|i: int| 0 <= i < self.sources@.len() && self.sources@[i].0@ == k
    }

    /// The registered descriptors, in storage order.
    pub closed spec fn metas(&self) -> Seq<SourceMetadata> {
        self.sources@.map_values(|p: (String, SourceMetadata)| p.1)
    }

    /// The descriptor registered under `k`.
    pub open spec fn meta_at(&self, k: Seq<char>) -> SourceMetadata {
        self.metas()[self.key_index(k)]
    }

    proof fn lemma_key_index_valid(&self, k: Seq<char>)
        requires
            self.has_key(k),
        ensures
            0 <= self.key_index(k) < self.sources@.len(),
            self.sources@[self.key_index(k)].0@ == k,
    {
        let w = choose|w: int| 0 <= w < self.skeys().len() && self.skeys()[w] == k;
        assert(self.sources@[w].0@ == k);
    }

    proof fn lemma_key_unique(&self, i: int, k: Seq<char>)
        requires
            self.swf(),
            0 <= i < self.sources@.len(),
            self.sources@[i].0@ == k,
        ensures
            self.has_key(k),
            self.key_index(k) == i,
            self.meta_at(k) == self.sources@[i].1,
    {
        assert(self.skeys()[i] == k);
        assert(self.has_key(k));
        self.lemma_key_index_valid(k);
    }

    /// Derives the published catalog from the live registry: the tile
    /// catalog is recomputed from the registry's current contents, and the
    /// descriptor list starts empty.
    pub fn new(state: &TileSources) -> (r: Result<Catalog, MartinError>)
        requires
            state.wf(),
        ensures
            r matches Ok(c) && {
                &&& c.swf()
                &&& c.sources_len() == 0
                &&& c.tiles@.len() == state.len()
                &&& forall|i: int| 0 <= i < c.tiles@.len()
                    ==> (#[trigger] c.tiles@[i]).0@ == state.ids()[i]
                        && c.tiles@[i].1@ == catalog_entry_of(state.srcs()[i]@)
                &&& forall|i: int, j: int| 0 <= i < j < c.tiles@.len()
                    ==> lex_lt(#[trigger] c.tiles@[i].0@, #[trigger] c.tiles@[j].0@)
            },
    {
        let c = Catalog { tiles: state.get_catalog(), sources: Vec::new() };
        Ok(c)
    }

    /// Registers a descriptor under the key `schema.table_or_function`,
    /// replacing one already registered under that key. The tile catalog
    /// and every other descriptor are kept.
    pub fn add_source(&mut self, metadata: SourceMetadata)
        requires
            old(self).swf(),
        ensures
            final(self).swf(),
            final(self).tiles@ == old(self).tiles@,
            final(self).has_key(dynamic_source_id(
                metadata@.schema,
                metadata@.table_or_function,
            )),
            final(self).meta_at(dynamic_source_id(
                metadata@.schema,
                metadata@.table_or_function,
            )) == metadata,
            forall|k: Seq<char>| k != dynamic_source_id(
                metadata@.schema,
                metadata@.table_or_function,
            ) ==> final(self).has_key(k) == old(self).has_key(k),
            forall|k: Seq<char>| k != dynamic_source_id(
                metadata@.schema,
                metadata@.table_or_function,
            ) && old(self).has_key(k) ==> final(self).meta_at(k) == old(self).meta_at(k),
    {
        let key = concat_schema_table("", &metadata.schema, &metadata.table_or_function);
        proof {
            reveal_strlit("");
            assert(""@ =~= Seq::<char>::empty());
            assert(key@ =~= dynamic_source_id(metadata@.schema, metadata@.table_or_function));
        }
        let ghost gk = key@;
        let ghost gmeta = metadata;
        let ghost old_sources = self.sources@;

        let mut i: usize = 0;
        let mut found: bool = false;
        while i < self.sources.len() && !found
            invariant
                self.sources@ == old_sources,
                0 <= i <= self.sources@.len(),
                !found ==> forall|j: int| 0 <= j < i ==> self.sources@[j].0@ != gk,
                found ==> i < self.sources@.len() && self.sources@[i as int].0@ == gk,
                key@ == gk,
            decreases self.sources@.len() - i, (if found { 0int } else { 1int }),
        {
            if self.sources[i].0 == key {
                found = true;
            } else {
                i = i + 1;
            }
        }
        if found {
            let _old = self.sources.remove(i);
            proof {
                old_sources.remove_ensures(i as int);
            }
        }
        let ghost mid = self.sources@;
        self.sources.push((key, metadata));
        proof {
            let n = self.sources@;
            let pre = *old(self);
            if found {
                assert(mid == old_sources.remove(i as int));
                assert(forall|x: int| 0 <= x < i ==> mid[x] == old_sources[x]);
                assert(forall|x: int| i <= x < mid.len() ==> mid[x] == old_sources[x + 1]);
            } else {
                assert(mid == old_sources);
                assert(!pre.has_key(gk)) by {
                    if pre.has_key(gk) {
                        pre.lemma_key_index_valid(gk);
                        let w = pre.key_index(gk);
                        assert(old_sources[w].0@ != gk);
                    }
                }
            }
            assert(n.len() == mid.len() + 1);
            assert(n[n.len() - 1].0@ == gk);
            assert(n[n.len() - 1].1 == gmeta);
            assert(forall|x: int| 0 <= x < mid.len() ==> n[x] == mid[x]);

            // Keys before the pushed one never read `gk`.
            assert forall|x: int| 0 <= x < mid.len() implies mid[x].0@ != gk by {
                if found {
                    if x < i {
                        assert(mid[x] == old_sources[x]);
                    } else {
                        assert(mid[x] == old_sources[x + 1]);
                        assert(old_sources[x + 1].0@ != old_sources[i as int].0@);
                    }
                } else {
                    assert(!pre.has_key(gk));
                    if mid[x].0@ == gk {
                        assert(pre.skeys()[x] == gk);
                        assert(pre.has_key(gk));
                    }
                }
            }

            assert(self.swf()) by {
                assert(forall|a: int, b: int| 0 <= a < b < mid.len()
                    ==> (#[trigger] n[a].0@) != (#[trigger] n[b].0@)) by {
                    assert(forall|a: int, b: int| 0 <= a < b < mid.len()
                        ==> mid[a].0@ != mid[b].0@) by {
                        if found {
                            assert(forall|a: int, b: int| 0 <= a < b < old_sources.len()
                                ==> (#[trigger] old_sources[a].0@)
                                    != (#[trigger] old_sources[b].0@));
                        }
                    }
                }
            }
            self.lemma_key_unique(n.len() - 1, gk);

            assert forall|k: Seq<char>| k != gk
                implies self.has_key(k) == pre.has_key(k) by {
                if self.has_key(k) {
                    self.lemma_key_index_valid(k);
                    let w = self.key_index(k);
                    assert(w < mid.len());
                    if found {
                        if w < i {
                            assert(pre.skeys()[w] == k);
                        } else {
                            assert(pre.skeys()[w + 1] == k);
                        }
                    } else {
                        assert(pre.skeys()[w] == k);
                    }
                    assert(pre.has_key(k));
                }
                if pre.has_key(k) {
                    pre.lemma_key_index_valid(k);
                    let w = pre.key_index(k);
                    if found {
                        if w < i {
                            assert(self.skeys()[w] == k);
                        } else {
                            assert(w != i);
                            assert(self.skeys()[w - 1] == k);
                        }
                    } else {
                        assert(self.skeys()[w] == k);
                    }
                    assert(self.has_key(k));
                }
            }

            assert forall|k: Seq<char>| k != gk && pre.has_key(k)
                implies self.meta_at(k) == pre.meta_at(k) by {
                pre.lemma_key_index_valid(k);
                let w = pre.key_index(k);
                pre.lemma_key_unique(w, k);
                if found {
                    if w < i {
                        self.lemma_key_unique(w, k);
                        assert(n[w].1 == old_sources[w].1);
                    } else {
                        assert(w != i);
                        self.lemma_key_unique(w - 1, k);
                        assert(n[w - 1].1 == old_sources[w].1);
                    }
                } else {
                    self.lemma_key_unique(w, k);
                    assert(n[w].1 == old_sources[w].1);
                }
            }
        }
    }
}

} // verus!
