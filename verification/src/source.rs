use vstd::prelude::*;

use crate::error::MartinError;
use crate::metadata::{clone_opt_string, TileJson, TileJsonV};
use crate::text::{lex_lt, split_on, split_str, str_lt};
use crate::pg_source::{PgSource, PgSourceV};
use crate::tile::{content_encoding_spec, content_type_spec, TileEncoding, TileFormat, TileInfo};

verus! {

// ---------------------------------------------------------------------------
// The source capability
//
// Every tile producer exposes the same small surface: an identity, a TileJSON
// document, a format fingerprint, whether it consumes client query
// parameters, and a tile fetch. Producers are modeled as a tagged union, so
// the registry and the merge engine treat them uniformly.
// ---------------------------------------------------------------------------

/// A producer with fixed metadata that serves the same payload for every
/// coordinate; the simplest capability implementation.
#[derive(Debug)]
pub struct StaticSource {
    pub id: String,
    pub tilejson: TileJson,
    pub info: TileInfo,
    pub data: Vec<u8>,
}

/// The mathematical value of a `StaticSource`.
pub struct StaticSourceV {
    pub id: Seq<char>,
    pub tilejson: TileJsonV,
    pub info: TileInfo,
    pub data: Seq<u8>,
}

impl View for StaticSource {
    type V = StaticSourceV;

    open spec fn view(&self) -> StaticSourceV {
        StaticSourceV {
            id: self.id@,
            tilejson: self.tilejson@,
            info: self.info,
            data: self.data@,
        }
    }
}

impl Clone for StaticSource {
    fn clone(&self) -> (r: Self)
        ensures
            r@ == self@,
    {
        StaticSource {
            id: self.id.clone(),
            tilejson: self.tilejson.clone(),
            info: self.info,
            data: clone_bytes(&self.data),
        }
    }
}

fn clone_bytes(v: &Vec<u8>) -> (r: Vec<u8>)
    ensures
        r@ == v@,
{
    let mut r: Vec<u8> = Vec::new();
    let mut i: usize = 0;
    while i < v.len()
        invariant
            0 <= i <= v@.len(),
            r@ =~= v@.subrange(0, i as int),
        decreases v@.len() - i,
    {
        r.push(v[i]);
        proof {
            assert(r@ =~= v@.subrange(0, i + 1));
        }
        i = i + 1;
    }
    proof {
        assert(v@.subrange(0, v@.len() as int) =~= v@);
    }
    r
}

/// A tile producer: a PostgreSQL-backed source or a static one.
#[derive(Debug)]
pub enum Source {
    Pg(PgSource),
    Static(StaticSource),
}

/// The mathematical value of a `Source`.
pub enum SourceV {
    Pg(PgSourceV),
    Static(StaticSourceV),
}

impl SourceV {
    /// The producer's stable identifier.
    pub open spec fn id(self) -> Seq<char> {
        match self {
            SourceV::Pg(p) => p.id,
            SourceV::Static(s) => s.id,
        }
    }

    /// The producer's TileJSON document.
    pub open spec fn tilejson(self) -> TileJsonV {
        match self {
            SourceV::Pg(p) => p.tilejson,
            SourceV::Static(s) => s.tilejson,
        }
    }

    /// The producer's format fingerprint. A PostgreSQL source always serves
    /// uncompressed Mapbox vector tiles.
    pub open spec fn info(self) -> TileInfo {
        match self {
            SourceV::Pg(p) => TileInfo {
                format: TileFormat::Mvt,
                encoding: TileEncoding::Uncompressed,
            },
            SourceV::Static(s) => s.info,
        }
    }

    /// Whether the producer consumes client-supplied query parameters.
    pub open spec fn supports_query(self) -> bool {
        match self {
            SourceV::Pg(p) => p.info.use_url_query,
            SourceV::Static(s) => false,
        }
    }
}

impl View for Source {
    type V = SourceV;

    open spec fn view(&self) -> SourceV {
        match self {
            Source::Pg(p) => SourceV::Pg(p@),
            Source::Static(s) => SourceV::Static(s@),
        }
    }
}

/// Whether `zoom` falls inside the document's zoom range; a missing bound
/// does not constrain that side.
pub open spec fn zoom_ok(t: TileJsonV, zoom: u8) -> bool {
    &&& match t.minzoom {
        Some(lo) => zoom >= lo,
        None => true,
    }
    &&& match t.maxzoom {
        Some(hi) => zoom <= hi,
        None => true,
    }
}

impl Source {
    /// The producer's stable identifier.
    pub fn get_id(&self) -> (r: &str)
        ensures
            r@ == self@.id(),
    {
        match self {
            Source::Pg(p) => p.id.as_str(),
            Source::Static(s) => s.id.as_str(),
        }
    }

    fn id_string(&self) -> (r: &String)
        ensures
            r@ == self@.id(),
    {
        match self {
            Source::Pg(p) => &p.id,
            Source::Static(s) => &s.id,
        }
    }

    /// The producer's TileJSON document.
    pub fn get_tilejson(&self) -> (r: &TileJson)
        ensures
            r@ == self@.tilejson(),
    {
        match self {
            Source::Pg(p) => &p.tilejson,
            Source::Static(s) => &s.tilejson,
        }
    }

    /// The producer's format fingerprint.
    pub fn get_tile_info(&self) -> (r: TileInfo)
        ensures
            r == self@.info(),
    {
        match self {
            Source::Pg(_) => TileInfo::new(TileFormat::Mvt, TileEncoding::Uncompressed),
            Source::Static(s) => s.info,
        }
    }

    /// Whether the producer consumes client-supplied query parameters.
    pub fn support_url_query(&self) -> (r: bool)
        ensures
            r == self@.supports_query(),
    {
        match self {
            Source::Pg(p) => p.info.use_url_query,
            Source::Static(_) => false,
        }
    }

    /// A duplicate handle to the same logical source.
    pub fn clone_source(&self) -> (r: Source)
        ensures
            r@ == self@,
    {
        self.clone()
    }

    /// Whether `zoom` is within this producer's advertised zoom range.
    pub fn is_valid_zoom(&self, zoom: u8) -> (r: bool)
        ensures
            r == zoom_ok(self@.tilejson(), zoom),
    {
        let tj = self.get_tilejson();
        let min_ok = match tj.minzoom {
            Some(lo) => zoom >= lo,
            None => true,
        };
        let max_ok = match tj.maxzoom {
            Some(hi) => zoom <= hi,
            None => true,
        };
        min_ok && max_ok
    }

    /// The catalog projection of this producer.
    pub fn get_catalog_entry(&self) -> (r: CatalogSourceEntry)
        ensures
            r@ == catalog_entry_of(self@),
    {
        let tilejson = self.get_tilejson();
        let info = self.get_tile_info();
        let name: Option<String> = match &tilejson.name {
            Some(n) => {
                if *n == *self.id_string() {
                    None
                } else {
                    Some(n.clone())
                }
            },
            None => None,
        };
        CatalogSourceEntry {
            content_type: info.format.content_type().to_owned(),
            content_encoding: match info.encoding.content_encoding() {
                Some(e) => Some(e.to_owned()),
                None => None,
            },
            name,
            description: clone_opt_string(&tilejson.description),
            attribution: clone_opt_string(&tilejson.attribution),
        }
    }
}

impl Clone for Source {
    fn clone(&self) -> (r: Self)
        ensures
            r@ == self@,
    {
        match self {
            Source::Pg(p) => Source::Pg(p.clone()),
            Source::Static(s) => Source::Static(s.clone()),
        }
    }
}

// ---------------------------------------------------------------------------
// Catalog entries
// ---------------------------------------------------------------------------

/// The read-only catalog projection of a source: its content type and
/// encoding plus the displayable parts of its metadata. The name is
/// suppressed when it only repeats the source id.
#[derive(Debug, PartialEq, Eq)]
pub struct CatalogSourceEntry {
    pub content_type: String,
    pub content_encoding: Option<String>,
    pub name: Option<String>,
    pub description: Option<String>,
    pub attribution: Option<String>,
}

/// The mathematical value of a `CatalogSourceEntry`.
pub struct CatalogSourceEntryV {
    pub content_type: Seq<char>,
    pub content_encoding: Option<Seq<char>>,
    pub name: Option<Seq<char>>,
    pub description: Option<Seq<char>>,
    pub attribution: Option<Seq<char>>,
}

impl View for CatalogSourceEntry {
    type V = CatalogSourceEntryV;

    open spec fn view(&self) -> CatalogSourceEntryV {
        CatalogSourceEntryV {
            content_type: self.content_type@,
            content_encoding: crate::metadata::opt_str_view(self.content_encoding),
            name: crate::metadata::opt_str_view(self.name),
            description: crate::metadata::opt_str_view(self.description),
            attribution: crate::metadata::opt_str_view(self.attribution),
        }
    }
}

/// The catalog entry derived from a source's identity, metadata and
/// fingerprint.
pub open spec fn catalog_entry_of(s: SourceV) -> CatalogSourceEntryV {
    CatalogSourceEntryV {
        content_type: content_type_spec(s.info().format),
        content_encoding: content_encoding_spec(s.info().encoding),
        name: match s.tilejson().name {
            Some(n) => if n == s.id() {
                None
            } else {
                Some(n)
            },
            None => None,
        },
        description: s.tilejson().description,
        attribution: s.tilejson().attribution,
    }
}

impl Clone for CatalogSourceEntry {
    fn clone(&self) -> (r: Self)
        ensures
            r@ == self@,
    {
        CatalogSourceEntry {
            content_type: self.content_type.clone(),
            content_encoding: clone_opt_string(&self.content_encoding),
            name: clone_opt_string(&self.name),
            description: clone_opt_string(&self.description),
            attribution: clone_opt_string(&self.attribution),
        }
    }
}

// ---------------------------------------------------------------------------
// The tile registry
//
// The single source of truth mapping source ids to producers. Entries are
// kept strictly sorted by id, so ids are unique by construction and the
// derived catalog is deterministically ordered without further work.
// ---------------------------------------------------------------------------

/// The derived catalog: one entry per source, ordered lexicographically
/// by source id.
pub type TileCatalog = Vec<(String, CatalogSourceEntry)>;

/// The startup source lists laid end to end, in the given order.
pub open spec fn flatten_sources(s: Seq<Vec<Source>>) -> Seq<Source>
    decreases s.len(),
{
    if s.len() == 0 {
        Seq::<Source>::empty()
    } else {
        s[0]@ + flatten_sources(s.skip(1))
    }
}

/// The ids of a sequence of sources, in order.
pub open spec fn source_ids(s: Seq<Source>) -> Seq<Seq<char>> {
    s.map_values(|x: Source| x@.id())
}

/// No two sources carry the same id.
pub open spec fn unique_source_ids(s: Seq<Source>) -> bool {
    forall|i: int, j: int| 0 <= i < j < s.len()
        ==> (#[trigger] s[i]@.id()) != (#[trigger] s[j]@.id())
}

proof fn lemma_source_ids_push(s: Seq<Source>, x: Source)
    ensures
        source_ids(s.push(x)) =~= source_ids(s).push(x@.id()),
{
}

/// What a successful startup build guarantees: a well-formed registry that
/// holds exactly the supplied producers, each under its own unique id.
pub open spec fn built_from(t: TileSources, sources: Seq<Vec<Source>>) -> bool {
    &&& t.wf()
    &&& unique_source_ids(flatten_sources(sources))
    &&& t.len() == flatten_sources(sources).len()
    &&& forall|i: int| 0 <= i < flatten_sources(sources).len()
        ==> t.has_id(#[trigger] flatten_sources(sources)[i]@.id())
            && t.at_id(flatten_sources(sources)[i]@.id()) == flatten_sources(sources)[i]
    &&& forall|k: Seq<char>| t.has_id(k) ==> source_ids(flatten_sources(sources)).contains(k)
}

/// What an insert guarantees: the new producer is registered under the key,
/// and every other entry is exactly as before.
pub open spec fn inserted(
    pre: TileSources,
    post: TileSources,
    key: Seq<char>,
    source: Source,
) -> bool {
    &&& post.wf()
    &&& post.has_id(key)
    &&& post.at_id(key) == source
    &&& post.len() == if pre.has_id(key) {
        pre.len()
    } else {
        (pre.len() + 1) as nat
    }
    &&& forall|k: Seq<char>| k != key ==> post.has_id(k) == pre.has_id(k)
    &&& forall|k: Seq<char>| k != key && pre.has_id(k) ==> post.at_id(k) == pre.at_id(k)
}

impl Default for TileSources {
    /// An empty registry.
    fn default() -> (r: Self)
        ensures
            r.wf(),
            r.len() == 0,
            forall|k: Seq<char>| !r.has_id(k),
    {
        let r = TileSources { entries: Vec::new() };
        proof {
            assert(r.ids().len() == 0);
        }
        r
    }
}

/// A registry built from `sources` answers a lookup of any supplied id with
/// exactly the producer that was supplied under it.
pub proof fn lemma_build_then_lookup(t: TileSources, sources: Seq<Vec<Source>>, i: int)
    requires
        built_from(t, sources),
        0 <= i < flatten_sources(sources).len(),
    ensures
        t.has_id(flatten_sources(sources)[i]@.id()),
        t.at_id(flatten_sources(sources)[i]@.id()) == flatten_sources(sources)[i],
{
}

/// An insert is immediately visible: a lookup of the inserted key finds the
/// new producer, and lookups of every other key are undisturbed.
pub proof fn lemma_insert_then_lookup(
    pre: TileSources,
    post: TileSources,
    key: Seq<char>,
    source: Source,
)
    requires
        inserted(pre, post, key, source),
    ensures
        post.has_id(key),
        post.at_id(key) == source,
        forall|k: Seq<char>| k != key ==> post.has_id(k) == pre.has_id(k),
        forall|k: Seq<char>| k != key && pre.has_id(k) ==> post.at_id(k) == pre.at_id(k),
{
}

/// The views of a sequence of sources, in order.
pub open spec fn sources_view(s: Seq<Source>) -> Seq<SourceV> {
    s.map_values(|x: Source| x@)
}

proof fn lemma_sources_view_push(s: Seq<Source>, x: Source)
    ensures
        sources_view(s.push(x)) =~= sources_view(s).push(x@),
{
}

/// Whether a source with metadata `t` stays in a set resolved at `zoom`.
pub open spec fn zoom_passes(t: TileJsonV, zoom: Option<u8>) -> bool {
    match zoom {
        Some(z) => zoom_ok(t, z),
        None => true,
    }
}

/// The outcome of resolving a requested id list against a registry.
pub enum Resolution {
    /// The sources to serve, in request order after zoom filtering, with
    /// whether any requested source consumes query parameters and the
    /// shared format fingerprint.
    Resolved { sources: Seq<SourceV>, use_url_query: bool, info: TileInfo },
    /// Some requested id is not registered.
    UnknownId { id: Seq<char> },
    /// Two requested sources carry different fingerprints.
    Mismatch { expected: TileInfo, found: TileInfo },
}

/// One resolution step at a time: looks up `ids` in order, accumulating the
/// kept sources, the query-parameter flag, and the fingerprint established
/// by the first source.
pub open spec fn resolve_rec(
    reg: TileSources,
    ids: Seq<Seq<char>>,
    zoom: Option<u8>,
    acc: Seq<SourceV>,
    use_q: bool,
    info: Option<TileInfo>,
) -> Resolution
    decreases ids.len(),
{
    if ids.len() <= 0 {
        Resolution::Resolved {
            sources: acc,
            use_url_query: use_q,
            info: match info {
                Some(i) => i,
                None => vstd::pervasive::arbitrary(),
            },
        }
    } else {
        let id = ids[0];
        if !reg.has_id(id) {
            Resolution::UnknownId { id }
        } else {
            let src = reg.at_id(id)@;
            let use2 = use_q || src.supports_query();
            if info matches Some(inf) && inf != src.info() {
                Resolution::Mismatch { expected: info->Some_0, found: src.info() }
            } else {
                let inf2 = match info {
                    Some(i) => i,
                    None => src.info(),
                };
                let acc2 = if zoom_passes(src.tilejson(), zoom) {
                    acc.push(src)
                } else {
                    acc
                };
                resolve_rec(reg, ids.skip(1), zoom, acc2, use2, Some(inf2))
            }
        }
    }
}

/// Resolution of `ids` starting from an empty accumulator.
pub open spec fn resolve_ids(reg: TileSources, ids: Seq<Seq<char>>, zoom: Option<u8>) -> Resolution {
    resolve_rec(reg, ids, zoom, Seq::<SourceV>::empty(), false, None)
}

/// Whether a source serves `z`, as a predicate over source views.
pub open spec fn zoom_pred(z: u8) -> spec_fn(SourceV) -> bool {
    |s: SourceV| zoom_ok(s.tilejson(), z)
}

proof fn lemma_filter_push<A>(s: Seq<A>, x: A, pred: spec_fn(A) -> bool)
    ensures
        s.push(x).filter(pred) == if pred(x) {
            s.filter(pred).push(x)
        } else {
            s.filter(pred)
        },
{
    reveal(Seq::filter);
    assert(s.push(x).drop_last() =~= s);
    assert(s.push(x).last() == x);
}

proof fn lemma_zoom_filter_rec(
    reg: TileSources,
    ids: Seq<Seq<char>>,
    z: u8,
    acc: Seq<SourceV>,
    use_q: bool,
    info: Option<TileInfo>,
)
    ensures
        ({
            let rn = resolve_rec(reg, ids, None, acc, use_q, info);
            let rz = resolve_rec(reg, ids, Some(z), acc.filter(zoom_pred(z)), use_q, info);
            match rn {
                Resolution::Resolved { sources: sn, use_url_query: un, info: fin } => rz
                    matches Resolution::Resolved { sources: sz, use_url_query: uz, info: fiz }
                    && sz == sn.filter(zoom_pred(z)) && uz == un && fiz == fin,
                _ => true,
            }
        }),
    decreases ids.len(),
{
    let p = zoom_pred(z);
    if ids.len() > 0 {
        let id = ids[0];
        if reg.has_id(id) {
            let src = reg.at_id(id)@;
            let use2 = use_q || src.supports_query();
            if !(info matches Some(inf) && inf != src.info()) {
                let inf2 = match info {
                    Some(i) => i,
                    None => src.info(),
                };
                lemma_filter_push(acc, src, p);
                assert(zoom_passes(src.tilejson(), None));
                assert(zoom_passes(src.tilejson(), Some(z)) == p(src));
                lemma_zoom_filter_rec(reg, ids.skip(1), z, acc.push(src), use2, Some(inf2));
            }
        }
    }
}

/// Zoom filtering drops exactly the sources whose zoom range excludes the
/// requested zoom, and keeps the remaining sources in their request order:
/// a set resolved at a zoom is the set resolved without one, filtered by
/// zoom validity. The query-parameter flag and the shared fingerprint are
/// unaffected by the filtering.
pub proof fn lemma_zoom_filtering(reg: TileSources, ids: Seq<Seq<char>>, z: u8)
    ensures
        ({
            let rn = resolve_ids(reg, ids, None);
            let rz = resolve_ids(reg, ids, Some(z));
            match rn {
                Resolution::Resolved { sources: sn, use_url_query: un, info: fin } => rz
                    matches Resolution::Resolved { sources: sz, use_url_query: uz, info: fiz }
                    && sz == sn.filter(zoom_pred(z)) && uz == un && fiz == fin,
                _ => true,
            }
        }),
{
    assert(Seq::<SourceV>::empty().filter(zoom_pred(z)) =~= Seq::<SourceV>::empty()) by {
        reveal(Seq::filter);
    }
    lemma_zoom_filter_rec(reg, ids, z, Seq::<SourceV>::empty(), false, None);
}

/// The registry of tile sources.
#[derive(Debug)]
pub struct TileSources {
    entries: Vec<(String, Source)>,
}

impl TileSources {
    /// The registered ids, in storage (lexicographic) order.
    pub closed spec fn ids(&self) -> Seq<Seq<char>> {
        self.entries@.map_values(|p: (String, Source)| p.0@)
    }

    /// The registered producers, in storage order.
    pub closed spec fn srcs(&self) -> Seq<Source> {
        self.entries@.map_values(|p: (String, Source)| p.1)
    }

    /// The number of registered sources.
    pub open spec fn len(&self) -> nat {
        self.ids().len()
    }

    /// Well-formed: ids strictly sorted by `lex_lt`, hence unique.
    pub closed spec fn wf(&self) -> bool {
        forall|i: int, j: int|
            0 <= i < j < self.entries@.len() ==> lex_lt(
                self.entries@[i].0@,
                self.entries@[j].0@,
            )
    }

    /// Whether some source is registered under `k`.
    pub open spec fn has_id(&self, k: Seq<char>) -> bool {
        self.ids().contains(k)
    }

    /// The storage index of the source registered under `k`.
    pub closed spec fn index_of(&self, k: Seq<char>) -> int {
        choose|i: int| 0 <= i < self.entries@.len() && self.entries@[i].0@ == k
    }

    /// The source registered under `k`.
    pub open spec fn at_id(&self, k: Seq<char>) -> Source {
        self.srcs()[self.index_of(k)]
    }

    proof fn lemma_index_of_valid(&self, k: Seq<char>)
        requires
            self.has_id(k),
        ensures
            0 <= self.index_of(k) < self.entries@.len(),
            self.entries@[self.index_of(k)].0@ == k,
            self.at_id(k) == self.entries@[self.index_of(k)].1,
    {
        let w = choose|w: int| 0 <= w < self.ids().len() && self.ids()[w] == k;
        assert(self.entries@[w].0@ == k);
        let i = self.index_of(k);
        assert(0 <= i < self.entries@.len() && self.entries@[i].0@ == k);
        assert(self.srcs()[i] == self.entries@[i].1);
    }

    /// In a well-formed registry an id names at most one entry.
    proof fn lemma_index_unique(&self, i: int, k: Seq<char>)
        requires
            self.wf(),
            0 <= i < self.entries@.len(),
            self.entries@[i].0@ == k,
        ensures
            self.has_id(k),
            self.index_of(k) == i,
            self.at_id(k) == self.entries@[i].1,
    {
        assert(self.ids()[i] == k);
        assert(self.has_id(k));
        self.lemma_index_of_valid(k);
        let j = self.index_of(k);
        if i < j {
            crate::text::lemma_lex_trichotomy(k, k);
            assert(lex_lt(self.entries@[i].0@, self.entries@[j].0@));
            assert(false);
        }
        if j < i {
            crate::text::lemma_lex_trichotomy(k, k);
            assert(lex_lt(self.entries@[j].0@, self.entries@[i].0@));
            assert(false);
        }
    }

    /// Looks up the producer registered under `id`; `NotFound` carries the
    /// id when no producer is registered under it.
    pub fn get_source(&self, id: &str) -> (r: Result<Source, MartinError>)
        requires
            self.wf(),
        ensures
            match r {
                Ok(src) => self.has_id(id@) && src@ == self.at_id(id@)@,
                Err(e) => !self.has_id(id@) && (e matches MartinError::NotFound(s)
                    && s@ == id@),
            },
    {
        let key = id.to_owned();
        let mut i: usize = 0;
        while i < self.entries.len()
            invariant
                self.wf(),
                key@ == id@,
                0 <= i <= self.entries@.len(),
                forall|j: int| 0 <= j < i ==> self.entries@[j].0@ != id@,
            decreases self.entries@.len() - i,
        {
            if self.entries[i].0 == key {
                proof {
                    self.lemma_index_unique(i as int, id@);
                }
                return Ok(self.entries[i].1.clone());
            }
            i = i + 1;
        }
        proof {
            assert(!self.has_id(id@)) by {
                if self.ids().contains(id@) {
                    let w = choose|w: int|
                        0 <= w < self.ids().len() && self.ids()[w] == id@;
                    assert(self.entries@[w].0@ != id@);
                }
            }
        }
        Err(MartinError::NotFound(key))
    }

    /// Registers `source` under `key`: replaces the producer when the key is
    /// already present, inserts it otherwise. Every other entry is kept.
    pub fn insert_source(&mut self, key: String, source: Source)
        requires
            old(self).wf(),
        ensures
            inserted(*old(self), *final(self), key@, source),
    {
        let ghost gkey = key@;
        let ghost gpair = (key, source);
        let ghost old_entries = self.entries@;
        let mut i: usize = 0;
        while i < self.entries.len() && str_lt(self.entries[i].0.as_str(), key.as_str())
            invariant
                self.wf(),
                self.entries@ == old_entries,
                key@ == gkey,
                0 <= i <= self.entries@.len(),
                forall|j: int| 0 <= j < i ==> lex_lt(self.entries@[j].0@, gkey),
            decreases self.entries@.len() - i,
        {
            i = i + 1;
        }
        // Here every entry before `i` sorts strictly before `key`, and entry
        // `i` (when present) does not sort before `key`.
        let is_replace = i < self.entries.len() && self.entries[i].0 == key;
        if is_replace {
            // Replace in place: the id layout is unchanged.
            let _old_pair = self.entries.remove(i);
            self.entries.insert(i, (key, source));
            proof {
                self.lemma_replace_post(*old(self), old_entries, i as int, gkey, gpair);
            }
        } else {
            proof {
                if i < self.entries@.len() {
                    crate::text::lemma_lex_trichotomy(self.entries@[i as int].0@, gkey);
                    assert(self.entries@[i as int].0@ != gkey);
                    assert(lex_lt(gkey, self.entries@[i as int].0@));
                }
            }
            self.entries.insert(i, (key, source));
            proof {
                self.lemma_insert_new_post(*old(self), old_entries, i as int, gkey, gpair);
            }
        }
    }

    /// Builds the registry from the startup source lists. Duplicate ids are
    /// a configuration error: nothing is installed and the offending id is
    /// reported, since silently shadowing a source would be a hazard.
    #[verifier::loop_isolation(false)]
    pub fn new(sources: Vec<Vec<Source>>) -> (r: Result<TileSources, MartinError>)
        ensures
            match r {
                Ok(t) => built_from(t, sources@),
                Err(e) => {
                    &&& !unique_source_ids(flatten_sources(sources@))
                    &&& e matches MartinError::ConfigurationError(dup)
                        && exists|i: int, j: int|
                            0 <= i < j < flatten_sources(sources@).len()
                            && flatten_sources(sources@)[i]@.id()
                                == flatten_sources(sources@)[j]@.id()
                            && flatten_sources(sources@)[j]@.id() == dup@
                },
            },
    {
        let ghost all = sources@;
        let mut flat: Vec<Source> = Vec::new();
        let mut rest = sources;
        proof {
            assert(flat@ + flatten_sources(rest@) =~= flatten_sources(all));
        }
        while rest.len() > 0
            invariant
                flat@ + flatten_sources(rest@) == flatten_sources(all),
            decreases rest@.len(),
        {
            let ghost rest0 = rest@;
            let mut v = rest.remove(0);
            proof {
                assert(rest@ =~= rest0.skip(1));
                assert(flatten_sources(rest0) == rest0[0]@ + flatten_sources(rest0.skip(1)));
                assert(flat@ + (v@ + flatten_sources(rest@)) =~= flatten_sources(all));
            }
            while v.len() > 0
                invariant
                    flat@ + (v@ + flatten_sources(rest@)) == flatten_sources(all),
                decreases v@.len(),
            {
                let ghost v0 = v@;
                let ghost flat0 = flat@;
                let x = v.remove(0);
                flat.push(x);
                proof {
                    assert(v@ =~= v0.skip(1));
                    assert(flat@ =~= flat0.push(v0[0]));
                    assert(flat@ + (v@ + flatten_sources(rest@))
                        =~= flat0 + (v0 + flatten_sources(rest@)));
                }
            }
            proof {
                assert(v@.len() == 0);
                assert(flat@ + (v@ + flatten_sources(rest@))
                    =~= flat@ + flatten_sources(rest@));
            }
        }
        proof {
            assert(flatten_sources(rest@).len() == 0);
            assert(flat@ =~= flat@ + flatten_sources(rest@));
        }
        let ghost full = flatten_sources(all);
        proof {
            assert(flat@ == full);
        }

        let mut t = TileSources { entries: Vec::new() };
        proof {
            assert(t.wf());
            assert(t.len() == 0);
            assert(full.take(0) =~= Seq::<Source>::empty());
            assert(flat@ =~= full.skip(0));
            assert(forall|k: Seq<char>| !t.has_id(k)) by {
                assert(t.ids().len() == 0);
            }
        }
        while flat.len() > 0
            invariant
                t.wf(),
                flat@.len() <= full.len(),
                flat@ == full.skip(full.len() - flat@.len()),
                unique_source_ids(full.take(full.len() - flat@.len())),
                t.len() == full.len() - flat@.len(),
                forall|k: Seq<char>| t.has_id(k) == source_ids(
                    full.take(full.len() - flat@.len()),
                ).contains(k),
                forall|i: int| 0 <= i < full.len() - flat@.len()
                    ==> t.has_id(#[trigger] full[i]@.id()) && t.at_id(full[i]@.id()) == full[i],
            decreases flat@.len(),
        {
            let ghost d = full.len() - flat@.len();
            let ghost flat0 = flat@;
            let src = flat.remove(0);
            proof {
                assert(flat@ =~= flat0.skip(1));
                assert(full.skip(d)[0] == full[d]);
                assert(src == full[d]);
                assert(flat@ =~= full.skip(d + 1)) by {
                    assert(forall|x: int| 0 <= x < flat0.len() - 1
                        ==> flat0.skip(1)[x] == #[trigger] full.skip(d)[x + 1]);
                    assert(forall|x: int| 0 <= x < full.len() - d - 1
                        ==> #[trigger] full.skip(d + 1)[x] == full[d + 1 + x]
                            && full.skip(d)[x + 1] == full[d + 1 + x]);
                }
            }
            let id_str = src.get_id().to_owned();
            let dup = match t.get_source(id_str.as_str()) {
                Ok(_) => true,
                Err(_) => false,
            };
            if dup {
                proof {
                    let done = full.take(d);
                    assert(source_ids(done).contains(id_str@));
                    let w = choose|w: int|
                        0 <= w < source_ids(done).len() && source_ids(done)[w] == id_str@;
                    assert(done[w] == full[w]);
                    assert(full[w]@.id() == id_str@);
                    assert(full[d]@.id() == id_str@);
                    assert(0 <= w < d < full.len()
                        && full[w]@.id() == full[d]@.id()
                        && full[d]@.id() == id_str@);
                    assert(!unique_source_ids(full));
                    assert(full == flatten_sources(all));
                }
                return Err(MartinError::ConfigurationError(id_str));
            }
            let ghost t0 = t;
            t.insert_source(id_str, src);
            proof {
                let done = full.take(d);
                let done2 = full.take(d + 1);
                assert(done2.drop_last() =~= done);
                assert(done2.last() == full[d]);
                lemma_source_ids_push(done, full[d]);
                assert(done2 =~= done.push(full[d]));
                assert(source_ids(done2) =~= source_ids(done).push(full[d]@.id()));
                assert(unique_source_ids(done2)) by {
                    assert(forall|i: int, j: int| 0 <= i < j < done.len()
                        ==> #[trigger] done2[i]@.id() != #[trigger] done2[j]@.id());
                    assert(forall|i: int| 0 <= i < done.len()
                        ==> #[trigger] done2[i]@.id() != done2[d as int]@.id()) by {
                        assert(forall|i: int| 0 <= i < done.len()
                            ==> source_ids(done)[i] == #[trigger] done[i]@.id());
                        if exists|i: int| 0 <= i < done.len()
                            && #[trigger] done2[i]@.id() == done2[d as int]@.id() {
                            let i = choose|i: int| 0 <= i < done.len()
                                && #[trigger] done2[i]@.id() == done2[d as int]@.id();
                            assert(source_ids(done).contains(full[d]@.id()));
                            assert(t0.has_id(full[d]@.id()));
                            assert(false);
                        }
                    }
                }
                assert forall|k: Seq<char>| t.has_id(k)
                    == source_ids(done2).contains(k) by {
                    if k == full[d]@.id() {
                        assert(source_ids(done2)[d as int] == k);
                        assert(source_ids(done2).contains(k));
                    } else {
                        assert(t.has_id(k) == t0.has_id(k));
                        if source_ids(done).contains(k) {
                            let w = choose|w: int| 0 <= w < source_ids(done).len()
                                && source_ids(done)[w] == k;
                            assert(source_ids(done2)[w] == k);
                            assert(source_ids(done2).contains(k));
                        }
                        if source_ids(done2).contains(k) {
                            let w = choose|w: int| 0 <= w < source_ids(done2).len()
                                && source_ids(done2)[w] == k;
                            assert(w < done.len());
                            assert(source_ids(done)[w] == k);
                            assert(source_ids(done).contains(k));
                        }
                    }
                }
                assert forall|i: int| 0 <= i < d + 1
                    implies t.has_id(#[trigger] full[i]@.id())
                        && t.at_id(full[i]@.id()) == full[i] by {
                    if i < d {
                        assert(t0.has_id(full[i]@.id()));
                        assert(full[i]@.id() != full[d]@.id()) by {
                            if full[i]@.id() == full[d]@.id() {
                                assert(done[i] == full[i]);
                                assert(source_ids(done)[i] == full[i]@.id());
                                assert(source_ids(done).contains(full[d]@.id()));
                                assert(t0.has_id(full[d]@.id()));
                            }
                        }
                    }
                }
            }
        }
        proof {
            assert(full.take(full.len() as int) =~= full);
            assert(flat@.len() == 0);
        }
        Ok(t)
    }

    /// The derived catalog: every registered source's projection, ordered
    /// lexicographically by id. Repeated calls on an unchanged registry
    /// return the same catalog.
    pub fn get_catalog(&self) -> (r: TileCatalog)
        requires
            self.wf(),
        ensures
            r@.len() == self.len(),
            forall|i: int| 0 <= i < r@.len()
                ==> (#[trigger] r@[i]).0@ == self.ids()[i]
                    && r@[i].1@ == catalog_entry_of(self.srcs()[i]@),
            forall|i: int, j: int| 0 <= i < j < r@.len()
                ==> lex_lt(#[trigger] r@[i].0@, #[trigger] r@[j].0@),
    {
        let mut r: TileCatalog = Vec::new();
        let mut i: usize = 0;
        while i < self.entries.len()
            invariant
                self.wf(),
                0 <= i <= self.entries@.len(),
                r@.len() == i,
                forall|j: int| 0 <= j < i
                    ==> (#[trigger] r@[j]).0@ == self.ids()[j]
                        && r@[j].1@ == catalog_entry_of(self.srcs()[j]@),
            decreases self.entries@.len() - i,
        {
            r.push((self.entries[i].0.clone(), self.entries[i].1.get_catalog_entry()));
            proof {
                assert(self.ids()[i as int] == self.entries@[i as int].0@);
                assert(self.srcs()[i as int] == self.entries@[i as int].1);
            }
            i = i + 1;
        }
        proof {
            assert forall|a: int, b: int| 0 <= a < b < r@.len()
                implies lex_lt(#[trigger] r@[a].0@, #[trigger] r@[b].0@) by {
                assert(r@[a].0@ == self.entries@[a].0@);
                assert(r@[b].0@ == self.entries@[b].0@);
            }
        }
        r
    }

    /// Whether `zoom` is valid for `src`; the id only labels diagnostics.
    pub fn check_zoom(src: &Source, id: &str, zoom: u8) -> (r: bool)
        ensures
            r == zoom_ok(src@.tilejson(), zoom),
    {
        let _ = id;
        src.is_valid_zoom(zoom)
    }

    /// Resolves a comma-separated id list against the registry: looks every
    /// id up in the caller's order, requires one shared format fingerprint,
    /// and, when a zoom is supplied, drops sources that do not serve it
    /// while keeping the order of the rest. Any unknown id aborts the whole
    /// request with `NotFound`; the first fingerprint mismatch aborts it
    /// with `MergeConflict` naming both fingerprints.
    #[verifier::loop_isolation(false)]
    pub fn get_sources(&self, source_ids: &str, zoom: Option<u8>) -> (r: Result<
        (Vec<Source>, bool, TileInfo),
        MartinError,
    >)
        requires
            self.wf(),
        ensures
            ({
                let outcome = resolve_ids(*self, split_on(source_ids@, ','), zoom);
                match r {
                    Ok((srcs, use_q, info)) => outcome matches Resolution::Resolved {
                        sources,
                        use_url_query,
                        info: inf,
                    } && sources_view(srcs@) == sources && use_q == use_url_query
                        && info == inf,
                    Err(e) => match e {
                        MartinError::NotFound(s) => outcome matches Resolution::UnknownId {
                            id,
                        } && s@ == id,
                        MartinError::MergeConflict(a, b) => outcome
                            matches Resolution::Mismatch { expected, found }
                            && a == expected && b == found,
                        _ => false,
                    },
                }
            }),
    {
        let ghost all_ids = split_on(source_ids@, ',');
        let parts = split_str(source_ids, ',');
        let mut sources: Vec<Source> = Vec::new();
        let mut info: Option<TileInfo> = None;
        let mut use_url_query = false;
        let mut k: usize = 0;
        proof {
            assert(sources_view(sources@) =~= Seq::<SourceV>::empty());
            assert(all_ids.skip(0) =~= all_ids);
        }
        while k < parts.len()
            invariant
                self.wf(),
                crate::text::strs_view(parts@) == all_ids,
                parts@.len() == all_ids.len(),
                0 <= k <= parts@.len(),
                info is None ==> k == 0,
                resolve_ids(*self, all_ids, zoom) == resolve_rec(
                    *self,
                    all_ids.skip(k as int),
                    zoom,
                    sources_view(sources@),
                    use_url_query,
                    info,
                ),
            decreases parts@.len() - k,
        {
            let ghost rem = all_ids.skip(k as int);
            proof {
                assert(rem[0] == all_ids[k as int]);
                assert(all_ids[k as int] == parts@[k as int]@);
            }
            let id = &parts[k];
            let ghost use0 = use_url_query;
            let src = match self.get_source(id.as_str()) {
                Ok(s) => s,
                Err(e) => {
                    proof {
                        assert(resolve_rec(
                            *self,
                            rem,
                            zoom,
                            sources_view(sources@),
                            use_url_query,
                            info,
                        ) == (Resolution::UnknownId { id: id@ }));
                    }
                    return Err(e);
                },
            };
            let ghost gsrc = src;
            let src_inf = src.get_tile_info();
            use_url_query = use_url_query || src.support_url_query();
            match info {
                Some(inf) => {
                    if inf != src_inf {
                        proof {
                            assert(resolve_rec(
                                *self,
                                rem,
                                zoom,
                                sources_view(sources@),
                                use0,
                                info,
                            ) matches Resolution::Mismatch { expected, found }
                                && expected == inf && found == src_inf);
                        }
                        return Err(MartinError::MergeConflict(inf, src_inf));
                    }
                },
                None => {
                    info = Some(src_inf);
                },
            }
            let keep = match zoom {
                Some(z) => Self::check_zoom(&src, id.as_str(), z),
                None => true,
            };
            let ghost sources0 = sources@;
            if keep {
                sources.push(src);
                proof {
                    lemma_sources_view_push(sources0, gsrc);
                }
            }
            proof {
                assert(rem.skip(1) =~= all_ids.skip(k + 1));
            }
            k = k + 1;
        }
        proof {
            assert(all_ids.skip(k as int).len() == 0);
            assert(parts@.len() >= 1);
        }
        let info_val = info.unwrap();
        Ok((sources, use_url_query, info_val))
    }

    /// After replacing the pair at a well-chosen index `i` whose id already
    /// read `k`, all the insertion postconditions hold.
    proof fn lemma_replace_post(
        &self,
        pre: TileSources,
        old_entries: Seq<(String, Source)>,
        i: int,
        k: Seq<char>,
        pair: (String, Source),
    )
        requires
            pre.wf(),
            pre.entries@ == old_entries,
            0 <= i < old_entries.len(),
            old_entries[i].0@ == k,
            pair.0@ == k,
            self.entries@ == old_entries.remove(i).insert(i, pair),
        ensures
            self.wf(),
            self.has_id(k),
            self.at_id(k) == pair.1,
            self.len() == if pre.has_id(k) { pre.len() } else { (pre.len() + 1) as nat },
            forall|k2: Seq<char>| k2 != k ==> self.has_id(k2) == pre.has_id(k2),
            forall|k2: Seq<char>| k2 != k && pre.has_id(k2)
                ==> self.at_id(k2) == pre.at_id(k2),
    {
        let n = self.entries@;
        assert(n =~= old_entries.update(i, pair)) by {
            old_entries.remove(i).insert_ensures(i, pair);
            old_entries.remove_ensures(i);
        }
        assert(forall|x: int| 0 <= x < n.len() ==> n[x].0@ == old_entries[x].0@);
        assert(self.wf()) by {
            assert(forall|a: int, b: int| 0 <= a < b < n.len()
                ==> lex_lt(old_entries[a].0@, old_entries[b].0@));
        }
        self.lemma_index_unique(i, k);
        pre.lemma_index_unique(i, k);
        assert(self.ids() =~= pre.ids());
        assert forall|k2: Seq<char>| k2 != k && pre.has_id(k2)
            implies self.at_id(k2) == pre.at_id(k2) by {
            pre.lemma_index_of_valid(k2);
            let j = pre.index_of(k2);
            assert(j != i);
            assert(n[j] == old_entries[j]);
            self.lemma_index_unique(j, k2);
            pre.lemma_index_unique(j, k2);
        }
    }

    /// After inserting a fresh pair at the index `i` where the scan stopped,
    /// all the insertion postconditions hold.
    proof fn lemma_insert_new_post(
        &self,
        pre: TileSources,
        old_entries: Seq<(String, Source)>,
        i: int,
        k: Seq<char>,
        pair: (String, Source),
    )
        requires
            pre.wf(),
            pre.entries@ == old_entries,
            0 <= i <= old_entries.len(),
            pair.0@ == k,
            forall|j: int| 0 <= j < i ==> lex_lt(old_entries[j].0@, k),
            i < old_entries.len() ==> lex_lt(k, old_entries[i].0@),
            self.entries@ == old_entries.insert(i, pair),
        ensures
            self.wf(),
            self.has_id(k),
            self.at_id(k) == pair.1,
            self.len() == if pre.has_id(k) { pre.len() } else { (pre.len() + 1) as nat },
            forall|k2: Seq<char>| k2 != k ==> self.has_id(k2) == pre.has_id(k2),
            forall|k2: Seq<char>| k2 != k && pre.has_id(k2)
                ==> self.at_id(k2) == pre.at_id(k2),
    {
        let n = self.entries@;
        old_entries.insert_ensures(i, pair);
        assert(n.len() == old_entries.len() + 1);
        assert(n[i] == pair);
        assert(forall|x: int| 0 <= x < i ==> n[x] == old_entries[x]);
        assert(forall|x: int| i <= x < old_entries.len() ==> n[x + 1] == old_entries[x]);
        assert(forall|x: int| i < x < n.len() ==> n[x] == old_entries[x - 1]);

        // Well-formedness: the three zones around the inserted pair.
        assert forall|a: int, b: int| 0 <= a < b < n.len()
            implies lex_lt(n[a].0@, n[b].0@) by {
            if b < i {
                assert(lex_lt(old_entries[a].0@, old_entries[b].0@));
            } else if b == i {
                assert(lex_lt(old_entries[a].0@, k));
            } else if a < i {
                assert(lex_lt(old_entries[a].0@, old_entries[b - 1].0@)) by {
                    if a == b - 1 {
                        assert(false);
                    }
                }
            } else if a == i {
                if b - 1 == i {
                    assert(lex_lt(k, old_entries[i].0@));
                } else {
                    crate::text::lemma_lex_transitive(
                        k,
                        old_entries[i].0@,
                        old_entries[b - 1].0@,
                    );
                }
            } else {
                assert(lex_lt(old_entries[a - 1].0@, old_entries[b - 1].0@));
            }
        }

        self.lemma_index_unique(i, k);

        // The fresh key was absent before.
        assert(!pre.has_id(k)) by {
            if pre.has_id(k) {
                pre.lemma_index_of_valid(k);
                let m = pre.index_of(k);
                crate::text::lemma_lex_trichotomy(k, k);
                if m < i {
                    assert(lex_lt(old_entries[m].0@, k));
                } else {
                    assert(i < old_entries.len());
                    if m == i {
                        assert(lex_lt(k, old_entries[i].0@));
                    } else {
                        assert(lex_lt(old_entries[i].0@, old_entries[m].0@));
                        crate::text::lemma_lex_transitive(
                            k,
                            old_entries[i].0@,
                            old_entries[m].0@,
                        );
                    }
                }
            }
        }

        // Presence of every other key is unchanged.
        assert forall|k2: Seq<char>| k2 != k
            implies self.has_id(k2) == pre.has_id(k2) by {
            if self.has_id(k2) {
                self.lemma_index_of_valid(k2);
                let w = self.index_of(k2);
                assert(w != i);
                if w < i {
                    assert(pre.ids()[w] == k2);
                } else {
                    assert(pre.ids()[w - 1] == k2);
                }
                assert(pre.has_id(k2));
            }
            if pre.has_id(k2) {
                pre.lemma_index_of_valid(k2);
                let w = pre.index_of(k2);
                if w < i {
                    assert(self.ids()[w] == k2);
                } else {
                    assert(self.ids()[w + 1] == k2);
                }
                assert(self.has_id(k2));
            }
        }

        // Every other key still names the same producer.
        assert forall|k2: Seq<char>| k2 != k && pre.has_id(k2)
            implies self.at_id(k2) == pre.at_id(k2) by {
            pre.lemma_index_of_valid(k2);
            let j = pre.index_of(k2);
            pre.lemma_index_unique(j, k2);
            if j < i {
                self.lemma_index_unique(j, k2);
                assert(n[j].1 == old_entries[j].1);
            } else {
                self.lemma_index_unique(j + 1, k2);
                assert(n[j + 1].1 == old_entries[j].1);
            }
        }
    }
}

impl Default for CatalogSourceEntry {
    /// An empty entry: an empty content type and no optional fields.
    fn default() -> (r: Self)
        ensures
            r@.content_type.len() == 0,
            r@.content_encoding is None,
            r@.name is None,
            r@.description is None,
            r@.attribution is None,
    {
        CatalogSourceEntry {
            content_type: String::new(),
            content_encoding: None,
            name: None,
            description: None,
            attribution: None,
        }
    }
}

} // verus!
