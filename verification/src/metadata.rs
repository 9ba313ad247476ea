use vstd::prelude::*;

use crate::text::strs_view;

verus! {

// ---------------------------------------------------------------------------
// Geographic bounds and center
//
// Coordinates are fixed-point degrees (a scaled integer representation), so
// that the rectangle algebra below stays in integer arithmetic. Callers that
// hold floating-point degrees scale them before entering the core.
// ---------------------------------------------------------------------------

/// A geographic bounding rectangle, in fixed-point degrees.
#[derive(Clone, Copy, Debug, PartialEq, Eq, Structural)]
pub struct Bounds {
    pub west: i64,
    pub south: i64,
    pub east: i64,
    pub north: i64,
}

/// A rectangle is valid when its corners are ordered.
pub open spec fn bounds_valid(b: Bounds) -> bool {
    b.west <= b.east && b.south <= b.north
}

/// The smallest rectangle containing both `a` and `b`.
pub open spec fn bounds_union(a: Bounds, b: Bounds) -> Bounds {
    Bounds {
        west: if a.west <= b.west { a.west } else { b.west },
        south: if a.south <= b.south { a.south } else { b.south },
        east: if a.east >= b.east { a.east } else { b.east },
        north: if a.north >= b.north { a.north } else { b.north },
    }
}

impl Bounds {
    pub fn new(west: i64, south: i64, east: i64, north: i64) -> (r: Self)
        ensures
            r == (Bounds { west, south, east, north }),
    {
        Bounds { west, south, east, north }
    }

    /// The smallest rectangle containing both `self` and `other`.
    pub fn union(&self, other: &Bounds) -> (r: Bounds)
        ensures
            r == bounds_union(*self, *other),
    {
        Bounds {
            west: if self.west <= other.west { self.west } else { other.west },
            south: if self.south <= other.south { self.south } else { other.south },
            east: if self.east >= other.east { self.east } else { other.east },
            north: if self.north >= other.north { self.north } else { other.north },
        }
    }
}

/// The union of two valid rectangles is valid.
pub proof fn lemma_bounds_union_valid(a: Bounds, b: Bounds)
    requires
        bounds_valid(a),
        bounds_valid(b),
    ensures
        bounds_valid(bounds_union(a, b)),
{
}

/// A suggested view point: longitude and latitude in fixed-point degrees,
/// plus a zoom level.
#[derive(Clone, Copy, Debug, PartialEq, Eq, Structural)]
pub struct Center {
    pub longitude: i64,
    pub latitude: i64,
    pub zoom: u8,
}

// ---------------------------------------------------------------------------
// Vector layers
// ---------------------------------------------------------------------------

/// A vector-layer descriptor: the layer's name and its attribute fields,
/// each field a (name, description) pair.
#[derive(Debug, PartialEq, Eq)]
pub struct VectorLayer {
    pub id: String,
    pub fields: Vec<(String, String)>,
}

/// The mathematical value of a `VectorLayer`.
pub struct VectorLayerV {
    pub id: Seq<char>,
    pub fields: Seq<(Seq<char>, Seq<char>)>,
}

impl View for VectorLayer {
    type V = VectorLayerV;

    open spec fn view(&self) -> VectorLayerV {
        VectorLayerV { id: self.id@, fields: pairs_view(self.fields@) }
    }
}

/// The view of a sequence of (name, description) pairs.
pub open spec fn pairs_view(v: Seq<(String, String)>) -> Seq<(Seq<char>, Seq<char>)> {
    v.map_values(|p: (String, String)| (p.0@, p.1@))
}

proof fn lemma_pairs_view_push(v: Seq<(String, String)>, x: (String, String))
    ensures
        pairs_view(v.push(x)) =~= pairs_view(v).push((x.0@, x.1@)),
{
}

pub(crate) fn clone_pairs(v: &Vec<(String, String)>) -> (r: Vec<(String, String)>)
    ensures
        pairs_view(r@) == pairs_view(v@),
{
    let mut r: Vec<(String, String)> = Vec::new();
    let mut i: usize = 0;
    while i < v.len()
        invariant
            0 <= i <= v@.len(),
            pairs_view(r@) =~= pairs_view(v@.subrange(0, i as int)),
        decreases v@.len() - i,
    {
        let ghost r0 = r@;
        r.push((v[i].0.clone(), v[i].1.clone()));
        proof {
            lemma_pairs_view_push(r0, v@[i as int]);
            lemma_pairs_view_push(v@.subrange(0, i as int), v@[i as int]);
            assert(v@.subrange(0, i + 1) =~= v@.subrange(0, i as int).push(v@[i as int]));
            assert(pairs_view(r@) =~= pairs_view(v@.subrange(0, i + 1)));
        }
        i = i + 1;
    }
    proof {
        assert(v@.subrange(0, v@.len() as int) =~= v@);
    }
    r
}

impl Clone for VectorLayer {
    fn clone(&self) -> (r: Self)
        ensures
            r@ == self@,
    {
        VectorLayer { id: self.id.clone(), fields: clone_pairs(&self.fields) }
    }
}

/// The view of a sequence of vector layers.
pub open spec fn layers_view(v: Seq<VectorLayer>) -> Seq<VectorLayerV> {
    v.map_values(|l: VectorLayer| l@)
}

pub(crate) proof fn lemma_layers_view_push(v: Seq<VectorLayer>, x: VectorLayer)
    ensures
        layers_view(v.push(x)) =~= layers_view(v).push(x@),
{
}

fn clone_layers(v: &Vec<VectorLayer>) -> (r: Vec<VectorLayer>)
    ensures
        layers_view(r@) == layers_view(v@),
{
    let mut r: Vec<VectorLayer> = Vec::new();
    let mut i: usize = 0;
    while i < v.len()
        invariant
            0 <= i <= v@.len(),
            layers_view(r@) =~= layers_view(v@.subrange(0, i as int)),
        decreases v@.len() - i,
    {
        let ghost r0 = r@;
        let x = v[i].clone();
        proof {
            lemma_layers_view_push(r0, x);
            lemma_layers_view_push(v@.subrange(0, i as int), v@[i as int]);
        }
        r.push(x);
        proof {
            assert(v@.subrange(0, i + 1) =~= v@.subrange(0, i as int).push(v@[i as int]));
            assert(layers_view(r@) =~= layers_view(v@.subrange(0, i + 1)));
        }
        i = i + 1;
    }
    proof {
        assert(v@.subrange(0, v@.len() as int) =~= v@);
    }
    r
}

// ---------------------------------------------------------------------------
// TileJSON metadata
// ---------------------------------------------------------------------------

/// The character-sequence view of an optional string.
pub open spec fn opt_str_view(o: Option<String>) -> Option<Seq<char>> {
    match o {
        Some(s) => Some(s@),
        None => None,
    }
}

/// A tileset's TileJSON metadata document, restricted to the fields this
/// core reads and merges.
#[derive(Debug, PartialEq, Eq)]
pub struct TileJson {
    /// The TileJSON specification version of the document.
    pub tilejson: String,
    /// Tile URL templates.
    pub tiles: Vec<String>,
    pub name: Option<String>,
    pub description: Option<String>,
    pub attribution: Option<String>,
    pub version: Option<String>,
    pub minzoom: Option<u8>,
    pub maxzoom: Option<u8>,
    pub bounds: Option<Bounds>,
    pub center: Option<Center>,
    pub vector_layers: Option<Vec<VectorLayer>>,
}

/// The mathematical value of a `TileJson`.
pub struct TileJsonV {
    pub tilejson: Seq<char>,
    pub tiles: Seq<Seq<char>>,
    pub name: Option<Seq<char>>,
    pub description: Option<Seq<char>>,
    pub attribution: Option<Seq<char>>,
    pub version: Option<Seq<char>>,
    pub minzoom: Option<u8>,
    pub maxzoom: Option<u8>,
    pub bounds: Option<Bounds>,
    pub center: Option<Center>,
    pub vector_layers: Option<Seq<VectorLayerV>>,
}

impl View for TileJson {
    type V = TileJsonV;

    open spec fn view(&self) -> TileJsonV {
        TileJsonV {
            tilejson: self.tilejson@,
            tiles: strs_view(self.tiles@),
            name: opt_str_view(self.name),
            description: opt_str_view(self.description),
            attribution: opt_str_view(self.attribution),
            version: opt_str_view(self.version),
            minzoom: self.minzoom,
            maxzoom: self.maxzoom,
            bounds: self.bounds,
            center: self.center,
            vector_layers: match self.vector_layers {
                Some(v) => Some(layers_view(v@)),
                None => None,
            },
        }
    }
}

/// Internal consistency of a metadata document: zoom bounds ordered, and the
/// bounding rectangle, when present, a valid rectangle.
pub open spec fn tilejson_wf(t: TileJsonV) -> bool {
    &&& match (t.minzoom, t.maxzoom) {
        (Some(lo), Some(hi)) => lo <= hi,
        _ => true,
    }
    &&& match t.bounds {
        Some(b) => bounds_valid(b),
        None => true,
    }
}

pub(crate) fn clone_opt_string(o: &Option<String>) -> (r: Option<String>)
    ensures
        r == *o,
{
    match o {
        Some(s) => Some(s.clone()),
        None => None,
    }
}

fn clone_string_vec(v: &Vec<String>) -> (r: Vec<String>)
    ensures
        strs_view(r@) == strs_view(v@),
{
    let mut r: Vec<String> = Vec::new();
    let mut i: usize = 0;
    while i < v.len()
        invariant
            0 <= i <= v@.len(),
            strs_view(r@) =~= strs_view(v@.subrange(0, i as int)),
        decreases v@.len() - i,
    {
        let ghost r0 = r@;
        r.push(v[i].clone());
        proof {
            crate::text::lemma_strs_view_push(r0, v@[i as int]);
            crate::text::lemma_strs_view_push(v@.subrange(0, i as int), v@[i as int]);
            assert(v@.subrange(0, i + 1) =~= v@.subrange(0, i as int).push(v@[i as int]));
            assert(strs_view(r@) =~= strs_view(v@.subrange(0, i + 1)));
        }
        i = i + 1;
    }
    proof {
        assert(v@.subrange(0, v@.len() as int) =~= v@);
    }
    r
}

impl Clone for TileJson {
    fn clone(&self) -> (r: Self)
        ensures
            r@ == self@,
    {
        TileJson {
            tilejson: self.tilejson.clone(),
            tiles: clone_string_vec(&self.tiles),
            name: clone_opt_string(&self.name),
            description: clone_opt_string(&self.description),
            attribution: clone_opt_string(&self.attribution),
            version: clone_opt_string(&self.version),
            minzoom: self.minzoom,
            maxzoom: self.maxzoom,
            bounds: self.bounds,
            center: self.center,
            vector_layers: match &self.vector_layers {
                Some(v) => Some(clone_layers(v)),
                None => None,
            },
        }
    }
}

} // verus!
