use vstd::prelude::*;

use crate::metadata::{
    bounds_union, Bounds, Center, TileJson, TileJsonV, VectorLayer, VectorLayerV,
};
use crate::source::{sources_view, Source, SourceV};
use crate::text::{dedup_push, join_strings, join_with, push_if_absent, strs_view};

verus! {

// ---------------------------------------------------------------------------
// TileJSON metadata merging
//
// The metadata of a resolved source list is combined into one document, in
// resolution order: textual attributes are deduplicated and joined, bounds
// are unioned, the zoom range is widened, the first center wins, and vector
// layers are concatenated.
// ---------------------------------------------------------------------------

/// The path of a multi-source request: a comma-separated id list.
#[derive(Debug, PartialEq, Eq)]
pub struct SourceIDsRequest {
    pub source_ids: String,
}

/// The path-and-query of the tile URL template a request advertises: the
/// request's tiles path with the coordinate template appended, then the
/// caller's query string when one is present.
pub fn tiles_path_and_query(tiles_path: &str, query_string: &str) -> (r: String)
    ensures
        query_string@.len() == 0 ==> r@ == tiles_path@ + "/{z}/{x}/{y}"@,
        query_string@.len() != 0 ==> r@ == tiles_path@ + "/{z}/{x}/{y}"@ + seq!['?']
            + query_string@,
{
    let mut s = String::new();
    s.append(tiles_path);
    s.append("/{z}/{x}/{y}");
    if !query_string.is_empty() {
        proof {
            reveal_strlit("?");
            assert("?"@ =~= seq!['?']);
        }
        s.append("?");
        s.append(query_string);
        proof {
            assert(s@ =~= tiles_path@ + "/{z}/{x}/{y}"@ + seq!['?'] + query_string@);
        }
    }
    s
}

/// The TileJSON documents of resolved sources, in order.
pub open spec fn tjs_of(sources: Seq<SourceV>) -> Seq<TileJsonV> {
    sources.map_values(|s: SourceV| s.tilejson())
}

/// Present values collected in order, first occurrence of each value wins.
pub open spec fn collect_values(vals: Seq<Option<Seq<char>>>) -> Seq<Seq<char>>
    decreases vals.len(),
{
    if vals.len() == 0 {
        Seq::<Seq<char>>::empty()
    } else {
        let prev = collect_values(vals.drop_last());
        match vals.last() {
            Some(v) => dedup_push(prev, v),
            None => prev,
        }
    }
}

/// The collected values joined with `sep`; absent everywhere stays absent.
pub open spec fn joined(c: Seq<Seq<char>>, sep: Seq<char>) -> Option<Seq<char>> {
    if c.len() == 0 {
        None
    } else {
        Some(join_with(c, sep))
    }
}

/// The progressive rectangle union of the present bounds.
pub open spec fn merged_bounds(bs: Seq<Option<Bounds>>) -> Option<Bounds>
    decreases bs.len(),
{
    if bs.len() == 0 {
        None
    } else {
        match (merged_bounds(bs.drop_last()), bs.last()) {
            (None, b) => b,
            (a, None) => a,
            (Some(a), Some(b)) => Some(bounds_union(a, b)),
        }
    }
}

/// The least present minzoom.
pub open spec fn merged_minzoom(zs: Seq<Option<u8>>) -> Option<u8>
    decreases zs.len(),
{
    if zs.len() == 0 {
        None
    } else {
        match (merged_minzoom(zs.drop_last()), zs.last()) {
            (None, z) => z,
            (a, None) => a,
            (Some(a), Some(z)) => Some(if a <= z { a } else { z }),
        }
    }
}

/// The greatest present maxzoom.
pub open spec fn merged_maxzoom(zs: Seq<Option<u8>>) -> Option<u8>
    decreases zs.len(),
{
    if zs.len() == 0 {
        None
    } else {
        match (merged_maxzoom(zs.drop_last()), zs.last()) {
            (None, z) => z,
            (a, None) => a,
            (Some(a), Some(z)) => Some(if a >= z { a } else { z }),
        }
    }
}

/// The first present center; later sources never override it.
pub open spec fn first_center(cs: Seq<Option<Center>>) -> Option<Center>
    decreases cs.len(),
{
    if cs.len() == 0 {
        None
    } else {
        match first_center(cs.drop_last()) {
            Some(c) => Some(c),
            None => cs.last(),
        }
    }
}

/// The present layer lists laid end to end, in source order, kept intact.
pub open spec fn concat_layers(ls: Seq<Option<Seq<VectorLayerV>>>) -> Option<
    Seq<VectorLayerV>,
>
    decreases ls.len(),
{
    if ls.len() == 0 {
        None
    } else {
        match (concat_layers(ls.drop_last()), ls.last()) {
            (None, l) => l,
            (a, None) => a,
            (Some(a), Some(l)) => Some(a + l),
        }
    }
}

/// The merged document of two or more sources: the caller's URL as the only
/// tile template, and every other field folded as the merge rules say.
pub open spec fn merged_tilejson(tjs: Seq<TileJsonV>, url: Seq<char>) -> TileJsonV {
    TileJsonV {
        tilejson: "3.0.0"@,
        tiles: seq![url],
        name: joined(collect_values(tjs.map_values(|t: TileJsonV| t.name)), seq![',']),
        description: joined(
            collect_values(tjs.map_values(|t: TileJsonV| t.description)),
            seq!['\n'],
        ),
        attribution: joined(
            collect_values(tjs.map_values(|t: TileJsonV| t.attribution)),
            seq!['\n'],
        ),
        version: None,
        minzoom: merged_minzoom(tjs.map_values(|t: TileJsonV| t.minzoom)),
        maxzoom: merged_maxzoom(tjs.map_values(|t: TileJsonV| t.maxzoom)),
        bounds: merged_bounds(tjs.map_values(|t: TileJsonV| t.bounds)),
        center: first_center(tjs.map_values(|t: TileJsonV| t.center)),
        vector_layers: concat_layers(
            tjs.map_values(|t: TileJsonV| t.vector_layers),
        ),
    }
}

/// The bounding rectangles of well-formed documents are valid, and the
/// progressive union of valid rectangles stays valid: merging preserves the
/// bounds invariant.
pub proof fn lemma_merged_bounds_valid(bs: Seq<Option<Bounds>>)
    requires
        forall|i: int| 0 <= i < bs.len() ==> match #[trigger] bs[i] {
            Some(b) => crate::metadata::bounds_valid(b),
            None => true,
        },
    ensures
        match merged_bounds(bs) {
            Some(b) => crate::metadata::bounds_valid(b),
            None => true,
        },
    decreases bs.len(),
{
    if bs.len() > 0 {
        lemma_merged_bounds_valid(bs.drop_last());
        assert(bs.last() == bs[bs.len() - 1]);
        match (merged_bounds(bs.drop_last()), bs.last()) {
            (Some(a), Some(b)) => {
                crate::metadata::lemma_bounds_union_valid(a, b);
            },
            _ => {},
        }
    }
}

/// The merged minzoom is a lower bound of every present minzoom.
proof fn lemma_merged_minzoom_le(zs: Seq<Option<u8>>, i: int)
    requires
        0 <= i < zs.len(),
        zs[i] is Some,
    ensures
        merged_minzoom(zs) matches Some(lo) && lo <= zs[i]->Some_0,
    decreases zs.len(),
{
    if i < zs.len() - 1 {
        lemma_merged_minzoom_le(zs.drop_last(), i);
    }
}

/// The merged maxzoom is an upper bound of every present maxzoom.
proof fn lemma_merged_maxzoom_ge(zs: Seq<Option<u8>>, i: int)
    requires
        0 <= i < zs.len(),
        zs[i] is Some,
    ensures
        merged_maxzoom(zs) matches Some(hi) && hi >= zs[i]->Some_0,
    decreases zs.len(),
{
    if i < zs.len() - 1 {
        lemma_merged_maxzoom_ge(zs.drop_last(), i);
    }
}

/// Merging preserves the zoom ordering invariant whenever some source
/// constrains both ends of its zoom range: the merged range then brackets
/// that source's range. (A mix of one-sided ranges — one source giving only
/// a high minzoom, another only a low maxzoom — can produce an inverted
/// merged range, as it does in any fold of this shape.)
pub proof fn lemma_merged_zoom_ordered(tjs: Seq<TileJsonV>, i: int)
    requires
        forall|j: int| 0 <= j < tjs.len() ==> crate::metadata::tilejson_wf(#[trigger] tjs[j]),
        0 <= i < tjs.len(),
        tjs[i].minzoom is Some,
        tjs[i].maxzoom is Some,
    ensures
        ({
            let mins = tjs.map_values(|t: TileJsonV| t.minzoom);
            let maxs = tjs.map_values(|t: TileJsonV| t.maxzoom);
            merged_minzoom(mins) matches Some(lo) && merged_maxzoom(maxs) matches Some(hi)
                && lo <= hi
        }),
{
    let mins = tjs.map_values(|t: TileJsonV| t.minzoom);
    let maxs = tjs.map_values(|t: TileJsonV| t.maxzoom);
    assert(mins[i] == tjs[i].minzoom);
    assert(maxs[i] == tjs[i].maxzoom);
    lemma_merged_minzoom_le(mins, i);
    lemma_merged_maxzoom_ge(maxs, i);
}

/// Merges the metadata of a resolved source list into one document. With a
/// single source the document is that source's, with only the tile URL
/// replaced; with several, the fields are folded in resolution order.
#[verifier::loop_isolation(false)]
#[verifier::rlimit(30)]
pub fn merge_tilejson(sources: &Vec<Source>, tiles_url: String) -> (r: TileJson)
    ensures
        sources@.len() == 1 ==> r@ == (TileJsonV {
            tiles: seq![tiles_url@],
            ..sources@[0]@.tilejson()
        }),
        sources@.len() != 1 ==> r@ == merged_tilejson(
            tjs_of(sources_view(sources@)),
            tiles_url@,
        ),
{
    let ghost url = tiles_url@;
    let ghost tjs = tjs_of(sources_view(sources@));

    if sources.len() == 1 {
        let mut tj = sources[0].get_tilejson().clone();
        let mut tiles: Vec<String> = Vec::new();
        tiles.push(tiles_url);
        tj.tiles = tiles;
        proof {
            assert(strs_view(tj.tiles@) =~= seq![url]);
        }
        return tj;
    }

    let mut attributions: Vec<String> = Vec::new();
    let mut descriptions: Vec<String> = Vec::new();
    let mut names: Vec<String> = Vec::new();
    let mut bounds: Option<Bounds> = None;
    let mut minzoom: Option<u8> = None;
    let mut maxzoom: Option<u8> = None;
    let mut center: Option<Center> = None;
    let mut vector_layers: Option<Vec<VectorLayer>> = None;

    let ghost attrs = tjs.map_values(|t: TileJsonV| t.attribution);
    let ghost descs = tjs.map_values(|t: TileJsonV| t.description);
    let ghost nams = tjs.map_values(|t: TileJsonV| t.name);
    let ghost bs = tjs.map_values(|t: TileJsonV| t.bounds);
    let ghost mins = tjs.map_values(|t: TileJsonV| t.minzoom);
    let ghost maxs = tjs.map_values(|t: TileJsonV| t.maxzoom);
    let ghost cents = tjs.map_values(|t: TileJsonV| t.center);
    let ghost lays = tjs.map_values(|t: TileJsonV| t.vector_layers);

    let mut i: usize = 0;
    while i < sources.len()
        invariant
            0 <= i <= sources@.len(),
            strs_view(attributions@) == collect_values(attrs.take(i as int)),
            strs_view(descriptions@) == collect_values(descs.take(i as int)),
            strs_view(names@) == collect_values(nams.take(i as int)),
            bounds == merged_bounds(bs.take(i as int)),
            minzoom == merged_minzoom(mins.take(i as int)),
            maxzoom == merged_maxzoom(maxs.take(i as int)),
            center == first_center(cents.take(i as int)),
            match vector_layers {
                Some(v) => concat_layers(lays.take(i as int)) == Some(
                    crate::metadata::layers_view(v@),
                ),
                None => concat_layers(lays.take(i as int)) is None,
            },
        decreases sources@.len() - i,
    {
        let tj = sources[i].get_tilejson();
        proof {
            assert(sources_view(sources@)[i as int] == sources@[i as int]@);
            assert(tjs[i as int] == sources@[i as int]@.tilejson());
            assert(attrs.take(i + 1).drop_last() =~= attrs.take(i as int));
            assert(attrs.take(i + 1).last() == attrs[i as int]);
            assert(descs.take(i + 1).drop_last() =~= descs.take(i as int));
            assert(descs.take(i + 1).last() == descs[i as int]);
            assert(nams.take(i + 1).drop_last() =~= nams.take(i as int));
            assert(nams.take(i + 1).last() == nams[i as int]);
            assert(bs.take(i + 1).drop_last() =~= bs.take(i as int));
            assert(bs.take(i + 1).last() == bs[i as int]);
            assert(mins.take(i + 1).drop_last() =~= mins.take(i as int));
            assert(mins.take(i + 1).last() == mins[i as int]);
            assert(maxs.take(i + 1).drop_last() =~= maxs.take(i as int));
            assert(maxs.take(i + 1).last() == maxs[i as int]);
            assert(cents.take(i + 1).drop_last() =~= cents.take(i as int));
            assert(cents.take(i + 1).last() == cents[i as int]);
            assert(lays.take(i + 1).drop_last() =~= lays.take(i as int));
            assert(lays.take(i + 1).last() == lays[i as int]);
        }

        match &tj.vector_layers {
            Some(vl) => {
                match &mut vector_layers {
                    Some(acc) => {
                        let ghost acc0 = crate::metadata::layers_view(acc@);
                        let mut j: usize = 0;
                        while j < vl.len()
                            invariant
                                0 <= j <= vl@.len(),
                                crate::metadata::layers_view(acc@) == acc0
                                    + crate::metadata::layers_view(vl@).take(j as int),
                            decreases vl@.len() - j,
                        {
                            let ghost a0 = acc@;
                            let x = vl[j].clone();
                            proof {
                                crate::metadata::lemma_layers_view_push(a0, x);
                            }
                            acc.push(x);
                            proof {
                                assert(crate::metadata::layers_view(vl@)[j as int]
                                    == vl@[j as int]@);
                                assert(crate::metadata::layers_view(vl@).take(j + 1)
                                    =~= crate::metadata::layers_view(vl@).take(j as int)
                                        .push(vl@[j as int]@));
                                assert(crate::metadata::layers_view(acc@) =~= acc0
                                    + crate::metadata::layers_view(vl@).take(j + 1));
                            }
                            j = j + 1;
                        }
                        proof {
                            assert(crate::metadata::layers_view(vl@).take(vl@.len() as int)
                                =~= crate::metadata::layers_view(vl@));
                            assert(crate::metadata::layers_view(acc@) =~= acc0
                                + crate::metadata::layers_view(vl@));
                        }
                    },
                    None => {
                        let mut fresh: Vec<VectorLayer> = Vec::new();
                        let mut j: usize = 0;
                        while j < vl.len()
                            invariant
                                0 <= j <= vl@.len(),
                                crate::metadata::layers_view(fresh@)
                                    == crate::metadata::layers_view(vl@).take(j as int),
                            decreases vl@.len() - j,
                        {
                            let ghost f0 = fresh@;
                            let x = vl[j].clone();
                            proof {
                                crate::metadata::lemma_layers_view_push(f0, x);
                            }
                            fresh.push(x);
                            proof {
                                assert(crate::metadata::layers_view(vl@)[j as int]
                                    == vl@[j as int]@);
                                assert(crate::metadata::layers_view(fresh@)
                                    =~= crate::metadata::layers_view(vl@).take(j + 1));
                            }
                            j = j + 1;
                        }
                        proof {
                            assert(crate::metadata::layers_view(vl@).take(vl@.len() as int)
                                =~= crate::metadata::layers_view(vl@));
                        }
                        vector_layers = Some(fresh);
                    },
                }
            },
            None => {},
        }

        match &tj.attribution {
            Some(v) => push_if_absent(&mut attributions, v),
            None => {},
        }

        match tj.bounds {
            Some(b) => {
                bounds = match bounds {
                    Some(a) => Some(a.union(&b)),
                    None => Some(b),
                };
            },
            None => {},
        }

        if center.is_none() {
            // The first center found is kept: averaging several centers
            // could land in the middle of nowhere.
            center = tj.center;
        }

        match &tj.description {
            Some(v) => push_if_absent(&mut descriptions, v),
            None => {},
        }

        match tj.maxzoom {
            Some(z) => {
                maxzoom = match maxzoom {
                    Some(a) => Some(if a >= z { a } else { z }),
                    None => Some(z),
                };
            },
            None => {},
        }

        match tj.minzoom {
            Some(z) => {
                minzoom = match minzoom {
                    Some(a) => Some(if a <= z { a } else { z }),
                    None => Some(z),
                };
            },
            None => {},
        }

        match &tj.name {
            Some(v) => push_if_absent(&mut names, v),
            None => {},
        }

        i = i + 1;
    }

    proof {
        assert(attrs.take(attrs.len() as int) =~= attrs);
        assert(descs.take(descs.len() as int) =~= descs);
        assert(nams.take(nams.len() as int) =~= nams);
        assert(bs.take(bs.len() as int) =~= bs);
        assert(mins.take(mins.len() as int) =~= mins);
        assert(maxs.take(maxs.len() as int) =~= maxs);
        assert(cents.take(cents.len() as int) =~= cents);
        assert(lays.take(lays.len() as int) =~= lays);
        reveal_strlit(",");
        reveal_strlit("\n");
        assert(","@ =~= seq![',']);
        assert("\n"@ =~= seq!['\n']);
    }

    let attribution = if attributions.len() == 0 {
        None
    } else {
        Some(join_strings(&attributions, "\n"))
    };
    let description = if descriptions.len() == 0 {
        None
    } else {
        Some(join_strings(&descriptions, "\n"))
    };
    let name = if names.len() == 0 {
        None
    } else {
        Some(join_strings(&names, ","))
    };

    let mut tiles: Vec<String> = Vec::new();
    tiles.push(tiles_url);
    proof {
        assert(strs_view(tiles@) =~= seq![url]);
    }

    TileJson {
        tilejson: String::from_str("3.0.0"),
        tiles,
        name,
        description,
        attribution,
        version: None,
        minzoom,
        maxzoom,
        bounds,
        center,
        vector_layers,
    }
}

} // verus!
