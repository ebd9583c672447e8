//! The vertex index engine: polygon lists with de-interleaved per-semantic
//! vertex index streams.
//!
//! A polygon list declares its input streams at contiguous offsets, a
//! `vcount` table of per-polygon vertex counts, and one flattened `p`
//! buffer holding `stream_count` interleaved indices per vertex: stream
//! `j`'s index for vertex `i` stands at position `i * stream_count + j`.

use vstd::prelude::*;

use crate::asset::Asset;
use crate::error::Error;
use crate::error::NumericKind;
use crate::registry::Registry;
use crate::registry::lemma_assoc_some_exists;
use crate::source::Source;
use crate::source::cell_tok;
use crate::source::lemma_row_bound;
use crate::source::read_sources;
use crate::source::select_sources;
use crate::source::share;
use crate::source::sources_wf;
use crate::text::decimal_string;
use crate::text::spec_decimal;
use crate::text::parse_usize;
use crate::text::spec_parse_usize;
use crate::text::spec_tokens;
use crate::text::split_tokens;
use crate::text::str_eq;
use crate::text::views_of;
use crate::xml::Element;
use crate::xml::child_text;
use crate::xml::count_named;
use crate::xml::spec_attr;

use std::sync::Arc;

verus! {

/// One polygon: where its vertices start in the flattened index streams,
/// and how many it has.
#[derive(Clone, Copy, PartialEq, Eq, Structural, Debug)]
pub struct Polygon {
    pub first_vertex_index: usize,
    pub vertices_count: usize,
}

/// One de-interleaved index stream: for each flattened vertex, an index
/// into the records of one source.
pub struct VertexIndices {
    pub source: Arc<Source>,
    pub indices: Vec<usize>,
}

/// The `i`-th index of the stream registered at position `j`.
pub open spec fn vi_cell(entries: Seq<(String, Arc<VertexIndices>)>, j: int, i: int) -> usize {
    (*entries[j].1).indices@[i]
}

/// One polygon list of a geometry, for one material.
pub struct Mesh {
    pub id: usize,
    pub name: String,
    pub material: Option<String>,
    pub short_vertex_format: String,
    pub vertex_format: String,
    pub sources: Vec<(String, Arc<Source>)>,
    pub polygons: Vec<Polygon>,
    pub vertex_indices: Registry<Arc<VertexIndices>>,
}

// ---------------------------------------------------------------------------
// Count tables (the `vcount` blocks).
// ---------------------------------------------------------------------------

/// The value of the `i`-th count token.
pub open spec fn vc_at(toks: Seq<Seq<char>>, i: int) -> usize {
    spec_parse_usize(toks[i])->0
}

/// The sum of the first `k` count tokens.
pub open spec fn spec_vc_prefix_sum(toks: Seq<Seq<char>>, k: int) -> int
    decreases k,
{
    if k <= 0 {
        0
    } else {
        spec_vc_prefix_sum(toks, k - 1) + vc_at(toks, k - 1)
    }
}

/// Whether the first `count` tokens all parse as unsigned integers.
pub open spec fn spec_counts_parse(toks: Seq<Seq<char>>, count: int) -> bool {
    toks.len() >= count && forall|i: int|
        0 <= i < count ==> spec_parse_usize(#[trigger] toks[i]) is Some
}

/// Everything reading a count table checks: enough tokens, every one an
/// unsigned integer, and a total that fits.
pub open spec fn spec_count_table_ok(toks: Seq<Seq<char>>, count: int) -> bool {
    spec_counts_parse(toks, count) && spec_vc_prefix_sum(toks, count) <= usize::MAX
}

/// A prefix sum stands between zero and the full sum.
pub(crate) proof fn lemma_vc_sum_in_range(toks: Seq<Seq<char>>, k: int, count: int)
    requires
        0 <= k <= count,
    ensures
        0 <= spec_vc_prefix_sum(toks, k) <= spec_vc_prefix_sum(toks, count),
{
    lemma_vc_sum_monotone(toks, 0, k);
    lemma_vc_sum_monotone(toks, k, count);
}

proof fn lemma_vc_sum_monotone(toks: Seq<Seq<char>>, j: int, k: int)
    requires
        0 <= j <= k,
    ensures
        spec_vc_prefix_sum(toks, j) <= spec_vc_prefix_sum(toks, k),
    decreases k - j,
{
    if j < k {
        lemma_vc_sum_monotone(toks, j, k - 1);
    }
}

/// Reads `count` per-element sizes from `text` and folds them into a table
/// of (start offset, size) pairs plus the total flattened length.
pub(crate) fn read_count_table(text: &String, count: usize, context: &'static str) -> (r: Result<
    (Vec<(usize, usize)>, usize),
    Error,
>)
    ensures
        ({
            let toks = spec_tokens(text@);
            match r {
                Ok(t) => spec_count_table_ok(toks, count as int) && t.0@.len() == count && t.1
                    == spec_vc_prefix_sum(toks, count as int) && forall|i: int|
                    0 <= i < count ==> #[trigger] t.0@[i] == (
                    spec_vc_prefix_sum(toks, i) as usize,
                    vc_at(toks, i),
                ),
                Err(e) => !spec_count_table_ok(toks, count as int) && (match e {
                    Error::UnexpectedEndOfData { context: got } => got@ == context@ && toks.len()
                        < count,
                    Error::NumericParse { kind, field, token } => kind == NumericKind::Unsigned
                        && field@ == "array element"@ && spec_parse_usize(token@) is None,
                    Error::CardinalityMismatch { .. } => spec_vc_prefix_sum(toks, count as int)
                        > usize::MAX,
                    _ => false,
                }),
            }
        }),
{
    let ghost toks = spec_tokens(text@);
    let mut iter = crate::array::ArrayIter::new(text, count, context);
    let mut table: Vec<(usize, usize)> = Vec::new();
    let mut total: usize = 0;
    let mut i: usize = 0;
    while i < count
        invariant
            i <= count,
            iter.wf(),
            iter.pos == i,
            iter.name@ == context@,
            toks == spec_tokens(text@),
            views_of(iter.tokens@) == toks,
            table@.len() == i,
            total == spec_vc_prefix_sum(toks, i as int),
            forall|k: int| 0 <= k < i ==> spec_parse_usize(#[trigger] toks[k]) is Some,
            forall|k: int|
                0 <= k < i ==> #[trigger] table@[k] == (
                    spec_vc_prefix_sum(toks, k) as usize,
                    vc_at(toks, k),
                ),
        decreases count - i,
    {
        let ghost pre = iter;
        let size = match iter.read_usize() {
            Ok(v) => v,
            Err(e) => {
                proof {
                    if (i as int) < pre.tokens@.len() {
                        assert(views_of(pre.tokens@)[i as int] == pre.tokens@[i as int]@);
                    }
                    assert(!spec_counts_parse(toks, count as int));
                }
                return Err(e);
            },
        };
        proof {
            assert(views_of(pre.tokens@)[i as int] == pre.tokens@[i as int]@);
        }
        table.push((total, size));
        total = match total.checked_add(size) {
            Some(t) => t,
            None => {
                proof {
                    lemma_vc_sum_monotone(toks, i + 1, count as int);
                }
                return Err(
                    Error::CardinalityMismatch {
                        description: ("the total flattened length does not fit").to_owned(),
                        expected: 0,
                        found: count,
                    },
                );
            },
        };
        i = i + 1;
    }
    Ok((table, total))
}

// ---------------------------------------------------------------------------
// Interleaved index streams (the `p` / `v` blocks).
// ---------------------------------------------------------------------------

/// The `i`-th value of stream `j` in a list of streams.
pub open spec fn stream_cell(streams: Seq<Vec<usize>>, j: int, i: int) -> usize {
    streams[j]@[i]
}

/// The index stream `j` reads for flattened vertex `i`.
pub open spec fn idx_val(toks: Seq<Seq<char>>, ns: int, j: int, i: int) -> usize {
    spec_parse_usize(cell_tok(toks, ns, j, i, 0))->0
}

/// Everything reading the flattened buffer checks: `total * ns` fits and
/// is covered by the tokens, and every one parses as an unsigned integer.
pub open spec fn spec_streams_ok(toks: Seq<Seq<char>>, total: int, ns: int) -> bool {
    &&& total * ns <= usize::MAX
    &&& toks.len() >= total * ns
    &&& forall|i: int, j: int|
        0 <= i < total && 0 <= j < ns ==> spec_parse_usize(
            #[trigger] cell_tok(toks, ns, j, i, 0),
        ) is Some
}

/// Reads the flattened index buffer of `text`: `ns` interleaved streams of
/// `total` indices each.
pub(crate) fn read_streams(text: &String, total: usize, ns: usize, context: &'static str) -> (r: Result<
    Vec<Vec<usize>>,
    Error,
>)
    requires
        ns >= 1,
    ensures
        ({
            let toks = spec_tokens(text@);
            match r {
                Ok(streams) => spec_streams_ok(toks, total as int, ns as int) && streams@.len()
                    == ns && (forall|j: int|
                    0 <= j < ns ==> (#[trigger] streams@[j])@.len() == total) && (forall|
                    j: int,
                    i: int,
                |
                    0 <= j < ns && 0 <= i < total ==> #[trigger] stream_cell(streams@, j, i)
                        == idx_val(toks, ns as int, j, i)),
                Err(e) => !spec_streams_ok(toks, total as int, ns as int) && (match e {
                    Error::UnexpectedEndOfData { context: got } => got@ == context@ && (total * ns
                        > usize::MAX || toks.len() < total * ns),
                    Error::NumericParse { kind, field, token } => kind == NumericKind::Unsigned
                        && field@ == "array element"@ && spec_parse_usize(token@) is None,
                    _ => false,
                }),
            }
        }),
{
    let ghost toks = spec_tokens(text@);
    let needed = match total.checked_mul(ns) {
        Some(p) => p,
        None => {
            return Err(Error::UnexpectedEndOfData { context: context.to_owned() });
        },
    };
    let tokens = split_tokens(text.as_str());
    proof {
        assert(views_of(tokens@).len() == tokens@.len());
    }
    if tokens.len() < needed {
        return Err(Error::UnexpectedEndOfData { context: context.to_owned() });
    }
    let mut streams: Vec<Vec<usize>> = Vec::new();
    let mut j: usize = 0;
    while j < ns
        invariant
            j <= ns,
            ns >= 1,
            total * ns <= usize::MAX,
            needed == total * ns,
            toks == spec_tokens(text@),
            views_of(tokens@) == toks,
            tokens@.len() >= needed,
            streams@.len() == j,
            forall|jj: int, i: int|
                0 <= jj < j && 0 <= i < total ==> spec_parse_usize(
                    #[trigger] cell_tok(toks, ns as int, jj, i, 0),
                ) is Some,
            forall|jj: int| 0 <= jj < j ==> (#[trigger] streams@[jj])@.len() == total,
            forall|jj: int, i: int|
                0 <= jj < j && 0 <= i < total ==> #[trigger] stream_cell(streams@, jj, i)
                    == idx_val(toks, ns as int, jj, i),
        decreases ns - j,
    {
        let mut v: Vec<usize> = Vec::new();
        let mut i: usize = 0;
        while i < total
            invariant
                i <= total,
                j < ns,
                total * ns <= usize::MAX,
                needed == total * ns,
                toks == spec_tokens(text@),
                views_of(tokens@) == toks,
                tokens@.len() >= needed,
                v@.len() == i,
                forall|ii: int|
                    0 <= ii < i ==> spec_parse_usize(
                        #[trigger] cell_tok(toks, ns as int, j as int, ii, 0),
                    ) is Some,
                forall|ii: int|
                    0 <= ii < i ==> #[trigger] v@[ii] == idx_val(toks, ns as int, j as int, ii),
            decreases total - i,
        {
            proof {
                lemma_row_bound(i as int, total as int, ns as int, j as int, 1);
            }
            let idx = i * ns + j;
            proof {
                assert(cell_tok(toks, ns as int, j as int, i as int, 0) == tokens@[idx as int]@);
            }
            match parse_usize(tokens[idx].as_str()) {
                Some(val) => {
                    v.push(val);
                },
                None => {
                    return Err(
                        Error::NumericParse {
                            kind: NumericKind::Unsigned,
                            field: ("array element").to_owned(),
                            token: tokens[idx].clone(),
                        },
                    );
                },
            }
            i = i + 1;
        }
        let ghost vv = v@;
        let ghost olds = streams@;
        proof {
            assert forall|ii: int| 0 <= ii < total implies #[trigger] vv[ii] == idx_val(
                toks,
                ns as int,
                j as int,
                ii,
            ) by {
                assert(v@[ii] == idx_val(toks, ns as int, j as int, ii));
            }
        }
        streams.push(v);
        proof {
            assert forall|jj: int, i: int|
                0 <= jj < j + 1 && 0 <= i < total implies #[trigger] stream_cell(streams@, jj, i)
                == idx_val(toks, ns as int, jj, i) by {
                if jj == j {
                    assert(streams@[jj]@ == vv);
                    assert(vv[i] == idx_val(toks, ns as int, jj, i));
                } else {
                    assert(streams@[jj] == olds[jj]);
                    assert(stream_cell(olds, jj, i) == idx_val(toks, ns as int, jj, i));
                }
            }
        }
        j = j + 1;
    }
    Ok(streams)
}

// ---------------------------------------------------------------------------
// The mesh itself.
// ---------------------------------------------------------------------------

/// Everything reading a polygon table checks: a `count` attribute that
/// parses, a `vcount` child with text, and a well-formed count table.
pub open spec fn spec_polygons_ok(polylist: Element) -> bool {
    &&& spec_attr(polylist.attributes@, "count"@) matches Some(c) && spec_parse_usize(c@) matches
        Some(n) && (child_text(polylist, "vcount"@) matches Some(text) && spec_count_table_ok(
        spec_tokens(text@),
        n as int,
    ))
}

/// The count an element declares in its `count` attribute, if it parses.
pub open spec fn spec_declared_count(e: Element) -> Option<usize> {
    match spec_attr(e.attributes@, "count"@) {
        Some(t) => spec_parse_usize(t@),
        None => None,
    }
}

/// Whether no two input streams share a semantic.
pub open spec fn semantics_distinct(sources: Seq<(String, Arc<Source>)>) -> bool {
    forall|j1: int, j2: int|
        0 <= j1 < j2 < sources.len() ==> (#[trigger] sources[j1]).0@ != (
        #[trigger] sources[j2]).0@
}

/// Everything reading a flattened index block checks: a child named
/// `child` with text, streams that parse in full, and pairwise distinct
/// stream semantics.
pub open spec fn spec_index_block_ok(
    element: Element,
    child: Seq<char>,
    total: int,
    sources: Seq<(String, Arc<Source>)>,
) -> bool {
    &&& child_text(element, child) matches Some(text) && spec_streams_ok(
        spec_tokens(text@),
        total,
        sources.len() as int,
    )
    &&& semantics_distinct(sources)
}

/// Whether a polygon table is contiguous: each polygon starts where the
/// one before it ended, the first at zero.
pub open spec fn polygons_contiguous(polys: Seq<Polygon>) -> bool {
    &&& (polys.len() > 0 ==> polys[0].first_vertex_index == 0)
    &&& forall|i: int|
        1 <= i < polys.len() ==> (#[trigger] polys[i]).first_vertex_index == polys[
            i - 1
        ].first_vertex_index + polys[i - 1].vertices_count
}

impl Mesh {
    /// Whether the mesh's tables are consistent: a contiguous polygon
    /// table and an index registry with unique semantics, every stream as
    /// long as the flattened vertex total.
    pub open spec fn wf(&self) -> bool {
        &&& polygons_contiguous(self.polygons@)
        &&& self.vertex_indices.wf()
        &&& sources_wf(self.sources@)
        &&& forall|i: int|
            0 <= i < self.vertex_indices.entries@.len() ==> (*(
            #[trigger] self.vertex_indices.entries@[i]).1).source.wf()
    }

    /// Builds the long and short vertex-format signatures of a polygon
    /// list: each stream's semantic with its source's format, joined by
    /// spaces.
    pub fn generate_vertex_format(polylist: &Element, sources_list: &Vec<(String, Arc<Source>)>) -> (r:
        Result<(String, String), Error>)
        ensures
            r matches Ok(f) && f.0@ == spec_mesh_short_format(sources_list@) && f.1@
                == spec_mesh_format(sources_list@),
    {
        let mut vertex_format = String::new();
        let mut short_vertex_format = String::new();
        let n = sources_list.len();
        let mut j: usize = 0;
        proof {
            assert(sources_list@.take(0int) =~= Seq::<(String, Arc<Source>)>::empty());
        }
        while j < n
            invariant
                n == sources_list@.len(),
                j <= n,
                vertex_format@ == spec_mesh_format(sources_list@.take(j as int)),
                short_vertex_format@ == spec_mesh_short_format(sources_list@.take(j as int)),
            decreases n - j,
        {
            proof {
                assert(sources_list@.take(j + 1).drop_last() =~= sources_list@.take(j as int));
            }
            if j > 0 {
                vertex_format.append(" ");
                short_vertex_format.append(" ");
            }
            vertex_format.append(sources_list[j].0.as_str());
            vertex_format.append(":&(");
            vertex_format.append(sources_list[j].1.vertex_format.as_str());
            vertex_format.append(")");
            short_vertex_format.append("&(");
            short_vertex_format.append(sources_list[j].1.short_vertex_format.as_str());
            short_vertex_format.append(")");
            proof {
                assert(vertex_format@ =~= spec_mesh_format(sources_list@.take(j + 1)));
                assert(short_vertex_format@ =~= spec_mesh_short_format(sources_list@.take(j + 1)));
            }
            j = j + 1;
        }
        proof {
            assert(sources_list@.take(n as int) =~= sources_list@);
        }
        Ok((short_vertex_format, vertex_format))
    }

    /// Reads the polygon table: the declared `count` entries of the
    /// `vcount` block, each polygon starting where the one before ended,
    /// plus the total flattened vertex count.
    #[verifier::spinoff_prover]
    #[verifier::rlimit(100)]
    pub fn read_polygons(polylist: &Element) -> (r: Result<(Vec<Polygon>, usize), Error>)
        ensures
            match r {
                Ok(t) => ({
                    &&& spec_attr(polylist.attributes@, "count"@) matches Some(c)
                        && spec_parse_usize(c@) == Some(t.0@.len() as usize)
                    &&& child_text(*polylist, "vcount"@) matches Some(text)
                        && spec_count_table_ok(spec_tokens(text@), t.0@.len() as int) && t.1
                        == spec_vc_prefix_sum(spec_tokens(text@), t.0@.len() as int) && (forall|
                        i: int,
                    |
                        0 <= i < t.0@.len() ==> (#[trigger] t.0@[i]).first_vertex_index
                            == spec_vc_prefix_sum(spec_tokens(text@), i) && t.0@[i].vertices_count
                            == vc_at(spec_tokens(text@), i))
                    &&& polygons_contiguous(t.0@)
                }),
                Err(e) => !spec_polygons_ok(*polylist) && (match e {
                    Error::MissingAttribute { attribute_name, .. } => attribute_name@ == "count"@,
                    Error::MissingElement { child_name, .. } => child_name@ == "vcount"@,
                    Error::MissingText { .. } => child_text(*polylist, "vcount"@) is None,
                    Error::NumericParse { kind, field, token } => kind == NumericKind::Unsigned
                        && spec_parse_usize(token@) is None && (field@ == "count"@ || field@
                        == "array element"@),
                    Error::UnexpectedEndOfData { .. } => spec_declared_count(*polylist) matches
                        Some(n) && (child_text(*polylist, "vcount"@) matches Some(t)
                        && spec_tokens(t@).len() < n),
                    Error::CardinalityMismatch { .. } => spec_declared_count(*polylist) matches
                        Some(n) && (child_text(*polylist, "vcount"@) matches Some(t)
                        && spec_vc_prefix_sum(spec_tokens(t@), n as int) > usize::MAX),
                    _ => false,
                }),
            },
    {
        let polygons_count = match polylist.parse_attribute_as_usize("count") {
            Ok(v) => v,
            Err(e) => {
                return Err(e);
            },
        };
        let vcount_el = match polylist.get_element("vcount") {
            Ok(c) => c,
            Err(e) => {
                return Err(e);
            },
        };
        let vcount_text = match vcount_el.get_text() {
            Ok(t) => t,
            Err(e) => {
                return Err(e);
            },
        };
        let (table, total) = match read_count_table(vcount_text, polygons_count, "polygons") {
            Ok(t) => t,
            Err(e) => {
                return Err(e);
            },
        };
        let mut polygons: Vec<Polygon> = Vec::new();
        let mut i: usize = 0;
        let ghost toks = spec_tokens(vcount_text@);
        while i < polygons_count
            invariant
                i <= polygons_count,
                table@.len() == polygons_count,
                toks == spec_tokens(vcount_text@),
                forall|k: int|
                    0 <= k < polygons_count ==> #[trigger] table@[k] == (
                        spec_vc_prefix_sum(toks, k) as usize,
                        vc_at(toks, k),
                    ),
                spec_count_table_ok(toks, polygons_count as int),
                polygons@.len() == i,
                forall|k: int|
                    0 <= k < i ==> #[trigger] polygons@[k] == (Polygon {
                        first_vertex_index: table@[k].0,
                        vertices_count: table@[k].1,
                    }),
            decreases polygons_count - i,
        {
            let entry = table[i];
            polygons.push(Polygon { first_vertex_index: entry.0, vertices_count: entry.1 });
            i = i + 1;
        }
        proof {
            assert forall|k: int|
                0 <= k < polygons@.len() implies (#[trigger] polygons@[k]).first_vertex_index
                == spec_vc_prefix_sum(toks, k) && polygons@[k].vertices_count == vc_at(
                toks,
                k,
            ) by {
                lemma_vc_sum_monotone(toks, 0, k);
                lemma_vc_sum_monotone(toks, k, polygons_count as int);
            }
            assert forall|k: int| 1 <= k < polygons@.len() implies (
            #[trigger] polygons@[k]).first_vertex_index == polygons@[k - 1].first_vertex_index
                + polygons@[k - 1].vertices_count by {
                lemma_vc_sum_monotone(toks, 0, k - 1);
                lemma_vc_sum_monotone(toks, k, polygons_count as int);
                assert(polygons@[k].first_vertex_index == spec_vc_prefix_sum(toks, k));
                assert(polygons@[k - 1].first_vertex_index == spec_vc_prefix_sum(toks, k - 1));
                assert(spec_vc_prefix_sum(toks, k) == spec_vc_prefix_sum(toks, k - 1) + vc_at(
                    toks,
                    k - 1,
                ));
            }
        }
        Ok((polygons, total))
    }

    /// Reads the flattened `p` buffer into one index stream per input
    /// source, keyed by semantic.
    pub fn read_vertex_indices(
        polylist: &Element,
        vertex_indices_count: usize,
        sources: &Vec<(String, Arc<Source>)>,
    ) -> (r: Result<Registry<Arc<VertexIndices>>, Error>)
        requires
            sources@.len() >= 1,
        ensures
            match r {
                Ok(reg) => ({
                    &&& child_text(*polylist, "p"@) matches Some(text) && spec_streams_ok(
                        spec_tokens(text@),
                        vertex_indices_count as int,
                        sources@.len() as int,
                    ) && (forall|j: int|
                        0 <= j < sources@.len() ==> (#[trigger] reg.entries@[j]).0
                            == sources@[j].0 && (*reg.entries@[j].1).source == sources@[j].1 && (*(
                        reg.entries@[j]).1).indices@.len() == vertex_indices_count) && (forall|
                        j: int,
                        i: int,
                    |
                        0 <= j < sources@.len() && 0 <= i < vertex_indices_count
                            ==> #[trigger] vi_cell(reg.entries@, j, i) == idx_val(
                            spec_tokens(text@),
                            sources@.len() as int,
                            j,
                            i,
                        ))
                    &&& reg.wf()
                    &&& reg.entries@.len() == sources@.len()
                }),
                Err(e) => !spec_index_block_ok(
                    *polylist,
                    "p"@,
                    vertex_indices_count as int,
                    sources@,
                ) && (match e {
                    Error::MissingElement { child_name, .. } => child_name@ == "p"@,
                    Error::MissingText { .. } => child_text(*polylist, "p"@) is None,
                    Error::UnexpectedEndOfData { .. } => child_text(*polylist, "p"@) matches Some(
                        t,
                    ) && (vertex_indices_count * sources@.len() > usize::MAX || spec_tokens(
                        t@,
                    ).len() < vertex_indices_count * sources@.len()),
                    Error::NumericParse { kind, field, token } => kind == NumericKind::Unsigned
                        && field@ == "array element"@ && spec_parse_usize(token@) is None,
                    Error::DuplicateId { .. } => !semantics_distinct(sources@),
                    _ => false,
                }),
            },
    {
        let text = match polylist.get_element("p") {
            Ok(c) => match c.get_text() {
                Ok(t) => t,
                Err(e) => {
                    return Err(e);
                },
            },
            Err(e) => {
                return Err(e);
            },
        };
        let ns = sources.len();
        let streams = match read_streams(text, vertex_indices_count, ns, "vertex indices") {
            Ok(s) => s,
            Err(e) => {
                return Err(e);
            },
        };
        let mut reg: Registry<Arc<VertexIndices>> = Registry::new();
        let mut j: usize = 0;
        let mut streams = streams;
        let ghost toks = spec_tokens(text@);
        let ghost all_streams = streams@;
        while j < ns
            invariant
                j <= ns,
                ns == sources@.len(),
                streams@ == all_streams.skip(j as int),
                all_streams.len() == ns,
                toks == spec_tokens(text@),
                forall|jj: int| 0 <= jj < ns ==> (#[trigger] all_streams[jj])@.len()
                    == vertex_indices_count,
                forall|jj: int, i: int|
                    0 <= jj < ns && 0 <= i < vertex_indices_count ==> #[trigger] stream_cell(
                        all_streams,
                        jj,
                        i,
                    ) == idx_val(toks, ns as int, jj, i),
                reg.wf(),
                reg.entries@.len() == j,
                forall|jj: int|
                    0 <= jj < j ==> (#[trigger] reg.entries@[jj]).0 == sources@[jj].0 && (*(
                    reg.entries@[jj]).1).source == sources@[jj].1 && (*(
                    reg.entries@[jj]).1).indices@ == all_streams[jj]@,
            decreases ns - j,
        {
            let indices = streams.remove(0);
            proof {
                assert(indices@ == all_streams[j as int]@);
                assert(streams@ =~= all_streams.skip(j + 1));
            }
            let vi = VertexIndices { source: share(&sources[j].1), indices };
            let key = sources[j].0.clone();
            let key_for_err = key.clone();
            match reg.insert(key, Arc::new(vi)) {
                Ok(()) => {},
                Err(()) => {
                    proof {
                        lemma_assoc_some_exists(reg.entries@, sources@[j as int].0@);
                        let jj = choose|jj: int|
                            0 <= jj < reg.entries@.len() && (#[trigger] reg.entries@[jj]).0@
                                == sources@[j as int].0@;
                        assert(sources@[jj].0@ == sources@[j as int].0@);
                    }
                    return Err(
                        Error::DuplicateId {
                            scope: ("vertex index stream").to_owned(),
                            id: key_for_err,
                        },
                    );
                },
            }
            j = j + 1;
        }
        proof {
            assert forall|jj: int, i: int|
                0 <= jj < ns && 0 <= i < vertex_indices_count implies #[trigger] vi_cell(
                reg.entries@,
                jj,
                i,
            ) == idx_val(toks, ns as int, jj, i) by {
                assert((*(reg.entries@[jj]).1).indices@ == all_streams[jj]@);
                assert(stream_cell(all_streams, jj, i) == idx_val(toks, ns as int, jj, i));
            }
        }
        Ok(reg)
    }

    /// Parses every `polylist` child of `mesh` into a `Mesh` and appends
    /// them to `meshes`, numbering them from `*mesh_id`.
    pub fn parse_meshes(
        mesh: &Element,
        geometry_name: &String,
        mesh_index: usize,
        mesh_id: &mut usize,
        meshes: &mut Vec<Arc<Mesh>>,
        asset: &Asset,
    ) -> (r: Result<(), Error>)
        ensures
            match r {
                Ok(()) => ({
                    let added = count_named(mesh.children@, "polylist"@) as int;
                    let base = old(meshes)@.len() as int;
                    &&& final(meshes)@.len() == base + added
                    &&& (forall|k: int| 0 <= k < base ==> final(meshes)@[k] == old(meshes)@[k])
                    &&& (forall|k: int|
                        0 <= k < added ==> (*(#[trigger] final(meshes)@[base + k])).wf() && (*(
                        final(meshes)@[base + k])).name@ == geometry_name@ + "#"@ + spec_decimal(
                            mesh_index as int,
                        ))
                    &&& (*old(mesh_id) + added <= usize::MAX ==> *final(mesh_id) == *old(mesh_id)
                        + added && (forall|k: int|
                        0 <= k < added ==> (*(#[trigger] final(meshes)@[base + k])).id == *old(
                            mesh_id,
                        ) + k))
                }),
                Err(_) => true,
            },
    {
        let all_sources = match read_sources(mesh, asset) {
            Ok(s) => s,
            Err(e) => {
                return Err(e);
            },
        };
        let n = mesh.children.len();
        let ghost base = old(meshes)@.len() as int;
        let mut i: usize = 0;
        proof {
            assert(mesh.children@.take(0int) =~= Seq::<Element>::empty());
        }
        while i < n
            invariant
                n == mesh.children@.len(),
                i <= n,
                all_sources.wf(),
                sources_wf(all_sources.entries@),
                base == old(meshes)@.len(),
                meshes@.len() == base + count_named(mesh.children@.take(i as int), "polylist"@),
                forall|k: int| 0 <= k < base ==> meshes@[k] == old(meshes)@[k],
                forall|k: int|
                    0 <= k < count_named(mesh.children@.take(i as int), "polylist"@) ==> (*(
                    #[trigger] meshes@[base + k])).wf() && (*(meshes@[base + k])).name@
                        == geometry_name@ + "#"@ + spec_decimal(mesh_index as int),
                *old(mesh_id) + count_named(mesh.children@.take(i as int), "polylist"@)
                    <= usize::MAX ==> *mesh_id == *old(mesh_id) + count_named(
                    mesh.children@.take(i as int),
                    "polylist"@,
                ) && (forall|k: int|
                    0 <= k < count_named(mesh.children@.take(i as int), "polylist"@) ==> (*(
                    #[trigger] meshes@[base + k])).id == *old(mesh_id) + k),
            decreases n - i,
        {
            proof {
                assert(mesh.children@.take(i + 1).drop_last() =~= mesh.children@.take(i as int));
            }
            let polylist = &mesh.children[i];
            if str_eq(polylist.name.as_str(), "polylist") {
                let material = match polylist.get_attribute("material") {
                    Ok(m) => Some(m.clone()),
                    Err(_) => None,
                };
                let sources = match select_sources(polylist, &all_sources) {
                    Ok(s) => s,
                    Err(e) => {
                        return Err(e);
                    },
                };
                let (short_vertex_format, vertex_format) = match Self::generate_vertex_format(
                    polylist,
                    &sources,
                ) {
                    Ok(f) => f,
                    Err(e) => {
                        return Err(e);
                    },
                };
                let (polygons, vertex_indices_count) = match Self::read_polygons(polylist) {
                    Ok(t) => t,
                    Err(e) => {
                        return Err(e);
                    },
                };
                if sources.len() == 0 {
                    return Err(
                        Error::StructuralInvariant {
                            description: ("the polygon list declares no input streams").to_owned(),
                        },
                    );
                }
                let vertex_indices = match Self::read_vertex_indices(
                    polylist,
                    vertex_indices_count,
                    &sources,
                ) {
                    Ok(v) => v,
                    Err(e) => {
                        return Err(e);
                    },
                };
                let mut name = geometry_name.clone();
                name.append("#");
                let suffix = decimal_string(mesh_index);
                name.append(suffix.as_str());
                proof {
                    assert(name@ =~= geometry_name@ + "#"@ + spec_decimal(mesh_index as int));
                }
                proof {
                    lemma_selected_sources_wf(polylist.children@, all_sources.entries@, sources@);
                }
                let new_mesh = Mesh {
                    id: *mesh_id,
                    name,
                    material,
                    short_vertex_format,
                    vertex_format,
                    sources,
                    polygons,
                    vertex_indices,
                };
                proof {
                    assert(new_mesh.wf());
                }
                meshes.push(Arc::new(new_mesh));
                if *mesh_id < usize::MAX {
                    *mesh_id = *mesh_id + 1;
                }
                proof {
                    assert(meshes@.len() == base + count_named(
                        mesh.children@.take(i + 1),
                        "polylist"@,
                    ));
                }
            }
            i = i + 1;
        }
        proof {
            assert(mesh.children@.take(n as int) =~= mesh.children@);
        }
        Ok(())
    }
}

/// The long mesh format signature: each stream's semantic and its source's
/// long format, joined by spaces.
pub open spec fn spec_mesh_format(list: Seq<(String, Arc<Source>)>) -> Seq<char>
    decreases list.len(),
{
    if list.len() == 0 {
        Seq::empty()
    } else if list.len() == 1 {
        list.last().0@ + ":&("@ + (*list.last().1).vertex_format@ + ")"@
    } else {
        spec_mesh_format(list.drop_last()) + " "@ + list.last().0@ + ":&("@
            + (*list.last().1).vertex_format@ + ")"@
    }
}

/// The short mesh format signature: each source's short format, joined by
/// spaces.
pub open spec fn spec_mesh_short_format(list: Seq<(String, Arc<Source>)>) -> Seq<char>
    decreases list.len(),
{
    if list.len() == 0 {
        Seq::empty()
    } else if list.len() == 1 {
        "&("@ + (*list.last().1).short_vertex_format@ + ")"@
    } else {
        spec_mesh_short_format(list.drop_last()) + " "@ + "&("@
            + (*list.last().1).short_vertex_format@ + ")"@
    }
}

/// Every stream a successful selection yields points at a well-formed
/// source, provided the registry's sources are well-formed.
pub(crate) proof fn lemma_selected_sources_wf(
    children: Seq<Element>,
    entries: Seq<(String, Arc<Source>)>,
    list: Seq<(String, Arc<Source>)>,
)
    requires
        sources_wf(entries),
        crate::source::spec_select_sources(children, entries) == Some(list),
    ensures
        sources_wf(list),
    decreases children.len(),
{
    if children.len() > 0 {
        let rest = crate::source::spec_select_sources(children.drop_last(), entries);
        let e = children.last();
        if e.name@ != "input"@ {
            lemma_selected_sources_wf(children.drop_last(), entries, list);
        } else {
            let acc = rest->0;
            lemma_selected_sources_wf(children.drop_last(), entries, acc);
            let src_ref = crate::xml::spec_attr(e.attributes@, "source"@)->0;
            lemma_assoc_some_exists(entries, crate::text::spec_strip_hashes(src_ref@));
            assert(forall|i: int| 0 <= i < acc.len() ==> list[i] == acc[i]);
        }
    }
}

} // verus!
