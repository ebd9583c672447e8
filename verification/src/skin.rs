//! Skins: the binding of one geometry to a bone/weight data set, with a
//! per-vertex table of bone influences and parallel influence index
//! streams read exactly like a mesh's vertex index streams.

use vstd::prelude::*;

use crate::asset::Asset;
use crate::error::Error;
use crate::error::NumericKind;
use crate::location::Matrix;
use crate::location::spec_sixteen_ok;
use crate::location::spec_sixteenth;
use crate::mesh::read_count_table;
use crate::mesh::read_streams;
use crate::mesh::spec_count_table_ok;
use crate::mesh::spec_polygons_ok;
use crate::mesh::spec_declared_count;
use crate::mesh::semantics_distinct;
use crate::xml::unique_child;
use crate::xml::count_named;
use crate::xml::nth_named;
use crate::mesh::spec_index_block_ok;
use crate::mesh::spec_streams_ok;
use crate::mesh::spec_vc_prefix_sum;
use crate::mesh::stream_cell;
use crate::mesh::vc_at;
use crate::mesh::idx_val;
use crate::registry::Registry;
use crate::registry::assoc_get;
use crate::registry::lemma_assoc_some_exists;
use crate::source::Source;
use crate::source::read_sources;
use crate::source::select_sources;
use crate::source::share;
use crate::source::sources_wf;
use crate::source::spec_layer_len;
use crate::source::lemma_select_offsets_contiguous;
use crate::source::lemma_select_semantics;
use crate::text::spec_strip_hashes;
use crate::text::spec_tokens;
use crate::text::strip_hashes;
use crate::xml::Element;
use crate::xml::child_text;
use crate::xml::spec_attr;

use std::sync::Arc;

verus! {

/// One vertex's slice of the influence streams: where its influences start
/// and how many it has.
#[derive(Clone, Copy, PartialEq, Eq, Structural, Debug)]
pub struct BonesPerVertex {
    pub first_bone_index: usize,
    pub bones_count: usize,
}

/// One influence index stream: for each flattened influence, an index into
/// the records of one source.
pub struct BoneIndices {
    pub source: Arc<Source>,
    pub indices: Vec<usize>,
}

/// The `i`-th index of the influence stream registered at position `j`.
pub open spec fn bi_cell(entries: Seq<(String, Arc<BoneIndices>)>, j: int, i: int) -> usize {
    (*entries[j].1).indices@[i]
}

/// One skin: the geometry it deforms, its bind-shape matrix, its input
/// streams, its per-joint sources, its per-vertex influence table, and
/// its influence index streams.
pub struct Skin {
    pub id: String,
    pub geometry_id: String,
    pub bind_shape_matrix: Matrix,
    pub sources: Vec<(String, Arc<Source>)>,
    pub additional_sources: Registry<Arc<Source>>,
    pub bones_per_vertex: Vec<BonesPerVertex>,
    pub bone_indices: Registry<Arc<BoneIndices>>,
}

/// Whether a per-vertex influence table is contiguous: each vertex's
/// influences start where the previous vertex's ended, the first at zero.
pub open spec fn influences_contiguous(table: Seq<BonesPerVertex>) -> bool {
    &&& (table.len() > 0 ==> table[0].first_bone_index == 0)
    &&& forall|i: int|
        1 <= i < table.len() ==> (#[trigger] table[i]).first_bone_index == table[
            i - 1
        ].first_bone_index + table[i - 1].bones_count
}

/// The per-joint sources an element declares: for each `input` child, its
/// semantic and the source its reference resolves to, a duplicate semantic
/// refused.
pub open spec fn spec_additional_sources(
    children: Seq<Element>,
    sources: Seq<(String, Arc<Source>)>,
) -> Option<Seq<(String, Arc<Source>)>>
    decreases children.len(),
{
    if children.len() == 0 {
        Some(Seq::empty())
    } else {
        match spec_additional_sources(children.drop_last(), sources) {
            None => None,
            Some(acc) => {
                let e = children.last();
                if e.name@ != "input"@ {
                    Some(acc)
                } else {
                    match spec_attr(e.attributes@, "semantic"@) {
                        None => None,
                        Some(semantic) => match spec_attr(e.attributes@, "source"@) {
                            None => None,
                            Some(src_ref) => match assoc_get(
                                sources,
                                spec_strip_hashes(src_ref@),
                            ) {
                                None => None,
                                Some(source) => if assoc_get(acc, semantic@) is Some {
                                    None
                                } else {
                                    Some(acc.push((semantic, source)))
                                },
                            },
                        },
                    }
                }
            },
        }
    }
}

pub(crate) proof fn lemma_additional_none_extends(
    children: Seq<Element>,
    sources: Seq<(String, Arc<Source>)>,
    j: int,
)
    requires
        0 <= j <= children.len(),
        spec_additional_sources(children.take(j), sources) is None,
    ensures
        spec_additional_sources(children, sources) is None,
    decreases children.len() - j,
{
    if j < children.len() {
        assert(children.take(j + 1).drop_last() =~= children.take(j));
        lemma_additional_none_extends(children, sources, j + 1);
    } else {
        assert(children.take(j) =~= children);
    }
}

/// Whether the declared bone names and bind matrices agree in count: when
/// the per-joint sources carry both a `JOINT` source with a bone-name
/// layer and an `INV_BIND_MATRIX` source with a transform-matrix layer,
/// those layers are equally long.
pub open spec fn spec_bind_counts_ok(entries: Seq<(String, Arc<Source>)>) -> bool {
    match assoc_get(entries, "JOINT"@) {
        Some(js) => match assoc_get((*js).layers.entries@, "bone_name"@) {
            Some(nl) => match assoc_get(entries, "INV_BIND_MATRIX"@) {
                Some(ms) => match assoc_get((*ms).layers.entries@, "transform_matrix"@) {
                    Some(ml) => spec_layer_len(nl) == spec_layer_len(ml),
                    None => true,
                },
                None => true,
            },
            None => true,
        },
        None => true,
    }
}

impl Skin {
    /// Whether the skin's registries are consistent and every source it
    /// points at is well-formed.
    pub open spec fn wf(&self) -> bool {
        &&& sources_wf(self.sources@)
        &&& self.additional_sources.wf()
        &&& sources_wf(self.additional_sources.entries@)
        &&& self.bone_indices.wf()
        &&& forall|i: int|
            0 <= i < self.bone_indices.entries@.len() ==> (*(
            #[trigger] self.bone_indices.entries@[i]).1).source.wf()
    }

    /// Parses one `skin` block under the controller ID `id`: the geometry
    /// reference, the bind-shape matrix, the vertex-weight input streams at
    /// contiguous offsets, the per-joint sources, the per-vertex influence
    /// table, and the influence index streams; the declared bone names and
    /// bind matrices, when both are present, must agree in count, and a
    /// skin whose vertices declare no influence at all is refused.
    pub fn parse(skin_element: &Element, id: String, asset: &Asset) -> (r: Result<Skin, Error>)
        ensures
            match r {
                Ok(skin) => ({
                    &&& skin.id == id
                    &&& spec_attr(skin_element.attributes@, "source"@) matches Some(g)
                        && skin.geometry_id@ == spec_strip_hashes(g@)
                    &&& child_text(*skin_element, "bind_shape_matrix"@) matches Some(mt)
                        && spec_sixteen_ok(mt@) && (forall|k: int|
                        0 <= k < 16 ==> skin.bind_shape_matrix.mat@[k] == spec_sixteenth(mt@, k))
                    &&& unique_child(*skin_element, "vertex_weights"@) matches Some(vw) && ({
                        &&& spec_declared_count(vw) matches Some(n) && skin.bones_per_vertex@.len()
                            == n && (child_text(vw, "vcount"@) matches Some(t) && ({
                            &&& forall|i: int|
                                0 <= i < n ==> (
                                #[trigger] skin.bones_per_vertex@[i]).first_bone_index
                                    == spec_vc_prefix_sum(spec_tokens(t@), i)
                                    && skin.bones_per_vertex@[i].bones_count == vc_at(
                                    spec_tokens(t@),
                                    i,
                                )
                            &&& spec_vc_prefix_sum(spec_tokens(t@), n as int) > 0
                            &&& forall|j: int|
                                0 <= j < skin.bone_indices.entries@.len() ==> (*(
                                #[trigger] skin.bone_indices.entries@[j]).1).indices@.len()
                                    == spec_vc_prefix_sum(spec_tokens(t@), n as int)
                        }))
                        &&& skin.sources@.len() == count_named(vw.children@, "input"@)
                        &&& forall|k: int|
                            0 <= k < skin.sources@.len() ==> spec_attr(
                                nth_named(vw.children@, "input"@, k).attributes@,
                                "semantic"@,
                            ) == Some((#[trigger] skin.sources@[k]).0)
                        &&& forall|k: int|
                            0 <= k < vw.children@.len() && (#[trigger] vw.children@[k]).name@
                                == "input"@ ==> (spec_attr(
                                vw.children@[k].attributes@,
                                "offset"@,
                            ) matches Some(off) && crate::text::spec_parse_usize(off@) == Some(
                                count_named(vw.children@.take(k), "input"@) as usize,
                            ))
                    })
                    &&& skin.bone_indices.entries@.len() == skin.sources@.len()
                    &&& forall|j: int|
                        0 <= j < skin.bone_indices.entries@.len() ==> (
                        #[trigger] skin.bone_indices.entries@[j]).0 == skin.sources@[j].0 && (*(
                        skin.bone_indices.entries@[j]).1).source == skin.sources@[j].1
                    &&& spec_bind_counts_ok(skin.additional_sources.entries@)
                    &&& influences_contiguous(skin.bones_per_vertex@)
                    &&& skin.wf()
                }),
                Err(_) => true,
            },
    {
        let geometry_ref = match skin_element.get_attribute("source") {
            Ok(v) => v,
            Err(e) => {
                return Err(e);
            },
        };
        let geometry_id = strip_hashes(geometry_ref.as_str());
        let matrix_text = match skin_element.get_element("bind_shape_matrix") {
            Ok(c) => match c.get_text() {
                Ok(t) => t,
                Err(e) => {
                    return Err(e);
                },
            },
            Err(e) => {
                return Err(e);
            },
        };
        let bind_shape_matrix = match Matrix::parse(matrix_text) {
            Ok(m) => m,
            Err(e) => {
                return Err(e);
            },
        };
        let all_sources = match read_sources(skin_element, asset) {
            Ok(s) => s,
            Err(e) => {
                return Err(e);
            },
        };
        let vertex_weights = match skin_element.get_element("vertex_weights") {
            Ok(c) => c,
            Err(e) => {
                return Err(e);
            },
        };
        let joints = match skin_element.get_element("joints") {
            Ok(c) => c,
            Err(e) => {
                return Err(e);
            },
        };
        let sources = match select_sources(vertex_weights, &all_sources) {
            Ok(s) => s,
            Err(e) => {
                return Err(e);
            },
        };
        let additional_sources = match Self::select_additional_sources(joints, &all_sources) {
            Ok(s) => s,
            Err(e) => {
                return Err(e);
            },
        };
        match Self::check_bind_counts(&additional_sources) {
            Ok(()) => {},
            Err(e) => {
                return Err(e);
            },
        }
        let (bones_per_vertex, bones_indices_count) = match Self::read_bones_count_per_vertex(
            vertex_weights,
        ) {
            Ok(t) => t,
            Err(e) => {
                return Err(e);
            },
        };
        if bones_indices_count == 0 {
            return Err(
                Error::StructuralInvariant {
                    description: ("the skin declares no bone influence at all").to_owned(),
                },
            );
        }
        if sources.len() == 0 {
            return Err(
                Error::StructuralInvariant {
                    description: ("the vertex weights declare no input streams").to_owned(),
                },
            );
        }
        let bone_indices = match Self::read_bone_indices(
            vertex_weights,
            bones_indices_count,
            &sources,
        ) {
            Ok(b) => b,
            Err(e) => {
                return Err(e);
            },
        };
        proof {
            crate::mesh::lemma_selected_sources_wf(
                vertex_weights.children@,
                all_sources.entries@,
                sources@,
            );
            assert(spec_declared_count(*vertex_weights) == Some(
                bones_per_vertex@.len() as usize,
            ));
            lemma_select_offsets_contiguous(
                vertex_weights.children@,
                all_sources.entries@,
                sources@,
            );
            lemma_select_semantics(vertex_weights.children@, all_sources.entries@, sources@);
        }
        Ok(
            Skin {
                id,
                geometry_id,
                bind_shape_matrix,
                sources,
                additional_sources,
                bones_per_vertex,
                bone_indices,
            },
        )
    }

    /// Refuses a skin whose declared bone names and bind matrices disagree
    /// in count: when the per-joint sources carry both a `JOINT` source
    /// with a bone-name layer and an `INV_BIND_MATRIX` source with a
    /// transform-matrix layer, those layers must be equally long.
    fn check_bind_counts(additional_sources: &Registry<Arc<Source>>) -> (r: Result<(), Error>)
        ensures
            match r {
                Ok(()) => spec_bind_counts_ok(additional_sources.entries@),
                Err(e) => !spec_bind_counts_ok(additional_sources.entries@) && e matches
                    Error::StructuralInvariant { .. },
            },
    {
        let names = match additional_sources.get("JOINT") {
            Some(s) => match s.layers.get("bone_name") {
                Some(layer) => Some(layer.get_length()),
                None => None,
            },
            None => None,
        };
        let matrices = match additional_sources.get("INV_BIND_MATRIX") {
            Some(s) => match s.layers.get("transform_matrix") {
                Some(layer) => Some(layer.get_length()),
                None => None,
            },
            None => None,
        };
        match (names, matrices) {
            (Some(n), Some(m)) => {
                if n != m {
                    Err(
                        Error::StructuralInvariant {
                            description: (
                            "the bone name and bind matrix counts disagree").to_owned(),
                        },
                    )
                } else {
                    Ok(())
                }
            },
            _ => Ok(()),
        }
    }

    /// Selects the per-joint sources of `element` against `sources`, keyed
    /// by semantic: it succeeds exactly when every input resolves and no
    /// semantic repeats, and then returns exactly those entries.
    fn select_additional_sources(element: &Element, sources: &Registry<Arc<Source>>) -> (r: Result<
        Registry<Arc<Source>>,
        Error,
    >)
        ensures
            match r {
                Ok(reg) => spec_additional_sources(element.children@, sources.entries@) == Some(
                    reg.entries@,
                ) && reg.wf() && (sources_wf(sources.entries@) ==> sources_wf(reg.entries@)),
                Err(_) => spec_additional_sources(element.children@, sources.entries@) is None,
            },
    {
        let mut selected: Registry<Arc<Source>> = Registry::new();
        let n = element.children.len();
        let mut i: usize = 0;
        proof {
            assert(element.children@.take(0int) =~= Seq::<Element>::empty());
        }
        while i < n
            invariant
                n == element.children@.len(),
                i <= n,
                selected.wf(),
                spec_additional_sources(element.children@.take(i as int), sources.entries@)
                    == Some(selected.entries@),
                sources_wf(sources.entries@) ==> sources_wf(selected.entries@),
            decreases n - i,
        {
            proof {
                assert(element.children@.take(i + 1).drop_last() =~= element.children@.take(
                    i as int,
                ));
            }
            let child = &element.children[i];
            if crate::text::str_eq(child.name.as_str(), "input") {
                let semantic = match child.get_attribute("semantic") {
                    Ok(v) => v.clone(),
                    Err(e) => {
                        proof {
                            lemma_additional_none_extends(
                                element.children@,
                                sources.entries@,
                                i + 1,
                            );
                        }
                        return Err(e);
                    },
                };
                let source_ref = match child.get_attribute("source") {
                    Ok(v) => v,
                    Err(e) => {
                        proof {
                            lemma_additional_none_extends(
                                element.children@,
                                sources.entries@,
                                i + 1,
                            );
                        }
                        return Err(e);
                    },
                };
                let source_id = strip_hashes(source_ref.as_str());
                let source = match sources.get(source_id.as_str()) {
                    Some(s) => share(s),
                    None => {
                        proof {
                            lemma_additional_none_extends(
                                element.children@,
                                sources.entries@,
                                i + 1,
                            );
                        }
                        return Err(
                            Error::UnresolvedReference {
                                scope: ("source").to_owned(),
                                id: source_id,
                            },
                        );
                    },
                };
                proof {
                    if sources_wf(sources.entries@) {
                        lemma_assoc_some_exists(sources.entries@, source_id@);
                    }
                }
                let semantic_for_err = semantic.clone();
                match selected.insert(semantic, source) {
                    Ok(()) => {},
                    Err(()) => {
                        proof {
                            lemma_additional_none_extends(
                                element.children@,
                                sources.entries@,
                                i + 1,
                            );
                        }
                        return Err(
                            Error::DuplicateId {
                                scope: ("per-joint source").to_owned(),
                                id: semantic_for_err,
                            },
                        );
                    },
                }
            }
            i = i + 1;
        }
        proof {
            assert(element.children@.take(n as int) =~= element.children@);
        }
        Ok(selected)
    }

    /// Reads the per-vertex influence count table: the declared `count`
    /// entries of the `vcount` block, each vertex's influences starting
    /// where the previous vertex's ended, plus the total influence count.
    fn read_bones_count_per_vertex(vertex_weights: &Element) -> (r: Result<
        (Vec<BonesPerVertex>, usize),
        Error,
    >)
        ensures
            match r {
                Ok(t) => ({
                    &&& t.0@.len() <= usize::MAX
                    &&& spec_attr(vertex_weights.attributes@, "count"@) matches Some(c)
                        && crate::text::spec_parse_usize(c@) == Some(t.0@.len() as usize)
                    &&& child_text(*vertex_weights, "vcount"@) matches Some(text)
                        && spec_count_table_ok(spec_tokens(text@), t.0@.len() as int) && t.1
                        == spec_vc_prefix_sum(spec_tokens(text@), t.0@.len() as int) && (forall|
                        i: int,
                    |
                        0 <= i < t.0@.len() ==> (#[trigger] t.0@[i]).first_bone_index
                            == spec_vc_prefix_sum(spec_tokens(text@), i) && t.0@[i].bones_count
                            == vc_at(spec_tokens(text@), i))
                    &&& influences_contiguous(t.0@)
                }),
                Err(e) => !spec_polygons_ok(*vertex_weights) && (match e {
                    Error::MissingAttribute { attribute_name, .. } => attribute_name@ == "count"@,
                    Error::MissingElement { child_name, .. } => child_name@ == "vcount"@,
                    Error::MissingText { .. } => child_text(*vertex_weights, "vcount"@) is None,
                    Error::NumericParse { kind, field, token } => kind == NumericKind::Unsigned
                        && crate::text::spec_parse_usize(token@) is None && (field@ == "count"@
                        || field@ == "array element"@),
                    Error::UnexpectedEndOfData { .. } => spec_declared_count(
                        *vertex_weights,
                    ) matches Some(n) && (child_text(*vertex_weights, "vcount"@) matches Some(t)
                        && spec_tokens(t@).len() < n),
                    Error::CardinalityMismatch { .. } => spec_declared_count(
                        *vertex_weights,
                    ) matches Some(n) && (child_text(*vertex_weights, "vcount"@) matches Some(t)
                        && spec_vc_prefix_sum(spec_tokens(t@), n as int) > usize::MAX),
                    _ => false,
                }),
            },
    {
        let vertices_count = match vertex_weights.parse_attribute_as_usize("count") {
            Ok(v) => v,
            Err(e) => {
                return Err(e);
            },
        };
        let vcount_el = match vertex_weights.get_element("vcount") {
            Ok(c) => c,
            Err(e) => {
                return Err(e);
            },
        };
        let vcount_text = match vcount_el.get_text() {
            Ok(t) => t,
            Err(e) => {
                return Err(e);
            },
        };
        let (table, total) = match read_count_table(vcount_text, vertices_count, "influences") {
            Ok(t) => t,
            Err(e) => {
                return Err(e);
            },
        };
        let ghost toks = spec_tokens(vcount_text@);
        let mut vertices: Vec<BonesPerVertex> = Vec::new();
        let mut i: usize = 0;
        while i < vertices_count
            invariant
                i <= vertices_count,
                table@.len() == vertices_count,
                toks == spec_tokens(vcount_text@),
                forall|k: int|
                    0 <= k < vertices_count ==> #[trigger] table@[k] == (
                        spec_vc_prefix_sum(toks, k) as usize,
                        vc_at(toks, k),
                    ),
                spec_count_table_ok(toks, vertices_count as int),
                vertices@.len() == i,
                forall|k: int|
                    0 <= k < i ==> #[trigger] vertices@[k] == (BonesPerVertex {
                        first_bone_index: table@[k].0,
                        bones_count: table@[k].1,
                    }),
            decreases vertices_count - i,
        {
            let entry = table[i];
            vertices.push(BonesPerVertex { first_bone_index: entry.0, bones_count: entry.1 });
            i = i + 1;
        }
        proof {
            assert forall|k: int|
                0 <= k < vertices@.len() implies (#[trigger] vertices@[k]).first_bone_index
                == spec_vc_prefix_sum(toks, k) && vertices@[k].bones_count == vc_at(toks, k) by {
                crate::mesh::lemma_vc_sum_in_range(toks, k, vertices_count as int);
            }
            assert forall|k: int| 1 <= k < vertices@.len() implies (
            #[trigger] vertices@[k]).first_bone_index == vertices@[k - 1].first_bone_index
                + vertices@[k - 1].bones_count by {
                assert(spec_vc_prefix_sum(toks, k) == spec_vc_prefix_sum(toks, k - 1) + vc_at(
                    toks,
                    k - 1,
                ));
            }
        }
        Ok((vertices, total))
    }

    /// Reads the flattened `v` buffer into one influence index stream per
    /// input source, keyed by semantic.
    fn read_bone_indices(
        vertex_weights: &Element,
        bones_indices_count: usize,
        sources: &Vec<(String, Arc<Source>)>,
    ) -> (r: Result<Registry<Arc<BoneIndices>>, Error>)
        requires
            sources@.len() >= 1,
        ensures
            match r {
                Ok(reg) => ({
                    &&& child_text(*vertex_weights, "v"@) matches Some(text) && spec_streams_ok(
                        spec_tokens(text@),
                        bones_indices_count as int,
                        sources@.len() as int,
                    ) && (forall|j: int|
                        0 <= j < sources@.len() ==> (#[trigger] reg.entries@[j]).0
                            == sources@[j].0 && (*reg.entries@[j].1).source == sources@[j].1 && (*(
                        reg.entries@[j]).1).indices@.len() == bones_indices_count) && (forall|
                        j: int,
                        i: int,
                    |
                        0 <= j < sources@.len() && 0 <= i < bones_indices_count
                            ==> #[trigger] bi_cell(reg.entries@, j, i) == idx_val(
                            spec_tokens(text@),
                            sources@.len() as int,
                            j,
                            i,
                        ))
                    &&& reg.wf()
                    &&& reg.entries@.len() == sources@.len()
                }),
                Err(e) => !spec_index_block_ok(
                    *vertex_weights,
                    "v"@,
                    bones_indices_count as int,
                    sources@,
                ) && (match e {
                    Error::MissingElement { child_name, .. } => child_name@ == "v"@,
                    Error::MissingText { .. } => child_text(*vertex_weights, "v"@) is None,
                    Error::UnexpectedEndOfData { .. } => child_text(
                        *vertex_weights,
                        "v"@,
                    ) matches Some(t) && (bones_indices_count * sources@.len() > usize::MAX
                        || spec_tokens(t@).len() < bones_indices_count * sources@.len()),
                    Error::NumericParse { kind, field, token } => kind == NumericKind::Unsigned
                        && field@ == "array element"@ && crate::text::spec_parse_usize(
                        token@,
                    ) is None,
                    Error::DuplicateId { .. } => !semantics_distinct(sources@),
                    _ => false,
                }),
            },
    {
        let text = match vertex_weights.get_element("v") {
            Ok(c) => match c.get_text() {
                Ok(t) => t,
                Err(e) => {
                    return Err(e);
                },
            },
            Err(e) => {
                return Err(e);
            },
        };
        let ns = sources.len();
        let streams = match read_streams(text, bones_indices_count, ns, "bone indices") {
            Ok(s) => s,
            Err(e) => {
                return Err(e);
            },
        };
        let mut reg: Registry<Arc<BoneIndices>> = Registry::new();
        let mut j: usize = 0;
        let mut streams = streams;
        let ghost toks = spec_tokens(text@);
        let ghost all_streams = streams@;
        while j < ns
            invariant
                j <= ns,
                ns == sources@.len(),
                streams@ == all_streams.skip(j as int),
                all_streams.len() == ns,
                toks == spec_tokens(text@),
                forall|jj: int| 0 <= jj < ns ==> (#[trigger] all_streams[jj])@.len()
                    == bones_indices_count,
                forall|jj: int, i: int|
                    0 <= jj < ns && 0 <= i < bones_indices_count ==> #[trigger] stream_cell(
                        all_streams,
                        jj,
                        i,
                    ) == idx_val(toks, ns as int, jj, i),
                reg.wf(),
                reg.entries@.len() == j,
                forall|jj: int|
                    0 <= jj < j ==> (#[trigger] reg.entries@[jj]).0 == sources@[jj].0 && (*(
                    reg.entries@[jj]).1).source == sources@[jj].1 && (*(
                    reg.entries@[jj]).1).indices@ == all_streams[jj]@,
            decreases ns - j,
        {
            let indices = streams.remove(0);
            proof {
                assert(indices@ == all_streams[j as int]@);
                assert(streams@ =~= all_streams.skip(j + 1));
            }
            let bi = BoneIndices { source: share(&sources[j].1), indices };
            let key = sources[j].0.clone();
            let key_for_err = key.clone();
            match reg.insert(key, Arc::new(bi)) {
                Ok(()) => {},
                Err(()) => {
                    proof {
                        lemma_assoc_some_exists(reg.entries@, sources@[j as int].0@);
                        let jj = choose|jj: int|
                            0 <= jj < reg.entries@.len() && (#[trigger] reg.entries@[jj]).0@
                                == sources@[j as int].0@;
                        assert(sources@[jj].0@ == sources@[j as int].0@);
                    }
                    return Err(
                        Error::DuplicateId {
                            scope: ("bone index stream").to_owned(),
                            id: key_for_err,
                        },
                    );
                },
            }
            j = j + 1;
        }
        proof {
            assert forall|jj: int, i: int|
                0 <= jj < ns && 0 <= i < bones_indices_count implies #[trigger] bi_cell(
                reg.entries@,
                jj,
                i,
            ) == idx_val(toks, ns as int, jj, i) by {
                assert((*(reg.entries@[jj]).1).indices@ == all_streams[jj]@);
                assert(stream_cell(all_streams, jj, i) == idx_val(toks, ns as int, jj, i));
            }
        }
        Ok(reg)
    }
}

} // verus!
