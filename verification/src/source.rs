//! The attribute registry: one `source` data block parsed into named,
//! typed, parallel layers.
//!
//! A source declares an accessor (a count, a stride and a parameter list)
//! over one raw `*_array` data block.  Parsing de-interleaves the block:
//! layer `j` holds, for each record `i`, the value of the tokens at
//! position `i * stride + offset(j)`.  Layer keys are the parameter names
//! re-mapped to the asset's standard axes; under the Blender heuristic
//! every numeric layer standing for the X axis has its sign inverted.

use vstd::prelude::*;

use crate::asset::Asset;
use crate::asset::Axis;
use crate::asset::Editor;
use crate::error::Error;
use crate::error::NumericKind;
use crate::float::F32_SIGN_MASK;
use crate::float::FloatBits;
use crate::float::f32_of_text;
use crate::float::parse_f32;
use crate::location::Matrix;
use crate::registry::Registry;
use crate::registry::assoc_get;
use crate::registry::lemma_assoc_in_range;
use crate::registry::lemma_assoc_some_exists;
use crate::text::ends_with;
use crate::text::parse_i32;
use crate::text::spec_ends_with;
use crate::text::spec_parse_i32;
use crate::text::spec_parse_usize;
use crate::text::spec_tokens;
use crate::text::split_tokens;
use crate::text::str_eq;
use crate::text::views_of;
use crate::xml::Element;
use crate::xml::count_named;
use crate::xml::lemma_count_monotone_pub;
use crate::xml::lemma_named_skip;
use crate::xml::lemma_nth_named_extends;
use crate::xml::nth_named;
use crate::xml::spec_attr;
use crate::xml::unique_child;

use std::sync::Arc;

verus! {

// ---------------------------------------------------------------------------
// Layer keys and data types.
// ---------------------------------------------------------------------------

/// The semantic tag of one data layer, re-mapped or not.
#[derive(Debug)]
pub enum LayerType {
    X,
    Y,
    Z,
    U,
    V,
    R,
    G,
    B,
    BoneName,
    TransformMatrix,
    Weight,
    Other(String),
}

/// The key string a layer tag is registered under.
pub open spec fn spec_layer_tag(lt: LayerType) -> Seq<char> {
    match lt {
        LayerType::X => "X"@,
        LayerType::Y => "Y"@,
        LayerType::Z => "Z"@,
        LayerType::U => "U"@,
        LayerType::V => "V"@,
        LayerType::R => "R"@,
        LayerType::G => "G"@,
        LayerType::B => "B"@,
        LayerType::BoneName => "bone_name"@,
        LayerType::TransformMatrix => "transform_matrix"@,
        LayerType::Weight => "weight"@,
        LayerType::Other(s) => s@,
    }
}

impl Clone for LayerType {
    /// An identical tag.
    fn clone(&self) -> (r: LayerType)
        ensures
            r == *self,
    {
        match self {
            LayerType::X => LayerType::X,
            LayerType::Y => LayerType::Y,
            LayerType::Z => LayerType::Z,
            LayerType::U => LayerType::U,
            LayerType::V => LayerType::V,
            LayerType::R => LayerType::R,
            LayerType::G => LayerType::G,
            LayerType::B => LayerType::B,
            LayerType::BoneName => LayerType::BoneName,
            LayerType::TransformMatrix => LayerType::TransformMatrix,
            LayerType::Weight => LayerType::Weight,
            LayerType::Other(s) => LayerType::Other(s.clone()),
        }
    }
}

impl LayerType {
    /// The key string the tag is registered under.
    pub fn print_vertex_format(&self) -> (r: &str)
        ensures
            r@ == spec_layer_tag(*self),
    {
        match self {
            LayerType::X => "X",
            LayerType::Y => "Y",
            LayerType::Z => "Z",
            LayerType::U => "U",
            LayerType::V => "V",
            LayerType::R => "R",
            LayerType::G => "G",
            LayerType::B => "B",
            LayerType::BoneName => "bone_name",
            LayerType::TransformMatrix => "transform_matrix",
            LayerType::Weight => "weight",
            LayerType::Other(s) => s.as_str(),
        }
    }
}

/// The element type of one layer.
#[derive(Clone, Copy, PartialEq, Eq, Structural, Debug)]
pub enum DataType {
    F32,
    I32,
    Name,
    Matrix4,
}

/// How many slots of a record one parameter of this type occupies.
pub open spec fn spec_size(dt: DataType) -> nat {
    match dt {
        DataType::Matrix4 => 16,
        _ => 1,
    }
}

/// The name of a data type in a vertex-format signature.
pub open spec fn spec_data_tag(dt: DataType) -> Seq<char> {
    match dt {
        DataType::F32 => "f32"@,
        DataType::I32 => "i32"@,
        DataType::Name => "name"@,
        DataType::Matrix4 => "matrix4"@,
    }
}

impl DataType {
    /// The data type's name in a vertex-format signature.
    pub fn print_data_type(&self) -> (r: &'static str)
        ensures
            r@ == spec_data_tag(*self),
    {
        match self {
            DataType::F32 => "f32",
            DataType::I32 => "i32",
            DataType::Name => "name",
            DataType::Matrix4 => "matrix4",
        }
    }

    /// How many slots of a record a parameter of this type occupies.
    pub fn get_size(&self) -> (r: usize)
        ensures
            r == spec_size(*self),
    {
        match self {
            DataType::Matrix4 => 16,
            _ => 1,
        }
    }
}

/// One parsed data layer.
#[derive(Debug)]
pub enum SourceLayer {
    F32(Vec<FloatBits>),
    I32(Vec<i32>),
    Name(Vec<String>),
    Matrix4(Vec<Matrix>),
}

/// How many records a layer holds.
pub open spec fn spec_layer_len(layer: SourceLayer) -> nat {
    match layer {
        SourceLayer::F32(list) => list@.len(),
        SourceLayer::I32(list) => list@.len(),
        SourceLayer::Name(list) => list@.len(),
        SourceLayer::Matrix4(list) => list@.len(),
    }
}

/// The name of a layer's data type in a vertex-format signature.
pub open spec fn spec_layer_data_tag(layer: SourceLayer) -> Seq<char> {
    match layer {
        SourceLayer::F32(_) => "f32"@,
        SourceLayer::I32(_) => "i32"@,
        SourceLayer::Name(_) => "name"@,
        SourceLayer::Matrix4(_) => "matrix4"@,
    }
}

impl SourceLayer {
    /// The layer's data type name.
    pub fn print_data_type(&self) -> (r: &'static str)
        ensures
            r@ == spec_layer_data_tag(*self),
    {
        match self {
            SourceLayer::F32(_) => "f32",
            SourceLayer::I32(_) => "i32",
            SourceLayer::Name(_) => "name",
            SourceLayer::Matrix4(_) => "matrix4",
        }
    }

    /// How many records the layer holds.
    pub fn get_length(&self) -> (r: usize)
        ensures
            r == spec_layer_len(*self),
    {
        match self {
            SourceLayer::F32(list) => list.len(),
            SourceLayer::I32(list) => list.len(),
            SourceLayer::Name(list) => list.len(),
            SourceLayer::Matrix4(list) => list.len(),
        }
    }
}

// ---------------------------------------------------------------------------
// Parameters.
// ---------------------------------------------------------------------------

/// The layer tag a `param` name denotes.
pub open spec fn spec_layer_of(name: String) -> LayerType {
    if name@ == "X"@ {
        LayerType::X
    } else if name@ == "Y"@ {
        LayerType::Y
    } else if name@ == "Z"@ {
        LayerType::Z
    } else if name@ == "S"@ {
        LayerType::U
    } else if name@ == "T"@ {
        LayerType::V
    } else if name@ == "R"@ {
        LayerType::R
    } else if name@ == "G"@ {
        LayerType::G
    } else if name@ == "B"@ {
        LayerType::B
    } else if name@ == "JOINT"@ {
        LayerType::BoneName
    } else if name@ == "TRANSFORM"@ {
        LayerType::TransformMatrix
    } else if name@ == "WEIGHT"@ {
        LayerType::Weight
    } else {
        LayerType::Other(name)
    }
}

/// The asset-relative standard tag: the X/Y/Z axes permuted by the up
/// axis, every other tag unchanged.
pub open spec fn spec_standard(lt: LayerType, axis: Axis) -> LayerType {
    match lt {
        LayerType::X => match axis {
            Axis::X => LayerType::Y,
            Axis::Y => LayerType::X,
            Axis::Z => LayerType::X,
        },
        LayerType::Y => match axis {
            Axis::X => LayerType::X,
            Axis::Y => LayerType::Y,
            Axis::Z => LayerType::Z,
        },
        LayerType::Z => match axis {
            Axis::X => LayerType::Z,
            Axis::Y => LayerType::Z,
            Axis::Z => LayerType::Y,
        },
        _ => lt,
    }
}

/// The data type a `param` type string denotes, if it is one of the three
/// the format admits.
pub open spec fn spec_dtype_of(t: Seq<char>) -> Option<DataType> {
    if t == "float"@ {
        Some(DataType::F32)
    } else if t == "name"@ {
        Some(DataType::Name)
    } else if t == "float4x4"@ {
        Some(DataType::Matrix4)
    } else {
        None
    }
}

/// What the `param` children of an accessor declare: for each, its name
/// tag, its standard (axis-re-mapped) tag, and its data type.
pub open spec fn spec_read_params(children: Seq<Element>, axis: Axis) -> Option<
    Seq<(LayerType, LayerType, DataType)>,
>
    decreases children.len(),
{
    if children.len() == 0 {
        Some(Seq::empty())
    } else {
        match spec_read_params(children.drop_last(), axis) {
            None => None,
            Some(ps) => {
                let e = children.last();
                if e.name@ != "param"@ {
                    Some(ps)
                } else {
                    match spec_attr(e.attributes@, "name"@) {
                        None => None,
                        Some(name) => match spec_attr(e.attributes@, "type"@) {
                            None => None,
                            Some(t) => match spec_dtype_of(t@) {
                                None => None,
                                Some(dt) => {
                                    let tag = spec_layer_of(name);
                                    Some(ps.push((tag, spec_standard(tag, axis), dt)))
                                },
                            },
                        },
                    }
                }
            },
        }
    }
}

proof fn lemma_params_none_extends(children: Seq<Element>, axis: Axis, j: int)
    requires
        0 <= j <= children.len(),
        spec_read_params(children.take(j), axis) is None,
    ensures
        spec_read_params(children, axis) is None,
    decreases children.len() - j,
{
    if j < children.len() {
        assert(children.take(j + 1).drop_last() =~= children.take(j));
        lemma_params_none_extends(children, axis, j + 1);
    } else {
        assert(children.take(j) =~= children);
    }
}

/// Maps a `param` name string to its layer tag.
fn layer_of(name: &String) -> (r: LayerType)
    ensures
        r == spec_layer_of(*name),
{
    if str_eq(name.as_str(), "X") {
        LayerType::X
    } else if str_eq(name.as_str(), "Y") {
        LayerType::Y
    } else if str_eq(name.as_str(), "Z") {
        LayerType::Z
    } else if str_eq(name.as_str(), "S") {
        LayerType::U
    } else if str_eq(name.as_str(), "T") {
        LayerType::V
    } else if str_eq(name.as_str(), "R") {
        LayerType::R
    } else if str_eq(name.as_str(), "G") {
        LayerType::G
    } else if str_eq(name.as_str(), "B") {
        LayerType::B
    } else if str_eq(name.as_str(), "JOINT") {
        LayerType::BoneName
    } else if str_eq(name.as_str(), "TRANSFORM") {
        LayerType::TransformMatrix
    } else if str_eq(name.as_str(), "WEIGHT") {
        LayerType::Weight
    } else {
        LayerType::Other(name.clone())
    }
}

// ---------------------------------------------------------------------------
// Vertex-format signatures.
// ---------------------------------------------------------------------------

/// The long format signature: the parameters' name tags and data types,
/// `name:type`, joined by commas.
pub open spec fn spec_vertex_format(params: Seq<(LayerType, LayerType, DataType)>) -> Seq<char>
    decreases params.len(),
{
    if params.len() == 0 {
        Seq::empty()
    } else if params.len() == 1 {
        spec_layer_tag(params.last().0) + ":"@ + spec_data_tag(params.last().2)
    } else {
        spec_vertex_format(params.drop_last()) + ","@ + spec_layer_tag(params.last().0) + ":"@
            + spec_data_tag(params.last().2)
    }
}

/// The short format signature: the parameters' name tags joined by commas.
pub open spec fn spec_short_format(params: Seq<(LayerType, LayerType, DataType)>) -> Seq<char>
    decreases params.len(),
{
    if params.len() == 0 {
        Seq::empty()
    } else if params.len() == 1 {
        spec_layer_tag(params.last().0)
    } else {
        spec_short_format(params.drop_last()) + ","@ + spec_layer_tag(params.last().0)
    }
}

// ---------------------------------------------------------------------------
// De-interleaving.
// ---------------------------------------------------------------------------

/// The sum of the parameters' slot sizes: the stride the accessor must
/// declare.
pub open spec fn spec_stride_sum(params: Seq<(LayerType, LayerType, DataType)>) -> nat
    decreases params.len(),
{
    if params.len() == 0 {
        0
    } else {
        spec_stride_sum(params.drop_last()) + spec_size(params.last().2)
    }
}

proof fn lemma_stride_monotone(params: Seq<(LayerType, LayerType, DataType)>, j: int)
    requires
        0 <= j <= params.len(),
    ensures
        spec_stride_sum(params) >= spec_stride_sum(params.take(j)),
    decreases params.len() - j,
{
    if j < params.len() {
        assert(params.take(j + 1).drop_last() =~= params.take(j));
        lemma_stride_monotone(params, j + 1);
    } else {
        assert(params.take(j) =~= params);
    }
}

/// The token that record `i` of the layer at slot offset `off` reads, with
/// the record `k`-th slot for matrices.
pub open spec fn cell_tok(toks: Seq<Seq<char>>, stride: int, off: int, i: int, k: int) -> Seq<
    char,
> {
    toks[i * stride + off + k]
}

/// A float cell's bits, sign-inverted when the handedness correction
/// applies to the layer.
pub open spec fn spec_f32_cell(toks: Seq<Seq<char>>, stride: int, off: int, i: int, negate: bool) -> u32 {
    let raw = f32_of_text(cell_tok(toks, stride, off, i, 0))->0;
    if negate {
        raw ^ F32_SIGN_MASK
    } else {
        raw
    }
}

/// An integer cell's value, negated (wrapping on the minimum) when the
/// handedness correction applies to the layer.
pub open spec fn spec_i32_cell(toks: Seq<Seq<char>>, stride: int, off: int, i: int, negate: bool) -> i32 {
    let raw = spec_parse_i32(cell_tok(toks, stride, off, i, 0))->0;
    if negate {
        if raw == i32::MIN {
            i32::MIN
        } else {
            (0 - raw as int) as i32
        }
    } else {
        raw
    }
}

/// Whether every token the layer at slot offset `off` reads parses as its
/// data type asks.
pub open spec fn param_tokens_ok(
    dt: DataType,
    toks: Seq<Seq<char>>,
    count: int,
    stride: int,
    off: int,
) -> bool {
    match dt {
        DataType::F32 => forall|i: int|
            0 <= i < count ==> f32_of_text(#[trigger] cell_tok(toks, stride, off, i, 0)) is Some,
        DataType::I32 => forall|i: int|
            0 <= i < count ==> spec_parse_i32(#[trigger] cell_tok(toks, stride, off, i, 0)) is Some,
        DataType::Name => true,
        DataType::Matrix4 => forall|i: int, k: int|
            0 <= i < count && 0 <= k < 16 ==> f32_of_text(
                #[trigger] cell_tok(toks, stride, off, i, k),
            ) is Some,
    }
}

/// Whether `layer` holds exactly the de-interleaved records of the layer
/// at slot offset `off`.
pub open spec fn layer_matches(
    layer: SourceLayer,
    dt: DataType,
    toks: Seq<Seq<char>>,
    count: int,
    stride: int,
    off: int,
    negate: bool,
) -> bool {
    match dt {
        DataType::F32 => layer matches SourceLayer::F32(v) && v@.len() == count && forall|i: int|
            0 <= i < count ==> (#[trigger] v@[i]).bits == spec_f32_cell(toks, stride, off, i, negate),
        DataType::I32 => layer matches SourceLayer::I32(v) && v@.len() == count && forall|i: int|
            0 <= i < count ==> #[trigger] v@[i] == spec_i32_cell(toks, stride, off, i, negate),
        DataType::Name => layer matches SourceLayer::Name(v) && v@.len() == count && forall|i: int|
            0 <= i < count ==> (#[trigger] v@[i])@ == cell_tok(toks, stride, off, i, 0),
        DataType::Matrix4 => layer matches SourceLayer::Matrix4(v) && v@.len() == count && forall|
            i: int,
            k: int,
        |
            0 <= i < count && 0 <= k < 16 ==> (#[trigger] v@[i].mat@[k]).bits == f32_of_text(
                cell_tok(toks, stride, off, i, k),
            )->0,
    }
}

/// Whether the handedness correction applies to a layer: the Blender
/// heuristic is set and the layer's standard tag is the X axis.
pub open spec fn spec_negate(standard: LayerType, editor: Editor) -> bool {
    editor == Editor::Blender && standard is X
}

/// Everything de-interleaving checks: the declared stride is the
/// parameters' slot sum, `count * stride` is the declared array length,
/// the block holds at least that many tokens, every token parses as its
/// layer asks, and no two layers share a standard tag.
/// Whether no two parameters share a standard layer tag.
pub open spec fn layer_tags_distinct(params: Seq<(LayerType, LayerType, DataType)>) -> bool {
    forall|j1: int, j2: int|
        0 <= j1 < j2 < params.len() ==> spec_layer_tag(#[trigger] params[j1].1) != spec_layer_tag(
            #[trigger] params[j2].1,
        )
}

pub open spec fn spec_layers_ok(
    params: Seq<(LayerType, LayerType, DataType)>,
    toks: Seq<Seq<char>>,
    count: int,
    stride: int,
    array_size: int,
) -> bool {
    &&& stride == spec_stride_sum(params)
    &&& count * stride == array_size
    &&& toks.len() >= array_size
    &&& forall|j: int|
        0 <= j < params.len() ==> param_tokens_ok(
            (#[trigger] params[j]).2,
            toks,
            count,
            stride,
            spec_stride_sum(params.take(j)) as int,
        )
    &&& layer_tags_distinct(params)
}


/// Reads the accessor's `param` children.
fn read_params(accessor: &Element, asset: &Asset) -> (r: Result<
    Vec<(LayerType, LayerType, DataType)>,
    Error,
>)
    ensures
        match r {
            Ok(ps) => spec_read_params(accessor.children@, asset.up_axis) == Some(ps@) && ps@.len()
                > 0,
            Err(e) => (spec_read_params(accessor.children@, asset.up_axis) is None
                || spec_read_params(accessor.children@, asset.up_axis) == Some(
                Seq::<(LayerType, LayerType, DataType)>::empty(),
            )) && (match e {
                Error::MissingAttribute { .. } => true,
                Error::StructuralInvariant { .. } => true,
                _ => false,
            }),
        },
{
    let mut params: Vec<(LayerType, LayerType, DataType)> = Vec::new();
    let n = accessor.children.len();
    let mut i: usize = 0;
    proof {
        assert(accessor.children@.take(0int) =~= Seq::<Element>::empty());
    }
    while i < n
        invariant
            n == accessor.children@.len(),
            i <= n,
            spec_read_params(accessor.children@.take(i as int), asset.up_axis) == Some(params@),
        decreases n - i,
    {
        proof {
            assert(accessor.children@.take(i + 1).drop_last() =~= accessor.children@.take(
                i as int,
            ));
        }
        let child = &accessor.children[i];
        if str_eq(child.name.as_str(), "param") {
            let name = match child.get_attribute("name") {
                Ok(v) => v.clone(),
                Err(e) => {
                    proof {
                        lemma_params_none_extends(accessor.children@, asset.up_axis, i + 1);
                    }
                    return Err(e);
                },
            };
            let type_str = match child.get_attribute("type") {
                Ok(v) => v,
                Err(e) => {
                    proof {
                        lemma_params_none_extends(accessor.children@, asset.up_axis, i + 1);
                    }
                    return Err(e);
                },
            };
            let dtype = if str_eq(type_str.as_str(), "float") {
                DataType::F32
            } else if str_eq(type_str.as_str(), "name") {
                DataType::Name
            } else if str_eq(type_str.as_str(), "float4x4") {
                DataType::Matrix4
            } else {
                proof {
                    lemma_params_none_extends(accessor.children@, asset.up_axis, i + 1);
                }
                return Err(
                    Error::StructuralInvariant {
                        description: (
                        "a parameter must have the float, name or float4x4 type").to_owned(),
                    },
                );
            };
            let tag = layer_of(&name);
            let standard = get_standard_layer_type(&tag, asset);
            params.push((tag, standard, dtype));
        }
        i = i + 1;
    }
    proof {
        assert(accessor.children@.take(n as int) =~= accessor.children@);
    }
    if params.len() == 0 {
        return Err(
            Error::StructuralInvariant {
                description: ("the source declares no parameters").to_owned(),
            },
        );
    }
    Ok(params)
}

/// Re-maps a layer tag to the asset-relative standard axis.
fn get_standard_layer_type(layer_type: &LayerType, asset: &Asset) -> (r: LayerType)
    ensures
        r == spec_standard(*layer_type, asset.up_axis),
{
    match layer_type {
        LayerType::X => match asset.up_axis {
            Axis::X => LayerType::Y,
            Axis::Y => LayerType::X,
            Axis::Z => LayerType::X,
        },
        LayerType::Y => match asset.up_axis {
            Axis::X => LayerType::X,
            Axis::Y => LayerType::Y,
            Axis::Z => LayerType::Z,
        },
        LayerType::Z => match asset.up_axis {
            Axis::X => LayerType::Z,
            Axis::Y => LayerType::Z,
            Axis::Z => LayerType::Y,
        },
        _ => layer_type.clone(),
    }
}

/// Builds the long and short vertex-format signatures of a parameter
/// list.
fn generate_vertex_format(params: &Vec<(LayerType, LayerType, DataType)>) -> (r: (String, String))
    ensures
        r.0@ == spec_vertex_format(params@),
        r.1@ == spec_short_format(params@),
{
    let mut vertex_format = String::new();
    let mut short_vertex_format = String::new();
    let n = params.len();
    let mut j: usize = 0;
    proof {
        assert(params@.take(0int) =~= Seq::<(LayerType, LayerType, DataType)>::empty());
    }
    while j < n
        invariant
            n == params@.len(),
            j <= n,
            vertex_format@ == spec_vertex_format(params@.take(j as int)),
            short_vertex_format@ == spec_short_format(params@.take(j as int)),
        decreases n - j,
    {
        proof {
            assert(params@.take(j + 1).drop_last() =~= params@.take(j as int));
        }
        if j > 0 {
            vertex_format.append(",");
            short_vertex_format.append(",");
        }
        vertex_format.append(params[j].0.print_vertex_format());
        vertex_format.append(":");
        vertex_format.append(params[j].2.print_data_type());
        short_vertex_format.append(params[j].0.print_vertex_format());
        proof {
            assert(vertex_format@ =~= spec_vertex_format(params@.take(j + 1)));
            assert(short_vertex_format@ =~= spec_short_format(params@.take(j + 1)));
        }
        j = j + 1;
    }
    proof {
        assert(params@.take(n as int) =~= params@);
    }
    (vertex_format, short_vertex_format)
}

// ---------------------------------------------------------------------------
// The raw data block.
// ---------------------------------------------------------------------------

/// How many children of `s` are data blocks (their name ends `_array`).
pub open spec fn count_arrays(s: Seq<Element>) -> nat
    decreases s.len(),
{
    if s.len() == 0 {
        0
    } else {
        count_arrays(s.drop_last()) + if spec_ends_with(s.last().name@, "_array"@) {
            1nat
        } else {
            0nat
        }
    }
}

/// The first data-block child (meaningful when one exists).
pub open spec fn first_array(s: Seq<Element>) -> Element
    decreases s.len(),
{
    if s.len() == 0 {
        arbitrary()
    } else if count_arrays(s.drop_last()) > 0 {
        first_array(s.drop_last())
    } else {
        s.last()
    }
}

/// The raw data block of a source: the text and declared count of its
/// first `*_array` child, when that child is well-formed.
pub open spec fn spec_array_of(source: Element) -> Option<(String, usize)> {
    if count_arrays(source.children@) == 0 {
        None
    } else {
        let e = first_array(source.children@);
        match e.text {
            None => None,
            Some(data) => match spec_attr(e.attributes@, "count"@) {
                None => None,
                Some(tok) => match spec_parse_usize(tok@) {
                    None => None,
                    Some(size) => Some((data, size)),
                },
            },
        }
    }
}

proof fn lemma_arrays_monotone(s: Seq<Element>, j: int)
    requires
        0 <= j <= s.len(),
    ensures
        count_arrays(s) >= count_arrays(s.take(j)),
        count_arrays(s.take(j)) > 0 ==> first_array(s) == first_array(s.take(j)),
    decreases s.len() - j,
{
    if j < s.len() {
        assert(s.take(j + 1).drop_last() =~= s.take(j));
        lemma_arrays_monotone(s, j + 1);
    } else {
        assert(s.take(j) =~= s);
    }
}

/// Finds the source's raw data block: its text and its declared length.
fn get_array_and_size<'a>(source: &'a Element) -> (r: Result<(&'a String, usize), Error>)
    ensures
        match r {
            Ok(d) => spec_array_of(*source) == Some((*d.0, d.1)),
            Err(e) => spec_array_of(*source) is None && (match e {
                Error::MissingText { .. } => true,
                Error::MissingAttribute { .. } => true,
                Error::StructuralInvariant { .. } => true,
                Error::NumericParse { kind, field, token } => kind == NumericKind::Unsigned
                    && field@ == "count"@ && spec_parse_usize(token@) is None,
                _ => false,
            }),
        },
{
    let n = source.children.len();
    let mut i: usize = 0;
    proof {
        assert(source.children@.take(0int) =~= Seq::<Element>::empty());
    }
    while i < n
        invariant
            n == source.children@.len(),
            i <= n,
            count_arrays(source.children@.take(i as int)) == 0,
        decreases n - i,
    {
        proof {
            assert(source.children@.take(i + 1).drop_last() =~= source.children@.take(i as int));
        }
        let child = &source.children[i];
        if ends_with(child.name.as_str(), "_array") {
            proof {
                lemma_arrays_monotone(source.children@, i + 1);
                assert(first_array(source.children@) == source.children@[i as int]);
            }
            let data = match child.get_text() {
                Ok(t) => t,
                Err(e) => {
                    return Err(e);
                },
            };
            let data_size = match child.parse_attribute_as_usize("count") {
                Ok(v) => v,
                Err(e) => {
                    return Err(e);
                },
            };
            return Ok((data, data_size));
        }
        i = i + 1;
    }
    proof {
        assert(source.children@.take(n as int) =~= source.children@);
    }
    Err(
        Error::StructuralInvariant {
            description: ("the source has no raw data block").to_owned(),
        },
    )
}

pub(crate) proof fn lemma_row_bound(i: int, count: int, stride: int, off: int, size: int)
    requires
        0 <= i < count,
        0 <= off,
        1 <= size,
        off + size <= stride,
    ensures
        i * stride + off + size <= count * stride,
        0 <= i * stride,
    decreases count,
{
    assert(i * stride + stride <= count * stride && 0 <= i * stride) by (nonlinear_arith)
        requires
            0 <= i < count,
            0 <= stride,
    ;
}


/// De-interleaves the raw data block into one layer per parameter: layer
/// `j` reads, for each record `i`, the tokens at `i * stride + offset(j)`;
/// the declared stride must be the parameters' slot sum and
/// `count * stride` must be the declared array length.
#[verifier::spinoff_prover]
#[verifier::rlimit(100)]
fn read_layers_data(
    accessor_stride: usize,
    accessor_count: usize,
    array: &String,
    array_size: usize,
    params: &Vec<(LayerType, LayerType, DataType)>,
    asset: &Asset,
) -> (r: Result<Registry<SourceLayer>, Error>)
    ensures
        ({
            let toks = spec_tokens(array@);
            match r {
                Ok(layers) => spec_layers_ok(
                    params@,
                    toks,
                    accessor_count as int,
                    accessor_stride as int,
                    array_size as int,
                ) && layers.wf() && layers.entries@.len() == params@.len() && forall|j: int|
                    0 <= j < params@.len() ==> (#[trigger] layers.entries@[j]).0@ == spec_layer_tag(
                        params@[j].1,
                    ) && layer_matches(
                        layers.entries@[j].1,
                        params@[j].2,
                        toks,
                        accessor_count as int,
                        accessor_stride as int,
                        spec_stride_sum(params@.take(j)) as int,
                        spec_negate(params@[j].1, asset.editor),
                    ),
                Err(e) => !spec_layers_ok(
                    params@,
                    toks,
                    accessor_count as int,
                    accessor_stride as int,
                    array_size as int,
                ) && (match e {
                    Error::CardinalityMismatch { .. } => accessor_stride != spec_stride_sum(
                        params@,
                    ) || accessor_count * spec_stride_sum(params@) != array_size,
                    Error::UnexpectedEndOfData { context } => context@ == "source"@ && toks.len()
                        < array_size,
                    Error::NumericParse { kind, field, token } => field@ == "array element"@ && ((
                    kind == NumericKind::Float && f32_of_text(token@) is None) || (kind
                        == NumericKind::Int && spec_parse_i32(token@) is None)),
                    Error::DuplicateId { scope, .. } => scope@ == "layer"@ && !layer_tags_distinct(
                        params@,
                    ),
                    _ => false,
                }),
            }
        }),
{
    let np = params.len();
    let mut stride: usize = 0;
    let mut j: usize = 0;
    proof {
        assert(params@.take(0int) =~= Seq::<(LayerType, LayerType, DataType)>::empty());
    }
    while j < np
        invariant
            np == params@.len(),
            j <= np,
            stride == spec_stride_sum(params@.take(j as int)),
        decreases np - j,
    {
        proof {
            assert(params@.take(j + 1).drop_last() =~= params@.take(j as int));
        }
        let size = params[j].2.get_size();
        stride = match stride.checked_add(size) {
            Some(s2) => s2,
            None => {
                proof {
                    lemma_stride_monotone(params@, j + 1);
                }
                return Err(
                    Error::CardinalityMismatch {
                        description: ("the parameters' slot sum does not fit").to_owned(),
                        expected: 0,
                        found: accessor_stride,
                    },
                );
            },
        };
        j = j + 1;
    }
    proof {
        assert(params@.take(np as int) =~= params@);
    }
    if accessor_stride != stride {
        return Err(
            Error::CardinalityMismatch {
                description: ("the declared stride is not the parameters' slot sum").to_owned(),
                expected: stride,
                found: accessor_stride,
            },
        );
    }
    let needed = match accessor_count.checked_mul(accessor_stride) {
        Some(p) => p,
        None => {
            return Err(
                Error::CardinalityMismatch {
                    description: ("count times stride is not the raw array length").to_owned(),
                    expected: 0,
                    found: array_size,
                },
            );
        },
    };
    if needed != array_size {
        return Err(
            Error::CardinalityMismatch {
                description: ("count times stride is not the raw array length").to_owned(),
                expected: needed,
                found: array_size,
            },
        );
    }
    let tokens = split_tokens(array.as_str());
    proof {
        assert(views_of(tokens@).len() == tokens@.len());
    }
    if tokens.len() < array_size {
        return Err(Error::UnexpectedEndOfData { context: ("source").to_owned() });
    }
    let ghost toks = spec_tokens(array@);
    let mut layers: Registry<SourceLayer> = Registry::new();
    let mut off: usize = 0;
    j = 0;
    proof {
        assert(params@.take(0int) =~= Seq::<(LayerType, LayerType, DataType)>::empty());
    }
    while j < np
        invariant
            np == params@.len(),
            j <= np,
            off == spec_stride_sum(params@.take(j as int)),
            accessor_stride == spec_stride_sum(params@),
            accessor_count * accessor_stride == array_size,
            toks == spec_tokens(array@),
            views_of(tokens@) == toks,
            tokens@.len() >= array_size,
            layers.wf(),
            layers.entries@.len() == j,
            forall|jj: int|
                0 <= jj < j ==> param_tokens_ok(
                    (#[trigger] params@[jj]).2,
                    toks,
                    accessor_count as int,
                    accessor_stride as int,
                    spec_stride_sum(params@.take(jj)) as int,
                ),
            forall|jj: int|
                0 <= jj < j ==> (#[trigger] layers.entries@[jj]).0@ == spec_layer_tag(
                    params@[jj].1,
                ) && layer_matches(
                    layers.entries@[jj].1,
                    params@[jj].2,
                    toks,
                    accessor_count as int,
                    accessor_stride as int,
                    spec_stride_sum(params@.take(jj)) as int,
                    spec_negate(params@[jj].1, asset.editor),
                ),
        decreases np - j,
    {
        proof {
            assert(params@.take(j + 1).drop_last() =~= params@.take(j as int));
            lemma_stride_monotone(params@, j + 1);
        }
        let size = params[j].2.get_size();
        let negate = matches!(asset.editor, Editor::Blender) && matches!(
            &params[j].1,
            LayerType::X
        );
        proof {
            assert(negate == spec_negate(params@[j as int].1, asset.editor));
            assert(off + size == spec_stride_sum(params@.take(j + 1)));
            assert(off + size <= accessor_stride);
        }
        let layer = match &params[j].2 {
            DataType::F32 => {
                let mut v: Vec<FloatBits> = Vec::new();
                let mut i: usize = 0;
                while i < accessor_count
                    invariant
                        i <= accessor_count,
                        v@.len() == i,
                        np == params@.len(),
                        j < np,
                        params@[j as int].2 == DataType::F32,
                        off == spec_stride_sum(params@.take(j as int)),
                        off + 1 <= accessor_stride,
                        accessor_count * accessor_stride == array_size,
                        toks == spec_tokens(array@),
                        views_of(tokens@) == toks,
                        tokens@.len() >= array_size,
                        negate == spec_negate(params@[j as int].1, asset.editor),
                        forall|ii: int|
                            0 <= ii < i ==> f32_of_text(
                                #[trigger] cell_tok(toks, accessor_stride as int, off as int, ii, 0),
                            ) is Some,
                        forall|ii: int|
                            0 <= ii < i ==> (#[trigger] v@[ii]).bits == spec_f32_cell(
                                toks,
                                accessor_stride as int,
                                off as int,
                                ii,
                                negate,
                            ),
                    decreases accessor_count - i,
                {
                    proof {
                        lemma_row_bound(
                            i as int,
                            accessor_count as int,
                            accessor_stride as int,
                            off as int,
                            1,
                        );
                    }
                    let idx = i * accessor_stride + off;
                    proof {
                        assert(cell_tok(toks, accessor_stride as int, off as int, i as int, 0)
                            == tokens@[idx as int]@);
                    }
                    match parse_f32(tokens[idx].as_str()) {
                        Some(raw) => {
                            let cell = if negate {
                                raw.neg()
                            } else {
                                raw
                            };
                            v.push(cell);
                        },
                        None => {
                            proof {
                                assert(!param_tokens_ok(
                                    params@[j as int].2,
                                    toks,
                                    accessor_count as int,
                                    accessor_stride as int,
                                    off as int,
                                ));
                            }
                            return Err(
                                Error::NumericParse {
                                    kind: NumericKind::Float,
                                    field: ("array element").to_owned(),
                                    token: tokens[idx].clone(),
                                },
                            );
                        },
                    }
                    i = i + 1;
                }
                SourceLayer::F32(v)
            },
            DataType::I32 => {
                let mut v: Vec<i32> = Vec::new();
                let mut i: usize = 0;
                while i < accessor_count
                    invariant
                        i <= accessor_count,
                        v@.len() == i,
                        np == params@.len(),
                        j < np,
                        params@[j as int].2 == DataType::I32,
                        off == spec_stride_sum(params@.take(j as int)),
                        off + 1 <= accessor_stride,
                        accessor_count * accessor_stride == array_size,
                        toks == spec_tokens(array@),
                        views_of(tokens@) == toks,
                        tokens@.len() >= array_size,
                        negate == spec_negate(params@[j as int].1, asset.editor),
                        forall|ii: int|
                            0 <= ii < i ==> spec_parse_i32(
                                #[trigger] cell_tok(toks, accessor_stride as int, off as int, ii, 0),
                            ) is Some,
                        forall|ii: int|
                            0 <= ii < i ==> #[trigger] v@[ii] == spec_i32_cell(
                                toks,
                                accessor_stride as int,
                                off as int,
                                ii,
                                negate,
                            ),
                    decreases accessor_count - i,
                {
                    proof {
                        lemma_row_bound(
                            i as int,
                            accessor_count as int,
                            accessor_stride as int,
                            off as int,
                            1,
                        );
                    }
                    let idx = i * accessor_stride + off;
                    proof {
                        assert(cell_tok(toks, accessor_stride as int, off as int, i as int, 0)
                            == tokens@[idx as int]@);
                    }
                    match parse_i32(tokens[idx].as_str()) {
                        Some(raw) => {
                            let cell = if negate {
                                if raw == i32::MIN {
                                    raw
                                } else {
                                    -raw
                                }
                            } else {
                                raw
                            };
                            v.push(cell);
                        },
                        None => {
                            proof {
                                assert(!param_tokens_ok(
                                    params@[j as int].2,
                                    toks,
                                    accessor_count as int,
                                    accessor_stride as int,
                                    off as int,
                                ));
                            }
                            return Err(
                                Error::NumericParse {
                                    kind: NumericKind::Int,
                                    field: ("array element").to_owned(),
                                    token: tokens[idx].clone(),
                                },
                            );
                        },
                    }
                    i = i + 1;
                }
                SourceLayer::I32(v)
            },
            DataType::Name => {
                let mut v: Vec<String> = Vec::new();
                let mut i: usize = 0;
                while i < accessor_count
                    invariant
                        i <= accessor_count,
                        v@.len() == i,
                        np == params@.len(),
                        j < np,
                        off == spec_stride_sum(params@.take(j as int)),
                        off + 1 <= accessor_stride,
                        accessor_count * accessor_stride == array_size,
                        toks == spec_tokens(array@),
                        views_of(tokens@) == toks,
                        tokens@.len() >= array_size,
                        forall|ii: int|
                            0 <= ii < i ==> (#[trigger] v@[ii])@ == cell_tok(
                                toks,
                                accessor_stride as int,
                                off as int,
                                ii,
                                0,
                            ),
                    decreases accessor_count - i,
                {
                    proof {
                        lemma_row_bound(
                            i as int,
                            accessor_count as int,
                            accessor_stride as int,
                            off as int,
                            1,
                        );
                    }
                    let idx = i * accessor_stride + off;
                    proof {
                        assert(cell_tok(toks, accessor_stride as int, off as int, i as int, 0)
                            == tokens@[idx as int]@);
                    }
                    v.push(tokens[idx].clone());
                    i = i + 1;
                }
                SourceLayer::Name(v)
            },
            DataType::Matrix4 => {
                let mut v: Vec<Matrix> = Vec::new();
                let mut i: usize = 0;
                while i < accessor_count
                    invariant
                        i <= accessor_count,
                        v@.len() == i,
                        np == params@.len(),
                        j < np,
                        params@[j as int].2 == DataType::Matrix4,
                        off == spec_stride_sum(params@.take(j as int)),
                        off + 16 <= accessor_stride,
                        accessor_count * accessor_stride == array_size,
                        toks == spec_tokens(array@),
                        views_of(tokens@) == toks,
                        tokens@.len() >= array_size,
                        forall|ii: int, kk: int|
                            0 <= ii < i && 0 <= kk < 16 ==> f32_of_text(
                                #[trigger] cell_tok(
                                    toks,
                                    accessor_stride as int,
                                    off as int,
                                    ii,
                                    kk,
                                ),
                            ) is Some,
                        forall|ii: int, kk: int|
                            0 <= ii < i && 0 <= kk < 16 ==> (#[trigger] v@[ii].mat@[kk]).bits
                                == f32_of_text(
                                cell_tok(toks, accessor_stride as int, off as int, ii, kk),
                            )->0,
                    decreases accessor_count - i,
                {
                    proof {
                        lemma_row_bound(
                            i as int,
                            accessor_count as int,
                            accessor_stride as int,
                            off as int,
                            16,
                        );
                    }
                    let base = i * accessor_stride + off;
                    let mut vals: [FloatBits; 16] = [FloatBits { bits: 0 }; 16];
                    let mut k: usize = 0;
                    while k < 16
                        invariant
                            k <= 16,
                            base == i * accessor_stride + off,
                            base + 16 <= array_size,
                            i < accessor_count,
                            toks == spec_tokens(array@),
                            views_of(tokens@) == toks,
                            tokens@.len() >= array_size,
                            np == params@.len(),
                            j < np,
                            params@[j as int].2 == DataType::Matrix4,
                            off == spec_stride_sum(params@.take(j as int)),
                            off + 16 <= accessor_stride,
                            accessor_count * accessor_stride == array_size,
                            forall|kk: int|
                                0 <= kk < k ==> f32_of_text(
                                    #[trigger] cell_tok(
                                        toks,
                                        accessor_stride as int,
                                        off as int,
                                        i as int,
                                        kk,
                                    ),
                                ) is Some,
                            forall|kk: int|
                                0 <= kk < k ==> (#[trigger] vals@[kk]).bits == f32_of_text(
                                    cell_tok(
                                        toks,
                                        accessor_stride as int,
                                        off as int,
                                        i as int,
                                        kk,
                                    ),
                                )->0,
                        decreases 16 - k,
                    {
                        let idx = base + k;
                        proof {
                            assert(cell_tok(
                                toks,
                                accessor_stride as int,
                                off as int,
                                i as int,
                                k as int,
                            ) == tokens@[idx as int]@);
                        }
                        match parse_f32(tokens[idx].as_str()) {
                            Some(raw) => {
                                vals[k] = raw;
                            },
                            None => {
                                proof {
                                    assert(!param_tokens_ok(
                                        params@[j as int].2,
                                        toks,
                                        accessor_count as int,
                                        accessor_stride as int,
                                        off as int,
                                    ));
                                }
                                return Err(
                                    Error::NumericParse {
                                        kind: NumericKind::Float,
                                        field: ("array element").to_owned(),
                                        token: tokens[idx].clone(),
                                    },
                                );
                            },
                        }
                        k = k + 1;
                    }
                    v.push(Matrix::from(vals));
                    i = i + 1;
                }
                SourceLayer::Matrix4(v)
            },
        };
        let key = params[j].1.print_vertex_format().to_owned();
        let key_for_err = key.clone();
        match layers.insert(key, layer) {
            Ok(()) => {},
            Err(()) => {
                proof {
                    lemma_assoc_some_exists(
                        layers.entries@,
                        spec_layer_tag(params@[j as int].1),
                    );
                    let jj = choose|jj: int|
                        0 <= jj < layers.entries@.len() && (#[trigger] layers.entries@[jj]).0@
                            == spec_layer_tag(params@[j as int].1);
                    assert(spec_layer_tag(params@[jj].1) == spec_layer_tag(params@[j as int].1));
                    assert(!layer_tags_distinct(params@));
                }
                return Err(
                    Error::DuplicateId { scope: ("layer").to_owned(), id: key_for_err },
                );
            },
        }
        off = off + size;
        j = j + 1;
    }
    proof {
        assert(params@.take(np as int) =~= params@);
        assert forall|j1: int, j2: int| 0 <= j1 < j2 < params@.len() implies spec_layer_tag(
            #[trigger] params@[j1].1,
        ) != spec_layer_tag(#[trigger] params@[j2].1) by {
            assert(layers.entries@[j1].0@ == spec_layer_tag(params@[j1].1));
            assert(layers.entries@[j2].0@ == spec_layer_tag(params@[j2].1));
        }
    }
    Ok(layers)
}


// ---------------------------------------------------------------------------
// The source itself.
// ---------------------------------------------------------------------------

/// A named set of parallel data layers keyed by their standard tags.
pub struct Source {
    pub id: String,
    pub short_vertex_format: String,
    pub vertex_format: String,
    pub layers: Registry<SourceLayer>,
}

/// The accessor element of a source.
pub open spec fn spec_source_accessor(source: Element) -> Option<Element> {
    match unique_child(source, "technique_common"@) {
        Some(tc) => unique_child(tc, "accessor"@),
        None => None,
    }
}

/// The accessor's declared count.
pub open spec fn spec_source_count(source: Element) -> Option<usize> {
    match spec_source_accessor(source) {
        Some(acc) => match spec_attr(acc.attributes@, "count"@) {
            Some(t) => spec_parse_usize(t@),
            None => None,
        },
        None => None,
    }
}

/// The accessor's declared stride.
pub open spec fn spec_source_stride(source: Element) -> Option<usize> {
    match spec_source_accessor(source) {
        Some(acc) => match spec_attr(acc.attributes@, "stride"@) {
            Some(t) => spec_parse_usize(t@),
            None => None,
        },
        None => None,
    }
}

/// The accessor's parameters.
pub open spec fn spec_source_params(source: Element, axis: Axis) -> Option<
    Seq<(LayerType, LayerType, DataType)>,
> {
    match spec_source_accessor(source) {
        Some(acc) => spec_read_params(acc.children@, axis),
        None => None,
    }
}

/// Everything parsing a source checks: an id, a well-formed accessor with
/// a non-empty parameter list, a raw data block, and consistent
/// de-interleaving.
pub open spec fn spec_source_ok(source: Element, asset: Asset) -> bool {
    &&& spec_attr(source.attributes@, "id"@) is Some
    &&& spec_source_count(source) is Some
    &&& spec_source_stride(source) is Some
    &&& spec_source_params(source, asset.up_axis) matches Some(params) && params.len() > 0
    &&& spec_array_of(source) is Some
    &&& spec_layers_ok(
        spec_source_params(source, asset.up_axis)->0,
        spec_tokens((spec_array_of(source)->0).0@),
        spec_source_count(source)->0 as int,
        spec_source_stride(source)->0 as int,
        (spec_array_of(source)->0).1 as int,
    )
}

impl Source {
    /// Whether the layer registry is consistent: unique keys and every
    /// layer reporting one record count (the accessor count).
    pub open spec fn wf(&self) -> bool {
        &&& self.layers.wf()
        &&& forall|i: int, j: int|
            0 <= i < self.layers.entries@.len() && 0 <= j < self.layers.entries@.len()
                ==> spec_layer_len((#[trigger] self.layers.entries@[i]).1) == spec_layer_len(
                (#[trigger] self.layers.entries@[j]).1,
            )
    }

    /// Parses one `source` block into its named layers: it succeeds exactly
    /// on the blocks `spec_source_ok` accepts, the format signatures are the
    /// parameters' joined tags, and layer `j` holds the de-interleaved
    /// records of parameter `j` under its standard tag.
    pub fn parse(source: &Element, asset: &Asset) -> (r: Result<Source, Error>)
        ensures
            match r {
                Ok(src) => spec_source_params(*source, asset.up_axis) matches Some(params)
                    && spec_source_ok(*source, *asset) && spec_attr(source.attributes@, "id"@)
                    == Some(src.id) && src.wf() && src.vertex_format@ == spec_vertex_format(params)
                    && src.short_vertex_format@ == spec_short_format(params)
                    && src.layers.entries@.len() == params.len() && (forall|j: int|
                    0 <= j < params.len() ==> (#[trigger] src.layers.entries@[j]).0@
                        == spec_layer_tag(params[j].1) && layer_matches(
                        src.layers.entries@[j].1,
                        params[j].2,
                        spec_tokens((spec_array_of(*source)->0).0@),
                        spec_source_count(*source)->0 as int,
                        spec_source_stride(*source)->0 as int,
                        spec_stride_sum(params.take(j)) as int,
                        spec_negate(params[j].1, asset.editor),
                    )),
                Err(e) => !spec_source_ok(*source, *asset) && (match e {
                    Error::CardinalityMismatch { .. } => spec_source_params(
                        *source,
                        asset.up_axis,
                    ) matches Some(params) && (spec_source_stride(*source) matches Some(st) && (
                    spec_source_count(*source) matches Some(c) && (spec_array_of(
                        *source,
                    ) matches Some(arr) && (st != spec_stride_sum(params) || c * spec_stride_sum(
                        params,
                    ) != arr.1)))),
                    Error::UnexpectedEndOfData { context } => context@ == "source"@ && (
                    spec_array_of(*source) matches Some(arr) && spec_tokens(arr.0@).len() < arr.1),
                    Error::DuplicateId { scope, .. } => scope@ == "layer"@ && (spec_source_params(
                        *source,
                        asset.up_axis,
                    ) matches Some(params) && !layer_tags_distinct(params)),
                    Error::NumericParse { kind, field, token } => ((kind == NumericKind::Float
                        && f32_of_text(token@) is None) || (kind == NumericKind::Int
                        && spec_parse_i32(token@) is None) || (kind == NumericKind::Unsigned
                        && spec_parse_usize(token@) is None)),
                    Error::MissingAttribute { .. } => true,
                    Error::MissingElement { .. } => true,
                    Error::MissingText { .. } => true,
                    Error::StructuralInvariant { .. } => true,
                    _ => false,
                }),
            },
    {
        let id = match source.get_attribute("id") {
            Ok(v) => v.clone(),
            Err(e) => {
                return Err(e);
            },
        };
        let technique = match source.get_element("technique_common") {
            Ok(c) => c,
            Err(e) => {
                return Err(e);
            },
        };
        let accessor = match technique.get_element("accessor") {
            Ok(c) => c,
            Err(e) => {
                return Err(e);
            },
        };
        let accessor_count = match accessor.parse_attribute_as_usize("count") {
            Ok(v) => v,
            Err(e) => {
                return Err(e);
            },
        };
        let accessor_stride = match accessor.parse_attribute_as_usize("stride") {
            Ok(v) => v,
            Err(e) => {
                return Err(e);
            },
        };
        let params = match read_params(accessor, asset) {
            Ok(ps) => ps,
            Err(e) => {
                return Err(e);
            },
        };
        let (vertex_format, short_vertex_format) = generate_vertex_format(&params);
        let (array, array_size) = match get_array_and_size(source) {
            Ok(d) => d,
            Err(e) => {
                return Err(e);
            },
        };
        let layers = match read_layers_data(
            accessor_stride,
            accessor_count,
            array,
            array_size,
            &params,
            asset,
        ) {
            Ok(l) => l,
            Err(e) => {
                return Err(e);
            },
        };
        let src = Source { id, short_vertex_format, vertex_format, layers };
        proof {
            assert forall|i: int, j: int|
                0 <= i < src.layers.entries@.len() && 0 <= j
                    < src.layers.entries@.len() implies spec_layer_len(
                (#[trigger] src.layers.entries@[i]).1,
            ) == spec_layer_len((#[trigger] src.layers.entries@[j]).1) by {
                assert(layer_matches(
                    src.layers.entries@[i].1,
                    params@[i].2,
                    spec_tokens(array@),
                    accessor_count as int,
                    accessor_stride as int,
                    spec_stride_sum(params@.take(i)) as int,
                    spec_negate(params@[i].1, asset.editor),
                ));
                assert(layer_matches(
                    src.layers.entries@[j].1,
                    params@[j].2,
                    spec_tokens(array@),
                    accessor_count as int,
                    accessor_stride as int,
                    spec_stride_sum(params@.take(j)) as int,
                    spec_negate(params@[j].1, asset.editor),
                ));
            }
        }
        Ok(src)
    }
}

// ---------------------------------------------------------------------------
// Source registries and input-stream selection.
// ---------------------------------------------------------------------------

/// Whether every value a registry of shared sources holds is well-formed.
pub open spec fn sources_wf(entries: Seq<(String, Arc<Source>)>) -> bool {
    forall|i: int| 0 <= i < entries.len() ==> (*(#[trigger] entries[i]).1).wf()
}

/// Whether registry entry `j` carries the `j`-th `source` child of
/// `children`: registered under its declared ID, holding a source of that
/// ID that parses under `asset`.
pub open spec fn source_entry_matches(
    entries: Seq<(String, Arc<Source>)>,
    children: Seq<Element>,
    j: int,
    asset: Asset,
) -> bool {
    let child = nth_named(children, "source"@, j);
    let declared = spec_attr(child.attributes@, "id"@);
    &&& declared is Some
    &&& entries[j].0 == declared->0
    &&& (*entries[j].1).id == declared->0
    &&& spec_source_ok(child, asset)
}

/// Whether registry entry `base + j` is the synonym declared by the
/// `j`-th `vertices` child of `children`: registered under the synonym's
/// own ID, and resolving to exactly the source that the synonym's `input`
/// reference named among the entries registered before it.
pub open spec fn alias_entry_matches(
    entries: Seq<(String, Arc<Source>)>,
    children: Seq<Element>,
    base: int,
    j: int,
) -> bool {
    let v = nth_named(children, "vertices"@, j);
    let declared = spec_attr(v.attributes@, "id"@);
    let input = unique_child(v, "input"@);
    &&& declared is Some
    &&& input is Some
    &&& spec_attr((input->0).attributes@, "source"@) is Some
    &&& entries[base + j].0 == declared->0
    &&& assoc_get(
        entries.take(base + j),
        crate::text::spec_strip_hashes((spec_attr((input->0).attributes@, "source"@)->0)@),
    ) == Some(entries[base + j].1)
}

/// The declared ID of the `j`-th `source` child.
pub open spec fn spec_source_id(children: Seq<Element>, j: int) -> Seq<char> {
    (spec_attr(nth_named(children, "source"@, j).attributes@, "id"@)->0)@
}

/// The synonym ID the `j`-th `vertices` child declares.
pub open spec fn spec_alias_id(children: Seq<Element>, j: int) -> Seq<char> {
    (spec_attr(nth_named(children, "vertices"@, j).attributes@, "id"@)->0)@
}

/// Whether no two `source` children declare the same ID.
pub open spec fn source_ids_unique(children: Seq<Element>) -> bool {
    forall|j1: int, j2: int|
        0 <= j1 < j2 < count_named(children, "source"@) ==> #[trigger] spec_source_id(children, j1)
            != #[trigger] spec_source_id(children, j2)
}

/// Whether the `j`-th `vertices` child is shaped like a synonym: its own
/// ID, a unique `input` child, and that input's `source` reference.
pub open spec fn alias_shape_ok(children: Seq<Element>, j: int) -> bool {
    let v = nth_named(children, "vertices"@, j);
    &&& spec_attr(v.attributes@, "id"@) is Some
    &&& unique_child(v, "input"@) matches Some(inp) && spec_attr(inp.attributes@, "source"@)
        is Some
}

/// The stripped reference the `j`-th `vertices` child resolves.
pub open spec fn spec_alias_ref(children: Seq<Element>, j: int) -> Seq<char> {
    crate::text::spec_strip_hashes(
        (spec_attr(
            (unique_child(nth_named(children, "vertices"@, j), "input"@)->0).attributes@,
            "source"@,
        )->0)@,
    )
}

/// Whether `key` is registered before the `j`-th synonym is processed:
/// it is some source's declared ID, or an earlier synonym's own ID.
pub open spec fn key_defined_before(children: Seq<Element>, j: int, key: Seq<char>) -> bool {
    ||| exists|k: int|
        0 <= k < count_named(children, "source"@) && #[trigger] spec_source_id(children, k) == key
    ||| exists|k: int| 0 <= k < j && #[trigger] spec_alias_id(children, k) == key
}

/// Whether the `j`-th `vertices` synonym is acceptable: well-shaped,
/// resolving to an already-registered ID, and declaring a fresh one.
pub open spec fn alias_ok(children: Seq<Element>, j: int) -> bool {
    &&& alias_shape_ok(children, j)
    &&& key_defined_before(children, j, spec_alias_ref(children, j))
    &&& !key_defined_before(children, j, spec_alias_id(children, j))
}

/// Whether every `source` child of the library parses.
pub open spec fn sources_all_ok(children: Seq<Element>, asset: Asset) -> bool {
    forall|j: int|
        0 <= j < count_named(children, "source"@) ==> spec_source_ok(
            #[trigger] nth_named(children, "source"@, j),
            asset,
        )
}

/// Whether every `vertices` synonym of the library is acceptable.
pub open spec fn aliases_all_ok(children: Seq<Element>) -> bool {
    forall|j: int| 0 <= j < count_named(children, "vertices"@) ==> #[trigger] alias_ok(children, j)
}

/// Everything reading a source library checks: every `source` child
/// parses, no two declare one ID, and every `vertices` synonym is
/// well-shaped, resolves to an already-registered ID, and declares a
/// fresh one.
pub open spec fn spec_read_sources_ok(children: Seq<Element>, asset: Asset) -> bool {
    &&& sources_all_ok(children, asset)
    &&& source_ids_unique(children)
    &&& aliases_all_ok(children)
}

/// Reads every `source` child of `element` into a registry keyed by
/// declared ID, then re-publishes each `vertices`-style synonym: its own ID
/// becomes an alias of the already-registered source its `input` child
/// names.  A duplicate ID of either kind, or a synonym naming an unknown
/// source, is an error.
pub fn read_sources(element: &Element, asset: &Asset) -> (r: Result<Registry<Arc<Source>>, Error>)
    ensures
        match r {
            Ok(reg) => ({
                &&& reg.wf()
                &&& sources_wf(reg.entries@)
                &&& reg.entries@.len() == count_named(element.children@, "source"@) + count_named(
                    element.children@,
                    "vertices"@,
                )
                &&& forall|j: int|
                    0 <= j < count_named(element.children@, "source"@)
                        ==> #[trigger] source_entry_matches(
                        reg.entries@,
                        element.children@,
                        j,
                        *asset,
                    )
                &&& forall|j: int|
                    0 <= j < count_named(element.children@, "vertices"@)
                        ==> #[trigger] alias_entry_matches(
                        reg.entries@,
                        element.children@,
                        count_named(element.children@, "source"@) as int,
                        j,
                    )
            }),
            Err(e) => !spec_read_sources_ok(element.children@, *asset) && (match e {
                Error::DuplicateId { scope, .. } => (scope@ == "source"@ && !source_ids_unique(
                    element.children@,
                )) || (scope@ == "source synonym"@ && !aliases_all_ok(element.children@)) || (
                scope@ == "layer"@ && !sources_all_ok(element.children@, *asset)),
                Error::UnresolvedReference { scope, .. } => scope@ == "source"@
                    && !aliases_all_ok(element.children@),
                Error::MissingAttribute { .. } => !sources_all_ok(element.children@, *asset)
                    || !aliases_all_ok(element.children@),
                Error::MissingElement { .. } => !sources_all_ok(element.children@, *asset)
                    || !aliases_all_ok(element.children@),
                Error::MissingText { .. } => !sources_all_ok(element.children@, *asset),
                Error::StructuralInvariant { .. } => !sources_all_ok(element.children@, *asset),
                Error::NumericParse { .. } => !sources_all_ok(element.children@, *asset),
                Error::CardinalityMismatch { .. } => !sources_all_ok(element.children@, *asset),
                Error::UnexpectedEndOfData { .. } => !sources_all_ok(element.children@, *asset),
                _ => false,
            }),
        },
{
    let mut sources: Registry<Arc<Source>> = Registry::new();
    let n = element.children.len();
    let mut i: usize = 0;
    proof {
        assert(element.children@.take(0int) =~= Seq::<Element>::empty());
    }
    while i < n
        invariant
            n == element.children@.len(),
            i <= n,
            sources.wf(),
            sources_wf(sources.entries@),
            sources.entries@.len() == count_named(element.children@.take(i as int), "source"@),
            forall|j: int|
                0 <= j < sources.entries@.len() ==> #[trigger] source_entry_matches(
                    sources.entries@,
                    element.children@.take(i as int),
                    j,
                    *asset,
                ),
        decreases n - i,
    {
        proof {
            assert(element.children@.take(i + 1).drop_last() =~= element.children@.take(i as int));
        }
        let child = &element.children[i];
        let is_source = str_eq(child.name.as_str(), "source");
        if !is_source {
            proof {
                lemma_named_skip(element.children@, "source"@, i as int);
                assert forall|j: int|
                    0 <= j < sources.entries@.len() implies #[trigger] source_entry_matches(
                    sources.entries@,
                    element.children@.take(i + 1),
                    j,
                    *asset,
                ) by {
                    assert(source_entry_matches(
                        sources.entries@,
                        element.children@.take(i as int),
                        j,
                        *asset,
                    ));
                }
            }
        }
        if is_source {
            let source = match Source::parse(child, asset) {
                Ok(s) => s,
                Err(e) => {
                    proof {
                        let k = count_named(element.children@.take(i as int), "source"@) as int;
                        assert(nth_named(element.children@.take(i + 1), "source"@, k)
                            == element.children@[i as int]);
                        lemma_count_monotone_pub(element.children@, "source"@, i + 1);
                        lemma_nth_named_extends(element.children@, "source"@, i + 1, k);
                        assert(element.children@.take(i + 1).take(i as int)
                            =~= element.children@.take(i as int));
                        assert(!spec_source_ok(nth_named(element.children@, "source"@, k), *asset));
                        if sources_all_ok(element.children@, *asset) {
                            assert(spec_source_ok(
                                nth_named(element.children@, "source"@, k),
                                *asset,
                            ));
                        }
                        assert(!sources_all_ok(element.children@, *asset));
                    }
                    return Err(e);
                },
            };
            let source_id = source.id.clone();
            let ghost entries_before = sources.entries@;
            match sources.insert(source_id.clone(), Arc::new(source)) {
                Ok(()) => {
                    proof {
                        assert(forall|k: int|
                            0 <= k < entries_before.len() ==> sources.entries@[k]
                                == entries_before[k]);
                        assert forall|j: int|
                            0 <= j < sources.entries@.len() implies #[trigger] source_entry_matches(
                            sources.entries@,
                            element.children@.take(i + 1),
                            j,
                            *asset,
                        ) by {
                            assert(element.children@.take(i + 1).take(i as int)
                                =~= element.children@.take(i as int));
                            if j < entries_before.len() {
                                assert(sources.entries@[j] == entries_before[j]);
                                assert(source_entry_matches(
                                    entries_before,
                                    element.children@.take(i as int),
                                    j,
                                    *asset,
                                ));
                                lemma_nth_named_extends(
                                    element.children@.take(i + 1),
                                    "source"@,
                                    i as int,
                                    j,
                                );
                            } else {
                                assert(count_named(element.children@.take(i as int), "source"@)
                                    == j);
                                assert(nth_named(element.children@.take(i + 1), "source"@, j)
                                    == element.children@[i as int]);
                            }
                        }
                    }
                },
                Err(()) => {
                    proof {
                        let k = count_named(element.children@.take(i as int), "source"@) as int;
                        assert(nth_named(element.children@.take(i + 1), "source"@, k)
                            == element.children@[i as int]);
                        lemma_count_monotone_pub(element.children@, "source"@, i + 1);
                        lemma_nth_named_extends(element.children@, "source"@, i + 1, k);
                        assert(element.children@.take(i + 1).take(i as int)
                            =~= element.children@.take(i as int));
                        assert(spec_source_id(element.children@, k) == source_id@);
                        lemma_assoc_some_exists(sources.entries@, source_id@);
                        let jj = choose|jj: int|
                            0 <= jj < sources.entries@.len() && (
                            #[trigger] sources.entries@[jj]).0@ == source_id@;
                        assert(source_entry_matches(
                            sources.entries@,
                            element.children@.take(i as int),
                            jj,
                            *asset,
                        ));
                        lemma_nth_named_extends(element.children@, "source"@, i as int, jj);
                        assert(spec_source_id(element.children@, jj) == source_id@);
                        assert(!source_ids_unique(element.children@));
                    }
                    return Err(
                        Error::DuplicateId { scope: ("source").to_owned(), id: source_id },
                    );
                },
            }
        }
        i = i + 1;
    }
    proof {
        assert(element.children@.take(n as int) =~= element.children@);
    }
    let base = sources.len();
    let ghost base_entries = sources.entries@;
    i = 0;
    proof {
        assert(element.children@.take(0int) =~= Seq::<Element>::empty());
    }
    while i < n
        invariant
            n == element.children@.len(),
            i <= n,
            sources.wf(),
            sources_wf(sources.entries@),
            base == count_named(element.children@, "source"@),
            base_entries.len() == base,
            sources.entries@.len() == base + count_named(
                element.children@.take(i as int),
                "vertices"@,
            ),
            forall|k: int| 0 <= k < base_entries.len() ==> sources.entries@[k] == base_entries[k],
            forall|j: int|
                0 <= j < base ==> #[trigger] source_entry_matches(
                    sources.entries@,
                    element.children@,
                    j,
                    *asset,
                ),
            forall|j: int|
                0 <= j < count_named(element.children@.take(i as int), "vertices"@)
                    ==> #[trigger] alias_entry_matches(
                    sources.entries@,
                    element.children@.take(i as int),
                    base as int,
                    j,
                ),
        decreases n - i,
    {
        proof {
            assert(element.children@.take(i + 1).drop_last() =~= element.children@.take(i as int));
        }
        let child = &element.children[i];
        let is_synonym = str_eq(child.name.as_str(), "vertices");
        if !is_synonym {
            proof {
                lemma_named_skip(element.children@, "vertices"@, i as int);
                assert forall|j: int|
                    0 <= j < count_named(element.children@.take(i + 1), "vertices"@)
                        implies #[trigger] alias_entry_matches(
                    sources.entries@,
                    element.children@.take(i + 1),
                    base as int,
                    j,
                ) by {
                    assert(alias_entry_matches(
                        sources.entries@,
                        element.children@.take(i as int),
                        base as int,
                        j,
                    ));
                }
            }
        }
        if is_synonym {
            let new_id = match child.get_attribute("id") {
                Ok(v) => v.clone(),
                Err(e) => {
                    proof {
                        let j = count_named(element.children@.take(i as int), "vertices"@) as int;
                        assert(nth_named(element.children@.take(i + 1), "vertices"@, j)
                            == element.children@[i as int]);
                        lemma_count_monotone_pub(element.children@, "vertices"@, i + 1);
                        lemma_nth_named_extends(element.children@, "vertices"@, i + 1, j);
                        assert(element.children@.take(i + 1).take(i as int)
                            =~= element.children@.take(i as int));
                        assert(!alias_shape_ok(element.children@, j));
                        assert(!alias_ok(element.children@, j));
                        if aliases_all_ok(element.children@) {
                            assert(alias_ok(element.children@, j));
                        }
                        assert(!aliases_all_ok(element.children@));
                    }
                    return Err(e);
                },
            };
            let input = match child.get_element("input") {
                Ok(c) => c,
                Err(e) => {
                    proof {
                        let j = count_named(element.children@.take(i as int), "vertices"@) as int;
                        assert(nth_named(element.children@.take(i + 1), "vertices"@, j)
                            == element.children@[i as int]);
                        lemma_count_monotone_pub(element.children@, "vertices"@, i + 1);
                        lemma_nth_named_extends(element.children@, "vertices"@, i + 1, j);
                        assert(element.children@.take(i + 1).take(i as int)
                            =~= element.children@.take(i as int));
                        assert(!alias_shape_ok(element.children@, j));
                        assert(!alias_ok(element.children@, j));
                        if aliases_all_ok(element.children@) {
                            assert(alias_ok(element.children@, j));
                        }
                        assert(!aliases_all_ok(element.children@));
                    }
                    return Err(e);
                },
            };
            let source_ref = match input.get_attribute("source") {
                Ok(v) => v,
                Err(e) => {
                    proof {
                        let j = count_named(element.children@.take(i as int), "vertices"@) as int;
                        assert(nth_named(element.children@.take(i + 1), "vertices"@, j)
                            == element.children@[i as int]);
                        lemma_count_monotone_pub(element.children@, "vertices"@, i + 1);
                        lemma_nth_named_extends(element.children@, "vertices"@, i + 1, j);
                        assert(element.children@.take(i + 1).take(i as int)
                            =~= element.children@.take(i as int));
                        assert(!alias_shape_ok(element.children@, j));
                        assert(!alias_ok(element.children@, j));
                        if aliases_all_ok(element.children@) {
                            assert(alias_ok(element.children@, j));
                        }
                        assert(!aliases_all_ok(element.children@));
                    }
                    return Err(e);
                },
            };
            let existing_id = crate::text::strip_hashes(source_ref.as_str());
            let source = match sources.get(existing_id.as_str()) {
                Some(s) => share(s),
                None => {
                    proof {
                        let j = count_named(element.children@.take(i as int), "vertices"@) as int;
                        assert(nth_named(element.children@.take(i + 1), "vertices"@, j)
                            == element.children@[i as int]);
                        lemma_count_monotone_pub(element.children@, "vertices"@, i + 1);
                        lemma_nth_named_extends(element.children@, "vertices"@, i + 1, j);
                        assert(element.children@.take(i + 1).take(i as int)
                            =~= element.children@.take(i as int));
                        assert(spec_alias_ref(element.children@, j) == existing_id@);
                        lemma_assoc_in_range(sources.entries@, existing_id@);
                        assert forall|k: int|
                            0 <= k < count_named(element.children@, "source"@)
                                implies #[trigger] spec_source_id(element.children@, k)
                            != existing_id@ by {
                            assert(source_entry_matches(
                                sources.entries@,
                                element.children@,
                                k,
                                *asset,
                            ));
                            assert(sources.entries@[k].0@ != existing_id@);
                        }
                        assert forall|k: int|
                            0 <= k < j implies #[trigger] spec_alias_id(element.children@, k)
                            != existing_id@ by {
                            assert(alias_entry_matches(
                                sources.entries@,
                                element.children@.take(i as int),
                                base as int,
                                k,
                            ));
                            lemma_nth_named_extends(element.children@, "vertices"@, i as int, k);
                            assert(sources.entries@[base + k].0@ != existing_id@);
                        }
                        assert(!key_defined_before(element.children@, j, existing_id@));
                        assert(j < count_named(element.children@, "vertices"@));
                        assert(!alias_ok(element.children@, j));
                        if aliases_all_ok(element.children@) {
                            assert(alias_ok(element.children@, j));
                        }
                        assert(!aliases_all_ok(element.children@));
                    }
                    return Err(
                        Error::UnresolvedReference {
                            scope: ("source").to_owned(),
                            id: existing_id,
                        },
                    );
                },
            };
            proof {
                lemma_assoc_some_exists(sources.entries@, existing_id@);
                assert((*source).wf());
            }
            let ghost entries_before = sources.entries@;
            let ghost alias_count = count_named(element.children@.take(i as int), "vertices"@);
            match sources.insert(new_id.clone(), source) {
                Ok(()) => {
                    proof {
                        assert(forall|k: int|
                            0 <= k < entries_before.len() ==> sources.entries@[k]
                                == entries_before[k]);
                        assert forall|j: int| 0 <= j < base implies #[trigger] source_entry_matches(
                            sources.entries@,
                            element.children@,
                            j,
                            *asset,
                        ) by {
                            assert(sources.entries@[j] == entries_before[j]);
                            assert(source_entry_matches(
                                entries_before,
                                element.children@,
                                j,
                                *asset,
                            ));
                        }
                        assert forall|j: int|
                            0 <= j < count_named(element.children@.take(i + 1), "vertices"@)
                                implies #[trigger] alias_entry_matches(
                            sources.entries@,
                            element.children@.take(i + 1),
                            base as int,
                            j,
                        ) by {
                            assert(element.children@.take(i + 1).take(i as int)
                                =~= element.children@.take(i as int));
                            if j < alias_count {
                                assert(sources.entries@[base + j] == entries_before[base + j]);
                                assert(alias_entry_matches(
                                    entries_before,
                                    element.children@.take(i as int),
                                    base as int,
                                    j,
                                ));
                                lemma_nth_named_extends(
                                    element.children@.take(i + 1),
                                    "vertices"@,
                                    i as int,
                                    j,
                                );
                                assert(sources.entries@.take(base + j) =~= entries_before.take(
                                    base + j,
                                ));
                            } else {
                                assert(count_named(element.children@.take(i as int), "vertices"@)
                                    == j);
                                assert(nth_named(element.children@.take(i + 1), "vertices"@, j)
                                    == element.children@[i as int]);
                                assert(sources.entries@.take(base + j) =~= entries_before);
                            }
                        }
                    }
                },
                Err(()) => {
                    proof {
                        let j = count_named(element.children@.take(i as int), "vertices"@) as int;
                        assert(nth_named(element.children@.take(i + 1), "vertices"@, j)
                            == element.children@[i as int]);
                        lemma_count_monotone_pub(element.children@, "vertices"@, i + 1);
                        lemma_nth_named_extends(element.children@, "vertices"@, i + 1, j);
                        assert(element.children@.take(i + 1).take(i as int)
                            =~= element.children@.take(i as int));
                        assert(spec_alias_id(element.children@, j) == new_id@);
                        lemma_assoc_some_exists(sources.entries@, new_id@);
                        let idx = choose|idx: int|
                            0 <= idx < sources.entries@.len() && (
                            #[trigger] sources.entries@[idx]).0@ == new_id@;
                        if idx < base {
                            assert(source_entry_matches(
                                sources.entries@,
                                element.children@,
                                idx,
                                *asset,
                            ));
                            assert(spec_source_id(element.children@, idx) == new_id@);
                        } else {
                            let kk = idx - base;
                            assert(alias_entry_matches(
                                sources.entries@,
                                element.children@.take(i as int),
                                base as int,
                                kk,
                            ));
                            lemma_nth_named_extends(element.children@, "vertices"@, i as int, kk);
                            assert(spec_alias_id(element.children@, kk) == new_id@);
                        }
                        assert(key_defined_before(element.children@, j, new_id@));
                        assert(j < count_named(element.children@, "vertices"@));
                        assert(!alias_ok(element.children@, j));
                        if aliases_all_ok(element.children@) {
                            assert(alias_ok(element.children@, j));
                        }
                        assert(!aliases_all_ok(element.children@));
                    }
                    return Err(
                        Error::DuplicateId { scope: ("source synonym").to_owned(), id: new_id },
                    );
                },
            }
        }
        i = i + 1;
    }
    proof {
        assert(element.children@.take(n as int) =~= element.children@);
    }
    Ok(sources)
}

/// The ordered input streams an element declares: for each `input` child,
/// its semantic and the source its reference resolves to -- refused unless
/// each input's declared offset is exactly its position, so the offsets
/// form the contiguous sequence `0 .. n-1`.
pub open spec fn spec_select_sources(
    children: Seq<Element>,
    sources: Seq<(String, Arc<Source>)>,
) -> Option<Seq<(String, Arc<Source>)>>
    decreases children.len(),
{
    if children.len() == 0 {
        Some(Seq::empty())
    } else {
        match spec_select_sources(children.drop_last(), sources) {
            None => None,
            Some(acc) => {
                let e = children.last();
                if e.name@ != "input"@ {
                    Some(acc)
                } else {
                    match spec_attr(e.attributes@, "semantic"@) {
                        None => None,
                        Some(semantic) => match spec_attr(e.attributes@, "source"@) {
                            None => None,
                            Some(src_ref) => match spec_attr(e.attributes@, "offset"@) {
                                None => None,
                                Some(off_tok) => match spec_parse_usize(off_tok@) {
                                    None => None,
                                    Some(off) => if off != acc.len() {
                                        None
                                    } else {
                                        match assoc_get(
                                            sources,
                                            crate::text::spec_strip_hashes(src_ref@),
                                        ) {
                                            None => None,
                                            Some(source) => Some(acc.push((semantic, source))),
                                        }
                                    },
                                },
                            },
                        },
                    }
                }
            },
        }
    }
}

proof fn lemma_select_none_extends(
    children: Seq<Element>,
    sources: Seq<(String, Arc<Source>)>,
    j: int,
)
    requires
        0 <= j <= children.len(),
        spec_select_sources(children.take(j), sources) is None,
    ensures
        spec_select_sources(children, sources) is None,
    decreases children.len() - j,
{
    if j < children.len() {
        assert(children.take(j + 1).drop_last() =~= children.take(j));
        lemma_select_none_extends(children, sources, j + 1);
    } else {
        assert(children.take(j) =~= children);
    }
}

/// Selects the input streams of `element` against `sources`, in offset
/// order: it succeeds exactly when every input resolves and the declared
/// offsets are contiguous from zero, and then returns exactly the streams
/// in that order.
pub fn select_sources(element: &Element, sources: &Registry<Arc<Source>>) -> (r: Result<
    Vec<(String, Arc<Source>)>,
    Error,
>)
    ensures
        match r {
            Ok(list) => spec_select_sources(element.children@, sources.entries@) == Some(list@),
            Err(e) => spec_select_sources(element.children@, sources.entries@) is None && (match e {
                Error::MissingAttribute { attribute_name, .. } => attribute_name@ == "semantic"@
                    || attribute_name@ == "source"@ || attribute_name@ == "offset"@,
                Error::NumericParse { kind, field, .. } => kind == NumericKind::Unsigned && field@
                    == "offset"@,
                Error::StructuralInvariant { .. } => true,
                Error::UnresolvedReference { scope, id } => scope@ == "source"@ && assoc_get(
                    sources.entries@,
                    id@,
                ) is None,
                _ => false,
            }),
        },
{
    let mut sources_list: Vec<(String, Arc<Source>)> = Vec::new();
    let n = element.children.len();
    let mut i: usize = 0;
    proof {
        assert(element.children@.take(0int) =~= Seq::<Element>::empty());
    }
    while i < n
        invariant
            n == element.children@.len(),
            i <= n,
            spec_select_sources(element.children@.take(i as int), sources.entries@) == Some(
                sources_list@,
            ),
        decreases n - i,
    {
        proof {
            assert(element.children@.take(i + 1).drop_last() =~= element.children@.take(i as int));
        }
        let child = &element.children[i];
        if str_eq(child.name.as_str(), "input") {
            let semantic = match child.get_attribute("semantic") {
                Ok(v) => v.clone(),
                Err(e) => {
                    proof {
                        lemma_select_none_extends(element.children@, sources.entries@, i + 1);
                    }
                    return Err(e);
                },
            };
            let source_ref = match child.get_attribute("source") {
                Ok(v) => v,
                Err(e) => {
                    proof {
                        lemma_select_none_extends(element.children@, sources.entries@, i + 1);
                    }
                    return Err(e);
                },
            };
            let offset = match child.parse_attribute_as_usize("offset") {
                Ok(v) => v,
                Err(e) => {
                    proof {
                        lemma_select_none_extends(element.children@, sources.entries@, i + 1);
                    }
                    return Err(e);
                },
            };
            if offset != sources_list.len() {
                proof {
                    lemma_select_none_extends(element.children@, sources.entries@, i + 1);
                }
                return Err(
                    Error::StructuralInvariant {
                        description: ("the input offsets are not contiguous from zero").to_owned(),
                    },
                );
            }
            let source_id = crate::text::strip_hashes(source_ref.as_str());
            let source = match sources.get(source_id.as_str()) {
                Some(s) => share(s),
                None => {
                    proof {
                        lemma_select_none_extends(element.children@, sources.entries@, i + 1);
                    }
                    return Err(
                        Error::UnresolvedReference {
                            scope: ("source").to_owned(),
                            id: source_id,
                        },
                    );
                },
            };
            sources_list.push((semantic, source));
        }
        i = i + 1;
    }
    proof {
        assert(element.children@.take(n as int) =~= element.children@);
    }
    Ok(sources_list)
}


/// Offset contiguity: when the input streams of an element select
/// successfully, there are exactly as many streams as `input` children,
/// and the `k`-th `input` child's declared offset is exactly the number of
/// `input` children before it -- the declared offsets are the contiguous
/// sequence from zero, with no gap and no duplicate.
pub proof fn lemma_select_offsets_contiguous(
    children: Seq<Element>,
    sources: Seq<(String, Arc<Source>)>,
    list: Seq<(String, Arc<Source>)>,
)
    requires
        spec_select_sources(children, sources) == Some(list),
    ensures
        list.len() == count_named(children, "input"@),
        forall|k: int|
            0 <= k < children.len() && (#[trigger] children[k]).name@ == "input"@ ==> (spec_attr(
                children[k].attributes@,
                "offset"@,
            ) matches Some(t) && spec_parse_usize(t@) == Some(
                count_named(children.take(k), "input"@) as usize,
            )),
    decreases children.len(),
{
    if children.len() > 0 {
        let e = children.last();
        let prior = children.drop_last();
        assert(prior =~= children.take(children.len() - 1));
        if e.name@ != "input"@ {
            lemma_select_offsets_contiguous(prior, sources, list);
        } else {
            let acc = spec_select_sources(prior, sources)->0;
            lemma_select_offsets_contiguous(prior, sources, acc);
        }
        assert forall|k: int| 0 <= k < children.len() - 1 implies children.take(k)
            =~= prior.take(k) by {}
        assert(forall|k: int|
            0 <= k < children.len() - 1 ==> children[k] == prior[k]);
    }
}

/// Stream naming: when the input streams of an element select
/// successfully, there is one stream per `input` child, in declaration
/// order, and stream `k` carries the `k`-th input's declared semantic.
pub proof fn lemma_select_semantics(
    children: Seq<Element>,
    sources: Seq<(String, Arc<Source>)>,
    list: Seq<(String, Arc<Source>)>,
)
    requires
        spec_select_sources(children, sources) == Some(list),
    ensures
        list.len() == count_named(children, "input"@),
        forall|k: int| #![trigger list[k]]
            0 <= k < list.len() ==> spec_attr(
                nth_named(children, "input"@, k).attributes@,
                "semantic"@,
            ) == Some(list[k].0),
    decreases children.len(),
{
    if children.len() > 0 {
        let e = children.last();
        let prior = children.drop_last();
        assert(prior =~= children.take(children.len() - 1));
        assert forall|k: int|
            0 <= k < count_named(prior, "input"@) implies nth_named(children, "input"@, k)
            == nth_named(prior, "input"@, k) by {}
        if e.name@ != "input"@ {
            lemma_select_semantics(prior, sources, list);
            assert(list.len() == count_named(prior, "input"@));
            assert forall|k: int| #![trigger list[k]]
                0 <= k < list.len() implies spec_attr(
                nth_named(children, "input"@, k).attributes@,
                "semantic"@,
            ) == Some(list[k].0) by {
                assert(nth_named(children, "input"@, k) == nth_named(prior, "input"@, k));
                assert(spec_attr(nth_named(prior, "input"@, k).attributes@, "semantic"@) == Some(
                    list[k].0,
                ));
            }
        } else {
            let acc = spec_select_sources(prior, sources)->0;
            lemma_select_semantics(prior, sources, acc);
            let last_at = count_named(prior, "input"@) as int;
            assert(nth_named(children, "input"@, last_at) == e);
            let semantic = spec_attr(e.attributes@, "semantic"@)->0;
            let src_ref = spec_attr(e.attributes@, "source"@)->0;
            let source = assoc_get(sources, crate::text::spec_strip_hashes(src_ref@))->0;
            assert(list == acc.push((semantic, source)));
            assert forall|k: int| #![trigger list[k]]
                0 <= k < list.len() implies spec_attr(
                nth_named(children, "input"@, k).attributes@,
                "semantic"@,
            ) == Some(list[k].0) by {
                if k < acc.len() {
                    assert(acc.push((semantic, source))[k] == acc[k]);
                    assert(list[k] == acc[k]);
                    assert(nth_named(children, "input"@, k) == nth_named(prior, "input"@, k));
                    assert(spec_attr(nth_named(prior, "input"@, k).attributes@, "semantic"@)
                        == Some(acc[k].0));
                } else {
                    assert(list[k] == (semantic, source));
                    assert(nth_named(children, "input"@, k) == e);
                }
            }
        }
    }
}

/// Cardinality: a source parses only when the accessor's declared count
/// times its declared stride is exactly the raw array's declared length;
/// an off-by-one stride or count is rejected, never truncated.
pub proof fn lemma_source_cardinality(source: Element, asset: Asset)
    requires
        spec_source_ok(source, asset),
    ensures
        spec_source_count(source)->0 * spec_source_stride(source)->0 == (spec_array_of(
            source,
        )->0).1,
        spec_source_stride(source)->0 == spec_stride_sum(
            spec_source_params(source, asset.up_axis)->0,
        ),
{
}

/// Relies on `Arc::clone`: the returned handle points to the same value.
#[verifier::external_body]
pub(crate) fn share<T>(a: &Arc<T>) -> (r: Arc<T>)
    ensures
        r == *a,
{
    Arc::clone(a)
}

} // verus!
