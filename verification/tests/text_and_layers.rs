//! Tokenizing, numeric parsing, and the attribute registry (sources).

use collada::array::ArrayIter;
use collada::asset::{Asset, Axis, Editor, Unit};
use collada::error::Error;
use collada::float::FloatBits;
use collada::source::{read_sources, select_sources, Source, SourceLayer};
use collada::text;
use collada::xml::Element;

fn fb(v: f32) -> FloatBits {
    FloatBits { bits: v.to_bits() }
}

fn el(name: &str, attrs: &[(&str, &str)], children: Vec<Element>, text: Option<&str>) -> Element {
    Element {
        name: name.to_string(),
        attributes: attrs.iter().map(|(k, v)| (k.to_string(), v.to_string())).collect(),
        children,
        text: text.map(|t| t.to_string()),
    }
}

fn asset_y_up() -> Asset {
    Asset {
        created: "now".to_string(),
        modified: "now".to_string(),
        unit: Unit { name: "meter".to_string(), ratio: fb(1.0) },
        up_axis: Axis::Y,
        editor: Editor::Unknown,
    }
}

fn asset_z_up_blender() -> Asset {
    Asset {
        created: "now".to_string(),
        modified: "now".to_string(),
        unit: Unit { name: "meter".to_string(), ratio: fb(1.0) },
        up_axis: Axis::Z,
        editor: Editor::Blender,
    }
}

fn source_element(id: &str, count: &str, stride: &str, data: &str, array_count: &str) -> Element {
    let params = vec![
        el("param", &[("name", "X"), ("type", "float")], vec![], None),
        el("param", &[("name", "Y"), ("type", "float")], vec![], None),
        el("param", &[("name", "Z"), ("type", "float")], vec![], None),
    ];
    let accessor = el(
        "accessor",
        &[("count", count), ("stride", stride)],
        params,
        None,
    );
    el(
        "source",
        &[("id", id)],
        vec![
            el("float_array", &[("count", array_count)], vec![], Some(data)),
            el("technique_common", &[], vec![accessor], None),
        ],
        None,
    )
}

#[test]
fn split_tokens_basic() {
    let toks = text::split_tokens("  1 2   3 ");
    assert_eq!(toks, vec!["1".to_string(), "2".to_string(), "3".to_string()]);
    assert!(text::split_tokens("").is_empty());
    assert!(text::split_tokens("   ").is_empty());
}

#[test]
fn parse_unsigned_tokens() {
    assert_eq!(text::parse_usize("123"), Some(123));
    assert_eq!(text::parse_usize("+7"), Some(7));
    assert_eq!(text::parse_usize(""), None);
    assert_eq!(text::parse_usize("12a"), None);
    assert_eq!(text::parse_usize("-3"), None);
    assert_eq!(text::parse_usize("99999999999999999999999999"), None);
}

#[test]
fn parse_signed_tokens() {
    assert_eq!(text::parse_i32("-5"), Some(-5));
    assert_eq!(text::parse_i32("+5"), Some(5));
    assert_eq!(text::parse_i32("-2147483648"), Some(i32::MIN));
    assert_eq!(text::parse_i32("2147483648"), None);
    assert_eq!(text::parse_i32("-"), None);
}

#[test]
fn string_helpers() {
    assert_eq!(text::strip_hashes("#mesh-1"), "mesh-1".to_string());
    assert_eq!(text::strip_hashes("##x"), "x".to_string());
    assert_eq!(text::strip_hashes("plain"), "plain".to_string());
    assert!(text::starts_with("Blender 2.8", "Blender"));
    assert!(!text::starts_with("blender", "Blender"));
    assert!(text::ends_with("float_array", "_array"));
    assert!(!text::ends_with("array", "_array"));
    assert_eq!(text::find_char("a/b", '/'), Some(1));
    assert_eq!(text::find_char("ab", '/'), None);
    assert_eq!(text::find_sub("skel_bone_x", "_bone"), Some(4));
    assert_eq!(text::find_sub("skel", "_bone"), None);
    assert_eq!(text::decimal_string(0), "0".to_string());
    assert_eq!(text::decimal_string(907), "907".to_string());
}

#[test]
fn array_iter_reads_in_order() {
    let data = "3 -4 x".to_string();
    let mut iter = ArrayIter::new(&data, 3, "test");
    assert_eq!(iter.read_usize().unwrap(), 3);
    assert_eq!(iter.read_i32().unwrap(), -4);
    assert_eq!(iter.read_str().unwrap(), "x".to_string());
    assert!(matches!(
        iter.read_str(),
        Err(Error::UnexpectedEndOfData { .. })
    ));
}

#[test]
fn array_iter_rejects_bad_tokens() {
    let data = "1.5".to_string();
    let mut iter = ArrayIter::new(&data, 1, "test");
    assert!(matches!(iter.read_usize(), Err(Error::NumericParse { .. })));
}

// A source with count=4, stride=3, params X,Y,Z over twelve floats yields
// three layers of length four, column by column.
#[test]
fn source_deinterleaves_layers() {
    let source = source_element("s", "4", "3", "1 2 3 4 5 6 7 8 9 10 11 12", "12");
    let parsed = Source::parse(&source, &asset_y_up()).unwrap();
    assert_eq!(parsed.id, "s".to_string());
    assert_eq!(parsed.vertex_format, "X:f32,Y:f32,Z:f32".to_string());
    assert_eq!(parsed.short_vertex_format, "X,Y,Z".to_string());
    let expect = |tag: &str, vals: [f32; 4]| {
        match parsed.layers.get(tag) {
            Some(SourceLayer::F32(v)) => {
                assert_eq!(v.len(), 4);
                for (i, want) in vals.iter().enumerate() {
                    assert_eq!(f32::from_bits(v[i].bits), *want);
                }
            },
            _ => panic!("expected a float layer"),
        }
    };
    expect("X", [1.0, 4.0, 7.0, 10.0]);
    expect("Y", [2.0, 5.0, 8.0, 11.0]);
    expect("Z", [3.0, 6.0, 9.0, 12.0]);
}

// Under the Z-up Blender convention the Y and Z parameter names swap
// roles, and the layer standing for the X axis is sign-inverted.
#[test]
fn source_blender_inverts_x_layer() {
    let source = source_element("s", "1", "3", "1 2 3", "3");
    let parsed = Source::parse(&source, &asset_z_up_blender()).unwrap();
    match parsed.layers.get("X") {
        Some(SourceLayer::F32(v)) => {
            assert_eq!(f32::from_bits(v[0].bits), -1.0);
        },
        _ => panic!("expected a float layer"),
    }
    match parsed.layers.get("Z") {
        Some(SourceLayer::F32(v)) => {
            assert_eq!(f32::from_bits(v[0].bits), 2.0);
        },
        _ => panic!("expected a float layer"),
    }
    match parsed.layers.get("Y") {
        Some(SourceLayer::F32(v)) => {
            assert_eq!(f32::from_bits(v[0].bits), 3.0);
        },
        _ => panic!("expected a float layer"),
    }
}

// count * stride must equal the raw array length; an off-by-one count is
// rejected, never truncated.
#[test]
fn source_rejects_cardinality_mismatch() {
    let source = source_element("s", "5", "3", "1 2 3 4 5 6 7 8 9 10 11 12", "12");
    assert!(matches!(
        Source::parse(&source, &asset_y_up()),
        Err(Error::CardinalityMismatch { .. })
    ));
    let source = source_element("s", "4", "4", "1 2 3 4 5 6 7 8 9 10 11 12", "12");
    assert!(matches!(
        Source::parse(&source, &asset_y_up()),
        Err(Error::CardinalityMismatch { .. })
    ));
}

#[test]
fn source_rejects_short_data_block() {
    let source = source_element("s", "4", "3", "1 2 3 4 5 6 7 8 9 10 11 12", "12");
    let mut short = source;
    short.children[0].text = Some("1 2 3".to_string());
    assert!(matches!(
        Source::parse(&short, &asset_y_up()),
        Err(Error::UnexpectedEndOfData { .. })
    ));
}

#[test]
fn source_rejects_bad_float_token() {
    let source = source_element("s", "1", "3", "1 oops 3", "3");
    assert!(matches!(
        Source::parse(&source, &asset_y_up()),
        Err(Error::NumericParse { .. })
    ));
}

#[test]
fn source_requires_id_and_params() {
    let mut source = source_element("s", "1", "3", "1 2 3", "3");
    source.attributes.clear();
    assert!(matches!(
        Source::parse(&source, &asset_y_up()),
        Err(Error::MissingAttribute { .. })
    ));
    let mut empty = source_element("s", "0", "0", "", "0");
    empty.children[1].children[0].children.clear();
    assert!(matches!(
        Source::parse(&empty, &asset_y_up()),
        Err(Error::StructuralInvariant { .. })
    ));
}

// A `vertices`-style synonym republishes an existing source under its own
// ID; a synonym for an unknown source is an unresolved reference.
#[test]
fn source_synonyms_resolve() {
    let library = el(
        "mesh",
        &[],
        vec![
            source_element("s", "1", "3", "1 2 3", "3"),
            el(
                "vertices",
                &[("id", "v")],
                vec![el("input", &[("semantic", "POSITION"), ("source", "#s")], vec![], None)],
                None,
            ),
        ],
        None,
    );
    let sources = read_sources(&library, &asset_y_up()).unwrap();
    assert!(sources.get("s").is_some());
    assert!(sources.get("v").is_some());
    assert_eq!(sources.get("v").unwrap().id, "s".to_string());

    let mut broken = library;
    broken.children[1].children[0].attributes[1].1 = "#missing".to_string();
    assert!(matches!(
        read_sources(&broken, &asset_y_up()),
        Err(Error::UnresolvedReference { .. })
    ));
}

// Offset contiguity: declared offsets must be exactly 0..n-1; {0, 2} is a
// structural error, never a silent reorder.
#[test]
fn select_sources_requires_contiguous_offsets() {
    let library = el(
        "mesh",
        &[],
        vec![
            source_element("a", "1", "3", "1 2 3", "3"),
            source_element("b", "1", "3", "4 5 6", "3"),
        ],
        None,
    );
    let sources = read_sources(&library, &asset_y_up()).unwrap();
    let good = el(
        "polylist",
        &[],
        vec![
            el("input", &[("semantic", "VERTEX"), ("source", "#a"), ("offset", "0")], vec![], None),
            el("input", &[("semantic", "NORMAL"), ("source", "#b"), ("offset", "1")], vec![], None),
        ],
        None,
    );
    let selected = select_sources(&good, &sources).unwrap();
    assert_eq!(selected.len(), 2);
    assert_eq!(selected[0].0, "VERTEX".to_string());
    assert_eq!(selected[1].1.id, "b".to_string());

    let gap = el(
        "polylist",
        &[],
        vec![
            el("input", &[("semantic", "VERTEX"), ("source", "#a"), ("offset", "0")], vec![], None),
            el("input", &[("semantic", "NORMAL"), ("source", "#b"), ("offset", "2")], vec![], None),
        ],
        None,
    );
    assert!(matches!(
        select_sources(&gap, &sources),
        Err(Error::StructuralInvariant { .. })
    ));
}

// Determinism at the source level: parsing the same block twice yields the
// same IDs, formats and layer contents.
#[test]
fn source_parse_is_deterministic() {
    let source = source_element("s", "4", "3", "1 2 3 4 5 6 7 8 9 10 11 12", "12");
    let a = Source::parse(&source, &asset_y_up()).unwrap();
    let b = Source::parse(&source, &asset_y_up()).unwrap();
    assert_eq!(a.id, b.id);
    assert_eq!(a.vertex_format, b.vertex_format);
    assert_eq!(a.short_vertex_format, b.short_vertex_format);
    for tag in ["X", "Y", "Z"] {
        match (a.layers.get(tag), b.layers.get(tag)) {
            (Some(SourceLayer::F32(va)), Some(SourceLayer::F32(vb))) => {
                assert_eq!(va.len(), vb.len());
                for i in 0..va.len() {
                    assert_eq!(va[i].bits, vb[i].bits);
                }
            },
            _ => panic!("expected float layers"),
        }
    }
}

// Exactly one child may carry an expected name: zero and several are both
// missing-element errors, the latter flagged ambiguous.
#[test]
fn element_lookup_is_exact() {
    let doubled = el(
        "source",
        &[("id", "s")],
        vec![
            el("technique_common", &[], vec![], None),
            el("technique_common", &[], vec![], None),
        ],
        None,
    );
    match Source::parse(&doubled, &asset_y_up()) {
        Err(Error::MissingElement { ambiguous, .. }) => assert!(ambiguous),
        other => panic!("expected an ambiguous missing element, got {:?}", other.err()),
    }
    let childless = el("source", &[("id", "s")], vec![], None);
    match Source::parse(&childless, &asset_y_up()) {
        Err(Error::MissingElement { ambiguous, child_name, .. }) => {
            assert!(!ambiguous);
            assert_eq!(child_name, "technique_common".to_string());
        },
        other => panic!("expected a missing element, got {:?}", other.err()),
    }
}

#[test]
fn data_block_without_text_fails() {
    let mut source = source_element("s", "1", "3", "1 2 3", "3");
    source.children[0].text = None;
    assert!(matches!(
        Source::parse(&source, &asset_y_up()),
        Err(Error::MissingText { .. })
    ));
}

#[test]
fn errors_describe_themselves() {
    let e = Error::DuplicateId { scope: "source".to_string(), id: "s1".to_string() };
    assert_eq!(e.describe(), "duplicate source \"s1\"".to_string());
    let e = Error::CardinalityMismatch {
        description: "counts disagree".to_string(),
        expected: 12,
        found: 9,
    };
    assert_eq!(e.describe(), "counts disagree (expected 12, found 9)".to_string());
    let e = Error::NumericParse {
        kind: collada::NumericKind::Unsigned,
        field: "count".to_string(),
        token: "x7".to_string(),
    };
    assert_eq!(e.describe(), "cannot parse \"x7\" of count as a unsigned integer".to_string());
}
