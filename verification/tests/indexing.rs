//! The vertex index engine: count tables and de-interleaved index streams.

use collada::asset::{Asset, Axis, Editor, Unit};
use collada::error::Error;
use collada::float::FloatBits;
use collada::mesh::Mesh;
use collada::registry::Registry;
use collada::source::read_sources;
use collada::xml::Element;

fn fb(v: f32) -> FloatBits {
    FloatBits { bits: v.to_bits() }
}

fn el(name: &str, attrs: &[(&str, &str)], children: Vec<Element>, text: Option<&str>) -> Element {
    Element {
        name: name.to_string(),
        attributes: attrs.iter().map(|(k, v)| (k.to_string(), v.to_string())).collect(),
        children,
        text: text.map(|t| t.to_string()),
    }
}

fn asset_y_up() -> Asset {
    Asset {
        created: "now".to_string(),
        modified: "now".to_string(),
        unit: Unit { name: "meter".to_string(), ratio: fb(1.0) },
        up_axis: Axis::Y,
        editor: Editor::Unknown,
    }
}

fn source_element(id: &str) -> Element {
    let accessor = el(
        "accessor",
        &[("count", "3"), ("stride", "1")],
        vec![el("param", &[("name", "WEIGHT"), ("type", "float")], vec![], None)],
        None,
    );
    el(
        "source",
        &[("id", id)],
        vec![
            el("float_array", &[("count", "3")], vec![], Some("0.5 0.25 0.25")),
            el("technique_common", &[], vec![accessor], None),
        ],
        None,
    )
}

fn two_stream_polylist(count: &str, vcount: &str, p: &str) -> Element {
    el(
        "polylist",
        &[("count", count)],
        vec![
            el("input", &[("semantic", "JOINT"), ("source", "#a"), ("offset", "0")], vec![], None),
            el("input", &[("semantic", "WEIGHT"), ("source", "#b"), ("offset", "1")], vec![], None),
            el("vcount", &[], vec![], Some(vcount)),
            el("p", &[], vec![], Some(p)),
        ],
        None,
    )
}

fn selected_sources() -> Vec<(String, std::sync::Arc<collada::source::Source>)> {
    let library = el("mesh", &[], vec![source_element("a"), source_element("b")], None);
    let sources = read_sources(&library, &asset_y_up()).unwrap();
    let polylist = two_stream_polylist("3", "2 1 3", "");
    collada::source::select_sources(&polylist, &sources).unwrap()
}

// A per-element count list [2, 1, 3] yields the offset table
// [(0,2), (2,1), (3,3)] and a flattened total of six.
#[test]
fn polygon_table_prefix_sums() {
    let polylist = two_stream_polylist("3", "2 1 3", "");
    let (polygons, total) = Mesh::read_polygons(&polylist).unwrap();
    assert_eq!(total, 6);
    assert_eq!(polygons.len(), 3);
    let expected = [(0, 2), (2, 1), (3, 3)];
    for (i, (first, count)) in expected.iter().enumerate() {
        assert_eq!(polygons[i].first_vertex_index, *first);
        assert_eq!(polygons[i].vertices_count, *count);
    }
}

// A flattened buffer of twelve indices for two streams de-interleaves into
// two arrays of six: stream j takes the tokens at positions i*2 + j.
#[test]
fn streams_deinterleave() {
    let sources = selected_sources();
    let polylist = two_stream_polylist("3", "2 1 3", "0 10 1 11 2 12 3 13 4 14 5 15");
    let indices = Mesh::read_vertex_indices(&polylist, 6, &sources).unwrap();
    let joint = indices.get("JOINT").unwrap();
    let weight = indices.get("WEIGHT").unwrap();
    assert_eq!(joint.indices, vec![0, 1, 2, 3, 4, 5]);
    assert_eq!(weight.indices, vec![10, 11, 12, 13, 14, 15]);
    assert_eq!(joint.source.id, "a".to_string());
    assert_eq!(weight.source.id, "b".to_string());
}

#[test]
fn streams_reject_short_buffer() {
    let sources = selected_sources();
    let polylist = two_stream_polylist("3", "2 1 3", "0 10 1 11");
    assert!(matches!(
        Mesh::read_vertex_indices(&polylist, 6, &sources),
        Err(Error::UnexpectedEndOfData { .. })
    ));
}

#[test]
fn streams_reject_bad_index_token() {
    let sources = selected_sources();
    let polylist = two_stream_polylist("3", "2 1 3", "0 10 1 11 2 12 3 13 4 14 5 x");
    assert!(matches!(
        Mesh::read_vertex_indices(&polylist, 6, &sources),
        Err(Error::NumericParse { .. })
    ));
}

#[test]
fn polygon_table_rejects_bad_count() {
    let polylist = two_stream_polylist("3", "2 1", "");
    assert!(matches!(
        Mesh::read_polygons(&polylist),
        Err(Error::UnexpectedEndOfData { .. })
    ));
}

// Inserting two entries under one ID in one registry scope fails with a
// duplicate; the same ID in two different scopes is fine.
#[test]
fn registry_scopes_are_disjoint() {
    let mut geometries: Registry<u32> = Registry::new();
    let mut cameras: Registry<u32> = Registry::new();
    assert!(geometries.insert("thing".to_string(), 1).is_ok());
    assert!(geometries.insert("thing".to_string(), 2).is_err());
    assert!(cameras.insert("thing".to_string(), 3).is_ok());
    assert_eq!(geometries.get("thing"), Some(&1));
    assert_eq!(cameras.get("thing"), Some(&3));
    assert_eq!(geometries.get("other"), None);
}

#[test]
fn mesh_vertex_format_signature() {
    let sources = selected_sources();
    let polylist = two_stream_polylist("3", "2 1 3", "");
    let (short, long) = Mesh::generate_vertex_format(&polylist, &sources).unwrap();
    assert_eq!(long, "JOINT:&(weight:f32) WEIGHT:&(weight:f32)".to_string());
    assert_eq!(short, "&(weight) &(weight)".to_string());
}
