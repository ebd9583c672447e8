//! Skins and controllers: the weight-list index engine, the per-joint
//! sources with name and matrix layers, and controller instancing.

use collada::controller::Controller;
use collada::document::Document;
use collada::error::Error;
use collada::source::SourceLayer;
use collada::xml::Element;

fn el(name: &str, attrs: &[(&str, &str)], children: Vec<Element>, text: Option<&str>) -> Element {
    Element {
        name: name.to_string(),
        attributes: attrs.iter().map(|(k, v)| (k.to_string(), v.to_string())).collect(),
        children,
        text: text.map(|t| t.to_string()),
    }
}

fn asset_block() -> Element {
    el(
        "asset",
        &[],
        vec![
            el("created", &[], vec![], Some("2020-01-01")),
            el("modified", &[], vec![], Some("2020-01-02")),
            el("unit", &[("name", "meter"), ("meter", "1.0")], vec![], None),
            el("up_axis", &[], vec![], Some("Y_UP")),
            el(
                "contributor",
                &[],
                vec![el("authoring_tool", &[], vec![], Some("handmade"))],
                None,
            ),
        ],
        None,
    )
}

fn position_source() -> Element {
    let accessor = el(
        "accessor",
        &[("count", "3"), ("stride", "3")],
        vec![
            el("param", &[("name", "X"), ("type", "float")], vec![], None),
            el("param", &[("name", "Y"), ("type", "float")], vec![], None),
            el("param", &[("name", "Z"), ("type", "float")], vec![], None),
        ],
        None,
    );
    el(
        "source",
        &[("id", "positions")],
        vec![
            el("float_array", &[("count", "9")], vec![], Some("0 0 0 1 0 0 0 1 0")),
            el("technique_common", &[], vec![accessor], None),
        ],
        None,
    )
}

fn geometry_block() -> Element {
    let polylist = el(
        "polylist",
        &[("count", "1")],
        vec![
            el(
                "input",
                &[("semantic", "VERTEX"), ("source", "#verts"), ("offset", "0")],
                vec![],
                None,
            ),
            el("vcount", &[], vec![], Some("3")),
            el("p", &[], vec![], Some("0 1 2")),
        ],
        None,
    );
    let mesh = el(
        "mesh",
        &[],
        vec![
            position_source(),
            el(
                "vertices",
                &[("id", "verts")],
                vec![el(
                    "input",
                    &[("semantic", "POSITION"), ("source", "#positions")],
                    vec![],
                    None,
                )],
                None,
            ),
            polylist,
        ],
        None,
    );
    el(
        "library_geometries",
        &[],
        vec![el("geometry", &[("id", "body-geo"), ("name", "body")], vec![mesh], None)],
        None,
    )
}

fn identity16() -> &'static str {
    "1 0 0 0 0 1 0 0 0 0 1 0 0 0 0 1"
}

fn joints_source(names: &str, count: &str) -> Element {
    let accessor = el(
        "accessor",
        &[("count", count), ("stride", "1")],
        vec![el("param", &[("name", "JOINT"), ("type", "name")], vec![], None)],
        None,
    );
    el(
        "source",
        &[("id", "joints-src")],
        vec![
            el("Name_array", &[("count", count)], vec![], Some(names)),
            el("technique_common", &[], vec![accessor], None),
        ],
        None,
    )
}

fn binds_source(matrices: &str, count: &str, array_count: &str) -> Element {
    let accessor = el(
        "accessor",
        &[("count", count), ("stride", "16")],
        vec![el("param", &[("name", "TRANSFORM"), ("type", "float4x4")], vec![], None)],
        None,
    );
    el(
        "source",
        &[("id", "binds-src")],
        vec![
            el("float_array", &[("count", array_count)], vec![], Some(matrices)),
            el("technique_common", &[], vec![accessor], None),
        ],
        None,
    )
}

fn weights_source() -> Element {
    let accessor = el(
        "accessor",
        &[("count", "6"), ("stride", "1")],
        vec![el("param", &[("name", "WEIGHT"), ("type", "float")], vec![], None)],
        None,
    );
    el(
        "source",
        &[("id", "weights-src")],
        vec![
            el("float_array", &[("count", "6")], vec![], Some("0.5 0.5 1 0.25 0.25 0.5")),
            el("technique_common", &[], vec![accessor], None),
        ],
        None,
    )
}

fn controller_block(joint_names: &str, joint_count: &str, binds: &str, bind_count: &str, bind_array: &str) -> Element {
    let skin = el(
        "skin",
        &[("source", "#body-geo")],
        vec![
            el("bind_shape_matrix", &[], vec![], Some(identity16())),
            joints_source(joint_names, joint_count),
            binds_source(binds, bind_count, bind_array),
            weights_source(),
            el(
                "joints",
                &[],
                vec![
                    el("input", &[("semantic", "JOINT"), ("source", "#joints-src")], vec![], None),
                    el(
                        "input",
                        &[("semantic", "INV_BIND_MATRIX"), ("source", "#binds-src")],
                        vec![],
                        None,
                    ),
                ],
                None,
            ),
            el(
                "vertex_weights",
                &[("count", "3")],
                vec![
                    el(
                        "input",
                        &[("semantic", "JOINT"), ("source", "#joints-src"), ("offset", "0")],
                        vec![],
                        None,
                    ),
                    el(
                        "input",
                        &[("semantic", "WEIGHT"), ("source", "#weights-src"), ("offset", "1")],
                        vec![],
                        None,
                    ),
                    el("vcount", &[], vec![], Some("2 1 3")),
                    el("v", &[], vec![], Some("0 0 1 1 0 2 0 3 1 4 0 5")),
                ],
                None,
            ),
        ],
        None,
    );
    el(
        "library_controllers",
        &[],
        vec![el("controller", &[("id", "skin1")], vec![skin], None)],
        None,
    )
}

fn document_root(controllers: Element) -> Element {
    let node = el(
        "node",
        &[("id", "skinned"), ("name", "skinned")],
        vec![el("instance_controller", &[("url", "#skin1")], vec![], None)],
        None,
    );
    el(
        "COLLADA",
        &[("version", "1.4.1")],
        vec![
            asset_block(),
            el("library_cameras", &[], vec![], None),
            geometry_block(),
            controllers,
            el(
                "library_visual_scenes",
                &[],
                vec![el("visual_scene", &[("id", "Scene"), ("name", "Scene")], vec![node], None)],
                None,
            ),
        ],
        None,
    )
}

// A weight list with influence counts [2, 1, 3] and a twelve-token buffer
// for two streams yields two index arrays of six, and the per-joint
// sources carry the bone names and one bind matrix per bone.
#[test]
fn skin_builds_influence_streams() {
    let two_binds = format!("{} {}", identity16(), identity16());
    let root = document_root(controller_block("hip spine", "2", &two_binds, "2", "32"));
    let document = Document::parse(&root).unwrap();

    let skin = document.skins.get("body-geo").unwrap();
    assert_eq!(skin.id, "skin1".to_string());
    assert_eq!(skin.geometry_id, "body-geo".to_string());
    assert_eq!(f32::from_bits(skin.bind_shape_matrix.mat[0].bits), 1.0);

    // The per-vertex influence table holds the prefix sums of [2, 1, 3].
    assert_eq!(skin.bones_per_vertex.len(), 3);
    let expected_table = [(0, 2), (2, 1), (3, 3)];
    for (i, (first, count)) in expected_table.iter().enumerate() {
        assert_eq!(skin.bones_per_vertex[i].first_bone_index, *first);
        assert_eq!(skin.bones_per_vertex[i].bones_count, *count);
    }

    let joint_stream = skin.bone_indices.get("JOINT").unwrap();
    let weight_stream = skin.bone_indices.get("WEIGHT").unwrap();
    assert_eq!(joint_stream.indices, vec![0, 1, 0, 0, 1, 0]);
    assert_eq!(weight_stream.indices, vec![0, 1, 2, 3, 4, 5]);

    let joints = skin.additional_sources.get("JOINT").unwrap();
    match joints.layers.get("bone_name") {
        Some(SourceLayer::Name(names)) => {
            assert_eq!(names, &vec!["hip".to_string(), "spine".to_string()]);
        },
        _ => panic!("expected a name layer"),
    }
    let binds = skin.additional_sources.get("INV_BIND_MATRIX").unwrap();
    match binds.layers.get("transform_matrix") {
        Some(SourceLayer::Matrix4(ms)) => {
            assert_eq!(ms.len(), 2);
            assert_eq!(f32::from_bits(ms[1].mat[5].bits), 1.0);
        },
        _ => panic!("expected a matrix layer"),
    }

    let scene = document.scenes.get("Scene").unwrap();
    let node = scene.geometries.get("skinned").unwrap();
    assert_eq!(node.joined.id, "body-geo".to_string());
    assert!(matches!(node.controller, Controller::Skin(_)));
}

// A skin whose vertices declare no influence at all is refused.
#[test]
fn skin_rejects_zero_influences() {
    let two_binds = format!("{} {}", identity16(), identity16());
    let mut controllers = controller_block("hip spine", "2", &two_binds, "2", "32");
    // Empty the influence counts and the flattened buffer.
    let skin_el = &mut controllers.children[0].children[0];
    let vw = skin_el
        .children
        .iter_mut()
        .find(|c| c.name == "vertex_weights")
        .unwrap();
    for child in vw.children.iter_mut() {
        if child.name == "vcount" {
            child.text = Some("0 0 0".to_string());
        }
        if child.name == "v" {
            child.text = Some("".to_string());
        }
    }
    let root = document_root(controllers);
    assert!(matches!(
        Document::parse(&root),
        Err(Error::StructuralInvariant { .. })
    ));
}

// Declared bone names and bind matrices must agree in count.
#[test]
fn skin_rejects_mismatched_bind_counts() {
    let root = document_root(controller_block("hip spine", "2", identity16(), "1", "16"));
    assert!(matches!(
        Document::parse(&root),
        Err(Error::StructuralInvariant { .. })
    ));
}
