//! Whole-document imports: asset context, node classification, skeleton
//! assembly and the fail-fast error on ambiguous nodes.

use collada::asset::{Axis, Editor};
use collada::document::Document;
use collada::error::Error;
use collada::xml::Element;

fn el(name: &str, attrs: &[(&str, &str)], children: Vec<Element>, text: Option<&str>) -> Element {
    Element {
        name: name.to_string(),
        attributes: attrs.iter().map(|(k, v)| (k.to_string(), v.to_string())).collect(),
        children,
        text: text.map(|t| t.to_string()),
    }
}

fn asset_block() -> Element {
    el(
        "asset",
        &[],
        vec![
            el("created", &[], vec![], Some("2020-01-01")),
            el("modified", &[], vec![], Some("2020-01-02")),
            el("unit", &[("name", "meter"), ("meter", "1.0")], vec![], None),
            el("up_axis", &[], vec![], Some("Y_UP")),
            el(
                "contributor",
                &[],
                vec![el("authoring_tool", &[], vec![], Some("Blender 2.80"))],
                None,
            ),
        ],
        None,
    )
}

fn source_element(id: &str) -> Element {
    let accessor = el(
        "accessor",
        &[("count", "4"), ("stride", "3")],
        vec![
            el("param", &[("name", "X"), ("type", "float")], vec![], None),
            el("param", &[("name", "Y"), ("type", "float")], vec![], None),
            el("param", &[("name", "Z"), ("type", "float")], vec![], None),
        ],
        None,
    );
    el(
        "source",
        &[("id", id)],
        vec![
            el(
                "float_array",
                &[("count", "12")],
                vec![],
                Some("1 2 3 4 5 6 7 8 9 10 11 12"),
            ),
            el("technique_common", &[], vec![accessor], None),
        ],
        None,
    )
}

fn geometry_entry() -> Element {
    let polylist = el(
        "polylist",
        &[("count", "2"), ("material", "mat")],
        vec![
            el(
                "input",
                &[("semantic", "VERTEX"), ("source", "#verts"), ("offset", "0")],
                vec![],
                None,
            ),
            el("vcount", &[], vec![], Some("3 3")),
            el("p", &[], vec![], Some("0 1 2 0 2 3")),
        ],
        None,
    );
    let mesh = el(
        "mesh",
        &[],
        vec![
            source_element("positions"),
            el(
                "vertices",
                &[("id", "verts")],
                vec![el(
                    "input",
                    &[("semantic", "POSITION"), ("source", "#positions")],
                    vec![],
                    None,
                )],
                None,
            ),
            polylist,
        ],
        None,
    );
    el("geometry", &[("id", "body-geo"), ("name", "body")], vec![mesh], None)
}

fn geometry_block() -> Element {
    el("library_geometries", &[], vec![geometry_entry()], None)
}

fn joint(id: &str, children: Vec<Element>) -> Element {
    let mut all = vec![el(
        "matrix",
        &[],
        vec![],
        Some("1 0 0 0 0 1 0 0 0 0 1 0 0 0 0 1"),
    )];
    all.extend(children);
    el(
        "node",
        &[("id", id), ("sid", id), ("name", id), ("type", "JOINT")],
        all,
        None,
    )
}

fn scene_block(nodes: Vec<Element>) -> Element {
    el(
        "library_visual_scenes",
        &[],
        vec![el("visual_scene", &[("id", "Scene"), ("name", "Scene")], nodes, None)],
        None,
    )
}

fn geometry_node(name: &str) -> Element {
    el(
        "node",
        &[("id", name), ("name", name)],
        vec![
            el("translate", &[], vec![], Some("1 2 3")),
            el("instance_geometry", &[("url", "#body-geo")], vec![], None),
        ],
        None,
    )
}

fn document_root(nodes: Vec<Element>) -> Element {
    el(
        "COLLADA",
        &[("version", "1.4.1")],
        vec![
            asset_block(),
            el("library_cameras", &[], vec![], None),
            geometry_block(),
            el("library_controllers", &[], vec![], None),
            scene_block(nodes),
        ],
        None,
    )
}

#[test]
fn whole_document_imports() {
    let root = document_root(vec![geometry_node("body")]);
    let document = Document::parse(&root).unwrap();
    assert!(matches!(document.asset.up_axis, Axis::Y));
    assert!(matches!(document.asset.editor, Editor::Blender));
    assert_eq!(document.asset.unit.ratio.bits, 1.0f32.to_bits());
    let scene = document.scenes.get("Scene").unwrap();
    let node = scene.geometries.get("body").unwrap();
    assert_eq!(node.joined.id, "body-geo".to_string());
    assert_eq!(node.joined.meshes.len(), 1);
    let mesh = &node.joined.meshes[0];
    assert_eq!(mesh.name, "body#0".to_string());
    assert_eq!(mesh.material, Some("mat".to_string()));
    assert_eq!(mesh.polygons.len(), 2);
    assert_eq!(mesh.polygons[1].first_vertex_index, 3);
    let vertex_indices = mesh.vertex_indices.get("VERTEX").unwrap();
    assert_eq!(vertex_indices.indices, vec![0, 1, 2, 0, 2, 3]);
    // The Blender heuristic inverted the X layer at read time.
    match vertex_indices.source.layers.get("X") {
        Some(collada::source::SourceLayer::F32(v)) => {
            assert_eq!(f32::from_bits(v[0].bits), -1.0);
        },
        _ => panic!("expected a float layer"),
    }
}

// Determinism: importing the same tree twice yields structurally identical
// documents.
#[test]
fn document_import_is_deterministic() {
    let root = document_root(vec![geometry_node("body")]);
    let d1 = Document::parse(&root).unwrap();
    let d2 = Document::parse(&root).unwrap();
    assert_eq!(d1.asset.created, d2.asset.created);
    assert_eq!(d1.scenes.len(), d2.scenes.len());
    let s1 = d1.scenes.get("Scene").unwrap();
    let s2 = d2.scenes.get("Scene").unwrap();
    let n1 = s1.geometries.get("body").unwrap();
    let n2 = s2.geometries.get("body").unwrap();
    assert_eq!(n1.id, n2.id);
    assert_eq!(n1.location.position.x.bits, n2.location.position.x.bits);
    let m1 = &n1.joined.meshes[0];
    let m2 = &n2.joined.meshes[0];
    assert_eq!(m1.vertex_format, m2.vertex_format);
    assert_eq!(
        m1.vertex_indices.get("VERTEX").unwrap().indices,
        m2.vertex_indices.get("VERTEX").unwrap().indices
    );
}

// Bone acyclicity: a pre-order walk gives every bone a parent index
// strictly below its own.
#[test]
fn skeleton_parents_point_backwards() {
    let skeleton_root = el(
        "node",
        &[("id", "rig"), ("name", "rig")],
        vec![joint(
            "hip",
            vec![joint("spine", vec![joint("head", vec![])]), joint("leg", vec![])],
        )],
        None,
    );
    let root = document_root(vec![skeleton_root]);
    let document = Document::parse(&root).unwrap();
    let skeleton = document.skeletons.get("rig").unwrap();
    assert_eq!(skeleton.bones_array.len(), 4);
    let order: Vec<&str> = skeleton.bones_array.iter().map(|b| b.id.as_str()).collect();
    assert_eq!(order, vec!["hip", "spine", "head", "leg"]);
    for (i, bone) in skeleton.bones_array.iter().enumerate() {
        assert_eq!(bone.index, i);
        if let Some(p) = bone.parent {
            assert!(p < i);
        } else {
            assert_eq!(i, 0);
        }
    }
    assert_eq!(skeleton.bones_array[1].parent, Some(0));
    assert_eq!(skeleton.bones_array[2].parent, Some(1));
    assert_eq!(skeleton.bones_array[3].parent, Some(0));
    assert!(skeleton.bones.get("head").is_some());
    let scene = document.scenes.get("Scene").unwrap();
    assert!(scene.skeletons.get("rig").is_some());
}

// A node with both an instance and a nested joint is invalid: the parser
// fails with a structural error rather than picking one classification.
#[test]
fn ambiguous_node_classification_fails() {
    let bad_node = el(
        "node",
        &[("id", "both"), ("name", "both")],
        vec![
            el("instance_geometry", &[("url", "#body-geo")], vec![], None),
            joint("hip", vec![]),
        ],
        None,
    );
    let root = document_root(vec![bad_node]);
    assert!(matches!(
        Document::parse(&root),
        Err(Error::StructuralInvariant { .. })
    ));
}

#[test]
fn unclassified_node_fails() {
    let bare = el("node", &[("id", "n"), ("name", "n")], vec![], None);
    let root = document_root(vec![bare]);
    assert!(matches!(
        Document::parse(&root),
        Err(Error::MissingElement { .. })
    ));
}

#[test]
fn unresolved_instance_reference_fails() {
    let node = el(
        "node",
        &[("id", "n"), ("name", "n")],
        vec![el("instance_geometry", &[("url", "#missing")], vec![], None)],
        None,
    );
    let root = document_root(vec![node]);
    assert!(matches!(
        Document::parse(&root),
        Err(Error::UnresolvedReference { .. })
    ));
}

#[test]
fn duplicate_node_names_fail() {
    let root = document_root(vec![geometry_node("body"), geometry_node("body")]);
    assert!(matches!(Document::parse(&root), Err(Error::DuplicateId { .. })));
}

#[test]
fn duplicate_geometry_ids_fail() {
    let doubled = el(
        "library_geometries",
        &[],
        vec![geometry_entry(), geometry_entry()],
        None,
    );
    let root = el(
        "COLLADA",
        &[("version", "1.4.1")],
        vec![
            asset_block(),
            el("library_cameras", &[], vec![], None),
            doubled,
            el("library_controllers", &[], vec![], None),
            scene_block(vec![geometry_node("body")]),
        ],
        None,
    );
    assert!(matches!(Document::parse(&root), Err(Error::DuplicateId { .. })));
}

#[test]
fn missing_scene_library_fails() {
    let root = el(
        "COLLADA",
        &[("version", "1.4.1")],
        vec![
            asset_block(),
            el("library_cameras", &[], vec![], None),
            geometry_block(),
            el("library_controllers", &[], vec![], None),
        ],
        None,
    );
    assert!(matches!(
        Document::parse(&root),
        Err(Error::MissingElement { .. })
    ));
}

#[test]
fn cameras_parse_and_resolve() {
    let camera = el(
        "camera",
        &[("id", "cam"), ("name", "Camera")],
        vec![el(
            "optics",
            &[],
            vec![el(
                "technique_common",
                &[],
                vec![el(
                    "perspective",
                    &[],
                    vec![
                        el("znear", &[], vec![], Some("0.1")),
                        el("zfar", &[], vec![], Some("100")),
                        el("xfov", &[], vec![], Some("49.1")),
                    ],
                    None,
                )],
                None,
            )],
            None,
        )],
        None,
    );
    let camera_node = el(
        "node",
        &[("id", "camnode"), ("name", "camnode")],
        vec![el("instance_camera", &[("url", "#cam")], vec![], None)],
        None,
    );
    let root = el(
        "COLLADA",
        &[("version", "1.4.1")],
        vec![
            asset_block(),
            el("library_cameras", &[], vec![camera], None),
            geometry_block(),
            el("library_controllers", &[], vec![], None),
            scene_block(vec![camera_node]),
        ],
        None,
    );
    let document = Document::parse(&root).unwrap();
    let cam = document.cameras.get("cam").unwrap();
    assert_eq!(f32::from_bits(cam.perspective.z_near.bits), 0.1);
    assert_eq!(f32::from_bits(cam.perspective.z_far.bits), 100.0);
    let scene = document.scenes.get("Scene").unwrap();
    assert!(scene.cameras.get("camnode").is_some());
}

#[test]
fn animations_share_a_sample_count() {
    let time_source = |id: &str, count: &str, data: &str| {
        let accessor = el(
            "accessor",
            &[("count", count), ("stride", "1")],
            vec![el("param", &[("name", "TIME"), ("type", "float")], vec![], None)],
            None,
        );
        el(
            "source",
            &[("id", id)],
            vec![
                el("float_array", &[("count", count)], vec![], Some(data)),
                el("technique_common", &[], vec![accessor], None),
            ],
            None,
        )
    };
    let animation = el(
        "animation",
        &[("id", "anim")],
        vec![
            time_source("t", "2", "0 1"),
            time_source("v", "2", "5 6"),
            el(
                "sampler",
                &[],
                vec![
                    el("input", &[("semantic", "INPUT"), ("source", "#t")], vec![], None),
                    el("input", &[("semantic", "OUTPUT"), ("source", "#v")], vec![], None),
                ],
                None,
            ),
            el(
                "channel",
                &[("source", "#rig_hip-anim"), ("target", "hip/matrix")],
                vec![],
                None,
            ),
        ],
        None,
    );
    let root = el(
        "COLLADA",
        &[("version", "1.4.1")],
        vec![
            asset_block(),
            el("library_cameras", &[], vec![], None),
            geometry_block(),
            el("library_animations", &[], vec![animation], None),
            el("library_controllers", &[], vec![], None),
            scene_block(vec![geometry_node("body")]),
        ],
        None,
    );
    let document = Document::parse(&root).unwrap();
    let anim = document.animations.get("anim").unwrap();
    assert_eq!(anim.keyframes_count, 2);
    assert_eq!(anim.bone_id, "hip".to_string());
    assert_eq!(anim.skeleton_id, "rig".to_string());
    assert!(anim.sources.get("INPUT").is_some());
}

#[test]
fn mismatched_sample_counts_fail() {
    let time_source = |id: &str, count: &str, data: &str| {
        let accessor = el(
            "accessor",
            &[("count", count), ("stride", "1")],
            vec![el("param", &[("name", "TIME"), ("type", "float")], vec![], None)],
            None,
        );
        el(
            "source",
            &[("id", id)],
            vec![
                el("float_array", &[("count", count)], vec![], Some(data)),
                el("technique_common", &[], vec![accessor], None),
            ],
            None,
        )
    };
    let animation = el(
        "animation",
        &[("id", "anim")],
        vec![
            time_source("t", "2", "0 1"),
            time_source("v", "3", "5 6 7"),
            el(
                "sampler",
                &[],
                vec![
                    el("input", &[("semantic", "INPUT"), ("source", "#t")], vec![], None),
                    el("input", &[("semantic", "OUTPUT"), ("source", "#v")], vec![], None),
                ],
                None,
            ),
            el("channel", &[("source", "#s"), ("target", "t")], vec![], None),
        ],
        None,
    );
    let root = el(
        "COLLADA",
        &[("version", "1.4.1")],
        vec![
            asset_block(),
            el("library_cameras", &[], vec![], None),
            el("library_animations", &[], vec![animation], None),
            el("library_controllers", &[], vec![], None),
            scene_block(vec![]),
        ],
        None,
    );
    assert!(matches!(
        Document::parse(&root),
        Err(Error::StructuralInvariant { .. })
    ));
}

// A light instance is explicitly skipped: the node parses but produces no
// scene entry.
#[test]
fn light_nodes_are_skipped() {
    let light_node = el(
        "node",
        &[("id", "lamp"), ("name", "lamp")],
        vec![el("instance_light", &[("url", "#lamp-light")], vec![], None)],
        None,
    );
    let root = document_root(vec![light_node]);
    let document = Document::parse(&root).unwrap();
    let scene = document.scenes.get("Scene").unwrap();
    assert!(scene.geometries.get("lamp").is_none());
    assert!(scene.cameras.get("lamp").is_none());
    assert!(scene.skeletons.get("lamp").is_none());
}
