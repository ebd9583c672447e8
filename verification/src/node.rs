//! Scene nodes: the classification of one node of the scene tree and its
//! resolution against the phase-one registries.
//!
//! A node carries a placement and exactly one of: a geometry instance, a
//! camera instance, a light instance (skipped), a controller instance (a
//! skin), or a nested joint sub-tree (a skeleton root).  A node matching
//! more than one classification is a structural error, never a silent
//! first-match.

use vstd::prelude::*;

use crate::camera::Camera;
use crate::controller::Controller;
use crate::document::Document;
use crate::error::Error;
use crate::float::F32_ZERO;
use crate::float::FloatBits;
use crate::geometry::Geometry;
use crate::location::Location;
use crate::location::Matrix;
use crate::location::Position;
use crate::location::Quaternion;
use crate::location::Scale;
use crate::location::spec_parse_angles;
use crate::location::spec_sixteen_ok;
use crate::location::spec_triple;
use crate::registry::Registry;
use crate::registry::assoc_get;
use crate::skeleton::Bone;
use crate::skeleton::Skeleton;
use crate::skin::Skin;
use crate::source::share;
use crate::text::spec_strip_hashes;
use crate::text::str_eq;
use crate::text::strip_hashes;
use crate::xml::Element;
use crate::xml::count_named;
use crate::xml::elem_size;
use crate::xml::first_named;
use crate::xml::lemma_count_monotone_pub;
use crate::xml::lemma_first_extends;
use crate::xml::spec_attr;
use crate::xml::unique_child;

use std::sync::Arc;

verus! {

/// One resolved scene node: its identity, its placement, the library
/// entity it instantiates, and what drives it.
pub struct Node<T> {
    pub id: String,
    pub name: String,
    pub location: Location,
    pub joined: Arc<T>,
    pub controller: Controller,
}

/// Whether every node map entry is keyed by its node's own name.
pub open spec fn nodes_named<T>(entries: Seq<(String, Node<T>)>) -> bool {
    forall|j: int| 0 <= j < entries.len() ==> (#[trigger] entries[j]).0 == entries[j].1.name
}

/// Whether the node holds at least one instance child named `name`.
pub open spec fn has_instance(node: Element, name: Seq<char>) -> bool {
    count_named(node.children@, name) > 0
}

/// Whether `e` is a joint child: a `node` child declared `type="JOINT"`.
pub open spec fn is_joint_child(e: Element) -> bool {
    e.name@ == "node"@ && (spec_attr(e.attributes@, "type"@) matches Some(t) && t@ == "JOINT"@)
}

/// Whether the node roots a skeleton: some child is a joint.
pub open spec fn has_joint_child(node: Element) -> bool {
    exists|k: int| 0 <= k < node.children@.len() && is_joint_child(#[trigger] node.children@[k])
}

/// How many of the five classifications the node matches: a geometry,
/// camera, light or controller instance, or a nested joint sub-tree.
pub open spec fn spec_kind_count(node: Element) -> int {
    (if has_instance(node, "instance_geometry"@) {
        1int
    } else {
        0int
    }) + (if has_instance(node, "instance_camera"@) {
        1int
    } else {
        0int
    }) + (if has_instance(node, "instance_light"@) {
        1int
    } else {
        0int
    }) + (if has_instance(node, "instance_controller"@) {
        1int
    } else {
        0int
    }) + (if has_joint_child(node) {
        1int
    } else {
        0int
    })
}

/// Whether the node's placement parses: a unique `matrix` child with
/// sixteen float tokens, or else optional `translate`/`scale` triples and
/// well-formed `rotate` children.
pub open spec fn spec_node_location_ok(node: Element, asset: crate::asset::Asset) -> bool {
    match unique_child(node, "matrix"@) {
        Some(m) => m.text matches Some(t) && spec_sixteen_ok(t@),
        None => ({
            &&& match unique_child(node, "translate"@) {
                Some(tr) => tr.text matches Some(t) && spec_triple(t@) is Some,
                None => true,
            }
            &&& match unique_child(node, "scale"@) {
                Some(sc) => sc.text matches Some(t) && spec_triple(t@) is Some,
                None => true,
            }
            &&& spec_parse_angles(node.children@, asset) is Some
        }),
    }
}

/// Whether the node carries what every classification needs: its `id` and
/// `name` attributes and a placement that parses.
pub open spec fn spec_node_head_ok(node: Element, asset: crate::asset::Asset) -> bool {
    &&& spec_attr(node.attributes@, "id"@) is Some
    &&& spec_attr(node.attributes@, "name"@) is Some
    &&& spec_node_location_ok(node, asset)
}

/// The `url` reference of the first instance child named `inst`.
pub open spec fn spec_instance_url(node: Element, inst: Seq<char>) -> Option<String> {
    spec_attr(first_named(node.children@, inst).attributes@, "url"@)
}

/// Parses one node of the scene tree: reads its placement, classifies it
/// by its children (geometry, camera, light, controller, or joint
/// sub-tree -- exactly one may match), resolves the reference against the
/// phase-one registries, and files the resolved node into the scene's maps
/// under the node's name.
#[verifier::spinoff_prover]
#[verifier::rlimit(100)]
pub fn parse_node(
    node: &Element,
    document: &mut Document,
    skins_by_id: &Registry<Arc<Skin>>,
    bone: Option<Arc<Bone>>,
    geometries: &mut Registry<Node<Geometry>>,
    cameras: &mut Registry<Node<Camera>>,
    skeletons: &mut Registry<Node<Skeleton>>,
) -> (r: Result<(), Error>)
    requires
        old(document).wf(),
        old(geometries).wf(),
        old(cameras).wf(),
        old(skeletons).wf(),
        nodes_named(old(geometries).entries@),
        nodes_named(old(cameras).entries@),
        nodes_named(old(skeletons).entries@),
        skins_by_id.wf(),
        crate::controller::skins_wf(skins_by_id.entries@),
    ensures
        final(document).wf(),
        final(geometries).wf(),
        final(cameras).wf(),
        final(skeletons).wf(),
        nodes_named(final(geometries).entries@),
        nodes_named(final(cameras).entries@),
        nodes_named(final(skeletons).entries@),
        final(document).asset == old(document).asset,
        final(document).cameras == old(document).cameras,
        final(document).geometries == old(document).geometries,
        final(document).animations == old(document).animations,
        final(document).skins == old(document).skins,
        final(document).scenes == old(document).scenes,
        final(document).skeletons.entries@.len() >= old(document).skeletons.entries@.len(),
        final(skeletons).entries@.len() >= old(skeletons).entries@.len(),
        bone is Some ==> *final(skeletons) == *old(skeletons) && final(document).skeletons == old(
            document,
        ).skeletons,
        crate::registry::keys_stable(old(geometries).entries@, final(geometries).entries@),
        crate::registry::keys_stable(old(cameras).entries@, final(cameras).entries@),
        crate::registry::keys_stable(old(skeletons).entries@, final(skeletons).entries@),
        spec_kind_count(*node) != 1 ==> r is Err,
        r is Ok ==> spec_attr(node.attributes@, "id"@) is Some && spec_attr(
            node.attributes@,
            "name"@,
        ) is Some,
        r is Err && !has_joint_child(*node) ==> ({
            &&& *final(geometries) == *old(geometries)
            &&& *final(cameras) == *old(cameras)
            &&& *final(skeletons) == *old(skeletons)
        }),
        spec_kind_count(*node) == 0 && spec_node_head_ok(*node, old(document).asset) ==> (r matches
        Err(e) && (e matches Error::MissingElement { element_name, child_name, ambiguous }
            && element_name@ == node.name@ && child_name@ == "instance"@ && !ambiguous)),
        r is Err ==> !(spec_kind_count(*node) == 1 && has_instance(*node, "instance_light"@)
            && spec_node_head_ok(*node, old(document).asset)),
        r is Err ==> !(spec_kind_count(*node) == 1 && has_instance(*node, "instance_geometry"@)
            && spec_node_head_ok(*node, old(document).asset) && (spec_instance_url(
            *node,
            "instance_geometry"@,
        ) matches Some(url) && assoc_get(
            old(document).geometries.entries@,
            spec_strip_hashes(url@),
        ) is Some) && assoc_get(
            old(geometries).entries@,
            (spec_attr(node.attributes@, "name"@)->0)@,
        ) is None),
        r is Err ==> !(spec_kind_count(*node) == 1 && has_instance(*node, "instance_camera"@)
            && spec_node_head_ok(*node, old(document).asset) && (spec_instance_url(
            *node,
            "instance_camera"@,
        ) matches Some(url) && assoc_get(
            old(document).cameras.entries@,
            spec_strip_hashes(url@),
        ) is Some) && assoc_get(
            old(cameras).entries@,
            (spec_attr(node.attributes@, "name"@)->0)@,
        ) is None),
        r is Err ==> !(spec_kind_count(*node) == 1 && has_instance(*node, "instance_controller"@)
            && spec_node_head_ok(*node, old(document).asset) && (spec_instance_url(
            *node,
            "instance_controller"@,
        ) matches Some(url) && (assoc_get(
            skins_by_id.entries@,
            spec_strip_hashes(url@),
        ) matches Some(skin) && assoc_get(
            old(document).geometries.entries@,
            (*skin).geometry_id@,
        ) is Some)) && assoc_get(
            old(geometries).entries@,
            (spec_attr(node.attributes@, "name"@)->0)@,
        ) is None),
        r is Ok && has_instance(*node, "instance_geometry"@) ==> ({
            let name = spec_attr(node.attributes@, "name"@)->0;
            let url = spec_instance_url(*node, "instance_geometry"@);
            let added = final(geometries).entries@.last();
            &&& url is Some
            &&& assoc_get(
                old(document).geometries.entries@,
                spec_strip_hashes((url->0)@),
            ) matches Some(joined) && added.1.joined == joined
            &&& final(geometries).entries@.len() == old(geometries).entries@.len() + 1
            &&& (forall|k: int|
                0 <= k < old(geometries).entries@.len() ==> final(geometries).entries@[k] == old(
                    geometries,
                ).entries@[k])
            &&& assoc_get(old(geometries).entries@, name@) is None
            &&& added.0 == name
            &&& added.1.id == spec_attr(node.attributes@, "id"@)->0
            &&& (bone matches Some(b) ==> added.1.controller == Controller::Bone(b))
            &&& (bone is None ==> added.1.controller matches Controller::Model)
            &&& *final(cameras) == *old(cameras)
            &&& *final(skeletons) == *old(skeletons)
            &&& final(document).skeletons == old(document).skeletons
        }),
        r is Ok && has_instance(*node, "instance_camera"@) ==> ({
            let name = spec_attr(node.attributes@, "name"@)->0;
            let url = spec_instance_url(*node, "instance_camera"@);
            let added = final(cameras).entries@.last();
            &&& url is Some
            &&& assoc_get(
                old(document).cameras.entries@,
                spec_strip_hashes((url->0)@),
            ) matches Some(joined) && added.1.joined == joined
            &&& final(cameras).entries@.len() == old(cameras).entries@.len() + 1
            &&& (forall|k: int|
                0 <= k < old(cameras).entries@.len() ==> final(cameras).entries@[k] == old(
                    cameras,
                ).entries@[k])
            &&& assoc_get(old(cameras).entries@, name@) is None
            &&& added.0 == name
            &&& added.1.id == spec_attr(node.attributes@, "id"@)->0
            &&& (bone matches Some(b) ==> added.1.controller == Controller::Bone(b))
            &&& (bone is None ==> added.1.controller matches Controller::Model)
            &&& *final(geometries) == *old(geometries)
            &&& *final(skeletons) == *old(skeletons)
            &&& final(document).skeletons == old(document).skeletons
        }),
        r is Ok && has_instance(*node, "instance_light"@) ==> ({
            &&& *final(geometries) == *old(geometries)
            &&& *final(cameras) == *old(cameras)
            &&& *final(skeletons) == *old(skeletons)
            &&& final(document).skeletons == old(document).skeletons
        }),
        r is Ok && has_instance(*node, "instance_controller"@) ==> ({
            let name = spec_attr(node.attributes@, "name"@)->0;
            let url = spec_instance_url(*node, "instance_controller"@);
            let added = final(geometries).entries@.last();
            &&& url is Some
            &&& assoc_get(skins_by_id.entries@, spec_strip_hashes((url->0)@)) matches Some(skin)
                && added.1.controller == Controller::Skin(skin) && (assoc_get(
                old(document).geometries.entries@,
                (*skin).geometry_id@,
            ) matches Some(joined) && added.1.joined == joined)
            &&& final(geometries).entries@.len() == old(geometries).entries@.len() + 1
            &&& (forall|k: int|
                0 <= k < old(geometries).entries@.len() ==> final(geometries).entries@[k] == old(
                    geometries,
                ).entries@[k])
            &&& assoc_get(old(geometries).entries@, name@) is None
            &&& added.0 == name
            &&& added.1.id == spec_attr(node.attributes@, "id"@)->0
            &&& *final(cameras) == *old(cameras)
            &&& *final(skeletons) == *old(skeletons)
            &&& final(document).skeletons == old(document).skeletons
        }),
        r is Ok && has_joint_child(*node) ==> ({
            let id = spec_attr(node.attributes@, "id"@)->0;
            let name = spec_attr(node.attributes@, "name"@)->0;
            let added_skel = final(document).skeletons.entries@.last();
            let added_node = final(skeletons).entries@.last();
            &&& bone is None
            &&& final(document).skeletons.entries@.len() == old(
                document,
            ).skeletons.entries@.len() + 1
            &&& assoc_get(old(document).skeletons.entries@, id@) is None
            &&& added_skel.0 == id
            &&& (*added_skel.1).id == id
            &&& (*added_skel.1).wf()
            &&& final(skeletons).entries@.len() == old(skeletons).entries@.len() + 1
            &&& (forall|k: int|
                0 <= k < old(skeletons).entries@.len() ==> final(skeletons).entries@[k] == old(
                    skeletons,
                ).entries@[k])
            &&& assoc_get(old(skeletons).entries@, name@) is None
            &&& added_node.0 == name
            &&& added_node.1.joined == added_skel.1
            &&& added_node.1.id == id
        }),
    decreases elem_size(*node), 1nat,
{
    let id = match node.get_attribute("id") {
        Ok(v) => v.clone(),
        Err(e) => {
            return Err(e);
        },
    };
    let name = match node.get_attribute("name") {
        Ok(v) => v.clone(),
        Err(e) => {
            return Err(e);
        },
    };
    let location = match node.get_element("matrix") {
        Ok(matrix_element) => {
            let text = match matrix_element.get_text() {
                Ok(t) => t,
                Err(e) => {
                    return Err(e);
                },
            };
            let matrix = match Matrix::parse(text) {
                Ok(m) => m,
                Err(e) => {
                    return Err(e);
                },
            };
            matrix.to_location(&document.asset)
        },
        Err(_) => {
            let zero = FloatBits::new(F32_ZERO);
            let position = match node.get_element("translate") {
                Ok(t) => {
                    let text = match t.get_text() {
                        Ok(t) => t,
                        Err(e) => {
                            return Err(e);
                        },
                    };
                    match Position::parse(text, &document.asset) {
                        Ok(p) => p,
                        Err(e) => {
                            return Err(e);
                        },
                    }
                },
                Err(_) => Position::new(zero, zero, zero),
            };
            let scale = match node.get_element("scale") {
                Ok(s) => {
                    let text = match s.get_text() {
                        Ok(t) => t,
                        Err(e) => {
                            return Err(e);
                        },
                    };
                    match Scale::parse(text, &document.asset) {
                        Ok(s) => s,
                        Err(e) => {
                            return Err(e);
                        },
                    }
                },
                Err(_) => Scale::new(zero, zero, zero),
            };
            let rotation = match Quaternion::parse_angles(node, &document.asset) {
                Ok(q) => q,
                Err(e) => {
                    return Err(e);
                },
            };
            Location::new(position, scale, rotation)
        },
    };
    // Classify the node by its children; more than one match is an error.
    let n = node.children.len();
    let mut geometry_at: Option<usize> = None;
    let mut camera_at: Option<usize> = None;
    let mut light_at: Option<usize> = None;
    let mut controller_at: Option<usize> = None;
    let mut joint_seen = false;
    let mut i: usize = 0;
    while i < n
        invariant
            n == node.children@.len(),
            i <= n,
            geometry_at matches Some(g) ==> g < i && count_named(
                node.children@.take(g as int),
                "instance_geometry"@,
            ) == 0 && node.children@[g as int].name@ == "instance_geometry"@,
            geometry_at is None ==> count_named(
                node.children@.take(i as int),
                "instance_geometry"@,
            ) == 0,
            camera_at matches Some(g) ==> g < i && count_named(
                node.children@.take(g as int),
                "instance_camera"@,
            ) == 0 && node.children@[g as int].name@ == "instance_camera"@,
            camera_at is None ==> count_named(
                node.children@.take(i as int),
                "instance_camera"@,
            ) == 0,
            light_at matches Some(g) ==> g < i && node.children@[g as int].name@
                == "instance_light"@,
            light_at is None ==> count_named(node.children@.take(i as int), "instance_light"@)
                == 0,
            controller_at matches Some(g) ==> g < i && count_named(
                node.children@.take(g as int),
                "instance_controller"@,
            ) == 0 && node.children@[g as int].name@ == "instance_controller"@,
            controller_at is None ==> count_named(
                node.children@.take(i as int),
                "instance_controller"@,
            ) == 0,
            joint_seen == exists|k: int|
                0 <= k < i && is_joint_child(#[trigger] node.children@[k]),
        decreases n - i,
    {
        proof {
            assert(node.children@.take(i + 1).drop_last() =~= node.children@.take(i as int));
        }
        let child = &node.children[i];
        let is_node_child = str_eq(child.name.as_str(), "node");
        if is_node_child {
            match child.get_attribute("type") {
                Ok(t) => {
                    if str_eq(t.as_str(), "JOINT") {
                        proof {
                            assert(is_joint_child(node.children@[i as int]));
                        }
                        joint_seen = true;
                    }
                },
                Err(_) => {},
            }
        }
        let is_geometry = str_eq(child.name.as_str(), "instance_geometry");
        let is_camera = str_eq(child.name.as_str(), "instance_camera");
        let is_light = str_eq(child.name.as_str(), "instance_light");
        let is_controller = str_eq(child.name.as_str(), "instance_controller");
        if is_geometry && matches!(geometry_at, None) {
            geometry_at = Some(i);
        }
        if is_camera && matches!(camera_at, None) {
            camera_at = Some(i);
        }
        if is_light && matches!(light_at, None) {
            light_at = Some(i);
        }
        if is_controller && matches!(controller_at, None) {
            controller_at = Some(i);
        }
        i = i + 1;
    }
    proof {
        assert(node.children@.take(n as int) =~= node.children@);
        match geometry_at {
            Some(g) => {
                assert(node.children@.take(g + 1).drop_last() =~= node.children@.take(g as int));
                assert(count_named(node.children@.take(g + 1), "instance_geometry"@) == 1);
                lemma_count_monotone_pub(node.children@, "instance_geometry"@, g + 1);
            },
            None => {},
        }
        match camera_at {
            Some(g) => {
                assert(node.children@.take(g + 1).drop_last() =~= node.children@.take(g as int));
                assert(count_named(node.children@.take(g + 1), "instance_camera"@) >= 1);
                lemma_count_monotone_pub(node.children@, "instance_camera"@, g + 1);
            },
            None => {},
        }
        match light_at {
            Some(g) => {
                assert(node.children@.take(g + 1).drop_last() =~= node.children@.take(g as int));
                assert(count_named(node.children@.take(g + 1), "instance_light"@) >= 1);
                lemma_count_monotone_pub(node.children@, "instance_light"@, g + 1);
            },
            None => {},
        }
        match controller_at {
            Some(g) => {
                assert(node.children@.take(g + 1).drop_last() =~= node.children@.take(g as int));
                assert(count_named(node.children@.take(g + 1), "instance_controller"@) >= 1);
                lemma_count_monotone_pub(node.children@, "instance_controller"@, g + 1);
            },
            None => {},
        }
        assert((geometry_at is Some) == has_instance(*node, "instance_geometry"@));
        assert((camera_at is Some) == has_instance(*node, "instance_camera"@));
        assert((light_at is Some) == has_instance(*node, "instance_light"@));
        assert((controller_at is Some) == has_instance(*node, "instance_controller"@));
        assert(joint_seen == has_joint_child(*node));
    }
    let mut kinds: usize = 0;
    if matches!(geometry_at, Some(_)) {
        kinds = kinds + 1;
    }
    if matches!(camera_at, Some(_)) {
        kinds = kinds + 1;
    }
    if matches!(light_at, Some(_)) {
        kinds = kinds + 1;
    }
    if matches!(controller_at, Some(_)) {
        kinds = kinds + 1;
    }
    if joint_seen {
        kinds = kinds + 1;
    }
    proof {
        assert(kinds == spec_kind_count(*node));
    }
    if kinds >= 2 {
        return Err(
            Error::StructuralInvariant {
                description: ("the node matches more than one classification").to_owned(),
            },
        );
    }
    if kinds == 0 {
        return Err(
            Error::MissingElement {
                element_name: node.name.clone(),
                child_name: ("instance").to_owned(),
                ambiguous: false,
            },
        );
    }
    if let Some(gi) = geometry_at {
        proof {
            assert(node.children@.take(gi + 1).drop_last() =~= node.children@.take(gi as int));
            assert(first_named(node.children@.take(gi + 1), "instance_geometry"@)
                == node.children@[gi as int]);
            lemma_first_extends(node.children@, "instance_geometry"@, gi + 1);
        }
        let instance = &node.children[gi];
        let url = match instance.get_attribute("url") {
            Ok(v) => v,
            Err(e) => {
                return Err(e);
            },
        };
        let geometry_id = strip_hashes(url.as_str());
        let joined = match document.geometries.get(geometry_id.as_str()) {
            Some(g) => share(g),
            None => {
                return Err(
                    Error::UnresolvedReference {
                        scope: ("geometry").to_owned(),
                        id: geometry_id,
                    },
                );
            },
        };
        let controller = match bone {
            Some(b) => Controller::Bone(b),
            None => Controller::Model,
        };
        let node_name = name.clone();
        match geometries.insert(name, Node { id, name: node_name.clone(), location, joined, controller }) {
            Ok(()) => {
                proof {
                    assert(geometries.entries@.drop_last() =~= old(geometries).entries@);
                    crate::registry::lemma_keys_stable_grow(
                        old(geometries).entries@,
                        geometries.entries@,
                    );
                }
                Ok(())
            },
            Err(()) => Err(
                Error::DuplicateId { scope: ("geometry node").to_owned(), id: node_name },
            ),
        }
    } else if let Some(ci) = camera_at {
        proof {
            assert(node.children@.take(ci + 1).drop_last() =~= node.children@.take(ci as int));
            assert(first_named(node.children@.take(ci + 1), "instance_camera"@)
                == node.children@[ci as int]);
            lemma_first_extends(node.children@, "instance_camera"@, ci + 1);
        }
        let instance = &node.children[ci];
        let url = match instance.get_attribute("url") {
            Ok(v) => v,
            Err(e) => {
                return Err(e);
            },
        };
        let camera_id = strip_hashes(url.as_str());
        let joined = match document.cameras.get(camera_id.as_str()) {
            Some(c) => share(c),
            None => {
                return Err(
                    Error::UnresolvedReference { scope: ("camera").to_owned(), id: camera_id },
                );
            },
        };
        let controller = match bone {
            Some(b) => Controller::Bone(b),
            None => Controller::Model,
        };
        let node_name = name.clone();
        match cameras.insert(name, Node { id, name: node_name.clone(), location, joined, controller }) {
            Ok(()) => {
                proof {
                    assert(cameras.entries@.drop_last() =~= old(cameras).entries@);
                    crate::registry::lemma_keys_stable_grow(
                        old(cameras).entries@,
                        cameras.entries@,
                    );
                }
                Ok(())
            },
            Err(()) => Err(
                Error::DuplicateId { scope: ("camera node").to_owned(), id: node_name },
            ),
        }
    } else if matches!(light_at, Some(_)) {
        // Lights are explicitly skipped: no node is produced.
        Ok(())
    } else if let Some(ki) = controller_at {
        proof {
            assert(node.children@.take(ki + 1).drop_last() =~= node.children@.take(ki as int));
            assert(first_named(node.children@.take(ki + 1), "instance_controller"@)
                == node.children@[ki as int]);
            lemma_first_extends(node.children@, "instance_controller"@, ki + 1);
        }
        let instance = &node.children[ki];
        let url = match instance.get_attribute("url") {
            Ok(v) => v,
            Err(e) => {
                return Err(e);
            },
        };
        let skin_id = strip_hashes(url.as_str());
        let skin = match skins_by_id.get(skin_id.as_str()) {
            Some(s) => share(s),
            None => {
                return Err(Error::UnresolvedReference { scope: ("skin").to_owned(), id: skin_id });
            },
        };
        let ghost skin0 = skin;
        let joined = match document.geometries.get(skin.geometry_id.as_str()) {
            Some(g) => share(g),
            None => {
                return Err(
                    Error::UnresolvedReference {
                        scope: ("geometry").to_owned(),
                        id: skin.geometry_id.clone(),
                    },
                );
            },
        };
        let node_name = name.clone();
        match geometries.insert(
            name,
            Node { id, name: node_name.clone(), location, joined, controller: Controller::Skin(skin) },
        ) {
            Ok(()) => {
                proof {
                    assert(geometries.entries@.drop_last() =~= old(geometries).entries@);
                    crate::registry::lemma_keys_stable_grow(
                        old(geometries).entries@,
                        geometries.entries@,
                    );
                }
                Ok(())
            },
            Err(()) => Err(
                Error::DuplicateId { scope: ("geometry node").to_owned(), id: node_name },
            ),
        }
    } else {
        // This node roots a skeleton.
        if matches!(bone, Some(_)) {
            return Err(
                Error::StructuralInvariant {
                    description: ("a skeleton cannot be joined to a bone").to_owned(),
                },
            );
        }
        let skeleton = Arc::new(
            match Skeleton::parse(
                node,
                document,
                skins_by_id,
                id.clone(),
                location,
                geometries,
                cameras,
                skeletons,
            ) {
                Ok(sk) => sk,
                Err(e) => {
                    return Err(e);
                },
            },
        );
        let skeleton_id = id.clone();
        let ghost skels_before = document.skeletons.entries@;
        match document.skeletons.insert(skeleton_id.clone(), share(&skeleton)) {
            Ok(()) => {
                proof {
                    assert(forall|k: int|
                        0 <= k < skels_before.len() ==> document.skeletons.entries@[k]
                            == skels_before[k]);
                }
            },
            Err(()) => {
                return Err(
                    Error::DuplicateId { scope: ("skeleton").to_owned(), id: skeleton_id },
                );
            },
        }
        let node_name = name.clone();
        match skeletons.insert(
            name,
            Node {
                id,
                name: node_name.clone(),
                location,
                joined: skeleton,
                controller: Controller::Model,
            },
        ) {
            Ok(()) => {
                proof {
                    assert(skeletons.entries@.drop_last() =~= old(skeletons).entries@);
                    crate::registry::lemma_keys_stable_grow(
                        old(skeletons).entries@,
                        skeletons.entries@,
                    );
                }
                Ok(())
            },
            Err(()) => Err(
                Error::DuplicateId { scope: ("skeleton node").to_owned(), id: node_name },
            ),
        }
    }
}

} // verus!
