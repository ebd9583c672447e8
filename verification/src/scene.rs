//! Scenes: the node-tree walk that instantiates library entries.
//!
//! A scene owns disjoint maps of geometry nodes, camera nodes and skeleton
//! nodes, keyed by node name; node names are unique within one scene.

use vstd::prelude::*;

use crate::camera::Camera;
use crate::document::Document;
use crate::error::Error;
use crate::geometry::Geometry;
use crate::node::Node;
use crate::node::parse_node;
use crate::node::has_instance;
use crate::node::has_joint_child;
use crate::node::spec_kind_count;
use crate::registry::Registry;
use crate::registry::assoc_get;
use crate::skeleton::Skeleton;
use crate::skin::Skin;
use crate::text::str_eq;
use crate::xml::Element;
use crate::xml::count_named;
use crate::xml::lemma_named_skip;
use crate::xml::lemma_nth_named_extends;
use crate::xml::nth_named;
use crate::xml::spec_attr;
use crate::xml::unique_child;

use std::sync::Arc;

verus! {

/// Whether a `node` child files into a scene's geometry map: it instances
/// a geometry or a controller (a skinned geometry).
pub open spec fn geometry_map_kind(e: Element) -> bool {
    e.name@ == "node"@ && (has_instance(e, "instance_geometry"@) || has_instance(
        e,
        "instance_controller"@,
    ))
}

/// Whether a `node` child files into a scene's camera map.
pub open spec fn camera_map_kind(e: Element) -> bool {
    e.name@ == "node"@ && has_instance(e, "instance_camera"@)
}

/// Whether a `node` child roots a skeleton and files into the skeleton
/// map.
pub open spec fn skeleton_map_kind(e: Element) -> bool {
    e.name@ == "node"@ && has_joint_child(e)
}

/// The name a node child declares (meaningful when present).
pub open spec fn spec_node_name(e: Element) -> Seq<char> {
    (spec_attr(e.attributes@, "name"@)->0)@
}

/// One scene: its identity and its name-keyed maps of resolved nodes.
pub struct Scene {
    pub id: String,
    pub name: String,
    pub geometries: Registry<Node<Geometry>>,
    pub cameras: Registry<Node<Camera>>,
    pub skeletons: Registry<Node<Skeleton>>,
}

impl Scene {
    /// Whether the scene's node maps have unique names and key each node
    /// by its own name.
    pub open spec fn wf(&self) -> bool {
        &&& self.geometries.wf() && self.cameras.wf() && self.skeletons.wf()
        &&& crate::node::nodes_named(self.geometries.entries@)
        &&& crate::node::nodes_named(self.cameras.entries@)
        &&& crate::node::nodes_named(self.skeletons.entries@)
    }

    /// Parses one `visual_scene` block: resolves every `node` child
    /// against the phase-one registries, filing the results by node name.
    pub fn parse(
        scene: &Element,
        document: &mut Document,
        skins_by_id: &Registry<Arc<Skin>>,
    ) -> (r: Result<Scene, Error>)
        requires
            old(document).wf(),
            skins_by_id.wf(),
            crate::controller::skins_wf(skins_by_id.entries@),
        ensures
            final(document).wf(),
            final(document).asset == old(document).asset,
            final(document).cameras == old(document).cameras,
            final(document).geometries == old(document).geometries,
            final(document).animations == old(document).animations,
            final(document).skins == old(document).skins,
            final(document).scenes == old(document).scenes,
            match r {
                Ok(s) => ({
                    &&& s.wf()
                    &&& spec_attr(scene.attributes@, "id"@) == Some(s.id)
                    &&& spec_attr(scene.attributes@, "name"@) == Some(s.name)
                    &&& forall|k: int|
                        0 <= k < scene.children@.len() && (#[trigger] scene.children@[k]).name@
                            == "node"@ ==> spec_kind_count(scene.children@[k]) == 1
                    &&& forall|k: int|
                        0 <= k < scene.children@.len() && geometry_map_kind(
                            #[trigger] scene.children@[k],
                        ) ==> (spec_attr(scene.children@[k].attributes@, "name"@) is Some
                            && assoc_get(
                            s.geometries.entries@,
                            spec_node_name(scene.children@[k]),
                        ) is Some)
                    &&& forall|k: int|
                        0 <= k < scene.children@.len() && camera_map_kind(
                            #[trigger] scene.children@[k],
                        ) ==> (spec_attr(scene.children@[k].attributes@, "name"@) is Some
                            && assoc_get(
                            s.cameras.entries@,
                            spec_node_name(scene.children@[k]),
                        ) is Some)
                    &&& forall|k: int|
                        0 <= k < scene.children@.len() && skeleton_map_kind(
                            #[trigger] scene.children@[k],
                        ) ==> (spec_attr(scene.children@[k].attributes@, "name"@) is Some
                            && assoc_get(
                            s.skeletons.entries@,
                            spec_node_name(scene.children@[k]),
                        ) is Some)
                    &&& forall|k1: int, k2: int|
                        0 <= k1 < k2 < scene.children@.len() && geometry_map_kind(
                            #[trigger] scene.children@[k1],
                        ) && geometry_map_kind(#[trigger] scene.children@[k2]) ==> spec_node_name(
                            scene.children@[k1],
                        ) != spec_node_name(scene.children@[k2])
                    &&& forall|k1: int, k2: int|
                        0 <= k1 < k2 < scene.children@.len() && camera_map_kind(
                            #[trigger] scene.children@[k1],
                        ) && camera_map_kind(#[trigger] scene.children@[k2]) ==> spec_node_name(
                            scene.children@[k1],
                        ) != spec_node_name(scene.children@[k2])
                    &&& forall|k1: int, k2: int|
                        0 <= k1 < k2 < scene.children@.len() && skeleton_map_kind(
                            #[trigger] scene.children@[k1],
                        ) && skeleton_map_kind(#[trigger] scene.children@[k2]) ==> spec_node_name(
                            scene.children@[k1],
                        ) != spec_node_name(scene.children@[k2])
                }),
                Err(_) => true,
            },
    {
        let id = match scene.get_attribute("id") {
            Ok(v) => v.clone(),
            Err(e) => {
                return Err(e);
            },
        };
        let name = match scene.get_attribute("name") {
            Ok(v) => v.clone(),
            Err(e) => {
                return Err(e);
            },
        };
        let mut geometries: Registry<Node<Geometry>> = Registry::new();
        let mut cameras: Registry<Node<Camera>> = Registry::new();
        let mut skeletons: Registry<Node<Skeleton>> = Registry::new();
        let n = scene.children.len();
        let mut i: usize = 0;
        while i < n
            invariant
                n == scene.children@.len(),
                i <= n,
                document.wf(),
                document.asset == old(document).asset,
                document.cameras == old(document).cameras,
                document.geometries == old(document).geometries,
                document.animations == old(document).animations,
                document.skins == old(document).skins,
                document.scenes == old(document).scenes,
                skins_by_id.wf(),
                crate::controller::skins_wf(skins_by_id.entries@),
                geometries.wf(),
                cameras.wf(),
                skeletons.wf(),
                crate::node::nodes_named(geometries.entries@),
                crate::node::nodes_named(cameras.entries@),
                crate::node::nodes_named(skeletons.entries@),
                forall|k: int|
                    0 <= k < i && (#[trigger] scene.children@[k]).name@ == "node"@
                        ==> spec_kind_count(scene.children@[k]) == 1,
                forall|k: int|
                    0 <= k < i && geometry_map_kind(#[trigger] scene.children@[k]) ==> (spec_attr(
                        scene.children@[k].attributes@,
                        "name"@,
                    ) is Some && assoc_get(
                        geometries.entries@,
                        spec_node_name(scene.children@[k]),
                    ) is Some),
                forall|k: int|
                    0 <= k < i && camera_map_kind(#[trigger] scene.children@[k]) ==> (spec_attr(
                        scene.children@[k].attributes@,
                        "name"@,
                    ) is Some && assoc_get(
                        cameras.entries@,
                        spec_node_name(scene.children@[k]),
                    ) is Some),
                forall|k: int|
                    0 <= k < i && skeleton_map_kind(#[trigger] scene.children@[k]) ==> (spec_attr(
                        scene.children@[k].attributes@,
                        "name"@,
                    ) is Some && assoc_get(
                        skeletons.entries@,
                        spec_node_name(scene.children@[k]),
                    ) is Some),
                forall|k1: int, k2: int|
                    0 <= k1 < k2 < i && geometry_map_kind(#[trigger] scene.children@[k1])
                        && geometry_map_kind(#[trigger] scene.children@[k2]) ==> spec_node_name(
                        scene.children@[k1],
                    ) != spec_node_name(scene.children@[k2]),
                forall|k1: int, k2: int|
                    0 <= k1 < k2 < i && camera_map_kind(#[trigger] scene.children@[k1])
                        && camera_map_kind(#[trigger] scene.children@[k2]) ==> spec_node_name(
                        scene.children@[k1],
                    ) != spec_node_name(scene.children@[k2]),
                forall|k1: int, k2: int|
                    0 <= k1 < k2 < i && skeleton_map_kind(#[trigger] scene.children@[k1])
                        && skeleton_map_kind(#[trigger] scene.children@[k2]) ==> spec_node_name(
                        scene.children@[k1],
                    ) != spec_node_name(scene.children@[k2]),
            decreases n - i,
        {
            let child = &scene.children[i];
            let is_node = str_eq(child.name.as_str(), "node");
            if is_node {
                let ghost geo_pre = geometries.entries@;
                let ghost cam_pre = cameras.entries@;
                let ghost skel_pre = skeletons.entries@;
                match parse_node(
                    child,
                    document,
                    skins_by_id,
                    None,
                    &mut geometries,
                    &mut cameras,
                    &mut skeletons,
                ) {
                    Ok(()) => {
                        proof {
                            if geometry_map_kind(scene.children@[i as int]) {
                                assert(spec_kind_count(scene.children@[i as int]) == 1);
                                assert(has_instance(scene.children@[i as int], "instance_geometry"@)
                                    || has_instance(
                                    scene.children@[i as int],
                                    "instance_controller"@,
                                ));
                                assert(geometries.entries@.len() == geo_pre.len() + 1);
                                assert(geometries.entries@.last().0@ == spec_node_name(
                                    scene.children@[i as int],
                                ));
                                assert(geometries.entries@.drop_last() =~= geo_pre);
                                assert(assoc_get(
                                    geometries.entries@,
                                    spec_node_name(scene.children@[i as int]),
                                ) is Some);
                            }
                            if camera_map_kind(scene.children@[i as int]) {
                                assert(cameras.entries@.last().0@ == spec_node_name(
                                    scene.children@[i as int],
                                ));
                                assert(cameras.entries@.drop_last() =~= cam_pre);
                                assert(assoc_get(
                                    cameras.entries@,
                                    spec_node_name(scene.children@[i as int]),
                                ) is Some);
                            }
                            if skeleton_map_kind(scene.children@[i as int]) {
                                assert(skeletons.entries@.last().0@ == spec_node_name(
                                    scene.children@[i as int],
                                ));
                                assert(skeletons.entries@.drop_last() =~= skel_pre);
                                assert(assoc_get(
                                    skeletons.entries@,
                                    spec_node_name(scene.children@[i as int]),
                                ) is Some);
                            }
                            assert forall|k: int|
                                0 <= k < i + 1 && geometry_map_kind(
                                    #[trigger] scene.children@[k],
                                ) implies (spec_attr(scene.children@[k].attributes@, "name"@)
                                is Some && assoc_get(
                                geometries.entries@,
                                spec_node_name(scene.children@[k]),
                            ) is Some) by {
                                if k < i {
                                    assert(assoc_get(
                                        geo_pre,
                                        spec_node_name(scene.children@[k]),
                                    ) is Some);
                                    assert(assoc_get(
                                        geometries.entries@,
                                        spec_node_name(scene.children@[k]),
                                    ) == assoc_get(geo_pre, spec_node_name(scene.children@[k])));
                                }
                            }
                            assert forall|k: int|
                                0 <= k < i + 1 && camera_map_kind(
                                    #[trigger] scene.children@[k],
                                ) implies (spec_attr(scene.children@[k].attributes@, "name"@)
                                is Some && assoc_get(
                                cameras.entries@,
                                spec_node_name(scene.children@[k]),
                            ) is Some) by {
                                if k < i {
                                    assert(assoc_get(
                                        cam_pre,
                                        spec_node_name(scene.children@[k]),
                                    ) is Some);
                                    assert(assoc_get(
                                        cameras.entries@,
                                        spec_node_name(scene.children@[k]),
                                    ) == assoc_get(cam_pre, spec_node_name(scene.children@[k])));
                                }
                            }
                            assert forall|k: int|
                                0 <= k < i + 1 && skeleton_map_kind(
                                    #[trigger] scene.children@[k],
                                ) implies (spec_attr(scene.children@[k].attributes@, "name"@)
                                is Some && assoc_get(
                                skeletons.entries@,
                                spec_node_name(scene.children@[k]),
                            ) is Some) by {
                                if k < i {
                                    assert(assoc_get(
                                        skel_pre,
                                        spec_node_name(scene.children@[k]),
                                    ) is Some);
                                    assert(assoc_get(
                                        skeletons.entries@,
                                        spec_node_name(scene.children@[k]),
                                    ) == assoc_get(skel_pre, spec_node_name(scene.children@[k])));
                                }
                            }
                        }
                    },
                    Err(e) => {
                        return Err(e);
                    },
                }
            }
            i = i + 1;
        }
        Ok(Scene { id, name, geometries, cameras, skeletons })
    }
}

/// Whether every scene a registry holds has unique node names.
pub open spec fn scenes_wf(entries: Seq<(String, Arc<Scene>)>) -> bool {
    forall|i: int| 0 <= i < entries.len() ==> (*(#[trigger] entries[i]).1).wf()
}

/// Whether registry entry `base + j` carries the `j`-th `visual_scene`
/// child of `children`: registered under its declared ID, holding a
/// well-formed scene of that ID and name.
pub open spec fn scene_entry_matches(
    entries: Seq<(String, Arc<Scene>)>,
    children: Seq<Element>,
    base: int,
    j: int,
) -> bool {
    let child = nth_named(children, "visual_scene"@, j);
    &&& spec_attr(child.attributes@, "id"@) is Some
    &&& spec_attr(child.attributes@, "name"@) is Some
    &&& entries[base + j].0 == spec_attr(child.attributes@, "id"@)->0
    &&& (*entries[base + j].1).id == spec_attr(child.attributes@, "id"@)->0
    &&& (*entries[base + j].1).name == spec_attr(child.attributes@, "name"@)->0
    &&& (*entries[base + j].1).wf()
}

/// Walks the scene library: every `visual_scene` child becomes one scene
/// in the document, keyed by its declared ID; a duplicate ID is an error,
/// and a document without a scene library is refused.
pub fn parse_scenes(
    root: &Element,
    document: &mut Document,
    skins_by_id: Registry<Arc<Skin>>,
) -> (r: Result<(), Error>)
    requires
        old(document).wf(),
        skins_by_id.wf(),
        crate::controller::skins_wf(skins_by_id.entries@),
    ensures
        final(document).wf(),
        final(document).asset == old(document).asset,
        final(document).cameras == old(document).cameras,
        final(document).geometries == old(document).geometries,
        final(document).animations == old(document).animations,
        final(document).skins == old(document).skins,
        match r {
            Ok(()) => ({
                let base = old(document).scenes.entries@.len() as int;
                &&& unique_child(*root, "library_visual_scenes"@) matches Some(lib)
                    && final(document).scenes.entries@.len() == base + count_named(
                    lib.children@,
                    "visual_scene"@,
                ) && (forall|j: int|
                    0 <= j < count_named(lib.children@, "visual_scene"@)
                        ==> #[trigger] scene_entry_matches(
                        final(document).scenes.entries@,
                        lib.children@,
                        base,
                        j,
                    ))
                &&& forall|k: int|
                    0 <= k < base ==> final(document).scenes.entries@[k] == old(
                        document,
                    ).scenes.entries@[k]
            }),
            Err(_) => true,
        },
        unique_child(*root, "library_visual_scenes"@) is None ==> r is Err,
{
    let scenes_element = match root.get_element("library_visual_scenes") {
        Ok(c) => c,
        Err(e) => {
            return Err(e);
        },
    };
    let n = scenes_element.children.len();
    let ghost base = old(document).scenes.entries@.len() as int;
    let mut i: usize = 0;
    proof {
        assert(scenes_element.children@.take(0int) =~= Seq::<Element>::empty());
    }
    while i < n
        invariant
            n == scenes_element.children@.len(),
            i <= n,
            document.wf(),
            document.asset == old(document).asset,
            document.cameras == old(document).cameras,
            document.geometries == old(document).geometries,
            document.animations == old(document).animations,
            document.skins == old(document).skins,
            skins_by_id.wf(),
            crate::controller::skins_wf(skins_by_id.entries@),
            base == old(document).scenes.entries@.len(),
            document.scenes.entries@.len() == base + count_named(
                scenes_element.children@.take(i as int),
                "visual_scene"@,
            ),
            forall|k: int|
                0 <= k < base ==> document.scenes.entries@[k] == old(
                    document,
                ).scenes.entries@[k],
            forall|j: int|
                0 <= j < count_named(scenes_element.children@.take(i as int), "visual_scene"@)
                    ==> #[trigger] scene_entry_matches(
                    document.scenes.entries@,
                    scenes_element.children@.take(i as int),
                    base,
                    j,
                ),
        decreases n - i,
    {
        proof {
            assert(scenes_element.children@.take(i + 1).drop_last()
                =~= scenes_element.children@.take(i as int));
        }
        let child = &scenes_element.children[i];
        let is_scene = str_eq(child.name.as_str(), "visual_scene");
        if !is_scene {
            proof {
                lemma_named_skip(scenes_element.children@, "visual_scene"@, i as int);
                assert forall|j: int|
                    0 <= j < count_named(
                        scenes_element.children@.take(i + 1),
                        "visual_scene"@,
                    ) implies #[trigger] scene_entry_matches(
                    document.scenes.entries@,
                    scenes_element.children@.take(i + 1),
                    base,
                    j,
                ) by {
                    assert(scene_entry_matches(
                        document.scenes.entries@,
                        scenes_element.children@.take(i as int),
                        base,
                        j,
                    ));
                }
            }
        }
        if is_scene {
            let scene = match Scene::parse(child, document, &skins_by_id) {
                Ok(s) => s,
                Err(e) => {
                    return Err(e);
                },
            };
            let scene_id = scene.id.clone();
            let ghost scenes_before = document.scenes.entries@;
            let ghost done = count_named(scenes_element.children@.take(i as int), "visual_scene"@) as int;
            match document.scenes.insert(scene_id.clone(), Arc::new(scene)) {
                Ok(()) => {
                    proof {
                        assert(forall|k: int|
                            0 <= k < scenes_before.len() ==> document.scenes.entries@[k]
                                == scenes_before[k]);
                        assert forall|j: int|
                            0 <= j < count_named(
                                scenes_element.children@.take(i + 1),
                                "visual_scene"@,
                            ) implies #[trigger] scene_entry_matches(
                            document.scenes.entries@,
                            scenes_element.children@.take(i + 1),
                            base,
                            j,
                        ) by {
                            assert(scenes_element.children@.take(i + 1).take(i as int)
                                =~= scenes_element.children@.take(i as int));
                            if j < done {
                                assert(document.scenes.entries@[base + j] == scenes_before[base
                                    + j]);
                                assert(scene_entry_matches(
                                    scenes_before,
                                    scenes_element.children@.take(i as int),
                                    base,
                                    j,
                                ));
                                lemma_nth_named_extends(
                                    scenes_element.children@.take(i + 1),
                                    "visual_scene"@,
                                    i as int,
                                    j,
                                );
                            } else {
                                assert(count_named(
                                    scenes_element.children@.take(i as int),
                                    "visual_scene"@,
                                ) == j);
                                assert(nth_named(
                                    scenes_element.children@.take(i + 1),
                                    "visual_scene"@,
                                    j,
                                ) == scenes_element.children@[i as int]);
                            }
                        }
                    }
                },
                Err(()) => {
                    return Err(
                        Error::DuplicateId { scope: ("scene").to_owned(), id: scene_id },
                    );
                },
            }
        }
        i = i + 1;
    }
    proof {
        assert(scenes_element.children@.take(n as int) =~= scenes_element.children@);
    }
    Ok(())
}

} // verus!
