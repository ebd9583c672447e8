//! The document: the per-library registries built in phase one, plus the
//! scenes resolved against them in phase two.

use vstd::prelude::*;

use crate::animation::Animation;
use crate::animation::animation_entry_matches;
use crate::animation::animations_wf;
use crate::animation::parse_animations;
use crate::asset::Asset;
use crate::asset::spec_parse_asset;
use crate::camera::Camera;
use crate::camera::parse_cameras;
use crate::camera::spec_parse_camera;
use crate::controller::parse_controllers;
use crate::controller::controller_entry_matches;
use crate::controller::count_skinned;
use crate::controller::skin_entry_matches;
use crate::controller::skins_keyed_by_geometry;
use crate::controller::skins_wf;
use crate::error::Error;
use crate::geometry::Geometry;
use crate::geometry::geometries_wf;
use crate::geometry::geometry_entry_matches;
use crate::geometry::geometry_meshes_numbered;
use crate::geometry::spec_mesh_total_upto;
use crate::geometry::parse_geometries;
use crate::registry::Registry;
use crate::scene::Scene;
use crate::scene::parse_scenes;
use crate::scene::scene_entry_matches;
use crate::scene::scenes_wf;
use crate::skeleton::Skeleton;
use crate::skeleton::skeletons_wf;
use crate::skin::Skin;
use crate::xml::Element;
use crate::xml::count_named;
use crate::xml::spec_attr;
use crate::xml::unique_child;

use std::sync::Arc;

verus! {

/// A fully-resolved, immutable document: the global asset context, the
/// phase-one libraries keyed by declared ID, and the scenes.
pub struct Document {
    pub asset: Asset,
    pub cameras: Registry<Arc<Camera>>,
    pub geometries: Registry<Arc<Geometry>>,
    pub skins: Registry<Arc<Skin>>,
    pub animations: Registry<Arc<Animation>>,
    pub skeletons: Registry<Arc<Skeleton>>,
    pub scenes: Registry<Arc<Scene>>,
}

impl Document {
    /// Whether the document is internally consistent: every registry has
    /// unique IDs, every skin, geometry, animation and scene is
    /// well-formed, and every skeleton's bone array has back-pointing
    /// parents only.
    pub open spec fn wf(&self) -> bool {
        &&& self.cameras.wf()
        &&& self.geometries.wf()
        &&& self.skins.wf()
        &&& self.animations.wf()
        &&& self.skeletons.wf()
        &&& self.scenes.wf()
        &&& geometries_wf(self.geometries.entries@)
        &&& skins_wf(self.skins.entries@)
        &&& animations_wf(self.animations.entries@)
        &&& skeletons_wf(self.skeletons.entries@)
        &&& scenes_wf(self.scenes.entries@)
    }

    /// Imports a whole document from its element tree, in two phases:
    /// every library is parsed into an ID-keyed registry (cameras,
    /// geometries, animations, controllers), then the scenes are walked
    /// and every instance reference is resolved against those registries.
    /// The first structural or referential error anywhere aborts the
    /// import.
    #[verifier::spinoff_prover]
    #[verifier::rlimit(100)]
    pub fn parse(root: &Element) -> (r: Result<Document, Error>)
        ensures
            match r {
                Ok(document) => ({
                    &&& document.wf()
                    &&& spec_parse_asset(*root) == Some(document.asset)
                    &&& unique_child(*root, "library_cameras"@) matches Some(cams)
                        && document.cameras.entries@.len() == cams.children@.len() && (forall|
                        i: int,
                    |
                        0 <= i < cams.children@.len() ==> (spec_parse_camera(
                            #[trigger] cams.children@[i],
                        ) matches Some(c) && document.cameras.entries@[i].0 == c.id
                            && *document.cameras.entries@[i].1 == c))
                    &&& match unique_child(*root, "library_geometries"@) {
                        Some(lib) => document.geometries.entries@.len() == count_named(
                            lib.children@,
                            "geometry"@,
                        ) && (forall|j: int|
                            0 <= j < document.geometries.entries@.len()
                                ==> #[trigger] geometry_entry_matches(
                                document.geometries.entries@,
                                lib.children@,
                                j,
                            )) && (spec_mesh_total_upto(
                            lib.children@,
                            count_named(lib.children@, "geometry"@) as int,
                        ) <= usize::MAX ==> (forall|j: int|
                            0 <= j < document.geometries.entries@.len()
                                ==> #[trigger] geometry_meshes_numbered(
                                document.geometries.entries@,
                                lib.children@,
                                j,
                            ))),
                        None => document.geometries.entries@.len() == 0,
                    }
                    &&& match unique_child(*root, "library_animations"@) {
                        Some(lib) => document.animations.entries@.len() == count_named(
                            lib.children@,
                            "animation"@,
                        ) && forall|j: int|
                            0 <= j < document.animations.entries@.len()
                                ==> #[trigger] animation_entry_matches(
                                document.animations.entries@,
                                lib.children@,
                                j,
                            ),
                        None => document.animations.entries@.len() == 0,
                    }
                    &&& skins_keyed_by_geometry(document.skins.entries@)
                    &&& unique_child(*root, "library_controllers"@) matches Some(ctrl_lib) && ({
                        &&& document.skins.entries@.len() == count_skinned(ctrl_lib.children@)
                        &&& forall|j: int|
                            0 <= j < document.skins.entries@.len()
                                ==> #[trigger] skin_entry_matches(
                                document.skins.entries@,
                                ctrl_lib.children@,
                                j,
                            )
                    })
                    &&& unique_child(*root, "library_visual_scenes"@) matches Some(lib)
                        && document.scenes.entries@.len() == count_named(
                        lib.children@,
                        "visual_scene"@,
                    ) && (forall|j: int|
                        0 <= j < count_named(lib.children@, "visual_scene"@)
                            ==> #[trigger] scene_entry_matches(
                            document.scenes.entries@,
                            lib.children@,
                            0,
                            j,
                        ))
                }),
                Err(_) => true,
            },
            spec_attr(root.attributes@, "version"@) is None ==> r is Err,
            spec_parse_asset(*root) is None ==> r is Err,
            !crate::camera::spec_cameras_ok(*root) ==> r is Err,
            unique_child(*root, "library_controllers"@) is None ==> r is Err,
            unique_child(*root, "library_visual_scenes"@) is None ==> r is Err,
    {
        match root.get_attribute("version") {
            Ok(_) => {},
            Err(e) => {
                return Err(e);
            },
        }
        let asset = match Asset::parse(root) {
            Ok(a) => a,
            Err(e) => {
                return Err(e);
            },
        };
        let cameras = match parse_cameras(root) {
            Ok(c) => c,
            Err(e) => {
                return Err(e);
            },
        };
        let geometries = match parse_geometries(root, &asset) {
            Ok(g) => g,
            Err(e) => {
                return Err(e);
            },
        };
        let animations = match parse_animations(root, &asset) {
            Ok(a) => a,
            Err(e) => {
                return Err(e);
            },
        };
        let (skins, skins_by_id) = match parse_controllers(root, &asset) {
            Ok(s) => s,
            Err(e) => {
                return Err(e);
            },
        };
        let ghost by_id_entries = skins_by_id.entries@;
        let ghost by_geom_entries = skins.entries@;
        let mut document = Document {
            asset,
            cameras,
            geometries,
            animations,
            skins,
            skeletons: Registry::new(),
            scenes: Registry::new(),
        };
        match parse_scenes(root, &mut document, skins_by_id) {
            Ok(()) => {},
            Err(e) => {
                return Err(e);
            },
        }
        proof {
            if unique_child(*root, "library_controllers"@) is Some {
                let ctrl_lib = unique_child(*root, "library_controllers"@)->0;
                assert forall|j: int|
                    0 <= j < document.skins.entries@.len() implies #[trigger] skin_entry_matches(
                    document.skins.entries@,
                    ctrl_lib.children@,
                    j,
                ) by {
                    assert(controller_entry_matches(
                        by_geom_entries,
                        by_id_entries,
                        ctrl_lib.children@,
                        j,
                    ));
                }
            }
        }
        Ok(document)
    }
}

} // verus!
