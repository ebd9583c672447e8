//! Skeletons: flat bone arrays built by a pre-order walk of nested joint
//! nodes.
//!
//! Every bone carries its own position in the array and an optional parent
//! position; parents are always visited before their children, so a
//! bone's parent index is strictly smaller than its own -- the hierarchy
//! cannot hold a cycle.

use vstd::prelude::*;

use crate::document::Document;
use crate::error::Error;
use crate::location::Location;
use crate::location::Matrix;
use crate::node::Node;
use crate::node::parse_node;
use crate::camera::Camera;
use crate::geometry::Geometry;
use crate::registry::Registry;
use crate::skin::Skin;
use crate::source::share;
use crate::text::str_eq;
use crate::xml::Element;
use crate::xml::elem_size;
use crate::xml::lemma_elem_child_size;

use std::sync::Arc;

verus! {

/// One bone: its identity, its stable position in the skeleton's bone
/// array, its parent's position (always smaller), and its placement.
pub struct Bone {
    pub id: String,
    pub sid: String,
    pub name: String,
    pub skeleton_id: String,
    pub index: usize,
    pub parent: Option<usize>,
    pub location: Location,
}

/// Whether a bone array is consistent: every bone knows its own position,
/// and every parent position is strictly smaller than its child's, so no
/// chain of parents can loop.
pub open spec fn bones_wf(s: Seq<Arc<Bone>>) -> bool {
    forall|i: int|
        0 <= i < s.len() ==> (*#[trigger] s[i]).index == i && ((*s[i]).parent matches Some(p)
            ==> p < i)
}

/// Whether every bone map entry is keyed by its bone's own ID.
pub open spec fn bones_keyed_by_id(entries: Seq<(String, Arc<Bone>)>) -> bool {
    forall|j: int| 0 <= j < entries.len() ==> (#[trigger] entries[j]).0 == (*entries[j].1).id
}

/// One skeleton: its ordered bone array and an ID-keyed map of the same
/// bones.
pub struct Skeleton {
    pub id: String,
    pub location: Location,
    pub bones_array: Vec<Arc<Bone>>,
    pub bones: Registry<Arc<Bone>>,
}

impl Skeleton {
    /// Whether the skeleton is consistent: the bone array is well-formed,
    /// and the ID map holds exactly the array's bones, in order, each
    /// registered under its own ID, with no ID repeated.
    pub open spec fn wf(&self) -> bool {
        &&& bones_wf(self.bones_array@)
        &&& self.bones.wf()
        &&& bones_keyed_by_id(self.bones.entries@)
        &&& self.bones.entries@.len() == self.bones_array@.len()
        &&& forall|j: int|
            0 <= j < self.bones_array@.len() ==> (#[trigger] self.bones.entries@[j]).1
                == self.bones_array@[j]
    }

    /// Parses the joint sub-trees of `skeleton_element` into a skeleton:
    /// every `node` child typed `JOINT` becomes a root bone, walked
    /// pre-order.
    pub fn parse(
        skeleton_element: &Element,
        document: &mut Document,
        skins_by_id: &Registry<Arc<Skin>>,
        id: String,
        location: Location,
        geometries: &mut Registry<Node<Geometry>>,
        cameras: &mut Registry<Node<Camera>>,
        skeletons: &mut Registry<Node<Skeleton>>,
    ) -> (r: Result<Skeleton, Error>)
        requires
            old(document).wf(),
            old(geometries).wf(),
            old(cameras).wf(),
            old(skeletons).wf(),
            crate::node::nodes_named(old(geometries).entries@),
            crate::node::nodes_named(old(cameras).entries@),
            crate::node::nodes_named(old(skeletons).entries@),
            skins_by_id.wf(),
            crate::controller::skins_wf(skins_by_id.entries@),
        ensures
            final(document).wf(),
            final(geometries).wf(),
            final(cameras).wf(),
            final(skeletons).wf(),
            crate::node::nodes_named(final(geometries).entries@),
            crate::node::nodes_named(final(cameras).entries@),
            crate::node::nodes_named(final(skeletons).entries@),
            final(document).asset == old(document).asset,
            final(document).cameras == old(document).cameras,
            final(document).geometries == old(document).geometries,
            final(document).animations == old(document).animations,
            final(document).skins == old(document).skins,
            final(document).scenes == old(document).scenes,
            final(document).skeletons == old(document).skeletons,
            *final(skeletons) == *old(skeletons),
            crate::registry::keys_stable(old(geometries).entries@, final(geometries).entries@),
            crate::registry::keys_stable(old(cameras).entries@, final(cameras).entries@),
            match r {
                Ok(sk) => sk.wf() && sk.id == id && sk.location == location,
                Err(_) => true,
            },
        decreases elem_size(*skeleton_element), 0nat,
    {
        let mut bones_array: Vec<Arc<Bone>> = Vec::new();
        let mut bones: Registry<Arc<Bone>> = Registry::new();
        let n = skeleton_element.children.len();
        let mut i: usize = 0;
        while i < n
            invariant
                n == skeleton_element.children@.len(),
                i <= n,
                document.wf(),
                geometries.wf(),
                cameras.wf(),
                skeletons.wf(),
                crate::node::nodes_named(geometries.entries@),
                crate::node::nodes_named(cameras.entries@),
                crate::node::nodes_named(skeletons.entries@),
                skins_by_id.wf(),
                crate::controller::skins_wf(skins_by_id.entries@),
                document.asset == old(document).asset,
                document.cameras == old(document).cameras,
                document.geometries == old(document).geometries,
                document.animations == old(document).animations,
                document.skins == old(document).skins,
                document.scenes == old(document).scenes,
                document.skeletons == old(document).skeletons,
                *skeletons == *old(skeletons),
                crate::registry::keys_stable(old(geometries).entries@, geometries.entries@),
                crate::registry::keys_stable(old(cameras).entries@, cameras.entries@),
                bones_wf(bones_array@),
                bones.wf(),
                bones_keyed_by_id(bones.entries@),
                bones.entries@.len() == bones_array@.len(),
                forall|j: int|
                    0 <= j < bones_array@.len() ==> (#[trigger] bones.entries@[j]).1
                        == bones_array@[j],
            decreases n - i,
        {
            let child = &skeleton_element.children[i];
            if str_eq(child.name.as_str(), "node") {
                let node_type = match child.get_attribute("type") {
                    Ok(v) => v,
                    Err(e) => {
                        return Err(e);
                    },
                };
                if str_eq(node_type.as_str(), "JOINT") {
                    proof {
                        lemma_elem_child_size(*skeleton_element, i as int);
                    }
                    match Bone::parse(
                        child,
                        document,
                        skins_by_id,
                        id.clone(),
                        None,
                        geometries,
                        cameras,
                        skeletons,
                        &mut bones_array,
                        &mut bones,
                    ) {
                        Ok(()) => {},
                        Err(e) => {
                            return Err(e);
                        },
                    }
                }
            }
            i = i + 1;
        }
        Ok(Skeleton { id, location, bones_array, bones })
    }
}

impl Bone {
    /// Parses one joint node into a bone at the next free position of
    /// `bones_array`, then walks its children pre-order: joint children
    /// become bones parented to this one, every other `node` child becomes
    /// an ordinary scene node rigidly attached to this bone.
    pub fn parse(
        bone_element: &Element,
        document: &mut Document,
        skins_by_id: &Registry<Arc<Skin>>,
        skeleton_id: String,
        parent: Option<usize>,
        geometries: &mut Registry<Node<Geometry>>,
        cameras: &mut Registry<Node<Camera>>,
        skeletons: &mut Registry<Node<Skeleton>>,
        bones_array: &mut Vec<Arc<Bone>>,
        bones: &mut Registry<Arc<Bone>>,
    ) -> (r: Result<(), Error>)
        requires
            old(document).wf(),
            old(geometries).wf(),
            old(cameras).wf(),
            old(skeletons).wf(),
            crate::node::nodes_named(old(geometries).entries@),
            crate::node::nodes_named(old(cameras).entries@),
            crate::node::nodes_named(old(skeletons).entries@),
            skins_by_id.wf(),
            crate::controller::skins_wf(skins_by_id.entries@),
            bones_wf(old(bones_array)@),
            old(bones).wf(),
            bones_keyed_by_id(old(bones).entries@),
            old(bones).entries@.len() == old(bones_array)@.len(),
            forall|j: int|
                0 <= j < old(bones_array)@.len() ==> (#[trigger] old(bones).entries@[j]).1 == old(
                    bones_array,
                )@[j],
            parent matches Some(p) ==> p < old(bones_array)@.len(),
        ensures
            final(document).wf(),
            final(geometries).wf(),
            final(cameras).wf(),
            final(skeletons).wf(),
            crate::node::nodes_named(final(geometries).entries@),
            crate::node::nodes_named(final(cameras).entries@),
            crate::node::nodes_named(final(skeletons).entries@),
            final(document).asset == old(document).asset,
            final(document).cameras == old(document).cameras,
            final(document).geometries == old(document).geometries,
            final(document).animations == old(document).animations,
            final(document).skins == old(document).skins,
            final(document).scenes == old(document).scenes,
            final(document).skeletons == old(document).skeletons,
            *final(skeletons) == *old(skeletons),
            crate::registry::keys_stable(old(geometries).entries@, final(geometries).entries@),
            crate::registry::keys_stable(old(cameras).entries@, final(cameras).entries@),
            bones_wf(final(bones_array)@),
            final(bones).wf(),
            bones_keyed_by_id(final(bones).entries@),
            final(bones_array)@.len() >= old(bones_array)@.len(),
            forall|k: int|
                0 <= k < old(bones_array)@.len() ==> final(bones_array)@[k] == old(
                    bones_array,
                )@[k],
            match r {
                Ok(()) => ({
                    let added = final(bones_array)@[old(bones_array)@.len() as int];
                    &&& final(bones_array)@.len() > old(bones_array)@.len()
                    &&& (*added).parent == parent
                    &&& (*added).index == old(bones_array)@.len()
                    &&& final(bones).entries@.len() == final(bones_array)@.len()
                    &&& forall|j: int|
                        0 <= j < final(bones_array)@.len() ==> (
                        #[trigger] final(bones).entries@[j]).1 == final(bones_array)@[j]
                }),
                Err(_) => true,
            },
        decreases elem_size(*bone_element), 1nat,
    {
        let id = match bone_element.get_attribute("id") {
            Ok(v) => v.clone(),
            Err(e) => {
                return Err(e);
            },
        };
        let sid = match bone_element.get_attribute("sid") {
            Ok(v) => v.clone(),
            Err(e) => {
                return Err(e);
            },
        };
        let name = match bone_element.get_attribute("name") {
            Ok(v) => v.clone(),
            Err(e) => {
                return Err(e);
            },
        };
        let index = bones_array.len();
        let matrix_text = match bone_element.get_element("matrix") {
            Ok(c) => match c.get_text() {
                Ok(t) => t,
                Err(e) => {
                    return Err(e);
                },
            },
            Err(e) => {
                return Err(e);
            },
        };
        let matrix = match Matrix::parse(matrix_text) {
            Ok(m) => m,
            Err(e) => {
                return Err(e);
            },
        };
        let location = matrix.to_location(&document.asset);
        let bone = Arc::new(
            Bone {
                id: id.clone(),
                sid,
                name,
                skeleton_id: skeleton_id.clone(),
                index,
                parent,
                location,
            },
        );
        let ghost before = bones_array@;
        bones_array.push(share(&bone));
        proof {
            assert forall|k: int| 0 <= k < bones_array@.len() implies (*#[trigger] bones_array@[k]).index
                == k && ((*bones_array@[k]).parent matches Some(p) ==> p < k) by {
                if k < before.len() {
                    assert(bones_array@[k] == before[k]);
                }
            }
        }
        match bones.insert(id.clone(), share(&bone)) {
            Ok(()) => {},
            Err(()) => {
                return Err(Error::DuplicateId { scope: ("bone").to_owned(), id });
            },
        }
        let n = bone_element.children.len();
        let mut i: usize = 0;
        while i < n
            invariant
                n == bone_element.children@.len(),
                i <= n,
                document.wf(),
                geometries.wf(),
                cameras.wf(),
                skeletons.wf(),
                crate::node::nodes_named(geometries.entries@),
                crate::node::nodes_named(cameras.entries@),
                crate::node::nodes_named(skeletons.entries@),
                skins_by_id.wf(),
                crate::controller::skins_wf(skins_by_id.entries@),
                document.asset == old(document).asset,
                document.cameras == old(document).cameras,
                document.geometries == old(document).geometries,
                document.animations == old(document).animations,
                document.skins == old(document).skins,
                document.scenes == old(document).scenes,
                document.skeletons == old(document).skeletons,
                *skeletons == *old(skeletons),
                crate::registry::keys_stable(old(geometries).entries@, geometries.entries@),
                crate::registry::keys_stable(old(cameras).entries@, cameras.entries@),
                bones_wf(bones_array@),
                bones.wf(),
                bones_keyed_by_id(bones.entries@),
                bones.entries@.len() == bones_array@.len(),
                forall|j: int|
                    0 <= j < bones_array@.len() ==> (#[trigger] bones.entries@[j]).1
                        == bones_array@[j],
                index < bones_array@.len(),
                bones_array@.len() > old(bones_array)@.len(),
                index == old(bones_array)@.len(),
                forall|k: int|
                    0 <= k < old(bones_array)@.len() ==> bones_array@[k] == old(bones_array)@[k],
                bones_array@[index as int] == bone,
                (*bone).parent == parent,
                (*bone).index == index,
            decreases n - i,
        {
            let child = &bone_element.children[i];
            if str_eq(child.name.as_str(), "node") {
                let node_type = match child.get_attribute("type") {
                    Ok(v) => v,
                    Err(e) => {
                        return Err(e);
                    },
                };
                proof {
                    lemma_elem_child_size(*bone_element, i as int);
                }
                if str_eq(node_type.as_str(), "JOINT") {
                    match Bone::parse(
                        child,
                        document,
                        skins_by_id,
                        skeleton_id.clone(),
                        Some(index),
                        geometries,
                        cameras,
                        skeletons,
                        bones_array,
                        bones,
                    ) {
                        Ok(()) => {},
                        Err(e) => {
                            return Err(e);
                        },
                    }
                } else {
                    match parse_node(
                        child,
                        document,
                        skins_by_id,
                        Some(share(&bone)),
                        geometries,
                        cameras,
                        skeletons,
                    ) {
                        Ok(()) => {},
                        Err(e) => {
                            return Err(e);
                        },
                    }
                }
            }
            i = i + 1;
        }
        Ok(())
    }
}

/// Bone identity: in a well-formed skeleton no two bones share an ID --
/// the ID map holds every bone of the array under its own unique key.
pub proof fn lemma_bone_ids_unique(sk: Skeleton)
    requires
        sk.wf(),
    ensures
        forall|i1: int, i2: int|
            0 <= i1 < i2 < sk.bones_array@.len() ==> (*#[trigger] sk.bones_array@[i1]).id@ != (*
            #[trigger] sk.bones_array@[i2]).id@,
{
    assert forall|i1: int, i2: int|
        0 <= i1 < i2 < sk.bones_array@.len() implies (*#[trigger] sk.bones_array@[i1]).id@ != (*
    #[trigger] sk.bones_array@[i2]).id@ by {
        assert(sk.bones.entries@[i1].0@ != sk.bones.entries@[i2].0@);
        assert(sk.bones.entries@[i1].1 == sk.bones_array@[i1]);
        assert(sk.bones.entries@[i2].1 == sk.bones_array@[i2]);
    }
}

/// Whether every skeleton a registry holds is well-formed: this is where
/// the document's bone-acyclicity invariant lives.
pub open spec fn skeletons_wf(entries: Seq<(String, Arc<Skeleton>)>) -> bool {
    forall|i: int| 0 <= i < entries.len() ==> (*(#[trigger] entries[i]).1).wf()
}

/// Whether consecutive entries of `chain` each name the parent of the one
/// before: `chain[k + 1]` is the parent index of the bone at `chain[k]`.
pub open spec fn is_parent_chain(bones: Seq<Arc<Bone>>, chain: Seq<int>) -> bool {
    &&& forall|k: int| 0 <= k < chain.len() ==> 0 <= #[trigger] chain[k] < bones.len()
    &&& forall|k: int|
        0 <= k < chain.len() - 1 ==> (*bones[#[trigger] chain[k]]).parent == Some(
            chain[k + 1] as usize,
        )
}

/// Bone acyclicity: in a well-formed bone array, walking parent links
/// strictly descends, so no chain of parent links can return to where it
/// started -- the bone graph has no cycle.
pub proof fn lemma_bone_hierarchy_acyclic(bones: Seq<Arc<Bone>>, chain: Seq<int>)
    requires
        bones_wf(bones),
        is_parent_chain(bones, chain),
        chain.len() >= 2,
    ensures
        chain.last() < chain.first(),
    decreases chain.len(),
{
    if chain.len() == 2 {
        assert((*bones[chain[0]]).parent == Some(chain[1] as usize));
        assert(chain[1] < chain[0]);
    } else {
        let rest = chain.drop_first();
        assert forall|k: int| 0 <= k < rest.len() - 1 implies (*bones[#[trigger] rest[k]]).parent
            == Some(rest[k + 1] as usize) by {
            assert(chain[k + 1] == rest[k] && chain[k + 2] == rest[k + 1]);
        }
        lemma_bone_hierarchy_acyclic(bones, rest);
        assert((*bones[chain[0]]).parent == Some(chain[1] as usize));
        assert(chain[1] < chain[0]);
    }
}

} // verus!
