//! Cameras: perspective parameters looked up and parsed from the camera
//! library, one registry entry per declared camera ID.

use vstd::prelude::*;

use crate::error::Error;
use crate::float::FloatBits;
use crate::float::f32_of_text;
use crate::registry::Registry;
use crate::xml::Element;
use crate::xml::child_text;
use crate::xml::spec_attr;
use crate::xml::unique_child;

use std::sync::Arc;

verus! {

/// A perspective projection: near plane, far plane and horizontal field
/// of view.
pub struct Perspective {
    pub z_near: FloatBits,
    pub z_far: FloatBits,
    pub x_fov: FloatBits,
}

/// One camera: its declared ID and name and its perspective.
pub struct Camera {
    pub id: String,
    pub name: String,
    pub perspective: Perspective,
}

/// The float value of the text of the unique child named `name`, when the
/// chain holds together.
pub open spec fn spec_float_child(e: Element, name: Seq<char>) -> Option<u32> {
    match child_text(e, name) {
        Some(t) => f32_of_text(t@),
        None => None,
    }
}

/// What parsing a `camera` block yields, if it is well-formed: its `id`
/// and `name` and the three perspective floats under
/// `optics/technique_common/perspective`.
pub open spec fn spec_parse_camera(camera: Element) -> Option<Camera> {
    match spec_attr(camera.attributes@, "id"@) {
        None => None,
        Some(id) => match spec_attr(camera.attributes@, "name"@) {
            None => None,
            Some(name) => match unique_child(camera, "optics"@) {
                None => None,
                Some(optics) => match unique_child(optics, "technique_common"@) {
                    None => None,
                    Some(tc) => match unique_child(tc, "perspective"@) {
                        None => None,
                        Some(p) => match (
                            spec_float_child(p, "znear"@),
                            spec_float_child(p, "zfar"@),
                            spec_float_child(p, "xfov"@),
                        ) {
                            (Some(z_near), Some(z_far), Some(x_fov)) => Some(
                                Camera {
                                    id,
                                    name,
                                    perspective: Perspective {
                                        z_near: FloatBits { bits: z_near },
                                        z_far: FloatBits { bits: z_far },
                                        x_fov: FloatBits { bits: x_fov },
                                    },
                                },
                            ),
                            _ => None,
                        },
                    },
                },
            },
        },
    }
}

impl Camera {
    /// Parses one `camera` block: it succeeds exactly on the blocks
    /// `spec_parse_camera` accepts, and returns exactly that value.
    pub fn parse(camera: &Element) -> (r: Result<Camera, Error>)
        ensures
            match r {
                Ok(c) => spec_parse_camera(*camera) == Some(c),
                Err(_) => spec_parse_camera(*camera) is None,
            },
    {
        let id = match camera.get_attribute("id") {
            Ok(v) => v.clone(),
            Err(e) => {
                return Err(e);
            },
        };
        let name = match camera.get_attribute("name") {
            Ok(v) => v.clone(),
            Err(e) => {
                return Err(e);
            },
        };
        let optics = match camera.get_element("optics") {
            Ok(c) => c,
            Err(e) => {
                return Err(e);
            },
        };
        let technique = match optics.get_element("technique_common") {
            Ok(c) => c,
            Err(e) => {
                return Err(e);
            },
        };
        let perspective = match technique.get_element("perspective") {
            Ok(c) => c,
            Err(e) => {
                return Err(e);
            },
        };
        let z_near = match perspective.parse_text_as_f32("znear") {
            Ok(f) => f,
            Err(e) => {
                return Err(e);
            },
        };
        let z_far = match perspective.parse_text_as_f32("zfar") {
            Ok(f) => f,
            Err(e) => {
                return Err(e);
            },
        };
        let x_fov = match perspective.parse_text_as_f32("xfov") {
            Ok(f) => f,
            Err(e) => {
                return Err(e);
            },
        };
        Ok(Camera { id, name, perspective: Perspective { z_near, z_far, x_fov } })
    }
}

/// Whether the camera library is acceptable: it exists, every child
/// parses as a camera, and no two declare one ID.
pub open spec fn spec_cameras_ok(root: Element) -> bool {
    &&& unique_child(root, "library_cameras"@) matches Some(lib) && (forall|i: int|
        0 <= i < lib.children@.len() ==> spec_parse_camera(#[trigger] lib.children@[i]) is Some)
        && (forall|i1: int, i2: int|
        0 <= i1 < i2 < lib.children@.len() ==> (spec_parse_camera(
            #[trigger] lib.children@[i1],
        )->0).id@ != (spec_parse_camera(#[trigger] lib.children@[i2])->0).id@)
}

/// Reads the camera library into a registry keyed by declared ID: every
/// child of `library_cameras` is parsed as a camera, in order, and a
/// duplicate ID is an error.  A document without a camera library is
/// refused, as is one where any child is not a well-formed camera: the
/// read succeeds exactly when the library is acceptable.
pub fn parse_cameras(root: &Element) -> (r: Result<Registry<Arc<Camera>>, Error>)
    ensures
        match r {
            Ok(reg) => ({
                &&& unique_child(*root, "library_cameras"@) matches Some(lib)
                    && reg.entries@.len() == lib.children@.len() && (forall|i: int|
                    0 <= i < lib.children@.len() ==> (spec_parse_camera(
                        #[trigger] lib.children@[i],
                    ) matches Some(c) && reg.entries@[i].0 == c.id && *reg.entries@[i].1 == c))
                &&& reg.wf()
                &&& spec_cameras_ok(*root)
            }),
            Err(_) => !spec_cameras_ok(*root),
        },
{
    let cameras_element = match root.get_element("library_cameras") {
        Ok(c) => c,
        Err(e) => {
            return Err(e);
        },
    };
    let mut cameras: Registry<Arc<Camera>> = Registry::new();
    let n = cameras_element.children.len();
    let mut i: usize = 0;
    while i < n
        invariant
            n == cameras_element.children@.len(),
            i <= n,
            unique_child(*root, "library_cameras"@) == Some(*cameras_element),
            cameras.wf(),
            cameras.entries@.len() == i,
            forall|k: int|
                0 <= k < i ==> (spec_parse_camera(#[trigger] cameras_element.children@[k]) matches
                Some(c) && cameras.entries@[k].0 == c.id && *cameras.entries@[k].1 == c),
        decreases n - i,
    {
        let camera = match Camera::parse(&cameras_element.children[i]) {
            Ok(c) => c,
            Err(e) => {
                proof {
                    assert(spec_parse_camera(cameras_element.children@[i as int]) is None);
                    assert(unique_child(*root, "library_cameras"@) == Some(*cameras_element));
                    if spec_cameras_ok(*root) {
                        assert(spec_parse_camera(cameras_element.children@[i as int]) is Some);
                    }
                    assert(!spec_cameras_ok(*root));
                }
                return Err(e);
            },
        };
        let id = camera.id.clone();
        let ghost entries_before = cameras.entries@;
        match cameras.insert(id.clone(), Arc::new(camera)) {
            Ok(()) => {
                proof {
                    assert(forall|k: int|
                        0 <= k < entries_before.len() ==> cameras.entries@[k]
                            == entries_before[k]);
                }
            },
            Err(()) => {
                proof {
                    crate::registry::lemma_assoc_some_exists(cameras.entries@, id@);
                    let jj = choose|jj: int|
                        0 <= jj < cameras.entries@.len() && (#[trigger] cameras.entries@[jj]).0@
                            == id@;
                    assert(spec_parse_camera(cameras_element.children@[jj]) matches Some(c)
                        && cameras.entries@[jj].0 == c.id);
                    assert((spec_parse_camera(cameras_element.children@[jj])->0).id@ == id@);
                    assert((spec_parse_camera(cameras_element.children@[i as int])->0).id@ == id@);
                    assert(unique_child(*root, "library_cameras"@) == Some(*cameras_element));
                    if spec_cameras_ok(*root) {
                        assert((spec_parse_camera(cameras_element.children@[jj])->0).id@ != (
                        spec_parse_camera(cameras_element.children@[i as int])->0).id@);
                    }
                    assert(!spec_cameras_ok(*root));
                }
                return Err(Error::DuplicateId { scope: ("camera").to_owned(), id });
            },
        }
        i = i + 1;
    }
    proof {
        assert forall|i1: int, i2: int|
            0 <= i1 < i2 < cameras_element.children@.len() implies (spec_parse_camera(
            #[trigger] cameras_element.children@[i1],
        )->0).id@ != (spec_parse_camera(#[trigger] cameras_element.children@[i2])->0).id@ by {
            assert(cameras.entries@[i1].0@ != cameras.entries@[i2].0@);
        }
    }
    Ok(cameras)
}


/// Determinism: two parses of the same `camera` block that both succeed
/// yield the same value, field for field.
pub proof fn lemma_camera_parse_deterministic(camera: Element, c1: Camera, c2: Camera)
    requires
        spec_parse_camera(camera) == Some(c1),
        spec_parse_camera(camera) == Some(c2),
    ensures
        c1 == c2,
{
}

} // verus!
