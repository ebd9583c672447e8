//! Controllers: how a scene node's geometry is driven -- a plain model, a
//! rigid attachment to one bone, or a skin deformation -- and the
//! controller library that registers each skin twice: under its own ID and
//! under the ID of the geometry it deforms.

use vstd::prelude::*;

use crate::asset::Asset;
use crate::text::spec_strip_hashes;
use crate::error::Error;
use crate::skeleton::Bone;
use crate::skin::Skin;
use crate::text::str_eq;
use crate::xml::Element;
use crate::xml::count_named;
use crate::xml::first_named;
use crate::xml::lemma_count_monotone_pub;
use crate::xml::lemma_first_extends;
use crate::xml::spec_attr;
use crate::xml::unique_child;

use std::sync::Arc;

verus! {

/// What drives a scene node: the plain model, one bone, or a skin.
pub enum Controller {
    Model,
    Bone(Arc<Bone>),
    Skin(Arc<Skin>),
}

/// Whether `e` is a controller child that yields a skin: it is named
/// `controller` and holds at least one `skin` child.
pub open spec fn is_skinned_controller(e: Element) -> bool {
    e.name@ == "controller"@ && count_named(e.children@, "skin"@) > 0
}

/// How many children of `s` are skinned controllers.
pub open spec fn count_skinned(s: Seq<Element>) -> nat
    decreases s.len(),
{
    if s.len() == 0 {
        0
    } else {
        count_skinned(s.drop_last()) + if is_skinned_controller(s.last()) {
            1nat
        } else {
            0nat
        }
    }
}

/// The `j`-th skinned controller child (meaningful when enough exist).
pub open spec fn nth_skinned(s: Seq<Element>, j: int) -> Element
    decreases s.len(),
{
    if s.len() == 0 {
        arbitrary()
    } else if is_skinned_controller(s.last()) && count_skinned(s.drop_last()) == j {
        s.last()
    } else {
        nth_skinned(s.drop_last(), j)
    }
}

/// Counting and indexing the skinned controllers of a prefix agrees with
/// the whole list, as far as the prefix reaches.
proof fn lemma_nth_skinned_extends(s: Seq<Element>, i: int, j: int)
    requires
        0 <= i <= s.len(),
        0 <= j < count_skinned(s.take(i)),
    ensures
        nth_skinned(s, j) == nth_skinned(s.take(i), j),
        count_skinned(s) >= count_skinned(s.take(i)),
    decreases s.len() - i,
{
    if i < s.len() {
        assert(s.take(i + 1).drop_last() =~= s.take(i));
        lemma_nth_skinned_extends(s, i + 1, j);
    } else {
        assert(s.take(i) =~= s);
    }
}

proof fn lemma_count_skinned_monotone(s: Seq<Element>, i: int)
    requires
        0 <= i <= s.len(),
    ensures
        count_skinned(s) >= count_skinned(s.take(i)),
    decreases s.len() - i,
{
    if i < s.len() {
        assert(s.take(i + 1).drop_last() =~= s.take(i));
        lemma_count_skinned_monotone(s, i + 1);
    } else {
        assert(s.take(i) =~= s);
    }
}

/// Whether entry `j` of both registries carries the skin of the `j`-th
/// skinned controller child: parsed from the controller's first `skin`
/// child under the controller's own ID, the same shared value in both
/// maps, keyed by skin ID on one side and by target geometry on the
/// other.
pub open spec fn controller_entry_matches(
    by_geom: Seq<(String, Arc<Skin>)>,
    by_id: Seq<(String, Arc<Skin>)>,
    children: Seq<Element>,
    j: int,
) -> bool {
    let ctrl = nth_skinned(children, j);
    &&& spec_attr(ctrl.attributes@, "id"@) is Some
    &&& by_id[j].1 == by_geom[j].1
    &&& (*by_id[j].1).id == spec_attr(ctrl.attributes@, "id"@)->0
    &&& by_id[j].0 == (*by_id[j].1).id
    &&& by_geom[j].0 == (*by_geom[j].1).geometry_id
    &&& spec_attr(first_named(ctrl.children@, "skin"@).attributes@, "source"@) matches Some(g)
        && (*by_id[j].1).geometry_id@ == spec_strip_hashes(g@)
}

/// The geometry-keyed half of the controller correspondence: entry `j`
/// holds the skin of the `j`-th skinned controller child, keyed by the
/// geometry it deforms.
pub open spec fn skin_entry_matches(
    entries: Seq<(String, Arc<Skin>)>,
    children: Seq<Element>,
    j: int,
) -> bool {
    let ctrl = nth_skinned(children, j);
    &&& spec_attr(ctrl.attributes@, "id"@) is Some
    &&& (*entries[j].1).id == spec_attr(ctrl.attributes@, "id"@)->0
    &&& entries[j].0 == (*entries[j].1).geometry_id
}

/// Whether every skin a registry holds is well-formed.
pub open spec fn skins_wf(entries: Seq<(String, Arc<Skin>)>) -> bool {
    forall|i: int| 0 <= i < entries.len() ==> (*(#[trigger] entries[i]).1).wf()
}

/// Whether every entry is keyed by its skin's own ID.
pub open spec fn skins_keyed_by_id(entries: Seq<(String, Arc<Skin>)>) -> bool {
    forall|j: int| 0 <= j < entries.len() ==> (#[trigger] entries[j]).0 == (*entries[j].1).id
}

/// Whether every entry is keyed by the ID of the geometry its skin
/// deforms.
pub open spec fn skins_keyed_by_geometry(entries: Seq<(String, Arc<Skin>)>) -> bool {
    forall|j: int|
        0 <= j < entries.len() ==> (#[trigger] entries[j]).0 == (*entries[j].1).geometry_id
}

/// Reads the controller library: the first `skin` child of each
/// `controller` is parsed under the controller's ID and registered twice,
/// once by the ID of the geometry it deforms and once by its own ID --
/// both registries hold the same shared skin, entry `j` coming from the
/// `j`-th controller child that holds a skin.  A document without a
/// controller library is refused; so is a duplicate of either ID, so on
/// success no two skins share an ID or a target geometry.
pub fn parse_controllers(root: &Element, asset: &Asset) -> (r: Result<
    (crate::registry::Registry<Arc<Skin>>, crate::registry::Registry<Arc<Skin>>),
    Error,
>)
    ensures
        match r {
            Ok(regs) => ({
                &&& regs.0.wf() && skins_wf(regs.0.entries@) && skins_keyed_by_geometry(
                    regs.0.entries@,
                )
                &&& regs.1.wf() && skins_wf(regs.1.entries@) && skins_keyed_by_id(regs.1.entries@)
                &&& unique_child(*root, "library_controllers"@) matches Some(lib) && ({
                    &&& regs.0.entries@.len() == count_skinned(lib.children@)
                    &&& regs.1.entries@.len() == count_skinned(lib.children@)
                    &&& forall|j: int|
                        0 <= j < count_skinned(lib.children@)
                            ==> #[trigger] controller_entry_matches(
                            regs.0.entries@,
                            regs.1.entries@,
                            lib.children@,
                            j,
                        )
                })
            }),
            Err(_) => true,
        },
        unique_child(*root, "library_controllers"@) is None ==> r is Err,
{
    let controllers_element = match root.get_element("library_controllers") {
        Ok(c) => c,
        Err(e) => {
            return Err(e);
        },
    };
    let mut skins: crate::registry::Registry<Arc<Skin>> = crate::registry::Registry::new();
    let mut skins_by_id: crate::registry::Registry<Arc<Skin>> = crate::registry::Registry::new();
    let n = controllers_element.children.len();
    let mut i: usize = 0;
    proof {
        assert(controllers_element.children@.take(0int) =~= Seq::<Element>::empty());
    }
    while i < n
        invariant
            n == controllers_element.children@.len(),
            i <= n,
            unique_child(*root, "library_controllers"@) == Some(*controllers_element),
            skins.wf(),
            skins_wf(skins.entries@),
            skins_keyed_by_geometry(skins.entries@),
            skins_by_id.wf(),
            skins_wf(skins_by_id.entries@),
            skins_keyed_by_id(skins_by_id.entries@),
            skins.entries@.len() == count_skinned(controllers_element.children@.take(i as int)),
            skins_by_id.entries@.len() == count_skinned(
                controllers_element.children@.take(i as int),
            ),
            forall|j: int|
                0 <= j < count_skinned(controllers_element.children@.take(i as int))
                    ==> #[trigger] controller_entry_matches(
                    skins.entries@,
                    skins_by_id.entries@,
                    controllers_element.children@.take(i as int),
                    j,
                ),
        decreases n - i,
    {
        proof {
            assert(controllers_element.children@.take(i + 1).drop_last()
                =~= controllers_element.children@.take(i as int));
        }
        let controller = &controllers_element.children[i];
        let is_controller = str_eq(controller.name.as_str(), "controller");
        let ghost geo_before = skins.entries@;
        let ghost id_before = skins_by_id.entries@;
        let mut done = false;
        if is_controller {
            let controller_id = match controller.get_attribute("id") {
                Ok(v) => v.clone(),
                Err(e) => {
                    return Err(e);
                },
            };
            let m = controller.children.len();
            let mut j: usize = 0;
            while j < m && !done
                invariant
                    m == controller.children@.len(),
                    j <= m,
                    controller_id == spec_attr(controller.attributes@, "id"@)->0,
                    spec_attr(controller.attributes@, "id"@) is Some,
                    skins.wf(),
                    skins_wf(skins.entries@),
                    skins_keyed_by_geometry(skins.entries@),
                    skins_by_id.wf(),
                    skins_wf(skins_by_id.entries@),
                    skins_keyed_by_id(skins_by_id.entries@),
                    !done ==> skins.entries@ == geo_before && skins_by_id.entries@ == id_before
                        && count_named(controller.children@.take(j as int), "skin"@) == 0,
                    done ==> ({
                        &&& count_named(controller.children@, "skin"@) > 0
                        &&& skins.entries@.len() == geo_before.len() + 1
                        &&& skins_by_id.entries@.len() == id_before.len() + 1
                        &&& (forall|k: int|
                            0 <= k < geo_before.len() ==> skins.entries@[k] == geo_before[k])
                        &&& (forall|k: int|
                            0 <= k < id_before.len() ==> skins_by_id.entries@[k] == id_before[k])
                        &&& skins_by_id.entries@.last().1 == skins.entries@.last().1
                        &&& (*skins_by_id.entries@.last().1).id == spec_attr(
                            controller.attributes@,
                            "id"@,
                        )->0
                        &&& spec_attr(
                            first_named(controller.children@, "skin"@).attributes@,
                            "source"@,
                        ) matches Some(g) && (*skins_by_id.entries@.last().1).geometry_id@
                            == crate::text::spec_strip_hashes(g@)
                    }),
                decreases m - j,
            {
                proof {
                    assert(controller.children@.take(j + 1).drop_last()
                        =~= controller.children@.take(j as int));
                }
                let child = &controller.children[j];
                if str_eq(child.name.as_str(), "skin") {
                    proof {
                        assert(count_named(controller.children@.take(j + 1), "skin"@) == 1);
                        assert(first_named(controller.children@.take(j + 1), "skin"@)
                            == controller.children@[j as int]);
                        lemma_first_extends(controller.children@, "skin"@, j + 1);
                        lemma_count_monotone_pub(controller.children@, "skin"@, j + 1);
                    }
                    let skin = Arc::new(
                        match Skin::parse(child, controller_id.clone(), asset) {
                            Ok(s) => s,
                            Err(e) => {
                                return Err(e);
                            },
                        },
                    );
                    let ghost skin0 = skin;
                    let skin_id = skin.id.clone();
                    match skins_by_id.insert(skin_id.clone(), crate::source::share(&skin)) {
                        Ok(()) => {},
                        Err(()) => {
                            return Err(
                                Error::DuplicateId { scope: ("skin").to_owned(), id: skin_id },
                            );
                        },
                    }
                    let geometry_id = skin.geometry_id.clone();
                    match skins.insert(geometry_id.clone(), skin) {
                        Ok(()) => {},
                        Err(()) => {
                            return Err(
                                Error::DuplicateId {
                                    scope: ("skinned geometry").to_owned(),
                                    id: geometry_id,
                                },
                            );
                        },
                    }
                    proof {
                        assert(skins_by_id.entries@.last() == (skin_id, skin0));
                        assert(skins.entries@.last() == (geometry_id, skin0));
                        assert(forall|k: int|
                            0 <= k < id_before.len() ==> skins_by_id.entries@[k] == id_before[k]);
                        assert(forall|k: int|
                            0 <= k < geo_before.len() ==> skins.entries@[k] == geo_before[k]);
                        assert((*skin0).id == spec_attr(controller.attributes@, "id"@)->0);
                    }
                    done = true;
                }
                j = j + 1;
            }
            proof {
                if !done {
                    assert(controller.children@.take(m as int) =~= controller.children@);
                }
            }
        }
        proof {
            let prefix = controllers_element.children@.take(i as int);
            let extended = controllers_element.children@.take(i + 1);
            if is_controller && done {
                assert(is_skinned_controller(controllers_element.children@[i as int]));
                assert(count_skinned(extended) == count_skinned(prefix) + 1);
                assert(nth_skinned(extended, count_skinned(prefix) as int)
                    == controllers_element.children@[i as int]);
            } else {
                assert(!is_skinned_controller(controllers_element.children@[i as int]));
                assert(count_skinned(extended) == count_skinned(prefix));
            }
            assert forall|j: int|
                0 <= j < count_skinned(extended) implies #[trigger] controller_entry_matches(
                skins.entries@,
                skins_by_id.entries@,
                extended,
                j,
            ) by {
                assert(extended.take(i as int) =~= prefix);
                if j < count_skinned(prefix) {
                    assert(controller_entry_matches(geo_before, id_before, prefix, j));
                    assert(skins.entries@[j] == geo_before[j]);
                    assert(skins_by_id.entries@[j] == id_before[j]);
                    lemma_nth_skinned_extends(extended, i as int, j);
                } else {
                    assert(j == count_skinned(prefix));
                    assert(skins.entries@[j] == skins.entries@.last());
                    assert(skins_by_id.entries@[j] == skins_by_id.entries@.last());
                }
            }
        }
        i = i + 1;
    }
    proof {
        assert(controllers_element.children@.take(n as int) =~= controllers_element.children@);
    }
    Ok((skins, skins_by_id))
}

} // verus!
