//! Geometries: named collections of meshes, one registry entry per
//! declared geometry ID.

use vstd::prelude::*;

use crate::asset::Asset;
use crate::error::Error;
use crate::mesh::Mesh;
use crate::registry::Registry;
use crate::text::str_eq;
use crate::xml::Element;
use crate::xml::count_named;
use crate::xml::lemma_named_skip;
use crate::xml::lemma_nth_named_extends;
use crate::xml::nth_named;
use crate::xml::spec_attr;
use crate::xml::unique_child;

use std::sync::Arc;

verus! {

/// One geometry: its declared ID and name, and the meshes of its `mesh`
/// children, one per polygon list.
pub struct Geometry {
    pub id: String,
    pub name: String,
    pub meshes: Vec<Arc<Mesh>>,
}

/// How many polygon lists the `mesh` children of `s` hold in all: the
/// number of meshes a geometry yields.
pub open spec fn spec_polylist_total(s: Seq<Element>) -> nat
    decreases s.len(),
{
    if s.len() == 0 {
        0
    } else {
        spec_polylist_total(s.drop_last()) + if s.last().name@ == "mesh"@ {
            count_named(s.last().children@, "polylist"@)
        } else {
            0nat
        }
    }
}

impl Geometry {
    /// Whether every mesh of the geometry is consistent.
    pub open spec fn wf(&self) -> bool {
        forall|k: int| 0 <= k < self.meshes@.len() ==> (*(#[trigger] self.meshes@[k])).wf()
    }

    /// Parses one `geometry` block: its `id` and `name` attributes and the
    /// polygon lists of its `mesh` children, numbered from `*mesh_id`.
    pub fn parse(geometry: &Element, mesh_id: &mut usize, asset: &Asset) -> (r: Result<
        Geometry,
        Error,
    >)
        ensures
            match r {
                Ok(g) => spec_attr(geometry.attributes@, "id"@) == Some(g.id) && spec_attr(
                    geometry.attributes@,
                    "name"@,
                ) == Some(g.name) && g.wf() && g.meshes@.len() == spec_polylist_total(
                    geometry.children@,
                ) && (*old(mesh_id) + spec_polylist_total(geometry.children@) <= usize::MAX ==> (
                *final(mesh_id) == *old(mesh_id) + spec_polylist_total(geometry.children@) && (
                forall|k: int|
                    0 <= k < g.meshes@.len() ==> (*(#[trigger] g.meshes@[k])).id == *old(mesh_id)
                        + k))),
                Err(_) => true,
            },
    {
        let id = match geometry.get_attribute("id") {
            Ok(v) => v.clone(),
            Err(e) => {
                return Err(e);
            },
        };
        let name = match geometry.get_attribute("name") {
            Ok(v) => v.clone(),
            Err(e) => {
                return Err(e);
            },
        };
        let mut meshes: Vec<Arc<Mesh>> = Vec::new();
        let n = geometry.children.len();
        let mut i: usize = 0;
        proof {
            assert(geometry.children@.take(0int) =~= Seq::<Element>::empty());
        }
        while i < n
            invariant
                n == geometry.children@.len(),
                i <= n,
                forall|k: int| 0 <= k < meshes@.len() ==> (*(#[trigger] meshes@[k])).wf(),
                meshes@.len() == spec_polylist_total(geometry.children@.take(i as int)),
                *old(mesh_id) + spec_polylist_total(geometry.children@.take(i as int))
                    <= usize::MAX ==> (*mesh_id == *old(mesh_id) + spec_polylist_total(
                    geometry.children@.take(i as int),
                ) && (forall|k: int|
                    0 <= k < meshes@.len() ==> (*(#[trigger] meshes@[k])).id == *old(mesh_id)
                        + k)),
            decreases n - i,
        {
            proof {
                assert(geometry.children@.take(i + 1).drop_last() =~= geometry.children@.take(
                    i as int,
                ));
            }
            let child = &geometry.children[i];
            if str_eq(child.name.as_str(), "mesh") {
                let ghost meshes_before = meshes@.len() as int;
                let ghost meshes_pre = meshes@;
                let ghost id_pre = *mesh_id as int;
                match Mesh::parse_meshes(child, &name, i, mesh_id, &mut meshes, asset) {
                    Ok(()) => {
                        proof {
                            assert forall|k: int| 0 <= k < meshes@.len() implies (*(
                            #[trigger] meshes@[k])).wf() by {
                                if k >= meshes_before {
                                    assert((*(meshes@[meshes_before + (k - meshes_before)])).wf());
                                }
                            }
                            if *old(mesh_id) + spec_polylist_total(
                                geometry.children@.take(i + 1),
                            ) <= usize::MAX {
                                assert forall|k: int| 0 <= k < meshes@.len() implies (*(
                                #[trigger] meshes@[k])).id == *old(mesh_id) + k by {
                                    if k >= meshes_before {
                                        assert((*(meshes@[meshes_before + (k
                                            - meshes_before)])).id == id_pre + (k
                                            - meshes_before));
                                    } else {
                                        assert(meshes@[k] == meshes_pre[k]);
                                        assert((*meshes_pre[k]).id == *old(mesh_id) + k);
                                    }
                                }
                            }
                        }
                    },
                    Err(e) => {
                        return Err(e);
                    },
                }
            }
            i = i + 1;
        }
        proof {
            assert(geometry.children@.take(n as int) =~= geometry.children@);
        }
        Ok(Geometry { id, name, meshes })
    }
}

/// Where the `j`-th geometry's mesh numbering starts: the polygon lists
/// of the first `j` `geometry` children, summed.
pub open spec fn spec_mesh_total_upto(children: Seq<Element>, j: int) -> nat
    decreases j,
{
    if j <= 0 {
        0
    } else {
        spec_mesh_total_upto(children, j - 1) + spec_polylist_total(
            nth_named(children, "geometry"@, j - 1).children@,
        )
    }
}

/// Indexing agreement carries the numbering start across lists that agree
/// on their first geometry children.
proof fn lemma_mesh_total_upto_agree(a: Seq<Element>, b: Seq<Element>, k: int)
    requires
        0 <= k,
        forall|kk: int|
            0 <= kk < k ==> #[trigger] nth_named(a, "geometry"@, kk) == nth_named(
                b,
                "geometry"@,
                kk,
            ),
    ensures
        spec_mesh_total_upto(a, k) == spec_mesh_total_upto(b, k),
    decreases k,
{
    if k > 0 {
        lemma_mesh_total_upto_agree(a, b, k - 1);
    }
}

/// Whether registry entry `j` is numbered where the `j`-th geometry child
/// starts: one mesh per polygon list, with consecutive ids.
pub open spec fn geometry_meshes_numbered(
    entries: Seq<(String, Arc<Geometry>)>,
    children: Seq<Element>,
    j: int,
) -> bool {
    let g = *entries[j].1;
    &&& g.meshes@.len() == spec_polylist_total(nth_named(children, "geometry"@, j).children@)
    &&& forall|k: int|
        0 <= k < g.meshes@.len() ==> (*#[trigger] g.meshes@[k]).id == spec_mesh_total_upto(
            children,
            j,
        ) + k
}

/// Whether every geometry a registry holds is well-formed.
pub open spec fn geometries_wf(entries: Seq<(String, Arc<Geometry>)>) -> bool {
    forall|i: int| 0 <= i < entries.len() ==> (*(#[trigger] entries[i]).1).wf()
}

/// Whether registry entry `j` carries the `j`-th `geometry` child of
/// `children`: registered under its declared ID, holding a geometry of
/// that ID.
pub open spec fn geometry_entry_matches(
    entries: Seq<(String, Arc<Geometry>)>,
    children: Seq<Element>,
    j: int,
) -> bool {
    let declared = spec_attr(nth_named(children, "geometry"@, j).attributes@, "id"@);
    &&& declared is Some
    &&& entries[j].0 == declared->0
    &&& (*entries[j].1).id == declared->0
}

/// Reads the geometry library into a registry keyed by declared ID: entry
/// `j` comes from the `j`-th `geometry` child, in order, under its `id`
/// attribute.  A document without a geometry library simply has no
/// geometries; a duplicate ID is an error.
pub fn parse_geometries(root: &Element, asset: &Asset) -> (r: Result<
    Registry<Arc<Geometry>>,
    Error,
>)
    ensures
        match r {
            Ok(reg) => ({
                &&& reg.wf()
                &&& geometries_wf(reg.entries@)
                &&& match unique_child(*root, "library_geometries"@) {
                    Some(lib) => reg.entries@.len() == count_named(lib.children@, "geometry"@) && (
                    forall|j: int|
                        0 <= j < reg.entries@.len() ==> #[trigger] geometry_entry_matches(
                            reg.entries@,
                            lib.children@,
                            j,
                        )) && (spec_mesh_total_upto(
                        lib.children@,
                        count_named(lib.children@, "geometry"@) as int,
                    ) <= usize::MAX ==> (forall|j: int|
                        0 <= j < reg.entries@.len() ==> #[trigger] geometry_meshes_numbered(
                            reg.entries@,
                            lib.children@,
                            j,
                        ))),
                    None => reg.entries@.len() == 0,
                }
            }),
            Err(_) => unique_child(*root, "library_geometries"@) is Some,
        },
{
    let geometries_element = match root.get_element("library_geometries") {
        Ok(g) => g,
        Err(_) => {
            return Ok(Registry::new());
        },
    };
    let mut geometries: Registry<Arc<Geometry>> = Registry::new();
    let mut mesh_id: usize = 0;
    let n = geometries_element.children.len();
    let mut i: usize = 0;
    proof {
        assert(geometries_element.children@.take(0int) =~= Seq::<Element>::empty());
    }
    while i < n
        invariant
            n == geometries_element.children@.len(),
            i <= n,
            unique_child(*root, "library_geometries"@) == Some(*geometries_element),
            geometries.wf(),
            geometries_wf(geometries.entries@),
            geometries.entries@.len() == count_named(
                geometries_element.children@.take(i as int),
                "geometry"@,
            ),
            forall|j: int|
                0 <= j < geometries.entries@.len() ==> #[trigger] geometry_entry_matches(
                    geometries.entries@,
                    geometries_element.children@.take(i as int),
                    j,
                ),
            spec_mesh_total_upto(
                geometries_element.children@.take(i as int),
                geometries.entries@.len() as int,
            ) <= usize::MAX ==> (mesh_id == spec_mesh_total_upto(
                geometries_element.children@.take(i as int),
                geometries.entries@.len() as int,
            ) && (forall|j: int|
                0 <= j < geometries.entries@.len() ==> #[trigger] geometry_meshes_numbered(
                    geometries.entries@,
                    geometries_element.children@.take(i as int),
                    j,
                ))),
        decreases n - i,
    {
        proof {
            assert(geometries_element.children@.take(i + 1).drop_last()
                =~= geometries_element.children@.take(i as int));
        }
        let child = &geometries_element.children[i];
        let is_geometry = str_eq(child.name.as_str(), "geometry");
        if !is_geometry {
            proof {
                lemma_named_skip(geometries_element.children@, "geometry"@, i as int);
                assert forall|j: int|
                    0 <= j < geometries.entries@.len() implies #[trigger] geometry_entry_matches(
                    geometries.entries@,
                    geometries_element.children@.take(i + 1),
                    j,
                ) by {
                    assert(geometry_entry_matches(
                        geometries.entries@,
                        geometries_element.children@.take(i as int),
                        j,
                    ));
                }
                let done = geometries.entries@.len() as int;
                lemma_mesh_total_upto_agree(
                    geometries_element.children@.take(i + 1),
                    geometries_element.children@.take(i as int),
                    done,
                );
                if spec_mesh_total_upto(geometries_element.children@.take(i + 1), done)
                    <= usize::MAX {
                    assert forall|j: int|
                        0 <= j < geometries.entries@.len()
                            implies #[trigger] geometry_meshes_numbered(
                        geometries.entries@,
                        geometries_element.children@.take(i + 1),
                        j,
                    ) by {
                        assert(geometry_meshes_numbered(
                            geometries.entries@,
                            geometries_element.children@.take(i as int),
                            j,
                        ));
                        lemma_mesh_total_upto_agree(
                            geometries_element.children@.take(i + 1),
                            geometries_element.children@.take(i as int),
                            j,
                        );
                    }
                }
            }
        }
        if is_geometry {
            let ghost done = geometries.entries@.len() as int;
            let ghost pre_id = mesh_id as int;
            let geometry = match Geometry::parse(child, &mut mesh_id, asset) {
                Ok(g) => g,
                Err(e) => {
                    return Err(e);
                },
            };
            let ghost parsed = geometry;
            let id = geometry.id.clone();
            let ghost entries_before = geometries.entries@;
            match geometries.insert(id.clone(), Arc::new(geometry)) {
                Ok(()) => {
                    proof {
                        assert(forall|k: int|
                            0 <= k < entries_before.len() ==> geometries.entries@[k]
                                == entries_before[k]);
                        assert forall|j: int|
                            0 <= j < geometries.entries@.len() implies #[trigger] geometry_entry_matches(
                            geometries.entries@,
                            geometries_element.children@.take(i + 1),
                            j,
                        ) by {
                            assert(geometries_element.children@.take(i + 1).take(i as int)
                                =~= geometries_element.children@.take(i as int));
                            if j < entries_before.len() {
                                assert(geometries.entries@[j] == entries_before[j]);
                                assert(geometry_entry_matches(
                                    entries_before,
                                    geometries_element.children@.take(i as int),
                                    j,
                                ));
                                lemma_nth_named_extends(
                                    geometries_element.children@.take(i + 1),
                                    "geometry"@,
                                    i as int,
                                    j,
                                );
                            } else {
                                assert(count_named(
                                    geometries_element.children@.take(i as int),
                                    "geometry"@,
                                ) == j);
                                assert(nth_named(
                                    geometries_element.children@.take(i + 1),
                                    "geometry"@,
                                    j,
                                ) == geometries_element.children@[i as int]);
                            }
                        }
                        assert forall|kk: int|
                            0 <= kk < done implies #[trigger] nth_named(
                            geometries_element.children@.take(i + 1),
                            "geometry"@,
                            kk,
                        ) == nth_named(
                            geometries_element.children@.take(i as int),
                            "geometry"@,
                            kk,
                        ) by {
                            lemma_nth_named_extends(
                                geometries_element.children@.take(i + 1),
                                "geometry"@,
                                i as int,
                                kk,
                            );
                        }
                        lemma_mesh_total_upto_agree(
                            geometries_element.children@.take(i + 1),
                            geometries_element.children@.take(i as int),
                            done,
                        );
                        assert(nth_named(
                            geometries_element.children@.take(i + 1),
                            "geometry"@,
                            done,
                        ) == geometries_element.children@[i as int]);
                        assert(spec_mesh_total_upto(
                            geometries_element.children@.take(i + 1),
                            done + 1,
                        ) == spec_mesh_total_upto(geometries_element.children@.take(i as int), done)
                            + spec_polylist_total(
                            geometries_element.children@[i as int].children@,
                        ));
                        if spec_mesh_total_upto(
                            geometries_element.children@.take(i + 1),
                            done + 1,
                        ) <= usize::MAX {
                            assert(pre_id == spec_mesh_total_upto(
                                geometries_element.children@.take(i as int),
                                done,
                            ));
                            assert(mesh_id == spec_mesh_total_upto(
                                geometries_element.children@.take(i + 1),
                                done + 1,
                            ));
                            assert forall|j: int|
                                0 <= j < geometries.entries@.len()
                                    implies #[trigger] geometry_meshes_numbered(
                                geometries.entries@,
                                geometries_element.children@.take(i + 1),
                                j,
                            ) by {
                                if j < done {
                                    assert(geometries.entries@[j] == entries_before[j]);
                                    assert(geometry_meshes_numbered(
                                        entries_before,
                                        geometries_element.children@.take(i as int),
                                        j,
                                    ));
                                    lemma_mesh_total_upto_agree(
                                        geometries_element.children@.take(i + 1),
                                        geometries_element.children@.take(i as int),
                                        j,
                                    );
                                } else {
                                    assert(geometries.entries@[j]
                                        == geometries.entries@.last());
                                    assert(*geometries.entries@.last().1 == parsed);
                                    assert(parsed.meshes@.len() == spec_polylist_total(
                                        geometries_element.children@[i as int].children@,
                                    ));
                                    assert(forall|k: int|
                                        0 <= k < parsed.meshes@.len() ==> (*
                                        #[trigger] parsed.meshes@[k]).id == pre_id + k);
                                }
                            }
                        }
                    }
                },
                Err(()) => {
                    return Err(Error::DuplicateId { scope: ("geometry").to_owned(), id });
                },
            }
        }
        i = i + 1;
    }
    proof {
        assert(geometries_element.children@.take(n as int) =~= geometries_element.children@);
    }
    Ok(geometries)
}

} // verus!
