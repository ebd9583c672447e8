//! Animations: one bone-targeting channel per animation, with named
//! keyframe sources that must all report the same sample count.

use vstd::prelude::*;

use crate::asset::Asset;
use crate::error::Error;
use crate::registry::Registry;
use crate::registry::lemma_assoc_some_exists;
use crate::source::Source;
use crate::source::read_sources;
use crate::source::share;
use crate::source::sources_wf;
use crate::skin::spec_additional_sources;
use crate::source::spec_layer_len;
use crate::text::find_char;
use crate::text::find_sub;
use crate::text::prefix_of;
use crate::text::spec_find_char;
use crate::text::spec_find_sub;
use crate::text::spec_strip_hashes;
use crate::text::str_eq;
use crate::text::strip_hashes;
use crate::xml::Element;
use crate::xml::count_named;
use crate::xml::lemma_named_skip;
use crate::xml::lemma_nth_named_extends;
use crate::xml::nth_named;
use crate::xml::spec_attr;
use crate::xml::unique_child;

use std::sync::Arc;

verus! {

/// One animation: the bone and skeleton its channel targets, the shared
/// sample count of its keyframe sources, and the sources themselves keyed
/// by semantic.
pub struct Animation {
    pub id: String,
    pub bone_id: String,
    pub skeleton_id: String,
    pub keyframes_count: usize,
    pub sources: Registry<Arc<Source>>,
}

/// The record count of layer `j` of the source at entry `i`.
pub open spec fn layer_len_at(entries: Seq<(String, Arc<Source>)>, i: int, j: int) -> nat {
    spec_layer_len((*entries[i].1).layers.entries@[j].1)
}

/// Whether some source holds at least one layer.
pub open spec fn has_any_layer(entries: Seq<(String, Arc<Source>)>) -> bool {
    exists|i: int|
        0 <= i < entries.len() && (*(#[trigger] entries[i]).1).layers.entries@.len() > 0
}

/// Whether any two layers of any two sources report one record count.
pub open spec fn spec_counts_agree(entries: Seq<(String, Arc<Source>)>) -> bool {
    forall|i1: int, j1: int, i2: int, j2: int|
        0 <= i1 < entries.len() && 0 <= j1 < (*entries[i1].1).layers.entries@.len() && 0 <= i2
            < entries.len() && 0 <= j2 < (*entries[i2].1).layers.entries@.len()
            ==> #[trigger] layer_len_at(entries, i1, j1) == #[trigger] layer_len_at(
            entries,
            i2,
            j2,
        )
}

/// Whether every layer of every source reports the sample count `n`.
pub open spec fn layers_count(entries: Seq<(String, Arc<Source>)>, n: nat) -> bool {
    forall|i: int, j: int|
        0 <= i < entries.len() && 0 <= j < (*entries[i].1).layers.entries@.len()
            ==> spec_layer_len(#[trigger] (*entries[i].1).layers.entries@[j].1) == n
}

impl Animation {
    /// Whether the animation's sources agree on one sample count.
    pub open spec fn wf(&self) -> bool {
        &&& self.sources.wf()
        &&& sources_wf(self.sources.entries@)
        &&& layers_count(self.sources.entries@, self.keyframes_count as nat)
    }

    /// Parses one `animation` block: its sources, the sampler's selected
    /// sources, the shared keyframe count, and the bone and skeleton IDs
    /// carved out of the channel's target and source strings -- the bone
    /// ID is the target up to its first `/`, and the skeleton ID is the
    /// channel source up to the first occurrence of `_` followed by the
    /// bone ID.
    pub fn parse(animation_element: &Element, asset: &Asset) -> (r: Result<Animation, Error>)
        ensures
            match r {
                Ok(a) => ({
                    &&& spec_attr(animation_element.attributes@, "id"@) == Some(a.id)
                    &&& a.wf()
                    &&& crate::xml::unique_child(*animation_element, "channel"@) matches Some(ch)
                        && (spec_attr(ch.attributes@, "target"@) matches Some(target)
                        && a.bone_id@ == (match spec_find_char(target@, '/') {
                            Some(p) => target@.take(p),
                            None => target@,
                        })) && (spec_attr(ch.attributes@, "source"@) matches Some(src) && ({
                            let stripped = spec_strip_hashes(src@);
                            let pat = "_"@ + a.bone_id@;
                            a.skeleton_id@ == match spec_find_sub(stripped, pat) {
                                Some(p) => stripped.take(p),
                                None => stripped,
                            }
                        }))
                }),
                Err(_) => true,
            },
    {
        let animation_id = match animation_element.get_attribute("id") {
            Ok(v) => v.clone(),
            Err(e) => {
                return Err(e);
            },
        };
        let all_sources = match read_sources(animation_element, asset) {
            Ok(s) => s,
            Err(e) => {
                return Err(e);
            },
        };
        let sampler = match animation_element.get_element("sampler") {
            Ok(c) => c,
            Err(e) => {
                return Err(e);
            },
        };
        let sources = match Self::select_sources(sampler, &all_sources) {
            Ok(s) => s,
            Err(e) => {
                return Err(e);
            },
        };
        let keyframes_count = match Self::get_keyframes_count(&sources) {
            Ok(n) => n,
            Err(e) => {
                return Err(e);
            },
        };
        let channel = match animation_element.get_element("channel") {
            Ok(c) => c,
            Err(e) => {
                return Err(e);
            },
        };
        let channel_source = match channel.get_attribute("source") {
            Ok(v) => strip_hashes(v.as_str()),
            Err(e) => {
                return Err(e);
            },
        };
        let channel_target = match channel.get_attribute("target") {
            Ok(v) => v,
            Err(e) => {
                return Err(e);
            },
        };
        let bone_id = match find_char(channel_target.as_str(), '/') {
            Some(pos) => prefix_of(channel_target.as_str(), pos),
            None => channel_target.clone(),
        };
        let mut pattern = ("_").to_owned();
        pattern.append(bone_id.as_str());
        let skeleton_id = match find_sub(channel_source.as_str(), pattern.as_str()) {
            Some(pos) => prefix_of(channel_source.as_str(), pos),
            None => channel_source.clone(),
        };
        Ok(Animation { id: animation_id, bone_id, skeleton_id, keyframes_count, sources })
    }

    /// Selects the sampler's sources against `sources`, keyed by semantic:
    /// it succeeds exactly when every input resolves, no semantic repeats,
    /// and at least one input is declared, and then returns exactly those
    /// entries.
    fn select_sources(element: &Element, sources: &Registry<Arc<Source>>) -> (r: Result<
        Registry<Arc<Source>>,
        Error,
    >)
        ensures
            match r {
                Ok(reg) => spec_additional_sources(element.children@, sources.entries@) == Some(
                    reg.entries@,
                ) && reg.wf() && (sources_wf(sources.entries@) ==> sources_wf(reg.entries@))
                    && reg.entries@.len() > 0,
                Err(_) => spec_additional_sources(element.children@, sources.entries@) is None
                    || spec_additional_sources(element.children@, sources.entries@) == Some(
                    Seq::<(String, Arc<Source>)>::empty(),
                ),
            },
    {
        let mut selected: Registry<Arc<Source>> = Registry::new();
        let n = element.children.len();
        let mut i: usize = 0;
        proof {
            assert(element.children@.take(0int) =~= Seq::<Element>::empty());
        }
        while i < n
            invariant
                n == element.children@.len(),
                i <= n,
                selected.wf(),
                spec_additional_sources(element.children@.take(i as int), sources.entries@)
                    == Some(selected.entries@),
                sources_wf(sources.entries@) ==> sources_wf(selected.entries@),
            decreases n - i,
        {
            proof {
                assert(element.children@.take(i + 1).drop_last() =~= element.children@.take(
                    i as int,
                ));
            }
            let child = &element.children[i];
            if str_eq(child.name.as_str(), "input") {
                let semantic = match child.get_attribute("semantic") {
                    Ok(v) => v.clone(),
                    Err(e) => {
                        proof {
                            crate::skin::lemma_additional_none_extends(
                                element.children@,
                                sources.entries@,
                                i + 1,
                            );
                        }
                        return Err(e);
                    },
                };
                let source_ref = match child.get_attribute("source") {
                    Ok(v) => v,
                    Err(e) => {
                        proof {
                            crate::skin::lemma_additional_none_extends(
                                element.children@,
                                sources.entries@,
                                i + 1,
                            );
                        }
                        return Err(e);
                    },
                };
                let source_id = strip_hashes(source_ref.as_str());
                let source = match sources.get(source_id.as_str()) {
                    Some(s) => share(s),
                    None => {
                        proof {
                            crate::skin::lemma_additional_none_extends(
                                element.children@,
                                sources.entries@,
                                i + 1,
                            );
                        }
                        return Err(
                            Error::UnresolvedReference {
                                scope: ("source").to_owned(),
                                id: source_id,
                            },
                        );
                    },
                };
                proof {
                    if sources_wf(sources.entries@) {
                        lemma_assoc_some_exists(sources.entries@, source_id@);
                    }
                }
                let semantic_for_err = semantic.clone();
                match selected.insert(semantic, source) {
                    Ok(()) => {},
                    Err(()) => {
                        proof {
                            crate::skin::lemma_additional_none_extends(
                                element.children@,
                                sources.entries@,
                                i + 1,
                            );
                        }
                        return Err(
                            Error::DuplicateId {
                                scope: ("animation source").to_owned(),
                                id: semantic_for_err,
                            },
                        );
                    },
                }
            }
            i = i + 1;
        }
        proof {
            assert(element.children@.take(n as int) =~= element.children@);
        }
        if selected.len() == 0 {
            proof {
                assert(selected.entries@ =~= Seq::<(String, Arc<Source>)>::empty());
            }
            return Err(
                Error::StructuralInvariant {
                    description: ("the animation has no sources").to_owned(),
                },
            );
        }
        Ok(selected)
    }

    /// The shared sample count of the selected sources: it succeeds
    /// exactly when some layer exists and every layer of every source
    /// reports one length, and then returns that length.
    fn get_keyframes_count(sources: &Registry<Arc<Source>>) -> (r: Result<usize, Error>)
        ensures
            match r {
                Ok(n) => layers_count(sources.entries@, n as nat) && has_any_layer(
                    sources.entries@,
                ),
                Err(e) => !(spec_counts_agree(sources.entries@) && has_any_layer(
                    sources.entries@,
                )) && e matches Error::StructuralInvariant { .. },
            },
    {
        let mut keyframes_count: Option<usize> = None;
        let ghost mut wi: int = 0;
        let ghost mut wj: int = 0;
        let ns = sources.len();
        let mut i: usize = 0;
        while i < ns
            invariant
                i <= ns,
                ns == sources.entries@.len(),
                match keyframes_count {
                    Some(n) => (forall|ii: int, j: int|
                        0 <= ii < i && 0 <= j < (*sources.entries@[ii].1).layers.entries@.len()
                            ==> spec_layer_len(
                            #[trigger] (*sources.entries@[ii].1).layers.entries@[j].1,
                        ) == n) && 0 <= wi < sources.entries@.len() && 0 <= wj < (
                    *sources.entries@[wi].1).layers.entries@.len() && layer_len_at(
                        sources.entries@,
                        wi,
                        wj,
                    ) == n,
                    None => forall|ii: int|
                        0 <= ii < i ==> (*(#[trigger] sources.entries@[ii]).1).layers.entries@.len()
                            == 0,
                },
            decreases ns - i,
        {
            let source = sources.entry_at(i);
            let nl = source.1.layers.len();
            let mut j: usize = 0;
            while j < nl
                invariant
                    j <= nl,
                    i < ns,
                    ns == sources.entries@.len(),
                    nl == (*sources.entries@[i as int].1).layers.entries@.len(),
                    *source == sources.entries@[i as int],
                    match keyframes_count {
                        Some(n) => (forall|ii: int, jj: int|
                            0 <= ii < i && 0 <= jj < (
                            *sources.entries@[ii].1).layers.entries@.len() ==> spec_layer_len(
                                #[trigger] (*sources.entries@[ii].1).layers.entries@[jj].1,
                            ) == n) && (forall|jj: int|
                            0 <= jj < j ==> spec_layer_len(
                                #[trigger] (*sources.entries@[i as int].1).layers.entries@[jj].1,
                            ) == n) && 0 <= wi < sources.entries@.len() && 0 <= wj < (
                        *sources.entries@[wi].1).layers.entries@.len() && layer_len_at(
                            sources.entries@,
                            wi,
                            wj,
                        ) == n,
                        None => j == 0 && forall|ii: int|
                            0 <= ii < i ==> (*(
                            #[trigger] sources.entries@[ii]).1).layers.entries@.len() == 0,
                    },
                decreases nl - j,
            {
                let layer = source.1.layers.entry_at(j);
                let cnt = layer.1.get_length();
                match keyframes_count {
                    Some(n) => {
                        if cnt != n {
                            proof {
                                assert(layer_len_at(sources.entries@, i as int, j as int) == cnt);
                                if spec_counts_agree(sources.entries@) {
                                    assert(layer_len_at(sources.entries@, i as int, j as int)
                                        == layer_len_at(sources.entries@, wi, wj));
                                }
                                assert(!spec_counts_agree(sources.entries@));
                            }
                            return Err(
                                Error::StructuralInvariant {
                                    description: (
                                    "the keyframe sources disagree on the sample count").to_owned(),
                                },
                            );
                        }
                    },
                    None => {
                        keyframes_count = Some(cnt);
                        proof {
                            wi = i as int;
                            wj = j as int;
                            assert(layer_len_at(sources.entries@, wi, wj) == cnt);
                        }
                    },
                }
                j = j + 1;
            }
            i = i + 1;
        }
        match keyframes_count {
            Some(n) => {
                proof {
                    assert((*(sources.entries@[wi]).1).layers.entries@.len() > 0);
                    assert(has_any_layer(sources.entries@));
                }
                Ok(n)
            },
            None => {
                proof {
                    if has_any_layer(sources.entries@) {
                        let ii = choose|ii: int|
                            0 <= ii < sources.entries@.len() && (*(
                            #[trigger] sources.entries@[ii]).1).layers.entries@.len() > 0;
                        assert(false);
                    }
                }
                Err(
                    Error::StructuralInvariant {
                        description: ("the animation's sources have no layers").to_owned(),
                    },
                )
            },
        }
    }
}

/// Whether every animation a registry holds is well-formed.
pub open spec fn animations_wf(entries: Seq<(String, Arc<Animation>)>) -> bool {
    forall|i: int| 0 <= i < entries.len() ==> (*(#[trigger] entries[i]).1).wf()
}

/// Whether registry entry `j` carries the `j`-th `animation` child of
/// `children`: registered under its declared ID, holding an animation of
/// that ID.
pub open spec fn animation_entry_matches(
    entries: Seq<(String, Arc<Animation>)>,
    children: Seq<Element>,
    j: int,
) -> bool {
    let declared = spec_attr(nth_named(children, "animation"@, j).attributes@, "id"@);
    &&& declared is Some
    &&& entries[j].0 == declared->0
    &&& (*entries[j].1).id == declared->0
}

/// Reads the animation library into a registry keyed by declared ID:
/// entry `j` comes from the `j`-th `animation` child, in order, under its
/// `id` attribute.  A document without an animation library simply has no
/// animations; a duplicate ID is an error.
pub fn parse_animations(root: &Element, asset: &Asset) -> (r: Result<
    Registry<Arc<Animation>>,
    Error,
>)
    ensures
        match r {
            Ok(reg) => ({
                &&& reg.wf()
                &&& animations_wf(reg.entries@)
                &&& match unique_child(*root, "library_animations"@) {
                    Some(lib) => reg.entries@.len() == count_named(lib.children@, "animation"@)
                        && forall|j: int|
                        0 <= j < reg.entries@.len() ==> #[trigger] animation_entry_matches(
                            reg.entries@,
                            lib.children@,
                            j,
                        ),
                    None => reg.entries@.len() == 0,
                }
            }),
            Err(_) => unique_child(*root, "library_animations"@) is Some,
        },
{
    let animations_element = match root.get_element("library_animations") {
        Ok(a) => a,
        Err(_) => {
            return Ok(Registry::new());
        },
    };
    let mut animations: Registry<Arc<Animation>> = Registry::new();
    let n = animations_element.children.len();
    let mut i: usize = 0;
    proof {
        assert(animations_element.children@.take(0int) =~= Seq::<Element>::empty());
    }
    while i < n
        invariant
            n == animations_element.children@.len(),
            i <= n,
            unique_child(*root, "library_animations"@) == Some(*animations_element),
            animations.wf(),
            animations_wf(animations.entries@),
            animations.entries@.len() == count_named(
                animations_element.children@.take(i as int),
                "animation"@,
            ),
            forall|j: int|
                0 <= j < animations.entries@.len() ==> #[trigger] animation_entry_matches(
                    animations.entries@,
                    animations_element.children@.take(i as int),
                    j,
                ),
        decreases n - i,
    {
        proof {
            assert(animations_element.children@.take(i + 1).drop_last()
                =~= animations_element.children@.take(i as int));
        }
        let child = &animations_element.children[i];
        let is_animation = str_eq(child.name.as_str(), "animation");
        if !is_animation {
            proof {
                lemma_named_skip(animations_element.children@, "animation"@, i as int);
                assert forall|j: int|
                    0 <= j < animations.entries@.len() implies #[trigger] animation_entry_matches(
                    animations.entries@,
                    animations_element.children@.take(i + 1),
                    j,
                ) by {
                    assert(animation_entry_matches(
                        animations.entries@,
                        animations_element.children@.take(i as int),
                        j,
                    ));
                }
            }
        }
        if is_animation {
            let animation = match Animation::parse(child, asset) {
                Ok(a) => a,
                Err(e) => {
                    return Err(e);
                },
            };
            let id = animation.id.clone();
            let ghost entries_before = animations.entries@;
            match animations.insert(id.clone(), Arc::new(animation)) {
                Ok(()) => {
                    proof {
                        assert(forall|k: int|
                            0 <= k < entries_before.len() ==> animations.entries@[k]
                                == entries_before[k]);
                        assert forall|j: int|
                            0 <= j
                                < animations.entries@.len() implies #[trigger] animation_entry_matches(
                            animations.entries@,
                            animations_element.children@.take(i + 1),
                            j,
                        ) by {
                            assert(animations_element.children@.take(i + 1).take(i as int)
                                =~= animations_element.children@.take(i as int));
                            if j < entries_before.len() {
                                assert(animations.entries@[j] == entries_before[j]);
                                assert(animation_entry_matches(
                                    entries_before,
                                    animations_element.children@.take(i as int),
                                    j,
                                ));
                                lemma_nth_named_extends(
                                    animations_element.children@.take(i + 1),
                                    "animation"@,
                                    i as int,
                                    j,
                                );
                            } else {
                                assert(count_named(
                                    animations_element.children@.take(i as int),
                                    "animation"@,
                                ) == j);
                                assert(nth_named(
                                    animations_element.children@.take(i + 1),
                                    "animation"@,
                                    j,
                                ) == animations_element.children@[i as int]);
                            }
                        }
                    }
                },
                Err(()) => {
                    return Err(Error::DuplicateId { scope: ("animation").to_owned(), id });
                },
            }
        }
        i = i + 1;
    }
    proof {
        assert(animations_element.children@.take(n as int) =~= animations_element.children@);
    }
    Ok(animations)
}

} // verus!
