//! The document's global parse context: distance unit, up-axis convention
//! and the authoring-tool heuristic that drives handedness correction.

use vstd::prelude::*;

use crate::error::Error;
use crate::float::FloatBits;
use crate::float::f32_of_text;
use crate::text::spec_starts_with;
use crate::text::starts_with;
use crate::text::str_eq;
use crate::xml::Element;
use crate::xml::child_text;
use crate::xml::spec_attr;
use crate::xml::unique_child;

verus! {

/// The document's distance unit: a name (always "meter") and how many
/// meters one unit is.
pub struct Unit {
    pub name: String,
    pub ratio: FloatBits,
}

/// One of the three orthogonal axes an authoring tool can treat as "up".
#[derive(Clone, Copy, PartialEq, Eq, Structural, Debug)]
pub enum Axis {
    X,
    Y,
    Z,
}

/// The authoring tool the document came from, as far as the contributor
/// metadata reveals it; Blender documents get a handedness correction.
#[derive(Clone, Copy, PartialEq, Eq, Structural, Debug)]
pub enum Editor {
    Blender,
    Unknown,
}

/// The global parse context, constructed once and read-only afterward.
pub struct Asset {
    pub created: String,
    pub modified: String,
    pub unit: Unit,
    pub up_axis: Axis,
    pub editor: Editor,
}

/// What parsing the `asset` block of `root` yields, if it is well-formed:
/// creation and modification stamps, a meter unit with its ratio, an
/// up-axis tag, and the authoring tool read from the contributor.
pub open spec fn spec_parse_asset(root: Element) -> Option<Asset> {
    match unique_child(root, "asset"@) {
        None => None,
        Some(a) => match child_text(a, "created"@) {
            None => None,
            Some(created) => match child_text(a, "modified"@) {
                None => None,
                Some(modified) => match unique_child(a, "unit"@) {
                    None => None,
                    Some(u) => match spec_attr(u.attributes@, "name"@) {
                        None => None,
                        Some(unit_name) => if unit_name@ != "meter"@ {
                            None
                        } else {
                            match spec_attr(u.attributes@, "meter"@) {
                                None => None,
                                Some(ratio_token) => match f32_of_text(ratio_token@) {
                                    None => None,
                                    Some(ratio_bits) => match child_text(a, "up_axis"@) {
                                        None => None,
                                        Some(axis_text) => match spec_axis_of(axis_text@) {
                                            None => None,
                                            Some(up_axis) => match unique_child(
                                                a,
                                                "contributor"@,
                                            ) {
                                                None => None,
                                                Some(c) => match child_text(
                                                    c,
                                                    "authoring_tool"@,
                                                ) {
                                                    None => None,
                                                    Some(tool) => Some(
                                                        Asset {
                                                            created,
                                                            modified,
                                                            unit: Unit {
                                                                name: unit_name,
                                                                ratio: FloatBits {
                                                                    bits: ratio_bits,
                                                                },
                                                            },
                                                            up_axis,
                                                            editor: spec_editor_of(tool@),
                                                        },
                                                    ),
                                                },
                                            },
                                        },
                                    },
                                },
                            }
                        },
                    },
                },
            },
        },
    }
}

/// Which axis an `up_axis` tag names.
pub open spec fn spec_axis_of(s: Seq<char>) -> Option<Axis> {
    if s == "X_UP"@ {
        Some(Axis::X)
    } else if s == "Y_UP"@ {
        Some(Axis::Y)
    } else if s == "Z_UP"@ {
        Some(Axis::Z)
    } else {
        None
    }
}

/// Which editor an authoring-tool string reveals.
pub open spec fn spec_editor_of(tool: Seq<char>) -> Editor {
    if spec_starts_with(tool, "Blender"@) {
        Editor::Blender
    } else {
        Editor::Unknown
    }
}

impl Asset {
    /// Parses the document's `asset` block: it succeeds exactly on the
    /// blocks `spec_parse_asset` accepts, and returns exactly that value.
    pub fn parse(root: &Element) -> (r: Result<Asset, Error>)
        ensures
            match r {
                Ok(asset) => spec_parse_asset(*root) == Some(asset),
                Err(_) => spec_parse_asset(*root) is None,
            },
    {
        let asset_el = match root.get_element("asset") {
            Ok(a) => a,
            Err(e) => {
                return Err(e);
            },
        };
        let created = match asset_el.get_element("created") {
            Ok(c) => match c.get_text() {
                Ok(t) => t.clone(),
                Err(e) => {
                    return Err(e);
                },
            },
            Err(e) => {
                return Err(e);
            },
        };
        let modified = match asset_el.get_element("modified") {
            Ok(c) => match c.get_text() {
                Ok(t) => t.clone(),
                Err(e) => {
                    return Err(e);
                },
            },
            Err(e) => {
                return Err(e);
            },
        };
        let unit_el = match asset_el.get_element("unit") {
            Ok(u) => u,
            Err(e) => {
                return Err(e);
            },
        };
        let unit_name = match unit_el.get_attribute("name") {
            Ok(v) => v.clone(),
            Err(e) => {
                return Err(e);
            },
        };
        if !str_eq(unit_name.as_str(), "meter") {
            return Err(
                Error::StructuralInvariant {
                    description: ("the unit of the asset must be the meter").to_owned(),
                },
            );
        }
        let ratio = match unit_el.parse_attribute_as_f32("meter") {
            Ok(f) => f,
            Err(e) => {
                return Err(e);
            },
        };
        let axis_text = match asset_el.get_element("up_axis") {
            Ok(c) => match c.get_text() {
                Ok(t) => t,
                Err(e) => {
                    return Err(e);
                },
            },
            Err(e) => {
                return Err(e);
            },
        };
        let up_axis = if str_eq(axis_text.as_str(), "X_UP") {
            Axis::X
        } else if str_eq(axis_text.as_str(), "Y_UP") {
            Axis::Y
        } else if str_eq(axis_text.as_str(), "Z_UP") {
            Axis::Z
        } else {
            return Err(
                Error::StructuralInvariant {
                    description: ("the up axis must be X_UP, Y_UP or Z_UP").to_owned(),
                },
            );
        };
        let contributor = match asset_el.get_element("contributor") {
            Ok(c) => c,
            Err(e) => {
                return Err(e);
            },
        };
        let tool = match contributor.get_element("authoring_tool") {
            Ok(c) => match c.get_text() {
                Ok(t) => t,
                Err(e) => {
                    return Err(e);
                },
            },
            Err(e) => {
                return Err(e);
            },
        };
        let editor = if starts_with(tool.as_str(), "Blender") {
            Editor::Blender
        } else {
            Editor::Unknown
        };
        Ok(
            Asset {
                created,
                modified,
                unit: Unit { name: unit_name, ratio },
                up_axis,
                editor,
            },
        )
    }
}


/// Determinism: two parses of the same `asset` block that both succeed
/// yield the same value, field for field.
pub proof fn lemma_asset_parse_deterministic(root: Element, a1: Asset, a2: Asset)
    requires
        spec_parse_asset(root) == Some(a1),
        spec_parse_asset(root) == Some(a2),
    ensures
        a1 == a2,
{
}

} // verus!
