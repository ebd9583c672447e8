//! Transform normalization: positions, scales, rotation quaternions and
//! raw 4x4 matrices, converted into the asset's canonical convention.
//!
//! Axis permutation and handedness correction are pure bit operations and
//! are verified outright; every arithmetic step (sums, products, square
//! roots, the trigonometry of axis-angle rotations) is pinned to the named
//! software float operations, so each function's result is a function of
//! its operand bit patterns.

use vstd::prelude::*;

use crate::asset::Asset;
use crate::asset::Axis;
use crate::asset::Editor;
use crate::error::Error;
use crate::error::NumericKind;
use crate::float::F32_HALF;
use crate::float::F32_HUNDRED;
use crate::float::F32_QUARTER;
use crate::float::F32_ONE;
use crate::float::F32_ONE_EIGHTY;
use crate::float::F32_PI_APPROX;
use crate::float::F32_SIGN_MASK;
use crate::float::F32_TWO;
use crate::float::F32_ZERO;
use crate::float::FloatBits;
use crate::float::f32_add;
use crate::float::f32_cos;
use crate::float::f32_div;
use crate::float::f32_gt;
use crate::float::f32_mul;
use crate::float::f32_of_text;
use crate::float::f32_round;
use crate::float::f32_sin;
use crate::float::f32_sqrt;
use crate::float::f32_sub;
use crate::float::fp_add;
use crate::float::fp_cos;
use crate::float::fp_div;
use crate::float::fp_gt;
use crate::float::fp_mul;
use crate::float::fp_round;
use crate::float::fp_sin;
use crate::float::fp_sqrt;
use crate::float::fp_sub;
use crate::float::parse_f32;
use crate::text::spec_tokens;
use crate::text::split_tokens;
use crate::text::views_of;
use crate::xml::Element;

verus! {

/// A position in the asset's canonical convention.
#[derive(Clone, Copy, PartialEq, Eq, Structural, Debug)]
pub struct Position {
    pub x: FloatBits,
    pub y: FloatBits,
    pub z: FloatBits,
}

/// A per-axis scale in the asset's canonical convention.
#[derive(Clone, Copy, PartialEq, Eq, Structural, Debug)]
pub struct Scale {
    pub x: FloatBits,
    pub y: FloatBits,
    pub z: FloatBits,
}

/// A rotation quaternion in the asset's canonical convention.
#[derive(Clone, Copy, PartialEq, Eq, Structural, Debug)]
pub struct Quaternion {
    pub x: FloatBits,
    pub y: FloatBits,
    pub z: FloatBits,
    pub w: FloatBits,
}

/// A raw 4x4 matrix, row-major, exactly as the document declared it.
#[derive(Clone, Copy, Debug)]
pub struct Matrix {
    pub mat: [FloatBits; 16],
}

/// A canonical placement: position, rotation quaternion and scale.
#[derive(Clone, Copy, PartialEq, Eq, Structural, Debug)]
pub struct Location {
    pub position: Position,
    pub scale: Scale,
    pub rotation: Quaternion,
}

// ---------------------------------------------------------------------------
// Axis permutation and handedness correction.
// ---------------------------------------------------------------------------

/// Three components permuted into the asset's up-axis convention: the
/// identity under "Y-up", a transposition of two axes otherwise.
pub open spec fn spec_permuted(x: FloatBits, y: FloatBits, z: FloatBits, axis: Axis) -> (
    FloatBits,
    FloatBits,
    FloatBits,
) {
    match axis {
        Axis::X => (y, x, z),
        Axis::Y => (x, y, z),
        Axis::Z => (x, z, y),
    }
}

/// The sign flip the authoring-tool heuristic applies to a permuted first
/// component (IEEE-754 negation: the sign bit flipped).
pub open spec fn spec_handed(x: FloatBits, editor: Editor) -> FloatBits {
    if editor == Editor::Blender {
        FloatBits { bits: x.bits ^ F32_SIGN_MASK }
    } else {
        x
    }
}

/// A position built from raw components: permuted by the up axis, then
/// sign-corrected on its first component under the Blender heuristic.
pub open spec fn spec_position_with_asset(
    x: FloatBits,
    y: FloatBits,
    z: FloatBits,
    asset: Asset,
) -> Position {
    let (px, py, pz) = spec_permuted(x, y, z, asset.up_axis);
    Position { x: spec_handed(px, asset.editor), y: py, z: pz }
}

/// A scale built from raw components: permuted by the up axis, never
/// sign-corrected.
pub open spec fn spec_scale_with_asset(x: FloatBits, y: FloatBits, z: FloatBits, asset: Asset) -> Scale {
    let (px, py, pz) = spec_permuted(x, y, z, asset.up_axis);
    Scale { x: px, y: py, z: pz }
}

/// A quaternion built from raw components: the vector part permuted by the
/// up axis and sign-corrected like a position, the scalar part untouched.
pub open spec fn spec_quat_with_asset(
    x: FloatBits,
    y: FloatBits,
    z: FloatBits,
    w: FloatBits,
    asset: Asset,
) -> Quaternion {
    let (px, py, pz) = spec_permuted(x, y, z, asset.up_axis);
    Quaternion { x: spec_handed(px, asset.editor), y: py, z: pz, w }
}

// ---------------------------------------------------------------------------
// Quaternion arithmetic over the named float operations.
// ---------------------------------------------------------------------------

/// The magnitude `sqrt(w*w + x*x + y*y + z*z)` of a quaternion.
pub open spec fn spec_magnitude(q: Quaternion) -> FloatBits {
    FloatBits {
        bits: f32_sqrt(
            f32_add(
                f32_add(
                    f32_add(f32_mul(q.w.bits, q.w.bits), f32_mul(q.x.bits, q.x.bits)),
                    f32_mul(q.y.bits, q.y.bits),
                ),
                f32_mul(q.z.bits, q.z.bits),
            ),
        ),
    }
}

/// Every component divided by the magnitude.
pub open spec fn spec_normalized(q: Quaternion) -> Quaternion {
    let mag = spec_magnitude(q).bits;
    Quaternion {
        x: FloatBits { bits: f32_div(q.x.bits, mag) },
        y: FloatBits { bits: f32_div(q.y.bits, mag) },
        z: FloatBits { bits: f32_div(q.z.bits, mag) },
        w: FloatBits { bits: f32_div(q.w.bits, mag) },
    }
}

/// The Hamilton product of two quaternions, renormalized.
pub open spec fn spec_q_mul(a: Quaternion, b: Quaternion) -> Quaternion {
    let w = f32_sub(
        f32_sub(
            f32_sub(f32_mul(a.w.bits, b.w.bits), f32_mul(a.x.bits, b.x.bits)),
            f32_mul(a.y.bits, b.y.bits),
        ),
        f32_mul(a.z.bits, b.z.bits),
    );
    let x = f32_sub(
        f32_add(
            f32_add(f32_mul(a.w.bits, b.x.bits), f32_mul(a.x.bits, b.w.bits)),
            f32_mul(a.y.bits, b.z.bits),
        ),
        f32_mul(a.z.bits, b.y.bits),
    );
    let y = f32_add(
        f32_add(
            f32_sub(f32_mul(a.w.bits, b.y.bits), f32_mul(a.x.bits, b.z.bits)),
            f32_mul(a.y.bits, b.w.bits),
        ),
        f32_mul(a.z.bits, b.x.bits),
    );
    let z = f32_add(
        f32_sub(
            f32_add(f32_mul(a.w.bits, b.z.bits), f32_mul(a.x.bits, b.y.bits)),
            f32_mul(a.y.bits, b.x.bits),
        ),
        f32_mul(a.z.bits, b.w.bits),
    );
    spec_normalized(
        Quaternion {
            x: FloatBits { bits: x },
            y: FloatBits { bits: y },
            z: FloatBits { bits: z },
            w: FloatBits { bits: w },
        },
    )
}

/// Rounding to two decimal places: `round(v * 100) / 100`.
pub open spec fn spec_round2(v: u32) -> u32 {
    f32_div(f32_round(f32_mul(v, F32_HUNDRED)), F32_HUNDRED)
}

/// The quaternion of one axis-angle rotation (axis `x, y, z`, angle `a` in
/// degrees), in the asset's convention, normalized.
pub open spec fn spec_axis_angle(
    x: FloatBits,
    y: FloatBits,
    z: FloatBits,
    a: FloatBits,
    asset: Asset,
) -> Quaternion {
    let angle = f32_div(a.bits, f32_div(F32_ONE_EIGHTY, F32_PI_APPROX));
    let sin_a = f32_sin(f32_div(angle, F32_TWO));
    let cos_a = f32_cos(f32_div(angle, F32_TWO));
    spec_normalized(
        spec_quat_with_asset(
            FloatBits { bits: f32_mul(x.bits, sin_a) },
            FloatBits { bits: f32_mul(y.bits, sin_a) },
            FloatBits { bits: f32_mul(z.bits, sin_a) },
            FloatBits { bits: cos_a },
            asset,
        ),
    )
}

// ---------------------------------------------------------------------------
// Token triples and 16-tuples.
// ---------------------------------------------------------------------------

/// The first three tokens of `text` parsed as floats, when there are at
/// least three and they all parse.
pub open spec fn spec_triple(text: Seq<char>) -> Option<(FloatBits, FloatBits, FloatBits)> {
    let toks = spec_tokens(text);
    if toks.len() >= 3 {
        match (f32_of_text(toks[0]), f32_of_text(toks[1]), f32_of_text(toks[2])) {
            (Some(a), Some(b), Some(c)) => Some(
                (FloatBits { bits: a }, FloatBits { bits: b }, FloatBits { bits: c }),
            ),
            _ => None,
        }
    } else {
        None
    }
}

/// Whether the first sixteen tokens of `text` all parse as floats.
pub open spec fn spec_sixteen_ok(text: Seq<char>) -> bool {
    let toks = spec_tokens(text);
    toks.len() >= 16 && forall|k: int| 0 <= k < 16 ==> f32_of_text(#[trigger] toks[k]) is Some
}

/// The `k`-th of the first sixteen tokens of `text`, parsed.
pub open spec fn spec_sixteenth(text: Seq<char>, k: int) -> FloatBits {
    FloatBits { bits: f32_of_text(spec_tokens(text)[k])->0 }
}

/// Parses the token at `i` as a float, naming `field` in the error.
fn tok_f32(tokens: &Vec<String>, i: usize, field: &str) -> (r: Result<FloatBits, Error>)
    requires
        i < tokens@.len(),
    ensures
        match r {
            Ok(f) => f32_of_text(tokens@[i as int]@) == Some(f.bits),
            Err(e) => e matches Error::NumericParse { kind, field: got_field, token } && kind
                == NumericKind::Float && got_field@ == field@ && token@ == tokens@[i as int]@
                && f32_of_text(tokens@[i as int]@) is None,
        },
{
    match parse_f32(tokens[i].as_str()) {
        Some(f) => Ok(f),
        None => Err(
            Error::NumericParse {
                kind: NumericKind::Float,
                field: field.to_owned(),
                token: tokens[i].clone(),
            },
        ),
    }
}

impl Position {
    /// A position from raw components.
    pub fn new(x: FloatBits, y: FloatBits, z: FloatBits) -> (r: Position)
        ensures
            r == (Position { x, y, z }),
    {
        Position { x, y, z }
    }

    /// A position permuted and sign-corrected into the asset's convention.
    pub fn with_asset(x: FloatBits, y: FloatBits, z: FloatBits, asset: &Asset) -> (r: Position)
        ensures
            r == spec_position_with_asset(x, y, z, *asset),
    {
        let mut position = match asset.up_axis {
            Axis::X => Position::new(y, x, z),
            Axis::Y => Position::new(x, y, z),
            Axis::Z => Position::new(x, z, y),
        };
        if matches!(asset.editor, Editor::Blender) {
            position.x = position.x.neg();
        }
        position
    }

    /// Parses three float tokens and converts them into the asset's
    /// convention; succeeds exactly when the text holds at least three
    /// tokens and the first three parse.
    pub fn parse(text: &String, asset: &Asset) -> (r: Result<Position, Error>)
        ensures
            match r {
                Ok(p) => spec_triple(text@) matches Some(t) && p == spec_position_with_asset(
                    t.0,
                    t.1,
                    t.2,
                    *asset,
                ),
                Err(e) => spec_triple(text@) is None && (match e {
                    Error::CardinalityMismatch { expected, found, .. } => expected == 3 && found
                        == spec_tokens(text@).len() && spec_tokens(text@).len() < 3,
                    Error::NumericParse { kind, field, token } => kind == NumericKind::Float
                        && field@ == "position"@ && f32_of_text(token@) is None && (token@
                        == spec_tokens(text@)[0] || token@ == spec_tokens(text@)[1] || token@
                        == spec_tokens(text@)[2]),
                    _ => false,
                }),
            },
    {
        let tokens = split_tokens(text.as_str());
        proof {
            assert(views_of(tokens@).len() == tokens@.len());
        }
        if tokens.len() < 3 {
            return Err(
                Error::CardinalityMismatch {
                    description: ("a position needs three components").to_owned(),
                    expected: 3,
                    found: tokens.len(),
                },
            );
        }
        let a = match tok_f32(&tokens, 0, "position") {
            Ok(f) => f,
            Err(e) => {
                return Err(e);
            },
        };
        let b = match tok_f32(&tokens, 1, "position") {
            Ok(f) => f,
            Err(e) => {
                return Err(e);
            },
        };
        let c = match tok_f32(&tokens, 2, "position") {
            Ok(f) => f,
            Err(e) => {
                return Err(e);
            },
        };
        Ok(Position::with_asset(a, b, c, asset))
    }
}

impl Scale {
    /// A scale from raw components.
    pub fn new(x: FloatBits, y: FloatBits, z: FloatBits) -> (r: Scale)
        ensures
            r == (Scale { x, y, z }),
    {
        Scale { x, y, z }
    }

    /// A scale permuted into the asset's convention (scales are never
    /// sign-corrected).
    pub fn with_asset(x: FloatBits, y: FloatBits, z: FloatBits, asset: &Asset) -> (r: Scale)
        ensures
            r == spec_scale_with_asset(x, y, z, *asset),
    {
        match asset.up_axis {
            Axis::X => Scale::new(y, x, z),
            Axis::Y => Scale::new(x, y, z),
            Axis::Z => Scale::new(x, z, y),
        }
    }

    /// Parses three float tokens, rounds each to two decimal places
    /// (authoring tools emit near-integer scales with floating noise), and
    /// converts them into the asset's convention.
    pub fn parse(text: &String, asset: &Asset) -> (r: Result<Scale, Error>)
        ensures
            match r {
                Ok(s) => spec_triple(text@) matches Some(t) && s == spec_scale_with_asset(
                    FloatBits { bits: spec_round2(t.0.bits) },
                    FloatBits { bits: spec_round2(t.1.bits) },
                    FloatBits { bits: spec_round2(t.2.bits) },
                    *asset,
                ),
                Err(e) => spec_triple(text@) is None && (match e {
                    Error::CardinalityMismatch { expected, found, .. } => expected == 3 && found
                        == spec_tokens(text@).len() && spec_tokens(text@).len() < 3,
                    Error::NumericParse { kind, field, token } => kind == NumericKind::Float
                        && field@ == "scale"@ && f32_of_text(token@) is None && (token@
                        == spec_tokens(text@)[0] || token@ == spec_tokens(text@)[1] || token@
                        == spec_tokens(text@)[2]),
                    _ => false,
                }),
            },
    {
        let tokens = split_tokens(text.as_str());
        proof {
            assert(views_of(tokens@).len() == tokens@.len());
        }
        if tokens.len() < 3 {
            return Err(
                Error::CardinalityMismatch {
                    description: ("a scale needs three components").to_owned(),
                    expected: 3,
                    found: tokens.len(),
                },
            );
        }
        let a = match tok_f32(&tokens, 0, "scale") {
            Ok(f) => f,
            Err(e) => {
                return Err(e);
            },
        };
        let b = match tok_f32(&tokens, 1, "scale") {
            Ok(f) => f,
            Err(e) => {
                return Err(e);
            },
        };
        let c = match tok_f32(&tokens, 2, "scale") {
            Ok(f) => f,
            Err(e) => {
                return Err(e);
            },
        };
        Ok(Scale::with_asset(round2(a), round2(b), round2(c), asset))
    }
}

/// Rounds a value to two decimal places.
fn round2(v: FloatBits) -> (r: FloatBits)
    ensures
        r.bits == spec_round2(v.bits),
{
    fp_div(fp_round(fp_mul(v, FloatBits::new(F32_HUNDRED))), FloatBits::new(F32_HUNDRED))
}

impl Quaternion {
    /// A quaternion from raw components.
    pub fn new(x: FloatBits, y: FloatBits, z: FloatBits, w: FloatBits) -> (r: Quaternion)
        ensures
            r == (Quaternion { x, y, z, w }),
    {
        Quaternion { x, y, z, w }
    }

    /// The magnitude `sqrt(w*w + x*x + y*y + z*z)`.
    pub fn magnitude(&self) -> (r: FloatBits)
        ensures
            r == spec_magnitude(*self),
    {
        fp_sqrt(
            fp_add(
                fp_add(
                    fp_add(fp_mul(self.w, self.w), fp_mul(self.x, self.x)),
                    fp_mul(self.y, self.y),
                ),
                fp_mul(self.z, self.z),
            ),
        )
    }

    /// The quaternion scaled to magnitude one.
    pub fn normalize(&self) -> (r: Quaternion)
        ensures
            r == spec_normalized(*self),
    {
        let mag = self.magnitude();
        Quaternion::new(
            fp_div(self.x, mag),
            fp_div(self.y, mag),
            fp_div(self.z, mag),
            fp_div(self.w, mag),
        )
    }

    /// The Hamilton product with `other`, renormalized.
    pub fn mul(self, other: Quaternion) -> (r: Quaternion)
        ensures
            r == spec_q_mul(self, other),
    {
        let w = fp_sub(
            fp_sub(
                fp_sub(fp_mul(self.w, other.w), fp_mul(self.x, other.x)),
                fp_mul(self.y, other.y),
            ),
            fp_mul(self.z, other.z),
        );
        let x = fp_sub(
            fp_add(
                fp_add(fp_mul(self.w, other.x), fp_mul(self.x, other.w)),
                fp_mul(self.y, other.z),
            ),
            fp_mul(self.z, other.y),
        );
        let y = fp_add(
            fp_add(
                fp_sub(fp_mul(self.w, other.y), fp_mul(self.x, other.z)),
                fp_mul(self.y, other.w),
            ),
            fp_mul(self.z, other.x),
        );
        let z = fp_add(
            fp_sub(
                fp_add(fp_mul(self.w, other.z), fp_mul(self.x, other.y)),
                fp_mul(self.y, other.x),
            ),
            fp_mul(self.z, other.w),
        );
        Quaternion::new(x, y, z, w).normalize()
    }

    /// A quaternion with its vector part permuted and sign-corrected into
    /// the asset's convention.
    pub fn with_asset(x: FloatBits, y: FloatBits, z: FloatBits, w: FloatBits, asset: &Asset) -> (r:
        Quaternion)
        ensures
            r == spec_quat_with_asset(x, y, z, w, *asset),
    {
        let mut quat = match asset.up_axis {
            Axis::X => Quaternion::new(y, x, z, w),
            Axis::Y => Quaternion::new(x, y, z, w),
            Axis::Z => Quaternion::new(x, z, y, w),
        };
        if matches!(asset.editor, Editor::Blender) {
            quat.x = quat.x.neg();
        }
        quat
    }

    /// The quaternion of one axis-angle rotation (angle in degrees), in
    /// the asset's convention, normalized.
    pub fn with_axis_angle_and_asset(
        x: FloatBits,
        y: FloatBits,
        z: FloatBits,
        a: FloatBits,
        asset: &Asset,
    ) -> (r: Quaternion)
        ensures
            r == spec_axis_angle(x, y, z, a, *asset),
    {
        let angle = fp_div(a, fp_div(FloatBits::new(F32_ONE_EIGHTY), FloatBits::new(F32_PI_APPROX)));
        let half = fp_div(angle, FloatBits::new(F32_TWO));
        let sin_a = fp_sin(half);
        let cos_a = fp_cos(half);
        let quat = Quaternion::with_asset(
            fp_mul(x, sin_a),
            fp_mul(y, sin_a),
            fp_mul(z, sin_a),
            cos_a,
            asset,
        );
        quat.normalize()
    }

    /// Folds every `rotate` child of `node`, in document order, into one
    /// rotation by quaternion multiplication, starting from the identity.
    pub fn parse_angles(node: &Element, asset: &Asset) -> (r: Result<Quaternion, Error>)
        ensures
            match r {
                Ok(q) => spec_parse_angles(node.children@, *asset) == Some(q),
                Err(_) => spec_parse_angles(node.children@, *asset) is None,
            },
    {
        let mut rotation = Quaternion::new(
            FloatBits::new(F32_ZERO),
            FloatBits::new(F32_ZERO),
            FloatBits::new(F32_ZERO),
            FloatBits::new(F32_ONE),
        );
        let n = node.children.len();
        let mut i: usize = 0;
        proof {
            assert(node.children@.take(0int) =~= Seq::<Element>::empty());
        }
        while i < n
            invariant
                n == node.children@.len(),
                i <= n,
                spec_parse_angles(node.children@.take(i as int), *asset) == Some(rotation),
            decreases n - i,
        {
            proof {
                assert(node.children@.take(i + 1).drop_last() =~= node.children@.take(i as int));
            }
            let element = &node.children[i];
            if crate::text::str_eq(element.name.as_str(), "rotate") {
                let text = match element.get_text() {
                    Ok(t) => t,
                    Err(e) => {
                        proof {
                            lemma_angles_none_extends(node.children@, *asset, i + 1);
                        }
                        return Err(e);
                    },
                };
                let tokens = split_tokens(text.as_str());
                proof {
                    assert(views_of(tokens@).len() == tokens@.len());
                }
                if tokens.len() < 4 {
                    proof {
                        lemma_angles_none_extends(node.children@, *asset, i + 1);
                    }
                    return Err(
                        Error::CardinalityMismatch {
                            description: ("a rotation needs four components").to_owned(),
                            expected: 4,
                            found: tokens.len(),
                        },
                    );
                }
                let a = match tok_f32(&tokens, 0, "rotation") {
                    Ok(f) => f,
                    Err(e) => {
                        proof {
                            lemma_angles_none_extends(node.children@, *asset, i + 1);
                        }
                        return Err(e);
                    },
                };
                let b = match tok_f32(&tokens, 1, "rotation") {
                    Ok(f) => f,
                    Err(e) => {
                        proof {
                            lemma_angles_none_extends(node.children@, *asset, i + 1);
                        }
                        return Err(e);
                    },
                };
                let c = match tok_f32(&tokens, 2, "rotation") {
                    Ok(f) => f,
                    Err(e) => {
                        proof {
                            lemma_angles_none_extends(node.children@, *asset, i + 1);
                        }
                        return Err(e);
                    },
                };
                let d = match tok_f32(&tokens, 3, "rotation") {
                    Ok(f) => f,
                    Err(e) => {
                        proof {
                            lemma_angles_none_extends(node.children@, *asset, i + 1);
                        }
                        return Err(e);
                    },
                };
                let quat = Quaternion::with_axis_angle_and_asset(a, b, c, d, asset);
                rotation = rotation.mul(quat);
            }
            i = i + 1;
        }
        proof {
            assert(node.children@.take(n as int) =~= node.children@);
        }
        Ok(rotation)
    }
}

/// The identity rotation every angle fold starts from.
pub open spec fn spec_identity_quat() -> Quaternion {
    Quaternion {
        x: FloatBits { bits: F32_ZERO },
        y: FloatBits { bits: F32_ZERO },
        z: FloatBits { bits: F32_ZERO },
        w: FloatBits { bits: F32_ONE },
    }
}

/// What one `rotate` element contributes: the axis-angle quaternion of its
/// first four tokens, when it has text and they parse.
pub open spec fn spec_rotate_quat(e: Element, asset: Asset) -> Option<Quaternion> {
    match e.text {
        None => None,
        Some(t) => {
            let toks = spec_tokens(t@);
            if toks.len() >= 4 {
                match (
                    f32_of_text(toks[0]),
                    f32_of_text(toks[1]),
                    f32_of_text(toks[2]),
                    f32_of_text(toks[3]),
                ) {
                    (Some(a), Some(b), Some(c), Some(d)) => Some(
                        spec_axis_angle(
                            FloatBits { bits: a },
                            FloatBits { bits: b },
                            FloatBits { bits: c },
                            FloatBits { bits: d },
                            asset,
                        ),
                    ),
                    _ => None,
                }
            } else {
                None
            }
        },
    }
}

/// The fold of every `rotate` child, in order, into one rotation.
pub open spec fn spec_parse_angles(children: Seq<Element>, asset: Asset) -> Option<Quaternion>
    decreases children.len(),
{
    if children.len() == 0 {
        Some(spec_identity_quat())
    } else {
        match spec_parse_angles(children.drop_last(), asset) {
            None => None,
            Some(acc) => {
                let e = children.last();
                if e.name@ != "rotate"@ {
                    Some(acc)
                } else {
                    match spec_rotate_quat(e, asset) {
                        None => None,
                        Some(q) => Some(spec_q_mul(acc, q)),
                    }
                }
            },
        }
    }
}

/// Once the fold over a prefix of the children has failed, the fold over
/// the whole list fails.
proof fn lemma_angles_none_extends(children: Seq<Element>, asset: Asset, j: int)
    requires
        0 <= j <= children.len(),
        spec_parse_angles(children.take(j), asset) is None,
    ensures
        spec_parse_angles(children, asset) is None,
    decreases children.len() - j,
{
    if j < children.len() {
        assert(children.take(j + 1).drop_last() =~= children.take(j));
        lemma_angles_none_extends(children, asset, j + 1);
    } else {
        assert(children.take(j) =~= children);
    }
}

impl Matrix {
    /// A matrix from sixteen raw values.
    pub fn from(mat: [FloatBits; 16]) -> (r: Matrix)
        ensures
            r == (Matrix { mat }),
    {
        Matrix { mat }
    }

    /// Parses sixteen float tokens into a matrix; succeeds exactly when the
    /// text holds at least sixteen tokens and the first sixteen parse.
    pub fn parse(text: &String) -> (r: Result<Matrix, Error>)
        ensures
            match r {
                Ok(m) => spec_sixteen_ok(text@) && forall|k: int|
                    0 <= k < 16 ==> m.mat@[k] == spec_sixteenth(text@, k),
                Err(e) => !spec_sixteen_ok(text@) && (match e {
                    Error::CardinalityMismatch { expected, found, .. } => expected == 16 && found
                        == spec_tokens(text@).len() && spec_tokens(text@).len() < 16,
                    Error::NumericParse { kind, field, token } => kind == NumericKind::Float
                        && field@ == "matrix"@ && f32_of_text(token@) is None && spec_tokens(
                        text@,
                    ).len() >= 16,
                    _ => false,
                }),
            },
    {
        let tokens = split_tokens(text.as_str());
        proof {
            assert(views_of(tokens@).len() == tokens@.len());
        }
        if tokens.len() < 16 {
            return Err(
                Error::CardinalityMismatch {
                    description: ("a matrix needs sixteen components").to_owned(),
                    expected: 16,
                    found: tokens.len(),
                },
            );
        }
        let mut values: [FloatBits; 16] = [FloatBits::new(F32_ZERO); 16];
        let mut k: usize = 0;
        while k < 16
            invariant
                k <= 16,
                tokens@.len() >= 16,
                views_of(tokens@) == spec_tokens(text@),
                forall|j: int| 0 <= j < k ==> f32_of_text(#[trigger] views_of(tokens@)[j]) is Some,
                forall|j: int|
                    0 <= j < k ==> values@[j] == (FloatBits {
                        bits: f32_of_text(views_of(tokens@)[j])->0,
                    }),
            decreases 16 - k,
        {
            let v = match tok_f32(&tokens, k, "matrix") {
                Ok(f) => f,
                Err(e) => {
                    proof {
                        assert(views_of(tokens@)[k as int] == tokens@[k as int]@);
                        assert(f32_of_text(views_of(tokens@)[k as int]) is None);
                        assert(spec_tokens(text@) == views_of(tokens@));
                        assert(!spec_sixteen_ok(text@));
                    }
                    return Err(e);
                },
            };
            values[k] = v;
            k = k + 1;
        }
        Ok(Matrix { mat: values })
    }

    /// Extracts the rotation quaternion by the trace-based closed form:
    /// four branches selected by which of the trace and the three diagonal
    /// entries dominates, each renormalized before being returned.
    pub fn to_quat(&self, asset: &Asset) -> (r: Quaternion)
        ensures
            r == spec_to_quat(*self, *asset),
    {
        let m0 = self.mat[0];
        let m1 = self.mat[1];
        let m2 = self.mat[2];
        let m4 = self.mat[4];
        let m5 = self.mat[5];
        let m6 = self.mat[6];
        let m8 = self.mat[8];
        let m9 = self.mat[9];
        let m10 = self.mat[10];
        let one = FloatBits::new(F32_ONE);
        let two = FloatBits::new(F32_TWO);
        let half = FloatBits::new(F32_HALF);
        let quarter = FloatBits::new(F32_QUARTER);
        let t = fp_add(fp_add(fp_add(m0, m5), m10), one);
        if fp_gt(t, FloatBits::new(F32_ZERO)) {
            let s = fp_div(half, fp_sqrt(t));
            let w = fp_div(quarter, s);
            let x = fp_mul(fp_sub(m9, m6), s);
            let y = fp_mul(fp_sub(m2, m8), s);
            let z = fp_mul(fp_sub(m4, m1), s);
            Quaternion::with_asset(x, y, z, w, asset).normalize()
        } else if fp_gt(m0, m5) && fp_gt(m0, m10) {
            let s = fp_sqrt(fp_mul(fp_sub(fp_sub(fp_add(one, m0), m5), m10), two));
            let x = fp_div(half, s);
            let y = fp_div(fp_add(m1, m4), s);
            let z = fp_div(fp_add(m2, m8), s);
            let w = fp_div(fp_add(m6, m9), s);
            Quaternion::with_asset(x, y, z, w, asset).normalize()
        } else if fp_gt(m5, m0) && fp_gt(m5, m10) {
            let s = fp_sqrt(fp_mul(fp_sub(fp_sub(fp_add(one, m5), m0), m10), two));
            let x = fp_div(fp_add(m1, m4), s);
            let y = fp_div(half, s);
            let z = fp_div(fp_add(m6, m9), s);
            let w = fp_div(fp_add(m2, m8), s);
            Quaternion::with_asset(x, y, z, w, asset).normalize()
        } else {
            let s = fp_sqrt(fp_mul(fp_sub(fp_sub(fp_add(one, m10), m0), m5), two));
            let x = fp_div(fp_add(m2, m8), s);
            let y = fp_div(fp_add(m6, m9), s);
            let z = fp_div(half, s);
            let w = fp_div(fp_add(m1, m4), s);
            Quaternion::with_asset(x, y, z, w, asset).normalize()
        }
    }

    /// Decomposes the matrix into a canonical placement: the translation
    /// column as the position, the column magnitudes rounded to two
    /// decimal places as the scale, and the trace-based quaternion as the
    /// rotation, all in the asset's convention.
    pub fn to_location(&self, asset: &Asset) -> (r: Location)
        ensures
            r == spec_to_location(*self, *asset),
    {
        let position = Position::with_asset(self.mat[3], self.mat[7], self.mat[11], asset);
        let scale_x = round2(
            fp_sqrt(
                fp_add(
                    fp_add(fp_mul(self.mat[0], self.mat[0]), fp_mul(self.mat[4], self.mat[4])),
                    fp_mul(self.mat[8], self.mat[8]),
                ),
            ),
        );
        let scale_y = round2(
            fp_sqrt(
                fp_add(
                    fp_add(fp_mul(self.mat[1], self.mat[1]), fp_mul(self.mat[5], self.mat[5])),
                    fp_mul(self.mat[9], self.mat[9]),
                ),
            ),
        );
        let scale_z = round2(
            fp_sqrt(
                fp_add(
                    fp_add(fp_mul(self.mat[2], self.mat[2]), fp_mul(self.mat[6], self.mat[6])),
                    fp_mul(self.mat[10], self.mat[10]),
                ),
            ),
        );
        let scale = Scale::with_asset(scale_x, scale_y, scale_z, asset);
        let quat = self.to_quat(asset);
        Location::new(position, scale, quat)
    }
}

/// The `i`-th entry of a matrix, as bits.
pub open spec fn me(m: Matrix, i: int) -> u32 {
    m.mat@[i].bits
}

/// The trace-based quaternion extraction, over the named float operations.
pub open spec fn spec_to_quat(m: Matrix, asset: Asset) -> Quaternion {
    let t = f32_add(f32_add(f32_add(me(m, 0), me(m, 5)), me(m, 10)), F32_ONE);
    if f32_gt(t, F32_ZERO) {
        let s = f32_div(F32_HALF, f32_sqrt(t));
        spec_normalized(
            spec_quat_with_asset(
                FloatBits { bits: f32_mul(f32_sub(me(m, 9), me(m, 6)), s) },
                FloatBits { bits: f32_mul(f32_sub(me(m, 2), me(m, 8)), s) },
                FloatBits { bits: f32_mul(f32_sub(me(m, 4), me(m, 1)), s) },
                FloatBits { bits: f32_div(F32_QUARTER, s) },
                asset,
            ),
        )
    } else if f32_gt(me(m, 0), me(m, 5)) && f32_gt(me(m, 0), me(m, 10)) {
        let s = f32_sqrt(f32_mul(f32_sub(f32_sub(f32_add(F32_ONE, me(m, 0)), me(m, 5)), me(m, 10)), F32_TWO));
        spec_normalized(
            spec_quat_with_asset(
                FloatBits { bits: f32_div(F32_HALF, s) },
                FloatBits { bits: f32_div(f32_add(me(m, 1), me(m, 4)), s) },
                FloatBits { bits: f32_div(f32_add(me(m, 2), me(m, 8)), s) },
                FloatBits { bits: f32_div(f32_add(me(m, 6), me(m, 9)), s) },
                asset,
            ),
        )
    } else if f32_gt(me(m, 5), me(m, 0)) && f32_gt(me(m, 5), me(m, 10)) {
        let s = f32_sqrt(f32_mul(f32_sub(f32_sub(f32_add(F32_ONE, me(m, 5)), me(m, 0)), me(m, 10)), F32_TWO));
        spec_normalized(
            spec_quat_with_asset(
                FloatBits { bits: f32_div(f32_add(me(m, 1), me(m, 4)), s) },
                FloatBits { bits: f32_div(F32_HALF, s) },
                FloatBits { bits: f32_div(f32_add(me(m, 6), me(m, 9)), s) },
                FloatBits { bits: f32_div(f32_add(me(m, 2), me(m, 8)), s) },
                asset,
            ),
        )
    } else {
        let s = f32_sqrt(f32_mul(f32_sub(f32_sub(f32_add(F32_ONE, me(m, 10)), me(m, 0)), me(m, 5)), F32_TWO));
        spec_normalized(
            spec_quat_with_asset(
                FloatBits { bits: f32_div(f32_add(me(m, 2), me(m, 8)), s) },
                FloatBits { bits: f32_div(f32_add(me(m, 6), me(m, 9)), s) },
                FloatBits { bits: f32_div(F32_HALF, s) },
                FloatBits { bits: f32_div(f32_add(me(m, 1), me(m, 4)), s) },
                asset,
            ),
        )
    }
}

/// The magnitude of one column triple, rounded to two decimal places.
pub open spec fn spec_column_scale(m: Matrix, a: int, b: int, c: int) -> FloatBits {
    FloatBits {
        bits: spec_round2(
            f32_sqrt(
                f32_add(
                    f32_add(f32_mul(me(m, a), me(m, a)), f32_mul(me(m, b), me(m, b))),
                    f32_mul(me(m, c), me(m, c)),
                ),
            ),
        ),
    }
}

/// The canonical placement a matrix decomposes into.
pub open spec fn spec_to_location(m: Matrix, asset: Asset) -> Location {
    Location {
        position: spec_position_with_asset(m.mat@[3], m.mat@[7], m.mat@[11], asset),
        scale: spec_scale_with_asset(
            spec_column_scale(m, 0, 4, 8),
            spec_column_scale(m, 1, 5, 9),
            spec_column_scale(m, 2, 6, 10),
            asset,
        ),
        rotation: spec_to_quat(m, asset),
    }
}


// ---------------------------------------------------------------------------
// Identity of the axis mapping under the standard convention.
// ---------------------------------------------------------------------------

/// Under the "Y-up" convention without the authoring-tool heuristic, axis
/// permutation is the identity on positions.
pub proof fn lemma_position_identity_mapping(x: FloatBits, y: FloatBits, z: FloatBits, asset: Asset)
    requires
        asset.up_axis == Axis::Y,
        asset.editor != Editor::Blender,
    ensures
        spec_position_with_asset(x, y, z, asset) == (Position { x, y, z }),
{
}

/// Under the "Y-up" convention, axis permutation is the identity on scales
/// (scales carry no handedness correction in any case).
pub proof fn lemma_scale_identity_mapping(x: FloatBits, y: FloatBits, z: FloatBits, asset: Asset)
    requires
        asset.up_axis == Axis::Y,
    ensures
        spec_scale_with_asset(x, y, z, asset) == (Scale { x, y, z }),
{
}

/// Under the "Y-up" convention without the authoring-tool heuristic, axis
/// permutation is the identity on quaternions.
pub proof fn lemma_quat_identity_mapping(
    x: FloatBits,
    y: FloatBits,
    z: FloatBits,
    w: FloatBits,
    asset: Asset,
)
    requires
        asset.up_axis == Axis::Y,
        asset.editor != Editor::Blender,
    ensures
        spec_quat_with_asset(x, y, z, w, asset) == (Quaternion { x, y, z, w }),
{
}

impl Location {
    /// A placement from its three parts.
    pub fn new(position: Position, scale: Scale, rotation: Quaternion) -> (r: Location)
        ensures
            r == (Location { position, scale, rotation }),
    {
        Location { position, scale, rotation }
    }
}

} // verus!
