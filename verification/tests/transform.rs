//! The transform normalizer: axis mapping, quaternion extraction and the
//! software float operations behind them.

use collada::asset::{Asset, Axis, Editor, Unit};
use collada::float;
use collada::float::FloatBits;
use collada::location::{Matrix, Position, Quaternion, Scale};
use collada::xml::Element;

fn fb(v: f32) -> FloatBits {
    FloatBits { bits: v.to_bits() }
}

fn fv(b: FloatBits) -> f32 {
    f32::from_bits(b.bits)
}

fn asset(up_axis: Axis, editor: Editor) -> Asset {
    Asset {
        created: "now".to_string(),
        modified: "now".to_string(),
        unit: Unit { name: "meter".to_string(), ratio: fb(1.0) },
        up_axis,
        editor,
    }
}

#[test]
fn float_constants_are_the_expected_values() {
    assert_eq!(float::F32_ZERO, 0.0f32.to_bits());
    assert_eq!(float::F32_QUARTER, 0.25f32.to_bits());
    assert_eq!(float::F32_HALF, 0.5f32.to_bits());
    assert_eq!(float::F32_ONE, 1.0f32.to_bits());
    assert_eq!(float::F32_TWO, 2.0f32.to_bits());
    assert_eq!(float::F32_HUNDRED, 100.0f32.to_bits());
    assert_eq!(float::F32_ONE_EIGHTY, 180.0f32.to_bits());
    assert_eq!(float::F32_PI_APPROX, 3.14f32.to_bits());
    assert_eq!(float::F32_SIGN_MASK, (-0.0f32).to_bits());
}

// The software float operations behind the transform normalizer, probed
// through the public surface: a result equal to a wrapper's untouched
// argument would fail each of these.
#[test]
fn float_operations_compute() {
    // Addition, multiplication and the square root via the magnitude.
    let q = Quaternion::new(fb(3.0), fb(4.0), fb(0.0), fb(0.0));
    assert_eq!(fv(q.magnitude()), 5.0);
    // Division via normalization.
    let n = Quaternion::new(fb(0.0), fb(0.0), fb(0.0), fb(2.0)).normalize();
    assert_eq!(fv(n.w), 1.0);
    // Decimal-to-float conversion via a position parse.
    let a = asset(Axis::Y, Editor::Unknown);
    let p = Position::parse(&"2.5 0 0".to_string(), &a).unwrap();
    assert_eq!(p.x.bits, 2.5f32.to_bits());
    assert!(Position::parse(&"nope 0 0".to_string(), &a).is_err());
    // Negation is a verified bit operation.
    assert_eq!(fv(fb(3.5).neg()), -3.5);
    assert_eq!(fb(0.0).neg().bits, (-0.0f32).to_bits());
}

// Identity axis mapping: under "Y-up" without the authoring-tool quirk the
// permutation is the identity on positions, scales and quaternions.
#[test]
fn y_up_mapping_is_identity() {
    let a = asset(Axis::Y, Editor::Unknown);
    let p = Position::with_asset(fb(1.0), fb(2.0), fb(3.0), &a);
    assert_eq!(p, Position { x: fb(1.0), y: fb(2.0), z: fb(3.0) });
    let s = Scale::with_asset(fb(1.0), fb(2.0), fb(3.0), &a);
    assert_eq!(s, Scale { x: fb(1.0), y: fb(2.0), z: fb(3.0) });
    let q = Quaternion::with_asset(fb(0.1), fb(0.2), fb(0.3), fb(0.9), &a);
    assert_eq!(q, Quaternion { x: fb(0.1), y: fb(0.2), z: fb(0.3), w: fb(0.9) });
}

// Under "Z-up" with the Blender heuristic, Y and Z swap and the first
// component's sign flips on positions and quaternions, never on scales.
#[test]
fn z_up_blender_mapping() {
    let a = asset(Axis::Z, Editor::Blender);
    let p = Position::with_asset(fb(1.0), fb(2.0), fb(3.0), &a);
    assert_eq!(p, Position { x: fb(-1.0), y: fb(3.0), z: fb(2.0) });
    let s = Scale::with_asset(fb(1.0), fb(2.0), fb(3.0), &a);
    assert_eq!(s, Scale { x: fb(1.0), y: fb(3.0), z: fb(2.0) });
    let q = Quaternion::with_asset(fb(0.1), fb(0.2), fb(0.3), fb(0.9), &a);
    assert_eq!(q, Quaternion { x: fb(-0.1), y: fb(0.3), z: fb(0.2), w: fb(0.9) });
}

#[test]
fn magnitude_and_normalize() {
    let q = Quaternion::new(fb(0.0), fb(0.0), fb(0.0), fb(2.0));
    assert_eq!(fv(q.magnitude()), 2.0);
    let n = q.normalize();
    assert_eq!(fv(n.w), 1.0);
    assert_eq!(fv(n.x), 0.0);
    let q2 = Quaternion::new(fb(3.0), fb(4.0), fb(0.0), fb(0.0));
    assert_eq!(fv(q2.magnitude()), 5.0);
}

#[test]
fn position_and_scale_parse() {
    let a = asset(Axis::Y, Editor::Unknown);
    let p = Position::parse(&"1 2 3 ignored".to_string(), &a).unwrap();
    assert_eq!(p, Position { x: fb(1.0), y: fb(2.0), z: fb(3.0) });
    assert!(Position::parse(&"1 2".to_string(), &a).is_err());
    assert!(Position::parse(&"1 2 x".to_string(), &a).is_err());
    // Scales are rounded to two decimal places before the axis mapping.
    let s = Scale::parse(&"1.004 0.996 2.5".to_string(), &a).unwrap();
    assert_eq!(s, Scale { x: fb(1.0), y: fb(1.0), z: fb(2.5) });
}

fn quat_to_matrix(q: Quaternion) -> [f32; 9] {
    let (x, y, z, w) = (fv(q.x), fv(q.y), fv(q.z), fv(q.w));
    [
        1.0 - 2.0 * (y * y + z * z),
        2.0 * (x * y - z * w),
        2.0 * (x * z + y * w),
        2.0 * (x * y + z * w),
        1.0 - 2.0 * (x * x + z * z),
        2.0 * (y * z - x * w),
        2.0 * (x * z - y * w),
        2.0 * (y * z + x * w),
        1.0 - 2.0 * (x * x + y * y),
    ]
}

fn check_roundtrip(rot: [f32; 9]) {
    let a = asset(Axis::Y, Editor::Unknown);
    let mut cells = [fb(0.0); 16];
    for row in 0..3 {
        for col in 0..3 {
            cells[row * 4 + col] = fb(rot[row * 3 + col]);
        }
    }
    cells[15] = fb(1.0);
    let quat = Matrix::from(cells).to_quat(&a);
    let mag = fv(quat.magnitude());
    assert!((mag - 1.0).abs() < 1e-4);
    let back = quat_to_matrix(quat);
    for k in 0..9 {
        assert!(
            (back[k] - rot[k]).abs() < 1e-4,
            "entry {} came back {} instead of {}",
            k,
            back[k],
            rot[k]
        );
    }
}

// Quaternion round-trip: recomposing a rotation matrix from the extracted
// quaternion reproduces the original within tolerance, whichever of the
// four trace branches is taken.
#[test]
fn quaternion_roundtrip_trace_branch() {
    // Identity and a 90-degree turn about Z: the trace is dominant.
    check_roundtrip([1.0, 0.0, 0.0, 0.0, 1.0, 0.0, 0.0, 0.0, 1.0]);
    check_roundtrip([0.0, -1.0, 0.0, 1.0, 0.0, 0.0, 0.0, 0.0, 1.0]);
}

#[test]
fn quaternion_roundtrip_x_branch() {
    // A half-turn about X: the first diagonal entry dominates.
    check_roundtrip([1.0, 0.0, 0.0, 0.0, -1.0, 0.0, 0.0, 0.0, -1.0]);
}

#[test]
fn quaternion_roundtrip_y_branch() {
    // A half-turn about Y: the second diagonal entry dominates.
    check_roundtrip([-1.0, 0.0, 0.0, 0.0, 1.0, 0.0, 0.0, 0.0, -1.0]);
}

#[test]
fn quaternion_roundtrip_z_branch() {
    // A half-turn about Z: the third diagonal entry dominates.
    check_roundtrip([-1.0, 0.0, 0.0, 0.0, -1.0, 0.0, 0.0, 0.0, 1.0]);
}

#[test]
fn quaternion_roundtrip_general_rotation() {
    // A rotation about a skew axis, hitting non-trivial off-diagonals.
    let (s, c) = (0.6f32, 0.8f32);
    check_roundtrip([c, -s, 0.0, s * c, c * c, -s, s * s, s * c, c]);
}

#[test]
fn matrix_parse_and_decompose() {
    let a = asset(Axis::Y, Editor::Unknown);
    let text = "1 0 0 5 0 1 0 6 0 0 1 7 0 0 0 1".to_string();
    let m = Matrix::parse(&text).unwrap();
    let loc = m.to_location(&a);
    assert_eq!(fv(loc.position.x), 5.0);
    assert_eq!(fv(loc.position.y), 6.0);
    assert_eq!(fv(loc.position.z), 7.0);
    assert_eq!(fv(loc.scale.x), 1.0);
    assert_eq!(fv(loc.scale.y), 1.0);
    assert_eq!(fv(loc.scale.z), 1.0);
    assert!((fv(loc.rotation.w) - 1.0).abs() < 1e-6);
    assert!(Matrix::parse(&"1 2 3".to_string()).is_err());
}

#[test]
fn rotation_angles_compose() {
    let a = asset(Axis::Y, Editor::Unknown);
    let node = Element {
        name: "node".to_string(),
        attributes: vec![],
        children: vec![
            Element {
                name: "rotate".to_string(),
                attributes: vec![],
                children: vec![],
                text: Some("0 0 1 90".to_string()),
            },
        ],
        text: None,
    };
    let q = Quaternion::parse_angles(&node, &a).unwrap();
    // Roughly sin(45 degrees) about Z (the library's degree conversion uses
    // the coarse 3.14 constant, so the tolerance is loose).
    assert!((fv(q.z) - 0.7071).abs() < 1e-2);
    assert!((fv(q.w) - 0.7071).abs() < 1e-2);
    assert!(fv(q.x).abs() < 1e-6);

    // A node without rotate children composes to the identity.
    let empty = Element {
        name: "node".to_string(),
        attributes: vec![],
        children: vec![],
        text: None,
    };
    let id_q = Quaternion::parse_angles(&empty, &a).unwrap();
    assert_eq!(fv(id_q.w), 1.0);
    assert_eq!(fv(id_q.x), 0.0);
}
