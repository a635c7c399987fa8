use path_tracer::scalar::Scalar;
use path_tracer::scene::Nearest;
use path_tracer::sphere::{front_face, has_real_root, pick_root, Root};

fn s(x: f64) -> Scalar {
    Scalar::from_bits(x.to_bits())
}

/// The discriminant and the two roots for a ray from `o` along `d` and a
/// sphere at `c` with radius `r`.
fn quadratic(o: [f64; 3], d: [f64; 3], c: [f64; 3], r: f64) -> (f64, f64, f64) {
    let oc = [o[0] - c[0], o[1] - c[1], o[2] - c[2]];
    let a = d[0] * d[0] + d[1] * d[1] + d[2] * d[2];
    let half_b = oc[0] * d[0] + oc[1] * d[1] + oc[2] * d[2];
    let cc = oc[0] * oc[0] + oc[1] * oc[1] + oc[2] * oc[2] - r * r;
    let disc = half_b * half_b - a * cc;
    let sqrtd = disc.sqrt();
    (disc, (-half_b - sqrtd) / a, (-half_b + sqrtd) / a)
}

#[test]
fn negative_discriminant_has_no_root() {
    assert!(!has_real_root(s(-1.0)));
    assert!(!has_real_root(s(-5.0e-324)));
    assert!(!has_real_root(s(f64::NEG_INFINITY)));
}

#[test]
fn zero_and_positive_discriminants_have_roots() {
    assert!(has_real_root(s(0.0)));
    assert!(has_real_root(s(-0.0)));
    assert!(has_real_root(s(0.25)));
}

#[test]
fn the_smaller_root_is_tried_first() {
    assert_eq!(pick_root(s(0.5), s(1.5), s(0.001), s(f64::INFINITY)), Some(Root::Near));
}

#[test]
fn the_larger_root_is_taken_where_the_smaller_is_outside() {
    assert_eq!(pick_root(s(-0.5), s(0.5), s(0.001), s(f64::INFINITY)), Some(Root::Far));
    assert_eq!(pick_root(s(0.0005), s(0.5), s(0.001), s(f64::INFINITY)), Some(Root::Far));
}

#[test]
fn no_root_inside_means_no_hit() {
    assert_eq!(pick_root(s(-1.5), s(-0.5), s(0.001), s(f64::INFINITY)), None);
    assert_eq!(pick_root(s(2.0), s(3.0), s(0.001), s(1.0)), None);
    assert_eq!(pick_root(s(-1.0), s(3.0), s(0.001), s(1.0)), None);
}

#[test]
fn roots_at_the_ends_of_the_interval_count() {
    assert_eq!(pick_root(s(0.001), s(3.0), s(0.001), s(1.0)), Some(Root::Near));
    assert_eq!(pick_root(s(-1.0), s(1.0), s(0.001), s(1.0)), Some(Root::Far));
}

#[test]
fn nan_roots_are_no_hit() {
    assert_eq!(pick_root(s(f64::NAN), s(f64::NAN), s(0.001), s(f64::INFINITY)), None);
    assert_eq!(pick_root(s(f64::NAN), s(2.0), s(0.001), s(f64::INFINITY)), Some(Root::Far));
}

#[test]
fn front_face_is_a_negative_dot() {
    assert!(front_face(s(-1.0)));
    assert!(front_face(s(-1.0e-300)));
    assert!(!front_face(s(0.0)));
    assert!(!front_face(s(-0.0)));
    assert!(!front_face(s(0.5)));
    assert!(!front_face(s(f64::NAN)));
}

#[test]
fn ray_through_the_center_from_outside() {
    let (o, d, c, r) = ([0.0, 0.0, 0.0], [0.0, 0.0, -1.0], [0.0, 0.0, -1.0], 0.5);
    let (disc, near, far) = quadratic(o, d, c, r);
    assert!(has_real_root(s(disc)));
    assert_eq!(pick_root(s(near), s(far), s(0.001), s(f64::INFINITY)), Some(Root::Near));
    assert_eq!(near, 0.5);
    let p = [o[0] + near * d[0], o[1] + near * d[1], o[2] + near * d[2]];
    assert_eq!(p, [0.0, 0.0, -0.5]);
    let n = [(p[0] - c[0]) / r, (p[1] - c[1]) / r, (p[2] - c[2]) / r];
    assert_eq!(n, [0.0, 0.0, 1.0]);
    let dot = d[0] * n[0] + d[1] * n[1] + d[2] * n[2];
    assert!(front_face(s(dot)));
}

#[test]
fn ray_from_inside_meets_the_back_face() {
    let (o, d, c, r) = ([0.0, 0.0, -1.0], [0.0, 0.0, -1.0], [0.0, 0.0, -1.0], 0.5);
    let (disc, near, far) = quadratic(o, d, c, r);
    assert!(has_real_root(s(disc)));
    assert_eq!(pick_root(s(near), s(far), s(0.001), s(f64::INFINITY)), Some(Root::Far));
    assert_eq!(far, 0.5);
    let p = [o[0] + far * d[0], o[1] + far * d[1], o[2] + far * d[2]];
    let n = [(p[0] - c[0]) / r, (p[1] - c[1]) / r, (p[2] - c[2]) / r];
    let dot = d[0] * n[0] + d[1] * n[1] + d[2] * n[2];
    assert!(!front_face(s(dot)));
}

#[test]
fn hollow_sphere_turns_the_face() {
    let (o, d, c, r) = ([0.0, 0.0, 0.0], [0.0, 0.0, -1.0], [0.0, 0.0, -1.0], -0.4);
    let (disc, near, far) = quadratic(o, d, c, r);
    assert!(has_real_root(s(disc)));
    assert_eq!(pick_root(s(near), s(far), s(0.001), s(f64::INFINITY)), Some(Root::Near));
    let p = [o[0] + near * d[0], o[1] + near * d[1], o[2] + near * d[2]];
    let n = [(p[0] - c[0]) / r, (p[1] - c[1]) / r, (p[2] - c[2]) / r];
    let dot = d[0] * n[0] + d[1] * n[1] + d[2] * n[2];
    assert!(!front_face(s(dot)));
}

#[test]
fn ray_that_misses_has_no_root() {
    let (disc, _, _) = quadratic([0.0, 0.0, 0.0], [0.0, 1.0, 0.0], [0.0, 0.0, -1.0], 0.5);
    assert!(!has_real_root(s(disc)));
}

#[test]
fn searching_up_to_the_best_hit_changes_nothing() {
    let roots = [(0.5, 1.5), (0.25, 2.0), (-1.0, 0.3), (0.3, 0.3), (4.0, 5.0), (-3.0, -2.0)];
    let mut whole = Nearest::new(s(0.001), s(3.0));
    let mut shrunk = Nearest::new(s(0.001), s(3.0));
    for (i, (near, far)) in roots.iter().enumerate() {
        let pick = |root: Option<Root>| match root {
            Some(Root::Near) => Some(s(*near)),
            Some(Root::Far) => Some(s(*far)),
            None => None,
        };
        if let Some(t) = pick(pick_root(s(*near), s(*far), whole.t_min(), s(3.0))) {
            whole.offer(i, t);
        }
        if let Some(t) = pick(pick_root(s(*near), s(*far), shrunk.t_min(), shrunk.bound())) {
            shrunk.offer(i, t);
        }
        assert_eq!(whole.winner(), shrunk.winner());
        assert_eq!(whole.bound().to_bits(), shrunk.bound().to_bits());
    }
    assert_eq!(whole.winner(), Some(1));
}
