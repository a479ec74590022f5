use branchgen::attach::{chain_step, child_transform, on_negative_side, resolve_attachment};
use branchgen::config::{AttachmentPoint, BranchSpec, GenError, Mode, Vec3, MAX_DEPTH, ONE};
use branchgen::transform::{Frame, Orientation, Transform};

fn vec3(x: i64, y: i64, z: i64) -> Vec3 {
    Vec3 { x, y, z }
}

fn chain_with(scale: Vec3, euler: Vec3, translation: Vec3, twist: i64) -> BranchSpec {
    BranchSpec {
        segment_count: 20,
        depth: 5,
        branch_factor: 1,
        attachment_points: Vec::new(),
        child_scale: scale,
        child_rotation_euler: euler,
        child_translation: translation,
        twist_angle: twist,
        mode: Mode::Instancing,
    }
}

fn fork_with(points: Vec<AttachmentPoint>, segment_count: u32, depth: u32) -> BranchSpec {
    BranchSpec {
        segment_count,
        depth,
        branch_factor: 2,
        attachment_points: points,
        child_scale: vec3(ONE, ONE, ONE),
        child_rotation_euler: vec3(0, 0, 0),
        child_translation: vec3(0, 0, 0),
        twist_angle: 16384,
        mode: Mode::Flatten,
    }
}

fn seat(z: i64) -> AttachmentPoint {
    AttachmentPoint {
        position: vec3(0, 3 * ONE, z),
        outward_normal: vec3(0, 3 * ONE, 2 * z),
        radius: 45875,
    }
}

#[test]
fn attachment_resolves_to_uniform_scale_tilt_and_move() {
    let point = AttachmentPoint {
        position: vec3(0, 3 * ONE, ONE / 2),
        outward_normal: vec3(0, 3 * ONE, 92682),
        radius: 45875,
    };
    assert_eq!(
        resolve_attachment(&point, 16384),
        Transform {
            scale: vec3(45875, 45875, 45875),
            orientation: Orientation::Toward(vec3(0, 3 * ONE, 92682)),
            twist: 16384,
            translation: vec3(0, 3 * ONE, ONE / 2),
        }
    );
}

#[test]
fn zero_length_normal_falls_back_to_upright() {
    let point = AttachmentPoint {
        position: vec3(7, 8, 9),
        outward_normal: vec3(0, 0, 0),
        radius: ONE,
    };
    let t = resolve_attachment(&point, 0);
    assert_eq!(t.orientation, Orientation::Upright);
    assert_eq!(t.translation, vec3(7, 8, 9));
    assert_eq!(t.scale, vec3(ONE, ONE, ONE));
    assert_eq!(t.twist, 0);
}

#[test]
fn normal_along_the_axis_leaves_the_child_upright() {
    for y in [ONE, 1, -1, -5 * ONE] {
        let point = AttachmentPoint {
            position: vec3(0, ONE, 0),
            outward_normal: vec3(0, y, 0),
            radius: ONE,
        };
        assert_eq!(resolve_attachment(&point, 0).orientation, Orientation::Upright);
    }
}

#[test]
fn normal_off_the_axis_is_aimed_at_unnormalised() {
    for normal in [vec3(1, 0, 0), vec3(0, 0, -1), vec3(3, -4, 5), vec3(-ONE, ONE, 0)] {
        let point = AttachmentPoint { position: vec3(0, 0, 0), outward_normal: normal, radius: 1 };
        assert_eq!(resolve_attachment(&point, 0).orientation, Orientation::Toward(normal));
    }
}

#[test]
fn sign_test_is_strict() {
    assert!(on_negative_side(&seat(-1)));
    assert!(!on_negative_side(&seat(0)));
    assert!(!on_negative_side(&seat(1)));
}

#[test]
fn plain_chain_step_is_one_unit_up() {
    let spec = chain_with(vec3(ONE, ONE, ONE), vec3(0, 0, 0), vec3(0, 0, 0), 0);
    let step = chain_step(&spec);
    assert_eq!(
        step,
        Transform {
            scale: vec3(ONE, ONE, ONE),
            orientation: Orientation::Upright,
            twist: 0,
            translation: vec3(0, ONE, 0),
        }
    );
    assert!(step.moves_only());
    assert!(Transform::identity().moves_only());
}

#[test]
fn chain_step_applies_the_delta_on_top_of_the_parent() {
    let spec = chain_with(
        vec3(ONE / 2, 58982, ONE / 2),
        vec3(3129, 0, 0),
        vec3(100, -200, 300),
        16384,
    );
    let step = chain_step(&spec);
    assert_eq!(
        step,
        Transform {
            scale: vec3(ONE / 2, 58982, ONE / 2),
            orientation: Orientation::Euler(vec3(3129, 0, 0)),
            twist: 16384,
            translation: vec3(100, ONE - 200, 300),
        }
    );
    assert!(!step.moves_only());
}

#[test]
fn child_transform_follows_the_branch_factor() {
    let chain = chain_with(vec3(ONE, ONE, ONE), vec3(0, 1, 0), vec3(0, 0, 0), 5);
    assert_eq!(child_transform(&chain, 0), chain_step(&chain));
    let fork = fork_with(vec![seat(ONE / 2), seat(-ONE / 2)], 40, 3);
    assert_eq!(child_transform(&fork, 0), resolve_attachment(&seat(ONE / 2), 16384));
    assert_eq!(child_transform(&fork, 1), resolve_attachment(&seat(-ONE / 2), 16384));
}

#[test]
fn identity_transform_has_unit_scale_and_no_offset() {
    assert_eq!(
        Transform::identity(),
        Transform {
            scale: vec3(ONE, ONE, ONE),
            orientation: Orientation::Upright,
            twist: 0,
            translation: vec3(0, 0, 0),
        }
    );
    assert_eq!(Vec3::uniform(7), vec3(7, 7, 7));
    assert_eq!(Vec3::zero(), vec3(0, 0, 0));
    assert!(Vec3::zero().is_zero());
    assert!(!vec3(0, 0, 1).is_zero());
}

#[test]
fn frames_compose_in_order() {
    let a = resolve_attachment(&seat(1), 0);
    let b = resolve_attachment(&seat(-1), 7);
    let c = Transform::identity();
    let left = Frame::empty().followed_by(a).followed_by(b);
    let right = Frame::empty().followed_by(c);
    assert_eq!(left.len(), 2);
    assert_eq!(left.links, vec![a, b]);
    assert_eq!(left.compose(&right).links, vec![a, b, c]);
    assert_eq!(right.compose(&left).links, vec![c, a, b]);
    assert_eq!(Frame::empty().compose(&left).links, left.links);
    assert_eq!(left.compose(&Frame::empty()).links, left.links);
    // Grouping does not matter, order does.
    let ab_c = Frame::empty().followed_by(a).followed_by(b).compose(&right);
    let bc = Frame::empty().followed_by(b).followed_by(c);
    let a_bc = Frame::empty().followed_by(a).compose(&bc);
    assert_eq!(ab_c.links, a_bc.links);
    assert_ne!(
        Frame::empty().followed_by(a).followed_by(b).links,
        Frame::empty().followed_by(b).followed_by(a).links
    );
}

#[test]
fn validation_accepts_the_two_topologies() {
    assert_eq!(chain_with(vec3(1, 1, 1), vec3(0, 0, 0), vec3(0, 0, 0), 0).validate(), Ok(()));
    assert_eq!(fork_with(vec![seat(1), seat(-1)], 40, 8).validate(), Ok(()));
    assert_eq!(fork_with(vec![seat(1), seat(-1)], 4, MAX_DEPTH).validate(), Ok(()));
}

#[test]
fn validation_reports_configuration_faults() {
    let two = || vec![seat(1), seat(-1)];
    assert_eq!(fork_with(two(), 41, 3).validate(), Err(GenError::ConfigError));
    assert_eq!(fork_with(two(), 42, 3).validate(), Err(GenError::ConfigError));
    assert_eq!(fork_with(two(), 0, 3).validate(), Err(GenError::ConfigError));
    assert_eq!(fork_with(vec![seat(1)], 40, 3).validate(), Err(GenError::ConfigError));
    assert_eq!(fork_with(Vec::new(), 40, 0).validate(), Err(GenError::ConfigError));
    assert_eq!(
        fork_with(vec![seat(1), seat(-1), seat(2)], 40, 3).validate(),
        Err(GenError::ConfigError)
    );
    let mut chain = chain_with(vec3(ONE, ONE, ONE), vec3(0, 0, 0), vec3(0, 0, 0), 0);
    chain.segment_count = 41;
    assert_eq!(chain.validate(), Err(GenError::ConfigError));
    chain.segment_count = 0;
    assert_eq!(chain.validate(), Err(GenError::ConfigError));
    chain.segment_count = 42;
    assert_eq!(chain.validate(), Ok(()));
    chain.branch_factor = 0;
    assert_eq!(chain.validate(), Err(GenError::ConfigError));
    chain.branch_factor = 3;
    assert_eq!(chain.validate(), Err(GenError::ConfigError));
}

#[test]
fn validation_rejects_an_offset_that_cannot_be_lifted() {
    let mut chain = chain_with(vec3(ONE, ONE, ONE), vec3(0, 0, 0), vec3(0, i64::MAX, 0), 0);
    assert_eq!(chain.validate(), Err(GenError::ConfigError));
    chain.child_translation.y = i64::MAX - ONE;
    assert_eq!(chain.validate(), Ok(()));
    assert_eq!(chain_step(&chain).translation.y, i64::MAX);
    // A fork never reads the chain's offset.
    let mut fork = fork_with(vec![seat(1), seat(-1)], 40, 2);
    fork.child_translation.y = i64::MAX;
    assert_eq!(fork.validate(), Ok(()));
}

#[test]
fn validation_reports_excessive_depth() {
    let mut chain = chain_with(vec3(ONE, ONE, ONE), vec3(0, 0, 0), vec3(0, 0, 0), 0);
    chain.depth = MAX_DEPTH;
    assert_eq!(chain.validate(), Ok(()));
    chain.depth = MAX_DEPTH + 1;
    assert_eq!(chain.validate(), Err(GenError::OverflowError));
    chain.depth = u32::MAX;
    assert_eq!(chain.validate(), Err(GenError::OverflowError));
    assert_eq!(
        fork_with(vec![seat(1), seat(-1)], 40, 13).validate(),
        Err(GenError::OverflowError)
    );
}

#[test]
fn configuration_fault_is_reported_ahead_of_depth() {
    assert_eq!(
        fork_with(vec![seat(1), seat(-1)], 41, 99).validate(),
        Err(GenError::ConfigError)
    );
}

#[test]
fn builders_fill_in_a_plain_chain_and_a_fork() {
    let chain = BranchSpec::chain(20, 5, Mode::Instancing);
    assert_eq!(chain.segment_count, 20);
    assert_eq!(chain.depth, 5);
    assert_eq!(chain.branch_factor, 1);
    assert!(chain.attachment_points.is_empty());
    assert_eq!(chain.child_scale, vec3(ONE, ONE, ONE));
    assert_eq!(chain.child_rotation_euler, vec3(0, 0, 0));
    assert_eq!(chain.child_translation, vec3(0, 0, 0));
    assert_eq!(chain.twist_angle, 0);
    assert_eq!(chain.mode, Mode::Instancing);
    assert_eq!(chain.validate(), Ok(()));
    let fork = BranchSpec::fork(40, 8, seat(5), seat(-5), 16384, Mode::Flatten);
    assert_eq!(fork.segment_count, 40);
    assert_eq!(fork.depth, 8);
    assert_eq!(fork.branch_factor, 2);
    assert_eq!(fork.attachment_points, vec![seat(5), seat(-5)]);
    assert_eq!(fork.twist_angle, 16384);
    assert_eq!(fork.mode, Mode::Flatten);
    assert_eq!(fork.validate(), Ok(()));
}
