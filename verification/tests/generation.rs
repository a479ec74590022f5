use branchgen::compose::{generate, node_count, triangle_count, Generated};
use branchgen::config::{AttachmentPoint, BranchSpec, GenError, Mode, Vec3, ONE};
use branchgen::count::{subtree_len, NODE_LIMIT};
use branchgen::flat::compose_flat;
use branchgen::transform::Transform;
use branchgen::tree::compose_instanced;

fn vec3(x: i64, y: i64, z: i64) -> Vec3 {
    Vec3 { x, y, z }
}

fn chain_spec(depth: u32, segment_count: u32, mode: Mode) -> BranchSpec {
    BranchSpec {
        segment_count,
        depth,
        branch_factor: 1,
        attachment_points: Vec::new(),
        child_scale: vec3(ONE, ONE, ONE),
        child_rotation_euler: vec3(0, 0, 0),
        child_translation: vec3(0, 0, 0),
        twist_angle: 0,
        mode,
    }
}

fn fork_spec(depth: u32, segment_count: u32, mode: Mode) -> BranchSpec {
    let half = ONE / 2;
    BranchSpec {
        segment_count,
        depth,
        branch_factor: 2,
        attachment_points: vec![
            AttachmentPoint {
                position: vec3(0, 3 * ONE, half),
                outward_normal: vec3(0, 3 * ONE, 92682),
                radius: 45875,
            },
            AttachmentPoint {
                position: vec3(0, 3 * ONE, -half),
                outward_normal: vec3(0, 3 * ONE, -92682),
                radius: 45875,
            },
        ],
        child_scale: vec3(ONE, ONE, ONE),
        child_rotation_euler: vec3(0, 0, 0),
        child_translation: vec3(0, 0, 0),
        twist_angle: 16384,
        mode,
    }
}

#[test]
fn chain_of_depth_five_has_six_linked_nodes_sharing_one_mesh() {
    let spec = chain_spec(5, 20, Mode::Instancing);
    let tree = match generate(&spec) {
        Ok(Generated::Nodes(tree)) => tree,
        other => panic!("expected a node tree, got {:?}", other),
    };
    assert_eq!(tree.nodes.len(), 6);
    assert_eq!(tree.meshes.len(), 1);
    assert_eq!(tree.meshes[0].len(), 80);
    for (i, node) in tree.nodes.iter().enumerate() {
        assert_eq!(node.mesh.index, 0);
        assert_eq!(node.depth as usize, 5 - i);
        if i == 0 {
            assert_eq!(node.parent, None);
            assert_eq!(node.transform, Transform {
                scale: vec3(ONE, ONE, ONE),
                orientation: branchgen::transform::Orientation::Upright,
                twist: 0,
                translation: vec3(0, 0, 0),
            });
        } else {
            assert_eq!(node.parent, Some(i - 1));
        }
        if i < 5 {
            assert_eq!(node.children, vec![i + 1]);
        } else {
            assert!(node.children.is_empty());
        }
    }
}

#[test]
fn segment_count_forty_one_is_a_config_error_for_a_fork() {
    let spec = fork_spec(3, 41, Mode::Flatten);
    assert!(matches!(generate(&spec), Err(GenError::ConfigError)));
    assert!(matches!(compose_flat(&spec), Err(GenError::ConfigError)));
    assert!(matches!(compose_instanced(&spec), Err(GenError::ConfigError)));
    assert_eq!(node_count(&spec), Err(GenError::ConfigError));
    assert_eq!(triangle_count(&spec), Err(GenError::ConfigError));
}

fn plain_transform(y: i64) -> Transform {
    Transform {
        scale: vec3(ONE, ONE, ONE),
        orientation: branchgen::transform::Orientation::Upright,
        twist: 0,
        translation: vec3(0, y, 0),
    }
}

#[test]
fn depth_zero_chain_is_one_capped_segment_without_children() {
    let tree = compose_instanced(&chain_spec(0, 20, Mode::Instancing)).unwrap();
    assert_eq!(tree.nodes.len(), 1);
    assert_eq!(tree.node_count(), 1);
    assert!(tree.nodes[0].children.is_empty());
    assert_eq!(tree.nodes[0].parent, None);
    assert_eq!(tree.nodes[0].depth, 0);
    assert_eq!(tree.nodes[0].transform, plain_transform(0));
    assert_eq!(tree.meshes.len(), 1);
    assert_eq!(tree.meshes[0], branchgen::segment::capped_segment(20).unwrap());
    assert_eq!(tree.meshes[0].len(), 80);
}

#[test]
fn depth_zero_fork_is_one_capped_segment_without_children() {
    let tree = compose_instanced(&fork_spec(0, 40, Mode::Instancing)).unwrap();
    assert_eq!(tree.nodes.len(), 1);
    assert!(tree.nodes[0].children.is_empty());
    assert_eq!(tree.nodes[0].mesh.index, 0);
    assert_eq!(tree.meshes.len(), 1);
    assert_eq!(tree.meshes[0], branchgen::segment::capped_segment(40).unwrap());
    let buffer = compose_flat(&fork_spec(0, 40, Mode::Flatten)).unwrap();
    assert_eq!(buffer.frame_count(), 1);
    assert_eq!(buffer.frames[0].links, vec![plain_transform(0)]);
    assert_eq!(buffer.triangle_count(), 160);
    let capped = branchgen::segment::capped_segment(40).unwrap();
    for (i, placed) in buffer.triangles.iter().enumerate() {
        assert_eq!(placed.frame, 0);
        assert_eq!(placed.triangle, capped[i]);
    }
}

#[test]
fn fork_nodes_form_a_complete_binary_tree() {
    for depth in 0..=8u32 {
        let spec = fork_spec(depth, 40, Mode::Instancing);
        let tree = compose_instanced(&spec).unwrap();
        let expected = (1usize << (depth + 1)) - 1;
        assert_eq!(tree.nodes.len(), expected);
        assert_eq!(node_count(&spec), Ok(expected));
    }
}

#[test]
fn chain_has_one_node_per_level() {
    for depth in 0..=12u32 {
        let spec = chain_spec(depth, 20, Mode::Instancing);
        let tree = compose_instanced(&spec).unwrap();
        assert_eq!(tree.nodes.len(), depth as usize + 1);
        assert_eq!(node_count(&spec), Ok(depth as usize + 1));
    }
}

#[test]
fn deepest_fork_has_eight_thousand_one_hundred_ninety_one_nodes() {
    let spec = fork_spec(12, 4, Mode::Instancing);
    assert_eq!(node_count(&spec), Ok(8191));
    assert_eq!(compose_instanced(&spec).unwrap().nodes.len(), 8191);
    assert_eq!(triangle_count(&spec), Ok(4 * (2 * 4095 + 4 * 4096)));
}

#[test]
fn fork_of_depth_two_is_laid_out_depth_first() {
    let spec = fork_spec(2, 8, Mode::Instancing);
    let tree = compose_instanced(&spec).unwrap();
    assert_eq!(tree.nodes.len(), 7);
    let parents: Vec<Option<usize>> = tree.nodes.iter().map(|n| n.parent).collect();
    assert_eq!(parents, vec![None, Some(0), Some(1), Some(1), Some(0), Some(4), Some(4)]);
    let depths: Vec<u32> = tree.nodes.iter().map(|n| n.depth).collect();
    assert_eq!(depths, vec![2, 1, 0, 0, 1, 0, 0]);
    let children: Vec<Vec<usize>> = tree.nodes.iter().map(|n| n.children.clone()).collect();
    assert_eq!(
        children,
        vec![vec![1, 4], vec![2, 3], vec![], vec![], vec![5, 6], vec![], vec![]]
    );
    let handles: Vec<usize> = tree.nodes.iter().map(|n| n.mesh.index).collect();
    assert_eq!(handles, vec![1, 1, 0, 0, 1, 0, 0]);
    assert_eq!(tree.meshes.len(), 2);
    assert_eq!(tree.meshes[0], branchgen::segment::capped_segment(8).unwrap());
    assert_eq!(
        tree.meshes[1],
        branchgen::segment::fork_segment(8, &spec.attachment_points).unwrap()
    );
    let first = branchgen::attach::resolve_attachment(&spec.attachment_points[0], 16384);
    let second = branchgen::attach::resolve_attachment(&spec.attachment_points[1], 16384);
    let placements: Vec<Transform> = tree.nodes.iter().map(|n| n.transform).collect();
    assert_eq!(
        placements,
        vec![plain_transform(0), first, first, second, second, first, second]
    );
}

#[test]
fn children_are_placed_relative_to_their_parent() {
    let mut spec = chain_spec(3, 20, Mode::Instancing);
    spec.child_rotation_euler = vec3(3129, 0, 0);
    spec.child_scale = vec3(58982, 58982, 58982);
    let tree = compose_instanced(&spec).unwrap();
    let step = branchgen::attach::chain_step(&spec);
    assert_eq!(tree.nodes[0].transform, plain_transform(0));
    for node in &tree.nodes[1..] {
        assert_eq!(node.transform, step);
    }
}

#[test]
fn flat_buffer_of_a_fork_visits_parents_before_children() {
    let spec = fork_spec(2, 8, Mode::Flatten);
    let buffer = match generate(&spec) {
        Ok(Generated::Mesh(buffer)) => buffer,
        other => panic!("expected a buffer, got {:?}", other),
    };
    let first = branchgen::attach::resolve_attachment(&spec.attachment_points[0], 16384);
    let second = branchgen::attach::resolve_attachment(&spec.attachment_points[1], 16384);
    let root = plain_transform(0);
    let frames: Vec<Vec<Transform>> = buffer.frames.iter().map(|f| f.links.clone()).collect();
    assert_eq!(
        frames,
        vec![
            vec![root],
            vec![root, first],
            vec![root, first, first],
            vec![root, first, second],
            vec![root, second],
            vec![root, second, first],
            vec![root, second, second],
        ]
    );
    // Forking nodes give 16 triangles each, leaves 32 each.
    let mut expected = Vec::new();
    for (frame, count) in [(0, 16), (1, 16), (2, 32), (3, 32), (4, 16), (5, 32), (6, 32)] {
        for _ in 0..count {
            expected.push(frame);
        }
    }
    let tags: Vec<usize> = buffer.triangles.iter().map(|t| t.frame).collect();
    assert_eq!(tags, expected);
    assert_eq!(triangle_count(&spec), Ok(3 * 16 + 4 * 32));
}

#[test]
fn flat_total_is_the_sum_of_the_per_node_counts() {
    let mut specs = Vec::new();
    for depth in 0..=6u32 {
        specs.push((chain_spec(depth, 20, Mode::Instancing), chain_spec(depth, 20, Mode::Flatten)));
        specs.push((fork_spec(depth, 40, Mode::Instancing), fork_spec(depth, 40, Mode::Flatten)));
    }
    for (instanced, flat) in specs {
        let tree = compose_instanced(&instanced).unwrap();
        let buffer = compose_flat(&flat).unwrap();
        let sum: usize = tree.nodes.iter().map(|n| tree.meshes[n.mesh.index].len()).sum();
        assert_eq!(buffer.triangles.len(), sum);
        assert_eq!(triangle_count(&flat), Ok(sum as u64));
        assert_eq!(buffer.frames.len(), tree.nodes.len());
        // Node by node, the buffer holds the node's own mesh.
        let mut at = 0;
        for (i, node) in tree.nodes.iter().enumerate() {
            for triangle in &tree.meshes[node.mesh.index] {
                assert_eq!(buffer.triangles[at].frame, i);
                assert_eq!(buffer.triangles[at].triangle, *triangle);
                at += 1;
            }
        }
        assert_eq!(at, buffer.triangles.len());
    }
}

#[test]
fn walking_the_tree_accumulates_the_flattened_frames() {
    for (instanced, flat) in [
        (chain_spec(5, 20, Mode::Instancing), chain_spec(5, 20, Mode::Flatten)),
        (fork_spec(4, 40, Mode::Instancing), fork_spec(4, 40, Mode::Flatten)),
    ] {
        let tree = compose_instanced(&instanced).unwrap();
        let buffer = compose_flat(&flat).unwrap();
        for i in 0..tree.nodes.len() {
            let walked = tree.world_frame(i).unwrap();
            assert_eq!(walked.links, buffer.frames[i].links);
            assert_eq!(walked.len(), (instanced.depth - tree.nodes[i].depth) as usize + 1);
        }
        assert!(tree.world_frame(tree.nodes.len()).is_none());
    }
}

#[test]
fn world_frame_refuses_links_that_do_not_lead_back() {
    let mut tree = compose_instanced(&chain_spec(2, 20, Mode::Instancing)).unwrap();
    tree.nodes[1].parent = Some(2);
    assert!(tree.world_frame(1).is_none());
    assert!(tree.world_frame(2).is_none());
    assert!(tree.world_frame(0).is_some());
    tree.nodes[1].parent = Some(1);
    assert!(tree.world_frame(1).is_none());
}

#[test]
fn mode_selects_the_output() {
    assert!(matches!(generate(&chain_spec(1, 20, Mode::Instancing)), Ok(Generated::Nodes(_))));
    assert!(matches!(generate(&chain_spec(1, 20, Mode::Flatten)), Ok(Generated::Mesh(_))));
    assert!(matches!(generate(&fork_spec(1, 40, Mode::Instancing)), Ok(Generated::Nodes(_))));
    assert!(matches!(generate(&fork_spec(1, 40, Mode::Flatten)), Ok(Generated::Mesh(_))));
}

#[test]
fn excessive_depth_is_an_overflow_error_in_both_modes() {
    for mode in [Mode::Instancing, Mode::Flatten] {
        assert!(matches!(generate(&chain_spec(13, 20, mode)), Err(GenError::OverflowError)));
        assert!(matches!(generate(&fork_spec(13, 40, mode)), Err(GenError::OverflowError)));
        assert!(generate(&fork_spec(12, 4, mode)).is_ok());
    }
    assert_eq!(node_count(&fork_spec(13, 40, Mode::Flatten)), Err(GenError::OverflowError));
    assert_eq!(triangle_count(&chain_spec(13, 20, Mode::Flatten)), Err(GenError::OverflowError));
    assert!(matches!(
        compose_instanced(&chain_spec(13, 20, Mode::Instancing)),
        Err(GenError::OverflowError)
    ));
    assert!(matches!(
        compose_flat(&chain_spec(13, 20, Mode::Flatten)),
        Err(GenError::OverflowError)
    ));
}

#[test]
fn chain_rejects_an_odd_segment_count() {
    for mode in [Mode::Instancing, Mode::Flatten] {
        assert!(matches!(generate(&chain_spec(3, 21, mode)), Err(GenError::ConfigError)));
        assert!(generate(&chain_spec(3, 22, mode)).is_ok());
    }
}

#[test]
fn triangle_count_of_a_chain_is_four_per_sample_and_node() {
    assert_eq!(triangle_count(&chain_spec(0, 20, Mode::Flatten)), Ok(80));
    assert_eq!(triangle_count(&chain_spec(5, 20, Mode::Flatten)), Ok(480));
    assert_eq!(
        triangle_count(&chain_spec(12, 4294967294, Mode::Flatten)),
        Ok(4 * 13 * 4294967294u64)
    );
}

#[test]
fn plain_chain_is_a_straight_stack_of_unit_segments() {
    let depth: u32 = 5;
    let count: u32 = 20;
    let buffer = compose_flat(&chain_spec(depth, count, Mode::Flatten)).unwrap();

    // What the generator describes, turned into coordinates.
    let mut produced: Vec<[f64; 3]> = Vec::new();
    for placed in &buffer.triangles {
        let mut rise = 0.0f64;
        for link in &buffer.frames[placed.frame].links {
            assert!(link.moves_only());
            assert_eq!(link.translation.x, 0);
            assert_eq!(link.translation.z, 0);
            rise += link.translation.y as f64 / ONE as f64;
        }
        for v in [placed.triangle.a, placed.triangle.b, placed.triangle.c] {
            let (ticks, end, on_rim) = match v.position {
                branchgen::ring::Point::Rim { ticks, end } => (ticks, end, true),
                branchgen::ring::Point::Axis { end } => (0, end, false),
                other => panic!("a chain has no seats: {:?}", other),
            };
            let y = match end {
                branchgen::ring::End::Bottom => 0.0,
                branchgen::ring::End::Top => 1.0,
            };
            let angle = std::f64::consts::TAU * ticks as f64 / (2.0 * count as f64);
            if on_rim {
                produced.push([angle.cos(), y + rise, angle.sin()]);
            } else {
                produced.push([0.0, y + rise, 0.0]);
            }
        }
    }

    // The same stack, derived directly: unit segments one on another.
    let mut expected: Vec<[f64; 3]> = Vec::new();
    let step = std::f64::consts::TAU / count as f64;
    for level in 0..=depth {
        let base = level as f64;
        for i in 0..count {
            let start = i as f64 * step;
            let next = (i + 1) as f64 * step;
            let middle = (i as f64 + 0.5) * step;
            let next_middle = ((i + 1) as f64 + 0.5) * step;
            let bottom_left = [start.cos(), base, start.sin()];
            let bottom_right = [next.cos(), base, next.sin()];
            let top_middle = [middle.cos(), base + 1.0, middle.sin()];
            let top_next = [next_middle.cos(), base + 1.0, next_middle.sin()];
            let centre_top = [0.0, base + 1.0, 0.0];
            let centre_bottom = [0.0, base, 0.0];
            expected.extend([bottom_right, bottom_left, top_middle]);
            expected.extend([bottom_right, top_middle, top_next]);
            expected.extend([top_middle, centre_top, top_next]);
            expected.extend([bottom_left, bottom_right, centre_bottom]);
        }
    }

    assert_eq!(produced.len(), expected.len());
    assert_eq!(produced.len(), 3 * 4 * count as usize * (depth as usize + 1));
    let mut highest = 0.0f64;
    for (p, e) in produced.iter().zip(expected.iter()) {
        for axis in 0..3 {
            assert!((p[axis] - e[axis]).abs() < 1e-9, "{:?} against {:?}", p, e);
        }
        highest = highest.max(p[1]);
    }
    assert!((highest - (depth as f64 + 1.0)).abs() < 1e-9);
}

#[test]
fn buffer_only_grows_at_its_end() {
    let capped = branchgen::segment::capped_segment(4).unwrap();
    let shell = branchgen::segment::trunk_segment(4).unwrap();
    let mut buffer = branchgen::flat::MeshBuffer::new();
    assert_eq!(buffer.frame_count(), 0);
    assert_eq!(buffer.triangle_count(), 0);
    let root = branchgen::transform::Frame::empty().followed_by(plain_transform(0));
    let above = root.followed_by(plain_transform(ONE));
    assert_eq!(buffer.append(root.clone(), &capped), 0);
    assert_eq!(buffer.frame_count(), 1);
    assert_eq!(buffer.triangle_count(), 16);
    let first_sixteen: Vec<_> = buffer.triangles.clone();
    assert_eq!(buffer.append(above.clone(), &shell), 1);
    assert_eq!(buffer.frame_count(), 2);
    assert_eq!(buffer.triangle_count(), 24);
    assert_eq!(&buffer.triangles[..16], &first_sixteen[..]);
    assert_eq!(buffer.frames[0].links, root.links);
    assert_eq!(buffer.frames[1].links, above.links);
    for (i, placed) in buffer.triangles.iter().enumerate() {
        if i < 16 {
            assert_eq!(placed.frame, 0);
            assert_eq!(placed.triangle, capped[i]);
        } else {
            assert_eq!(placed.frame, 1);
            assert_eq!(placed.triangle, shell[i - 16]);
        }
    }
}

#[test]
fn every_flattened_triangle_names_a_recorded_frame() {
    for spec in [fork_spec(5, 8, Mode::Flatten), chain_spec(12, 2, Mode::Flatten)] {
        let buffer = compose_flat(&spec).unwrap();
        for placed in &buffer.triangles {
            assert!(placed.frame < buffer.frames.len());
        }
    }
}

#[test]
fn subtree_sizes_follow_the_branch_factor() {
    assert_eq!(subtree_len(1, 0), 1);
    assert_eq!(subtree_len(2, 0), 1);
    assert_eq!(subtree_len(1, 5), 6);
    assert_eq!(subtree_len(2, 1), 3);
    assert_eq!(subtree_len(2, 5), 63);
    assert_eq!(subtree_len(1, 12), 13);
    assert_eq!(subtree_len(2, 12), NODE_LIMIT);
    assert_eq!(NODE_LIMIT, 8191);
}
