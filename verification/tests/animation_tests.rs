use renderer::keyframes::{components, keyframe_segments, Interpolation, KeyframeSegment};
use renderer::light::LightType;
use renderer::mirror::{
    Channel, Mirror, MirrorPlane, QuatBits, QuatBits64, QuatTween, QuatTween64, Sequencer, Track, TweenTiming, Vec3Bits, Vec3Bits64, Vec3Tween,
    Vec3Tween64, ROTATION_PREFIX,
    SCALE_PREFIX, TRANSLATION_PREFIX,
};
use renderer::transition::{blend_operands, channel_key, Blend};

fn v3(x: f32, y: f32, z: f32) -> Vec3Bits {
    Vec3Bits { x: x.to_bits(), y: y.to_bits(), z: z.to_bits() }
}

fn q(x: f32, y: f32, z: f32, w: f32) -> QuatBits {
    QuatBits { x: x.to_bits(), y: y.to_bits(), z: z.to_bits(), w: w.to_bits() }
}

fn timing(delay: f64, duration: f64, easing: Interpolation) -> TweenTiming {
    TweenTiming { delay: delay.to_bits(), duration: duration.to_bits(), easing }
}

fn v64(x: f64, y: f64, z: f64) -> Vec3Bits64 {
    Vec3Bits64 { x: x.to_bits(), y: y.to_bits(), z: z.to_bits() }
}

fn q64(x: f64, y: f64, z: f64, w: f64) -> QuatBits64 {
    QuatBits64 { x: x.to_bits(), y: y.to_bits(), z: z.to_bits(), w: w.to_bits() }
}

fn vec3_track64(from: Vec3Bits64, to: Vec3Bits64) -> Track {
    Track::Vec3F64(vec![Vec3Tween64 { start_value: from, end_value: to, timing: timing(0.0, 1.0, Interpolation::Linear) }])
}

/// The animation the glTF loader builds: 64-bit tracks.
fn sample64() -> Sequencer {
    Sequencer {
        channels: vec![
            Channel { key: format!("arm{TRANSLATION_PREFIX}"), track: vec3_track64(v64(1.0, 2.0, 3.0), v64(4.0, 5.0, 6.0)) },
            Channel {
                key: format!("arm{ROTATION_PREFIX}"),
                track: Track::QuatF64(vec![QuatTween64 {
                    start_value: q64(0.1, 0.2, 0.3, 0.9),
                    end_value: q64(-0.5, 0.0, 0.5, 0.7),
                    timing: timing(0.0, 1.0, Interpolation::Linear),
                }]),
            },
            Channel { key: format!("arm{SCALE_PREFIX}"), track: vec3_track64(v64(1.0, 1.0, 1.0), v64(2.0, 2.0, 2.0)) },
            Channel { key: "arm.weights".to_string(), track: Track::Other },
        ],
    }
}

fn vec3_64_of(s: &Sequencer, i: usize) -> Vec<Vec3Tween64> {
    match &s.channels[i].track {
        Track::Vec3F64(v) => v.clone(),
        _ => panic!("not a 64-bit vec3 track"),
    }
}

fn quat_64_of(s: &Sequencer, i: usize) -> Vec<QuatTween64> {
    match &s.channels[i].track {
        Track::QuatF64(v) => v.clone(),
        _ => panic!("not a 64-bit quaternion track"),
    }
}

fn sample() -> Sequencer {
    Sequencer {
        channels: vec![
            Channel {
                key: format!("arm{TRANSLATION_PREFIX}"),
                track: Track::Vec3F32(vec![Vec3Tween { start_value: v3(1.0, 2.0, 3.0), end_value: v3(-4.0, 5.0, 0.0), timing: timing(0.5, 1.0, Interpolation::Linear) }]),
            },
            Channel {
                key: format!("arm{ROTATION_PREFIX}"),
                track: Track::QuatF32(vec![QuatTween { start_value: q(0.1, 0.2, 0.3, 0.9), end_value: q(-0.5, 0.0, 0.5, 0.7), timing: timing(0.0, 2.0, Interpolation::Step) }]),
            },
            Channel {
                key: format!("arm{SCALE_PREFIX}"),
                track: Track::Vec3F32(vec![Vec3Tween { start_value: v3(1.0, 1.0, 1.0), end_value: v3(2.0, 2.0, 2.0), timing: timing(0.5, 1.0, Interpolation::Linear) }]),
            },
            Channel { key: "arm.weights".to_string(), track: Track::Other },
        ],
    }
}

fn vec3_of(s: &Sequencer, i: usize) -> Vec<Vec3Tween> {
    match &s.channels[i].track {
        Track::Vec3F32(v) => v.clone(),
        _ => panic!("not a vec3 track"),
    }
}

fn quat_of(s: &Sequencer, i: usize) -> Vec<QuatTween> {
    match &s.channels[i].track {
        Track::QuatF32(v) => v.clone(),
        _ => panic!("not a quaternion track"),
    }
}

#[test]
fn mirror_xy_negates_z_translation_and_xy_rotation() {
    let m = Mirror::along_plane(&sample(), MirrorPlane::XY);
    assert_eq!(vec3_of(&m, 0)[0].start_value, v3(1.0, 2.0, -3.0));
    assert_eq!(vec3_of(&m, 0)[0].end_value, v3(-4.0, 5.0, -0.0));
    assert_eq!(quat_of(&m, 1)[0].start_value, q(-0.1, -0.2, 0.3, 0.9));
    assert_eq!(quat_of(&m, 1)[0].end_value, q(0.5, -0.0, 0.5, 0.7));
    assert_eq!(vec3_of(&m, 2), vec3_of(&sample(), 2));
    assert!(matches!(m.channels[3].track, Track::Other));
    assert_eq!(m.channels[3].key, "arm.weights");
    assert_eq!(vec3_of(&m, 0)[0].timing, timing(0.5, 1.0, Interpolation::Linear));
    assert_eq!(quat_of(&m, 1)[0].timing, timing(0.0, 2.0, Interpolation::Step));
}

#[test]
fn mirror_yz_and_xz() {
    let m = Mirror::along_plane(&sample(), MirrorPlane::YZ);
    assert_eq!(vec3_of(&m, 0)[0].start_value, v3(-1.0, 2.0, 3.0));
    assert_eq!(quat_of(&m, 1)[0].start_value, q(0.1, -0.2, -0.3, 0.9));
    let m = Mirror::along_plane(&sample(), MirrorPlane::XZ);
    assert_eq!(vec3_of(&m, 0)[0].start_value, v3(1.0, -2.0, 3.0));
    assert_eq!(quat_of(&m, 1)[0].start_value, q(-0.1, 0.2, -0.3, 0.9));
}

#[test]
fn mirror_twice_is_identity() {
    for plane in [MirrorPlane::XY, MirrorPlane::YZ, MirrorPlane::XZ] {
        let s = sample();
        let back = Mirror::along_plane(&Mirror::along_plane(&s, plane), plane);
        for i in 0..2 {
            assert_eq!(back.channels[i].key, s.channels[i].key);
        }
        assert_eq!(vec3_of(&back, 0), vec3_of(&s, 0));
        assert_eq!(quat_of(&back, 1), quat_of(&s, 1));
        assert_eq!(vec3_of(&back, 2), vec3_of(&s, 2));
    }
}

#[test]
fn mirror_mirrors_loaded_64_bit_tracks() {
    let m = Mirror::along_plane(&sample64(), MirrorPlane::XY);
    assert_eq!(vec3_64_of(&m, 0)[0].start_value, v64(1.0, 2.0, -3.0));
    assert_eq!(vec3_64_of(&m, 0)[0].end_value, v64(4.0, 5.0, -6.0));
    assert_eq!(vec3_64_of(&m, 0)[0].timing, timing(0.0, 1.0, Interpolation::Linear));
    assert_eq!(quat_64_of(&m, 1)[0].start_value, q64(-0.1, -0.2, 0.3, 0.9));
    assert_eq!(quat_64_of(&m, 1)[0].end_value, q64(0.5, -0.0, 0.5, 0.7));
    assert_eq!(vec3_64_of(&m, 2), vec3_64_of(&sample64(), 2));
    let m = Mirror::along_plane(&sample64(), MirrorPlane::YZ);
    assert_eq!(vec3_64_of(&m, 0)[0].start_value, v64(-1.0, 2.0, 3.0));
    assert_eq!(quat_64_of(&m, 1)[0].start_value, q64(0.1, -0.2, -0.3, 0.9));
    let back = Mirror::along_plane(&m, MirrorPlane::YZ);
    assert_eq!(vec3_64_of(&back, 0), vec3_64_of(&sample64(), 0));
    assert_eq!(quat_64_of(&back, 1), quat_64_of(&sample64(), 1));
}

#[test]
fn mirror_leaves_mistyped_tracks() {
    let s = Sequencer {
        channels: vec![Channel {
            key: "a.translation".to_string(),
            track: Track::QuatF32(vec![QuatTween { start_value: q(1.0, 1.0, 1.0, 1.0), end_value: q(1.0, 1.0, 1.0, 1.0), timing: timing(0.0, 2.0, Interpolation::Step) }]),
        }],
    };
    let m = Mirror::along_plane(&s, MirrorPlane::XY);
    assert_eq!(quat_of(&m, 0), quat_of(&s, 0));
}

fn seg(tf: usize, tt: usize, vf: usize, vt: usize, tangents: Option<(usize, usize)>) -> KeyframeSegment {
    KeyframeSegment {
        time_from: tf,
        time_to: tt,
        value_from: vf,
        value_to: vt,
        in_tangent: tangents.map(|t| t.0),
        out_tangent: tangents.map(|t| t.1),
    }
}

#[test]
fn linear_keyframes_chain() {
    assert_eq!(components(Interpolation::Linear), 1);
    assert_eq!(
        keyframe_segments(3, 3, Interpolation::Linear),
        vec![seg(0, 0, 0, 0, None), seg(0, 1, 0, 1, None), seg(1, 2, 1, 2, None)]
    );
    assert_eq!(keyframe_segments(4, 2, Interpolation::Step).len(), 2);
    assert!(keyframe_segments(0, 5, Interpolation::Linear).is_empty());
}

#[test]
fn cubic_keyframes_skip_incomplete_chunks() {
    assert_eq!(components(Interpolation::CubicSpline), 3);
    assert_eq!(
        keyframe_segments(3, 8, Interpolation::CubicSpline),
        vec![seg(0, 0, 1, 1, Some((0, 2))), seg(0, 1, 1, 4, Some((3, 5)))]
    );
}

#[test]
fn keyframe_segments_stay_in_range() {
    for interp in [Interpolation::Linear, Interpolation::Step, Interpolation::CubicSpline] {
        for n_times in 0..6usize {
            for n_items in 0..14usize {
                let segs = keyframe_segments(n_times, n_items, interp);
                for (j, s) in segs.iter().enumerate() {
                    assert!(s.time_to < n_times && s.value_to < n_items);
                    if let Some(t) = s.out_tangent {
                        assert!(t < n_items);
                    }
                    if j > 0 {
                        assert_eq!(s.time_from, segs[j - 1].time_to);
                        assert_eq!(s.value_from, segs[j - 1].value_to);
                    }
                }
            }
        }
    }
}

#[test]
fn transition_blends() {
    assert_eq!(blend_operands(Some(1), Some(2)), Blend::Between(1, 2));
    assert_eq!(blend_operands(Some(1), None), Blend::Hold(1));
    assert_eq!(blend_operands(None, Some(2)), Blend::Hold(2));
    assert_eq!(blend_operands::<i32>(None, None), Blend::Keep);
    assert_eq!(channel_key("arm", TRANSLATION_PREFIX), "arm.translation");
    assert_eq!(channel_key("", SCALE_PREFIX), ".scale");
}

#[test]
fn light_type_names() {
    assert_eq!(LightType::Point.name(), "Point");
    assert_eq!(LightType::Direct.name(), "Direct");
    assert_eq!(LightType::Spot.name(), "Spot");
    assert!(LightType::Point < LightType::Spot);
}

use renderer::transition::{find_channel, transition_picks, ChannelKind, ChannelPick};

#[test]
fn channel_lookup_checks_name_and_kind() {
    let s = sample64();
    assert_eq!(find_channel(&s, "arm.translation", ChannelKind::Translation), Some(0));
    assert_eq!(find_channel(&s, "arm.rotation", ChannelKind::Rotation), Some(1));
    assert_eq!(find_channel(&s, "arm.scale", ChannelKind::Scale), Some(2));
    // A channel of that name animating another kind of value is not used.
    assert_eq!(find_channel(&s, "arm.rotation", ChannelKind::Translation), None);
    assert_eq!(find_channel(&s, "arm.weights", ChannelKind::Scale), None);
    assert_eq!(find_channel(&s, "leg.translation", ChannelKind::Translation), None);
    // 32-bit tracks are not what animations drive nodes through.
    let s32 = sample();
    assert_eq!(find_channel(&s32, "arm.translation", ChannelKind::Translation), None);
    assert_eq!(find_channel(&s32, "arm.rotation", ChannelKind::Rotation), None);
}

#[test]
fn transition_blends_loaded_translation() {
    let seq = |v: f64| vec3_track64(v64(v, v, v), v64(v, v, v));
    let start = Sequencer { channels: vec![Channel { key: "n.translation".to_string(), track: seq(0.0) }] };
    let end = Sequencer { channels: vec![Channel { key: "n.translation".to_string(), track: seq(4.0) }] };
    let picks = transition_picks(&start, &end, &["n".to_string()]);
    assert_eq!(picks[0].translation, ChannelPick { start: Some(0), end: Some(0) });
    assert_eq!(picks[0].rotation, ChannelPick { start: None, end: None });
    assert_eq!(picks[0].scale, ChannelPick { start: None, end: None });
    let value = |s: &Sequencer, i: usize| f64::from_bits(vec3_64_of(s, i)[0].start_value.x);
    let t = 0.25;
    match blend_operands(picks[0].translation.start.map(|i| value(&start, i)), picks[0].translation.end.map(|i| value(&end, i))) {
        Blend::Between(a, b) => assert_eq!(a + (b - a) * t, 1.0),
        _ => panic!("both animations drive the translation"),
    }
    assert_eq!(blend_operands::<f64>(None, None), Blend::Keep);
}

#[test]
fn transition_picks_per_node() {
    let start = sample64();
    let end = Sequencer {
        channels: vec![Channel {
            key: format!("leg{ROTATION_PREFIX}"),
            track: Track::QuatF64(vec![QuatTween64 { start_value: q64(0.0, 0.0, 0.0, 1.0), end_value: q64(0.0, 0.0, 0.0, 1.0), timing: timing(0.0, 2.0, Interpolation::Step) }]),
        }],
    };
    let names = vec!["arm".to_string(), "leg".to_string(), "head".to_string()];
    let picks = transition_picks(&start, &end, &names);
    assert_eq!(picks.len(), 3);
    assert_eq!(picks[0].translation, ChannelPick { start: Some(0), end: None });
    assert_eq!(picks[0].rotation, ChannelPick { start: Some(1), end: None });
    assert_eq!(picks[0].scale, ChannelPick { start: Some(2), end: None });
    assert_eq!(picks[1].rotation, ChannelPick { start: None, end: Some(0) });
    assert_eq!(picks[1].translation, ChannelPick { start: None, end: None });
    assert_eq!(picks[2].scale, ChannelPick { start: None, end: None });
    // Only the start animation drives the arm's rotation: its value is held.
    assert_eq!(blend_operands(Some(1), None), Blend::Hold(1));
}

use renderer::graph::{AnimationGraph, Driver, GraphAction};

fn walk_run_graph() -> (AnimationGraph, usize, usize, usize) {
    let mut g = AnimationGraph::new();
    let idle = g.node_add("idle".to_string());
    let run = g.node_add("run".to_string());
    let e = g.edge_add("idle", "run", "start".to_string()).expect("both nodes exist");
    (g, idle, run, e)
}

#[test]
fn graph_names_and_edges() {
    let (mut g, idle, run, e) = walk_run_graph();
    assert_eq!((idle, run, e), (0, 1, 0));
    assert_eq!(g.current_name_get(), None);
    assert!(g.current_edges().is_empty());
    g.current_set("idle");
    assert_eq!(g.current_name_get(), Some("idle".to_string()));
    assert_eq!(g.current_edges(), vec![0]);
    // An edge to or from an unknown node is not added.
    assert_eq!(g.edge_add("idle", "jump", "leap".to_string()), None);
    // Replacing an edge of the same name drops the old one.
    assert_eq!(g.edge_add("idle", "idle", "start".to_string()), Some(1));
    assert_eq!(g.current_edges(), vec![1]);
    g.edge_remove("idle", "start");
    assert!(g.current_edges().is_empty());
    g.current_set("nowhere");
    assert_eq!(g.current_name_get(), None);
    assert_eq!(g.driver(), None);
    g.node_remove("idle");
    g.current_set("idle");
    assert_eq!(g.current_name_get(), None);
}

#[test]
fn graph_update_plays_transitions_through() {
    let (mut g, idle, run, e) = walk_run_graph();
    assert!(g.update(None, false).is_empty());
    g.current_set("idle");
    assert_eq!(
        g.update(None, false),
        vec![GraphAction::ResetAnimation { node: idle }, GraphAction::PlayAnimation { node: idle }]
    );
    assert_eq!(g.driver(), Some(Driver::Animation(idle)));
    assert_eq!(
        g.update(Some(e), false),
        vec![
            GraphAction::StartTransitionAt { edge: e, node: idle },
            GraphAction::ResetAnimation { node: idle },
            GraphAction::AdvanceTransition { edge: e },
        ]
    );
    assert_eq!(g.driver(), Some(Driver::Transition(e)));
    assert_eq!(
        g.update(Some(e), true),
        vec![
            GraphAction::StartTransitionAt { edge: e, node: idle },
            GraphAction::ResetAnimation { node: idle },
            GraphAction::EnterAt { node: run, edge: e },
            GraphAction::ResetTransition { edge: e },
        ]
    );
    assert_eq!(g.current_name_get(), Some("run".to_string()));
    assert_eq!(g.driver(), Some(Driver::Animation(run)));
    assert!(g.current_edges().is_empty());
}

use renderer::pose::{weights_apply, AnimationProperty, NodeState, Pose, MORPH_TARGET_PREFIX};

fn node_state(name: Option<&str>, t: f32, weights: Option<Vec<f32>>) -> NodeState {
    NodeState {
        name: name.map(|n| n.to_string()),
        translation: v3(t, 0.0, 0.0),
        rotation: q(0.0, 0.0, 0.0, 1.0),
        scale: v3(1.0, 1.0, 1.0),
        morph_weights: weights.map(|w| w.into_iter().map(f32::to_bits).collect()),
    }
}

#[test]
fn pose_saves_named_nodes() {
    let nodes = vec![
        node_state(Some("hip"), 1.0, None),
        node_state(None, 2.0, None),
        node_state(Some("face"), 3.0, Some(vec![0.25, 0.5])),
    ];
    let pose = Pose::new(&nodes);
    assert!(matches!(pose.state_get("hip.translation"), Some(AnimationProperty::Translation(v)) if *v == v3(1.0, 0.0, 0.0)));
    assert!(matches!(pose.state_get("hip.rotation"), Some(AnimationProperty::Rotation(_))));
    assert!(pose.state_get("hip.weights").is_none());
    assert!(pose.state_get(".translation").is_none());
    assert_eq!(MORPH_TARGET_PREFIX, ".weights");
    let face = pose.targets_of("face");
    assert_eq!(face.translation, Some(v3(3.0, 0.0, 0.0)));
    assert_eq!(face.scale, Some(v3(1.0, 1.0, 1.0)));
    assert_eq!(face.weights, Some(vec![0.25f32.to_bits(), 0.5f32.to_bits()]));
    let none = pose.targets_of("tail");
    assert!(none.translation.is_none() && none.rotation.is_none() && none.scale.is_none() && none.weights.is_none());
}

#[test]
fn pose_later_node_of_same_name_wins() {
    let nodes = vec![node_state(Some("arm"), 1.0, Some(vec![1.0])), node_state(Some("arm"), 5.0, None)];
    let pose = Pose::new(&nodes);
    let arm = pose.targets_of("arm");
    assert_eq!(arm.translation, Some(v3(5.0, 0.0, 0.0)));
    // The earlier node's weights stay: the later one had none to replace them.
    assert_eq!(arm.weights, Some(vec![1.0f32.to_bits()]));
}

#[test]
fn weights_copied_as_far_as_both_reach() {
    let mut current: Vec<u32> = vec![0.0f32.to_bits(); 3];
    weights_apply(&mut current, &[1.0f32.to_bits(), 2.0f32.to_bits()]);
    assert_eq!(current, vec![1.0f32.to_bits(), 2.0f32.to_bits(), 0.0f32.to_bits()]);
    let mut short: Vec<u32> = vec![0.0f32.to_bits()];
    weights_apply(&mut short, &[7.0f32.to_bits(), 8.0f32.to_bits()]);
    assert_eq!(short, vec![7.0f32.to_bits()]);
}

use renderer::transition::{animation_channels, NodeChannels};

#[test]
fn animation_channels_per_node() {
    let names = vec!["arm".to_string(), "leg".to_string()];
    let found = animation_channels(&sample64(), &names);
    assert_eq!(found[0], NodeChannels { translation: Some(0), rotation: Some(1), scale: Some(2) });
    assert_eq!(found[1], NodeChannels { translation: None, rotation: None, scale: None });
}

use renderer::scaling::{scaler_plan, ScaleStep};

#[test]
fn scaler_plan_groups_then_rest() {
    let s = |v: &[&str]| v.iter().map(|x| x.to_string()).collect::<Vec<String>>();
    let nodes = s(&["hip", "arm", "leg", "head"]);
    let groups = vec![s(&["arm", "tail"]), s(&["leg", "arm"])];
    assert_eq!(
        scaler_plan(&groups, &nodes),
        vec![
            ScaleStep::Scaled { node: 1, group: 0 },
            ScaleStep::Scaled { node: 2, group: 1 },
            ScaleStep::Scaled { node: 1, group: 1 },
            ScaleStep::Unscaled { node: 0 },
            ScaleStep::Unscaled { node: 3 },
        ]
    );
    assert_eq!(
        scaler_plan(&[], &nodes),
        vec![
            ScaleStep::Unscaled { node: 0 },
            ScaleStep::Unscaled { node: 1 },
            ScaleStep::Unscaled { node: 2 },
            ScaleStep::Unscaled { node: 3 },
        ]
    );
    assert!(scaler_plan(&groups, &[]).is_empty());
}

use renderer::blending::blend_completed;

#[test]
fn blend_completes_when_every_animation_has() {
    assert!(!blend_completed(&[]));
    assert!(blend_completed(&[true]));
    assert!(blend_completed(&[true, true, true]));
    assert!(!blend_completed(&[true, false, true]));
}
