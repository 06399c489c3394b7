use std::rc::Rc;

use dark_model::animation::{
    AnimationClip, AnimationEvent, AnimationFlags, AnimationPlayer, FrameMotionFlags, JointMatrix,
};
use dark_model::bytes::Vec3Bits;

const MS: u64 = 1_000_000;

fn v3(x: f32, y: f32, z: f32) -> Vec3Bits {
    Vec3Bits { x: x.to_bits(), y: y.to_bits(), z: z.to_bits() }
}

fn clip(num_frames: u32, end_rotation: f32) -> Rc<AnimationClip> {
    Rc::new(AnimationClip {
        num_frames,
        time_per_frame: 100 * MS,
        sliding_velocity: v3(1.5, 0.0, -0.5),
        end_rotation: end_rotation.to_bits(),
        translation: v3(0.0, 2.0, 0.0),
        motion_flags: vec![
            FrameMotionFlags { frame: 2, flags: 0b001 },
            FrameMotionFlags { frame: 3, flags: 0b010 },
            FrameMotionFlags { frame: 5, flags: 0b100 },
        ],
    })
}

fn zero() -> Vec3Bits {
    Vec3Bits { x: 0, y: 0, z: 0 }
}

#[test]
fn elapsed_time_advances_whole_frames_and_keeps_the_rest() {
    let a = clip(10, 0.0);
    let p = AnimationPlayer::from_animation(a.clone());
    assert!(p.can_update(350 * MS));
    let (p, flags, events, velocity) = AnimationPlayer::update(&p, 350 * MS);
    assert_eq!(p.current_frame(), 3);
    assert_eq!(p.remaining_time(), 50 * MS);
    assert_eq!(flags, 0b011);
    assert_eq!(events, vec![AnimationEvent::VelocityChanged(a.sliding_velocity)]);
    assert_eq!(velocity, a.sliding_velocity);
    // the leftover counts towards the next tick
    let (p, flags, events, _) = AnimationPlayer::update(&p, 60 * MS);
    assert_eq!(p.current_frame(), 4);
    assert_eq!(p.remaining_time(), 10 * MS);
    assert_eq!(flags, 0);
    assert!(events.is_empty());
}

#[test]
fn a_loop_reaching_its_end_wraps_to_frame_zero_once() {
    let a = clip(10, 0.0);
    let p = AnimationPlayer::from_animation(a.clone());
    let (p, flags, events, _) = AnimationPlayer::update(&p, 1000 * MS);
    assert_eq!(p.current_frame(), 0);
    assert_eq!(p.remaining_time(), 0);
    assert_eq!(events, vec![AnimationEvent::Completed]);
    assert_eq!(flags, 0b111);
    let (front, mode) = p.active_clip().unwrap();
    assert!(Rc::ptr_eq(&front, &a));
    assert_eq!(mode, AnimationFlags::Loop);
}

#[test]
fn a_loop_keeps_its_overshoot() {
    let p = AnimationPlayer::from_animation(clip(10, 0.0));
    let (p, _, _, _) = AnimationPlayer::update(&p, 800 * MS);
    let (p, _, events, _) = AnimationPlayer::update(&p, 430 * MS);
    assert_eq!(p.current_frame(), 2);
    assert_eq!(p.remaining_time(), 30 * MS);
    assert_eq!(events, vec![AnimationEvent::Completed]);
}

#[test]
fn an_end_rotation_is_reported_after_completion() {
    let a = clip(2, 90.0);
    let p = AnimationPlayer::from_animation(a);
    let (_, _, events, _) = AnimationPlayer::update(&p, 200 * MS);
    assert_eq!(
        events,
        vec![AnimationEvent::Completed, AnimationEvent::DirectionChanged(90.0f32.to_bits())]
    );
    // a negative zero is no turn
    let p = AnimationPlayer::from_animation(clip(2, -0.0));
    let (_, _, events, _) = AnimationPlayer::update(&p, 200 * MS);
    assert_eq!(events, vec![AnimationEvent::Completed]);
}

#[test]
fn a_queued_clip_plays_once_in_front_then_the_loop_resumes() {
    let a = clip(10, 0.0);
    let b = clip(2, 0.0);
    let p = AnimationPlayer::from_animation(a.clone());
    let (p_a, _, _, _) = AnimationPlayer::update(&p, 350 * MS);
    let p = AnimationPlayer::queue_animation(&p_a, b.clone());
    let (front, mode) = p.active_clip().unwrap();
    assert!(Rc::ptr_eq(&front, &b));
    assert_eq!(mode, AnimationFlags::PlayOnce);
    assert_eq!(p.current_frame(), 0);
    assert_eq!(p.remaining_time(), 0);
    let (p, _, events, _) = AnimationPlayer::update(&p, 150 * MS);
    assert_eq!(p.current_frame(), 1);
    assert_eq!(events, vec![AnimationEvent::VelocityChanged(b.sliding_velocity)]);
    let (p, _, events, _) = AnimationPlayer::update(&p, 100 * MS);
    assert_eq!(events, vec![AnimationEvent::Completed]);
    let (front, mode) = p.active_clip().unwrap();
    assert!(Rc::ptr_eq(&front, &a));
    assert_eq!(mode, AnimationFlags::Loop);
    // the loop is back at the frame and leftover time it was preempted at
    assert_eq!(p.current_frame(), 3);
    assert_eq!(p.remaining_time(), 50 * MS);
    assert!(Rc::ptr_eq(&p.last_animation().unwrap(), &b));
    let (p, _, events, _) = AnimationPlayer::update(&p, 100 * MS);
    let (unpreempted, _, unpreempted_events, _) = AnimationPlayer::update(&p_a, 100 * MS);
    assert_eq!(p.current_frame(), 4);
    assert_eq!(p.current_frame(), unpreempted.current_frame());
    assert_eq!(p.remaining_time(), unpreempted.remaining_time());
    assert_eq!(events, unpreempted_events);
    assert!(Rc::ptr_eq(&p.active_clip().unwrap().0, &a));
}

#[test]
fn nested_preemptions_resume_in_turn() {
    let a = clip(10, 0.0);
    let b = clip(5, 0.0);
    let c = clip(1, 0.0);
    let p = AnimationPlayer::from_animation(a.clone());
    let (p, _, _, _) = AnimationPlayer::update(&p, 420 * MS);
    let p = AnimationPlayer::queue_animation(&p, b.clone());
    let (p, _, _, _) = AnimationPlayer::update(&p, 230 * MS);
    let p = AnimationPlayer::queue_animation(&p, c);
    let (p, _, events, _) = AnimationPlayer::update(&p, 100 * MS);
    assert_eq!(events, vec![AnimationEvent::Completed]);
    assert!(Rc::ptr_eq(&p.active_clip().unwrap().0, &b));
    assert_eq!(p.current_frame(), 2);
    assert_eq!(p.remaining_time(), 30 * MS);
    let (p, _, events, _) = AnimationPlayer::update(&p, 270 * MS);
    assert_eq!(events, vec![AnimationEvent::Completed]);
    assert!(Rc::ptr_eq(&p.active_clip().unwrap().0, &a));
    assert_eq!(p.current_frame(), 4);
    assert_eq!(p.remaining_time(), 20 * MS);
}

#[test]
fn velocity_change_is_announced_once_per_run() {
    let a = clip(10, 0.0);
    let mut p = AnimationPlayer::from_animation(a.clone());
    let mut announced = 0;
    for _ in 0..9 {
        let (next, _, events, _) = AnimationPlayer::update(&p, 100 * MS);
        announced += events
            .iter()
            .filter(|e| matches!(e, AnimationEvent::VelocityChanged(_)))
            .count();
        p = next;
    }
    assert_eq!(announced, 1);
    assert_eq!(p.current_frame(), 9);
    // a tick that moves no frame announces nothing
    let p = AnimationPlayer::from_animation(a);
    let (p, _, events, _) = AnimationPlayer::update(&p, 50 * MS);
    assert!(events.is_empty());
    assert_eq!(p.current_frame(), 0);
}

#[test]
fn an_empty_player_stays_still() {
    let p = AnimationPlayer::empty();
    let (p, flags, events, velocity) = AnimationPlayer::update(&p, 500 * MS);
    assert_eq!(flags, 0);
    assert!(events.is_empty());
    assert_eq!(velocity, zero());
    assert_eq!(p.current_frame(), 0);
    assert_eq!(p.remaining_time(), 0);
    assert!(p.active_clip().is_none());
    assert!(p.pose_source().is_none());
}

#[test]
fn the_last_clip_is_held_at_its_final_frame() {
    let b = clip(4, 0.0);
    let p = AnimationPlayer::queue_animation(&AnimationPlayer::empty(), b.clone());
    let (p, _, events, _) = AnimationPlayer::update(&p, 450 * MS);
    assert_eq!(events, vec![AnimationEvent::Completed]);
    assert!(p.active_clip().is_none());
    let (held, frame) = p.pose_source().unwrap();
    assert!(Rc::ptr_eq(&held, &b));
    assert_eq!(frame, 3);
}

#[test]
fn the_pose_follows_the_front_clip() {
    let a = clip(10, 0.0);
    let p = AnimationPlayer::from_animation(a.clone());
    let (p, _, _, _) = AnimationPlayer::update(&p, 720 * MS);
    let (posed, frame) = p.pose_source().unwrap();
    assert!(Rc::ptr_eq(&posed, &a));
    assert_eq!(frame, 7);
}

#[test]
fn joint_overrides_are_carried_through() {
    let m = JointMatrix { values: [7u32; 16] };
    let n = JointMatrix { values: [9u32; 16] };
    let p = AnimationPlayer::from_animation(clip(10, 0.0));
    let p = AnimationPlayer::set_additional_joint_transform(&p, 3, m);
    let p = AnimationPlayer::set_additional_joint_transform(&p, 3, n);
    let p = AnimationPlayer::set_additional_joint_transform(&p, 5, m);
    let (p, _, _, _) = AnimationPlayer::update(&p, 250 * MS);
    let p = AnimationPlayer::queue_animation(&p, clip(2, 0.0));
    assert_eq!(p.joint_override(3).unwrap().values, n.values);
    assert_eq!(p.joint_override(5).unwrap().values, m.values);
    assert!(p.joint_override(4).is_none());
    assert!(p.joint_override(40).is_none());
}

#[test]
fn an_earlier_state_is_left_unchanged() {
    let p0 = AnimationPlayer::from_animation(clip(10, 0.0));
    let (p1, _, _, _) = AnimationPlayer::update(&p0, 300 * MS);
    let _ = AnimationPlayer::queue_animation(&p1, clip(2, 0.0));
    assert_eq!(p0.current_frame(), 0);
    assert_eq!(p1.current_frame(), 3);
    assert_eq!(p1.active_clip().unwrap().1, AnimationFlags::Loop);
}

#[test]
fn a_frame_count_beyond_the_counter_is_refused() {
    let tiny = Rc::new(AnimationClip {
        num_frames: 10,
        time_per_frame: 1,
        sliding_velocity: zero(),
        end_rotation: 0,
        translation: zero(),
        motion_flags: Vec::new(),
    });
    let p = AnimationPlayer::from_animation(tiny);
    assert!(!p.can_update(u64::MAX));
    assert!(p.can_update(u32::MAX as u64));
}
