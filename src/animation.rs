//! A value-semantics animation player: a queue of clips advanced by elapsed
//! time, producing a new player, motion flags, discrete events and a sliding
//! velocity on every tick.
use vstd::prelude::*;
use std::rc::Rc;
use crate::bytes::Vec3Bits;

verus! {

/// How a queued clip plays.
#[derive(Clone, Copy, Debug, PartialEq, Eq, Structural)]
pub enum AnimationFlags {
    /// Replays from its wrapped frame when it reaches its end.
    Loop,
    /// Leaves the queue when it reaches its end.
    PlayOnce,
}

/// A discrete event of one tick.
#[derive(Clone, Copy, Debug, PartialEq, Eq, Structural)]
pub enum AnimationEvent {
    /// The clip ended with a turn by this angle (degrees, as IEEE-754 bits).
    DirectionChanged(u32),
    /// The clip's locomotion phase began, at this sliding velocity.
    VelocityChanged(Vec3Bits),
    /// The active clip reached its end.
    Completed,
}

/// Motion-flag bits that apply from a given frame of a clip on.
#[derive(Clone, Copy, Debug, PartialEq, Eq, Structural)]
pub struct FrameMotionFlags {
    pub frame: u32,
    pub flags: u32,
}

/// A decoded animation clip. Times are in nanoseconds; vectors and angles are
/// IEEE-754 single-precision bit patterns.
#[derive(Clone, Debug)]
pub struct AnimationClip {
    pub num_frames: u32,
    pub time_per_frame: u64,
    pub sliding_velocity: Vec3Bits,
    pub end_rotation: u32,
    pub translation: Vec3Bits,
    pub motion_flags: Vec<FrameMotionFlags>,
}

/// A clip can be played: it has frames, and each lasts a positive time.
pub open spec fn clip_wf(c: AnimationClip) -> bool {
    c.num_frames > 0 && c.time_per_frame > 0
}

/// An entry of the player's queue. An entry that a newer clip pushed back
/// keeps the frame and leftover time at which it stopped, and resumes from
/// them; the front entry keeps none (both zero).
#[derive(Clone, Debug)]
pub struct QueuedClip {
    pub clip: Rc<AnimationClip>,
    pub mode: AnimationFlags,
    pub saved_frame: u32,
    pub saved_time: u64,
}

/// A new entry, with no saved position.
pub open spec fn new_entry(clip: Rc<AnimationClip>, mode: AnimationFlags) -> QueuedClip {
    QueuedClip { clip, mode, saved_frame: 0, saved_time: 0 }
}

/// A joint transform set by hand: a 4x4 matrix, column by column, as IEEE-754
/// bit patterns.
#[derive(Clone, Copy, Debug)]
pub struct JointMatrix {
    pub values: [u32; 16],
}

/// The player's queue of clips, front first: a persistent list of rpds, which
/// later states share with earlier ones.
#[verifier::external_body]
pub struct ClipQueue {
    list: rpds::List<QueuedClip>,
}

/// The player's joint overrides, by joint index: a persistent hash trie map of
/// rpds.
#[verifier::external_body]
pub struct JointOverrides {
    map: rpds::HashTrieMap<u32, JointMatrix>,
}

/// The entries of a clip queue, front first.
pub uninterp spec fn queue_of(l: ClipQueue) -> Seq<QueuedClip>;

/// The joint overrides held by a map.
pub uninterp spec fn overrides_of(m: JointOverrides) -> Map<u32, JointMatrix>;

/// The empty queue.
pub open spec fn no_clips() -> Seq<QueuedClip> {
    Seq::empty()
}

/// No joint overrides.
pub open spec fn no_overrides() -> Map<u32, JointMatrix> {
    Map::empty()
}

/// Relies on rpds::List::new: a new list is empty.
#[verifier::external_body]
fn queue_new() -> (r: ClipQueue)
    ensures
        queue_of(r) == no_clips(),
{
    ClipQueue { list: rpds::List::new() }
}

/// Relies on rpds::List::push_front: a new list with `v` in front of the others.
#[verifier::external_body]
fn queue_push_front(l: &ClipQueue, v: QueuedClip) -> (r: ClipQueue)
    ensures
        queue_of(r) == seq![v] + queue_of(*l),
{
    ClipQueue { list: l.list.push_front(v) }
}

/// Relies on rpds::List::first: the front entry, if any.
#[verifier::external_body]
fn queue_first(l: &ClipQueue) -> (r: Option<&QueuedClip>)
    ensures
        queue_of(*l).len() == 0 ==> r is None,
        queue_of(*l).len() > 0 ==> r == Some(&queue_of(*l)[0]),
{
    l.list.first()
}

/// Relies on rpds::List::drop_first: the list without its front entry, if it
/// has one.
#[verifier::external_body]
fn queue_drop_first(l: &ClipQueue) -> (r: Option<ClipQueue>)
    ensures
        queue_of(*l).len() == 0 ==> r is None,
        queue_of(*l).len() > 0 ==> r is Some && queue_of(r->Some_0) == queue_of(*l).drop_first(),
{
    l.list.drop_first().map(|list| ClipQueue { list })
}

/// Relies on rpds::List's Clone: a list with the same entries.
#[verifier::external_body]
fn queue_clone(l: &ClipQueue) -> (r: ClipQueue)
    ensures
        queue_of(r) == queue_of(*l),
{
    ClipQueue { list: l.list.clone() }
}

/// Relies on rpds::HashTrieMap::new: a new map is empty.
#[verifier::external_body]
fn overrides_new() -> (r: JointOverrides)
    ensures
        overrides_of(r) == no_overrides(),
{
    JointOverrides { map: rpds::HashTrieMap::new() }
}

/// Relies on rpds::HashTrieMap::insert: a new map where `k` maps to `v`, the
/// other keys as before.
#[verifier::external_body]
fn overrides_insert(m: &JointOverrides, k: u32, v: JointMatrix) -> (r:
    JointOverrides)
    ensures
        overrides_of(r) == overrides_of(*m).insert(k, v),
{
    JointOverrides { map: m.map.insert(k, v) }
}

/// Relies on rpds::HashTrieMap::get: the matrix that `k` maps to, if any.
#[verifier::external_body]
fn overrides_get(m: &JointOverrides, k: u32) -> (r: Option<JointMatrix>)
    ensures
        r == if overrides_of(*m).contains_key(k) {
            Some(overrides_of(*m)[k])
        } else {
            None
        },
{
    m.map.get(&k).copied()
}

/// Relies on rpds::HashTrieMap's Clone: a map with the same entries.
#[verifier::external_body]
fn overrides_clone(m: &JointOverrides) -> (r: JointOverrides)
    ensures
        overrides_of(r) == overrides_of(*m),
{
    JointOverrides { map: m.map.clone() }
}

/// Relies on Rc's Clone: a new pointer to the same clip.
#[verifier::external_body]
fn share_clip(c: &Rc<AnimationClip>) -> (r: Rc<AnimationClip>)
    ensures
        r == *c,
{
    Rc::clone(c)
}

fn share_last(c: &Option<Rc<AnimationClip>>) -> (r: Option<Rc<AnimationClip>>)
    ensures
        r == *c,
{
    match c {
        Some(clip) => Some(share_clip(clip)),
        None => None,
    }
}

/// The entry with the given saved position.
fn entry_at(e: &QueuedClip, frame: u32, time: u64) -> (r: QueuedClip)
    ensures
        r == (QueuedClip { saved_frame: frame, saved_time: time, ..*e }),
{
    QueuedClip { clip: share_clip(&e.clip), mode: e.mode, saved_frame: frame, saved_time: time }
}

/// What a player holds, as values.
pub struct PlayerView {
    pub queue: Seq<QueuedClip>,
    pub overrides: Map<u32, JointMatrix>,
    pub last: Option<Rc<AnimationClip>>,
    pub current_frame: u32,
    pub remaining_time: u64,
}

/// An animation player state. Every operation returns a new state and leaves
/// the one it was given as it was.
pub struct AnimationPlayer {
    animation: ClipQueue,
    additional_joint_transforms: JointOverrides,
    last_animation: Option<Rc<AnimationClip>>,
    current_frame: u32,
    remaining_time: u64,
}

impl View for AnimationPlayer {
    type V = PlayerView;

    closed spec fn view(&self) -> PlayerView {
        PlayerView {
            queue: queue_of(self.animation),
            overrides: overrides_of(self.additional_joint_transforms),
            last: self.last_animation,
            current_frame: self.current_frame,
            remaining_time: self.remaining_time,
        }
    }
}

impl Clone for AnimationPlayer {
    /// The same state; later states share its queue and overrides.
    fn clone(&self) -> (r: AnimationPlayer)
        ensures
            r@ == self@,
    {
        AnimationPlayer {
            animation: queue_clone(&self.animation),
            additional_joint_transforms: overrides_clone(&self.additional_joint_transforms),
            last_animation: share_last(&self.last_animation),
            current_frame: self.current_frame,
            remaining_time: self.remaining_time,
        }
    }
}

/// Every clip the player can reach can be played.
pub open spec fn player_wf(p: PlayerView) -> bool {
    &&& forall|i: int| 0 <= i < p.queue.len() ==> clip_wf(*(#[trigger] p.queue[i]).clip)
    &&& p.last matches Some(c) ==> clip_wf(*c)
    &&& p.queue.len() > 0 ==> p.queue[0].saved_frame == 0 && p.queue[0].saved_time == 0
    &&& p.queue.len() == 0 ==> p.current_frame == 0 && p.remaining_time == 0
}

/// The queue with its front entry keeping the position at which it stops.
pub open spec fn stash(p: PlayerView) -> Seq<QueuedClip> {
    if p.queue.len() == 0 {
        p.queue
    } else {
        p.queue.update(
            0,
            QueuedClip { saved_frame: p.current_frame, saved_time: p.remaining_time, ..p.queue[0] },
        )
    }
}

/// The state once the front entry has played to its end and left: the entry
/// behind it resumes from its saved position, which it then no longer keeps;
/// with none behind it, playback rests at frame 0.
pub open spec fn after_front_leaves(p: PlayerView) -> PlayerView {
    let rest = p.queue.drop_first();
    if rest.len() > 0 {
        PlayerView {
            queue: rest.update(0, QueuedClip { saved_frame: 0, saved_time: 0, ..rest[0] }),
            last: Some(p.queue[0].clip),
            current_frame: rest[0].saved_frame,
            remaining_time: rest[0].saved_time,
            ..p
        }
    } else {
        PlayerView { queue: rest, last: Some(p.queue[0].clip), current_frame: 0, remaining_time: 0, ..p }
    }
}

/// The zero vector.
pub open spec fn zero_vec3() -> Vec3Bits {
    Vec3Bits { x: 0, y: 0, z: 0 }
}

/// The angle is zero (of either sign).
pub open spec fn is_zero_angle(a: u32) -> bool {
    a & 0x7fff_ffffu32 == 0
}

/// Union of the flag bits of the markers whose frame lies in `(lo, hi]`.
pub open spec fn flags_between(marks: Seq<FrameMotionFlags>, lo: int, hi: int) -> u32
    decreases marks.len(),
{
    if marks.len() == 0 {
        0
    } else {
        let m = marks.last();
        let earlier = flags_between(marks.drop_last(), lo, hi);
        if lo < m.frame && m.frame <= hi {
            earlier | m.flags
        } else {
            earlier
        }
    }
}

/// The frame that an update reaches before any wrap: whole frames of the
/// active clip are consumed from the leftover time plus `elapsed`.
pub open spec fn frame_reached(p: PlayerView, elapsed: u64) -> int {
    p.current_frame + (p.remaining_time + elapsed) / p.queue[0].clip.time_per_frame as int
}

/// Time left over after those whole frames.
pub open spec fn time_left(p: PlayerView, elapsed: u64) -> int {
    (p.remaining_time + elapsed) % p.queue[0].clip.time_per_frame as int
}

/// The frame counter can hold the frame an update reaches.
pub open spec fn update_fits(p: PlayerView, elapsed: u64) -> bool {
    p.queue.len() > 0 ==> frame_reached(p, elapsed) <= u32::MAX
}

/// Events of a tick on which the active clip reaches its end.
pub open spec fn completion_events(c: AnimationClip) -> Seq<AnimationEvent> {
    if is_zero_angle(c.end_rotation) {
        seq![AnimationEvent::Completed]
    } else {
        seq![AnimationEvent::Completed, AnimationEvent::DirectionChanged(c.end_rotation)]
    }
}

/// One tick of the player: the new state, the motion flags, the events and the
/// sliding velocity.
pub open spec fn update_spec(p: PlayerView, elapsed: u64) -> (PlayerView, u32, Seq<AnimationEvent>, Vec3Bits) {
    if p.queue.len() == 0 {
        (p, 0u32, Seq::empty(), zero_vec3())
    } else {
        let entry = p.queue[0];
        let clip = *entry.clip;
        let next = frame_reached(p, elapsed);
        let flags = flags_between(clip.motion_flags@, p.current_frame as int, next);
        if next >= clip.num_frames {
            let state = match entry.mode {
                AnimationFlags::Loop => PlayerView {
                    current_frame: (next - clip.num_frames) as u32,
                    remaining_time: time_left(p, elapsed) as u64,
                    ..p
                },
                AnimationFlags::PlayOnce => after_front_leaves(p),
            };
            (state, flags, completion_events(clip), clip.sliding_velocity)
        } else {
            let events = if p.current_frame == 0 && next > 0 {
                seq![AnimationEvent::VelocityChanged(clip.sliding_velocity)]
            } else {
                Seq::empty()
            };
            (
                PlayerView {
                    current_frame: next as u32,
                    remaining_time: time_left(p, elapsed) as u64,
                    ..p
                },
                flags,
                events,
                clip.sliding_velocity,
            )
        }
    }
}

fn motion_flags_between(marks: &Vec<FrameMotionFlags>, lo: u32, hi: u64) -> (r: u32)
    ensures
        r == flags_between(marks@, lo as int, hi as int),
{
    let mut out: u32 = 0;
    let mut i: usize = 0;
    while i < marks.len()
        invariant
            i <= marks@.len(),
            out == flags_between(marks@.take(i as int), lo as int, hi as int),
        decreases marks@.len() - i,
    {
        let m = marks[i];
        assert(marks@.take(i as int + 1).drop_last() =~= marks@.take(i as int));
        if lo < m.frame && m.frame as u64 <= hi {
            out = out | m.flags;
        }
        i = i + 1;
    }
    assert(marks@.take(marks@.len() as int) =~= marks@);
    out
}

impl AnimationPlayer {
    /// Well-formedness: every clip the player can reach can be played.
    pub closed spec fn wf(&self) -> bool {
        player_wf(self@)
    }

    /// A player with nothing queued and nothing held.
    pub fn empty() -> (r: AnimationPlayer)
        ensures
            r.wf(),
            r@.queue == no_clips(),
            r@.overrides == no_overrides(),
            r@.last is None,
            r@.current_frame == 0,
            r@.remaining_time == 0,
    {
        AnimationPlayer {
            animation: queue_new(),
            additional_joint_transforms: overrides_new(),
            last_animation: None,
            current_frame: 0,
            remaining_time: 0,
        }
    }

    /// A player that loops `animation_clip` from frame 0.
    pub fn from_animation(animation_clip: Rc<AnimationClip>) -> (r: AnimationPlayer)
        requires
            clip_wf(*animation_clip),
        ensures
            r.wf(),
            r@.queue == seq![new_entry(animation_clip, AnimationFlags::Loop)],
            r@.overrides == no_overrides(),
            r@.last is None,
            r@.current_frame == 0,
            r@.remaining_time == 0,
    {
        let empty = queue_new();
        let animation = queue_push_front(
            &empty,
            QueuedClip { clip: animation_clip, mode: AnimationFlags::Loop, saved_frame: 0, saved_time: 0 },
        );
        assert(queue_of(animation) =~= seq![new_entry(animation_clip, AnimationFlags::Loop)]);
        AnimationPlayer {
            animation,
            additional_joint_transforms: overrides_new(),
            last_animation: None,
            current_frame: 0,
            remaining_time: 0,
        }
    }

    /// A player that first plays `animation` once, from frame 0, then goes on
    /// with what `player` had queued: the clip it pushes back keeps its frame
    /// and leftover time, and resumes from them. No clip is held.
    pub fn queue_animation(player: &AnimationPlayer, animation: Rc<AnimationClip>) -> (r: AnimationPlayer)
        requires
            player.wf(),
            clip_wf(*animation),
        ensures
            r.wf(),
            r@.queue == seq![new_entry(animation, AnimationFlags::PlayOnce)] + stash(player@),
            r@.overrides == player@.overrides,
            r@.last is None,
            r@.current_frame == 0,
            r@.remaining_time == 0,
    {
        let stashed = match queue_first(&player.animation) {
            None => queue_clone(&player.animation),
            Some(front) => {
                let kept = entry_at(front, player.current_frame, player.remaining_time);
                match queue_drop_first(&player.animation) {
                    Some(rest) => {
                        let q = queue_push_front(&rest, kept);
                        assert(queue_of(q) =~= stash(player@));
                        q
                    },
                    None => queue_new(),
                }
            },
        };
        let new_animation = queue_push_front(
            &stashed,
            QueuedClip { clip: animation, mode: AnimationFlags::PlayOnce, saved_frame: 0, saved_time: 0 },
        );
        let r = AnimationPlayer {
            additional_joint_transforms: overrides_clone(&player.additional_joint_transforms),
            animation: new_animation,
            last_animation: None,
            current_frame: 0,
            remaining_time: 0,
        };
        assert forall|i: int| 0 <= i < r@.queue.len() implies clip_wf(*(#[trigger] r@.queue[i]).clip) by {
            if i > 0 {
                assert(r@.queue[i].clip == player@.queue[i - 1].clip);
            }
        }
        r
    }

    /// A player like `player`, with joint `joint_idx` overridden by `transform`.
    pub fn set_additional_joint_transform(
        player: &AnimationPlayer,
        joint_idx: u32,
        transform: JointMatrix,
    ) -> (r: AnimationPlayer)
        requires
            player.wf(),
        ensures
            r.wf(),
            r@.queue == player@.queue,
            r@.overrides == player@.overrides.insert(joint_idx, transform),
            r@.last == player@.last,
            r@.current_frame == player@.current_frame,
            r@.remaining_time == player@.remaining_time,
    {
        AnimationPlayer {
            additional_joint_transforms: overrides_insert(
                &player.additional_joint_transforms,
                joint_idx,
                transform,
            ),
            animation: queue_clone(&player.animation),
            last_animation: share_last(&player.last_animation),
            current_frame: player.current_frame,
            remaining_time: player.remaining_time,
        }
    }

    /// Whether the frame counter can hold the frame that an update by
    /// `elapsed` nanoseconds reaches.
    pub fn can_update(&self, elapsed: u64) -> (r: bool)
        requires
            self.wf(),
        ensures
            r == update_fits(self@, elapsed),
    {
        match queue_first(&self.animation) {
            None => true,
            Some(entry) => {
                let total = self.remaining_time as u128 + elapsed as u128;
                let frames = total / entry.clip.time_per_frame as u128;
                self.current_frame as u128 + frames <= u32::MAX as u128
            },
        }
    }

    /// Advances the player by `elapsed` nanoseconds.
    pub fn update(player: &AnimationPlayer, elapsed: u64) -> (r: (
        AnimationPlayer,
        u32,
        Vec<AnimationEvent>,
        Vec3Bits,
    ))
        requires
            player.wf(),
            update_fits(player@, elapsed),
        ensures
            r.0.wf(),
            r.0@ == update_spec(player@, elapsed).0,
            r.1 == update_spec(player@, elapsed).1,
            r.2@ == update_spec(player@, elapsed).2,
            r.3 == update_spec(player@, elapsed).3,
    {
        match queue_first(&player.animation) {
            None => (player.clone(), 0, Vec::new(), Vec3Bits { x: 0, y: 0, z: 0 }),
            Some(entry) => {
                let clip = &entry.clip;
                assert(clip_wf(*player@.queue[0].clip));
                let velocity = clip.sliding_velocity;
                let time_per_frame = clip.time_per_frame;
                let total = player.remaining_time as u128 + elapsed as u128;
                let frames = total / time_per_frame as u128;
                let left = (total % time_per_frame as u128) as u64;
                let next_frame = (player.current_frame as u128 + frames) as u64;
                let motion_flags = motion_flags_between(&clip.motion_flags, player.current_frame, next_frame);
                if next_frame >= clip.num_frames as u64 {
                    let mut events: Vec<AnimationEvent> = Vec::new();
                    events.push(AnimationEvent::Completed);
                    if clip.end_rotation & 0x7fff_ffffu32 != 0 {
                        events.push(AnimationEvent::DirectionChanged(clip.end_rotation));
                    }
                    assert(events@ =~= completion_events(**clip));
                    match entry.mode {
                        AnimationFlags::Loop => {
                            let state = AnimationPlayer {
                                additional_joint_transforms: overrides_clone(&player.additional_joint_transforms),
                                last_animation: share_last(&player.last_animation),
                                animation: queue_clone(&player.animation),
                                current_frame: (next_frame - clip.num_frames as u64) as u32,
                                remaining_time: left,
                            };
                            (state, motion_flags, events, velocity)
                        },
                        AnimationFlags::PlayOnce => {
                            let last_animation = Some(share_clip(clip));
                            let rest = match queue_drop_first(&player.animation) {
                                Some(rest) => rest,
                                None => queue_new(),
                            };
                            let (animation, frame, time) = match queue_first(&rest) {
                                Some(next) => {
                                    let resumed = entry_at(next, 0, 0);
                                    let tail = match queue_drop_first(&rest) {
                                        Some(tail) => tail,
                                        None => queue_new(),
                                    };
                                    let q = queue_push_front(&tail, resumed);
                                    assert(queue_of(q) =~= after_front_leaves(player@).queue);
                                    (q, next.saved_frame, next.saved_time)
                                },
                                None => (rest, 0, 0),
                            };
                            let state = AnimationPlayer {
                                additional_joint_transforms: overrides_clone(&player.additional_joint_transforms),
                                animation,
                                last_animation,
                                current_frame: frame,
                                remaining_time: time,
                            };
                            assert forall|i: int| 0 <= i < state@.queue.len() implies clip_wf(*(#[trigger] state@.queue[i]).clip) by {
                                assert(state@.queue[i].clip == player@.queue[i + 1].clip);
                            }
                            (state, motion_flags, events, velocity)
                        },
                    }
                } else {
                    let mut events: Vec<AnimationEvent> = Vec::new();
                    if player.current_frame == 0 && next_frame > 0 {
                        events.push(AnimationEvent::VelocityChanged(velocity));
                    }
                    let state = AnimationPlayer {
                        additional_joint_transforms: overrides_clone(&player.additional_joint_transforms),
                        last_animation: share_last(&player.last_animation),
                        animation: queue_clone(&player.animation),
                        current_frame: next_frame as u32,
                        remaining_time: left,
                    };
                    (state, motion_flags, events, velocity)
                }
            },
        }
    }
}

/// The events hold exactly one completion, first.
pub open spec fn completed_once(events: Seq<AnimationEvent>) -> bool {
    &&& events.len() > 0
    &&& events[0] == AnimationEvent::Completed
    &&& forall|i: int| 1 <= i < events.len() ==> events[i] != AnimationEvent::Completed
}

/// The events hold no completion.
pub open spec fn never_completed(events: Seq<AnimationEvent>) -> bool {
    forall|i: int| 0 <= i < events.len() ==> events[i] != AnimationEvent::Completed
}

/// The events announce the start of a locomotion phase.
pub open spec fn has_velocity_change(events: Seq<AnimationEvent>) -> bool {
    exists|i: int| 0 <= i < events.len() && events[i] is VelocityChanged
}

/// A tick reports exactly one completion when the active clip reaches its end,
/// and none otherwise.
pub proof fn lemma_one_completion_per_end(p: PlayerView, elapsed: u64)
    ensures
        p.queue.len() > 0 && frame_reached(p, elapsed) >= p.queue[0].clip.num_frames ==> completed_once(
            update_spec(p, elapsed).2,
        ),
        !(p.queue.len() > 0 && frame_reached(p, elapsed) >= p.queue[0].clip.num_frames)
            ==> never_completed(update_spec(p, elapsed).2),
{
}

/// A looping clip that reaches exactly its frame count wraps to frame 0 with
/// no time left over, stays at the front of the queue, and reports exactly one
/// completion.
pub proof fn lemma_loop_wraps_exactly(p: PlayerView, elapsed: u64)
    requires
        p.queue.len() > 0,
        p.queue[0].mode == AnimationFlags::Loop,
        frame_reached(p, elapsed) == p.queue[0].clip.num_frames,
        time_left(p, elapsed) == 0,
    ensures
        update_spec(p, elapsed).0.current_frame == 0,
        update_spec(p, elapsed).0.remaining_time == 0,
        update_spec(p, elapsed).0.queue == p.queue,
        completed_once(update_spec(p, elapsed).2),
{
}

/// `s` plays clip `b` once in front of what `p` had queued, with the clip it
/// pushed back keeping `p`'s frame and leftover time.
pub open spec fn preempted(s: PlayerView, p: PlayerView, b: Rc<AnimationClip>) -> bool {
    s.queue == seq![new_entry(b, AnimationFlags::PlayOnce)] + stash(p)
}

/// A clip queued over a player leaves what it displaced as it was: every tick
/// before the queued clip reaches its end keeps it in front of the same saved
/// queue, and the tick on which it does gives back exactly the queue, frame
/// and leftover time of the player it was queued over, so that playback goes
/// on from there as if it had never been interrupted.
pub proof fn lemma_preempted_clip_resumes(s: PlayerView, p: PlayerView, b: Rc<AnimationClip>, elapsed: u64)
    requires
        player_wf(p),
        preempted(s, p, b),
    ensures
        frame_reached(s, elapsed) < b.num_frames ==> preempted(update_spec(s, elapsed).0, p, b),
        frame_reached(s, elapsed) >= b.num_frames ==> {
            &&& update_spec(s, elapsed).0.queue == p.queue
            &&& update_spec(s, elapsed).0.current_frame == p.current_frame
            &&& update_spec(s, elapsed).0.remaining_time == p.remaining_time
            &&& update_spec(s, elapsed).0.last == Some(b)
        },
{
    assert(s.queue[0] == new_entry(b, AnimationFlags::PlayOnce));
    assert(s.queue.drop_first() =~= stash(p));
    if frame_reached(s, elapsed) >= b.num_frames && p.queue.len() > 0 {
        let rest = stash(p);
        assert(rest[0] == QueuedClip {
            saved_frame: p.current_frame,
            saved_time: p.remaining_time,
            ..p.queue[0]
        });
        assert(rest.update(0, QueuedClip { saved_frame: 0, saved_time: 0, ..rest[0] }) =~= p.queue);
    }
}

/// The start of a clip's locomotion phase is announced once per run of the
/// clip: on the tick whose frame moves off 0, after which the frame stays above
/// 0 and no tick announces it again until the clip reaches its end.
pub proof fn lemma_velocity_change_once(p: PlayerView, elapsed: u64)
    requires
        player_wf(p),
    ensures
        has_velocity_change(update_spec(p, elapsed).2) <==> {
            &&& p.queue.len() > 0
            &&& frame_reached(p, elapsed) < p.queue[0].clip.num_frames
            &&& p.current_frame == 0
            &&& frame_reached(p, elapsed) > 0
        },
        has_velocity_change(update_spec(p, elapsed).2) ==> {
            &&& update_spec(p, elapsed).2 == seq![AnimationEvent::VelocityChanged(p.queue[0].clip.sliding_velocity)]
            &&& update_spec(p, elapsed).0.current_frame > 0
            &&& update_spec(p, elapsed).0.queue == p.queue
            &&& update_spec(p, elapsed).0.last == p.last
        },
        p.current_frame > 0 && p.queue.len() > 0 && frame_reached(p, elapsed)
            < p.queue[0].clip.num_frames ==> {
            &&& !has_velocity_change(update_spec(p, elapsed).2)
            &&& update_spec(p, elapsed).0.current_frame > 0
            &&& update_spec(p, elapsed).0.queue == p.queue
        },
{
    let ev = update_spec(p, elapsed).2;
    if p.queue.len() > 0 {
        let total = p.remaining_time + elapsed;
        let tpf = p.queue[0].clip.time_per_frame as int;
        assert(clip_wf(*p.queue[0].clip));
        assert(total / tpf >= 0) by (nonlinear_arith)
            requires
                total >= 0,
                tpf > 0,
        ;
    }
    if p.queue.len() > 0 && frame_reached(p, elapsed) < p.queue[0].clip.num_frames && p.current_frame
        == 0 && frame_reached(p, elapsed) > 0 {
        assert(ev[0] is VelocityChanged);
    }
    if p.queue.len() > 0 && frame_reached(p, elapsed) >= p.queue[0].clip.num_frames {
        let c = *p.queue[0].clip;
        assert(ev == completion_events(c));
        if has_velocity_change(ev) {
            let i = choose|i: int| 0 <= i < ev.len() && ev[i] is VelocityChanged;
            assert(false);
        }
    }
}

/// The clip and frame that pose the skeleton: the front clip at the current
/// frame; with nothing queued, the last clip played once, held at its final
/// frame; otherwise none (joint overrides alone pose the skeleton).
pub open spec fn pose_spec(p: PlayerView) -> Option<(Rc<AnimationClip>, u32)> {
    if p.queue.len() > 0 {
        Some((p.queue[0].clip, p.current_frame))
    } else {
        match p.last {
            Some(c) => Some((c, (c.num_frames - 1) as u32)),
            None => None,
        }
    }
}

impl AnimationPlayer {
    /// The clip and frame that pose the skeleton, if any. The clip's vertical
    /// drift at that frame is `frame / num_frames` of its translation.
    pub fn pose_source(&self) -> (r: Option<(Rc<AnimationClip>, u32)>)
        requires
            self.wf(),
        ensures
            r == pose_spec(self@),
    {
        match queue_first(&self.animation) {
            Some(entry) => Some((share_clip(&entry.clip), self.current_frame)),
            None => match &self.last_animation {
                Some(c) => Some((share_clip(c), c.num_frames - 1)),
                None => None,
            },
        }
    }

    /// The transform set by hand for joint `joint_idx`, if any.
    pub fn joint_override(&self, joint_idx: u32) -> (r: Option<JointMatrix>)
        ensures
            r == if self@.overrides.contains_key(joint_idx) {
                Some(self@.overrides[joint_idx])
            } else {
                None
            },
    {
        overrides_get(&self.additional_joint_transforms, joint_idx)
    }

    /// The front entry of the queue, if any.
    pub fn active_clip(&self) -> (r: Option<(Rc<AnimationClip>, AnimationFlags)>)
        ensures
            self@.queue.len() == 0 ==> r is None,
            self@.queue.len() > 0 ==> r == Some((self@.queue[0].clip, self@.queue[0].mode)),
    {
        match queue_first(&self.animation) {
            Some(entry) => Some((share_clip(&entry.clip), entry.mode)),
            None => None,
        }
    }

    /// The last clip that played once to its end, if no clip has been queued since.
    pub fn last_animation(&self) -> (r: Option<Rc<AnimationClip>>)
        ensures
            r == self@.last,
    {
        share_last(&self.last_animation)
    }

    /// The current frame of the front clip.
    pub fn current_frame(&self) -> (r: u32)
        ensures
            r == self@.current_frame,
    {
        self.current_frame
    }

    /// Time carried over towards the next frame, in nanoseconds.
    pub fn remaining_time(&self) -> (r: u64)
        ensures
            r == self@.remaining_time,
    {
        self.remaining_time
    }
}

/// A looping clip that reaches its end, however far past it, stays in front
/// of the same queue and wraps by its frame count, keeping the time left
/// over; the tick reports exactly one completion.
pub proof fn lemma_loop_completion(p: PlayerView, elapsed: u64)
    requires
        player_wf(p),
        p.queue.len() > 0,
        p.queue[0].mode == AnimationFlags::Loop,
        frame_reached(p, elapsed) >= p.queue[0].clip.num_frames,
        update_fits(p, elapsed),
    ensures
        update_spec(p, elapsed).0.current_frame == frame_reached(p, elapsed) - p.queue[0].clip.num_frames,
        update_spec(p, elapsed).0.remaining_time == time_left(p, elapsed),
        update_spec(p, elapsed).0.queue == p.queue,
        update_spec(p, elapsed).0.overrides == p.overrides,
        update_spec(p, elapsed).0.last == p.last,
        completed_once(update_spec(p, elapsed).2),
{
    let tpf = p.queue[0].clip.time_per_frame as int;
    assert(clip_wf(*p.queue[0].clip));
    let total = p.remaining_time + elapsed;
    assert(0 <= total % tpf < tpf) by (nonlinear_arith)
        requires
            total >= 0,
            tpf > 0,
    ;
    assert(tpf <= u64::MAX);
}

/// The player after one tick by each of `es`, in order.
pub open spec fn run(p: PlayerView, es: Seq<u64>) -> PlayerView
    decreases es.len(),
{
    if es.len() == 0 {
        p
    } else {
        update_spec(run(p, es.drop_last()), es.last()).0
    }
}

/// `r` is where `p` was: the same queue, frame and leftover time.
pub open spec fn resumed(r: PlayerView, p: PlayerView) -> bool {
    r.queue == p.queue && r.current_frame == p.current_frame && r.remaining_time == p.remaining_time
}

/// Over any run of ticks from a player with clip `b` queued over `p`, either
/// `b` is still playing in front of the saved queue, or there is a tick on
/// which it ended, and right after that tick the player is back where `p` was.
pub proof fn lemma_preempted_run(s: PlayerView, p: PlayerView, b: Rc<AnimationClip>, es: Seq<u64>)
    requires
        player_wf(p),
        preempted(s, p, b),
    ensures
        preempted(run(s, es), p, b) || exists|k: int|
            1 <= k <= es.len() && preempted(#[trigger] run(s, es.take(k - 1)), p, b) && resumed(
                run(s, es.take(k)),
                p,
            ),
    decreases es.len(),
{
    if es.len() > 0 {
        let init = es.drop_last();
        lemma_preempted_run(s, p, b, init);
        let n = es.len() as int;
        assert(es.take(n) =~= es);
        assert(es.take(n - 1) =~= init);
        if preempted(run(s, init), p, b) {
            lemma_preempted_clip_resumes(run(s, init), p, b, es.last());
            if !preempted(run(s, es), p, b) {
                assert(preempted(run(s, es.take(n - 1)), p, b) && resumed(run(s, es.take(n)), p));
            }
        } else {
            let k = choose|k: int|
                1 <= k <= init.len() && preempted(#[trigger] run(s, init.take(k - 1)), p, b) && resumed(
                    run(s, init.take(k)),
                    p,
                );
            assert(init.take(k - 1) =~= es.take(k - 1));
            assert(init.take(k) =~= es.take(k));
        }
    }
}

/// Every tick of the run leaves the front clip short of its end, and the frame
/// counter holds the frame it reaches.
pub open spec fn run_stays_in_clip(p: PlayerView, es: Seq<u64>) -> bool
    decreases es.len(),
{
    if es.len() == 0 {
        true
    } else {
        let q = run(p, es.drop_last());
        &&& run_stays_in_clip(p, es.drop_last())
        &&& q.queue.len() > 0
        &&& frame_reached(q, es.last()) < q.queue[0].clip.num_frames
        &&& update_fits(q, es.last())
    }
}

/// How many ticks of the run announce a velocity change.
pub open spec fn velocity_changes(p: PlayerView, es: Seq<u64>) -> int
    decreases es.len(),
{
    if es.len() == 0 {
        0
    } else {
        velocity_changes(p, es.drop_last()) + if has_velocity_change(
            update_spec(run(p, es.drop_last()), es.last()).2,
        ) {
            1int
        } else {
            0int
        }
    }
}

/// Over a run of ticks in which the front clip, started at frame 0, never
/// reaches its end, its velocity change is announced at most once: exactly
/// when the frame has moved off 0.
pub proof fn lemma_velocity_change_once_per_run(p: PlayerView, es: Seq<u64>)
    requires
        player_wf(p),
        p.queue.len() > 0,
        p.current_frame == 0,
        run_stays_in_clip(p, es),
    ensures
        run(p, es).queue == p.queue,
        run(p, es).last == p.last,
        velocity_changes(p, es) == if run(p, es).current_frame > 0 {
            1int
        } else {
            0int
        },
    decreases es.len(),
{
    if es.len() > 0 {
        let init = es.drop_last();
        lemma_velocity_change_once_per_run(p, init);
        let q = run(p, init);
        assert(player_wf(q)) by {
            assert(q.queue == p.queue);
        }
        lemma_velocity_change_once(q, es.last());
    }
}

} // verus!
