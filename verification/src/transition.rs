//! How animations reach the nodes they drive: a node's transform channels
//! are found by name and value type, and a transition between two
//! animations blends, holds, or leaves each channel according to which of
//! the two drives it.

use vstd::prelude::*;
use crate::mirror::{Sequencer, Track, TrackView, ROTATION_PREFIX, SCALE_PREFIX, TRANSLATION_PREFIX};
use crate::text::{push_str, str_eq};

verus! {

/// What a transition does with one channel of one node.
#[derive(Clone, Copy, PartialEq, Eq, Debug)]
pub enum Blend<T> {
    /// Both animations drive the channel: interpolate from the first value
    /// to the second by the transition parameter.
    Between(T, T),
    /// Only one animation drives the channel: apply its value.
    Hold(T),
    /// Neither does: leave the node's channel unchanged.
    Keep,
}

/// The blend for a channel whose value is `start` in the animation being
/// left and `end` in the animation being entered.
pub fn blend_operands<T>(start: Option<T>, end: Option<T>) -> (r: Blend<T>)
    ensures
        r == match (start, end) {
            (Some(a), Some(b)) => Blend::Between(a, b),
            (Some(a), None) => Blend::Hold(a),
            (None, Some(b)) => Blend::Hold(b),
            (None, None) => Blend::Keep,
        },
{
    match (start, end) {
        (Some(a), Some(b)) => Blend::Between(a, b),
        (Some(a), None) => Blend::Hold(a),
        (None, Some(b)) => Blend::Hold(b),
        (None, None) => Blend::Keep,
    }
}

/// The name of a node's channel: the node name followed by the channel's
/// suffix (`.translation`, `.rotation`, `.scale`).
pub fn channel_key(node: &str, suffix: &str) -> (r: String)
    ensures
        r@ == node@ + suffix@,
{
    let mut s = String::new();
    push_str(&mut s, node);
    push_str(&mut s, suffix);
    s
}

/// A node transform that an animation channel can drive.
#[derive(Clone, Copy, PartialEq, Eq, Structural, Debug)]
pub enum ChannelKind {
    Translation,
    Rotation,
    Scale,
}

/// The suffix that names a node's channel of `kind`.
pub open spec fn kind_suffix(kind: ChannelKind) -> Seq<char> {
    match kind {
        ChannelKind::Translation => TRANSLATION_PREFIX@,
        ChannelKind::Rotation => ROTATION_PREFIX@,
        ChannelKind::Scale => SCALE_PREFIX@,
    }
}

/// Whether `track` carries the values of `kind` as animations drive nodes:
/// `f64` quaternions for rotation, `f64` vectors for translation and scale
/// (the tracks the glTF loader builds). A 32-bit track is not read.
pub open spec fn kind_carried_by(kind: ChannelKind, track: TrackView) -> bool {
    match kind {
        ChannelKind::Rotation => track is QuatF64,
        _ => track is Vec3F64,
    }
}

/// Whether `i` is the first channel of `channels` named `key`.
pub open spec fn first_with_key(channels: Seq<(Seq<char>, TrackView)>, key: Seq<char>, i: int) -> bool {
    &&& 0 <= i < channels.len()
    &&& channels[i].0 == key
    &&& forall|j: int| 0 <= j < i ==> channels[j].0 != key
}

/// The channel an animation looks up under `key` for `kind`: the first
/// channel of that name, provided it carries values of that kind.
pub open spec fn channel_lookup(channels: Seq<(Seq<char>, TrackView)>, key: Seq<char>, kind: ChannelKind) -> Option<int> {
    if exists|i: int| first_with_key(channels, key, i) {
        let i = choose|i: int| first_with_key(channels, key, i);
        if kind_carried_by(kind, channels[i].1) {
            Some(i)
        } else {
            None
        }
    } else {
        None
    }
}

/// Whether an index found at run time is the one `channel_lookup` names.
pub open spec fn found_as(r: Option<usize>, l: Option<int>) -> bool {
    match r {
        Some(i) => l == Some(i as int),
        None => l is None,
    }
}

proof fn lemma_first_with_key_unique(channels: Seq<(Seq<char>, TrackView)>, key: Seq<char>, i: int, j: int)
    requires
        first_with_key(channels, key, i),
        first_with_key(channels, key, j),
    ensures
        i == j,
{
}

fn track_carries(kind: ChannelKind, track: &Track) -> (r: bool)
    ensures
        r == kind_carried_by(kind, track@),
{
    match (kind, track) {
        (ChannelKind::Rotation, Track::QuatF64(_)) => true,
        (ChannelKind::Rotation, _) => false,
        (_, Track::Vec3F64(_)) => true,
        _ => false,
    }
}

/// The index of the channel `animation` drives `kind` through under `key`.
pub fn find_channel(animation: &Sequencer, key: &str, kind: ChannelKind) -> (r: Option<usize>)
    ensures
        found_as(r, channel_lookup(animation@, key@, kind)),
{
    let mut i: usize = 0;
    while i < animation.channels.len()
        invariant
            i <= animation@.len(),
            animation@.len() == animation.channels@.len(),
            forall|j: int| 0 <= j < i ==> animation@[j].0 != key@,
        decreases animation.channels.len() - i,
    {
        let c = &animation.channels[i];
        assert(animation@[i as int] == (c.key@, c.track@));
        if str_eq(c.key.as_str(), key) {
            assert(first_with_key(animation@, key@, i as int));
            proof {
                let w = choose|w: int| first_with_key(animation@, key@, w);
                lemma_first_with_key_unique(animation@, key@, i as int, w);
            }
            if track_carries(kind, &c.track) {
                return Some(i);
            } else {
                return None;
            }
        }
        i = i + 1;
    }
    assert(!exists|w: int| first_with_key(animation@, key@, w));
    None
}

/// Where the two animations of a transition find one channel of a node.
#[derive(Clone, Copy, PartialEq, Eq, Structural, Debug)]
pub struct ChannelPick {
    /// The channel's index in the animation being left.
    pub start: Option<usize>,
    /// The channel's index in the animation being entered.
    pub end: Option<usize>,
}

/// Where a transition finds the three transform channels of one node.
#[derive(Clone, Copy, PartialEq, Eq, Structural, Debug)]
pub struct NodePicks {
    pub translation: ChannelPick,
    pub rotation: ChannelPick,
    pub scale: ChannelPick,
}

/// Whether `p` names, in each animation, the channel that drives `kind` of
/// the node called `name`.
pub open spec fn pick_of(
    p: ChannelPick,
    start: Seq<(Seq<char>, TrackView)>,
    end: Seq<(Seq<char>, TrackView)>,
    name: Seq<char>,
    kind: ChannelKind,
) -> bool {
    &&& found_as(p.start, channel_lookup(start, name + kind_suffix(kind), kind))
    &&& found_as(p.end, channel_lookup(end, name + kind_suffix(kind), kind))
}

fn pick_channel(start: &Sequencer, end: &Sequencer, name: &str, kind: ChannelKind) -> (r: ChannelPick)
    ensures
        pick_of(r, start@, end@, name@, kind),
{
    let suffix = match kind {
        ChannelKind::Translation => TRANSLATION_PREFIX,
        ChannelKind::Rotation => ROTATION_PREFIX,
        ChannelKind::Scale => SCALE_PREFIX,
    };
    let key = channel_key(name, suffix);
    ChannelPick { start: find_channel(start, key.as_str(), kind), end: find_channel(end, key.as_str(), kind) }
}

/// For every node name, where the transition from `start` to `end` finds
/// the node's translation, rotation and scale: the value of the channel
/// `name + suffix` in each animation, when that channel animates the right
/// kind of value. The transition then blends each channel with
/// [`blend_operands`] over the values found.
pub fn transition_picks(start: &Sequencer, end: &Sequencer, names: &[String]) -> (r: Vec<NodePicks>)
    ensures
        r@.len() == names@.len(),
        forall|i: int| 0 <= i < names@.len() ==> {
            &&& pick_of(#[trigger] r@[i].translation, start@, end@, names@[i]@, ChannelKind::Translation)
            &&& pick_of(r@[i].rotation, start@, end@, names@[i]@, ChannelKind::Rotation)
            &&& pick_of(r@[i].scale, start@, end@, names@[i]@, ChannelKind::Scale)
        },
{
    let mut out: Vec<NodePicks> = Vec::new();
    let mut i: usize = 0;
    while i < names.len()
        invariant
            i <= names@.len(),
            out@.len() == i,
            forall|k: int| 0 <= k < i ==> {
                &&& pick_of(#[trigger] out@[k].translation, start@, end@, names@[k]@, ChannelKind::Translation)
                &&& pick_of(out@[k].rotation, start@, end@, names@[k]@, ChannelKind::Rotation)
                &&& pick_of(out@[k].scale, start@, end@, names@[k]@, ChannelKind::Scale)
            },
        decreases names.len() - i,
    {
        let name = names[i].as_str();
        let picks = NodePicks {
            translation: pick_channel(start, end, name, ChannelKind::Translation),
            rotation: pick_channel(start, end, name, ChannelKind::Rotation),
            scale: pick_channel(start, end, name, ChannelKind::Scale),
        };
        out.push(picks);
        i = i + 1;
    }
    out
}

/// Where one animation finds the three transform channels of a node.
#[derive(Clone, Copy, PartialEq, Eq, Structural, Debug)]
pub struct NodeChannels {
    pub translation: Option<usize>,
    pub rotation: Option<usize>,
    pub scale: Option<usize>,
}

/// For every node name, the channels through which `animation` sets the
/// node's translation, rotation and scale: the channel `name + suffix` of
/// each, when it animates the right kind of value. Setting the animation
/// applies each found channel's current value to the node.
pub fn animation_channels(animation: &Sequencer, names: &[String]) -> (r: Vec<NodeChannels>)
    ensures
        r@.len() == names@.len(),
        forall|i: int| 0 <= i < names@.len() ==> {
            &&& found_as(#[trigger] r@[i].translation, channel_lookup(animation@, names@[i]@ + TRANSLATION_PREFIX@, ChannelKind::Translation))
            &&& found_as(r@[i].rotation, channel_lookup(animation@, names@[i]@ + ROTATION_PREFIX@, ChannelKind::Rotation))
            &&& found_as(r@[i].scale, channel_lookup(animation@, names@[i]@ + SCALE_PREFIX@, ChannelKind::Scale))
        },
{
    let mut out: Vec<NodeChannels> = Vec::new();
    let mut i: usize = 0;
    while i < names.len()
        invariant
            i <= names@.len(),
            out@.len() == i,
            forall|k: int| 0 <= k < i ==> {
                &&& found_as(#[trigger] out@[k].translation, channel_lookup(animation@, names@[k]@ + TRANSLATION_PREFIX@, ChannelKind::Translation))
                &&& found_as(out@[k].rotation, channel_lookup(animation@, names@[k]@ + ROTATION_PREFIX@, ChannelKind::Rotation))
                &&& found_as(out@[k].scale, channel_lookup(animation@, names@[k]@ + SCALE_PREFIX@, ChannelKind::Scale))
            },
        decreases names.len() - i,
    {
        let name = names[i].as_str();
        let t = channel_key(name, TRANSLATION_PREFIX);
        let r = channel_key(name, ROTATION_PREFIX);
        let sc = channel_key(name, SCALE_PREFIX);
        out.push(NodeChannels {
            translation: find_channel(animation, t.as_str(), ChannelKind::Translation),
            rotation: find_channel(animation, r.as_str(), ChannelKind::Rotation),
            scale: find_channel(animation, sc.as_str(), ChannelKind::Scale),
        });
        i = i + 1;
    }
    out
}

} // verus!
