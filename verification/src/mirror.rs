//! Mirroring of skeletal animation along a coordinate plane.
//!
//! An animation is a set of named channels; a channel whose name ends in
//! [`TRANSLATION_PREFIX`] carries `vec3` tweens and one whose name ends in
//! [`ROTATION_PREFIX`] carries quaternion tweens. Mirroring negates, in the
//! start and end value of every tween, the translation component normal to
//! the plane and the two rotation components lying in it; each tween's
//! timing (delay, duration, easing) is kept. Components are `f32` bit
//! patterns; negation flips the sign bit, exactly as IEEE 754 negation does.
//!
//! Tracks carry their value type: `vec3` and quaternion tracks of 32-bit
//! or of 64-bit components (the animations the glTF loader builds are
//! 64-bit), each mirrored alike; a 64-bit component is an `f64` bit
//! pattern, negated by flipping its sign bit. A track of any other value
//! type (morph weights, ...) is [`Track::Other`] and passes through
//! unchanged.

use vstd::prelude::*;
use crate::f32_bits::F32Bits;
use crate::keyframes::Interpolation;
use crate::text::chars_of;

verus! {

/// Channel-name suffix of a node's translation track.
pub const TRANSLATION_PREFIX: &'static str = ".translation";
/// Channel-name suffix of a node's rotation track.
pub const ROTATION_PREFIX: &'static str = ".rotation";
/// Channel-name suffix of a node's scale track.
pub const SCALE_PREFIX: &'static str = ".scale";

/// Defines mirror plane.
#[derive(Clone, Copy, PartialEq, Eq, Structural, Debug)]
pub enum MirrorPlane {
    /// Mirror along XY plane.
    XY,
    /// Mirror along YZ plane.
    YZ,
    /// Mirror along XZ plane.
    XZ,
}

/// Animation modifier that mirrors animations along a plane (XY, YZ, XZ).
#[derive(Clone, Copy, Debug)]
pub struct Mirror;

/// A 3-component `f32` vector, as bit patterns.
#[derive(Clone, Copy, PartialEq, Eq, Structural, Debug)]
pub struct Vec3Bits {
    pub x: F32Bits,
    pub y: F32Bits,
    pub z: F32Bits,
}

/// A quaternion `(x, y, z, w)` of `f32`s, as bit patterns.
#[derive(Clone, Copy, PartialEq, Eq, Structural, Debug)]
pub struct QuatBits {
    pub x: F32Bits,
    pub y: F32Bits,
    pub z: F32Bits,
    pub w: F32Bits,
}

/// A 3-component `f64` vector, as bit patterns (`f64::to_bits`).
#[derive(Clone, Copy, PartialEq, Eq, Structural, Debug)]
pub struct Vec3Bits64 {
    pub x: u64,
    pub y: u64,
    pub z: u64,
}

/// A quaternion `(x, y, z, w)` of `f64`s, as bit patterns.
#[derive(Clone, Copy, PartialEq, Eq, Structural, Debug)]
pub struct QuatBits64 {
    pub x: u64,
    pub y: u64,
    pub z: u64,
    pub w: u64,
}

/// When a tween plays and how it eases: its delay and duration as `f64`
/// bit patterns, and the interpolation its easing comes from.
#[derive(Clone, Copy, PartialEq, Eq, Structural, Debug)]
pub struct TweenTiming {
    pub delay: u64,
    pub duration: u64,
    pub easing: Interpolation,
}

/// A tween between two vectors.
#[derive(Clone, Copy, PartialEq, Eq, Structural, Debug)]
pub struct Vec3Tween {
    pub start_value: Vec3Bits,
    pub end_value: Vec3Bits,
    pub timing: TweenTiming,
}

/// A tween between two rotations.
#[derive(Clone, Copy, PartialEq, Eq, Structural, Debug)]
pub struct QuatTween {
    pub start_value: QuatBits,
    pub end_value: QuatBits,
    pub timing: TweenTiming,
}

/// A tween between two `f64` vectors.
#[derive(Clone, Copy, PartialEq, Eq, Structural, Debug)]
pub struct Vec3Tween64 {
    pub start_value: Vec3Bits64,
    pub end_value: Vec3Bits64,
    pub timing: TweenTiming,
}

/// A tween between two `f64` rotations.
#[derive(Clone, Copy, PartialEq, Eq, Structural, Debug)]
pub struct QuatTween64 {
    pub start_value: QuatBits64,
    pub end_value: QuatBits64,
    pub timing: TweenTiming,
}

/// The players of one channel, by the type of value they animate.
#[derive(Clone, Debug)]
pub enum Track {
    /// A sequence of `f32` `vec3` tweens (translation or scale).
    Vec3F32(Vec<Vec3Tween>),
    /// A sequence of `f32` quaternion tweens.
    QuatF32(Vec<QuatTween>),
    /// A sequence of `f64` `vec3` tweens, as the glTF loader builds them.
    Vec3F64(Vec<Vec3Tween64>),
    /// A sequence of `f64` quaternion tweens, as the glTF loader builds them.
    QuatF64(Vec<QuatTween64>),
    /// A sequence animating some other type (morph weights, ...).
    Other,
}

/// What a [`Track`] holds.
pub enum TrackView {
    Vec3F32(Seq<Vec3Tween>),
    QuatF32(Seq<QuatTween>),
    Vec3F64(Seq<Vec3Tween64>),
    QuatF64(Seq<QuatTween64>),
    Other,
}

impl View for Track {
    type V = TrackView;

    open spec fn view(&self) -> TrackView {
        match self {
            Track::Vec3F32(v) => TrackView::Vec3F32(v@),
            Track::QuatF32(v) => TrackView::QuatF32(v@),
            Track::Vec3F64(v) => TrackView::Vec3F64(v@),
            Track::QuatF64(v) => TrackView::QuatF64(v@),
            Track::Other => TrackView::Other,
        }
    }
}

/// One named channel of an animation.
#[derive(Clone, Debug)]
pub struct Channel {
    pub key: String,
    pub track: Track,
}

/// An animation: its channels, in order.
#[derive(Clone, Debug)]
pub struct Sequencer {
    pub channels: Vec<Channel>,
}

impl View for Sequencer {
    type V = Seq<(Seq<char>, TrackView)>;

    open spec fn view(&self) -> Seq<(Seq<char>, TrackView)> {
        self.channels@.map_values(|c: Channel| (c.key@, c.track@))
    }
}

/// `f32` negation: the sign bit flipped.
pub open spec fn neg_spec(b: F32Bits) -> F32Bits {
    b ^ 0x8000_0000u32
}

fn neg(b: F32Bits) -> (r: F32Bits)
    ensures
        r == neg_spec(b),
{
    b ^ 0x8000_0000u32
}

/// `f64` negation: the sign bit flipped.
pub open spec fn neg64_spec(b: u64) -> u64 {
    b ^ 0x8000_0000_0000_0000u64
}

fn neg64(b: u64) -> (r: u64)
    ensures
        r == neg64_spec(b),
{
    b ^ 0x8000_0000_0000_0000u64
}

/// Whether `s` ends with `suffix`.
pub open spec fn ends_with_spec(s: Seq<char>, suffix: Seq<char>) -> bool {
    suffix.len() <= s.len() && s.skip(s.len() - suffix.len()) == suffix
}

fn ends_with(s: &str, suffix: &str) -> (r: bool)
    ensures
        r == ends_with_spec(s@, suffix@),
{
    let cs = chars_of(s);
    let ps = chars_of(suffix);
    if ps.len() > cs.len() {
        return false;
    }
    let off = cs.len() - ps.len();
    let mut k: usize = 0;
    while k < ps.len()
        invariant
            cs@ == s@,
            ps@ == suffix@,
            ps@.len() <= cs@.len() <= usize::MAX,
            off == cs@.len() - ps@.len(),
            k <= ps@.len(),
            forall|m: int| 0 <= m < k ==> cs@[off + m] == ps@[m],
        decreases ps.len() - k,
    {
        if cs[off + k] != ps[k] {
            assert(s@.skip(off as int)[k as int] != suffix@[k as int]);
            return false;
        }
        k = k + 1;
    }
    assert(s@.skip(off as int) =~= suffix@);
    true
}

/// The translation `v` mirrored along `plane`: its component normal to the
/// plane negated.
pub open spec fn mirror_vec3(v: Vec3Bits, plane: MirrorPlane) -> Vec3Bits {
    match plane {
        MirrorPlane::XY => Vec3Bits { z: neg_spec(v.z), ..v },
        MirrorPlane::YZ => Vec3Bits { x: neg_spec(v.x), ..v },
        MirrorPlane::XZ => Vec3Bits { y: neg_spec(v.y), ..v },
    }
}

/// The rotation `q` mirrored along `plane`: its two vector components lying
/// in the plane negated.
pub open spec fn mirror_quat(q: QuatBits, plane: MirrorPlane) -> QuatBits {
    match plane {
        MirrorPlane::XY => QuatBits { x: neg_spec(q.x), y: neg_spec(q.y), ..q },
        MirrorPlane::YZ => QuatBits { y: neg_spec(q.y), z: neg_spec(q.z), ..q },
        MirrorPlane::XZ => QuatBits { x: neg_spec(q.x), z: neg_spec(q.z), ..q },
    }
}

/// [`mirror_vec3`] on `f64` components.
pub open spec fn mirror_vec3_64(v: Vec3Bits64, plane: MirrorPlane) -> Vec3Bits64 {
    match plane {
        MirrorPlane::XY => Vec3Bits64 { z: neg64_spec(v.z), ..v },
        MirrorPlane::YZ => Vec3Bits64 { x: neg64_spec(v.x), ..v },
        MirrorPlane::XZ => Vec3Bits64 { y: neg64_spec(v.y), ..v },
    }
}

/// [`mirror_quat`] on `f64` components.
pub open spec fn mirror_quat_64(q: QuatBits64, plane: MirrorPlane) -> QuatBits64 {
    match plane {
        MirrorPlane::XY => QuatBits64 { x: neg64_spec(q.x), y: neg64_spec(q.y), ..q },
        MirrorPlane::YZ => QuatBits64 { y: neg64_spec(q.y), z: neg64_spec(q.z), ..q },
        MirrorPlane::XZ => QuatBits64 { x: neg64_spec(q.x), z: neg64_spec(q.z), ..q },
    }
}

pub open spec fn mirror_vec3_tween64(t: Vec3Tween64, plane: MirrorPlane) -> Vec3Tween64 {
    Vec3Tween64 { start_value: mirror_vec3_64(t.start_value, plane), end_value: mirror_vec3_64(t.end_value, plane), timing: t.timing }
}

pub open spec fn mirror_quat_tween64(t: QuatTween64, plane: MirrorPlane) -> QuatTween64 {
    QuatTween64 { start_value: mirror_quat_64(t.start_value, plane), end_value: mirror_quat_64(t.end_value, plane), timing: t.timing }
}

pub open spec fn mirror_vec3_tween(t: Vec3Tween, plane: MirrorPlane) -> Vec3Tween {
    Vec3Tween { start_value: mirror_vec3(t.start_value, plane), end_value: mirror_vec3(t.end_value, plane), timing: t.timing }
}

pub open spec fn mirror_quat_tween(t: QuatTween, plane: MirrorPlane) -> QuatTween {
    QuatTween { start_value: mirror_quat(t.start_value, plane), end_value: mirror_quat(t.end_value, plane), timing: t.timing }
}

/// The track of channel `key` after mirroring: translation channels holding
/// `vec3` tweens and rotation channels holding quaternion tweens, of
/// `f32` or of `f64` components, are mirrored; every other channel is kept
/// as it is.
pub open spec fn mirror_track(key: Seq<char>, track: TrackView, plane: MirrorPlane) -> TrackView {
    if ends_with_spec(key, TRANSLATION_PREFIX@) {
        match track {
            TrackView::Vec3F32(ts) => TrackView::Vec3F32(ts.map_values(|t: Vec3Tween| mirror_vec3_tween(t, plane))),
            TrackView::Vec3F64(ts) => TrackView::Vec3F64(ts.map_values(|t: Vec3Tween64| mirror_vec3_tween64(t, plane))),
            _ => track,
        }
    } else if ends_with_spec(key, ROTATION_PREFIX@) {
        match track {
            TrackView::QuatF32(ts) => TrackView::QuatF32(ts.map_values(|t: QuatTween| mirror_quat_tween(t, plane))),
            TrackView::QuatF64(ts) => TrackView::QuatF64(ts.map_values(|t: QuatTween64| mirror_quat_tween64(t, plane))),
            _ => track,
        }
    } else {
        track
    }
}

/// Every channel of `channels` mirrored along `plane`.
pub open spec fn mirror_channels(channels: Seq<(Seq<char>, TrackView)>, plane: MirrorPlane) -> Seq<(Seq<char>, TrackView)> {
    channels.map_values(|c: (Seq<char>, TrackView)| (c.0, mirror_track(c.0, c.1, plane)))
}

fn mirror_vec3_exec(v: Vec3Bits, plane: MirrorPlane) -> (r: Vec3Bits)
    ensures
        r == mirror_vec3(v, plane),
{
    match plane {
        MirrorPlane::XY => Vec3Bits { z: neg(v.z), ..v },
        MirrorPlane::YZ => Vec3Bits { x: neg(v.x), ..v },
        MirrorPlane::XZ => Vec3Bits { y: neg(v.y), ..v },
    }
}

fn mirror_quat_exec(q: QuatBits, plane: MirrorPlane) -> (r: QuatBits)
    ensures
        r == mirror_quat(q, plane),
{
    match plane {
        MirrorPlane::XY => QuatBits { x: neg(q.x), y: neg(q.y), ..q },
        MirrorPlane::YZ => QuatBits { y: neg(q.y), z: neg(q.z), ..q },
        MirrorPlane::XZ => QuatBits { x: neg(q.x), z: neg(q.z), ..q },
    }
}

fn mirror_vec3_tweens(ts: &Vec<Vec3Tween>, plane: MirrorPlane) -> (r: Vec<Vec3Tween>)
    ensures
        r@ == ts@.map_values(|t: Vec3Tween| mirror_vec3_tween(t, plane)),
{
    let mut out: Vec<Vec3Tween> = Vec::new();
    let mut i: usize = 0;
    while i < ts.len()
        invariant
            i <= ts@.len(),
            out@ == ts@.take(i as int).map_values(|t: Vec3Tween| mirror_vec3_tween(t, plane)),
        decreases ts.len() - i,
    {
        let t = ts[i];
        out.push(Vec3Tween { start_value: mirror_vec3_exec(t.start_value, plane), end_value: mirror_vec3_exec(t.end_value, plane), timing: t.timing });
        assert(ts@.take(i + 1) =~= ts@.take(i as int).push(t));
        i = i + 1;
        assert(out@ =~= ts@.take(i as int).map_values(|t: Vec3Tween| mirror_vec3_tween(t, plane)));
    }
    assert(ts@.take(ts@.len() as int) =~= ts@);
    out
}

fn mirror_quat_tweens(ts: &Vec<QuatTween>, plane: MirrorPlane) -> (r: Vec<QuatTween>)
    ensures
        r@ == ts@.map_values(|t: QuatTween| mirror_quat_tween(t, plane)),
{
    let mut out: Vec<QuatTween> = Vec::new();
    let mut i: usize = 0;
    while i < ts.len()
        invariant
            i <= ts@.len(),
            out@ == ts@.take(i as int).map_values(|t: QuatTween| mirror_quat_tween(t, plane)),
        decreases ts.len() - i,
    {
        let t = ts[i];
        out.push(QuatTween { start_value: mirror_quat_exec(t.start_value, plane), end_value: mirror_quat_exec(t.end_value, plane), timing: t.timing });
        assert(ts@.take(i + 1) =~= ts@.take(i as int).push(t));
        i = i + 1;
        assert(out@ =~= ts@.take(i as int).map_values(|t: QuatTween| mirror_quat_tween(t, plane)));
    }
    assert(ts@.take(ts@.len() as int) =~= ts@);
    out
}

fn mirror_vec3_64_exec(v: Vec3Bits64, plane: MirrorPlane) -> (r: Vec3Bits64)
    ensures
        r == mirror_vec3_64(v, plane),
{
    match plane {
        MirrorPlane::XY => Vec3Bits64 { z: neg64(v.z), ..v },
        MirrorPlane::YZ => Vec3Bits64 { x: neg64(v.x), ..v },
        MirrorPlane::XZ => Vec3Bits64 { y: neg64(v.y), ..v },
    }
}

fn mirror_quat_64_exec(q: QuatBits64, plane: MirrorPlane) -> (r: QuatBits64)
    ensures
        r == mirror_quat_64(q, plane),
{
    match plane {
        MirrorPlane::XY => QuatBits64 { x: neg64(q.x), y: neg64(q.y), ..q },
        MirrorPlane::YZ => QuatBits64 { y: neg64(q.y), z: neg64(q.z), ..q },
        MirrorPlane::XZ => QuatBits64 { x: neg64(q.x), z: neg64(q.z), ..q },
    }
}

fn mirror_vec3_tweens64(ts: &Vec<Vec3Tween64>, plane: MirrorPlane) -> (r: Vec<Vec3Tween64>)
    ensures
        r@ == ts@.map_values(|t: Vec3Tween64| mirror_vec3_tween64(t, plane)),
{
    let mut out: Vec<Vec3Tween64> = Vec::new();
    let mut i: usize = 0;
    while i < ts.len()
        invariant
            i <= ts@.len(),
            out@ == ts@.take(i as int).map_values(|t: Vec3Tween64| mirror_vec3_tween64(t, plane)),
        decreases ts.len() - i,
    {
        let t = ts[i];
        out.push(Vec3Tween64 { start_value: mirror_vec3_64_exec(t.start_value, plane), end_value: mirror_vec3_64_exec(t.end_value, plane), timing: t.timing });
        assert(ts@.take(i + 1) =~= ts@.take(i as int).push(t));
        i = i + 1;
        assert(out@ =~= ts@.take(i as int).map_values(|t: Vec3Tween64| mirror_vec3_tween64(t, plane)));
    }
    assert(ts@.take(ts@.len() as int) =~= ts@);
    out
}

fn mirror_quat_tweens64(ts: &Vec<QuatTween64>, plane: MirrorPlane) -> (r: Vec<QuatTween64>)
    ensures
        r@ == ts@.map_values(|t: QuatTween64| mirror_quat_tween64(t, plane)),
{
    let mut out: Vec<QuatTween64> = Vec::new();
    let mut i: usize = 0;
    while i < ts.len()
        invariant
            i <= ts@.len(),
            out@ == ts@.take(i as int).map_values(|t: QuatTween64| mirror_quat_tween64(t, plane)),
        decreases ts.len() - i,
    {
        let t = ts[i];
        out.push(QuatTween64 { start_value: mirror_quat_64_exec(t.start_value, plane), end_value: mirror_quat_64_exec(t.end_value, plane), timing: t.timing });
        assert(ts@.take(i + 1) =~= ts@.take(i as int).push(t));
        i = i + 1;
        assert(out@ =~= ts@.take(i as int).map_values(|t: QuatTween64| mirror_quat_tween64(t, plane)));
    }
    assert(ts@.take(ts@.len() as int) =~= ts@);
    out
}

/// A copy of `t` (its tweens are `Copy`, so the copy is equal to it).
fn copy_track(t: &Track) -> (r: Track)
    ensures
        r@ == t@,
{
    match t {
        Track::Vec3F32(ts) => Track::Vec3F32(copy_vec(ts)),
        Track::QuatF32(ts) => Track::QuatF32(copy_vec(ts)),
        Track::Vec3F64(ts) => Track::Vec3F64(copy_vec(ts)),
        Track::QuatF64(ts) => Track::QuatF64(copy_vec(ts)),
        Track::Other => Track::Other,
    }
}

fn copy_vec<T: Copy>(v: &Vec<T>) -> (r: Vec<T>)
    ensures
        r@ == v@,
{
    let mut out: Vec<T> = Vec::new();
    let mut i: usize = 0;
    while i < v.len()
        invariant
            i <= v@.len(),
            out@ == v@.take(i as int),
        decreases v.len() - i,
    {
        out.push(v[i]);
        i = i + 1;
        assert(out@ =~= v@.take(i as int));
    }
    assert(v@.take(v@.len() as int) =~= v@);
    out
}

fn mirror_channel(c: &Channel, plane: MirrorPlane) -> (r: Channel)
    ensures
        r.key@ == c.key@,
        r.track@ == mirror_track(c.key@, c.track@, plane),
{
    let key = c.key.clone();
    let track = if ends_with(c.key.as_str(), TRANSLATION_PREFIX) {
        match &c.track {
            Track::Vec3F32(ts) => Track::Vec3F32(mirror_vec3_tweens(ts, plane)),
            Track::Vec3F64(ts) => Track::Vec3F64(mirror_vec3_tweens64(ts, plane)),
            t => copy_track(t),
        }
    } else if ends_with(c.key.as_str(), ROTATION_PREFIX) {
        match &c.track {
            Track::QuatF32(ts) => Track::QuatF32(mirror_quat_tweens(ts, plane)),
            Track::QuatF64(ts) => Track::QuatF64(mirror_quat_tweens64(ts, plane)),
            t => copy_track(t),
        }
    } else {
        copy_track(&c.track)
    };
    Channel { key, track }
}

impl Mirror {
    /// Mirror an animation along a plane (XY, YZ, XZ).
    pub fn along_plane(animation: &Sequencer, plane: MirrorPlane) -> (r: Sequencer)
        ensures
            r@ == mirror_channels(animation@, plane),
    {
        let mut out: Vec<Channel> = Vec::new();
        let mut i: usize = 0;
        while i < animation.channels.len()
            invariant
                i <= animation.channels@.len(),
                out@.len() == i,
                forall|j: int| 0 <= j < i ==> (#[trigger] out@[j]).key@ == animation.channels@[j].key@
                    && out@[j].track@ == mirror_track(animation.channels@[j].key@, animation.channels@[j].track@, plane),
            decreases animation.channels.len() - i,
        {
            let c = mirror_channel(&animation.channels[i], plane);
            out.push(c);
            i = i + 1;
        }
        let r = Sequencer { channels: out };
        assert(r@ =~= mirror_channels(animation@, plane));
        r
    }
}

proof fn lemma_neg_twice(b: F32Bits)
    ensures
        neg_spec(neg_spec(b)) == b,
{
    assert((b ^ 0x8000_0000u32) ^ 0x8000_0000u32 == b) by (bit_vector);
}

proof fn lemma_neg64_twice(b: u64)
    ensures
        neg64_spec(neg64_spec(b)) == b,
{
    assert((b ^ 0x8000_0000_0000_0000u64) ^ 0x8000_0000_0000_0000u64 == b) by (bit_vector);
}

proof fn lemma_track_twice(key: Seq<char>, track: TrackView, plane: MirrorPlane)
    ensures
        mirror_track(key, mirror_track(key, track, plane), plane) == track,
{
    if ends_with_spec(key, TRANSLATION_PREFIX@) {
        if let TrackView::Vec3F64(ts) = track {
            let once = ts.map_values(|t: Vec3Tween64| mirror_vec3_tween64(t, plane));
            let twice = once.map_values(|t: Vec3Tween64| mirror_vec3_tween64(t, plane));
            assert forall|i: int| 0 <= i < ts.len() implies #[trigger] twice[i] == ts[i] by {
                let t = ts[i];
                lemma_neg64_twice(t.start_value.x);
                lemma_neg64_twice(t.start_value.y);
                lemma_neg64_twice(t.start_value.z);
                lemma_neg64_twice(t.end_value.x);
                lemma_neg64_twice(t.end_value.y);
                lemma_neg64_twice(t.end_value.z);
            }
            assert(twice =~= ts);
        }
        if let TrackView::Vec3F32(ts) = track {
            let once = ts.map_values(|t: Vec3Tween| mirror_vec3_tween(t, plane));
            let twice = once.map_values(|t: Vec3Tween| mirror_vec3_tween(t, plane));
            assert forall|i: int| 0 <= i < ts.len() implies #[trigger] twice[i] == ts[i] by {
                let t = ts[i];
                lemma_neg_twice(t.start_value.x);
                lemma_neg_twice(t.start_value.y);
                lemma_neg_twice(t.start_value.z);
                lemma_neg_twice(t.end_value.x);
                lemma_neg_twice(t.end_value.y);
                lemma_neg_twice(t.end_value.z);
            }
            assert(twice =~= ts);
        }
    } else if ends_with_spec(key, ROTATION_PREFIX@) {
        if let TrackView::QuatF64(ts) = track {
            let once = ts.map_values(|t: QuatTween64| mirror_quat_tween64(t, plane));
            let twice = once.map_values(|t: QuatTween64| mirror_quat_tween64(t, plane));
            assert forall|i: int| 0 <= i < ts.len() implies #[trigger] twice[i] == ts[i] by {
                let t = ts[i];
                lemma_neg64_twice(t.start_value.x);
                lemma_neg64_twice(t.start_value.y);
                lemma_neg64_twice(t.start_value.z);
                lemma_neg64_twice(t.end_value.x);
                lemma_neg64_twice(t.end_value.y);
                lemma_neg64_twice(t.end_value.z);
            }
            assert(twice =~= ts);
        }
        if let TrackView::QuatF32(ts) = track {
            let once = ts.map_values(|t: QuatTween| mirror_quat_tween(t, plane));
            let twice = once.map_values(|t: QuatTween| mirror_quat_tween(t, plane));
            assert forall|i: int| 0 <= i < ts.len() implies #[trigger] twice[i] == ts[i] by {
                let t = ts[i];
                lemma_neg_twice(t.start_value.x);
                lemma_neg_twice(t.start_value.y);
                lemma_neg_twice(t.start_value.z);
                lemma_neg_twice(t.end_value.x);
                lemma_neg_twice(t.end_value.y);
                lemma_neg_twice(t.end_value.z);
            }
            assert(twice =~= ts);
        }
    }
}

/// Mirroring an animation twice along the same plane gives the animation
/// back: each mirrored component is negated twice, and no channel changes
/// its name or the type of value it animates.
pub proof fn lemma_mirror_twice(channels: Seq<(Seq<char>, TrackView)>, plane: MirrorPlane)
    ensures
        mirror_channels(mirror_channels(channels, plane), plane) == channels,
{
    let once = mirror_channels(channels, plane);
    let twice = mirror_channels(once, plane);
    assert forall|i: int| 0 <= i < channels.len() implies #[trigger] twice[i] == channels[i] by {
        lemma_track_twice(channels[i].0, channels[i].1, plane);
    }
    assert(twice =~= channels);
}

/// The axis normal to `plane`: 0 for x, 1 for y, 2 for z.
pub open spec fn plane_normal(plane: MirrorPlane) -> int {
    match plane {
        MirrorPlane::XY => 2,
        MirrorPlane::YZ => 0,
        MirrorPlane::XZ => 1,
    }
}

/// Component `k` (x, y, z) of a 32-bit vector.
pub open spec fn vec3_at(v: Vec3Bits, k: int) -> u32 {
    if k == 0 { v.x } else if k == 1 { v.y } else { v.z }
}

/// Component `k` (x, y, z) of a 64-bit vector.
pub open spec fn vec3_64_at(v: Vec3Bits64, k: int) -> u64 {
    if k == 0 { v.x } else if k == 1 { v.y } else { v.z }
}

/// Component `k` (x, y, z, w) of a 32-bit quaternion.
pub open spec fn quat_at(q: QuatBits, k: int) -> u32 {
    if k == 0 { q.x } else if k == 1 { q.y } else if k == 2 { q.z } else { q.w }
}

/// Component `k` (x, y, z, w) of a 64-bit quaternion.
pub open spec fn quat_64_at(q: QuatBits64, k: int) -> u64 {
    if k == 0 { q.x } else if k == 1 { q.y } else if k == 2 { q.z } else { q.w }
}

/// Whether `b` is `a` reflected in a plane with normal axis `n`, as a
/// translation: the normal component has its sign bit flipped, the other
/// two are kept.
pub open spec fn vec3_reflected(a: Vec3Bits, b: Vec3Bits, n: int) -> bool {
    forall|k: int| 0 <= k < 3 ==> #[trigger] vec3_at(b, k)
        == if k == n { vec3_at(a, k) ^ 0x8000_0000u32 } else { vec3_at(a, k) }
}

/// [`vec3_reflected`] for 64-bit components.
pub open spec fn vec3_64_reflected(a: Vec3Bits64, b: Vec3Bits64, n: int) -> bool {
    forall|k: int| 0 <= k < 3 ==> #[trigger] vec3_64_at(b, k)
        == if k == n { vec3_64_at(a, k) ^ 0x8000_0000_0000_0000u64 } else { vec3_64_at(a, k) }
}

/// Whether `b` is `a` reflected in a plane with normal axis `n`, as a
/// rotation: the two vector components lying in the plane have their sign
/// bits flipped; the one along the normal and `w` are kept.
pub open spec fn quat_reflected(a: QuatBits, b: QuatBits, n: int) -> bool {
    forall|k: int| 0 <= k < 4 ==> #[trigger] quat_at(b, k)
        == if k < 3 && k != n { quat_at(a, k) ^ 0x8000_0000u32 } else { quat_at(a, k) }
}

/// [`quat_reflected`] for 64-bit components.
pub open spec fn quat_64_reflected(a: QuatBits64, b: QuatBits64, n: int) -> bool {
    forall|k: int| 0 <= k < 4 ==> #[trigger] quat_64_at(b, k)
        == if k < 3 && k != n { quat_64_at(a, k) ^ 0x8000_0000_0000_0000u64 } else { quat_64_at(a, k) }
}

proof fn lemma_rotation_not_translation(key: Seq<char>)
    requires
        ends_with_spec(key, ROTATION_PREFIX@),
    ensures
        !ends_with_spec(key, TRANSLATION_PREFIX@),
{
    reveal_strlit(".rotation");
    reveal_strlit(".translation");
    if ends_with_spec(key, TRANSLATION_PREFIX@) {
        assert(key.skip(key.len() - 9)[0] == '.');
        assert(key.skip(key.len() - 12)[3] == 'a');
        assert(key[key.len() - 9] == '.');
        assert(key[key.len() - 9] == 'a');
    }
}

/// What mirroring does to every translation and rotation value, f32 and
/// f64 alike: in a translation channel, each tween's start and end
/// translation keeps the two components lying in the plane and has the
/// component along the plane's normal negated; in a rotation channel, each
/// tween's start and end rotation has the two vector components lying in
/// the plane negated and keeps the one along the normal and `w`. Timing is
/// kept and no tween is added or dropped; a channel of any other name is
/// kept as it is.
pub proof fn lemma_mirror_reflects_values(key: Seq<char>, track: TrackView, plane: MirrorPlane)
    ensures
        ends_with_spec(key, TRANSLATION_PREFIX@) ==> {
            &&& track matches TrackView::Vec3F32(ts) ==> (mirror_track(key, track, plane) matches TrackView::Vec3F32(ms)
                && ms.len() == ts.len() && forall|i: int| 0 <= i < ts.len() ==> {
                    &&& vec3_reflected(ts[i].start_value, #[trigger] ms[i].start_value, plane_normal(plane))
                    &&& vec3_reflected(ts[i].end_value, ms[i].end_value, plane_normal(plane))
                    &&& ms[i].timing == ts[i].timing
                })
            &&& track matches TrackView::Vec3F64(ts) ==> (mirror_track(key, track, plane) matches TrackView::Vec3F64(ms)
                && ms.len() == ts.len() && forall|i: int| 0 <= i < ts.len() ==> {
                    &&& vec3_64_reflected(ts[i].start_value, #[trigger] ms[i].start_value, plane_normal(plane))
                    &&& vec3_64_reflected(ts[i].end_value, ms[i].end_value, plane_normal(plane))
                    &&& ms[i].timing == ts[i].timing
                })
        },
        ends_with_spec(key, ROTATION_PREFIX@) ==> {
            &&& track matches TrackView::QuatF32(ts) ==> (mirror_track(key, track, plane) matches TrackView::QuatF32(ms)
                && ms.len() == ts.len() && forall|i: int| 0 <= i < ts.len() ==> {
                    &&& quat_reflected(ts[i].start_value, #[trigger] ms[i].start_value, plane_normal(plane))
                    &&& quat_reflected(ts[i].end_value, ms[i].end_value, plane_normal(plane))
                    &&& ms[i].timing == ts[i].timing
                })
            &&& track matches TrackView::QuatF64(ts) ==> (mirror_track(key, track, plane) matches TrackView::QuatF64(ms)
                && ms.len() == ts.len() && forall|i: int| 0 <= i < ts.len() ==> {
                    &&& quat_64_reflected(ts[i].start_value, #[trigger] ms[i].start_value, plane_normal(plane))
                    &&& quat_64_reflected(ts[i].end_value, ms[i].end_value, plane_normal(plane))
                    &&& ms[i].timing == ts[i].timing
                })
        },
        !ends_with_spec(key, TRANSLATION_PREFIX@) && !ends_with_spec(key, ROTATION_PREFIX@)
            ==> mirror_track(key, track, plane) == track,
{
    if ends_with_spec(key, ROTATION_PREFIX@) {
        lemma_rotation_not_translation(key);
    }
}

} // verus!
