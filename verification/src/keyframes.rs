//! How a glTF animation sampler's keyframes become tweens.
//!
//! A sampler holds `n` key times and a flat list of output items. Under
//! cubic-spline interpolation every key owns three items (in-tangent, value,
//! out-tangent), otherwise one. Keys are read in order, paired with their
//! item chunk; a key whose chunk is incomplete is skipped. Each kept key
//! ends one tween that starts at the previously kept key (the first tween
//! starts and ends at the first key). This module computes, for every
//! tween, which key times and which output items it is built from; the
//! arithmetic on the values themselves is done by the caller.

use vstd::prelude::*;

verus! {

/// A glTF sampler's interpolation mode.
#[derive(Clone, Copy, PartialEq, Eq, Structural, Debug)]
pub enum Interpolation {
    Linear,
    Step,
    CubicSpline,
}

/// Output items per key.
pub open spec fn components_spec(i: Interpolation) -> nat {
    if i == Interpolation::CubicSpline { 3 } else { 1 }
}

/// Output items per key under `interpolation`.
pub fn components(interpolation: Interpolation) -> (r: usize)
    ensures
        r == components_spec(interpolation),
{
    if interpolation == Interpolation::CubicSpline { 3 } else { 1 }
}

/// The indices one tween is built from: key times `time_from` and `time_to`,
/// output values `value_from` and `value_to`, and, under cubic-spline
/// interpolation, the in- and out-tangent items of its end key.
#[derive(Clone, Copy, PartialEq, Eq, Structural, Debug)]
pub struct KeyframeSegment {
    pub time_from: usize,
    pub time_to: usize,
    pub value_from: usize,
    pub value_to: usize,
    pub in_tangent: Option<usize>,
    pub out_tangent: Option<usize>,
}

/// How many tweens a sampler yields: one per key whose item chunk is complete.
pub open spec fn segment_count(n_times: nat, n_items: nat, interpolation: Interpolation) -> nat {
    let k = n_items / components_spec(interpolation);
    if n_times < k { n_times } else { k }
}

/// The item holding key `j`'s value.
pub open spec fn value_item(j: nat, interpolation: Interpolation) -> nat {
    if interpolation == Interpolation::CubicSpline { j * 3 + 1 } else { j }
}

/// Tween `j` of a sampler.
pub open spec fn segment_spec(j: nat, interpolation: Interpolation) -> KeyframeSegment {
    let from: nat = if j == 0 { 0 } else { (j - 1) as nat };
    KeyframeSegment {
        time_from: from as usize,
        time_to: j as usize,
        value_from: value_item(from, interpolation) as usize,
        value_to: value_item(j, interpolation) as usize,
        in_tangent: if interpolation == Interpolation::CubicSpline { Some((j * 3) as usize) } else { None },
        out_tangent: if interpolation == Interpolation::CubicSpline { Some((j * 3 + 2) as usize) } else { None },
    }
}

/// The tweens of a sampler with `n_times` key times and `n_items` output
/// items, in key order.
pub fn keyframe_segments(n_times: usize, n_items: usize, interpolation: Interpolation) -> (r: Vec<KeyframeSegment>)
    ensures
        r@.len() == segment_count(n_times as nat, n_items as nat, interpolation),
        forall|j: int| 0 <= j < r@.len() ==> #[trigger] r@[j] == segment_spec(j as nat, interpolation),
{
    let c = components(interpolation);
    let cubic = interpolation == Interpolation::CubicSpline;
    let mut out: Vec<KeyframeSegment> = Vec::new();
    let mut last: Option<(usize, usize)> = None;
    let mut i: usize = 0;
    let mut start: usize = 0;
    while i < n_times && start < n_items
        invariant
            c == components_spec(interpolation),
            cubic == (interpolation == Interpolation::CubicSpline),
            start == i * c,
            i <= n_times,
            out@.len() == i,
            i <= n_items / c,
            forall|j: int| 0 <= j < i ==> #[trigger] out@[j] == segment_spec(j as nat, interpolation),
            i == 0 ==> last is None,
            i > 0 ==> last == Some(((i - 1) as usize, value_item((i - 1) as nat, interpolation) as usize)),
        ensures
            out@.len() == segment_count(n_times as nat, n_items as nat, interpolation),
            forall|j: int| 0 <= j < out@.len() ==> #[trigger] out@[j] == segment_spec(j as nat, interpolation),
        decreases n_times - i,
    {
        let remaining = n_items - start;
        if remaining < c {
            // An incomplete chunk can only be the last one.
            assert(i == n_items / c) by (nonlinear_arith)
                requires start == i * c, remaining == n_items - start, remaining < c, c >= 1, start < n_items, i <= n_items / c;
            break;
        }
        let value_to: usize = if cubic { start + 1 } else { start };
        let in_tangent = if cubic { Some(start) } else { None };
        let out_tangent = if cubic { Some(start + 2) } else { None };
        let (time_from, value_from) = match last {
            Some((t, v)) => (t, v),
            None => (i, value_to),
        };
        out.push(KeyframeSegment { time_from, time_to: i, value_from, value_to, in_tangent, out_tangent });
        last = Some((i, value_to));
        proof {
            assert((i + 1) * c <= n_items) by (nonlinear_arith)
                requires start == i * c, n_items - start >= c;
            assert(i + 1 <= n_items / c) by (nonlinear_arith)
                requires (i + 1) * c <= n_items, c >= 1;
        }
        i = i + 1;
        start = start + c;
        proof {
            if !(i < n_times && start < n_items) && i < n_times {
                assert(i >= n_items / c) by (nonlinear_arith)
                    requires start == i * c, start >= n_items, c >= 1;
            }
        }
    }
    out
}

/// The tweens of a sampler read only what it holds and chain up: every key
/// time and output item a tween reads exists, and each tween after the
/// first starts at the key and value where the one before it ends.
pub proof fn lemma_segments_chain(n_times: usize, n_items: usize, interpolation: Interpolation, j: nat)
    requires
        j < segment_count(n_times as nat, n_items as nat, interpolation),
    ensures
        segment_spec(j, interpolation).time_to < n_times,
        segment_spec(j, interpolation).time_from <= segment_spec(j, interpolation).time_to,
        segment_spec(j, interpolation).value_to < n_items,
        segment_spec(j, interpolation).in_tangent matches Some(t) ==> t < n_items,
        segment_spec(j, interpolation).out_tangent matches Some(t) ==> t < n_items,
        j > 0 ==> segment_spec(j, interpolation).time_from == segment_spec((j - 1) as nat, interpolation).time_to
            && segment_spec(j, interpolation).value_from == segment_spec((j - 1) as nat, interpolation).value_to,
        j == 0 ==> segment_spec(j, interpolation).value_from == segment_spec(j, interpolation).value_to,
{
    let c = components_spec(interpolation);
    let items = n_items as nat;
    assert(j < items / c);
    assert((j + 1) * c <= items) by (nonlinear_arith)
        requires j < items / c, c >= 1;
}

} // verus!
