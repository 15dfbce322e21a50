//! Poses: the transforms (and morph-target weights) of a set of nodes,
//! saved by channel name so that they can be compared or set back.
//!
//! Values are `f32` bit patterns: the scene stores `f32`s, and the widening
//! to `f64` and narrowing back that a pose goes through is exact.

use vstd::prelude::*;
use vstd::hash_map::StringHashMap;
use crate::f32_bits::F32Bits;
use crate::mirror::{QuatBits, Vec3Bits, ROTATION_PREFIX, SCALE_PREFIX, TRANSLATION_PREFIX};
use crate::transition::channel_key;

verus! {

/// Channel-name suffix of a node's morph-target weights.
pub const MORPH_TARGET_PREFIX: &'static str = ".weights";

/// Skeletal animation property variants.
#[derive(Clone, Debug)]
pub enum AnimationProperty {
    /// Translation property.
    Translation(Vec3Bits),
    /// Rotation property.
    Rotation(QuatBits),
    /// Scale property.
    Scale(Vec3Bits),
    /// Morph-target weights property.
    Weights(Vec<F32Bits>),
}

/// What an [`AnimationProperty`] holds.
pub enum PropertyView {
    Translation(Vec3Bits),
    Rotation(QuatBits),
    Scale(Vec3Bits),
    Weights(Seq<F32Bits>),
}

impl View for AnimationProperty {
    type V = PropertyView;

    open spec fn view(&self) -> PropertyView {
        match self {
            AnimationProperty::Translation(v) => PropertyView::Translation(*v),
            AnimationProperty::Rotation(q) => PropertyView::Rotation(*q),
            AnimationProperty::Scale(v) => PropertyView::Scale(*v),
            AnimationProperty::Weights(w) => PropertyView::Weights(w@),
        }
    }
}

/// The state of one scene node that a pose saves.
#[derive(Clone, Debug)]
pub struct NodeState {
    /// The node's name; a node without one is not part of a pose.
    pub name: Option<String>,
    pub translation: Vec3Bits,
    pub rotation: QuatBits,
    pub scale: Vec3Bits,
    /// The morph-target weights of the node's mesh, when its skeleton has
    /// morph targets.
    pub morph_weights: Option<Vec<F32Bits>>,
}

/// What a [`NodeState`] holds.
pub struct NodeStateView {
    pub name: Option<Seq<char>>,
    pub translation: Vec3Bits,
    pub rotation: QuatBits,
    pub scale: Vec3Bits,
    pub morph_weights: Option<Seq<F32Bits>>,
}

impl View for NodeState {
    type V = NodeStateView;

    open spec fn view(&self) -> NodeStateView {
        NodeStateView {
            name: match &self.name {
                Some(n) => Some(n@),
                None => None,
            },
            translation: self.translation,
            rotation: self.rotation,
            scale: self.scale,
            morph_weights: match &self.morph_weights {
                Some(w) => Some(w@),
                None => None,
            },
        }
    }
}

/// `m` with the properties of node `n` saved under its channel names: its
/// translation, rotation and scale, then its weights if it has any; a node
/// without a name adds nothing.
pub open spec fn with_node(m: Map<Seq<char>, PropertyView>, n: NodeStateView) -> Map<Seq<char>, PropertyView> {
    match n.name {
        None => m,
        Some(name) => {
            let t = m.insert(name + TRANSLATION_PREFIX@, PropertyView::Translation(n.translation))
                .insert(name + ROTATION_PREFIX@, PropertyView::Rotation(n.rotation))
                .insert(name + SCALE_PREFIX@, PropertyView::Scale(n.scale));
            match n.morph_weights {
                Some(w) => t.insert(name + MORPH_TARGET_PREFIX@, PropertyView::Weights(w)),
                None => t,
            }
        },
    }
}

/// The properties a pose of `nodes` saves; where two nodes share a channel
/// name, the later node's property stands.
pub open spec fn pose_of(nodes: Seq<NodeStateView>) -> Map<Seq<char>, PropertyView>
    decreases nodes.len(),
{
    if nodes.len() == 0 {
        Map::empty()
    } else {
        with_node(pose_of(nodes.drop_last()), nodes.last())
    }
}

/// The saved transforms of a set of nodes, by channel name.
pub struct Pose {
    animatables: StringHashMap<AnimationProperty>,
}

impl View for Pose {
    type V = Map<Seq<char>, PropertyView>;

    closed spec fn view(&self) -> Map<Seq<char>, PropertyView> {
        self.animatables@.map_values(|p: AnimationProperty| p@)
    }
}

fn vec_copy(w: &Vec<F32Bits>) -> (r: Vec<F32Bits>)
    ensures
        r@ == w@,
{
    let mut out: Vec<F32Bits> = Vec::new();
    let mut i: usize = 0;
    while i < w.len()
        invariant
            i <= w@.len(),
            out@ == w@.take(i as int),
        decreases w.len() - i,
    {
        out.push(w[i]);
        i = i + 1;
        assert(out@ =~= w@.take(i as int));
    }
    assert(w@.take(w@.len() as int) =~= w@);
    out
}

impl Pose {
    /// The pose of `nodes`: for every node with a name, its translation,
    /// rotation and scale, and the weights of its morph targets if it has
    /// any, each under the node's name followed by the channel's suffix.
    pub fn new(nodes: &[NodeState]) -> (r: Self)
        ensures
            r@ == pose_of(nodes@.map_values(|n: NodeState| n@)),
    {
        let ghost views = nodes@.map_values(|n: NodeState| n@);
        let mut m: StringHashMap<AnimationProperty> = StringHashMap::new();
        let mut i: usize = 0;
        assert(m@.map_values(|p: AnimationProperty| p@) =~= pose_of(views.take(0)));
        while i < nodes.len()
            invariant
                i <= nodes@.len(),
                views == nodes@.map_values(|n: NodeState| n@),
                m@.map_values(|p: AnimationProperty| p@) == pose_of(views.take(i as int)),
            decreases nodes.len() - i,
        {
            let n = &nodes[i];
            let ghost before = m@;
            assert(views.take(i + 1).drop_last() =~= views.take(i as int));
            assert(views.take(i + 1).last() == n@);
            match &n.name {
                None => {},
                Some(name) => {
                    let name = name.as_str();
                    m.insert(channel_key(name, TRANSLATION_PREFIX), AnimationProperty::Translation(n.translation));
                    m.insert(channel_key(name, ROTATION_PREFIX), AnimationProperty::Rotation(n.rotation));
                    m.insert(channel_key(name, SCALE_PREFIX), AnimationProperty::Scale(n.scale));
                    match &n.morph_weights {
                        Some(w) => {
                            m.insert(channel_key(name, MORPH_TARGET_PREFIX), AnimationProperty::Weights(vec_copy(w)));
                        },
                        None => {},
                    }
                },
            }
            assert(m@.map_values(|p: AnimationProperty| p@) =~= with_node(
                before.map_values(|p: AnimationProperty| p@),
                n@,
            ));
            i = i + 1;
        }
        assert(views.take(nodes@.len() as int) =~= views);
        Pose { animatables: m }
    }

    /// The property saved under `key`.
    pub fn state_get(&self, key: &str) -> (r: Option<&AnimationProperty>)
        ensures
            match r {
                Some(p) => self@.contains_key(key@) && p@ == self@[key@],
                None => !self@.contains_key(key@),
            },
    {
        self.animatables.get(key)
    }

    /// What setting this pose does to the node called `name`.
    pub fn targets_of(&self, name: &str) -> (r: PoseTargets)
        ensures
            r.translation == (match self@.get(name@ + TRANSLATION_PREFIX@) {
                Some(PropertyView::Translation(v)) => Some(v),
                _ => None,
            }),
            r.rotation == (match self@.get(name@ + ROTATION_PREFIX@) {
                Some(PropertyView::Rotation(q)) => Some(q),
                _ => None,
            }),
            r.scale == (match self@.get(name@ + SCALE_PREFIX@) {
                Some(PropertyView::Scale(v)) => Some(v),
                _ => None,
            }),
            match (r.weights, self@.get(name@ + MORPH_TARGET_PREFIX@)) {
                (Some(w), Some(PropertyView::Weights(s))) => w@ == s,
                (None, Some(PropertyView::Weights(_))) => false,
                (Some(_), _) => false,
                _ => true,
            },
    {
        let translation = match self.animatables.get(channel_key(name, TRANSLATION_PREFIX).as_str()) {
            Some(AnimationProperty::Translation(v)) => Some(*v),
            _ => None,
        };
        let rotation = match self.animatables.get(channel_key(name, ROTATION_PREFIX).as_str()) {
            Some(AnimationProperty::Rotation(q)) => Some(*q),
            _ => None,
        };
        let scale = match self.animatables.get(channel_key(name, SCALE_PREFIX).as_str()) {
            Some(AnimationProperty::Scale(v)) => Some(*v),
            _ => None,
        };
        let weights = match self.animatables.get(channel_key(name, MORPH_TARGET_PREFIX).as_str()) {
            Some(AnimationProperty::Weights(w)) => Some(vec_copy(w)),
            _ => None,
        };
        PoseTargets { translation, rotation, scale, weights }
    }
}

/// The transforms and weights a pose sets on one node; `None` leaves that
/// part of the node as it is.
#[derive(Clone, Debug)]
pub struct PoseTargets {
    pub translation: Option<Vec3Bits>,
    pub rotation: Option<QuatBits>,
    pub scale: Option<Vec3Bits>,
    pub weights: Option<Vec<F32Bits>>,
}

/// `current` with its first entries overwritten by `weights`, as far as both
/// reach; its length is kept.
pub open spec fn weights_overwritten(current: Seq<F32Bits>, weights: Seq<F32Bits>) -> Seq<F32Bits> {
    Seq::new(current.len(), |i: int| if i < weights.len() { weights[i] } else { current[i] })
}

/// Copies saved morph-target weights onto a mesh's weights, as far as both
/// lists reach.
pub fn weights_apply(current: &mut Vec<F32Bits>, weights: &[F32Bits])
    ensures
        final(current)@ == weights_overwritten(old(current)@, weights@),
{
    let n = if weights.len() < current.len() { weights.len() } else { current.len() };
    let mut i: usize = 0;
    while i < n
        invariant
            n <= weights@.len(),
            n <= old(current)@.len(),
            n == weights@.len() || n == old(current)@.len(),
            i <= n,
            current@.len() == old(current)@.len(),
            forall|k: int| 0 <= k < i ==> current@[k] == weights@[k],
            forall|k: int| i <= k < current@.len() ==> current@[k] == old(current)@[k],
        decreases n - i,
    {
        current.set(i, weights[i]);
        i = i + 1;
    }
    assert(current@ =~= weights_overwritten(old(current)@, weights@));
}

/// Whether `s` is the suffix of one of the four channels a pose saves.
pub open spec fn is_pose_suffix(s: Seq<char>) -> bool {
    s == TRANSLATION_PREFIX@ || s == ROTATION_PREFIX@ || s == SCALE_PREFIX@ || s == MORPH_TARGET_PREFIX@
}

proof fn lemma_suffix_chars()
    ensures
        TRANSLATION_PREFIX@.len() == 12 && TRANSLATION_PREFIX@[11] == 'n' && TRANSLATION_PREFIX@[6] == 'l',
        ROTATION_PREFIX@.len() == 9 && ROTATION_PREFIX@[8] == 'n' && ROTATION_PREFIX@[3] == 't',
        SCALE_PREFIX@.len() == 6 && SCALE_PREFIX@[5] == 'e',
        MORPH_TARGET_PREFIX@.len() == 8 && MORPH_TARGET_PREFIX@[7] == 's',
{
    reveal_strlit(".translation");
    reveal_strlit(".rotation");
    reveal_strlit(".scale");
    reveal_strlit(".weights");
}

/// Channel names of different nodes, or of different channels, differ.
proof fn lemma_keys_differ(a: Seq<char>, b: Seq<char>, x: Seq<char>, y: Seq<char>)
    requires
        is_pose_suffix(x),
        is_pose_suffix(y),
        a != b || x != y,
    ensures
        a + x != b + y,
{
    lemma_suffix_chars();
    if a + x == b + y {
        let k = a + x;
        assert(x.len() >= 6 && y.len() >= 6);
        if x == y {
            assert((a + x).len() == a.len() + x.len());
            assert((b + y).len() == b.len() + y.len());
            assert(a.len() == b.len());
            assert(k.subrange(0, a.len() as int) =~= a);
            assert(k.subrange(0, b.len() as int) =~= b);
        } else {
            assert(k[k.len() - 1] == x[x.len() - 1]);
            assert(k[k.len() - 1] == y[y.len() - 1]);
            assert(k[k.len() - 6] == x[x.len() - 6]);
            assert(k[k.len() - 6] == y[y.len() - 6]);
            if x == TRANSLATION_PREFIX@ {
                assert(x[x.len() - 6] == 'l');
            } else if x == ROTATION_PREFIX@ {
                assert(x[x.len() - 6] == 't');
            }
            if y == TRANSLATION_PREFIX@ {
                assert(y[y.len() - 6] == 'l');
            } else if y == ROTATION_PREFIX@ {
                assert(y[y.len() - 6] == 't');
            }
        }
    }
}

/// The four channel suffixes are distinct.
proof fn lemma_suffixes_distinct()
    ensures
        TRANSLATION_PREFIX@ != ROTATION_PREFIX@,
        TRANSLATION_PREFIX@ != SCALE_PREFIX@,
        TRANSLATION_PREFIX@ != MORPH_TARGET_PREFIX@,
        ROTATION_PREFIX@ != SCALE_PREFIX@,
        ROTATION_PREFIX@ != MORPH_TARGET_PREFIX@,
        SCALE_PREFIX@ != MORPH_TARGET_PREFIX@,
{
    lemma_suffix_chars();
}

/// Whether node `i` of `nodes` is named `name` and no later node is.
pub open spec fn last_named(nodes: Seq<NodeStateView>, i: int, name: Seq<char>) -> bool {
    &&& 0 <= i < nodes.len()
    &&& nodes[i].name == Some(name)
    &&& forall|j: int| i < j < nodes.len() ==> nodes[j].name != Some(name)
}

/// A pose gives back each node's own transforms under the node's channel
/// names, and its weights when it has any: the values of the last node of
/// that name.
pub proof fn lemma_pose_reads_back(nodes: Seq<NodeStateView>, i: int, name: Seq<char>)
    requires
        last_named(nodes, i, name),
    ensures
        pose_of(nodes).get(name + TRANSLATION_PREFIX@) == Some(PropertyView::Translation(nodes[i].translation)),
        pose_of(nodes).get(name + ROTATION_PREFIX@) == Some(PropertyView::Rotation(nodes[i].rotation)),
        pose_of(nodes).get(name + SCALE_PREFIX@) == Some(PropertyView::Scale(nodes[i].scale)),
        match nodes[i].morph_weights {
            Some(w) => pose_of(nodes).get(name + MORPH_TARGET_PREFIX@) == Some(PropertyView::Weights(w)),
            None => true,
        },
    decreases nodes.len(),
{
    let prev = nodes.drop_last();
    let last = nodes.last();
    if i == nodes.len() - 1 {
        lemma_suffixes_distinct();
        lemma_keys_differ(name, name, TRANSLATION_PREFIX@, ROTATION_PREFIX@);
        lemma_keys_differ(name, name, TRANSLATION_PREFIX@, SCALE_PREFIX@);
        lemma_keys_differ(name, name, ROTATION_PREFIX@, SCALE_PREFIX@);
        lemma_keys_differ(name, name, TRANSLATION_PREFIX@, MORPH_TARGET_PREFIX@);
        lemma_keys_differ(name, name, ROTATION_PREFIX@, MORPH_TARGET_PREFIX@);
        lemma_keys_differ(name, name, SCALE_PREFIX@, MORPH_TARGET_PREFIX@);
    } else {
        assert(last_named(prev, i, name));
        lemma_pose_reads_back(prev, i, name);
        match last.name {
            None => {},
            Some(other) => {
                assert(other != name);
                let sufs = seq![TRANSLATION_PREFIX@, ROTATION_PREFIX@, SCALE_PREFIX@, MORPH_TARGET_PREFIX@];
                assert forall|p: int, q: int| 0 <= p < 4 && 0 <= q < 4 implies
                    #[trigger] (name + sufs[p]) != #[trigger] (other + sufs[q]) by {
                    lemma_keys_differ(name, other, sufs[p], sufs[q]);
                }
                assert(name + TRANSLATION_PREFIX@ == name + sufs[0]);
                assert(name + ROTATION_PREFIX@ == name + sufs[1]);
                assert(name + SCALE_PREFIX@ == name + sufs[2]);
                assert(name + MORPH_TARGET_PREFIX@ == name + sufs[3]);
                assert(other + TRANSLATION_PREFIX@ == other + sufs[0]);
                assert(other + ROTATION_PREFIX@ == other + sufs[1]);
                assert(other + SCALE_PREFIX@ == other + sufs[2]);
                assert(other + MORPH_TARGET_PREFIX@ == other + sufs[3]);
            },
        }
    }
}

} // verus!
