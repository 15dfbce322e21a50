//! Which nodes a scaled animation drives with their group's weights.
//!
//! A scaler plays one animation over groups of nodes, each group with its
//! own weights for translation, rotation and scale. Every animated node
//! named in a group is set with that group's weights, once per group that
//! names it; every other animated node is set from the animation as it is.
//! The weighted arithmetic is the caller's; this module decides the steps.

use vstd::prelude::*;
use crate::text::str_eq;

verus! {

/// One step of setting a scaled animation.
#[derive(Clone, Copy, PartialEq, Eq, Structural, Debug)]
pub enum ScaleStep {
    /// Set node `node` with the weights of group `group`.
    Scaled { node: usize, group: usize },
    /// Set node `node` from the animation, unweighted.
    Unscaled { node: usize },
}

/// The characters of each name.
pub open spec fn names_of(names: Seq<String>) -> Seq<Seq<char>> {
    names.map_values(|s: String| s@)
}

/// The names of each group.
pub open spec fn groups_of(groups: Seq<Vec<String>>) -> Seq<Seq<Seq<char>>> {
    groups.map_values(|g: Vec<String>| names_of(g@))
}

/// Whether `i` is the first index of `names` holding `name`.
pub open spec fn first_index(names: Seq<Seq<char>>, name: Seq<char>, i: int) -> bool {
    &&& 0 <= i < names.len()
    &&& names[i] == name
    &&& forall|j: int| 0 <= j < i ==> names[j] != name
}

/// The steps of group `g`, whose member names are `members`: one scaled
/// step for each member that is an animated node, in member order.
pub open spec fn member_steps(members: Seq<Seq<char>>, g: int, nodes: Seq<Seq<char>>) -> Seq<ScaleStep>
    decreases members.len(),
{
    if members.len() == 0 {
        Seq::empty()
    } else {
        let before = member_steps(members.drop_last(), g, nodes);
        let name = members.last();
        if exists|i: int| first_index(nodes, name, i) {
            let i = choose|i: int| first_index(nodes, name, i);
            before.push(ScaleStep::Scaled { node: i as usize, group: g as usize })
        } else {
            before
        }
    }
}

/// The scaled steps of every group, group by group.
pub open spec fn group_steps(groups: Seq<Seq<Seq<char>>>, nodes: Seq<Seq<char>>) -> Seq<ScaleStep>
    decreases groups.len(),
{
    if groups.len() == 0 {
        Seq::empty()
    } else {
        group_steps(groups.drop_last(), nodes) + member_steps(groups.last(), groups.len() - 1, nodes)
    }
}

/// Whether some group names `name`.
pub open spec fn grouped(groups: Seq<Seq<Seq<char>>>, name: Seq<char>) -> bool {
    exists|g: int, k: int| 0 <= g < groups.len() && 0 <= k < groups[g].len() && groups[g][k] == name
}

/// One unscaled step for each animated node no group names, in node order.
pub open spec fn unscaled_steps(groups: Seq<Seq<Seq<char>>>, nodes: Seq<Seq<char>>, n: int) -> Seq<ScaleStep>
    decreases n,
{
    if n <= 0 {
        Seq::empty()
    } else {
        let before = unscaled_steps(groups, nodes, n - 1);
        if grouped(groups, nodes[n - 1]) {
            before
        } else {
            before.push(ScaleStep::Unscaled { node: (n - 1) as usize })
        }
    }
}

/// All the steps of setting a scaled animation.
pub open spec fn scaler_plan_spec(groups: Seq<Seq<Seq<char>>>, nodes: Seq<Seq<char>>) -> Seq<ScaleStep> {
    group_steps(groups, nodes) + unscaled_steps(groups, nodes, nodes.len() as int)
}

proof fn lemma_first_index_unique(names: Seq<Seq<char>>, name: Seq<char>, i: int, j: int)
    requires
        first_index(names, name, i),
        first_index(names, name, j),
    ensures
        i == j,
{
}

/// The index of the first node named `name`.
fn node_index(nodes: &[String], name: &String) -> (r: Option<usize>)
    ensures
        match r {
            Some(i) => first_index(names_of(nodes@), name@, i as int),
            None => !exists|i: int| first_index(names_of(nodes@), name@, i),
        },
{
    let ghost ns = names_of(nodes@);
    let mut i: usize = 0;
    while i < nodes.len()
        invariant
            i <= nodes@.len(),
            ns == names_of(nodes@),
            forall|j: int| 0 <= j < i ==> ns[j] != name@,
        decreases nodes.len() - i,
    {
        if str_eq(nodes[i].as_str(), name.as_str()) {
            assert(first_index(ns, name@, i as int));
            return Some(i);
        }
        i = i + 1;
    }
    None
}

/// Whether some group names `name`.
fn is_grouped(groups: &[Vec<String>], name: &String) -> (r: bool)
    ensures
        r == grouped(groups_of(groups@), name@),
{
    let ghost gs = groups_of(groups@);
    let mut g: usize = 0;
    while g < groups.len()
        invariant
            g <= groups@.len(),
            gs == groups_of(groups@),
            forall|a: int, k: int| 0 <= a < g && 0 <= k < gs[a].len() ==> gs[a][k] != name@,
        decreases groups.len() - g,
    {
        let members = &groups[g];
        assert(gs[g as int] == names_of(members@));
        let mut k: usize = 0;
        while k < members.len()
            invariant
                k <= members@.len(),
                g < groups@.len(),
                gs == groups_of(groups@),
                gs[g as int] == names_of(members@),
                forall|a: int, b: int| 0 <= a < g && 0 <= b < gs[a].len() ==> gs[a][b] != name@,
                forall|b: int| 0 <= b < k ==> gs[g as int][b] != name@,
            decreases members.len() - k,
        {
            if str_eq(members[k].as_str(), name.as_str()) {
                assert(gs[g as int][k as int] == name@);
                return true;
            }
            k = k + 1;
        }
        g = g + 1;
    }
    false
}

/// The steps of setting a scaled animation whose groups name the nodes
/// `groups` (one list of names per group) over the animated nodes `nodes`:
/// for each group in turn, a scaled step for each of its names that is an
/// animated node; then an unscaled step for each animated node no group
/// names.
pub fn scaler_plan(groups: &[Vec<String>], nodes: &[String]) -> (r: Vec<ScaleStep>)
    ensures
        r@ == scaler_plan_spec(groups_of(groups@), names_of(nodes@)),
{
    let ghost gs = groups_of(groups@);
    let ghost ns = names_of(nodes@);
    let mut out: Vec<ScaleStep> = Vec::new();
    let mut g: usize = 0;
    while g < groups.len()
        invariant
            g <= groups@.len(),
            gs == groups_of(groups@),
            ns == names_of(nodes@),
            out@ == group_steps(gs.take(g as int), ns),
        decreases groups.len() - g,
    {
        let members = &groups[g];
        let ghost ms = names_of(members@);
        assert(gs[g as int] == ms);
        let mut k: usize = 0;
        assert(ms.take(0) =~= Seq::<Seq<char>>::empty());
        while k < members.len()
            invariant
                k <= members@.len(),
                g < groups@.len(),
                gs == groups_of(groups@),
                ns == names_of(nodes@),
                ms == names_of(members@),
                out@ == group_steps(gs.take(g as int), ns) + member_steps(ms.take(k as int), g as int, ns),
            decreases members.len() - k,
        {
            let ghost before = out@;
            assert(ms.take(k + 1).drop_last() =~= ms.take(k as int));
            assert(ms.take(k + 1).last() == members@[k as int]@);
            match node_index(nodes, &members[k]) {
                Some(i) => {
                    proof {
                        let w = choose|w: int| first_index(ns, members@[k as int]@, w);
                        lemma_first_index_unique(ns, members@[k as int]@, i as int, w);
                    }
                    out.push(ScaleStep::Scaled { node: i, group: g });
                    assert(out@ =~= group_steps(gs.take(g as int), ns) + member_steps(ms.take(k + 1), g as int, ns));
                },
                None => {},
            }
            k = k + 1;
        }
        assert(ms.take(members@.len() as int) =~= ms);
        assert(gs.take(g + 1).drop_last() =~= gs.take(g as int));
        assert(gs.take(g + 1).last() == ms);
        assert(out@ =~= group_steps(gs.take(g + 1), ns));
        g = g + 1;
    }
    assert(gs.take(groups@.len() as int) =~= gs);
    let ghost scaled = out@;
    let mut i: usize = 0;
    while i < nodes.len()
        invariant
            i <= nodes@.len(),
            gs == groups_of(groups@),
            ns == names_of(nodes@),
            scaled == group_steps(gs, ns),
            out@ == scaled + unscaled_steps(gs, ns, i as int),
        decreases nodes.len() - i,
    {
        assert(ns[i as int] == nodes@[i as int]@);
        if !is_grouped(groups, &nodes[i]) {
            out.push(ScaleStep::Unscaled { node: i });
        }
        i = i + 1;
        assert(out@ =~= scaled + unscaled_steps(gs, ns, i as int));
    }
    out
}

proof fn lemma_unscaled_contains(groups: Seq<Seq<Seq<char>>>, nodes: Seq<Seq<char>>, n: int, i: int)
    requires
        0 <= i <= usize::MAX,
        n <= nodes.len(),
        nodes.len() <= usize::MAX,
    ensures
        unscaled_steps(groups, nodes, n).contains(ScaleStep::Unscaled { node: i as usize })
            <==> (i < n && !grouped(groups, nodes[i])),
    decreases n,
{
    if n > 0 {
        lemma_unscaled_contains(groups, nodes, n - 1, i);
        let before = unscaled_steps(groups, nodes, n - 1);
        let step = ScaleStep::Unscaled { node: (n - 1) as usize };
        if !grouped(groups, nodes[n - 1]) {
            let after = before.push(step);
            if after.contains(ScaleStep::Unscaled { node: i as usize }) {
                let k = choose|k: int| 0 <= k < after.len() && after[k] == ScaleStep::Unscaled { node: i as usize };
                if k < before.len() {
                    assert(before[k] == after[k]);
                }
            }
            if i < n && !grouped(groups, nodes[i]) {
                if i == n - 1 {
                    assert(after[after.len() - 1] == step);
                } else {
                    let k = choose|k: int| 0 <= k < before.len() && before[k] == ScaleStep::Unscaled { node: i as usize };
                    assert(after[k] == before[k]);
                }
            }
        }
    }
}

proof fn lemma_member_scaled(members: Seq<Seq<char>>, g: int, nodes: Seq<Seq<char>>, k: int, i: int)
    requires
        0 <= k < members.len(),
        first_index(nodes, members[k], i),
    ensures
        member_steps(members, g, nodes).contains(ScaleStep::Scaled { node: i as usize, group: g as usize }),
    decreases members.len(),
{
    let before = member_steps(members.drop_last(), g, nodes);
    let step = ScaleStep::Scaled { node: i as usize, group: g as usize };
    if k == members.len() - 1 {
        let w = choose|w: int| first_index(nodes, members.last(), w);
        lemma_first_index_unique(nodes, members.last(), i, w);
        let after = before.push(ScaleStep::Scaled { node: w as usize, group: g as usize });
        assert(after[after.len() - 1] == step);
    } else {
        assert(members.drop_last()[k] == members[k]);
        lemma_member_scaled(members.drop_last(), g, nodes, k, i);
        let c = choose|c: int| 0 <= c < before.len() && before[c] == step;
        let after = member_steps(members, g, nodes);
        assert(after[c] == before[c]);
    }
}

proof fn lemma_group_scaled(groups: Seq<Seq<Seq<char>>>, nodes: Seq<Seq<char>>, g: int, k: int, i: int)
    requires
        0 <= g < groups.len(),
        0 <= k < groups[g].len(),
        first_index(nodes, groups[g][k], i),
    ensures
        group_steps(groups, nodes).contains(ScaleStep::Scaled { node: i as usize, group: g as usize }),
    decreases groups.len(),
{
    let step = ScaleStep::Scaled { node: i as usize, group: g as usize };
    let front = group_steps(groups.drop_last(), nodes);
    let back = member_steps(groups.last(), groups.len() - 1, nodes);
    let all = group_steps(groups, nodes);
    if g == groups.len() - 1 {
        lemma_member_scaled(groups.last(), g, nodes, k, i);
        let c = choose|c: int| 0 <= c < back.len() && back[c] == step;
        assert(all[front.len() + c] == back[c]);
    } else {
        assert(groups.drop_last()[g] == groups[g]);
        lemma_group_scaled(groups.drop_last(), nodes, g, k, i);
        let c = choose|c: int| 0 <= c < front.len() && front[c] == step;
        assert(all[c] == front[c]);
    }
}

/// Every animated node is set: a node some group names gets a scaled step
/// for each group naming it, with that group's weights; a node no group
/// names gets an unscaled step, and a grouped one none.
pub proof fn lemma_every_node_set(groups: Seq<Seq<Seq<char>>>, nodes: Seq<Seq<char>>, i: int)
    requires
        nodes.len() <= usize::MAX,
        first_index(nodes, nodes[i], i),
    ensures
        scaler_plan_spec(groups, nodes).contains(ScaleStep::Unscaled { node: i as usize }) <==> !grouped(groups, nodes[i]),
        forall|g: int, k: int| 0 <= g < groups.len() && 0 <= k < groups[g].len() && #[trigger] groups[g][k] == nodes[i]
            ==> scaler_plan_spec(groups, nodes).contains(ScaleStep::Scaled { node: i as usize, group: g as usize }),
{
    let scaled = group_steps(groups, nodes);
    let unscaled = unscaled_steps(groups, nodes, nodes.len() as int);
    let plan = scaler_plan_spec(groups, nodes);
    lemma_unscaled_contains(groups, nodes, nodes.len() as int, i);
    lemma_group_steps_scaled_only(groups, nodes);
    let u = ScaleStep::Unscaled { node: i as usize };
    if plan.contains(u) {
        let c = choose|c: int| 0 <= c < plan.len() && plan[c] == u;
        if c >= scaled.len() {
            assert(unscaled[c - scaled.len()] == plan[c]);
        } else {
            assert(scaled[c] == plan[c]);
        }
    }
    if unscaled.contains(u) {
        let c = choose|c: int| 0 <= c < unscaled.len() && unscaled[c] == u;
        assert(plan[scaled.len() + c] == unscaled[c]);
    }
    assert forall|g: int, k: int| 0 <= g < groups.len() && 0 <= k < groups[g].len() && #[trigger] groups[g][k] == nodes[i]
        implies plan.contains(ScaleStep::Scaled { node: i as usize, group: g as usize }) by {
        lemma_group_scaled(groups, nodes, g, k, i);
        let c = choose|c: int| 0 <= c < scaled.len() && scaled[c] == ScaleStep::Scaled { node: i as usize, group: g as usize };
        assert(plan[c] == scaled[c]);
    }
}

proof fn lemma_member_steps_scaled_only(members: Seq<Seq<char>>, g: int, nodes: Seq<Seq<char>>)
    ensures
        forall|c: int| 0 <= c < member_steps(members, g, nodes).len() ==> #[trigger] member_steps(members, g, nodes)[c] is Scaled,
    decreases members.len(),
{
    if members.len() > 0 {
        lemma_member_steps_scaled_only(members.drop_last(), g, nodes);
    }
}

proof fn lemma_group_steps_scaled_only(groups: Seq<Seq<Seq<char>>>, nodes: Seq<Seq<char>>)
    ensures
        forall|c: int| 0 <= c < group_steps(groups, nodes).len() ==> #[trigger] group_steps(groups, nodes)[c] is Scaled,
    decreases groups.len(),
{
    if groups.len() > 0 {
        lemma_group_steps_scaled_only(groups.drop_last(), nodes);
        lemma_member_steps_scaled_only(groups.last(), groups.len() - 1, nodes);
        let front = group_steps(groups.drop_last(), nodes);
        let back = member_steps(groups.last(), groups.len() - 1, nodes);
        assert forall|c: int| 0 <= c < group_steps(groups, nodes).len() implies #[trigger] group_steps(groups, nodes)[c] is Scaled by {
            if c < front.len() {
                assert(group_steps(groups, nodes)[c] == front[c]);
            } else {
                assert(group_steps(groups, nodes)[c] == back[c - front.len()]);
            }
        }
    }
}

} // verus!
