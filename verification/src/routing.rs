//! Output-to-input routing. At an instant, every value produced on a source
//! output port is appended to each coupled destination input port, walking
//! the coupling table in declaration order, before any external transition
//! fires at that instant.
//!
//! The table is applied exactly once per instant, to the outputs the
//! imminent components produced at that instant: what a transition writes
//! to its state afterwards can first show on a port at a later instant, so
//! no coupling configuration can close an unresolved zero-delay feedback
//! loop within a single instant.

use vstd::prelude::*;
use crate::network::Coupling;
use crate::ports::bags_view;
use crate::ports::push_all;

verus! {

/// The contents of all components' port bags: component, then port, then
/// the values in arrival order.
pub open spec fn net_view<V>(b: Seq<Vec<Vec<V>>>) -> Seq<Seq<Seq<V>>> {
    b.map_values(|m: Vec<Vec<V>>| bags_view(m@))
}

/// One coupling applied: the source output port's values appended to the
/// destination input port, everything else untouched.
pub open spec fn deliver_one<V>(
    inps: Seq<Seq<Seq<V>>>,
    outs: Seq<Seq<Seq<V>>>,
    c: Coupling,
) -> Seq<Seq<Seq<V>>> {
    let dm = c.dst_model as int;
    let dp = c.dst_port as int;
    let vals = outs[c.src_model as int][c.src_port as int];
    inps.update(dm, inps[dm].update(dp, inps[dm][dp] + vals))
}

/// The coupling table applied edge by edge, in declaration order.
pub open spec fn spec_route<V>(
    inps: Seq<Seq<Seq<V>>>,
    outs: Seq<Seq<Seq<V>>>,
    cs: Seq<Coupling>,
) -> Seq<Seq<Seq<V>>>
    decreases cs.len(),
{
    if cs.len() == 0 {
        inps
    } else {
        spec_route(deliver_one(inps, outs, cs[0]), outs, cs.skip(1))
    }
}

/// Everything the coupling table sends to input port `p` of component `d`:
/// the matched source ports' contents, concatenated in table order.
pub open spec fn contributions<V>(
    outs: Seq<Seq<Seq<V>>>,
    cs: Seq<Coupling>,
    d: int,
    p: int,
) -> Seq<V>
    decreases cs.len(),
{
    if cs.len() == 0 {
        Seq::<V>::empty()
    } else {
        let head = if cs[0].dst_model == d && cs[0].dst_port == p {
            outs[cs[0].src_model as int][cs[0].src_port as int]
        } else {
            Seq::<V>::empty()
        };
        head + contributions(outs, cs.skip(1), d, p)
    }
}

/// Every coupling's destination lies within the bags' dimensions.
pub open spec fn targets_in_bounds<V>(cs: Seq<Coupling>, inps: Seq<Seq<Seq<V>>>) -> bool {
    forall|k: int|
        0 <= k < cs.len() ==> {
            let c = #[trigger] cs[k];
            (c.dst_model as int) < inps.len() && (c.dst_port as int) < inps[c.dst_model as int].len()
        }
}

/// Routing changes no dimension: it only appends values to existing ports.
pub proof fn lemma_route_dims<V>(inps: Seq<Seq<Seq<V>>>, outs: Seq<Seq<Seq<V>>>, cs: Seq<Coupling>)
    requires
        targets_in_bounds(cs, inps),
    ensures
        spec_route(inps, outs, cs).len() == inps.len(),
        forall|d: int|
            0 <= d < inps.len() ==> #[trigger] spec_route(inps, outs, cs)[d].len()
                == inps[d].len(),
    decreases cs.len(),
{
    if cs.len() > 0 {
        let inps1 = deliver_one(inps, outs, cs[0]);
        assert(targets_in_bounds(cs.skip(1), inps1)) by {
            assert forall|k: int| 0 <= k < cs.skip(1).len() implies {
                let c = #[trigger] cs.skip(1)[k];
                (c.dst_model as int) < inps1.len() && (c.dst_port as int) < inps1[c.dst_model as int].len()
            } by {
                assert(cs.skip(1)[k] == cs[k + 1]);
            }
        }
        lemma_route_dims(inps1, outs, cs.skip(1));
    }
}

/// Routing completeness: after the whole table is applied, each input port
/// holds exactly what it held before followed by every value the table
/// sends to it, in declaration order — so no value is dropped, none is
/// delivered twice, and fan-in arrives in a fixed, reproducible order.
pub proof fn lemma_route_contents<V>(
    inps: Seq<Seq<Seq<V>>>,
    outs: Seq<Seq<Seq<V>>>,
    cs: Seq<Coupling>,
    d: int,
    p: int,
)
    requires
        targets_in_bounds(cs, inps),
        0 <= d < inps.len(),
        0 <= p < inps[d].len(),
    ensures
        spec_route(inps, outs, cs)[d][p] == inps[d][p] + contributions(outs, cs, d, p),
    decreases cs.len(),
{
    if cs.len() == 0 {
        assert(inps[d][p] + contributions(outs, cs, d, p) =~= inps[d][p]);
    } else {
        let c = cs[0];
        let inps1 = deliver_one(inps, outs, c);
        assert(targets_in_bounds(cs.skip(1), inps1)) by {
            assert forall|k: int| 0 <= k < cs.skip(1).len() implies {
                let cc = #[trigger] cs.skip(1)[k];
                (cc.dst_model as int) < inps1.len() && (cc.dst_port as int) < inps1[cc.dst_model as int].len()
            } by {
                assert(cs.skip(1)[k] == cs[k + 1]);
            }
        }
        lemma_route_contents(inps1, outs, cs.skip(1), d, p);
        let head = if c.dst_model == d && c.dst_port == p {
            outs[c.src_model as int][c.src_port as int]
        } else {
            Seq::<V>::empty()
        };
        assert(inps1[d][p] =~= inps[d][p] + head);
        assert(
            (inps[d][p] + head) + contributions(outs, cs.skip(1), d, p)
            =~= inps[d][p] + (head + contributions(outs, cs.skip(1), d, p))
        );
    }
}

/// A component no coupling targets receives nothing from the table.
pub proof fn lemma_contributions_unmatched<V>(
    outs: Seq<Seq<Seq<V>>>,
    cs: Seq<Coupling>,
    d: int,
    p: int,
)
    requires
        forall|k: int| 0 <= k < cs.len() ==> (#[trigger] cs[k].dst_model) as int != d,
    ensures
        contributions(outs, cs, d, p) == Seq::<V>::empty(),
    decreases cs.len(),
{
    if cs.len() > 0 {
        assert(cs[0].dst_model as int != d);
        assert forall|k: int| 0 <= k < cs.skip(1).len() implies (#[trigger] cs.skip(
            1,
        )[k].dst_model) as int != d by {
            assert(cs.skip(1)[k] == cs[k + 1]);
        }
        lemma_contributions_unmatched(outs, cs.skip(1), d, p);
        assert(Seq::<V>::empty() + Seq::<V>::empty() =~= Seq::<V>::empty());
    }
}

/// Appends a copy of `vals` to input port `dp` of component `dm`.
fn deliver_exec<V: Copy>(inps: &mut Vec<Vec<Vec<V>>>, vals: &Vec<V>, dm: usize, dp: usize)
    requires
        (dm as int) < old(inps)@.len(),
        (dp as int) < old(inps)@[dm as int]@.len(),
    ensures
        final(inps)@.len() == old(inps)@.len(),
        net_view(final(inps)@) == net_view(old(inps)@).update(
            dm as int,
            net_view(old(inps)@)[dm as int].update(
                dp as int,
                net_view(old(inps)@)[dm as int][dp as int] + vals@,
            ),
        ),
{
    let dst: &mut Vec<Vec<V>> = &mut inps[dm];
    let port: &mut Vec<V> = &mut dst[dp];
    push_all(port, vals);
    proof {
        assert(net_view(inps@) =~~= net_view(old(inps)@).update(
            dm as int,
            net_view(old(inps)@)[dm as int].update(
                dp as int,
                net_view(old(inps)@)[dm as int][dp as int] + vals@,
            ),
        ));
    }
}

/// Applies the whole coupling table, in declaration order, copying source
/// output values into destination input ports.
pub fn route_all<V: Copy>(cs: &Vec<Coupling>, outs: &Vec<Vec<Vec<V>>>, inps: &mut Vec<Vec<Vec<V>>>)
    requires
        targets_in_bounds(cs@, net_view(old(inps)@)),
        forall|k: int|
            0 <= k < cs@.len() ==> {
                let c = #[trigger] cs@[k];
                (c.src_model as int) < outs@.len() && (c.src_port as int)
                    < outs@[c.src_model as int]@.len()
            },
    ensures
        net_view(final(inps)@) == spec_route(net_view(old(inps)@), net_view(outs@), cs@),
{
    let ghost orig = net_view(inps@);
    let ghost outs_v = net_view(outs@);
    proof {
        assert(cs@.skip(0) =~= cs@);
    }
    let mut k: usize = 0;
    while k < cs.len()
        invariant
            k <= cs@.len(),
            targets_in_bounds(cs@, net_view(inps@)),
            forall|k2: int|
                0 <= k2 < cs@.len() ==> {
                    let c = #[trigger] cs@[k2];
                    (c.src_model as int) < outs@.len() && (c.src_port as int)
                        < outs@[c.src_model as int]@.len()
                },
            outs_v == net_view(outs@),
            inps@.len() == net_view(inps@).len(),
            spec_route(net_view(inps@), outs_v, cs@.skip(k as int)) == spec_route(orig, outs_v, cs@),
        decreases cs@.len() - k,
    {
        let c = cs[k];
        let ghost before = net_view(inps@);
        let src_bag = &outs[c.src_model];
        deliver_exec(inps, &src_bag[c.src_port], c.dst_model, c.dst_port);
        proof {
            assert(net_view(inps@) == deliver_one(before, outs_v, c));
            assert(cs@.skip(k as int)[0] == c);
            assert(cs@.skip(k as int).skip(1) =~= cs@.skip(k as int + 1));
            assert(spec_route(before, outs_v, cs@.skip(k as int)) == spec_route(
                deliver_one(before, outs_v, c),
                outs_v,
                cs@.skip(k as int + 1),
            ));
            assert(targets_in_bounds(cs@, net_view(inps@))) by {
                assert forall|k2: int| 0 <= k2 < cs@.len() implies {
                    let cc = #[trigger] cs@[k2];
                    (cc.dst_model as int) < net_view(inps@).len() && (cc.dst_port as int)
                        < net_view(inps@)[cc.dst_model as int].len()
                } by {
                    assert((cs@[k2].dst_model as int) < before.len() && (cs@[k2].dst_port as int)
                        < before[cs@[k2].dst_model as int].len());
                }
            }
        }
        k = k + 1;
    }
    proof {
        assert(cs@.skip(cs@.len() as int) =~= Seq::<Coupling>::empty());
    }
}

} // verus!
