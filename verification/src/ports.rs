//! Per-cycle port buffers. A component's ports are held as a bag: one
//! value sequence per port, filled by the output function or by routing and
//! cleared at every cycle boundary.

use vstd::prelude::*;

verus! {

/// The mathematical contents of a bag of ports: one sequence per port.
pub open spec fn bags_view<V>(b: Seq<Vec<V>>) -> Seq<Seq<V>> {
    b.map_values(|p: Vec<V>| p@)
}

/// `n` ports, all empty.
pub open spec fn empty_ports<V>(n: nat) -> Seq<Seq<V>> {
    Seq::new(n, |i: int| Seq::<V>::empty())
}

/// Some port of the bag holds at least one value.
pub open spec fn some_value<V>(bag: Seq<Seq<V>>) -> bool {
    exists|i: int| 0 <= i < bag.len() && #[trigger] bag[i].len() > 0
}

/// The given sequence of port contents cut or padded to exactly `n` ports:
/// what a component's output is held to, whatever its output function wrote.
pub open spec fn fitted_ports<V>(out: Seq<Seq<V>>, n: nat) -> Seq<Seq<V>> {
    Seq::new(n, |i: int| if i < out.len() {
        out[i]
    } else {
        Seq::<V>::empty()
    })
}

/// A fresh bag of `n` empty ports.
pub fn empty_bags<V>(n: usize) -> (r: Vec<Vec<V>>)
    ensures
        bags_view(r@) == empty_ports::<V>(n as nat),
{
    let mut r: Vec<Vec<V>> = Vec::new();
    let mut i: usize = 0;
    while i < n
        invariant
            i <= n,
            r@.len() == i,
            forall|j: int| 0 <= j < i ==> (#[trigger] r@[j])@ == Seq::<V>::empty(),
        decreases n - i,
    {
        r.push(Vec::new());
        i = i + 1;
    }
    proof {
        assert(bags_view(r@) =~= empty_ports::<V>(n as nat));
    }
    r
}

/// Append a copy of every value of `src` to `dst`, keeping order.
pub fn push_all<V: Copy>(dst: &mut Vec<V>, src: &Vec<V>)
    ensures
        final(dst)@ == old(dst)@ + src@,
{
    let mut i: usize = 0;
    while i < src.len()
        invariant
            i <= src@.len(),
            dst@ == old(dst)@ + src@.take(i as int),
        decreases src@.len() - i,
    {
        dst.push(src[i]);
        proof {
            assert(src@.take(i + 1) =~= src@.take(i as int).push(src@[i as int]));
        }
        i = i + 1;
    }
    proof {
        assert(src@.take(src@.len() as int) =~= src@);
    }
}

/// Whether any port of the bag holds a value.
pub fn any_value<V>(bag: &Vec<Vec<V>>) -> (r: bool)
    ensures
        r == some_value(bags_view(bag@)),
{
    let mut i: usize = 0;
    while i < bag.len()
        invariant
            i <= bag@.len(),
            forall|j: int| 0 <= j < i ==> (#[trigger] bag@[j])@.len() == 0,
        decreases bag@.len() - i,
    {
        if bag[i].len() > 0 {
            proof {
                assert(bags_view(bag@)[i as int].len() > 0);
            }
            return true;
        }
        i = i + 1;
    }
    proof {
        assert(forall|j: int| 0 <= j < bag@.len() ==> #[trigger] bags_view(bag@)[j].len() == 0);
    }
    false
}

/// A copy of `out` cut or padded to exactly `n` ports.
pub fn fit_ports<V: Copy>(out: &Vec<Vec<V>>, n: usize) -> (r: Vec<Vec<V>>)
    ensures
        bags_view(r@) == fitted_ports(bags_view(out@), n as nat),
{
    let mut r: Vec<Vec<V>> = Vec::new();
    let mut i: usize = 0;
    while i < n
        invariant
            i <= n,
            r@.len() == i,
            forall|j: int| 0 <= j < i ==> (#[trigger] bags_view(r@)[j]) == fitted_ports(
                bags_view(out@),
                n as nat,
            )[j],
        decreases n - i,
    {
        let ghost r0 = r@;
        if i < out.len() {
            let mut p: Vec<V> = Vec::new();
            push_all(&mut p, &out[i]);
            proof {
                assert(p@ =~= out@[i as int]@);
            }
            r.push(p);
        } else {
            r.push(Vec::new());
        }
        proof {
            assert forall|j: int| 0 <= j < i + 1 implies (#[trigger] bags_view(r@)[j])
                == fitted_ports(bags_view(out@), n as nat)[j] by {
                assert(bags_view(r@)[j] == r@[j]@);
                if j < i {
                    assert(bags_view(r0)[j] == fitted_ports(bags_view(out@), n as nat)[j]);
                    assert(r@[j] == r0[j]);
                }
            }
        }
        i = i + 1;
    }
    proof {
        assert(bags_view(r@) =~= fitted_ports(bags_view(out@), n as nat));
    }
    r
}

} // verus!
