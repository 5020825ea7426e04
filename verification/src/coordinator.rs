//! The coordinator: drives a checked network of atomic models through
//! virtual time. At each step it advances the global clock to the earliest
//! next-event instant, collects the outputs of every imminent component,
//! routes them through the coupling table, and only then applies internal,
//! external and confluent transitions — so no model ever observes a
//! half-propagated cycle.

use vstd::prelude::*;
use crate::model::AtomicModel;
use crate::network::Network;
use crate::network::Interface;
use crate::network::Coupling;
use crate::network::ConfigError;
use crate::network::coupling_admissible;
use crate::network::coupling_error;
use crate::ports::bags_view;
use crate::ports::empty_ports;
use crate::ports::fitted_ports;
use crate::ports::some_value;
use crate::ports::empty_bags;
use crate::ports::any_value;
use crate::ports::fit_ports;
use crate::routing::net_view;
use crate::routing::spec_route;
use crate::routing::route_all;
use crate::routing::targets_in_bounds;
use crate::routing::contributions;
use crate::routing::lemma_route_dims;
use crate::routing::lemma_route_contents;
use crate::timing::TimeVal;
use crate::timing::t_le;
use crate::timing::t_min;
use crate::timing::spec_add_delay;
use crate::timing::add_delay;
use crate::timing::time_min;
use crate::timing::time_le;
use crate::timing::lemma_add_delay_ge;

verus! {

/// One child model with the coordinator's bookkeeping: the instant of its
/// last transition (its local clock) and the absolute instant of its next
/// internal event.
pub struct Component<M> {
    pub model: M,
    pub t_last: u64,
    pub t_next: TimeVal,
}

/// The mathematical state of a coordinator: the static shape of the
/// network, the children with their bookkeeping, and the global clock.
#[verifier::ext_equal]
pub struct CoordView<M> {
    pub ifaces: Seq<Interface>,
    pub couplings: Seq<Coupling>,
    pub comps: Seq<Component<M>>,
    pub t_now: u64,
}

/// The elapsed time a model is handed at instant `t`: the time since its
/// own last transition.
pub open spec fn elapsed_of<M>(c: Component<M>, t: u64) -> u64 {
    (t - c.t_last) as u64
}

/// The model's state after the transitions due at one instant, under the
/// confluent convention: an imminent model fires its internal transition
/// first and, if input was also delivered, its external transition right
/// after with elapsed time zero; a model with input only fires its external
/// transition with the true elapsed time; any other model is untouched.
pub open spec fn transition_model<M: AtomicModel>(
    m: M,
    imminent: bool,
    inputs: Seq<Seq<M::Value>>,
    elapsed: u64,
) -> M {
    if imminent {
        if some_value(inputs) {
            m.int_spec().ext_spec(0, inputs)
        } else {
            m.int_spec()
        }
    } else if some_value(inputs) {
        m.ext_spec(elapsed, inputs)
    } else {
        m
    }
}

/// A component after the instant `t`: if it fired any transition, its local
/// clock moves to `t` and its next event is rescheduled from its new time
/// advance; otherwise it is untouched.
pub open spec fn stepped_component<M: AtomicModel>(
    c: Component<M>,
    t: u64,
    inputs: Seq<Seq<M::Value>>,
) -> Component<M> {
    let imminent = c.t_next == TimeVal::At(t);
    if imminent || some_value(inputs) {
        let m2 = transition_model(c.model, imminent, inputs, elapsed_of(c, t));
        Component { model: m2, t_last: t, t_next: spec_add_delay(t, m2.ta_spec()) }
    } else {
        c
    }
}

impl<M: AtomicModel> CoordView<M> {
    /// The earliest next-event instant among the first `k` components.
    pub open spec fn min_next_upto(self, k: int) -> TimeVal
        decreases k,
    {
        if k <= 0 {
            TimeVal::Never
        } else {
            t_min(self.min_next_upto(k - 1), self.comps[k - 1].t_next)
        }
    }

    /// The instant of the next event of the whole network: the minimum of
    /// the children's next-event instants.
    pub open spec fn next_time(self) -> TimeVal {
        self.min_next_upto(self.comps.len() as int)
    }

    /// The coordinator's invariant: one interface per component, every
    /// coupling admissible, no local clock ahead of the global clock, no
    /// scheduled event in the past, and every next-event instant equal to
    /// the component's last-event instant plus its current time advance.
    pub open spec fn wf(self) -> bool {
        &&& self.comps.len() == self.ifaces.len()
        &&& forall|k: int|
            0 <= k < self.couplings.len() ==> coupling_admissible(
                #[trigger] self.couplings[k],
                self.ifaces,
            )
        &&& forall|i: int|
            0 <= i < self.comps.len() ==> (#[trigger] self.comps[i]).t_last <= self.t_now
        &&& forall|i: int|
            0 <= i < self.comps.len() ==> t_le(
                TimeVal::At(self.t_now),
                (#[trigger] self.comps[i]).t_next,
            )
        &&& forall|i: int|
            0 <= i < self.comps.len() ==> (#[trigger] self.comps[i]).t_next == spec_add_delay(
                self.comps[i].t_last,
                self.comps[i].model.ta_spec(),
            )
    }

    /// What every component's output ports hold at instant `t`: the output
    /// function's values for the imminent components, held to the declared
    /// port count, and empty ports for all others.
    pub open spec fn outputs_at(self, t: u64) -> Seq<Seq<Seq<M::Value>>> {
        Seq::new(
            self.comps.len(),
            |i: int|
                if self.comps[i].t_next == TimeVal::At(t) {
                    fitted_ports(self.comps[i].model.out_spec(), self.ifaces[i].n_out as nat)
                } else {
                    empty_ports(self.ifaces[i].n_out as nat)
                },
        )
    }

    /// Every component's input ports at a cycle start: all empty.
    pub open spec fn fresh_inputs(self) -> Seq<Seq<Seq<M::Value>>> {
        Seq::new(self.comps.len(), |i: int| empty_ports(self.ifaces[i].n_in as nat))
    }

    /// What every component's input ports hold at instant `t` once the
    /// coupling table has been applied to the imminent outputs.
    pub open spec fn inputs_at(self, t: u64) -> Seq<Seq<Seq<M::Value>>> {
        spec_route(self.fresh_inputs(), self.outputs_at(t), self.couplings)
    }

    /// The whole coordinator after the instant `t`: clock advanced, every
    /// component stepped against its routed inputs.
    pub open spec fn step_at(self, t: u64) -> CoordView<M> {
        CoordView {
            ifaces: self.ifaces,
            couplings: self.couplings,
            t_now: t,
            comps: Seq::new(
                self.comps.len(),
                |i: int| stepped_component(self.comps[i], t, self.inputs_at(t)[i]),
            ),
        }
    }

    /// One step of the coordinator: nothing happens when no event is
    /// scheduled, otherwise the network steps at its next-event instant.
    pub open spec fn step_view(self) -> CoordView<M> {
        match self.next_time() {
            TimeVal::Never => self,
            TimeVal::At(t) => self.step_at(t),
        }
    }
}

/// A whole virtual-time run as a mathematical function: step after step
/// while an event is scheduled at or before `t_end`, at most `fuel` steps.
pub open spec fn run_view<M: AtomicModel>(v: CoordView<M>, t_end: TimeVal, fuel: nat) -> CoordView<
    M,
>
    decreases fuel,
{
    if fuel == 0 {
        v
    } else {
        match v.next_time() {
            TimeVal::Never => v,
            TimeVal::At(t) => if t_le(TimeVal::At(t), t_end) {
                run_view(v.step_at(t), t_end, (fuel - 1) as nat)
            } else {
                v
            },
        }
    }
}

/// The minimum over a prefix is a lower bound for every entry of it.
pub proof fn lemma_min_upto_le<M: AtomicModel>(v: CoordView<M>, k: int, i: int)
    requires
        0 <= i < k <= v.comps.len(),
    ensures
        t_le(v.min_next_upto(k), v.comps[i].t_next),
    decreases k,
{
    if i == k - 1 {
    } else {
        lemma_min_upto_le(v, k - 1, i);
    }
}

/// The minimum over a prefix is `Never` or is attained by some entry.
pub proof fn lemma_min_upto_attained<M: AtomicModel>(v: CoordView<M>, k: int)
    requires
        0 <= k <= v.comps.len(),
    ensures
        v.min_next_upto(k) is Never || exists|i: int|
            0 <= i < k && (#[trigger] v.comps[i]).t_next == v.min_next_upto(k),
    decreases k,
{
    if k > 0 {
        lemma_min_upto_attained(v, k - 1);
    }
}

/// No event is ever scheduled before the global clock: the next-event
/// instant of a well-formed coordinator is at or after `t_now`.
pub proof fn lemma_next_ge_now<M: AtomicModel>(v: CoordView<M>)
    requires
        v.wf(),
    ensures
        t_le(TimeVal::At(v.t_now), v.next_time()),
{
    lemma_min_upto_attained(v, v.comps.len() as int);
}

/// A step at the due instant keeps the coordinator well-formed and never
/// moves the global clock backwards.
pub proof fn lemma_step_at_props<M: AtomicModel>(v: CoordView<M>, t: u64)
    requires
        v.wf(),
        v.next_time() == TimeVal::At(t),
    ensures
        v.step_at(t).wf(),
        v.t_now <= t,
{
    lemma_next_ge_now(v);
    let w = v.step_at(t);
    assert forall|i: int| 0 <= i < w.comps.len() implies {
        &&& (#[trigger] w.comps[i]).t_last <= w.t_now
        &&& t_le(TimeVal::At(w.t_now), w.comps[i].t_next)
        &&& w.comps[i].t_next == spec_add_delay(w.comps[i].t_last, w.comps[i].model.ta_spec())
    } by {
        let c = v.comps[i];
        let inputs = v.inputs_at(t)[i];
        let imminent = c.t_next == TimeVal::At(t);
        if imminent || some_value(inputs) {
            let m2 = transition_model(c.model, imminent, inputs, elapsed_of(c, t));
            lemma_add_delay_ge(t, m2.ta_spec());
        } else {
            lemma_min_upto_le(v, v.comps.len() as int, i);
        }
    }
}

/// The static shape of a coordinator paired with the time bounds of a run.
pub struct Config {
    pub t_start: u64,
    pub t_end: TimeVal,
}

impl Config {
    /// A run from `t_start` until no event remains at or before `t_end`;
    /// `TimeVal::Never` as the end bound leaves the run unbounded.
    pub fn new(t_start: u64, t_end: TimeVal) -> (c: Config)
        ensures
            c.t_start == t_start,
            c.t_end == t_end,
    {
        Config { t_start, t_end }
    }
}

/// The execution engine for one coupled network of atomic models.
pub struct Coordinator<M> {
    pub network: Network,
    pub comps: Vec<Component<M>>,
    pub t_now: u64,
}

impl<M: AtomicModel> View for Coordinator<M> {
    type V = CoordView<M>;

    open spec fn view(&self) -> CoordView<M> {
        CoordView {
            ifaces: self.network.ifaces@,
            couplings: self.network.couplings@,
            comps: self.comps@,
            t_now: self.t_now,
        }
    }
}

impl<M: AtomicModel> Coordinator<M> {
    /// Builds a coordinator over the given models, interfaces and coupling
    /// table, with every local clock at `t_start` and every first event
    /// scheduled by the model's own time advance. Fails, before any
    /// simulation step can run, if and only if the coupling table
    /// references a missing component or port or the model and interface
    /// counts differ.
    pub fn new(models: Vec<M>, ifaces: Vec<Interface>, couplings: Vec<Coupling>, t_start: u64) -> (r:
        Result<Coordinator<M>, ConfigError>)
        ensures
            r is Ok <==> ((forall|k: int|
                0 <= k < couplings@.len() ==> coupling_admissible(
                    #[trigger] couplings@[k],
                    ifaces@,
                )) && models@.len() == ifaces@.len()),
            r matches Ok(c) ==> {
                &&& c@.wf()
                &&& c@.t_now == t_start
                &&& c@.ifaces == ifaces@
                &&& c@.couplings == couplings@
                &&& c@.comps.len() == models@.len()
                &&& forall|i: int|
                    0 <= i < models@.len() ==> {
                        &&& (#[trigger] c@.comps[i]).model == models@[i]
                        &&& c@.comps[i].t_last == t_start
                        &&& c@.comps[i].t_next == spec_add_delay(t_start, models@[i].ta_spec())
                    }
            },
            r matches Err(e) ==> {
                ||| exists|k: int|
                    0 <= k < couplings@.len() && (forall|j: int|
                        0 <= j < k ==> coupling_admissible(#[trigger] couplings@[j], ifaces@))
                        && coupling_error(couplings@[k], ifaces@, k) == Some(e)
                ||| ((forall|k: int|
                    0 <= k < couplings@.len() ==> coupling_admissible(
                        #[trigger] couplings@[k],
                        ifaces@,
                    )) && models@.len() != ifaces@.len() && e == ConfigError::ModelCountMismatch)
            },
    {
        let network = match Network::new(ifaces, couplings) {
            Ok(n) => n,
            Err(e) => {
                return Err(e);
            },
        };
        if models.len() != network.ifaces.len() {
            return Err(ConfigError::ModelCountMismatch);
        }
        let ghost models0 = models@;
        let mut models = models;
        let mut comps: Vec<Component<M>> = Vec::new();
        while models.len() > 0
            invariant
                comps@.len() + models@.len() == models0.len(),
                models@ =~= models0.skip(comps@.len() as int),
                forall|i: int|
                    0 <= i < comps@.len() ==> {
                        &&& (#[trigger] comps@[i]).model == models0[i]
                        &&& comps@[i].t_last == t_start
                        &&& comps@[i].t_next == spec_add_delay(t_start, models0[i].ta_spec())
                    },
            decreases models@.len(),
        {
            let m = models.remove(0);
            proof {
                assert(m == models0[comps@.len() as int]);
                assert(models@ =~= models0.skip(comps@.len() as int + 1));
            }
            let ta = m.ta();
            comps.push(Component { model: m, t_last: t_start, t_next: add_delay(t_start, ta) });
        }
        let c = Coordinator { network, comps, t_now: t_start };
        proof {
            assert forall|i: int| 0 <= i < c@.comps.len() implies t_le(
                TimeVal::At(c@.t_now),
                (#[trigger] c@.comps[i]).t_next,
            ) by {
                lemma_add_delay_ge(t_start, models0[i].ta_spec());
            }
        }
        Ok(c)
    }

    /// The instant of the network's next internal event, or `Never` when
    /// every component is passive.
    pub fn next_time(&self) -> (r: TimeVal)
        ensures
            r == self@.next_time(),
    {
        let mut acc = TimeVal::Never;
        let mut i: usize = 0;
        while i < self.comps.len()
            invariant
                i <= self.comps@.len(),
                acc == self@.min_next_upto(i as int),
            decreases self.comps@.len() - i,
        {
            acc = time_min(acc, self.comps[i].t_next);
            i = i + 1;
        }
        acc
    }

    /// One simulation cycle at the next-event instant `t`: advance the
    /// global clock to `t`, collect the outputs of every imminent
    /// component, route every value through the coupling table, and then
    /// fire the due transitions — internal first, then external with
    /// elapsed zero where both coincide, external with the true elapsed
    /// time where only input arrived. All port buffers are transient to the
    /// cycle: every port is empty again when the step returns.
    pub fn step(&mut self)
        requires
            old(self)@.wf(),
            old(self)@.next_time() is At,
        ensures
            final(self)@ == old(self)@.step_view(),
            final(self)@.wf(),
            old(self)@.t_now <= final(self)@.t_now,
    {
        let ghost v0 = self@;
        let tn = self.next_time();
        let t: u64;
        match tn {
            TimeVal::At(x) => {
                t = x;
            },
            TimeVal::Never => {
                proof {
                    assert(false);
                }
                t = 0;
            },
        }
        proof {
            lemma_step_at_props::<M>(v0, t);
        }
        let n: usize = self.comps.len();

        // Output collection: the imminent components' output functions
        // fire on the pre-transition states.
        let mut outs: Vec<Vec<Vec<M::Value>>> = Vec::new();
        let mut i: usize = 0;
        while i < n
            invariant
                i <= n,
                n == self.comps@.len(),
                *self == *old(self),
                v0 == self@,
                v0.wf(),
                v0.next_time() == TimeVal::At(t),
                outs@.len() == i,
                forall|j: int|
                    0 <= j < i ==> bags_view((#[trigger] outs@[j])@) == v0.outputs_at(t)[j],
            decreases n - i,
        {
            let iface = self.network.ifaces[i];
            if self.comps[i].t_next == TimeVal::At(t) {
                let raw = self.comps[i].model.lambda();
                let fitted = fit_ports(&raw, iface.n_out);
                outs.push(fitted);
            } else {
                outs.push(empty_bags(iface.n_out));
            }
            i = i + 1;
        }

        // Fresh, empty input buffers for the cycle.
        let mut inps: Vec<Vec<Vec<M::Value>>> = Vec::new();
        let mut i2: usize = 0;
        while i2 < n
            invariant
                i2 <= n,
                n == self.comps@.len(),
                *self == *old(self),
                v0 == self@,
                v0.wf(),
                inps@.len() == i2,
                forall|j: int|
                    0 <= j < i2 ==> bags_view((#[trigger] inps@[j])@) == v0.fresh_inputs()[j],
            decreases n - i2,
        {
            inps.push(empty_bags(self.network.ifaces[i2].n_in));
            i2 = i2 + 1;
        }
        proof {
            assert(net_view(outs@) =~= v0.outputs_at(t));
            assert(net_view(inps@) =~= v0.fresh_inputs());
            assert(targets_in_bounds(self.network.couplings@, net_view(inps@)));
            assert forall|k: int| 0 <= k < self.network.couplings@.len() implies {
                let c = #[trigger] self.network.couplings@[k];
                (c.src_model as int) < outs@.len() && (c.src_port as int) < outs@[c.src_model as int]@.len()
            } by {
                let c = self.network.couplings@[k];
                assert(coupling_admissible(c, v0.ifaces));
                assert(bags_view(outs@[c.src_model as int]@).len() == v0.ifaces[c.src_model as int].n_out);
            }
        }

        // Routing: every produced value reaches every coupled destination
        // before any transition below observes its inputs.
        route_all(&self.network.couplings, &outs, &mut inps);
        proof {
            lemma_route_dims(v0.fresh_inputs(), v0.outputs_at(t), v0.couplings);
            assert(net_view(inps@) == v0.inputs_at(t));
            assert(inps@.len() == n);
        }

        // Transitions, in the confluent order, against the routed inputs.
        let mut i3: usize = 0;
        while i3 < n
            invariant
                i3 <= n,
                n == self.comps@.len(),
                n == inps@.len(),
                self.network == old(self).network,
                self.t_now == v0.t_now,
                v0.ifaces == self@.ifaces,
                v0.couplings == self@.couplings,
                v0.wf(),
                v0.next_time() == TimeVal::At(t),
                v0.t_now <= t,
                net_view(inps@) == v0.inputs_at(t),
                n == v0.comps.len(),
                forall|j: int| i3 <= j < n ==> self.comps@[j] == v0.comps[j],
                forall|j: int|
                    0 <= j < i3 ==> self.comps@[j] == stepped_component(
                        v0.comps[j],
                        t,
                        v0.inputs_at(t)[j],
                    ),
            decreases n - i3,
        {
            let ghost pre = self.comps@[i3 as int];
            let ghost comps_before = self.comps@;
            proof {
                assert(bags_view(inps@[i3 as int]@) == net_view(inps@)[i3 as int]);
            }
            let bag = &inps[i3];
            let has_input = any_value(bag);
            let comp = &mut self.comps[i3];
            let imminent = comp.t_next == TimeVal::At(t);
            if imminent {
                comp.model.delta_int();
                if has_input {
                    comp.model.delta_ext(0, bag);
                }
                let ta = comp.model.ta();
                comp.t_last = t;
                comp.t_next = add_delay(t, ta);
            } else if has_input {
                let e: u64 = t - comp.t_last;
                comp.model.delta_ext(e, bag);
                let ta = comp.model.ta();
                comp.t_last = t;
                comp.t_next = add_delay(t, ta);
            }
            proof {
                assert(self.comps@ =~= comps_before.update(
                    i3 as int,
                    stepped_component(pre, t, v0.inputs_at(t)[i3 as int]),
                ));
            }
            i3 = i3 + 1;
        }
        self.t_now = t;
        proof {
            assert(self@.comps =~= v0.step_at(t).comps);
            assert(self@ =~= v0.step_at(t));
        }
    }

    /// A whole virtual-time run: steps as fast as possible while an event
    /// is scheduled at or before the configured end time, up to
    /// `max_steps` cycles (the budget guards against a network whose
    /// models keep scheduling events without advancing time). Returns the
    /// number of cycles taken.
    pub fn run(&mut self, config: &Config, max_steps: usize) -> (steps: usize)
        requires
            old(self)@.wf(),
        ensures
            final(self)@ == run_view(old(self)@, config.t_end, max_steps as nat),
            final(self)@.wf(),
            old(self)@.t_now <= final(self)@.t_now,
            steps <= max_steps,
    {
        let ghost v0 = self@;
        let mut steps: usize = 0;
        loop
            invariant
                steps <= max_steps,
                self@.wf(),
                v0.t_now <= self@.t_now,
                run_view(v0, config.t_end, max_steps as nat) == run_view(
                    self@,
                    config.t_end,
                    (max_steps - steps) as nat,
                ),
            ensures
                steps <= max_steps,
                self@.wf(),
                v0.t_now <= self@.t_now,
                run_view(v0, config.t_end, max_steps as nat) == self@,
            decreases max_steps - steps,
        {
            if steps >= max_steps {
                break ;
            }
            let tn = self.next_time();
            match tn {
                TimeVal::Never => {
                    break ;
                },
                TimeVal::At(t) => {
                    if !time_le(TimeVal::At(t), config.t_end) {
                        break ;
                    }
                    self.step();
                    steps = steps + 1;
                },
            }
        }
        steps
    }
}

/// Determinism: a virtual-time run is a mathematical function of the
/// initial state and the run bounds alone — two runs from equal initial
/// states with equal bounds pass through equal states.
pub proof fn lemma_run_deterministic<M: AtomicModel>(
    a: CoordView<M>,
    b: CoordView<M>,
    t_end: TimeVal,
    fuel: nat,
)
    requires
        a == b,
    ensures
        run_view(a, t_end, fuel) == run_view(b, t_end, fuel),
{
}

/// Time monotonicity for one step: the global clock never moves backwards.
pub proof fn lemma_step_monotone<M: AtomicModel>(v: CoordView<M>)
    requires
        v.wf(),
    ensures
        v.t_now <= v.step_view().t_now,
        v.step_view().wf(),
{
    match v.next_time() {
        TimeVal::Never => {
        },
        TimeVal::At(t) => {
            lemma_step_at_props(v, t);
        },
    }
}

/// Time monotonicity for a whole run: the sequence of global-clock
/// instants a run visits is non-decreasing, so no instant is revisited
/// after a later one has been processed.
pub proof fn lemma_run_monotone<M: AtomicModel>(v: CoordView<M>, t_end: TimeVal, fuel: nat)
    requires
        v.wf(),
    ensures
        v.t_now <= run_view(v, t_end, fuel).t_now,
        run_view(v, t_end, fuel).wf(),
    decreases fuel,
{
    if fuel > 0 {
        match v.next_time() {
            TimeVal::Never => {
            },
            TimeVal::At(t) => {
                if t_le(TimeVal::At(t), t_end) {
                    lemma_step_at_props(v, t);
                    lemma_run_monotone(v.step_at(t), t_end, (fuel - 1) as nat);
                }
            },
        }
    }
}

/// Time monotonicity along a run, point for point: the state after any
/// earlier number of cycles has a global clock at or before the state
/// after any later number, so the sequence of instants a run visits is
/// non-decreasing and no instant returns after a later one was processed.
pub proof fn lemma_run_instants_monotone<M: AtomicModel>(
    v: CoordView<M>,
    t_end: TimeVal,
    k: nat,
    fuel: nat,
)
    requires
        v.wf(),
        k <= fuel,
    ensures
        run_view(v, t_end, k).t_now <= run_view(v, t_end, fuel).t_now,
    decreases k,
{
    if k == 0 {
        lemma_run_monotone(v, t_end, fuel);
    } else {
        match v.next_time() {
            TimeVal::Never => {
            },
            TimeVal::At(t) => {
                if t_le(TimeVal::At(t), t_end) {
                    lemma_step_at_props(v, t);
                    lemma_run_instants_monotone(
                        v.step_at(t),
                        t_end,
                        (k - 1) as nat,
                        (fuel - 1) as nat,
                    );
                }
            },
        }
    }
}

/// Local-clock consistency: whenever a step fires at instant `t`, the
/// elapsed time handed to any component plus that component's last-event
/// clock equals the global clock `t`, exactly.
pub proof fn lemma_elapsed_consistent<M: AtomicModel>(v: CoordView<M>, t: u64, i: int)
    requires
        v.wf(),
        v.next_time() == TimeVal::At(t),
        0 <= i < v.comps.len(),
    ensures
        v.comps[i].t_last + elapsed_of(v.comps[i], t) == t,
{
    lemma_next_ge_now(v);
}

/// Routing completeness at the coordinator: at instant `t`, each input
/// port holds exactly the values the coupling table sends to it, in table
/// order — nothing dropped, nothing duplicated — and these are the inputs
/// the external transitions at `t` are applied to.
pub proof fn lemma_inputs_at_complete<M: AtomicModel>(v: CoordView<M>, t: u64, d: int, p: int)
    requires
        v.wf(),
        0 <= d < v.comps.len(),
        0 <= p < v.ifaces[d].n_in,
    ensures
        v.inputs_at(t)[d][p] == contributions(v.outputs_at(t), v.couplings, d, p),
{
    lemma_route_contents(v.fresh_inputs(), v.outputs_at(t), v.couplings, d, p);
    assert(v.fresh_inputs()[d][p] =~= Seq::<M::Value>::empty());
    assert(Seq::<M::Value>::empty() + contributions(v.outputs_at(t), v.couplings, d, p)
        =~= contributions(v.outputs_at(t), v.couplings, d, p));
}

/// Idle stability: a component whose time advance is `Never` and to which
/// the coupling table routes no value at `t` is untouched by the step at
/// `t`: its internal transition never fires and its state, local clock and
/// schedule are unchanged.
pub proof fn lemma_idle_stable<M: AtomicModel>(v: CoordView<M>, t: u64, i: int)
    requires
        v.wf(),
        v.next_time() == TimeVal::At(t),
        0 <= i < v.comps.len(),
        v.comps[i].t_next is Never,
        !some_value(v.inputs_at(t)[i]),
    ensures
        v.step_at(t).comps[i] == v.comps[i],
{
}

/// Idle stability read off the static table: a passive component that no
/// coupling targets receives no input at any instant, so a step never
/// touches it at all.
pub proof fn lemma_untargeted_idle_stable<M: AtomicModel>(v: CoordView<M>, t: u64, i: int)
    requires
        v.wf(),
        v.next_time() == TimeVal::At(t),
        0 <= i < v.comps.len(),
        v.comps[i].t_next is Never,
        forall|k: int| 0 <= k < v.couplings.len() ==> (#[trigger] v.couplings[k].dst_model) as int != i,
    ensures
        v.step_at(t).comps[i] == v.comps[i],
{
    lemma_route_dims(v.fresh_inputs(), v.outputs_at(t), v.couplings);
    let inputs = v.inputs_at(t)[i];
    assert(inputs.len() == v.ifaces[i].n_in);
    assert forall|p: int| 0 <= p < inputs.len() implies #[trigger] inputs[p].len() == 0 by {
        lemma_route_contents(v.fresh_inputs(), v.outputs_at(t), v.couplings, i, p);
        crate::routing::lemma_contributions_unmatched(v.outputs_at(t), v.couplings, i, p);
        assert(v.fresh_inputs()[i][p] =~= Seq::<M::Value>::empty());
    }
    lemma_idle_stable(v, t, i);
}

} // verus!
