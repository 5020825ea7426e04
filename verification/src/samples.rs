//! Two small atomic models and their closed sum, in the shape of the
//! classic source-and-sink pair: a periodic generator that emits its
//! sequence number, and a collector that stays passive until a value
//! arrives, records it, and schedules one emission of its own. They give
//! the coordinator something concrete to drive and the scenario tests
//! something to observe.

use vstd::prelude::*;
use crate::model::AtomicModel;
use crate::ports::bags_view;
use crate::timing::TimeVal;
use crate::timing::spec_shrink;
use crate::timing::shrink;

verus! {

/// A periodic source with one output port: once its remaining delay runs
/// out it emits its sequence number and rearms itself with its period.
#[derive(Clone, Copy, Debug, PartialEq, Eq, Structural)]
pub struct Generator {
    /// Remaining time to the next internal event.
    pub sigma: TimeVal,
    /// Delay between internal events after the first.
    pub period: u64,
    /// Number of internal transitions taken so far; also the emitted value.
    pub count: u64,
}

impl Generator {
    /// A generator whose first event is due `initial_delay` after the run
    /// starts and every `period` after that.
    pub fn new(initial_delay: u64, period: u64) -> (g: Generator)
        ensures
            g == (Generator { sigma: TimeVal::At(initial_delay), period, count: 0 }),
    {
        Generator { sigma: TimeVal::At(initial_delay), period, count: 0 }
    }
}

impl AtomicModel for Generator {
    type Value = u64;

    open spec fn ta_spec(self) -> TimeVal {
        self.sigma
    }

    open spec fn int_spec(self) -> Self {
        Generator {
            sigma: TimeVal::At(self.period),
            period: self.period,
            count: if self.count < u64::MAX {
                (self.count + 1) as u64
            } else {
                self.count
            },
        }
    }

    open spec fn ext_spec(self, elapsed: u64, inputs: Seq<Seq<u64>>) -> Self {
        Generator { sigma: spec_shrink(self.sigma, elapsed), period: self.period, count: self.count }
    }

    open spec fn out_spec(self) -> Seq<Seq<u64>> {
        seq![seq![self.count]]
    }

    fn ta(&self) -> (r: TimeVal) {
        self.sigma
    }

    fn delta_int(&mut self) {
        self.sigma = TimeVal::At(self.period);
        if self.count < u64::MAX {
            self.count = self.count + 1;
        }
    }

    fn delta_ext(&mut self, elapsed: u64, inputs: &Vec<Vec<u64>>) {
        self.sigma = shrink(self.sigma, elapsed);
    }

    fn lambda(&self) -> (out: Vec<Vec<u64>>) {
        let mut p: Vec<u64> = Vec::new();
        p.push(self.count);
        let mut out: Vec<Vec<u64>> = Vec::new();
        out.push(p);
        proof {
            assert(bags_view(out@) =~= self.out_spec());
        }
        out
    }
}

/// A sink with one input port and one output port: passive until a value
/// arrives, it records the first value on its input port, then schedules
/// one emission of the recorded value `react_delay` later and goes passive
/// again.
#[derive(Clone, Copy, Debug, PartialEq, Eq, Structural)]
pub struct Collector {
    /// Remaining time to the next internal event; `Never` while passive.
    pub sigma: TimeVal,
    /// Delay between receiving a value and emitting it.
    pub react_delay: u64,
    /// Number of external transitions taken so far.
    pub received: u64,
    /// The first value on the input port at the last delivery.
    pub last_seen: u64,
    /// The elapsed time handed to the last external transition.
    pub last_elapsed: u64,
    /// How many values the last delivery put on the input port.
    pub port_count: u64,
}

impl Collector {
    /// A passive collector that reacts `react_delay` after an input.
    pub fn new(react_delay: u64) -> (c: Collector)
        ensures
            c == (Collector {
                sigma: TimeVal::Never,
                react_delay,
                received: 0,
                last_seen: 0,
                last_elapsed: 0,
                port_count: 0,
            }),
    {
        Collector {
            sigma: TimeVal::Never,
            react_delay,
            received: 0,
            last_seen: 0,
            last_elapsed: 0,
            port_count: 0,
        }
    }
}

impl AtomicModel for Collector {
    type Value = u64;

    open spec fn ta_spec(self) -> TimeVal {
        self.sigma
    }

    open spec fn int_spec(self) -> Self {
        Collector {
            sigma: TimeVal::Never,
            react_delay: self.react_delay,
            received: self.received,
            last_seen: self.last_seen,
            last_elapsed: self.last_elapsed,
            port_count: self.port_count,
        }
    }

    open spec fn ext_spec(self, elapsed: u64, inputs: Seq<Seq<u64>>) -> Self {
        Collector {
            sigma: TimeVal::At(self.react_delay),
            react_delay: self.react_delay,
            received: if self.received < u64::MAX {
                (self.received + 1) as u64
            } else {
                self.received
            },
            last_seen: if inputs.len() > 0 && inputs[0].len() > 0 {
                inputs[0][0]
            } else {
                self.last_seen
            },
            last_elapsed: elapsed,
            port_count: if inputs.len() > 0 {
                inputs[0].len() as u64
            } else {
                0
            },
        }
    }

    open spec fn out_spec(self) -> Seq<Seq<u64>> {
        seq![seq![self.last_seen]]
    }

    fn ta(&self) -> (r: TimeVal) {
        self.sigma
    }

    fn delta_int(&mut self) {
        self.sigma = TimeVal::Never;
    }

    fn delta_ext(&mut self, elapsed: u64, inputs: &Vec<Vec<u64>>) {
        self.sigma = TimeVal::At(self.react_delay);
        if self.received < u64::MAX {
            self.received = self.received + 1;
        }
        self.last_elapsed = elapsed;
        if inputs.len() > 0 {
            let port = &inputs[0];
            self.port_count = port.len() as u64;
            if port.len() > 0 {
                self.last_seen = port[0];
            }
        } else {
            self.port_count = 0;
        }
    }

    fn lambda(&self) -> (out: Vec<Vec<u64>>) {
        let mut p: Vec<u64> = Vec::new();
        p.push(self.last_seen);
        let mut out: Vec<Vec<u64>> = Vec::new();
        out.push(p);
        proof {
            assert(bags_view(out@) =~= self.out_spec());
        }
        out
    }
}

/// The closed sum of the sample models: a coordinator drives a network of
/// these, dispatching each call to the variant's own transition functions.
#[derive(Clone, Copy, Debug, PartialEq, Eq, Structural)]
pub enum SampleModel {
    Generator(Generator),
    Collector(Collector),
}

impl AtomicModel for SampleModel {
    type Value = u64;

    open spec fn ta_spec(self) -> TimeVal {
        match self {
            SampleModel::Generator(g) => g.ta_spec(),
            SampleModel::Collector(c) => c.ta_spec(),
        }
    }

    open spec fn int_spec(self) -> Self {
        match self {
            SampleModel::Generator(g) => SampleModel::Generator(g.int_spec()),
            SampleModel::Collector(c) => SampleModel::Collector(c.int_spec()),
        }
    }

    open spec fn ext_spec(self, elapsed: u64, inputs: Seq<Seq<u64>>) -> Self {
        match self {
            SampleModel::Generator(g) => SampleModel::Generator(g.ext_spec(elapsed, inputs)),
            SampleModel::Collector(c) => SampleModel::Collector(c.ext_spec(elapsed, inputs)),
        }
    }

    open spec fn out_spec(self) -> Seq<Seq<u64>> {
        match self {
            SampleModel::Generator(g) => g.out_spec(),
            SampleModel::Collector(c) => c.out_spec(),
        }
    }

    fn ta(&self) -> (r: TimeVal) {
        match self {
            SampleModel::Generator(g) => g.ta(),
            SampleModel::Collector(c) => c.ta(),
        }
    }

    fn delta_int(&mut self) {
        match self {
            SampleModel::Generator(g) => g.delta_int(),
            SampleModel::Collector(c) => c.delta_int(),
        }
    }

    fn delta_ext(&mut self, elapsed: u64, inputs: &Vec<Vec<u64>>) {
        match self {
            SampleModel::Generator(g) => g.delta_ext(elapsed, inputs),
            SampleModel::Collector(c) => c.delta_ext(elapsed, inputs),
        }
    }

    fn lambda(&self) -> (out: Vec<Vec<u64>>) {
        match self {
            SampleModel::Generator(g) => g.lambda(),
            SampleModel::Collector(c) => c.lambda(),
        }
    }
}

} // verus!
