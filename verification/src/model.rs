//! The atomic-model contract: state, the four DEVS functions, and their
//! mathematical models. The coordinator drives any implementation of this
//! trait and its guarantees hold for every conforming model.

use vstd::prelude::*;
use crate::ports::bags_view;
use crate::timing::TimeVal;

verus! {

/// A DEVS atomic model: a state value together with the four transition
/// functions. Each executable function is tied to a spec-level function of
/// the state alone, so a model's behaviour is a mathematical function of its
/// state and inputs — the ground for the determinism of a whole run.
///
/// The confluent convention used by the coordinator is: when an internal
/// event and external input coincide, the output and internal transition
/// fire first, then the external transition fires on the post-internal state
/// with elapsed time zero.
pub trait AtomicModel: Sized {
    /// The values carried on this model's ports.
    type Value: Copy;

    /// The time advance as a function of the state: how long after its last
    /// event the model's next internal event is due, or `Never`.
    spec fn ta_spec(self) -> TimeVal;

    /// The state after an internal transition.
    spec fn int_spec(self) -> Self;

    /// The state after an external transition, given the elapsed time since
    /// the model's last event and the contents of its input ports.
    spec fn ext_spec(self, elapsed: u64, inputs: Seq<Seq<Self::Value>>) -> Self;

    /// The values the output function writes, one sequence per output port,
    /// as a function of the state before the internal transition.
    spec fn out_spec(self) -> Seq<Seq<Self::Value>>;

    /// Time-advance function. Pure: must equal `ta_spec` of the state.
    fn ta(&self) -> (r: TimeVal)
        ensures
            r == self.ta_spec(),
    ;

    /// Internal transition: fires exactly when the elapsed time since the
    /// last event reaches the time advance.
    fn delta_int(&mut self)
        ensures
            *final(self) == old(self).int_spec(),
    ;

    /// External transition: fires when input values have been delivered,
    /// with `elapsed` the time since this model's last event.
    fn delta_ext(&mut self, elapsed: u64, inputs: &Vec<Vec<Self::Value>>)
        ensures
            *final(self) == old(self).ext_spec(elapsed, bags_view(inputs@)),
    ;

    /// Output function: invoked immediately before an internal transition,
    /// on the state as it is before that transition; observes the state and
    /// returns the produced values, one sequence per output port.
    fn lambda(&self) -> (out: Vec<Vec<Self::Value>>)
        ensures
            bags_view(out@) == self.out_spec(),
    ;
}

} // verus!
