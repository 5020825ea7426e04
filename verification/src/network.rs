//! Coupled-model structure: the interfaces of the child components and the
//! coupling table that routes output ports to input ports. The table is
//! checked once, at construction, and is immutable afterwards.

use vstd::prelude::*;

verus! {

/// How many input and output ports a component exposes.
#[derive(Clone, Copy, Debug, PartialEq, Eq, Structural)]
pub struct Interface {
    pub n_in: usize,
    pub n_out: usize,
}

/// A directed routing edge: every value on the source component's output
/// port is delivered to the destination component's input port.
#[derive(Clone, Copy, Debug, PartialEq, Eq, Structural)]
pub struct Coupling {
    pub src_model: usize,
    pub src_port: usize,
    pub dst_model: usize,
    pub dst_port: usize,
}

/// Why a model hierarchy was rejected at construction time; each variant
/// names the offending coupling (by its position in the table) or the
/// mismatched count, so the fault can be diagnosed before any step runs.
#[derive(Clone, Copy, Debug, PartialEq, Eq, Structural)]
pub enum ConfigError {
    /// The coupling's source names a component that does not exist.
    SourceModelMissing { coupling: usize },
    /// The coupling's source names an output port its component lacks.
    SourcePortMissing { coupling: usize },
    /// The coupling's destination names a component that does not exist.
    DestinationModelMissing { coupling: usize },
    /// The coupling's destination names an input port its component lacks.
    DestinationPortMissing { coupling: usize },
    /// The number of models handed to the coordinator differs from the
    /// number of declared interfaces.
    ModelCountMismatch,
}

/// The coupling references an existing source output port and an existing
/// destination input port.
pub open spec fn coupling_admissible(c: Coupling, ifaces: Seq<Interface>) -> bool {
    &&& (c.src_model as int) < ifaces.len()
    &&& (c.src_port as int) < ifaces[c.src_model as int].n_out
    &&& (c.dst_model as int) < ifaces.len()
    &&& (c.dst_port as int) < ifaces[c.dst_model as int].n_in
}

/// The first reason, in a fixed order of checks, for which the coupling at
/// position `k` is rejected, or `None` if it is admissible.
pub open spec fn coupling_error(c: Coupling, ifaces: Seq<Interface>, k: int) -> Option<
    ConfigError,
> {
    if !((c.src_model as int) < ifaces.len()) {
        Some(ConfigError::SourceModelMissing { coupling: k as usize })
    } else if !((c.src_port as int) < ifaces[c.src_model as int].n_out) {
        Some(ConfigError::SourcePortMissing { coupling: k as usize })
    } else if !((c.dst_model as int) < ifaces.len()) {
        Some(ConfigError::DestinationModelMissing { coupling: k as usize })
    } else if !((c.dst_port as int) < ifaces[c.dst_model as int].n_in) {
        Some(ConfigError::DestinationPortMissing { coupling: k as usize })
    } else {
        None
    }
}

/// The static shape of a coupled model: child interfaces and the checked
/// coupling table.
pub struct Network {
    pub ifaces: Vec<Interface>,
    pub couplings: Vec<Coupling>,
}

impl Network {
    /// Every coupling of the table references existing ports.
    pub open spec fn valid(self) -> bool {
        forall|k: int|
            0 <= k < self.couplings@.len() ==> coupling_admissible(
                #[trigger] self.couplings@[k],
                self.ifaces@,
            )
    }

    /// Checks the coupling table against the interfaces. Succeeds if and
    /// only if every coupling references an existing source output port and
    /// an existing destination input port; otherwise reports the first
    /// offending coupling, and no simulation can be built from the table.
    pub fn new(ifaces: Vec<Interface>, couplings: Vec<Coupling>) -> (r: Result<
        Network,
        ConfigError,
    >)
        ensures
            r is Ok <==> (forall|k: int|
                0 <= k < couplings@.len() ==> coupling_admissible(
                    #[trigger] couplings@[k],
                    ifaces@,
                )),
            r matches Ok(n) ==> n.ifaces@ == ifaces@ && n.couplings@ == couplings@ && n.valid(),
            r matches Err(e) ==> exists|k: int|
                0 <= k < couplings@.len() && (forall|j: int|
                    0 <= j < k ==> coupling_admissible(#[trigger] couplings@[j], ifaces@))
                    && coupling_error(couplings@[k], ifaces@, k) == Some(e),
    {
        let n_models: usize = ifaces.len();
        let mut k: usize = 0;
        while k < couplings.len()
            invariant
                k <= couplings@.len(),
                n_models == ifaces@.len(),
                forall|j: int| 0 <= j < k ==> coupling_admissible(#[trigger] couplings@[j], ifaces@),
            decreases couplings@.len() - k,
        {
            let c = couplings[k];
            if !(c.src_model < n_models) {
                return Err(ConfigError::SourceModelMissing { coupling: k });
            }
            if !(c.src_port < ifaces[c.src_model].n_out) {
                return Err(ConfigError::SourcePortMissing { coupling: k });
            }
            if !(c.dst_model < n_models) {
                return Err(ConfigError::DestinationModelMissing { coupling: k });
            }
            if !(c.dst_port < ifaces[c.dst_model].n_in) {
                return Err(ConfigError::DestinationPortMissing { coupling: k });
            }
            k = k + 1;
        }
        Ok(Network { ifaces, couplings })
    }
}

} // verus!
