use vstd::prelude::*;

verus! {

/// One parsed step of a run: probe a TCP port, probe a UDP port, or sleep
/// for a number of seconds.
#[derive(Copy, Clone, Debug, PartialEq, Eq, Hash, Structural)]
pub enum Target {
    /// Attempt a TCP connection to the destination on `port`.
    Tcp { port: u16 },
    /// Send one empty UDP datagram to the destination on `port`.
    Udp { port: u16 },
    /// Block for `secs` seconds.
    Sleep { secs: u8 },
}

impl Target {
    /// A well-formed target: ports are never zero, and an explicit sleep
    /// lasts at least one second. The parser only produces such targets.
    pub open spec fn wf(self) -> bool {
        match self {
            Target::Tcp { port } => port != 0,
            Target::Udp { port } => port != 0,
            Target::Sleep { secs } => secs != 0,
        }
    }

    /// True when the target is a probe (TCP or UDP) rather than a sleep.
    pub open spec fn spec_is_probe(self) -> bool {
        !(self is Sleep)
    }

    /// Despite its name, returns `true` when the target is *not* a sleep:
    /// the sequencer asks it whether a global sleep may precede the action.
    #[inline]
    pub fn is_sleep(&self) -> (r: bool)
        ensures
            r == self.spec_is_probe(),
    {
        !(matches!(self, Target::Sleep { .. }))
    }
}

/// The parsed run configuration: the global inter-action sleep (0 disables
/// the feature), the destination host, and the ordered target list, whose
/// order is the execution order.
#[derive(Clone, Debug, PartialEq, Eq)]
pub struct Opts {
    /// Seconds to sleep between consecutive probe actions; 0 disables it.
    pub global_sleep: u8,
    /// The destination host to probe.
    pub dst: String,
    /// The ordered list of targets to run.
    pub targets: Vec<Target>,
}

impl Opts {
    /// A well-formed configuration holds only well-formed targets.
    pub open spec fn wf(self) -> bool {
        forall|i: int| 0 <= i < self.targets@.len() ==> (#[trigger] self.targets@[i]).wf()
    }
}

} // verus!
