//! The pool of TCP ports that proxied servers and RCON listeners draw from:
//! the lowest free port of a configured range is handed out, and a port
//! given back can be handed out again.
use crate::config::PortConfig;
use std::collections::HashSet;
use vstd::prelude::*;

verus! {

broadcast use vstd::std_specs::hash::group_hash_axioms;

/// The configured range and the ports now held.
#[derive(Debug)]
pub struct PortPool {
    start: u16,
    end: u16,
    used_ports: HashSet<u16>,
}

/// A port held from the pool.
#[derive(Debug)]
pub struct Port {
    port: u16,
}

/// Why no port could be handed out.
#[derive(Debug, Clone, Copy, PartialEq, Eq, Structural)]
pub enum PortError {
    /// Every port of the range is held.
    Exhausted,
}

impl PortPool {
    /// The first port of the range.
    pub closed spec fn spec_start(&self) -> u16 {
        self.start
    }

    /// The last port of the range.
    pub closed spec fn spec_end(&self) -> u16 {
        self.end
    }

    /// The ports now held.
    pub closed spec fn spec_used(&self) -> Set<u16> {
        self.used_ports@
    }

    /// Every port of the range is held.
    pub open spec fn exhausted(&self) -> bool {
        forall|q: u16| self.spec_start() <= q <= self.spec_end() ==> #[trigger] self.spec_used().contains(q)
    }

    /// Whether `port` is held.
    pub fn is_used(&self, port: u16) -> (r: bool)
        ensures
            r == self.spec_used().contains(port),
    {
        self.used_ports.contains(&port)
    }

    /// Gives `port` back to the pool.
    pub fn release(&mut self, port: Port)
        ensures
            final(self).spec_used() == old(self).spec_used().remove(port.spec_port()),
            final(self).spec_start() == old(self).spec_start(),
            final(self).spec_end() == old(self).spec_end(),
    {
        self.used_ports.remove(&port.port);
    }
}

/// A pool over the configured range with no port held.
pub fn init_port_pool(config: &PortConfig) -> (r: PortPool)
    ensures
        r.spec_start() == config.min,
        r.spec_end() == config.max,
        r.spec_used() == Set::<u16>::empty(),
{
    PortPool { start: config.min, end: config.max, used_ports: HashSet::new() }
}

impl Port {
    /// The port number.
    pub closed spec fn spec_port(&self) -> u16 {
        self.port
    }

    /// Takes the lowest free port of the range; fails, holding nothing more,
    /// when every port of the range is held.
    pub fn acquire(pool: &mut PortPool) -> (r: Result<Port, PortError>)
        ensures
            final(pool).spec_start() == old(pool).spec_start(),
            final(pool).spec_end() == old(pool).spec_end(),
            match r {
                Ok(p) => {
                    &&& old(pool).spec_start() <= p.spec_port() <= old(pool).spec_end()
                    &&& !old(pool).spec_used().contains(p.spec_port())
                    &&& forall|q: u16| old(pool).spec_start() <= q < p.spec_port() ==> #[trigger] old(pool).spec_used().contains(q)
                    &&& final(pool).spec_used() == old(pool).spec_used().insert(p.spec_port())
                },
                Err(PortError::Exhausted) => old(pool).exhausted() && final(pool).spec_used() == old(pool).spec_used(),
            },
    {
        let mut candidate: u32 = pool.start as u32;
        while candidate <= pool.end as u32
            invariant
                pool.start <= candidate <= pool.end as u32 + 1 || candidate == pool.start,
                *pool == *old(pool),
                forall|q: u16| pool.start <= q < candidate ==> #[trigger] pool.used_ports@.contains(q),
            decreases pool.end as u32 + 1 - candidate,
        {
            let port = candidate as u16;
            if !pool.used_ports.contains(&port) {
                pool.used_ports.insert(port);
                return Ok(Port { port });
            }
            candidate = candidate + 1;
        }
        Err(PortError::Exhausted)
    }

    /// The port number.
    pub fn port(&self) -> (r: u16)
        ensures
            r == self.spec_port(),
    {
        self.port
    }
}

/// A port of the range that is not held keeps the pool from being
/// exhausted: once a record gives its port back, acquiring succeeds again.
pub proof fn lemma_released_port_acquirable(pool: PortPool, p: u16)
    requires
        pool.spec_start() <= p <= pool.spec_end(),
        !pool.spec_used().contains(p),
    ensures
        !pool.exhausted(),
{
}

} // verus!
