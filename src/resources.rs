//! Optional cpu and memory amounts, summed by coalescing addition (an absent
//! amount is the identity, not zero) and differenced by saturating subtraction.
use vstd::prelude::*;
use crate::units::{Cpu, Memory, sat_add, sat_sub};

verus! {

/// A cpu amount and a memory amount, each possibly not declared.
#[derive(Debug, Clone, Copy, PartialEq, Eq, Structural)]
pub struct ResourcePair {
    pub cpu: Option<Cpu>,
    pub memory: Option<Memory>,
}

/// How far usage stays below requests and below limits.
#[derive(Debug, Clone, Copy, PartialEq, Eq, Structural)]
pub struct UsageDifference {
    pub requests: ResourcePair,
    pub limits: ResourcePair,
}

/// The declared and measured resources of a container, or a sum of them.
#[derive(Debug, Clone, Copy, PartialEq, Eq, Structural)]
pub struct Resources {
    pub usage: ResourcePair,
    pub requests: ResourcePair,
    pub limits: ResourcePair,
    pub difference: UsageDifference,
}

/// Coalescing sum of optional amounts.
pub open spec fn opt_add(a: Option<u64>, b: Option<u64>) -> Option<u64> {
    match (a, b) {
        (Some(x), Some(y)) => Some(sat_add(x, y)),
        (Some(x), None) => Some(x),
        (None, Some(y)) => Some(y),
        (None, None) => None,
    }
}

/// Saturating difference of optional amounts, present only when both are.
pub open spec fn opt_sub(a: Option<u64>, b: Option<u64>) -> Option<u64> {
    match (a, b) {
        (Some(x), Some(y)) => Some(sat_sub(x, y)),
        _ => None,
    }
}

pub open spec fn cpu_amount(c: Option<Cpu>) -> Option<u64> {
    match c {
        Some(c) => Some(c.0),
        None => None,
    }
}

pub open spec fn memory_amount(m: Option<Memory>) -> Option<u64> {
    match m {
        Some(m) => Some(m.0),
        None => None,
    }
}

pub open spec fn as_cpu(a: Option<u64>) -> Option<Cpu> {
    match a {
        Some(v) => Some(Cpu(v)),
        None => None,
    }
}

pub open spec fn as_memory(a: Option<u64>) -> Option<Memory> {
    match a {
        Some(v) => Some(Memory(v)),
        None => None,
    }
}

pub open spec fn empty_pair() -> ResourcePair {
    ResourcePair { cpu: None, memory: None }
}

pub open spec fn empty_resources() -> Resources {
    Resources {
        usage: empty_pair(),
        requests: empty_pair(),
        limits: empty_pair(),
        difference: UsageDifference { requests: empty_pair(), limits: empty_pair() },
    }
}

pub open spec fn pair_plus(a: ResourcePair, b: ResourcePair) -> ResourcePair {
    ResourcePair {
        cpu: as_cpu(opt_add(cpu_amount(a.cpu), cpu_amount(b.cpu))),
        memory: as_memory(opt_add(memory_amount(a.memory), memory_amount(b.memory))),
    }
}

pub open spec fn pair_minus(a: ResourcePair, b: ResourcePair) -> ResourcePair {
    ResourcePair {
        cpu: as_cpu(opt_sub(cpu_amount(a.cpu), cpu_amount(b.cpu))),
        memory: as_memory(opt_sub(memory_amount(a.memory), memory_amount(b.memory))),
    }
}

pub open spec fn difference_plus(a: UsageDifference, b: UsageDifference) -> UsageDifference {
    UsageDifference {
        requests: pair_plus(a.requests, b.requests),
        limits: pair_plus(a.limits, b.limits),
    }
}

pub open spec fn resources_plus(a: Resources, b: Resources) -> Resources {
    Resources {
        usage: pair_plus(a.usage, b.usage),
        requests: pair_plus(a.requests, b.requests),
        limits: pair_plus(a.limits, b.limits),
        difference: difference_plus(a.difference, b.difference),
    }
}

/// The differences that requests, limits and usage determine.
pub open spec fn derived_difference(r: Resources) -> UsageDifference {
    UsageDifference {
        requests: pair_minus(r.requests, r.usage),
        limits: pair_minus(r.limits, r.usage),
    }
}

/// Coalescing addition of optional amounts is associative.
pub proof fn lemma_opt_add_associative(a: Option<u64>, b: Option<u64>, c: Option<u64>)
    ensures
        opt_add(opt_add(a, b), c) == opt_add(a, opt_add(b, c)),
{
}

/// Coalescing addition: two amounts add up (clamped at `u64::MAX`), a single
/// amount is kept, and nothing plus nothing is nothing.
pub proof fn lemma_coalescing_add(a: u64, b: u64)
    ensures
        opt_add(Some(a), Some(b)) == Some(sat_add(a, b)),
        a + b <= u64::MAX ==> opt_add(Some(a), Some(b)) == Some((a + b) as u64),
        opt_add(Some(a), None) == Some(a),
        opt_add(None, Some(b)) == Some(b),
        opt_add(None, None) == None::<u64>,
{
}

proof fn lemma_cpu_roundtrip(c: Option<Cpu>)
    ensures
        as_cpu(cpu_amount(c)) == c,
{
}

proof fn lemma_memory_roundtrip(m: Option<Memory>)
    ensures
        as_memory(memory_amount(m)) == m,
{
}

proof fn lemma_pair_laws(a: ResourcePair, b: ResourcePair, c: ResourcePair)
    ensures
        pair_plus(a, b) == pair_plus(b, a),
        pair_plus(pair_plus(a, b), c) == pair_plus(a, pair_plus(b, c)),
        pair_plus(a, empty_pair()) == a,
{
    lemma_opt_add_associative(cpu_amount(a.cpu), cpu_amount(b.cpu), cpu_amount(c.cpu));
    lemma_opt_add_associative(memory_amount(a.memory), memory_amount(b.memory), memory_amount(c.memory));
    lemma_cpu_roundtrip(a.cpu);
    lemma_memory_roundtrip(a.memory);
    let ab = opt_add(cpu_amount(a.cpu), cpu_amount(b.cpu));
    let bc = opt_add(cpu_amount(b.cpu), cpu_amount(c.cpu));
    assert(cpu_amount(as_cpu(ab)) == ab);
    assert(cpu_amount(as_cpu(bc)) == bc);
    let mab = opt_add(memory_amount(a.memory), memory_amount(b.memory));
    let mbc = opt_add(memory_amount(b.memory), memory_amount(c.memory));
    assert(memory_amount(as_memory(mab)) == mab);
    assert(memory_amount(as_memory(mbc)) == mbc);
}

/// Summing resources is commutative.
pub proof fn lemma_resources_plus_commutative(a: Resources, b: Resources)
    ensures
        resources_plus(a, b) == resources_plus(b, a),
{
    lemma_pair_laws(a.usage, b.usage, a.usage);
    lemma_pair_laws(a.requests, b.requests, a.requests);
    lemma_pair_laws(a.limits, b.limits, a.limits);
    lemma_pair_laws(a.difference.requests, b.difference.requests, a.difference.requests);
    lemma_pair_laws(a.difference.limits, b.difference.limits, a.difference.limits);
}

/// Summing resources is associative.
pub proof fn lemma_resources_plus_associative(a: Resources, b: Resources, c: Resources)
    ensures
        resources_plus(resources_plus(a, b), c) == resources_plus(a, resources_plus(b, c)),
{
    lemma_pair_laws(a.usage, b.usage, c.usage);
    lemma_pair_laws(a.requests, b.requests, c.requests);
    lemma_pair_laws(a.limits, b.limits, c.limits);
    lemma_pair_laws(a.difference.requests, b.difference.requests, c.difference.requests);
    lemma_pair_laws(a.difference.limits, b.difference.limits, c.difference.limits);
}

/// Resources with nothing declared or measured are the identity of summing.
pub proof fn lemma_resources_plus_identity(a: Resources)
    ensures
        resources_plus(a, empty_resources()) == a,
        resources_plus(empty_resources(), a) == a,
{
    lemma_pair_laws(a.usage, empty_pair(), a.usage);
    lemma_pair_laws(a.requests, empty_pair(), a.requests);
    lemma_pair_laws(a.limits, empty_pair(), a.limits);
    lemma_pair_laws(a.difference.requests, empty_pair(), a.difference.requests);
    lemma_pair_laws(a.difference.limits, empty_pair(), a.difference.limits);
    lemma_pair_laws(empty_pair(), a.usage, a.usage);
    lemma_pair_laws(empty_pair(), a.requests, a.requests);
    lemma_pair_laws(empty_pair(), a.limits, a.limits);
    lemma_pair_laws(empty_pair(), a.difference.requests, a.difference.requests);
    lemma_pair_laws(empty_pair(), a.difference.limits, a.difference.limits);
}

fn cpu_plus(a: Option<Cpu>, b: Option<Cpu>) -> (r: Option<Cpu>)
    ensures
        r == as_cpu(opt_add(cpu_amount(a), cpu_amount(b))),
{
    match (a, b) {
        (Some(x), Some(y)) => Some(x.add(y)),
        (Some(x), None) => Some(x),
        (None, Some(y)) => Some(y),
        (None, None) => None,
    }
}

fn memory_plus(a: Option<Memory>, b: Option<Memory>) -> (r: Option<Memory>)
    ensures
        r == as_memory(opt_add(memory_amount(a), memory_amount(b))),
{
    match (a, b) {
        (Some(x), Some(y)) => Some(x.add(y)),
        (Some(x), None) => Some(x),
        (None, Some(y)) => Some(y),
        (None, None) => None,
    }
}

fn cpu_minus(a: Option<Cpu>, b: Option<Cpu>) -> (r: Option<Cpu>)
    ensures
        r == as_cpu(opt_sub(cpu_amount(a), cpu_amount(b))),
{
    match (a, b) {
        (Some(x), Some(y)) => Some(x.saturating_sub(y)),
        _ => None,
    }
}

fn memory_minus(a: Option<Memory>, b: Option<Memory>) -> (r: Option<Memory>)
    ensures
        r == as_memory(opt_sub(memory_amount(a), memory_amount(b))),
{
    match (a, b) {
        (Some(x), Some(y)) => Some(x.saturating_sub(y)),
        _ => None,
    }
}

impl ResourcePair {
    /// Nothing declared or measured.
    pub fn empty() -> (r: Self)
        ensures
            r == empty_pair(),
    {
        ResourcePair { cpu: None, memory: None }
    }

    /// Field-wise coalescing sum.
    pub fn add(&self, rhs: &ResourcePair) -> (r: ResourcePair)
        ensures
            r == pair_plus(*self, *rhs),
    {
        ResourcePair { cpu: cpu_plus(self.cpu, rhs.cpu), memory: memory_plus(self.memory, rhs.memory) }
    }

    /// Field-wise saturating difference; a field is present only where it is
    /// present on both sides.
    pub fn sub(&self, rhs: &ResourcePair) -> (r: ResourcePair)
        ensures
            r == pair_minus(*self, *rhs),
    {
        ResourcePair {
            cpu: cpu_minus(self.cpu, rhs.cpu),
            memory: memory_minus(self.memory, rhs.memory),
        }
    }
}

impl UsageDifference {
    /// Field-wise coalescing sum.
    pub fn add(&self, rhs: &UsageDifference) -> (r: UsageDifference)
        ensures
            r == difference_plus(*self, *rhs),
    {
        UsageDifference { requests: self.requests.add(&rhs.requests), limits: self.limits.add(&rhs.limits) }
    }
}

impl Resources {
    /// Field-wise coalescing sum.
    pub fn add(&self, rhs: &Resources) -> (r: Resources)
        ensures
            r == resources_plus(*self, *rhs),
    {
        Resources {
            usage: self.usage.add(&rhs.usage),
            requests: self.requests.add(&rhs.requests),
            limits: self.limits.add(&rhs.limits),
            difference: self.difference.add(&rhs.difference),
        }
    }

    /// Declared requests and limits, with no usage measured yet.
    pub fn declared(requests: ResourcePair, limits: ResourcePair) -> (r: Resources)
        ensures
            r.requests == requests,
            r.limits == limits,
            r.usage == empty_pair(),
            r.difference == derived_difference(r),
    {
        Resources {
            usage: ResourcePair::empty(),
            requests,
            limits,
            difference: UsageDifference { requests: ResourcePair::empty(), limits: ResourcePair::empty() },
        }
    }

    /// Replaces the cpu usage and recomputes the differences.
    pub fn set_cpu_usage(self, cpu_usage: Option<Cpu>) -> (r: Resources)
        ensures
            r.usage == (ResourcePair { cpu: cpu_usage, memory: self.usage.memory }),
            r.requests == self.requests,
            r.limits == self.limits,
            r.difference == derived_difference(r),
    {
        let mut r = self;
        r.usage.cpu = cpu_usage;
        r.difference.requests = r.requests.sub(&r.usage);
        r.difference.limits = r.limits.sub(&r.usage);
        r
    }

    /// Replaces the memory usage and recomputes the differences.
    pub fn set_memory_usage(self, memory_usage: Option<Memory>) -> (r: Resources)
        ensures
            r.usage == (ResourcePair { cpu: self.usage.cpu, memory: memory_usage }),
            r.requests == self.requests,
            r.limits == self.limits,
            r.difference == derived_difference(r),
    {
        let mut r = self;
        r.usage.memory = memory_usage;
        r.difference.requests = r.requests.sub(&r.usage);
        r.difference.limits = r.limits.sub(&r.usage);
        r
    }
}

} // verus!
