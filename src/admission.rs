use vstd::prelude::*;

verus! {

/// Size of the permit pool: the most tunnels that may be live at once.
pub const MAX_CONCURRENT: usize = 1000;

/// An acquire or a release.
pub enum GateOp {
    /// Ask for a permit; granted only when one is free.
    Acquire,
    /// Give a permit back; ignored when none is out.
    Release,
}

/// A counting gate over a fixed pool of permits.
pub struct AdmissionGate {
    capacity: usize,
    available: usize,
}

/// The permits free after `op` on a gate of `capacity` with `available` free.
pub open spec fn gate_step(capacity: nat, available: nat, op: GateOp) -> nat {
    match op {
        GateOp::Acquire => if available > 0 {
            (available - 1) as nat
        } else {
            available
        },
        GateOp::Release => if available < capacity {
            available + 1
        } else {
            available
        },
    }
}

/// The permits free after `ops`, in order, starting from `available`.
pub open spec fn gate_run(capacity: nat, available: nat, ops: Seq<GateOp>) -> nat
    decreases ops.len(),
{
    if ops.len() == 0 {
        available
    } else {
        gate_run(capacity, gate_step(capacity, available, ops[0]), ops.drop_first())
    }
}

impl AdmissionGate {
    /// The pool's size.
    pub closed spec fn capacity_spec(&self) -> nat {
        self.capacity as nat
    }

    /// The permits free now.
    pub closed spec fn available_spec(&self) -> nat {
        self.available as nat
    }

    /// The permits acquired and not yet released.
    pub open spec fn in_use(&self) -> int {
        self.capacity_spec() - self.available_spec()
    }

    /// No more permits are free than the pool holds.
    pub open spec fn wf(&self) -> bool {
        self.available_spec() <= self.capacity_spec()
    }

    /// A gate with `capacity` permits, all free.
    pub fn new(capacity: usize) -> (r: AdmissionGate)
        ensures
            r.wf(),
            r.capacity_spec() == capacity,
            r.available_spec() == capacity,
    {
        AdmissionGate { capacity, available: capacity }
    }

    /// A gate with `MAX_CONCURRENT` permits, all free.
    pub fn standard() -> (r: AdmissionGate)
        ensures
            r.wf(),
            r.capacity_spec() == MAX_CONCURRENT,
            r.available_spec() == MAX_CONCURRENT,
    {
        Self::new(MAX_CONCURRENT)
    }

    /// The pool's size.
    pub fn capacity(&self) -> (r: usize)
        ensures
            r == self.capacity_spec(),
    {
        self.capacity
    }

    /// The permits free now.
    pub fn available(&self) -> (r: usize)
        ensures
            r == self.available_spec(),
    {
        self.available
    }

    /// Takes a permit if one is free. `false` means the caller must wait for
    /// a release.
    pub fn try_acquire(&mut self) -> (r: bool)
        requires
            old(self).wf(),
        ensures
            final(self).wf(),
            r == (old(self).available_spec() > 0),
            final(self).capacity_spec() == old(self).capacity_spec(),
            final(self).available_spec() == gate_step(
                old(self).capacity_spec(),
                old(self).available_spec(),
                GateOp::Acquire,
            ),
    {
        if self.available > 0 {
            self.available = self.available - 1;
            true
        } else {
            false
        }
    }

    /// Gives a permit back. A release with no permit out changes nothing.
    pub fn release(&mut self)
        requires
            old(self).wf(),
        ensures
            final(self).wf(),
            final(self).capacity_spec() == old(self).capacity_spec(),
            final(self).available_spec() == gate_step(
                old(self).capacity_spec(),
                old(self).available_spec(),
                GateOp::Release,
            ),
    {
        if self.available < self.capacity {
            self.available = self.available + 1;
        }
    }

    /// Whether the free permits have dropped to a tenth of the pool or fewer,
    /// which callers report as a warning.
    pub fn is_low(&self) -> (r: bool)
        ensures
            r == (self.available_spec() * 10 <= self.capacity_spec()),
    {
        self.available <= self.capacity / 10
    }
}

/// Under any interleaving of acquires and releases, starting from a
/// well-formed gate, the free permits never exceed the pool, so the permits
/// out (`capacity` minus the free ones) never exceed `capacity` either.
pub proof fn lemma_gate_never_overcommits(capacity: nat, available: nat, ops: Seq<GateOp>)
    requires
        available <= capacity,
    ensures
        gate_run(capacity, available, ops) <= capacity,
        capacity - gate_run(capacity, available, ops) <= capacity,
    decreases ops.len(),
{
    if ops.len() > 0 {
        lemma_gate_never_overcommits(capacity, gate_step(capacity, available, ops[0]), ops.drop_first());
    }
}

} // verus!
