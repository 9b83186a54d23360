//! The transfer scheduler: a size-classed admission controller. Each
//! class has its own concurrency cap and a first-in-first-out waiter
//! queue, so small interactive transfers are never starved by bulk ones.

use vstd::prelude::*;

verus! {

/// The ceiling of the small class, about a mebibyte.
pub const SMALL_MAX_BYTES: u64 = 1048576;

/// The ceiling of the medium class, about sixty-four mebibytes.
pub const MEDIUM_MAX_BYTES: u64 = 67108864;

/// The three transfer size classes.
#[derive(Clone, Copy, PartialEq, Eq, Structural, Debug)]
pub enum SizeClass {
    Small,
    Medium,
    Large,
}

impl SizeClass {
    /// The class a transfer of `size` bytes falls into.
    pub open spec fn spec_of_size(size: u64) -> SizeClass {
        if size <= SMALL_MAX_BYTES {
            SizeClass::Small
        } else if size <= MEDIUM_MAX_BYTES {
            SizeClass::Medium
        } else {
            SizeClass::Large
        }
    }

    pub fn of_size(size: u64) -> (c: SizeClass)
        ensures
            c == Self::spec_of_size(size),
    {
        if size <= SMALL_MAX_BYTES {
            SizeClass::Small
        } else if size <= MEDIUM_MAX_BYTES {
            SizeClass::Medium
        } else {
            SizeClass::Large
        }
    }

    /// The class's name.
    pub fn name(&self) -> (s: &'static str)
        ensures
            self == SizeClass::Small ==> s@ == "small"@,
            self == SizeClass::Medium ==> s@ == "medium"@,
            self == SizeClass::Large ==> s@ == "large"@,
    {
        match self {
            SizeClass::Small => "small",
            SizeClass::Medium => "medium",
            SizeClass::Large => "large",
        }
    }
}

/// A granted slot in one class. The holder gives it back through
/// `release`; the permit holds nothing but its class.
pub struct TransferPermit {
    pub size_class: SizeClass,
}

/// The answer to an acquisition: a permit at once, or a ticket in the
/// class's queue. A queued caller suspends; it never spins and never
/// errors.
pub enum Admission {
    Granted(TransferPermit),
    Queued(u64),
}

/// The process-wide scheduler state: per-class caps, per-class counts in
/// use, and per-class first-in-first-out waiter queues.
pub struct TransferScheduler {
    pub small_cap: u64,
    pub medium_cap: u64,
    pub large_cap: u64,
    pub small_in_use: u64,
    pub medium_in_use: u64,
    pub large_in_use: u64,
    pub small_waiters: Vec<u64>,
    pub medium_waiters: Vec<u64>,
    pub large_waiters: Vec<u64>,
    pub next_ticket: u64,
}

impl TransferScheduler {
    pub open spec fn spec_in_use(&self, c: SizeClass) -> u64 {
        match c {
            SizeClass::Small => self.small_in_use,
            SizeClass::Medium => self.medium_in_use,
            SizeClass::Large => self.large_in_use,
        }
    }

    pub open spec fn spec_cap(&self, c: SizeClass) -> u64 {
        match c {
            SizeClass::Small => self.small_cap,
            SizeClass::Medium => self.medium_cap,
            SizeClass::Large => self.large_cap,
        }
    }

    pub open spec fn spec_waiters(&self, c: SizeClass) -> Seq<u64> {
        match c {
            SizeClass::Small => self.small_waiters@,
            SizeClass::Medium => self.medium_waiters@,
            SizeClass::Large => self.large_waiters@,
        }
    }

    /// Counts never pass caps; a queue only forms when its class is
    /// saturated; tickets are unique and below the next one.
    pub open spec fn wf(&self) -> bool {
        &&& self.small_in_use <= self.small_cap
        &&& self.medium_in_use <= self.medium_cap
        &&& self.large_in_use <= self.large_cap
        &&& (self.small_waiters@.len() > 0 ==> self.small_in_use == self.small_cap)
        &&& (self.medium_waiters@.len() > 0 ==> self.medium_in_use == self.medium_cap)
        &&& (self.large_waiters@.len() > 0 ==> self.large_in_use == self.large_cap)
        &&& (forall|i: int|
            0 <= i < self.small_waiters@.len() ==> (#[trigger] self.small_waiters@[i])
                < self.next_ticket)
        &&& (forall|i: int|
            0 <= i < self.medium_waiters@.len() ==> (#[trigger] self.medium_waiters@[i])
                < self.next_ticket)
        &&& (forall|i: int|
            0 <= i < self.large_waiters@.len() ==> (#[trigger] self.large_waiters@[i])
                < self.next_ticket)
        &&& (forall|i: int, j: int|
            0 <= i < self.small_waiters@.len() && 0 <= j < self.small_waiters@.len() && i != j
                ==> (#[trigger] self.small_waiters@[i]) != (#[trigger] self.small_waiters@[j]))
        &&& (forall|i: int, j: int|
            0 <= i < self.medium_waiters@.len() && 0 <= j < self.medium_waiters@.len() && i != j
                ==> (#[trigger] self.medium_waiters@[i]) != (
            #[trigger] self.medium_waiters@[j]))
        &&& (forall|i: int, j: int|
            0 <= i < self.large_waiters@.len() && 0 <= j < self.large_waiters@.len() && i != j
                ==> (#[trigger] self.large_waiters@[i]) != (#[trigger] self.large_waiters@[j]))
    }

    /// A scheduler with the given caps and no traffic.
    pub fn new(small_cap: u64, medium_cap: u64, large_cap: u64) -> (s: TransferScheduler)
        ensures
            s.wf(),
            s.spec_cap(SizeClass::Small) == small_cap,
            s.spec_cap(SizeClass::Medium) == medium_cap,
            s.spec_cap(SizeClass::Large) == large_cap,
            forall|c: SizeClass| #[trigger] s.spec_in_use(c) == 0,
            forall|c: SizeClass| (#[trigger] s.spec_waiters(c)).len() == 0,
    {
        TransferScheduler {
            small_cap,
            medium_cap,
            large_cap,
            small_in_use: 0,
            medium_in_use: 0,
            large_in_use: 0,
            small_waiters: Vec::new(),
            medium_waiters: Vec::new(),
            large_waiters: Vec::new(),
            next_ticket: 0,
        }
    }

    /// Admission to one class: a permit while a slot is free, otherwise a
    /// place at the back of the class's queue — the caller suspends
    /// rather than erring.
    pub fn acquire(&mut self, class: SizeClass) -> (r: Result<Admission, ()>)
        requires
            old(self).wf(),
        ensures
            final(self).wf(),
            match r {
                Result::Ok(adm) => {
                    &&& (forall|c: SizeClass|
                        c != class ==> #[trigger] final(self).spec_in_use(c) == old(
                            self,
                        ).spec_in_use(c) && final(self).spec_waiters(c) == old(
                            self,
                        ).spec_waiters(c))
                    &&& (match adm {
                        Admission::Granted(p) => {
                            &&& old(self).spec_in_use(class) < old(self).spec_cap(class)
                            &&& p.size_class == class
                            &&& final(self).spec_in_use(class) == old(self).spec_in_use(class)
                                + 1
                            &&& final(self).spec_waiters(class) == old(self).spec_waiters(class)
                        },
                        Admission::Queued(t) => {
                            &&& old(self).spec_in_use(class) == old(self).spec_cap(class)
                            &&& t == old(self).next_ticket
                            &&& final(self).spec_in_use(class) == old(self).spec_in_use(class)
                            &&& final(self).spec_waiters(class) == old(self).spec_waiters(
                                class,
                            ).push(t)
                        },
                    })
                },
                Result::Err(()) => *final(self) == *old(self) && old(self).next_ticket
                    == u64::MAX,
            },
    {
        let cap = match class {
            SizeClass::Small => self.small_cap,
            SizeClass::Medium => self.medium_cap,
            SizeClass::Large => self.large_cap,
        };
        let in_use = match class {
            SizeClass::Small => self.small_in_use,
            SizeClass::Medium => self.medium_in_use,
            SizeClass::Large => self.large_in_use,
        };
        if in_use < cap {
            match class {
                SizeClass::Small => {
                    self.small_in_use = self.small_in_use + 1;
                },
                SizeClass::Medium => {
                    self.medium_in_use = self.medium_in_use + 1;
                },
                SizeClass::Large => {
                    self.large_in_use = self.large_in_use + 1;
                },
            }
            Ok(Admission::Granted(TransferPermit { size_class: class }))
        } else {
            if self.next_ticket == u64::MAX {
                return Err(());
            }
            let t = self.next_ticket;
            self.next_ticket = self.next_ticket + 1;
            match class {
                SizeClass::Small => {
                    self.small_waiters.push(t);
                },
                SizeClass::Medium => {
                    self.medium_waiters.push(t);
                },
                SizeClass::Large => {
                    self.large_waiters.push(t);
                },
            }
            Ok(Admission::Queued(t))
        }
    }

    /// An upload permit, classed by the declared size hint; without a
    /// hint the transfer is assumed bulk.
    pub fn acquire_upload_permit(&mut self, size_hint: Option<u64>) -> (r: Result<Admission, ()>)
        requires
            old(self).wf(),
        ensures
            final(self).wf(),
    {
        let class = match size_hint {
            Option::Some(s) => SizeClass::of_size(s),
            Option::None => SizeClass::Large,
        };
        self.acquire(class)
    }

    /// A download permit, classed by the known size.
    pub fn acquire_download_permit(&mut self, size: u64) -> (r: Result<Admission, ()>)
        requires
            old(self).wf(),
        ensures
            final(self).wf(),
    {
        self.acquire(SizeClass::of_size(size))
    }

    /// Gives a slot back. When waiters queue, the slot passes straight to
    /// the head of the queue, first in, first out; the returned ticket is
    /// the waiter now holding a permit.
    pub fn release(&mut self, permit: TransferPermit) -> (r: Option<u64>)
        requires
            old(self).wf(),
        ensures
            final(self).wf(),
            forall|c: SizeClass|
                c != permit.size_class ==> #[trigger] final(self).spec_in_use(c) == old(
                    self,
                ).spec_in_use(c) && final(self).spec_waiters(c) == old(self).spec_waiters(c),
            match r {
                Option::Some(t) => {
                    &&& old(self).spec_waiters(permit.size_class).len() > 0
                    &&& t == old(self).spec_waiters(permit.size_class)[0]
                    &&& final(self).spec_waiters(permit.size_class) == old(self).spec_waiters(
                        permit.size_class,
                    ).drop_first()
                    &&& final(self).spec_in_use(permit.size_class) == old(self).spec_in_use(
                        permit.size_class,
                    )
                },
                Option::None => {
                    &&& old(self).spec_waiters(permit.size_class).len() == 0
                    &&& final(self).spec_waiters(permit.size_class) == old(self).spec_waiters(
                        permit.size_class,
                    )
                    &&& (old(self).spec_in_use(permit.size_class) > 0 ==> final(self).spec_in_use(permit.size_class) == old(self).spec_in_use(permit.size_class)
                        - 1)
                },
            },
    {
        match permit.size_class {
            SizeClass::Small => {
                if self.small_waiters.len() > 0 {
                    let t = self.small_waiters.remove(0);
                    Some(t)
                } else {
                    if self.small_in_use > 0 {
                        self.small_in_use = self.small_in_use - 1;
                    }
                    None
                }
            },
            SizeClass::Medium => {
                if self.medium_waiters.len() > 0 {
                    let t = self.medium_waiters.remove(0);
                    Some(t)
                } else {
                    if self.medium_in_use > 0 {
                        self.medium_in_use = self.medium_in_use - 1;
                    }
                    None
                }
            },
            SizeClass::Large => {
                if self.large_waiters.len() > 0 {
                    let t = self.large_waiters.remove(0);
                    Some(t)
                } else {
                    if self.large_in_use > 0 {
                        self.large_in_use = self.large_in_use - 1;
                    }
                    None
                }
            },
        }
    }

    /// A cancelled waiter leaves its queue cleanly: the ticket is gone,
    /// every other waiter keeps its place, and no slot is disturbed.
    #[verifier::rlimit(60)]
    #[verifier::spinoff_prover]
    pub fn cancel(&mut self, class: SizeClass, ticket: u64) -> (r: bool)
        requires
            old(self).wf(),
        ensures
            final(self).wf(),
            forall|c: SizeClass|
                c != class ==> #[trigger] final(self).spec_in_use(c) == old(self).spec_in_use(c)
                    && final(self).spec_waiters(c) == old(self).spec_waiters(c),
            final(self).spec_in_use(class) == old(self).spec_in_use(class),
            !final(self).spec_waiters(class).contains(ticket),
            r == old(self).spec_waiters(class).contains(ticket),
            r ==> exists|w: int|
                0 <= w < old(self).spec_waiters(class).len() && old(self).spec_waiters(class)[w]
                    == ticket && final(self).spec_waiters(class) == old(self).spec_waiters(
                    class,
                ).remove(w),
            !r ==> final(self).spec_waiters(class) == old(self).spec_waiters(class),
    {
        let found = match class {
            SizeClass::Small => remove_ticket(&mut self.small_waiters, ticket),
            SizeClass::Medium => remove_ticket(&mut self.medium_waiters, ticket),
            SizeClass::Large => remove_ticket(&mut self.large_waiters, ticket),
        };
        found
    }
}

/// Removes the unique occurrence of `ticket` from a queue, if present.
fn remove_ticket(q: &mut Vec<u64>, ticket: u64) -> (r: bool)
    requires
        forall|i: int, j: int|
            0 <= i < old(q)@.len() && 0 <= j < old(q)@.len() && i != j ==> (#[trigger] old(
                q,
            )@[i]) != (#[trigger] old(q)@[j]),
    ensures
        r == old(q)@.contains(ticket),
        !final(q)@.contains(ticket),
        r ==> exists|w: int|
            0 <= w < old(q)@.len() && old(q)@[w] == ticket && final(q)@ == old(q)@.remove(w),
        !r ==> final(q)@ == old(q)@,
        forall|i: int, j: int|
            0 <= i < final(q)@.len() && 0 <= j < final(q)@.len() && i != j ==> (#[trigger] final(q)@[i]) != (#[trigger] final(q)@[j]),
        final(q)@.len() <= old(q)@.len(),
        forall|x: u64| #[trigger] final(q)@.contains(x) ==> old(q)@.contains(x),
{
    let mut i: usize = 0;
    while i < q.len()
        invariant
            i <= q@.len(),
            q@ == old(q)@,
            forall|j: int| 0 <= j < i ==> (#[trigger] q@[j]) != ticket,
            forall|x: int, y: int|
                0 <= x < q@.len() && 0 <= y < q@.len() && x != y ==> (#[trigger] q@[x]) != (
                #[trigger] q@[y]),
        decreases q@.len() - i,
    {
        if q[i] == ticket {
            let ghost pre = q@;
            q.remove(i);
            proof {
                assert(q@ =~= pre.remove(i as int));
                assert(pre[i as int] == ticket);
                assert forall|x: int, y: int|
                    0 <= x < q@.len() && 0 <= y < q@.len() && x != y implies (#[trigger] q@[x])
                    != (#[trigger] q@[y]) by {
                    let px: int = if x < i { x } else { x + 1 };
                    let py: int = if y < i { y } else { y + 1 };
                    assert(q@[x] == pre[px]);
                    assert(q@[y] == pre[py]);
                    assert(pre[px] != pre[py]);
                }
                assert forall|x: u64| #[trigger] q@.contains(x) implies pre.contains(x) by {
                    let w = choose|w: int| 0 <= w < q@.len() && q@[w] == x;
                    let pw: int = if w < i { w } else { w + 1 };
                    assert(q@[w] == pre[pw]);
                }
                assert(!q@.contains(ticket)) by {
                    if q@.contains(ticket) {
                        let w = choose|w: int| 0 <= w < q@.len() && q@[w] == ticket;
                        let pw: int = if w < i { w } else { w + 1 };
                        assert(q@[w] == pre[pw]);
                        assert(pw != i);
                        assert(pre[pw] != pre[i as int]);
                    }
                }
            }
            return true;
        }
        i = i + 1;
    }
    proof {
        if q@.contains(ticket) {
            let w = choose|w: int| 0 <= w < q@.len() && q@[w] == ticket;
            assert(q@[w] != ticket);
        }
    }
    false
}

} // verus!
