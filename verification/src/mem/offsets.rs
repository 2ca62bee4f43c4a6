use vstd::prelude::*;

use crate::mem::signatures::SignatureError;

verus! {

/// How the walk through a signature's offsets ended.
pub enum OffsetOutcome {
    /// The final address.
    Resolved(usize),
    /// An intermediate or the final address was null.
    InvalidMemory,
    /// A displacement could not be read.
    ReadFailed,
    /// An address computation left the range of `usize`.
    Overflow,
}

/// What the caller has to do next for an offset walk.
pub enum OffsetAction {
    /// Read the `u32` displacement stored at this address and hand it to `resume`.
    ReadU32(usize),
    /// The walk is over.
    Finished(OffsetOutcome),
}

/// Number of offsets that are followed through a displacement read; the last offset of a list
/// of two or more is added without a read.
pub open spec fn deref_count(len: nat) -> nat {
    if len == 0 {
        0
    } else if len == 1 {
        1
    } else {
        (len - 1) as nat
    }
}

/// The next action of a walk that is at `addr` and about to follow offset number `i`.
pub open spec fn advance(offsets: Seq<usize>, addr: usize, i: nat) -> OffsetAction {
    if offsets.len() == 0 {
        OffsetAction::Finished(OffsetOutcome::Resolved(addr))
    } else if i < deref_count(offsets.len()) {
        let p = addr + offsets[i as int];
        if p > usize::MAX {
            OffsetAction::Finished(OffsetOutcome::Overflow)
        } else if p == 0 {
            OffsetAction::Finished(OffsetOutcome::InvalidMemory)
        } else {
            OffsetAction::ReadU32(p as usize)
        }
    } else {
        let a = if offsets.len() > 1 {
            addr + offsets[offsets.len() - 1]
        } else {
            addr as int
        };
        if a > usize::MAX {
            OffsetAction::Finished(OffsetOutcome::Overflow)
        } else if a == 0 {
            OffsetAction::Finished(OffsetOutcome::InvalidMemory)
        } else {
            OffsetAction::Finished(OffsetOutcome::Resolved(a as usize))
        }
    }
}

/// The outcome after the displacement read for offset number `i` (at `addr`) answered `value`,
/// given that reads at any address `p` answer `mem(p)`.
pub open spec fn walk_after_read(
    offsets: Seq<usize>,
    addr: usize,
    i: nat,
    value: Option<u32>,
    mem: spec_fn(usize) -> Option<u32>,
) -> OffsetOutcome
    decreases deref_count(offsets.len()) - i, 0nat,
{
    if i >= deref_count(offsets.len()) {
        OffsetOutcome::ReadFailed
    } else {
        match value {
        None => OffsetOutcome::ReadFailed,
        Some(d) => if addr + d > usize::MAX {
            OffsetOutcome::Overflow
        } else {
            walk(offsets, (addr + d) as usize, i + 1, mem)
        },
        }
    }
}

/// The outcome of following `offsets[i..]` from `addr` when reads at any address `p` answer
/// `mem(p)` (`None` for a failed read).
pub open spec fn walk(
    offsets: Seq<usize>,
    addr: usize,
    i: nat,
    mem: spec_fn(usize) -> Option<u32>,
) -> OffsetOutcome
    decreases deref_count(offsets.len()) - i, 1nat,
{
    match advance(offsets, addr, i) {
        OffsetAction::ReadU32(p) => walk_after_read(offsets, addr, i, mem(p), mem),
        OffsetAction::Finished(o) => o,
    }
}

/// The message of the error that an ended walk reports.
pub open spec fn outcome_message(o: OffsetOutcome) -> Seq<char> {
    match o {
        OffsetOutcome::ReadFailed => "Could not read offset"@,
        _ => "The provided signature offsets ended up in invalid memory"@,
    }
}

/// A walk from an address found by a signature scan through the signature's offsets: each
/// offset but the last leads to a `u32` displacement that is added to the address.
pub struct OffsetWalk {
    offsets: Vec<usize>,
    addr: usize,
    index: usize,
}

impl OffsetWalk {
    /// The offsets being followed.
    pub closed spec fn offsets(&self) -> Seq<usize> {
        self.offsets@
    }

    /// The current address.
    pub closed spec fn addr(&self) -> usize {
        self.addr
    }

    /// Index of the next offset to follow.
    pub closed spec fn index(&self) -> nat {
        self.index as nat
    }

    /// Starts a walk at `addr` and returns it with its first action.
    pub fn apply_offsets(addr: usize, offsets: &[usize]) -> (res: (OffsetWalk, OffsetAction))
        ensures
            res.0.offsets() == offsets@,
            res.0.addr() == addr,
            res.0.index() == 0,
            res.1 == advance(offsets@, addr, 0),
    {
        let mut v: Vec<usize> = Vec::new();
        let mut k: usize = 0;
        while k < offsets.len()
            invariant
                k <= offsets@.len(),
                v@ == offsets@.subrange(0, k as int),
            decreases offsets@.len() - k,
        {
            v.push(offsets[k]);
            k = k + 1;
        }
        assert(v@ =~= offsets@);
        let w = OffsetWalk { offsets: v, addr, index: 0 };
        let a = w.advance_exec();
        (w, a)
    }

    fn deref_count_exec(&self) -> (res: usize)
        ensures
            res == deref_count(self.offsets@.len()),
    {
        let len = self.offsets.len();
        if len == 0 {
            0
        } else if len == 1 {
            1
        } else {
            len - 1
        }
    }

    fn advance_exec(&self) -> (res: OffsetAction)
        ensures
            res == advance(self.offsets@, self.addr, self.index as nat),
    {
        let len = self.offsets.len();
        if len == 0 {
            return OffsetAction::Finished(OffsetOutcome::Resolved(self.addr));
        }
        if self.index < self.deref_count_exec() {
            let off = self.offsets[self.index];
            match self.addr.checked_add(off) {
                None => OffsetAction::Finished(OffsetOutcome::Overflow),
                Some(p) => if p == 0 {
                    OffsetAction::Finished(OffsetOutcome::InvalidMemory)
                } else {
                    OffsetAction::ReadU32(p)
                },
            }
        } else {
            let a = if len > 1 {
                self.addr.checked_add(self.offsets[len - 1])
            } else {
                Some(self.addr)
            };
            match a {
                None => OffsetAction::Finished(OffsetOutcome::Overflow),
                Some(a) => if a == 0 {
                    OffsetAction::Finished(OffsetOutcome::InvalidMemory)
                } else {
                    OffsetAction::Finished(OffsetOutcome::Resolved(a))
                },
            }
        }
    }

    /// Continues the walk with the answer to its pending `ReadU32` action (`None` when the read
    /// failed) and returns the next action.
    pub fn resume(&mut self, value: Option<u32>) -> (res: OffsetAction)
        requires
            advance(old(self).offsets(), old(self).addr(), old(self).index()) is ReadU32,
        ensures
            final(self).offsets() == old(self).offsets(),
            old(self).index() < deref_count(old(self).offsets().len()),
            match value {
                None => res == OffsetAction::Finished(OffsetOutcome::ReadFailed),
                Some(d) => if old(self).addr() + d > usize::MAX {
                    res == OffsetAction::Finished(OffsetOutcome::Overflow)
                } else {
                    &&& final(self).addr() == old(self).addr() + d
                    &&& final(self).index() == old(self).index() + 1
                    &&& res == advance(final(self).offsets(), final(self).addr(), final(self).index())
                },
            },
    {
        let len = self.offsets.len();
        assert(self.index < deref_count(self.offsets@.len()) <= len);
        match value {
            None => OffsetAction::Finished(OffsetOutcome::ReadFailed),
            Some(d) => match self.addr.checked_add(d as usize) {
                None => OffsetAction::Finished(OffsetOutcome::Overflow),
                Some(a) => {
                    self.addr = a;
                    self.index = self.index + 1;
                    self.advance_exec()
                },
            },
        }
    }
}

/// Law: with two offsets `[disp_at, next]` (an instruction with a 32-bit displacement at
/// `disp_at` that ends at `next`), the walk reads the displacement at `addr + disp_at` and
/// resolves to `addr + displacement + next`, provided no address on the way is null or overflows.
pub proof fn law_two_offsets_resolve(
    addr: usize,
    disp_at: usize,
    next: usize,
    mem: spec_fn(usize) -> Option<u32>,
)
    requires
        addr + disp_at <= usize::MAX,
        addr + disp_at != 0,
        mem((addr + disp_at) as usize) is Some,
        addr + mem((addr + disp_at) as usize)->0 + next <= usize::MAX,
        addr + mem((addr + disp_at) as usize)->0 + next != 0,
    ensures
        walk(seq![disp_at, next], addr, 0, mem) == OffsetOutcome::Resolved(
            (addr + mem((addr + disp_at) as usize)->0 + next) as usize,
        ),
{
    let offsets = seq![disp_at, next];
    let d = mem((addr + disp_at) as usize)->0;
    assert(deref_count(offsets.len()) == 1);
    assert(advance(offsets, addr, 0) == OffsetAction::ReadU32((addr + disp_at) as usize));
    let a2 = (addr + d) as usize;
    assert(advance(offsets, a2, 1) == OffsetAction::Finished(
        OffsetOutcome::Resolved((a2 + next) as usize),
    ));
    assert(walk(offsets, a2, 1, mem) == OffsetOutcome::Resolved((a2 + next) as usize));
}

/// The address reached from `addr` after following the first `k` offsets through displacement
/// reads: each step reads the `u32` at `address + offsets[i]` and adds it to the address.
pub open spec fn deref_chain(
    offsets: Seq<usize>,
    addr: int,
    mem: spec_fn(usize) -> Option<u32>,
    k: nat,
) -> int
    decreases k,
{
    if k == 0 {
        addr
    } else {
        let prev = deref_chain(offsets, addr, mem, (k - 1) as nat);
        prev + mem((prev + offsets[k - 1]) as usize)->0
    }
}

/// Every one of the first `k` displacement reads stays in range, reads a non-null address and
/// succeeds, and the address after it fits in `usize`.
pub open spec fn chain_ok(offsets: Seq<usize>, addr: usize, mem: spec_fn(usize) -> Option<u32>, k: nat) -> bool {
    forall|i: nat|
        i < k ==> {
            let a = #[trigger] deref_chain(offsets, addr as int, mem, i);
            &&& a + offsets[i as int] <= usize::MAX
            &&& a + offsets[i as int] != 0
            &&& mem((a + offsets[i as int]) as usize) is Some
            &&& deref_chain(offsets, addr as int, mem, i + 1) <= usize::MAX
        }
}

proof fn lemma_chain_grows(offsets: Seq<usize>, addr: int, mem: spec_fn(usize) -> Option<u32>, k: nat)
    ensures
        deref_chain(offsets, addr, mem, k) >= addr,
    decreases k,
{
    if k > 0 {
        lemma_chain_grows(offsets, addr, mem, (k - 1) as nat);
    }
}

/// Each of the first `m` reads of the chain is the walk's next action there.
proof fn lemma_chain_reads(offsets: Seq<usize>, addr: usize, mem: spec_fn(usize) -> Option<u32>, m: nat)
    requires
        m == deref_count(offsets.len()),
        chain_ok(offsets, addr, mem, m),
    ensures
        forall|i: nat|
            i < m ==> advance(offsets, #[trigger] deref_chain(offsets, addr as int, mem, i) as usize, i)
                == OffsetAction::ReadU32((deref_chain(offsets, addr as int, mem, i) + offsets[i as int]) as usize),
{
    assert forall|i: nat| i < m implies advance(
        offsets,
        #[trigger] deref_chain(offsets, addr as int, mem, i) as usize,
        i,
    ) == OffsetAction::ReadU32((deref_chain(offsets, addr as int, mem, i) + offsets[i as int]) as usize) by {
        let a = deref_chain(offsets, addr as int, mem, i);
        lemma_chain_grows(offsets, addr as int, mem, i);
        assert(a + offsets[i as int] <= usize::MAX);
        assert(a + offsets[i as int] != 0);
    }
}

proof fn lemma_walk_follows_chain(
    offsets: Seq<usize>,
    addr: usize,
    mem: spec_fn(usize) -> Option<u32>,
    i: nat,
)
    requires
        offsets.len() >= 2,
        i <= offsets.len() - 1,
        chain_ok(offsets, addr, mem, (offsets.len() - 1) as nat),
        0 <= deref_chain(offsets, addr as int, mem, i) <= usize::MAX,
    ensures
        walk(offsets, deref_chain(offsets, addr as int, mem, i) as usize, i, mem) == walk(
            offsets,
            deref_chain(offsets, addr as int, mem, (offsets.len() - 1) as nat) as usize,
            (offsets.len() - 1) as nat,
            mem,
        ),
    decreases offsets.len() - i,
{
    let n = offsets.len();
    if i < n - 1 {
        let a = deref_chain(offsets, addr as int, mem, i);
        assert(chain_ok(offsets, addr, mem, (n - 1) as nat));
        let p = a + offsets[i as int];
        assert(p <= usize::MAX && p != 0 && mem(p as usize) is Some && deref_chain(offsets, addr as int, mem, i + 1) <= usize::MAX);
        assert(deref_count(n) == n - 1);
        assert(advance(offsets, a as usize, i) == OffsetAction::ReadU32(p as usize));
        let next = deref_chain(offsets, addr as int, mem, i + 1);
        assert(next == a + mem(p as usize)->0);
        lemma_walk_follows_chain(offsets, addr, mem, i + 1);
        assert(walk(offsets, a as usize, i, mem) == walk_after_read(offsets, a as usize, i, mem(p as usize), mem));
    }
}

/// Law: a walk through `n >= 2` offsets reads a displacement for each offset but the last: read
/// `i` is at the address reached so far plus `offsets[i]`, and the displacement read is added to
/// the address; the last offset is then added without a read. So the walk resolves to
/// `deref_chain(.., n - 1) + offsets[n - 1]`, provided no address on the way is null or
/// overflows and every read succeeds. With a single offset, its displacement is read and added,
/// and nothing more.
pub proof fn law_offsets_followed(offsets: Seq<usize>, addr: usize, mem: spec_fn(usize) -> Option<u32>)
    requires
        offsets.len() >= 1,
        chain_ok(offsets, addr, mem, if offsets.len() == 1 { 1nat } else { (offsets.len() - 1) as nat }),
        ({
            let last = if offsets.len() == 1 {
                deref_chain(offsets, addr as int, mem, 1)
            } else {
                deref_chain(offsets, addr as int, mem, (offsets.len() - 1) as nat) + offsets.last()
            };
            last <= usize::MAX && last != 0
        }),
    ensures
        forall|i: nat|
            i < (if offsets.len() == 1 { 1nat } else { (offsets.len() - 1) as nat }) ==> advance(
                offsets,
                #[trigger] deref_chain(offsets, addr as int, mem, i) as usize,
                i,
            ) == OffsetAction::ReadU32((deref_chain(offsets, addr as int, mem, i) + offsets[i as int]) as usize),
        walk(offsets, addr, 0, mem) == OffsetOutcome::Resolved(
            (if offsets.len() == 1 {
                deref_chain(offsets, addr as int, mem, 1)
            } else {
                deref_chain(offsets, addr as int, mem, (offsets.len() - 1) as nat) + offsets.last()
            }) as usize,
        ),
{
    let n = offsets.len();
    let m: nat = if n == 1 { 1nat } else { (n - 1) as nat };
    assert(deref_count(n) == m);
    lemma_chain_reads(offsets, addr, mem, m);
    if n == 1 {
        lemma_single_offset(offsets, addr, mem);
    } else {
        lemma_many_offsets(offsets, addr, mem);
    }
}

proof fn lemma_single_offset(offsets: Seq<usize>, addr: usize, mem: spec_fn(usize) -> Option<u32>)
    requires
        offsets.len() == 1,
        chain_ok(offsets, addr, mem, 1),
        deref_chain(offsets, addr as int, mem, 1) != 0,
    ensures
        walk(offsets, addr, 0, mem) == OffsetOutcome::Resolved(deref_chain(offsets, addr as int, mem, 1) as usize),
{
    assert(deref_count(1) == 1);
    assert(deref_chain(offsets, addr as int, mem, 0) == addr);
    let p = addr + offsets[0];
    assert(p <= usize::MAX && p != 0 && mem(p as usize) is Some);
    assert(advance(offsets, addr, 0) == OffsetAction::ReadU32(p as usize));
    let a1 = deref_chain(offsets, addr as int, mem, 1);
    assert(a1 == addr + mem(p as usize)->0);
    assert(a1 <= usize::MAX);
    assert(advance(offsets, a1 as usize, 1) == OffsetAction::Finished(OffsetOutcome::Resolved(a1 as usize)));
    assert(walk(offsets, a1 as usize, 1, mem) == OffsetOutcome::Resolved(a1 as usize));
    assert(walk_after_read(offsets, addr, 0, mem(p as usize), mem) == walk(offsets, a1 as usize, 1, mem));
}

proof fn lemma_many_offsets(offsets: Seq<usize>, addr: usize, mem: spec_fn(usize) -> Option<u32>)
    requires
        offsets.len() >= 2,
        chain_ok(offsets, addr, mem, (offsets.len() - 1) as nat),
        deref_chain(offsets, addr as int, mem, (offsets.len() - 1) as nat) + offsets.last() <= usize::MAX,
        deref_chain(offsets, addr as int, mem, (offsets.len() - 1) as nat) + offsets.last() != 0,
    ensures
        walk(offsets, addr, 0, mem) == OffsetOutcome::Resolved(
            (deref_chain(offsets, addr as int, mem, (offsets.len() - 1) as nat) + offsets.last()) as usize,
        ),
{
    let n = offsets.len();
    assert(deref_chain(offsets, addr as int, mem, 0) == addr);
    lemma_walk_follows_chain(offsets, addr, mem, 0);
    let last = deref_chain(offsets, addr as int, mem, (n - 1) as nat);
    lemma_chain_grows(offsets, addr as int, mem, (n - 1) as nat);
    assert(deref_count(n) == n - 1);
    assert(offsets[n - 1] == offsets.last());
    assert(advance(offsets, last as usize, (n - 1) as nat) == OffsetAction::Finished(
        OffsetOutcome::Resolved((last + offsets.last()) as usize),
    ));
}

/// Law: an empty offset list resolves to the matched address itself, whatever it is.
pub proof fn law_no_offsets_resolve(addr: usize, mem: spec_fn(usize) -> Option<u32>)
    ensures
        walk(Seq::<usize>::empty(), addr, 0, mem) == OffsetOutcome::Resolved(addr),
{
}

impl OffsetOutcome {
    /// The result that an ended walk reports: the address, or an error with its message.
    /// An overflow has no result: the caller stops there.
    pub fn into_result(self) -> (res: Result<usize, SignatureError>)
        requires
            !(self is Overflow),
        ensures
            match self {
                OffsetOutcome::Resolved(a) => res == Ok::<usize, SignatureError>(a),
                _ => res matches Err(e) && e@ == outcome_message(self),
            },
    {
        match self {
            OffsetOutcome::Resolved(a) => Ok(a),
            OffsetOutcome::ReadFailed => {
                let m = String::from_str("Could not read offset");
                proof {
                    reveal_strlit("Could not read offset");
                }
                Err(SignatureError::new(m))
            },
            _ => {
                let m = String::from_str("The provided signature offsets ended up in invalid memory");
                proof {
                    reveal_strlit("The provided signature offsets ended up in invalid memory");
                }
                Err(SignatureError::new(m))
            },
        }
    }
}

} // verus!
