use vstd::prelude::*;

use crate::mem::offsets::{advance, OffsetAction, OffsetOutcome, OffsetWalk, outcome_message};
use crate::mem::signatures::{
    first_malformed, lenient_entry, matches_at, parse_failure_message, sniff_region,
    split_whitespace, token_entry, transform_sig_from_human, SignatureError,
};

verus! {

/// Protection flag of pages that may be read and written (`PAGE_READWRITE`).
pub const PAGE_READWRITE: u32 = 0x04;

/// Protection flag of pages that may be executed, read and written (`PAGE_EXECUTE_READWRITE`).
pub const PAGE_EXECUTE_READWRITE: u32 = 0x40;

/// One memory region of the scanned process, as the region query reports it.
pub struct RegionInfo {
    pub base: usize,
    pub size: usize,
    pub protect: u32,
}

/// What the caller has to do next for a signature scan.
pub enum ScanAction {
    /// Query the memory region that contains this address and hand the answer to `resume_region`
    /// (`None` when the query reports no region).
    QueryRegion(usize),
    /// Read `size` bytes at `base` and hand them to `resume_memory` (`None` when the read fails).
    ReadRegion(usize, usize),
    /// Read a `u32` at this address and hand it to `resume_u32` (`None` when the read fails).
    ReadU32(usize),
    /// The scan is over.
    Finished(Result<isize, SignatureError>),
    /// An address or counter computation left the range of `usize`; the scan cannot go on.
    Overflow,
}

/// The step a scan is waiting on.
pub enum ScanPhase {
    Query,
    Read(RegionInfo),
    Walk(OffsetWalk),
    Done,
}

/// `n` written in decimal.
pub open spec fn decimal(n: nat) -> Seq<char>
    decreases n,
{
    if n < 10 {
        seq![(('0' as u32) + n) as char]
    } else {
        decimal(n / 10).push((('0' as u32) + n % 10) as char)
    }
}

/// The message of the error that a scan reports when no region matched.
pub open spec fn not_found_message(count: nat) -> Seq<char> {
    "Did not find signature. Scanned "@ + decimal(count) + " regions"@
}

/// The text of the decimal digit `d`.
fn digit_text(d: usize) -> (res: &'static str)
    requires
        d < 10,
    ensures
        res@ == seq![(('0' as u32) + d) as char],
{
    proof {
        reveal_strlit("0");
        reveal_strlit("1");
        reveal_strlit("2");
        reveal_strlit("3");
        reveal_strlit("4");
        reveal_strlit("5");
        reveal_strlit("6");
        reveal_strlit("7");
        reveal_strlit("8");
        reveal_strlit("9");
    }
    match d {
        0 => "0",
        1 => "1",
        2 => "2",
        3 => "3",
        4 => "4",
        5 => "5",
        6 => "6",
        7 => "7",
        8 => "8",
        _ => "9",
    }
}

/// Appends `n` written in decimal to `text`.
fn append_decimal(text: &mut String, n: usize)
    ensures
        final(text)@ == old(text)@ + decimal(n as nat),
    decreases n,
{
    if n >= 10 {
        append_decimal(text, n / 10);
    }
    let ghost before = text@;
    text.append(digit_text(n % 10));
    proof {
        if n >= 10 {
            assert(decimal(n as nat) == decimal((n / 10) as nat).push((('0' as u32) + n % 10) as char));
        }
        assert(text@ =~= old(text)@ + decimal(n as nat));
    }
}

/// The protection bits a region must have to be scanned.
pub open spec fn scan_mask(include_code: bool) -> u32 {
    if include_code {
        PAGE_EXECUTE_READWRITE
    } else {
        PAGE_READWRITE
    }
}

/// The action reports the outcome of the offset walk `a`: reads are passed on, a resolved
/// address becomes the scan's result, a failed walk its error.
pub open spec fn reports_walk(res: ScanAction, a: OffsetAction) -> bool {
    match a {
        OffsetAction::ReadU32(p) => res == ScanAction::ReadU32(p),
        OffsetAction::Finished(o) => match o {
            OffsetOutcome::Overflow => res is Overflow,
            OffsetOutcome::Resolved(addr) => res matches ScanAction::Finished(Ok(r)) && r == addr as isize,
            _ => res matches ScanAction::Finished(Err(e)) && e@ == outcome_message(o),
        },
    }
}

/// What starting a scan gives for the signature `sig`: a scan that queries the region at address
/// 0 for the parsed pattern, or, in strict mode, the error for the first malformed token.
pub open spec fn scan_started(
    sig: Seq<char>,
    offsets: Seq<usize>,
    include_code: bool,
    strict: bool,
    scan: SigScan,
    action: ScanAction,
) -> bool {
    let toks = split_whitespace(sig);
    match action {
        ScanAction::QueryRegion(a) => {
            &&& a == 0
            &&& scan.address() == 0
            &&& scan.count() == 0
            &&& scan.phase() is Query
            &&& scan.pattern() == toks.map_values(|t: Seq<char>| lenient_entry(t))
            &&& scan.offsets() == offsets
            &&& scan.mask() == scan_mask(include_code)
            &&& strict ==> forall|k: int| 0 <= k < toks.len() ==> token_entry(#[trigger] toks[k]) is Some
        },
        ScanAction::Finished(Err(e)) => {
            &&& strict
            &&& exists|k: int| first_malformed(toks, k) && e@ == parse_failure_message(sig, toks[k])
            &&& scan.phase() is Done
        },
        _ => false,
    }
}

/// A scan of a process's memory regions for a byte signature, followed by the walk through
/// the signature's offsets from the first match.
pub struct SigScan {
    pattern: Vec<Option<u8>>,
    offsets: Vec<usize>,
    mask: u32,
    address: usize,
    count: usize,
    phase: ScanPhase,
}

impl SigScan {
    /// The byte pattern searched for.
    pub closed spec fn pattern(&self) -> Seq<Option<u8>> {
        self.pattern@
    }

    /// The offsets followed from a match.
    pub closed spec fn offsets(&self) -> Seq<usize> {
        self.offsets@
    }

    /// The protection bits a region must have to be searched.
    pub closed spec fn mask(&self) -> u32 {
        self.mask
    }

    /// The address of the next region query.
    pub closed spec fn address(&self) -> usize {
        self.address
    }

    /// Number of region queries answered with a region so far.
    pub closed spec fn count(&self) -> nat {
        self.count as nat
    }

    /// The step the scan is waiting on.
    pub closed spec fn phase(&self) -> ScanPhase {
        self.phase
    }

    /// Starts a scan for the human-written signature `sig_str` in regions whose protection has
    /// all bits of `PAGE_EXECUTE_READWRITE` (`include_code`) or of `PAGE_READWRITE`; a match is
    /// then resolved through `offsets`. `strict` makes malformed signature bytes an error.
    pub fn scan_for_sig(sig_str: &str, offsets: &[usize], include_code: bool, strict: bool) -> (res: (
        SigScan,
        ScanAction,
    ))
        ensures
            scan_started(sig_str@, offsets@, include_code, strict, res.0, res.1),
            !strict ==> res.1 == ScanAction::QueryRegion(0),
    {
        let mask = if include_code {
            PAGE_EXECUTE_READWRITE
        } else {
            PAGE_READWRITE
        };
        let mut offs: Vec<usize> = Vec::new();
        let mut k: usize = 0;
        while k < offsets.len()
            invariant
                k <= offsets@.len(),
                offs@ == offsets@.subrange(0, k as int),
            decreases offsets@.len() - k,
        {
            offs.push(offsets[k]);
            k = k + 1;
        }
        assert(offs@ =~= offsets@);
        match transform_sig_from_human(sig_str, strict) {
            Ok(pattern) => {
                let s = SigScan { pattern, offsets: offs, mask, address: 0, count: 0, phase: ScanPhase::Query };
                (s, ScanAction::QueryRegion(0))
            },
            Err(e) => {
                let s = SigScan { pattern: Vec::new(), offsets: offs, mask, address: 0, count: 0, phase: ScanPhase::Done };
                (s, ScanAction::Finished(Err(e)))
            },
        }
    }

    /// A scan of regions that may hold code (`PAGE_EXECUTE_READWRITE`), strict about malformed bytes
    /// as `strict` says.
    pub fn scan_sig(sig_str: &str, offsets: &[usize], strict: bool) -> (res: (SigScan, ScanAction))
        ensures
            scan_started(sig_str@, offsets@, true, strict, res.0, res.1),
            !strict ==> res.1 == ScanAction::QueryRegion(0),
    {
        Self::scan_for_sig(sig_str, offsets, true, strict)
    }

    /// A scan of data regions (`PAGE_READWRITE`), strict about malformed bytes as `strict` says.
    pub fn scan_for_data_sig(sig_str: &str, offsets: &[usize], strict: bool) -> (res: (SigScan, ScanAction))
        ensures
            scan_started(sig_str@, offsets@, false, strict, res.0, res.1),
            !strict ==> res.1 == ScanAction::QueryRegion(0),
    {
        Self::scan_for_sig(sig_str, offsets, false, strict)
    }

    /// Continues a scan that waits on a region query with its answer.
    pub fn resume_region(&mut self, region: Option<RegionInfo>) -> (res: ScanAction)
        requires
            old(self).phase() is Query,
        ensures
            final(self).pattern() == old(self).pattern(),
            final(self).offsets() == old(self).offsets(),
            final(self).mask() == old(self).mask(),
            match region {
                None => {
                    &&& res matches ScanAction::Finished(Err(e))
                    &&& e@ == not_found_message(old(self).count())
                    &&& final(self).phase() is Done
                },
                Some(r) => if old(self).count() + 1 > usize::MAX {
                    res is Overflow
                } else if r.protect & old(self).mask() == old(self).mask() {
                    &&& res == ScanAction::ReadRegion(r.base, r.size)
                    &&& final(self).phase() == ScanPhase::Read(r)
                    &&& final(self).count() == old(self).count() + 1
                    &&& final(self).address() == old(self).address()
                } else if old(self).address() + r.size > usize::MAX {
                    res is Overflow
                } else {
                    &&& res == ScanAction::QueryRegion(final(self).address())
                    &&& final(self).address() == old(self).address() + r.size
                    &&& final(self).phase() is Query
                    &&& final(self).count() == old(self).count() + 1
                },
            },
    {
        match region {
            None => {
                self.phase = ScanPhase::Done;
                let mut m = String::from_str("Did not find signature. Scanned ");
                append_decimal(&mut m, self.count);
                m.append(" regions");
                proof {
                    reveal_strlit("Did not find signature. Scanned ");
                    reveal_strlit(" regions");
                }
                ScanAction::Finished(Err(SignatureError::new(m)))
            },
            Some(r) => {
                if self.count == usize::MAX {
                    self.phase = ScanPhase::Done;
                    return ScanAction::Overflow;
                }
                self.count = self.count + 1;
                if r.protect & self.mask == self.mask {
                    let base = r.base;
                    let size = r.size;
                    self.phase = ScanPhase::Read(r);
                    ScanAction::ReadRegion(base, size)
                } else {
                    match self.address.checked_add(r.size) {
                        None => {
                            self.phase = ScanPhase::Done;
                            ScanAction::Overflow
                        },
                        Some(next) => {
                            self.address = next;
                            ScanAction::QueryRegion(next)
                        },
                    }
                }
            },
        }
    }

    /// Continues a scan that waits on the contents of a region with them (`None` when the read
    /// failed). A failed read queries the same address again.
    pub fn resume_memory(&mut self, memory: Option<Vec<u8>>) -> (res: ScanAction)
        requires
            old(self).phase() is Read,
        ensures
            final(self).pattern() == old(self).pattern(),
            final(self).offsets() == old(self).offsets(),
            final(self).mask() == old(self).mask(),
            final(self).count() == old(self).count(),
            ({
                let r = old(self).phase()->Read_0;
                match memory {
                    None => {
                        &&& res == ScanAction::QueryRegion(old(self).address())
                        &&& final(self).address() == old(self).address()
                        &&& final(self).phase() is Query
                    },
                    Some(m) => if exists|k: int| matches_at(m@, old(self).pattern(), k) && m@.len() > 0 {
                        exists|o: int| {
                            &&& matches_at(m@, old(self).pattern(), o)
                            &&& forall|k: int| 0 <= k < o ==> !matches_at(m@, old(self).pattern(), k)
                            &&& if r.base + o > usize::MAX {
                                res is Overflow
                            } else {
                                let found = (r.base + o) as usize;
                                &&& reports_walk(res, advance(old(self).offsets(), found, 0))
                                &&& res is ReadU32 ==> (final(self).phase() matches ScanPhase::Walk(w)
                                    && w.offsets() == old(self).offsets() && w.addr() == found && w.index() == 0)
                            }
                        }
                    } else if old(self).address() + r.size > usize::MAX {
                        res is Overflow
                    } else {
                        &&& res == ScanAction::QueryRegion(final(self).address())
                        &&& final(self).address() == old(self).address() + r.size
                        &&& final(self).phase() is Query
                    },
                }
            }),
    {
        let ghost r = self.phase->Read_0;
        let (base, size) = match &self.phase {
            ScanPhase::Read(r) => (r.base, r.size),
            _ => (0, 0),
        };
        match memory {
            None => {
                self.phase = ScanPhase::Query;
                ScanAction::QueryRegion(self.address)
            },
            Some(m) => {
                match sniff_region(m.as_slice(), self.pattern.as_slice()) {
                    Some(o) => {
                        match base.checked_add(o) {
                            None => {
                                self.phase = ScanPhase::Done;
                                ScanAction::Overflow
                            },
                            Some(found) => {
                                let (w, a) = OffsetWalk::apply_offsets(found, self.offsets.as_slice());
                                self.phase = ScanPhase::Walk(w);
                                self.report_walk(a)
                            },
                        }
                    },
                    None => {
                        match self.address.checked_add(size) {
                            None => {
                                self.phase = ScanPhase::Done;
                                ScanAction::Overflow
                            },
                            Some(next) => {
                                self.address = next;
                                self.phase = ScanPhase::Query;
                                ScanAction::QueryRegion(next)
                            },
                        }
                    },
                }
            },
        }
    }

    /// Continues a scan that waits on a displacement read of its offset walk with its answer.
    pub fn resume_u32(&mut self, value: Option<u32>) -> (res: ScanAction)
        requires
            old(self).phase() matches ScanPhase::Walk(w) && advance(w.offsets(), w.addr(), w.index()) is ReadU32,
        ensures
            final(self).pattern() == old(self).pattern(),
            final(self).offsets() == old(self).offsets(),
            final(self).mask() == old(self).mask(),
            final(self).count() == old(self).count(),
            final(self).address() == old(self).address(),
            ({
                let w = old(self).phase()->Walk_0;
                match value {
                    None => res matches ScanAction::Finished(Err(e)) && e@ == outcome_message(OffsetOutcome::ReadFailed),
                    Some(d) => if w.addr() + d > usize::MAX {
                        res is Overflow
                    } else {
                        let a = advance(w.offsets(), (w.addr() + d) as usize, w.index() + 1);
                        &&& reports_walk(res, a)
                        &&& res is ReadU32 ==> (final(self).phase() matches ScanPhase::Walk(w2)
                            && w2.offsets() == w.offsets() && w2.addr() == w.addr() + d && w2.index() == w.index() + 1)
                    },
                }
            }),
    {
        let mut phase = ScanPhase::Done;
        std::mem::swap(&mut phase, &mut self.phase);
        match phase {
            ScanPhase::Walk(mut w) => {
                let a = w.resume(value);
                self.phase = ScanPhase::Walk(w);
                self.report_walk(a)
            },
            _ => ScanAction::Overflow,
        }
    }

    fn report_walk(&mut self, a: OffsetAction) -> (res: ScanAction)
        requires
            a is ReadU32 ==> old(self).phase() is Walk,
        ensures
            reports_walk(res, a),
            final(self).pattern() == old(self).pattern(),
            final(self).offsets() == old(self).offsets(),
            final(self).mask() == old(self).mask(),
            final(self).address() == old(self).address(),
            final(self).count() == old(self).count(),
            a is ReadU32 ==> final(self).phase() == old(self).phase(),
            a is Finished ==> final(self).phase() is Done,
    {
        match a {
            OffsetAction::ReadU32(p) => ScanAction::ReadU32(p),
            OffsetAction::Finished(o) => {
                self.phase = ScanPhase::Done;
                match o {
                    OffsetOutcome::Overflow => ScanAction::Overflow,
                    OffsetOutcome::Resolved(addr) => ScanAction::Finished(Ok(addr as isize)),
                    _ => ScanAction::Finished(o.into_result().map(|x: usize| x as isize)),
                }
            },
        }
    }
}

} // verus!
