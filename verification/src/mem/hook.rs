use vstd::prelude::*;

use capstone::arch::x86::{ArchMode, X86OperandType};
use capstone::arch::{BuildsCapstone, DetailsArchInsn};
use capstone::Capstone;

verus! {

#[verifier::external_type_specification]
#[verifier::external_body]
pub struct ExCapstone(capstone::Capstone);

#[verifier::external_type_specification]
#[verifier::external_body]
pub struct ExCapstoneError(capstone::Error);

/// Errors of installing an inline hook.
#[derive(Debug)]
pub enum HookError {
    /// The trampoline's memory could not be allocated.
    MemAlloc,
    /// The disassembler failed.
    Capstone(capstone::Error),
    /// An instruction in the bytes to be overwritten has an operand that is relative to its place.
    Relative,
}

/// Size of the absolute jump that a hook writes (`mov rax, imm64; jmp rax`).
pub const JMP_SIZE: usize = 12;

/// Longest x86 instruction, in bytes.
pub const X86_MAX_FUNCTION_SIZE: usize = 15;

/// Kind of an x86 operand, as the disassembler reports it.
#[derive(Debug, Clone, Copy, PartialEq, Eq)]
pub enum OperandKind {
    Register,
    Immediate,
    Memory,
    Invalid,
}

/// One disassembled instruction: its length in bytes and, when its details could be read, the
/// kinds of its operands.
pub struct DecodedInsn {
    pub len: usize,
    pub operands: Result<Vec<OperandKind>, capstone::Error>,
}

impl View for DecodedInsn {
    type V = (usize, Option<Seq<OperandKind>>);

    open spec fn view(&self) -> (usize, Option<Seq<OperandKind>>) {
        (
            self.len,
            match self.operands {
                Ok(v) => Some(v@),
                Err(_) => None,
            },
        )
    }
}

/// The plain view of a list of decoded instructions.
pub open spec fn decoded_view(insns: Seq<DecodedInsn>) -> Seq<(usize, Option<Seq<OperandKind>>)> {
    insns.map_values(|i: DecodedInsn| i@)
}

/// The instructions that capstone decodes from `code` placed at `address` in 64-bit x86 mode with
/// details on, each as its length and, if its details could be read, its operand kinds; `None`
/// when the disassembly itself fails.
pub uninterp spec fn x86_64_disassembly(code: Seq<u8>, address: u64) -> Option<
    Seq<(usize, Option<Seq<OperandKind>>)>,
>;

/// A capstone engine set up for 64-bit x86 with instruction details.
pub struct X86Disassembler {
    cs: Capstone,
}

impl X86Disassembler {
    /// Builds the engine (`Capstone::new().x86().mode(Mode64).detail(true).build()`). Claims: the
    /// build succeeds. The builder fails only without a mode (one is set), capstone's `cs_open`
    /// only for a missing allocator, an unsupported architecture or a disallowed mode (the
    /// system allocator and x86 are built in, and 64-bit mode is allowed), and setting the detail
    /// option cannot fail on an open engine. Left unsaid: `cs_open` also reports the C allocator
    /// running out of memory, which this claim does not cover.
    #[verifier::external_body]
    pub fn new() -> (res: Result<X86Disassembler, capstone::Error>)
        ensures
            res is Ok,
    {
        Capstone::new().x86().mode(ArchMode::Mode64).detail(true).build().map(|cs| X86Disassembler { cs })
    }

    /// Disassembles `code` placed at `address` (`Capstone::disasm_all`), and reads each
    /// instruction's operands (`Capstone::insn_detail`, its x86 details and their operand types).
    /// Claims: the result is `x86_64_disassembly(code, address)`, and every instruction is at most
    /// 24 bytes long (capstone hands out a prefix of a 24-byte buffer).
    #[verifier::external_body]
    pub fn disassemble(&self, code: &[u8], address: u64) -> (res: Result<Vec<DecodedInsn>, capstone::Error>)
        ensures
            res is Ok <==> x86_64_disassembly(code@, address) is Some,
            res matches Ok(v) ==> decoded_view(v@) == x86_64_disassembly(code@, address)->0,
            res matches Ok(v) ==> forall|k: int| 0 <= k < v@.len() ==> #[trigger] v@[k].len <= 24,
    {
        let insts = self.cs.disasm_all(code, address)?;
        Ok(insts.iter().map(|i| DecodedInsn {
            len: i.bytes().len(),
            operands: self.cs.insn_detail(i).map(|d| d.arch_detail().x86().expect("x86 details").operands().map(|op| match op.op_type {
                X86OperandType::Reg(_) => OperandKind::Register,
                X86OperandType::Imm(_) => OperandKind::Immediate,
                X86OperandType::Mem(_) => OperandKind::Memory,
                X86OperandType::Invalid => OperandKind::Invalid,
            }).collect()),
        }).collect())
    }
}

/// How the operand check over a list of instructions ends.
pub enum OperandCheck {
    /// No instruction has a place-relative operand.
    Clear,
    /// The details of the instruction at this index could not be read.
    DetailFailed(int),
    /// An instruction has an immediate or memory operand.
    Relative,
}

/// An operand whose meaning may depend on where the instruction stands.
pub open spec fn is_relative_operand(k: OperandKind) -> bool {
    k is Immediate || k is Memory
}

/// The instructions `insns[from..]`, checked in order: the first one whose details are missing
/// or that has a relative operand decides.
pub open spec fn operand_check(insns: Seq<(usize, Option<Seq<OperandKind>>)>, from: int) -> OperandCheck
    decreases insns.len() - from,
{
    if from < 0 || from >= insns.len() {
        OperandCheck::Clear
    } else {
        match insns[from].1 {
            None => OperandCheck::DetailFailed(from),
            Some(ops) => if exists|j: int| 0 <= j < ops.len() && is_relative_operand(#[trigger] ops[j]) {
                OperandCheck::Relative
            } else {
                operand_check(insns, from + 1)
            },
        }
    }
}

/// Bytes covered by taking whole instructions from `insns[from..]` on top of `acc` bytes until
/// at least `JMP_SIZE` bytes are covered or the instructions run out.
pub open spec fn covered_length(insns: Seq<(usize, Option<Seq<OperandKind>>)>, from: int, acc: nat) -> nat
    decreases insns.len() - from,
{
    if from < 0 || from >= insns.len() {
        acc
    } else {
        let a = (acc + insns[from].0) as nat;
        if a >= JMP_SIZE {
            a
        } else {
            covered_length(insns, from + 1, a)
        }
    }
}

/// Every instruction of `insns[from..to]` has readable details.
pub open spec fn details_readable(insns: Seq<(usize, Option<Seq<OperandKind>>)>, from: int, to: int) -> bool {
    forall|i: int| from <= i < to ==> (#[trigger] insns[i].1) is Some
}

/// No readable instruction of `insns[from..]` has an immediate or memory operand, in any position.
pub open spec fn no_place_operand(insns: Seq<(usize, Option<Seq<OperandKind>>)>, from: int) -> bool {
    forall|i: int, j: int|
        #![trigger insns[i].1->0[j]]
        from <= i < insns.len() && insns[i].1 is Some && 0 <= j < insns[i].1->0.len() ==> !(
        insns[i].1->0[j] is Immediate || insns[i].1->0[j] is Memory)
}

/// Instruction `k` has an immediate or memory operand at position `j`.
pub open spec fn place_operand_at(insns: Seq<(usize, Option<Seq<OperandKind>>)>, k: int, j: int) -> bool {
    &&& 0 <= k < insns.len()
    &&& insns[k].1 is Some
    &&& 0 <= j < insns[k].1->0.len()
    &&& (insns[k].1->0[j] is Immediate || insns[k].1->0[j] is Memory)
}

proof fn lemma_operand_check_described(insns: Seq<(usize, Option<Seq<OperandKind>>)>, from: int)
    requires
        0 <= from <= insns.len(),
    ensures
        operand_check(insns, from) is Clear <==> (details_readable(insns, from, insns.len() as int)
            && no_place_operand(insns, from)),
        forall|k: int|
            operand_check(insns, from) == OperandCheck::DetailFailed(k) ==> from <= k < insns.len()
                && insns[k].1 is None,
        forall|k: int, j: int|
            from <= k && #[trigger] place_operand_at(insns, k, j) && details_readable(insns, from, k)
                ==> operand_check(insns, from) is Relative,
    decreases insns.len() - from,
{
    if from < insns.len() {
        lemma_operand_check_described(insns, from + 1);
        match insns[from].1 {
            None => {
                assert(!details_readable(insns, from, insns.len() as int));
                assert forall|k: int, j: int|
                    from <= k && #[trigger] place_operand_at(insns, k, j) && details_readable(insns, from, k)
                    implies operand_check(insns, from) is Relative by {
                    if k > from {
                        assert(insns[from].1 is Some);
                    }
                }
            },
            Some(ops) => {
                assert(ops == insns[from].1->0);
                if exists|j: int| 0 <= j < ops.len() && is_relative_operand(#[trigger] ops[j]) {
                    let j = choose|j: int| 0 <= j < ops.len() && is_relative_operand(#[trigger] ops[j]);
                    assert(!(insns[from].1->0[j] is Immediate || insns[from].1->0[j] is Memory) == false);
                    assert(!no_place_operand(insns, from));
                } else {
                    assert forall|k: int, j: int|
                        from <= k && #[trigger] place_operand_at(insns, k, j) && details_readable(insns, from, k)
                        implies operand_check(insns, from) is Relative by {
                        if k == from {
                            assert(is_relative_operand(ops[j]));
                        } else {
                            assert(details_readable(insns, from + 1, k));
                        }
                    }
                    assert(no_place_operand(insns, from) == no_place_operand(insns, from + 1)) by {
                        if no_place_operand(insns, from + 1) {
                            assert forall|i: int, j: int|
                                #![trigger insns[i].1->0[j]]
                                from <= i < insns.len() && insns[i].1 is Some && 0 <= j < insns[i].1->0.len()
                                implies !(insns[i].1->0[j] is Immediate || insns[i].1->0[j] is Memory) by {
                                if i == from {
                                    assert(!is_relative_operand(ops[j]));
                                }
                            }
                        }
                    }
                    assert(details_readable(insns, from, insns.len() as int) == details_readable(
                        insns,
                        from + 1,
                        insns.len() as int,
                    ));
                }
            },
        }
    }
}

/// Law: a hook is refused (`Relative`) whenever some instruction has an immediate or memory
/// operand in any position and every instruction before it has readable details; the check is
/// clear exactly when every instruction is readable and none has either kind of operand; and a
/// failed detail read is reported only for an instruction whose details are missing.
pub proof fn law_relative_operands_refused(insns: Seq<(usize, Option<Seq<OperandKind>>)>)
    ensures
        forall|k: int, j: int|
            #[trigger] place_operand_at(insns, k, j) && details_readable(insns, 0, k) ==> operand_check(
                insns,
                0,
            ) is Relative,
        operand_check(insns, 0) is Clear <==> (details_readable(insns, 0, insns.len() as int)
            && no_place_operand(insns, 0)),
        forall|k: int|
            operand_check(insns, 0) == OperandCheck::DetailFailed(k) ==> 0 <= k < insns.len()
                && insns[k].1 is None,
{
    lemma_operand_check_described(insns, 0);
}

/// The result of the operand check for the given outcome.
pub open spec fn check_result(insns: Seq<DecodedInsn>, c: OperandCheck, res: Result<(), HookError>) -> bool {
    match c {
        OperandCheck::Clear => res is Ok,
        OperandCheck::DetailFailed(k) => res matches Err(HookError::Capstone(e)) && insns[k].operands
            == Err::<Vec<OperandKind>, capstone::Error>(e),
        OperandCheck::Relative => res matches Err(HookError::Relative),
    }
}

/// Fails when any of the instructions (in order) has unreadable details or an immediate or
/// memory operand: such bytes cannot be moved into a trampoline.
pub fn ensure_no_relative_addr(insns: &[DecodedInsn]) -> (res: Result<(), HookError>)
    ensures
        check_result(insns@, operand_check(decoded_view(insns@), 0), res),
{
    let ghost v = decoded_view(insns@);
    let mut i: usize = 0;
    while i < insns.len()
        invariant
            i <= insns@.len(),
            v == decoded_view(insns@),
            operand_check(v, 0) == operand_check(v, i as int),
        decreases insns@.len() - i,
    {
        match &insns[i].operands {
            Err(e) => {
                assert(v[i as int].1 is None);
                return Err(HookError::Capstone(*e));
            },
            Ok(ops) => {
                assert(v[i as int].1 == Some(ops@));
                let mut j: usize = 0;
                while j < ops.len()
                    invariant
                        j <= ops@.len(),
                        i < insns@.len(),
                        v == decoded_view(insns@),
                        v[i as int].1 == Some(ops@),
                        operand_check(v, 0) == operand_check(v, i as int),
                        forall|k: int| 0 <= k < j ==> !is_relative_operand(#[trigger] ops@[k]),
                    decreases ops@.len() - j,
                {
                    match ops[j] {
                        OperandKind::Immediate | OperandKind::Memory => {
                            proof {
                                let o = v[i as int].1->0;
                                assert(o == ops@);
                                assert(is_relative_operand(o[j as int]));
                                assert(0 <= i < v.len());
                                assert(operand_check(v, i as int) is Relative);
                            }
                            return Err(HookError::Relative);
                        },
                        _ => {},
                    }
                    j = j + 1;
                }
            },
        }
        i = i + 1;
    }
    Ok(())
}

/// Total length of the first `n` instructions.
pub open spec fn prefix_length(insns: Seq<(usize, Option<Seq<OperandKind>>)>, n: int) -> nat
    decreases n,
{
    if n <= 0 {
        0
    } else {
        prefix_length(insns, n - 1) + insns[n - 1].0 as nat
    }
}

proof fn lemma_covered_length_prefix(insns: Seq<(usize, Option<Seq<OperandKind>>)>, from: int)
    requires
        0 <= from <= insns.len(),
        prefix_length(insns, from) < JMP_SIZE,
    ensures
        exists|n: int|
            #![trigger prefix_length(insns, n)]
            from <= n <= insns.len() && covered_length(insns, from, prefix_length(insns, from))
                == prefix_length(insns, n) && (prefix_length(insns, n) >= JMP_SIZE || n == insns.len())
                && (n > 0 ==> prefix_length(insns, n - 1) < JMP_SIZE),
    decreases insns.len() - from,
{
    let acc = prefix_length(insns, from);
    if from == insns.len() {
        assert(covered_length(insns, from, acc) == prefix_length(insns, from));
        if from > 0 {
            assert(prefix_length(insns, from - 1) <= prefix_length(insns, from));
        }
    } else {
        let a = prefix_length(insns, from + 1);
        assert(a == acc + insns[from].0);
        if a >= JMP_SIZE {
            assert(covered_length(insns, from, acc) == prefix_length(insns, from + 1));
        } else {
            lemma_covered_length_prefix(insns, from + 1);
        }
    }
}

/// Law: the bytes a hook overwrites are whole instructions from the start: as many as it takes
/// to cover the `JMP_SIZE`-byte jump, and no more (all of them when they do not suffice).
pub proof fn law_hook_length_is_instruction_prefix(insns: Seq<(usize, Option<Seq<OperandKind>>)>)
    ensures
        exists|n: int|
            #![trigger prefix_length(insns, n)]
            0 <= n <= insns.len() && covered_length(insns, 0, 0) == prefix_length(insns, n) && (
            prefix_length(insns, n) >= JMP_SIZE || n == insns.len()) && (n > 0 ==> prefix_length(
                insns,
                n - 1,
            ) < JMP_SIZE),
{
    lemma_covered_length_prefix(insns, 0);
}

/// Number of bytes that a hook overwrites: whole instructions taken from the start until they
/// cover at least `JMP_SIZE` bytes (fewer when the instructions run out), provided no
/// instruction (among all given) is unreadable or place-relative.
pub fn hook_length_from(insns: &[DecodedInsn]) -> (res: Result<usize, HookError>)
    requires
        forall|k: int| 0 <= k < insns@.len() ==> #[trigger] insns@[k].len <= 24,
    ensures
        ({
            let v = decoded_view(insns@);
            match operand_check(v, 0) {
                OperandCheck::Clear => res == Ok::<usize, HookError>(covered_length(v, 0, 0) as usize),
                c => res matches Err(e) && check_result(insns@, c, Err(e)),
            }
        }),
{
    match ensure_no_relative_addr(insns) {
        Err(e) => return Err(e),
        Ok(()) => {},
    }
    let ghost v = decoded_view(insns@);
    assert(operand_check(v, 0) is Clear);
    let mut length: usize = 0;
    let mut i: usize = 0;
    while i < insns.len()
        invariant
            i <= insns@.len(),
            v == decoded_view(insns@),
            forall|k: int| 0 <= k < insns@.len() ==> #[trigger] insns@[k].len <= 24,
            length < JMP_SIZE,
            operand_check(v, 0) is Clear,
            covered_length(v, 0, 0) == covered_length(v, i as int, length as nat),
        decreases insns@.len() - i,
    {
        assert(v[i as int].0 == insns@[i as int].len);
        let ghost before = length;
        length = length + insns[i].len;
        assert(covered_length(v, i as int, before as nat) == if length >= JMP_SIZE {
            length as nat
        } else {
            covered_length(v, i + 1, length as nat)
        });
        if length >= JMP_SIZE {
            return Ok(length);
        }
        i = i + 1;
    }
    Ok(length)
}

/// Number of bytes at `address` that a hook overwrites, found by disassembling `code` (the bytes
/// that start there) as 64-bit x86.
pub fn determine_hook_length(code: &[u8], address: u64) -> (res: Result<usize, HookError>)
    ensures
        match x86_64_disassembly(code@, address) {
            None => res matches Err(HookError::Capstone(_)),
            Some(v) => match operand_check(v, 0) {
                OperandCheck::Clear => res == Ok::<usize, HookError>(covered_length(v, 0, 0) as usize),
                OperandCheck::DetailFailed(_) => res matches Err(HookError::Capstone(_)),
                OperandCheck::Relative => res matches Err(HookError::Relative),
            },
        },
{
    let cs = match X86Disassembler::new() {
        Ok(cs) => cs,
        Err(e) => return Err(HookError::Capstone(e)),
    };
    let insns = match cs.disassemble(code, address) {
        Ok(insns) => insns,
        Err(e) => return Err(HookError::Capstone(e)),
    };
    hook_length_from(insns.as_slice())
}

/// `256^n`.
pub open spec fn pow256(n: nat) -> nat
    decreases n,
{
    if n == 0 {
        1
    } else {
        256 * pow256((n - 1) as nat)
    }
}

/// The `n` low bytes of `x`, least significant first.
pub open spec fn le_bytes(x: nat, n: nat) -> Seq<u8>
    decreases n,
{
    if n == 0 {
        seq![]
    } else {
        seq![(x % 256) as u8] + le_bytes(x / 256, (n - 1) as nat)
    }
}

/// The number that bytes stand for, least significant first.
pub open spec fn le_value(s: Seq<u8>) -> nat
    decreases s.len(),
{
    if s.len() == 0 {
        0
    } else {
        (s[0] + 256 * le_value(s.drop_first())) as nat
    }
}

/// The bytes of the absolute jump to `jmp_to` that a hook writes over `hook_len` bytes:
/// `mov rax, jmp_to` (`48 B8` and the address, little-endian), `jmp rax` (`FF E0`), and `NOP`s
/// (`90`) up to `hook_len`. The jump itself is always written whole.
pub open spec fn jmp_bytes_spec(jmp_to: u64, hook_len: nat) -> Seq<u8> {
    let jmp = seq![0x48u8, 0xB8u8] + le_bytes(jmp_to as nat, 8) + seq![0xFFu8, 0xE0u8];
    if hook_len <= JMP_SIZE {
        jmp
    } else {
        jmp + Seq::new((hook_len - JMP_SIZE) as nat, |i: int| 0x90u8)
    }
}

/// The bytes that `place_jmp` writes for a jump to `jmp_to` over `hook_len` bytes.
pub fn jmp_bytes(jmp_to: u64, hook_len: usize) -> (res: Vec<u8>)
    ensures
        res@ == jmp_bytes_spec(jmp_to, hook_len as nat),
{
    let mut out: Vec<u8> = Vec::new();
    out.push(0x48u8);
    out.push(0xB8u8);
    let mut v: u64 = jmp_to;
    let mut k: usize = 0;
    let ghost start = seq![0x48u8, 0xB8u8];
    while k < 8
        invariant
            k <= 8,
            out@ + le_bytes(v as nat, (8 - k) as nat) == start + le_bytes(jmp_to as nat, 8),
        decreases 8 - k,
    {
        let ghost rest = le_bytes(v as nat, (8 - k) as nat);
        assert(rest == seq![(v % 256) as u8] + le_bytes((v / 256) as nat, (8 - k - 1) as nat));
        out.push((v % 256) as u8);
        v = v / 256;
        k = k + 1;
        assert(out@ + le_bytes(v as nat, (8 - k) as nat) =~= start + le_bytes(jmp_to as nat, 8));
    }
    assert(le_bytes(v as nat, 0) =~= Seq::<u8>::empty());
    assert(out@ =~= start + le_bytes(jmp_to as nat, 8));
    out.push(0xFFu8);
    out.push(0xE0u8);
    let ghost jmp = out@;
    let mut i: usize = JMP_SIZE;
    while i < hook_len
        invariant
            JMP_SIZE <= i,
            i <= hook_len || i == JMP_SIZE,
            out@ == jmp + Seq::new((i - JMP_SIZE) as nat, |j: int| 0x90u8),
        decreases hook_len - i,
    {
        out.push(0x90u8);
        i = i + 1;
        assert(out@ =~= jmp + Seq::new((i - JMP_SIZE) as nat, |j: int| 0x90u8));
    }
    proof {
        assert(jmp =~= seq![0x48u8, 0xB8u8] + le_bytes(jmp_to as nat, 8) + seq![0xFFu8, 0xE0u8]);
        if hook_len <= JMP_SIZE {
            assert(out@ =~= jmp);
        }
    }
    out
}

/// The bytes of a trampoline: the instructions `stolen` from the hooked function, then an
/// absolute jump back to `resume_at`, where the hooked function goes on.
pub fn trampoline_bytes(stolen: &[u8], resume_at: u64) -> (res: Vec<u8>)
    ensures
        res@ == stolen@ + jmp_bytes_spec(resume_at, JMP_SIZE as nat),
{
    let mut out: Vec<u8> = Vec::new();
    let mut k: usize = 0;
    while k < stolen.len()
        invariant
            k <= stolen@.len(),
            out@ == stolen@.subrange(0, k as int),
        decreases stolen@.len() - k,
    {
        out.push(stolen[k]);
        k = k + 1;
    }
    let jmp = jmp_bytes(resume_at, JMP_SIZE);
    let mut j: usize = 0;
    while j < jmp.len()
        invariant
            j <= jmp@.len(),
            out@ == stolen@ + jmp@.subrange(0, j as int),
        decreases jmp@.len() - j,
    {
        out.push(jmp[j]);
        j = j + 1;
    }
    assert(jmp@.subrange(0, jmp@.len() as int) =~= jmp@);
    out
}

proof fn lemma_le_roundtrip(x: nat, n: nat)
    requires
        x < pow256(n),
    ensures
        le_value(le_bytes(x, n)) == x,
        le_bytes(x, n).len() == n,
    decreases n,
{
    if n == 0 {
    } else {
        let q = x / 256;
        let r = x % 256;
        assert(x == 256 * q + r && 0 <= r < 256) by (nonlinear_arith)
            requires
                q == x / 256,
                r == x % 256,
        ;
        assert(q < pow256((n - 1) as nat)) by (nonlinear_arith)
            requires
                x == 256 * q + r,
                0 <= r < 256,
                x < 256 * pow256((n - 1) as nat),
        ;
        lemma_le_roundtrip(q, (n - 1) as nat);
        let s = le_bytes(x, n);
        assert(s.drop_first() =~= le_bytes(q, (n - 1) as nat));
    }
}

/// Law: the jump written by a hook encodes its target exactly: its 8 address bytes, read
/// little-endian, give back `jmp_to`, and the jump covers `max(hook_len, JMP_SIZE)` bytes.
pub proof fn law_jmp_encodes_target(jmp_to: u64, hook_len: nat)
    ensures
        le_value(jmp_bytes_spec(jmp_to, hook_len).subrange(2, 10)) == jmp_to,
        jmp_bytes_spec(jmp_to, hook_len).len() == if hook_len <= JMP_SIZE {
            JMP_SIZE as nat
        } else {
            hook_len
        },
{
    reveal_with_fuel(pow256, 9);
    assert(pow256(8) == 0x1_0000_0000_0000_0000);
    lemma_le_roundtrip(jmp_to as nat, 8);
    let s = jmp_bytes_spec(jmp_to, hook_len);
    assert(s.subrange(2, 10) =~= le_bytes(jmp_to as nat, 8));
}

} // verus!
