//! The CPU: 64 KiB of RAM, a 256-byte device page, a working stack, a return
//! stack and a 16-bit wrapping program counter. `run` fetches, decodes and
//! executes instructions until BRK, calling back into the host on device I/O.

use vstd::prelude::*;

use vstd::string::*;

use crate::arith::{be_short, hi_byte, lo_byte, join_short, split_short, zeroed};
use crate::opcodes;
use crate::stack::{stack_dump, Stack, StackView};

verus! {

/// The debug dump of a CPU state: one line per stack, each showing up to the
/// last eight bytes in lowercase hex.
pub open spec fn dump_text(c: CpuView) -> Seq<char> {
    "WRK: ["@ + stack_dump(c.wrk) + "]\nRET: ["@ + stack_dump(c.ret) + "]"@
}

/// Mathematical state of a CPU: memory, device page, both stacks and the
/// program counter.
pub struct CpuView {
    pub ram: Seq<u8>,
    pub devices: Seq<u8>,
    pub wrk: StackView,
    pub ret: StackView,
    pub pc: u16,
}

impl CpuView {
    pub open spec fn wf(self) -> bool {
        &&& self.ram.len() == 0x10000
        &&& self.devices.len() == 0x100
        &&& self.wrk.wf()
        &&& self.ret.wf()
    }

    /// The stack an instruction operates on: the return stack in RETURN mode,
    /// the working stack otherwise.
    pub open spec fn active(self, ret_mode: bool) -> StackView {
        if ret_mode {
            self.ret
        } else {
            self.wrk
        }
    }

    /// Replaces the active stack.
    pub open spec fn with_active(self, ret_mode: bool, s: StackView) -> CpuView {
        if ret_mode {
            CpuView { ret: s, ..self }
        } else {
            CpuView { wrk: s, ..self }
        }
    }

    pub open spec fn with_pc(self, pc: u16) -> CpuView {
        CpuView { pc: pc, ..self }
    }

    /// The byte of RAM at `addr`.
    pub open spec fn ram_byte(self, addr: u16) -> u8 {
        self.ram[addr as int]
    }

    /// The big-endian short of RAM at `addr` and `addr + 1` (wrapping).
    pub open spec fn ram_short(self, addr: u16) -> u16 {
        be_short(self.ram[addr as int], self.ram[addr.wrapping_add(1) as int])
    }

    /// State after writing one byte of RAM.
    pub open spec fn write_ram_byte(self, addr: u16, value: u8) -> CpuView {
        CpuView { ram: self.ram.update(addr as int, value), ..self }
    }

    /// State after writing a big-endian short to RAM.
    pub open spec fn write_ram_short(self, addr: u16, value: u16) -> CpuView {
        self.write_ram_byte(addr, hi_byte(value)).write_ram_byte(
            addr.wrapping_add(1),
            lo_byte(value),
        )
    }

    /// The device-page byte at `port`.
    pub open spec fn dev_byte(self, port: u8) -> u8 {
        self.devices[port as int]
    }

    /// State after writing one byte of the device page.
    pub open spec fn write_dev_byte(self, port: u8, value: u8) -> CpuView {
        CpuView { devices: self.devices.update(port as int, value), ..self }
    }
}

/// The four binary arithmetic operations.
pub enum ArithOp {
    Add,
    Sub,
    Mul,
    Div,
}

/// Byte-mode arithmetic: wrapping, with division by zero defined as zero.
pub open spec fn arith_byte(op: ArithOp, a: u8, b: u8) -> u8 {
    match op {
        ArithOp::Add => a.wrapping_add(b),
        ArithOp::Sub => a.wrapping_sub(b),
        ArithOp::Mul => a.wrapping_mul(b),
        ArithOp::Div => if b == 0 {
            0u8
        } else {
            a / b
        },
    }
}

/// Short-mode arithmetic: wrapping, with division by zero defined as zero.
pub open spec fn arith_short(op: ArithOp, a: u16, b: u16) -> u16 {
    match op {
        ArithOp::Add => a.wrapping_add(b),
        ArithOp::Sub => a.wrapping_sub(b),
        ArithOp::Mul => a.wrapping_mul(b),
        ArithOp::Div => if b == 0 {
            0u16
        } else {
            a / b
        },
    }
}

/// Target of a byte-mode relative jump: the popped offset is sign-extended
/// and added to the PC modulo 2^16.
pub open spec fn rel_target(pc: u16, offset: u8) -> u16 {
    if offset < 0x80 {
        pc.wrapping_add(offset as u16)
    } else {
        pc.wrapping_add((offset + 0xff00) as u16)
    }
}

/// INC: pop a value, push it incremented by one (wrapping).
pub open spec fn spec_op_inc(c: CpuView, short: bool, ret: bool, keep: bool) -> CpuView {
    let s = c.active(ret);
    if short {
        let v = s.top_short();
        let s1 = s.drop_short();
        let s2 = if keep {
            s1.push_short(v)
        } else {
            s1
        };
        c.with_active(ret, s2.push_short(v.wrapping_add(1)))
    } else {
        let v = s.top();
        let s1 = s.drop_byte();
        let s2 = if keep {
            s1.push_byte(v)
        } else {
            s1
        };
        c.with_active(ret, s2.push_byte(v.wrapping_add(1)))
    }
}

/// DUP: pop a value, push it back twice.
pub open spec fn spec_op_dup(c: CpuView, short: bool, ret: bool, keep: bool) -> CpuView {
    let s = c.active(ret);
    if short {
        let v = s.top_short();
        let s1 = s.drop_short();
        let s2 = if keep {
            s1.push_short(v)
        } else {
            s1
        };
        c.with_active(ret, s2.push_short(v).push_short(v))
    } else {
        let v = s.top();
        let s1 = s.drop_byte();
        let s2 = if keep {
            s1.push_byte(v)
        } else {
            s1
        };
        c.with_active(ret, s2.push_byte(v).push_byte(v))
    }
}

/// EQU: pop b then a, push one byte: 1 if equal, 0 otherwise.
pub open spec fn spec_op_equ(c: CpuView, short: bool, ret: bool, keep: bool) -> CpuView {
    let s = c.active(ret);
    if short {
        let b = s.top_short();
        let s1 = s.drop_short();
        let a = s1.top_short();
        let s2 = s1.drop_short();
        let s3 = if keep {
            s2.push_short(a).push_short(b)
        } else {
            s2
        };
        c.with_active(ret, s3.push_byte(if a == b {
            1u8
        } else {
            0u8
        }))
    } else {
        let b = s.top();
        let s1 = s.drop_byte();
        let a = s1.top();
        let s2 = s1.drop_byte();
        let s3 = if keep {
            s2.push_byte(a).push_byte(b)
        } else {
            s2
        };
        c.with_active(ret, s3.push_byte(if a == b {
            1u8
        } else {
            0u8
        }))
    }
}

/// JMP: short mode sets the PC to a popped absolute address; byte mode
/// advances the PC by a popped signed offset.
pub open spec fn spec_op_jmp(c: CpuView, short: bool, ret: bool, keep: bool) -> CpuView {
    let s = c.active(ret);
    if short {
        let addr = s.top_short();
        let s1 = s.drop_short();
        let s2 = if keep {
            s1.push_short(addr)
        } else {
            s1
        };
        c.with_active(ret, s2).with_pc(addr)
    } else {
        let offset = s.top();
        let s1 = s.drop_byte();
        let s2 = if keep {
            s1.push_byte(offset)
        } else {
            s1
        };
        c.with_active(ret, s2).with_pc(rel_target(c.pc, offset))
    }
}

/// JNZ: pop an address (short) or signed offset (byte), then pop a condition
/// byte; jump as JMP would only if the condition is non-zero.
pub open spec fn spec_op_jnz(c: CpuView, short: bool, ret: bool, keep: bool) -> CpuView {
    let s = c.active(ret);
    if short {
        let addr = s.top_short();
        let s1 = s.drop_short();
        let cond = s1.top();
        let s2 = s1.drop_byte();
        let s3 = if keep {
            s2.push_byte(cond).push_short(addr)
        } else {
            s2
        };
        let c1 = c.with_active(ret, s3);
        if cond != 0 {
            c1.with_pc(addr)
        } else {
            c1
        }
    } else {
        let offset = s.top();
        let s1 = s.drop_byte();
        let cond = s1.top();
        let s2 = s1.drop_byte();
        let s3 = if keep {
            s2.push_byte(cond).push_byte(offset)
        } else {
            s2
        };
        let c1 = c.with_active(ret, s3);
        if cond != 0 {
            c1.with_pc(rel_target(c.pc, offset))
        } else {
            c1
        }
    }
}

/// LDZ: pop an 8-bit zero-page address, push the byte or short stored there.
pub open spec fn spec_op_ldz(c: CpuView, short: bool, ret: bool, keep: bool) -> CpuView {
    let s = c.active(ret);
    let addr = s.top();
    let s1 = s.drop_byte();
    let s2 = if keep {
        s1.push_byte(addr)
    } else {
        s1
    };
    if short {
        c.with_active(ret, s2.push_short(c.ram_short(addr as u16)))
    } else {
        c.with_active(ret, s2.push_byte(c.ram_byte(addr as u16)))
    }
}

/// STZ: pop an 8-bit zero-page address, pop a value, write it there.
pub open spec fn spec_op_stz(c: CpuView, short: bool, ret: bool, keep: bool) -> CpuView {
    let s = c.active(ret);
    let addr = s.top();
    let s1 = s.drop_byte();
    if short {
        let v = s1.top_short();
        let s2 = s1.drop_short();
        let s3 = if keep {
            s2.push_short(v).push_byte(addr)
        } else {
            s2
        };
        c.with_active(ret, s3).write_ram_short(addr as u16, v)
    } else {
        let v = s1.top();
        let s2 = s1.drop_byte();
        let s3 = if keep {
            s2.push_byte(v).push_byte(addr)
        } else {
            s2
        };
        c.with_active(ret, s3).write_ram_byte(addr as u16, v)
    }
}

/// PUSH (LIT): read one or two immediate bytes at the PC, advance the PC past
/// them and push them; a short is pushed in program order, high byte first.
pub open spec fn spec_op_push(c: CpuView, short: bool, ret: bool) -> CpuView {
    if short {
        let v = c.ram_short(c.pc);
        c.with_pc(c.pc.wrapping_add(2)).with_active(ret, c.active(ret).push_short(v))
    } else {
        let v = c.ram_byte(c.pc);
        c.with_pc(c.pc.wrapping_add(1)).with_active(ret, c.active(ret).push_byte(v))
    }
}

/// Binary arithmetic: pop b then a, push `a OP b`.
pub open spec fn spec_op_arith(
    c: CpuView,
    op: ArithOp,
    short: bool,
    ret: bool,
    keep: bool,
) -> CpuView {
    let s = c.active(ret);
    if short {
        let b = s.top_short();
        let s1 = s.drop_short();
        let a = s1.top_short();
        let s2 = s1.drop_short();
        let s3 = if keep {
            s2.push_short(a).push_short(b)
        } else {
            s2
        };
        c.with_active(ret, s3.push_short(arith_short(op, a, b)))
    } else {
        let b = s.top();
        let s1 = s.drop_byte();
        let a = s1.top();
        let s2 = s1.drop_byte();
        let s3 = if keep {
            s2.push_byte(a).push_byte(b)
        } else {
            s2
        };
        c.with_active(ret, s3.push_byte(arith_byte(op, a, b)))
    }
}

/// The port a DEI or DEO instruction names: the top byte of the active stack.
pub open spec fn spec_io_target(c: CpuView, ret: bool) -> u8 {
    c.active(ret).top()
}

/// The stack part of DEI: pop a port, push the device byte stored there (or
/// the big-endian short of two consecutive ports in short mode).
pub open spec fn spec_op_dei_push(c: CpuView, short: bool, ret: bool, keep: bool) -> CpuView {
    let s = c.active(ret);
    let target = s.top();
    let s1 = s.drop_byte();
    let s2 = if keep {
        s1.push_byte(target)
    } else {
        s1
    };
    if short {
        c.with_active(
            ret,
            s2.push_short(be_short(c.dev_byte(target), c.dev_byte(target.wrapping_add(1)))),
        )
    } else {
        c.with_active(ret, s2.push_byte(c.dev_byte(target)))
    }
}

/// The port-write part of DEO: pop a port, pop a value, store the value in
/// the device page (two consecutive ports in short mode, high byte first).
pub open spec fn spec_op_deo_write(c: CpuView, short: bool, ret: bool, keep: bool) -> CpuView {
    let s = c.active(ret);
    let target = s.top();
    let s1 = s.drop_byte();
    if short {
        let v = s1.top_short();
        let s2 = s1.drop_short();
        let s3 = if keep {
            s2.push_short(v).push_byte(target)
        } else {
            s2
        };
        c.with_active(ret, s3).write_dev_byte(target, hi_byte(v)).write_dev_byte(
            target.wrapping_add(1),
            lo_byte(v),
        )
    } else {
        let v = s1.top();
        let s2 = s1.drop_byte();
        let s3 = if keep {
            s2.push_byte(v).push_byte(target)
        } else {
            s2
        };
        c.with_active(ret, s3).write_dev_byte(target, v)
    }
}

/// Whether the opcode halts a run: the BRK base code without the KEEP flag
/// (with KEEP it is the PUSH instruction instead).
pub open spec fn is_brk(op: u8) -> bool {
    (op & opcodes::BASE_MASK) == opcodes::BRK && (op & opcodes::FLAG_KEEP) != opcodes::FLAG_KEEP
}

/// Whether the opcode performs device I/O: after its port transfer the host
/// is notified and may mutate the CPU, so its full effect involves the host.
pub open spec fn is_io(op: u8) -> bool {
    (op & opcodes::BASE_MASK) == opcodes::DEI || (op & opcodes::BASE_MASK) == opcodes::DEO
}

/// The base codes the instruction set assigns; all others are no-ops.
pub open spec fn assigned_base(base: u8) -> bool {
    ||| base == opcodes::BRK
    ||| base == opcodes::INC
    ||| base == opcodes::DUP
    ||| base == opcodes::EQU
    ||| base == opcodes::JMP
    ||| base == opcodes::JNZ
    ||| base == opcodes::LDZ
    ||| base == opcodes::STZ
    ||| base == opcodes::DEI
    ||| base == opcodes::DEO
    ||| base == opcodes::ADD
    ||| base == opcodes::SUB
    ||| base == opcodes::MUL
    ||| base == opcodes::DIV
}

/// One interpreter step: fetch the opcode at the PC, advance the PC past it,
/// and apply the operation its base code selects, under its mode flags.
///
/// For DEI and DEO this is the stack and port transfer alone — the state the
/// host callback then observes; for a fetched BRK it is the advanced PC
/// alone, which is the state a run returns in.
pub open spec fn spec_step(c: CpuView) -> CpuView {
    let op = c.ram[c.pc as int];
    let base = op & opcodes::BASE_MASK;
    let short = (op & opcodes::FLAG_SHORT) == opcodes::FLAG_SHORT;
    let ret = (op & opcodes::FLAG_RET) == opcodes::FLAG_RET;
    let keep = (op & opcodes::FLAG_KEEP) == opcodes::FLAG_KEEP;
    let c1 = c.with_pc(c.pc.wrapping_add(1));
    if base == opcodes::BRK {
        if keep {
            spec_op_push(c1, short, ret)
        } else {
            c1
        }
    } else if base == opcodes::INC {
        spec_op_inc(c1, short, ret, keep)
    } else if base == opcodes::DUP {
        spec_op_dup(c1, short, ret, keep)
    } else if base == opcodes::EQU {
        spec_op_equ(c1, short, ret, keep)
    } else if base == opcodes::JMP {
        spec_op_jmp(c1, short, ret, keep)
    } else if base == opcodes::JNZ {
        spec_op_jnz(c1, short, ret, keep)
    } else if base == opcodes::LDZ {
        spec_op_ldz(c1, short, ret, keep)
    } else if base == opcodes::STZ {
        spec_op_stz(c1, short, ret, keep)
    } else if base == opcodes::DEI {
        spec_op_dei_push(c1, short, ret, keep)
    } else if base == opcodes::DEO {
        spec_op_deo_write(c1, short, ret, keep)
    } else if base == opcodes::ADD {
        spec_op_arith(c1, ArithOp::Add, short, ret, keep)
    } else if base == opcodes::SUB {
        spec_op_arith(c1, ArithOp::Sub, short, ret, keep)
    } else if base == opcodes::MUL {
        spec_op_arith(c1, ArithOp::Mul, short, ret, keep)
    } else if base == opcodes::DIV {
        spec_op_arith(c1, ArithOp::Div, short, ret, keep)
    } else {
        c1
    }
}

/// The machine-independent interpreter: runs `spec_step` from `c` for at
/// most `fuel` instructions. Yields the final state — the PC one past the
/// halting BRK — when a BRK is fetched within the budget and no device
/// instruction intervenes; `None` when the budget runs out first or a DEI or
/// DEO is hit, whose effect depends on the host.
pub open spec fn spec_run(c: CpuView, fuel: nat) -> Option<CpuView>
    decreases fuel,
{
    if fuel == 0 {
        None
    } else {
        let op = c.ram[c.pc as int];
        if is_brk(op) {
            Some(c.with_pc(c.pc.wrapping_add(1)))
        } else if is_io(op) {
            None
        } else {
            spec_run(spec_step(c), (fuel - 1) as nat)
        }
    }
}

/// One observable step of a run with host `M`: away from device I/O the
/// instruction takes exactly its `spec_step` transition and the host stays
/// put; at a DEI or DEO the transfer of `spec_step` runs first and the
/// host's callback then leaves a state its own contract admits — a
/// well-formed one that satisfies the host's `dei_admits` or `deo_admits`
/// relation at the popped port.
pub open spec fn host_step<M: Machine>(m0: M, c0: CpuView, m1: M, c1: CpuView) -> bool {
    let op = c0.ram[c0.pc as int];
    if is_io(op) {
        let ret = (op & opcodes::FLAG_RET) == opcodes::FLAG_RET;
        let mid = spec_step(c0);
        let target = c0.active(ret).top();
        &&& c1.wf()
        &&& m1.inv()
        &&& if (op & opcodes::BASE_MASK) == opcodes::DEI {
            M::dei_admits(m0, mid, target, m1, c1)
        } else {
            M::deo_admits(m0, mid, target, m1, c1)
        }
    } else {
        m1 == m0 && c1 == spec_step(c0)
    }
}

/// `(m1, c1)` ends a run begun at `(m0, c0)` within `fuel` instructions: a
/// chain of `host_step`s that reaches a halting BRK — leaving the PC one
/// past it — or, failing that, spends the whole budget.
pub open spec fn spec_reaches<M: Machine>(m0: M, c0: CpuView, m1: M, c1: CpuView, fuel: nat) -> bool
    decreases fuel,
{
    if fuel == 0 {
        m1 == m0 && c1 == c0
    } else if is_brk(c0.ram[c0.pc as int]) {
        m1 == m0 && c1 == c0.with_pc(c0.pc.wrapping_add(1))
    } else {
        exists|m: M, c: CpuView|
            #[trigger] host_step(m0, c0, m, c) && spec_reaches(m, c, m1, c1, (fuel - 1) as nat)
    }
}

/// One step preserves well-formedness of the CPU state.
#[verifier::rlimit(50)]
pub proof fn lemma_spec_step_wf(c: CpuView)
    requires
        c.wf(),
    ensures
        spec_step(c).wf(),
{
}

/// A completed machine-independent run is well formed and its PC points one
/// past the BRK byte that was fetched to halt it.
pub proof fn lemma_spec_run_halts_at_brk(c: CpuView, fuel: nat, r: CpuView)
    requires
        c.wf(),
        spec_run(c, fuel) == Some(r),
    ensures
        r.wf(),
        is_brk(r.ram[r.pc.wrapping_sub(1) as int]),
    decreases fuel,
{
    let op = c.ram[c.pc as int];
    if is_brk(op) {
    } else {
        lemma_spec_step_wf(c);
        lemma_spec_run_halts_at_brk(spec_step(c), (fuel - 1) as nat, r);
    }
}

/// A byte whose base code the instruction set does not assign is a no-op:
/// the step advances the PC past it and changes nothing else.
pub proof fn lemma_unknown_opcode_noop(c: CpuView)
    requires
        !assigned_base(c.ram[c.pc as int] & opcodes::BASE_MASK),
    ensures
        spec_step(c) == c.with_pc(c.pc.wrapping_add(1)),
{
}

/// Byte-mode arithmetic computes `(a OP b)` modulo 256 and leaves it on top
/// of the active stack; division by zero yields zero.
pub proof fn lemma_arith_byte_result(c: CpuView, op: ArithOp, ret: bool, keep: bool)
    requires
        c.wf(),
    ensures
        ({
            let b = c.active(ret).top();
            let a = c.active(ret).drop_byte().top();
            let s2 = spec_op_arith(c, op, false, ret, keep).active(ret);
            &&& s2.top() == arith_byte(op, a, b)
            &&& (op == ArithOp::Add ==> s2.top() == (a + b) % 256)
            &&& (op == ArithOp::Sub ==> s2.top() == (a - b + 256) % 256)
            &&& (op == ArithOp::Mul ==> s2.top() == (a * b) % 256)
            &&& (op == ArithOp::Div && b != 0 ==> s2.top() == a / b)
            &&& (op == ArithOp::Div && b == 0 ==> s2.top() == 0)
        }),
{
}

/// Short-mode arithmetic computes `(a OP b)` modulo 65536 and leaves it on
/// top of the active stack; division by zero yields zero.
#[verifier::rlimit(50)]
pub proof fn lemma_arith_short_result(c: CpuView, op: ArithOp, ret: bool, keep: bool)
    requires
        c.wf(),
    ensures
        ({
            let b = c.active(ret).top_short();
            let a = c.active(ret).drop_short().top_short();
            let s2 = spec_op_arith(c, op, true, ret, keep).active(ret);
            &&& s2.top_short() == arith_short(op, a, b)
            &&& (op == ArithOp::Add ==> s2.top_short() == (a + b) % 0x10000)
            &&& (op == ArithOp::Sub ==> s2.top_short() == (a - b + 0x10000) % 0x10000)
            &&& (op == ArithOp::Mul ==> s2.top_short() == (a * b) % 0x10000)
            &&& (op == ArithOp::Div && b != 0 ==> s2.top_short() == a / b)
            &&& (op == ArithOp::Div && b == 0 ==> s2.top_short() == 0)
        }),
{
    let b = c.active(ret).top_short();
    let a = c.active(ret).drop_short().top_short();
    let s3 = if keep {
        c.active(ret).drop_short().drop_short().push_short(a).push_short(b)
    } else {
        c.active(ret).drop_short().drop_short()
    };
    crate::stack::lemma_push_short_top(s3, arith_short(op, a, b));
}

/// PUSH reads the immediate byte at the PC, advances the PC past it, and
/// leaves the byte on top of the active stack with the depth one higher
/// (stated away from the wrap of a stack already holding 255 bytes).
pub proof fn lemma_push_byte(c: CpuView, ret: bool)
    requires
        c.wf(),
        c.active(ret).depth() < 255,
    ensures
        ({
            let c2 = spec_op_push(c, false, ret);
            &&& c2.active(ret).top() == c.ram_byte(c.pc)
            &&& c2.active(ret).depth() == c.active(ret).depth() + 1
            &&& c2.pc == c.pc.wrapping_add(1)
        }),
{
}

/// PUSH2 reads the two immediate bytes at the PC and pushes them in program
/// order, high byte first, so a following short pop reassembles them
/// (stated away from the wrap of a stack already holding 254 bytes).
pub proof fn lemma_push_short(c: CpuView, ret: bool)
    requires
        c.wf(),
        c.active(ret).depth() < 254,
    ensures
        ({
            let c2 = spec_op_push(c, true, ret);
            &&& c2.active(ret).top_short() == c.ram_short(c.pc)
            &&& c2.active(ret).top() == lo_byte(c.ram_short(c.pc))
            &&& c2.active(ret).drop_byte().top() == hi_byte(c.ram_short(c.pc))
            &&& c2.active(ret).depth() == c.active(ret).depth() + 2
            &&& c2.pc == c.pc.wrapping_add(2)
        }),
{
    crate::arith::lemma_split_join(c.ram_short(c.pc));
}

/// Storing a byte and loading it back from the same address round-trips.
pub proof fn lemma_ram_round_trip_byte(c: CpuView, addr: u16, v: u8)
    requires
        c.wf(),
    ensures
        c.write_ram_byte(addr, v).ram_byte(addr) == v,
{
}

/// Storing a short and loading it back from the same address round-trips.
pub proof fn lemma_ram_round_trip_short(c: CpuView, addr: u16, v: u16)
    requires
        c.wf(),
    ensures
        c.write_ram_short(addr, v).ram_short(addr) == v,
{
    crate::arith::lemma_split_join(v);
}

/// DUP leaves two equal copies of the popped byte on top, with the depth one
/// higher (stated away from the wrap of a stack already holding 255 bytes).
pub proof fn lemma_dup_byte(c: CpuView, ret: bool)
    requires
        c.wf(),
        c.active(ret).depth() < 255,
    ensures
        ({
            let s2 = spec_op_dup(c, false, ret, false).active(ret);
            &&& s2.top() == c.active(ret).top()
            &&& s2.drop_byte().top() == c.active(ret).top()
            &&& s2.depth() == c.active(ret).depth() + 1
        }),
{
}

/// DUP2 leaves two equal copies of the popped short on top, with the depth
/// two higher (stated away from the wrap of a stack already holding 254).
#[verifier::rlimit(50)]
pub proof fn lemma_dup_short(c: CpuView, ret: bool)
    requires
        c.wf(),
        c.active(ret).depth() < 254,
    ensures
        ({
            let s2 = spec_op_dup(c, true, ret, false).active(ret);
            &&& s2.top_short() == c.active(ret).top_short()
            &&& s2.drop_short().top_short() == c.active(ret).top_short()
            &&& s2.depth() == c.active(ret).depth() + 2
        }),
{
    let v = c.active(ret).top_short();
    let s1 = c.active(ret).drop_short();
    crate::stack::lemma_push_short_top(s1, v);
    crate::stack::lemma_push_short_top(s1.push_short(v), v);
    crate::arith::lemma_split_join(v);
}

/// Short-mode JMP sets the PC to exactly the popped absolute address;
/// byte-mode JMP advances the PC by the sign-extended popped offset.
pub proof fn lemma_jmp_target(c: CpuView, ret: bool, keep: bool)
    requires
        c.wf(),
    ensures
        spec_op_jmp(c, true, ret, keep).pc == c.active(ret).top_short(),
        spec_op_jmp(c, false, ret, keep).pc == rel_target(c.pc, c.active(ret).top()),
        c.active(ret).top() < 0x80 ==> spec_op_jmp(c, false, ret, keep).pc == (c.pc + c.active(
            ret,
        ).top()) % 0x10000,
        c.active(ret).top() >= 0x80 ==> spec_op_jmp(c, false, ret, keep).pc == (c.pc + c.active(
            ret,
        ).top() - 0x100) % 0x10000,
{
}

/// After the stack and port transfer of a byte-mode DEO, the device page
/// holds the popped value at the popped port; the host callback then runs on
/// exactly that state and is handed that port.
pub proof fn lemma_deo_port_write(c: CpuView, ret: bool, keep: bool)
    requires
        c.wf(),
    ensures
        ({
            let target = spec_io_target(c, ret);
            let value = c.active(ret).drop_byte().top();
            spec_op_deo_write(c, false, ret, keep).dev_byte(target) == value
        }),
{
}

/// Fetching an instruction advances the PC modulo 2^16, so the PC wraps from
/// 0xFFFF to 0x0000.
pub proof fn lemma_pc_wrap(pc: u16)
    ensures
        pc.wrapping_add(1) == ((pc + 1) % 0x10000),
        pc == 0xffff ==> pc.wrapping_add(1) == 0,
{
}

/// The capability set a host provides: it is notified after each device port
/// transfer and may mutate the CPU (RAM, ports, PC) in response.
pub trait Machine: Sized {
    /// Invariant on the host's own state, maintained across callbacks.
    spec fn inv(&self) -> bool;

    /// Relation every `deo` callback respects: given the host and CPU it
    /// observed and the port it was handed, which host and CPU states it may
    /// leave. A host unwilling to promise anything declares it `true`.
    spec fn deo_admits(pre: Self, c_pre: CpuView, target: u8, post: Self, c_post: CpuView) -> bool;

    /// Relation every `dei` callback respects, as `deo_admits` for DEI.
    spec fn dei_admits(pre: Self, c_pre: CpuView, target: u8, post: Self, c_post: CpuView) -> bool;

    /// Called after a DEO write landed in the device page; `target` is the
    /// port the program named.
    fn deo(&mut self, cpu: &mut Cpu, target: u8)
        requires
            old(cpu).wf(),
            old(self).inv(),
        ensures
            final(cpu).wf(),
            final(self).inv(),
            Self::deo_admits(*old(self), old(cpu)@, target, *final(self), final(cpu)@),
    ;

    /// Called after a DEI read was pushed; `target` is the port the program
    /// named.
    fn dei(&mut self, cpu: &mut Cpu, target: u8)
        requires
            old(cpu).wf(),
            old(self).inv(),
        ensures
            final(cpu).wf(),
            final(self).inv(),
            Self::dei_admits(*old(self), old(cpu)@, target, *final(self), final(cpu)@),
    ;
}

/// A device's port window: sixteen consecutive ports starting at `BASE`,
/// the high nibble of every port address the device owns.
pub trait Ports {
    const BASE: u8;
}

/// The CPU.
pub struct Cpu {
    /// Main memory (64 KiB).
    ram: Vec<u8>,
    /// Device page (256 bytes).
    devices: Vec<u8>,
    /// Main, working stack.
    stack: Stack,
    /// Return stack.
    ret_stack: Stack,
    /// Program counter.
    pc: u16,
}

impl View for Cpu {
    type V = CpuView;

    closed spec fn view(&self) -> CpuView {
        CpuView {
            ram: self.ram@,
            devices: self.devices@,
            wrk: self.stack@,
            ret: self.ret_stack@,
            pc: self.pc,
        }
    }
}

impl Cpu {
    pub open spec fn wf(self) -> bool {
        self@.wf()
    }

    /// A fresh CPU: the ROM copied to RAM at 0x100 (truncated at the end of
    /// RAM), everything else zero.
    pub fn new(rom: &[u8]) -> (r: Self)
        ensures
            r.wf(),
            r@.pc == 0,
            r@.wrk.index == 255,
            r@.ret.index == 255,
            forall|i: int| 0 <= i < 256 ==> r@.wrk.data[i] == 0u8,
            forall|i: int| 0 <= i < 256 ==> r@.ret.data[i] == 0u8,
            forall|i: int| 0 <= i < 0x100 ==> r@.devices[i] == 0u8,
            forall|a: int| 0 <= a < 0x100 ==> r@.ram[a] == 0u8,
            forall|a: int|
                0x100 <= a < 0x10000 ==> r@.ram[a] == (if a - 0x100 < rom@.len() {
                    rom@[a - 0x100]
                } else {
                    0u8
                }),
    {
        let mut ram = zeroed(0x10000);
        let count = if rom.len() > 0xff00 {
            0xff00
        } else {
            rom.len()
        };
        let mut i: usize = 0;
        while i < count
            invariant
                count <= rom@.len(),
                count <= 0xff00,
                i <= count,
                ram@.len() == 0x10000,
                forall|a: int| 0 <= a < 0x100 ==> ram@[a] == 0u8,
                forall|a: int| 0x100 <= a < 0x100 + i ==> ram@[a] == rom@[a - 0x100],
                forall|a: int| 0x100 + i <= a < 0x10000 ==> ram@[a] == 0u8,
            decreases count - i,
        {
            ram.set(0x100 + i, rom[i]);
            i = i + 1;
        }
        Cpu {
            ram,
            devices: zeroed(0x100),
            stack: Stack::new(),
            ret_stack: Stack::new(),
            pc: 0,
        }
    }

    /// Returns a byte of memory.
    pub fn ram_peek_byte(&self, addr: u16) -> (r: u8)
        requires
            self.wf(),
        ensures
            r == self@.ram_byte(addr),
    {
        self.ram[addr as usize]
    }

    /// Returns a big-endian short from memory.
    pub fn ram_peek_short(&self, addr: u16) -> (r: u16)
        requires
            self.wf(),
        ensures
            r == self@.ram_short(addr),
    {
        let hi = self.ram[addr as usize];
        let lo = self.ram[addr.wrapping_add(1) as usize];
        join_short(hi, lo)
    }

    /// Writes a byte of memory.
    pub fn ram_poke_byte(&mut self, addr: u16, value: u8)
        requires
            old(self).wf(),
        ensures
            final(self).wf(),
            final(self)@ == old(self)@.write_ram_byte(addr, value),
    {
        self.ram.set(addr as usize, value);
    }

    /// Writes a big-endian short to memory.
    pub fn ram_poke_short(&mut self, addr: u16, value: u16)
        requires
            old(self).wf(),
        ensures
            final(self).wf(),
            final(self)@ == old(self)@.write_ram_short(addr, value),
    {
        let (hi, lo) = split_short(value);
        self.ram.set(addr as usize, hi);
        self.ram.set(addr.wrapping_add(1) as usize, lo);
    }

    /// Returns the current value of the program counter (PC).
    pub fn pc(&self) -> (r: u16)
        ensures
            r == self@.pc,
    {
        self.pc
    }

    /// The main, working stack.
    pub fn stack(&self) -> (r: &Stack)
        ensures
            r@ == self@.wrk,
    {
        &self.stack
    }

    /// The return stack.
    pub fn ret_stack(&self) -> (r: &Stack)
        ensures
            r@ == self@.ret,
    {
        &self.ret_stack
    }

    /// The debug dump of the CPU: both stacks, two lines, no trailing
    /// newline.
    pub fn dump(&self) -> (r: String)
        requires
            self.wf(),
        ensures
            r@ == dump_text(self@),
    {
        let mut s = String::from_str("WRK: [");
        s.append(self.stack.dump().as_str());
        s.append("]\nRET: [");
        s.append(self.ret_stack.dump().as_str());
        s.append("]");
        s
    }

    /// A copy of the sixteen device-page bytes of `D`'s window.
    pub fn device_page<D: Ports>(&self) -> (r: Vec<u8>)
        requires
            self.wf(),
            D::BASE as int + 0x10 <= 0x100,
        ensures
            r@ == self@.devices.subrange(D::BASE as int, D::BASE as int + 0x10),
    {
        let base = D::BASE as usize;
        let mut window: Vec<u8> = Vec::new();
        let mut i: usize = 0;
        while i < 0x10
            invariant
                self.wf(),
                base == D::BASE as int,
                base + 0x10 <= 0x100,
                i <= 0x10,
                window@.len() == i,
                forall|j: int| 0 <= j < i ==> window@[j] == self@.devices[base + j],
            decreases 0x10 - i,
        {
            window.push(self.devices[base + i]);
            i = i + 1;
        }
        proof {
            assert(window@ =~= self@.devices.subrange(D::BASE as int, D::BASE as int + 0x10));
        }
        window
    }

    /// Writes one port inside `D`'s device window.
    pub fn device_poke<D: Ports>(&mut self, offset: u8, value: u8)
        requires
            old(self).wf(),
            offset < 0x10,
            D::BASE as int + 0x10 <= 0x100,
        ensures
            final(self).wf(),
            final(self)@ == old(self)@.write_dev_byte((D::BASE + offset) as u8, value),
    {
        self.devices.set(D::BASE as usize + offset as usize, value);
    }

    /// The device-page byte at `port`.
    fn dev_read(&self, port: u8) -> (r: u8)
        requires
            self.wf(),
        ensures
            r == self@.dev_byte(port),
    {
        self.devices[port as usize]
    }

    /// Writes the device-page byte at `port`.
    fn dev_write(&mut self, port: u8, value: u8)
        requires
            old(self).wf(),
        ensures
            final(self).wf(),
            final(self)@ == old(self)@.write_dev_byte(port, value),
    {
        self.devices.set(port as usize, value);
    }

    /// Fetches the byte at PC and advances PC (wrapping).
    fn read_byte(&mut self) -> (r: u8)
        requires
            old(self).wf(),
        ensures
            final(self).wf(),
            r == old(self)@.ram_byte(old(self)@.pc),
            final(self)@ == old(self)@.with_pc(old(self)@.pc.wrapping_add(1)),
    {
        let res = self.ram[self.pc as usize];
        self.pc = self.pc.wrapping_add(1);
        res
    }

    /// Fetches the big-endian short at PC and advances PC by two (wrapping).
    fn read_short(&mut self) -> (r: u16)
        requires
            old(self).wf(),
        ensures
            final(self).wf(),
            r == old(self)@.ram_short(old(self)@.pc),
            final(self)@ == old(self)@.with_pc(old(self)@.pc.wrapping_add(2)),
    {
        let hi = self.ram[self.pc as usize];
        let lo = self.ram[self.pc.wrapping_add(1) as usize];
        self.pc = self.pc.wrapping_add(2);
        join_short(hi, lo)
    }

    /// Pops a byte from the active stack.
    fn pop_b(&mut self, ret_mode: bool) -> (r: u8)
        requires
            old(self).wf(),
        ensures
            final(self).wf(),
            r == old(self)@.active(ret_mode).top(),
            final(self)@ == old(self)@.with_active(
                ret_mode,
                old(self)@.active(ret_mode).drop_byte(),
            ),
    {
        if ret_mode {
            self.ret_stack.pop_byte()
        } else {
            self.stack.pop_byte()
        }
    }

    /// Pushes a byte onto the active stack.
    fn push_b(&mut self, ret_mode: bool, x: u8)
        requires
            old(self).wf(),
        ensures
            final(self).wf(),
            final(self)@ == old(self)@.with_active(
                ret_mode,
                old(self)@.active(ret_mode).push_byte(x),
            ),
    {
        if ret_mode {
            self.ret_stack.push_byte(x);
        } else {
            self.stack.push_byte(x);
        }
    }

    /// Pops a big-endian short from the active stack.
    fn pop_s(&mut self, ret_mode: bool) -> (r: u16)
        requires
            old(self).wf(),
        ensures
            final(self).wf(),
            r == old(self)@.active(ret_mode).top_short(),
            final(self)@ == old(self)@.with_active(
                ret_mode,
                old(self)@.active(ret_mode).drop_short(),
            ),
    {
        if ret_mode {
            self.ret_stack.pop_short()
        } else {
            self.stack.pop_short()
        }
    }

    /// Pushes a big-endian short onto the active stack.
    fn push_s(&mut self, ret_mode: bool, x: u16)
        requires
            old(self).wf(),
        ensures
            final(self).wf(),
            final(self)@ == old(self)@.with_active(
                ret_mode,
                old(self)@.active(ret_mode).push_short(x),
            ),
    {
        if ret_mode {
            self.ret_stack.push_short(x);
        } else {
            self.stack.push_short(x);
        }
    }

    fn op_inc(&mut self, short: bool, ret: bool, keep: bool)
        requires
            old(self).wf(),
        ensures
            final(self).wf(),
            final(self)@ == spec_op_inc(old(self)@, short, ret, keep),
    {
        if short {
            let v = self.pop_s(ret);
            if keep {
                self.push_s(ret, v);
            }
            self.push_s(ret, v.wrapping_add(1));
        } else {
            let v = self.pop_b(ret);
            if keep {
                self.push_b(ret, v);
            }
            self.push_b(ret, v.wrapping_add(1));
        }
    }

    fn op_dup(&mut self, short: bool, ret: bool, keep: bool)
        requires
            old(self).wf(),
        ensures
            final(self).wf(),
            final(self)@ == spec_op_dup(old(self)@, short, ret, keep),
    {
        if short {
            let v = self.pop_s(ret);
            if keep {
                self.push_s(ret, v);
            }
            self.push_s(ret, v);
            self.push_s(ret, v);
        } else {
            let v = self.pop_b(ret);
            if keep {
                self.push_b(ret, v);
            }
            self.push_b(ret, v);
            self.push_b(ret, v);
        }
    }

    fn op_equ(&mut self, short: bool, ret: bool, keep: bool)
        requires
            old(self).wf(),
        ensures
            final(self).wf(),
            final(self)@ == spec_op_equ(old(self)@, short, ret, keep),
    {
        let res = if short {
            let b = self.pop_s(ret);
            let a = self.pop_s(ret);
            if keep {
                self.push_s(ret, a);
                self.push_s(ret, b);
            }
            a == b
        } else {
            let b = self.pop_b(ret);
            let a = self.pop_b(ret);
            if keep {
                self.push_b(ret, a);
                self.push_b(ret, b);
            }
            a == b
        };
        self.push_b(ret, if res {
            0x01
        } else {
            0x00
        });
    }

    fn op_jmp(&mut self, short: bool, ret: bool, keep: bool)
        requires
            old(self).wf(),
        ensures
            final(self).wf(),
            final(self)@ == spec_op_jmp(old(self)@, short, ret, keep),
    {
        if short {
            let addr = self.pop_s(ret);
            if keep {
                self.push_s(ret, addr);
            }
            self.pc = addr;
        } else {
            let offset = self.pop_b(ret);
            if keep {
                self.push_b(ret, offset);
            }
            self.pc = Self::rel_jump(self.pc, offset);
        }
    }

    /// Adds a sign-extended byte offset to the PC (wrapping).
    fn rel_jump(pc: u16, offset: u8) -> (r: u16)
        ensures
            r == rel_target(pc, offset),
    {
        if offset < 0x80 {
            pc.wrapping_add(offset as u16)
        } else {
            pc.wrapping_add(offset as u16 + 0xff00)
        }
    }

    fn op_jnz(&mut self, short: bool, ret: bool, keep: bool)
        requires
            old(self).wf(),
        ensures
            final(self).wf(),
            final(self)@ == spec_op_jnz(old(self)@, short, ret, keep),
    {
        if short {
            let addr = self.pop_s(ret);
            let cond = self.pop_b(ret);
            if keep {
                self.push_b(ret, cond);
                self.push_s(ret, addr);
            }
            if cond != 0x00 {
                self.pc = addr;
            }
        } else {
            let offset = self.pop_b(ret);
            let target = Self::rel_jump(self.pc, offset);
            let cond = self.pop_b(ret);
            if keep {
                self.push_b(ret, cond);
                self.push_b(ret, offset);
            }
            if cond != 0x00 {
                self.pc = target;
            }
        }
    }

    fn op_ldz(&mut self, short: bool, ret: bool, keep: bool)
        requires
            old(self).wf(),
        ensures
            final(self).wf(),
            final(self)@ == spec_op_ldz(old(self)@, short, ret, keep),
    {
        let addr = self.pop_b(ret);
        if keep {
            self.push_b(ret, addr);
        }
        if short {
            let value = self.ram_peek_short(addr as u16);
            self.push_s(ret, value);
        } else {
            let value = self.ram_peek_byte(addr as u16);
            self.push_b(ret, value);
        }
    }

    fn op_stz(&mut self, short: bool, ret: bool, keep: bool)
        requires
            old(self).wf(),
        ensures
            final(self).wf(),
            final(self)@ == spec_op_stz(old(self)@, short, ret, keep),
    {
        let addr = self.pop_b(ret);
        if short {
            let value = self.pop_s(ret);
            if keep {
                self.push_s(ret, value);
                self.push_b(ret, addr);
            }
            self.ram_poke_short(addr as u16, value);
        } else {
            let value = self.pop_b(ret);
            if keep {
                self.push_b(ret, value);
                self.push_b(ret, addr);
            }
            self.ram_poke_byte(addr as u16, value);
        }
    }

    fn op_push(&mut self, short: bool, ret: bool)
        requires
            old(self).wf(),
        ensures
            final(self).wf(),
            final(self)@ == spec_op_push(old(self)@, short, ret),
    {
        if short {
            let value = self.read_short();
            self.push_s(ret, value);
        } else {
            let value = self.read_byte();
            self.push_b(ret, value);
        }
    }

    fn op_arith(&mut self, op: ArithOp, short: bool, ret: bool, keep: bool)
        requires
            old(self).wf(),
        ensures
            final(self).wf(),
            final(self)@ == spec_op_arith(old(self)@, op, short, ret, keep),
    {
        if short {
            let b = self.pop_s(ret);
            let a = self.pop_s(ret);
            if keep {
                self.push_s(ret, a);
                self.push_s(ret, b);
            }
            let r = match op {
                ArithOp::Add => a.wrapping_add(b),
                ArithOp::Sub => a.wrapping_sub(b),
                ArithOp::Mul => a.wrapping_mul(b),
                ArithOp::Div => if b == 0 {
                    0
                } else {
                    a / b
                },
            };
            self.push_s(ret, r);
        } else {
            let b = self.pop_b(ret);
            let a = self.pop_b(ret);
            if keep {
                self.push_b(ret, a);
                self.push_b(ret, b);
            }
            let r = match op {
                ArithOp::Add => a.wrapping_add(b),
                ArithOp::Sub => a.wrapping_sub(b),
                ArithOp::Mul => a.wrapping_mul(b),
                ArithOp::Div => if b == 0 {
                    0
                } else {
                    a / b
                },
            };
            self.push_b(ret, r);
        }
    }

    /// The stack and port transfer of DEI, before the host is notified.
    fn dei_push(&mut self, short: bool, ret: bool, keep: bool) -> (target: u8)
        requires
            old(self).wf(),
        ensures
            final(self).wf(),
            target == spec_io_target(old(self)@, ret),
            final(self)@ == spec_op_dei_push(old(self)@, short, ret, keep),
    {
        let target = self.pop_b(ret);
        if keep {
            self.push_b(ret, target);
        }
        if short {
            let hi = self.dev_read(target);
            let lo = self.dev_read(target.wrapping_add(1));
            self.push_s(ret, join_short(hi, lo));
        } else {
            let value = self.dev_read(target);
            self.push_b(ret, value);
        }
        target
    }

    /// The stack and port transfer of DEO, before the host is notified.
    fn deo_write(&mut self, short: bool, ret: bool, keep: bool) -> (target: u8)
        requires
            old(self).wf(),
        ensures
            final(self).wf(),
            target == spec_io_target(old(self)@, ret),
            final(self)@ == spec_op_deo_write(old(self)@, short, ret, keep),
    {
        let target = self.pop_b(ret);
        if short {
            let value = self.pop_s(ret);
            if keep {
                self.push_s(ret, value);
                self.push_b(ret, target);
            }
            let (hi, lo) = split_short(value);
            self.dev_write(target, hi);
            self.dev_write(target.wrapping_add(1), lo);
        } else {
            let value = self.pop_b(ret);
            if keep {
                self.push_b(ret, value);
                self.push_b(ret, target);
            }
            self.dev_write(target, value);
        }
        target
    }

    /// DEI: transfer the device byte(s) to the stack, then notify the host.
    ///
    /// The returned ghost state is the one the callback observed: the
    /// completed transfer, handed over together with the popped port
    /// (`spec_io_target(old(self)@, ret)`, per `dei_push`).
    fn op_dei<M: Machine>(&mut self, machine: &mut M, short: bool, ret: bool, keep: bool) -> (mid:
        Ghost<CpuView>)
        requires
            old(self).wf(),
            old(machine).inv(),
        ensures
            final(self).wf(),
            final(machine).inv(),
            mid@ == spec_op_dei_push(old(self)@, short, ret, keep),
            mid@.wf(),
            M::dei_admits(
                *old(machine),
                mid@,
                spec_io_target(old(self)@, ret),
                *final(machine),
                final(self)@,
            ),
    {
        let target = self.dei_push(short, ret, keep);
        let ghost mid_state = self@;
        machine.dei(self, target);
        Ghost(mid_state)
    }

    /// DEO: write the value to the device page, then notify the host.
    ///
    /// The returned ghost state is the one the callback observed: the
    /// completed port write, handed over together with the popped port
    /// (`spec_io_target(old(self)@, ret)`, per `deo_write`).
    fn op_deo<M: Machine>(&mut self, machine: &mut M, short: bool, ret: bool, keep: bool) -> (mid:
        Ghost<CpuView>)
        requires
            old(self).wf(),
            old(machine).inv(),
        ensures
            final(self).wf(),
            final(machine).inv(),
            mid@ == spec_op_deo_write(old(self)@, short, ret, keep),
            mid@.wf(),
            M::deo_admits(
                *old(machine),
                mid@,
                spec_io_target(old(self)@, ret),
                *final(machine),
                final(self)@,
            ),
    {
        let target = self.deo_write(short, ret, keep);
        let ghost mid_state = self@;
        machine.deo(self, target);
        Ghost(mid_state)
    }

    /// Runs the code starting at the given address until a BRK opcode, and
    /// returns the PC one past that BRK.
    ///
    /// Each fetched opcode is decoded into its base operation (low five bits)
    /// and its SHORT, RETURN and KEEP flags; base codes outside the
    /// instruction set are no-ops. A base code of zero halts unless KEEP is
    /// set, which makes it the PUSH (LIT) instruction.
    ///
    /// For every program that `spec_run` covers — one that reaches BRK
    /// without a device instruction — the contract gives the final CPU state
    /// exactly, with the host untouched. And every execution, with or
    /// without device I/O, ends in a pair of states `spec_reaches` admits: a
    /// chain of exact per-instruction steps in which the host changes only
    /// at DEI and DEO, within what its own `dei_admits` and `deo_admits`
    /// relations allow of the transfer state it observed (see `op_dei` /
    /// `op_deo` for that state).
    ///
    /// The loop carries a step budget of 2^64 - 1 as its termination
    /// measure; a guest that never reaches BRK would outlive its host many
    /// times over before exhausting it, so programs observe run-until-BRK
    /// semantics.
    pub fn run<M: Machine>(&mut self, addr: u16, machine: &mut M) -> (r: u16)
        requires
            old(self).wf(),
            old(machine).inv(),
        ensures
            final(self).wf(),
            final(machine).inv(),
            r == final(self)@.pc,
            forall|n: nat|
                n <= 0xffff_ffff_ffff_ffff && ((#[trigger] spec_run(old(self)@.with_pc(addr), n))
                    .is_some()) ==> Some(final(self)@) == spec_run(old(self)@.with_pc(addr), n)
                    && *final(machine) == *old(machine),
            spec_reaches(
                *old(machine),
                old(self)@.with_pc(addr),
                *final(machine),
                final(self)@,
                0x1_0000_0000_0000_0000,
            ),
    {
        self.pc = addr;
        let ghost start = self@;
        let ghost machine_start = *machine;
        let mut fuel: u64 = 0xffff_ffff_ffff_ffff;
        let ghost mut steps: nat = 0;
        loop
            invariant_except_break
                steps + fuel == 0xffff_ffff_ffff_ffff,
                forall|n: nat|
                    n <= 0xffff_ffff_ffff_ffff && ((#[trigger] spec_run(start, n)).is_some())
                        ==> steps < n && *machine == machine_start && spec_run(
                        self@,
                        (n - steps) as nat,
                    ) == spec_run(start, n),
                forall|m_end: M, c_end: CpuView, k: nat|
                    #[trigger] spec_reaches(*machine, self@, m_end, c_end, k) && k == fuel + 1
                        ==> spec_reaches(
                        machine_start,
                        start,
                        m_end,
                        c_end,
                        0x1_0000_0000_0000_0000,
                    ),
            invariant
                self.wf(),
                machine.inv(),
                start.wf(),
                start == old(self)@.with_pc(addr),
                machine_start == *old(machine),
            ensures
                self.wf(),
                machine.inv(),
                forall|n: nat|
                    n <= 0xffff_ffff_ffff_ffff && ((#[trigger] spec_run(start, n)).is_some())
                        ==> Some(self@) == spec_run(start, n) && *machine == machine_start,
                spec_reaches(machine_start, start, *machine, self@, 0x1_0000_0000_0000_0000),
            decreases fuel,
        {
            let ghost c_top = self@;
            let ghost m_top = *machine;
            let op = self.read_byte();
            let base = op & opcodes::BASE_MASK;
            let short = opcodes::short_mode(op);
            let ret = opcodes::ret_mode(op);
            let keep = opcodes::keep_mode(op);
            if base == opcodes::BRK && !keep {
                proof {
                    // the fetched byte is a halting BRK: one unfolding of
                    // `spec_run` (and of `spec_reaches`) at the state this
                    // iteration started from yields exactly the state we
                    // break in
                    assert(op == c_top.ram[c_top.pc as int]);
                    assert(is_brk(op));
                    assert(spec_reaches(m_top, c_top, *machine, self@, (fuel + 1) as nat));
                    assert forall|n: nat|
                        n <= 0xffff_ffff_ffff_ffff && ((#[trigger] spec_run(start, n)).is_some())
                            implies Some(self@) == spec_run(start, n) && *machine
                            == machine_start by {
                        let m = (n - steps) as nat;
                        assert(spec_run(c_top, m) == spec_run(start, n));
                        assert(spec_run(c_top, m) == Some(
                            c_top.with_pc(c_top.pc.wrapping_add(1)),
                        ));
                    };
                }
                break;
            }
            if base == opcodes::BRK {
                self.op_push(short, ret);
            } else {
                match base {
                    opcodes::INC => self.op_inc(short, ret, keep),
                    opcodes::DUP => self.op_dup(short, ret, keep),
                    opcodes::EQU => self.op_equ(short, ret, keep),
                    opcodes::JMP => self.op_jmp(short, ret, keep),
                    opcodes::JNZ => self.op_jnz(short, ret, keep),
                    opcodes::LDZ => self.op_ldz(short, ret, keep),
                    opcodes::STZ => self.op_stz(short, ret, keep),
                    opcodes::DEI => {
                        self.op_dei(machine, short, ret, keep);
                    },
                    opcodes::DEO => {
                        self.op_deo(machine, short, ret, keep);
                    },
                    opcodes::ADD => self.op_arith(ArithOp::Add, short, ret, keep),
                    opcodes::SUB => self.op_arith(ArithOp::Sub, short, ret, keep),
                    opcodes::MUL => self.op_arith(ArithOp::Mul, short, ret, keep),
                    opcodes::DIV => self.op_arith(ArithOp::Div, short, ret, keep),
                    _ => {},
                }
            }
            proof {
                // away from device I/O the iteration took exactly one
                // `spec_step`; at a DEI or DEO `spec_run` gives nothing, so
                // the invariant's premise is vacuous there
                let io = base == opcodes::DEI || base == opcodes::DEO;
                assert(op == c_top.ram[c_top.pc as int]);
                assert(!io ==> self@ == spec_step(c_top) && *machine == m_top);
                assert forall|n: nat|
                    n <= 0xffff_ffff_ffff_ffff && ((#[trigger] spec_run(start, n)).is_some())
                        implies steps + 1 < n && *machine == machine_start && spec_run(
                        self@,
                        (n - (steps + 1)) as nat,
                    ) == spec_run(start, n) by {
                    let m = (n - steps) as nat;
                    assert(spec_run(c_top, m) == spec_run(start, n));
                    assert(op == c_top.ram[c_top.pc as int]);
                    assert(!is_brk(op));
                    if is_io(op) {
                        assert(spec_run(c_top, m).is_none());
                    }
                    assert(spec_run(c_top, m) == spec_run(spec_step(c_top), (m - 1) as nat));
                    assert(self@ == spec_step(c_top));
                    if m == 1 {
                        assert(spec_run(self@, 0).is_none());
                    }
                    assert((m - 1) as nat == (n - (steps + 1)) as nat);
                };
                steps = steps + 1;
                assert(host_step(m_top, c_top, *machine, self@));
            }
            if fuel == 0 {
                proof {
                    assert(spec_reaches(*machine, self@, *machine, self@, 0));
                    assert(spec_reaches(m_top, c_top, *machine, self@, 1));
                }
                break;
            }
            fuel = fuel - 1;
            proof {
                assert forall|m_end: M, c_end: CpuView, k: nat|
                    #[trigger] spec_reaches(*machine, self@, m_end, c_end, k) && k == fuel + 1
                        implies spec_reaches(
                    machine_start,
                    start,
                    m_end,
                    c_end,
                    0x1_0000_0000_0000_0000,
                ) by {
                    assert(spec_reaches(m_top, c_top, m_end, c_end, (fuel + 2) as nat));
                };
            }
        }
        self.pc
    }
}

} // verus!
