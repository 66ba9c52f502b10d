use vstd::prelude::*;
use crate::bus::Bus;
use crate::privilege::{PrivilegeMode, mode_of_bits, bits_of_mode};
use crate::instruction::{Instruction, IType, decode_spec};
use crate::bits::{sign_extend, sext};

verus! {

// Machine-level CSRs
pub const MSTATUS: usize = 0x300;

pub const MTVEC: usize = 0x305;

pub const MEPC: usize = 0x341;

pub const MCAUSE: usize = 0x342;

pub const MTVAL: usize = 0x343;

// mstatus bit positions
pub const MSTATUS_MPP_SHIFT: u32 = 11;

pub const MSTATUS_MPP_MASK: u32 = 0x1800;

// Trap causes
pub const CAUSE_ILLEGAL_INSTRUCTION: u32 = 2;

pub const CAUSE_BREAKPOINT: u32 = 3;

pub const CAUSE_ECALL_U: u32 = 8;

pub const CAUSE_ECALL_S: u32 = 9;

pub const CAUSE_ECALL_M: u32 = 11;

/// The architectural state of a hart: the program counter, the 32 integer registers (`x[0]`
/// reads as zero), the 4096 control and status registers, and the privilege mode.
#[verifier::ext_equal]
pub struct HartState {
    pub pc: u32,
    pub x: Seq<u32>,
    pub csrs: Seq<u32>,
    pub mode: PrivilegeMode,
}

impl HartState {
    /// 32 integer registers with `x[0] == 0`, and 4096 CSRs.
    pub open spec fn wf(self) -> bool {
        &&& self.x.len() == 32
        &&& self.x[0] == 0
        &&& self.csrs.len() == 4096
    }

    /// The value of integer register `r`; register 0 always reads as zero.
    pub open spec fn reg(self, r: int) -> u32 {
        if r == 0 {
            0
        } else {
            self.x[r]
        }
    }

    /// The state after writing `v` to integer register `r`; a write to register 0 is dropped.
    pub open spec fn with_reg(self, r: int, v: u32) -> HartState {
        if r == 0 {
            self
        } else {
            HartState { x: self.x.update(r, v), ..self }
        }
    }

    /// The state after writing `v` to CSR `a`.
    pub open spec fn with_csr(self, a: int, v: u32) -> HartState {
        HartState { csrs: self.csrs.update(a, v), ..self }
    }

    /// The state with program counter `pc`.
    pub open spec fn with_pc(self, pc: u32) -> HartState {
        HartState { pc, ..self }
    }

    /// The state of a hart at reset: every register and CSR zero, machine mode.
    pub open spec fn reset() -> HartState {
        HartState {
            pc: 0,
            x: Seq::new(32, |i: int| 0u32),
            csrs: Seq::new(4096, |i: int| 0u32),
            mode: PrivilegeMode::Machine,
        }
    }
}

/// The 32-bit two's-complement encoding of `v`.
pub open spec fn wrap32(v: int) -> u32 {
    (v % 0x1_0000_0000) as u32
}

/// The value of a 32-bit word read as a two's-complement number.
pub open spec fn signed(x: u32) -> int {
    if x < 0x8000_0000 {
        x as int
    } else {
        x - 0x1_0000_0000
    }
}

/// The MPP field (bits 12:11) of `mstatus`.
pub open spec fn mpp_of(mstatus: u32) -> u32 {
    ((mstatus / 2048) % 4) as u32
}

/// `mstatus` with its MPP field cleared.
pub open spec fn clear_mpp(mstatus: u32) -> u32 {
    (mstatus - mpp_of(mstatus) * 2048) as u32
}

/// `mstatus` with its MPP field replaced by the low two bits of `bits`.
pub open spec fn with_mpp(mstatus: u32, bits: u32) -> u32 {
    (clear_mpp(mstatus) + (bits % 4) * 2048) as u32
}

/// Taking a trap: mepc gets the address of the current instruction (`pc - 4`), mcause and
/// mtval get `cause` and `tval`, mstatus.MPP records the current mode, the hart enters machine
/// mode and jumps to the base address in mtvec (direct mode, low two bits cleared).
pub open spec fn trap_spec(s: HartState, cause: u32, tval: u32) -> HartState {
    HartState {
        pc: (s.csrs[MTVEC as int] - s.csrs[MTVEC as int] % 4) as u32,
        x: s.x,
        csrs: s.csrs.update(MEPC as int, s.pc.wrapping_sub(4)).update(MCAUSE as int, cause).update(
            MTVAL as int,
            tval,
        ).update(MSTATUS as int, with_mpp(s.csrs[MSTATUS as int], bits_of_mode(s.mode))),
        mode: PrivilegeMode::Machine,
    }
}

/// Returning from a machine trap: the mode recorded in mstatus.MPP is restored, MPP is cleared
/// and execution resumes at mepc.
pub open spec fn mret_spec(s: HartState) -> HartState {
    let mstatus = s.csrs[MSTATUS as int];
    HartState {
        pc: s.csrs[MEPC as int],
        x: s.x,
        csrs: s.csrs.update(MSTATUS as int, clear_mpp(mstatus)),
        mode: mode_of_bits(mpp_of(mstatus)),
    }
}

/// The cause of an environment call from `mode`.
pub open spec fn ecall_cause(mode: PrivilegeMode) -> u32 {
    match mode {
        PrivilegeMode::User => CAUSE_ECALL_U,
        PrivilegeMode::Supervisor => CAUSE_ECALL_S,
        PrivilegeMode::Machine => CAUSE_ECALL_M,
    }
}

/// The CSR address held in the low twelve bits of an immediate.
pub open spec fn csr_addr(imm: i32) -> int {
    (wrap32(imm as int) % 4096) as int
}

/// The shift amount held in the low five bits of an immediate.
pub open spec fn shamt(imm: i32) -> u32 {
    wrap32(imm as int) % 32
}

/// The target of a pc-relative transfer with offset `imm` from the current instruction
/// (`pc` already points past it).
pub open spec fn pc_relative(s: HartState, imm: i32) -> u32 {
    s.pc.wrapping_sub(4).wrapping_add(wrap32(imm as int))
}

/// The address `x[rs1] + imm` of a load or store.
pub open spec fn effective_addr(s: HartState, rs1: usize, imm: i32) -> u32 {
    s.reg(rs1 as int).wrapping_add(wrap32(imm as int))
}

/// A CSR read-modify-write: the CSR at `a` is written with `new` when `write` holds, and
/// register `rd` gets the CSR's old value.
pub open spec fn csr_update(s: HartState, a: int, write: bool, new: u32, rd: usize) -> HartState {
    let old = s.csrs[a];
    let t = if write {
        s.with_csr(a, new)
    } else {
        s
    };
    t.with_reg(rd as int, old)
}

/// The effect of executing `instr` on state `s`, whose pc already points past the instruction.
/// For a load, `loaded` is the value the bus returned (a byte or halfword in its low bits).
pub open spec fn exec_spec(s: HartState, instr: Instruction, loaded: u32) -> HartState {
    match instr {
        Instruction::Illegal(w) => trap_spec(s, CAUSE_ILLEGAL_INSTRUCTION, w),
        Instruction::Add(r) => s.with_reg(
            r.rd as int,
            s.reg(r.rs1 as int).wrapping_add(s.reg(r.rs2 as int)),
        ),
        Instruction::Sub(r) => s.with_reg(
            r.rd as int,
            s.reg(r.rs1 as int).wrapping_sub(s.reg(r.rs2 as int)),
        ),
        Instruction::Xor(r) => s.with_reg(r.rd as int, s.reg(r.rs1 as int) ^ s.reg(r.rs2 as int)),
        Instruction::Or(r) => s.with_reg(r.rd as int, s.reg(r.rs1 as int) | s.reg(r.rs2 as int)),
        Instruction::And(r) => s.with_reg(r.rd as int, s.reg(r.rs1 as int) & s.reg(r.rs2 as int)),
        Instruction::Sll(r) => s.with_reg(
            r.rd as int,
            s.reg(r.rs1 as int) << (s.reg(r.rs2 as int) % 32),
        ),
        Instruction::Srl(r) => s.with_reg(
            r.rd as int,
            s.reg(r.rs1 as int) >> (s.reg(r.rs2 as int) % 32),
        ),
        Instruction::Sra(r) => s.with_reg(
            r.rd as int,
            ((s.reg(r.rs1 as int) as i32) >> (s.reg(r.rs2 as int) % 32)) as u32,
        ),
        Instruction::Slt(r) => s.with_reg(
            r.rd as int,
            if signed(s.reg(r.rs1 as int)) < signed(s.reg(r.rs2 as int)) {
                1
            } else {
                0
            },
        ),
        Instruction::Sltu(r) => s.with_reg(
            r.rd as int,
            if s.reg(r.rs1 as int) < s.reg(r.rs2 as int) {
                1
            } else {
                0
            },
        ),
        Instruction::Addi(i) => s.with_reg(i.rd as int, effective_addr(s, i.rs1, i.imm)),
        Instruction::Xori(i) => s.with_reg(i.rd as int, s.reg(i.rs1 as int) ^ wrap32(i.imm as int)),
        Instruction::Ori(i) => s.with_reg(i.rd as int, s.reg(i.rs1 as int) | wrap32(i.imm as int)),
        Instruction::Andi(i) => s.with_reg(i.rd as int, s.reg(i.rs1 as int) & wrap32(i.imm as int)),
        Instruction::Slli(i) => s.with_reg(i.rd as int, s.reg(i.rs1 as int) << shamt(i.imm)),
        Instruction::Srli(i) => s.with_reg(i.rd as int, s.reg(i.rs1 as int) >> shamt(i.imm)),
        Instruction::Srai(i) => s.with_reg(
            i.rd as int,
            ((s.reg(i.rs1 as int) as i32) >> shamt(i.imm)) as u32,
        ),
        Instruction::Slti(i) => s.with_reg(
            i.rd as int,
            if signed(s.reg(i.rs1 as int)) < i.imm {
                1
            } else {
                0
            },
        ),
        Instruction::Sltiu(i) => s.with_reg(
            i.rd as int,
            if s.reg(i.rs1 as int) < wrap32(i.imm as int) {
                1
            } else {
                0
            },
        ),
        Instruction::Lb(i) => s.with_reg(i.rd as int, wrap32(sign_extend(loaded as nat, 8))),
        Instruction::Lh(i) => s.with_reg(i.rd as int, wrap32(sign_extend(loaded as nat, 16))),
        Instruction::Lw(i) => s.with_reg(i.rd as int, loaded),
        Instruction::Lbu(i) => s.with_reg(i.rd as int, loaded % 256),
        Instruction::Lhu(i) => s.with_reg(i.rd as int, loaded % 65536),
        Instruction::Sb(_) | Instruction::Sh(_) | Instruction::Sw(_) => s,
        Instruction::Ecall(_) => trap_spec(s, ecall_cause(s.mode), 0),
        Instruction::Ebreak(_) => trap_spec(s, CAUSE_BREAKPOINT, s.pc.wrapping_sub(4)),
        Instruction::Uret(_) | Instruction::Sret(_) | Instruction::Wfi(_) | Instruction::Fence(
            _,
        ) => s,
        Instruction::Mret(_) => mret_spec(s),
        Instruction::Csrrw(i) => csr_update(
            s,
            csr_addr(i.imm),
            true,
            s.reg(i.rs1 as int),
            i.rd,
        ),
        Instruction::Csrrs(i) => csr_update(
            s,
            csr_addr(i.imm),
            i.rs1 != 0,
            s.csrs[csr_addr(i.imm)] | s.reg(i.rs1 as int),
            i.rd,
        ),
        Instruction::Csrrc(i) => csr_update(
            s,
            csr_addr(i.imm),
            i.rs1 != 0,
            s.csrs[csr_addr(i.imm)] & !s.reg(i.rs1 as int),
            i.rd,
        ),
        Instruction::Csrrwi(i) => csr_update(s, csr_addr(i.imm), true, i.rs1 as u32, i.rd),
        Instruction::Csrrsi(i) => csr_update(
            s,
            csr_addr(i.imm),
            i.rs1 != 0,
            s.csrs[csr_addr(i.imm)] | (i.rs1 as u32),
            i.rd,
        ),
        Instruction::Csrrci(i) => csr_update(
            s,
            csr_addr(i.imm),
            i.rs1 != 0,
            s.csrs[csr_addr(i.imm)] & !(i.rs1 as u32),
            i.rd,
        ),
        Instruction::Beq(b) => if s.reg(b.rs1 as int) == s.reg(b.rs2 as int) {
            s.with_pc(pc_relative(s, b.imm))
        } else {
            s
        },
        Instruction::Bne(b) => if s.reg(b.rs1 as int) != s.reg(b.rs2 as int) {
            s.with_pc(pc_relative(s, b.imm))
        } else {
            s
        },
        Instruction::Blt(b) => if signed(s.reg(b.rs1 as int)) < signed(s.reg(b.rs2 as int)) {
            s.with_pc(pc_relative(s, b.imm))
        } else {
            s
        },
        Instruction::Bge(b) => if signed(s.reg(b.rs1 as int)) >= signed(s.reg(b.rs2 as int)) {
            s.with_pc(pc_relative(s, b.imm))
        } else {
            s
        },
        Instruction::Bltu(b) => if s.reg(b.rs1 as int) < s.reg(b.rs2 as int) {
            s.with_pc(pc_relative(s, b.imm))
        } else {
            s
        },
        Instruction::Bgeu(b) => if s.reg(b.rs1 as int) >= s.reg(b.rs2 as int) {
            s.with_pc(pc_relative(s, b.imm))
        } else {
            s
        },
        Instruction::Lui(u) => s.with_reg(u.rd as int, wrap32(u.imm as int)),
        Instruction::Auipc(u) => s.with_reg(u.rd as int, pc_relative(s, u.imm)),
        Instruction::Jal(j) => s.with_reg(j.rd as int, s.pc).with_pc(pc_relative(s, j.imm)),
        Instruction::Jalr(i) => s.with_reg(i.rd as int, s.pc).with_pc(
            (effective_addr(s, i.rs1, i.imm) - effective_addr(s, i.rs1, i.imm) % 2) as u32,
        ),
    }
}

/// Masking with the low `n` bits is taking the remainder modulo `2^n`, for the masks used in
/// execution.
proof fn lemma_low_bits_masks()
    ensures
        forall|x: u32| #![trigger x & 0x1F] x & 0x1F == x % 32,
        forall|x: u32| #![trigger x & 0xFF] x & 0xFF == x % 256,
        forall|x: u32| #![trigger x & 0xFFF] x & 0xFFF == x % 4096,
        forall|x: u32| #![trigger x & 0xFFFF] x & 0xFFFF == x % 65536,
{
    assert forall|x: u32| #![trigger x & 0x1F] x & 0x1F == x % 32 by {
        assert(x & 0x1F == x % 32) by (bit_vector);
    }
    assert forall|x: u32| #![trigger x & 0xFF] x & 0xFF == x % 256 by {
        assert(x & 0xFF == x % 256) by (bit_vector);
    }
    assert forall|x: u32| #![trigger x & 0xFFF] x & 0xFFF == x % 4096 by {
        assert(x & 0xFFF == x % 4096) by (bit_vector);
    }
    assert forall|x: u32| #![trigger x & 0xFFFF] x & 0xFFFF == x % 65536 by {
        assert(x & 0xFFFF == x % 65536) by (bit_vector);
    }
}

/// Running the fetched word `w` on state `s` (whose pc already points past it): a word that
/// decodes is executed (with `loaded` as the value a load reads), any other word raises an
/// illegal-instruction trap whose trap value is the word. Opaque: `reveal(run_word)` unfolds
/// it.
#[verifier::opaque]
pub open spec fn run_word(s: HartState, w: u32, loaded: u32) -> HartState {
    match decode_spec(w) {
        Some(instr) => exec_spec(s, instr, loaded),
        None => trap_spec(s, CAUSE_ILLEGAL_INSTRUCTION, w),
    }
}

/// One step from state `s`: the word `w` at pc is fetched, pc advances by four and the word
/// is run.
pub open spec fn step_spec(s: HartState, w: u32, loaded: u32) -> HartState {
    run_word(s.with_pc((s.pc + 4) as u32), w, loaded)
}

/// A bus access: a read of 8, 16 or 32 bits at an address, or a write of a value of that
/// width to an address.
#[derive(Debug, Clone, Copy, PartialEq, Eq, Structural)]
pub enum MemAccess {
    Read8(u32),
    Read16(u32),
    Read32(u32),
    Write8(u32, u8),
    Write16(u32, u16),
    Write32(u32, u32),
}

/// The bus access that `instr` makes from state `s`: loads read at `x[rs1] + imm` with their
/// width, stores write the low 8, 16 or 32 bits of `x[rs2]` there, and every other instruction
/// makes none.
pub open spec fn mem_access_spec(s: HartState, instr: Instruction) -> Option<MemAccess> {
    match instr {
        Instruction::Lb(i) | Instruction::Lbu(i) => Some(
            MemAccess::Read8(effective_addr(s, i.rs1, i.imm)),
        ),
        Instruction::Lh(i) | Instruction::Lhu(i) => Some(
            MemAccess::Read16(effective_addr(s, i.rs1, i.imm)),
        ),
        Instruction::Lw(i) => Some(MemAccess::Read32(effective_addr(s, i.rs1, i.imm))),
        Instruction::Sb(st) => Some(
            MemAccess::Write8(
                effective_addr(s, st.rs1, st.imm),
                (s.reg(st.rs2 as int) % 256) as u8,
            ),
        ),
        Instruction::Sh(st) => Some(
            MemAccess::Write16(
                effective_addr(s, st.rs1, st.imm),
                (s.reg(st.rs2 as int) % 65536) as u16,
            ),
        ),
        Instruction::Sw(st) => Some(
            MemAccess::Write32(effective_addr(s, st.rs1, st.imm), s.reg(st.rs2 as int)),
        ),
        _ => None,
    }
}

/// The value the bus returns for the access `a`, widened to a word; zero when `a` is no read.
pub open spec fn bus_read<B: Bus>(bus: B, a: Option<MemAccess>) -> u32 {
    match a {
        Some(MemAccess::Read8(addr)) => bus.spec_read8(addr) as u32,
        Some(MemAccess::Read16(addr)) => bus.spec_read16(addr) as u32,
        Some(MemAccess::Read32(addr)) => bus.spec_read32(addr),
        _ => 0,
    }
}

/// The bus after the access `a`: a write changes it, a read or no access leaves it as it was.
pub open spec fn bus_after<B: Bus>(bus: B, a: Option<MemAccess>) -> B {
    match a {
        Some(MemAccess::Write8(addr, v)) => bus.spec_write8(addr, v),
        Some(MemAccess::Write16(addr, v)) => bus.spec_write16(addr, v),
        Some(MemAccess::Write32(addr, v)) => bus.spec_write32(addr, v),
        _ => bus,
    }
}

/// Executing `instr` from hart state `s` with bus `bus`: the access `mem_access_spec` gives is
/// made, and a load's register gets what the bus returns.
pub open spec fn exec_with_bus<B: Bus>(s: HartState, instr: Instruction, bus: B) -> (
    HartState,
    B,
) {
    let a = mem_access_spec(s, instr);
    (exec_spec(s, instr, bus_read(bus, a)), bus_after(bus, a))
}

/// The bus access that running the word `w` from `s` makes.
pub open spec fn word_access(s: HartState, w: u32) -> Option<MemAccess> {
    match decode_spec(w) {
        Some(instr) => mem_access_spec(s, instr),
        None => None,
    }
}

/// Running the fetched word `w` from hart state `s` with bus `bus`.
pub open spec fn run_word_with_bus<B: Bus>(s: HartState, w: u32, bus: B) -> (HartState, B) {
    let a = word_access(s, w);
    (run_word(s, w, bus_read(bus, a)), bus_after(bus, a))
}

/// One step of the hart from state `s` with bus `bus`: the word at pc is read from the bus, pc
/// advances by four, and the word is run.
pub open spec fn step_with_bus<B: Bus>(s: HartState, bus: B) -> (HartState, B) {
    run_word_with_bus(s.with_pc((s.pc + 4) as u32), bus.spec_read32(s.pc), bus)
}

/// The bit operations on mstatus and on jump targets compute the fields named in the
/// specification.
proof fn lemma_word_bits(m: u32, b: u32)
    requires
        b < 4,
    ensures
        (m & !MSTATUS_MPP_MASK) | (b << MSTATUS_MPP_SHIFT) == with_mpp(m, b),
        (m & MSTATUS_MPP_MASK) >> MSTATUS_MPP_SHIFT == mpp_of(m),
        m & !MSTATUS_MPP_MASK == clear_mpp(m),
        m & !3u32 == m - m % 4,
        m & !1u32 == m - m % 2,
{
    assert((m & !0x1800u32) | (b << 11u32) == ((m - ((m / 2048) % 4) * 2048) + (b % 4) * 2048)
        as u32) by (bit_vector)
        requires
            b < 4,
    ;
    assert((m & 0x1800u32) >> 11u32 == (m / 2048) % 4) by (bit_vector);
    assert(m & !0x1800u32 == (m - ((m / 2048) % 4) * 2048) as u32) by (bit_vector);
    assert(m & !3u32 == m - m % 4) by (bit_vector);
    assert(m & !1u32 == m - m % 2) by (bit_vector);
}

/// The two's-complement encoding of `imm` as a word.
pub fn to_word(imm: i32) -> (r: u32)
    ensures
        r == wrap32(imm as int),
{
    let r = imm as u32;
    assert(r as i64 == if imm < 0 {
        (imm as i64 + 0x1_0000_0000i64) as i64
    } else {
        imm as i64
    }) by (bit_vector)
        requires
            r == imm as u32,
    ;
    r
}

/// Signed comparison of two words.
pub fn signed_lt(a: u32, b: u32) -> (r: bool)
    ensures
        r == (signed(a) < signed(b)),
{
    proof {
        lemma_signed_cast(a);
        lemma_signed_cast(b);
    }
    (a as i32) < (b as i32)
}

/// Signed comparison of a word with an immediate.
pub fn signed_lt_imm(a: u32, imm: i32) -> (r: bool)
    ensures
        r == (signed(a) < imm),
{
    proof {
        lemma_signed_cast(a);
    }
    (a as i32) < imm
}

/// Reading a word as `i32` gives its two's-complement value.
proof fn lemma_signed_cast(x: u32)
    ensures
        (x as i32) as int == signed(x),
{
    assert((x as i32) as i64 == if x < 0x8000_0000 {
        x as i64
    } else {
        (x as i64 - 0x1_0000_0000i64) as i64
    }) by (bit_vector);
}

/// A RISC-V Hardware Thread
#[derive(Debug)]
pub struct Hart {
    /// Since x0 is hardwired to zero, we can assign pc to index 0
    regs: [u32; 32],
    /// Control and Status Registers
    csrs: [u32; 4096],
    mode: PrivilegeMode,
}

impl View for Hart {
    type V = HartState;

    closed spec fn view(&self) -> HartState {
        HartState {
            pc: self.regs@[0],
            x: Seq::new(32, |i: int| if i == 0 { 0u32 } else { self.regs@[i] }),
            csrs: self.csrs@,
            mode: self.mode,
        }
    }
}

/// Every hart's state is well formed: in particular register x0 reads as zero.
pub proof fn lemma_hart_wf(h: &Hart)
    ensures
        h@.wf(),
{
}

impl Default for Hart {
    fn default() -> (r: Self)
        ensures
            r@ == HartState::reset(),
            r@.wf(),
    {
        let r = Self { regs: [0; 32], csrs: [0; 4096], mode: PrivilegeMode::Machine };
        assert(r@ =~= HartState::reset());
        r
    }
}

// Base functionality
impl Hart {
    /// Takes a trap with the given cause and trap value.
    pub fn trap(&mut self, cause: u32, tval: u32)
        ensures
            final(self)@ == trap_spec(old(self)@, cause, tval),
            final(self)@.wf(),
    {
        let epc = self.pc().wrapping_sub(4);
        self.set_csr(MEPC, epc);
        self.set_csr(MCAUSE, cause);
        self.set_csr(MTVAL, tval);

        let status = self.csr(MSTATUS);
        let bits = self.mode.to_bits();
        proof {
            lemma_word_bits(status, bits);
            lemma_word_bits(self@.csrs[MTVEC as int], 0);
        }
        let mstatus = (status & !MSTATUS_MPP_MASK) | (bits << MSTATUS_MPP_SHIFT);
        self.set_csr(MSTATUS, mstatus);

        self.mode = PrivilegeMode::Machine;
        let target = self.csr(MTVEC) & !0x3;
        self.set_pc(target);
        assert(self@ =~= trap_spec(old(self)@, cause, tval));
    }
    /// The bus access that `instr` makes: loads read at `x[rs1] + imm` with their width,
    /// stores write the low bits of `x[rs2]` there, and other instructions make none.
    pub fn mem_access(&self, instr: Instruction) -> (r: Option<MemAccess>)
        requires
            instr.wf(),
        ensures
            r == mem_access_spec(self@, instr),
    {
        match instr {
            Instruction::Lb(i) | Instruction::Lbu(i) => Some(
                MemAccess::Read8(self.effective_address(i.rs1, i.imm)),
            ),
            Instruction::Lh(i) | Instruction::Lhu(i) => Some(
                MemAccess::Read16(self.effective_address(i.rs1, i.imm)),
            ),
            Instruction::Lw(i) => Some(MemAccess::Read32(self.effective_address(i.rs1, i.imm))),
            Instruction::Sb(s) => {
                let a = self.effective_address(s.rs1, s.imm);
                let v = self.reg(s.rs2);
                assert(v as u8 == (v % 256) as u8) by (bit_vector);
                Some(MemAccess::Write8(a, v as u8))
            },
            Instruction::Sh(s) => {
                let a = self.effective_address(s.rs1, s.imm);
                let v = self.reg(s.rs2);
                assert(v as u16 == (v % 65536) as u16) by (bit_vector);
                Some(MemAccess::Write16(a, v as u16))
            },
            Instruction::Sw(s) => {
                let a = self.effective_address(s.rs1, s.imm);
                Some(MemAccess::Write32(a, self.reg(s.rs2)))
            },
            _ => None,
        }
    }

    /// Executes `instr`: makes the bus access `mem_access` gives (a load's read value goes
    /// to `execute_with`), then updates the hart. Only a store changes the bus.
    pub fn execute(&mut self, bus: &mut impl Bus, instr: Instruction)
        requires
            instr.wf(),
        ensures
            final(self)@.wf(),
            (final(self)@, *final(bus)) == exec_with_bus(old(self)@, instr, *old(bus)),
    {
        let access = self.mem_access(instr);
        match access {
            Some(MemAccess::Read8(a)) => {
                let v = bus.read8(a) as u32;
                self.execute_with(instr, v);
            },
            Some(MemAccess::Read16(a)) => {
                let v = bus.read16(a) as u32;
                self.execute_with(instr, v);
            },
            Some(MemAccess::Read32(a)) => {
                let v = bus.read32(a);
                self.execute_with(instr, v);
            },
            Some(MemAccess::Write8(a, v)) => {
                bus.write8(a, v);
                self.execute_with(instr, 0);
            },
            Some(MemAccess::Write16(a, v)) => {
                bus.write16(a, v);
                self.execute_with(instr, 0);
            },
            Some(MemAccess::Write32(a, v)) => {
                bus.write32(a, v);
                self.execute_with(instr, 0);
            },
            None => {
                self.execute_with(instr, 0);
            },
        }
    }

    /// The address `x[rs1] + imm` that a load or store with these operands accesses.
    pub fn effective_address(&self, rs1: usize, imm: i32) -> (a: u32)
        requires
            rs1 < 32,
        ensures
            a == effective_addr(self@, rs1, imm),
    {
        self.reg(rs1).wrapping_add(to_word(imm))
    }

    /// Reads the instruction word at pc (a 32-bit read, which leaves the bus as it was) and
    /// advances pc past it.
    pub fn fetch(&mut self, bus: &mut impl Bus) -> (r: u32)
        requires
            old(self)@.pc <= u32::MAX - 4,
        ensures
            final(self)@ == old(self)@.with_pc((old(self)@.pc + 4) as u32),
            final(self)@.wf(),
            r == old(bus).spec_read32(old(self)@.pc),
            *final(bus) == *old(bus),
    {
        let addr = self.pc();
        let value = bus.read32(addr);
        self.set_pc(addr + 4);
        value
    }

    /// Runs the fetched word `w` (pc already points past it): a word that decodes is executed,
    /// any other word raises an illegal-instruction trap with the word as trap value.
    pub fn step_word(&mut self, bus: &mut impl Bus, w: u32)
        ensures
            final(self)@.wf(),
            (final(self)@, *final(bus)) == run_word_with_bus(old(self)@, w, *old(bus)),
    {
        proof {
            reveal(run_word);
        }
        if let Some(instr) = Instruction::decode(w) {
            proof {
                crate::instruction::lemma_decode_wf(w);
            }
            self.execute(bus, instr);
        } else {
            self.trap(CAUSE_ILLEGAL_INSTRUCTION, w);
        }
    }

    /// Fetches, decodes and executes one instruction: `fetch`, then `step_word` on the word
    /// read.
    pub fn step(&mut self, bus: &mut impl Bus)
        requires
            old(self)@.pc <= u32::MAX - 4,
        ensures
            final(self)@.wf(),
            (final(self)@, *final(bus)) == step_with_bus(old(self)@, *old(bus)),
    {
        let i = self.fetch(bus);
        self.step_word(bus, i);
    }

    /// Executes `instr` on the hart's registers and CSRs, taking `loaded` as the value that the
    /// bus returned where `instr` is a load. Stores change no hart state.
    pub fn execute_with(&mut self, instr: Instruction, loaded: u32)
        requires
            instr.wf(),
        ensures
            final(self)@ == exec_spec(old(self)@, instr, loaded),
            final(self)@.wf(),
    {
        proof {
            lemma_low_bits_masks();
        }
        match instr {
            Instruction::Illegal(i) => {
                self.trap(CAUSE_ILLEGAL_INSTRUCTION, i);
            },
            Instruction::Add(r) => {
                let v = self.reg(r.rs1).wrapping_add(self.reg(r.rs2));
                self.set_reg(r.rd, v);
            },
            Instruction::Sub(r) => {
                let v = self.reg(r.rs1).wrapping_sub(self.reg(r.rs2));
                self.set_reg(r.rd, v);
            },
            Instruction::Xor(r) => {
                let v = self.reg(r.rs1) ^ self.reg(r.rs2);
                self.set_reg(r.rd, v);
            },
            Instruction::Or(r) => {
                let v = self.reg(r.rs1) | self.reg(r.rs2);
                self.set_reg(r.rd, v);
            },
            Instruction::And(r) => {
                let v = self.reg(r.rs1) & self.reg(r.rs2);
                self.set_reg(r.rd, v);
            },
            Instruction::Sll(r) => {
                let v = self.reg(r.rs1) << (self.reg(r.rs2) & 0x1F);
                self.set_reg(r.rd, v);
            },
            Instruction::Srl(r) => {
                let v = self.reg(r.rs1) >> (self.reg(r.rs2) & 0x1F);
                self.set_reg(r.rd, v);
            },
            Instruction::Sra(r) => {
                let v = ((self.reg(r.rs1) as i32) >> (self.reg(r.rs2) & 0x1F)) as u32;
                self.set_reg(r.rd, v);
            },
            Instruction::Slt(r) => {
                let v: u32 = if signed_lt(self.reg(r.rs1), self.reg(r.rs2)) {
                    1
                } else {
                    0
                };
                self.set_reg(r.rd, v);
            },
            Instruction::Sltu(r) => {
                let v: u32 = if self.reg(r.rs1) < self.reg(r.rs2) {
                    1
                } else {
                    0
                };
                self.set_reg(r.rd, v);
            },
            Instruction::Addi(i) => {
                let v = self.effective_address(i.rs1, i.imm);
                self.set_reg(i.rd, v);
            },
            Instruction::Xori(i) => {
                let v = self.reg(i.rs1) ^ to_word(i.imm);
                self.set_reg(i.rd, v);
            },
            Instruction::Ori(i) => {
                let v = self.reg(i.rs1) | to_word(i.imm);
                self.set_reg(i.rd, v);
            },
            Instruction::Andi(i) => {
                let v = self.reg(i.rs1) & to_word(i.imm);
                self.set_reg(i.rd, v);
            },
            Instruction::Slli(i) => {
                let v = self.reg(i.rs1) << (to_word(i.imm) & 0x1F);
                self.set_reg(i.rd, v);
            },
            Instruction::Srli(i) => {
                let v = self.reg(i.rs1) >> (to_word(i.imm) & 0x1F);
                self.set_reg(i.rd, v);
            },
            Instruction::Srai(i) => {
                let v = ((self.reg(i.rs1) as i32) >> (to_word(i.imm) & 0x1F)) as u32;
                self.set_reg(i.rd, v);
            },
            Instruction::Slti(i) => {
                let v: u32 = if signed_lt_imm(self.reg(i.rs1), i.imm) {
                    1
                } else {
                    0
                };
                self.set_reg(i.rd, v);
            },
            Instruction::Sltiu(i) => {
                let v: u32 = if self.reg(i.rs1) < to_word(i.imm) {
                    1
                } else {
                    0
                };
                self.set_reg(i.rd, v);
            },
            Instruction::Lb(i) => {
                let v = to_word(sext(loaded, 8));
                self.set_reg(i.rd, v);
            },
            Instruction::Lh(i) => {
                let v = to_word(sext(loaded, 16));
                self.set_reg(i.rd, v);
            },
            Instruction::Lw(i) => {
                self.set_reg(i.rd, loaded);
            },
            Instruction::Lbu(i) => {
                self.set_reg(i.rd, loaded & 0xFF);
            },
            Instruction::Lhu(i) => {
                self.set_reg(i.rd, loaded & 0xFFFF);
            },
            Instruction::Sb(_) | Instruction::Sh(_) | Instruction::Sw(_) => {},
            Instruction::Ecall(_) => {
                let cause = match self.mode {
                    PrivilegeMode::User => CAUSE_ECALL_U,
                    PrivilegeMode::Supervisor => CAUSE_ECALL_S,
                    PrivilegeMode::Machine => CAUSE_ECALL_M,
                };
                self.trap(cause, 0);
            },
            Instruction::Ebreak(_) => {
                let epc = self.pc().wrapping_sub(4);
                self.trap(CAUSE_BREAKPOINT, epc);
            },
            Instruction::Uret(_) => {},
            Instruction::Sret(_) => {
                // Supervisor return is not implemented: it has no effect.
            },
            Instruction::Mret(_) => {
                let mstatus = self.csr(MSTATUS);
                proof {
                    lemma_word_bits(mstatus, 0);
                }
                let mpp = (mstatus & MSTATUS_MPP_MASK) >> MSTATUS_MPP_SHIFT;
                self.mode = PrivilegeMode::from_bits(mpp);

                let mstatus = mstatus & !MSTATUS_MPP_MASK;
                self.set_csr(MSTATUS, mstatus);

                let epc = self.csr(MEPC);
                self.set_pc(epc);
                assert(self@ =~= mret_spec(old(self)@));
            },
            Instruction::Wfi(_) => {},
            Instruction::Csrrw(i) => {
                let addr = (to_word(i.imm) & 0xFFF) as usize;
                let old = self.csr(addr);
                let v = self.reg(i.rs1);
                self.set_csr(addr, v);
                self.set_reg(i.rd, old);
            },
            Instruction::Csrrs(i) => {
                let addr = (to_word(i.imm) & 0xFFF) as usize;
                let old = self.csr(addr);
                if i.rs1 != 0 {
                    let v = old | self.reg(i.rs1);
                    self.set_csr(addr, v);
                }
                self.set_reg(i.rd, old);
            },
            Instruction::Csrrc(i) => {
                let addr = (to_word(i.imm) & 0xFFF) as usize;
                let old = self.csr(addr);
                if i.rs1 != 0 {
                    let v = old & !self.reg(i.rs1);
                    self.set_csr(addr, v);
                }
                self.set_reg(i.rd, old);
            },
            Instruction::Csrrwi(i) => {
                let addr = (to_word(i.imm) & 0xFFF) as usize;
                let old = self.csr(addr);
                self.set_csr(addr, i.rs1 as u32);
                self.set_reg(i.rd, old);
            },
            Instruction::Csrrsi(i) => {
                let addr = (to_word(i.imm) & 0xFFF) as usize;
                let old = self.csr(addr);
                if i.rs1 != 0 {
                    self.set_csr(addr, old | i.rs1 as u32);
                }
                self.set_reg(i.rd, old);
            },
            Instruction::Csrrci(i) => {
                let addr = (to_word(i.imm) & 0xFFF) as usize;
                let old = self.csr(addr);
                if i.rs1 != 0 {
                    self.set_csr(addr, old & !(i.rs1 as u32));
                }
                self.set_reg(i.rd, old);
            },
            Instruction::Fence(_) => {},
            Instruction::Beq(b) => {
                if self.reg(b.rs1) == self.reg(b.rs2) {
                    let t = self.pc().wrapping_sub(4).wrapping_add(to_word(b.imm));
                    self.set_pc(t);
                }
            },
            Instruction::Bne(b) => {
                if self.reg(b.rs1) != self.reg(b.rs2) {
                    let t = self.pc().wrapping_sub(4).wrapping_add(to_word(b.imm));
                    self.set_pc(t);
                }
            },
            Instruction::Blt(b) => {
                if signed_lt(self.reg(b.rs1), self.reg(b.rs2)) {
                    let t = self.pc().wrapping_sub(4).wrapping_add(to_word(b.imm));
                    self.set_pc(t);
                }
            },
            Instruction::Bge(b) => {
                if !signed_lt(self.reg(b.rs1), self.reg(b.rs2)) {
                    let t = self.pc().wrapping_sub(4).wrapping_add(to_word(b.imm));
                    self.set_pc(t);
                }
            },
            Instruction::Bltu(b) => {
                if self.reg(b.rs1) < self.reg(b.rs2) {
                    let t = self.pc().wrapping_sub(4).wrapping_add(to_word(b.imm));
                    self.set_pc(t);
                }
            },
            Instruction::Bgeu(b) => {
                if self.reg(b.rs1) >= self.reg(b.rs2) {
                    let t = self.pc().wrapping_sub(4).wrapping_add(to_word(b.imm));
                    self.set_pc(t);
                }
            },
            Instruction::Lui(u) => {
                self.set_reg(u.rd, to_word(u.imm));
            },
            Instruction::Auipc(a) => {
                let v = self.pc().wrapping_sub(4).wrapping_add(to_word(a.imm));
                self.set_reg(a.rd, v);
            },
            Instruction::Jal(j) => {
                let link = self.pc();
                let t = self.pc().wrapping_sub(4).wrapping_add(to_word(j.imm));
                self.set_reg(j.rd, link);
                self.set_pc(t);
            },
            Instruction::Jalr(i) => {
                let base = self.reg(i.rs1).wrapping_add(to_word(i.imm));
                proof {
                    lemma_word_bits(base, 0);
                }
                let t = base & !1;
                let link = self.pc();
                self.set_reg(i.rd, link);
                self.set_pc(t);
            },
        }
    }
}

// Registers
impl Hart {
    pub fn pc(&self) -> (r: u32)
        ensures
            r == self@.pc,
            self@.wf(),
    {
        self.regs[0]
    }

    pub fn set_pc(&mut self, pc: u32)
        ensures
            final(self)@ == old(self)@.with_pc(pc),
            final(self)@.wf(),
    {
        self.regs[0] = pc;
        assert(self@ =~= old(self)@.with_pc(pc));
    }

    /// The value of integer register `index`, which must be below 32; x0 reads as zero.
    pub fn reg(&self, index: usize) -> (r: u32)
        requires
            index < 32,
        ensures
            r == self@.reg(index as int),
            self@.wf(),
    {
        if index == 0 {
            0
        } else {
            self.regs[index]
        }
    }

    /// Writes integer register `index`, which must be below 32; writes to x0 are dropped.
    pub fn set_reg(&mut self, index: usize, value: u32)
        requires
            index < 32,
        ensures
            final(self)@ == old(self)@.with_reg(index as int, value),
            final(self)@.wf(),
    {
        if index != 0 {
            self.regs[index] = value;
            assert(self@ =~= old(self)@.with_reg(index as int, value));
        }
    }

    /// The value of CSR `csr`, which must be below 4096.
    pub fn csr(&self, csr: usize) -> (r: u32)
        requires
            csr < 4096,
        ensures
            r == self@.csrs[csr as int],
            self@.wf(),
    {
        self.csrs[csr]
    }

    /// Writes CSR `csr`, which must be below 4096.
    pub fn set_csr(&mut self, csr: usize, value: u32)
        requires
            csr < 4096,
        ensures
            final(self)@ == old(self)@.with_csr(csr as int, value),
            final(self)@.wf(),
    {
        self.csrs[csr] = value;
        assert(self@ =~= old(self)@.with_csr(csr as int, value));
    }

    /// The current privilege mode.
    pub fn mode(&self) -> (r: PrivilegeMode)
        ensures
            r == self@.mode,
            self@.wf(),
    {
        self.mode
    }
}

/// Register file: a read after a write to register `r` gives the written value, except that
/// register 0 keeps reading zero; every other register keeps its value.
pub proof fn lemma_reg_write_read(s: HartState, r: int, v: u32, q: int)
    requires
        s.wf(),
        0 <= r < 32,
        0 <= q < 32,
    ensures
        s.with_reg(r, v).wf(),
        s.with_reg(r, v).reg(0) == 0,
        q == r && r != 0 ==> s.with_reg(r, v).reg(q) == v,
        q != r ==> s.with_reg(r, v).reg(q) == s.reg(q),
{
}

/// CSRs: a read after a write to CSR `a` gives the written value; every other CSR keeps its
/// value.
pub proof fn lemma_csr_write_read(s: HartState, a: int, v: u32, b: int)
    requires
        s.wf(),
        0 <= a < 4096,
        0 <= b < 4096,
    ensures
        s.with_csr(a, v).wf(),
        s.with_csr(a, v).csrs[a] == v,
        b != a ==> s.with_csr(a, v).csrs[b] == s.csrs[b],
{
}

/// Executing any instruction whose register indices are in range keeps the state well formed:
/// register x0 still reads as zero and the register files keep their sizes.
pub proof fn lemma_exec_keeps_wf(s: HartState, instr: Instruction, loaded: u32)
    requires
        s.wf(),
        instr.wf(),
    ensures
        exec_spec(s, instr, loaded).wf(),
{
}

/// A trap followed by `mret` restores the privilege mode the hart had before the trap,
/// resumes at the address of the trapping instruction, clears mstatus.MPP and leaves every
/// other bit of mstatus and every integer register as it was.
pub proof fn lemma_trap_then_mret(s: HartState, cause: u32, tval: u32, it: IType, loaded: u32)
    requires
        s.wf(),
    ensures
        ({
            let t = trap_spec(s, cause, tval);
            let m = exec_spec(t, Instruction::Mret(it), loaded);
            &&& t.mode == PrivilegeMode::Machine
            &&& t.csrs[MEPC as int] == s.pc.wrapping_sub(4)
            &&& t.csrs[MCAUSE as int] == cause
            &&& t.csrs[MTVAL as int] == tval
            &&& mpp_of(t.csrs[MSTATUS as int]) == bits_of_mode(s.mode)
            &&& m.mode == s.mode
            &&& m.pc == s.pc.wrapping_sub(4)
            &&& m.x == s.x
            &&& m.csrs[MSTATUS as int] == clear_mpp(s.csrs[MSTATUS as int])
        }),
{
    let old_status = s.csrs[MSTATUS as int];
    let b = bits_of_mode(s.mode);
    let new_status = with_mpp(old_status, b);
    lemma_word_bits(old_status, b);
    lemma_word_bits(new_status, 0);
    assert(((new_status & 0x1800u32) >> 11u32) == b && new_status & !0x1800u32 == old_status
        & !0x1800u32) by (bit_vector)
        requires
            b < 4,
            new_status == (old_status & !0x1800u32) | (b << 11u32),
    ;
    crate::privilege::lemma_mode_bits_roundtrip(s.mode);
}

/// A word that does not decode, or decodes as `Illegal`, traps to the base address in mtvec in
/// machine mode, with mepc the address of the word, mcause 2 and mtval the word itself.
pub proof fn lemma_illegal_word_traps(s: HartState, w: u32, loaded: u32)
    requires
        s.wf(),
        s.pc <= u32::MAX - 4,
        decode_spec(w) is None || decode_spec(w) == Some(Instruction::Illegal(w)),
    ensures
        step_spec(s, w, loaded).pc == s.csrs[MTVEC as int] - s.csrs[MTVEC as int] % 4,
        step_spec(s, w, loaded).mode == PrivilegeMode::Machine,
        step_spec(s, w, loaded).csrs[MEPC as int] == s.pc,
        step_spec(s, w, loaded).csrs[MCAUSE as int] == CAUSE_ILLEGAL_INSTRUCTION,
        step_spec(s, w, loaded).csrs[MTVAL as int] == w,
        step_spec(s, w, loaded).x == s.x,
{
    let fetched = s.with_pc((s.pc + 4) as u32);
    lemma_step_is_run_word(s, w, loaded);
    lemma_illegal_word_runs_trap(fetched, w, loaded);
    assert(fetched.pc.wrapping_sub(4) == s.pc);
}

/// A step is running the fetched word from the state with pc advanced by four.
proof fn lemma_step_is_run_word(s: HartState, w: u32, loaded: u32)
    ensures
        step_spec(s, w, loaded) == run_word(s.with_pc((s.pc + 4) as u32), w, loaded),
{
}

/// Running a word that does not decode, or decodes as `Illegal`, is the illegal-instruction
/// trap.
pub proof fn lemma_illegal_word_runs_trap(s: HartState, w: u32, loaded: u32)
    requires
        decode_spec(w) is None || decode_spec(w) == Some(Instruction::Illegal(w)),
    ensures
        run_word(s, w, loaded) == trap_spec(s, CAUSE_ILLEGAL_INSTRUCTION, w),
{
    reveal(run_word);
    if decode_spec(w) is Some {
        assert(exec_spec(s, Instruction::Illegal(w), loaded) == trap_spec(
            s,
            CAUSE_ILLEGAL_INSTRUCTION,
            w,
        ));
    }
}

/// A step from a well-formed state leads to a well-formed state.
pub proof fn lemma_step_keeps_wf(s: HartState, w: u32, loaded: u32)
    requires
        s.wf(),
        s.pc <= u32::MAX - 4,
    ensures
        step_spec(s, w, loaded).wf(),
{
    reveal(run_word);
    crate::instruction::lemma_decode_wf(w);
    let fetched = s.with_pc((s.pc + 4) as u32);
    if let Some(instr) = decode_spec(w) {
        lemma_exec_keeps_wf(fetched, instr, loaded);
    }
}

/// Instructions that neither branch, jump nor trap leave pc at the next instruction.
pub proof fn lemma_sequential_pc(s: HartState, instr: Instruction, loaded: u32)
    requires
        s.wf(),
        instr.wf(),
        !transfers_control(instr),
    ensures
        exec_spec(s, instr, loaded).pc == s.pc,
{
}

/// Whether `instr` may move pc elsewhere than the next instruction: branches, jumps, `mret`
/// and the instructions that trap.
pub open spec fn transfers_control(instr: Instruction) -> bool {
    match instr {
        Instruction::Beq(_) | Instruction::Bne(_) | Instruction::Blt(_) | Instruction::Bge(_)
        | Instruction::Bltu(_) | Instruction::Bgeu(_) | Instruction::Jal(_) | Instruction::Jalr(_)
        | Instruction::Mret(_) | Instruction::Ecall(_) | Instruction::Ebreak(_)
        | Instruction::Illegal(_) => true,
        _ => false,
    }
}

} // verus!
