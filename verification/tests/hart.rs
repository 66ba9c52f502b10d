use lemrvm_core::bus::Bus;
use lemrvm_core::hart::{Hart, MemAccess, MCAUSE, MEPC, MSTATUS, MTVAL, MTVEC};
use lemrvm_core::instruction::{BType, IType, Instruction, RType, SType};
use lemrvm_core::privilege::PrivilegeMode;
use std::collections::HashMap;

#[derive(Clone, PartialEq, Debug)]
struct TestBus {
    mem: HashMap<u32, u8>,
}

impl TestBus {
    fn new() -> Self {
        Self { mem: HashMap::new() }
    }

    fn load_words(&mut self, addr: u32, words: &[u32]) {
        for (k, w) in words.iter().enumerate() {
            self.write32(addr + 4 * k as u32, *w);
        }
    }
}

impl Bus for TestBus {
    fn spec_read8(&self, addr: u32) -> u8 {
        self.read8(addr)
    }

    fn spec_read16(&self, addr: u32) -> u16 {
        self.read16(addr)
    }

    fn spec_read32(&self, addr: u32) -> u32 {
        self.read32(addr)
    }

    fn spec_write8(&self, addr: u32, val: u8) -> Self {
        let mut next = self.clone();
        next.write8(addr, val);
        next
    }

    fn spec_write16(&self, addr: u32, val: u16) -> Self {
        let mut next = self.clone();
        next.write16(addr, val);
        next
    }

    fn spec_write32(&self, addr: u32, val: u32) -> Self {
        let mut next = self.clone();
        next.write32(addr, val);
        next
    }

    fn read8(&self, addr: u32) -> u8 {
        self.mem.get(&addr).copied().unwrap_or(0)
    }

    fn read16(&self, addr: u32) -> u16 {
        (self.read8(addr) as u16) | ((self.read8(addr.wrapping_add(1)) as u16) << 8)
    }

    fn read32(&self, addr: u32) -> u32 {
        (self.read16(addr) as u32) | ((self.read16(addr.wrapping_add(2)) as u32) << 16)
    }

    fn write8(&mut self, addr: u32, val: u8) {
        self.mem.insert(addr, val);
    }

    fn write16(&mut self, addr: u32, val: u16) {
        self.write8(addr, val as u8);
        self.write8(addr.wrapping_add(1), (val >> 8) as u8);
    }

    fn write32(&mut self, addr: u32, val: u32) {
        self.write16(addr, val as u16);
        self.write16(addr.wrapping_add(2), (val >> 16) as u16);
    }
}

fn enc_r(op: u32, rd: u32, f3: u32, rs1: u32, rs2: u32, f7: u32) -> u32 {
    (f7 << 25) | (rs2 << 20) | (rs1 << 15) | (f3 << 12) | (rd << 7) | op
}

fn enc_i(op: u32, rd: u32, f3: u32, rs1: u32, imm: i32) -> u32 {
    (((imm as u32) & 0xFFF) << 20) | (rs1 << 15) | (f3 << 12) | (rd << 7) | op
}

fn enc_s(f3: u32, rs1: u32, rs2: u32, imm: i32) -> u32 {
    let imm = imm as u32;
    (((imm >> 5) & 0x7F) << 25) | (rs2 << 20) | (rs1 << 15) | (f3 << 12) | ((imm & 0x1F) << 7) | 0x23
}

fn enc_b(f3: u32, rs1: u32, rs2: u32, imm: i32) -> u32 {
    let imm = imm as u32;
    (((imm >> 12) & 1) << 31)
        | (((imm >> 5) & 0x3F) << 25)
        | (rs2 << 20)
        | (rs1 << 15)
        | (f3 << 12)
        | (((imm >> 1) & 0xF) << 8)
        | (((imm >> 11) & 1) << 7)
        | 0x63
}

fn enc_j(rd: u32, imm: i32) -> u32 {
    let imm = imm as u32;
    (((imm >> 20) & 1) << 31)
        | (((imm >> 1) & 0x3FF) << 21)
        | (((imm >> 11) & 1) << 20)
        | (((imm >> 12) & 0xFF) << 12)
        | (rd << 7)
        | 0x6F
}

fn addi(rd: u32, rs1: u32, imm: i32) -> u32 {
    enc_i(0x13, rd, 0, rs1, imm)
}

fn run(words: &[u32], steps: usize) -> (Hart, TestBus) {
    let mut bus = TestBus::new();
    bus.load_words(0x1000, words);
    let mut hart = Hart::default();
    hart.set_pc(0x1000);
    for _ in 0..steps {
        hart.step(&mut bus);
    }
    (hart, bus)
}

#[test]
fn default_hart_is_zeroed_machine_mode() {
    let hart = Hart::default();
    assert_eq!(hart.pc(), 0);
    for r in 0..32 {
        assert_eq!(hart.reg(r), 0);
    }
    assert_eq!(hart.csr(MSTATUS), 0);
    assert_eq!(hart.csr(4095), 0);
    assert_eq!(hart.mode(), PrivilegeMode::Machine);
}

#[test]
fn x0_is_hardwired_to_zero() {
    let mut hart = Hart::default();
    hart.set_reg(0, 42);
    assert_eq!(hart.reg(0), 0);
    hart.set_pc(0x80);
    assert_eq!(hart.reg(0), 0);
    assert_eq!(hart.pc(), 0x80);
    let (hart, _) = run(&[addi(0, 0, 7)], 1);
    assert_eq!(hart.reg(0), 0);
}

#[test]
fn register_and_csr_read_after_write() {
    let mut hart = Hart::default();
    hart.set_reg(5, 0xDEAD_BEEF);
    hart.set_reg(6, 1);
    assert_eq!(hart.reg(5), 0xDEAD_BEEF);
    assert_eq!(hart.reg(6), 1);
    assert_eq!(hart.pc(), 0);
    hart.set_csr(MTVEC, 0x200);
    hart.set_csr(0xFFF, 9);
    assert_eq!(hart.csr(MTVEC), 0x200);
    assert_eq!(hart.csr(0xFFF), 9);
    assert_eq!(hart.csr(MEPC), 0);
}

#[test]
fn privilege_from_bits() {
    assert_eq!(PrivilegeMode::from_bits(0), PrivilegeMode::User);
    assert_eq!(PrivilegeMode::from_bits(1), PrivilegeMode::Supervisor);
    assert_eq!(PrivilegeMode::from_bits(2), PrivilegeMode::Machine);
    assert_eq!(PrivilegeMode::from_bits(3), PrivilegeMode::Machine);
    assert_eq!(PrivilegeMode::from_bits(0x7), PrivilegeMode::Machine);
    assert_eq!(PrivilegeMode::from_bits(0x1805), PrivilegeMode::Supervisor);
    for m in [PrivilegeMode::User, PrivilegeMode::Supervisor, PrivilegeMode::Machine] {
        assert_eq!(PrivilegeMode::from_bits(m.to_bits()), m);
    }
}

#[test]
fn arithmetic_program() {
    let prog = [
        addi(1, 0, 5),
        addi(2, 0, -3),
        enc_r(0x33, 3, 0, 1, 2, 0),    // add x3 = 2
        enc_r(0x33, 4, 0, 2, 1, 0x20), // sub x4 = -8
        enc_r(0x33, 5, 2, 2, 1, 0),    // slt x5 = 1
        enc_r(0x33, 6, 3, 2, 1, 0),    // sltu x6 = 0
        enc_r(0x33, 7, 5, 4, 1, 0x20), // sra x7 = -8 >> 5 = -1
        enc_r(0x33, 8, 5, 4, 1, 0),    // srl
        enc_r(0x33, 9, 1, 1, 1, 0),    // sll 5 << 5 = 160
        enc_i(0x13, 10, 4, 1, -1),     // xori x10 = !5
        enc_i(0x13, 11, 5, 4, 0x400 | 2), // srai -8 >> 2 = -2
        enc_i(0x13, 12, 2, 2, 0),      // slti -3 < 0
        enc_i(0x13, 13, 3, 1, -1),     // sltiu 5 < 0xFFFFFFFF
    ];
    let (hart, _) = run(&prog, prog.len());
    assert_eq!(hart.reg(1), 5);
    assert_eq!(hart.reg(2), (-3i32) as u32);
    assert_eq!(hart.reg(3), 2);
    assert_eq!(hart.reg(4), (-8i32) as u32);
    assert_eq!(hart.reg(5), 1);
    assert_eq!(hart.reg(6), 0);
    assert_eq!(hart.reg(7), u32::MAX);
    assert_eq!(hart.reg(8), 0xFFFF_FFF8 >> 5);
    assert_eq!(hart.reg(9), 160);
    assert_eq!(hart.reg(10), !5u32);
    assert_eq!(hart.reg(11), (-2i32) as u32);
    assert_eq!(hart.reg(12), 1);
    assert_eq!(hart.reg(13), 1);
    assert_eq!(hart.pc(), 0x1000 + 4 * prog.len() as u32);
}

#[test]
fn add_wraps() {
    let mut hart = Hart::default();
    let mut bus = TestBus::new();
    hart.set_reg(1, u32::MAX);
    hart.set_reg(2, 2);
    hart.execute(&mut bus, Instruction::Add(RType { rd: 3, rs1: 1, rs2: 2 }));
    assert_eq!(hart.reg(3), 1);
    hart.execute(&mut bus, Instruction::Sub(RType { rd: 4, rs1: 2, rs2: 1 }));
    assert_eq!(hart.reg(4), 3);
}

#[test]
fn loads_and_stores() {
    let prog = [
        addi(1, 0, 0x400),          // base
        addi(2, 0, -2),             // 0xFFFFFFFE
        enc_s(2, 1, 2, 0),          // sw
        enc_i(0x03, 3, 0, 1, 0),    // lb  -> -2
        enc_i(0x03, 4, 4, 1, 0),    // lbu -> 0xFE
        enc_i(0x03, 5, 1, 1, 0),    // lh  -> -2
        enc_i(0x03, 6, 5, 1, 0),    // lhu -> 0xFFFE
        enc_i(0x03, 7, 2, 1, 0),    // lw
        addi(8, 0, 0x7F),
        enc_s(0, 1, 8, 9),          // sb at 0x409
        enc_i(0x03, 9, 0, 1, 9),    // lb -> 0x7F
        enc_s(1, 1, 2, -4),         // sh at 0x3FC
        enc_i(0x03, 10, 2, 1, -4),  // lw -> 0x0000FFFE
    ];
    let (hart, bus) = run(&prog, prog.len());
    assert_eq!(hart.reg(3), 0xFFFF_FFFE);
    assert_eq!(hart.reg(4), 0xFE);
    assert_eq!(hart.reg(5), 0xFFFF_FFFE);
    assert_eq!(hart.reg(6), 0xFFFE);
    assert_eq!(hart.reg(7), 0xFFFF_FFFE);
    assert_eq!(hart.reg(9), 0x7F);
    assert_eq!(hart.reg(10), 0xFFFE);
    assert_eq!(bus.read32(0x400), 0xFFFF_FFFE);
    assert_eq!(bus.read8(0x409), 0x7F);
}

#[test]
fn execute_with_takes_loaded_value() {
    let mut hart = Hart::default();
    let it = IType { rd: 1, rs1: 0, imm: 0 };
    hart.execute_with(Instruction::Lb(it), 0x1_2380);
    assert_eq!(hart.reg(1), 0xFFFF_FF80);
    hart.execute_with(Instruction::Lbu(it), 0x1_2380);
    assert_eq!(hart.reg(1), 0x80);
    hart.execute_with(Instruction::Lh(it), 0x1_8001);
    assert_eq!(hart.reg(1), 0xFFFF_8001);
    hart.execute_with(Instruction::Lhu(it), 0x1_8001);
    assert_eq!(hart.reg(1), 0x8001);
    hart.execute_with(Instruction::Lw(it), 0x1_8001);
    assert_eq!(hart.reg(1), 0x1_8001);
}

#[test]
fn branches_and_jumps() {
    let prog = [
        addi(1, 0, 1),          // 0x1000
        enc_b(0, 1, 0, 8),      // 0x1004 beq x1,x0 not taken
        enc_b(1, 1, 0, 8),      // 0x1008 bne taken -> 0x1010
        addi(2, 0, 99),         // 0x100C skipped
        enc_j(3, 8),            // 0x1010 jal x3 -> 0x1018, x3 = 0x1014
        addi(2, 0, 98),         // 0x1014 skipped
        enc_i(0x67, 4, 0, 3, 13), // 0x1018 jalr x4, 13(x3) -> (0x1021) & !1 = 0x1020, x4 = 0x101C
        addi(2, 0, 97),         // 0x101C skipped
        enc_b(4, 0, 1, -8),     // 0x1020 blt x0 < x1 taken -> 0x1018? no: -8 -> 0x1018
    ];
    let (hart, _) = run(&prog, 6);
    assert_eq!(hart.reg(2), 0);
    assert_eq!(hart.reg(3), 0x1014);
    assert_eq!(hart.reg(4), 0x101C);
    assert_eq!(hart.pc(), 0x1018);
}

#[test]
fn unsigned_and_signed_branches() {
    let mut bus = TestBus::new();
    let mut hart = Hart::default();
    hart.set_reg(1, u32::MAX);
    hart.set_reg(2, 1);
    // bltu x2 < x1 taken; blt x1 (-1) < x2 (1) taken; bge not; bgeu taken
    bus.load_words(0x100, &[enc_b(6, 2, 1, 12)]);
    hart.set_pc(0x100);
    hart.step(&mut bus);
    assert_eq!(hart.pc(), 0x10C);
    bus.load_words(0x10C, &[enc_b(4, 1, 2, -12)]);
    hart.step(&mut bus);
    assert_eq!(hart.pc(), 0x100);
    bus.load_words(0x100, &[enc_b(5, 1, 2, 40)]);
    hart.step(&mut bus);
    assert_eq!(hart.pc(), 0x104);
    bus.load_words(0x104, &[enc_b(7, 1, 2, 40)]);
    hart.step(&mut bus);
    assert_eq!(hart.pc(), 0x12C);
}

#[test]
fn lui_and_auipc() {
    let (hart, _) = run(&[0x1234_50B7, 0xFFFF_F117], 2);
    assert_eq!(hart.reg(1), 0x1234_5000);
    assert_eq!(hart.reg(2), 0x1004u32.wrapping_add(0xFFFF_F000));
}

#[test]
fn csr_instructions() {
    let prog = [
        addi(1, 0, 0x55),
        enc_i(0x73, 2, 1, 1, 0x340),  // csrrw x2, mscratch, x1
        addi(3, 0, 0x0A),
        enc_i(0x73, 4, 2, 3, 0x340),  // csrrs x4 -> 0x55, csr = 0x5F
        enc_i(0x73, 5, 3, 1, 0x340),  // csrrc x5 -> 0x5F, csr = 0x0A
        enc_i(0x73, 6, 2, 0, 0x340),  // csrrs with rs1 = x0: read only
        enc_i(0x73, 7, 5, 17, 0x341), // csrrwi mepc = 17
        enc_i(0x73, 8, 6, 2, 0x341),  // csrrsi: 17 | 2 = 19
        enc_i(0x73, 9, 7, 1, 0x341),  // csrrci: 19 & !1 = 18
    ];
    let (hart, _) = run(&prog, prog.len());
    assert_eq!(hart.reg(2), 0);
    assert_eq!(hart.reg(4), 0x55);
    assert_eq!(hart.reg(5), 0x5F);
    assert_eq!(hart.reg(6), 0x0A);
    assert_eq!(hart.csr(0x340), 0x0A);
    assert_eq!(hart.reg(7), 0);
    assert_eq!(hart.reg(8), 17);
    assert_eq!(hart.reg(9), 19);
    assert_eq!(hart.csr(MEPC), 18);
}

#[test]
fn illegal_word_traps() {
    let mut bus = TestBus::new();
    bus.load_words(0x2000, &[0xFFFF_FFFF]);
    let mut hart = Hart::default();
    hart.set_csr(MTVEC, 0x803);
    hart.set_pc(0x2000);
    hart.step(&mut bus);
    assert_eq!(hart.pc(), 0x800);
    assert_eq!(hart.csr(MEPC), 0x2000);
    assert_eq!(hart.csr(MCAUSE), 2);
    assert_eq!(hart.csr(MTVAL), 0xFFFF_FFFF);
    assert_eq!(hart.mode(), PrivilegeMode::Machine);
}

#[test]
fn zero_word_traps_as_illegal() {
    let mut bus = TestBus::new();
    let mut hart = Hart::default();
    hart.set_csr(MTVEC, 0x40);
    hart.set_pc(0x3000);
    hart.step(&mut bus);
    assert_eq!(hart.pc(), 0x40);
    assert_eq!(hart.csr(MEPC), 0x3000);
    assert_eq!(hart.csr(MCAUSE), 2);
    assert_eq!(hart.csr(MTVAL), 0);
}

#[test]
fn ecall_then_mret_restores_mode() {
    let mut bus = TestBus::new();
    let mut hart = Hart::default();
    hart.set_csr(MTVEC, 0x100);
    // Enter user mode through mret: MPP = 0, mepc = 0x2000.
    hart.set_csr(MSTATUS, 0x0000_0008);
    hart.set_csr(MEPC, 0x2000);
    bus.load_words(0x1000, &[0x3020_0073]);
    hart.set_pc(0x1000);
    hart.step(&mut bus);
    assert_eq!(hart.mode(), PrivilegeMode::User);
    assert_eq!(hart.pc(), 0x2000);
    assert_eq!(hart.csr(MSTATUS), 0x0000_0008);
    // ecall from user mode
    bus.load_words(0x2000, &[0x0000_0073]);
    hart.step(&mut bus);
    assert_eq!(hart.mode(), PrivilegeMode::Machine);
    assert_eq!(hart.pc(), 0x100);
    assert_eq!(hart.csr(MCAUSE), 8);
    assert_eq!(hart.csr(MEPC), 0x2000);
    assert_eq!(hart.csr(MTVAL), 0);
    assert_eq!(hart.csr(MSTATUS), 0x0000_0008);
    // mret goes back to the ecall itself, in user mode
    bus.load_words(0x100, &[0x3020_0073]);
    hart.step(&mut bus);
    assert_eq!(hart.mode(), PrivilegeMode::User);
    assert_eq!(hart.pc(), 0x2000);
}

#[test]
fn ecall_causes_by_mode() {
    let mut bus = TestBus::new();
    let mut hart = Hart::default();
    bus.load_words(0, &[0x0000_0073]);
    hart.step(&mut bus);
    assert_eq!(hart.csr(MCAUSE), 11);
    assert_eq!(hart.csr(MSTATUS), 0x1800);
    let mut hart = Hart::default();
    hart.set_csr(MSTATUS, 0x0800);
    hart.set_csr(MEPC, 0x40);
    bus.load_words(0x10, &[0x3020_0073]);
    hart.set_pc(0x10);
    hart.step(&mut bus);
    assert_eq!(hart.mode(), PrivilegeMode::Supervisor);
    bus.load_words(0x40, &[0x0000_0073]);
    hart.step(&mut bus);
    assert_eq!(hart.csr(MCAUSE), 9);
    assert_eq!(hart.csr(MSTATUS), 0x0800);
}

#[test]
fn ebreak_traps_with_pc() {
    let (hart, _) = run(&[addi(1, 0, 1), 0x0010_0073], 2);
    assert_eq!(hart.csr(MCAUSE), 3);
    assert_eq!(hart.csr(MTVAL), 0x1004);
    assert_eq!(hart.csr(MEPC), 0x1004);
    assert_eq!(hart.pc(), 0);
}

#[test]
fn no_op_system_instructions() {
    let (hart, _) = run(&[0x0020_0073, 0x1020_0073, 0x1050_0073, 0x0FF0_000F], 4);
    assert_eq!(hart.pc(), 0x1010);
    assert_eq!(hart.csr(MCAUSE), 0);
    assert_eq!(hart.mode(), PrivilegeMode::Machine);
}

#[test]
fn mem_access_requests() {
    let mut hart = Hart::default();
    hart.set_reg(1, 0x100);
    hart.set_reg(2, 0x1234_5678);
    let st = SType { rs1: 1, rs2: 2, imm: -4 };
    assert_eq!(hart.mem_access(Instruction::Sb(st)), Some(MemAccess::Write8(0xFC, 0x78)));
    assert_eq!(hart.mem_access(Instruction::Sh(st)), Some(MemAccess::Write16(0xFC, 0x5678)));
    assert_eq!(hart.mem_access(Instruction::Sw(st)), Some(MemAccess::Write32(0xFC, 0x1234_5678)));
    let it = IType { rd: 3, rs1: 1, imm: 8 };
    assert_eq!(hart.mem_access(Instruction::Lb(it)), Some(MemAccess::Read8(0x108)));
    assert_eq!(hart.mem_access(Instruction::Lbu(it)), Some(MemAccess::Read8(0x108)));
    assert_eq!(hart.mem_access(Instruction::Lh(it)), Some(MemAccess::Read16(0x108)));
    assert_eq!(hart.mem_access(Instruction::Lhu(it)), Some(MemAccess::Read16(0x108)));
    assert_eq!(hart.mem_access(Instruction::Lw(it)), Some(MemAccess::Read32(0x108)));
    assert_eq!(hart.mem_access(Instruction::Addi(it)), None);
}

#[test]
fn execute_leaves_bus_alone_except_stores() {
    let mut bus = TestBus::new();
    bus.write32(0x200, 0xAABB_CCDD);
    let mut hart = Hart::default();
    hart.set_pc(0x104);
    hart.set_reg(1, 7);
    hart.set_reg(2, 7);
    hart.execute(&mut bus, Instruction::Beq(BType { rs1: 1, rs2: 2, imm: 8 }));
    assert_eq!(hart.pc(), 0x108);
    assert_eq!(bus.mem.len(), 4);
    hart.set_reg(1, 0x201);
    hart.execute(&mut bus, Instruction::Jalr(IType { rd: 1, rs1: 1, imm: 4 }));
    assert_eq!(hart.pc(), 0x204);
    assert_eq!(hart.reg(1), 0x108);
    hart.execute(&mut bus, Instruction::Lw(IType { rd: 3, rs1: 0, imm: 0x200 }));
    assert_eq!(hart.reg(3), 0xAABB_CCDD);
    assert_eq!(bus.mem.len(), 4);
    hart.set_reg(4, 0x11);
    hart.execute(&mut bus, Instruction::Sb(SType { rs1: 0, rs2: 4, imm: 0x201 }));
    assert_eq!(bus.read32(0x200), 0xAABB_11DD);
}

#[test]
fn step_word_runs_given_word() {
    let mut bus = TestBus::new();
    let mut hart = Hart::default();
    hart.set_csr(MTVEC, 0x80);
    hart.set_pc(0x44);
    hart.step_word(&mut bus, addi(5, 0, -1));
    assert_eq!(hart.reg(5), u32::MAX);
    assert_eq!(hart.pc(), 0x44);
    hart.step_word(&mut bus, 0xFFFF_FFFF);
    assert_eq!(hart.csr(MCAUSE), 2);
    assert_eq!(hart.csr(MTVAL), 0xFFFF_FFFF);
    assert_eq!(hart.csr(MEPC), 0x40);
    assert_eq!(hart.pc(), 0x80);
}

#[test]
fn step_follows_bus_model() {
    let mut bus = TestBus::new();
    bus.load_words(0x1000, &[addi(1, 0, 0x300), enc_s(0, 1, 1, 2), enc_i(0x03, 2, 4, 1, 2)]);
    let mut hart = Hart::default();
    hart.set_pc(0x1000);
    hart.step(&mut bus);
    assert_eq!(bus.spec_read32(0x1000), addi(1, 0, 0x300));
    let before = bus.clone();
    hart.step(&mut bus);
    assert_eq!(bus, before.spec_write8(0x302, 0x00));
    let before = bus.clone();
    hart.step(&mut bus);
    assert_eq!(bus, before);
    assert_eq!(hart.reg(2), before.spec_read8(0x302) as u32);
    assert_eq!(hart.pc(), 0x100C);
}
