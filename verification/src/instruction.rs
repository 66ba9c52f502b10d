use vstd::prelude::*;
use crate::bits::{field, sign_extend, ubits, sext, ibits, lemma_sign_extend_range};

verus! {

/// The opcode (bits 6:0), funct3 (bits 14:12) and funct7 (bits 31:25) of an instruction word.
pub fn decode_signature(i: u32) -> (r: (u32, u32, u32))
    ensures
        r.0 == field(i, 6, 0),
        r.1 == field(i, 14, 12),
        r.2 == field(i, 31, 25),
{
    (ubits(i, 6, 0), ubits(i, 14, 12), ubits(i, 31, 25))
}

/// Register Type Instruction
#[derive(Debug, Copy, Clone, PartialEq, Eq, Structural)]
pub struct RType {
    pub rd: usize,
    pub rs1: usize,
    pub rs2: usize,
}

/// Immediate Type Instruction
#[derive(Debug, Copy, Clone, PartialEq, Eq, Structural)]
pub struct IType {
    pub rd: usize,
    pub rs1: usize,
    pub imm: i32,
}

/// Store Type Instruction
#[derive(Debug, Copy, Clone, PartialEq, Eq, Structural)]
pub struct SType {
    pub rs1: usize,
    pub rs2: usize,
    pub imm: i32,
}

/// Branch Type Instruction
#[derive(Debug, Copy, Clone, PartialEq, Eq, Structural)]
pub struct BType {
    pub rs1: usize,
    pub rs2: usize,
    pub imm: i32,
}

/// Upper Immediate Type Instruction
#[derive(Debug, Copy, Clone, PartialEq, Eq, Structural)]
pub struct UType {
    pub rd: usize,
    pub imm: i32,
}

/// Jump Type Instruction
#[derive(Debug, Copy, Clone, PartialEq, Eq, Structural)]
pub struct JType {
    pub rd: usize,
    pub imm: i32,
}

/// The register fields of an R-type word: rd = bits 11:7, rs1 = bits 19:15, rs2 = bits 24:20.
pub open spec fn rtype_of(i: u32) -> RType {
    RType {
        rd: field(i, 11, 7) as usize,
        rs1: field(i, 19, 15) as usize,
        rs2: field(i, 24, 20) as usize,
    }
}

/// An I-type word: rd, rs1, and the immediate bits 31:20 sign-extended from 12 bits.
pub open spec fn itype_of(i: u32) -> IType {
    IType {
        rd: field(i, 11, 7) as usize,
        rs1: field(i, 19, 15) as usize,
        imm: sign_extend(field(i, 31, 20), 12) as i32,
    }
}

/// An S-type word: imm[11:5] = bits 31:25, imm[4:0] = bits 11:7, sign-extended from 12 bits.
pub open spec fn stype_of(i: u32) -> SType {
    SType {
        rs1: field(i, 19, 15) as usize,
        rs2: field(i, 24, 20) as usize,
        imm: sign_extend(field(i, 31, 25) * 32 + field(i, 11, 7), 12) as i32,
    }
}

/// A B-type word: imm[12] = bit 31, imm[11] = bit 7, imm[10:5] = bits 30:25,
/// imm[4:1] = bits 11:8, imm[0] = 0, sign-extended from 13 bits.
pub open spec fn btype_of(i: u32) -> BType {
    BType {
        rs1: field(i, 19, 15) as usize,
        rs2: field(i, 24, 20) as usize,
        imm: sign_extend(
            field(i, 31, 31) * 4096 + field(i, 7, 7) * 2048 + field(i, 30, 25) * 32 + field(i, 11, 8)
                * 2,
            13,
        ) as i32,
    }
}

/// A U-type word: rd, and bits 31:12 in place with the low twelve bits zero.
pub open spec fn utype_of(i: u32) -> UType {
    UType { rd: field(i, 11, 7) as usize, imm: sign_extend(field(i, 31, 12) * 4096, 32) as i32 }
}

/// A J-type word: imm[20] = bit 31, imm[19:12] = bits 19:12, imm[11] = bit 20,
/// imm[10:1] = bits 30:21, imm[0] = 0, sign-extended from 21 bits.
pub open spec fn jtype_of(i: u32) -> JType {
    JType {
        rd: field(i, 11, 7) as usize,
        imm: sign_extend(
            field(i, 31, 31) * 1048576 + field(i, 19, 12) * 4096 + field(i, 20, 20) * 2048
                + field(i, 30, 21) * 2,
            21,
        ) as i32,
    }
}

impl RType {
    pub fn decode(i: u32) -> (r: Self)
        ensures
            r == rtype_of(i),
    {
        Self {
            rd: ubits(i, 11, 7) as usize,
            rs1: ubits(i, 19, 15) as usize,
            rs2: ubits(i, 24, 20) as usize,
        }
    }
}

impl IType {
    pub fn decode(i: u32) -> (r: Self)
        ensures
            r == itype_of(i),
    {
        let imm = ibits(i, 31, 20);
        Self { rd: ubits(i, 11, 7) as usize, rs1: ubits(i, 19, 15) as usize, imm }
    }
}

impl SType {
    pub fn decode(i: u32) -> (r: Self)
        ensures
            r == stype_of(i),
    {
        let hi = ubits(i, 31, 25);
        let lo = ubits(i, 11, 7);
        proof {
            vstd::arithmetic::power2::lemma2_to64();
        }
        let imm = (hi << 5) | lo;
        assert(imm == hi * 32 + lo) by (bit_vector)
            requires
                hi < 128,
                lo < 32,
                imm == (hi << 5) | lo,
        ;
        let imm = sext(imm, 12);
        proof {
            lemma_sign_extend_range((hi * 32 + lo) as nat, 12);
        }
        Self { rs1: ubits(i, 19, 15) as usize, rs2: ubits(i, 24, 20) as usize, imm }
    }
}

impl BType {
    pub fn decode(i: u32) -> (r: Self)
        ensures
            r == btype_of(i),
    {
        let a = ubits(i, 31, 31);
        let b = ubits(i, 7, 7);
        let c = ubits(i, 30, 25);
        let d = ubits(i, 11, 8);
        proof {
            vstd::arithmetic::power2::lemma2_to64();
        }
        let imm = (a << 12) | (b << 11) | (c << 5) | (d << 1);
        assert(imm == a * 4096 + b * 2048 + c * 32 + d * 2) by (bit_vector)
            requires
                a < 2,
                b < 2,
                c < 64,
                d < 16,
                imm == (a << 12) | (b << 11) | (c << 5) | (d << 1),
        ;
        let imm = sext(imm, 13);
        proof {
            lemma_sign_extend_range((a * 4096 + b * 2048 + c * 32 + d * 2) as nat, 13);
        }
        Self { rs1: ubits(i, 19, 15) as usize, rs2: ubits(i, 24, 20) as usize, imm }
    }
}

impl UType {
    pub fn decode(i: u32) -> (r: Self)
        ensures
            r == utype_of(i),
    {
        let hi = ubits(i, 31, 12);
        proof {
            vstd::arithmetic::power2::lemma2_to64();
        }
        let upper = hi << 12;
        assert(upper == hi * 4096) by (bit_vector)
            requires
                hi < 0x100000,
                upper == hi << 12,
        ;
        let imm = sext(upper, 32);
        proof {
            lemma_sign_extend_range((hi * 4096) as nat, 32);
        }
        Self { rd: ubits(i, 11, 7) as usize, imm }
    }
}

impl JType {
    pub fn decode(i: u32) -> (r: Self)
        ensures
            r == jtype_of(i),
    {
        let a = ubits(i, 31, 31);
        let b = ubits(i, 19, 12);
        let c = ubits(i, 20, 20);
        let d = ubits(i, 30, 21);
        proof {
            vstd::arithmetic::power2::lemma2_to64();
        }
        let imm = (a << 20) | (b << 12) | (c << 11) | (d << 1);
        assert(imm == a * 1048576 + b * 4096 + c * 2048 + d * 2) by (bit_vector)
            requires
                a < 2,
                b < 256,
                c < 2,
                d < 1024,
                imm == (a << 20) | (b << 12) | (c << 11) | (d << 1),
        ;
        let imm = sext(imm, 21);
        proof {
            lemma_sign_extend_range((a * 1048576 + b * 4096 + c * 2048 + d * 2) as nat, 21);
        }
        Self { rd: ubits(i, 11, 7) as usize, imm }
    }
}

/// A decoded RV32I instruction with its operand fields.
#[derive(Debug, Copy, Clone, PartialEq, Eq, Structural)]
pub enum Instruction {
    Illegal(u32),
    // RV32I
    // R-Type
    Add(RType),
    Sub(RType),
    Xor(RType),
    Or(RType),
    And(RType),
    Sll(RType),
    Srl(RType),
    Sra(RType),
    Slt(RType),
    Sltu(RType),
    // I-Type
    Addi(IType),
    Xori(IType),
    Ori(IType),
    Andi(IType),
    Slli(IType),
    Srli(IType),
    Srai(IType),
    Slti(IType),
    Sltiu(IType),
    Lb(IType),
    Lh(IType),
    Lw(IType),
    Lbu(IType),
    Lhu(IType),
    Sb(SType),
    Sh(SType),
    Sw(SType),
    Ecall(IType),
    Ebreak(IType),
    Uret(IType),
    Sret(IType),
    Mret(IType),
    Wfi(IType),
    Csrrw(IType),
    Csrrs(IType),
    Csrrc(IType),
    Csrrwi(IType),
    Csrrci(IType),
    Csrrsi(IType),
    Fence(IType),
    // B-Type
    Beq(BType),
    Bne(BType),
    Blt(BType),
    Bge(BType),
    Bltu(BType),
    Bgeu(BType),
    // U-Type
    Lui(UType),
    Auipc(UType),
    // J-Type
    Jal(JType),
    Jalr(IType),
}

/// Loads (opcode 0x03), by funct3.
pub open spec fn decode_load(i: u32, f3: nat) -> Option<Instruction> {
    let it = itype_of(i);
    if f3 == 0 {
        Some(Instruction::Lb(it))
    } else if f3 == 1 {
        Some(Instruction::Lh(it))
    } else if f3 == 2 {
        Some(Instruction::Lw(it))
    } else if f3 == 4 {
        Some(Instruction::Lbu(it))
    } else if f3 == 5 {
        Some(Instruction::Lhu(it))
    } else {
        None
    }
}

/// Register-immediate operations (opcode 0x13), by funct3 and, for shifts right, funct7.
pub open spec fn decode_op_imm(i: u32, f3: nat, f7: nat) -> Option<Instruction> {
    let it = itype_of(i);
    if f3 == 0 {
        Some(Instruction::Addi(it))
    } else if f3 == 1 {
        Some(Instruction::Slli(it))
    } else if f3 == 2 {
        Some(Instruction::Slti(it))
    } else if f3 == 3 {
        Some(Instruction::Sltiu(it))
    } else if f3 == 4 {
        Some(Instruction::Xori(it))
    } else if f3 == 5 {
        if f7 == 0 {
            Some(Instruction::Srli(it))
        } else if f7 == 0x20 {
            Some(Instruction::Srai(it))
        } else {
            None
        }
    } else if f3 == 6 {
        Some(Instruction::Ori(it))
    } else if f3 == 7 {
        Some(Instruction::Andi(it))
    } else {
        None
    }
}

/// Stores (opcode 0x23), by funct3.
pub open spec fn decode_store(i: u32, f3: nat) -> Option<Instruction> {
    let st = stype_of(i);
    if f3 == 0 {
        Some(Instruction::Sb(st))
    } else if f3 == 1 {
        Some(Instruction::Sh(st))
    } else if f3 == 2 {
        Some(Instruction::Sw(st))
    } else {
        None
    }
}

/// Register-register operations (opcode 0x33), by funct3 and funct7.
pub open spec fn decode_op(i: u32, f3: nat, f7: nat) -> Option<Instruction> {
    let r = rtype_of(i);
    if f7 == 0 {
        if f3 == 0 {
            Some(Instruction::Add(r))
        } else if f3 == 1 {
            Some(Instruction::Sll(r))
        } else if f3 == 2 {
            Some(Instruction::Slt(r))
        } else if f3 == 3 {
            Some(Instruction::Sltu(r))
        } else if f3 == 4 {
            Some(Instruction::Xor(r))
        } else if f3 == 5 {
            Some(Instruction::Srl(r))
        } else if f3 == 6 {
            Some(Instruction::Or(r))
        } else if f3 == 7 {
            Some(Instruction::And(r))
        } else {
            None
        }
    } else if f7 == 0x20 {
        if f3 == 0 {
            Some(Instruction::Sub(r))
        } else if f3 == 5 {
            Some(Instruction::Sra(r))
        } else {
            None
        }
    } else {
        None
    }
}

/// Conditional branches (opcode 0x63), by funct3.
pub open spec fn decode_branch(i: u32, f3: nat) -> Option<Instruction> {
    let b = btype_of(i);
    if f3 == 0 {
        Some(Instruction::Beq(b))
    } else if f3 == 1 {
        Some(Instruction::Bne(b))
    } else if f3 == 4 {
        Some(Instruction::Blt(b))
    } else if f3 == 5 {
        Some(Instruction::Bge(b))
    } else if f3 == 6 {
        Some(Instruction::Bltu(b))
    } else if f3 == 7 {
        Some(Instruction::Bgeu(b))
    } else {
        None
    }
}

/// System instructions (opcode 0x73): with funct3 0 by the twelve bits 31:20, else the CSR
/// accesses by funct3.
pub open spec fn decode_system(i: u32, f3: nat) -> Option<Instruction> {
    let it = itype_of(i);
    if f3 == 0 {
        let f12 = field(i, 31, 20);
        if f12 == 0 {
            Some(Instruction::Ecall(it))
        } else if f12 == 1 {
            Some(Instruction::Ebreak(it))
        } else if f12 == 2 {
            Some(Instruction::Uret(it))
        } else if f12 == 0x102 {
            Some(Instruction::Sret(it))
        } else if f12 == 0x105 {
            Some(Instruction::Wfi(it))
        } else if f12 == 0x302 {
            Some(Instruction::Mret(it))
        } else {
            None
        }
    } else if f3 == 1 {
        Some(Instruction::Csrrw(it))
    } else if f3 == 2 {
        Some(Instruction::Csrrs(it))
    } else if f3 == 3 {
        Some(Instruction::Csrrc(it))
    } else if f3 == 5 {
        Some(Instruction::Csrrwi(it))
    } else if f3 == 6 {
        Some(Instruction::Csrrsi(it))
    } else if f3 == 7 {
        Some(Instruction::Csrrci(it))
    } else {
        None
    }
}

/// The instruction an RV32I word stands for, or `None` where the word is no instruction of
/// the table. The all-zero word and 0x0FFF_FFFF are `Illegal`.
pub open spec fn decode_spec(i: u32) -> Option<Instruction> {
    if i == 0 || i == 0x0FFF_FFFF {
        Some(Instruction::Illegal(i))
    } else {
        let op = field(i, 6, 0);
        let f3 = field(i, 14, 12);
        let f7 = field(i, 31, 25);
        if op == 0x03 {
            decode_load(i, f3)
        } else if op == 0x0F {
            Some(Instruction::Fence(itype_of(i)))
        } else if op == 0x13 {
            decode_op_imm(i, f3, f7)
        } else if op == 0x17 {
            Some(Instruction::Auipc(utype_of(i)))
        } else if op == 0x23 {
            decode_store(i, f3)
        } else if op == 0x33 {
            decode_op(i, f3, f7)
        } else if op == 0x37 {
            Some(Instruction::Lui(utype_of(i)))
        } else if op == 0x63 {
            decode_branch(i, f3)
        } else if op == 0x67 {
            if f3 == 0 {
                Some(Instruction::Jalr(itype_of(i)))
            } else {
                None
            }
        } else if op == 0x6F {
            Some(Instruction::Jal(jtype_of(i)))
        } else if op == 0x73 {
            decode_system(i, f3)
        } else {
            None
        }
    }
}

impl RType {
    /// Every register index names one of the 32 registers.
    pub open spec fn wf(self) -> bool {
        self.rd < 32 && self.rs1 < 32 && self.rs2 < 32
    }
}

impl IType {
    /// Both register indices name one of the 32 registers.
    pub open spec fn wf(self) -> bool {
        self.rd < 32 && self.rs1 < 32
    }
}

impl SType {
    /// Both register indices name one of the 32 registers.
    pub open spec fn wf(self) -> bool {
        self.rs1 < 32 && self.rs2 < 32
    }
}

impl BType {
    /// Both register indices name one of the 32 registers.
    pub open spec fn wf(self) -> bool {
        self.rs1 < 32 && self.rs2 < 32
    }
}

impl UType {
    /// The destination names one of the 32 registers.
    pub open spec fn wf(self) -> bool {
        self.rd < 32
    }
}

impl JType {
    /// The destination names one of the 32 registers.
    pub open spec fn wf(self) -> bool {
        self.rd < 32
    }
}

impl Instruction {
    /// Every register index that the instruction reads or writes names one of the 32
    /// registers. (The system instructions without operands and `Fence` use none; the rs1
    /// field of `Csrrwi`, `Csrrsi` and `Csrrci` is an immediate.)
    pub open spec fn wf(self) -> bool {
        match self {
            Instruction::Illegal(_) => true,
            Instruction::Add(r) | Instruction::Sub(r) | Instruction::Xor(r) | Instruction::Or(r)
            | Instruction::And(r) | Instruction::Sll(r) | Instruction::Srl(r) | Instruction::Sra(r)
            | Instruction::Slt(r) | Instruction::Sltu(r) => r.wf(),
            Instruction::Addi(it) | Instruction::Xori(it) | Instruction::Ori(it)
            | Instruction::Andi(it) | Instruction::Slli(it) | Instruction::Srli(it)
            | Instruction::Srai(it) | Instruction::Slti(it) | Instruction::Sltiu(it)
            | Instruction::Lb(it) | Instruction::Lh(it) | Instruction::Lw(it) | Instruction::Lbu(it)
            | Instruction::Lhu(it) | Instruction::Csrrw(it) | Instruction::Csrrs(it)
            | Instruction::Csrrc(it) | Instruction::Jalr(it) => it.wf(),
            Instruction::Csrrwi(it) | Instruction::Csrrsi(it) | Instruction::Csrrci(it) => it.rd
                < 32,
            Instruction::Ecall(_) | Instruction::Ebreak(_) | Instruction::Uret(_)
            | Instruction::Sret(_) | Instruction::Mret(_) | Instruction::Wfi(_)
            | Instruction::Fence(_) => true,
            Instruction::Sb(st) | Instruction::Sh(st) | Instruction::Sw(st) => st.wf(),
            Instruction::Beq(b) | Instruction::Bne(b) | Instruction::Blt(b) | Instruction::Bge(b)
            | Instruction::Bltu(b) | Instruction::Bgeu(b) => b.wf(),
            Instruction::Lui(u) | Instruction::Auipc(u) => u.wf(),
            Instruction::Jal(j) => j.wf(),
        }
    }

    pub fn decode(i: u32) -> (r: Option<Self>)
        ensures
            r == decode_spec(i),
    {
        if i == 0 || i == 0xFFFFFFF {
            return Some(Self::Illegal(i));
        }

        let (op, f3, f7) = decode_signature(i);
        proof {
            vstd::arithmetic::power2::lemma2_to64();
        }

        let instr = match op {
            0x03 => match f3 {
                0x0 => Self::Lb(IType::decode(i)),
                0x1 => Self::Lh(IType::decode(i)),
                0x2 => Self::Lw(IType::decode(i)),
                0x4 => Self::Lbu(IType::decode(i)),
                0x5 => Self::Lhu(IType::decode(i)),
                _ => return None,
            },
            0x0F => Self::Fence(IType::decode(i)),
            0x13 => match f3 {
                0x0 => Self::Addi(IType::decode(i)),
                0x1 => Self::Slli(IType::decode(i)),
                0x2 => Self::Slti(IType::decode(i)),
                0x3 => Self::Sltiu(IType::decode(i)),
                0x4 => Self::Xori(IType::decode(i)),
                0x5 => {
                    let it = IType::decode(i);
                    if f7 == 0x00 {
                        Self::Srli(it)
                    } else if f7 == 0x20 {
                        Self::Srai(it)
                    } else {
                        return None;
                    }
                },
                0x6 => Self::Ori(IType::decode(i)),
                0x7 => Self::Andi(IType::decode(i)),
                _ => return None,
            },
            0x17 => Self::Auipc(UType::decode(i)),
            0x23 => match f3 {
                0x0 => Self::Sb(SType::decode(i)),
                0x1 => Self::Sh(SType::decode(i)),
                0x2 => Self::Sw(SType::decode(i)),
                _ => return None,
            },
            0x33 => match (f3, f7) {
                (0x0, 0x00) => Self::Add(RType::decode(i)),
                (0x0, 0x20) => Self::Sub(RType::decode(i)),
                (0x1, 0x00) => Self::Sll(RType::decode(i)),
                (0x2, 0x00) => Self::Slt(RType::decode(i)),
                (0x3, 0x00) => Self::Sltu(RType::decode(i)),
                (0x4, 0x00) => Self::Xor(RType::decode(i)),
                (0x5, 0x00) => Self::Srl(RType::decode(i)),
                (0x5, 0x20) => Self::Sra(RType::decode(i)),
                (0x6, 0x00) => Self::Or(RType::decode(i)),
                (0x7, 0x00) => Self::And(RType::decode(i)),
                _ => return None,
            },
            0x37 => Self::Lui(UType::decode(i)),
            0x63 => match f3 {
                0x0 => Self::Beq(BType::decode(i)),
                0x1 => Self::Bne(BType::decode(i)),
                0x4 => Self::Blt(BType::decode(i)),
                0x5 => Self::Bge(BType::decode(i)),
                0x6 => Self::Bltu(BType::decode(i)),
                0x7 => Self::Bgeu(BType::decode(i)),
                _ => return None,
            },
            0x67 => match f3 {
                0x0 => Self::Jalr(IType::decode(i)),
                _ => {
                    return None;
                },
            },
            0x6F => Self::Jal(JType::decode(i)),
            0x73 => match f3 {
                0x0 => {
                    let it = IType::decode(i);
                    let c = ubits(i, 31, 20);
                    match c {
                        0x000 => Self::Ecall(it),
                        0x001 => Self::Ebreak(it),
                        0x002 => Self::Uret(it),
                        0x102 => Self::Sret(it),
                        0x105 => Self::Wfi(it),
                        0x302 => Self::Mret(it),
                        _ => return None,
                    }
                },
                0x1 => Self::Csrrw(IType::decode(i)),
                0x2 => Self::Csrrs(IType::decode(i)),
                0x3 => Self::Csrrc(IType::decode(i)),
                0x5 => Self::Csrrwi(IType::decode(i)),
                0x6 => Self::Csrrsi(IType::decode(i)),
                0x7 => Self::Csrrci(IType::decode(i)),
                _ => return None,
            },
            _ => return None,
        };

        Some(instr)
    }
}

/// The register fields of every format are 5 bits wide, so each decoded instruction names
/// only the 32 registers.
pub proof fn lemma_decode_wf(i: u32)
    ensures
        decode_spec(i) matches Some(ins) ==> ins.wf(),
{
    vstd::arithmetic::power2::lemma2_to64();
    crate::bits::lemma_field_bound(i, 11, 7);
    crate::bits::lemma_field_bound(i, 19, 15);
    crate::bits::lemma_field_bound(i, 24, 20);
}

/// I- and S-type offsets lie in [-2048, 2047].
pub proof fn lemma_imm12_range(i: u32)
    ensures
        -2048 <= itype_of(i).imm < 2048,
        -2048 <= stype_of(i).imm < 2048,
{
    vstd::arithmetic::power2::lemma2_to64();
    crate::bits::lemma_field_bound(i, 31, 25);
    crate::bits::lemma_field_bound(i, 11, 7);
    crate::bits::lemma_sign_extend_range(field(i, 31, 20), 12);
    crate::bits::lemma_sign_extend_range(field(i, 31, 25) * 32 + field(i, 11, 7), 12);
}

/// Branch offsets are even and lie in [-4096, 4094].
pub proof fn lemma_branch_offset(i: u32)
    ensures
        -4096 <= btype_of(i).imm < 4096,
        btype_of(i).imm % 2 == 0,
{
    vstd::arithmetic::power2::lemma2_to64();
    crate::bits::lemma_field_bound(i, 31, 31);
    crate::bits::lemma_field_bound(i, 7, 7);
    crate::bits::lemma_field_bound(i, 30, 25);
    crate::bits::lemma_field_bound(i, 11, 8);
    let v = field(i, 31, 31) * 4096 + field(i, 7, 7) * 2048 + field(i, 30, 25) * 32 + field(i, 11, 8) * 2;
    assert(v < 8192);
    assert(v % 8192 == v);
    crate::bits::lemma_sign_extend_range(v, 13);
}

/// Jump offsets are even and lie in [-2^20, 2^20 - 2].
pub proof fn lemma_jump_offset(i: u32)
    ensures
        -1048576 <= jtype_of(i).imm < 1048576,
        jtype_of(i).imm % 2 == 0,
{
    vstd::arithmetic::power2::lemma2_to64();
    crate::bits::lemma_field_bound(i, 31, 31);
    crate::bits::lemma_field_bound(i, 19, 12);
    crate::bits::lemma_field_bound(i, 20, 20);
    crate::bits::lemma_field_bound(i, 30, 21);
    let v = field(i, 31, 31) * 1048576 + field(i, 19, 12) * 4096 + field(i, 20, 20) * 2048
        + field(i, 30, 21) * 2;
    assert(v < 2097152);
    assert(v % 2097152 == v);
    crate::bits::lemma_sign_extend_range(v, 21);
}

/// Upper immediates have their low twelve bits clear.
pub proof fn lemma_upper_immediate(i: u32)
    ensures
        utype_of(i).imm % 4096 == 0,
{
    vstd::arithmetic::power2::lemma2_to64();
    crate::bits::lemma_field_bound(i, 31, 12);
    let v = field(i, 31, 12) * 4096;
    assert(v < 0x1_0000_0000);
    assert(v % 0x1_0000_0000 == v);
    crate::bits::lemma_sign_extend_range(v, 32);
}

} // verus!
