use vstd::prelude::*;
use crate::hart::{
    HartState, exec_spec, exec_with_bus, wrap32, signed, pc_relative, csr_addr, step_with_bus,
    mem_access_spec, MCAUSE, MEPC, MTVAL, MTVEC,
};
use crate::bus::Bus;
use crate::instruction::{
    Instruction, RType, IType, SType, BType, UType, JType, decode_spec, itype_of, stype_of, btype_of,
    utype_of, jtype_of,
};
use crate::bits::{field, sign_extend};

verus! {

/// The register that `instr` writes, read back after executing it from `s`.
pub open spec fn result_of(s: HartState, instr: Instruction, rd: usize) -> u32 {
    exec_spec(s, instr, 0).reg(rd as int)
}

/// Register-register ALU instructions write only `rd`: pc, mode, the CSRs and every other
/// register are left as they were.
#[verifier::spinoff_prover]
pub proof fn lemma_alu_frame(s: HartState, r: RType, q: int)
    requires
        s.wf(),
        r.wf(),
        0 <= q < 32,
        q != r.rd,
    ensures
        ({
            let ops = seq![
                Instruction::Add(r), Instruction::Sub(r), Instruction::Xor(r), Instruction::Or(r),
                Instruction::And(r), Instruction::Sll(r), Instruction::Srl(r), Instruction::Sra(r),
                Instruction::Slt(r), Instruction::Sltu(r)
            ];
            forall|k: int|
                0 <= k < ops.len() ==> {
                    let t = #[trigger] exec_spec(s, ops[k], 0);
                    &&& t.pc == s.pc
                    &&& t.mode == s.mode
                    &&& t.csrs == s.csrs
                    &&& t.reg(q) == s.reg(q)
                    &&& t.wf()
                }
        }),
{
}

/// `add` computes the sum modulo 2^32.
#[verifier::spinoff_prover]
pub proof fn lemma_add_is_sum(s: HartState, r: RType)
    requires
        s.wf(),
        r.wf(),
        r.rd != 0,
    ensures
        result_of(s, Instruction::Add(r), r.rd) as int == (s.reg(r.rs1 as int) + s.reg(
            r.rs2 as int,
        )) % 0x1_0000_0000,
{
}

/// `sub` undoes addition: adding `x[rs2]` back to the difference gives `x[rs1]` (mod 2^32).
#[verifier::spinoff_prover]
pub proof fn lemma_sub_undoes_add(s: HartState, r: RType)
    requires
        s.wf(),
        r.wf(),
        r.rd != 0,
    ensures
        (result_of(s, Instruction::Sub(r), r.rd) + s.reg(r.rs2 as int)) % 0x1_0000_0000 == s.reg(
            r.rs1 as int,
        ),
{
}

/// `xor` is undone by xor with either operand.
#[verifier::spinoff_prover]
pub proof fn lemma_xor_cancels(s: HartState, r: RType)
    requires
        s.wf(),
        r.wf(),
        r.rd != 0,
    ensures
        result_of(s, Instruction::Xor(r), r.rd) ^ s.reg(r.rs2 as int) == s.reg(r.rs1 as int),
        result_of(s, Instruction::Xor(r), r.rd) ^ s.reg(r.rs1 as int) == s.reg(r.rs2 as int),
{
    let x = s.reg(r.rs1 as int);
    let y = s.reg(r.rs2 as int);
    let z = result_of(s, Instruction::Xor(r), r.rd);
    assert(z ^ y == x && z ^ x == y) by (bit_vector)
        requires
            z == x ^ y,
    ;
}

/// `or` sets exactly the bits set in either operand.
#[verifier::spinoff_prover]
pub proof fn lemma_or_bits(s: HartState, r: RType)
    requires
        s.wf(),
        r.wf(),
        r.rd != 0,
    ensures
        ({
            let x = s.reg(r.rs1 as int);
            let y = s.reg(r.rs2 as int);
            let z = result_of(s, Instruction::Or(r), r.rd);
            &&& z & x == x
            &&& z & y == y
            &&& z & !x & !y == 0
        }),
{
    let x = s.reg(r.rs1 as int);
    let y = s.reg(r.rs2 as int);
    let z = result_of(s, Instruction::Or(r), r.rd);
    assert(z & x == x && z & y == y && z & !x & !y == 0) by (bit_vector)
        requires
            z == x | y,
    ;
}

/// `and` keeps exactly the bits set in both operands.
#[verifier::spinoff_prover]
pub proof fn lemma_and_bits(s: HartState, r: RType)
    requires
        s.wf(),
        r.wf(),
        r.rd != 0,
    ensures
        ({
            let x = s.reg(r.rs1 as int);
            let y = s.reg(r.rs2 as int);
            let z = result_of(s, Instruction::And(r), r.rd);
            &&& z & !x == 0
            &&& z & !y == 0
            &&& x & y & !z == 0
        }),
{
    let x = s.reg(r.rs1 as int);
    let y = s.reg(r.rs2 as int);
    let z = result_of(s, Instruction::And(r), r.rd);
    assert(z & !x == 0 && z & !y == 0 && x & y & !z == 0) by (bit_vector)
        requires
            z == x & y,
    ;
}

/// `srl` divides by two to the power of the low five bits of `x[rs2]`.
#[verifier::spinoff_prover]
pub proof fn lemma_srl_divides(s: HartState, r: RType)
    requires
        s.wf(),
        r.wf(),
        r.rd != 0,
    ensures
        result_of(s, Instruction::Srl(r), r.rd) as nat == s.reg(r.rs1 as int) as nat
            / vstd::arithmetic::power2::pow2((s.reg(r.rs2 as int) % 32) as nat),
{
    vstd::bits::lemma_u32_shr_is_div(s.reg(r.rs1 as int), s.reg(r.rs2 as int) % 32);
}

/// Signed and unsigned set-less-than: each result is 0 or 1, a value is never less than
/// itself, and exactly one of `x < y`, `y < x` and `x == y` holds.
#[verifier::spinoff_prover]
pub proof fn lemma_set_less_than_trichotomy(s: HartState, r: RType)
    requires
        s.wf(),
        r.wf(),
        r.rd != 0,
    ensures
        ({
            let swapped = RType { rd: r.rd, rs1: r.rs2, rs2: r.rs1 };
            let x = s.reg(r.rs1 as int);
            let y = s.reg(r.rs2 as int);
            let lt = result_of(s, Instruction::Slt(r), r.rd);
            let gt = result_of(s, Instruction::Slt(swapped), r.rd);
            let ltu = result_of(s, Instruction::Sltu(r), r.rd);
            let gtu = result_of(s, Instruction::Sltu(swapped), r.rd);
            &&& lt <= 1 && gt <= 1 && ltu <= 1 && gtu <= 1
            &&& lt + gt + (if x == y { 1int } else { 0int }) == 1
            &&& ltu + gtu + (if x == y { 1int } else { 0int }) == 1
            &&& ltu == (if x < y { 1u32 } else { 0u32 })
            &&& (x < 0x8000_0000) == (y < 0x8000_0000) ==> lt == ltu
            &&& (x >= 0x8000_0000 && y < 0x8000_0000) ==> lt == 1
        }),
{
}

/// A field read through `field` is the shift-and-mask of the word.
proof fn lemma_field_mask(v: u32, hi: u32, lo: u32)
    requires
        lo <= hi < 32,
        hi - lo < 31,
    ensures
        field(v, hi as nat, lo as nat) == (v >> lo) & (vstd::bits::low_bits_mask(
            (hi + 1 - lo) as nat,
        ) as u32),
{
    let w: u32 = (hi - lo + 1) as u32;
    vstd::bits::lemma_u32_shr_is_div(v, lo);
    vstd::bits::lemma_u32_pow2_no_overflow(w as nat);
    vstd::bits::lemma_u32_low_bits_mask_is_mod(v >> lo, w as nat);
}

/// The standard I-type encoding: imm[11:0] in bits 31:20, rs1 in 19:15, funct3 in 14:12, rd in
/// 11:7 and the opcode in 6:0.
pub open spec fn encode_i(op: u32, f3: u32, rd: u32, rs1: u32, imm: i32) -> u32 {
    (((imm as u32) & 0xFFF) << 20u32) | (rs1 << 15u32) | (f3 << 12u32) | (rd << 7u32) | op
}

/// The fields of an I-type encoding read back as encoded.
proof fn lemma_encode_i_fields(op: u32, f3: u32, rd: u32, rs1: u32, imm: i32)
    requires
        op < 128,
        f3 < 8,
        rd < 32,
        rs1 < 32,
        -2048 <= imm < 2048,
    ensures
        ({
            let w = encode_i(op, f3, rd, rs1, imm);
            &&& field(w, 6, 0) == op
            &&& field(w, 14, 12) == f3
            &&& field(w, 11, 7) == rd
            &&& field(w, 19, 15) == rs1
            &&& field(w, 31, 25) == ((imm as u32) & 0xFFF) >> 5u32
            &&& field(w, 31, 20) == ((imm as u32) & 0xFFF)
            &&& itype_of(w) == IType { rd: rd as usize, rs1: rs1 as usize, imm }
            &&& (op != 0 ==> w != 0)
            &&& (op != 0x7F ==> w != 0x0FFF_FFFF)
        }),
{
    let w = encode_i(op, f3, rd, rs1, imm);
    vstd::bits::lemma_low_bits_mask_values();
    lemma_field_mask(w, 6, 0);
    lemma_field_mask(w, 14, 12);
    lemma_field_mask(w, 11, 7);
    lemma_field_mask(w, 19, 15);
    lemma_field_mask(w, 31, 25);
    lemma_field_mask(w, 31, 20);
    let u: u32 = (imm as u32) & 0xFFF;
    assert((w >> 0u32) & 0x7F == op && (w >> 12u32) & 0x7 == f3 && (w >> 7u32) & 0x1F == rd
        && (w >> 15u32) & 0x1F == rs1 && (w >> 25u32) & 0x7F == u >> 5u32 && (w >> 20u32)
        & 0xFFF == u && (op != 0 ==> w != 0) && (op != 0x7F ==> w != 0x0FFF_FFFF))
        by (bit_vector)
        requires
            op < 128,
            f3 < 8,
            rd < 32,
            rs1 < 32,
            u == (imm as u32) & 0xFFF,
            w == (u << 20u32) | (rs1 << 15u32) | (f3 << 12u32) | (rd << 7u32) | op,
    ;
    assert(u as i64 == if imm < 0 { (imm as i64 + 4096) as i64 } else { imm as i64 })
        by (bit_vector)
        requires
            -2048 <= imm < 2048,
            u == (imm as u32) & 0xFFF,
    ;
    vstd::arithmetic::power2::lemma2_to64();
    assert(sign_extend(u as nat, 12) == imm);
}

/// Register-immediate words decode by funct3 as the RV32I table names them: 0 `addi`, 1
/// `slli`, 2 `slti`, 3 `sltiu`, 4 `xori`, 6 `ori`, 7 `andi`, with the encoded operands.
#[verifier::spinoff_prover]
pub proof fn lemma_decode_op_imm(rd: u32, rs1: u32, imm: i32)
    requires
        rd < 32,
        rs1 < 32,
        -2048 <= imm < 2048,
    ensures
        ({
            let it = IType { rd: rd as usize, rs1: rs1 as usize, imm };
            &&& decode_spec(encode_i(0x13, 0, rd, rs1, imm)) == Some(Instruction::Addi(it))
            &&& decode_spec(encode_i(0x13, 1, rd, rs1, imm)) == Some(Instruction::Slli(it))
            &&& decode_spec(encode_i(0x13, 2, rd, rs1, imm)) == Some(Instruction::Slti(it))
            &&& decode_spec(encode_i(0x13, 3, rd, rs1, imm)) == Some(Instruction::Sltiu(it))
            &&& decode_spec(encode_i(0x13, 4, rd, rs1, imm)) == Some(Instruction::Xori(it))
            &&& decode_spec(encode_i(0x13, 6, rd, rs1, imm)) == Some(Instruction::Ori(it))
            &&& decode_spec(encode_i(0x13, 7, rd, rs1, imm)) == Some(Instruction::Andi(it))
        }),
{
    lemma_encode_i_fields(0x13, 0, rd, rs1, imm);
    lemma_encode_i_fields(0x13, 1, rd, rs1, imm);
    lemma_encode_i_fields(0x13, 2, rd, rs1, imm);
    lemma_encode_i_fields(0x13, 3, rd, rs1, imm);
    lemma_encode_i_fields(0x13, 4, rd, rs1, imm);
    lemma_encode_i_fields(0x13, 6, rd, rs1, imm);
    lemma_encode_i_fields(0x13, 7, rd, rs1, imm);
}

/// Shift-right-immediate words: imm[11:5] = 0 is `srli`, imm[11:5] = 0x20 is `srai`, any other
/// value is no instruction.
#[verifier::spinoff_prover]
pub proof fn lemma_decode_shift_right_imm(rd: u32, rs1: u32, sh: i32, hi: i32)
    requires
        rd < 32,
        rs1 < 32,
        0 <= sh < 32,
        0 <= hi < 64,
    ensures
        decode_spec(encode_i(0x13, 5, rd, rs1, sh)) == Some(
            Instruction::Srli(IType { rd: rd as usize, rs1: rs1 as usize, imm: sh }),
        ),
        decode_spec(encode_i(0x13, 5, rd, rs1, (1024 + sh) as i32)) == Some(
            Instruction::Srai(IType { rd: rd as usize, rs1: rs1 as usize, imm: (1024 + sh) as i32 }),
        ),
        hi != 0 && hi != 0x20 ==> decode_spec(encode_i(0x13, 5, rd, rs1, (hi * 32 + sh) as i32)) is None,
{
    lemma_encode_i_fields(0x13, 5, rd, rs1, sh);
    lemma_encode_i_fields(0x13, 5, rd, rs1, (1024 + sh) as i32);
    let u1: u32 = (sh as u32) & 0xFFF;
    let u2: u32 = ((1024 + sh) as u32) & 0xFFF;
    assert(u1 >> 5u32 == 0 && u2 >> 5u32 == 0x20) by (bit_vector)
        requires
            0 <= sh < 32,
            u1 == (sh as u32) & 0xFFF,
            u2 == ((1024 + sh) as u32) & 0xFFF,
    ;
    if hi != 0 && hi != 0x20 {
        let imm: i32 = (hi * 32 + sh) as i32;
        if hi < 64 {
            if imm < 2048 {
                lemma_encode_i_fields(0x13, 5, rd, rs1, imm);
                let u3: u32 = (imm as u32) & 0xFFF;
                assert(u3 >> 5u32 == hi as u32) by (bit_vector)
                    requires
                        0 <= sh < 32,
                        0 <= hi < 64,
                        imm == hi * 32 + sh,
                        u3 == (imm as u32) & 0xFFF,
                ;
            }
        }
    }
}

/// Load words decode by funct3: 0 `lb`, 1 `lh`, 2 `lw`, 4 `lbu`, 5 `lhu`; funct3 3, 6 and 7
/// are no instruction. `jalr` is opcode 0x67 with funct3 0 only.
#[verifier::spinoff_prover]
pub proof fn lemma_decode_loads_and_jalr(rd: u32, rs1: u32, imm: i32, f3: u32)
    requires
        rd < 32,
        rs1 < 32,
        -2048 <= imm < 2048,
        f3 < 8,
    ensures
        ({
            let it = IType { rd: rd as usize, rs1: rs1 as usize, imm };
            &&& decode_spec(encode_i(0x03, 0, rd, rs1, imm)) == Some(Instruction::Lb(it))
            &&& decode_spec(encode_i(0x03, 1, rd, rs1, imm)) == Some(Instruction::Lh(it))
            &&& decode_spec(encode_i(0x03, 2, rd, rs1, imm)) == Some(Instruction::Lw(it))
            &&& decode_spec(encode_i(0x03, 4, rd, rs1, imm)) == Some(Instruction::Lbu(it))
            &&& decode_spec(encode_i(0x03, 5, rd, rs1, imm)) == Some(Instruction::Lhu(it))
            &&& (f3 == 3 || f3 == 6 || f3 == 7) ==> decode_spec(encode_i(0x03, f3, rd, rs1, imm)) is None
            &&& decode_spec(encode_i(0x67, 0, rd, rs1, imm)) == Some(Instruction::Jalr(it))
            &&& f3 != 0 ==> decode_spec(encode_i(0x67, f3, rd, rs1, imm)) is None
            &&& decode_spec(encode_i(0x0F, f3, rd, rs1, imm)) == Some(Instruction::Fence(it))
        }),
{
    lemma_encode_i_fields(0x03, 0, rd, rs1, imm);
    lemma_encode_i_fields(0x03, 1, rd, rs1, imm);
    lemma_encode_i_fields(0x03, 2, rd, rs1, imm);
    lemma_encode_i_fields(0x03, 4, rd, rs1, imm);
    lemma_encode_i_fields(0x03, 5, rd, rs1, imm);
    lemma_encode_i_fields(0x03, f3, rd, rs1, imm);
    lemma_encode_i_fields(0x67, 0, rd, rs1, imm);
    lemma_encode_i_fields(0x67, f3, rd, rs1, imm);
    lemma_encode_i_fields(0x0F, f3, rd, rs1, imm);
}

/// CSR words (opcode 0x73) decode by funct3: 1 `csrrw`, 2 `csrrs`, 3 `csrrc`, 5 `csrrwi`,
/// 6 `csrrsi`, 7 `csrrci`; funct3 4 is no instruction. The CSR number is bits 31:20.
#[verifier::spinoff_prover]
pub proof fn lemma_decode_csr(rd: u32, rs1: u32, imm: i32)
    requires
        rd < 32,
        rs1 < 32,
        -2048 <= imm < 2048,
    ensures
        ({
            let it = IType { rd: rd as usize, rs1: rs1 as usize, imm };
            &&& decode_spec(encode_i(0x73, 1, rd, rs1, imm)) == Some(Instruction::Csrrw(it))
            &&& decode_spec(encode_i(0x73, 2, rd, rs1, imm)) == Some(Instruction::Csrrs(it))
            &&& decode_spec(encode_i(0x73, 3, rd, rs1, imm)) == Some(Instruction::Csrrc(it))
            &&& decode_spec(encode_i(0x73, 5, rd, rs1, imm)) == Some(Instruction::Csrrwi(it))
            &&& decode_spec(encode_i(0x73, 6, rd, rs1, imm)) == Some(Instruction::Csrrsi(it))
            &&& decode_spec(encode_i(0x73, 7, rd, rs1, imm)) == Some(Instruction::Csrrci(it))
            &&& decode_spec(encode_i(0x73, 4, rd, rs1, imm)) is None
            &&& crate::hart::csr_addr(imm) == field(encode_i(0x73, 1, rd, rs1, imm), 31, 20)
        }),
{
    lemma_encode_i_fields(0x73, 1, rd, rs1, imm);
    lemma_encode_i_fields(0x73, 2, rd, rs1, imm);
    lemma_encode_i_fields(0x73, 3, rd, rs1, imm);
    lemma_encode_i_fields(0x73, 5, rd, rs1, imm);
    lemma_encode_i_fields(0x73, 6, rd, rs1, imm);
    lemma_encode_i_fields(0x73, 7, rd, rs1, imm);
    lemma_encode_i_fields(0x73, 4, rd, rs1, imm);
    let u: u32 = (imm as u32) & 0xFFF;
    assert(u as i64 == if imm < 0 { (imm as i64 + 4096) as i64 } else { imm as i64 })
        by (bit_vector)
        requires
            -2048 <= imm < 2048,
            u == (imm as u32) & 0xFFF,
    ;
}

/// The system instructions with funct3 0 are named by bits 31:20: 0 `ecall`, 1 `ebreak`,
/// 2 `uret`, 0x102 `sret`, 0x105 `wfi`, 0x302 `mret`.
#[verifier::spinoff_prover]
pub proof fn lemma_decode_system(rd: u32, rs1: u32)
    requires
        rd < 32,
        rs1 < 32,
    ensures
        ({
            let it = |imm: i32| IType { rd: rd as usize, rs1: rs1 as usize, imm };
            &&& decode_spec(encode_i(0x73, 0, rd, rs1, 0)) == Some(Instruction::Ecall(it(0)))
            &&& decode_spec(encode_i(0x73, 0, rd, rs1, 1)) == Some(Instruction::Ebreak(it(1)))
            &&& decode_spec(encode_i(0x73, 0, rd, rs1, 2)) == Some(Instruction::Uret(it(2)))
            &&& decode_spec(encode_i(0x73, 0, rd, rs1, 0x102)) == Some(Instruction::Sret(it(0x102)))
            &&& decode_spec(encode_i(0x73, 0, rd, rs1, 0x105)) == Some(Instruction::Wfi(it(0x105)))
            &&& decode_spec(encode_i(0x73, 0, rd, rs1, 0x302)) == Some(Instruction::Mret(it(0x302)))
            &&& decode_spec(encode_i(0x73, 0, rd, rs1, 3)) is None
        }),
{
    lemma_encode_i_fields(0x73, 0, rd, rs1, 0);
    lemma_encode_i_fields(0x73, 0, rd, rs1, 1);
    lemma_encode_i_fields(0x73, 0, rd, rs1, 2);
    lemma_encode_i_fields(0x73, 0, rd, rs1, 0x102);
    lemma_encode_i_fields(0x73, 0, rd, rs1, 0x105);
    lemma_encode_i_fields(0x73, 0, rd, rs1, 0x302);
    lemma_encode_i_fields(0x73, 0, rd, rs1, 3);
    assert(((0i32 as u32) & 0xFFF) == 0 && ((1i32 as u32) & 0xFFF) == 1 && ((2i32 as u32)
        & 0xFFF) == 2 && ((0x102i32 as u32) & 0xFFF) == 0x102 && ((0x105i32 as u32) & 0xFFF)
        == 0x105 && ((0x302i32 as u32) & 0xFFF) == 0x302 && ((3i32 as u32) & 0xFFF) == 3)
        by (bit_vector);
}

/// The standard R-type encoding: funct7 in bits 31:25, rs2 in 24:20, rs1 in 19:15, funct3 in
/// 14:12, rd in 11:7 and the opcode 0x33 in 6:0.
pub open spec fn encode_r(f3: u32, f7: u32, rd: u32, rs1: u32, rs2: u32) -> u32 {
    (f7 << 25u32) | (rs2 << 20u32) | (rs1 << 15u32) | (f3 << 12u32) | (rd << 7u32) | 0x33u32
}

/// The fields of an R-type encoding read back as encoded.
proof fn lemma_encode_r_fields(f3: u32, f7: u32, rd: u32, rs1: u32, rs2: u32)
    requires
        f3 < 8,
        f7 < 128,
        rd < 32,
        rs1 < 32,
        rs2 < 32,
    ensures
        ({
            let w = encode_r(f3, f7, rd, rs1, rs2);
            &&& field(w, 6, 0) == 0x33
            &&& field(w, 14, 12) == f3
            &&& field(w, 31, 25) == f7
            &&& field(w, 11, 7) == rd
            &&& field(w, 19, 15) == rs1
            &&& field(w, 24, 20) == rs2
            &&& w != 0
            &&& w != 0x0FFF_FFFF
        }),
{
    let w = encode_r(f3, f7, rd, rs1, rs2);
    vstd::bits::lemma_low_bits_mask_values();
    lemma_field_mask(w, 6, 0);
    lemma_field_mask(w, 14, 12);
    lemma_field_mask(w, 31, 25);
    lemma_field_mask(w, 11, 7);
    lemma_field_mask(w, 19, 15);
    lemma_field_mask(w, 24, 20);
    assert((w >> 0u32) & 0x7F == 0x33 && (w >> 12u32) & 0x7 == f3 && (w >> 25u32) & 0x7F == f7
        && (w >> 7u32) & 0x1F == rd && (w >> 15u32) & 0x1F == rs1 && (w >> 20u32) & 0x1F == rs2
        && w != 0 && w != 0x0FFF_FFFF) by (bit_vector)
        requires
            f3 < 8,
            f7 < 128,
            rd < 32,
            rs1 < 32,
            rs2 < 32,
            w == (f7 << 25u32) | (rs2 << 20u32) | (rs1 << 15u32) | (f3 << 12u32) | (rd << 7u32)
                | 0x33u32,
    ;
}

/// Register-register words decode by funct3 and funct7 as the RV32I table names them; any other
/// funct7 with a funct3 is no instruction.
#[verifier::spinoff_prover]
pub proof fn lemma_decode_op(rd: u32, rs1: u32, rs2: u32, f3: u32, f7: u32)
    requires
        rd < 32,
        rs1 < 32,
        rs2 < 32,
        f3 < 8,
        f7 < 128,
    ensures
        ({
            let r = RType { rd: rd as usize, rs1: rs1 as usize, rs2: rs2 as usize };
            &&& decode_spec(encode_r(0, 0, rd, rs1, rs2)) == Some(Instruction::Add(r))
            &&& decode_spec(encode_r(0, 0x20, rd, rs1, rs2)) == Some(Instruction::Sub(r))
            &&& decode_spec(encode_r(1, 0, rd, rs1, rs2)) == Some(Instruction::Sll(r))
            &&& decode_spec(encode_r(2, 0, rd, rs1, rs2)) == Some(Instruction::Slt(r))
            &&& decode_spec(encode_r(3, 0, rd, rs1, rs2)) == Some(Instruction::Sltu(r))
            &&& decode_spec(encode_r(4, 0, rd, rs1, rs2)) == Some(Instruction::Xor(r))
            &&& decode_spec(encode_r(5, 0, rd, rs1, rs2)) == Some(Instruction::Srl(r))
            &&& decode_spec(encode_r(5, 0x20, rd, rs1, rs2)) == Some(Instruction::Sra(r))
            &&& decode_spec(encode_r(6, 0, rd, rs1, rs2)) == Some(Instruction::Or(r))
            &&& decode_spec(encode_r(7, 0, rd, rs1, rs2)) == Some(Instruction::And(r))
            &&& (f7 != 0 && !(f7 == 0x20 && (f3 == 0 || f3 == 5))) ==> decode_spec(
                encode_r(f3, f7, rd, rs1, rs2),
            ) is None
        }),
{
    lemma_encode_r_fields(0, 0, rd, rs1, rs2);
    lemma_encode_r_fields(0, 0x20, rd, rs1, rs2);
    lemma_encode_r_fields(1, 0, rd, rs1, rs2);
    lemma_encode_r_fields(2, 0, rd, rs1, rs2);
    lemma_encode_r_fields(3, 0, rd, rs1, rs2);
    lemma_encode_r_fields(4, 0, rd, rs1, rs2);
    lemma_encode_r_fields(5, 0, rd, rs1, rs2);
    lemma_encode_r_fields(5, 0x20, rd, rs1, rs2);
    lemma_encode_r_fields(6, 0, rd, rs1, rs2);
    lemma_encode_r_fields(7, 0, rd, rs1, rs2);
    lemma_encode_r_fields(f3, f7, rd, rs1, rs2);
}

/// The standard S-type encoding: imm[11:5] in bits 31:25, rs2 in 24:20, rs1 in 19:15, funct3
/// in 14:12, imm[4:0] in 11:7 and the opcode 0x23 in 6:0.
pub open spec fn encode_s(f3: u32, rs1: u32, rs2: u32, imm: i32) -> u32 {
    let u = (imm as u32) & 0xFFF;
    ((u >> 5u32) << 25u32) | (rs2 << 20u32) | (rs1 << 15u32) | (f3 << 12u32) | ((u & 0x1F)
        << 7u32) | 0x23u32
}

proof fn lemma_encode_s_fields(f3: u32, rs1: u32, rs2: u32, imm: i32)
    requires
        f3 < 8,
        rs1 < 32,
        rs2 < 32,
        -2048 <= imm < 2048,
    ensures
        ({
            let w = encode_s(f3, rs1, rs2, imm);
            &&& field(w, 6, 0) == 0x23
            &&& field(w, 14, 12) == f3
            &&& stype_of(w) == SType { rs1: rs1 as usize, rs2: rs2 as usize, imm }
            &&& w != 0
            &&& w != 0x0FFF_FFFF
        }),
{
    let w = encode_s(f3, rs1, rs2, imm);
    let u: u32 = (imm as u32) & 0xFFF;
    assert(u < 4096) by (bit_vector)
        requires
            u == (imm as u32) & 0xFFF,
    ;
    vstd::bits::lemma_low_bits_mask_values();
    lemma_field_mask(w, 6, 0);
    lemma_field_mask(w, 14, 12);
    lemma_field_mask(w, 31, 25);
    lemma_field_mask(w, 11, 7);
    lemma_field_mask(w, 19, 15);
    lemma_field_mask(w, 24, 20);
    assert((w >> 0u32) & 0x7F == 0x23 && (w >> 12u32) & 0x7 == f3 && ((w >> 25u32) & 0x7F) * 32
        + ((w >> 7u32) & 0x1F) == u && (w >> 15u32) & 0x1F == rs1 && (w >> 20u32) & 0x1F == rs2
        && w != 0 && w != 0x0FFF_FFFF) by (bit_vector)
        requires
            f3 < 8,
            rs1 < 32,
            rs2 < 32,
            u < 4096,
            w == ((u >> 5u32) << 25u32) | (rs2 << 20u32) | (rs1 << 15u32) | (f3 << 12u32) | ((u
                & 0x1F) << 7u32) | 0x23u32,
    ;
    assert(u as i64 == if imm < 0 { (imm as i64 + 4096) as i64 } else { imm as i64 })
        by (bit_vector)
        requires
            -2048 <= imm < 2048,
            u == (imm as u32) & 0xFFF,
    ;
    vstd::arithmetic::power2::lemma2_to64();
    assert(sign_extend(u as nat, 12) == imm);
}

/// Store words decode by funct3: 0 `sb`, 1 `sh`, 2 `sw`; funct3 3 to 7 are no instruction.
#[verifier::spinoff_prover]
pub proof fn lemma_decode_store(rs1: u32, rs2: u32, imm: i32, f3: u32)
    requires
        rs1 < 32,
        rs2 < 32,
        -2048 <= imm < 2048,
        3 <= f3 < 8,
    ensures
        ({
            let st = SType { rs1: rs1 as usize, rs2: rs2 as usize, imm };
            &&& decode_spec(encode_s(0, rs1, rs2, imm)) == Some(Instruction::Sb(st))
            &&& decode_spec(encode_s(1, rs1, rs2, imm)) == Some(Instruction::Sh(st))
            &&& decode_spec(encode_s(2, rs1, rs2, imm)) == Some(Instruction::Sw(st))
            &&& decode_spec(encode_s(f3, rs1, rs2, imm)) is None
        }),
{
    lemma_encode_s_fields(0, rs1, rs2, imm);
    lemma_encode_s_fields(1, rs1, rs2, imm);
    lemma_encode_s_fields(2, rs1, rs2, imm);
    lemma_encode_s_fields(f3, rs1, rs2, imm);
}

/// The standard B-type encoding: imm[12] in bit 31, imm[10:5] in 30:25, rs2 in 24:20, rs1 in
/// 19:15, funct3 in 14:12, imm[4:1] in 11:8, imm[11] in bit 7 and the opcode 0x63 in 6:0.
pub open spec fn encode_b(f3: u32, rs1: u32, rs2: u32, imm: i32) -> u32 {
    let u = (imm as u32) & 0x1FFF;
    ((u >> 12u32) << 31u32) | (((u >> 5u32) & 0x3F) << 25u32) | (rs2 << 20u32) | (rs1 << 15u32)
        | (f3 << 12u32) | (((u >> 1u32) & 0xF) << 8u32) | (((u >> 11u32) & 1) << 7u32) | 0x63u32
}

proof fn lemma_encode_b_fields(f3: u32, rs1: u32, rs2: u32, imm: i32)
    requires
        f3 < 8,
        rs1 < 32,
        rs2 < 32,
        -4096 <= imm < 4096,
        imm % 2 == 0,
    ensures
        ({
            let w = encode_b(f3, rs1, rs2, imm);
            &&& field(w, 6, 0) == 0x63
            &&& field(w, 14, 12) == f3
            &&& btype_of(w) == BType { rs1: rs1 as usize, rs2: rs2 as usize, imm }
            &&& w != 0
            &&& w != 0x0FFF_FFFF
        }),
{
    let w = encode_b(f3, rs1, rs2, imm);
    let u: u32 = (imm as u32) & 0x1FFF;
    assert(u < 8192) by (bit_vector)
        requires
            u == (imm as u32) & 0x1FFF,
    ;
    vstd::bits::lemma_low_bits_mask_values();
    lemma_field_mask(w, 6, 0);
    lemma_field_mask(w, 14, 12);
    lemma_field_mask(w, 31, 31);
    lemma_field_mask(w, 7, 7);
    lemma_field_mask(w, 30, 25);
    lemma_field_mask(w, 11, 8);
    lemma_field_mask(w, 19, 15);
    lemma_field_mask(w, 24, 20);
    assert(u % 2 == 0) by (bit_vector)
        requires
            imm % 2 == 0,
            u == (imm as u32) & 0x1FFF,
    ;
    assert((w >> 0u32) & 0x7F == 0x63 && (w >> 12u32) & 0x7 == f3 && ((w >> 31u32) & 1) * 4096
        + ((w >> 7u32) & 1) * 2048 + ((w >> 25u32) & 0x3F) * 32 + ((w >> 8u32) & 0xF) * 2 == u
        && (w >> 15u32) & 0x1F == rs1 && (w >> 20u32) & 0x1F == rs2 && w != 0 && w
        != 0x0FFF_FFFF) by (bit_vector)
        requires
            f3 < 8,
            rs1 < 32,
            rs2 < 32,
            u < 8192,
            u % 2 == 0,
            w == ((u >> 12u32) << 31u32) | (((u >> 5u32) & 0x3F) << 25u32) | (rs2 << 20u32) | (
            rs1 << 15u32) | (f3 << 12u32) | (((u >> 1u32) & 0xF) << 8u32) | (((u >> 11u32) & 1)
                << 7u32) | 0x63u32,
    ;
    assert(u as i64 == if imm < 0 { (imm as i64 + 8192) as i64 } else { imm as i64 })
        by (bit_vector)
        requires
            -4096 <= imm < 4096,
            u == (imm as u32) & 0x1FFF,
    ;
    vstd::arithmetic::power2::lemma2_to64();
    assert(sign_extend(u as nat, 13) == imm);
}

/// Branch words decode by funct3: 0 `beq`, 1 `bne`, 4 `blt`, 5 `bge`, 6 `bltu`, 7 `bgeu`;
/// funct3 2 and 3 are no instruction.
#[verifier::spinoff_prover]
pub proof fn lemma_decode_branch(rs1: u32, rs2: u32, imm: i32, f3: u32)
    requires
        rs1 < 32,
        rs2 < 32,
        -4096 <= imm < 4096,
        imm % 2 == 0,
        f3 == 2 || f3 == 3,
    ensures
        ({
            let b = BType { rs1: rs1 as usize, rs2: rs2 as usize, imm };
            &&& decode_spec(encode_b(0, rs1, rs2, imm)) == Some(Instruction::Beq(b))
            &&& decode_spec(encode_b(1, rs1, rs2, imm)) == Some(Instruction::Bne(b))
            &&& decode_spec(encode_b(4, rs1, rs2, imm)) == Some(Instruction::Blt(b))
            &&& decode_spec(encode_b(5, rs1, rs2, imm)) == Some(Instruction::Bge(b))
            &&& decode_spec(encode_b(6, rs1, rs2, imm)) == Some(Instruction::Bltu(b))
            &&& decode_spec(encode_b(7, rs1, rs2, imm)) == Some(Instruction::Bgeu(b))
            &&& decode_spec(encode_b(f3, rs1, rs2, imm)) is None
        }),
{
    lemma_encode_b_fields(0, rs1, rs2, imm);
    lemma_encode_b_fields(1, rs1, rs2, imm);
    lemma_encode_b_fields(4, rs1, rs2, imm);
    lemma_encode_b_fields(5, rs1, rs2, imm);
    lemma_encode_b_fields(6, rs1, rs2, imm);
    lemma_encode_b_fields(7, rs1, rs2, imm);
    lemma_encode_b_fields(f3, rs1, rs2, imm);
}

/// The standard U-type encoding: imm[31:12] in bits 31:12, rd in 11:7 and the opcode in 6:0.
pub open spec fn encode_u(op: u32, rd: u32, imm: i32) -> u32 {
    ((imm as u32) & 0xFFFF_F000) | (rd << 7u32) | op
}

/// The standard J-type encoding: imm[20] in bit 31, imm[10:1] in 30:21, imm[11] in bit 20,
/// imm[19:12] in 19:12, rd in 11:7 and the opcode 0x6F in 6:0.
pub open spec fn encode_j(rd: u32, imm: i32) -> u32 {
    let u = (imm as u32) & 0x1F_FFFF;
    ((u >> 20u32) << 31u32) | (((u >> 1u32) & 0x3FF) << 21u32) | (((u >> 11u32) & 1) << 20u32)
        | (((u >> 12u32) & 0xFF) << 12u32) | (rd << 7u32) | 0x6Fu32
}

/// `lui` (0x37) and `auipc` (0x17) words decode with the encoded upper immediate.
#[verifier::spinoff_prover]
pub proof fn lemma_decode_upper(rd: u32, imm: i32)
    requires
        rd < 32,
        imm % 4096 == 0,
    ensures
        decode_spec(encode_u(0x37, rd, imm)) == Some(
            Instruction::Lui(UType { rd: rd as usize, imm }),
        ),
        decode_spec(encode_u(0x17, rd, imm)) == Some(
            Instruction::Auipc(UType { rd: rd as usize, imm }),
        ),
{
    lemma_encode_u_fields(0x37, rd, imm);
    lemma_encode_u_fields(0x17, rd, imm);
}

proof fn lemma_encode_u_fields(op: u32, rd: u32, imm: i32)
    requires
        op == 0x37 || op == 0x17,
        rd < 32,
        imm % 4096 == 0,
    ensures
        ({
            let w = encode_u(op, rd, imm);
            &&& field(w, 6, 0) == op
            &&& utype_of(w) == UType { rd: rd as usize, imm }
            &&& w != 0
            &&& w != 0x0FFF_FFFF
        }),
{
    let w = encode_u(op, rd, imm);
    let u: u32 = imm as u32;
    vstd::bits::lemma_low_bits_mask_values();
    lemma_field_mask(w, 6, 0);
    lemma_field_mask(w, 11, 7);
    lemma_field_mask(w, 31, 12);
    assert(u & 0xFFF == 0) by (bit_vector)
        requires
            imm % 4096 == 0,
            u == imm as u32,
    ;
    assert((w >> 0u32) & 0x7F == op && (w >> 7u32) & 0x1F == rd && ((w >> 12u32) & 0xFFFFF)
        * 4096 == u && w != 0 && w != 0x0FFF_FFFF) by (bit_vector)
        requires
            op == 0x37 || op == 0x17,
            rd < 32,
            u & 0xFFF == 0,
            w == (u & 0xFFFF_F000) | (rd << 7u32) | op,
    ;
    assert(u as i64 == if imm < 0 { (imm as i64 + 0x1_0000_0000) as i64 } else { imm as i64 })
        by (bit_vector)
        requires
            u == imm as u32,
    ;
    vstd::arithmetic::power2::lemma2_to64();
    assert(sign_extend(u as nat, 32) == imm);
}

/// `jal` words (0x6F) decode with the encoded offset.
#[verifier::spinoff_prover]
pub proof fn lemma_decode_jal(rd: u32, imm: i32)
    requires
        rd < 32,
        -0x10_0000 <= imm < 0x10_0000,
        imm % 2 == 0,
    ensures
        decode_spec(encode_j(rd, imm)) == Some(Instruction::Jal(JType { rd: rd as usize, imm })),
{
    let w = encode_j(rd, imm);
    let u: u32 = (imm as u32) & 0x1F_FFFF;
    assert(u < 0x20_0000 && u % 2 == 0) by (bit_vector)
        requires
            imm % 2 == 0,
            u == (imm as u32) & 0x1F_FFFF,
    ;
    vstd::bits::lemma_low_bits_mask_values();
    lemma_field_mask(w, 6, 0);
    lemma_field_mask(w, 11, 7);
    lemma_field_mask(w, 31, 31);
    lemma_field_mask(w, 19, 12);
    lemma_field_mask(w, 20, 20);
    lemma_field_mask(w, 30, 21);
    assert((w >> 0u32) & 0x7F == 0x6F && (w >> 7u32) & 0x1F == rd && ((w >> 31u32) & 1)
        * 0x10_0000 + ((w >> 12u32) & 0xFF) * 4096 + ((w >> 20u32) & 1) * 2048 + ((w >> 21u32)
        & 0x3FF) * 2 == u && w != 0 && w != 0x0FFF_FFFF) by (bit_vector)
        requires
            rd < 32,
            u < 0x20_0000,
            u % 2 == 0,
            w == ((u >> 20u32) << 31u32) | (((u >> 1u32) & 0x3FF) << 21u32) | (((u >> 11u32) & 1)
                << 20u32) | (((u >> 12u32) & 0xFF) << 12u32) | (rd << 7u32) | 0x6Fu32,
    ;
    assert(u as i64 == if imm < 0 { (imm as i64 + 0x20_0000) as i64 } else { imm as i64 })
        by (bit_vector)
        requires
            -0x10_0000 <= imm < 0x10_0000,
            u == (imm as u32) & 0x1F_FFFF,
    ;
    vstd::arithmetic::power2::lemma2_to64();
    assert(sign_extend(u as nat, 21) == imm);
    assert(jtype_of(w) == JType { rd: rd as usize, imm });
}

/// Adding the two's-complement encoding of `imm` with wrap-around is adding `imm` modulo 2^32.
#[verifier::spinoff_prover]
pub proof fn lemma_wrapping_add_imm(a: u32, imm: i32)
    ensures
        a.wrapping_add(wrap32(imm as int)) as int == (a + imm) % 0x1_0000_0000,
{
}

/// A pc-relative target is the address of the current instruction plus the offset, modulo
/// 2^32 (pc already points past the instruction).
#[verifier::spinoff_prover]
pub proof fn lemma_pc_relative(s: HartState, imm: i32)
    ensures
        pc_relative(s, imm) as int == (s.pc - 4 + imm) % 0x1_0000_0000,
{
}

/// `addi`, `slti` and `sltiu` compute what their register-register forms compute when the second operand
/// register holds the (sign-extended) immediate.
#[verifier::spinoff_prover]
pub proof fn lemma_immediate_arith_agree(s: HartState, it: IType, rs2: usize)
    requires
        s.wf(),
        it.wf(),
        0 < rs2 < 32,
        s.reg(rs2 as int) == wrap32(it.imm as int),
    ensures
        ({
            let rr = RType { rd: it.rd, rs1: it.rs1, rs2 };
            &&& exec_spec(s, Instruction::Addi(it), 0) == exec_spec(s, Instruction::Add(rr), 0)
            &&& exec_spec(s, Instruction::Slti(it), 0) == exec_spec(s, Instruction::Slt(rr), 0)
            &&& exec_spec(s, Instruction::Sltiu(it), 0) == exec_spec(s, Instruction::Sltu(rr), 0)
        }),
{
    assert(signed(wrap32(it.imm as int)) == it.imm);
}

/// `xori`, `ori` and `andi` compute what their register-register forms compute when the second operand
/// register holds the (sign-extended) immediate.
#[verifier::spinoff_prover]
pub proof fn lemma_immediate_logic_agree(s: HartState, it: IType, rs2: usize)
    requires
        s.wf(),
        it.wf(),
        0 < rs2 < 32,
        s.reg(rs2 as int) == wrap32(it.imm as int),
    ensures
        ({
            let rr = RType { rd: it.rd, rs1: it.rs1, rs2 };
            &&& exec_spec(s, Instruction::Xori(it), 0) == exec_spec(s, Instruction::Xor(rr), 0)
            &&& exec_spec(s, Instruction::Ori(it), 0) == exec_spec(s, Instruction::Or(rr), 0)
            &&& exec_spec(s, Instruction::Andi(it), 0) == exec_spec(s, Instruction::And(rr), 0)
        }),
{
}

/// `slli`, `srli` and `srai` compute what their register-register forms compute when the second operand
/// register holds the (sign-extended) immediate.
#[verifier::spinoff_prover]
pub proof fn lemma_immediate_shift_agree(s: HartState, it: IType, rs2: usize)
    requires
        s.wf(),
        it.wf(),
        0 < rs2 < 32,
        s.reg(rs2 as int) == wrap32(it.imm as int),
    ensures
        ({
            let rr = RType { rd: it.rd, rs1: it.rs1, rs2 };
            &&& exec_spec(s, Instruction::Slli(it), 0) == exec_spec(s, Instruction::Sll(rr), 0)
            &&& exec_spec(s, Instruction::Srli(it), 0) == exec_spec(s, Instruction::Srl(rr), 0)
            &&& exec_spec(s, Instruction::Srai(it), 0) == exec_spec(s, Instruction::Sra(rr), 0)
        }),
{
}

/// `sll` shifts left: the bits shifted out are gone, the low `n` bits are zero and the rest
/// are `x`'s low bits, where `n` is the low five bits of `x[rs2]`.
#[verifier::spinoff_prover]
pub proof fn lemma_sll_bits(s: HartState, r: RType)
    requires
        s.wf(),
        r.wf(),
        r.rd != 0,
    ensures
        ({
            let x = s.reg(r.rs1 as int);
            let n = s.reg(r.rs2 as int) % 32;
            let z = result_of(s, Instruction::Sll(r), r.rd);
            &&& z >> n == x & (0xFFFF_FFFFu32 >> n)
            &&& z & !(0xFFFF_FFFFu32 << n) == 0
        }),
{
    let x = s.reg(r.rs1 as int);
    let n = s.reg(r.rs2 as int) % 32;
    let z = result_of(s, Instruction::Sll(r), r.rd);
    assert(z >> n == x & (0xFFFF_FFFFu32 >> n) && z & !(0xFFFF_FFFFu32 << n) == 0)
        by (bit_vector)
        requires
            n < 32,
            z == x << n,
    ;
}

/// `sra` shifts right keeping the sign: on a non-negative value it is `srl`, on a negative
/// value it is the complement of `srl` of the complement.
#[verifier::spinoff_prover]
pub proof fn lemma_sra_sign(s: HartState, r: RType)
    requires
        s.wf(),
        r.wf(),
        r.rd != 0,
    ensures
        ({
            let x = s.reg(r.rs1 as int);
            let n = s.reg(r.rs2 as int) % 32;
            let z = result_of(s, Instruction::Sra(r), r.rd);
            &&& x < 0x8000_0000 ==> z == x >> n
            &&& x >= 0x8000_0000 ==> z == !((!x) >> n)
        }),
{
    let x = s.reg(r.rs1 as int);
    let n = s.reg(r.rs2 as int) % 32;
    let z = result_of(s, Instruction::Sra(r), r.rd);
    assert((x < 0x8000_0000 ==> z == x >> n) && (x >= 0x8000_0000 ==> z == !((!x) >> n)))
        by (bit_vector)
        requires
            n < 32,
            z == ((x as i32) >> n) as u32,
    ;
}

/// Branches: each pair (`beq`/`bne`, `blt`/`bge`, `bltu`/`bgeu`) on the same operands has
/// exactly one member that jumps to the target and one that falls through; `beq` jumps when
/// the operands are equal, `blt` when `slt` gives 1 and `bltu` when `sltu` gives 1. No branch
/// changes a register, a CSR or the mode.
#[verifier::spinoff_prover]
pub proof fn lemma_branches(s: HartState, b: BType, rd: usize)
    requires
        s.wf(),
        b.wf(),
        0 < rd < 32,
    ensures
        ({
            let t = pc_relative(s, b.imm);
            let x = s.reg(b.rs1 as int);
            let y = s.reg(b.rs2 as int);
            let r = RType { rd, rs1: b.rs1, rs2: b.rs2 };
            let beq = exec_spec(s, Instruction::Beq(b), 0);
            let bne = exec_spec(s, Instruction::Bne(b), 0);
            let blt = exec_spec(s, Instruction::Blt(b), 0);
            let bge = exec_spec(s, Instruction::Bge(b), 0);
            let bltu = exec_spec(s, Instruction::Bltu(b), 0);
            let bgeu = exec_spec(s, Instruction::Bgeu(b), 0);
            &&& (beq.pc == t && bne.pc == s.pc) || (beq.pc == s.pc && bne.pc == t)
            &&& (blt.pc == t && bge.pc == s.pc) || (blt.pc == s.pc && bge.pc == t)
            &&& (bltu.pc == t && bgeu.pc == s.pc) || (bltu.pc == s.pc && bgeu.pc == t)
            &&& beq.pc == (if x == y { t } else { s.pc })
            &&& blt.pc == (if result_of(s, Instruction::Slt(r), rd) == 1 { t } else { s.pc })
            &&& bltu.pc == (if result_of(s, Instruction::Sltu(r), rd) == 1 { t } else { s.pc })
            &&& x == y ==> bge.pc == t && bgeu.pc == t
            &&& beq.x == s.x && bne.x == s.x && blt.x == s.x && bge.x == s.x && bltu.x == s.x
                && bgeu.x == s.x
            &&& beq.csrs == s.csrs && bne.csrs == s.csrs && blt.csrs == s.csrs && bge.csrs
                == s.csrs && bltu.csrs == s.csrs && bgeu.csrs == s.csrs
            &&& beq.mode == s.mode && bne.mode == s.mode && blt.mode == s.mode && bge.mode
                == s.mode && bltu.mode == s.mode && bgeu.mode == s.mode
        }),
{
}

/// Jumps and upper immediates: `jal` and `jalr` link the address of the next instruction;
/// `jal` jumps by its offset from the current instruction; `jalr` jumps to `x[rs1] + imm` with
/// bit 0 cleared; `lui` loads its immediate; `auipc` adds it to the current instruction's
/// address. All arithmetic is modulo 2^32.
#[verifier::spinoff_prover]
pub proof fn lemma_jumps_and_upper(s: HartState, j: JType, it: IType, u: UType)
    requires
        s.wf(),
        j.wf(),
        it.wf(),
        u.wf(),
    ensures
        ({
            let jal = exec_spec(s, Instruction::Jal(j), 0);
            let jalr = exec_spec(s, Instruction::Jalr(it), 0);
            let sum = (s.reg(it.rs1 as int) + it.imm) % 0x1_0000_0000;
            &&& jal.pc as int == (s.pc - 4 + j.imm) % 0x1_0000_0000
            &&& j.rd != 0 ==> jal.reg(j.rd as int) == s.pc
            &&& jalr.pc as int == sum - sum % 2
            &&& jalr.pc % 2 == 0
            &&& it.rd != 0 ==> jalr.reg(it.rd as int) == s.pc
            &&& u.rd != 0 ==> result_of(s, Instruction::Lui(u), u.rd) as int == (u.imm
                as int) % 0x1_0000_0000
            &&& u.rd != 0 ==> result_of(s, Instruction::Auipc(u), u.rd) as int == (s.pc - 4
                + u.imm) % 0x1_0000_0000
            &&& jal.csrs == s.csrs && jalr.csrs == s.csrs
        }),
{
    lemma_pc_relative(s, j.imm);
    lemma_pc_relative(s, u.imm);
    lemma_wrapping_add_imm(s.reg(it.rs1 as int), it.imm);
}

/// `csrrw`: what happens to the CSR does not depend on the destination register;
/// `rd` (unless x0) gets the CSR's old value; no other CSR, pc or the mode changes.
#[verifier::spinoff_prover]
pub proof fn lemma_csrrw_frame(s: HartState, it: IType, other_rd: usize, b: int)
    requires
        s.wf(),
        it.wf(),
        other_rd < 32,
        0 <= b < 4096,
        b != csr_addr(it.imm),
    ensures
        ({
            let other = IType { rd: other_rd, rs1: it.rs1, imm: it.imm };
            let t = exec_spec(s, Instruction::Csrrw(it), 0);
            &&& t.csrs == exec_spec(s, Instruction::Csrrw(other), 0).csrs
            &&& it.rd != 0 ==> t.reg(it.rd as int) == s.csrs[csr_addr(it.imm)]
            &&& t.csrs[b] == s.csrs[b]
            &&& t.pc == s.pc
            &&& t.mode == s.mode
        }),
{
}

/// `csrrs`: what happens to the CSR does not depend on the destination register;
/// `rd` (unless x0) gets the CSR's old value; no other CSR, pc or the mode changes.
#[verifier::spinoff_prover]
pub proof fn lemma_csrrs_frame(s: HartState, it: IType, other_rd: usize, b: int)
    requires
        s.wf(),
        it.wf(),
        other_rd < 32,
        0 <= b < 4096,
        b != csr_addr(it.imm),
    ensures
        ({
            let other = IType { rd: other_rd, rs1: it.rs1, imm: it.imm };
            let t = exec_spec(s, Instruction::Csrrs(it), 0);
            &&& t.csrs == exec_spec(s, Instruction::Csrrs(other), 0).csrs
            &&& it.rd != 0 ==> t.reg(it.rd as int) == s.csrs[csr_addr(it.imm)]
            &&& t.csrs[b] == s.csrs[b]
            &&& t.pc == s.pc
            &&& t.mode == s.mode
        }),
{
}

/// `csrrc`: what happens to the CSR does not depend on the destination register;
/// `rd` (unless x0) gets the CSR's old value; no other CSR, pc or the mode changes.
#[verifier::spinoff_prover]
pub proof fn lemma_csrrc_frame(s: HartState, it: IType, other_rd: usize, b: int)
    requires
        s.wf(),
        it.wf(),
        other_rd < 32,
        0 <= b < 4096,
        b != csr_addr(it.imm),
    ensures
        ({
            let other = IType { rd: other_rd, rs1: it.rs1, imm: it.imm };
            let t = exec_spec(s, Instruction::Csrrc(it), 0);
            &&& t.csrs == exec_spec(s, Instruction::Csrrc(other), 0).csrs
            &&& it.rd != 0 ==> t.reg(it.rd as int) == s.csrs[csr_addr(it.imm)]
            &&& t.csrs[b] == s.csrs[b]
            &&& t.pc == s.pc
            &&& t.mode == s.mode
        }),
{
}

/// `csrrwi`: what happens to the CSR does not depend on the destination register;
/// `rd` (unless x0) gets the CSR's old value; no other CSR, pc or the mode changes.
#[verifier::spinoff_prover]
pub proof fn lemma_csrrwi_frame(s: HartState, it: IType, other_rd: usize, b: int)
    requires
        s.wf(),
        it.wf(),
        other_rd < 32,
        0 <= b < 4096,
        b != csr_addr(it.imm),
    ensures
        ({
            let other = IType { rd: other_rd, rs1: it.rs1, imm: it.imm };
            let t = exec_spec(s, Instruction::Csrrwi(it), 0);
            &&& t.csrs == exec_spec(s, Instruction::Csrrwi(other), 0).csrs
            &&& it.rd != 0 ==> t.reg(it.rd as int) == s.csrs[csr_addr(it.imm)]
            &&& t.csrs[b] == s.csrs[b]
            &&& t.pc == s.pc
            &&& t.mode == s.mode
        }),
{
}

/// `csrrsi`: what happens to the CSR does not depend on the destination register;
/// `rd` (unless x0) gets the CSR's old value; no other CSR, pc or the mode changes.
#[verifier::spinoff_prover]
pub proof fn lemma_csrrsi_frame(s: HartState, it: IType, other_rd: usize, b: int)
    requires
        s.wf(),
        it.wf(),
        other_rd < 32,
        0 <= b < 4096,
        b != csr_addr(it.imm),
    ensures
        ({
            let other = IType { rd: other_rd, rs1: it.rs1, imm: it.imm };
            let t = exec_spec(s, Instruction::Csrrsi(it), 0);
            &&& t.csrs == exec_spec(s, Instruction::Csrrsi(other), 0).csrs
            &&& it.rd != 0 ==> t.reg(it.rd as int) == s.csrs[csr_addr(it.imm)]
            &&& t.csrs[b] == s.csrs[b]
            &&& t.pc == s.pc
            &&& t.mode == s.mode
        }),
{
}

/// `csrrci`: what happens to the CSR does not depend on the destination register;
/// `rd` (unless x0) gets the CSR's old value; no other CSR, pc or the mode changes.
#[verifier::spinoff_prover]
pub proof fn lemma_csrrci_frame(s: HartState, it: IType, other_rd: usize, b: int)
    requires
        s.wf(),
        it.wf(),
        other_rd < 32,
        0 <= b < 4096,
        b != csr_addr(it.imm),
    ensures
        ({
            let other = IType { rd: other_rd, rs1: it.rs1, imm: it.imm };
            let t = exec_spec(s, Instruction::Csrrci(it), 0);
            &&& t.csrs == exec_spec(s, Instruction::Csrrci(other), 0).csrs
            &&& it.rd != 0 ==> t.reg(it.rd as int) == s.csrs[csr_addr(it.imm)]
            &&& t.csrs[b] == s.csrs[b]
            &&& t.pc == s.pc
            &&& t.mode == s.mode
        }),
{
}

/// `csrrw` and `csrrwi` write the source (the register `x[rs1]`, or the 5-bit immediate in the
/// rs1 field) to the CSR.
#[verifier::spinoff_prover]
pub proof fn lemma_csr_write(s: HartState, it: IType)
    requires
        s.wf(),
        it.wf(),
    ensures
        exec_spec(s, Instruction::Csrrw(it), 0).csrs[csr_addr(it.imm)] == s.reg(it.rs1 as int),
        exec_spec(s, Instruction::Csrrwi(it), 0).csrs[csr_addr(it.imm)] == it.rs1,
{
}

/// `csrrs`/`csrrsi` set in the CSR exactly the bits set in the source, and `csrrc`/`csrrci`
/// clear them; with rs1 = 0 the CSR is not written. The destination register plays no part.
#[verifier::spinoff_prover]
pub proof fn lemma_csr_set_clear(s: HartState, it: IType)
    requires
        s.wf(),
        it.wf(),
    ensures
        ({
            let c = csr_addr(it.imm);
            let old = s.csrs[c];
            let x = s.reg(it.rs1 as int);
            let u = it.rs1 as u32;
            let set = exec_spec(s, Instruction::Csrrs(it), 0).csrs[c];
            let clear = exec_spec(s, Instruction::Csrrc(it), 0).csrs[c];
            let seti = exec_spec(s, Instruction::Csrrsi(it), 0).csrs[c];
            let cleari = exec_spec(s, Instruction::Csrrci(it), 0).csrs[c];
            &&& it.rs1 == 0 ==> set == old && clear == old && seti == old && cleari == old
            &&& it.rs1 != 0 ==> set & old == old && set & x == x && set & !old & !x == 0
            &&& it.rs1 != 0 ==> clear & x == 0 && clear & !old == 0 && old & !x & !clear == 0
            &&& it.rs1 != 0 ==> seti & old == old && seti & u == u && seti & !old & !u == 0
            &&& it.rs1 != 0 ==> cleari & u == 0 && cleari & !old == 0 && old & !u & !cleari == 0
        }),
{
    let c = csr_addr(it.imm);
    let old = s.csrs[c];
    let x = s.reg(it.rs1 as int);
    let u = it.rs1 as u32;
    if it.rs1 != 0 {
        let set = old | x;
        let clear = old & !x;
        let seti = old | u;
        let cleari = old & !u;
        assert(set & old == old && set & x == x && set & !old & !x == 0 && clear & x == 0
            && clear & !old == 0 && old & !x & !clear == 0) by (bit_vector)
            requires
                set == old | x,
                clear == old & !x,
        ;
        assert(seti & old == old && seti & u == u && seti & !old & !u == 0 && cleari & u == 0
            && cleari & !old == 0 && old & !u & !cleari == 0) by (bit_vector)
            requires
                seti == old | u,
                cleari == old & !u,
        ;
    }
}

/// Stores write the low 8, 16 or 32 bits of `x[rs2]` with a write of that width at
/// `x[rs1] + imm` (mod 2^32), and change nothing in the hart.
#[verifier::spinoff_prover]
pub proof fn lemma_stores<B: Bus>(s: HartState, st: SType, bus: B)
    requires
        s.wf(),
        st.wf(),
    ensures
        ({
            let ea = address_of(s, st.rs1, st.imm);
            let y = s.reg(st.rs2 as int);
            &&& exec_with_bus(s, Instruction::Sb(st), bus) == (s, bus.spec_write8(
                ea,
                (y % 256) as u8,
            ))
            &&& exec_with_bus(s, Instruction::Sh(st), bus) == (s, bus.spec_write16(
                ea,
                (y % 65536) as u16,
            ))
            &&& exec_with_bus(s, Instruction::Sw(st), bus) == (s, bus.spec_write32(ea, y))
        }),
{
    lemma_wrapping_add_imm(s.reg(st.rs1 as int), st.imm);
}

/// The address `x[rs1] + imm` (mod 2^32) of a load or store.
pub open spec fn address_of(s: HartState, rs1: usize, imm: i32) -> u32 {
    ((s.reg(rs1 as int) + imm) % 0x1_0000_0000) as u32
}

/// Loads leave the bus as it was, and change only `rd` in the hart.
#[verifier::spinoff_prover]
pub proof fn lemma_loads_frame<B: Bus>(s: HartState, it: IType, bus: B)
    requires
        s.wf(),
        it.wf(),
    ensures
        ({
            let rd = it.rd as int;
            let lb = exec_with_bus(s, Instruction::Lb(it), bus);
            let lbu = exec_with_bus(s, Instruction::Lbu(it), bus);
            let lh = exec_with_bus(s, Instruction::Lh(it), bus);
            let lhu = exec_with_bus(s, Instruction::Lhu(it), bus);
            let lw = exec_with_bus(s, Instruction::Lw(it), bus);
            &&& lb.1 == bus && lbu.1 == bus && lh.1 == bus && lhu.1 == bus && lw.1 == bus
            &&& lb.0 == s.with_reg(rd, lb.0.reg(rd))
            &&& lbu.0 == s.with_reg(rd, lbu.0.reg(rd))
            &&& lh.0 == s.with_reg(rd, lh.0.reg(rd))
            &&& lhu.0 == s.with_reg(rd, lhu.0.reg(rd))
            &&& lw.0 == s.with_reg(rd, lw.0.reg(rd))
        }),
{
}

/// Byte loads read one byte at `x[rs1] + imm`: `lbu` zero-extends it, `lb` keeps it in the low
/// byte and fills the upper 24 bits with its sign bit.
#[verifier::spinoff_prover]
pub proof fn lemma_byte_loads<B: Bus>(s: HartState, it: IType, bus: B)
    requires
        s.wf(),
        it.wf(),
        it.rd != 0,
    ensures
        ({
            let b = bus.spec_read8(address_of(s, it.rs1, it.imm)) as u32;
            let z = exec_with_bus(s, Instruction::Lb(it), bus).0.reg(it.rd as int);
            &&& z % 256 == b
            &&& z / 256 == (if b >= 128 { 0xFF_FFFFu32 } else { 0u32 })
            &&& exec_with_bus(s, Instruction::Lbu(it), bus).0.reg(it.rd as int) == b
        }),
{
    lemma_wrapping_add_imm(s.reg(it.rs1 as int), it.imm);
    vstd::arithmetic::power2::lemma2_to64();
    let b = bus.spec_read8(address_of(s, it.rs1, it.imm)) as u32;
    assert(sign_extend(b as nat, 8) == if b >= 128 { b - 256 } else { b as int });
}

/// Halfword loads read two bytes at `x[rs1] + imm`: `lhu` zero-extends them, `lh` keeps them in
/// the low half and fills the upper 16 bits with their sign bit.
#[verifier::spinoff_prover]
pub proof fn lemma_half_loads<B: Bus>(s: HartState, it: IType, bus: B)
    requires
        s.wf(),
        it.wf(),
        it.rd != 0,
    ensures
        ({
            let h = bus.spec_read16(address_of(s, it.rs1, it.imm)) as u32;
            let z = exec_with_bus(s, Instruction::Lh(it), bus).0.reg(it.rd as int);
            &&& z % 65536 == h
            &&& z / 65536 == (if h >= 0x8000 { 0xFFFFu32 } else { 0u32 })
            &&& exec_with_bus(s, Instruction::Lhu(it), bus).0.reg(it.rd as int) == h
        }),
{
    lemma_wrapping_add_imm(s.reg(it.rs1 as int), it.imm);
    vstd::arithmetic::power2::lemma2_to64();
    let h = bus.spec_read16(address_of(s, it.rs1, it.imm)) as u32;
    assert(sign_extend(h as nat, 16) == if h >= 0x8000 { h - 65536 } else { h as int });
}

/// `lw` reads the word at `x[rs1] + imm`.
#[verifier::spinoff_prover]
pub proof fn lemma_word_load<B: Bus>(s: HartState, it: IType, bus: B)
    requires
        s.wf(),
        it.wf(),
        it.rd != 0,
    ensures
        exec_with_bus(s, Instruction::Lw(it), bus).0.reg(it.rd as int) == bus.spec_read32(
            address_of(s, it.rs1, it.imm),
        ),
{
    lemma_wrapping_add_imm(s.reg(it.rs1 as int), it.imm);
}

/// Environment calls trap with cause 8 plus the encoding of the current mode (8 from user,
/// 9 from supervisor, 11 from machine) and trap value 0; `ebreak` traps with cause 3 and the
/// address of the instruction as trap value. Both record that address in mepc.
#[verifier::spinoff_prover]
pub proof fn lemma_ecall_ebreak(s: HartState, it: IType)
    requires
        s.wf(),
    ensures
        ({
            let e = exec_spec(s, Instruction::Ecall(it), 0);
            let k = exec_spec(s, Instruction::Ebreak(it), 0);
            let here = s.pc.wrapping_sub(4);
            &&& e.csrs[crate::hart::MCAUSE as int] == 8 + crate::privilege::bits_of_mode(s.mode)
            &&& e.csrs[crate::hart::MTVAL as int] == 0
            &&& e.csrs[crate::hart::MEPC as int] == here
            &&& e.mode == crate::privilege::PrivilegeMode::Machine
            &&& k.csrs[crate::hart::MCAUSE as int] == 3
            &&& k.csrs[crate::hart::MTVAL as int] == here
            &&& k.csrs[crate::hart::MEPC as int] == here
            &&& k.mode == crate::privilege::PrivilegeMode::Machine
            &&& e.x == s.x && k.x == s.x
        }),
{
}

/// A step reads the instruction at pc from the bus: when that word is no instruction, the hart
/// traps with the word read at pc as trap value and pc as mepc, and the bus is left as it was.
#[verifier::spinoff_prover]
pub proof fn lemma_step_fetches_at_pc<B: Bus>(s: HartState, bus: B)
    requires
        s.wf(),
        s.pc <= u32::MAX - 4,
        decode_spec(bus.spec_read32(s.pc)) is None,
    ensures
        ({
            let w = bus.spec_read32(s.pc);
            let n = step_with_bus(s, bus);
            &&& n.1 == bus
            &&& n.0.csrs[MTVAL as int] == w
            &&& n.0.csrs[MEPC as int] == s.pc
            &&& n.0.csrs[MCAUSE as int] == 2
            &&& n.0.pc == s.csrs[MTVEC as int] - s.csrs[MTVEC as int] % 4
            &&& n.0.x == s.x
        }),
{
    let w = bus.spec_read32(s.pc);
    let next = s.with_pc((s.pc + 4) as u32);
    assert(crate::hart::word_access(next, w) is None);
    crate::hart::lemma_illegal_word_runs_trap(next, w, 0);
    let t = crate::hart::trap_spec(next, 2, w);
    assert(step_with_bus(s, bus) == (t, bus));
    assert(next.pc.wrapping_sub(4) == s.pc);
}

/// When the word at pc is an instruction that accesses no memory, a step is that instruction
/// run from pc + 4, and the bus is left as it was.
#[verifier::spinoff_prover]
pub proof fn lemma_step_runs_word_at_pc<B: Bus>(s: HartState, bus: B, instr: Instruction)
    requires
        s.wf(),
        s.pc <= u32::MAX - 4,
        decode_spec(bus.spec_read32(s.pc)) == Some(instr),
        mem_access_spec(s.with_pc((s.pc + 4) as u32), instr) is None,
    ensures
        step_with_bus(s, bus) == (exec_spec(s.with_pc((s.pc + 4) as u32), instr, 0), bus),
{
    let w = bus.spec_read32(s.pc);
    let next = s.with_pc((s.pc + 4) as u32);
    assert(crate::hart::word_access(next, w) is None);
    reveal(crate::hart::run_word);
    assert(crate::hart::run_word(next, w, 0) == exec_spec(next, instr, 0));
}

/// The reserved words 0 and 0x0FFF_FFFF decode as `Illegal`, carrying the word.
#[verifier::spinoff_prover]
pub proof fn lemma_decode_reserved_words()
    ensures
        decode_spec(0) == Some(Instruction::Illegal(0)),
        decode_spec(0x0FFF_FFFF) == Some(Instruction::Illegal(0x0FFF_FFFF)),
{
}

/// A hart comes out of reset in machine mode at address 0, with every integer register and
/// every CSR reading zero.
#[verifier::spinoff_prover]
pub proof fn lemma_reset_state(r: int, c: int)
    requires
        0 <= r < 32,
        0 <= c < 4096,
    ensures
        HartState::reset().wf(),
        HartState::reset().pc == 0,
        HartState::reset().reg(r) == 0,
        HartState::reset().csrs[c] == 0,
        HartState::reset().mode == crate::privilege::PrivilegeMode::Machine,
{
}

} // verus!
