use lemrvm_core::bits::{ibits, sext, ubits};
use lemrvm_core::instruction::{
    decode_signature, BType, IType, Instruction, JType, RType, SType, UType,
};

fn enc_r(op: u32, rd: u32, f3: u32, rs1: u32, rs2: u32, f7: u32) -> u32 {
    (f7 << 25) | (rs2 << 20) | (rs1 << 15) | (f3 << 12) | (rd << 7) | op
}

fn enc_i(op: u32, rd: u32, f3: u32, rs1: u32, imm: i32) -> u32 {
    (((imm as u32) & 0xFFF) << 20) | (rs1 << 15) | (f3 << 12) | (rd << 7) | op
}

fn enc_s(f3: u32, rs1: u32, rs2: u32, imm: i32) -> u32 {
    let imm = imm as u32;
    (((imm >> 5) & 0x7F) << 25) | (rs2 << 20) | (rs1 << 15) | (f3 << 12) | ((imm & 0x1F) << 7) | 0x23
}

fn enc_b(f3: u32, rs1: u32, rs2: u32, imm: i32) -> u32 {
    let imm = imm as u32;
    (((imm >> 12) & 1) << 31)
        | (((imm >> 5) & 0x3F) << 25)
        | (rs2 << 20)
        | (rs1 << 15)
        | (f3 << 12)
        | (((imm >> 1) & 0xF) << 8)
        | (((imm >> 11) & 1) << 7)
        | 0x63
}

fn enc_j(rd: u32, imm: i32) -> u32 {
    let imm = imm as u32;
    (((imm >> 20) & 1) << 31)
        | (((imm >> 1) & 0x3FF) << 21)
        | (((imm >> 11) & 1) << 20)
        | (((imm >> 12) & 0xFF) << 12)
        | (rd << 7)
        | 0x6F
}

#[test]
fn ubits_doc_example() {
    assert_eq!(ubits(0xFF, 7, 4), 0xF);
    assert_eq!(ubits(0xABCD_1234, 15, 8), 0x12);
    assert_eq!(ubits(0x8000_0000, 31, 31), 1);
}

#[test]
fn sext_doc_example() {
    assert_eq!(sext(0xFFF, 12), -1);
    assert_eq!(sext(0x7FF, 12), 2047);
    assert_eq!(sext(0x800, 12), -2048);
    assert_eq!(sext(0x1FFF, 12), -1);
    assert_eq!(sext(0x8000_0000, 32), i32::MIN);
}

#[test]
fn ibits_doc_example() {
    assert_eq!(ibits(0xFFFF_F800, 31, 20), -1);
    assert_eq!(ibits(0x7FF0_0000, 31, 20), 2047);
}

#[test]
fn gather_store_immediate_example() {
    // inst[31:25] placed at imm[11:5], inst[11:7] placed at imm[4:0]
    let w = enc_s(2, 2, 5, 0x7E5);
    let s = SType::decode(w);
    assert_eq!(ubits(w, 31, 25), 0x3F);
    assert_eq!(ubits(w, 11, 7), 0x05);
    assert_eq!(s, SType { rs1: 2, rs2: 5, imm: 0x7E5 });
    let s = SType::decode(enc_s(2, 2, 5, -4));
    assert_eq!(s.imm, -4);
}

#[test]
fn signature_fields() {
    let w = enc_r(0x33, 3, 5, 1, 2, 0x20);
    assert_eq!(decode_signature(w), (0x33, 5, 0x20));
}

#[test]
fn format_decoders() {
    assert_eq!(RType::decode(enc_r(0x33, 3, 0, 1, 2, 0)), RType { rd: 3, rs1: 1, rs2: 2 });
    assert_eq!(IType::decode(enc_i(0x13, 1, 0, 0, 5)), IType { rd: 1, rs1: 0, imm: 5 });
    assert_eq!(IType::decode(enc_i(0x13, 1, 0, 0, -1)).imm, -1);
    assert_eq!(IType::decode(enc_i(0x13, 1, 0, 0, -2048)).imm, -2048);
    assert_eq!(BType::decode(enc_b(0, 1, 2, -8)), BType { rs1: 1, rs2: 2, imm: -8 });
    assert_eq!(BType::decode(enc_b(0, 1, 2, 4094)).imm, 4094);
    assert_eq!(BType::decode(enc_b(0, 1, 2, -4096)).imm, -4096);
    assert_eq!(UType::decode(0x1234_52B7), UType { rd: 5, imm: 0x1234_5000 });
    assert_eq!(UType::decode(0xFFFF_F2B7).imm, -4096);
    assert_eq!(JType::decode(enc_j(1, 2048)), JType { rd: 1, imm: 2048 });
    assert_eq!(JType::decode(enc_j(0, -1048576)).imm, -1048576);
    assert_eq!(JType::decode(enc_j(0, 1048574)).imm, 1048574);
}

#[test]
fn decode_special_words() {
    assert_eq!(Instruction::decode(0), Some(Instruction::Illegal(0)));
    assert_eq!(Instruction::decode(0x0FFF_FFFF), Some(Instruction::Illegal(0x0FFF_FFFF)));
    assert_eq!(Instruction::decode(0xFFFF_FFFF), None);
}

#[test]
fn decode_arithmetic() {
    assert_eq!(
        Instruction::decode(0x0050_0093),
        Some(Instruction::Addi(IType { rd: 1, rs1: 0, imm: 5 }))
    );
    let r = RType { rd: 3, rs1: 1, rs2: 2 };
    assert_eq!(Instruction::decode(enc_r(0x33, 3, 0, 1, 2, 0)), Some(Instruction::Add(r)));
    assert_eq!(Instruction::decode(enc_r(0x33, 3, 0, 1, 2, 0x20)), Some(Instruction::Sub(r)));
    assert_eq!(Instruction::decode(enc_r(0x33, 3, 5, 1, 2, 0x20)), Some(Instruction::Sra(r)));
    assert_eq!(Instruction::decode(enc_r(0x33, 3, 7, 1, 2, 0)), Some(Instruction::And(r)));
    assert_eq!(Instruction::decode(enc_r(0x33, 3, 1, 1, 2, 0x20)), None);
    assert_eq!(Instruction::decode(enc_r(0x33, 3, 0, 1, 2, 0x01)), None);
    let srai = enc_i(0x13, 1, 5, 2, 0x400 | 3);
    assert_eq!(
        Instruction::decode(srai),
        Some(Instruction::Srai(IType { rd: 1, rs1: 2, imm: 0x403 }))
    );
    let srli = enc_i(0x13, 1, 5, 2, 3);
    assert_eq!(Instruction::decode(srli), Some(Instruction::Srli(IType { rd: 1, rs1: 2, imm: 3 })));
    assert_eq!(Instruction::decode(enc_i(0x13, 1, 5, 2, 0x200 | 3)), None);
}

#[test]
fn decode_memory_and_control() {
    let it = IType { rd: 5, rs1: 2, imm: -4 };
    assert_eq!(Instruction::decode(enc_i(0x03, 5, 0, 2, -4)), Some(Instruction::Lb(it)));
    assert_eq!(Instruction::decode(enc_i(0x03, 5, 5, 2, -4)), Some(Instruction::Lhu(it)));
    assert_eq!(Instruction::decode(enc_i(0x03, 5, 3, 2, -4)), None);
    assert_eq!(
        Instruction::decode(enc_s(1, 2, 5, 8)),
        Some(Instruction::Sh(SType { rs1: 2, rs2: 5, imm: 8 }))
    );
    assert_eq!(Instruction::decode(enc_s(3, 2, 5, 8)), None);
    assert_eq!(
        Instruction::decode(enc_b(6, 1, 2, 16)),
        Some(Instruction::Bltu(BType { rs1: 1, rs2: 2, imm: 16 }))
    );
    assert_eq!(Instruction::decode(enc_b(2, 1, 2, 16)), None);
    assert_eq!(
        Instruction::decode(enc_i(0x67, 1, 0, 5, 12)),
        Some(Instruction::Jalr(IType { rd: 1, rs1: 5, imm: 12 }))
    );
    assert_eq!(Instruction::decode(enc_i(0x67, 1, 1, 5, 12)), None);
    assert_eq!(
        Instruction::decode(enc_j(1, -16)),
        Some(Instruction::Jal(JType { rd: 1, imm: -16 }))
    );
    assert_eq!(
        Instruction::decode(0x0000_0297),
        Some(Instruction::Auipc(UType { rd: 5, imm: 0 }))
    );
    assert!(matches!(Instruction::decode(0x0FF0_000F), Some(Instruction::Fence(_))));
}

#[test]
fn decode_system() {
    assert!(matches!(Instruction::decode(0x0000_0073), Some(Instruction::Ecall(_))));
    assert!(matches!(Instruction::decode(0x0010_0073), Some(Instruction::Ebreak(_))));
    assert!(matches!(Instruction::decode(0x0020_0073), Some(Instruction::Uret(_))));
    assert!(matches!(Instruction::decode(0x1020_0073), Some(Instruction::Sret(_))));
    assert!(matches!(Instruction::decode(0x1050_0073), Some(Instruction::Wfi(_))));
    assert!(matches!(Instruction::decode(0x3020_0073), Some(Instruction::Mret(_))));
    assert_eq!(Instruction::decode(0x0030_0073), None);
    let csr = 0x305;
    assert!(matches!(Instruction::decode(enc_i(0x73, 1, 1, 2, csr)), Some(Instruction::Csrrw(_))));
    assert!(matches!(Instruction::decode(enc_i(0x73, 1, 2, 2, csr)), Some(Instruction::Csrrs(_))));
    assert!(matches!(Instruction::decode(enc_i(0x73, 1, 3, 2, csr)), Some(Instruction::Csrrc(_))));
    assert!(matches!(Instruction::decode(enc_i(0x73, 1, 5, 2, csr)), Some(Instruction::Csrrwi(_))));
    assert!(matches!(Instruction::decode(enc_i(0x73, 1, 6, 2, csr)), Some(Instruction::Csrrsi(_))));
    assert!(matches!(Instruction::decode(enc_i(0x73, 1, 7, 2, csr)), Some(Instruction::Csrrci(_))));
    assert_eq!(
        Instruction::decode(0x3402_6073),
        Some(Instruction::Csrrsi(IType { rd: 0, rs1: 4, imm: 0x340 }))
    );
    assert_eq!(
        Instruction::decode(0x3402_7073),
        Some(Instruction::Csrrci(IType { rd: 0, rs1: 4, imm: 0x340 }))
    );
    assert_eq!(Instruction::decode(enc_i(0x73, 1, 4, 2, csr)), None);
}

#[test]
fn decoded_registers_in_range() {
    for w in [0xFFFF_FFB3u32, 0xFFFF_FF93, 0xFFFF_FFA3, 0xFFFF_FFE3, 0xFFFF_FFEF, 0xFFFF_FFB7] {
        match Instruction::decode(w) {
            Some(Instruction::Add(r)) | Some(Instruction::Sub(r)) => {
                assert!(r.rd < 32 && r.rs1 < 32 && r.rs2 < 32)
            }
            Some(Instruction::Andi(i)) => assert!(i.rd < 32 && i.rs1 < 32),
            Some(Instruction::Lui(u)) => assert!(u.rd < 32),
            Some(Instruction::Jal(j)) => assert!(j.rd < 32 && j.imm % 2 == 0),
            _ => {}
        }
    }
}
