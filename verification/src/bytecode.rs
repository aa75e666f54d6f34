//! FLUX-C instructions and their 13-byte encoding:
//! opcode (1 byte), `arg0` (2 bytes), `arg1` (2 bytes), immediate (8 bytes),
//! the multi-byte fields little-endian.

use vstd::prelude::*;
use crate::word::{
    le_u16, le_u64, read_le_u16, read_le_u64, u16_bytes, u64_bytes, push_u16_bytes,
    push_u64_bytes, lemma_u16_bytes_roundtrip, lemma_u64_bytes_roundtrip,
};

verus! {

/// FLUX-C opcodes.
#[derive(Clone, Copy, Debug, PartialEq, Eq, Structural)]
pub enum Op {
    Load,
    Store,
    Const,
    Add,
    Sub,
    Mul,
    Div,
    And,
    Or,
    Not,
    Lt,
    Gt,
    Eq,
    Le,
    Ge,
    Ne,
    Jmp,
    Jz,
    Jnz,
    Pack8,
    Unpack,
    Check,
    Assert,
    Halt,
    Nop,
    Call,
    Ret,
}

/// The byte that encodes each opcode.
pub open spec fn op_code(op: Op) -> u8 {
    match op {
        Op::Load => 0x01,
        Op::Store => 0x02,
        Op::Const => 0x03,
        Op::Add => 0x04,
        Op::Sub => 0x05,
        Op::Mul => 0x06,
        Op::Div => 0x07,
        Op::And => 0x08,
        Op::Or => 0x09,
        Op::Not => 0x0A,
        Op::Lt => 0x0B,
        Op::Gt => 0x0C,
        Op::Eq => 0x0D,
        Op::Le => 0x0E,
        Op::Ge => 0x0F,
        Op::Ne => 0x10,
        Op::Jmp => 0x11,
        Op::Jz => 0x12,
        Op::Jnz => 0x13,
        Op::Pack8 => 0x14,
        Op::Unpack => 0x15,
        Op::Check => 0x16,
        Op::Assert => 0x17,
        Op::Halt => 0x18,
        Op::Nop => 0x19,
        Op::Call => 0x1A,
        Op::Ret => 0x1B,
    }
}

/// The opcode a byte encodes: the bytes `0x01..=0x1B` encode one each, no other byte does.
pub open spec fn op_of_byte(v: u8) -> Option<Op> {
    if 0x01 <= v && v <= 0x1B {
        Some(choose|op: Op| op_code(op) == v)
    } else {
        None
    }
}

impl Op {
    /// Decodes an opcode byte.
    pub fn from_u8(v: u8) -> (r: Option<Op>)
        ensures
            r == op_of_byte(v),
            r matches Some(op) ==> op_code(op) == v,
            r is None <==> (v == 0 || v > 0x1B),
    {
        let r = match v {
            0x01 => Some(Op::Load),
            0x02 => Some(Op::Store),
            0x03 => Some(Op::Const),
            0x04 => Some(Op::Add),
            0x05 => Some(Op::Sub),
            0x06 => Some(Op::Mul),
            0x07 => Some(Op::Div),
            0x08 => Some(Op::And),
            0x09 => Some(Op::Or),
            0x0A => Some(Op::Not),
            0x0B => Some(Op::Lt),
            0x0C => Some(Op::Gt),
            0x0D => Some(Op::Eq),
            0x0E => Some(Op::Le),
            0x0F => Some(Op::Ge),
            0x10 => Some(Op::Ne),
            0x11 => Some(Op::Jmp),
            0x12 => Some(Op::Jz),
            0x13 => Some(Op::Jnz),
            0x14 => Some(Op::Pack8),
            0x15 => Some(Op::Unpack),
            0x16 => Some(Op::Check),
            0x17 => Some(Op::Assert),
            0x18 => Some(Op::Halt),
            0x19 => Some(Op::Nop),
            0x1A => Some(Op::Call),
            0x1B => Some(Op::Ret),
            _ => None,
        };
        proof {
            if let Some(op) = r {
                lemma_op_code_injective(op);
            }
        }
        r
    }

    /// The byte that encodes this opcode.
    pub fn to_u8(self) -> (v: u8)
        ensures
            v == op_code(self),
    {
        match self {
            Op::Load => 0x01,
            Op::Store => 0x02,
            Op::Const => 0x03,
            Op::Add => 0x04,
            Op::Sub => 0x05,
            Op::Mul => 0x06,
            Op::Div => 0x07,
            Op::And => 0x08,
            Op::Or => 0x09,
            Op::Not => 0x0A,
            Op::Lt => 0x0B,
            Op::Gt => 0x0C,
            Op::Eq => 0x0D,
            Op::Le => 0x0E,
            Op::Ge => 0x0F,
            Op::Ne => 0x10,
            Op::Jmp => 0x11,
            Op::Jz => 0x12,
            Op::Jnz => 0x13,
            Op::Pack8 => 0x14,
            Op::Unpack => 0x15,
            Op::Check => 0x16,
            Op::Assert => 0x17,
            Op::Halt => 0x18,
            Op::Nop => 0x19,
            Op::Call => 0x1A,
            Op::Ret => 0x1B,
        }
    }
}

/// No two opcodes share a byte, and every opcode's byte lies in `0x01..=0x1B`.
pub proof fn lemma_op_code_injective(op: Op)
    ensures
        0x01 <= op_code(op) <= 0x1B,
        forall|other: Op| op_code(other) == op_code(op) ==> other == op,
{
}

/// Decoding the byte of an opcode gives back the opcode.
pub proof fn lemma_op_roundtrip(op: Op)
    ensures
        op_of_byte(op_code(op)) == Some(op),
{
    lemma_op_code_injective(op);
}

/// Encoding a decoded opcode gives back its byte.
pub proof fn lemma_byte_roundtrip(v: u8)
    requires
        op_of_byte(v) is Some,
    ensures
        op_code(op_of_byte(v)->0) == v,
{
    let op = match v {
        0x01 => Op::Load,
        0x02 => Op::Store,
        0x03 => Op::Const,
        0x04 => Op::Add,
        0x05 => Op::Sub,
        0x06 => Op::Mul,
        0x07 => Op::Div,
        0x08 => Op::And,
        0x09 => Op::Or,
        0x0A => Op::Not,
        0x0B => Op::Lt,
        0x0C => Op::Gt,
        0x0D => Op::Eq,
        0x0E => Op::Le,
        0x0F => Op::Ge,
        0x10 => Op::Ne,
        0x11 => Op::Jmp,
        0x12 => Op::Jz,
        0x13 => Op::Jnz,
        0x14 => Op::Pack8,
        0x15 => Op::Unpack,
        0x16 => Op::Check,
        0x17 => Op::Assert,
        0x18 => Op::Halt,
        0x19 => Op::Nop,
        0x1A => Op::Call,
        _ => Op::Ret,
    };
    assert(op_code(op) == v);
}

/// One decoded instruction; `imm` holds the binary64 word of the immediate.
#[derive(Clone, Copy, Debug, PartialEq, Eq, Structural)]
pub struct Instr {
    pub op: Op,
    pub arg0: u16,
    pub arg1: u16,
    pub imm: u64,
}

/// The number of bytes of one encoded instruction.
pub const INSTR_LEN: usize = 13;

/// The instruction encoded by the 13 bytes from `bytes[i]` on; an unknown opcode byte reads as `Nop`.
pub open spec fn instr_at(bytes: Seq<u8>, i: int) -> Instr {
    Instr {
        op: match op_of_byte(bytes[i]) {
            Some(op) => op,
            None => Op::Nop,
        },
        arg0: le_u16(bytes, i + 1),
        arg1: le_u16(bytes, i + 3),
        imm: le_u64(bytes, i + 5),
    }
}

/// The program held by `bytes`: one instruction per whole 13-byte slot, in order;
/// a final partial slot is ignored.
pub open spec fn decode_program(bytes: Seq<u8>) -> Seq<Instr> {
    Seq::new(bytes.len() / 13, |k: int| instr_at(bytes, 13 * k))
}

/// The 13 bytes that encode an instruction.
pub open spec fn encode_instr(ins: Instr) -> Seq<u8> {
    seq![op_code(ins.op)] + u16_bytes(ins.arg0) + u16_bytes(ins.arg1) + u64_bytes(ins.imm)
}

/// The bytes of a program: its instructions' encodings, one after another.
pub open spec fn encode_program(prog: Seq<Instr>) -> Seq<u8>
    decreases prog.len(),
{
    if prog.len() == 0 {
        Seq::empty()
    } else {
        encode_program(prog.drop_last()) + encode_instr(prog.last())
    }
}

/// Decodes the instruction in the 13 bytes from `bytes[i]` on.
pub fn read_instr(bytes: &[u8], i: usize) -> (ins: Instr)
    requires
        i + 13 <= bytes@.len(),
    ensures
        ins == instr_at(bytes@, i as int),
{
    let op = match Op::from_u8(bytes[i]) {
        Some(op) => op,
        None => Op::Nop,
    };
    let arg0 = read_le_u16(bytes, i + 1);
    let arg1 = read_le_u16(bytes, i + 3);
    let imm = read_le_u64(bytes, i + 5);
    Instr { op, arg0, arg1, imm }
}

/// Decodes a whole program: every complete 13-byte slot, in order.
pub fn decode(bytes: &[u8]) -> (prog: Vec<Instr>)
    ensures
        prog@ == decode_program(bytes@),
{
    let mut prog: Vec<Instr> = Vec::new();
    let mut i: usize = 0;
    while bytes.len() - i > 12
        invariant
            i <= bytes@.len(),
            i == 13 * prog@.len(),
            prog@ == Seq::new(prog@.len(), |k: int| instr_at(bytes@, 13 * k)),
        decreases bytes@.len() - i,
    {
        let ins = read_instr(bytes, i);
        prog.push(ins);
        i = i + 13;
        assert(prog@ =~= Seq::new(prog@.len(), |k: int| instr_at(bytes@, 13 * k)));
    }
    assert(prog@.len() == bytes@.len() / 13);
    prog
}

/// Encodes one instruction as its 13 bytes.
pub fn encode(op: Op, arg0: u16, arg1: u16, imm: u64) -> (bytes: Vec<u8>)
    ensures
        bytes@ == encode_instr(Instr { op, arg0, arg1, imm }),
{
    let mut bytes: Vec<u8> = Vec::new();
    bytes.push(op.to_u8());
    push_u16_bytes(&mut bytes, arg0);
    push_u16_bytes(&mut bytes, arg1);
    push_u64_bytes(&mut bytes, imm);
    bytes
}

proof fn lemma_encode_instr_len(ins: Instr)
    ensures
        encode_instr(ins).len() == 13,
{
}

proof fn lemma_instr_roundtrip(ins: Instr)
    ensures
        instr_at(encode_instr(ins), 0) == ins,
{
    let b = encode_instr(ins);
    lemma_op_roundtrip(ins.op);
    lemma_u16_bytes_roundtrip(ins.arg0);
    lemma_u16_bytes_roundtrip(ins.arg1);
    lemma_u64_bytes_roundtrip(ins.imm);
    assert(b.subrange(1, 3) == u16_bytes(ins.arg0));
    assert(b.subrange(3, 5) == u16_bytes(ins.arg1));
    assert(b.subrange(5, 13) == u64_bytes(ins.imm));
    assert(le_u16(b, 1) == le_u16(b.subrange(1, 3), 0));
    assert(le_u16(b, 3) == le_u16(b.subrange(3, 5), 0));
    assert(le_u64(b, 5) == le_u64(b.subrange(5, 13), 0));
}

/// The instruction in a slot depends only on that slot's bytes.
proof fn lemma_instr_at_shift(a: Seq<u8>, b: Seq<u8>, i: int)
    requires
        0 <= i,
        i + 13 <= a.len(),
    ensures
        instr_at(a + b, i) == instr_at(a, i),
{
    assert(forall|j: int| 0 <= j < a.len() ==> (a + b)[j] == a[j]);
}

pub proof fn lemma_encode_program_len(prog: Seq<Instr>)
    ensures
        encode_program(prog).len() == 13 * prog.len(),
    decreases prog.len(),
{
    if prog.len() > 0 {
        lemma_encode_program_len(prog.drop_last());
        lemma_encode_instr_len(prog.last());
    }
}

/// Decoding the bytes of a program gives back the program.
pub proof fn lemma_decode_encode(prog: Seq<Instr>)
    ensures
        decode_program(encode_program(prog)) == prog,
    decreases prog.len(),
{
    lemma_encode_program_len(prog);
    if prog.len() > 0 {
        let init = prog.drop_last();
        let a = encode_program(init);
        let e = encode_instr(prog.last());
        lemma_decode_encode(init);
        lemma_encode_program_len(init);
        lemma_encode_instr_len(prog.last());
        let bytes = a + e;
        assert forall|k: int| 0 <= k < prog.len() implies #[trigger] instr_at(bytes, 13 * k)
            == prog[k] by {
            if k < init.len() {
                lemma_instr_at_shift(a, e, 13 * k);
                assert(instr_at(a, 13 * k) == decode_program(a)[k]);
            } else {
                lemma_instr_roundtrip(prog.last());
                assert(bytes.subrange(13 * k, 13 * k + 13) == e);
                assert forall|j: int| 0 <= j < 13 implies bytes[13 * k + j] == e[j] by {}
                assert(instr_at(bytes, 13 * k) == instr_at(e, 0));
            }
        }
        assert(decode_program(bytes) =~= prog);
    }
}

/// Bytes after the last whole slot never change the decoded program.
pub proof fn lemma_decode_ignores_tail(prog: Seq<Instr>, tail: Seq<u8>)
    requires
        tail.len() < 13,
    ensures
        decode_program(encode_program(prog) + tail) == prog,
{
    lemma_decode_encode(prog);
    lemma_encode_program_len(prog);
    let a = encode_program(prog);
    assert forall|k: int| 0 <= k < prog.len() implies #[trigger] instr_at(a + tail, 13 * k)
        == instr_at(a, 13 * k) by {
        lemma_instr_at_shift(a, tail, 13 * k);
    }
    assert(decode_program(a + tail) =~= decode_program(a));
}

} // verus!
