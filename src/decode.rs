use vstd::prelude::*;
use sbpf_common::inst_param::Number;
use sbpf_common::instruction::Instruction;
use sbpf_common::opcode::Opcode;
use crate::rodata::copy_range;
use crate::SbpfLinkerError;

verus! {

/// The opcode byte of the one instruction that loads a 64-bit immediate.
pub const LDDW_OPCODE: u8 = 0x18;

/// What decoding `bytes` as one instruction gives: `None` where they are no
/// valid instruction, else the instruction's immediate, where it has an
/// integer one.
pub uninterp spec fn decode_outcome(bytes: Seq<u8>) -> Option<Option<i64>>;

/// Relies on sbpf_common's `Opcode: TryFrom<u8>`: the byte 0x18 is the
/// opcode `Lddw`, and no other byte is.
#[verifier::external_body]
fn is_lddw_opcode(b: u8) -> (r: bool)
    ensures
        r == (b == LDDW_OPCODE),
{
    matches!(Opcode::try_from(b), Ok(Opcode::Lddw))
}

/// Relies on sbpf_common's `Instruction::from_bytes`, which decodes one
/// instruction (reading 16 bytes for `Lddw`, 8 for any other opcode), and
/// hands back the integer immediate it decoded, if any.
#[verifier::external_body]
fn decode_instruction(bytes: &[u8]) -> (r: Result<Option<i64>, sbpf_common::errors::SBPFError>)
    requires
        bytes@.len() == (if bytes@[0] == LDDW_OPCODE { 16int } else { 8int }),
    ensures
        r is Ok <==> decode_outcome(bytes@) is Some,
        r matches Ok(imm) ==> decode_outcome(bytes@) == Some(imm),
{
    let insn = Instruction::from_bytes(bytes)?;
    Ok(match insn.imm.as_ref().and_then(|v| v.as_ref().right()) {
        Some(Number::Int(v)) => Some(*v),
        _ => None,
    })
}

/// The last operand of an instruction, as far as relocations care.
#[derive(Debug, PartialEq, Eq)]
pub enum Operand {
    /// An integer immediate.
    Immediate(i64),
    /// A reference to a read-only data symbol, by name.
    Label(String),
    /// Anything else (or nothing).
    Other,
}

/// One decoded instruction: its encoding, and where it stood in the code
/// section.
#[derive(Debug)]
pub struct InstructionRecord {
    /// The instruction's bytes, as found in the code section.
    pub bytes: Vec<u8>,
    pub offset: u64,
    /// 16 for `Lddw`, 8 for any other instruction.
    pub size: u64,
    pub opcode: u8,
    pub operand: Operand,
}

/// The size of the instruction whose first byte is `b`.
pub open spec fn record_size(b: u8) -> int {
    if b == LDDW_OPCODE {
        16
    } else {
        8
    }
}

/// What the decoder reads of one instruction: its offset, its size, and its
/// integer immediate, if any.
pub struct RecordSpec {
    pub offset: int,
    pub size: int,
    pub immediate: Option<i64>,
}

/// Decodes the code section `data` from `at` on, instruction by
/// instruction: the records, or the offset of the first instruction that
/// does not decode or does not fit.
pub open spec fn decode_from(data: Seq<u8>, at: int) -> Result<Seq<RecordSpec>, int>
    decreases data.len() - at,
{
    if at < 0 || at >= data.len() {
        Ok(seq![])
    } else {
        let size = record_size(data[at]);
        if at + size > data.len() {
            Err(at)
        } else {
            match decode_outcome(data.subrange(at, at + size)) {
                None => Err(at),
                Some(imm) => match decode_from(data, at + size) {
                    Ok(rest) => Ok(seq![RecordSpec { offset: at, size, immediate: imm }] + rest),
                    Err(e) => Err(e),
                },
            }
        }
    }
}

/// Decodes the whole code section `data`.
pub open spec fn decode_spec(data: Seq<u8>) -> Result<Seq<RecordSpec>, int> {
    decode_from(data, 0)
}

pub open spec fn prepend(p: Seq<RecordSpec>, r: Result<Seq<RecordSpec>, int>) -> Result<Seq<RecordSpec>, int> {
    match r {
        Ok(rest) => Ok(p + rest),
        Err(e) => Err(e),
    }
}

pub open spec fn operand_of(imm: Option<i64>) -> Operand {
    match imm {
        Some(v) => Operand::Immediate(v),
        None => Operand::Other,
    }
}

/// Whether `rec` stands where `spec` says in the section `data`, with the
/// size and opcode found there.
pub open spec fn layout_matches(rec: InstructionRecord, spec: RecordSpec, data: Seq<u8>) -> bool {
    &&& rec.offset == spec.offset
    &&& rec.size == spec.size
    &&& 0 <= spec.offset < spec.offset + spec.size <= data.len()
    &&& rec.opcode == data[spec.offset]
    &&& spec.size == record_size(data[spec.offset])
    &&& rec.bytes@ == data.subrange(spec.offset, spec.offset + spec.size)
    &&& decode_outcome(rec.bytes@) is Some
}

/// Whether a record holds one whole instruction that decodes: 16 bytes for
/// `Lddw`, 8 for any other opcode.
pub open spec fn record_ready(rec: InstructionRecord) -> bool {
    &&& rec.bytes@.len() > 0
    &&& rec.bytes@.len() == record_size(rec.bytes@[0])
    &&& decode_outcome(rec.bytes@) is Some
}

/// Whether `rec` is the record that `spec` describes of the section `data`.
pub open spec fn record_matches(rec: InstructionRecord, spec: RecordSpec, data: Seq<u8>) -> bool {
    &&& layout_matches(rec, spec, data)
    &&& rec.operand == operand_of(spec.immediate)
}

/// Decodes the code section `data` into instruction records: from offset 0,
/// each instruction is 16 bytes long where its first byte is the `Lddw`
/// opcode and 8 bytes long otherwise, until the section ends. Fails at the
/// first instruction that does not decode or runs past the end.
pub fn decode_text(data: &Vec<u8>) -> (r: Result<Vec<InstructionRecord>, SbpfLinkerError>)
    ensures
        r matches Ok(recs) ==> decode_spec(data@) matches Ok(specs) && recs@.len() == specs.len()
            && forall|i: int| 0 <= i < specs.len() ==> record_matches(#[trigger] recs@[i], specs[i], data@),
        r matches Err(e) ==> e matches SbpfLinkerError::InstructionParseError { offset, .. }
            && decode_spec(data@) == Err::<Seq<RecordSpec>, int>(offset as int),
        decode_spec(data@) is Ok ==> r is Ok,
{
    let mut recs: Vec<InstructionRecord> = Vec::new();
    let ghost specs: Seq<RecordSpec> = seq![];
    let mut at: usize = 0;
    while at < data.len()
        invariant
            at <= data@.len(),
            decode_spec(data@) == prepend(specs, decode_from(data@, at as int)),
            recs@.len() == specs.len(),
            forall|i: int| 0 <= i < specs.len() ==> record_matches(#[trigger] recs@[i], specs[i], data@),
        decreases data@.len() - at,
    {
        let opcode = data[at];
        let size: usize = if is_lddw_opcode(opcode) { 16 } else { 8 };
        if size > data.len() - at {
            return Err(SbpfLinkerError::InstructionParseError { offset: at as u64, cause: None });
        }
        let bytes = vstd::slice::slice_subrange(data.as_slice(), at, at + size);
        match decode_instruction(bytes) {
            Err(cause) => {
                return Err(SbpfLinkerError::InstructionParseError { offset: at as u64, cause: Some(cause) });
            },
            Ok(imm) => {
                let code = copy_range(data, at, at + size);
                let ghost rec = RecordSpec { offset: at as int, size: size as int, immediate: imm };
                let operand = match imm {
                    Some(v) => Operand::Immediate(v),
                    None => Operand::Other,
                };
                proof {
                    let rest = decode_from(data@, at + size);
                    match rest {
                        Ok(r) => {
                            assert(specs + (seq![rec] + r) =~= specs.push(rec) + r);
                        },
                        Err(_) => {},
                    }
                    specs = specs.push(rec);
                }
                recs.push(InstructionRecord { bytes: code, offset: at as u64, size: size as u64, opcode, operand });
                at = at + size;
            },
        }
    }
    assert(specs + seq![] =~= specs);
    Ok(recs)
}

} // verus!
