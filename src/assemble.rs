use vstd::prelude::*;
use sbpf_assembler::ast::AST;
use sbpf_assembler::astnode::{ASTNode, ROData};
use sbpf_assembler::{CompileError, OptimizationConfig, Program, ProgramLayout, SbpfArch, Token};
use sbpf_common::inst_param::Number;
use sbpf_common::instruction::Instruction;
use crate::decode::{decode_outcome, record_ready, record_size, InstructionRecord, Operand};
use crate::link::ResolvedProgram;
use crate::rodata::RodataEntry;
use crate::SbpfLinkerError;

verus! {

#[verifier::external_type_specification]
#[verifier::external_body]
pub struct ExAst(AST);

#[verifier::external_type_specification]
#[verifier::external_body]
pub struct ExProgramLayout(ProgramLayout);

/// The code of a syntax tree: for each instruction node in order, the bytes
/// it was decoded from, the label that replaced its immediate (if any), and
/// its offset.
pub uninterp spec fn ast_code(a: AST) -> Seq<(Seq<u8>, Option<Seq<char>>, u64)>;

/// The read-only data of a syntax tree: for each `.byte` node in order, its
/// name, its bytes, and its offset.
pub uninterp spec fn ast_rodata(a: AST) -> Seq<(Seq<char>, Seq<u8>, u64)>;

/// The code size recorded in a syntax tree.
pub uninterp spec fn ast_text_size(a: AST) -> u64;

/// The read-only data size recorded in a syntax tree.
pub uninterp spec fn ast_rodata_size(a: AST) -> u64;

/// What sbpf-assembler makes of a syntax tree with that code, read-only
/// data and sizes: the emitted bytecode, or every error it found.
pub uninterp spec fn assembled(
    code: Seq<(Seq<u8>, Option<Seq<char>>, u64)>,
    rodata: Seq<(Seq<char>, Seq<u8>, u64)>,
    text_size: u64,
    rodata_size: u64,
) -> Result<Seq<u8>, Seq<CompileError>>;

/// What is handed to the assembler, as plain values.
pub struct AsmInput {
    pub code: Seq<(Seq<u8>, Option<Seq<char>>, u64)>,
    pub rodata: Seq<(Seq<char>, Seq<u8>, u64)>,
    pub text_size: u64,
    pub rodata_size: u64,
}

pub open spec fn assembled_input(i: AsmInput) -> Result<Seq<u8>, Seq<CompileError>> {
    assembled(i.code, i.rodata, i.text_size, i.rodata_size)
}

pub open spec fn label_of(op: Operand) -> Option<Seq<char>> {
    match op {
        Operand::Label(n) => Some(n@),
        _ => None,
    }
}

pub open spec fn code_node(r: InstructionRecord) -> (Seq<u8>, Option<Seq<char>>, u64) {
    (r.bytes@, label_of(r.operand), r.offset)
}

pub open spec fn rodata_node(e: RodataEntry) -> (Seq<char>, Seq<u8>, u64) {
    (e.name@, e.bytes@, e.output_offset)
}

/// The assembler input that a resolved program gives.
pub open spec fn program_input(p: ResolvedProgram) -> AsmInput {
    AsmInput {
        code: p.instructions@.map_values(|r: InstructionRecord| code_node(r)),
        rodata: p.rodata@.map_values(|e: RodataEntry| rodata_node(e)),
        text_size: p.text_size,
        rodata_size: p.rodata_size,
    }
}

pub open spec fn ast_input(a: AST) -> AsmInput {
    AsmInput { code: ast_code(a), rodata: ast_rodata(a), text_size: ast_text_size(a), rodata_size: ast_rodata_size(a) }
}

/// Relies on sbpf_assembler's `AST::new`: a tree with no nodes and both
/// sizes 0.
#[verifier::external_body]
fn new_ast() -> (r: AST)
    ensures
        ast_code(r) == Seq::<(Seq<u8>, Option<Seq<char>>, u64)>::empty(),
        ast_rodata(r) == Seq::<(Seq<char>, Seq<u8>, u64)>::empty(),
        ast_text_size(r) == 0,
        ast_rodata_size(r) == 0,
{
    AST::new()
}

/// Relies on sbpf_common's `Instruction::from_bytes` (which succeeds on
/// these bytes) and the public `nodes` list of sbpf_assembler's `AST`:
/// appends the instruction that `bytes` encode, at `offset`.
#[verifier::external_body]
fn push_instruction(ast: &mut AST, bytes: &[u8], offset: u64)
    requires
        bytes@.len() > 0,
        bytes@.len() == record_size(bytes@[0]),
        decode_outcome(bytes@) is Some,
    ensures
        ast_code(*final(ast)) == ast_code(*old(ast)).push((bytes@, None::<Seq<char>>, offset)),
        ast_rodata(*final(ast)) == ast_rodata(*old(ast)),
        ast_text_size(*final(ast)) == ast_text_size(*old(ast)),
        ast_rodata_size(*final(ast)) == ast_rodata_size(*old(ast)),
{
    let instruction = Instruction::from_bytes(bytes).unwrap();
    ast.nodes.push(ASTNode::Instruction { instruction, offset });
}

/// Relies on sbpf_common's `Instruction::from_bytes` (which succeeds on
/// these bytes), its public `imm` field, and the public `nodes` list of
/// sbpf_assembler's `AST`: appends the instruction that `bytes` encode with
/// the label `name` as its immediate, at `offset`.
#[verifier::external_body]
fn push_labelled_instruction(ast: &mut AST, bytes: &[u8], name: String, offset: u64)
    requires
        bytes@.len() > 0,
        bytes@.len() == record_size(bytes@[0]),
        decode_outcome(bytes@) is Some,
    ensures
        ast_code(*final(ast)) == ast_code(*old(ast)).push((bytes@, Some(name@), offset)),
        ast_rodata(*final(ast)) == ast_rodata(*old(ast)),
        ast_text_size(*final(ast)) == ast_text_size(*old(ast)),
        ast_rodata_size(*final(ast)) == ast_rodata_size(*old(ast)),
{
    let mut instruction = Instruction::from_bytes(bytes).unwrap();
    instruction.imm = Some(either::Either::Left(name));
    ast.nodes.push(ASTNode::Instruction { instruction, offset });
}

/// Relies on the public `rodata_nodes` list of sbpf_assembler's `AST`:
/// appends a `.byte` declaration of `bytes` named `name`, at `offset`.
#[verifier::external_body]
fn push_rodata(ast: &mut AST, name: String, bytes: &Vec<u8>, offset: u64)
    ensures
        ast_rodata(*final(ast)) == ast_rodata(*old(ast)).push((name@, bytes@, offset)),
        ast_code(*final(ast)) == ast_code(*old(ast)),
        ast_text_size(*final(ast)) == ast_text_size(*old(ast)),
        ast_rodata_size(*final(ast)) == ast_rodata_size(*old(ast)),
{
    let values = bytes.iter().map(|b| Number::Int(i64::from(*b))).collect();
    let args = vec![Token::Directive(String::from("byte"), 0..1), Token::VectorLiteral(values, 0..1)];
    ast.rodata_nodes.push(ASTNode::ROData { rodata: ROData { name, args, span: 0..1 }, offset });
}

/// Relies on sbpf_assembler's `AST::set_text_size`.
#[verifier::external_body]
fn set_text_size(ast: &mut AST, size: u64)
    ensures
        ast_text_size(*final(ast)) == size,
        ast_code(*final(ast)) == ast_code(*old(ast)),
        ast_rodata(*final(ast)) == ast_rodata(*old(ast)),
        ast_rodata_size(*final(ast)) == ast_rodata_size(*old(ast)),
{
    ast.set_text_size(size);
}

/// Relies on sbpf_assembler's `AST::set_rodata_size`.
#[verifier::external_body]
fn set_rodata_size(ast: &mut AST, size: u64)
    ensures
        ast_rodata_size(*final(ast)) == size,
        ast_code(*final(ast)) == ast_code(*old(ast)),
        ast_rodata(*final(ast)) == ast_rodata(*old(ast)),
        ast_text_size(*final(ast)) == ast_text_size(*old(ast)),
{
    ast.set_rodata_size(size);
}

/// Relies on sbpf_assembler's `build_program`, for SBPF version 0 and
/// without optimisations: the program's layout, or every error found.
#[verifier::external_body]
fn build_layout(ast: AST) -> (r: Result<ProgramLayout, Vec<CompileError>>)
    ensures
        r is Ok <==> assembled(ast_code(ast), ast_rodata(ast), ast_text_size(ast), ast_rodata_size(ast)) is Ok,
        r matches Err(es) ==> es@ == assembled(
            ast_code(ast),
            ast_rodata(ast),
            ast_text_size(ast),
            ast_rodata_size(ast),
        )->Err_0,
{
    sbpf_assembler::ast::build_program(ast, SbpfArch::V0, OptimizationConfig::disabled())
}

/// Relies on sbpf_assembler's `build_program` (as `build_layout` does),
/// then `Program::from_parse_result` without debug data and
/// `Program::emit_bytecode`: the bytecode, or every error found.
#[verifier::external_body]
fn build_bytecode(ast: AST) -> (r: Result<Vec<u8>, Vec<CompileError>>)
    ensures
        r is Ok <==> assembled(ast_code(ast), ast_rodata(ast), ast_text_size(ast), ast_rodata_size(ast)) is Ok,
        r matches Ok(b) ==> b@ == assembled(
            ast_code(ast),
            ast_rodata(ast),
            ast_text_size(ast),
            ast_rodata_size(ast),
        )->Ok_0,
        r matches Err(es) ==> es@ == assembled(
            ast_code(ast),
            ast_rodata(ast),
            ast_text_size(ast),
            ast_rodata_size(ast),
        )->Err_0,
{
    let layout = sbpf_assembler::ast::build_program(ast, SbpfArch::V0, OptimizationConfig::disabled())?;
    Ok(Program::from_parse_result(layout, None).emit_bytecode())
}

/// Builds the syntax tree of a resolved program: each read-only data entry
/// at its output offset, each instruction at its offset (with a label as
/// immediate where a relocation was resolved), and both sizes.
pub fn to_ast(prog: &ResolvedProgram) -> (r: AST)
    requires
        forall|i: int| 0 <= i < prog.instructions@.len() ==> record_ready(#[trigger] prog.instructions@[i]),
    ensures
        ast_input(r) == program_input(*prog),
{
    let mut ast = new_ast();
    let mut i: usize = 0;
    while i < prog.rodata.len()
        invariant
            i <= prog.rodata@.len(),
            ast_rodata(ast) == prog.rodata@.subrange(0, i as int).map_values(|e: RodataEntry| rodata_node(e)),
            ast_code(ast) == Seq::<(Seq<u8>, Option<Seq<char>>, u64)>::empty(),
        decreases prog.rodata@.len() - i,
    {
        let e = &prog.rodata[i];
        push_rodata(&mut ast, e.name.clone(), &e.bytes, e.output_offset);
        assert(prog.rodata@.subrange(0, i + 1).map_values(|e: RodataEntry| rodata_node(e)) =~= prog.rodata@.subrange(
            0,
            i as int,
        ).map_values(|e: RodataEntry| rodata_node(e)).push(rodata_node(prog.rodata@[i as int])));
        i = i + 1;
    }
    set_rodata_size(&mut ast, prog.rodata_size);
    let mut j: usize = 0;
    while j < prog.instructions.len()
        invariant
            j <= prog.instructions@.len(),
            forall|i: int| 0 <= i < prog.instructions@.len() ==> record_ready(#[trigger] prog.instructions@[i]),
            ast_rodata(ast) == prog.rodata@.map_values(|e: RodataEntry| rodata_node(e)),
            ast_rodata_size(ast) == prog.rodata_size,
            ast_code(ast) == prog.instructions@.subrange(0, j as int).map_values(
                |r: InstructionRecord| code_node(r),
            ),
        decreases prog.instructions@.len() - j,
    {
        let rec = &prog.instructions[j];
        assert(record_ready(prog.instructions@[j as int]));
        match &rec.operand {
            Operand::Label(name) => push_labelled_instruction(&mut ast, rec.bytes.as_slice(), name.clone(), rec.offset),
            _ => push_instruction(&mut ast, rec.bytes.as_slice(), rec.offset),
        }
        assert(prog.instructions@.subrange(0, j + 1).map_values(|r: InstructionRecord| code_node(r))
            =~= prog.instructions@.subrange(0, j as int).map_values(|r: InstructionRecord| code_node(r)).push(
            code_node(prog.instructions@[j as int]),
        ));
        j = j + 1;
    }
    set_text_size(&mut ast, prog.text_size);
    assert(prog.rodata@.subrange(0, prog.rodata@.len() as int) =~= prog.rodata@);
    assert(prog.instructions@.subrange(0, j as int) =~= prog.instructions@);
    ast
}

/// Hands a resolved program to the assembler. Succeeds exactly where the
/// assembler accepts the program; otherwise every error it reports is kept.
pub fn assemble(prog: &ResolvedProgram) -> (r: Result<ProgramLayout, SbpfLinkerError>)
    requires
        forall|i: int| 0 <= i < prog.instructions@.len() ==> record_ready(#[trigger] prog.instructions@[i]),
    ensures
        r is Ok <==> assembled_input(program_input(*prog)) is Ok,
        r matches Err(e) ==> e matches SbpfLinkerError::BuildProgramError { errors } && errors@
            == assembled_input(program_input(*prog))->Err_0,
{
    let ast = to_ast(prog);
    match build_layout(ast) {
        Ok(layout) => Ok(layout),
        Err(errors) => Err(SbpfLinkerError::BuildProgramError { errors }),
    }
}

/// Assembles a resolved program and emits its bytecode. Succeeds exactly
/// where the assembler accepts the program, with the bytecode it emits;
/// otherwise every error it reports is kept.
pub fn assemble_bytecode(prog: &ResolvedProgram) -> (r: Result<Vec<u8>, SbpfLinkerError>)
    requires
        forall|i: int| 0 <= i < prog.instructions@.len() ==> record_ready(#[trigger] prog.instructions@[i]),
    ensures
        r is Ok <==> assembled_input(program_input(*prog)) is Ok,
        r matches Ok(b) ==> b@ == assembled_input(program_input(*prog))->Ok_0,
        r matches Err(e) ==> e matches SbpfLinkerError::BuildProgramError { errors } && errors@
            == assembled_input(program_input(*prog))->Err_0,
{
    let ast = to_ast(prog);
    match build_bytecode(ast) {
        Ok(b) => Ok(b),
        Err(errors) => Err(SbpfLinkerError::BuildProgramError { errors }),
    }
}

} // verus!
