use vstd::prelude::*;

pub mod object_file;
pub mod locate;
pub mod rodata;
pub mod decode;
pub mod resolve;
pub mod link;
pub mod assemble;
pub mod byteparser;
pub mod laws;

verus! {

#[verifier::external_type_specification]
#[verifier::external_body]
pub struct ExCompileError(sbpf_assembler::CompileError);

#[verifier::external_type_specification]
#[verifier::external_body]
pub struct ExSbpfError(sbpf_common::errors::SBPFError);

/// Every way a link can fail.
#[derive(Debug)]
pub enum SbpfLinkerError {
    /// The input is not an object file that can be read.
    ObjectFileOpenError(object::Error),
    /// The input could not be read from where it is kept.
    ObjectFileReadError(String),
    /// The code generator in front of this linker failed.
    LinkerError(String),
    /// The code generator issued a diagnostic of error severity.
    LlvmDiagnosticError,
    /// The assembler refused the resolved program; every error it gave is kept.
    BuildProgramError { errors: Vec<sbpf_assembler::CompileError> },
    /// The code section holds no valid instruction at `offset`: the bytes
    /// there do not decode (`cause`), or too few of them are left (`None`).
    InstructionParseError { offset: u64, cause: Option<sbpf_common::errors::SBPFError> },
    /// More than one section is named like read-only data.
    MultipleRodataSections,
    /// The relocation at `offset` points at no instruction, at no symbol, or
    /// at an address that no read-only data symbol has.
    RelocationTargetUnresolved { offset: u64 },
    /// The code section has relocations but the object has no read-only data.
    RelocationWithoutRodata,
    /// Two read-only data symbols share the address `address`.
    DuplicateRodataAddress { address: u64 },
    /// The read-only data symbol at position `index` of the symbol table has
    /// no readable name, or lies outside its section's data.
    MalformedRodataSymbol { index: usize },
    /// The read-only data is larger than 64-bit offsets can hold.
    RodataTooLarge,
}

/// Links the relocatable object in `source` into SBPF bytecode. Fails with
/// `ObjectFileOpenError` exactly where the bytes are no object file; then
/// with the error of the first resolution stage that fails; otherwise
/// succeeds exactly where the assembler accepts the resolved program, with
/// the bytecode it emits, and keeps every error it reports. Nothing is
/// produced where any stage fails.
pub fn link_program(source: &[u8]) -> (r: Result<Vec<u8>, SbpfLinkerError>)
    ensures
        object_file::parsed_object(source@) is None <==> r matches Err(
            SbpfLinkerError::ObjectFileOpenError(_),
        ),
        object_file::parsed_object(source@) is Some && link::link_outcome(object_file::parsed_model(source@)) is Err ==> (r matches Err(
            e,
        ) && link::link_outcome(object_file::parsed_model(source@)) matches Err(f) && link::failure_of(e) == Some(f)),
        object_file::parsed_object(source@) is Some && link::link_outcome(object_file::parsed_model(source@)) is Ok ==> (r is Ok
            <==> assemble::assembled_input(link::assembler_input(object_file::parsed_model(source@))) is Ok),
        object_file::parsed_object(source@) is Some && link::link_outcome(object_file::parsed_model(source@)) is Ok ==> (r matches Ok(
            b,
        ) ==> b@ == assemble::assembled_input(link::assembler_input(object_file::parsed_model(source@)))->Ok_0),
        object_file::parsed_object(source@) is Some && link::link_outcome(object_file::parsed_model(source@)) is Ok ==> (r matches Err(
            e,
        ) ==> e matches SbpfLinkerError::BuildProgramError { errors } && errors@
            == assemble::assembled_input(link::assembler_input(object_file::parsed_model(source@)))->Err_0),
{
    let obj = match object_file::read_object(source) {
        Ok(obj) => obj,
        Err(e) => return Err(SbpfLinkerError::ObjectFileOpenError(e)),
    };
    proof { link::lemma_same_model(obj, object_file::parsed_object(source@)->Some_0); }
    let prog = match link::resolve_object(&obj) {
        Ok(prog) => prog,
        Err(e) => return Err(e),
    };
    assemble::assemble_bytecode(&prog)
}

} // verus!
