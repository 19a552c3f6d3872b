use vstd::prelude::*;
use sbpf_assembler::ProgramLayout;
use crate::assemble::{assemble, assembled_input};
use crate::link::{assembler_input, failure_of, lemma_same_model, link_outcome, resolve_object};
use crate::object_file::{parsed_model, parsed_object, read_object, ObjectModel};
use crate::SbpfLinkerError;

verus! {

/// Resolves the object `obj` and assembles the result. Fails where
/// resolution fails, with the error of that stage; otherwise succeeds
/// exactly where the assembler accepts the resolved program, and keeps
/// every error it reports.
pub fn link_object(obj: &ObjectModel) -> (r: Result<ProgramLayout, SbpfLinkerError>)
    ensures
        link_outcome(*obj) is Err ==> (r matches Err(e) && link_outcome(*obj) matches Err(f)
            && failure_of(e) == Some(f)),
        link_outcome(*obj) is Ok ==> (r is Ok <==> assembled_input(assembler_input(*obj)) is Ok),
        link_outcome(*obj) is Ok ==> (r matches Err(e) ==> e matches SbpfLinkerError::BuildProgramError {
            errors,
        } && errors@ == assembled_input(assembler_input(*obj))->Err_0),
{
    let prog = match resolve_object(obj) {
        Ok(prog) => prog,
        Err(e) => return Err(e),
    };
    assemble(&prog)
}

/// Reads the relocatable object in `bytes`, resolves it, and assembles the
/// result. Fails with `ObjectFileOpenError` exactly where the bytes are no
/// object file; then as `link_object` does on the object read.
pub fn parse_bytecode(bytes: &[u8]) -> (r: Result<ProgramLayout, SbpfLinkerError>)
    ensures
        parsed_object(bytes@) is None <==> r matches Err(SbpfLinkerError::ObjectFileOpenError(_)),
        parsed_object(bytes@) is Some && link_outcome(parsed_model(bytes@)) is Err ==> (r matches Err(e)
            && link_outcome(parsed_model(bytes@)) matches Err(f) && failure_of(e) == Some(f)),
        parsed_object(bytes@) is Some && link_outcome(parsed_model(bytes@)) is Ok ==> (r is Ok <==> assembled_input(
            assembler_input(parsed_model(bytes@)),
        ) is Ok),
        parsed_object(bytes@) is Some && link_outcome(parsed_model(bytes@)) is Ok ==> (r matches Err(e) ==> e matches SbpfLinkerError::BuildProgramError {
            errors,
        } && errors@ == assembled_input(assembler_input(parsed_model(bytes@)))->Err_0),
{
    let obj = match read_object(bytes) {
        Ok(obj) => obj,
        Err(e) => return Err(SbpfLinkerError::ObjectFileOpenError(e)),
    };
    proof { lemma_same_model(obj, parsed_object(bytes@)->Some_0); }
    link_object(&obj)
}

} // verus!
