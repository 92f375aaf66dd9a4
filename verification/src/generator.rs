//! The suggestion generator's result handling.  The caller spawns the
//! registered shell command, waits for it, and hands back what it
//! observed; here that observation becomes candidate text or an error.

use vstd::prelude::*;
use vstd::utf8::decode_utf8;
use vstd::utf8::valid_utf8;

use crate::error::PipelineError;

verus! {

/// What the caller observed of one generator run: either the process
/// could not be created at all, or it ran to completion and these are
/// all the bytes of its standard output.
pub enum GeneratorOutcome {
    SpawnFailed,
    Captured(Vec<u8>),
}

/// Relies on `String::from_utf8`: it returns the decoded string exactly
/// when the bytes are valid UTF-8, and refuses them otherwise.
#[verifier::external_body]
fn bytes_to_text(bytes: Vec<u8>) -> (r: Option<String>)
    ensures
        r is Some <==> valid_utf8(bytes@),
        r matches Some(s) ==> s@ == decode_utf8(bytes@),
{
    String::from_utf8(bytes).ok()
}

/// Turn the observed outcome of running `command` into candidate text.
/// A failed spawn surfaces as the spawn error carrying the command; a
/// capture that is not valid text surfaces whole as the encoding error,
/// never as a partial candidate list.
pub fn generator_text(command: &str, outcome: GeneratorOutcome) -> (r: Result<
    String,
    PipelineError,
>)
    ensures
        match outcome {
            GeneratorOutcome::SpawnFailed => r matches Err(e) && (
            e matches PipelineError::Spawn { command: c } && c@ == command@),
            GeneratorOutcome::Captured(bytes) => {
                &&& (r is Ok <==> valid_utf8(bytes@))
                &&& (r matches Ok(s) ==> s@ == decode_utf8(bytes@))
                &&& (r matches Err(e) ==> e is Encoding)
            },
        },
{
    match outcome {
        GeneratorOutcome::SpawnFailed => Err(
            PipelineError::Spawn { command: command.to_owned() },
        ),
        GeneratorOutcome::Captured(bytes) => match bytes_to_text(bytes) {
            Some(text) => Ok(text),
            None => Err(PipelineError::Encoding),
        },
    }
}

} // verus!
