//! The error taxonomy of the pipeline: every failure names the
//! operation that failed and carries what is needed to describe it.

use vstd::prelude::*;

verus! {

/// What can go wrong during one resolution step.
#[derive(Debug, Clone, PartialEq, Eq)]
pub enum PipelineError {
    /// The generator subprocess could not be created; carries the
    /// offending command string.
    Spawn { command: String },
    /// The bytes captured from the generator are not valid text.
    Encoding,
    /// No suggestion is registered for the requested tag and variable.
    Lookup { tag: String, variable: String },
    /// A required environment-provided input is absent.
    MissingEnvironment { variable: String },
}

impl PipelineError {
    /// A user-facing description of the failure.
    pub fn message(&self) -> (r: String)
        ensures
            (self matches PipelineError::Spawn { command } ==> r@
                == "Unable to run the suggestion command: "@ + command@),
            self is Encoding ==> r@ == "Suggestions are invalid utf8"@,
            self is Lookup ==> r@ == "No suggestions"@,
            (self matches PipelineError::MissingEnvironment { variable } ==> r@
                == "The env var \""@ + variable@ + "\" isn't set"@),
    {
        match self {
            PipelineError::Spawn { command } => {
                let mut m = String::from_str("Unable to run the suggestion command: ");
                m.append(command.as_str());
                m
            },
            PipelineError::Encoding => String::from_str("Suggestions are invalid utf8"),
            PipelineError::Lookup { tag: _, variable: _ } => String::from_str("No suggestions"),
            PipelineError::MissingEnvironment { variable } => {
                let mut m = String::from_str("The env var \"");
                m.append(variable.as_str());
                m.append("\" isn't set");
                m
            },
        }
    }
}

} // verus!
