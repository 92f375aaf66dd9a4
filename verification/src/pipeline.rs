//! One resolution step, assembled: decide what to do for a snippet,
//! and shape every outcome as a launcher protocol stream that is always
//! properly terminated.

use vstd::prelude::*;
use vstd::utf8::decode_utf8;
use vstd::utf8::valid_utf8;

use crate::error::PipelineError;
use crate::formatter::candidate_lines;
use crate::formatter::format_candidates;
use crate::formatter::LauncherItem;
use crate::generator::generator_text;
use crate::generator::GeneratorOutcome;
use crate::interp::interpolate;
use crate::interp::replace_all;
use crate::scanner::find_variable;
use crate::table::SuggestionTable;
use crate::text::first_placeholder;
use crate::text::has_placeholder;
use crate::text::token;

verus! {

/// What a resolution step must do next, decided from the snippet, the
/// tag context, and the suggestion table.
#[derive(Debug, Clone, PartialEq, Eq)]
pub enum Plan {
    /// The snippet holds no placeholder: it is fully resolved.
    NoReference,
    /// Run `command` to generate candidates for the variable `varname`.
    Generate { varname: String, command: String },
    /// The leftmost placeholder has no registered suggestion.
    NoSuggestions { varname: String },
}

/// Decide the step for a snippet: scan for the leftmost placeholder and
/// look its generator command up under the given tag context.
pub fn plan_step(snippet: &str, tags: &str, table: &SuggestionTable) -> (p: Plan)
    ensures
        match p {
            Plan::NoReference => !has_placeholder(snippet@),
            Plan::Generate { varname, command } => first_placeholder(snippet@, varname@)
                && table.lookup(tags@, varname@) == Some(command@),
            Plan::NoSuggestions { varname } => first_placeholder(snippet@, varname@)
                && table.lookup(tags@, varname@) is None,
        },
{
    match find_variable(snippet) {
        None => Plan::NoReference,
        Some(reference) => match table.get(tags, reference.name.as_str()) {
            Some(entry) => Plan::Generate {
                varname: reference.name,
                command: entry.command.clone(),
            },
            None => Plan::NoSuggestions { varname: reference.name },
        },
    }
}

/// One record of the line-oriented script filter protocol.
#[derive(Debug, Clone, PartialEq, Eq)]
pub enum ProtocolRecord {
    /// Opens the item list, optionally naming the variable being
    /// resolved.
    Start { varname: Option<String> },
    /// One selectable candidate.
    Item { item: LauncherItem },
    /// Closes the item list.
    End,
}

/// The outcome of one resolution step: the protocol records to emit, in
/// order, and the error to report, if any.  The records always close
/// the stream they open, error or not.
#[derive(Debug)]
pub struct StepResult {
    pub records: Vec<ProtocolRecord>,
    pub error: Option<PipelineError>,
}

/// A protocol stream is well formed when it opens first and closes
/// last.
pub open spec fn well_formed_stream(records: Seq<ProtocolRecord>) -> bool {
    &&& records.len() >= 2
    &&& records[0] is Start
    &&& records[records.len() - 1] is End
}

/// The empty-state signal: a fully resolved snippet presents no
/// candidates, only an anonymous opened and closed item list.
pub fn empty_state_response() -> (r: StepResult)
    ensures
        well_formed_stream(r.records@),
        r.records@.len() == 2,
        r.records@[0] matches ProtocolRecord::Start { varname: None },
        r.error is None,
{
    let mut records: Vec<ProtocolRecord> = Vec::new();
    records.push(ProtocolRecord::Start { varname: None });
    records.push(ProtocolRecord::End);
    StepResult { records, error: None }
}

/// The lookup-miss outcome: the stream opened for the variable is still
/// terminated, and the step fails with the lookup error for the pair.
pub fn lookup_miss_response(tags: &str, varname: &str) -> (r: StepResult)
    ensures
        well_formed_stream(r.records@),
        r.records@.len() == 2,
        (r.records@[0] matches ProtocolRecord::Start { varname: v } && v matches Some(n) && n@
            == varname@),
        (r.error matches Some(e) && e matches PipelineError::Lookup { tag, variable } && tag@
            == tags@ && variable@ == varname@),
{
    let mut records: Vec<ProtocolRecord> = Vec::new();
    records.push(ProtocolRecord::Start { varname: Some(varname.to_owned()) });
    records.push(ProtocolRecord::End);
    StepResult {
        records,
        error: Some(
            PipelineError::Lookup { tag: tags.to_owned(), variable: varname.to_owned() },
        ),
    }
}

/// The decision of one suggestion invocation: either the protocol
/// stream is already determined, or the caller must run the generator
/// command and hand what it observed to `present_candidates`.
#[derive(Debug)]
pub enum StepDecision {
    Ready(StepResult),
    RunGenerator { varname: String, command: String },
}

/// Decide a whole suggestion invocation short of running the generator.
/// A snippet with no placeholder is ready with exactly the empty-state
/// signal; a leftmost placeholder with no registered suggestion is
/// ready with a terminated stream and the lookup error; only a
/// registered placeholder asks the caller to run its command.
pub fn suggestions_step(snippet: &str, tags: &str, table: &SuggestionTable) -> (d: StepDecision)
    ensures
        match d {
            StepDecision::Ready(r) => {
                &&& well_formed_stream(r.records@)
                &&& if !has_placeholder(snippet@) {
                    r.records@.len() == 2 && (
                    r.records@[0] matches ProtocolRecord::Start { varname: None }) && r.error
                        is None
                } else {
                    &&& r.records@.len() == 2
                    &&& (r.records@[0] matches ProtocolRecord::Start { varname: s } && s matches Some(
                        v,
                    ) && first_placeholder(snippet@, v@) && table.lookup(tags@, v@) is None)
                    &&& (r.error matches Some(e) && e matches PipelineError::Lookup {
                        tag,
                        variable,
                    } && tag@ == tags@ && first_placeholder(snippet@, variable@))
                }
            },
            StepDecision::RunGenerator { varname, command } => first_placeholder(
                snippet@,
                varname@,
            ) && table.lookup(tags@, varname@) == Some(command@),
        },
{
    match plan_step(snippet, tags, table) {
        Plan::NoReference => StepDecision::Ready(empty_state_response()),
        Plan::NoSuggestions { varname } => {
            proof {
                let i = choose|i: int|
                    crate::text::first_placeholder_at(snippet@, varname@, i);
                assert(crate::text::some_placeholder_at(snippet@, i));
            }
            StepDecision::Ready(lookup_miss_response(tags, varname.as_str()))
        },
        Plan::Generate { varname, command } => StepDecision::RunGenerator { varname, command },
    }
}

/// Present what running `command` for the variable `varname` produced.
/// Captured valid text becomes one item per candidate line; a failed
/// spawn or invalid text becomes the matching error with no item at
/// all; in every case the stream is opened for the variable and closed.
pub fn present_candidates(
    snippet: &str,
    varname: &str,
    command: &str,
    outcome: GeneratorOutcome,
) -> (r: StepResult)
    ensures
        well_formed_stream(r.records@),
        (r.records@[0] matches ProtocolRecord::Start { varname: v } && v matches Some(n) && n@
            == varname@),
        match outcome {
            GeneratorOutcome::SpawnFailed => r.records@.len() == 2 && (
            r.error matches Some(e) && e matches PipelineError::Spawn { command: c } && c@
                == command@),
            GeneratorOutcome::Captured(bytes) => {
                if valid_utf8(bytes@) {
                    let lines = candidate_lines(decode_utf8(bytes@));
                    &&& r.error is None
                    &&& r.records@.len() == lines.len() + 2
                    &&& forall|i: int|
                        0 <= i < lines.len() ==> {
                            &&& (#[trigger] r.records@[i + 1])
                                matches ProtocolRecord::Item { item }
                            &&& item.title@ == lines[i]
                            &&& item.payload@ == replace_all(snippet@, token(varname@), lines[i])
                        }
                } else {
                    r.records@.len() == 2 && (r.error matches Some(e) && e is Encoding)
                }
            },
        },
{
    let mut records: Vec<ProtocolRecord> = Vec::new();
    records.push(ProtocolRecord::Start { varname: Some(varname.to_owned()) });
    match generator_text(command, outcome) {
        Err(e) => {
            records.push(ProtocolRecord::End);
            StepResult { records, error: Some(e) }
        },
        Ok(text) => {
            let mut items = format_candidates(snippet, varname, text.as_str());
            let n = items.len();
            let mut k: usize = 0;
            // move the items into the record stream, front first
            let ghost items0 = items@;
            while k < n
                invariant
                    n == items0.len(),
                    k <= n,
                    items@ =~= items0.skip(k as int),
                    records@.len() == k + 1,
                    forall|i: int|
                        0 <= i < k ==> ((#[trigger] records@[i + 1])
                            matches ProtocolRecord::Item { item } && item == items0[i]),
                    records@[0] matches ProtocolRecord::Start { varname: v } && v matches Some(nm)
                        && nm@ == varname@,
                decreases n - k,
            {
                let item = items.remove(0);
                proof {
                    assert(items0.skip(k as int)[0] == items0[k as int]);
                    assert(items0.skip(k as int).skip(1) =~= items0.skip(k + 1));
                }
                records.push(ProtocolRecord::Item { item });
                k = k + 1;
            }
            records.push(ProtocolRecord::End);
            StepResult { records, error: None }
        },
    }
}

/// Hand back an environment-provided input, or the missing-environment
/// error naming the variable that was not supplied.
pub fn require_env(name: &str, value: Option<String>) -> (r: Result<String, PipelineError>)
    ensures
        match value {
            Some(s) => r matches Ok(v) && v@ == s@,
            None => r matches Err(e) && (
            e matches PipelineError::MissingEnvironment { variable } && variable@ == name@),
        },
{
    match value {
        Some(s) => Ok(s),
        None => Err(PipelineError::MissingEnvironment { variable: name.to_owned() }),
    }
}

/// The interpolation step of a resolution session: given the snippet,
/// the target variable name, and the chosen value, as the environment
/// supplied them, substitute every `<varname>` token; each absent input
/// is the missing-environment error naming it, the value under the
/// variable's own name.
pub fn transform_step(
    snippet: Option<String>,
    varname: Option<String>,
    value: Option<String>,
) -> (r: Result<String, PipelineError>)
    ensures
        snippet is None ==> (r matches Err(e) && (
        e matches PipelineError::MissingEnvironment { variable } && variable@ == "snippet"@)),
        snippet is Some && varname is None ==> (r matches Err(e) && (
        e matches PipelineError::MissingEnvironment { variable } && variable@ == "varname"@)),
        (snippet is Some && varname is Some && value is None ==> (r matches Err(e) && (
        e matches PipelineError::MissingEnvironment { variable } && variable@ == (
        varname->Some_0)@))),
        (snippet is Some && varname is Some && value is Some ==> (r matches Ok(out) && out@
            == replace_all((snippet->Some_0)@, token((varname->Some_0)@), (value->Some_0)@))),
{
    let s = match require_env("snippet", snippet) {
        Ok(s) => s,
        Err(e) => {
            return Err(e);
        },
    };
    let vn = match require_env("varname", varname) {
        Ok(vn) => vn,
        Err(e) => {
            return Err(e);
        },
    };
    let v = match require_env(vn.as_str(), value) {
        Ok(v) => v,
        Err(e) => {
            return Err(e);
        },
    };
    Ok(interpolate(s.as_str(), vn.as_str(), v.as_str()))
}

} // verus!
