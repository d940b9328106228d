//! The decisions of the formatting pipeline around one run of `clang-format`.
//!
//! The pipeline itself launches a process and waits for it. What it decides
//! before the launch and after the exit is here: `begin_format` says whether
//! to launch at all and with which argument, `finish_format` says what the
//! run came to.

use crate::configuration::{
    cli_flag, diagnostic_texts, resolve_config, resolved_diagnostics, resolved_new_line_kind,
    resolved_settings, Configuration, ResolveConfigurationResult,
};
use crate::key_map::{distinct_keys, ConfigKeyMap};
use dprint_core::configuration::GlobalConfiguration;
use std::ops::Range;
use vstd::prelude::*;
use vstd::utf8::{
    decode_utf8, decode_utf8_encode_utf8, encode_utf8, encode_utf8_decode_utf8,
    encode_utf8_valid_utf8, valid_utf8,
};

verus! {

/// One request to format a document.
pub struct FormatRequest<'a> {
    /// The text of the document.
    pub file_text: String,
    /// The part of the document to format, where only a part is asked for.
    pub range: Option<Range<usize>>,
    /// The configuration to format with.
    pub config: &'a Configuration,
}

/// What a format request came to.
#[derive(Debug, PartialEq, Eq)]
pub enum FormatOutcome {
    /// The document stays as it is.
    Unchanged,
    /// The document gets this text.
    Rewritten(String),
    /// Formatting failed, for this reason.
    Failed(String),
}

/// Model of a `FormatOutcome`.
pub enum OutcomeView {
    Unchanged,
    Rewritten(Seq<char>),
    Failed(Seq<char>),
}

impl View for FormatOutcome {
    type V = OutcomeView;

    open spec fn view(&self) -> OutcomeView {
        match self {
            FormatOutcome::Unchanged => OutcomeView::Unchanged,
            FormatOutcome::Rewritten(text) => OutcomeView::Rewritten(text@),
            FormatOutcome::Failed(message) => OutcomeView::Failed(message@),
        }
    }
}

/// How to run the formatter on a document.
#[derive(Debug, PartialEq, Eq)]
pub struct Invocation {
    /// The program to launch.
    pub program: String,
    /// Its single argument.
    pub argument: String,
    /// What to write to its standard input before closing it.
    pub input: String,
}

/// What to do about a format request.
#[derive(Debug, PartialEq, Eq)]
pub enum FormatStep {
    /// Nothing is to be run: the request is settled.
    Done(FormatOutcome),
    /// Run the formatter and hand the result to `finish_format`.
    Launch(Invocation),
}

/// How a run of the formatter ended.
#[derive(Debug, PartialEq, Eq)]
pub enum ToolRun {
    /// The process ran and exited.
    Exited {
        /// Whether the exit status reports success.
        success: bool,
        /// Everything it wrote to standard output.
        stdout: Vec<u8>,
        /// Everything it wrote to standard error.
        stderr: Vec<u8>,
    },
    /// The process could not be launched or talked to; the text is the
    /// system's message.
    Broken(String),
}

/// What `String::from_utf8_lossy` makes of bytes that are not valid UTF-8:
/// the text with a replacement character for each invalid sequence.
pub uninterp spec fn lossy_text(bytes: Seq<u8>) -> Seq<char>;

/// The text read from bytes: the text they encode where they are valid
/// UTF-8, and the text with replacement characters where they are not.
pub open spec fn decoded_text(bytes: Seq<u8>) -> Seq<char> {
    if valid_utf8(bytes) {
        decode_utf8(bytes)
    } else {
        lossy_text(bytes)
    }
}

/// `String::from_utf8_lossy`: valid UTF-8 comes back as the text it encodes,
/// anything else with replacement characters in it.
#[verifier::external_body]
fn decode_lossy(bytes: &[u8]) -> (text: String)
    ensures
        valid_utf8(bytes@) ==> text@ == decode_utf8(bytes@),
        !valid_utf8(bytes@) ==> text@ == lossy_text(bytes@),
{
    String::from_utf8_lossy(bytes).into_owned()
}

/// What a run of the formatter on `document` comes to: a run that broke or
/// exited with failure fails with the system's message or with what was
/// written to standard error; a successful run leaves the document unchanged
/// where its output reads as the document, and rewrites it to its output
/// otherwise.
pub open spec fn run_outcome(document: Seq<char>, run: ToolRun) -> OutcomeView {
    match run {
        ToolRun::Broken(message) => OutcomeView::Failed(message@),
        ToolRun::Exited { success, stdout, stderr } => if !success {
            OutcomeView::Failed(decoded_text(stderr@))
        } else if decoded_text(stdout@) == document {
            OutcomeView::Unchanged
        } else {
            OutcomeView::Rewritten(decoded_text(stdout@))
        },
    }
}

/// The name of the formatter's program.
pub open spec fn formatter_program() -> Seq<char> {
    "clang-format"@
}

/// The plugin: it resolves configuration and decides what a format request
/// leads to.
pub struct ClangPluginHandler;

impl ClangPluginHandler {
    /// Resolves the raw configuration of the plugin against the global one.
    pub fn resolve_config(&self, config: ConfigKeyMap, global_config: GlobalConfiguration) -> (result:
        ResolveConfigurationResult)
        ensures
            result.config.settings@ == resolved_settings(config@, global_config),
            result.config.new_line_kind == resolved_new_line_kind(config@, global_config),
            diagnostic_texts(result.diagnostics@) == resolved_diagnostics(config@, global_config),
            distinct_keys(config@),
            distinct_keys(result.config.settings@),
    {
        resolve_config(config, &global_config)
    }

    /// Decides what to do about a request. Where a part of the document is
    /// asked for, the request is settled as unchanged, whatever the document
    /// and the configuration are. Otherwise the formatter is to be run on the
    /// whole text with the style of the request's configuration.
    pub fn begin_format(&self, request: &FormatRequest) -> (step: FormatStep)
        ensures
            request.range is Some ==> step == FormatStep::Done(FormatOutcome::Unchanged),
            request.range is None ==> (step matches FormatStep::Launch(call) && {
                &&& call.program@ == formatter_program()
                &&& call.argument@ == cli_flag(request.config@, request.file_text@)
                &&& call.input@ == request.file_text@
            }),
    {
        // range formatting is not supported
        if request.range.is_some() {
            return FormatStep::Done(FormatOutcome::Unchanged);
        }
        FormatStep::Launch(
            Invocation {
                program: "clang-format".to_string(),
                argument: request.config.to_cli_flag(request.file_text.as_str()),
                input: request.file_text.clone(),
            },
        )
    }

    /// Decides what a run of the formatter came to.
    pub fn finish_format(&self, request: &FormatRequest, run: ToolRun) -> (outcome: FormatOutcome)
        ensures
            outcome@ == run_outcome(request.file_text@, run),
    {
        match run {
            ToolRun::Broken(message) => FormatOutcome::Failed(message),
            ToolRun::Exited { success, stdout, stderr } => {
                if !success {
                    return FormatOutcome::Failed(decode_lossy(stderr.as_slice()));
                }
                let new_text = decode_lossy(stdout.as_slice());
                if new_text == request.file_text {
                    FormatOutcome::Unchanged
                } else {
                    FormatOutcome::Rewritten(new_text)
                }
            },
        }
    }
}

/// After a successful run, output that is the document byte for byte leaves
/// it unchanged, and any other output that is valid UTF-8 rewrites it to
/// exactly that output. Whatever the output, the document is unchanged or
/// rewritten to the text read from the output.
pub proof fn law_output_decides(document: Seq<char>, stdout: Vec<u8>, stderr: Vec<u8>)
    ensures
        stdout@ == encode_utf8(document) ==> run_outcome(
            document,
            (ToolRun::Exited { success: true, stdout, stderr }),
        ) == OutcomeView::Unchanged,
        valid_utf8(stdout@) && stdout@ != encode_utf8(document) ==> run_outcome(
            document,
            (ToolRun::Exited { success: true, stdout, stderr }),
        ) == OutcomeView::Rewritten(decode_utf8(stdout@)),
        run_outcome(document, (ToolRun::Exited { success: true, stdout, stderr }))
            == OutcomeView::Unchanged || run_outcome(
            document,
            (ToolRun::Exited { success: true, stdout, stderr }),
        ) == OutcomeView::Rewritten(decoded_text(stdout@)),
{
    encode_utf8_valid_utf8(document);
    encode_utf8_decode_utf8(document);
    if valid_utf8(stdout@) {
        decode_utf8_encode_utf8(stdout@);
    }
}

/// A run that exits with failure fails the request with the text read from
/// standard error: the text it encodes where it is valid UTF-8, which is
/// empty where nothing was written.
pub proof fn law_failure_reports_standard_error(
    document: Seq<char>,
    stdout: Vec<u8>,
    stderr: Vec<u8>,
)
    ensures
        run_outcome(document, (ToolRun::Exited { success: false, stdout, stderr }))
            == OutcomeView::Failed(decoded_text(stderr@)),
        valid_utf8(stderr@) ==> decoded_text(stderr@) == decode_utf8(stderr@),
        stderr@.len() == 0 ==> decoded_text(stderr@) == Seq::<char>::empty(),
{
    if stderr@.len() == 0 {
        assert(stderr@ =~= encode_utf8(Seq::<char>::empty()));
        encode_utf8_valid_utf8(Seq::<char>::empty());
        encode_utf8_decode_utf8(Seq::<char>::empty());
    }
}

} // verus!
