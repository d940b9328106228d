use dprint_core::configuration::NewLineKind;
use dprint_plugin_clang::configuration::Configuration;
use dprint_plugin_clang::key_map::ConfigKeyMap;
use dprint_plugin_clang::plugin::{
    ClangPluginHandler, FormatOutcome, FormatRequest, FormatStep, Invocation, ToolRun,
};
use dprint_plugin_clang::value::ConfigKeyValue;

fn configuration() -> Configuration {
    let mut settings = ConfigKeyMap::new();
    settings.insert("BasedOnStyle".to_string(), ConfigKeyValue::String("Google".to_string()));
    Configuration { new_line_kind: NewLineKind::Auto, settings }
}

fn request<'a>(config: &'a Configuration, text: &str) -> FormatRequest<'a> {
    FormatRequest { file_text: text.to_string(), range: None, config }
}

fn exited(success: bool, stdout: &[u8], stderr: &[u8]) -> ToolRun {
    ToolRun::Exited { success, stdout: stdout.to_vec(), stderr: stderr.to_vec() }
}

#[test]
fn a_range_request_is_settled_as_unchanged() {
    let config = configuration();
    let mut request = request(&config, "int x=1;");
    request.range = Some(0..3);
    assert_eq!(ClangPluginHandler.begin_format(&request), FormatStep::Done(FormatOutcome::Unchanged));
    request.range = Some(0..0);
    request.file_text = String::new();
    assert_eq!(ClangPluginHandler.begin_format(&request), FormatStep::Done(FormatOutcome::Unchanged));
}

#[test]
fn a_whole_document_request_launches_the_formatter() {
    let config = configuration();
    let request = request(&config, "int x=1;\r\n");
    assert_eq!(
        ClangPluginHandler.begin_format(&request),
        FormatStep::Launch(Invocation {
            program: "clang-format".to_string(),
            argument: "--style={UseCRLF: true, BasedOnStyle: \"Google\"}".to_string(),
            input: "int x=1;\r\n".to_string(),
        })
    );
}

#[test]
fn different_output_rewrites_the_document() {
    let config = configuration();
    let request = request(&config, "int x=1;");
    let outcome = ClangPluginHandler.finish_format(&request, exited(true, b"int x = 1;\n", b""));
    assert_eq!(outcome, FormatOutcome::Rewritten("int x = 1;\n".to_string()));
}

#[test]
fn identical_output_leaves_the_document_unchanged() {
    let config = configuration();
    let request = request(&config, "int x = 1;\n");
    let outcome = ClangPluginHandler.finish_format(&request, exited(true, b"int x = 1;\n", b"warning"));
    assert_eq!(outcome, FormatOutcome::Unchanged);
    let empty = self::request(&config, "");
    assert_eq!(ClangPluginHandler.finish_format(&empty, exited(true, b"", b"")), FormatOutcome::Unchanged);
}

#[test]
fn output_that_differs_only_in_the_line_ending_rewrites() {
    let config = configuration();
    let request = request(&config, "int x;\n");
    let outcome = ClangPluginHandler.finish_format(&request, exited(true, b"int x;\r\n", b""));
    assert_eq!(outcome, FormatOutcome::Rewritten("int x;\r\n".to_string()));
}

#[test]
fn failure_reports_standard_error_exactly() {
    let config = configuration();
    let request = request(&config, "int x=1;");
    let outcome = ClangPluginHandler.finish_format(
        &request,
        exited(false, b"int x = 1;\n", b"error: unknown key 'Foo'\n"),
    );
    assert_eq!(outcome, FormatOutcome::Failed("error: unknown key 'Foo'\n".to_string()));
    let silent = ClangPluginHandler.finish_format(&request, exited(false, b"int x=1;", b""));
    assert_eq!(silent, FormatOutcome::Failed(String::new()));
}

#[test]
fn output_that_is_not_text_is_read_with_replacement_characters() {
    let config = configuration();
    let request = request(&config, "a");
    let outcome = ClangPluginHandler.finish_format(&request, exited(true, b"a\xffb", b""));
    assert_eq!(outcome, FormatOutcome::Rewritten("a\u{fffd}b".to_string()));
    let failed = ClangPluginHandler.finish_format(&request, exited(false, b"", b"\xc3"));
    assert_eq!(failed, FormatOutcome::Failed("\u{fffd}".to_string()));
    let replaced = self::request(&config, "a\u{fffd}b");
    let same = ClangPluginHandler.finish_format(&replaced, exited(true, b"a\xffb", b""));
    assert_eq!(same, FormatOutcome::Unchanged);
}

#[test]
fn text_beyond_ascii_is_compared_as_encoded() {
    let config = configuration();
    let request = request(&config, "// h\u{e9}llo\n");
    let same = ClangPluginHandler.finish_format(&request, exited(true, "// h\u{e9}llo\n".as_bytes(), b""));
    assert_eq!(same, FormatOutcome::Unchanged);
}

#[test]
fn a_run_that_broke_fails_with_the_system_message() {
    let config = configuration();
    let request = request(&config, "int x=1;");
    let outcome = ClangPluginHandler.finish_format(
        &request,
        ToolRun::Broken("No such file or directory (os error 2)".to_string()),
    );
    assert_eq!(outcome, FormatOutcome::Failed("No such file or directory (os error 2)".to_string()));
}
