use dprint_core::configuration::{ConfigurationDiagnostic, GlobalConfiguration, NewLineKind};
use dprint_plugin_clang::configuration::{
    raw_setting, resolve_config, Configuration, RawSetting, ResolveConfigurationResult,
};
use dprint_plugin_clang::key_map::ConfigKeyMap;
use dprint_plugin_clang::plugin::ClangPluginHandler;
use dprint_plugin_clang::value::ConfigKeyValue;

fn text(s: &str) -> ConfigKeyValue {
    ConfigKeyValue::String(s.to_string())
}

fn raw(entries: Vec<(&str, ConfigKeyValue)>) -> ConfigKeyMap {
    let mut map = ConfigKeyMap::new();
    for (key, value) in entries {
        map.insert(key.to_string(), value);
    }
    map
}

fn no_defaults() -> GlobalConfiguration {
    GlobalConfiguration { line_width: None, use_tabs: None, indent_width: None, new_line_kind: None }
}

fn settings(config: &Configuration) -> Vec<(String, ConfigKeyValue)> {
    let mut entries = Vec::new();
    let mut i = 0;
    while let Some((key, value)) = config.settings.get_index(i) {
        entries.push((key.clone(), value.clone()));
        i += 1;
    }
    entries
}

fn entry(key: &str, value: ConfigKeyValue) -> (String, ConfigKeyValue) {
    (key.to_string(), value)
}

fn resolve(entries: Vec<(&str, ConfigKeyValue)>, global: GlobalConfiguration) -> ResolveConfigurationResult {
    resolve_config(raw(entries), &global)
}

fn complaint(message: &str) -> Vec<ConfigurationDiagnostic> {
    vec![ConfigurationDiagnostic { property_name: "newLineKind".to_string(), message: message.to_string() }]
}

#[test]
fn empty_configuration_inherits_the_style_and_ends_lines_with_line_feed() {
    let result = resolve(vec![], no_defaults());
    assert_eq!(settings(&result.config), vec![entry("BasedOnStyle", text("InheritParentConfig"))]);
    assert_eq!(result.config.new_line_kind, NewLineKind::LineFeed);
    assert!(result.diagnostics.is_empty());
}

#[test]
fn global_line_width_becomes_the_column_limit() {
    let global = GlobalConfiguration { line_width: Some(80), ..no_defaults() };
    let result = resolve(vec![], global);
    assert_eq!(
        settings(&result.config),
        vec![
            entry("ColumnLimit", ConfigKeyValue::Number(80)),
            entry("BasedOnStyle", text("InheritParentConfig")),
        ]
    );
    assert_eq!(
        result.config.to_cli_flag("int x;"),
        "--style={ColumnLimit: 80, BasedOnStyle: \"InheritParentConfig\"}"
    );
}

#[test]
fn named_style_base_replaces_the_inherited_one() {
    let result = resolve(vec![("BasedOnStyle", text("Google"))], no_defaults());
    assert_eq!(settings(&result.config), vec![entry("BasedOnStyle", text("Google"))]);
    assert_eq!(result.config.settings.get("BasedOnStyle"), Some(&text("Google")));
}

#[test]
fn structured_style_base_is_carried_through() {
    let style = ConfigKeyValue::Object(vec![("Language".to_string(), text("Cpp"))]);
    let result = resolve(vec![("BasedOnStyle", style.clone())], no_defaults());
    assert_eq!(result.config.settings.get("BasedOnStyle"), Some(&style));
}

#[test]
fn all_global_defaults_are_made_up_in_order() {
    let global = GlobalConfiguration {
        line_width: Some(100),
        use_tabs: Some(true),
        indent_width: Some(4),
        new_line_kind: Some(NewLineKind::CarriageReturnLineFeed),
    };
    let result = resolve(vec![], global);
    assert_eq!(
        settings(&result.config),
        vec![
            entry("ColumnLimit", ConfigKeyValue::Number(100)),
            entry("UseTab", text("Always")),
            entry("IndentWidth", ConfigKeyValue::Number(4)),
            entry("BasedOnStyle", text("InheritParentConfig")),
        ]
    );
    assert_eq!(result.config.new_line_kind, NewLineKind::CarriageReturnLineFeed);
}

#[test]
fn tabs_are_only_made_up_when_asked_for() {
    let off = resolve(vec![], GlobalConfiguration { use_tabs: Some(false), ..no_defaults() });
    assert_eq!(off.config.settings.get("UseTab"), None);
    let absent = resolve(vec![], no_defaults());
    assert_eq!(absent.config.settings.get("UseTab"), None);
    let on = resolve(vec![], GlobalConfiguration { use_tabs: Some(true), ..no_defaults() });
    assert_eq!(on.config.settings.get("UseTab"), Some(&text("Always")));
}

#[test]
fn explicit_settings_win_over_global_defaults() {
    let global = GlobalConfiguration {
        line_width: Some(100),
        use_tabs: Some(true),
        indent_width: Some(4),
        new_line_kind: None,
    };
    let entries = vec![
        ("IndentWidth", ConfigKeyValue::Number(2)),
        ("UseTab", text("Never")),
        ("ColumnLimit", ConfigKeyValue::Number(120)),
    ];
    let result = resolve(entries.clone(), global);
    assert_eq!(
        settings(&result.config),
        vec![
            entry("BasedOnStyle", text("InheritParentConfig")),
            entry("IndentWidth", ConfigKeyValue::Number(2)),
            entry("UseTab", text("Never")),
            entry("ColumnLimit", ConfigKeyValue::Number(120)),
        ]
    );
    let other = resolve(entries, no_defaults());
    assert_eq!(settings(&other.config), settings(&result.config));
}

#[test]
fn explicit_setting_of_an_unexpected_type_still_wins() {
    let global = GlobalConfiguration { line_width: Some(100), ..no_defaults() };
    let result = resolve(vec![("ColumnLimit", ConfigKeyValue::Null)], global);
    assert_eq!(result.config.settings.get("ColumnLimit"), Some(&ConfigKeyValue::Null));
    assert_eq!(result.config.settings.len(), 2);
}

#[test]
fn unrecognized_entries_pass_through_unchanged() {
    let nested = ConfigKeyValue::Array(vec![
        ConfigKeyValue::Object(vec![("Regex".to_string(), text("^<.*>")), ("Priority".to_string(), ConfigKeyValue::Number(1))]),
        ConfigKeyValue::Bool(false),
        ConfigKeyValue::Null,
    ]);
    let result = resolve(
        vec![
            ("IncludeCategories", nested.clone()),
            ("SortIncludes", ConfigKeyValue::Bool(true)),
            ("Whatever", ConfigKeyValue::Null),
        ],
        GlobalConfiguration { line_width: Some(80), ..no_defaults() },
    );
    assert_eq!(
        settings(&result.config),
        vec![
            entry("ColumnLimit", ConfigKeyValue::Number(80)),
            entry("BasedOnStyle", text("InheritParentConfig")),
            entry("IncludeCategories", nested),
            entry("SortIncludes", ConfigKeyValue::Bool(true)),
            entry("Whatever", ConfigKeyValue::Null),
        ]
    );
}

#[test]
fn taking_the_style_base_out_moves_the_last_entry_into_its_place() {
    let result = resolve(
        vec![
            ("BasedOnStyle", text("LLVM")),
            ("A", ConfigKeyValue::Number(1)),
            ("B", ConfigKeyValue::Number(2)),
            ("C", ConfigKeyValue::Number(3)),
        ],
        no_defaults(),
    );
    assert_eq!(
        settings(&result.config),
        vec![
            entry("BasedOnStyle", text("LLVM")),
            entry("C", ConfigKeyValue::Number(3)),
            entry("A", ConfigKeyValue::Number(1)),
            entry("B", ConfigKeyValue::Number(2)),
        ]
    );
}

#[test]
fn taking_the_line_ending_out_keeps_the_order() {
    let result = resolve(
        vec![
            ("newLineKind", text("crlf")),
            ("A", ConfigKeyValue::Number(1)),
            ("B", ConfigKeyValue::Number(2)),
            ("C", ConfigKeyValue::Number(3)),
        ],
        no_defaults(),
    );
    assert_eq!(
        settings(&result.config),
        vec![
            entry("BasedOnStyle", text("InheritParentConfig")),
            entry("A", ConfigKeyValue::Number(1)),
            entry("B", ConfigKeyValue::Number(2)),
            entry("C", ConfigKeyValue::Number(3)),
        ]
    );
    assert_eq!(result.config.new_line_kind, NewLineKind::CarriageReturnLineFeed);
    assert_eq!(result.config.settings.get("newLineKind"), None);
}

#[test]
fn line_ending_words_are_read() {
    for (word, kind) in [
        ("auto", NewLineKind::Auto),
        ("lf", NewLineKind::LineFeed),
        ("crlf", NewLineKind::CarriageReturnLineFeed),
    ] {
        let global = GlobalConfiguration { new_line_kind: Some(NewLineKind::Auto), ..no_defaults() };
        let result = resolve(vec![("newLineKind", text(word))], global);
        assert_eq!(result.config.new_line_kind, kind);
        assert!(result.diagnostics.is_empty());
    }
}

#[test]
fn line_ending_falls_back_to_the_global_one() {
    let global = GlobalConfiguration { new_line_kind: Some(NewLineKind::Auto), ..no_defaults() };
    let result = resolve(vec![], global.clone());
    assert_eq!(result.config.new_line_kind, NewLineKind::Auto);
    let null = resolve(vec![("newLineKind", ConfigKeyValue::Null)], global);
    assert_eq!(null.config.new_line_kind, NewLineKind::Auto);
    assert!(null.diagnostics.is_empty());
    assert_eq!(null.config.settings.get("newLineKind"), None);
}

#[test]
fn unknown_line_ending_word_is_reported() {
    let global = GlobalConfiguration { new_line_kind: Some(NewLineKind::Auto), ..no_defaults() };
    let result = resolve(vec![("newLineKind", text("system"))], global);
    assert_eq!(result.config.new_line_kind, NewLineKind::Auto);
    assert_eq!(result.diagnostics, complaint("Found invalid value 'system'."));
    let upper = resolve(vec![("newLineKind", text("LF"))], no_defaults());
    assert_eq!(upper.config.new_line_kind, NewLineKind::LineFeed);
    assert_eq!(upper.diagnostics, complaint("Found invalid value 'LF'."));
}

#[test]
fn line_ending_of_the_wrong_type_is_reported() {
    let number = resolve(vec![("newLineKind", ConfigKeyValue::Number(-12))], no_defaults());
    assert_eq!(number.diagnostics, complaint("Found invalid value '-12'."));
    assert_eq!(number.config.new_line_kind, NewLineKind::LineFeed);
    let flag = resolve(vec![("newLineKind", ConfigKeyValue::Bool(true))], no_defaults());
    assert_eq!(flag.diagnostics, complaint("Found invalid value 'true'."));
    let list = resolve(vec![("newLineKind", ConfigKeyValue::Array(vec![text("lf")]))], no_defaults());
    assert_eq!(list.diagnostics, complaint("Arrays and objects are not supported for this value"));
    assert_eq!(list.config.new_line_kind, NewLineKind::LineFeed);
    let record = resolve(
        vec![("newLineKind", ConfigKeyValue::Object(vec![("a".to_string(), text("lf"))]))],
        no_defaults(),
    );
    assert_eq!(record.diagnostics, complaint("Arrays and objects are not supported for this value"));
    assert_eq!(record.config.settings.get("newLineKind"), None);
}

#[test]
fn global_widths_are_copied_as_the_same_numbers() {
    for width in [0u32, 1, 80, 65536, 2147483647] {
        let global = GlobalConfiguration { line_width: Some(width), ..no_defaults() };
        let result = resolve(vec![], global);
        assert_eq!(
            result.config.settings.get("ColumnLimit"),
            Some(&ConfigKeyValue::Number(i32::try_from(width).unwrap()))
        );
        assert!(result.diagnostics.is_empty());
    }
    for width in [0u8, 2, 255] {
        let global = GlobalConfiguration { indent_width: Some(width), ..no_defaults() };
        let result = resolve(vec![], global);
        assert_eq!(
            result.config.settings.get("IndentWidth"),
            Some(&ConfigKeyValue::Number(i32::from(width)))
        );
        assert!(result.diagnostics.is_empty());
    }
}

#[test]
fn line_width_beyond_the_numbers_is_reported_and_makes_up_no_column_limit() {
    let too_large = vec![ConfigurationDiagnostic {
        property_name: "lineWidth".to_string(),
        message: "Expected a line width of at most 2147483647".to_string(),
    }];
    for width in [2147483648u32, 3000000000, u32::MAX] {
        let global = GlobalConfiguration { line_width: Some(width), ..no_defaults() };
        let result = resolve(vec![("A", ConfigKeyValue::Number(1))], global);
        assert_eq!(
            settings(&result.config),
            vec![
                entry("BasedOnStyle", text("InheritParentConfig")),
                entry("A", ConfigKeyValue::Number(1)),
            ]
        );
        assert_eq!(result.diagnostics, too_large);
    }
}

#[test]
fn line_width_beyond_the_numbers_is_ignored_where_a_column_limit_is_named() {
    let global = GlobalConfiguration { line_width: Some(u32::MAX), ..no_defaults() };
    let result = resolve(vec![("ColumnLimit", ConfigKeyValue::Number(100))], global);
    assert_eq!(result.config.settings.get("ColumnLimit"), Some(&ConfigKeyValue::Number(100)));
    assert!(result.diagnostics.is_empty());
}

#[test]
fn line_ending_is_reported_before_the_line_width() {
    let global = GlobalConfiguration { line_width: Some(u32::MAX), ..no_defaults() };
    let result = resolve(vec![("newLineKind", ConfigKeyValue::Bool(false))], global);
    assert_eq!(
        result.diagnostics,
        vec![
            ConfigurationDiagnostic {
                property_name: "newLineKind".to_string(),
                message: "Found invalid value 'false'.".to_string(),
            },
            ConfigurationDiagnostic {
                property_name: "lineWidth".to_string(),
                message: "Expected a line width of at most 2147483647".to_string(),
            },
        ]
    );
    assert_eq!(result.config.settings.get("ColumnLimit"), None);
    assert_eq!(result.config.new_line_kind, NewLineKind::LineFeed);
}

#[test]
fn raw_setting_shows_scalars_and_hides_what_lists_hold() {
    assert_eq!(raw_setting(ConfigKeyValue::Null), RawSetting::Null);
    assert_eq!(raw_setting(text("lf")), RawSetting::Text("lf".to_string()));
    assert_eq!(raw_setting(ConfigKeyValue::Number(7)), RawSetting::Number(7));
    assert_eq!(raw_setting(ConfigKeyValue::Bool(false)), RawSetting::Bool(false));
    assert_eq!(raw_setting(ConfigKeyValue::Array(vec![text("lf")])), RawSetting::List);
    assert_eq!(raw_setting(ConfigKeyValue::Object(vec![])), RawSetting::Record);
}

#[test]
fn handler_resolves_as_the_function_does() {
    let global = GlobalConfiguration { line_width: Some(80), indent_width: Some(2), ..no_defaults() };
    let entries = vec![("newLineKind", text("bogus")), ("UseTab", text("Never"))];
    let by_handler = ClangPluginHandler.resolve_config(raw(entries.clone()), global.clone());
    let by_function = resolve(entries, global);
    assert_eq!(settings(&by_handler.config), settings(&by_function.config));
    assert_eq!(by_handler.config.new_line_kind, by_function.config.new_line_kind);
    assert_eq!(by_handler.diagnostics, by_function.diagnostics);
    assert_eq!(by_handler.diagnostics.len(), 1);
}

#[test]
fn clone_of_a_configuration_serializes_alike() {
    let result = resolve(vec![("A", ConfigKeyValue::Number(1))], no_defaults());
    let copy = result.config.clone();
    assert_eq!(settings(&copy), settings(&result.config));
    assert_eq!(copy.new_line_kind, result.config.new_line_kind);
    assert_eq!(copy.to_cli_flag("x"), result.config.to_cli_flag("x"));
}
