//! Resolving raw configuration into the settings handed to `clang-format`.

use crate::key_map::{
    distinct_keys, has_key, key_index, lemma_extended_appends, lemma_extended_distinct,
    lemma_key_absent, lemma_key_found, lemma_key_index, lemma_lookup_in_concatenation,
    lemma_lookup_in_at_most_one, lemma_without_shifting, lemma_without_swapping, lookup,
    without_shifting, without_swapping, ConfigKeyMap, Entry,
};
use crate::text::{
    bool_text, decimal_text, join, joined, lemma_decimal_text_start, push_bool, push_decimal,
    same_text, texts,
};
use crate::value::{ConfigKeyValue, Value};
use dprint_core::configuration::{
    resolve_new_line_kind, ConfigurationDiagnostic, GlobalConfiguration, NewLineKind,
};
use vstd::prelude::*;
use vstd::string::StringExecFns;
use vstd::utf8::encode_utf8;

verus! {

/// `dprint_core::configuration::NewLineKind`, known by its three variants,
/// which are read from the crate itself.
#[verifier::external_type_specification]
pub struct ExNewLineKind(NewLineKind);

/// `dprint_core::configuration::GlobalConfiguration`, known by its four
/// public fields, which are read from the crate itself.
#[verifier::external_type_specification]
pub struct ExGlobalConfiguration(GlobalConfiguration);

/// `dprint_core::configuration::ConfigurationDiagnostic`, known by its two
/// public fields, which are read from the crate itself.
#[verifier::external_type_specification]
pub struct ExConfigurationDiagnostic(ConfigurationDiagnostic);

/// The resolved configuration of the plugin.
#[derive(Debug)]
pub struct Configuration {
    /// Which line ending the formatted text gets.
    pub new_line_kind: NewLineKind,
    /// The style options for `clang-format`, in the order in which they are
    /// written on its command line.
    pub settings: ConfigKeyMap,
}

/// Model of a `Configuration`.
pub struct ConfigurationView {
    pub new_line_kind: NewLineKind,
    pub settings: Seq<Entry>,
}

impl View for Configuration {
    type V = ConfigurationView;

    open spec fn view(&self) -> ConfigurationView {
        ConfigurationView { new_line_kind: self.new_line_kind, settings: self.settings@ }
    }
}

impl Clone for Configuration {
    fn clone(&self) -> (copy: Self)
        ensures
            copy@ == self@,
    {
        Configuration { new_line_kind: self.new_line_kind, settings: self.settings.clone() }
    }
}

/// A resolved configuration and what was found wrong on the way to it.
#[derive(Debug)]
pub struct ResolveConfigurationResult {
    /// Problems found in the raw configuration; none of them stops resolution.
    pub diagnostics: Vec<ConfigurationDiagnostic>,
    /// The configuration to format with.
    pub config: Configuration,
}

/// The key under which the raw configuration names the line ending.
pub open spec fn new_line_key() -> Seq<char> {
    "newLineKind"@
}

/// The style option for the maximum line width.
pub open spec fn column_limit_key() -> Seq<char> {
    "ColumnLimit"@
}

/// The style option for indenting with tabs.
pub open spec fn use_tab_key() -> Seq<char> {
    "UseTab"@
}

/// The style option for the indentation width.
pub open spec fn indent_width_key() -> Seq<char> {
    "IndentWidth"@
}

/// The style option that names the style all others build on.
pub open spec fn based_on_style_key() -> Seq<char> {
    "BasedOnStyle"@
}

/// What a reader that expects a single word sees of a raw value: its scalar
/// content, or only that it is a list or a record.
pub enum SettingShape {
    Null,
    Text(Seq<char>),
    Number(int),
    Bool(bool),
    List,
    Record,
}

/// A raw value as handed to a reader that expects a single word.
#[derive(Debug, PartialEq, Eq)]
pub enum RawSetting {
    Null,
    Text(String),
    Number(i32),
    Bool(bool),
    List,
    Record,
}

impl View for RawSetting {
    type V = SettingShape;

    open spec fn view(&self) -> SettingShape {
        match self {
            RawSetting::Null => SettingShape::Null,
            RawSetting::Text(text) => SettingShape::Text(text@),
            RawSetting::Number(number) => SettingShape::Number(*number as int),
            RawSetting::Bool(flag) => SettingShape::Bool(*flag),
            RawSetting::List => SettingShape::List,
            RawSetting::Record => SettingShape::Record,
        }
    }
}

/// The shape of a value.
pub open spec fn shape_of(value: Value) -> SettingShape {
    match value {
        Value::Null => SettingShape::Null,
        Value::Text(text) => SettingShape::Text(text),
        Value::Number(number) => SettingShape::Number(number),
        Value::Bool(flag) => SettingShape::Bool(flag),
        Value::List(_) => SettingShape::List,
        Value::Record(_) => SettingShape::Record,
    }
}

/// The shape of the value that may be stored under a key.
pub open spec fn setting_of(value: Option<Value>) -> Option<SettingShape> {
    match value {
        Some(v) => Some(shape_of(v)),
        None => None,
    }
}

/// Model of an optional raw setting.
pub open spec fn setting_view(setting: Option<RawSetting>) -> Option<SettingShape> {
    match setting {
        Some(s) => Some(s@),
        None => None,
    }
}

/// The word that a scalar is read as: a text as it stands, a number by its
/// decimal numeral, a truth value by its name.
pub open spec fn setting_word(shape: SettingShape) -> Option<Seq<char>> {
    match shape {
        SettingShape::Text(text) => Some(text),
        SettingShape::Number(number) => Some(decimal_text(number)),
        SettingShape::Bool(flag) => Some(bool_text(flag)),
        _ => None,
    }
}

/// The line ending that a word names.
pub open spec fn named_new_line_kind(word: Seq<char>) -> Option<NewLineKind> {
    if word == "auto"@ {
        Some(NewLineKind::Auto)
    } else if word == "lf"@ {
        Some(NewLineKind::LineFeed)
    } else if word == "crlf"@ {
        Some(NewLineKind::CarriageReturnLineFeed)
    } else {
        None
    }
}

/// The line ending read from a setting: the one its word names, and
/// `default_value` where the setting is absent, null, or names none.
pub open spec fn chosen_new_line_kind(
    setting: Option<SettingShape>,
    default_value: NewLineKind,
) -> NewLineKind {
    match setting {
        Some(shape) => match setting_word(shape) {
            Some(word) => match named_new_line_kind(word) {
                Some(kind) => kind,
                None => default_value,
            },
            None => default_value,
        },
        None => default_value,
    }
}

/// The complaint about a setting under `key` that is present and names no
/// line ending, as the name of the property and the message.
pub open spec fn new_line_kind_complaints(key: Seq<char>, setting: Option<SettingShape>) -> Seq<
    (Seq<char>, Seq<char>),
> {
    match setting {
        None => Seq::empty(),
        Some(SettingShape::Null) => Seq::empty(),
        Some(SettingShape::List) | Some(SettingShape::Record) => seq![
            (key, "Arrays and objects are not supported for this value"@),
        ],
        Some(shape) => {
            let word = setting_word(shape).unwrap();
            if named_new_line_kind(word) is Some {
                Seq::empty()
            } else {
                seq![(key, "Found invalid value '"@ + word + "'."@)]
            }
        },
    }
}

/// Each diagnostic as the name of its property and its message.
pub open spec fn diagnostic_texts(diagnostics: Seq<ConfigurationDiagnostic>) -> Seq<
    (Seq<char>, Seq<char>),
> {
    Seq::new(diagnostics.len(), |i: int| (diagnostics[i].property_name@, diagnostics[i].message@))
}

/// `dprint_core::configuration::get_value`, asked for the `NewLineKind` under
/// `key` in a configuration that holds `setting` there and nothing else.
///
/// The contract claims the line ending that comes back and the diagnostic that
/// is added behind those already there: a text is parsed as it stands, a
/// number or truth value after it was written out, and null or no setting
/// gives the default. A list or a record is handed over empty: it is refused
/// without a look at what it holds.
#[verifier::external_body]
fn get_new_line_kind(
    setting: Option<RawSetting>,
    key: &str,
    default_value: NewLineKind,
    diagnostics: &mut Vec<ConfigurationDiagnostic>,
) -> (kind: NewLineKind)
    ensures
        kind == chosen_new_line_kind(setting_view(setting), default_value),
        diagnostic_texts(final(diagnostics)@) == diagnostic_texts(old(diagnostics)@)
            + new_line_kind_complaints(key@, setting_view(setting)),
{
    let raw = setting.map(|setting| match setting {
        RawSetting::Null => dprint_core::configuration::ConfigKeyValue::Null,
        RawSetting::Text(text) => dprint_core::configuration::ConfigKeyValue::String(text),
        RawSetting::Number(number) => dprint_core::configuration::ConfigKeyValue::Number(number),
        RawSetting::Bool(flag) => dprint_core::configuration::ConfigKeyValue::Bool(flag),
        RawSetting::List => dprint_core::configuration::ConfigKeyValue::Array(Vec::new()),
        RawSetting::Record => dprint_core::configuration::ConfigKeyValue::Object(Default::default()),
    });
    let mut config = raw.into_iter().map(|value| (key.to_string(), value)).collect();
    dprint_core::configuration::get_value(&mut config, key, default_value, diagnostics)
}

/// What a reader that expects a single word is shown of `value`.
pub fn raw_setting(value: ConfigKeyValue) -> (setting: RawSetting)
    ensures
        setting@ == shape_of(value@),
{
    match value {
        ConfigKeyValue::Null => RawSetting::Null,
        ConfigKeyValue::String(text) => RawSetting::Text(text),
        ConfigKeyValue::Number(number) => RawSetting::Number(number),
        ConfigKeyValue::Bool(flag) => RawSetting::Bool(flag),
        ConfigKeyValue::Array(_) => RawSetting::List,
        ConfigKeyValue::Object(_) => RawSetting::Record,
    }
}

/// The key under which the global configuration names the line width.
pub open spec fn line_width_key() -> Seq<char> {
    "lineWidth"@
}

/// Whether a column limit is to be made up from a global line width that is
/// too large for the numbers that settings hold.
pub open spec fn line_width_is_too_large(raw: Seq<Entry>, global: GlobalConfiguration) -> bool {
    !has_key(raw, column_limit_key()) && global.line_width is Some && global.line_width.unwrap()
        > i32::MAX
}

/// The column limit made up from the global line width, where `raw` names
/// no column limit and the global configuration gives a width that a number
/// can hold: that width.
pub open spec fn column_limit_entry(raw: Seq<Entry>, global: GlobalConfiguration) -> Seq<Entry> {
    if !has_key(raw, column_limit_key()) && global.line_width is Some && global.line_width.unwrap()
        <= i32::MAX {
        seq![(column_limit_key(), Value::Number(global.line_width.unwrap() as int))]
    } else {
        Seq::empty()
    }
}

/// Tab usage made up from the global configuration, where `raw` does not
/// speak of tabs and the global configuration asks for them.
pub open spec fn use_tab_entry(raw: Seq<Entry>, global: GlobalConfiguration) -> Seq<Entry> {
    if !has_key(raw, use_tab_key()) && global.use_tabs == Some(true) {
        seq![(use_tab_key(), Value::Text("Always"@))]
    } else {
        Seq::empty()
    }
}

/// The indent width made up from the global one, where `raw` names none and
/// the global configuration gives one.
pub open spec fn indent_width_entry(raw: Seq<Entry>, global: GlobalConfiguration) -> Seq<Entry> {
    if !has_key(raw, indent_width_key()) && global.indent_width is Some {
        seq![(indent_width_key(), Value::Number(global.indent_width.unwrap() as int))]
    } else {
        Seq::empty()
    }
}

/// The entries that resolution makes up, in the order in which they are
/// stored: column limit, tab usage, indent width, and the style base, which
/// is always there.
pub open spec fn synthesized(raw: Seq<Entry>, global: GlobalConfiguration) -> Seq<Entry> {
    column_limit_entry(raw, global) + use_tab_entry(raw, global) + indent_width_entry(raw, global)
        + seq![(based_on_style_key(), style_base(raw))]
}

/// The style that all other options build on: the one `raw` names, or the
/// word that makes `clang-format` look for a configuration file.
pub open spec fn style_base(raw: Seq<Entry>) -> Value {
    match lookup(raw, based_on_style_key()) {
        Some(style) => style,
        None => Value::Text("InheritParentConfig"@),
    }
}

/// The entries of `raw` that are handed on as they are: all but the line
/// ending, taken out with the order kept, and the style base, into whose
/// place the last entry moves.
pub open spec fn passed_through(raw: Seq<Entry>) -> Seq<Entry> {
    without_swapping(without_shifting(raw, new_line_key()), based_on_style_key())
}

/// The settings that `raw` and the global configuration resolve to.
pub open spec fn resolved_settings(raw: Seq<Entry>, global: GlobalConfiguration) -> Seq<Entry> {
    synthesized(raw, global) + passed_through(raw)
}

/// The line ending that `raw` and the global configuration resolve to.
pub open spec fn resolved_new_line_kind(
    raw: Seq<Entry>,
    global: GlobalConfiguration,
) -> NewLineKind {
    chosen_new_line_kind(
        setting_of(lookup(raw, new_line_key())),
        match global.new_line_kind {
            Some(kind) => kind,
            None => NewLineKind::LineFeed,
        },
    )
}

/// The complaint about the line ending that `raw` names, if it names none
/// that is known.
pub open spec fn new_line_diagnostics(raw: Seq<Entry>) -> Seq<(Seq<char>, Seq<char>)> {
    new_line_kind_complaints(new_line_key(), setting_of(lookup(raw, new_line_key())))
}

/// The complaint about a global line width that is too large to become a
/// column limit.
pub open spec fn line_width_diagnostics(raw: Seq<Entry>, global: GlobalConfiguration) -> Seq<
    (Seq<char>, Seq<char>),
> {
    if line_width_is_too_large(raw, global) {
        seq![(line_width_key(), "Expected a line width of at most 2147483647"@)]
    } else {
        Seq::empty()
    }
}

/// The diagnostics that resolving gives, each as the name of its property
/// and its message: first the one about the line ending, then the one about
/// the line width, each only where there is something to complain about.
pub open spec fn resolved_diagnostics(raw: Seq<Entry>, global: GlobalConfiguration) -> Seq<
    (Seq<char>, Seq<char>),
> {
    new_line_diagnostics(raw) + line_width_diagnostics(raw, global)
}

/// A number and a truth value name no line ending.
pub proof fn lemma_only_text_names_a_line_ending(shape: SettingShape)
    requires
        shape is Number || shape is Bool,
    ensures
        setting_word(shape) is Some,
        named_new_line_kind(setting_word(shape).unwrap()) is None,
{
    reveal_strlit("auto");
    reveal_strlit("lf");
    reveal_strlit("crlf");
    reveal_strlit("true");
    reveal_strlit("false");
    let word = setting_word(shape).unwrap();
    match shape {
        SettingShape::Number(number) => {
            lemma_decimal_text_start(number);
            assert("auto"@[0] == 'a' && "lf"@[0] == 'l' && "crlf"@[0] == 'c');
        },
        _ => {
            assert(word[0] == 't' || word[0] == 'f');
            assert("auto"@[0] == 'a' && "lf"@[0] == 'l' && "crlf"@[0] == 'c');
        },
    }
}

/// A line ending that is present in the raw configuration and is neither
/// null nor a text is reported by one diagnostic, under its key and first of
/// all, and the line ending falls back to the global one or to a line feed.
pub proof fn law_wrong_type_is_reported(raw: Seq<Entry>, global: GlobalConfiguration)
    requires
        lookup(raw, new_line_key()) is Some,
        !(lookup(raw, new_line_key()).unwrap() is Null),
        !(lookup(raw, new_line_key()).unwrap() is Text),
    ensures
        new_line_diagnostics(raw).len() == 1,
        resolved_diagnostics(raw, global).len() >= 1,
        resolved_diagnostics(raw, global)[0].0 == new_line_key(),
        resolved_new_line_kind(raw, global) == match global.new_line_kind {
            Some(kind) => kind,
            None => NewLineKind::LineFeed,
        },
{
    let shape = shape_of(lookup(raw, new_line_key()).unwrap());
    if shape is Number || shape is Bool {
        lemma_only_text_names_a_line_ending(shape);
    }
}

/// A global line width that is needed for a column limit and is larger than
/// any number that a setting can hold makes up no column limit and is
/// reported by the last diagnostic, under the key of the line width. No
/// other line width is reported.
pub proof fn law_too_large_line_width_is_reported(raw: Seq<Entry>, global: GlobalConfiguration)
    requires
        distinct_keys(raw),
    ensures
        line_width_is_too_large(raw, global) ==> {
            &&& lookup(resolved_settings(raw, global), column_limit_key()) == None::<Value>
            &&& resolved_diagnostics(raw, global).len() >= 1
            &&& resolved_diagnostics(raw, global).last().0 == line_width_key()
        },
        !line_width_is_too_large(raw, global) ==> resolved_diagnostics(raw, global)
            == new_line_diagnostics(raw),
{
    lemma_keys_differ();
    lemma_resolved_lookup(raw, global, column_limit_key());
    lemma_lookup_in_at_most_one(column_limit_entry(raw, global), column_limit_key());
    if !line_width_is_too_large(raw, global) {
        assert(resolved_diagnostics(raw, global) =~= new_line_diagnostics(raw));
    }
}

/// The five keys that resolution knows differ from one another.
pub proof fn lemma_keys_differ()
    ensures
        new_line_key() != column_limit_key(),
        new_line_key() != use_tab_key(),
        new_line_key() != indent_width_key(),
        new_line_key() != based_on_style_key(),
        column_limit_key() != use_tab_key(),
        column_limit_key() != indent_width_key(),
        column_limit_key() != based_on_style_key(),
        use_tab_key() != indent_width_key(),
        use_tab_key() != based_on_style_key(),
        indent_width_key() != based_on_style_key(),
{
    reveal_strlit("newLineKind");
    reveal_strlit("ColumnLimit");
    reveal_strlit("UseTab");
    reveal_strlit("IndentWidth");
    reveal_strlit("BasedOnStyle");
    assert(new_line_key()[0] == 'n');
    assert(column_limit_key()[0] == 'C');
    assert(indent_width_key()[0] == 'I');
    assert(use_tab_key().len() == 6);
    assert(based_on_style_key().len() == 12);
    assert(new_line_key().len() == 11);
    assert(column_limit_key().len() == 11);
    assert(indent_width_key().len() == 11);
}

/// No entry that is handed on has the key of an entry that was made up, and
/// the entries handed on have distinct keys.
pub proof fn lemma_passed_through_is_new(raw: Seq<Entry>, global: GlobalConfiguration)
    requires
        distinct_keys(raw),
    ensures
        distinct_keys(passed_through(raw)),
        forall|i: int|
            0 <= i < passed_through(raw).len() ==> !has_key(
                synthesized(raw, global),
                (#[trigger] passed_through(raw)[i]).0,
            ),
{
    let rest = without_shifting(raw, new_line_key());
    let handed_on = passed_through(raw);
    let made_up = synthesized(raw, global);
    lemma_keys_differ();
    lemma_without_shifting(raw, new_line_key());
    lemma_without_swapping(rest, based_on_style_key());
    assert forall|i: int| 0 <= i < handed_on.len() implies !has_key(
        made_up,
        (#[trigger] handed_on[i]).0,
    ) by {
        let key = handed_on[i].0;
        lemma_key_absent(handed_on, based_on_style_key());
        lemma_key_absent(handed_on, key);
        assert(has_key(handed_on, key));
        assert(key != based_on_style_key());
        lemma_key_absent(rest, new_line_key());
        if key != new_line_key() {
            assert(lookup(handed_on, key) == lookup(rest, key));
            assert(lookup(rest, key) == lookup(raw, key));
            assert(has_key(raw, key));
        } else {
            assert(lookup(handed_on, key) == lookup(rest, key));
            assert(false);
        }
        lemma_key_absent(made_up, key);
    }
}

/// What the entries that resolution makes up hold under a key: the column
/// limit, tab usage and indent width where they were made up, the style base
/// always, and nothing under any other key.
pub proof fn lemma_synthesized_lookup(raw: Seq<Entry>, global: GlobalConfiguration, key: Seq<char>)
    ensures
        lookup(synthesized(raw, global), key) == if key == column_limit_key() {
            lookup(column_limit_entry(raw, global), key)
        } else if key == use_tab_key() {
            lookup(use_tab_entry(raw, global), key)
        } else if key == indent_width_key() {
            lookup(indent_width_entry(raw, global), key)
        } else if key == based_on_style_key() {
            Some(style_base(raw))
        } else {
            None
        },
{
    let column_limit = column_limit_entry(raw, global);
    let use_tab = use_tab_entry(raw, global);
    let indent_width = indent_width_entry(raw, global);
    let style = (based_on_style_key(), style_base(raw));
    lemma_keys_differ();
    lemma_lookup_in_at_most_one(column_limit, key);
    lemma_lookup_in_at_most_one(use_tab, key);
    lemma_lookup_in_at_most_one(indent_width, key);
    lemma_lookup_in_at_most_one(seq![style], key);
    lemma_lookup_in_concatenation(column_limit, use_tab, key);
    lemma_lookup_in_concatenation(column_limit + use_tab, indent_width, key);
    lemma_lookup_in_concatenation(column_limit + use_tab + indent_width, seq![style], key);
}

/// What the entries that are handed on hold under a key: nothing under the
/// keys of the line ending and of the style base, and under any other key
/// what `raw` holds.
pub proof fn lemma_passed_through_lookup(raw: Seq<Entry>, key: Seq<char>)
    requires
        distinct_keys(raw),
    ensures
        lookup(passed_through(raw), key) == if key == new_line_key() || key
            == based_on_style_key() {
            None
        } else {
            lookup(raw, key)
        },
{
    let rest = without_shifting(raw, new_line_key());
    lemma_keys_differ();
    lemma_without_shifting(raw, new_line_key());
    lemma_without_swapping(rest, based_on_style_key());
    if key == new_line_key() {
        assert(lookup(passed_through(raw), key) == lookup(rest, key));
    } else if key != based_on_style_key() {
        assert(lookup(passed_through(raw), key) == lookup(rest, key));
        assert(lookup(rest, key) == lookup(raw, key));
    }
}

/// What the resolved settings hold under a key.
///
/// Under the keys of the column limit, tab usage and indent width: what `raw`
/// holds there, and where `raw` holds nothing, what was made up from the
/// global configuration. Under the key of the style base: the style base.
/// Under the key of the line ending: nothing. Under any other key: what `raw`
/// holds.
pub proof fn lemma_resolved_lookup(raw: Seq<Entry>, global: GlobalConfiguration, key: Seq<char>)
    requires
        distinct_keys(raw),
    ensures
        lookup(resolved_settings(raw, global), key) == if key == new_line_key() {
            None
        } else if key == based_on_style_key() {
            Some(style_base(raw))
        } else if has_key(raw, key) {
            lookup(raw, key)
        } else if key == column_limit_key() {
            lookup(column_limit_entry(raw, global), key)
        } else if key == use_tab_key() {
            lookup(use_tab_entry(raw, global), key)
        } else if key == indent_width_key() {
            lookup(indent_width_entry(raw, global), key)
        } else {
            None
        },
{
    lemma_keys_differ();
    lemma_synthesized_lookup(raw, global, key);
    lemma_passed_through_lookup(raw, key);
    lemma_lookup_in_concatenation(synthesized(raw, global), passed_through(raw), key);
    lemma_lookup_in_at_most_one(column_limit_entry(raw, global), key);
    lemma_lookup_in_at_most_one(use_tab_entry(raw, global), key);
    lemma_lookup_in_at_most_one(indent_width_entry(raw, global), key);
}

/// Every entry of the raw configuration under a key other than those of the
/// line ending and the style base is among the resolved settings, with the
/// same key and the same value, whatever the global configuration says.
pub proof fn law_unrecognized_entries_pass_through(
    raw: Seq<Entry>,
    global: GlobalConfiguration,
    i: int,
)
    requires
        distinct_keys(raw),
        0 <= i < raw.len(),
        raw[i].0 != new_line_key(),
        raw[i].0 != based_on_style_key(),
    ensures
        resolved_settings(raw, global).contains(raw[i]),
        lookup(resolved_settings(raw, global), raw[i].0) == Some(raw[i].1),
{
    let key = raw[i].0;
    let settings = resolved_settings(raw, global);
    lemma_key_found(raw, key, i);
    lemma_resolved_lookup(raw, global, key);
    lemma_key_index(settings, key);
    let at = key_index(settings, key);
    assert(settings[at] == raw[i]);
}

/// A column limit, tab usage or indent width that the raw configuration
/// names is the one in the resolved settings, whatever the global
/// configuration says: two global configurations resolve it alike.
pub proof fn law_explicit_setting_wins(
    raw: Seq<Entry>,
    global: GlobalConfiguration,
    other: GlobalConfiguration,
    key: Seq<char>,
)
    requires
        distinct_keys(raw),
        key == column_limit_key() || key == use_tab_key() || key == indent_width_key(),
        has_key(raw, key),
    ensures
        lookup(resolved_settings(raw, global), key) == lookup(raw, key),
        lookup(resolved_settings(raw, global), key) == lookup(resolved_settings(raw, other), key),
{
    lemma_keys_differ();
    lemma_resolved_lookup(raw, global, key);
    lemma_resolved_lookup(raw, other, key);
}

/// Where the raw configuration names no column limit, tab usage or indent
/// width, the resolved settings hold the one made up from the global
/// configuration: the global line width and indent width as the same
/// numbers, tab usage as `Always` where tabs are asked for; and nothing where
/// the global configuration gives none, asks for no tabs, or gives a line
/// width beyond the numbers that a setting can hold.
pub proof fn law_global_defaults_fill_in(raw: Seq<Entry>, global: GlobalConfiguration)
    requires
        distinct_keys(raw),
    ensures
        !has_key(raw, column_limit_key()) ==> lookup(
            resolved_settings(raw, global),
            column_limit_key(),
        ) == match global.line_width {
            Some(width) => if width <= i32::MAX {
                Some(Value::Number(width as int))
            } else {
                None
            },
            None => None,
        },
        !has_key(raw, use_tab_key()) ==> lookup(resolved_settings(raw, global), use_tab_key())
            == if global.use_tabs == Some(true) {
            Some(Value::Text("Always"@))
        } else {
            None
        },
        !has_key(raw, indent_width_key()) ==> lookup(
            resolved_settings(raw, global),
            indent_width_key(),
        ) == match global.indent_width {
            Some(width) => Some(Value::Number(width as int)),
            None => None,
        },
{
    lemma_keys_differ();
    lemma_resolved_lookup(raw, global, column_limit_key());
    lemma_resolved_lookup(raw, global, use_tab_key());
    lemma_resolved_lookup(raw, global, indent_width_key());
    lemma_lookup_in_at_most_one(column_limit_entry(raw, global), column_limit_key());
    lemma_lookup_in_at_most_one(use_tab_entry(raw, global), use_tab_key());
    lemma_lookup_in_at_most_one(indent_width_entry(raw, global), indent_width_key());
}

/// The resolved settings always hold a style base, never the line ending,
/// and no key twice.
pub proof fn law_settings_are_well_formed(raw: Seq<Entry>, global: GlobalConfiguration)
    requires
        distinct_keys(raw),
    ensures
        lookup(resolved_settings(raw, global), based_on_style_key()) == Some(style_base(raw)),
        !has_key(resolved_settings(raw, global), new_line_key()),
        distinct_keys(resolved_settings(raw, global)),
{
    lemma_keys_differ();
    lemma_resolved_lookup(raw, global, based_on_style_key());
    lemma_resolved_lookup(raw, global, new_line_key());
    lemma_passed_through_is_new(raw, global);
    lemma_synthesized_distinct(raw, global);
    lemma_extended_appends(synthesized(raw, global), passed_through(raw));
    lemma_extended_distinct(synthesized(raw, global), passed_through(raw));
}

/// The entries that resolution makes up have distinct keys.
pub proof fn lemma_synthesized_distinct(raw: Seq<Entry>, global: GlobalConfiguration)
    ensures
        distinct_keys(synthesized(raw, global)),
{
    lemma_keys_differ();
    let made_up = synthesized(raw, global);
    let column_limit = column_limit_entry(raw, global);
    let use_tab = use_tab_entry(raw, global);
    let indent_width = indent_width_entry(raw, global);
    assert forall|i: int, j: int| 0 <= i < j < made_up.len() implies (#[trigger] made_up[i]).0 != (
    #[trigger] made_up[j]).0 by {
        let rank = |k: int|
            if k < column_limit.len() {
                0int
            } else if k < column_limit.len() + use_tab.len() {
                1int
            } else if k < column_limit.len() + use_tab.len() + indent_width.len() {
                2int
            } else {
                3int
            };
        assert(rank(i) < rank(j));
        assert(rank(i) == 0 ==> made_up[i].0 == column_limit_key());
        assert(rank(i) == 1 ==> made_up[i].0 == use_tab_key());
        assert(rank(i) == 2 ==> made_up[i].0 == indent_width_key());
        assert(rank(j) == 1 ==> made_up[j].0 == use_tab_key());
        assert(rank(j) == 2 ==> made_up[j].0 == indent_width_key());
        assert(rank(j) == 3 ==> made_up[j].0 == based_on_style_key());
    }
}

/// Resolves the raw configuration of the plugin against the global one.
///
/// The line ending is taken out of `config`; a column limit, tab usage and an
/// indent width are made up from the global configuration where `config`
/// names none; the style base is the one `config` names or is inherited;
/// every other entry of `config` is handed on as it is. A global line width
/// that no number of a setting can hold makes up no column limit and is
/// reported instead.
pub fn resolve_config(
    config: ConfigKeyMap,
    global_config: &GlobalConfiguration,
) -> (result: ResolveConfigurationResult)
    ensures
        result.config.settings@ == resolved_settings(config@, *global_config),
        result.config.new_line_kind == resolved_new_line_kind(config@, *global_config),
        diagnostic_texts(result.diagnostics@) == resolved_diagnostics(config@, *global_config),
        distinct_keys(config@),
        distinct_keys(result.config.settings@),
{
    let ghost raw = config@;
    let mut config = config;
    let mut diagnostics: Vec<ConfigurationDiagnostic> = Vec::new();
    let mut settings = ConfigKeyMap::new();

    let default_kind = match global_config.new_line_kind {
        Some(kind) => kind,
        None => NewLineKind::LineFeed,
    };
    // the line ending is consumed here and never becomes a setting
    let setting = match config.shift_remove("newLineKind") {
        Some(value) => Some(raw_setting(value)),
        None => None,
    };
    let new_line_kind = get_new_line_kind(setting, "newLineKind", default_kind, &mut diagnostics);
    let ghost rest = config@;
    proof {
        lemma_keys_differ();
        lemma_without_shifting(raw, new_line_key());
        assert(diagnostic_texts(Seq::<ConfigurationDiagnostic>::empty()) =~= Seq::empty());
        assert(diagnostic_texts(diagnostics@) =~= new_line_diagnostics(raw));
        assert(has_key(rest, column_limit_key()) == has_key(raw, column_limit_key())) by {
            assert(lookup(rest, column_limit_key()) == lookup(raw, column_limit_key()));
        }
        assert(has_key(rest, use_tab_key()) == has_key(raw, use_tab_key())) by {
            assert(lookup(rest, use_tab_key()) == lookup(raw, use_tab_key()));
        }
        assert(has_key(rest, indent_width_key()) == has_key(raw, indent_width_key())) by {
            assert(lookup(rest, indent_width_key()) == lookup(raw, indent_width_key()));
        }
        assert(lookup(rest, based_on_style_key()) == lookup(raw, based_on_style_key()));
    }

    if config.get("ColumnLimit").is_none() {
        if let Some(global) = global_config.line_width {
            if global <= 2147483647 {
                settings.insert("ColumnLimit".to_string(), ConfigKeyValue::Number(global as i32));
            } else {
                let ghost reported = diagnostics@;
                diagnostics.push(
                    ConfigurationDiagnostic {
                        property_name: "lineWidth".to_string(),
                        message: "Expected a line width of at most 2147483647".to_string(),
                    },
                );
                assert(diagnostic_texts(diagnostics@) =~= diagnostic_texts(reported)
                    + line_width_diagnostics(raw, *global_config));
            }
        }
    }
    assert(diagnostic_texts(diagnostics@) =~= resolved_diagnostics(raw, *global_config));
    let ghost after_column_limit = settings@;
    if config.get("UseTab").is_none() {
        if let Some(true) = global_config.use_tabs {
            settings.insert("UseTab".to_string(), ConfigKeyValue::String("Always".to_string()));
        }
    }
    let ghost after_use_tab = settings@;
    if config.get("IndentWidth").is_none() {
        if let Some(global) = global_config.indent_width {
            settings.insert("IndentWidth".to_string(), ConfigKeyValue::Number(global as i32));
        }
    }
    let ghost after_indent_width = settings@;
    match config.swap_remove("BasedOnStyle") {
        Some(style) => settings.insert("BasedOnStyle".to_string(), style),
        None => settings.insert(
            "BasedOnStyle".to_string(),
            ConfigKeyValue::String("InheritParentConfig".to_string()),
        ),
    };
    proof {
        lemma_without_swapping(rest, based_on_style_key());
        lemma_key_absent(Seq::<Entry>::empty(), column_limit_key());
        assert(after_column_limit =~= column_limit_entry(raw, *global_config));
        lemma_key_absent(after_column_limit, use_tab_key());
        assert(after_use_tab =~= after_column_limit + use_tab_entry(raw, *global_config));
        lemma_key_absent(after_use_tab, indent_width_key());
        assert(after_indent_width =~= after_use_tab + indent_width_entry(raw, *global_config));
        lemma_key_absent(after_indent_width, based_on_style_key());
        assert(settings@ =~= synthesized(raw, *global_config));
        assert(config@ == passed_through(raw));
        lemma_passed_through_is_new(raw, *global_config);
        lemma_extended_appends(settings@, config@);
    }
    settings.extend(config);

    ResolveConfigurationResult { diagnostics, config: Configuration { new_line_kind, settings } }
}

/// The texts of the parts of a value: of the items of a list, and of the
/// entries of a record, each as its key, a colon and a space, and its value.
/// A scalar has no parts.
pub open spec fn part_texts(value: Value) -> Seq<Seq<char>>
    decreases value, 0nat,
{
    match value {
        Value::List(items) => Seq::new(
            items.len(),
            |i: int|
                if 0 <= i < items.len() {
                    value_text(items[i])
                } else {
                    Seq::empty()
                },
        ),
        Value::Record(entries) => Seq::new(
            entries.len(),
            |i: int|
                if 0 <= i < entries.len() {
                    entries[i].0 + ": "@ + value_text(entries[i].1)
                } else {
                    Seq::empty()
                },
        ),
        _ => Seq::empty(),
    }
}

/// The text that `clang-format` reads a value from: `null`, a text between
/// double quotes as it stands, a number by its decimal numeral, `true` or
/// `false`, a list between square brackets and a record between braces, the
/// parts of both separated by a comma and a space.
pub open spec fn value_text(value: Value) -> Seq<char>
    decreases value, 1nat,
{
    match value {
        Value::Null => "null"@,
        Value::Text(text) => "\""@ + text + "\""@,
        Value::Number(number) => decimal_text(number),
        Value::Bool(flag) => bool_text(flag),
        Value::List(_) => "["@ + joined(part_texts(value), ", "@) + "]"@,
        Value::Record(_) => "{"@ + joined(part_texts(value), ", "@) + "}"@,
    }
}

/// The text of an entry: its key, a colon and a space, and its value.
pub open spec fn entry_text(entry: Entry) -> Seq<char> {
    entry.0 + ": "@ + value_text(entry.1)
}

/// The text of each entry, in order.
pub open spec fn entry_texts(entries: Seq<Entry>) -> Seq<Seq<char>> {
    Seq::new(entries.len(), |i: int| entry_text(entries[i]))
}

/// The text of each value, in order.
pub open spec fn value_texts(items: Seq<Value>) -> Seq<Seq<char>> {
    Seq::new(items.len(), |i: int| value_text(items[i]))
}

/// The parts of a list are the texts of its items, those of a record the
/// texts of its entries.
pub proof fn lemma_part_texts(value: Value)
    ensures
        value matches Value::List(items) ==> part_texts(value) == value_texts(items),
        value matches Value::Record(entries) ==> part_texts(value) == entry_texts(entries),
{
    match value {
        Value::List(items) => {
            assert(part_texts(value) =~= value_texts(items));
        },
        Value::Record(entries) => {
            assert(part_texts(value) =~= entry_texts(entries));
        },
        _ => {},
    }
}

/// Writes a value as `clang-format` reads it.
pub fn config_key_value_to_string(value: &ConfigKeyValue) -> (text: String)
    ensures
        text@ == value_text(value@),
    decreases value,
{
    match value {
        ConfigKeyValue::Null => "null".to_string(),
        ConfigKeyValue::String(value) => {
            let mut text = "\"".to_string();
            text.append(value.as_str());
            text.append("\"");
            text
        },
        ConfigKeyValue::Number(value) => {
            let mut text = String::new();
            push_decimal(&mut text, *value);
            assert(text@ =~= decimal_text(*value as int));
            text
        },
        ConfigKeyValue::Bool(value) => {
            let mut text = String::new();
            push_bool(&mut text, *value);
            assert(text@ =~= bool_text(*value));
            text
        },
        ConfigKeyValue::Array(items) => {
            let mut parts: Vec<String> = Vec::new();
            let mut i: usize = 0;
            while i < items.len()
                invariant
                    i <= items.len(),
                    parts@.len() == i,
                    *value == ConfigKeyValue::Array(*items),
                    forall|j: int| 0 <= j < i ==> (#[trigger] parts@[j])@ == value_text(items@[j]@),
                decreases items.len() - i,
            {
                assert(decreases_to!(value => value->Array_0));
                parts.push(config_key_value_to_string(&items[i]));
                i += 1;
            }
            proof {
                lemma_part_texts(value@);
                assert(texts(parts@) =~= value_texts(value@->List_0));
            }
            let mut text = "[".to_string();
            text.append(join(&parts, ", ").as_str());
            text.append("]");
            text
        },
        ConfigKeyValue::Object(entries) => {
            let mut parts: Vec<String> = Vec::new();
            let mut i: usize = 0;
            while i < entries.len()
                invariant
                    i <= entries.len(),
                    parts@.len() == i,
                    *value == ConfigKeyValue::Object(*entries),
                    forall|j: int|
                        0 <= j < i ==> (#[trigger] parts@[j])@ == entry_text(
                            (entries@[j].0@, entries@[j].1@),
                        ),
                decreases entries.len() - i,
            {
                assert(decreases_to!(value => value->Object_0));
                let mut part = String::new();
                part.append(entries[i].0.as_str());
                part.append(": ");
                part.append(config_key_value_to_string(&entries[i].1).as_str());
                assert(part@ =~= entry_text((entries@[i as int].0@, entries@[i as int].1@)));
                parts.push(part);
                i += 1;
            }
            proof {
                lemma_part_texts(value@);
                assert(texts(parts@) =~= entry_texts(value@->Record_0));
            }
            let mut text = "{".to_string();
            text.append(join(&parts, ", ").as_str());
            text.append("}");
            text
        },
    }
}

/// Whether the byte in front of the last line feed is a carriage return.
pub open spec fn last_line_break_is_crlf(bytes: Seq<u8>) -> bool
    decreases bytes.len(),
{
    if bytes.len() == 0 {
        false
    } else if bytes.last() == 10u8 {
        bytes.len() >= 2 && bytes[bytes.len() - 2] == 13u8
    } else {
        last_line_break_is_crlf(bytes.drop_last())
    }
}

/// Whether a document with the given bytes gets lines that end in a carriage
/// return and a line feed: always or never where the configuration says so,
/// and otherwise as the last line break of the document stands.
pub open spec fn uses_crlf(bytes: Seq<u8>, kind: NewLineKind) -> bool {
    match kind {
        NewLineKind::LineFeed => false,
        NewLineKind::CarriageReturnLineFeed => true,
        NewLineKind::Auto => last_line_break_is_crlf(bytes),
    }
}

/// The characters that end a line of such a document.
pub open spec fn new_line_text(bytes: Seq<u8>, kind: NewLineKind) -> Seq<char> {
    if uses_crlf(bytes, kind) {
        seq!['\r', '\n']
    } else {
        seq!['\n']
    }
}

/// `dprint_core::configuration::resolve_new_line_kind`: the line ending is
/// `"\n"` for `LineFeed` and `"\r\n"` for `CarriageReturnLineFeed`. For
/// `Auto` the bytes of the text are walked from the end: the byte in front of
/// the last line feed decides, and a text without a line feed, or with its
/// only one first, gets `"\n"`.
pub assume_specification[ dprint_core::configuration::resolve_new_line_kind ](
    file_text: &str,
    new_line_kind: NewLineKind,
) -> (new_line: &'static str)
    ensures
        new_line@ == new_line_text(encode_utf8(file_text@), new_line_kind),
;

/// The options of the style argument for a document, in order: `UseCRLF`
/// where the document gets such line endings, then every setting.
pub open spec fn style_fragments(config: ConfigurationView, document: Seq<char>) -> Seq<
    Seq<char>,
> {
    if uses_crlf(encode_utf8(document), config.new_line_kind) {
        seq!["UseCRLF: true"@] + entry_texts(config.settings)
    } else {
        entry_texts(config.settings)
    }
}

/// The style argument for a document: the options, separated by a comma and
/// a space, between `--style={` and `}`.
pub open spec fn cli_flag(config: ConfigurationView, document: Seq<char>) -> Seq<char> {
    "--style={"@ + joined(style_fragments(config, document), ", "@) + "}"@
}

impl Configuration {
    /// The argument that hands the style for `text` to `clang-format`.
    pub fn to_cli_flag(&self, text: &str) -> (flag: String)
        ensures
            flag@ == cli_flag(self@, text@),
    {
        let mut settings: Vec<String> = Vec::new();
        let new_line = resolve_new_line_kind(text, self.new_line_kind);
        proof {
            reveal_strlit("\r\n");
            assert("\r\n"@ =~= seq!['\r', '\n']);
            assert(seq!['\n'].len() == 1);
        }
        if same_text(new_line, "\r\n") {
            settings.push("UseCRLF: true".to_string());
        }
        let ghost head = settings@.len();
        assert(head == 1 <==> uses_crlf(encode_utf8(text@), self.new_line_kind));
        let count = self.settings.len();
        let mut i: usize = 0;
        while i < count
            invariant
                i <= count,
                count == self.settings@.len(),
                head <= 1,
                settings@.len() == head + i,
                head == 1 ==> settings@[0]@ == "UseCRLF: true"@,
                forall|k: int|
                    head <= k < head + i ==> (#[trigger] settings@[k])@ == entry_text(
                        self.settings@[k - head],
                    ),
            decreases count - i,
        {
            if let Some((key, value)) = self.settings.get_index(i) {
                let mut fragment = String::new();
                fragment.append(key.as_str());
                fragment.append(": ");
                fragment.append(config_key_value_to_string(value).as_str());
                assert(fragment@ =~= entry_text(self.settings@[i as int]));
                settings.push(fragment);
            }
            i += 1;
        }
        assert(texts(settings@) =~= style_fragments(self@, text@));
        let mut flag = "--style={".to_string();
        flag.append(join(&settings, ", ").as_str());
        flag.append("}");
        flag
    }
}

/// The style argument is a function of the configuration's settings and line
/// ending and of the document's text: equal ones give the same argument.
pub proof fn law_style_argument_is_deterministic(
    first: Configuration,
    second: Configuration,
    document: Seq<char>,
)
    requires
        first@ == second@,
    ensures
        cli_flag(first@, document) == cli_flag(second@, document),
{
}

} // verus!
