//! Reading a configuration document into validated questions.

use vstd::prelude::*;

use crate::node::{find, lookup, text_eq, Node};
use crate::outside::{load_documents, yaml_documents};
use crate::question::{
    all_text, bool_attr, date_attr, display_mode_attr, index_list, indices_attr, opt_date,
    opt_indices, opt_int, opt_texts, opt_view, parse_variant, read_bool, read_date,
    read_display_mode, read_indices, read_size, read_text, read_texts, read_week_start, size_attr, text_attr,
    text_items, text_list, texts_attr, variant_of, week_start_attr, Date, Prompt, PromptModel,
    Question, QuestionModel, Variant,
};
use crate::store::texts;

verus! {

/// A configuration or a stored answer document that cannot be used.
#[derive(Debug)]
pub enum ConfigError {
    /// The configuration's root is not a list.
    NotAList,
    /// The entry at this position of the configuration is not a mapping.
    NotAMapping { index: usize },
    /// The name, variant or message is absent (`question` is empty where the
    /// name is unknown).
    MissingField { question: String, field: String },
    /// A mandatory field is present but not a text.
    WrongType { question: String, field: String },
    /// The variant tag names no known variant.
    UnknownVariant { question: String, variant: String },
    /// An attribute has the wrong kind of value or a value out of its range.
    InvalidAttribute { question: String, attribute: String },
    /// The stored answer document is not a mapping from names to lists of texts.
    MalformedStore,
    /// The configuration text is not a well-formed document.
    Unreadable,
}

/// What a `ConfigError` holds, over plain values.
pub ghost enum ErrorModel {
    NotAList,
    NotAMapping(int),
    MissingField(Seq<char>, Seq<char>),
    WrongType(Seq<char>, Seq<char>),
    UnknownVariant(Seq<char>, Seq<char>),
    InvalidAttribute(Seq<char>, Seq<char>),
    MalformedStore,
    Unreadable,
}

impl View for ConfigError {
    type V = ErrorModel;

    open spec fn view(&self) -> ErrorModel {
        match self {
            ConfigError::NotAList => ErrorModel::NotAList,
            ConfigError::NotAMapping { index } => ErrorModel::NotAMapping(*index as int),
            ConfigError::MissingField { question, field } => ErrorModel::MissingField(
                question@,
                field@,
            ),
            ConfigError::WrongType { question, field } => ErrorModel::WrongType(
                question@,
                field@,
            ),
            ConfigError::UnknownVariant { question, variant } => ErrorModel::UnknownVariant(
                question@,
                variant@,
            ),
            ConfigError::InvalidAttribute { question, attribute } => ErrorModel::InvalidAttribute(
                question@,
                attribute@,
            ),
            ConfigError::MalformedStore => ErrorModel::MalformedStore,
            ConfigError::Unreadable => ErrorModel::Unreadable,
        }
    }
}

pub open spec fn invalid(name: Seq<char>, key: Seq<char>) -> ErrorModel {
    ErrorModel::InvalidAttribute(name, key)
}

/// The attributes of a confirmation prompt.
pub open spec fn confirm_of(p: Seq<(Node, Node)>, n: Seq<char>) -> Result<PromptModel, ErrorModel> {
    match bool_attr(p, "default"@) {
        Err(_) => Err(invalid(n, "default"@)),
        Ok(default) => match text_attr(p, "placeholder"@) {
            Err(_) => Err(invalid(n, "placeholder"@)),
            Ok(placeholder) => Ok(PromptModel::Confirm { default, placeholder }),
        },
    }
}

/// The attributes of a text prompt.
pub open spec fn text_of(p: Seq<(Node, Node)>, n: Seq<char>) -> Result<PromptModel, ErrorModel> {
    match text_attr(p, "default"@) {
        Err(_) => Err(invalid(n, "default"@)),
        Ok(default) => match size_attr(p, "page_size"@, 1) {
            Err(_) => Err(invalid(n, "page_size"@)),
            Ok(page_size) => match text_attr(p, "initial_value"@) {
                Err(_) => Err(invalid(n, "initial_value"@)),
                Ok(initial_value) => match texts_attr(p, "suggestions"@) {
                    Err(_) => Err(invalid(n, "suggestions"@)),
                    Ok(suggestions) => match text_attr(p, "placeholder"@) {
                        Err(_) => Err(invalid(n, "placeholder"@)),
                        Ok(placeholder) => Ok(
                            PromptModel::Text {
                                default,
                                page_size,
                                initial_value,
                                suggestions,
                                placeholder,
                            },
                        ),
                    },
                },
            },
        },
    }
}

/// The attributes of a password prompt.
pub open spec fn password_of(p: Seq<(Node, Node)>, n: Seq<char>) -> Result<PromptModel, ErrorModel> {
    match display_mode_attr(p, "display_mode"@) {
        Err(_) => Err(invalid(n, "display_mode"@)),
        Ok(display_mode) => match bool_attr(p, "enable_display_toggle"@) {
            Err(_) => Err(invalid(n, "enable_display_toggle"@)),
            Ok(display_toggle) => Ok(PromptModel::Password { display_mode, display_toggle }),
        },
    }
}

/// The attributes of an editor prompt.
pub open spec fn editor_of(p: Seq<(Node, Node)>, n: Seq<char>) -> Result<PromptModel, ErrorModel> {
    match text_attr(p, "editor_command"@) {
        Err(_) => Err(invalid(n, "editor_command"@)),
        Ok(command) => match texts_attr(p, "editor_command_args"@) {
            Err(_) => Err(invalid(n, "editor_command_args"@)),
            Ok(command_args) => match text_attr(p, "file_extension"@) {
                Err(_) => Err(invalid(n, "file_extension"@)),
                Ok(file_extension) => match text_attr(p, "predefined_text"@) {
                    Err(_) => Err(invalid(n, "predefined_text"@)),
                    Ok(predefined_text) => Ok(
                        PromptModel::Editor { command, command_args, file_extension, predefined_text },
                    ),
                },
            },
        },
    }
}

/// The attributes of a date prompt.
pub open spec fn date_select_of(p: Seq<(Node, Node)>, n: Seq<char>) -> Result<PromptModel, ErrorModel> {
    match date_attr(p, "default"@) {
        Err(_) => Err(invalid(n, "default"@)),
        Ok(default) => match date_attr(p, "min_date"@) {
            Err(_) => Err(invalid(n, "min_date"@)),
            Ok(min_date) => match date_attr(p, "max_date"@) {
                Err(_) => Err(invalid(n, "max_date"@)),
                Ok(max_date) => match week_start_attr(p, "week_start"@) {
                    Err(_) => Err(invalid(n, "week_start"@)),
                    Ok(week_start) => Ok(
                        PromptModel::DateSelect { default, min_date, max_date, week_start },
                    ),
                },
            },
        },
    }
}

/// The mandatory, non-empty list of options of a selection prompt; an absent
/// list is an invalid attribute like any other.
pub open spec fn options_of(p: Seq<(Node, Node)>, n: Seq<char>) -> Result<Seq<Seq<char>>, ErrorModel> {
    match lookup(p, "options"@) {
        None => Err(invalid(n, "options"@)),
        Some(Node::List(items)) => if all_text(items@) && items@.len() > 0 {
            Ok(text_items(items@))
        } else {
            Err(invalid(n, "options"@))
        },
        Some(_) => Err(invalid(n, "options"@)),
    }
}

/// The attributes of a single-selection prompt.
pub open spec fn select_of(p: Seq<(Node, Node)>, n: Seq<char>) -> Result<PromptModel, ErrorModel> {
    match options_of(p, n) {
        Err(e) => Err(e),
        Ok(options) => match size_attr(p, "page_size"@, 1) {
            Err(_) => Err(invalid(n, "page_size"@)),
            Ok(page_size) => match size_attr(p, "starting_cursor"@, 0) {
                Err(_) => Err(invalid(n, "starting_cursor"@)),
                Ok(starting_cursor) => Ok(
                    PromptModel::Select { options, page_size, starting_cursor },
                ),
            },
        },
    }
}

/// The attributes of a multiple-selection prompt.
pub open spec fn multi_select_of(p: Seq<(Node, Node)>, n: Seq<char>) -> Result<PromptModel, ErrorModel> {
    match options_of(p, n) {
        Err(e) => Err(e),
        Ok(options) => match indices_attr(p, "default"@, options.len() as int) {
            Err(_) => Err(invalid(n, "default"@)),
            Ok(default) => match size_attr(p, "page_size"@, 1) {
                Err(_) => Err(invalid(n, "page_size"@)),
                Ok(page_size) => match size_attr(p, "starting_cursor"@, 0) {
                    Err(_) => Err(invalid(n, "starting_cursor"@)),
                    Ok(starting_cursor) => match bool_attr(p, "keep_filter"@) {
                        Err(_) => Err(invalid(n, "keep_filter"@)),
                        Ok(keep_filter) => Ok(
                            PromptModel::MultiSelect {
                                options,
                                default,
                                page_size,
                                starting_cursor,
                                keep_filter,
                            },
                        ),
                    },
                },
            },
        },
    }
}

/// The prompt descriptor of a question of variant `v` named `n`.
pub open spec fn prompt_of(p: Seq<(Node, Node)>, n: Seq<char>, v: Variant) -> Result<PromptModel, ErrorModel> {
    match v {
        Variant::Confirm => confirm_of(p, n),
        Variant::Text => text_of(p, n),
        Variant::Password => password_of(p, n),
        Variant::Editor => editor_of(p, n),
        Variant::DateSelect => date_select_of(p, n),
        Variant::Select => select_of(p, n),
        Variant::MultiSelect => multi_select_of(p, n),
    }
}

/// The question that a mapping describes: its name (a non-empty text), its
/// variant tag, its message, the shared optional attributes `help` and
/// `skippable`, then the attributes of its variant, checked in that order.
pub open spec fn question_of(p: Seq<(Node, Node)>) -> Result<QuestionModel, ErrorModel> {
    match lookup(p, "name"@) {
        None => Err(ErrorModel::MissingField(Seq::empty(), "name"@)),
        Some(Node::Text(name)) => if name@.len() == 0 {
            Err(ErrorModel::MissingField(Seq::empty(), "name"@))
        } else {
            let n = name@;
            match lookup(p, "variant"@) {
                None => Err(ErrorModel::MissingField(n, "variant"@)),
                Some(Node::Text(tag)) => match variant_of(tag@) {
                    None => Err(ErrorModel::UnknownVariant(n, tag@)),
                    Some(v) => match lookup(p, "message"@) {
                        None => Err(ErrorModel::MissingField(n, "message"@)),
                        Some(Node::Text(message)) => match text_attr(p, "help"@) {
                            Err(_) => Err(invalid(n, "help"@)),
                            Ok(help) => match bool_attr(p, "skippable"@) {
                                Err(_) => Err(invalid(n, "skippable"@)),
                                Ok(skippable) => match prompt_of(p, n, v) {
                                    Err(e) => Err(e),
                                    Ok(prompt) => Ok(
                                        QuestionModel {
                                            name: n,
                                            message: message@,
                                            help,
                                            skippable: skippable == Some(true),
                                            prompt,
                                        },
                                    ),
                                },
                            },
                        },
                        Some(_) => Err(ErrorModel::WrongType(n, "message"@)),
                    },
                },
                Some(_) => Err(ErrorModel::WrongType(n, "variant"@)),
            }
        },
        Some(_) => Err(ErrorModel::WrongType(Seq::empty(), "name"@)),
    }
}

fn invalid_error(n: &String, key: &str) -> (e: ConfigError)
    ensures
        e@ == invalid(n@, key@),
{
    ConfigError::InvalidAttribute { question: n.clone(), attribute: key.to_owned() }
}

fn opt_text(p: &Vec<(Node, Node)>, n: &String, key: &str) -> (r: Result<Option<String>, ConfigError>)
    ensures
        match r {
            Ok(o) => text_attr(p@, key@) == Ok::<Option<Seq<char>>, ()>(opt_view(o)),
            Err(e) => text_attr(p@, key@) is Err && e@ == invalid(n@, key@),
        },
{
    match read_text(p, key) {
        Ok(o) => Ok(o),
        Err(_) => Err(invalid_error(n, key)),
    }
}

fn opt_bool(p: &Vec<(Node, Node)>, n: &String, key: &str) -> (r: Result<Option<bool>, ConfigError>)
    ensures
        match r {
            Ok(o) => bool_attr(p@, key@) == Ok::<Option<bool>, ()>(o),
            Err(e) => bool_attr(p@, key@) is Err && e@ == invalid(n@, key@),
        },
{
    match read_bool(p, key) {
        Ok(o) => Ok(o),
        Err(_) => Err(invalid_error(n, key)),
    }
}

fn opt_size(p: &Vec<(Node, Node)>, n: &String, key: &str, low: i64) -> (r: Result<Option<usize>, ConfigError>)
    requires
        0 <= low,
    ensures
        match r {
            Ok(o) => size_attr(p@, key@, low as int) == Ok::<Option<int>, ()>(opt_int(o)),
            Err(e) => size_attr(p@, key@, low as int) is Err && e@ == invalid(n@, key@),
        },
{
    match read_size(p, key, low) {
        Ok(o) => Ok(o),
        Err(_) => Err(invalid_error(n, key)),
    }
}

fn opt_texts_attr(p: &Vec<(Node, Node)>, n: &String, key: &str) -> (r: Result<Option<Vec<String>>, ConfigError>)
    ensures
        match r {
            Ok(o) => texts_attr(p@, key@) == Ok::<Option<Seq<Seq<char>>>, ()>(opt_texts(o)),
            Err(e) => texts_attr(p@, key@) is Err && e@ == invalid(n@, key@),
        },
{
    match read_texts(p, key) {
        Ok(o) => Ok(o),
        Err(_) => Err(invalid_error(n, key)),
    }
}

fn opt_date_attr(p: &Vec<(Node, Node)>, n: &String, key: &str) -> (r: Result<Option<Date>, ConfigError>)
    ensures
        match r {
            Ok(o) => date_attr(p@, key@) == Ok::<Option<(int, int, int)>, ()>(opt_date(o)),
            Err(e) => date_attr(p@, key@) is Err && e@ == invalid(n@, key@),
        },
{
    match read_date(p, key) {
        Ok(o) => Ok(o),
        Err(_) => Err(invalid_error(n, key)),
    }
}

fn read_confirm(p: &Vec<(Node, Node)>, n: &String) -> (r: Result<Prompt, ConfigError>)
    ensures
        match r {
            Ok(q) => confirm_of(p@, n@) == Ok::<PromptModel, ErrorModel>(q@),
            Err(e) => confirm_of(p@, n@) == Err::<PromptModel, ErrorModel>(e@),
        },
{
    let default = match opt_bool(p, n, "default") {
        Ok(v) => v,
        Err(e) => return Err(e),
    };
    let placeholder = match opt_text(p, n, "placeholder") {
        Ok(v) => v,
        Err(e) => return Err(e),
    };
    Ok(Prompt::Confirm { default, placeholder })
}

fn read_text_prompt(p: &Vec<(Node, Node)>, n: &String) -> (r: Result<Prompt, ConfigError>)
    ensures
        match r {
            Ok(q) => text_of(p@, n@) == Ok::<PromptModel, ErrorModel>(q@),
            Err(e) => text_of(p@, n@) == Err::<PromptModel, ErrorModel>(e@),
        },
{
    let default = match opt_text(p, n, "default") {
        Ok(v) => v,
        Err(e) => return Err(e),
    };
    let page_size = match opt_size(p, n, "page_size", 1) {
        Ok(v) => v,
        Err(e) => return Err(e),
    };
    let initial_value = match opt_text(p, n, "initial_value") {
        Ok(v) => v,
        Err(e) => return Err(e),
    };
    let suggestions = match opt_texts_attr(p, n, "suggestions") {
        Ok(v) => v,
        Err(e) => return Err(e),
    };
    let placeholder = match opt_text(p, n, "placeholder") {
        Ok(v) => v,
        Err(e) => return Err(e),
    };
    Ok(Prompt::Text { default, page_size, initial_value, suggestions, placeholder })
}

fn read_password(p: &Vec<(Node, Node)>, n: &String) -> (r: Result<Prompt, ConfigError>)
    ensures
        match r {
            Ok(q) => password_of(p@, n@) == Ok::<PromptModel, ErrorModel>(q@),
            Err(e) => password_of(p@, n@) == Err::<PromptModel, ErrorModel>(e@),
        },
{
    let display_mode = match read_display_mode(p, "display_mode") {
        Ok(v) => v,
        Err(_) => return Err(invalid_error(n, "display_mode")),
    };
    let display_toggle = match opt_bool(p, n, "enable_display_toggle") {
        Ok(v) => v,
        Err(e) => return Err(e),
    };
    Ok(Prompt::Password { display_mode, display_toggle })
}

fn read_editor(p: &Vec<(Node, Node)>, n: &String) -> (r: Result<Prompt, ConfigError>)
    ensures
        match r {
            Ok(q) => editor_of(p@, n@) == Ok::<PromptModel, ErrorModel>(q@),
            Err(e) => editor_of(p@, n@) == Err::<PromptModel, ErrorModel>(e@),
        },
{
    let command = match opt_text(p, n, "editor_command") {
        Ok(v) => v,
        Err(e) => return Err(e),
    };
    let command_args = match opt_texts_attr(p, n, "editor_command_args") {
        Ok(v) => v,
        Err(e) => return Err(e),
    };
    let file_extension = match opt_text(p, n, "file_extension") {
        Ok(v) => v,
        Err(e) => return Err(e),
    };
    let predefined_text = match opt_text(p, n, "predefined_text") {
        Ok(v) => v,
        Err(e) => return Err(e),
    };
    Ok(Prompt::Editor { command, command_args, file_extension, predefined_text })
}

fn read_date_select(p: &Vec<(Node, Node)>, n: &String) -> (r: Result<Prompt, ConfigError>)
    ensures
        match r {
            Ok(q) => date_select_of(p@, n@) == Ok::<PromptModel, ErrorModel>(q@),
            Err(e) => date_select_of(p@, n@) == Err::<PromptModel, ErrorModel>(e@),
        },
{
    let default = match opt_date_attr(p, n, "default") {
        Ok(v) => v,
        Err(e) => return Err(e),
    };
    let min_date = match opt_date_attr(p, n, "min_date") {
        Ok(v) => v,
        Err(e) => return Err(e),
    };
    let max_date = match opt_date_attr(p, n, "max_date") {
        Ok(v) => v,
        Err(e) => return Err(e),
    };
    let week_start = match read_week_start(p, "week_start") {
        Ok(v) => v,
        Err(_) => return Err(invalid_error(n, "week_start")),
    };
    Ok(Prompt::DateSelect { default, min_date, max_date, week_start })
}

fn read_options(p: &Vec<(Node, Node)>, n: &String) -> (r: Result<Vec<String>, ConfigError>)
    ensures
        match r {
            Ok(v) => options_of(p@, n@) == Ok::<Seq<Seq<char>>, ErrorModel>(texts(v@)),
            Err(e) => options_of(p@, n@) == Err::<Seq<Seq<char>>, ErrorModel>(e@),
        },
{
    match find(p, "options") {
        None => Err(invalid_error(n, "options")),
        Some(Node::List(items)) => match text_list(items) {
            Some(v) => {
                assert(texts(v@).len() == v@.len() && text_items(items@).len() == items@.len());
                if v.len() > 0 {
                    Ok(v)
                } else {
                    Err(invalid_error(n, "options"))
                }
            },
            None => Err(invalid_error(n, "options")),
        },
        Some(_) => Err(invalid_error(n, "options")),
    }
}

fn read_select(p: &Vec<(Node, Node)>, n: &String) -> (r: Result<Prompt, ConfigError>)
    ensures
        match r {
            Ok(q) => select_of(p@, n@) == Ok::<PromptModel, ErrorModel>(q@),
            Err(e) => select_of(p@, n@) == Err::<PromptModel, ErrorModel>(e@),
        },
{
    let options = match read_options(p, n) {
        Ok(v) => v,
        Err(e) => return Err(e),
    };
    let page_size = match opt_size(p, n, "page_size", 1) {
        Ok(v) => v,
        Err(e) => return Err(e),
    };
    let starting_cursor = match opt_size(p, n, "starting_cursor", 0) {
        Ok(v) => v,
        Err(e) => return Err(e),
    };
    Ok(Prompt::Select { options, page_size, starting_cursor })
}

fn read_multi_select(p: &Vec<(Node, Node)>, n: &String) -> (r: Result<Prompt, ConfigError>)
    ensures
        match r {
            Ok(q) => multi_select_of(p@, n@) == Ok::<PromptModel, ErrorModel>(q@),
            Err(e) => multi_select_of(p@, n@) == Err::<PromptModel, ErrorModel>(e@),
        },
{
    let options = match read_options(p, n) {
        Ok(v) => v,
        Err(e) => return Err(e),
    };
    let default = match read_indices(p, "default", options.len()) {
        Ok(v) => v,
        Err(_) => return Err(invalid_error(n, "default")),
    };
    let page_size = match opt_size(p, n, "page_size", 1) {
        Ok(v) => v,
        Err(e) => return Err(e),
    };
    let starting_cursor = match opt_size(p, n, "starting_cursor", 0) {
        Ok(v) => v,
        Err(e) => return Err(e),
    };
    let keep_filter = match opt_bool(p, n, "keep_filter") {
        Ok(v) => v,
        Err(e) => return Err(e),
    };
    Ok(Prompt::MultiSelect { options, default, page_size, starting_cursor, keep_filter })
}

/// Validates the attributes of a question of variant `v` named `n` into its
/// prompt descriptor.
pub fn read_prompt(p: &Vec<(Node, Node)>, n: &String, v: Variant) -> (r: Result<Prompt, ConfigError>)
    ensures
        match r {
            Ok(q) => prompt_of(p@, n@, v) == Ok::<PromptModel, ErrorModel>(q@),
            Err(e) => prompt_of(p@, n@, v) == Err::<PromptModel, ErrorModel>(e@),
        },
{
    match v {
        Variant::Confirm => read_confirm(p, n),
        Variant::Text => read_text_prompt(p, n),
        Variant::Password => read_password(p, n),
        Variant::Editor => read_editor(p, n),
        Variant::DateSelect => read_date_select(p, n),
        Variant::Select => read_select(p, n),
        Variant::MultiSelect => read_multi_select(p, n),
    }
}

/// Reads and validates the question that a mapping describes.
pub fn read_question(p: &Vec<(Node, Node)>) -> (r: Result<Question, ConfigError>)
    ensures
        match r {
            Ok(q) => question_of(p@) == Ok::<QuestionModel, ErrorModel>(q@),
            Err(e) => question_of(p@) == Err::<QuestionModel, ErrorModel>(e@),
        },
{
    let name = match find(p, "name") {
        Some(Node::Text(s)) => {
            if s.unicode_len() == 0 {
                return Err(
                    ConfigError::MissingField { question: String::new(), field: "name".to_owned() },
                );
            }
            s.clone()
        },
        None => {
            return Err(
                ConfigError::MissingField { question: String::new(), field: "name".to_owned() },
            )
        },
        Some(_) => {
            return Err(
                ConfigError::WrongType { question: String::new(), field: "name".to_owned() },
            )
        },
    };
    let variant = match find(p, "variant") {
        Some(Node::Text(tag)) => match parse_variant(tag.as_str()) {
            Some(v) => v,
            None => {
                return Err(ConfigError::UnknownVariant { question: name, variant: tag.clone() })
            },
        },
        None => {
            return Err(ConfigError::MissingField { question: name, field: "variant".to_owned() })
        },
        Some(_) => {
            return Err(ConfigError::WrongType { question: name, field: "variant".to_owned() })
        },
    };
    let message = match find(p, "message") {
        Some(Node::Text(m)) => m.clone(),
        None => {
            return Err(ConfigError::MissingField { question: name, field: "message".to_owned() })
        },
        Some(_) => {
            return Err(ConfigError::WrongType { question: name, field: "message".to_owned() })
        },
    };
    let help = match opt_text(p, &name, "help") {
        Ok(v) => v,
        Err(e) => return Err(e),
    };
    let skippable = match opt_bool(p, &name, "skippable") {
        Ok(Some(b)) => b,
        Ok(None) => false,
        Err(e) => return Err(e),
    };
    let prompt = match read_prompt(p, &name, variant) {
        Ok(v) => v,
        Err(e) => return Err(e),
    };
    Ok(Question { name, message, help, skippable, prompt })
}

/// The question at position `i` of a configuration.
pub open spec fn entry_of(item: Node, i: int) -> Result<QuestionModel, ErrorModel> {
    match item {
        Node::Dict(p) => question_of(p@),
        _ => Err(ErrorModel::NotAMapping(i)),
    }
}

/// The questions of a configuration's entries, in order; the first entry that
/// fails decides the error.
pub open spec fn questions_of(items: Seq<Node>) -> Result<Seq<QuestionModel>, ErrorModel>
    decreases items.len(),
{
    if items.len() == 0 {
        Ok(Seq::empty())
    } else {
        match questions_of(items.drop_last()) {
            Err(e) => Err(e),
            Ok(qs) => match entry_of(items.last(), items.len() - 1) {
                Err(e) => Err(e),
                Ok(q) => Ok(qs.push(q)),
            },
        }
    }
}

/// The questions of a configuration document, whose root must be a list.
pub open spec fn config_of(doc: Node) -> Result<Seq<QuestionModel>, ErrorModel> {
    match doc {
        Node::List(items) => questions_of(items@),
        _ => Err(ErrorModel::NotAList),
    }
}

/// The models of a list of questions.
pub open spec fn question_models(qs: Seq<Question>) -> Seq<QuestionModel> {
    qs.map_values(|q: Question| q@)
}

proof fn lemma_error_sticks(items: Seq<Node>, j: int, e: ErrorModel)
    requires
        0 <= j <= items.len(),
        questions_of(items.subrange(0, j)) == Err::<Seq<QuestionModel>, ErrorModel>(e),
    ensures
        questions_of(items) == Err::<Seq<QuestionModel>, ErrorModel>(e),
    decreases items.len() - j,
{
    if j == items.len() {
        assert(items.subrange(0, j) =~= items);
    } else {
        assert(items.subrange(0, j + 1).drop_last() =~= items.subrange(0, j));
        lemma_error_sticks(items, j + 1, e);
    }
}

/// Reads and validates every question of a configuration document, in order.
pub fn read_config(doc: &Node) -> (r: Result<Vec<Question>, ConfigError>)
    ensures
        match r {
            Ok(qs) => config_of(*doc) == Ok::<Seq<QuestionModel>, ErrorModel>(
                question_models(qs@),
            ),
            Err(e) => config_of(*doc) == Err::<Seq<QuestionModel>, ErrorModel>(e@),
        },
{
    let items = match doc {
        Node::List(items) => items,
        _ => return Err(ConfigError::NotAList),
    };
    assert(config_of(*doc) == questions_of(items@));
    let mut out: Vec<Question> = Vec::new();
    let mut i: usize = 0;
    assert(items@.subrange(0, 0) =~= Seq::<Node>::empty());
    assert(question_models(out@) =~= Seq::<QuestionModel>::empty());
    while i < items.len()
        invariant
            i <= items@.len(),
            config_of(*doc) == questions_of(items@),
            questions_of(items@.subrange(0, i as int)) == Ok::<Seq<QuestionModel>, ErrorModel>(
                question_models(out@),
            ),
        decreases items.len() - i,
    {
        assert(items@.subrange(0, i + 1).drop_last() =~= items@.subrange(0, i as int));
        assert(items@.subrange(0, i + 1).last() == items@[i as int]);
        let q = match &items[i] {
            Node::Dict(p) => match read_question(p) {
                Ok(q) => q,
                Err(e) => {
                    proof {
                        assert(entry_of(items@[i as int], i as int) == Err::<QuestionModel, ErrorModel>(e@));
                        assert(questions_of(items@.subrange(0, i + 1)) == Err::<Seq<QuestionModel>, ErrorModel>(e@));
                        lemma_error_sticks(items@, i + 1, e@);
                    }
                    return Err(e);
                },
            },
            _ => {
                proof {
                    assert(entry_of(items@[i as int], i as int) == Err::<QuestionModel, ErrorModel>(ErrorModel::NotAMapping(i as int)));
                    assert(questions_of(items@.subrange(0, i + 1)) == Err::<Seq<QuestionModel>, ErrorModel>(ErrorModel::NotAMapping(i as int)));
                    lemma_error_sticks(items@, i + 1, ErrorModel::NotAMapping(i as int));
                }
                return Err(ConfigError::NotAMapping { index: i });
            },
        };
        let ghost before = out@;
        out.push(q);
        assert(question_models(out@) =~= question_models(before).push(q@));
        i = i + 1;
    }
    assert(items@.subrange(0, items@.len() as int) =~= items@);
    Ok(out)
}

/// The questions of a configuration text: the first document it holds.
pub open spec fn config_of_text(text: Seq<char>) -> Result<Seq<QuestionModel>, ErrorModel> {
    match yaml_documents(text) {
        None => Err(ErrorModel::Unreadable),
        Some(docs) => if docs.len() == 0 {
            Err(ErrorModel::NotAList)
        } else {
            config_of(docs[0])
        },
    }
}

/// Reads a configuration text and validates every question of its first document.
pub fn parse_config(text: &str) -> (r: Result<Vec<Question>, ConfigError>)
    ensures
        match r {
            Ok(qs) => config_of_text(text@) == Ok::<Seq<QuestionModel>, ErrorModel>(
                question_models(qs@),
            ),
            Err(e) => config_of_text(text@) == Err::<Seq<QuestionModel>, ErrorModel>(e@),
        },
{
    match load_documents(text) {
        Err(_) => Err(ConfigError::Unreadable),
        Ok(docs) => {
            if docs.len() == 0 {
                Err(ConfigError::NotAList)
            } else {
                read_config(&docs[0])
            }
        },
    }
}

/// Every question of `qs` has a name of its own.
pub open spec fn names_unique(qs: Seq<QuestionModel>) -> bool {
    forall|i: int, j: int| 0 <= i < j < qs.len() ==> qs[i].name != qs[j].name
}

/// The position of the first question whose name an earlier question already
/// has, or `None` where all names differ.
pub fn first_duplicate(qs: &Vec<Question>) -> (r: Option<usize>)
    ensures
        match r {
            Some(j) => j < qs@.len() && names_unique(question_models(qs@).subrange(0, j as int))
                && exists|i: int| 0 <= i < j && qs@[i].name@ == qs@[j as int].name@,
            None => names_unique(question_models(qs@)),
        },
{
    let mut j: usize = 0;
    while j < qs.len()
        invariant
            j <= qs@.len(),
            forall|a: int, b: int| 0 <= a < b < j ==> qs@[a].name@ != qs@[b].name@,
        decreases qs.len() - j,
    {
        let mut i: usize = 0;
        while i < j
            invariant
                i <= j < qs@.len(),
                forall|a: int, b: int| 0 <= a < b < j ==> qs@[a].name@ != qs@[b].name@,
                forall|a: int| 0 <= a < i ==> qs@[a].name@ != qs@[j as int].name@,
            decreases j - i,
        {
            if text_eq(qs[i].name.as_str(), qs[j].name.as_str()) {
                let ghost ms = question_models(qs@).subrange(0, j as int);
                assert forall|a: int, b: int| 0 <= a < b < ms.len() implies ms[a].name
                    != ms[b].name by {
                    assert(ms[a] == qs@[a]@ && ms[b] == qs@[b]@);
                }
                return Some(j);
            }
            i = i + 1;
        }
        j = j + 1;
    }
    let ghost ms = question_models(qs@);
    assert forall|a: int, b: int| 0 <= a < b < ms.len() implies ms[a].name != ms[b].name by {
        assert(ms[a] == qs@[a]@ && ms[b] == qs@[b]@);
    }
    None
}

} // verus!
