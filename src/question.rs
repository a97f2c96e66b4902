//! Question specifications: reading them from a configuration document and
//! validating each into a typed prompt descriptor.

use vstd::prelude::*;

use crate::node::{find, lookup, text_eq, Node};
use crate::outside::{date_parsed, parse_date};
use crate::store::texts;

verus! {

/// The format in which dates are written in configurations.
pub const DATE_FORMAT: &'static str = "%Y-%m-%d";

/// The interaction type of a question.
#[derive(Debug, Clone, Copy, PartialEq, Eq, Structural)]
pub enum Variant {
    Confirm,
    Text,
    Password,
    Editor,
    DateSelect,
    Select,
    MultiSelect,
}

/// How a password prompt shows what is typed.
#[derive(Debug, Clone, Copy, PartialEq, Eq, Structural)]
pub enum DisplayMode {
    Hidden,
    Masked,
    Full,
}

/// The first day of the week in a date prompt.
#[derive(Debug, Clone, Copy, PartialEq, Eq, Structural)]
pub enum WeekStart {
    Mon,
    Tue,
    Wed,
    Thu,
    Fri,
    Sat,
    Sun,
}

/// A calendar date.
#[derive(Debug, Clone, Copy, PartialEq, Eq, Structural)]
pub struct Date {
    pub year: i32,
    pub month: u32,
    pub day: u32,
}

impl View for Date {
    type V = (int, int, int);

    open spec fn view(&self) -> (int, int, int) {
        (self.year as int, self.month as int, self.day as int)
    }
}

/// The variant that a tag names.
pub open spec fn variant_of(tag: Seq<char>) -> Option<Variant> {
    if tag == "confirm"@ {
        Some(Variant::Confirm)
    } else if tag == "text"@ {
        Some(Variant::Text)
    } else if tag == "password"@ {
        Some(Variant::Password)
    } else if tag == "editor"@ {
        Some(Variant::Editor)
    } else if tag == "date_select"@ {
        Some(Variant::DateSelect)
    } else if tag == "select"@ {
        Some(Variant::Select)
    } else if tag == "multi_select"@ {
        Some(Variant::MultiSelect)
    } else {
        None
    }
}

/// The display mode that a token names.
pub open spec fn display_mode_of(token: Seq<char>) -> Option<DisplayMode> {
    if token == "hidden"@ {
        Some(DisplayMode::Hidden)
    } else if token == "masked"@ {
        Some(DisplayMode::Masked)
    } else if token == "full"@ {
        Some(DisplayMode::Full)
    } else {
        None
    }
}

/// The weekday that a token names.
pub open spec fn week_start_of(token: Seq<char>) -> Option<WeekStart> {
    if token == "mon"@ {
        Some(WeekStart::Mon)
    } else if token == "tue"@ {
        Some(WeekStart::Tue)
    } else if token == "wed"@ {
        Some(WeekStart::Wed)
    } else if token == "thu"@ {
        Some(WeekStart::Thu)
    } else if token == "fri"@ {
        Some(WeekStart::Fri)
    } else if token == "sat"@ {
        Some(WeekStart::Sat)
    } else if token == "sun"@ {
        Some(WeekStart::Sun)
    } else {
        None
    }
}

/// The variant that a tag names, if any.
pub fn parse_variant(tag: &str) -> (r: Option<Variant>)
    ensures
        r == variant_of(tag@),
{
    if text_eq(tag, "confirm") {
        Some(Variant::Confirm)
    } else if text_eq(tag, "text") {
        Some(Variant::Text)
    } else if text_eq(tag, "password") {
        Some(Variant::Password)
    } else if text_eq(tag, "editor") {
        Some(Variant::Editor)
    } else if text_eq(tag, "date_select") {
        Some(Variant::DateSelect)
    } else if text_eq(tag, "select") {
        Some(Variant::Select)
    } else if text_eq(tag, "multi_select") {
        Some(Variant::MultiSelect)
    } else {
        None
    }
}

/// The display mode that a token names, if any.
pub fn parse_display_mode(token: &str) -> (r: Option<DisplayMode>)
    ensures
        r == display_mode_of(token@),
{
    if text_eq(token, "hidden") {
        Some(DisplayMode::Hidden)
    } else if text_eq(token, "masked") {
        Some(DisplayMode::Masked)
    } else if text_eq(token, "full") {
        Some(DisplayMode::Full)
    } else {
        None
    }
}

/// The weekday that a token names, if any.
pub fn parse_week_start(token: &str) -> (r: Option<WeekStart>)
    ensures
        r == week_start_of(token@),
{
    if text_eq(token, "mon") {
        Some(WeekStart::Mon)
    } else if text_eq(token, "tue") {
        Some(WeekStart::Tue)
    } else if text_eq(token, "wed") {
        Some(WeekStart::Wed)
    } else if text_eq(token, "thu") {
        Some(WeekStart::Thu)
    } else if text_eq(token, "fri") {
        Some(WeekStart::Fri)
    } else if text_eq(token, "sat") {
        Some(WeekStart::Sat)
    } else if text_eq(token, "sun") {
        Some(WeekStart::Sun)
    } else {
        None
    }
}

/// The characters of an optional string.
pub open spec fn opt_view(o: Option<String>) -> Option<Seq<char>> {
    match o {
        Some(s) => Some(s@),
        None => None,
    }
}

/// The characters of each string of an optional list.
pub open spec fn opt_texts(o: Option<Vec<String>>) -> Option<Seq<Seq<char>>> {
    match o {
        Some(v) => Some(texts(v@)),
        None => None,
    }
}

/// An optional size, as an integer.
pub open spec fn opt_int(o: Option<usize>) -> Option<int> {
    match o {
        Some(n) => Some(n as int),
        None => None,
    }
}

/// An optional list of positions, as integers.
pub open spec fn opt_indices(o: Option<Vec<usize>>) -> Option<Seq<int>> {
    match o {
        Some(v) => Some(v@.map_values(|n: usize| n as int)),
        None => None,
    }
}

/// An optional date, as (year, month, day).
pub open spec fn opt_date(o: Option<Date>) -> Option<(int, int, int)> {
    match o {
        Some(d) => Some(d@),
        None => None,
    }
}

/// Every item is a text.
pub open spec fn all_text(items: Seq<Node>) -> bool {
    forall|i: int| 0 <= i < items.len() ==> #[trigger] items[i] is Text
}

/// The characters of each item, all of them texts.
pub open spec fn text_items(items: Seq<Node>) -> Seq<Seq<char>> {
    Seq::new(items.len(), |i: int| items[i]->Text_0@)
}

/// Every item is an integer in `0 .. bound`.
pub open spec fn all_index(items: Seq<Node>, bound: int) -> bool {
    forall|i: int|
        0 <= i < items.len() ==> #[trigger] items[i] is Int && 0 <= items[i]->Int_0 < bound
}

/// The integer of each item, all of them integers.
pub open spec fn int_items(items: Seq<Node>) -> Seq<int> {
    Seq::new(items.len(), |i: int| items[i]->Int_0 as int)
}

/// An optional text attribute: absent, a text, or (`Err`) of another kind.
pub open spec fn text_attr(pairs: Seq<(Node, Node)>, key: Seq<char>) -> Result<Option<Seq<char>>, ()> {
    match lookup(pairs, key) {
        None => Ok(None),
        Some(Node::Text(s)) => Ok(Some(s@)),
        Some(_) => Err(()),
    }
}

/// An optional boolean attribute.
pub open spec fn bool_attr(pairs: Seq<(Node, Node)>, key: Seq<char>) -> Result<Option<bool>, ()> {
    match lookup(pairs, key) {
        None => Ok(None),
        Some(Node::Bool(b)) => Ok(Some(b)),
        Some(_) => Err(()),
    }
}

/// An optional integer attribute in `low ..= usize::MAX`.
pub open spec fn size_attr(pairs: Seq<(Node, Node)>, key: Seq<char>, low: int) -> Result<Option<int>, ()> {
    match lookup(pairs, key) {
        None => Ok(None),
        Some(Node::Int(n)) => if low <= n <= usize::MAX {
            Ok(Some(n as int))
        } else {
            Err(())
        },
        Some(_) => Err(()),
    }
}

/// An optional attribute that is a list of texts.
pub open spec fn texts_attr(pairs: Seq<(Node, Node)>, key: Seq<char>) -> Result<Option<Seq<Seq<char>>>, ()> {
    match lookup(pairs, key) {
        None => Ok(None),
        Some(Node::List(items)) => if all_text(items@) {
            Ok(Some(text_items(items@)))
        } else {
            Err(())
        },
        Some(_) => Err(()),
    }
}

/// An optional attribute that is a list of positions in `0 .. bound`.
pub open spec fn indices_attr(pairs: Seq<(Node, Node)>, key: Seq<char>, bound: int) -> Result<Option<Seq<int>>, ()> {
    match lookup(pairs, key) {
        None => Ok(None),
        Some(Node::List(items)) => if all_index(items@, bound) {
            Ok(Some(int_items(items@)))
        } else {
            Err(())
        },
        Some(_) => Err(()),
    }
}

/// An optional date attribute, written in `DATE_FORMAT`.
pub open spec fn date_attr(pairs: Seq<(Node, Node)>, key: Seq<char>) -> Result<Option<(int, int, int)>, ()> {
    match lookup(pairs, key) {
        None => Ok(None),
        Some(Node::Text(s)) => match date_parsed(s@, DATE_FORMAT@) {
            Some(d) => Ok(Some(d)),
            None => Err(()),
        },
        Some(_) => Err(()),
    }
}

/// An optional display-mode attribute.
pub open spec fn display_mode_attr(pairs: Seq<(Node, Node)>, key: Seq<char>) -> Result<Option<DisplayMode>, ()> {
    match lookup(pairs, key) {
        None => Ok(None),
        Some(Node::Text(s)) => match display_mode_of(s@) {
            Some(m) => Ok(Some(m)),
            None => Err(()),
        },
        Some(_) => Err(()),
    }
}

/// An optional week-start attribute.
pub open spec fn week_start_attr(pairs: Seq<(Node, Node)>, key: Seq<char>) -> Result<Option<WeekStart>, ()> {
    match lookup(pairs, key) {
        None => Ok(None),
        Some(Node::Text(s)) => match week_start_of(s@) {
            Some(w) => Ok(Some(w)),
            None => Err(()),
        },
        Some(_) => Err(()),
    }
}

pub(crate) fn read_text(pairs: &Vec<(Node, Node)>, key: &str) -> (r: Result<Option<String>, ()>)
    ensures
        match r {
            Ok(o) => text_attr(pairs@, key@) == Ok::<Option<Seq<char>>, ()>(opt_view(o)),
            Err(_) => text_attr(pairs@, key@) is Err,
        },
{
    match find(pairs, key) {
        None => Ok(None),
        Some(Node::Text(s)) => Ok(Some(s.clone())),
        Some(_) => Err(()),
    }
}

pub(crate) fn read_bool(pairs: &Vec<(Node, Node)>, key: &str) -> (r: Result<Option<bool>, ()>)
    ensures
        r == bool_attr(pairs@, key@),
{
    match find(pairs, key) {
        None => Ok(None),
        Some(Node::Bool(b)) => Ok(Some(*b)),
        Some(_) => Err(()),
    }
}

pub(crate) fn read_size(pairs: &Vec<(Node, Node)>, key: &str, low: i64) -> (r: Result<Option<usize>, ()>)
    requires
        0 <= low,
    ensures
        match r {
            Ok(o) => size_attr(pairs@, key@, low as int) == Ok::<Option<int>, ()>(opt_int(o)),
            Err(_) => size_attr(pairs@, key@, low as int) is Err,
        },
{
    match find(pairs, key) {
        None => Ok(None),
        Some(Node::Int(n)) => {
            if low <= *n && (*n as u64) <= (usize::MAX as u64) {
                Ok(Some(*n as usize))
            } else {
                Err(())
            }
        },
        Some(_) => Err(()),
    }
}

/// The strings of a list of nodes, where all of them are texts.
pub fn text_list(items: &Vec<Node>) -> (r: Option<Vec<String>>)
    ensures
        match r {
            Some(v) => all_text(items@) && texts(v@) == text_items(items@),
            None => !all_text(items@),
        },
{
    let mut out: Vec<String> = Vec::new();
    let mut i: usize = 0;
    while i < items.len()
        invariant
            i <= items@.len(),
            out@.len() == i,
            forall|j: int| 0 <= j < i ==> #[trigger] items@[j] is Text && out@[j]@ == items@[j]->Text_0@,
        decreases items.len() - i,
    {
        match &items[i] {
            Node::Text(s) => out.push(s.clone()),
            _ => return None,
        }
        i = i + 1;
    }
    assert(texts(out@) =~= text_items(items@));
    Some(out)
}

/// The positions of a list of nodes, where all of them are integers in `0 .. bound`.
pub fn index_list(items: &Vec<Node>, bound: usize) -> (r: Option<Vec<usize>>)
    ensures
        match r {
            Some(v) => all_index(items@, bound as int) && v@.map_values(|n: usize| n as int)
                == int_items(items@),
            None => !all_index(items@, bound as int),
        },
{
    let mut out: Vec<usize> = Vec::new();
    let mut i: usize = 0;
    while i < items.len()
        invariant
            i <= items@.len(),
            out@.len() == i,
            forall|j: int|
                0 <= j < i ==> #[trigger] items@[j] is Int && 0 <= items@[j]->Int_0 < bound
                    && out@[j] as int == items@[j]->Int_0 as int,
        decreases items.len() - i,
    {
        match &items[i] {
            Node::Int(n) => {
                if 0 <= *n && (*n as u64) < (bound as u64) {
                    out.push(*n as usize);
                } else {
                    return None;
                }
            },
            _ => return None,
        }
        i = i + 1;
    }
    assert(out@.map_values(|n: usize| n as int) =~= int_items(items@));
    Some(out)
}

pub(crate) fn read_texts(pairs: &Vec<(Node, Node)>, key: &str) -> (r: Result<Option<Vec<String>>, ()>)
    ensures
        match r {
            Ok(o) => texts_attr(pairs@, key@) == Ok::<Option<Seq<Seq<char>>>, ()>(opt_texts(o)),
            Err(_) => texts_attr(pairs@, key@) is Err,
        },
{
    match find(pairs, key) {
        None => Ok(None),
        Some(Node::List(items)) => match text_list(items) {
            Some(v) => Ok(Some(v)),
            None => Err(()),
        },
        Some(_) => Err(()),
    }
}

pub(crate) fn read_indices(pairs: &Vec<(Node, Node)>, key: &str, bound: usize) -> (r: Result<Option<Vec<usize>>, ()>)
    ensures
        match r {
            Ok(o) => indices_attr(pairs@, key@, bound as int) == Ok::<Option<Seq<int>>, ()>(
                opt_indices(o),
            ),
            Err(_) => indices_attr(pairs@, key@, bound as int) is Err,
        },
{
    match find(pairs, key) {
        None => Ok(None),
        Some(Node::List(items)) => match index_list(items, bound) {
            Some(v) => Ok(Some(v)),
            None => Err(()),
        },
        Some(_) => Err(()),
    }
}

pub(crate) fn read_date(pairs: &Vec<(Node, Node)>, key: &str) -> (r: Result<Option<Date>, ()>)
    ensures
        match r {
            Ok(o) => date_attr(pairs@, key@) == Ok::<Option<(int, int, int)>, ()>(opt_date(o)),
            Err(_) => date_attr(pairs@, key@) is Err,
        },
{
    match find(pairs, key) {
        None => Ok(None),
        Some(Node::Text(s)) => match parse_date(s.as_str(), DATE_FORMAT) {
            Some(d) => Ok(Some(d)),
            None => Err(()),
        },
        Some(_) => Err(()),
    }
}

pub(crate) fn read_display_mode(pairs: &Vec<(Node, Node)>, key: &str) -> (r: Result<Option<DisplayMode>, ()>)
    ensures
        r == display_mode_attr(pairs@, key@),
{
    match find(pairs, key) {
        None => Ok(None),
        Some(Node::Text(s)) => match parse_display_mode(s.as_str()) {
            Some(m) => Ok(Some(m)),
            None => Err(()),
        },
        Some(_) => Err(()),
    }
}

pub(crate) fn read_week_start(pairs: &Vec<(Node, Node)>, key: &str) -> (r: Result<Option<WeekStart>, ()>)
    ensures
        r == week_start_attr(pairs@, key@),
{
    match find(pairs, key) {
        None => Ok(None),
        Some(Node::Text(s)) => match parse_week_start(s.as_str()) {
            Some(w) => Ok(Some(w)),
            None => Err(()),
        },
        Some(_) => Err(()),
    }
}

/// What a prompt descriptor holds, over plain values.
#[allow(inconsistent_fields)]
pub ghost enum PromptModel {
    Confirm { default: Option<bool>, placeholder: Option<Seq<char>> },
    Text {
        default: Option<Seq<char>>,
        page_size: Option<int>,
        initial_value: Option<Seq<char>>,
        suggestions: Option<Seq<Seq<char>>>,
        placeholder: Option<Seq<char>>,
    },
    Password { display_mode: Option<DisplayMode>, display_toggle: Option<bool> },
    Editor {
        command: Option<Seq<char>>,
        command_args: Option<Seq<Seq<char>>>,
        file_extension: Option<Seq<char>>,
        predefined_text: Option<Seq<char>>,
    },
    DateSelect {
        default: Option<(int, int, int)>,
        min_date: Option<(int, int, int)>,
        max_date: Option<(int, int, int)>,
        week_start: Option<WeekStart>,
    },
    Select { options: Seq<Seq<char>>, page_size: Option<int>, starting_cursor: Option<int> },
    MultiSelect {
        options: Seq<Seq<char>>,
        default: Option<Seq<int>>,
        page_size: Option<int>,
        starting_cursor: Option<int>,
        keep_filter: Option<bool>,
    },
}

/// The validated, variant-typed attributes of one question, ready to render.
#[allow(inconsistent_fields)]
#[derive(Debug)]
pub enum Prompt {
    Confirm { default: Option<bool>, placeholder: Option<String> },
    Text {
        default: Option<String>,
        page_size: Option<usize>,
        initial_value: Option<String>,
        /// Candidates offered while typing, filtered by `suggestions_for`.
        suggestions: Option<Vec<String>>,
        placeholder: Option<String>,
    },
    Password { display_mode: Option<DisplayMode>, display_toggle: Option<bool> },
    Editor {
        command: Option<String>,
        command_args: Option<Vec<String>>,
        file_extension: Option<String>,
        predefined_text: Option<String>,
    },
    DateSelect {
        default: Option<Date>,
        min_date: Option<Date>,
        max_date: Option<Date>,
        week_start: Option<WeekStart>,
    },
    /// `options` is never empty.
    Select { options: Vec<String>, page_size: Option<usize>, starting_cursor: Option<usize> },
    /// `options` is never empty, and each default is a position in it.
    MultiSelect {
        options: Vec<String>,
        default: Option<Vec<usize>>,
        page_size: Option<usize>,
        starting_cursor: Option<usize>,
        keep_filter: Option<bool>,
    },
}

impl View for Prompt {
    type V = PromptModel;

    open spec fn view(&self) -> PromptModel {
        match self {
            Prompt::Confirm { default, placeholder } => PromptModel::Confirm {
                default: *default,
                placeholder: opt_view(*placeholder),
            },
            Prompt::Text { default, page_size, initial_value, suggestions, placeholder } =>
                PromptModel::Text {
                default: opt_view(*default),
                page_size: opt_int(*page_size),
                initial_value: opt_view(*initial_value),
                suggestions: opt_texts(*suggestions),
                placeholder: opt_view(*placeholder),
            },
            Prompt::Password { display_mode, display_toggle } => PromptModel::Password {
                display_mode: *display_mode,
                display_toggle: *display_toggle,
            },
            Prompt::Editor { command, command_args, file_extension, predefined_text } =>
                PromptModel::Editor {
                command: opt_view(*command),
                command_args: opt_texts(*command_args),
                file_extension: opt_view(*file_extension),
                predefined_text: opt_view(*predefined_text),
            },
            Prompt::DateSelect { default, min_date, max_date, week_start } =>
                PromptModel::DateSelect {
                default: opt_date(*default),
                min_date: opt_date(*min_date),
                max_date: opt_date(*max_date),
                week_start: *week_start,
            },
            Prompt::Select { options, page_size, starting_cursor } => PromptModel::Select {
                options: texts(options@),
                page_size: opt_int(*page_size),
                starting_cursor: opt_int(*starting_cursor),
            },
            Prompt::MultiSelect { options, default, page_size, starting_cursor, keep_filter } =>
                PromptModel::MultiSelect {
                options: texts(options@),
                default: opt_indices(*default),
                page_size: opt_int(*page_size),
                starting_cursor: opt_int(*starting_cursor),
                keep_filter: *keep_filter,
            },
        }
    }
}

/// What a question holds, over plain values.
pub ghost struct QuestionModel {
    pub name: Seq<char>,
    pub message: Seq<char>,
    pub help: Option<Seq<char>>,
    pub skippable: bool,
    pub prompt: PromptModel,
}

/// One validated question: the store key it feeds, its shared attributes and
/// its prompt descriptor.
#[derive(Debug)]
pub struct Question {
    pub name: String,
    pub message: String,
    pub help: Option<String>,
    pub skippable: bool,
    pub prompt: Prompt,
}

impl View for Question {
    type V = QuestionModel;

    open spec fn view(&self) -> QuestionModel {
        QuestionModel {
            name: self.name@,
            message: self.message@,
            help: opt_view(self.help),
            skippable: self.skippable,
            prompt: self.prompt@,
        }
    }
}

impl Question {
    /// The variant of the question's prompt.
    pub fn variant(&self) -> (r: Variant)
        ensures
            r == variant_of_prompt(self.prompt@),
    {
        match &self.prompt {
            Prompt::Confirm { .. } => Variant::Confirm,
            Prompt::Text { .. } => Variant::Text,
            Prompt::Password { .. } => Variant::Password,
            Prompt::Editor { .. } => Variant::Editor,
            Prompt::DateSelect { .. } => Variant::DateSelect,
            Prompt::Select { .. } => Variant::Select,
            Prompt::MultiSelect { .. } => Variant::MultiSelect,
        }
    }
}

/// The variant of a prompt descriptor.
pub open spec fn variant_of_prompt(p: PromptModel) -> Variant {
    match p {
        PromptModel::Confirm { .. } => Variant::Confirm,
        PromptModel::Text { .. } => Variant::Text,
        PromptModel::Password { .. } => Variant::Password,
        PromptModel::Editor { .. } => Variant::Editor,
        PromptModel::DateSelect { .. } => Variant::DateSelect,
        PromptModel::Select { .. } => Variant::Select,
        PromptModel::MultiSelect { .. } => Variant::MultiSelect,
    }
}

} // verus!
