use questionnaire::node::Node;
use questionnaire::parse::{first_duplicate, parse_config, read_config, ConfigError};
use questionnaire::question::{Date, DisplayMode, Prompt, Question, Variant, WeekStart};
use questionnaire::reply::{answer_record, RenderError, Reply};
use questionnaire::store::{load_store, AnswerRecord, AnswerStore, LoadError};
use questionnaire::suggest::{contains_text, suggestions_for};

fn one(config: &str) -> Question {
    let mut qs = parse_config(config).expect("configuration is valid");
    assert_eq!(qs.len(), 1);
    qs.remove(0)
}

fn config_error(config: &str) -> ConfigError {
    parse_config(config).expect_err("configuration is refused")
}

fn values(store: &AnswerStore, name: &str) -> Option<Vec<String>> {
    store.get(name).cloned()
}

fn strings(v: &[&str]) -> Vec<String> {
    v.iter().map(|s| s.to_string()).collect()
}

fn record(name: &str, vals: &[&str], skipped: bool) -> AnswerRecord {
    AnswerRecord { name: name.to_string(), values: strings(vals), skipped }
}

#[test]
fn confirm_answered_yes_into_empty_store() {
    let q = one("[{name: q1, variant: confirm, message: Are you from Mars?}]");
    let mut store = AnswerStore::from_text("").unwrap();
    let rec = answer_record(&q, Reply::Flag(true)).unwrap();
    store.merge(&vec![rec]);
    assert_eq!(store.len(), 1);
    assert_eq!(values(&store, "q1"), Some(strings(&["true"])));
}

#[test]
fn confirm_answered_no() {
    let q = one("[{name: q1, variant: confirm, message: Sure?}]");
    let rec = answer_record(&q, Reply::Flag(false)).unwrap();
    assert_eq!(rec.values, strings(&["false"]));
    assert!(!rec.skipped);
}

#[test]
fn unvisited_name_is_kept() {
    let q = one("[{name: q2, variant: text, message: Hi}]");
    let mut store = AnswerStore::from_text("q1:\n  - old\n").unwrap();
    let rec = answer_record(&q, Reply::Line("hello".to_string())).unwrap();
    store.merge(&vec![rec]);
    assert_eq!(store.len(), 2);
    assert_eq!(values(&store, "q1"), Some(strings(&["old"])));
    assert_eq!(values(&store, "q2"), Some(strings(&["hello"])));
}

#[test]
fn skipped_question_keeps_stored_value() {
    let q = one("[{name: q1, variant: text, message: Hi, skippable: true}]");
    let mut store = AnswerStore::from_text("q1:\n  - old\n").unwrap();
    let rec = answer_record(&q, Reply::Skipped).unwrap();
    assert!(rec.skipped);
    assert!(rec.values.is_empty());
    store.merge(&vec![rec]);
    assert_eq!(store.len(), 1);
    assert_eq!(values(&store, "q1"), Some(strings(&["old"])));
}

#[test]
fn skipped_question_adds_nothing() {
    let q = one("[{name: q9, variant: editor, message: Hi, skippable: true}]");
    let mut store = AnswerStore::from_text("q1:\n  - old\n").unwrap();
    let rec = answer_record(&q, Reply::Skipped).unwrap();
    store.merge(&vec![rec]);
    assert_eq!(store.len(), 1);
    assert_eq!(values(&store, "q9"), None);
}

#[test]
fn multi_select_picks_options_by_position() {
    let q = one("[{name: m, variant: multi_select, message: Pick, options: [a, b, c]}]");
    let rec = answer_record(&q, Reply::Choices(vec![0, 2])).unwrap();
    assert_eq!(rec.values, strings(&["a", "c"]));
}

#[test]
fn multi_select_keeps_order_of_positions() {
    let q = one("[{name: m, variant: multi_select, message: Pick, options: [a, b, c]}]");
    let rec = answer_record(&q, Reply::Choices(vec![2, 1])).unwrap();
    assert_eq!(rec.values, strings(&["c", "b"]));
    let none = answer_record(&q, Reply::Choices(vec![])).unwrap();
    assert!(none.values.is_empty());
}

#[test]
fn date_select_default_accepted() {
    let q = one("[{name: d, variant: date_select, message: When, default: '2022-05-17'}]");
    let default = match &q.prompt {
        Prompt::DateSelect { default, .. } => default.expect("default is set"),
        other => panic!("unexpected prompt {:?}", other),
    };
    assert_eq!(default, Date { year: 2022, month: 5, day: 17 });
    let rec = answer_record(&q, Reply::Day(default)).unwrap();
    assert_eq!(rec.values, strings(&["2022-05-17"]));
}

#[test]
fn date_select_attributes() {
    let q = one(
        "[{name: d, variant: date_select, message: When, min_date: '2022-01-02', max_date: '2023-12-31', week_start: sun}]",
    );
    match &q.prompt {
        Prompt::DateSelect { default, min_date, max_date, week_start } => {
            assert_eq!(*default, None);
            assert_eq!(*min_date, Some(Date { year: 2022, month: 1, day: 2 }));
            assert_eq!(*max_date, Some(Date { year: 2023, month: 12, day: 31 }));
            assert_eq!(*week_start, Some(WeekStart::Sun));
        }
        other => panic!("unexpected prompt {:?}", other),
    }
}

#[test]
fn store_round_trip() {
    let mut store = AnswerStore::new();
    store.set("q1".to_string(), strings(&["a", "b"]));
    store.set("q2".to_string(), strings(&[]));
    store.set("with space".to_string(), strings(&["x: y", "true", "12"]));
    let text = store.to_text();
    assert!(text.contains("q1"));
    let back = AnswerStore::from_text(&text).unwrap();
    assert_eq!(back.len(), 3);
    assert_eq!(values(&back, "q1"), Some(strings(&["a", "b"])));
    assert_eq!(values(&back, "q2"), Some(strings(&[])));
    assert_eq!(values(&back, "with space"), Some(strings(&["x: y", "true", "12"])));
}

#[test]
fn merge_twice_is_merge_once() {
    let base = "q1:\n  - old\nq3:\n  - keep\n";
    let recs = vec![record("q1", &["new"], false), record("q2", &[], true), record("q4", &["x", "y"], false)];
    let mut once = AnswerStore::from_text(base).unwrap();
    once.merge(&recs);
    let mut twice = AnswerStore::from_text(base).unwrap();
    twice.merge(&recs);
    twice.merge(&recs);
    assert_eq!(once.len(), twice.len());
    for name in ["q1", "q2", "q3", "q4"] {
        assert_eq!(values(&once, name), values(&twice, name));
    }
    assert_eq!(values(&once, "q1"), Some(strings(&["new"])));
    assert_eq!(values(&once, "q3"), Some(strings(&["keep"])));
    assert_eq!(values(&once, "q4"), Some(strings(&["x", "y"])));
    assert_eq!(values(&once, "q2"), None);
}

#[test]
fn answer_overwrites_stored_value() {
    let mut store = AnswerStore::from_text("q1: [old, older]\n").unwrap();
    store.merge(&vec![record("q1", &["new"], false)]);
    assert_eq!(values(&store, "q1"), Some(strings(&["new"])));
}

#[test]
fn later_duplicate_answer_wins() {
    let mut store = AnswerStore::new();
    store.merge(&vec![record("q1", &["first"], false), record("q1", &["second"], false)]);
    assert_eq!(store.len(), 1);
    assert_eq!(values(&store, "q1"), Some(strings(&["second"])));
}

#[test]
fn unvisited_names_preserved_by_merge() {
    let mut store = AnswerStore::from_text("a: ['1']\nb: ['2']\nc: ['3']\n").unwrap();
    store.merge(&vec![record("b", &["20"], false)]);
    assert_eq!(values(&store, "a"), Some(strings(&["1"])));
    assert_eq!(values(&store, "c"), Some(strings(&["3"])));
    assert_eq!(values(&store, "b"), Some(strings(&["20"])));
}

#[test]
fn empty_store_text_gives_empty_store() {
    let store = AnswerStore::from_text("").unwrap();
    assert_eq!(store.len(), 0);
}

#[test]
fn malformed_store_is_refused() {
    for text in ["- a\n- b\n", "q1: plain\n", "q1: [1, 2]\n", "[unclosed", "# only a comment\n"] {
        assert!(matches!(AnswerStore::from_text(text), Err(ConfigError::MalformedStore)), "{}", text);
    }
}

#[test]
fn store_from_node_later_entry_wins() {
    let doc = Node::Dict(vec![
        (Node::Text("k".to_string()), Node::List(vec![Node::Text("1".to_string())])),
        (Node::Text("k".to_string()), Node::List(vec![Node::Text("2".to_string())])),
    ]);
    let store = AnswerStore::from_node(&doc).unwrap();
    assert_eq!(store.len(), 1);
    assert_eq!(values(&store, "k"), Some(strings(&["2"])));
}

#[test]
fn text_prompt_attributes() {
    let q = one(
        "[{name: t, variant: text, message: M, help: H, default: D, page_size: 5, initial_value: I, suggestions: [x, y], placeholder: P}]",
    );
    assert_eq!(q.name, "t");
    assert_eq!(q.message, "M");
    assert_eq!(q.help.as_deref(), Some("H"));
    assert!(!q.skippable);
    assert_eq!(q.variant(), Variant::Text);
    match &q.prompt {
        Prompt::Text { default, page_size, initial_value, suggestions, placeholder } => {
            assert_eq!(default.as_deref(), Some("D"));
            assert_eq!(*page_size, Some(5));
            assert_eq!(initial_value.as_deref(), Some("I"));
            assert_eq!(suggestions.clone(), Some(strings(&["x", "y"])));
            assert_eq!(placeholder.as_deref(), Some("P"));
        }
        other => panic!("unexpected prompt {:?}", other),
    }
}

#[test]
fn password_and_editor_attributes() {
    let qs = parse_config(
        "- {name: p, variant: password, message: S, display_mode: masked, enable_display_toggle: true}\n- {name: e, variant: editor, message: E, editor_command: vim, editor_command_args: [-n], file_extension: .md, predefined_text: hi}\n",
    )
    .unwrap();
    assert_eq!(qs.len(), 2);
    match &qs[0].prompt {
        Prompt::Password { display_mode, display_toggle } => {
            assert_eq!(*display_mode, Some(DisplayMode::Masked));
            assert_eq!(*display_toggle, Some(true));
        }
        other => panic!("unexpected prompt {:?}", other),
    }
    match &qs[1].prompt {
        Prompt::Editor { command, command_args, file_extension, predefined_text } => {
            assert_eq!(command.as_deref(), Some("vim"));
            assert_eq!(command_args.clone(), Some(strings(&["-n"])));
            assert_eq!(file_extension.as_deref(), Some(".md"));
            assert_eq!(predefined_text.as_deref(), Some("hi"));
        }
        other => panic!("unexpected prompt {:?}", other),
    }
}

#[test]
fn select_attributes_and_choice() {
    let q = one("[{name: s, variant: select, message: M, options: [pasta, pizza], page_size: 3, starting_cursor: 1, skippable: true}]");
    assert!(q.skippable);
    match &q.prompt {
        Prompt::Select { options, page_size, starting_cursor } => {
            assert_eq!(options.clone(), strings(&["pasta", "pizza"]));
            assert_eq!(*page_size, Some(3));
            assert_eq!(*starting_cursor, Some(1));
        }
        other => panic!("unexpected prompt {:?}", other),
    }
    assert_eq!(answer_record(&q, Reply::Choice(1)).unwrap().values, strings(&["pizza"]));
    assert_eq!(answer_record(&q, Reply::Choice(2)).unwrap_err(), RenderError::NoSuchOption);
}

#[test]
fn multi_select_attributes() {
    let q = one("[{name: m, variant: multi_select, message: M, options: [a, b], default: [1], keep_filter: false, starting_cursor: 0}]");
    match &q.prompt {
        Prompt::MultiSelect { options, default, page_size, starting_cursor, keep_filter } => {
            assert_eq!(options.clone(), strings(&["a", "b"]));
            assert_eq!(default.clone(), Some(vec![1]));
            assert_eq!(*page_size, None);
            assert_eq!(*starting_cursor, Some(0));
            assert_eq!(*keep_filter, Some(false));
        }
        other => panic!("unexpected prompt {:?}", other),
    }
}

#[test]
fn config_questions_keep_their_order() {
    let qs = parse_config("[{name: b, variant: confirm, message: x}, {name: a, variant: text, message: y}]").unwrap();
    let names: Vec<&str> = qs.iter().map(|q| q.name.as_str()).collect();
    assert_eq!(names, vec!["b", "a"]);
}

#[test]
fn config_root_must_be_a_list() {
    assert!(matches!(config_error("name: q1\n"), ConfigError::NotAList));
    assert!(matches!(config_error(""), ConfigError::NotAList));
    assert!(matches!(read_config(&Node::Null), Err(ConfigError::NotAList)));
}

#[test]
fn config_entries_must_be_mappings() {
    assert!(matches!(
        config_error("[{name: a, variant: text, message: m}, plain]"),
        ConfigError::NotAMapping { index: 1 }
    ));
}

#[test]
fn unreadable_config() {
    assert!(matches!(config_error("[{name: a"), ConfigError::Unreadable));
}

#[test]
fn name_must_be_present_and_a_text() {
    match config_error("[{variant: text, message: m}]") {
        ConfigError::MissingField { question, field } => {
            assert_eq!(question, "");
            assert_eq!(field, "name");
        }
        other => panic!("unexpected error {:?}", other),
    }
    assert!(matches!(config_error("[{name: '', variant: text, message: m}]"), ConfigError::MissingField { .. }));
    match config_error("[{name: [x], variant: text, message: m}]") {
        ConfigError::WrongType { field, .. } => assert_eq!(field, "name"),
        other => panic!("unexpected error {:?}", other),
    }
}

#[test]
fn variant_must_be_known() {
    match config_error("[{name: q, message: m}]") {
        ConfigError::MissingField { question, field } => {
            assert_eq!(question, "q");
            assert_eq!(field, "variant");
        }
        other => panic!("unexpected error {:?}", other),
    }
    match config_error("[{name: q, variant: slider, message: m}]") {
        ConfigError::UnknownVariant { question, variant } => {
            assert_eq!(question, "q");
            assert_eq!(variant, "slider");
        }
        other => panic!("unexpected error {:?}", other),
    }
    match config_error("[{name: q, variant: 3, message: m}]") {
        ConfigError::WrongType { field, .. } => assert_eq!(field, "variant"),
        other => panic!("unexpected error {:?}", other),
    }
}

#[test]
fn message_is_mandatory() {
    match config_error("[{name: q, variant: confirm}]") {
        ConfigError::MissingField { field, .. } => assert_eq!(field, "message"),
        other => panic!("unexpected error {:?}", other),
    }
    match config_error("[{name: q, variant: confirm, message: [a]}]") {
        ConfigError::WrongType { field, .. } => assert_eq!(field, "message"),
        other => panic!("unexpected error {:?}", other),
    }
}

fn invalid_attribute(config: &str) -> (String, String) {
    match config_error(config) {
        ConfigError::InvalidAttribute { question, attribute } => (question, attribute),
        other => panic!("unexpected error {:?}", other),
    }
}

#[test]
fn invalid_attributes_are_named() {
    let cases = [
        ("[{name: q, variant: confirm, message: m, default: yes please}]", "default"),
        ("[{name: q, variant: confirm, message: m, help: [h]}]", "help"),
        ("[{name: q, variant: confirm, message: m, skippable: 1}]", "skippable"),
        ("[{name: q, variant: text, message: m, page_size: 0}]", "page_size"),
        ("[{name: q, variant: text, message: m, suggestions: [a, 1]}]", "suggestions"),
        ("[{name: q, variant: password, message: m, display_mode: blurred}]", "display_mode"),
        ("[{name: q, variant: editor, message: m, editor_command_args: vim}]", "editor_command_args"),
        ("[{name: q, variant: date_select, message: m, default: '2022-02-30'}]", "default"),
        ("[{name: q, variant: date_select, message: m, min_date: yesterday}]", "min_date"),
        ("[{name: q, variant: date_select, message: m, week_start: monday}]", "week_start"),
        ("[{name: q, variant: select, message: m, options: []}]", "options"),
        ("[{name: q, variant: select, message: m, options: [a], starting_cursor: -1}]", "starting_cursor"),
        ("[{name: q, variant: multi_select, message: m, options: [a, b], default: [2]}]", "default"),
        ("[{name: q, variant: multi_select, message: m, options: [a], keep_filter: maybe}]", "keep_filter"),
    ];
    for (config, attribute) in cases {
        let (question, found) = invalid_attribute(config);
        assert_eq!(question, "q", "{}", config);
        assert_eq!(found, attribute, "{}", config);
    }
}

#[test]
fn options_are_mandatory() {
    for variant in ["select", "multi_select"] {
        let config = format!("[{{name: q, variant: {}, message: m}}]", variant);
        let (question, attribute) = invalid_attribute(&config);
        assert_eq!(question, "q");
        assert_eq!(attribute, "options");
    }
}

#[test]
fn render_errors() {
    let q = one("[{name: q, variant: text, message: m}]");
    assert_eq!(answer_record(&q, Reply::Skipped).unwrap_err(), RenderError::NotSkippable);
    assert_eq!(answer_record(&q, Reply::Flag(true)).unwrap_err(), RenderError::WrongReply);
    let d = one("[{name: d, variant: date_select, message: m}]");
    let bad = Date { year: 2022, month: 2, day: 30 };
    assert_eq!(answer_record(&d, Reply::Day(bad)).unwrap_err(), RenderError::NoSuchDate);
    let m = one("[{name: m, variant: multi_select, message: m, options: [a]}]");
    assert_eq!(answer_record(&m, Reply::Choices(vec![0, 1])).unwrap_err(), RenderError::NoSuchOption);
}

#[test]
fn suggestions_ignore_case() {
    let candidates = strings(&["Colombia", "Brazil", "Argentina", "USA"]);
    assert_eq!(suggestions_for(&candidates, "BRA"), strings(&["Brazil"]));
    assert_eq!(suggestions_for(&candidates, "a"), candidates);
    assert_eq!(suggestions_for(&candidates, ""), candidates);
    assert!(suggestions_for(&candidates, "xyz").is_empty());
}

#[test]
fn contains_text_cases() {
    assert!(contains_text("brazil", "raz"));
    assert!(contains_text("abc", ""));
    assert!(contains_text("abc", "abc"));
    assert!(!contains_text("abc", "abcd"));
    assert!(!contains_text("abc", "cb"));
    assert!(!contains_text("", "a"));
}

#[test]
fn load_store_rules() {
    assert!(matches!(load_store(false, None), Err(LoadError::MissingDirectory)));
    assert!(matches!(load_store(false, Some("q1: [a]")), Err(LoadError::MissingDirectory)));
    assert_eq!(load_store(true, None).unwrap().len(), 0);
    assert_eq!(load_store(true, Some("")).unwrap().len(), 0);
    let st = load_store(true, Some("q1: [a]")).unwrap();
    assert_eq!(values(&st, "q1"), Some(strings(&["a"])));
    assert!(matches!(load_store(true, Some("q1: a")), Err(LoadError::Config(ConfigError::MalformedStore))));
}

#[test]
fn duplicate_names_are_found() {
    let qs = parse_config("[{name: a, variant: confirm, message: x}, {name: b, variant: confirm, message: y}, {name: a, variant: text, message: z}]").unwrap();
    assert_eq!(first_duplicate(&qs), Some(2));
    let distinct = parse_config("[{name: a, variant: confirm, message: x}, {name: b, variant: confirm, message: y}]").unwrap();
    assert_eq!(first_duplicate(&distinct), None);
    assert_eq!(first_duplicate(&Vec::new()), None);
}

#[test]
fn set_moves_an_existing_name_to_the_back() {
    let mut store = AnswerStore::new();
    store.set("first".to_string(), strings(&["1"]));
    store.set("second".to_string(), strings(&["2"]));
    store.set("first".to_string(), strings(&["3"]));
    assert_eq!(store.len(), 2);
    let text = store.to_text();
    let a = text.find("second").unwrap();
    let b = text.find("first").unwrap();
    assert!(a < b, "{}", text);
    assert_eq!(values(&store, "first"), Some(strings(&["3"])));
}

#[test]
fn early_years_are_zero_padded() {
    let d = one("[{name: d, variant: date_select, message: When}]");
    let rec = answer_record(&d, Reply::Day(Date { year: 33, month: 1, day: 2 })).unwrap();
    assert_eq!(rec.values, strings(&["0033-01-02"]));
}
