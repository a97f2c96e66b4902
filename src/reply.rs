//! Turning what a rendered prompt handed back into an answer record.

use vstd::prelude::*;

use crate::outside::{date_display, display_date, iso_date_text};
use crate::question::{Date, Prompt, PromptModel, Question, QuestionModel};
use crate::store::{texts, AnswerRecord, RecordModel};

verus! {

/// What rendering a prompt handed back.
#[derive(Debug)]
pub enum Reply {
    /// The user skipped the question.
    Skipped,
    /// The answer to a confirmation.
    Flag(bool),
    /// The text typed or edited, for text, password and editor prompts.
    Line(String),
    /// The date picked.
    Day(Date),
    /// The position of the option picked.
    Choice(usize),
    /// The positions of the options picked, in the order given.
    Choices(Vec<usize>),
}

/// What a `Reply` holds, over plain values.
pub ghost enum ReplyModel {
    Skipped,
    Flag(bool),
    Line(Seq<char>),
    Day((int, int, int)),
    Choice(int),
    Choices(Seq<int>),
}

impl View for Reply {
    type V = ReplyModel;

    open spec fn view(&self) -> ReplyModel {
        match self {
            Reply::Skipped => ReplyModel::Skipped,
            Reply::Flag(b) => ReplyModel::Flag(*b),
            Reply::Line(s) => ReplyModel::Line(s@),
            Reply::Day(d) => ReplyModel::Day(d@),
            Reply::Choice(i) => ReplyModel::Choice(*i as int),
            Reply::Choices(v) => ReplyModel::Choices(v@.map_values(|i: usize| i as int)),
        }
    }
}

/// Why a reply cannot answer its question.
#[derive(Debug, Clone, Copy, PartialEq, Eq, Structural)]
pub enum RenderError {
    /// A question that is not skippable was skipped.
    NotSkippable,
    /// The reply is of another kind than the question's variant gives.
    WrongReply,
    /// A position that is not one of the options.
    NoSuchOption,
    /// A date that does not exist.
    NoSuchDate,
}

/// The text of a confirmation answer.
pub open spec fn flag_text(b: bool) -> Seq<char> {
    if b {
        "true"@
    } else {
        "false"@
    }
}

/// The record that `reply` makes of question `q`: no values when skipped
/// (where the question allows it), "true" or "false" for a confirmation, the
/// text for text, password and editor prompts, the displayed date for a date
/// prompt, and the picked options, in the order of the positions given, for a
/// selection.
pub open spec fn record_of(q: QuestionModel, reply: ReplyModel) -> Result<RecordModel, RenderError> {
    match reply {
        ReplyModel::Skipped => if q.skippable {
            Ok((q.name, Seq::empty(), true))
        } else {
            Err(RenderError::NotSkippable)
        },
        ReplyModel::Flag(b) => match q.prompt {
            PromptModel::Confirm { .. } => Ok((q.name, seq![flag_text(b)], false)),
            _ => Err(RenderError::WrongReply),
        },
        ReplyModel::Line(s) => match q.prompt {
            PromptModel::Text { .. } | PromptModel::Password { .. } | PromptModel::Editor {
                ..
            } => Ok((q.name, seq![s], false)),
            _ => Err(RenderError::WrongReply),
        },
        ReplyModel::Day(d) => match q.prompt {
            PromptModel::DateSelect { .. } => match date_display(d.0, d.1, d.2) {
                Some(t) => Ok((q.name, seq![t], false)),
                None => Err(RenderError::NoSuchDate),
            },
            _ => Err(RenderError::WrongReply),
        },
        ReplyModel::Choice(i) => match q.prompt {
            PromptModel::Select { options, .. } => if 0 <= i < options.len() {
                Ok((q.name, seq![options[i]], false))
            } else {
                Err(RenderError::NoSuchOption)
            },
            _ => Err(RenderError::WrongReply),
        },
        ReplyModel::Choices(is) => match q.prompt {
            PromptModel::MultiSelect { options, .. } => if forall|k: int|
                0 <= k < is.len() ==> 0 <= #[trigger] is[k] < options.len() {
                Ok((q.name, is.map_values(|i: int| options[i]), false))
            } else {
                Err(RenderError::NoSuchOption)
            },
            _ => Err(RenderError::WrongReply),
        },
    }
}

/// The options at the given positions, in the order of the positions.
pub fn pick_options(options: &Vec<String>, picks: &Vec<usize>) -> (r: Option<Vec<String>>)
    ensures
        match r {
            Some(v) => (forall|k: int| 0 <= k < picks@.len() ==> #[trigger] picks@[k] < options@.len())
                && texts(v@) == picks@.map_values(|i: usize| i as int).map_values(
                |i: int| texts(options@)[i],
            ),
            None => !(forall|k: int|
                0 <= k < picks@.len() ==> #[trigger] picks@[k] < options@.len()),
        },
{
    let mut out: Vec<String> = Vec::new();
    let mut k: usize = 0;
    while k < picks.len()
        invariant
            k <= picks@.len(),
            out@.len() == k,
            forall|j: int|
                0 <= j < k ==> #[trigger] picks@[j] < options@.len() && out@[j]
                    == options@[picks@[j] as int],
        decreases picks.len() - k,
    {
        let i = picks[k];
        if i >= options.len() {
            return None;
        }
        out.push(options[i].clone());
        k = k + 1;
    }
    assert(texts(out@) =~= picks@.map_values(|i: usize| i as int).map_values(
        |i: int| texts(options@)[i],
    ));
    Some(out)
}

/// Makes the answer record that `reply` gives for question `q`.
pub fn answer_record(q: &Question, reply: Reply) -> (r: Result<AnswerRecord, RenderError>)
    ensures
        match r {
            Ok(rec) => record_of(q@, reply@) == Ok::<RecordModel, RenderError>(rec@),
            Err(e) => record_of(q@, reply@) == Err::<RecordModel, RenderError>(e),
        },
        reply@ is Day && 0 <= reply@->Day_0.0 <= 9999 && r is Ok ==> r->Ok_0@.1 == seq![
            iso_date_text(reply@->Day_0.0, reply@->Day_0.1, reply@->Day_0.2),
        ],
{
    let name = q.name.clone();
    match reply {
        Reply::Skipped => {
            if q.skippable {
                let rec = AnswerRecord { name, values: Vec::new(), skipped: true };
                assert(rec@.1 =~= Seq::<Seq<char>>::empty());
                Ok(rec)
            } else {
                Err(RenderError::NotSkippable)
            }
        },
        Reply::Flag(b) => match &q.prompt {
            Prompt::Confirm { .. } => {
                let t = if b {
                    "true".to_owned()
                } else {
                    "false".to_owned()
                };
                let rec = AnswerRecord { name, values: vec![t], skipped: false };
                assert(rec@.1 =~= seq![flag_text(b)]);
                Ok(rec)
            },
            _ => Err(RenderError::WrongReply),
        },
        Reply::Line(s) => match &q.prompt {
            Prompt::Text { .. } | Prompt::Password { .. } | Prompt::Editor { .. } => {
                let ghost sv = s@;
                let rec = AnswerRecord { name, values: vec![s], skipped: false };
                assert(rec@.1 =~= seq![sv]);
                Ok(rec)
            },
            _ => Err(RenderError::WrongReply),
        },
        Reply::Day(d) => match &q.prompt {
            Prompt::DateSelect { .. } => match display_date(&d) {
                Some(t) => {
                    let ghost tv = t@;
                    assert(0 <= d.year <= 9999 ==> tv == iso_date_text(d@.0, d@.1, d@.2));
                    let rec = AnswerRecord { name, values: vec![t], skipped: false };
                    assert(rec@.1 =~= seq![tv]);
                    Ok(rec)
                },
                None => Err(RenderError::NoSuchDate),
            },
            _ => Err(RenderError::WrongReply),
        },
        Reply::Choice(i) => match &q.prompt {
            Prompt::Select { options, .. } => {
                if i < options.len() {
                    let t = options[i].clone();
                    let rec = AnswerRecord { name, values: vec![t], skipped: false };
                    assert(rec@.1 =~= seq![texts(options@)[i as int]]);
                    Ok(rec)
                } else {
                    Err(RenderError::NoSuchOption)
                }
            },
            _ => Err(RenderError::WrongReply),
        },
        Reply::Choices(picks) => match &q.prompt {
            Prompt::MultiSelect { options, .. } => match pick_options(options, &picks) {
                Some(values) => {
                    let ghost is = picks@.map_values(|i: usize| i as int);
                    assert forall|k: int| 0 <= k < is.len() implies 0 <= #[trigger] is[k] < texts(
                        options@,
                    ).len() by {
                        assert(picks@[k] < options@.len());
                    }
                    let rec = AnswerRecord { name, values, skipped: false };
                    assert(rec@.1 =~= picks@.map_values(|i: usize| i as int).map_values(
                        |i: int| texts(options@)[i],
                    ));
                    Ok(rec)
                },
                None => {
                    let ghost is = picks@.map_values(|i: usize| i as int);
                    assert(!(forall|k: int| 0 <= k < is.len() ==> 0 <= #[trigger] is[k] < texts(options@).len())) by {
                        let k = choose|k: int| 0 <= k < picks@.len() && !(#[trigger] picks@[k] < options@.len());
                        assert(!(0 <= is[k] < texts(options@).len()));
                    }
                    Err(RenderError::NoSuchOption)
                },
            },
            _ => Err(RenderError::WrongReply),
        },
    }
}

} // verus!
