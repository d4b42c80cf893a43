//! Outward contract types: the decision envelope, confirmation questions, events.
//!
//! The envelope is what every state-changing tool returns. When something
//! blocks, `blocked_by` is always filled in, remedy included.
use vstd::prelude::*;
use crate::error::{code_of, message_of, remedy_of, StudioError};
use crate::json::Json;
use crate::stage::{Capability, StageId};
use crate::text::{is_blank, str_eq, str_is_blank, views_of};

verus! {

broadcast use vstd::string::group_string_axioms;

#[derive(Debug, Clone, Copy, PartialEq, Eq, Structural)]
pub enum WaitingOn {
    /// Waiting for the agent to submit a stage's outputs.
    Agent,
    /// Waiting for the user to answer a gate.
    User,
    /// Waiting for the control plane to run a deterministic stage.
    System,
}

#[derive(Debug, Clone, Copy, PartialEq, Eq, Structural)]
pub enum ProjectStatus {
    Active,
    Blocked,
    Completed,
}

/// What choosing an option does: pass the confirmation, or send the stage back to draft.
#[derive(Debug, Clone, Copy, PartialEq, Eq, Structural)]
pub enum Outcome {
    Approve,
    Revise,
}

#[derive(Debug, Clone, PartialEq)]
pub struct AnswerOption {
    pub id: String,
    pub label: String,
    pub outcome: Outcome,
}

impl AnswerOption {
    /// An option that approves.
    pub fn new(id: String, label: String) -> (r: AnswerOption)
        ensures
            r.id == id,
            r.label == label,
            r.outcome == Outcome::Approve,
    {
        AnswerOption { id, label, outcome: Outcome::Approve }
    }

    /// An option that sends the stage back for revision.
    pub fn revise(id: String, label: String) -> (r: AnswerOption)
        ensures
            r.id == id,
            r.label == label,
            r.outcome == Outcome::Revise,
    {
        AnswerOption { id, label, outcome: Outcome::Revise }
    }
}

#[derive(Debug, Clone, Copy, PartialEq, Eq, Structural)]
pub enum SelectionType {
    Single,
    Multi,
}

impl Default for SelectionType {
    fn default() -> (r: SelectionType)
        ensures
            r == SelectionType::Single,
    {
        SelectionType::Single
    }
}

/// The question a gated stage must come with when it is submitted.
#[derive(Debug, Clone, PartialEq)]
pub struct Confirmation {
    pub prompt: String,
    pub selection_type: SelectionType,
    pub options: Vec<AnswerOption>,
}

/// A pending gate. `question_id` is the stage's gate and never changes.
#[derive(Debug, Clone, PartialEq)]
pub struct Question {
    pub question_id: String,
    pub stage: StageId,
    pub prompt: String,
    pub selection_type: SelectionType,
    pub options: Vec<AnswerOption>,
}

/// The first option whose id is `answer`.
pub open spec fn option_with_id(opts: Seq<AnswerOption>, answer: Seq<char>) -> Option<AnswerOption>
    decreases opts.len(),
{
    if opts.len() == 0 {
        None
    } else if opts[0].id@ == answer {
        Some(opts[0])
    } else {
        option_with_id(opts.drop_first(), answer)
    }
}

pub open spec fn option_ids_of(opts: Seq<AnswerOption>) -> Seq<Seq<char>> {
    opts.map_values(|o: AnswerOption| o.id@)
}

proof fn lemma_option_with_id_found(opts: Seq<AnswerOption>, answer: Seq<char>, i: int)
    requires
        0 <= i < opts.len(),
        opts[i].id@ == answer,
        forall|j: int| 0 <= j < i ==> opts[j].id@ != answer,
    ensures
        option_with_id(opts, answer) == Some(opts[i]),
    decreases i,
{
    if i > 0 {
        lemma_option_with_id_found(opts.drop_first(), answer, i - 1);
    }
}

proof fn lemma_option_with_id_absent(opts: Seq<AnswerOption>, answer: Seq<char>)
    requires
        forall|j: int| 0 <= j < opts.len() ==> opts[j].id@ != answer,
    ensures
        option_with_id(opts, answer) is None,
    decreases opts.len(),
{
    if opts.len() > 0 {
        lemma_option_with_id_absent(opts.drop_first(), answer);
    }
}

/// `option_with_id` finds something exactly when some option has that id.
pub proof fn lemma_option_with_id(opts: Seq<AnswerOption>, answer: Seq<char>)
    ensures
        option_with_id(opts, answer) is Some <==> exists|i: int|
            0 <= i < opts.len() && #[trigger] opts[i].id@ == answer,
        option_with_id(opts, answer) matches Some(o) ==> o.id@ == answer,
    decreases opts.len(),
{
    if opts.len() > 0 {
        lemma_option_with_id(opts.drop_first(), answer);
        if opts[0].id@ != answer {
            if exists|i: int| 0 <= i < opts.len() && #[trigger] opts[i].id@ == answer {
                let i = choose|i: int| 0 <= i < opts.len() && #[trigger] opts[i].id@ == answer;
                assert(opts.drop_first()[i - 1].id@ == answer);
            }
            if option_with_id(opts, answer) is Some {
                let i = choose|i: int|
                    0 <= i < opts.drop_first().len() && #[trigger] opts.drop_first()[i].id@
                        == answer;
                assert(opts[i + 1].id@ == answer);
            }
        }
    }
}

impl Question {
    /// Whether `answer` is the id of one of the options.
    pub fn accepts(&self, answer: &str) -> (r: bool)
        ensures
            r == exists|i: int| 0 <= i < self.options@.len() && #[trigger] self.options@[i].id@ == answer@,
    {
        let r = self.outcome_of(answer).is_some();
        proof {
            lemma_option_with_id(self.options@, answer@);
        }
        r
    }

    /// The ids of the options, in order.
    pub fn option_ids(&self) -> (r: Vec<String>)
        ensures
            views_of(r@) == option_ids_of(self.options@),
    {
        let mut out: Vec<String> = Vec::new();
        let mut i: usize = 0;
        while i < self.options.len()
            invariant
                i <= self.options@.len(),
                out@.len() == i,
                forall|k: int| 0 <= k < i ==> (#[trigger] out@[k])@ == self.options@[k].id@,
            decreases self.options.len() - i,
        {
            out.push(self.options[i].id.clone());
            i = i + 1;
        }
        assert(views_of(out@) =~= option_ids_of(self.options@));
        out
    }

    /// What choosing `answer` does; `None` when it is not one of the options.
    pub fn outcome_of(&self, answer: &str) -> (r: Option<Outcome>)
        ensures
            r == (match option_with_id(self.options@, answer@) {
                Some(o) => Some(o.outcome),
                None => None::<Outcome>,
            }),
    {
        let mut i: usize = 0;
        while i < self.options.len()
            invariant
                i <= self.options@.len(),
                forall|j: int| 0 <= j < i ==> self.options@[j].id@ != answer@,
            decreases self.options.len() - i,
        {
            if str_eq(self.options[i].id.as_str(), answer) {
                proof {
                    lemma_option_with_id_found(self.options@, answer@, i as int);
                }
                return Some(self.options[i].outcome);
            }
            i = i + 1;
        }
        proof {
            lemma_option_with_id_absent(self.options@, answer@);
        }
        None
    }
}

/// Why something is blocked. The remedy is never empty.
#[derive(Debug, Clone, PartialEq)]
pub struct Blocked {
    pub code: String,
    pub message: String,
    pub remedy: String,
}

impl Blocked {
    /// The block that an error stands for: its code, message and remedy.
    pub fn from_error(e: &StudioError) -> (r: Blocked)
        ensures
            r.code@ == code_of(*e),
            r.message@ == message_of(*e),
            r.remedy@ == remedy_of(*e),
    {
        Blocked { code: String::from_str(e.code()), message: e.message(), remedy: e.remedy() }
    }
}

#[derive(Debug, Clone, Copy, PartialEq, Eq, Structural)]
pub enum ActionKind {
    SubmitStage,
    Answer,
    /// The control plane is executing; the agent only watches.
    Await,
}

/// What to do next. This field is all the agent needs.
#[derive(Debug, PartialEq)]
pub struct NextAction {
    pub kind: ActionKind,
    pub stage: StageId,
    pub capability: Capability,
    pub gate: Option<String>,
    /// Upstream outputs, the inputs of this stage.
    pub inputs: Json,
    pub required_outputs: Vec<String>,
    /// The stage name to pass to `studio.schema`.
    pub schema_ref: String,
}

#[derive(Debug, Clone, Copy, PartialEq, Eq, Structural)]
pub struct Progress {
    pub completed: usize,
    pub total: usize,
}

#[derive(Debug, Clone, PartialEq)]
pub struct ProjectInfo {
    pub title: String,
    pub stage: StageId,
    pub status: ProjectStatus,
}

/// The decision envelope, returned by every state-changing tool.
#[derive(Debug, PartialEq)]
pub struct Envelope {
    pub project: ProjectInfo,
    pub waiting_on: WaitingOn,
    pub blocked_by: Option<Blocked>,
    pub pending_question: Option<Question>,
    pub next_action: Option<NextAction>,
    pub progress: Progress,
}

impl Envelope {
    /// The envelope is coherent: a block has a remedy, waiting on the user comes
    /// with a question (or a block), waiting on the agent with a next action (or a block).
    pub open spec fn consistent(self) -> bool {
        &&& (self.blocked_by matches Some(b) ==> !is_blank(b.remedy@))
        &&& (self.waiting_on == WaitingOn::User ==> self.pending_question is Some
            || self.blocked_by is Some)
        &&& (self.waiting_on == WaitingOn::Agent ==> self.next_action is Some
            || self.blocked_by is Some)
    }

    /// The message naming the first broken rule, in the order they are checked.
    pub open spec fn first_rule_broken(self) -> Seq<char> {
        let blank_remedy = match self.blocked_by {
            Some(b) => if is_blank(b.remedy@) {
                Some("blocked_by("@ + b.code@ + ") 没有 remedy"@)
            } else {
                None
            },
            None => None,
        };
        match blank_remedy {
            Some(m) => m,
            None => if self.waiting_on == WaitingOn::User {
                "waiting_on=user 但既没有 pending_question 也没有 blocked_by"@
            } else {
                "waiting_on=agent 但既没有 next_action 也没有 blocked_by"@
            },
        }
    }

    /// Checks [`Envelope::consistent`]; the error names the first rule broken.
    pub fn assert_consistent(&self) -> (r: Result<(), String>)
        ensures
            r is Ok <==> self.consistent(),
            r matches Err(m) ==> m@ == self.first_rule_broken(),
    {
        if let Some(b) = &self.blocked_by {
            if str_is_blank(b.remedy.as_str()) {
                let mut m = String::from_str("blocked_by(");
                m.append(b.code.as_str());
                m.append(") 没有 remedy");
                return Err(m);
            }
        }
        match self.waiting_on {
            WaitingOn::User => {
                if self.pending_question.is_none() && self.blocked_by.is_none() {
                    return Err(
                        String::from_str("waiting_on=user 但既没有 pending_question 也没有 blocked_by"),
                    );
                }
            },
            WaitingOn::Agent => {
                if self.next_action.is_none() && self.blocked_by.is_none() {
                    return Err(
                        String::from_str("waiting_on=agent 但既没有 next_action 也没有 blocked_by"),
                    );
                }
            },
            WaitingOn::System => {},
        }
        Ok(())
    }
}

/// A history event the user can see.
#[derive(Debug, Clone, PartialEq)]
pub struct Event {
    pub at: String,
    pub stage: StageId,
    pub kind: String,
    pub summary: String,
    pub error: Option<String>,
}

} // verus!
