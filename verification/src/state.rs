//! The typestate state machine of one stage.
//!
//! The state is a type parameter and every transition consumes the stage.
//! `Stage<AwaitingConfirmation>` has no `submit`, and `revise` consumes the
//! pending stage and returns a `Stage<Draft>`: the old state cannot linger,
//! so "revise, then submit again" always goes through in one pass.
use vstd::prelude::*;
use std::marker::PhantomData;
use crate::contract::{option_with_id, Confirmation, Outcome, Question, SelectionType, AnswerOption};
use crate::error::{violation_views, StudioError, Violation};
use crate::json::Outputs;
use crate::stage::StageId;
use crate::text::{dec_nat, is_blank, push_u64, str_eq, str_is_blank, views_of};

verus! {

broadcast use vstd::string::group_string_axioms;

/// Draft: waiting for the agent to submit outputs.
#[derive(Debug, Clone, Copy, PartialEq, Eq)]
pub struct Draft;

/// Submitted with its gate pending: waiting for the user's answer.
#[derive(Debug, Clone, Copy, PartialEq, Eq)]
pub struct AwaitingConfirmation;

/// Passed: the next stage can go ahead.
#[derive(Debug, Clone, Copy, PartialEq, Eq)]
pub struct Approved;

/// The persisted state label. `LoadedStage` turns it back into a typestate.
#[derive(Debug, Clone, Copy, PartialEq, Eq, Structural)]
pub enum StageState {
    Draft,
    AwaitingConfirmation,
    Approved,
}

impl StageState {
    pub open spec fn name(self) -> Seq<char> {
        match self {
            StageState::Draft => "draft"@,
            StageState::AwaitingConfirmation => "awaiting_confirmation"@,
            StageState::Approved => "approved"@,
        }
    }

    pub fn as_str(self) -> (r: &'static str)
        ensures
            r@ == self.name(),
    {
        match self {
            StageState::Draft => "draft",
            StageState::AwaitingConfirmation => "awaiting_confirmation",
            StageState::Approved => "approved",
        }
    }
}

#[derive(Debug, PartialEq)]
pub struct Stage<S> {
    id: StageId,
    attempt: u32,
    outputs: Option<Outputs>,
    question: Option<Question>,
    _marker: PhantomData<S>,
}

impl<S> Stage<S> {
    pub closed spec fn stage_id(self) -> StageId {
        self.id
    }

    pub closed spec fn attempt_no(self) -> u32 {
        self.attempt
    }

    pub closed spec fn outputs_of(self) -> Option<Outputs> {
        self.outputs
    }

    pub closed spec fn question_of(self) -> Option<Question> {
        self.question
    }

    pub fn id(&self) -> (r: StageId)
        ensures
            r == self.stage_id(),
    {
        self.id
    }

    /// Which attempt this is. Every revise and undo adds one.
    pub fn attempt(&self) -> (r: u32)
        ensures
            r == self.attempt_no(),
    {
        self.attempt
    }

    pub fn outputs(&self) -> (r: Option<&Outputs>)
        ensures
            r matches Some(o) ==> self.outputs_of() == Some(*o),
            r is None ==> self.outputs_of() is None,
    {
        match &self.outputs {
            Some(o) => Some(o),
            None => None,
        }
    }
}

/// What `submit` leads to: a pending gate, or a pass when there is no gate.
#[derive(Debug, PartialEq)]
pub enum Submitted {
    AwaitingConfirmation(Stage<AwaitingConfirmation>),
    Approved(Stage<Approved>),
}

impl Submitted {
    pub fn state(&self) -> (r: StageState)
        ensures
            r == (match self {
                Submitted::AwaitingConfirmation(_) => StageState::AwaitingConfirmation,
                Submitted::Approved(_) => StageState::Approved,
            }),
    {
        match self {
            Submitted::AwaitingConfirmation(_) => StageState::AwaitingConfirmation,
            Submitted::Approved(_) => StageState::Approved,
        }
    }

    pub fn question(&self) -> (r: Option<&Question>)
        requires
            self matches Submitted::AwaitingConfirmation(s) ==> s.wf(),
        ensures
            self matches Submitted::AwaitingConfirmation(s) ==> (r matches Some(q)
                && s.question_of() == Some(*q)),
            self is Approved ==> r is None,
    {
        match self {
            Submitted::AwaitingConfirmation(s) => Some(s.question()),
            Submitted::Approved(_) => None,
        }
    }

    pub fn outputs(&self) -> (r: Option<&Outputs>)
        ensures
            self matches Submitted::AwaitingConfirmation(s) ==> (r matches Some(o)
                ==> s.outputs_of() == Some(*o)) && (r is None ==> s.outputs_of() is None),
            self matches Submitted::Approved(s) ==> (r matches Some(o) ==> s.outputs_of() == Some(
                *o,
            )) && (r is None ==> s.outputs_of() is None),
    {
        match self {
            Submitted::AwaitingConfirmation(s) => s.outputs(),
            Submitted::Approved(s) => s.outputs(),
        }
    }
}

/// The paths and messages of the problems of a confirmation, in the order
/// they are reported.
pub open spec fn confirmation_problems(c: Confirmation) -> Seq<(Seq<char>, Seq<char>)> {
    let opts = c.options@;
    (if is_blank(c.prompt@) {
        seq![("confirmation.prompt"@, "确认问题的正文不能为空"@)]
    } else {
        Seq::empty()
    }) + (if opts.len() == 0 {
        seq![("confirmation.options"@, "至少要给出一个选项"@)]
    } else {
        Seq::empty()
    }) + (if c.selection_type == SelectionType::Single && opts.len() < 2 {
        seq![("confirmation.options"@, "单选门至少要两个选项，否则用户没得选"@)]
    } else {
        Seq::empty()
    }) + (if !(exists|i: int| 0 <= i < opts.len() && #[trigger] opts[i].outcome == Outcome::Approve) {
        seq![("confirmation.options"@, "至少要有一个 outcome=approve 的选项，否则这道门永远过不去"@)]
    } else {
        Seq::empty()
    }) + option_problems(opts, opts.len() as int)
}

/// The problems of the first `n` options.
pub open spec fn option_problems(opts: Seq<AnswerOption>, n: int) -> Seq<(Seq<char>, Seq<char>)>
    decreases n,
{
    if n <= 0 {
        Seq::empty()
    } else {
        option_problems(opts, n - 1) + one_option_problems(opts, n - 1)
    }
}

/// The path of a field of option `i`.
pub open spec fn option_path(i: int, field: Seq<char>) -> Seq<char> {
    "confirmation.options["@ + dec_nat(i as nat) + "]."@ + field
}

/// The problems of option `i`: blank id, blank label, an id seen before.
pub open spec fn one_option_problems(opts: Seq<AnswerOption>, i: int) -> Seq<(Seq<char>, Seq<char>)> {
    (if is_blank(opts[i].id@) {
        seq![(option_path(i, "id"@), "选项 id 不能为空"@)]
    } else {
        Seq::empty()
    }) + (if is_blank(opts[i].label@) {
        seq![(option_path(i, "label"@), "选项 label 不能为空"@)]
    } else {
        Seq::empty()
    }) + (if exists|j: int| 0 <= j < i && #[trigger] opts[j].id@ == opts[i].id@ {
        seq![(option_path(i, "id"@), "选项 id 重复："@ + opts[i].id@)]
    } else {
        Seq::empty()
    })
}



/// The options' own conditions: non-blank ids and labels, ids pairwise distinct.
pub open spec fn options_sound(opts: Seq<AnswerOption>) -> bool {
    &&& forall|i: int| 0 <= i < opts.len() ==> !is_blank((#[trigger] opts[i]).id@) && !is_blank(opts[i].label@)
    &&& forall|i: int, j: int| 0 <= j < i < opts.len() ==> (#[trigger] opts[j]).id@ != (#[trigger] opts[i]).id@
}

proof fn lemma_option_problems_empty(opts: Seq<AnswerOption>, n: int)
    requires
        0 <= n <= opts.len(),
    ensures
        option_problems(opts, n).len() == 0 <==> (forall|i: int|
            0 <= i < n ==> !is_blank((#[trigger] opts[i]).id@) && !is_blank(opts[i].label@)) && (forall|i: int, j: int|
            0 <= j < i < n ==> (#[trigger] opts[j]).id@ != (#[trigger] opts[i]).id@),
    decreases n,
{
    if n > 0 {
        lemma_option_problems_empty(opts, n - 1);
        let k = n - 1;
        if option_problems(opts, n).len() == 0 {
            assert(one_option_problems(opts, k).len() == 0);
            assert forall|i: int, j: int| 0 <= j < i < n implies (#[trigger] opts[j]).id@ != (#[trigger] opts[i]).id@ by {
                if i == k {
                    if opts[j].id@ == opts[i].id@ {
                        assert(exists|jj: int| 0 <= jj < k && #[trigger] opts[jj].id@ == opts[k].id@);
                    }
                }
            }
        }
    }
}

/// A confirmation has no problems exactly when its prompt is not blank, it
/// has options (two at least for a single choice), one of them approves,
/// and every option has a non-blank id and label, the ids all different.
pub proof fn lemma_confirmation_accepted_iff(c: Confirmation)
    ensures
        confirmation_problems(c).len() == 0 <==> ({
            let opts = c.options@;
            &&& !is_blank(c.prompt@)
            &&& opts.len() > 0
            &&& (c.selection_type == SelectionType::Single ==> opts.len() >= 2)
            &&& exists|i: int| 0 <= i < opts.len() && #[trigger] opts[i].outcome == Outcome::Approve
            &&& options_sound(opts)
        }),
{
    lemma_option_problems_empty(c.options@, c.options@.len() as int);
}

fn push_violation(v: &mut Vec<Violation>, path: String, message: String)
    ensures
        violation_views(final(v)@) == violation_views(old(v)@).push((path@, message@)),
{
    v.push(Violation::new(path, message));
    assert(violation_views(final(v)@) =~= violation_views(old(v)@).push((path@, message@)));
}

fn option_path_exec(i: usize, field: &str) -> (r: String)
    ensures
        r@ == option_path(i as int, field@),
{
    let mut s = String::from_str("confirmation.options[");
    push_u64(&mut s, i as u64);
    s.append("].");
    s.append(field);
    s
}

/// The problems of a confirmation; empty when it is acceptable.
pub fn confirmation_violations(c: &Confirmation) -> (r: Vec<Violation>)
    ensures
        violation_views(r@) == confirmation_problems(*c),
{
    let mut v: Vec<Violation> = Vec::new();
    let ghost opts = c.options@;
    if str_is_blank(c.prompt.as_str()) {
        push_violation(
            &mut v,
            String::from_str("confirmation.prompt"),
            String::from_str("确认问题的正文不能为空"),
        );
    }
    let ghost v1 = violation_views(v@);
    if c.options.len() == 0 {
        push_violation(
            &mut v,
            String::from_str("confirmation.options"),
            String::from_str("至少要给出一个选项"),
        );
    }
    let ghost v2 = violation_views(v@);
    if c.selection_type == SelectionType::Single && c.options.len() < 2 {
        push_violation(
            &mut v,
            String::from_str("confirmation.options"),
            String::from_str("单选门至少要两个选项，否则用户没得选"),
        );
    }
    let ghost v3 = violation_views(v@);
    let mut any_approve = false;
    let mut k: usize = 0;
    while k < c.options.len()
        invariant
            k <= opts.len(),
            opts == c.options@,
            any_approve == exists|i: int| 0 <= i < k && #[trigger] opts[i].outcome == Outcome::Approve,
        decreases c.options.len() - k,
    {
        if c.options[k].outcome == Outcome::Approve {
            any_approve = true;
        }
        k = k + 1;
    }
    if !any_approve {
        push_violation(
            &mut v,
            String::from_str("confirmation.options"),
            String::from_str("至少要有一个 outcome=approve 的选项，否则这道门永远过不去"),
        );
    }
    let ghost v4 = violation_views(v@);
    let mut i: usize = 0;
    while i < c.options.len()
        invariant
            i <= opts.len(),
            opts == c.options@,
            violation_views(v@) == v4 + option_problems(opts, i as int),
        decreases c.options.len() - i,
    {
        let ghost before = violation_views(v@);
        let o = &c.options[i];
        if str_is_blank(o.id.as_str()) {
            push_violation(&mut v, option_path_exec(i, "id"), String::from_str("选项 id 不能为空"));
        }
        if str_is_blank(o.label.as_str()) {
            push_violation(
                &mut v,
                option_path_exec(i, "label"),
                String::from_str("选项 label 不能为空"),
            );
        }
        let mut seen = false;
        let mut j: usize = 0;
        while j < i
            invariant
                j <= i < opts.len(),
                opts == c.options@,
                seen == exists|m: int| 0 <= m < j && #[trigger] opts[m].id@ == opts[i as int].id@,
            decreases i - j,
        {
            if str_eq(c.options[j].id.as_str(), c.options[i].id.as_str()) {
                seen = true;
            }
            j = j + 1;
        }
        if seen {
            let mut m = String::from_str("选项 id 重复：");
            m.append(c.options[i].id.as_str());
            push_violation(&mut v, option_path_exec(i, "id"), m);
        }
        proof {
            assert(violation_views(v@) =~= before + one_option_problems(opts, i as int));
        }
        i = i + 1;
    }
    proof {
        assert(violation_views(v@) =~= confirmation_problems(*c));
    }
    v
}

/// The ids of the options that approve, in order.
pub open spec fn approving_ids(opts: Seq<AnswerOption>) -> Seq<Seq<char>>
    decreases opts.len(),
{
    if opts.len() == 0 {
        Seq::empty()
    } else {
        let rest = approving_ids(opts.drop_last());
        if opts.last().outcome == Outcome::Approve {
            rest.push(opts.last().id@)
        } else {
            rest
        }
    }
}

fn approving_option_ids(opts: &Vec<AnswerOption>) -> (r: Vec<String>)
    ensures
        views_of(r@) == approving_ids(opts@),
{
    let mut out: Vec<String> = Vec::new();
    let mut i: usize = 0;
    while i < opts.len()
        invariant
            i <= opts@.len(),
            views_of(out@) == approving_ids(opts@.subrange(0, i as int)),
        decreases opts.len() - i,
    {
        proof {
            assert(opts@.subrange(0, i + 1).drop_last() =~= opts@.subrange(0, i as int));
        }
        if opts[i].outcome == Outcome::Approve {
            out.push(opts[i].id.clone());
        }
        i = i + 1;
        assert(views_of(out@) =~= approving_ids(opts@.subrange(0, i as int)));
    }
    assert(opts@.subrange(0, opts@.len() as int) =~= opts@);
    out
}

impl Stage<Draft> {
    pub fn new(id: StageId) -> (r: Stage<Draft>)
        ensures
            r.stage_id() == id,
            r.attempt_no() == 1,
            r.outputs_of() is None,
            r.question_of() is None,
    {
        Stage { id, attempt: 1, outputs: None, question: None, _marker: PhantomData }
    }

    /// A draft restored from its persisted state, possibly with the outputs of
    /// the previous attempt.
    pub fn resumed(id: StageId, attempt: u32, outputs: Option<Outputs>) -> (r: Stage<Draft>)
        ensures
            r.stage_id() == id,
            r.attempt_no() == attempt,
            r.outputs_of() == outputs,
            r.question_of() is None,
    {
        Stage { id, attempt, outputs, question: None, _marker: PhantomData }
    }

    /// Submits the outputs.
    ///
    /// A gated stage must come with its confirmation, or the result is
    /// `ConfirmationRequired`; a confirmation with problems is a
    /// `SchemaViolation` listing them. A stage without a gate ignores the
    /// confirmation and passes at once. The draft is consumed either way.
    pub fn submit(self, outputs: Outputs, confirmation: Option<Confirmation>) -> (r: Result<
        Submitted,
        StudioError,
    >)
        ensures
            self.stage_id().gate_name() is None ==> (r matches Ok(Submitted::Approved(s))
                && s.stage_id() == self.stage_id() && s.attempt_no() == self.attempt_no()
                && s.outputs_of() == Some(outputs) && s.question_of() is None),
            self.stage_id().gate_name() matches Some(g) ==> match confirmation {
                None => r matches Err(StudioError::ConfirmationRequired { stage, gate })
                    && stage == self.stage_id() && gate@ == g,
                Some(c) => if confirmation_problems(c).len() > 0 {
                    r matches Err(StudioError::SchemaViolation { stage, violations })
                        && stage == self.stage_id() && violation_views(violations@)
                        == confirmation_problems(c)
                } else {
                    r matches Ok(Submitted::AwaitingConfirmation(s)) && s.wf() && s.stage_id()
                        == self.stage_id() && s.attempt_no() == self.attempt_no()
                        && s.outputs_of() == Some(outputs) && s.question_of() == Some(
                        Question {
                            question_id: s.question_of()->0.question_id,
                            stage: self.stage_id(),
                            prompt: c.prompt,
                            selection_type: c.selection_type,
                            options: c.options,
                        },
                    ) && s.question_of()->0.question_id@ == g
                },
            },
    {
        match self.id.gate() {
            Some(gate_id) => {
                let c = match confirmation {
                    Some(c) => c,
                    None => {
                        return Err(StudioError::ConfirmationRequired { stage: self.id, gate: gate_id });
                    },
                };
                let violations = confirmation_violations(&c);
                if violations.len() > 0 {
                    return Err(StudioError::SchemaViolation { stage: self.id, violations });
                }
                let question = Question {
                    question_id: String::from_str(gate_id),
                    stage: self.id,
                    prompt: c.prompt,
                    selection_type: c.selection_type,
                    options: c.options,
                };
                Ok(
                    Submitted::AwaitingConfirmation(
                        Stage {
                            id: self.id,
                            attempt: self.attempt,
                            outputs: Some(outputs),
                            question: Some(question),
                            _marker: PhantomData,
                        },
                    ),
                )
            },
            None => Ok(
                Submitted::Approved(
                    Stage {
                        id: self.id,
                        attempt: self.attempt,
                        outputs: Some(outputs),
                        question: None,
                        _marker: PhantomData,
                    },
                ),
            ),
        }
    }
}

impl Stage<AwaitingConfirmation> {
    /// A pending stage always carries its question.
    pub closed spec fn wf(self) -> bool {
        self.question is Some
    }

    /// A pending gate restored from its persisted state.
    pub fn resumed(id: StageId, attempt: u32, outputs: Outputs, question: Question) -> (r: Stage<
        AwaitingConfirmation,
    >)
        ensures
            r.wf(),
            r.stage_id() == id,
            r.attempt_no() == attempt,
            r.outputs_of() == Some(outputs),
            r.question_of() == Some(question),
    {
        Stage { id, attempt, outputs: Some(outputs), question: Some(question), _marker: PhantomData }
    }

    pub fn question(&self) -> (r: &Question)
        requires
            self.wf(),
        ensures
            self.question_of() == Some(*r),
    {
        self.question.as_ref().unwrap()
    }

    /// The user approves the confirmation.
    ///
    /// An answer that is not an option, or an option whose outcome is a
    /// revision, is an `UnknownAnswer` listing the approving options; the
    /// revision path is [`Stage::revise`].
    pub fn approve(self, answer: &str) -> (r: Result<Stage<Approved>, StudioError>)
        requires
            self.wf(),
        ensures
            ({
                let q = self.question_of()->0;
                match option_with_id(q.options@, answer@) {
                    Some(o) if o.outcome == Outcome::Approve => r matches Ok(s) && s.stage_id()
                        == self.stage_id() && s.attempt_no() == self.attempt_no() && s.outputs_of()
                        == self.outputs_of() && s.question_of() is None,
                    _ => r matches Err(StudioError::UnknownAnswer { question_id, given, options })
                        && question_id == q.question_id && given@ == answer@ && views_of(options@)
                        == approving_ids(q.options@),
                }
            }),
    {
        let approved = {
            let q = self.question();
            match q.outcome_of(answer) {
                Some(Outcome::Approve) => true,
                _ => false,
            }
        };
        if !approved {
            let q = self.question();
            return Err(
                StudioError::UnknownAnswer {
                    question_id: q.question_id.clone(),
                    given: String::from_str(answer),
                    options: approving_option_ids(&q.options),
                },
            );
        }
        Ok(Stage { id: self.id, attempt: self.attempt, outputs: self.outputs, question: None, _marker: PhantomData })
    }

    /// The user asks for a revision: back to draft, one more attempt.
    ///
    /// This cannot fail. The pending gate goes away with the consumed stage.
    pub fn revise(self, message: &str) -> (r: Stage<Draft>)
        requires
            self.attempt_no() < u32::MAX,
        ensures
            r.stage_id() == self.stage_id(),
            r.attempt_no() == self.attempt_no() + 1,
            r.outputs_of() == self.outputs_of(),
            r.question_of() is None,
    {
        Stage { id: self.id, attempt: self.attempt + 1, outputs: self.outputs, question: None, _marker: PhantomData }
    }
}

impl Stage<Approved> {
    pub fn resumed(id: StageId, attempt: u32, outputs: Option<Outputs>) -> (r: Stage<Approved>)
        ensures
            r.stage_id() == id,
            r.attempt_no() == attempt,
            r.outputs_of() == outputs,
            r.question_of() is None,
    {
        Stage { id, attempt, outputs, question: None, _marker: PhantomData }
    }

    /// Rolls back to draft to redo the stage; the outputs stay for reference.
    pub fn undo(self) -> (r: Stage<Draft>)
        requires
            self.attempt_no() < u32::MAX,
        ensures
            r.stage_id() == self.stage_id(),
            r.attempt_no() == self.attempt_no() + 1,
            r.outputs_of() == self.outputs_of(),
            r.question_of() is None,
    {
        Stage { id: self.id, attempt: self.attempt + 1, outputs: self.outputs, question: None, _marker: PhantomData }
    }
}

/// The bridge from a persisted state back to a typestate.
#[derive(Debug, PartialEq)]
pub enum LoadedStage {
    Draft(Stage<Draft>),
    Awaiting(Stage<AwaitingConfirmation>),
    Approved(Stage<Approved>),
}

/// The detail of the drift found when a pending stage lacks its outputs or its gate.
pub open spec fn drift_detail(id: StageId, missing: Seq<char>) -> Seq<char> {
    "阶段 "@ + id.name() + " 记为 awaiting_confirmation 却没有"@ + missing
}

impl LoadedStage {
    pub open spec fn state_of(self) -> StageState {
        match self {
            LoadedStage::Draft(_) => StageState::Draft,
            LoadedStage::Awaiting(_) => StageState::AwaitingConfirmation,
            LoadedStage::Approved(_) => StageState::Approved,
        }
    }

    pub open spec fn id_of(self) -> StageId {
        match self {
            LoadedStage::Draft(s) => s.stage_id(),
            LoadedStage::Awaiting(s) => s.stage_id(),
            LoadedStage::Approved(s) => s.stage_id(),
        }
    }

    pub open spec fn attempt_of(self) -> u32 {
        match self {
            LoadedStage::Draft(s) => s.attempt_no(),
            LoadedStage::Awaiting(s) => s.attempt_no(),
            LoadedStage::Approved(s) => s.attempt_no(),
        }
    }

    /// Restores a stage. A pending stage needs both its outputs and its
    /// question; without them the stored state has drifted.
    pub fn load(
        id: StageId,
        state: StageState,
        attempt: u32,
        outputs: Option<Outputs>,
        question: Option<Question>,
    ) -> (r: Result<LoadedStage, StudioError>)
        ensures
            state != StageState::AwaitingConfirmation || (outputs is Some && question is Some)
                <==> r is Ok,
            r matches Ok(l) ==> l.state_of() == state && l.id_of() == id && l.attempt_of() == attempt,
            r matches Ok(LoadedStage::Awaiting(s)) ==> s.wf() && s.outputs_of() == outputs
                && s.question_of() == question,
            r matches Ok(LoadedStage::Draft(s)) ==> s.outputs_of() == outputs,
            r matches Ok(LoadedStage::Approved(s)) ==> s.outputs_of() == outputs,
            r matches Err(e) ==> (e matches StudioError::StateDrift { detail } && detail@
                == drift_detail(
                id,
                if outputs is None {
                    "产物"@
                } else {
                    "确认门"@
                },
            )),
    {
        match state {
            StageState::Draft => Ok(LoadedStage::Draft(Stage::<Draft>::resumed(id, attempt, outputs))),
            StageState::Approved => Ok(
                LoadedStage::Approved(Stage::<Approved>::resumed(id, attempt, outputs)),
            ),
            StageState::AwaitingConfirmation => {
                let outputs = match outputs {
                    Some(o) => o,
                    None => {
                        let mut d = String::from_str("阶段 ");
                        d.append(id.as_str());
                        d.append(" 记为 awaiting_confirmation 却没有");
                        d.append("产物");
                        return Err(StudioError::StateDrift { detail: d });
                    },
                };
                let question = match question {
                    Some(q) => q,
                    None => {
                        let mut d = String::from_str("阶段 ");
                        d.append(id.as_str());
                        d.append(" 记为 awaiting_confirmation 却没有");
                        d.append("确认门");
                        return Err(StudioError::StateDrift { detail: d });
                    },
                };
                Ok(
                    LoadedStage::Awaiting(
                        Stage::<AwaitingConfirmation>::resumed(id, attempt, outputs, question),
                    ),
                )
            },
        }
    }

    pub fn state(&self) -> (r: StageState)
        ensures
            r == self.state_of(),
    {
        match self {
            LoadedStage::Draft(_) => StageState::Draft,
            LoadedStage::Awaiting(_) => StageState::AwaitingConfirmation,
            LoadedStage::Approved(_) => StageState::Approved,
        }
    }

    pub fn id(&self) -> (r: StageId)
        ensures
            r == self.id_of(),
    {
        match self {
            LoadedStage::Draft(s) => s.id(),
            LoadedStage::Awaiting(s) => s.id(),
            LoadedStage::Approved(s) => s.id(),
        }
    }

    pub fn attempt(&self) -> (r: u32)
        ensures
            r == self.attempt_of(),
    {
        match self {
            LoadedStage::Draft(s) => s.attempt(),
            LoadedStage::Awaiting(s) => s.attempt(),
            LoadedStage::Approved(s) => s.attempt(),
        }
    }

    /// The actions allowed in the current state, for the remedy of `invalid_transition`.
    pub fn allowed_actions(&self) -> (r: Vec<&'static str>)
        ensures
            r@.map_values(|a: &'static str| a@) == allowed_actions_of(self.state_of()),
    {
        let r = match self {
            LoadedStage::Draft(_) => vec!["studio.submit_stage"],
            LoadedStage::Awaiting(_) => vec!["studio.answer", "studio.revise"],
            LoadedStage::Approved(_) => vec!["studio.undo", "studio.revise"],
        };
        assert(r@.map_values(|a: &'static str| a@) =~= allowed_actions_of(self.state_of()));
        r
    }
}

/// The tools allowed in each state.
pub open spec fn allowed_actions_of(s: StageState) -> Seq<Seq<char>> {
    match s {
        StageState::Draft => seq!["studio.submit_stage"@],
        StageState::AwaitingConfirmation => seq!["studio.answer"@, "studio.revise"@],
        StageState::Approved => seq!["studio.undo"@, "studio.revise"@],
    }
}

} // verus!
