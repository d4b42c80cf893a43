//! The content rubric: a fixed set of criteria that the agent scores the
//! finished film against, each verdict pinned to a moment of the film.
//!
//! The technical review (measured duration, frame size, shot count, audio)
//! decides whether the film is complete. This rubric is the other half: it
//! does not decide `passed`, it keeps a record of how the delivery scored
//! against standards fixed in advance. A verdict without a time code is an
//! impression; one with a time code points at a frame that can be checked.
use vstd::prelude::*;
use crate::error::{violation_views, StudioError, Violation, ViolationView};
use crate::json::{
    entry_models, fixed2_text, items_model, lemma_entries_model, lemma_items_model,
    number_text, push_number, push_number_fixed2, Json, JsonView, Number,
};
use crate::schema::words;
use crate::stage::StageId;
use crate::text::{dec_nat, join_seq, join_strs, push_u64, str_eq, str_views_of};

verus! {

broadcast use vstd::string::group_string_axioms;

/// The fixed criteria. None may be added or dropped: every delivery is
/// scored on the same things, so that deliveries compare.
pub const CRITERIA: [(&'static str, &'static str); 5] = [
    (
        "hook",
        "前三秒是否成立：观众在第几秒已经知道这是什么、值不值得看下去",
    ),
    (
        "information_density",
        "每一镜是否都给了新信息。删掉哪一镜观众也不会察觉，就是这一镜没有信息",
    ),
    (
        "pacing",
        "节奏是否跟内容走：动作复杂的镜头有没有被切太短，空镜有没有拖",
    ),
    (
        "consistency",
        "同一个人、同一个地方跨镜有没有变。这是 AI 视频最先露馅的地方",
    ),
    (
        "brief_metrics",
        "brief 里那些**内容型**的 success_metrics 逐条兑现了没有",
    ),
];

/// The verdict of one self-review item.
pub const VERDICTS: [&'static str; 3] = ["met", "partially_met", "not_met"];

/// The shortest evidence (and summary), in characters: anything shorter
/// cannot name a concrete picture.
pub const MIN_EVIDENCE_CHARS: usize = 12;

/// The names of the criteria, in order.
pub open spec fn criterion_names_view() -> Seq<&'static str> {
    CRITERIA@.map_values(|c: (&'static str, &'static str)| c.0)
}

pub(crate) fn criterion_names() -> (r: Vec<&'static str>)
    ensures
        r@ == criterion_names_view(),
{
    let mut v: Vec<&'static str> = Vec::new();
    let mut i: usize = 0;
    while i < CRITERIA.len()
        invariant
            i <= CRITERIA@.len(),
            v@ == criterion_names_view().subrange(0, i as int),
        decreases CRITERIA.len() - i,
    {
        v.push(CRITERIA[i].0);
        i = i + 1;
        assert(v@ =~= criterion_names_view().subrange(0, i as int));
    }
    assert(criterion_names_view().subrange(0, CRITERIA@.len() as int) =~= criterion_names_view());
    v
}

/// One item of a self-review.
#[derive(Debug, Clone, PartialEq)]
pub struct RubricItem {
    pub criterion: String,
    pub verdict: String,
    /// The moment of the film the verdict points at, in seconds.
    pub at_seconds: Number,
    /// What is seen or heard at that moment, and why it supports the verdict.
    pub evidence: String,
}

/// An item as plain values: criterion, verdict, time code, evidence.
pub type ItemView = (Seq<char>, Seq<char>, Number, Seq<char>);

impl View for RubricItem {
    type V = ItemView;

    open spec fn view(&self) -> ItemView {
        (self.criterion@, self.verdict@, self.at_seconds, self.evidence@)
    }
}

/// A complete content self-review.
#[derive(Debug, Clone, PartialEq)]
pub struct SelfReview {
    pub items: Vec<RubricItem>,
    pub summary: String,
}

impl SelfReview {
    pub open spec fn item_views(self) -> Seq<ItemView> {
        self.items@.map_values(|i: RubricItem| i@)
    }

    /// Every time code is a well-formed number.
    pub open spec fn wf(self) -> bool {
        forall|i: int| 0 <= i < self.items@.len() ==> (#[trigger] self.items@[i]).at_seconds.wf()
    }
}

// ---------------------------------------------------------------------------
// What a self-review must satisfy.

pub open spec fn is_criterion(c: Seq<char>) -> bool {
    exists|k: int| 0 <= k < CRITERIA@.len() && (#[trigger] CRITERIA@[k]).0@ == c
}

pub open spec fn is_verdict(v: Seq<char>) -> bool {
    exists|k: int| 0 <= k < VERDICTS@.len() && (#[trigger] VERDICTS@[k])@ == v
}

/// `content_review.items[i].field`.
pub open spec fn item_path(i: int, field: Seq<char>) -> Seq<char> {
    "content_review.items["@ + dec_nat(i as nat) + "]."@ + field
}

pub open spec fn unknown_criterion_message(c: Seq<char>) -> Seq<char> {
    "「"@ + c + "」不是评价维度。维度是固定的："@ + join_seq(
        str_views_of(criterion_names_view()),
        "、"@,
    )
}

pub open spec fn verdict_message() -> Seq<char> {
    "结论只能是 "@ + join_seq(str_views_of(VERDICTS@), " / "@)
}

/// The time code lies before the start or after the end of the film.
pub open spec fn outside_film(at: Number, duration: Number) -> bool {
    at.less_than(Number::Int(0)) || duration.less_than(at)
}

pub open spec fn outside_message(at: Number, duration: Number) -> Seq<char> {
    number_text(at) + " 不在成片里（实测总时长 "@ + fixed2_text(duration)
        + " 秒）。时间点要指向片子里真实存在的一帧"@
}

pub open spec fn thin_evidence_message(n: nat) -> Seq<char> {
    "证据太短（"@ + dec_nat(n) + " 字）。写在那个时间点上**看见/听见**了什么，不是写「还不错」"@
}

/// The violations of item `i`, in the order criterion, verdict, time code, evidence.
pub open spec fn item_violations(i: int, it: ItemView, duration: Number) -> Seq<ViolationView> {
    (if is_criterion(it.0) {
        Seq::empty()
    } else {
        seq![(item_path(i, "criterion"@), unknown_criterion_message(it.0))]
    }) + (if is_verdict(it.1) {
        Seq::empty()
    } else {
        seq![(item_path(i, "verdict"@), verdict_message())]
    }) + (if outside_film(it.2, duration) {
        seq![(item_path(i, "at_seconds"@), outside_message(it.2, duration))]
    } else {
        Seq::empty()
    }) + (if it.3.len() < 12 {
        seq![(item_path(i, "evidence"@), thin_evidence_message(it.3.len()))]
    } else {
        Seq::empty()
    })
}

/// The violations of the first `n` items.
pub open spec fn items_violations(items: Seq<ItemView>, n: int, duration: Number) -> Seq<
    ViolationView,
>
    decreases n,
{
    if n <= 0 || n > items.len() {
        Seq::empty()
    } else {
        items_violations(items, n - 1, duration) + item_violations(n - 1, items[n - 1], duration)
    }
}

/// How many items name criterion `c`.
pub open spec fn criterion_count(items: Seq<ItemView>, c: Seq<char>) -> nat
    decreases items.len(),
{
    if items.len() == 0 {
        0
    } else {
        criterion_count(items.drop_last(), c) + (if items.last().0 == c {
            1nat
        } else {
            0nat
        })
    }
}

pub open spec fn missing_message(c: Seq<char>, desc: Seq<char>) -> Seq<char> {
    "缺维度 "@ + c + "："@ + desc
}

pub open spec fn repeated_message(c: Seq<char>, n: nat) -> Seq<char> {
    "维度 "@ + c + " 写了 "@ + dec_nat(n) + " 条，每个维度只给一条结论"@
}

/// For each of the first `k` criteria: missing, or given more than once.
pub open spec fn coverage_violations(items: Seq<ItemView>, k: int) -> Seq<ViolationView>
    decreases k,
{
    if k <= 0 || k > CRITERIA@.len() {
        Seq::empty()
    } else {
        let rest = coverage_violations(items, k - 1);
        let c = CRITERIA@[k - 1].0@;
        let n = criterion_count(items, c);
        if n == 0 {
            rest.push(("content_review.items"@, missing_message(c, CRITERIA@[k - 1].1@)))
        } else if n > 1 {
            rest.push(("content_review.items"@, repeated_message(c, n)))
        } else {
            rest
        }
    }
}

pub open spec fn thin_summary_message() -> Seq<char> {
    "总结太短。一句话说清这片子最强的一点和最弱的一点"@
}

/// Everything wrong with a self-review, in the order it is reported.
pub open spec fn review_violations(items: Seq<ItemView>, summary: Seq<char>, duration: Number) -> Seq<
    ViolationView,
> {
    items_violations(items, items.len() as int, duration) + coverage_violations(
        items,
        CRITERIA@.len() as int,
    ) + (if summary.len() < 12 {
        seq![("content_review.summary"@, thin_summary_message())]
    } else {
        Seq::empty()
    })
}

// ---------------------------------------------------------------------------
// Checking.

fn is_criterion_exec(c: &str) -> (r: bool)
    ensures
        r == is_criterion(c@),
{
    let mut i: usize = 0;
    while i < CRITERIA.len()
        invariant
            i <= CRITERIA@.len(),
            forall|k: int| 0 <= k < i ==> (#[trigger] CRITERIA@[k]).0@ != c@,
        decreases CRITERIA.len() - i,
    {
        if str_eq(CRITERIA[i].0, c) {
            return true;
        }
        i = i + 1;
    }
    false
}

fn is_verdict_exec(v: &str) -> (r: bool)
    ensures
        r == is_verdict(v@),
{
    let mut i: usize = 0;
    while i < VERDICTS.len()
        invariant
            i <= VERDICTS@.len(),
            forall|k: int| 0 <= k < i ==> (#[trigger] VERDICTS@[k])@ != v@,
        decreases VERDICTS.len() - i,
    {
        if str_eq(VERDICTS[i], v) {
            return true;
        }
        i = i + 1;
    }
    false
}

fn item_path_exec(i: usize, field: &str) -> (r: String)
    ensures
        r@ == item_path(i as int, field@),
{
    let mut s = String::from_str("content_review.items[");
    push_u64(&mut s, i as u64);
    s.append("].");
    s.append(field);
    s
}

fn push_violation(v: &mut Vec<Violation>, path: String, message: String)
    ensures
        violation_views(final(v)@) == violation_views(old(v)@).push((path@, message@)),
{
    v.push(Violation::new(path, message));
    assert(violation_views(v@) =~= violation_views(old(v)@).push((path@, message@)));
}

fn check_item(i: usize, item: &RubricItem, duration: &Number, v: &mut Vec<Violation>)
    requires
        item.at_seconds.wf(),
        duration.wf(),
    ensures
        violation_views(final(v)@) == violation_views(old(v)@) + item_violations(
            i as int,
            item@,
            *duration,
        ),
{
    let ghost start = violation_views(v@);
    if !is_criterion_exec(item.criterion.as_str()) {
        let mut msg = String::from_str("「");
        msg.append(item.criterion.as_str());
        msg.append("」不是评价维度。维度是固定的：");
        let names = join_strs(&criterion_names(), "、");
        msg.append(names.as_str());
        push_violation(v, item_path_exec(i, "criterion"), msg);
    }
    let ghost a1 = violation_views(v@);
    if !is_verdict_exec(item.verdict.as_str()) {
        let mut msg = String::from_str("结论只能是 ");
        let all = join_strs(&words(&VERDICTS), " / ");
        msg.append(all.as_str());
        push_violation(v, item_path_exec(i, "verdict"), msg);
    }
    let ghost a2 = violation_views(v@);
    let zero = Number::Int(0);
    if item.at_seconds.lt(&zero) || duration.lt(&item.at_seconds) {
        let mut msg = String::new();
        push_number(&mut msg, &item.at_seconds);
        msg.append(" 不在成片里（实测总时长 ");
        push_number_fixed2(&mut msg, duration);
        msg.append(" 秒）。时间点要指向片子里真实存在的一帧");
        push_violation(v, item_path_exec(i, "at_seconds"), msg);
    }
    let ghost a3 = violation_views(v@);
    let n = item.evidence.unicode_len();
    if n < MIN_EVIDENCE_CHARS {
        let mut msg = String::from_str("证据太短（");
        push_u64(&mut msg, n as u64);
        msg.append(" 字）。写在那个时间点上**看见/听见**了什么，不是写「还不错」");
        push_violation(v, item_path_exec(i, "evidence"), msg);
    }
    assert(violation_views(v@) =~= start + item_violations(i as int, item@, *duration));
}

fn count_criterion(items: &Vec<RubricItem>, c: &str) -> (r: usize)
    ensures
        r == criterion_count(items@.map_values(|i: RubricItem| i@), c@),
{
    let ghost views = items@.map_values(|i: RubricItem| i@);
    let mut n: usize = 0;
    let mut j: usize = 0;
    while j < items.len()
        invariant
            views == items@.map_values(|i: RubricItem| i@),
            j <= items@.len(),
            n == criterion_count(views.subrange(0, j as int), c@),
            n <= j,
        decreases items.len() - j,
    {
        assert(views.subrange(0, j + 1).drop_last() =~= views.subrange(0, j as int));
        if str_eq(items[j].criterion.as_str(), c) {
            n = n + 1;
        }
        j = j + 1;
    }
    assert(views.subrange(0, items@.len() as int) =~= views);
    n
}

/// Checks a self-review. `duration_seconds` is the measured length of the
/// film, taken from the technical review: a time code must fall inside it.
pub fn validate(review: &SelfReview, duration_seconds: Number) -> (r: Result<(), StudioError>)
    requires
        review.wf(),
        duration_seconds.wf(),
    ensures
        r is Ok <==> review_violations(review.item_views(), review.summary@, duration_seconds).len()
            == 0,
        r matches Err(e) ==> (e matches StudioError::SchemaViolation { stage, violations }
            && stage == StageId::Review && violation_views(violations@) == review_violations(
            review.item_views(),
            review.summary@,
            duration_seconds,
        )),
{
    let ghost views = review.item_views();
    let mut v: Vec<Violation> = Vec::new();
    let mut i: usize = 0;
    while i < review.items.len()
        invariant
            views == review.item_views(),
            review.wf(),
            duration_seconds.wf(),
            i <= review.items@.len(),
            violation_views(v@) == items_violations(views, i as int, duration_seconds),
        decreases review.items.len() - i,
    {
        assert(views[i as int] == review.items@[i as int]@);
        check_item(i, &review.items[i], &duration_seconds, &mut v);
        i = i + 1;
    }
    let ghost after_items = violation_views(v@);
    let mut k: usize = 0;
    while k < CRITERIA.len()
        invariant
            views == review.item_views(),
            k <= CRITERIA@.len(),
            violation_views(v@) == after_items + coverage_violations(views, k as int),
        decreases CRITERIA.len() - k,
    {
        let (criterion, desc) = CRITERIA[k];
        let n = count_criterion(&review.items, criterion);
        if n == 0 {
            let mut msg = String::from_str("缺维度 ");
            msg.append(criterion);
            msg.append("：");
            msg.append(desc);
            push_violation(&mut v, String::from_str("content_review.items"), msg);
        } else if n > 1 {
            let mut msg = String::from_str("维度 ");
            msg.append(criterion);
            msg.append(" 写了 ");
            push_u64(&mut msg, n as u64);
            msg.append(" 条，每个维度只给一条结论");
            push_violation(&mut v, String::from_str("content_review.items"), msg);
        }
        k = k + 1;
        assert(violation_views(v@) =~= after_items + coverage_violations(views, k as int));
    }
    if review.summary.unicode_len() < MIN_EVIDENCE_CHARS {
        push_violation(
            &mut v,
            String::from_str("content_review.summary"),
            String::from_str("总结太短。一句话说清这片子最强的一点和最弱的一点"),
        );
    }
    assert(violation_views(v@) =~= review_violations(views, review.summary@, duration_seconds));
    if v.len() == 0 {
        Ok(())
    } else {
        Err(StudioError::SchemaViolation { stage: StageId::Review, violations: v })
    }
}


// ---------------------------------------------------------------------------
// Counting verdicts.

/// How many items give verdict `w`.
pub open spec fn verdict_count(items: Seq<ItemView>, w: Seq<char>) -> nat
    decreases items.len(),
{
    if items.len() == 0 {
        0
    } else {
        verdict_count(items.drop_last(), w) + (if items.last().1 == w {
            1nat
        } else {
            0nat
        })
    }
}

fn count_verdict(items: &Vec<RubricItem>, w: &str) -> (r: usize)
    ensures
        r == verdict_count(items@.map_values(|i: RubricItem| i@), w@),
{
    let ghost views = items@.map_values(|i: RubricItem| i@);
    let mut n: usize = 0;
    let mut j: usize = 0;
    while j < items.len()
        invariant
            views == items@.map_values(|i: RubricItem| i@),
            j <= items@.len(),
            n == verdict_count(views.subrange(0, j as int), w@),
            n <= j,
        decreases items.len() - j,
    {
        assert(views.subrange(0, j + 1).drop_last() =~= views.subrange(0, j as int));
        if str_eq(items[j].verdict.as_str(), w) {
            n = n + 1;
        }
        j = j + 1;
    }
    assert(views.subrange(0, items@.len() as int) =~= views);
    n
}

/// How many items are `met`, `partially_met` and `not_met`, for the
/// delivery envelope and the report.
pub fn tally(review: &SelfReview) -> (r: (usize, usize, usize))
    ensures
        r.0 == verdict_count(review.item_views(), "met"@),
        r.1 == verdict_count(review.item_views(), "partially_met"@),
        r.2 == verdict_count(review.item_views(), "not_met"@),
{
    (
        count_verdict(&review.items, "met"),
        count_verdict(&review.items, "partially_met"),
        count_verdict(&review.items, "not_met"),
    )
}

// ---------------------------------------------------------------------------
// The review as a JSON document.

pub open spec fn item_json(it: ItemView) -> JsonView {
    JsonView::Object(
        seq![
            ("criterion"@, JsonView::Str(it.0)),
            ("verdict"@, JsonView::Str(it.1)),
            ("at_seconds"@, JsonView::Num(it.2)),
            ("evidence"@, JsonView::Str(it.3)),
        ],
    )
}

/// The document: `items` (each with criterion, verdict, at_seconds, evidence) and `summary`.
pub open spec fn review_json(items: Seq<ItemView>, summary: Seq<char>) -> JsonView {
    JsonView::Object(
        seq![
            ("items"@, JsonView::Array(items.map_values(|i: ItemView| item_json(i)))),
            ("summary"@, JsonView::Str(summary)),
        ],
    )
}

impl RubricItem {
    fn to_json(&self) -> (r: Json)
        ensures
            r.model() == item_json(self@),
    {
        let mut e: Vec<(String, Json)> = Vec::new();
        e.push((String::from_str("criterion"), Json::Str(self.criterion.clone())));
        e.push((String::from_str("verdict"), Json::Str(self.verdict.clone())));
        e.push((String::from_str("at_seconds"), Json::Num(self.at_seconds)));
        e.push((String::from_str("evidence"), Json::Str(self.evidence.clone())));
        proof {
            lemma_entries_model(e@, 4);
            assert(entry_models(e@) =~= item_json(self@)->Object_0);
        }
        Json::Object(e)
    }
}

impl SelfReview {
    /// The review as the JSON document that is written into the envelope.
    pub fn to_json(&self) -> (r: Json)
        ensures
            r.model() == review_json(self.item_views(), self.summary@),
    {
        let ghost views = self.item_views();
        let mut a: Vec<Json> = Vec::new();
        let mut i: usize = 0;
        while i < self.items.len()
            invariant
                views == self.item_views(),
                i <= self.items@.len(),
                a@.len() == i,
                forall|k: int| 0 <= k < i ==> (#[trigger] a@[k]).model() == item_json(views[k]),
            decreases self.items.len() - i,
        {
            let j = self.items[i].to_json();
            a.push(j);
            i = i + 1;
        }
        let ghost av = a@;
        proof {
            lemma_items_model(av, av.len() as int);
            assert(items_model(av, av.len() as int) =~= views.map_values(|x: ItemView| item_json(x)));
        }
        let arr = Json::Array(a);
        assert(arr.model() == JsonView::Array(views.map_values(|x: ItemView| item_json(x))));
        let mut e: Vec<(String, Json)> = Vec::new();
        e.push((String::from_str("items"), arr));
        e.push((String::from_str("summary"), Json::Str(self.summary.clone())));
        proof {
            lemma_entries_model(e@, 2);
            assert(entry_models(e@) =~= review_json(views, self.summary@)->Object_0);
        }
        Json::Object(e)
    }
}


// ---------------------------------------------------------------------------
// What a passing review looks like.

/// How many of the first `k` criteria are named `c`.
pub open spec fn name_matches(c: Seq<char>, k: int) -> nat
    decreases k,
{
    if k <= 0 || k > CRITERIA@.len() {
        0
    } else {
        name_matches(c, k - 1) + (if CRITERIA@[k - 1].0@ == c {
            1nat
        } else {
            0nat
        })
    }
}

/// The item counts of the first `k` criteria, added up.
pub open spec fn counts_sum(items: Seq<ItemView>, k: int) -> nat
    decreases k,
{
    if k <= 0 || k > CRITERIA@.len() {
        0
    } else {
        counts_sum(items, k - 1) + criterion_count(items, CRITERIA@[k - 1].0@)
    }
}

proof fn lemma_counts_sum_step(items: Seq<ItemView>, k: int)
    requires
        items.len() > 0,
        0 <= k <= CRITERIA@.len(),
    ensures
        counts_sum(items, k) == counts_sum(items.drop_last(), k) + name_matches(items.last().0, k),
    decreases k,
{
    if k > 0 {
        lemma_counts_sum_step(items, k - 1);
    }
}

proof fn lemma_criterion_named_once(c: Seq<char>)
    requires
        is_criterion(c),
    ensures
        name_matches(c, CRITERIA@.len() as int) == 1,
{
    reveal_strlit("hook");
    reveal_strlit("information_density");
    reveal_strlit("pacing");
    reveal_strlit("consistency");
    reveal_strlit("brief_metrics");
    let k = choose|k: int| 0 <= k < CRITERIA@.len() && (#[trigger] CRITERIA@[k]).0@ == c;
    assert(CRITERIA@[0].0@.len() == 4);
    assert(CRITERIA@[1].0@.len() == 19);
    assert(CRITERIA@[2].0@.len() == 6);
    assert(CRITERIA@[3].0@.len() == 11);
    assert(CRITERIA@[4].0@.len() == 13);
    reveal_with_fuel(name_matches, 6);
}

proof fn lemma_counts_cover_items(items: Seq<ItemView>)
    requires
        forall|j: int| 0 <= j < items.len() ==> is_criterion(#[trigger] items[j].0),
    ensures
        counts_sum(items, CRITERIA@.len() as int) == items.len(),
    decreases items.len(),
{
    if items.len() == 0 {
        assert(counts_sum(items, 5) == 0) by {
            reveal_with_fuel(counts_sum, 6);
        }
    } else {
        let rest = items.drop_last();
        assert forall|j: int| 0 <= j < rest.len() implies is_criterion(#[trigger] rest[j].0) by {
            assert(rest[j] == items[j]);
        }
        lemma_counts_cover_items(rest);
        lemma_counts_sum_step(items, CRITERIA@.len() as int);
        assert(is_criterion(items[items.len() - 1].0));
        lemma_criterion_named_once(items.last().0);
    }
}

proof fn lemma_coverage_clean(items: Seq<ItemView>, k: int)
    requires
        0 <= k <= CRITERIA@.len(),
        coverage_violations(items, k).len() == 0,
    ensures
        forall|j: int| 0 <= j < k ==> criterion_count(items, (#[trigger] CRITERIA@[j]).0@) == 1,
        counts_sum(items, k) == k,
    decreases k,
{
    if k > 0 {
        let rest = coverage_violations(items, k - 1);
        let n = criterion_count(items, CRITERIA@[k - 1].0@);
        if n == 0 || n > 1 {
            assert(coverage_violations(items, k).len() == rest.len() + 1);
        }
        lemma_coverage_clean(items, k - 1);
    }
}

proof fn lemma_items_clean(items: Seq<ItemView>, n: int, duration: Number)
    requires
        0 <= n <= items.len(),
        items_violations(items, n, duration).len() == 0,
    ensures
        forall|j: int| 0 <= j < n ==> is_criterion((#[trigger] items[j]).0) && is_verdict(items[j].1),
    decreases n,
{
    if n > 0 {
        lemma_items_clean(items, n - 1, duration);
        let it = items[n - 1];
        let v = item_violations(n - 1, it, duration);
        assert(items_violations(items, n, duration).len() == items_violations(items, n - 1, duration).len()
            + v.len());
        if !is_criterion(it.0) {
            assert(v.len() >= 1);
        }
        if !is_verdict(it.1) {
            assert(v.len() >= 1);
        }
    }
}

proof fn lemma_verdicts_cover_items(items: Seq<ItemView>)
    requires
        forall|j: int| 0 <= j < items.len() ==> is_verdict(#[trigger] items[j].1),
    ensures
        verdict_count(items, "met"@) + verdict_count(items, "partially_met"@) + verdict_count(
            items,
            "not_met"@,
        ) == items.len(),
    decreases items.len(),
{
    reveal_strlit("met");
    reveal_strlit("partially_met");
    reveal_strlit("not_met");
    if items.len() > 0 {
        let rest = items.drop_last();
        assert forall|j: int| 0 <= j < rest.len() implies is_verdict(#[trigger] rest[j].1) by {
            assert(rest[j] == items[j]);
        }
        lemma_verdicts_cover_items(rest);
        assert(is_verdict(items[items.len() - 1].1));
        let k = choose|k: int| 0 <= k < VERDICTS@.len() && (#[trigger] VERDICTS@[k])@ == items.last().1;
        assert(VERDICTS@[0]@ == "met"@);
        assert(VERDICTS@[1]@ == "partially_met"@);
        assert(VERDICTS@[2]@ == "not_met"@);
        assert("met"@.len() == 3);
        assert("partially_met"@.len() == 13);
        assert("not_met"@.len() == 7);
    }
}

/// A self-review that passes [`validate`] gives exactly one item for each
/// criterion (so it has as many items as there are criteria), and its
/// [`tally`] accounts for every item: each verdict is one of the three.
pub proof fn lemma_valid_review_is_complete(items: Seq<ItemView>, summary: Seq<char>, duration: Number)
    requires
        review_violations(items, summary, duration).len() == 0,
    ensures
        forall|k: int| 0 <= k < CRITERIA@.len() ==> criterion_count(items, (#[trigger] CRITERIA@[k]).0@)
            == 1,
        items.len() == CRITERIA@.len(),
        verdict_count(items, "met"@) + verdict_count(items, "partially_met"@) + verdict_count(
            items,
            "not_met"@,
        ) == items.len(),
{
    let a = items_violations(items, items.len() as int, duration);
    let b = coverage_violations(items, CRITERIA@.len() as int);
    assert(review_violations(items, summary, duration).len() >= a.len() + b.len());
    lemma_items_clean(items, items.len() as int, duration);
    lemma_coverage_clean(items, CRITERIA@.len() as int);
    lemma_counts_cover_items(items);
    lemma_verdicts_cover_items(items);
}

} // verus!
