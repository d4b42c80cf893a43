//! The end-to-end report: the server's trace of one real session, summed up.
//!
//! The end-to-end test does not run where the code is developed: it needs a
//! real Codex session driving the real MCP server. The session runs in
//! production, and this report turns its `.studio/trace.jsonl` into a
//! machine-readable summary that answers the acceptance questions: how many
//! calls each stage took, whether a revision came back in one pass, whether
//! any block came without a remedy, whether the state drifted.
use vstd::prelude::*;
use crate::cards::{dedup, dedup_strings};
use crate::order::{sort_strings, sorted_texts};
use crate::rollout::{as_set, contains_text, Rollout};
use crate::stage::{stage_at, StageId, STAGE_COUNT};
use crate::text::{dec_nat, join, join_seq, pad_end, push_pad_end, push_u64, str_eq, views_of};

verus! {

broadcast use vstd::string::group_string_axioms;

/// One call recorded in the trace.
#[derive(Debug, Clone, PartialEq)]
pub struct TraceRecord {
    /// When the call **ended** (RFC 3339).
    pub at: String,
    pub tool: String,
    pub stage: Option<String>,
    pub capability: Option<String>,
    pub ok: bool,
    pub error_code: Option<String>,
    pub remedy_present: Option<bool>,
    /// Whom the session waits on after this call; `user` at a gate.
    pub waiting_on: Option<String>,
    /// Whether this call sent the stage back to draft.
    pub revised: Option<bool>,
    /// How long the control plane took.
    pub duration_ms: u64,
}

/// A failed call, as the report lists it.
#[derive(Debug, Clone, PartialEq)]
pub struct ErrorSighting {
    pub at: String,
    pub tool: String,
    pub stage: Option<String>,
    pub code: String,
    pub remedy_present: bool,
}

/// One acceptance question and its answer.
#[derive(Debug, Clone, PartialEq)]
pub struct Verdict {
    pub name: String,
    pub passed: bool,
    pub detail: String,
}

pub open spec fn opt_view(o: Option<String>) -> Option<Seq<char>> {
    match o {
        Some(s) => Some(s@),
        None => None,
    }
}

// ---------------------------------------------------------------------------
// Counting.

/// How often `k` occurs.
pub open spec fn occurrences(s: Seq<Seq<char>>, k: Seq<char>) -> nat
    decreases s.len(),
{
    if s.len() == 0 {
        0
    } else {
        occurrences(s.drop_last(), k) + (if s.last() == k {
            1nat
        } else {
            0nat
        })
    }
}

/// Each distinct value, in sorted order, with how often it occurs.
pub open spec fn tally(s: Seq<Seq<char>>) -> Seq<(Seq<char>, nat)> {
    as_set(s).map_values(|k: Seq<char>| (k, occurrences(s, k)))
}

pub open spec fn tally_views(v: Seq<(String, usize)>) -> Seq<(Seq<char>, nat)> {
    v.map_values(|p: (String, usize)| (p.0@, p.1 as nat))
}

/// The tool of every call.
pub open spec fn tools_of(rs: Seq<TraceRecord>) -> Seq<Seq<char>> {
    rs.map_values(|r: TraceRecord| r.tool@)
}

/// The stage of every call that names one.
pub open spec fn stages_of(rs: Seq<TraceRecord>) -> Seq<Seq<char>>
    decreases rs.len(),
{
    if rs.len() == 0 {
        Seq::empty()
    } else {
        stages_of(rs.drop_last()) + match rs.last().stage {
            Some(s) => seq![s@],
            None => Seq::empty(),
        }
    }
}

fn copy_strings(v: &Vec<String>) -> (r: Vec<String>)
    ensures
        views_of(r@) == views_of(v@),
{
    let mut out: Vec<String> = Vec::new();
    let mut i: usize = 0;
    while i < v.len()
        invariant
            i <= v@.len(),
            out@.len() == i,
            forall|k: int| 0 <= k < i ==> (#[trigger] out@[k])@ == v@[k]@,
        decreases v.len() - i,
    {
        let c = v[i].clone();
        out.push(c);
        i = i + 1;
    }
    assert(views_of(out@) =~= views_of(v@));
    out
}

fn count_of(v: &Vec<String>, k: &str) -> (r: usize)
    ensures
        r == occurrences(views_of(v@), k@),
{
    let ghost vs = views_of(v@);
    let mut n: usize = 0;
    let mut i: usize = 0;
    while i < v.len()
        invariant
            vs == views_of(v@),
            i <= v@.len(),
            n <= i,
            n == occurrences(vs.subrange(0, i as int), k@),
        decreases v.len() - i,
    {
        assert(vs.subrange(0, i + 1).drop_last() =~= vs.subrange(0, i as int));
        if str_eq(v[i].as_str(), k) {
            n = n + 1;
        }
        i = i + 1;
    }
    assert(vs.subrange(0, v@.len() as int) =~= vs);
    n
}

/// Each distinct value, sorted, with its count.
pub fn tally_exec(v: &Vec<String>) -> (r: Vec<(String, usize)>)
    ensures
        tally_views(r@) == tally(views_of(v@)),
{
    let keys = dedup_strings(&sort_strings(copy_strings(v)));
    let ghost ks = views_of(keys@);
    let mut out: Vec<(String, usize)> = Vec::new();
    let mut i: usize = 0;
    while i < keys.len()
        invariant
            ks == views_of(keys@),
            ks == as_set(views_of(v@)),
            i <= keys@.len(),
            tally_views(out@) == tally(views_of(v@)).subrange(0, i as int),
        decreases keys.len() - i,
    {
        let n = count_of(v, keys[i].as_str());
        assert(ks[i as int] == keys@[i as int]@);
        assert(tally(views_of(v@))[i as int] == (ks[i as int], occurrences(views_of(v@), ks[i as int])));
        let ghost before = tally_views(out@);
        out.push((keys[i].clone(), n));
        assert(tally_views(out@) =~= before.push((ks[i as int], n as nat)));
        i = i + 1;
        assert(tally_views(out@) =~= tally(views_of(v@)).subrange(0, i as int));
    }
    assert(tally(views_of(v@)).subrange(0, keys@.len() as int) =~= tally(views_of(v@)));
    out
}

/// A failed call as plain values: when, tool, stage, code, remedy present.
pub type SightingView = (Seq<char>, Seq<char>, Option<Seq<char>>, Seq<char>, bool);

pub open spec fn sighting_of(r: TraceRecord) -> SightingView {
    (
        r.at@,
        r.tool@,
        opt_view(r.stage),
        match r.error_code {
            Some(c) => c@,
            None => "unknown"@,
        },
        match r.remedy_present {
            Some(b) => b,
            None => false,
        },
    )
}

/// The failed calls, in order.
pub open spec fn sightings(rs: Seq<TraceRecord>) -> Seq<SightingView>
    decreases rs.len(),
{
    if rs.len() == 0 {
        Seq::empty()
    } else {
        sightings(rs.drop_last()) + if rs.last().ok {
            Seq::empty()
        } else {
            seq![sighting_of(rs.last())]
        }
    }
}

impl ErrorSighting {
    pub open spec fn view_of(self) -> SightingView {
        (self.at@, self.tool@, opt_view(self.stage), self.code@, self.remedy_present)
    }
}

pub open spec fn sighting_views(v: Seq<ErrorSighting>) -> Seq<SightingView> {
    v.map_values(|e: ErrorSighting| e.view_of())
}

/// The stages a session reached, in stage order: those some call named.
pub open spec fn reached(stages: Seq<Seq<char>>, n: int) -> Seq<Seq<char>>
    decreases n,
{
    if n <= 0 || n > STAGE_COUNT {
        Seq::empty()
    } else {
        let s = stage_at(n - 1)->0.name();
        reached(stages, n - 1) + if occurrences(stages, s) > 0 {
            seq![s]
        } else {
            Seq::empty()
        }
    }
}

// ---------------------------------------------------------------------------
// Timing.

/// The milliseconds since the epoch of an RFC 3339 time stamp, when it is one.
pub uninterp spec fn rfc3339_millis(s: Seq<char>) -> Option<i64>;

/// Calls `chrono::DateTime::parse_from_rfc3339` and takes `timestamp_millis`
/// of the result. The result is [`rfc3339_millis`] of the text; an RFC 3339
/// year has four digits and its offset stays within a day, so the value lies
/// between the start of year 0 and the end of year 9999.
#[verifier::external_body]
fn epoch_ms(s: &str) -> (r: Option<i64>)
    ensures
        r == rfc3339_millis(s@),
        r matches Some(m) ==> -100_000_000_000_000 <= m <= 300_000_000_000_000,
{
    chrono::DateTime::parse_from_rfc3339(s).ok().map(|d| d.timestamp_millis())
}

/// Where the time of a session went. Waiting at a gate for the user is not
/// counted as effective time: that is a person thinking, not the system.
#[derive(Debug, Clone, Copy, PartialEq, Eq, Structural)]
pub struct Timing {
    /// From the start of the first call to the end of the last.
    pub wall_ms: i64,
    /// The wall time without the waits for the user.
    pub effective_ms: i64,
    /// Time spent in the control plane.
    pub server_ms: i64,
    /// Gaps between calls while the agent thinks and writes.
    pub agent_ms: i64,
    /// Gaps between calls while a gate waits for the user.
    pub waiting_user_ms: i64,
}

/// The calls whose time stamp reads: (end in ms, index of the record).
pub open spec fn parsed(rs: Seq<TraceRecord>) -> Seq<(i64, int)>
    decreases rs.len(),
{
    if rs.len() == 0 {
        Seq::empty()
    } else {
        parsed(rs.drop_last()) + match rfc3339_millis(rs.last().at@) {
            Some(ms) => seq![(ms, rs.len() - 1)],
            None => Seq::empty(),
        }
    }
}

pub open spec fn dur_of(rs: Seq<TraceRecord>, p: Seq<(i64, int)>, i: int) -> int {
    rs[p[i].1].duration_ms as int
}

/// The gap after parsed call `i`: from its end to the start of the next
/// (its end less its duration), never negative.
pub open spec fn gap(rs: Seq<TraceRecord>, p: Seq<(i64, int)>, i: int) -> int {
    let d = p[i + 1].0 - dur_of(rs, p, i + 1) - p[i].0;
    if d > 0 {
        d
    } else {
        0
    }
}

pub open spec fn waits_on_user(r: TraceRecord) -> bool {
    opt_view(r.waiting_on) == Some("user"@)
}

/// Which capability a call counts under.
pub open spec fn cap_of(r: TraceRecord) -> Seq<char> {
    match r.capability {
        Some(c) => c@,
        None => "（未知）"@,
    }
}

/// Over the first `n` parsed calls whose capability is `c` (any when `c` is
/// `None`): control-plane time, and the gaps after them split by whom the
/// session waited on.
pub open spec fn sums(rs: Seq<TraceRecord>, p: Seq<(i64, int)>, c: Option<Seq<char>>, n: int) -> (int, int, int)
    decreases n,
{
    if n <= 0 || n > p.len() {
        (0, 0, 0)
    } else {
        let prev = sums(rs, p, c, n - 1);
        let r = rs[p[n - 1].1];
        if c is None || c == Some(cap_of(r)) {
            let g = if n < p.len() {
                gap(rs, p, n - 1)
            } else {
                0
            };
            (
                prev.0 + dur_of(rs, p, n - 1),
                if waits_on_user(r) {
                    prev.1
                } else {
                    prev.1 + g
                },
                if waits_on_user(r) {
                    prev.2 + g
                } else {
                    prev.2
                },
            )
        } else {
            prev
        }
    }
}

/// The session's timing.
pub open spec fn timing_of(rs: Seq<TraceRecord>) -> (int, int, int, int, int) {
    let p = parsed(rs);
    let t = sums(rs, p, None, p.len() as int);
    if p.len() == 0 {
        (0, 0, t.0, t.1, t.2)
    } else {
        let w = p.last().0 - (p[0].0 - dur_of(rs, p, 0));
        let wall = if w > 0 {
            w
        } else {
            0
        };
        let e = wall - t.2;
        (wall, if e > 0 {
            e
        } else {
            0
        }, t.0, t.1, t.2)
    }
}

/// The inputs on which the timing fits its 64-bit fields: a bounded number
/// of calls, each shorter than 2^62 ms, and totals that fit.
pub open spec fn timing_fits(rs: Seq<TraceRecord>) -> bool {
    let t = sums(rs, parsed(rs), None, parsed(rs).len() as int);
    &&& rs.len() <= 0xffff_ffff
    &&& forall|i: int| 0 <= i < rs.len() ==> (#[trigger] rs[i]).duration_ms <= 0x4000_0000_0000_0000
    &&& t.0 + t.1 <= i64::MAX
    &&& t.2 <= i64::MAX
}

fn parse_times(rs: &Vec<TraceRecord>) -> (r: Vec<(i64, usize)>)
    ensures
        r@.len() == parsed(rs@).len(),
        forall|i: int| 0 <= i < r@.len() ==> (#[trigger] r@[i]).0 == parsed(rs@)[i].0 && r@[i].1 as int == parsed(rs@)[i].1,
        forall|i: int| 0 <= i < r@.len() ==> 0 <= (#[trigger] parsed(rs@)[i]).1 < rs@.len(),
        forall|i: int| 0 <= i < r@.len() ==> -100_000_000_000_000 <= (#[trigger] parsed(rs@)[i]).0 <= 300_000_000_000_000,
{
    let mut out: Vec<(i64, usize)> = Vec::new();
    let mut i: usize = 0;
    while i < rs.len()
        invariant
            i <= rs@.len(),
            out@.len() == parsed(rs@.subrange(0, i as int)).len(),
            forall|k: int| 0 <= k < out@.len() ==> (#[trigger] out@[k]).0 == parsed(rs@.subrange(0, i as int))[k].0 && out@[k].1 as int == parsed(rs@.subrange(0, i as int))[k].1,
            forall|k: int| 0 <= k < out@.len() ==> 0 <= (#[trigger] parsed(rs@.subrange(0, i as int))[k]).1 < i,
            forall|k: int| 0 <= k < out@.len() ==> -100_000_000_000_000 <= (#[trigger] parsed(rs@.subrange(0, i as int))[k]).0 <= 300_000_000_000_000,
        decreases rs.len() - i,
    {
        assert(rs@.subrange(0, i + 1).drop_last() =~= rs@.subrange(0, i as int));
        assert(rs@.subrange(0, i + 1).last() == rs@[i as int]);
        match epoch_ms(rs[i].at.as_str()) {
            Some(ms) => {
                out.push((ms, i));
            },
            None => {},
        }
        i = i + 1;
    }
    assert(rs@.subrange(0, rs@.len() as int) =~= rs@);
    out
}

proof fn lemma_sums_bounds(rs: Seq<TraceRecord>, p: Seq<(i64, int)>, c: Option<Seq<char>>, n: int)
    requires
        0 <= n <= p.len(),
    ensures
        sums(rs, p, c, n).0 >= 0 && sums(rs, p, c, n).1 >= 0 && sums(rs, p, c, n).2 >= 0,
        sums(rs, p, c, n).0 <= sums(rs, p, None, n).0,
        sums(rs, p, c, n).1 <= sums(rs, p, None, n).1,
        sums(rs, p, c, n).2 <= sums(rs, p, None, n).2,
    decreases n,
{
    if n > 0 {
        lemma_sums_bounds(rs, p, c, n - 1);
    }
}

proof fn lemma_sums_mono(rs: Seq<TraceRecord>, p: Seq<(i64, int)>, c: Option<Seq<char>>, k: int, n: int)
    requires
        0 <= k <= n <= p.len(),
    ensures
        sums(rs, p, c, k).0 <= sums(rs, p, c, n).0,
        sums(rs, p, c, k).1 <= sums(rs, p, c, n).1,
        sums(rs, p, c, k).2 <= sums(rs, p, c, n).2,
    decreases n - k,
{
    if n > k {
        lemma_sums_mono(rs, p, c, k, n - 1);
        lemma_sums_bounds(rs, p, c, n - 1);
    }
}

fn cap_text(r: &TraceRecord) -> (s: String)
    ensures
        s@ == cap_of(*r),
{
    match &r.capability {
        Some(c) => c.clone(),
        None => String::from_str("（未知）"),
    }
}

fn waits_exec(r: &TraceRecord) -> (b: bool)
    ensures
        b == waits_on_user(*r),
{
    match &r.waiting_on {
        Some(w) => str_eq(w.as_str(), "user"),
        None => false,
    }
}

/// The sums over the parsed calls of capability `c` (all when `None`).
fn sums_exec(rs: &Vec<TraceRecord>, p: &Vec<(i64, usize)>, c: Option<&str>) -> (r: (i64, i64, i64))
    requires
        timing_fits(rs@),
        p@.len() == parsed(rs@).len(),
        forall|i: int| 0 <= i < p@.len() ==> (#[trigger] p@[i]).0 == parsed(rs@)[i].0 && p@[i].1 as int == parsed(rs@)[i].1,
        forall|i: int| 0 <= i < p@.len() ==> 0 <= (#[trigger] parsed(rs@)[i]).1 < rs@.len(),
        forall|i: int| 0 <= i < p@.len() ==> -100_000_000_000_000 <= (#[trigger] parsed(rs@)[i]).0 <= 300_000_000_000_000,
    ensures
        ({
            let cv = match c {
                Some(x) => Some(x@),
                None => None,
            };
            let t = sums(rs@, parsed(rs@), cv, parsed(rs@).len() as int);
            r.0 as int == t.0 && r.1 as int == t.1 && r.2 as int == t.2
        }),
{
    let ghost pv = parsed(rs@);
    let ghost cv = match c {
        Some(x) => Some(x@),
        None => None::<Seq<char>>,
    };
    proof {
        lemma_sums_bounds(rs@, pv, cv, pv.len() as int);
        lemma_sums_bounds(rs@, pv, None, pv.len() as int);
    }
    let n = p.len();
    let mut a: i128 = 0;
    let mut b: i128 = 0;
    let mut w: i128 = 0;
    let mut i: usize = 0;
    while i < n
        invariant
            n == p@.len(),
            n == pv.len(),
            pv == parsed(rs@),
            timing_fits(rs@),
            i <= n,
            forall|k: int| 0 <= k < p@.len() ==> (#[trigger] p@[k]).0 == pv[k].0 && p@[k].1 as int == pv[k].1,
            forall|k: int| 0 <= k < p@.len() ==> 0 <= (#[trigger] pv[k]).1 < rs@.len(),
            forall|k: int| 0 <= k < p@.len() ==> -100_000_000_000_000 <= (#[trigger] pv[k]).0 <= 300_000_000_000_000,
            cv == (match c {
                Some(x) => Some(x@),
                None => None::<Seq<char>>,
            }),
            a as int == sums(rs@, pv, cv, i as int).0,
            b as int == sums(rs@, pv, cv, i as int).1,
            w as int == sums(rs@, pv, cv, i as int).2,
            sums(rs@, pv, cv, n as int).0 + sums(rs@, pv, cv, n as int).1 <= i64::MAX,
            sums(rs@, pv, cv, n as int).2 <= i64::MAX,
        decreases n - i,
    {
        proof {
            lemma_sums_mono(rs@, pv, cv, i + 1, n as int);
            lemma_sums_bounds(rs@, pv, cv, i + 1);
        }
        let r = &rs[p[i].1];
        let take = match c {
            Some(x) => str_eq(cap_text(r).as_str(), x),
            None => true,
        };
        if take {
            let g: i128 = if i + 1 < n {
                let next = &rs[p[i + 1].1];
                let d = p[i + 1].0 as i128 - next.duration_ms as i128 - p[i].0 as i128;
                if d > 0 {
                    d
                } else {
                    0
                }
            } else {
                0
            };
            a = a + r.duration_ms as i128;
            if waits_exec(r) {
                w = w + g;
            } else {
                b = b + g;
            }
        }
        i = i + 1;
    }
    (a as i64, b as i64, w as i64)
}

proof fn lemma_parsed_len(rs: Seq<TraceRecord>)
    ensures
        parsed(rs).len() <= rs.len(),
    decreases rs.len(),
{
    if rs.len() > 0 {
        lemma_parsed_len(rs.drop_last());
    }
}

/// The session sums over every parsed call, in a type wide enough for any
/// trace of at most 2^32 calls of at most 2^62 ms each.
fn sums_wide(rs: &Vec<TraceRecord>, p: &Vec<(i64, usize)>) -> (r: (i128, i128, i128))
    requires
        rs@.len() <= 0xffff_ffff,
        forall|i: int| 0 <= i < rs@.len() ==> (#[trigger] rs@[i]).duration_ms <= 0x4000_0000_0000_0000,
        p@.len() == parsed(rs@).len(),
        forall|i: int| 0 <= i < p@.len() ==> (#[trigger] p@[i]).0 == parsed(rs@)[i].0 && p@[i].1 as int == parsed(rs@)[i].1,
        forall|i: int| 0 <= i < p@.len() ==> 0 <= (#[trigger] parsed(rs@)[i]).1 < rs@.len(),
        forall|i: int| 0 <= i < p@.len() ==> -100_000_000_000_000 <= (#[trigger] parsed(rs@)[i]).0 <= 300_000_000_000_000,
    ensures
        ({
            let t = sums(rs@, parsed(rs@), None, parsed(rs@).len() as int);
            r.0 as int == t.0 && r.1 as int == t.1 && r.2 as int == t.2
        }),
        0 <= r.0 <= 0xffff_ffff * 0x4000_0000_0000_0000,
        0 <= r.1 <= 0xffff_ffff * 400_000_000_000_000,
        0 <= r.2 <= 0xffff_ffff * 400_000_000_000_000,
{
    let ghost pv = parsed(rs@);
    proof {
        lemma_parsed_len(rs@);
    }
    let n = p.len();
    let mut a: i128 = 0;
    let mut b: i128 = 0;
    let mut w: i128 = 0;
    let mut i: usize = 0;
    while i < n
        invariant
            n == p@.len(),
            n == pv.len(),
            n <= 0xffff_ffff,
            pv == parsed(rs@),
            i <= n,
            forall|k: int| 0 <= k < rs@.len() ==> (#[trigger] rs@[k]).duration_ms <= 0x4000_0000_0000_0000,
            forall|k: int| 0 <= k < p@.len() ==> (#[trigger] p@[k]).0 == pv[k].0 && p@[k].1 as int == pv[k].1,
            forall|k: int| 0 <= k < p@.len() ==> 0 <= (#[trigger] pv[k]).1 < rs@.len(),
            forall|k: int| 0 <= k < p@.len() ==> -100_000_000_000_000 <= (#[trigger] pv[k]).0 <= 300_000_000_000_000,
            a as int == sums(rs@, pv, None, i as int).0,
            b as int == sums(rs@, pv, None, i as int).1,
            w as int == sums(rs@, pv, None, i as int).2,
            0 <= a <= i * 0x4000_0000_0000_0000,
            0 <= b <= i * 400_000_000_000_000,
            0 <= w <= i * 400_000_000_000_000,
        decreases n - i,
    {
        let r = &rs[p[i].1];
        let g: i128 = if i + 1 < n {
            let next = &rs[p[i + 1].1];
            let d = p[i + 1].0 as i128 - next.duration_ms as i128 - p[i].0 as i128;
            if d > 0 {
                d
            } else {
                0
            }
        } else {
            0
        };
        a = a + r.duration_ms as i128;
        if waits_exec(r) {
            w = w + g;
        } else {
            b = b + g;
        }
        i = i + 1;
    }
    (a, b, w)
}

/// Whether a trace's timing fits the report's 64-bit fields: at most 2^32
/// calls, each shorter than 2^62 ms, and totals that fit.
pub fn timing_fits_exec(rs: &Vec<TraceRecord>) -> (r: bool)
    ensures
        r == timing_fits(rs@),
{
    if rs.len() > 0xffff_ffff {
        return false;
    }
    let mut i: usize = 0;
    while i < rs.len()
        invariant
            i <= rs@.len(),
            forall|k: int| 0 <= k < i ==> (#[trigger] rs@[k]).duration_ms <= 0x4000_0000_0000_0000,
        decreases rs.len() - i,
    {
        if rs[i].duration_ms > 0x4000_0000_0000_0000 {
            return false;
        }
        i = i + 1;
    }
    let p = parse_times(rs);
    let (a, b, w) = sums_wide(rs, &p);
    a + b <= i64::MAX as i128 && w <= i64::MAX as i128
}

// ---------------------------------------------------------------------------
// By capability.

/// What a session spent on one capability (the observable skill dimension).
#[derive(Debug, Clone, PartialEq)]
pub struct SkillStat {
    pub capability: String,
    pub stages: Vec<String>,
    pub calls: usize,
    pub server_ms: i64,
    pub agent_ms: i64,
    pub waiting_user_ms: i64,
}

/// A skill's numbers as plain values: capability, stages, calls, control
/// plane time, agent time, time waiting on the user.
pub type SkillView = (Seq<char>, Seq<Seq<char>>, nat, int, int, int);

impl SkillStat {
    pub open spec fn view_of(self) -> SkillView {
        (
            self.capability@,
            views_of(self.stages@),
            self.calls as nat,
            self.server_ms as int,
            self.agent_ms as int,
            self.waiting_user_ms as int,
        )
    }
}

pub open spec fn skill_views(v: Seq<SkillStat>) -> Seq<SkillView> {
    v.map_values(|k: SkillStat| k.view_of())
}

/// The capability of every parsed call.
pub open spec fn cap_seq(rs: Seq<TraceRecord>, p: Seq<(i64, int)>) -> Seq<Seq<char>> {
    p.map_values(|x: (i64, int)| cap_of(rs[x.1]))
}

/// The stages of capability `c` among the first `n` parsed calls, each once,
/// in the order first met.
pub open spec fn cap_stages(rs: Seq<TraceRecord>, p: Seq<(i64, int)>, c: Seq<char>, n: int) -> Seq<Seq<char>>
    decreases n,
{
    if n <= 0 || n > p.len() {
        Seq::empty()
    } else {
        let prev = cap_stages(rs, p, c, n - 1);
        let r = rs[p[n - 1].1];
        if cap_of(r) == c {
            match r.stage {
                Some(st) => if prev.contains(st@) {
                    prev
                } else {
                    prev.push(st@)
                },
                None => prev,
            }
        } else {
            prev
        }
    }
}

pub open spec fn skill_of(rs: Seq<TraceRecord>, c: Seq<char>) -> SkillView {
    let p = parsed(rs);
    let t = sums(rs, p, Some(c), p.len() as int);
    (c, cap_stages(rs, p, c, p.len() as int), occurrences(cap_seq(rs, p), c), t.0, t.1, t.2)
}

pub open spec fn skill_key(v: SkillView) -> int {
    v.3 + v.4
}

/// Puts `x` after every element whose key is at least its own.
pub open spec fn insert_desc(s: Seq<SkillView>, x: SkillView) -> Seq<SkillView>
    decreases s.len(),
{
    if s.len() == 0 {
        seq![x]
    } else if skill_key(s.last()) >= skill_key(x) {
        s.push(x)
    } else {
        insert_desc(s.drop_last(), x).push(s.last())
    }
}

/// Sorted by descending key; equal keys keep their order.
pub open spec fn sort_desc(s: Seq<SkillView>) -> Seq<SkillView>
    decreases s.len(),
{
    if s.len() == 0 {
        Seq::empty()
    } else {
        insert_desc(sort_desc(s.drop_last()), s.last())
    }
}

/// Every capability, by descending time (control plane plus agent).
pub open spec fn skills_of(rs: Seq<TraceRecord>) -> Seq<SkillView> {
    sort_desc(as_set(cap_seq(rs, parsed(rs))).map_values(|c: Seq<char>| skill_of(rs, c)))
}

proof fn lemma_insert_desc_at(s: Seq<SkillView>, x: SkillView, j: int)
    requires
        0 <= j <= s.len(),
        forall|k: int| j <= k < s.len() ==> skill_key(#[trigger] s[k]) < skill_key(x),
        j > 0 ==> skill_key(s[j - 1]) >= skill_key(x),
    ensures
        insert_desc(s, x) == s.insert(j, x),
    decreases s.len(),
{
    if s.len() == 0 {
        assert(s.insert(0, x) =~= seq![x]);
    } else if j == s.len() {
        assert(s.insert(j, x) =~= s.push(x));
    } else {
        lemma_insert_desc_at(s.drop_last(), x, j);
        assert(s.insert(j, x) =~= s.drop_last().insert(j, x).push(s.last()));
    }
}

fn stat_key(k: &SkillStat) -> (r: i128)
    ensures
        r == skill_key(k.view_of()),
{
    k.server_ms as i128 + k.agent_ms as i128
}

/// Inserts a skill after every one whose key is at least its own.
fn insert_skill(out: &mut Vec<SkillStat>, x: SkillStat)
    ensures
        skill_views(final(out)@) == insert_desc(skill_views(old(out)@), x.view_of()),
{
    let kx = stat_key(&x);
    let ghost sv = skill_views(out@);
    let mut j: usize = out.len();
    while j > 0 && stat_key(&out[j - 1]) < kx
        invariant
            sv == skill_views(out@),
            j <= out@.len(),
            kx == skill_key(x.view_of()),
            forall|k: int| j <= k < sv.len() ==> skill_key(#[trigger] sv[k]) < kx,
        decreases j,
    {
        j = j - 1;
    }
    proof {
        lemma_insert_desc_at(sv, x.view_of(), j as int);
    }
    out.insert(j, x);
    assert(skill_views(out@) =~= sv.insert(j as int, x.view_of()));
}

fn cap_stages_exec(rs: &Vec<TraceRecord>, p: &Vec<(i64, usize)>, c: &str) -> (r: Vec<String>)
    requires
        p@.len() == parsed(rs@).len(),
        forall|i: int| 0 <= i < p@.len() ==> (#[trigger] p@[i]).0 == parsed(rs@)[i].0 && p@[i].1 as int == parsed(rs@)[i].1,
        forall|i: int| 0 <= i < p@.len() ==> 0 <= (#[trigger] parsed(rs@)[i]).1 < rs@.len(),
    ensures
        views_of(r@) == cap_stages(rs@, parsed(rs@), c@, parsed(rs@).len() as int),
{
    let ghost pv = parsed(rs@);
    let mut out: Vec<String> = Vec::new();
    let mut i: usize = 0;
    while i < p.len()
        invariant
            pv == parsed(rs@),
            p@.len() == pv.len(),
            forall|k: int| 0 <= k < p@.len() ==> (#[trigger] p@[k]).0 == pv[k].0 && p@[k].1 as int == pv[k].1,
            forall|k: int| 0 <= k < p@.len() ==> 0 <= (#[trigger] pv[k]).1 < rs@.len(),
            i <= p@.len(),
            views_of(out@) == cap_stages(rs@, pv, c@, i as int),
        decreases p.len() - i,
    {
        let r = &rs[p[i].1];
        if str_eq(cap_text(r).as_str(), c) {
            match &r.stage {
                Some(st) => {
                    if !contains_text(&out, st.as_str()) {
                        let ghost before = views_of(out@);
                        out.push(st.clone());
                        assert(views_of(out@) =~= before.push(st@));
                    }
                },
                None => {},
            }
        }
        i = i + 1;
    }
    out
}

/// The timing of a session and what each capability took, from its trace.
///
/// Each record's `at` is when the call **ended** and `duration_ms` how long
/// the control plane took, so a call starts at about `at - duration`. Who a
/// gap between two calls belongs to depends on whose turn it was after the
/// first: waiting on the user means a person is reading, else the agent is
/// thinking. Records whose time stamp does not read are left out rather than
/// spoiling the whole report.
pub fn measure(rs: &Vec<TraceRecord>) -> (r: (Timing, Vec<SkillStat>))
    requires
        timing_fits(rs@),
    ensures
        (r.0.wall_ms as int, r.0.effective_ms as int, r.0.server_ms as int, r.0.agent_ms as int, r.0.waiting_user_ms as int) == timing_of(rs@),
        skill_views(r.1@) == skills_of(rs@),
{
    let p = parse_times(rs);
    let ghost pv = parsed(rs@);
    let (server, agent, waiting) = sums_exec(rs, &p, None);
    let mut t = Timing { wall_ms: 0, effective_ms: 0, server_ms: server, agent_ms: agent, waiting_user_ms: waiting };
    proof {
        lemma_sums_bounds(rs@, pv, None, pv.len() as int);
    }
    if p.len() > 0 {
        let last = p[p.len() - 1].0 as i128;
        let first = p[0].0 as i128;
        let d0 = rs[p[0].1].duration_ms as i128;
        let wv = last - (first - d0);
        let wall: i128 = if wv > 0 {
            wv
        } else {
            0
        };
        let e = wall - waiting as i128;
        t.wall_ms = wall as i64;
        t.effective_ms = (if e > 0 {
            e
        } else {
            0
        }) as i64;
    }
    let mut caps: Vec<String> = Vec::new();
    let mut i: usize = 0;
    while i < p.len()
        invariant
            pv == parsed(rs@),
            p@.len() == pv.len(),
            forall|k: int| 0 <= k < p@.len() ==> (#[trigger] p@[k]).0 == pv[k].0 && p@[k].1 as int == pv[k].1,
            forall|k: int| 0 <= k < p@.len() ==> 0 <= (#[trigger] pv[k]).1 < rs@.len(),
            i <= p@.len(),
            views_of(caps@) == cap_seq(rs@, pv).subrange(0, i as int),
        decreases p.len() - i,
    {
        let ghost before = views_of(caps@);
        let c = cap_text(&rs[p[i].1]);
        assert(cap_seq(rs@, pv)[i as int] == cap_of(rs@[pv[i as int].1]));
        assert(c@ == cap_seq(rs@, pv)[i as int]);
        caps.push(c);
        assert(views_of(caps@) =~= before.push(cap_seq(rs@, pv)[i as int]));
        i = i + 1;
        assert(views_of(caps@) =~= cap_seq(rs@, pv).subrange(0, i as int));
    }
    assert(cap_seq(rs@, pv).subrange(0, p@.len() as int) =~= cap_seq(rs@, pv));
    let keys = dedup_strings(&sort_strings(copy_strings(&caps)));
    let ghost ks = views_of(keys@);
    let ghost unsorted = as_set(cap_seq(rs@, pv)).map_values(|c: Seq<char>| skill_of(rs@, c));
    let mut out: Vec<SkillStat> = Vec::new();
    let mut k: usize = 0;
    while k < keys.len()
        invariant
            pv == parsed(rs@),
            timing_fits(rs@),
            p@.len() == pv.len(),
            forall|j: int| 0 <= j < p@.len() ==> (#[trigger] p@[j]).0 == pv[j].0 && p@[j].1 as int == pv[j].1,
            forall|j: int| 0 <= j < p@.len() ==> 0 <= (#[trigger] pv[j]).1 < rs@.len(),
            forall|j: int| 0 <= j < p@.len() ==> -100_000_000_000_000 <= (#[trigger] pv[j]).0 <= 300_000_000_000_000,
            views_of(caps@) == cap_seq(rs@, pv),
            ks == views_of(keys@),
            ks == as_set(cap_seq(rs@, pv)),
            unsorted == as_set(cap_seq(rs@, pv)).map_values(|c: Seq<char>| skill_of(rs@, c)),
            k <= keys@.len(),
            skill_views(out@) == sort_desc(unsorted.subrange(0, k as int)),
        decreases keys.len() - k,
    {
        let key = keys[k].as_str();
        let calls = count_of(&caps, key);
        let stages = cap_stages_exec(rs, &p, key);
        let (sv, av, wv) = sums_exec(rs, &p, Some(key));
        let stat = SkillStat {
            capability: keys[k].clone(),
            stages,
            calls,
            server_ms: sv,
            agent_ms: av,
            waiting_user_ms: wv,
        };
        assert(ks[k as int] == keys@[k as int]@);
        assert(stat.view_of() == unsorted[k as int]);
        assert(unsorted.subrange(0, k + 1).drop_last() =~= unsorted.subrange(0, k as int));
        insert_skill(&mut out, stat);
        k = k + 1;
    }
    assert(unsorted.subrange(0, keys@.len() as int) =~= unsorted);
    (t, out)
}

// ---------------------------------------------------------------------------
// The report.

/// The end-to-end report.
#[derive(Debug, Clone, PartialEq)]
pub struct Report {
    pub generated_at: String,
    pub bundle: String,
    pub total_calls: usize,
    pub failed_calls: usize,
    /// Calls per tool, by tool name.
    pub calls_by_tool: Vec<(String, usize)>,
    /// Calls per stage, by stage name.
    pub calls_by_stage: Vec<(String, usize)>,
    pub errors: Vec<ErrorSighting>,
    /// For each revision: the calls until the next successful submission.
    pub revise_round_trips: Vec<usize>,
    pub stages_reached: Vec<String>,
    pub verdicts: Vec<Verdict>,
    pub passed: bool,
    pub timing: Timing,
    pub skills: Vec<SkillStat>,
    /// The Codex session record merged in, if one was given. Without it the
    /// report marks tokens and detours as not observable.
    pub rollout: Option<Rollout>,
}

/// A verdict as plain values: name, passed, detail.
pub type VerdictView = (Seq<char>, bool, Seq<char>);

impl Verdict {
    pub open spec fn view_of(self) -> VerdictView {
        (self.name@, self.passed, self.detail@)
    }
}

pub open spec fn verdict_views(v: Seq<Verdict>) -> Seq<VerdictView> {
    v.map_values(|x: Verdict| x.view_of())
}

/// The codes of the failures that came without a remedy, in order.
pub open spec fn bad_codes(e: Seq<SightingView>) -> Seq<Seq<char>>
    decreases e.len(),
{
    if e.len() == 0 {
        Seq::empty()
    } else {
        bad_codes(e.drop_last()) + if e.last().4 {
            Seq::empty()
        } else {
            seq![e.last().3]
        }
    }
}

pub open spec fn max_of(v: Seq<usize>) -> nat
    decreases v.len(),
{
    if v.len() == 0 {
        0
    } else {
        let m = max_of(v.drop_last());
        if v.last() > m {
            v.last() as nat
        } else {
            m
        }
    }
}

/// The six stages before anything is sent to ComfyUI.
pub open spec fn six_stages() -> Seq<Seq<char>> {
    seq![
        StageId::Idea.name(),
        StageId::Selection.name(),
        StageId::Script.name(),
        StageId::Storyboard.name(),
        StageId::VisualAssets.name(),
        StageId::PromptPack.name(),
    ]
}

/// The acceptance verdicts of a session, in order.
pub open spec fn verdicts_of(rs: Seq<TraceRecord>, trips: Seq<usize>, rollout: Option<Rollout>) -> Seq<VerdictView> {
    let e = sightings(rs);
    let drift = exists|i: int| 0 <= i < e.len() && (#[trigger] e[i]).3 == "state_drift"@;
    let small = forall|i: int| 0 <= i < trips.len() ==> (#[trigger] trips[i]) <= 2;
    let stages = stages_of(rs);
    let all_six = forall|i: int| 0 <= i < 6 ==> occurrences(stages, #[trigger] six_stages()[i]) > 0;
    let base = seq![
        verdicts_of_remedy(e),
        (
            "状态未被外部改动"@,
            !drift,
            if !drift {
                "没有出现 state_drift"@
            } else {
                "出现了 state_drift，说明有人绕过 MCP 直接改了 .studio/"@
            },
        ),
        (
            "修订往返一次过"@,
            small,
            if trips.len() == 0 {
                "本次会话没有发生修订"@
            } else {
                dec_nat(trips.len()) + " 次修订，最多用了 "@ + dec_nat(max_of(trips)) + " 次调用回到提交"@
            },
        ),
        (
            "提交 ComfyUI 前六个阶段全部走到"@,
            all_six,
            "走到过："@ + join_seq(reached(stages, STAGE_COUNT as int), " → "@),
        ),
    ];
    match rollout {
        Some(r) => base.push(
            (
                "全程没有绕过 MCP"@,
                r.bypasses@.len() == 0,
                if r.bypasses@.len() == 0 {
                    "Codex 侧 "@ + dec_nat(r.calls.shell as nat) + " 次本地命令，没有一次碰状态库或试图用 CLI 推进阶段"@
                } else {
                    "发现绕行："@ + join_seq(views_of(r.bypasses@), "；"@)
                },
            ),
        ),
        None => base,
    }
}

fn sightings_exec(rs: &Vec<TraceRecord>) -> (r: Vec<ErrorSighting>)
    ensures
        sighting_views(r@) == sightings(rs@),
{
    let mut out: Vec<ErrorSighting> = Vec::new();
    let mut i: usize = 0;
    while i < rs.len()
        invariant
            i <= rs@.len(),
            sighting_views(out@) == sightings(rs@.subrange(0, i as int)),
        decreases rs.len() - i,
    {
        assert(rs@.subrange(0, i + 1).drop_last() =~= rs@.subrange(0, i as int));
        assert(rs@.subrange(0, i + 1).last() == rs@[i as int]);
        let r = &rs[i];
        if !r.ok {
            let ghost before = sighting_views(out@);
            let e = ErrorSighting {
                at: r.at.clone(),
                tool: r.tool.clone(),
                stage: match &r.stage {
                    Some(s) => Some(s.clone()),
                    None => None,
                },
                code: match &r.error_code {
                    Some(c) => c.clone(),
                    None => String::from_str("unknown"),
                },
                remedy_present: match r.remedy_present {
                    Some(b) => b,
                    None => false,
                },
            };
            assert(e.view_of() == sighting_of(*r));
            out.push(e);
            assert(sighting_views(out@) =~= before.push(sighting_of(*r)));
        }
        i = i + 1;
    }
    assert(rs@.subrange(0, rs@.len() as int) =~= rs@);
    out
}

fn stage_names(rs: &Vec<TraceRecord>) -> (r: Vec<String>)
    ensures
        views_of(r@) == stages_of(rs@),
{
    let mut out: Vec<String> = Vec::new();
    let mut i: usize = 0;
    while i < rs.len()
        invariant
            i <= rs@.len(),
            views_of(out@) == stages_of(rs@.subrange(0, i as int)),
        decreases rs.len() - i,
    {
        assert(rs@.subrange(0, i + 1).drop_last() =~= rs@.subrange(0, i as int));
        assert(rs@.subrange(0, i + 1).last() == rs@[i as int]);
        let ghost before = views_of(out@);
        match &rs[i].stage {
            Some(s) => {
                out.push(s.clone());
                assert(views_of(out@) =~= before.push(s@));
            },
            None => {
                assert(views_of(out@) =~= before);
            },
        }
        i = i + 1;
        assert(views_of(out@) =~= stages_of(rs@.subrange(0, i as int)));
    }
    assert(rs@.subrange(0, rs@.len() as int) =~= rs@);
    out
}

fn remedy_verdict(e: &Vec<ErrorSighting>) -> (r: Verdict)
    ensures
        r.view_of() == verdicts_of_remedy(sighting_views(e@)),
{
    let ghost ev = sighting_views(e@);
    let mut ok = true;
    let mut bad: Vec<String> = Vec::new();
    let mut i: usize = 0;
    while i < e.len()
        invariant
            ev == sighting_views(e@),
            i <= e@.len(),
            ok == (forall|k: int| 0 <= k < i ==> (#[trigger] ev[k]).4),
            views_of(bad@) == bad_codes(ev.subrange(0, i as int)),
        decreases e.len() - i,
    {
        assert(ev.subrange(0, i + 1).drop_last() =~= ev.subrange(0, i as int));
        assert(ev[i as int] == e@[i as int].view_of());
        if !e[i].remedy_present {
            let ghost before = views_of(bad@);
            ok = false;
            bad.push(e[i].code.clone());
            assert(views_of(bad@) =~= before.push(e@[i as int].code@));
        }
        i = i + 1;
    }
    assert(ev.subrange(0, e@.len() as int) =~= ev);
    let detail = if ok {
        let mut d = String::new();
        push_u64(&mut d, e.len() as u64);
        d.append(" 次失败调用，全部带 remedy");
        d
    } else {
        let mut d = String::from_str("这些错误没给出下一步：");
        d.append(join(&bad, "、").as_str());
        d
    };
    Verdict { name: String::from_str("每条阻塞都带补救路径"), passed: ok, detail }
}

pub open spec fn verdicts_of_remedy(e: Seq<SightingView>) -> VerdictView {
    let remedied = forall|i: int| 0 <= i < e.len() ==> (#[trigger] e[i]).4;
    (
        "每条阻塞都带补救路径"@,
        remedied,
        if remedied {
            dec_nat(e.len()) + " 次失败调用，全部带 remedy"@
        } else {
            "这些错误没给出下一步："@ + join_seq(bad_codes(e), "、"@)
        },
    )
}

fn drift_verdict(e: &Vec<ErrorSighting>) -> (r: Verdict)
    ensures
        r.view_of() == (
            "状态未被外部改动"@,
            !(exists|i: int| 0 <= i < sighting_views(e@).len() && (#[trigger] sighting_views(e@)[i]).3 == "state_drift"@),
            if !(exists|i: int| 0 <= i < sighting_views(e@).len() && (#[trigger] sighting_views(e@)[i]).3 == "state_drift"@) {
                "没有出现 state_drift"@
            } else {
                "出现了 state_drift，说明有人绕过 MCP 直接改了 .studio/"@
            },
        ),
{
    let ghost ev = sighting_views(e@);
    let mut drift = false;
    let mut i: usize = 0;
    while i < e.len()
        invariant
            ev == sighting_views(e@),
            i <= e@.len(),
            drift == (exists|k: int| 0 <= k < i && (#[trigger] ev[k]).3 == "state_drift"@),
        decreases e.len() - i,
    {
        assert(ev[i as int] == e@[i as int].view_of());
        if str_eq(e[i].code.as_str(), "state_drift") {
            drift = true;
        }
        i = i + 1;
    }
    Verdict {
        name: String::from_str("状态未被外部改动"),
        passed: !drift,
        detail: if !drift {
            String::from_str("没有出现 state_drift")
        } else {
            String::from_str("出现了 state_drift，说明有人绕过 MCP 直接改了 .studio/")
        },
    }
}

fn revise_verdict(trips: &Vec<usize>) -> (r: Verdict)
    ensures
        r.view_of() == (
            "修订往返一次过"@,
            forall|i: int| 0 <= i < trips@.len() ==> (#[trigger] trips@[i]) <= 2,
            if trips@.len() == 0 {
                "本次会话没有发生修订"@
            } else {
                dec_nat(trips@.len()) + " 次修订，最多用了 "@ + dec_nat(max_of(trips@)) + " 次调用回到提交"@
            },
        ),
{
    let mut small = true;
    let mut worst: usize = 0;
    let mut i: usize = 0;
    while i < trips.len()
        invariant
            i <= trips@.len(),
            small == (forall|k: int| 0 <= k < i ==> (#[trigger] trips@[k]) <= 2),
            worst == max_of(trips@.subrange(0, i as int)),
        decreases trips.len() - i,
    {
        assert(trips@.subrange(0, i + 1).drop_last() =~= trips@.subrange(0, i as int));
        if trips[i] > 2 {
            small = false;
        }
        if trips[i] > worst {
            worst = trips[i];
        }
        i = i + 1;
    }
    assert(trips@.subrange(0, trips@.len() as int) =~= trips@);
    let detail = if trips.len() == 0 {
        String::from_str("本次会话没有发生修订")
    } else {
        let mut d = String::new();
        push_u64(&mut d, trips.len() as u64);
        d.append(" 次修订，最多用了 ");
        push_u64(&mut d, worst as u64);
        d.append(" 次调用回到提交");
        d
    };
    Verdict { name: String::from_str("修订往返一次过"), passed: small, detail }
}

fn reached_exec(stages: &Vec<String>) -> (r: Vec<String>)
    ensures
        views_of(r@) == reached(views_of(stages@), STAGE_COUNT as int),
{
    let all = StageId::all();
    let mut out: Vec<String> = Vec::new();
    let mut i: usize = 0;
    while i < STAGE_COUNT
        invariant
            all@.len() == STAGE_COUNT,
            forall|k: int| 0 <= k < STAGE_COUNT ==> Some(#[trigger] all@[k]) == stage_at(k),
            i <= STAGE_COUNT,
            views_of(out@) == reached(views_of(stages@), i as int),
        decreases STAGE_COUNT - i,
    {
        let st = all[i];
        assert(Some(all@[i as int]) == stage_at(i as int));
        let name = st.as_str();
        if count_of(stages, name) > 0 {
            let ghost before = views_of(out@);
            out.push(String::from_str(name));
            assert(views_of(out@) =~= before.push(name@));
        }
        i = i + 1;
    }
    out
}

fn six_reached(stages: &Vec<String>) -> (r: bool)
    ensures
        r == (forall|i: int| 0 <= i < 6 ==> occurrences(views_of(stages@), #[trigger] six_stages()[i]) > 0),
{
    let six: [StageId; 6] = [
        StageId::Idea,
        StageId::Selection,
        StageId::Script,
        StageId::Storyboard,
        StageId::VisualAssets,
        StageId::PromptPack,
    ];
    let mut ok = true;
    let mut i: usize = 0;
    while i < 6
        invariant
            i <= 6,
            six@ == seq![
                StageId::Idea,
                StageId::Selection,
                StageId::Script,
                StageId::Storyboard,
                StageId::VisualAssets,
                StageId::PromptPack,
            ],
            ok == (forall|k: int| 0 <= k < i ==> occurrences(views_of(stages@), #[trigger] six_stages()[k]) > 0),
        decreases 6 - i,
    {
        assert(six_stages()[i as int] == six@[i as int].name());
        if count_of(stages, six[i].as_str()) == 0 {
            ok = false;
        }
        i = i + 1;
    }
    ok
}

fn bypass_verdict(r: &Rollout) -> (v: Verdict)
    ensures
        v.view_of() == (
            "全程没有绕过 MCP"@,
            r.bypasses@.len() == 0,
            if r.bypasses@.len() == 0 {
                "Codex 侧 "@ + dec_nat(r.calls.shell as nat) + " 次本地命令，没有一次碰状态库或试图用 CLI 推进阶段"@
            } else {
                "发现绕行："@ + join_seq(views_of(r.bypasses@), "；"@)
            },
        ),
{
    let ok = r.bypasses.len() == 0;
    let detail = if ok {
        let mut d = String::from_str("Codex 侧 ");
        push_u64(&mut d, r.calls.shell as u64);
        d.append(" 次本地命令，没有一次碰状态库或试图用 CLI 推进阶段");
        d
    } else {
        let mut d = String::from_str("发现绕行：");
        d.append(join(&r.bypasses, "；").as_str());
        d
    };
    Verdict { name: String::from_str("全程没有绕过 MCP"), passed: ok, detail }
}

/// What the report of a trace says: `build_with` gives exactly this.
pub open spec fn report_of(
    r: Report,
    bundle: String,
    generated_at: String,
    records: Seq<TraceRecord>,
    revise_round_trips: Vec<usize>,
    rollout: Option<Rollout>,
) -> bool {
    &&& r.bundle == bundle
    &&& r.generated_at == generated_at
    &&& r.total_calls == records.len()
    &&& r.failed_calls == sightings(records).len()
    &&& tally_views(r.calls_by_tool@) =~= tally(tools_of(records))
    &&& tally_views(r.calls_by_stage@) =~= tally(stages_of(records))
    &&& sighting_views(r.errors@) =~= sightings(records)
    &&& r.revise_round_trips == revise_round_trips
    &&& views_of(r.stages_reached@) =~= reached(stages_of(records), STAGE_COUNT as int)
    &&& verdict_views(r.verdicts@) =~= verdicts_of(records, revise_round_trips@, rollout)
    &&& r.passed == (forall|i: int| 0 <= i < r.verdicts@.len() ==> (#[trigger] r.verdicts@[i]).passed)
    &&& (r.timing.wall_ms as int, r.timing.effective_ms as int, r.timing.server_ms as int, r.timing.agent_ms as int, r.timing.waiting_user_ms as int) == timing_of(records)
    &&& skill_views(r.skills@) =~= skills_of(records)
    &&& r.rollout == rollout
}

/// Sums a session up from its trace.
///
/// `revise_round_trips` counts, for each revision, the calls until the next
/// successful submission; `rollout` is the Codex session record, with the
/// documents that do not exist in the bundle already left out (the agent
/// first guesses paths that are not there, then lists the directory: a
/// guessed read is no read).
pub fn build_with(
    bundle: String,
    generated_at: String,
    records: &Vec<TraceRecord>,
    revise_round_trips: Vec<usize>,
    rollout: Option<Rollout>,
) -> (r: Report)
    requires
        timing_fits(records@),
    ensures
        r.bundle == bundle,
        r.generated_at == generated_at,
        r.total_calls == records@.len(),
        r.failed_calls == sightings(records@).len(),
        tally_views(r.calls_by_tool@) =~= tally(tools_of(records@)),
        tally_views(r.calls_by_stage@) =~= tally(stages_of(records@)),
        sighting_views(r.errors@) =~= sightings(records@),
        r.revise_round_trips == revise_round_trips,
        views_of(r.stages_reached@) =~= reached(stages_of(records@), STAGE_COUNT as int),
        verdict_views(r.verdicts@) =~= verdicts_of(records@, revise_round_trips@, rollout),
        r.passed == (forall|i: int| 0 <= i < r.verdicts@.len() ==> (#[trigger] r.verdicts@[i]).passed),
        (r.timing.wall_ms as int, r.timing.effective_ms as int, r.timing.server_ms as int, r.timing.agent_ms as int, r.timing.waiting_user_ms as int) == timing_of(records@),
        skill_views(r.skills@) =~= skills_of(records@),
        r.rollout == rollout,
{
    let mut tools: Vec<String> = Vec::new();
    let mut i: usize = 0;
    while i < records.len()
        invariant
            i <= records@.len(),
            views_of(tools@) == tools_of(records@).subrange(0, i as int),
        decreases records.len() - i,
    {
        let ghost before = views_of(tools@);
        let t = records[i].tool.clone();
        assert(tools_of(records@)[i as int] == records@[i as int].tool@);
        tools.push(t);
        assert(views_of(tools@) =~= before.push(t@));
        i = i + 1;
        assert(views_of(tools@) =~= tools_of(records@).subrange(0, i as int));
    }
    assert(tools_of(records@).subrange(0, records@.len() as int) =~= tools_of(records@));
    let calls_by_tool = tally_exec(&tools);
    let stages = stage_names(records);
    let calls_by_stage = tally_exec(&stages);
    let errors = sightings_exec(records);
    let stages_reached = reached_exec(&stages);
    let mut verdicts: Vec<Verdict> = Vec::new();
    verdicts.push(remedy_verdict(&errors));
    verdicts.push(drift_verdict(&errors));
    verdicts.push(revise_verdict(&revise_round_trips));
    let all_six = six_reached(&stages);
    let mut d = String::from_str("走到过：");
    d.append(join(&stages_reached, " → ").as_str());
    verdicts.push(Verdict { name: String::from_str("提交 ComfyUI 前六个阶段全部走到"), passed: all_six, detail: d });
    let (timing, skills) = measure(records);
    match &rollout {
        Some(ro) => {
            verdicts.push(bypass_verdict(ro));
        },
        None => {},
    }
    assert(verdict_views(verdicts@) =~= verdicts_of(records@, revise_round_trips@, rollout));
    let mut passed = true;
    let mut k: usize = 0;
    while k < verdicts.len()
        invariant
            k <= verdicts@.len(),
            passed == (forall|j: int| 0 <= j < k ==> (#[trigger] verdicts@[j]).passed),
        decreases verdicts.len() - k,
    {
        if !verdicts[k].passed {
            passed = false;
        }
        k = k + 1;
    }
    let failed = errors.len();
    Report {
        generated_at,
        bundle,
        total_calls: records.len(),
        failed_calls: failed,
        calls_by_tool,
        calls_by_stage,
        errors,
        revise_round_trips,
        stages_reached,
        verdicts,
        passed,
        timing,
        skills,
        rollout,
    }
}

/// Sums a session up from its trace when its timing fits the report's
/// fields (see [`timing_fits`]); `None`, and no report, when it does not.
pub fn build_checked(
    bundle: String,
    generated_at: String,
    records: &Vec<TraceRecord>,
    revise_round_trips: Vec<usize>,
    rollout: Option<Rollout>,
) -> (r: Option<Report>)
    ensures
        r is None <==> !timing_fits(records@),
        r matches Some(x) ==> report_of(x, bundle, generated_at, records@, revise_round_trips, rollout),
{
    if timing_fits_exec(records) {
        Some(build_with(bundle, generated_at, records, revise_round_trips, rollout))
    } else {
        None
    }
}

// ---------------------------------------------------------------------------
// Revision round trips.

/// A call that sent its stage back to draft. The criterion is this flag,
/// not the tool's name: choosing a revise option at a gate goes through
/// `studio.answer`, and it is a revision all the same.
pub open spec fn is_revision(r: TraceRecord) -> bool {
    r.revised == Some(true)
}

pub open spec fn is_good_submission(r: TraceRecord) -> bool {
    r.tool@ == "studio.submit_stage"@ && r.ok
}

/// The first successful submission at or after `j`.
pub open spec fn next_submission(rs: Seq<TraceRecord>, j: int) -> Option<int>
    decreases rs.len() - j,
{
    if j < 0 || j >= rs.len() {
        None
    } else if is_good_submission(rs[j]) {
        Some(j)
    } else {
        next_submission(rs, j + 1)
    }
}

/// For each revision among the first `n` calls, the calls until the next
/// successful submission, that one included. A revision that no submission
/// follows has not come back yet and is not counted.
pub open spec fn round_trips(rs: Seq<TraceRecord>, n: int) -> Seq<int>
    decreases n,
{
    if n <= 0 || n > rs.len() {
        Seq::empty()
    } else {
        let prev = round_trips(rs, n - 1);
        if is_revision(rs[n - 1]) {
            match next_submission(rs, n) {
                Some(k) => prev.push(k - (n - 1)),
                None => prev,
            }
        } else {
            prev
        }
    }
}

proof fn lemma_next_submission(rs: Seq<TraceRecord>, j: int, k: int)
    requires
        0 <= j <= k <= rs.len(),
        forall|m: int| j <= m < k ==> !is_good_submission(#[trigger] rs[m]),
    ensures
        next_submission(rs, j) == next_submission(rs, k),
    decreases k - j,
{
    if j < k {
        lemma_next_submission(rs, j + 1, k);
    }
}

fn good_submission(r: &TraceRecord) -> (b: bool)
    ensures
        b == is_good_submission(*r),
{
    str_eq(r.tool.as_str(), "studio.submit_stage") && r.ok
}

/// How many calls each revision took to get back to a successful
/// submission. A healthy revision is one call: revise, then submit at once.
pub fn revise_round_trips(records: &Vec<TraceRecord>) -> (r: Vec<usize>)
    ensures
        r@.len() == round_trips(records@, records@.len() as int).len(),
        forall|i: int| 0 <= i < r@.len() ==> r@[i] as int == #[trigger] round_trips(records@, records@.len() as int)[i],
{
    let ghost rs = records@;
    let mut out: Vec<usize> = Vec::new();
    let mut i: usize = 0;
    while i < records.len()
        invariant
            rs == records@,
            i <= rs.len(),
            out@.len() == round_trips(rs, i as int).len(),
            forall|m: int| 0 <= m < out@.len() ==> out@[m] as int == #[trigger] round_trips(rs, i as int)[m],
        decreases records.len() - i,
    {
        let ghost before = round_trips(rs, i as int);
        let revised = match records[i].revised {
            Some(b) => b,
            None => false,
        };
        if revised {
            let mut k: usize = i + 1;
            while k < records.len() && !good_submission(&records[k])
                invariant
                    rs == records@,
                    i < k <= rs.len(),
                    forall|m: int| i + 1 <= m < k ==> !is_good_submission(#[trigger] rs[m]),
                decreases records.len() - k,
            {
                k = k + 1;
            }
            proof {
                lemma_next_submission(rs, i + 1, k as int);
            }
            if k < records.len() {
                out.push(k - i);
                assert(round_trips(rs, i + 1) == before.push(k - i));
            } else {
                assert(round_trips(rs, i + 1) == before);
            }
        }
        i = i + 1;
    }
    out
}

// ---------------------------------------------------------------------------
// The report as text. Its three durations are shown the way the caller
// formats them, in the order of `durations`.

/// The durations the text shows: effective, wall clock, waiting on the user.
pub open spec fn durations_of(r: Report) -> Seq<i64> {
    seq![r.timing.effective_ms, r.timing.wall_ms, r.timing.waiting_user_ms]
}

/// The durations the report's text shows, in text order.
pub fn durations(r: &Report) -> (d: Vec<i64>)
    ensures
        d@ == durations_of(*r),
{
    let d: Vec<i64> = vec![r.timing.effective_ms, r.timing.wall_ms, r.timing.waiting_user_ms];
    assert(d@ =~= durations_of(*r));
    d
}

pub open spec fn listed_or(items: Seq<Seq<char>>, none: Seq<char>) -> Seq<char> {
    if items.len() == 0 {
        none
    } else {
        join_seq(items, "、"@)
    }
}

pub open spec fn rollout_lines(ro: Rollout) -> Seq<char> {
    "  token     输入 "@ + dec_nat(ro.tokens.input as nat) + " / 输出 "@ + dec_nat(ro.tokens.output as nat)
        + "（推理 "@ + dec_nat(ro.tokens.reasoning_output as nat) + "，命中缓存 "@ + dec_nat(
        ro.tokens.cached_input as nat,
    ) + "）\n"@ + "  读过 Skill "@ + listed_or(views_of(ro.skills_read@), "（会话里没有读取记录）"@)
        + "\n"@ + "  读过方法 "@ + listed_or(
        views_of(ro.doctrine_read@),
        "（一份都没读——方法层没被用上）"@,
    ) + "\n"@
}

pub open spec fn tool_count_lines(cs: Seq<(String, usize)>, n: int) -> Seq<char>
    decreases n,
{
    if n <= 0 || n > cs.len() {
        Seq::empty()
    } else {
        tool_count_lines(cs, n - 1) + "    "@ + pad_end(cs[n - 1].0@, 24) + " "@ + dec_nat(
            cs[n - 1].1 as nat,
        ) + "\n"@
    }
}

pub open spec fn error_lines(es: Seq<ErrorSighting>, n: int) -> Seq<char>
    decreases n,
{
    if n <= 0 || n > es.len() {
        Seq::empty()
    } else {
        let e = es[n - 1];
        error_lines(es, n - 1) + "    "@ + e.at@ + " "@ + e.tool@ + " → "@ + e.code@ + (if e.remedy_present {
            Seq::empty()
        } else {
            "（没有 remedy）"@
        }) + "\n"@
    }
}

pub open spec fn verdict_lines(vs: Seq<Verdict>, n: int) -> Seq<char>
    decreases n,
{
    if n <= 0 || n > vs.len() {
        Seq::empty()
    } else {
        let v = vs[n - 1];
        verdict_lines(vs, n - 1) + "    ["@ + (if v.passed {
            "通过"@
        } else {
            "未过"@
        }) + "] "@ + v.name@ + "\n         "@ + v.detail@ + "\n"@
    }
}

pub open spec fn counts_text(r: Report) -> Seq<char> {
    "端到端报告 · "@ + r.generated_at@ + "\n\n"@ + "  作品      "@ + r.bundle@ + "\n"@ + "  调用总数  "@
        + dec_nat(r.total_calls as nat) + "（失败 "@ + dec_nat(r.failed_calls as nat) + "）\n"@
        + "  走到阶段  "@ + join_seq(views_of(r.stages_reached@), " → "@) + "\n"@
}

pub open spec fn timing_text(sh: Seq<Seq<char>>) -> Seq<char> {
    "  耗时      有效 "@ + sh[0] + "（墙上 "@ + sh[1] + "，其中等用户 "@ + sh[2] + "）\n"@
}

pub open spec fn summary_text(r: Report, sh: Seq<Seq<char>>) -> Seq<char> {
    counts_text(r) + timing_text(sh) + match r.rollout {
        Some(ro) => rollout_lines(ro),
        None => Seq::empty(),
    } + "\n"@
}

/// The report as text; `sh` are the shown texts of `durations_of(r)`.
pub open spec fn report_text(r: Report, sh: Seq<Seq<char>>) -> Seq<char> {
    summary_text(r, sh) + "  各工具调用次数\n"@ + tool_count_lines(
        r.calls_by_tool@,
        r.calls_by_tool@.len() as int,
    ) + "\n"@ + (if r.errors@.len() > 0 {
        "  遇到的阻塞\n"@ + error_lines(r.errors@, r.errors@.len() as int) + "\n"@
    } else {
        Seq::empty()
    }) + "  验收\n"@ + verdict_lines(r.verdicts@, r.verdicts@.len() as int) + "\n"@ + (if r.passed {
        "结论：通过。\n"@
    } else {
        "结论：未通过，见上面「未过」项。\n"@
    })
}

fn push_listed_or(out: &mut String, items: &Vec<String>, none: &str)
    ensures
        final(out)@ == old(out)@ + listed_or(views_of(items@), none@),
{
    if items.len() == 0 {
        out.append(none);
    } else {
        let j = join(items, "、");
        out.append(j.as_str());
    }
}

fn push_rollout_lines(out: &mut String, ro: &Rollout)
    ensures
        final(out)@ == old(out)@ + rollout_lines(*ro),
{
    let ghost o = out@;
    out.append("  token     输入 ");
    push_u64(out, ro.tokens.input);
    out.append(" / 输出 ");
    push_u64(out, ro.tokens.output);
    out.append("（推理 ");
    push_u64(out, ro.tokens.reasoning_output);
    out.append("，命中缓存 ");
    push_u64(out, ro.tokens.cached_input);
    out.append("）\n");
    let ghost m = out@;
    out.append("  读过 Skill ");
    push_listed_or(out, &ro.skills_read, "（会话里没有读取记录）");
    out.append("\n");
    out.append("  读过方法 ");
    push_listed_or(out, &ro.doctrine_read, "（一份都没读——方法层没被用上）");
    out.append("\n");
    assert(out@ =~= o + rollout_lines(*ro));
}

fn push_counts(out: &mut String, r: &Report)
    ensures
        final(out)@ == old(out)@ + counts_text(*r),
{
    let ghost o = out@;
    out.append("端到端报告 · ");
    out.append(r.generated_at.as_str());
    out.append("\n\n");
    out.append("  作品      ");
    out.append(r.bundle.as_str());
    out.append("\n");
    out.append("  调用总数  ");
    push_u64(out, r.total_calls as u64);
    out.append("（失败 ");
    push_u64(out, r.failed_calls as u64);
    out.append("）\n");
    let ghost m = out@;
    out.append("  走到阶段  ");
    let reached = join(&r.stages_reached, " → ");
    out.append(reached.as_str());
    out.append("\n");
    assert(out@ =~= o + counts_text(*r));
}

fn push_timing(out: &mut String, shown: &Vec<String>)
    requires
        shown@.len() == 3,
    ensures
        final(out)@ == old(out)@ + timing_text(views_of(shown@)),
{
    let ghost o = out@;
    out.append("  耗时      有效 ");
    out.append(shown[0].as_str());
    out.append("（墙上 ");
    out.append(shown[1].as_str());
    out.append("，其中等用户 ");
    out.append(shown[2].as_str());
    out.append("）\n");
    assert(out@ =~= o + timing_text(views_of(shown@)));
}

fn push_summary(out: &mut String, r: &Report, shown: &Vec<String>)
    requires
        shown@.len() == 3,
    ensures
        final(out)@ == old(out)@ + summary_text(*r, views_of(shown@)),
{
    let ghost o = out@;
    push_counts(out, r);
    push_timing(out, shown);
    let ghost m = out@;
    match &r.rollout {
        Some(ro) => push_rollout_lines(out, ro),
        None => {},
    }
    out.append("\n");
    assert(out@ =~= o + summary_text(*r, views_of(shown@)));
}

fn push_tool_counts(out: &mut String, cs: &Vec<(String, usize)>)
    ensures
        final(out)@ == old(out)@ + tool_count_lines(cs@, cs@.len() as int),
{
    let mut i: usize = 0;
    while i < cs.len()
        invariant
            i <= cs@.len(),
            out@ == old(out)@ + tool_count_lines(cs@, i as int),
        decreases cs.len() - i,
    {
        let ghost before = out@;
        out.append("    ");
        push_pad_end(out, cs[i].0.as_str(), 24);
        out.append(" ");
        push_u64(out, cs[i].1 as u64);
        out.append("\n");
        i = i + 1;
        assert(out@ =~= old(out)@ + tool_count_lines(cs@, i as int));
    }
}

fn push_error_lines(out: &mut String, es: &Vec<ErrorSighting>)
    ensures
        final(out)@ == old(out)@ + error_lines(es@, es@.len() as int),
{
    let mut i: usize = 0;
    while i < es.len()
        invariant
            i <= es@.len(),
            out@ == old(out)@ + error_lines(es@, i as int),
        decreases es.len() - i,
    {
        let e = &es[i];
        out.append("    ");
        out.append(e.at.as_str());
        out.append(" ");
        out.append(e.tool.as_str());
        out.append(" → ");
        out.append(e.code.as_str());
        if !e.remedy_present {
            out.append("（没有 remedy）");
        }
        out.append("\n");
        i = i + 1;
        assert(out@ =~= old(out)@ + error_lines(es@, i as int));
    }
}

fn push_verdict_lines(out: &mut String, vs: &Vec<Verdict>)
    ensures
        final(out)@ == old(out)@ + verdict_lines(vs@, vs@.len() as int),
{
    let mut i: usize = 0;
    while i < vs.len()
        invariant
            i <= vs@.len(),
            out@ == old(out)@ + verdict_lines(vs@, i as int),
        decreases vs.len() - i,
    {
        let v = &vs[i];
        out.append("    [");
        if v.passed {
            out.append("通过");
        } else {
            out.append("未过");
        }
        out.append("] ");
        out.append(v.name.as_str());
        out.append("\n         ");
        out.append(v.detail.as_str());
        out.append("\n");
        i = i + 1;
        assert(out@ =~= old(out)@ + verdict_lines(vs@, i as int));
    }
}

/// The report as text for a terminal. `shown` are the texts of
/// `durations(r)`, in the same order.
pub fn render(r: &Report, shown: &Vec<String>) -> (s: String)
    requires
        shown@.len() == durations_of(*r).len(),
    ensures
        s@ == report_text(*r, views_of(shown@)),
{
    let mut s = String::new();
    push_summary(&mut s, r, shown);
    let ghost a = s@;
    s.append("  各工具调用次数\n");
    push_tool_counts(&mut s, &r.calls_by_tool);
    s.append("\n");
    let ghost b = s@;
    if r.errors.len() > 0 {
        s.append("  遇到的阻塞\n");
        push_error_lines(&mut s, &r.errors);
        s.append("\n");
    }
    let ghost c = s@;
    s.append("  验收\n");
    push_verdict_lines(&mut s, &r.verdicts);
    s.append("\n");
    if r.passed {
        s.append("结论：通过。\n");
    } else {
        s.append("结论：未通过，见上面「未过」项。\n");
    }
    assert(a =~= summary_text(*r, views_of(shown@)));
    s
}

/// The session report of a trace, its revision round trips counted from
/// the trace itself; none when the trace's times do not fit.
pub fn build_report(
    bundle: String,
    generated_at: String,
    records: &Vec<TraceRecord>,
    rollout: Option<Rollout>,
) -> (r: Option<Report>)
    ensures
        r is None <==> !timing_fits(records@),
        r matches Some(x) ==> report_of(x, bundle, generated_at, records@, x.revise_round_trips, rollout)
            && x.revise_round_trips@.len() == round_trips(records@, records@.len() as int).len()
            && forall|i: int|
            0 <= i < x.revise_round_trips@.len() ==> x.revise_round_trips@[i] as int
                == #[trigger] round_trips(records@, records@.len() as int)[i],
{
    let trips = revise_round_trips(records);
    build_checked(bundle, generated_at, records, trips, rollout)
}

} // verus!
