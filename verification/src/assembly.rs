//! Per-shot declarations and the fragment library they are assembled from.
//!
//! An agent declares what a shot needs (a head, references, guides); the
//! fragment library says how the pieces are wired. This module checks a
//! declaration against the library at submission time, before any GPU time
//! is spent, and keeps the rules on shot-to-shot references in one place.
use vstd::prelude::*;
use crate::error::{StudioError, Violation};
use crate::json::{Json, Number};
use crate::order::{pair_leq, pair_views, sort_pairs, sort_strings, sorted_texts};
use crate::error::{violation_views, ViolationView};
use crate::text::{
    chars_of, dec_int, dec_nat, join, join_seq, push_i64, push_u64, str_eq, views_of,
};

verus! {

broadcast use vstd::string::group_string_axioms;

/// The medium of a reference or a guide.
#[derive(Debug, Clone, Copy, PartialEq, Eq, PartialOrd, Ord, Structural)]
pub enum Medium {
    Image,
    Video,
    Audio,
}

impl Medium {
    pub open spec fn name(self) -> Seq<char> {
        match self {
            Medium::Image => "image"@,
            Medium::Video => "video"@,
            Medium::Audio => "audio"@,
        }
    }

    pub fn as_str(self) -> (r: &'static str)
        ensures
            r@ == self.name(),
    {
        match self {
            Medium::Image => "image",
            Medium::Video => "video",
            Medium::Audio => "audio",
        }
    }
}

/// One reference of a shot.
#[derive(Debug, Clone, PartialEq, Eq)]
pub struct Reference {
    pub kind: Medium,
    /// An asset registered by `visual_assets`, or a segment of an earlier shot.
    pub asset_id: String,
    /// For a video reference only: it also takes the audio slot of the same number.
    pub with_audio: bool,
}

/// One guide of a shot: an asset anchored at one frame.
#[derive(Debug, Clone, PartialEq, Eq)]
pub struct Guide {
    pub kind: GuideKind,
    /// Negative numbers count from the end.
    pub at_frame: i64,
    pub asset_id: String,
}

#[derive(Debug, Clone, Copy, PartialEq, Eq, Structural)]
pub enum GuideKind {
    Image,
    Clip,
    Audio,
}

impl GuideKind {
    pub open spec fn name(self) -> Seq<char> {
        match self {
            GuideKind::Image => "image"@,
            GuideKind::Clip => "clip"@,
            GuideKind::Audio => "audio"@,
        }
    }

    pub fn as_str(self) -> (r: &'static str)
        ensures
            r@ == self.name(),
    {
        match self {
            GuideKind::Image => "image",
            GuideKind::Clip => "clip",
            GuideKind::Audio => "audio",
        }
    }
}

/// A shot as declared: what the agent wants, not how it is wired.
#[derive(Debug, PartialEq)]
pub struct ShotDeclaration {
    pub shot_id: String,
    /// The head of the fragment library, e.g. `reference` or `image`.
    pub head: String,
    pub positive: String,
    pub width: i64,
    pub height: i64,
    pub length_frames: i64,
    /// Frames per second, as the exact decimal that was written.
    pub fps: Number,
    pub seed: i64,
    pub references: Vec<Reference>,
    pub guides: Vec<Guide>,
    /// The named first and last frame slots of an image head.
    pub first_frame: Option<String>,
    pub last_frame: Option<String>,
}

/// A reference as plain values: kind, asset id, whether it carries audio.
pub type RefView = (Medium, Seq<char>, bool);

/// A guide as plain values: kind, frame, asset id.
pub type GuideView = (GuideKind, i64, Seq<char>);

/// A shot declaration as plain values.
#[verifier::ext_equal]
pub struct DeclView {
    pub shot_id: Seq<char>,
    pub head: Seq<char>,
    pub positive: Seq<char>,
    pub width: i64,
    pub height: i64,
    pub length_frames: i64,
    pub fps: Number,
    pub seed: i64,
    pub references: Seq<RefView>,
    pub guides: Seq<GuideView>,
    pub first_frame: Option<Seq<char>>,
    pub last_frame: Option<Seq<char>>,
}

impl View for Reference {
    type V = RefView;

    open spec fn view(&self) -> RefView {
        (self.kind, self.asset_id@, self.with_audio)
    }
}

impl View for Guide {
    type V = GuideView;

    open spec fn view(&self) -> GuideView {
        (self.kind, self.at_frame, self.asset_id@)
    }
}

pub open spec fn ref_views(s: Seq<Reference>) -> Seq<RefView> {
    s.map_values(|r: Reference| r@)
}

pub open spec fn guide_views(s: Seq<Guide>) -> Seq<GuideView> {
    s.map_values(|g: Guide| g@)
}

pub open spec fn opt_text(o: Option<String>) -> Option<Seq<char>> {
    match o {
        Some(s) => Some(s@),
        None => None,
    }
}

impl View for ShotDeclaration {
    type V = DeclView;

    open spec fn view(&self) -> DeclView {
        DeclView {
            shot_id: self.shot_id@,
            head: self.head@,
            positive: self.positive@,
            width: self.width,
            height: self.height,
            length_frames: self.length_frames,
            fps: self.fps,
            seed: self.seed,
            references: ref_views(self.references@),
            guides: guide_views(self.guides@),
            first_frame: opt_text(self.first_frame),
            last_frame: opt_text(self.last_frame),
        }
    }
}

/// An AUTOGROW slot of a head, as the node reports it.
#[derive(Debug, Clone, PartialEq, Eq)]
pub struct AutogrowSlot {
    /// Of the form `h3_ref.inputs.ref_images`.
    pub target: String,
    /// The key prefix; numbers start at 1, e.g. `ref_image_`.
    pub prefix: String,
    pub max: usize,
    /// Whether the slot has been seen to take effect on a real machine.
    pub verified: bool,
    /// Why it is not verified, for error messages.
    pub unverified_reason: Option<String>,
}

/// A fragment: part of a node graph plus what assembling it needs. Every
/// keyed list keeps its keys in the order of the file it was read from.
#[derive(Debug, PartialEq)]
pub struct Fragment {
    pub id: String,
    pub nodes: Vec<(String, Json)>,
    pub verified: bool,
    pub unavailable_reason: Option<String>,
    /// Parameter name to the `<node>.inputs.<field>` places it is written to.
    pub bindings: Vec<(String, Vec<String>)>,
    /// Heads: what the head overrides in the backbone.
    pub backbone_overrides: Vec<(String, Json)>,
    /// Heads: the output ports.
    pub outputs: Vec<(String, Json)>,
    /// Heads: the wires taken from the backbone.
    pub wires_from_backbone: Vec<(String, Json)>,
    /// Heads: the AUTOGROW slots, by medium.
    pub autogrow: Vec<(String, AutogrowSlot)>,
    /// Heads: the named first and last frame slots.
    pub frames: Vec<(String, String)>,
    /// Guides: the three places of the chain.
    pub chain: Vec<(String, Json)>,
    /// Guides and inputs: the input the medium goes into.
    pub media_input: Option<String>,
    /// Inputs: the output ports.
    pub input_outputs: Vec<(String, Json)>,
    /// Backbone: the places the assembler must fill.
    pub must_be_filled: Vec<String>,
}

impl Fragment {
    /// A fragment with nothing but its id and nodes, verified.
    pub fn new(id: String, nodes: Vec<(String, Json)>) -> (r: Fragment)
        ensures
            r.id == id,
            r.nodes == nodes,
            r.verified,
            r.unavailable_reason is None,
            r.bindings@.len() == 0,
            r.backbone_overrides@.len() == 0,
            r.outputs@.len() == 0,
            r.wires_from_backbone@.len() == 0,
            r.autogrow@.len() == 0,
            r.frames@.len() == 0,
            r.chain@.len() == 0,
            r.media_input is None,
            r.input_outputs@.len() == 0,
            r.must_be_filled@.len() == 0,
    {
        Fragment {
            id,
            nodes,
            verified: true,
            unavailable_reason: None,
            bindings: Vec::new(),
            backbone_overrides: Vec::new(),
            outputs: Vec::new(),
            wires_from_backbone: Vec::new(),
            autogrow: Vec::new(),
            frames: Vec::new(),
            chain: Vec::new(),
            media_input: None,
            input_outputs: Vec::new(),
            must_be_filled: Vec::new(),
        }
    }
}

/// The first value under `key` in a keyed list.
pub open spec fn find_key<V>(entries: Seq<(String, V)>, key: Seq<char>) -> Option<V>
    decreases entries.len(),
{
    if entries.len() == 0 {
        None
    } else if entries[0].0@ == key {
        Some(entries[0].1)
    } else {
        find_key(entries.drop_first(), key)
    }
}

pub open spec fn has_key<V>(entries: Seq<(String, V)>, key: Seq<char>) -> bool {
    find_key(entries, key) is Some
}

proof fn lemma_find_key_prefix<V>(entries: Seq<(String, V)>, key: Seq<char>, i: int)
    requires
        0 <= i <= entries.len(),
        forall|k: int| 0 <= k < i ==> (#[trigger] entries[k]).0@ != key,
    ensures
        find_key(entries, key) == find_key(entries.skip(i), key),
    decreases i,
{
    if i > 0 {
        assert forall|k: int| 0 <= k < i - 1 implies (#[trigger] entries.drop_first()[k]).0@ != key by {
            assert(entries.drop_first()[k] == entries[k + 1]);
        }
        lemma_find_key_prefix(entries.drop_first(), key, i - 1);
        assert(entries.drop_first().skip(i - 1) =~= entries.skip(i));
        assert(entries[0].0@ != key);
    } else {
        assert(entries.skip(0) =~= entries);
    }
}

/// Looks a key up in a keyed list.
pub fn get_key<'a, V>(entries: &'a Vec<(String, V)>, key: &str) -> (r: Option<&'a V>)
    ensures
        r matches Some(v) ==> find_key(entries@, key@) == Some(*v),
        r is None ==> find_key(entries@, key@) is None,
{
    let mut i: usize = 0;
    while i < entries.len()
        invariant
            i <= entries@.len(),
            forall|k: int| 0 <= k < i ==> (#[trigger] entries@[k]).0@ != key@,
        decreases entries.len() - i,
    {
        if str_eq(entries[i].0.as_str(), key) {
            proof {
                lemma_find_key_prefix(entries@, key@, i as int);
            }
            return Some(&entries[i].1);
        }
        i = i + 1;
    }
    proof {
        lemma_find_key_prefix(entries@, key@, i as int);
    }
    None
}

/// All the fragments of one model family.
#[derive(Debug, PartialEq)]
pub struct FragmentSet {
    pub backbone: Option<Fragment>,
    /// Head id to fragment.
    pub heads: Vec<(String, Fragment)>,
    /// Guide kind to fragment.
    pub guides: Vec<(String, Fragment)>,
    /// Input medium to fragment.
    pub inputs: Vec<(String, Fragment)>,
    /// Head id to the head's turbo overlay, for previews.
    pub overlays: Vec<(String, Fragment)>,
}

// ---------------------------------------------------------------------------
// The frame grid.

/// MiniMax H3 takes `17k + 5` frames, k >= 0: 5, 22, 39, 56, 73…
pub const FRAME_GRID_STEP: i64 = 17;

pub const FRAME_GRID_BASE: i64 = 5;

pub open spec fn on_frame_grid(frames: int) -> bool {
    frames >= FRAME_GRID_BASE && (frames - FRAME_GRID_BASE) % (FRAME_GRID_STEP as int) == 0
}

/// Whether a frame count is on the grid.
pub fn is_on_frame_grid(frames: i64) -> (r: bool)
    ensures
        r == on_frame_grid(frames as int),
{
    frames >= FRAME_GRID_BASE && (frames - FRAME_GRID_BASE) % FRAME_GRID_STEP == 0
}

/// The two legal values nearest a frame count: the largest grid value not
/// above it and the next one (the first two when it is below the grid).
pub open spec fn nearest_of(frames: int) -> (int, int) {
    if frames <= FRAME_GRID_BASE {
        (FRAME_GRID_BASE as int, FRAME_GRID_BASE + FRAME_GRID_STEP)
    } else {
        let lo = FRAME_GRID_BASE + ((frames - FRAME_GRID_BASE) / (FRAME_GRID_STEP as int))
            * FRAME_GRID_STEP;
        (lo, lo + FRAME_GRID_STEP)
    }
}

/// The nearest legal values fit an `i64`.
pub open spec fn grid_fits(frames: int) -> bool {
    nearest_of(frames).1 <= i64::MAX
}

fn nearest_grid(frames: i64) -> (r: (i64, i64))
    requires
        grid_fits(frames as int),
    ensures
        r.0 == nearest_of(frames as int).0,
        r.1 == nearest_of(frames as int).1,
{
    if frames <= FRAME_GRID_BASE {
        return (FRAME_GRID_BASE, FRAME_GRID_BASE + FRAME_GRID_STEP);
    }
    let k = (frames - FRAME_GRID_BASE) / FRAME_GRID_STEP;
    assert(0 <= k * FRAME_GRID_STEP <= frames - FRAME_GRID_BASE) by (nonlinear_arith)
        requires
            k == (frames - FRAME_GRID_BASE) / (FRAME_GRID_STEP as int),
            frames > FRAME_GRID_BASE,
    ;
    let lo = FRAME_GRID_BASE + k * FRAME_GRID_STEP;
    (lo, lo + FRAME_GRID_STEP)
}

/// The nearest legal values bracket a count above the grid's base, and are on the grid.
pub proof fn lemma_nearest_grid_brackets(frames: int)
    ensures
        on_frame_grid(nearest_of(frames).0),
        on_frame_grid(nearest_of(frames).1),
        nearest_of(frames).1 == nearest_of(frames).0 + FRAME_GRID_STEP,
        frames >= FRAME_GRID_BASE ==> nearest_of(frames).0 <= frames < nearest_of(frames).1,
        on_frame_grid(frames) ==> nearest_of(frames).0 == frames,
{
    if frames > FRAME_GRID_BASE {
        let k = (frames - 5) / 17;
        assert(0 <= k);
        assert((5 + k * 17 - 5) % 17 == 0) by (nonlinear_arith)
            requires
                k >= 0,
        ;
        assert((5 + k * 17 + 17 - 5) % 17 == 0) by (nonlinear_arith)
            requires
                k >= 0,
        ;
        assert(k * 17 <= frames - 5 < k * 17 + 17) by (nonlinear_arith)
            requires
                k == (frames - 5) / 17,
                frames > 5,
        ;
        if on_frame_grid(frames) {
            assert(k * 17 == frames - 5) by (nonlinear_arith)
                requires
                    k == (frames - 5) / 17,
                    (frames - 5) % 17 == 0,
            ;
        }
    }
}

// ---------------------------------------------------------------------------
// References to a segment of an earlier shot.

/// `sh01.tail` / `sh01.tail22` / `sh01.head` taken apart.
#[derive(Debug, Clone, PartialEq, Eq)]
pub struct ShotSegment<'a> {
    pub shot_id: &'a str,
    /// The tail of the shot, or else its head.
    pub from_tail: bool,
    /// With a frame count it is a clip; without one, a still frame.
    pub frames: Option<u32>,
}

pub open spec fn is_ascii_digit(c: char) -> bool {
    '0' <= c <= '9'
}

/// The code of a character lowercased in ASCII.
pub open spec fn lower_code(c: char) -> u32 {
    if 'A' <= c <= 'Z' {
        ((c as u32) + 32) as u32
    } else {
        c as u32
    }
}

/// The position of the first `.`, if there is one.
pub open spec fn first_dot(s: Seq<char>) -> Option<int> {
    if exists|i: int| 0 <= i < s.len() && s[i] == '.' {
        Some(choose|i: int| 0 <= i < s.len() && s[i] == '.' && forall|k: int| 0 <= k < i ==> s[k] != '.')
    } else {
        None
    }
}

/// The length of the leading run of characters that are not ASCII digits.
pub open spec fn word_len(s: Seq<char>) -> nat
    decreases s.len(),
{
    if s.len() > 0 && !is_ascii_digit(s[0]) {
        1 + word_len(s.drop_first())
    } else {
        0
    }
}

/// The value of a run of ASCII digits.
pub open spec fn digits_value(d: Seq<char>) -> nat
    decreases d.len(),
{
    if d.len() == 0 {
        0
    } else {
        digits_value(d.drop_last()) * 10 + ((d.last() as u32) - ('0' as u32)) as nat
    }
}

/// What `str::parse::<u32>` gives for a string that starts with a digit.
pub open spec fn parse_u32(d: Seq<char>) -> Option<u32> {
    if d.len() > 0 && (forall|k: int| 0 <= k < d.len() ==> is_ascii_digit(#[trigger] d[k]))
        && digits_value(d) <= u32::MAX {
        Some(digits_value(d) as u32)
    } else {
        None
    }
}

/// Whether `w` lowercased in ASCII is `lower` (itself written in lowercase).
pub open spec fn lowers_to(w: Seq<char>, lower: Seq<char>) -> bool {
    w.len() == lower.len() && forall|k: int| 0 <= k < w.len() ==> lower_code(#[trigger] w[k]) == lower[k] as u32
}

/// A reference taken apart as a segment of an earlier shot: the shot id, the
/// end it is taken from, and the frame count it carries.
pub open spec fn segment_of(a: Seq<char>) -> Option<(Seq<char>, bool, Option<u32>)> {
    match first_dot(a) {
        Some(d) => {
            let seg = a.subrange(d + 1, a.len() as int);
            let w = word_len(seg) as int;
            let word = seg.subrange(0, w);
            let digits = seg.subrange(w, seg.len() as int);
            if lowers_to(word, "tail"@) {
                Some((a.subrange(0, d), true, parse_u32(digits)))
            } else if lowers_to(word, "head"@) {
                Some((a.subrange(0, d), false, parse_u32(digits)))
            } else {
                None
            }
        },
        None => None,
    }
}

pub(crate) fn first_dot_exec(c: &Vec<char>) -> (r: Option<usize>)
    ensures
        r matches Some(i) ==> first_dot(c@) == Some(i as int) && i < c.len(),
        r is None ==> first_dot(c@) is None,
{
    let mut i: usize = 0;
    while i < c.len()
        invariant
            i <= c@.len(),
            forall|k: int| 0 <= k < i ==> c@[k] != '.',
        decreases c.len() - i,
    {
        if c[i] == '.' {
            proof {
                let w = choose|j: int|
                    0 <= j < c@.len() && c@[j] == '.' && forall|k: int| 0 <= k < j ==> c@[k] != '.';
                assert(0 <= i < c@.len() && c@[i as int] == '.' && forall|k: int|
                    0 <= k < i ==> c@[k] != '.');
                if w < i {
                    assert(c@[w] != '.');
                } else if w > i {
                    assert(c@[i as int] != '.');
                }
            }
            return Some(i);
        }
        i = i + 1;
    }
    None
}

proof fn lemma_word_len(s: Seq<char>)
    ensures
        word_len(s) <= s.len(),
        forall|k: int| 0 <= k < word_len(s) ==> !is_ascii_digit(#[trigger] s[k]),
        word_len(s) < s.len() ==> is_ascii_digit(s[word_len(s) as int]),
    decreases s.len(),
{
    if s.len() > 0 && !is_ascii_digit(s[0]) {
        lemma_word_len(s.drop_first());
        assert forall|k: int| 0 <= k < word_len(s) implies !is_ascii_digit(#[trigger] s[k]) by {
            if k > 0 {
                assert(s[k] == s.drop_first()[k - 1]);
            }
        }
    }
}

fn word_len_exec(c: &Vec<char>, from: usize) -> (r: usize)
    requires
        from <= c@.len(),
    ensures
        r == word_len(c@.subrange(from as int, c@.len() as int)),
{
    let ghost s = c@.subrange(from as int, c@.len() as int);
    let mut k: usize = 0;
    while k < c.len() - from && !(c[from + k] >= '0' && c[from + k] <= '9')
        invariant
            from <= c@.len(),
            s == c@.subrange(from as int, c@.len() as int),
            from + k <= c@.len(),
            forall|m: int| 0 <= m < k ==> !is_ascii_digit(#[trigger] s[m]),
        decreases c.len() - from - k,
    {
        k = k + 1;
    }
    proof {
        lemma_word_len(s);
        let l = word_len(s) as int;
        if (k as int) < l {
            assert(!is_ascii_digit(s[k as int]));
        } else if (k as int) > l {
            assert(!is_ascii_digit(s[l]));
        }
    }
    k
}

fn parse_u32_exec(c: &Vec<char>, from: usize) -> (r: Option<u32>)
    requires
        from <= c@.len(),
    ensures
        r == parse_u32(c@.subrange(from as int, c@.len() as int)),
{
    let ghost d = c@.subrange(from as int, c@.len() as int);
    if from == c.len() {
        return None;
    }
    let mut v: u64 = 0;
    let mut k: usize = from;
    while k < c.len()
        invariant
            from < c@.len(),
            d == c@.subrange(from as int, c@.len() as int),
            from <= k <= c@.len(),
            forall|m: int| 0 <= m < k - from ==> is_ascii_digit(#[trigger] d[m]),
            v == digits_value(d.subrange(0, k - from)),
            v <= u32::MAX,
        decreases c.len() - k,
    {
        let ch = c[k];
        if !(ch >= '0' && ch <= '9') {
            assert(!is_ascii_digit(d[k - from]));
            return None;
        }
        let digit = (ch as u32 - '0' as u32) as u64;
        assert(d.subrange(0, k + 1 - from).drop_last() =~= d.subrange(0, k - from));
        assert(d.subrange(0, k + 1 - from).last() == ch);
        let nv = v * 10 + digit;
        k = k + 1;
        if nv > 0xffff_ffff {
            proof {
                if forall|m: int| 0 <= m < d.len() ==> is_ascii_digit(#[trigger] d[m]) {
                    lemma_digits_value_grows(d, k - from);
                }
            }
            return None;
        }
        v = nv;
    }
    assert(d.subrange(0, d.len() as int) =~= d);
    Some(v as u32)
}

proof fn lemma_digits_value_grows(d: Seq<char>, n: int)
    requires
        0 < n <= d.len(),
        forall|m: int| 0 <= m < d.len() ==> is_ascii_digit(#[trigger] d[m]),
    ensures
        digits_value(d) >= digits_value(d.subrange(0, n)),
    decreases d.len() - n,
{
    if n < d.len() {
        lemma_digits_value_grows(d, n + 1);
        assert(d.subrange(0, n + 1).drop_last() =~= d.subrange(0, n));
    } else {
        assert(d.subrange(0, n) =~= d);
    }
}

fn lower_matches(c: &Vec<char>, from: usize, to: usize, word: &str) -> (r: bool)
    requires
        from <= to <= c@.len(),
    ensures
        r == lowers_to(c@.subrange(from as int, to as int), word@),
{
    let w = chars_of(word);
    let ghost s = c@.subrange(from as int, to as int);
    if to - from != w.len() {
        return false;
    }
    let mut k: usize = 0;
    while k < w.len()
        invariant
            from <= to <= c@.len(),
            to - from == w@.len(),
            s == c@.subrange(from as int, to as int),
            w@ == word@,
            k <= w@.len(),
            forall|m: int| 0 <= m < k ==> lower_code(#[trigger] s[m]) == w@[m] as u32,
        decreases w.len() - k,
    {
        let ch = c[from + k];
        assert(s[k as int] == ch);
        let u = ch as u32;
        let lower: u32 = if ch >= 'A' && ch <= 'Z' {
            u + 32
        } else {
            u
        };
        if lower != w[k] as u32 {
            return false;
        }
        k = k + 1;
    }
    true
}

/// Whether a reference is a segment of an earlier shot, and which.
pub fn parse_shot_segment(asset_id: &str) -> (r: Option<ShotSegment<'_>>)
    ensures
        r matches Some(seg) ==> segment_of(asset_id@) == Some(
            (seg.shot_id@, seg.from_tail, seg.frames),
        ),
        r is None ==> segment_of(asset_id@) is None,
{
    let c = chars_of(asset_id);
    let d = match first_dot_exec(&c) {
        Some(d) => d,
        None => return None,
    };
    let ghost seg = asset_id@.subrange(d + 1, asset_id@.len() as int);
    assert(c@.subrange(d + 1, c@.len() as int) =~= seg);
    let w = word_len_exec(&c, d + 1);
    proof {
        lemma_word_len(seg);
        assert(c@.subrange(d + 1, d + 1 + w) =~= seg.subrange(0, w as int));
        assert(c@.subrange(d + 1 + w, c@.len() as int) =~= seg.subrange(w as int, seg.len() as int));
    }
    let from_tail = if lower_matches(&c, d + 1, d + 1 + w, "tail") {
        true
    } else if lower_matches(&c, d + 1, d + 1 + w, "head") {
        false
    } else {
        return None;
    };
    let frames = parse_u32_exec(&c, d + 1 + w);
    Some(ShotSegment { shot_id: asset_id.substring_char(0, d), from_tail, frames })
}

// ---------------------------------------------------------------------------
// Graph paths.

/// `<node>.inputs.<field>` taken apart. The field may itself hold dots.
pub open spec fn target_parts(path: Seq<char>) -> Option<(Seq<char>, Seq<char>)> {
    match first_dot(path) {
        Some(d1) => {
            let rest = path.subrange(d1 + 1, path.len() as int);
            match first_dot(rest) {
                Some(d2) => {
                    let node = path.subrange(0, d1);
                    let middle = rest.subrange(0, d2);
                    let field = rest.subrange(d2 + 1, rest.len() as int);
                    if middle == "inputs"@ && node.len() > 0 && field.len() > 0 {
                        Some((node, field))
                    } else {
                        None
                    }
                },
                None => None,
            }
        },
        None => None,
    }
}

/// Splits `<node>.inputs.<field>` into the node and the field.
pub fn split_target(path: &str) -> (r: Result<(String, String), StudioError>)
    ensures
        r matches Ok(p) ==> target_parts(path@) == Some((p.0@, p.1@)),
        r matches Err(e) ==> target_parts(path@) is None && e is ModelContractViolation
            && e->ModelContractViolation_detail@ == "路径 "@ + path@
            + " 应当形如 <节点id>.inputs.<输入名>"@,
{
    let c = chars_of(path);
    let fail = || -> (e: StudioError)
        ensures
            e is ModelContractViolation,
            e->ModelContractViolation_detail@ == "路径 "@ + path@
                + " 应当形如 <节点id>.inputs.<输入名>"@,
        {
            let mut d = String::from_str("路径 ");
            d.append(path);
            d.append(" 应当形如 <节点id>.inputs.<输入名>");
            StudioError::ModelContractViolation { detail: d }
        };
    let d1 = match first_dot_exec(&c) {
        Some(d) => d,
        None => return Err(fail()),
    };
    let rest = path.substring_char(d1 + 1, c.len());
    let rc = chars_of(rest);
    let d2 = match first_dot_exec(&rc) {
        Some(d) => d,
        None => return Err(fail()),
    };
    let middle = rest.substring_char(0, d2);
    let node = path.substring_char(0, d1);
    let field = rest.substring_char(d2 + 1, rc.len());
    if str_eq(middle, "inputs") && node.unicode_len() > 0 && field.unicode_len() > 0 {
        Ok((String::from_str(node), String::from_str(field)))
    } else {
        Err(fail())
    }
}

// ---------------------------------------------------------------------------
// The fragment library at a glance.

/// The ids of the verified heads among the first `n`, in list order.
pub open spec fn verified_ids(heads: Seq<(String, Fragment)>, n: int) -> Seq<Seq<char>>
    decreases n,
{
    if n <= 0 || n > heads.len() {
        Seq::empty()
    } else {
        let rest = verified_ids(heads, n - 1);
        if heads[n - 1].1.verified {
            rest.push(heads[n - 1].1.id@)
        } else {
            rest
        }
    }
}

/// The heads with named frame slots, as (key, id), among the first `n`.
pub open spec fn frame_heads_of(heads: Seq<(String, Fragment)>, n: int) -> Seq<
    (Seq<char>, Seq<char>),
>
    decreases n,
{
    if n <= 0 || n > heads.len() {
        Seq::empty()
    } else {
        let rest = frame_heads_of(heads, n - 1);
        let f = heads[n - 1].1;
        if f.verified && f.frames@.len() > 0 {
            rest.push((heads[n - 1].0@, f.id@))
        } else {
            rest
        }
    }
}

/// The verified head ids, sorted.
pub open spec fn verified_heads_of(set: FragmentSet) -> Seq<Seq<char>> {
    sorted_texts(verified_ids(set.heads@, set.heads@.len() as int))
}

/// The heads with frame slots, in key order, for messages.
pub open spec fn frames_heads_text(set: FragmentSet) -> Seq<char> {
    let ids = frame_heads_of(set.heads@, set.heads@.len() as int).sort_by(pair_leq()).map_values(
        |p: (Seq<char>, Seq<char>)| p.1,
    );
    if ids.len() == 0 {
        "这台机器上没有"@
    } else {
        join_seq(ids, "、"@)
    }
}

impl FragmentSet {
    /// The ids of the verified heads, sorted.
    pub fn verified_heads(&self) -> (r: Vec<String>)
        ensures
            views_of(r@) == verified_heads_of(*self),
    {
        let mut v: Vec<String> = Vec::new();
        let mut i: usize = 0;
        while i < self.heads.len()
            invariant
                i <= self.heads@.len(),
                views_of(v@) == verified_ids(self.heads@, i as int),
            decreases self.heads.len() - i,
        {
            let ghost prev = views_of(v@);
            if self.heads[i].1.verified {
                v.push(self.heads[i].1.id.clone());
                assert(views_of(v@) =~= prev.push(self.heads@[i as int].1.id@));
            }
            i = i + 1;
        }
        sort_strings(v)
    }
}

fn frames_heads(set: &FragmentSet) -> (r: String)
    ensures
        r@ == frames_heads_text(*set),
{
    let mut v: Vec<(String, String)> = Vec::new();
    let mut i: usize = 0;
    while i < set.heads.len()
        invariant
            i <= set.heads@.len(),
            pair_views(v@) == frame_heads_of(set.heads@, i as int),
        decreases set.heads.len() - i,
    {
        let ghost prev = pair_views(v@);
        let f = &set.heads[i].1;
        if f.verified && f.frames.len() > 0 {
            v.push((set.heads[i].0.clone(), f.id.clone()));
            assert(pair_views(v@) =~= prev.push((set.heads@[i as int].0@, f.id@)));
        }
        i = i + 1;
    }
    let sorted = sort_pairs(v);
    let mut ids: Vec<String> = Vec::new();
    let mut m: usize = 0;
    while m < sorted.len()
        invariant
            m <= sorted@.len(),
            views_of(ids@) == pair_views(sorted@).subrange(0, m as int).map_values(
                |p: (Seq<char>, Seq<char>)| p.1,
            ),
        decreases sorted.len() - m,
    {
        let ghost prev = views_of(ids@);
        ids.push(sorted[m].1.clone());
        assert(views_of(ids@) =~= prev.push(pair_views(sorted@)[m as int].1));
        assert(pair_views(sorted@).subrange(0, m + 1) =~= pair_views(sorted@).subrange(0, m as int).push(
            pair_views(sorted@)[m as int],
        ));
        m = m + 1;
    }
    assert(pair_views(sorted@).subrange(0, sorted@.len() as int) =~= pair_views(sorted@));
    if ids.len() == 0 {
        String::from_str("这台机器上没有")
    } else {
        join(&ids, "、")
    }
}

// ---------------------------------------------------------------------------
// Checking a declaration at submission time.

/// `prompt_pack.shots[index].field`.
pub open spec fn shot_path(index: int, field: Seq<char>) -> Seq<char> {
    "prompt_pack.shots["@ + dec_nat(index as nat) + "]."@ + field
}

/// The first eight items, and how many there are when there are more.
pub open spec fn preview_text(items: Seq<Seq<char>>) -> Seq<char> {
    if items.len() <= 8 {
        join_seq(items, "、"@)
    } else {
        join_seq(items.subrange(0, 8), "、"@) + "… 等 "@ + dec_nat(items.len()) + " 个"@
    }
}

/// What a reference to an asset violates: a segment of a shot that is not
/// earlier (V9), or an asset that `visual_assets` did not register (V7,
/// skipped while that list is empty).
pub open spec fn asset_violations(
    asset: Seq<char>,
    path: Seq<char>,
    known: Seq<Seq<char>>,
    prior: Seq<Seq<char>>,
) -> Seq<ViolationView> {
    match segment_of(asset) {
        Some(seg) => if prior.contains(seg.0) {
            Seq::empty()
        } else {
            seq![
                (
                    path,
                    "「"@ + asset + "」指的是 "@ + seg.0 + " 的片段，而 "@ + seg.0
                        + " 不排在这一镜前面——它还没渲出来，接不上。镜间引用只能指向本包里更靠前的镜头。"@,
                ),
            ]
        },
        None => if known.len() == 0 || known.contains(asset) {
            Seq::empty()
        } else {
            seq![
                (
                    path,
                    "visual_assets 里没有「"@ + asset + "」。可用的："@ + preview_text(known)
                        + "。要接上一镜就写 <上一镜的 shot_id>.tail"@,
                ),
            ]
        },
    }
}

pub open spec fn reason_text(r: Option<String>) -> Seq<char> {
    match r {
        Some(s) => s@,
        None => "原因未记录"@,
    }
}

/// How many of the first `n` references are of `kind`.
pub open spec fn kind_count(refs: Seq<RefView>, n: int, kind: Medium) -> nat
    decreases n,
{
    if n <= 0 || n > refs.len() {
        0
    } else {
        kind_count(refs, n - 1, kind) + if refs[n - 1].0 == kind {
            1nat
        } else {
            0nat
        }
    }
}

/// V1, V6, V7 and V9 for reference `i`.
pub open spec fn reference_rules(
    head: Fragment,
    refs: Seq<RefView>,
    i: int,
    index: int,
    known: Seq<Seq<char>>,
    prior: Seq<Seq<char>>,
) -> Seq<ViolationView> {
    let r = refs[i];
    let kind = r.0.name();
    let n = kind_count(refs, i + 1, r.0);
    let ri = "references["@ + dec_nat(i as nat) + "]"@;
    (match find_key(head.autogrow@, kind) {
        Some(slot) => if !slot.verified {
            seq![
                (
                    shot_path(index, ri + ".kind"@),
                    "head「"@ + head.id@ + "」的 "@ + kind + " 类参考槽位尚未核验（"@ + reason_text(
                        slot.unverified_reason,
                    ) + "），现在选不了。"@,
                ),
            ]
        } else if n > slot.max {
            seq![
                (
                    shot_path(index, ri),
                    kind + " 类参考最多 "@ + dec_nat(slot.max as nat) + " 个，这是第 "@ + dec_nat(n)
                        + " 个。"@,
                ),
            ]
        } else {
            Seq::empty()
        },
        None => if head.autogrow@.len() > 0 {
            seq![
                (
                    shot_path(index, ri + ".kind"@),
                    "head「"@ + head.id@ + "」没有 "@ + kind + " 类参考的槽位。"@,
                ),
            ]
        } else {
            Seq::empty()
        },
    }) + (if r.2 && r.0 != Medium::Video {
        seq![
            (
                shot_path(index, ri + ".with_audio"@),
                "只有 video 类参考能带音轨——它占用同号的 ref_video_audio 槽位。"@,
            ),
        ]
    } else {
        Seq::empty()
    }) + asset_violations(r.1, shot_path(index, ri + ".asset_id"@), known, prior)
}

pub open spec fn references_rules(
    head: Fragment,
    refs: Seq<RefView>,
    index: int,
    known: Seq<Seq<char>>,
    prior: Seq<Seq<char>>,
    n: int,
) -> Seq<ViolationView>
    decreases n,
{
    if n <= 0 || n > refs.len() {
        Seq::empty()
    } else {
        references_rules(head, refs, index, known, prior, n - 1) + reference_rules(
            head,
            refs,
            n - 1,
            index,
            known,
            prior,
        )
    }
}

/// V5: a clip anchor is on the grid and shorter than the shot.
pub open spec fn anchor_rules(asset: Seq<char>, length: int, path: Seq<char>) -> Seq<
    ViolationView,
> {
    match segment_of(asset) {
        Some(seg) => match seg.2 {
            Some(n) => (if !on_frame_grid(n as int) {
                let (lo, hi) = nearest_of(n as int);
                seq![
                    (
                        path,
                        "锚点长度 "@ + dec_nat(n as nat) + " 帧不在网格上（17k+5：5 / 22 / 39 / 56…）。最近的合法值是 "@
                            + dec_int(lo) + " 或 "@ + dec_int(hi) + "，写成 "@ + seg.0 + ".tail"@
                            + dec_int(lo) + " 这样。"@,
                    ),
                ]
            } else {
                Seq::empty()
            }) + (if n >= length {
                seq![
                    (
                        path,
                        "锚点 "@ + dec_nat(n as nat) + " 帧不比这一镜的 "@ + dec_int(length)
                            + " 帧短——等长的锚点会把整镜钉死，模型只会把它复现出来，提示词一个字都不生效。接续要的是**开头几帧**跟住上一镜，取短一点（比如 "@
                            + seg.0 + ".tail5）。"@,
                    ),
                ]
            } else {
                Seq::empty()
            }),
            None => Seq::empty(),
        },
        None => Seq::empty(),
    }
}

/// V3, V2, V7, V9 and V5 for guide `j`.
pub open spec fn guide_rules(
    head: Fragment,
    g: GuideView,
    j: int,
    length: int,
    frames_only: bool,
    index: int,
    known: Seq<Seq<char>>,
    prior: Seq<Seq<char>>,
) -> Seq<ViolationView> {
    let gj = "guides["@ + dec_nat(j as nat) + "]"@;
    (if !(g.1 >= -length && g.1 < length) {
        seq![
            (
                shot_path(index, gj + ".at_frame"@),
                dec_int(g.1 as int) + " 超出这一镜的帧范围。合法区间是 [-"@ + dec_int(length) + ", "@
                    + dec_int(length) + ")，负数从末尾倒数。"@,
            ),
        ]
    } else {
        Seq::empty()
    }) + (if frames_only && !(g.1 == 0 || g.1 == -1) {
        seq![
            (
                shot_path(index, gj + ".at_frame"@),
                "head「"@ + head.id@ + "」只能锚首帧（0）或尾帧（-1），锚不了第 "@ + dec_int(
                    g.1 as int,
                ) + " 帧。要在任意帧锚定就换成有 AddGuide 支持的 head。"@,
            ),
        ]
    } else {
        Seq::empty()
    }) + asset_violations(g.2, shot_path(index, gj + ".asset_id"@), known, prior)
        + anchor_rules(g.2, length, shot_path(index, gj + ".asset_id"@))
}

pub open spec fn guides_rules(
    head: Fragment,
    guides: Seq<GuideView>,
    length: int,
    frames_only: bool,
    index: int,
    known: Seq<Seq<char>>,
    prior: Seq<Seq<char>>,
    n: int,
) -> Seq<ViolationView>
    decreases n,
{
    if n <= 0 || n > guides.len() {
        Seq::empty()
    } else {
        guides_rules(head, guides, length, frames_only, index, known, prior, n - 1) + guide_rules(
            head,
            guides[n - 1],
            n - 1,
            length,
            frames_only,
            index,
            known,
            prior,
        )
    }
}

/// V2 on a named frame slot (`first` or `last`), then V7 and V9 on its asset.
pub open spec fn frame_slot_rules(
    set: FragmentSet,
    head: Fragment,
    field: Seq<char>,
    slot: Seq<char>,
    asset: Option<Seq<char>>,
    index: int,
    known: Seq<Seq<char>>,
    prior: Seq<Seq<char>>,
) -> Seq<ViolationView> {
    match asset {
        Some(a) => if !has_key(head.frames@, slot) {
            seq![
                (
                    shot_path(index, field),
                    "head「"@ + head.id@ + "」没有 "@ + slot + " 帧槽位，"@ + field
                        + " 写了不会有任何效果。要给首尾帧就换成有帧槽位的 head（"@
                        + frames_heads_text(set) + "）。"@,
                ),
            ]
        } else {
            asset_violations(a, shot_path(index, field), known, prior)
        },
        None => Seq::empty(),
    }
}

/// V4 and V8 on the frame count and the canvas, and V1 on a head without slots.
pub open spec fn shape_rules(head: Fragment, shot: DeclView, index: int) -> Seq<ViolationView> {
    let len = shot.length_frames as int;
    let grid = if !on_frame_grid(len) {
        let (lo, hi) = nearest_of(len);
        seq![
            (
                shot_path(index, "length_frames"@),
                dec_int(len) + " 不在 MiniMax H3 的帧数网格上（17k+5：5 / 22 / 39 / 56 / 73…）。最近的合法值是 "@
                    + dec_int(lo) + " 或 "@ + dec_int(hi)
                    + "。写别的值模型会自己 snap，于是成片时长跟这里声明的对不上，而 post 拼接按声明算。"@,
            ),
        ]
    } else {
        Seq::empty()
    };
    let w = if shot.width % 32 != 0 {
        seq![
            (
                shot_path(index, "width"@),
                dec_int(shot.width as int) + " 不是 32 的倍数。ComfyUI 会四舍五入，实际出图尺寸跟这里对不上。"@,
            ),
        ]
    } else {
        Seq::empty()
    };
    let h = if shot.height % 32 != 0 {
        seq![
            (
                shot_path(index, "height"@),
                dec_int(shot.height as int) + " 不是 32 的倍数。ComfyUI 会四舍五入，实际出图尺寸跟这里对不上。"@,
            ),
        ]
    } else {
        Seq::empty()
    };
    let short = if shot.width < shot.height {
        shot.width as int
    } else {
        shot.height as int
    };
    let edge = if short > 768 {
        seq![
            (
                shot_path(index, "width"@),
                "短边 "@ + dec_int(short) + " 超过 MiniMax H3 的原生画布 768。超出部分不会带来细节，只是更慢；要更高分辨率走 post 的超分。"@,
            ),
        ]
    } else {
        Seq::empty()
    };
    let no_slots = if head.autogrow@.len() == 0 && shot.references.len() > 0 {
        seq![
            (
                shot_path(index, "references"@),
                "head「"@ + head.id@ + "」不接参考（它没有 AUTOGROW 槽位）。要挂参考就换成有槽位的 head。"@,
            ),
        ]
    } else {
        Seq::empty()
    };
    grid + w + h + edge + no_slots
}

/// Every violation of a shot declaration, V1 to V9, in the order they are checked.
pub open spec fn shot_violations(
    set: FragmentSet,
    shot: DeclView,
    known: Seq<Seq<char>>,
    prior: Seq<Seq<char>>,
    index: int,
) -> Seq<ViolationView> {
    match find_key(set.heads@, shot.head) {
        None => seq![
            (
                shot_path(index, "head"@),
                "没有这个 head。可用的："@ + join_seq(verified_heads_of(set), "、"@),
            ),
        ],
        Some(head) => {
            let len = shot.length_frames as int;
            let frames_only = head.autogrow@.len() == 0 && head.frames@.len() > 0;
            let too_many_guides = if frames_only && shot.guides.len() > 2 {
                seq![
                    (
                        shot_path(index, "guides"@),
                        "head「"@ + head.id@ + "」只有首尾两个帧槽位，挂不了 "@ + dec_nat(
                            shot.guides.len(),
                        ) + " 个 guide。"@,
                    ),
                ]
            } else {
                Seq::empty()
            };
            shape_rules(head, shot, index) + references_rules(
                head,
                shot.references,
                index,
                known,
                prior,
                shot.references.len() as int,
            ) + too_many_guides + guides_rules(
                head,
                shot.guides,
                len,
                frames_only,
                index,
                known,
                prior,
                shot.guides.len() as int,
            ) + frame_slot_rules(
                set,
                head,
                "first_frame"@,
                "first"@,
                shot.first_frame,
                index,
                known,
                prior,
            ) + frame_slot_rules(
                set,
                head,
                "last_frame"@,
                "last"@,
                shot.last_frame,
                index,
                known,
                prior,
            )
        },
    }
}

/// The inputs on which checking a declaration stays within `i64`: the
/// nearest grid values of its frame count fit, and with guides its frame
/// count can be negated.
pub open spec fn shot_in_range(set: FragmentSet, shot: DeclView) -> bool {
    find_key(set.heads@, shot.head) is Some ==> {
        &&& (!on_frame_grid(shot.length_frames as int) ==> grid_fits(shot.length_frames as int))
        &&& (shot.guides.len() > 0 ==> shot.length_frames > i64::MIN)
    }
}

fn shot_path_exec(index: usize, field: &str) -> (r: String)
    ensures
        r@ == shot_path(index as int, field@),
{
    let mut s = String::from_str("prompt_pack.shots[");
    push_u64(&mut s, index as u64);
    s.append("].");
    s.append(field);
    s
}

fn indexed(head: &str, i: usize, tail: &str) -> (r: String)
    ensures
        r@ == head@ + dec_nat(i as nat) + "]"@ + tail@,
{
    let mut s = String::from_str(head);
    push_u64(&mut s, i as u64);
    s.append("]");
    s.append(tail);
    s
}

fn join_strings(items: &[String], n: usize) -> (r: String)
    requires
        n <= items@.len(),
    ensures
        r@ == join_seq(views_of(items@).subrange(0, n as int), "、"@),
{
    let mut v: Vec<String> = Vec::new();
    let mut i: usize = 0;
    while i < n
        invariant
            n <= items@.len(),
            i <= n,
            views_of(v@) == views_of(items@).subrange(0, i as int),
        decreases n - i,
    {
        let ghost prev = views_of(v@);
        v.push(items[i].clone());
        assert(views_of(v@) =~= prev.push(items@[i as int]@));
        i = i + 1;
        assert(views_of(v@) =~= views_of(items@).subrange(0, i as int));
    }
    join(&v, "、")
}

/// The first eight items joined, and how many there are when there are more.
fn preview_list(items: &[String]) -> (r: String)
    ensures
        r@ == preview_text(views_of(items@)),
{
    if items.len() <= 8 {
        let r = join_strings(items, items.len());
        assert(views_of(items@).subrange(0, items@.len() as int) =~= views_of(items@));
        r
    } else {
        let mut s = join_strings(items, 8);
        s.append("… 等 ");
        push_u64(&mut s, items.len() as u64);
        s.append(" 个");
        s
    }
}

fn contains_string(list: &[String], x: &str) -> (r: bool)
    ensures
        r == views_of(list@).contains(x@),
{
    let mut i: usize = 0;
    while i < list.len()
        invariant
            i <= list@.len(),
            forall|k: int| 0 <= k < i ==> (#[trigger] list@[k])@ != x@,
        decreases list.len() - i,
    {
        if str_eq(list[i].as_str(), x) {
            assert(views_of(list@)[i as int] == x@);
            return true;
        }
        i = i + 1;
    }
    assert forall|k: int| 0 <= k < views_of(list@).len() implies views_of(list@)[k] != x@ by {
        assert(views_of(list@)[k] == list@[k]@);
    }
    false
}

fn push_violation(out: &mut Vec<Violation>, path: String, message: String)
    ensures
        violation_views(final(out)@) == violation_views(old(out)@).push((path@, message@)),
{
    out.push(Violation::new(path, message));
    assert(violation_views(out@) =~= violation_views(old(out)@).push((path@, message@)));
}

fn check_asset(
    asset: &str,
    path: String,
    known: &[String],
    prior: &[String],
    out: &mut Vec<Violation>,
)
    ensures
        violation_views(final(out)@) == violation_views(old(out)@) + asset_violations(
            asset@,
            path@,
            views_of(known@),
            views_of(prior@),
        ),
{
    let ghost start = violation_views(out@);
    match parse_shot_segment(asset) {
        Some(seg) => {
            if !contains_string(prior, seg.shot_id) {
                let mut msg = String::from_str("「");
                msg.append(asset);
                msg.append("」指的是 ");
                msg.append(seg.shot_id);
                msg.append(" 的片段，而 ");
                msg.append(seg.shot_id);
                msg.append(
                    " 不排在这一镜前面——它还没渲出来，接不上。镜间引用只能指向本包里更靠前的镜头。",
                );
                push_violation(out, path, msg);
            }
        },
        None => {
            if known.len() > 0 && !contains_string(known, asset) {
                let mut msg = String::from_str("visual_assets 里没有「");
                msg.append(asset);
                msg.append("」。可用的：");
                let list = preview_list(known);
                msg.append(list.as_str());
                msg.append("。要接上一镜就写 <上一镜的 shot_id>.tail");
                push_violation(out, path, msg);
            }
        },
    }
    assert(violation_views(out@) =~= start + asset_violations(
        asset@,
        path@,
        views_of(known@),
        views_of(prior@),
    ));
}

fn push_i64_text(s: &mut String, n: i64)
    ensures
        final(s)@ == old(s)@ + dec_int(n as int),
{
    push_i64(s, n);
}

fn reason_exec(r: &Option<String>) -> (t: String)
    ensures
        t@ == reason_text(*r),
{
    match r {
        Some(x) => x.clone(),
        None => String::from_str("原因未记录"),
    }
}

fn check_reference(
    head: &Fragment,
    refs: &Vec<Reference>,
    i: usize,
    n: usize,
    index: usize,
    known: &[String],
    prior: &[String],
    out: &mut Vec<Violation>,
)
    requires
        i < refs@.len(),
        n == kind_count(ref_views(refs@), i + 1, refs@[i as int].kind),
    ensures
        violation_views(final(out)@) == violation_views(old(out)@) + reference_rules(
            *head,
            ref_views(refs@),
            i as int,
            index as int,
            views_of(known@),
            views_of(prior@),
        ),
{
    let ghost start = violation_views(out@);
    let r = &refs[i];
    let kind = r.kind.as_str();
    match get_key(&head.autogrow, kind) {
        Some(slot) => {
            if !slot.verified {
                let mut msg = String::from_str("head「");
                msg.append(head.id.as_str());
                msg.append("」的 ");
                msg.append(kind);
                msg.append(" 类参考槽位尚未核验（");
                let reason = reason_exec(&slot.unverified_reason);
                msg.append(reason.as_str());
                msg.append("），现在选不了。");
                push_violation(out, shot_path_exec(index, indexed("references[", i, ".kind").as_str()), msg);
            } else if n > slot.max {
                let mut msg = String::from_str(kind);
                msg.append(" 类参考最多 ");
                push_u64(&mut msg, slot.max as u64);
                msg.append(" 个，这是第 ");
                push_u64(&mut msg, n as u64);
                msg.append(" 个。");
                proof {
                    reveal_strlit("");
                }
                push_violation(out, shot_path_exec(index, indexed("references[", i, "").as_str()), msg);
                assert(("references["@ + dec_nat(i as nat) + "]"@ + ""@) =~= ("references["@
                    + dec_nat(i as nat) + "]"@));
            }
        },
        None => {
            if head.autogrow.len() > 0 {
                let mut msg = String::from_str("head「");
                msg.append(head.id.as_str());
                msg.append("」没有 ");
                msg.append(kind);
                msg.append(" 类参考的槽位。");
                push_violation(out, shot_path_exec(index, indexed("references[", i, ".kind").as_str()), msg);
            }
        },
    }
    let ghost mid = violation_views(out@);
    let ghost x: Seq<ViolationView>;
    proof {
        let kv = r.kind.name();
        let ri = "references["@ + dec_nat(i as nat) + "]"@;
        x = match find_key(head.autogrow@, kv) {
            Some(slot) => if !slot.verified {
                seq![
                    (
                        shot_path(index as int, ri + ".kind"@),
                        "head「"@ + head.id@ + "」的 "@ + kv + " 类参考槽位尚未核验（"@ + reason_text(
                            slot.unverified_reason,
                        ) + "），现在选不了。"@,
                    ),
                ]
            } else if n > slot.max {
                seq![
                    (
                        shot_path(index as int, ri),
                        kv + " 类参考最多 "@ + dec_nat(slot.max as nat) + " 个，这是第 "@ + dec_nat(n as nat)
                            + " 个。"@,
                    ),
                ]
            } else {
                Seq::empty()
            },
            None => if head.autogrow@.len() > 0 {
                seq![
                    (
                        shot_path(index as int, ri + ".kind"@),
                        "head「"@ + head.id@ + "」没有 "@ + kv + " 类参考的槽位。"@,
                    ),
                ]
            } else {
                Seq::empty()
            },
        };
        assert(mid =~= start + x);
    }
    if r.with_audio && r.kind != Medium::Video {
        push_violation(
            out,
            shot_path_exec(index, indexed("references[", i, ".with_audio").as_str()),
            String::from_str("只有 video 类参考能带音轨——它占用同号的 ref_video_audio 槽位。"),
        );
    }
    let ghost mid2 = violation_views(out@);
    let ghost y: Seq<ViolationView>;
    proof {
        let ri = "references["@ + dec_nat(i as nat) + "]"@;
        y = if r.with_audio && r.kind != Medium::Video {
            seq![
                (
                    shot_path(index as int, ri + ".with_audio"@),
                    "只有 video 类参考能带音轨——它占用同号的 ref_video_audio 槽位。"@,
                ),
            ]
        } else {
            Seq::empty()
        };
        assert(mid2 =~= mid + y);
    }
    check_asset(
        r.asset_id.as_str(),
        shot_path_exec(index, indexed("references[", i, ".asset_id").as_str()),
        known,
        prior,
        out,
    );
    proof {
        let ri = "references["@ + dec_nat(i as nat) + "]"@;
        let z = asset_violations(
            r.asset_id@,
            shot_path(index as int, ri + ".asset_id"@),
            views_of(known@),
            views_of(prior@),
        );
        assert(violation_views(out@) =~= mid2 + z);
        assert(reference_rules(*head, ref_views(refs@), i as int, index as int, views_of(known@), views_of(prior@))
            == x + y + z);
        assert(violation_views(out@) =~= start + (x + y + z));
    }
}

fn check_anchor(asset: &str, length: i64, path: &String, out: &mut Vec<Violation>)
    ensures
        violation_views(final(out)@) == violation_views(old(out)@) + anchor_rules(
            asset@,
            length as int,
            path@,
        ),
{
    let ghost start = violation_views(out@);
    match parse_shot_segment(asset) {
        Some(seg) => {
            match seg.frames {
                Some(n) => {
                    let n64 = n as i64;
                    if !is_on_frame_grid(n64) {
                        let (lo, hi) = nearest_grid(n64);
                        let mut msg = String::from_str("锚点长度 ");
                        push_u64(&mut msg, n as u64);
                        msg.append(" 帧不在网格上（17k+5：5 / 22 / 39 / 56…）。最近的合法值是 ");
                        push_i64(&mut msg, lo);
                        msg.append(" 或 ");
                        push_i64(&mut msg, hi);
                        msg.append("，写成 ");
                        msg.append(seg.shot_id);
                        msg.append(".tail");
                        push_i64(&mut msg, lo);
                        msg.append(" 这样。");
                        push_violation(out, path.clone(), msg);
                    }
                    let ghost mid = violation_views(out@);
                    if n64 >= length {
                        let mut msg = String::from_str("锚点 ");
                        push_u64(&mut msg, n as u64);
                        msg.append(" 帧不比这一镜的 ");
                        push_i64(&mut msg, length);
                        msg.append(
                            " 帧短——等长的锚点会把整镜钉死，模型只会把它复现出来，提示词一个字都不生效。接续要的是**开头几帧**跟住上一镜，取短一点（比如 ",
                        );
                        msg.append(seg.shot_id);
                        msg.append(".tail5）。");
                        push_violation(out, path.clone(), msg);
                    }
                },
                None => {},
            }
        },
        None => {},
    }
    assert(violation_views(out@) =~= start + anchor_rules(asset@, length as int, path@));
}

#[verifier::spinoff_prover]
#[verifier::rlimit(40)]
fn check_guide(
    head: &Fragment,
    g: &Guide,
    j: usize,
    length: i64,
    frames_only: bool,
    index: usize,
    known: &[String],
    prior: &[String],
    out: &mut Vec<Violation>,
)
    requires
        length > i64::MIN,
    ensures
        violation_views(final(out)@) == violation_views(old(out)@) + guide_rules(
            *head,
            g@,
            j as int,
            length as int,
            frames_only,
            index as int,
            views_of(known@),
            views_of(prior@),
        ),
{
    let ghost start = violation_views(out@);
    let in_range = g.at_frame >= -length && g.at_frame < length;
    if !in_range {
        let mut msg = String::new();
        push_i64(&mut msg, g.at_frame);
        msg.append(" 超出这一镜的帧范围。合法区间是 [-");
        push_i64(&mut msg, length);
        msg.append(", ");
        push_i64(&mut msg, length);
        msg.append(")，负数从末尾倒数。");
        push_violation(out, shot_path_exec(index, indexed("guides[", j, ".at_frame").as_str()), msg);
    }
    let ghost a1 = violation_views(out@);
    if frames_only && !(g.at_frame == 0 || g.at_frame == -1) {
        let mut msg = String::from_str("head「");
        msg.append(head.id.as_str());
        msg.append("」只能锚首帧（0）或尾帧（-1），锚不了第 ");
        push_i64(&mut msg, g.at_frame);
        msg.append(" 帧。要在任意帧锚定就换成有 AddGuide 支持的 head。");
        push_violation(out, shot_path_exec(index, indexed("guides[", j, ".at_frame").as_str()), msg);
    }
    let ghost a2 = violation_views(out@);
    let path = shot_path_exec(index, indexed("guides[", j, ".asset_id").as_str());
    check_asset(g.asset_id.as_str(), path.clone(), known, prior, out);
    let ghost a3 = violation_views(out@);
    check_anchor(g.asset_id.as_str(), length, &path, out);
    proof {
        let gj = "guides["@ + dec_nat(j as nat) + "]"@;
        assert(a1 =~= start + if !(g.at_frame >= -length && g.at_frame < length) {
            seq![
                (
                    shot_path(index as int, gj + ".at_frame"@),
                    dec_int(g.at_frame as int) + " 超出这一镜的帧范围。合法区间是 [-"@ + dec_int(length as int)
                        + ", "@ + dec_int(length as int) + ")，负数从末尾倒数。"@,
                ),
            ]
        } else {
            Seq::empty()
        });
        assert(violation_views(out@) =~= start + guide_rules(
            *head,
            g@,
            j as int,
            length as int,
            frames_only,
            index as int,
            views_of(known@),
            views_of(prior@),
        ));
    }
}

fn check_frame_slot(
    set: &FragmentSet,
    head: &Fragment,
    field: &str,
    slot: &str,
    asset: &Option<String>,
    index: usize,
    known: &[String],
    prior: &[String],
    out: &mut Vec<Violation>,
)
    ensures
        violation_views(final(out)@) == violation_views(old(out)@) + frame_slot_rules(
            *set,
            *head,
            field@,
            slot@,
            opt_text(*asset),
            index as int,
            views_of(known@),
            views_of(prior@),
        ),
{
    let ghost start = violation_views(out@);
    match asset {
        Some(a) => {
            if get_key(&head.frames, slot).is_none() {
                let mut msg = String::from_str("head「");
                msg.append(head.id.as_str());
                msg.append("」没有 ");
                msg.append(slot);
                msg.append(" 帧槽位，");
                msg.append(field);
                msg.append(" 写了不会有任何效果。要给首尾帧就换成有帧槽位的 head（");
                let hs = frames_heads(set);
                msg.append(hs.as_str());
                msg.append("）。");
                push_violation(out, shot_path_exec(index, field), msg);
            } else {
                check_asset(a.as_str(), shot_path_exec(index, field), known, prior, out);
            }
        },
        None => {},
    }
    assert(violation_views(out@) =~= start + frame_slot_rules(
        *set,
        *head,
        field@,
        slot@,
        opt_text(*asset),
        index as int,
        views_of(known@),
        views_of(prior@),
    ));
}

fn check_shape(head: &Fragment, shot: &ShotDeclaration, index: usize, v: &mut Vec<Violation>)
    requires
        !on_frame_grid(shot.length_frames as int) ==> grid_fits(shot.length_frames as int),
    ensures
        violation_views(final(v)@) == violation_views(old(v)@) + shape_rules(*head, shot@, index as int),
{
    let ghost start = violation_views(v@);
    let len = shot.length_frames;
    if !is_on_frame_grid(len) {
        let (lo, hi) = nearest_grid(len);
        let mut msg = String::new();
        push_i64(&mut msg, len);
        msg.append(" 不在 MiniMax H3 的帧数网格上（17k+5：5 / 22 / 39 / 56 / 73…）。最近的合法值是 ");
        push_i64(&mut msg, lo);
        msg.append(" 或 ");
        push_i64(&mut msg, hi);
        msg.append("。写别的值模型会自己 snap，于是成片时长跟这里声明的对不上，而 post 拼接按声明算。");
        push_violation(v, shot_path_exec(index, "length_frames"), msg);
    }
    if shot.width % 32 != 0 {
        let mut msg = String::new();
        push_i64(&mut msg, shot.width);
        msg.append(" 不是 32 的倍数。ComfyUI 会四舍五入，实际出图尺寸跟这里对不上。");
        push_violation(v, shot_path_exec(index, "width"), msg);
    }
    if shot.height % 32 != 0 {
        let mut msg = String::new();
        push_i64(&mut msg, shot.height);
        msg.append(" 不是 32 的倍数。ComfyUI 会四舍五入，实际出图尺寸跟这里对不上。");
        push_violation(v, shot_path_exec(index, "height"), msg);
    }
    let short = if shot.width < shot.height {
        shot.width
    } else {
        shot.height
    };
    if short > 768 {
        let mut msg = String::from_str("短边 ");
        push_i64(&mut msg, short);
        msg.append(" 超过 MiniMax H3 的原生画布 768。超出部分不会带来细节，只是更慢；要更高分辨率走 post 的超分。");
        push_violation(v, shot_path_exec(index, "width"), msg);
    }
    if head.autogrow.len() == 0 && shot.references.len() > 0 {
        let mut msg = String::from_str("head「");
        msg.append(head.id.as_str());
        msg.append("」不接参考（它没有 AUTOGROW 槽位）。要挂参考就换成有槽位的 head。");
        push_violation(v, shot_path_exec(index, "references"), msg);
    }
    assert(violation_views(v@) =~= start + shape_rules(*head, shot@, index as int));
}

/// Checks a shot declaration against the fragment library when the prompt
/// pack is submitted (V1 to V9), so that the agent fixes it at once rather
/// than after GPU time has been spent.
///
/// `known_assets` are the artifacts `visual_assets` registered (empty: V7 is
/// skipped); `prior_shots` are the shot ids before this one in the pack.
pub fn validate_shot(
    set: &FragmentSet,
    shot: &ShotDeclaration,
    known_assets: &[String],
    prior_shots: &[String],
    index: usize,
) -> (r: Vec<Violation>)
    requires
        shot_in_range(*set, shot@),
    ensures
        violation_views(r@) == shot_violations(
            *set,
            shot@,
            views_of(known_assets@),
            views_of(prior_shots@),
            index as int,
        ),
{
    let mut v: Vec<Violation> = Vec::new();
    let head = match get_key(&set.heads, shot.head.as_str()) {
        Some(h) => h,
        None => {
            let mut msg = String::from_str("没有这个 head。可用的：");
            let heads = set.verified_heads();
            let list = join(&heads, "、");
            msg.append(list.as_str());
            push_violation(&mut v, shot_path_exec(index, "head"), msg);
            assert(violation_views(v@) =~= shot_violations(
                *set,
                shot@,
                views_of(known_assets@),
                views_of(prior_shots@),
                index as int,
            ));
            return v;
        },
    };
    let len = shot.length_frames;
    check_shape(head, shot, index, &mut v);
    let ghost a2 = violation_views(v@);
    let mut images: usize = 0;
    let mut videos: usize = 0;
    let mut audios: usize = 0;
    let mut i: usize = 0;
    while i < shot.references.len()
        invariant
            i <= shot.references@.len(),
            images == kind_count(ref_views(shot.references@), i as int, Medium::Image),
            videos == kind_count(ref_views(shot.references@), i as int, Medium::Video),
            audios == kind_count(ref_views(shot.references@), i as int, Medium::Audio),
            images <= i && videos <= i && audios <= i,
            violation_views(v@) == a2 + references_rules(
                *head,
                ref_views(shot.references@),
                index as int,
                views_of(known_assets@),
                views_of(prior_shots@),
                i as int,
            ),
        decreases shot.references.len() - i,
    {
        let n = match shot.references[i].kind {
            Medium::Image => {
                images = images + 1;
                images
            },
            Medium::Video => {
                videos = videos + 1;
                videos
            },
            Medium::Audio => {
                audios = audios + 1;
                audios
            },
        };
        check_reference(head, &shot.references, i, n, index, known_assets, prior_shots, &mut v);
        i = i + 1;
        assert(violation_views(v@) =~= a2 + references_rules(
            *head,
            ref_views(shot.references@),
            index as int,
            views_of(known_assets@),
            views_of(prior_shots@),
            i as int,
        ));
    }
    let ghost a3 = violation_views(v@);
    let frames_only = head.autogrow.len() == 0 && head.frames.len() > 0;
    if frames_only && shot.guides.len() > 2 {
        let mut msg = String::from_str("head「");
        msg.append(head.id.as_str());
        msg.append("」只有首尾两个帧槽位，挂不了 ");
        push_u64(&mut msg, shot.guides.len() as u64);
        msg.append(" 个 guide。");
        push_violation(&mut v, shot_path_exec(index, "guides"), msg);
    }
    let ghost a4 = violation_views(v@);
    let mut j: usize = 0;
    while j < shot.guides.len()
        invariant
            j <= shot.guides@.len(),
            shot.guides@.len() > 0 ==> len > i64::MIN,
            len == shot.length_frames,
            violation_views(v@) == a4 + guides_rules(
                *head,
                guide_views(shot.guides@),
                len as int,
                frames_only,
                index as int,
                views_of(known_assets@),
                views_of(prior_shots@),
                j as int,
            ),
        decreases shot.guides.len() - j,
    {
        check_guide(
            head,
            &shot.guides[j],
            j,
            len,
            frames_only,
            index,
            known_assets,
            prior_shots,
            &mut v,
        );
        j = j + 1;
        assert(violation_views(v@) =~= a4 + guides_rules(
            *head,
            guide_views(shot.guides@),
            len as int,
            frames_only,
            index as int,
            views_of(known_assets@),
            views_of(prior_shots@),
            j as int,
        ));
    }
    let ghost a5 = violation_views(v@);
    check_frame_slot(
        set,
        head,
        "first_frame",
        "first",
        &shot.first_frame,
        index,
        known_assets,
        prior_shots,
        &mut v,
    );
    check_frame_slot(
        set,
        head,
        "last_frame",
        "last",
        &shot.last_frame,
        index,
        known_assets,
        prior_shots,
        &mut v,
    );
    assert(violation_views(v@) =~= shot_violations(
        *set,
        shot@,
        views_of(known_assets@),
        views_of(prior_shots@),
        index as int,
    ));
    v
}

} // verus!
