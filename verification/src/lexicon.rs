//! The controlled vocabularies: the single source of the words a storyboard
//! and a prompt pack may use, with their labels and the banned words.
//!
//! The same constants feed the schema `enum`s, the vocabulary tables of the
//! shipped docs, and the camera-command mapping of the model cards.
use vstd::prelude::*;
use vstd::slice::slice_subrange;
use crate::text::{seq_contains, contains_chars, chars_of, str_eq};

verus! {

broadcast use vstd::string::group_string_axioms;

/// Shot sizes, from the widest to the closest.
pub const SHOT_SIZES: [&'static str; 7] = [
    "extreme_wide",
    "wide",
    "medium_wide",
    "medium",
    "medium_close",
    "close",
    "extreme_close",
];

/// Camera angles.
pub const ANGLES: [&'static str; 7] = [
    "eye_level",
    "low",
    "high",
    "overhead",
    "dutch",
    "over_shoulder",
    "pov",
];

/// Camera motions. **One per shot**: two or more make the result run out of control.
pub const CAMERA_MOTIONS: [&'static str; 15] = [
    "static",
    "push_in",
    "pull_out",
    "pan_left",
    "pan_right",
    "tilt_up",
    "tilt_down",
    "truck_left",
    "truck_right",
    "pedestal_up",
    "pedestal_down",
    "zoom_in",
    "zoom_out",
    "tracking",
    "handheld_shake",
];

/// Where the light comes from.
pub const LIGHTING_SOURCES: [&'static str; 8] = [
    "daylight",
    "moonlight",
    "practical",
    "firelight",
    "fluorescent",
    "overcast",
    "mixed",
    "artificial",
];

/// How the light falls on the subject.
pub const LIGHTING_KEYS: [&'static str; 8] = [
    "soft",
    "hard",
    "top",
    "side",
    "back",
    "rim",
    "silhouette",
    "bottom",
];

/// What a shot does. A shot that does none of these should not exist.
pub const SHOT_FUNCTIONS: [&'static str; 3] = [
    "change_emotion",
    "advance_action",
    "raise_pressure",
];

/// Where a beat stands in the structure.
pub const BEAT_TYPES: [&'static str; 6] = [
    "hook",
    "setup",
    "develop",
    "turn",
    "payoff",
    "resolve",
];

/// `camera_motion` to the camera commands of the MiniMax family, one for one and in the same order.
pub const MINIMAX_CAMERA_COMMANDS: [(&'static str, &'static str); 15] = [
    ("static", "[Static shot]"),
    ("push_in", "[Push in]"),
    ("pull_out", "[Pull out]"),
    ("pan_left", "[Pan left]"),
    ("pan_right", "[Pan right]"),
    ("tilt_up", "[Tilt up]"),
    ("tilt_down", "[Tilt down]"),
    ("truck_left", "[Truck left]"),
    ("truck_right", "[Truck right]"),
    ("pedestal_up", "[Pedestal up]"),
    ("pedestal_down", "[Pedestal down]"),
    ("zoom_in", "[Zoom in]"),
    ("zoom_out", "[Zoom out]"),
    ("tracking", "[Tracking shot]"),
    ("handheld_shake", "[Shake]"),
];

/// What each shot size means, in Chinese.
pub const SHOT_SIZE_LABELS: [(&'static str, &'static str); 7] = [
    ("extreme_wide", "大远景：人在环境里很小，交代地理关系"),
    ("wide", "远景：人全身加大量环境"),
    ("medium_wide", "中远景：膝盖以上，看得清动作和环境"),
    ("medium", "中景：腰以上，动作与表情兼顾"),
    ("medium_close", "中近景：胸以上，表情为主"),
    ("close", "近景：肩以上，脸占主要面积"),
    ("extreme_close", "特写：眼睛、手、物件的局部"),
];

/// What each camera angle means.
pub const ANGLE_LABELS: [(&'static str, &'static str); 7] = [
    ("eye_level", "平视：中性，没有理由就用它"),
    ("low", "仰拍：主体显得有力、有压迫感"),
    ("high", "俯拍：主体显得弱小、被审视"),
    ("overhead", "顶视：图形化，强调布局而非人"),
    ("dutch", "斜角：画面失衡，表示不安"),
    ("over_shoulder", "过肩：交代两人关系与视线"),
    ("pov", "主观视角：观众成为角色的眼睛"),
];

/// What each light source means.
pub const LIGHTING_SOURCE_LABELS: [(&'static str, &'static str); 8] = [
    ("daylight", "自然日光"),
    ("moonlight", "月光：冷、暗、方向单一"),
    ("practical", "实用光：画面里能看见的灯，最容易出效果"),
    ("firelight", "火光：暖、跳动、方向低"),
    ("fluorescent", "荧光灯：偏绿、平、无情绪"),
    ("overcast", "阴天：大面积柔光，无明显方向"),
    ("mixed", "混合光：冷暖并存，需说明各自方向"),
    ("artificial", "人造光：影棚或不明来源的布光"),
];

/// What each lighting key means.
pub const LIGHTING_KEY_LABELS: [(&'static str, &'static str); 8] = [
    ("soft", "柔光：阴影边缘柔和，皮肤平整"),
    ("hard", "硬光：阴影边缘锐利，反差大"),
    ("top", "顶光：眼窝落影，压迫感"),
    ("side", "侧光：一半亮一半暗，立体"),
    ("back", "逆光：主体压暗，边缘发光"),
    ("rim", "轮廓光：只有一道边光，把人从暗背景里分离"),
    ("silhouette", "剪影：主体全黑，只剩形状"),
    ("bottom", "底光：反常规照明，用于失常与恐怖"),
];

/// What each shot function means.
pub const SHOT_FUNCTION_LABELS: [(&'static str, &'static str); 3] = [
    ("change_emotion", "改变情绪：看完这一镜，观众的感受变了"),
    ("advance_action", "推进动作：看完这一镜，故事往前走了一步"),
    ("raise_pressure", "增加压力：看完这一镜，观众更担心或更期待了"),
];

/// What each beat type means.
pub const BEAT_TYPE_LABELS: [(&'static str, &'static str); 6] = [
    ("hook", "勾住：给一个不看下去会难受的理由"),
    ("setup", "交代：谁、在哪、什么状态"),
    ("develop", "推进：信息量最大的地方"),
    ("turn", "转折：观众的预期被改写"),
    ("payoff", "兑现：前面埋的东西在这里结算"),
    ("resolve", "收束：给一个能停住的画面"),
];

/// Views of a character card. The first five are required.
pub const CHARACTER_VIEWS: [&'static str; 8] = [
    "front_full",
    "three_quarter",
    "profile",
    "back",
    "face_close",
    "expressions",
    "hands_props",
    "wardrobe_detail",
];

/// What each character view shows.
pub const CHARACTER_VIEW_LABELS: [(&'static str, &'static str); 8] = [
    ("front_full", "正面全身，自然站姿，中性表情（主视图）"),
    ("three_quarter", "四分之三侧身全身"),
    ("profile", "正侧面全身"),
    ("back", "背面全身：发型与服装背面"),
    ("face_close", "面部特写，中性表情"),
    ("expressions", "表情组：本片主导情绪 2–3 种"),
    ("hands_props", "手部与关键道具的持握关系"),
    ("wardrobe_detail", "服装材质与关键配饰特写"),
];

/// Views of a scene card. The first four are required.
pub const SCENE_VIEWS: [&'static str; 6] = [
    "establishing",
    "key_angle",
    "reverse_angle",
    "detail",
    "lighting_variants",
    "empty_plate",
];

/// What each scene view shows.
pub const SCENE_VIEW_LABELS: [(&'static str, &'static str); 6] = [
    ("establishing", "建立镜头广角，交代空间全貌（主视图）"),
    ("key_angle", "主机位角度：分镜里用得最多的那个"),
    ("reverse_angle", "反打角度，保证轴线两侧都成立"),
    ("detail", "材质、纹理或标志性局部"),
    ("lighting_variants", "剧本要求的时间光线变体：日 / 黄昏 / 夜"),
    ("empty_plate", "空景，无人物，便于人物合成与对位"),
];

/// Views of a prop card. All four are required.
pub const PROP_VIEWS: [&'static str; 4] = [
    "front",
    "side",
    "in_use",
    "scale_reference",
];

/// What each prop view shows.
pub const PROP_VIEW_LABELS: [(&'static str, &'static str); 4] = [
    ("front", "正面（主视图）"),
    ("side", "侧面"),
    ("in_use", "使用状态：谁怎么拿着它"),
    ("scale_reference", "比例参照：与手或人体的相对大小"),
];

/// Kinds of asset.
pub const ASSET_KINDS: [&'static str; 5] = [
    "character_card",
    "scene_card",
    "prop_card",
    "safety_reference",
    "style_reference",
];

/// Every view of every card kind, the `enum` of the schema.
pub const ALL_VIEWS: [&'static str; 18] = [
    "front_full",
    "three_quarter",
    "profile",
    "back",
    "face_close",
    "expressions",
    "hands_props",
    "wardrobe_detail",
    "establishing",
    "key_angle",
    "reverse_angle",
    "detail",
    "lighting_variants",
    "empty_plate",
    "front",
    "side",
    "in_use",
    "scale_reference",
];

/// What each camera motion means, for people.
pub const CAMERA_MOTION_LABELS: [(&'static str, &'static str); 15] = [
    ("static", "固定机位"),
    ("push_in", "推近（机身前移）"),
    ("pull_out", "拉远（机身后移）"),
    ("pan_left", "左摇"),
    ("pan_right", "右摇"),
    ("tilt_up", "上仰"),
    ("tilt_down", "下俯"),
    ("truck_left", "左移（机身平移）"),
    ("truck_right", "右移（机身平移）"),
    ("pedestal_up", "升镜（机身抬高）"),
    ("pedestal_down", "降镜（机身降低）"),
    ("zoom_in", "变焦推近（镜头组变焦）"),
    ("zoom_out", "变焦拉远"),
    ("tracking", "跟移"),
    ("handheld_shake", "手持晃动"),
];

/// Change on sight: noise to the model, filler to people. Matching is by substring, so only long, unambiguous words are here.
pub const BANNED_TIER1: [&'static str; 18] = [
    "cinematic",
    "epic",
    "stunning",
    "masterpiece",
    "best quality",
    "high quality",
    "ultra detailed",
    "8k",
    "4k",
    "电影感",
    "电影质感",
    "史诗",
    "大片质感",
    "唯美",
    "高清",
    "超高清",
    "精致细腻",
    "画质极佳",
];

/// A problem only when two or more appear in one passage.
pub const BANNED_TIER2: [&'static str; 12] = [
    "beautiful",
    "dynamic",
    "dramatic",
    "atmospheric",
    "gorgeous",
    "breathtaking",
    "氛围感",
    "质感",
    "高级感",
    "震撼",
    "梦幻",
    "绝美",
];

/// The vocabularies that have Chinese labels.
pub const VOCABULARIES: [&'static str; 10] = [
    "shot_size",
    "angle",
    "camera_motion",
    "lighting_source",
    "lighting_key",
    "shot_function",
    "beat_type",
    "character_view",
    "scene_view",
    "prop_view",
];
/// The first value whose key is `key`.
pub open spec fn first_value(pairs: Seq<(&'static str, &'static str)>, key: Seq<char>) -> Option<
    &'static str,
>
    decreases pairs.len(),
{
    if pairs.len() == 0 {
        None
    } else if pairs[0].0@ == key {
        Some(pairs[0].1)
    } else {
        first_value(pairs.drop_first(), key)
    }
}

/// `first_value` finds something whenever some pair has the key.
pub proof fn lemma_first_value_found(pairs: Seq<(&'static str, &'static str)>, key: Seq<char>, i: int)
    requires
        0 <= i < pairs.len(),
        pairs[i].0@ == key,
    ensures
        first_value(pairs, key) is Some,
    decreases i,
{
    if i > 0 && pairs[0].0@ != key {
        lemma_first_value_found(pairs.drop_first(), key, i - 1);
    }
}

pub(crate) fn find_value(pairs: &[(&'static str, &'static str)], key: &str) -> (r: Option<&'static str>)
    ensures
        r == first_value(pairs@, key@),
{
    let mut i: usize = 0;
    assert(pairs@.subrange(0, pairs@.len() as int) =~= pairs@);
    while i < pairs.len()
        invariant
            i <= pairs@.len(),
            first_value(pairs@, key@) == first_value(pairs@.subrange(i as int, pairs@.len() as int), key@),
        decreases pairs.len() - i,
    {
        proof {
            assert(pairs@.subrange(i as int, pairs@.len() as int).drop_first() =~= pairs@.subrange(
                i + 1,
                pairs@.len() as int,
            ));
        }
        if str_eq(pairs[i].0, key) {
            return Some(pairs[i].1);
        }
        i = i + 1;
    }
    None
}

/// Every legal view of an asset kind. Reference assets need no views.
pub open spec fn views_of_kind(kind: Seq<char>) -> Seq<&'static str> {
    if kind == "character_card"@ {
        CHARACTER_VIEWS@
    } else if kind == "scene_card"@ {
        SCENE_VIEWS@
    } else if kind == "prop_card"@ {
        PROP_VIEWS@
    } else {
        Seq::empty()
    }
}

/// The views an asset kind must have: the first five of a character card,
/// the first four of a scene card, all of a prop card.
pub open spec fn required_views_of_kind(kind: Seq<char>) -> Seq<&'static str> {
    if kind == "character_card"@ {
        CHARACTER_VIEWS@.subrange(0, 5)
    } else if kind == "scene_card"@ {
        SCENE_VIEWS@.subrange(0, 4)
    } else if kind == "prop_card"@ {
        PROP_VIEWS@
    } else {
        Seq::empty()
    }
}

/// The anchor view: generated first and alone, the reference of every other view.
pub open spec fn anchor_of_kind(kind: Seq<char>) -> Option<Seq<char>> {
    if kind == "character_card"@ {
        Some("front_full"@)
    } else if kind == "scene_card"@ {
        Some("establishing"@)
    } else if kind == "prop_card"@ {
        Some("front"@)
    } else {
        None
    }
}

/// Every legal view of an asset kind.
pub fn views_for(asset_kind: &str) -> (r: &'static [&'static str])
    ensures
        r@ == views_of_kind(asset_kind@),
{
    if str_eq(asset_kind, "character_card") {
        &CHARACTER_VIEWS
    } else if str_eq(asset_kind, "scene_card") {
        &SCENE_VIEWS
    } else if str_eq(asset_kind, "prop_card") {
        &PROP_VIEWS
    } else {
        let r: &'static [&'static str] = &[];
        assert(r@ =~= Seq::<&'static str>::empty());
        r
    }
}

/// The views an asset kind must have, all of them, or it does not pass.
pub fn required_views(asset_kind: &str) -> (r: &'static [&'static str])
    ensures
        r@ == required_views_of_kind(asset_kind@),
{
    if str_eq(asset_kind, "character_card") {
        slice_subrange(&CHARACTER_VIEWS, 0, 5)
    } else if str_eq(asset_kind, "scene_card") {
        slice_subrange(&SCENE_VIEWS, 0, 4)
    } else if str_eq(asset_kind, "prop_card") {
        &PROP_VIEWS
    } else {
        let r: &'static [&'static str] = &[];
        assert(r@ =~= Seq::<&'static str>::empty());
        r
    }
}

/// The anchor view of an asset kind.
pub fn anchor_view(asset_kind: &str) -> (r: Option<&'static str>)
    ensures
        r matches Some(v) ==> anchor_of_kind(asset_kind@) == Some(v@),
        r is None ==> anchor_of_kind(asset_kind@) is None,
{
    if str_eq(asset_kind, "character_card") {
        Some("front_full")
    } else if str_eq(asset_kind, "scene_card") {
        Some("establishing")
    } else if str_eq(asset_kind, "prop_card") {
        Some("front")
    } else {
        None
    }
}

/// What `str::to_lowercase` returns for a string (the full Unicode mapping).
pub uninterp spec fn lowercase(s: Seq<char>) -> Seq<char>;

/// Calls `str::to_lowercase`; the result is [`lowercase`] of the argument.
#[verifier::external_body]
fn to_lowercase(s: &str) -> (r: String)
    ensures
        r@ == lowercase(s@),
{
    s.to_lowercase()
}

/// The words of `words` that occur in `lower`, ignoring case, in list order.
pub open spec fn hits_in(lower: Seq<char>, words: Seq<&'static str>) -> Seq<&'static str>
    decreases words.len(),
{
    if words.len() == 0 {
        Seq::empty()
    } else {
        let rest = hits_in(lower, words.drop_last());
        if seq_contains(lower, lowercase(words.last()@)) {
            rest.push(words.last())
        } else {
            rest
        }
    }
}

fn hits(text: &str, words: &[&'static str]) -> (r: Vec<&'static str>)
    ensures
        r@ == hits_in(lowercase(text@), words@),
{
    let lower = to_lowercase(text);
    let lc = chars_of(lower.as_str());
    let mut out: Vec<&'static str> = Vec::new();
    let mut i: usize = 0;
    while i < words.len()
        invariant
            i <= words@.len(),
            lc@ == lowercase(text@),
            out@ == hits_in(lowercase(text@), words@.subrange(0, i as int)),
        decreases words.len() - i,
    {
        proof {
            assert(words@.subrange(0, i + 1).drop_last() =~= words@.subrange(0, i as int));
        }
        let w = to_lowercase(words[i]);
        let wc = chars_of(w.as_str());
        if contains_chars(&lc, &wc) {
            out.push(words[i]);
        }
        i = i + 1;
    }
    assert(words@.subrange(0, words@.len() as int) =~= words@);
    out
}

/// Every Tier 1 banned word in a text, ignoring case.
pub fn banned_tier1_hits(text: &str) -> (r: Vec<&'static str>)
    ensures
        r@ == hits_in(lowercase(text@), BANNED_TIER1@),
{
    hits(text, &BANNED_TIER1)
}

/// Every Tier 2 banned word in a text, ignoring case.
pub fn banned_tier2_hits(text: &str) -> (r: Vec<&'static str>)
    ensures
        r@ == hits_in(lowercase(text@), BANNED_TIER2@),
{
    hits(text, &BANNED_TIER2)
}

/// A storyboard `camera_motion` as a MiniMax camera command.
pub fn minimax_camera_command(motion: &str) -> (r: Option<&'static str>)
    ensures
        r == first_value(MINIMAX_CAMERA_COMMANDS@, motion@),
{
    find_value(&MINIMAX_CAMERA_COMMANDS, motion)
}

/// The labelled vocabulary of each name.
pub open spec fn vocabulary_of(name: Seq<char>) -> Option<Seq<(&'static str, &'static str)>> {
    if name == "shot_size"@ {
        Some(SHOT_SIZE_LABELS@)
    } else if name == "angle"@ {
        Some(ANGLE_LABELS@)
    } else if name == "camera_motion"@ {
        Some(CAMERA_MOTION_LABELS@)
    } else if name == "lighting_source"@ {
        Some(LIGHTING_SOURCE_LABELS@)
    } else if name == "lighting_key"@ {
        Some(LIGHTING_KEY_LABELS@)
    } else if name == "shot_function"@ {
        Some(SHOT_FUNCTION_LABELS@)
    } else if name == "beat_type"@ {
        Some(BEAT_TYPE_LABELS@)
    } else if name == "character_view"@ {
        Some(CHARACTER_VIEW_LABELS@)
    } else if name == "scene_view"@ {
        Some(SCENE_VIEW_LABELS@)
    } else if name == "prop_view"@ {
        Some(PROP_VIEW_LABELS@)
    } else {
        None
    }
}

/// The values of each vocabulary.
pub open spec fn values_of(name: Seq<char>) -> Option<Seq<&'static str>> {
    if name == "shot_size"@ {
        Some(SHOT_SIZES@)
    } else if name == "angle"@ {
        Some(ANGLES@)
    } else if name == "camera_motion"@ {
        Some(CAMERA_MOTIONS@)
    } else if name == "lighting_source"@ {
        Some(LIGHTING_SOURCES@)
    } else if name == "lighting_key"@ {
        Some(LIGHTING_KEYS@)
    } else if name == "shot_function"@ {
        Some(SHOT_FUNCTIONS@)
    } else if name == "beat_type"@ {
        Some(BEAT_TYPES@)
    } else if name == "character_view"@ {
        Some(CHARACTER_VIEWS@)
    } else if name == "scene_view"@ {
        Some(SCENE_VIEWS@)
    } else if name == "prop_view"@ {
        Some(PROP_VIEWS@)
    } else {
        None
    }
}

/// Every vocabulary by name: its values with their labels.
pub fn vocabulary(name: &str) -> (r: Option<&'static [(&'static str, &'static str)]>)
    ensures
        r matches Some(v) ==> vocabulary_of(name@) == Some(v@),
        r is None ==> vocabulary_of(name@) is None,
{
    if str_eq(name, "shot_size") {
        Some(&SHOT_SIZE_LABELS)
    } else if str_eq(name, "angle") {
        Some(&ANGLE_LABELS)
    } else if str_eq(name, "camera_motion") {
        Some(&CAMERA_MOTION_LABELS)
    } else if str_eq(name, "lighting_source") {
        Some(&LIGHTING_SOURCE_LABELS)
    } else if str_eq(name, "lighting_key") {
        Some(&LIGHTING_KEY_LABELS)
    } else if str_eq(name, "shot_function") {
        Some(&SHOT_FUNCTION_LABELS)
    } else if str_eq(name, "beat_type") {
        Some(&BEAT_TYPE_LABELS)
    } else if str_eq(name, "character_view") {
        Some(&CHARACTER_VIEW_LABELS)
    } else if str_eq(name, "scene_view") {
        Some(&SCENE_VIEW_LABELS)
    } else if str_eq(name, "prop_view") {
        Some(&PROP_VIEW_LABELS)
    } else {
        None
    }
}

/// The values of each vocabulary, to check [`vocabulary`] against.
pub fn values(name: &str) -> (r: Option<&'static [&'static str]>)
    ensures
        r matches Some(v) ==> values_of(name@) == Some(v@),
        r is None ==> values_of(name@) is None,
{
    if str_eq(name, "shot_size") {
        Some(&SHOT_SIZES)
    } else if str_eq(name, "angle") {
        Some(&ANGLES)
    } else if str_eq(name, "camera_motion") {
        Some(&CAMERA_MOTIONS)
    } else if str_eq(name, "lighting_source") {
        Some(&LIGHTING_SOURCES)
    } else if str_eq(name, "lighting_key") {
        Some(&LIGHTING_KEYS)
    } else if str_eq(name, "shot_function") {
        Some(&SHOT_FUNCTIONS)
    } else if str_eq(name, "beat_type") {
        Some(&BEAT_TYPES)
    } else if str_eq(name, "character_view") {
        Some(&CHARACTER_VIEWS)
    } else if str_eq(name, "scene_view") {
        Some(&SCENE_VIEWS)
    } else if str_eq(name, "prop_view") {
        Some(&PROP_VIEWS)
    } else {
        None
    }
}

/// Every camera motion has a MiniMax command and a label, at the same position.
pub proof fn lemma_every_camera_motion_is_mapped(i: int)
    requires
        0 <= i < 15,
    ensures
        MINIMAX_CAMERA_COMMANDS[i].0@ == CAMERA_MOTIONS[i]@,
        CAMERA_MOTION_LABELS[i].0@ == CAMERA_MOTIONS[i]@,
        first_value(MINIMAX_CAMERA_COMMANDS@, CAMERA_MOTIONS[i]@) is Some,
{
    lemma_first_value_found(MINIMAX_CAMERA_COMMANDS@, CAMERA_MOTIONS[i]@, i);
}

/// With pairwise distinct keys, `first_value` finds exactly the pair with the key.
pub proof fn lemma_first_value_iff(pairs: Seq<(&'static str, &'static str)>, key: Seq<char>, v: &'static str)
    requires
        forall|i: int, j: int| 0 <= i < j < pairs.len() ==> (#[trigger] pairs[i]).0@ != (#[trigger] pairs[j]).0@,
    ensures
        first_value(pairs, key) == Some(v) <==> exists|i: int|
            0 <= i < pairs.len() && (#[trigger] pairs[i]).0@ == key && pairs[i].1 == v,
    decreases pairs.len(),
{
    if pairs.len() > 0 {
        let rest = pairs.drop_first();
        assert forall|i: int, j: int| 0 <= i < j < rest.len() implies (#[trigger] rest[i]).0@ != (#[trigger] rest[j]).0@ by {
            assert(rest[i] == pairs[i + 1] && rest[j] == pairs[j + 1]);
        }
        lemma_first_value_iff(rest, key, v);
        if pairs[0].0@ == key {
            if exists|i: int| 0 <= i < pairs.len() && (#[trigger] pairs[i]).0@ == key && pairs[i].1 == v {
                let i = choose|i: int| 0 <= i < pairs.len() && (#[trigger] pairs[i]).0@ == key && pairs[i].1 == v;
                if i > 0 {
                    assert(pairs[0].0@ != pairs[i].0@);
                }
            }
        } else {
            if exists|i: int| 0 <= i < pairs.len() && (#[trigger] pairs[i]).0@ == key && pairs[i].1 == v {
                let i = choose|i: int| 0 <= i < pairs.len() && (#[trigger] pairs[i]).0@ == key && pairs[i].1 == v;
                assert(rest[i - 1] == pairs[i]);
            }
            if exists|i: int| 0 <= i < rest.len() && (#[trigger] rest[i]).0@ == key && rest[i].1 == v {
                let i = choose|i: int| 0 <= i < rest.len() && (#[trigger] rest[i]).0@ == key && rest[i].1 == v;
                assert(pairs[i + 1] == rest[i]);
            }
        }
    }
}

/// The MiniMax command of a camera motion is the one its row of the table
/// gives; a motion outside the table has none.
pub proof fn lemma_camera_command_is_the_table(motion: Seq<char>, command: &'static str)
    ensures
        first_value(MINIMAX_CAMERA_COMMANDS@, motion) == Some(command) <==> exists|i: int|
            0 <= i < 15 && (#[trigger] MINIMAX_CAMERA_COMMANDS@[i]).0@ == motion
                && MINIMAX_CAMERA_COMMANDS@[i].1 == command,
        first_value(MINIMAX_CAMERA_COMMANDS@, motion) is None <==> forall|i: int|
            0 <= i < 15 ==> (#[trigger] CAMERA_MOTIONS@[i])@ != motion,
{
    lemma_camera_motions_distinct();
    assert forall|i: int| 0 <= i < 15 implies (#[trigger] MINIMAX_CAMERA_COMMANDS@[i]).0@ == CAMERA_MOTIONS@[i]@ by {
        lemma_every_camera_motion_is_mapped(i);
    }
    assert forall|i: int, j: int| 0 <= i < j < 15 implies (#[trigger] MINIMAX_CAMERA_COMMANDS@[i]).0@
        != (#[trigger] MINIMAX_CAMERA_COMMANDS@[j]).0@ by {
        assert(CAMERA_MOTIONS@[i]@ != CAMERA_MOTIONS@[j]@);
    }
    lemma_first_value_iff(MINIMAX_CAMERA_COMMANDS@, motion, command);
    match first_value(MINIMAX_CAMERA_COMMANDS@, motion) {
        Some(c) => {
            lemma_first_value_iff(MINIMAX_CAMERA_COMMANDS@, motion, c);
        },
        None => {
            if exists|i: int| 0 <= i < 15 && (#[trigger] CAMERA_MOTIONS@[i])@ == motion {
                let i = choose|i: int| 0 <= i < 15 && (#[trigger] CAMERA_MOTIONS@[i])@ == motion;
                lemma_first_value_found(MINIMAX_CAMERA_COMMANDS@, motion, i);
            }
        },
    }
}

/// Every label of every named vocabulary says something.
pub proof fn lemma_vocabulary_labels_nonempty(name: Seq<char>)
    ensures
        vocabulary_of(name) matches Some(labels) ==> forall|i: int|
            0 <= i < labels.len() ==> (#[trigger] labels[i]).1@.len() > 0,
{
    reveal_strlit("大远景：人在环境里很小，交代地理关系");
    reveal_strlit("远景：人全身加大量环境");
    reveal_strlit("中远景：膝盖以上，看得清动作和环境");
    reveal_strlit("中景：腰以上，动作与表情兼顾");
    reveal_strlit("中近景：胸以上，表情为主");
    reveal_strlit("近景：肩以上，脸占主要面积");
    reveal_strlit("特写：眼睛、手、物件的局部");
    assert(forall|i: int| 0 <= i < 7 ==> (#[trigger] SHOT_SIZE_LABELS@[i]).1@.len() > 0);
    reveal_strlit("平视：中性，没有理由就用它");
    reveal_strlit("仰拍：主体显得有力、有压迫感");
    reveal_strlit("俯拍：主体显得弱小、被审视");
    reveal_strlit("顶视：图形化，强调布局而非人");
    reveal_strlit("斜角：画面失衡，表示不安");
    reveal_strlit("过肩：交代两人关系与视线");
    reveal_strlit("主观视角：观众成为角色的眼睛");
    assert(forall|i: int| 0 <= i < 7 ==> (#[trigger] ANGLE_LABELS@[i]).1@.len() > 0);
    reveal_strlit("自然日光");
    reveal_strlit("月光：冷、暗、方向单一");
    reveal_strlit("实用光：画面里能看见的灯，最容易出效果");
    reveal_strlit("火光：暖、跳动、方向低");
    reveal_strlit("荧光灯：偏绿、平、无情绪");
    reveal_strlit("阴天：大面积柔光，无明显方向");
    reveal_strlit("混合光：冷暖并存，需说明各自方向");
    reveal_strlit("人造光：影棚或不明来源的布光");
    assert(forall|i: int| 0 <= i < 8 ==> (#[trigger] LIGHTING_SOURCE_LABELS@[i]).1@.len() > 0);
    reveal_strlit("柔光：阴影边缘柔和，皮肤平整");
    reveal_strlit("硬光：阴影边缘锐利，反差大");
    reveal_strlit("顶光：眼窝落影，压迫感");
    reveal_strlit("侧光：一半亮一半暗，立体");
    reveal_strlit("逆光：主体压暗，边缘发光");
    reveal_strlit("轮廓光：只有一道边光，把人从暗背景里分离");
    reveal_strlit("剪影：主体全黑，只剩形状");
    reveal_strlit("底光：反常规照明，用于失常与恐怖");
    assert(forall|i: int| 0 <= i < 8 ==> (#[trigger] LIGHTING_KEY_LABELS@[i]).1@.len() > 0);
    reveal_strlit("改变情绪：看完这一镜，观众的感受变了");
    reveal_strlit("推进动作：看完这一镜，故事往前走了一步");
    reveal_strlit("增加压力：看完这一镜，观众更担心或更期待了");
    assert(forall|i: int| 0 <= i < 3 ==> (#[trigger] SHOT_FUNCTION_LABELS@[i]).1@.len() > 0);
    reveal_strlit("勾住：给一个不看下去会难受的理由");
    reveal_strlit("交代：谁、在哪、什么状态");
    reveal_strlit("推进：信息量最大的地方");
    reveal_strlit("转折：观众的预期被改写");
    reveal_strlit("兑现：前面埋的东西在这里结算");
    reveal_strlit("收束：给一个能停住的画面");
    assert(forall|i: int| 0 <= i < 6 ==> (#[trigger] BEAT_TYPE_LABELS@[i]).1@.len() > 0);
    reveal_strlit("正面全身，自然站姿，中性表情（主视图）");
    reveal_strlit("四分之三侧身全身");
    reveal_strlit("正侧面全身");
    reveal_strlit("背面全身：发型与服装背面");
    reveal_strlit("面部特写，中性表情");
    reveal_strlit("表情组：本片主导情绪 2–3 种");
    reveal_strlit("手部与关键道具的持握关系");
    reveal_strlit("服装材质与关键配饰特写");
    assert(forall|i: int| 0 <= i < 8 ==> (#[trigger] CHARACTER_VIEW_LABELS@[i]).1@.len() > 0);
    reveal_strlit("建立镜头广角，交代空间全貌（主视图）");
    reveal_strlit("主机位角度：分镜里用得最多的那个");
    reveal_strlit("反打角度，保证轴线两侧都成立");
    reveal_strlit("材质、纹理或标志性局部");
    reveal_strlit("剧本要求的时间光线变体：日 / 黄昏 / 夜");
    reveal_strlit("空景，无人物，便于人物合成与对位");
    assert(forall|i: int| 0 <= i < 6 ==> (#[trigger] SCENE_VIEW_LABELS@[i]).1@.len() > 0);
    reveal_strlit("正面（主视图）");
    reveal_strlit("侧面");
    reveal_strlit("使用状态：谁怎么拿着它");
    reveal_strlit("比例参照：与手或人体的相对大小");
    assert(forall|i: int| 0 <= i < 4 ==> (#[trigger] PROP_VIEW_LABELS@[i]).1@.len() > 0);
    reveal_strlit("固定机位");
    reveal_strlit("推近（机身前移）");
    reveal_strlit("拉远（机身后移）");
    reveal_strlit("左摇");
    reveal_strlit("右摇");
    reveal_strlit("上仰");
    reveal_strlit("下俯");
    reveal_strlit("左移（机身平移）");
    reveal_strlit("右移（机身平移）");
    reveal_strlit("升镜（机身抬高）");
    reveal_strlit("降镜（机身降低）");
    reveal_strlit("变焦推近（镜头组变焦）");
    reveal_strlit("变焦拉远");
    reveal_strlit("跟移");
    reveal_strlit("手持晃动");
    assert(forall|i: int| 0 <= i < 15 ==> (#[trigger] CAMERA_MOTION_LABELS@[i]).1@.len() > 0);
}

/// Each named vocabulary has one label per value, in the same order.
pub proof fn lemma_vocabulary_matches_values(name: Seq<char>)
    ensures
        vocabulary_of(name) is Some <==> values_of(name) is Some,
        vocabulary_of(name) matches Some(labels) ==> ({
            let vals = values_of(name)->0;
            &&& labels.len() == vals.len()
            &&& forall|i: int| 0 <= i < vals.len() ==> #[trigger] labels[i].0@ == vals[i]@
        }),
{
}


/// No word appears twice in a list.
pub open spec fn all_distinct(s: Seq<&'static str>) -> bool {
    forall|i: int, j: int| 0 <= i < j < s.len() ==> (#[trigger] s[i])@ != (#[trigger] s[j])@
}

/// The words of `SHOT_SIZES` are pairwise distinct.
pub proof fn lemma_shot_sizes_distinct()
    ensures
        all_distinct(SHOT_SIZES@),
{
    reveal_strlit("extreme_wide");
    reveal_strlit("wide");
    reveal_strlit("medium_wide");
    reveal_strlit("medium");
    reveal_strlit("medium_close");
    reveal_strlit("close");
    reveal_strlit("extreme_close");
    assert forall|i: int, j: int| 0 <= i < j < 7 implies (#[trigger] SHOT_SIZES@[i])@ != (#[trigger] SHOT_SIZES@[j])@ by {
        if i == 0 && j == 1 { assert(SHOT_SIZES[0]@.len() != SHOT_SIZES[1]@.len()); }
        if i == 0 && j == 2 { assert(SHOT_SIZES[0]@.len() != SHOT_SIZES[2]@.len()); }
        if i == 0 && j == 3 { assert(SHOT_SIZES[0]@.len() != SHOT_SIZES[3]@.len()); }
        if i == 0 && j == 4 { assert(SHOT_SIZES[0]@[0] != SHOT_SIZES[4]@[0]); }
        if i == 0 && j == 5 { assert(SHOT_SIZES[0]@.len() != SHOT_SIZES[5]@.len()); }
        if i == 0 && j == 6 { assert(SHOT_SIZES[0]@.len() != SHOT_SIZES[6]@.len()); }
        if i == 1 && j == 2 { assert(SHOT_SIZES[1]@.len() != SHOT_SIZES[2]@.len()); }
        if i == 1 && j == 3 { assert(SHOT_SIZES[1]@.len() != SHOT_SIZES[3]@.len()); }
        if i == 1 && j == 4 { assert(SHOT_SIZES[1]@.len() != SHOT_SIZES[4]@.len()); }
        if i == 1 && j == 5 { assert(SHOT_SIZES[1]@.len() != SHOT_SIZES[5]@.len()); }
        if i == 1 && j == 6 { assert(SHOT_SIZES[1]@.len() != SHOT_SIZES[6]@.len()); }
        if i == 2 && j == 3 { assert(SHOT_SIZES[2]@.len() != SHOT_SIZES[3]@.len()); }
        if i == 2 && j == 4 { assert(SHOT_SIZES[2]@.len() != SHOT_SIZES[4]@.len()); }
        if i == 2 && j == 5 { assert(SHOT_SIZES[2]@.len() != SHOT_SIZES[5]@.len()); }
        if i == 2 && j == 6 { assert(SHOT_SIZES[2]@.len() != SHOT_SIZES[6]@.len()); }
        if i == 3 && j == 4 { assert(SHOT_SIZES[3]@.len() != SHOT_SIZES[4]@.len()); }
        if i == 3 && j == 5 { assert(SHOT_SIZES[3]@.len() != SHOT_SIZES[5]@.len()); }
        if i == 3 && j == 6 { assert(SHOT_SIZES[3]@.len() != SHOT_SIZES[6]@.len()); }
        if i == 4 && j == 5 { assert(SHOT_SIZES[4]@.len() != SHOT_SIZES[5]@.len()); }
        if i == 4 && j == 6 { assert(SHOT_SIZES[4]@.len() != SHOT_SIZES[6]@.len()); }
        if i == 5 && j == 6 { assert(SHOT_SIZES[5]@.len() != SHOT_SIZES[6]@.len()); }
    }
}

/// The words of `ANGLES` are pairwise distinct.
pub proof fn lemma_angles_distinct()
    ensures
        all_distinct(ANGLES@),
{
    reveal_strlit("eye_level");
    reveal_strlit("low");
    reveal_strlit("high");
    reveal_strlit("overhead");
    reveal_strlit("dutch");
    reveal_strlit("over_shoulder");
    reveal_strlit("pov");
    assert forall|i: int, j: int| 0 <= i < j < 7 implies (#[trigger] ANGLES@[i])@ != (#[trigger] ANGLES@[j])@ by {
        if i == 0 && j == 1 { assert(ANGLES[0]@.len() != ANGLES[1]@.len()); }
        if i == 0 && j == 2 { assert(ANGLES[0]@.len() != ANGLES[2]@.len()); }
        if i == 0 && j == 3 { assert(ANGLES[0]@.len() != ANGLES[3]@.len()); }
        if i == 0 && j == 4 { assert(ANGLES[0]@.len() != ANGLES[4]@.len()); }
        if i == 0 && j == 5 { assert(ANGLES[0]@.len() != ANGLES[5]@.len()); }
        if i == 0 && j == 6 { assert(ANGLES[0]@.len() != ANGLES[6]@.len()); }
        if i == 1 && j == 2 { assert(ANGLES[1]@.len() != ANGLES[2]@.len()); }
        if i == 1 && j == 3 { assert(ANGLES[1]@.len() != ANGLES[3]@.len()); }
        if i == 1 && j == 4 { assert(ANGLES[1]@.len() != ANGLES[4]@.len()); }
        if i == 1 && j == 5 { assert(ANGLES[1]@.len() != ANGLES[5]@.len()); }
        if i == 1 && j == 6 { assert(ANGLES[1]@[0] != ANGLES[6]@[0]); }
        if i == 2 && j == 3 { assert(ANGLES[2]@.len() != ANGLES[3]@.len()); }
        if i == 2 && j == 4 { assert(ANGLES[2]@.len() != ANGLES[4]@.len()); }
        if i == 2 && j == 5 { assert(ANGLES[2]@.len() != ANGLES[5]@.len()); }
        if i == 2 && j == 6 { assert(ANGLES[2]@.len() != ANGLES[6]@.len()); }
        if i == 3 && j == 4 { assert(ANGLES[3]@.len() != ANGLES[4]@.len()); }
        if i == 3 && j == 5 { assert(ANGLES[3]@.len() != ANGLES[5]@.len()); }
        if i == 3 && j == 6 { assert(ANGLES[3]@.len() != ANGLES[6]@.len()); }
        if i == 4 && j == 5 { assert(ANGLES[4]@.len() != ANGLES[5]@.len()); }
        if i == 4 && j == 6 { assert(ANGLES[4]@.len() != ANGLES[6]@.len()); }
        if i == 5 && j == 6 { assert(ANGLES[5]@.len() != ANGLES[6]@.len()); }
    }
}

/// The words of `CAMERA_MOTIONS` are pairwise distinct.
pub proof fn lemma_camera_motions_distinct()
    ensures
        all_distinct(CAMERA_MOTIONS@),
{
    reveal_strlit("static");
    reveal_strlit("push_in");
    reveal_strlit("pull_out");
    reveal_strlit("pan_left");
    reveal_strlit("pan_right");
    reveal_strlit("tilt_up");
    reveal_strlit("tilt_down");
    reveal_strlit("truck_left");
    reveal_strlit("truck_right");
    reveal_strlit("pedestal_up");
    reveal_strlit("pedestal_down");
    reveal_strlit("zoom_in");
    reveal_strlit("zoom_out");
    reveal_strlit("tracking");
    reveal_strlit("handheld_shake");
    assert forall|i: int, j: int| 0 <= i < j < 15 implies (#[trigger] CAMERA_MOTIONS@[i])@ != (#[trigger] CAMERA_MOTIONS@[j])@ by {
        if i == 0 && j == 1 { assert(CAMERA_MOTIONS[0]@.len() != CAMERA_MOTIONS[1]@.len()); }
        if i == 0 && j == 2 { assert(CAMERA_MOTIONS[0]@.len() != CAMERA_MOTIONS[2]@.len()); }
        if i == 0 && j == 3 { assert(CAMERA_MOTIONS[0]@.len() != CAMERA_MOTIONS[3]@.len()); }
        if i == 0 && j == 4 { assert(CAMERA_MOTIONS[0]@.len() != CAMERA_MOTIONS[4]@.len()); }
        if i == 0 && j == 5 { assert(CAMERA_MOTIONS[0]@.len() != CAMERA_MOTIONS[5]@.len()); }
        if i == 0 && j == 6 { assert(CAMERA_MOTIONS[0]@.len() != CAMERA_MOTIONS[6]@.len()); }
        if i == 0 && j == 7 { assert(CAMERA_MOTIONS[0]@.len() != CAMERA_MOTIONS[7]@.len()); }
        if i == 0 && j == 8 { assert(CAMERA_MOTIONS[0]@.len() != CAMERA_MOTIONS[8]@.len()); }
        if i == 0 && j == 9 { assert(CAMERA_MOTIONS[0]@.len() != CAMERA_MOTIONS[9]@.len()); }
        if i == 0 && j == 10 { assert(CAMERA_MOTIONS[0]@.len() != CAMERA_MOTIONS[10]@.len()); }
        if i == 0 && j == 11 { assert(CAMERA_MOTIONS[0]@.len() != CAMERA_MOTIONS[11]@.len()); }
        if i == 0 && j == 12 { assert(CAMERA_MOTIONS[0]@.len() != CAMERA_MOTIONS[12]@.len()); }
        if i == 0 && j == 13 { assert(CAMERA_MOTIONS[0]@.len() != CAMERA_MOTIONS[13]@.len()); }
        if i == 0 && j == 14 { assert(CAMERA_MOTIONS[0]@.len() != CAMERA_MOTIONS[14]@.len()); }
        if i == 1 && j == 2 { assert(CAMERA_MOTIONS[1]@.len() != CAMERA_MOTIONS[2]@.len()); }
        if i == 1 && j == 3 { assert(CAMERA_MOTIONS[1]@.len() != CAMERA_MOTIONS[3]@.len()); }
        if i == 1 && j == 4 { assert(CAMERA_MOTIONS[1]@.len() != CAMERA_MOTIONS[4]@.len()); }
        if i == 1 && j == 5 { assert(CAMERA_MOTIONS[1]@[0] != CAMERA_MOTIONS[5]@[0]); }
        if i == 1 && j == 6 { assert(CAMERA_MOTIONS[1]@.len() != CAMERA_MOTIONS[6]@.len()); }
        if i == 1 && j == 7 { assert(CAMERA_MOTIONS[1]@.len() != CAMERA_MOTIONS[7]@.len()); }
        if i == 1 && j == 8 { assert(CAMERA_MOTIONS[1]@.len() != CAMERA_MOTIONS[8]@.len()); }
        if i == 1 && j == 9 { assert(CAMERA_MOTIONS[1]@.len() != CAMERA_MOTIONS[9]@.len()); }
        if i == 1 && j == 10 { assert(CAMERA_MOTIONS[1]@.len() != CAMERA_MOTIONS[10]@.len()); }
        if i == 1 && j == 11 { assert(CAMERA_MOTIONS[1]@[0] != CAMERA_MOTIONS[11]@[0]); }
        if i == 1 && j == 12 { assert(CAMERA_MOTIONS[1]@.len() != CAMERA_MOTIONS[12]@.len()); }
        if i == 1 && j == 13 { assert(CAMERA_MOTIONS[1]@.len() != CAMERA_MOTIONS[13]@.len()); }
        if i == 1 && j == 14 { assert(CAMERA_MOTIONS[1]@.len() != CAMERA_MOTIONS[14]@.len()); }
        if i == 2 && j == 3 { assert(CAMERA_MOTIONS[2]@[1] != CAMERA_MOTIONS[3]@[1]); }
        if i == 2 && j == 4 { assert(CAMERA_MOTIONS[2]@.len() != CAMERA_MOTIONS[4]@.len()); }
        if i == 2 && j == 5 { assert(CAMERA_MOTIONS[2]@.len() != CAMERA_MOTIONS[5]@.len()); }
        if i == 2 && j == 6 { assert(CAMERA_MOTIONS[2]@.len() != CAMERA_MOTIONS[6]@.len()); }
        if i == 2 && j == 7 { assert(CAMERA_MOTIONS[2]@.len() != CAMERA_MOTIONS[7]@.len()); }
        if i == 2 && j == 8 { assert(CAMERA_MOTIONS[2]@.len() != CAMERA_MOTIONS[8]@.len()); }
        if i == 2 && j == 9 { assert(CAMERA_MOTIONS[2]@.len() != CAMERA_MOTIONS[9]@.len()); }
        if i == 2 && j == 10 { assert(CAMERA_MOTIONS[2]@.len() != CAMERA_MOTIONS[10]@.len()); }
        if i == 2 && j == 11 { assert(CAMERA_MOTIONS[2]@.len() != CAMERA_MOTIONS[11]@.len()); }
        if i == 2 && j == 12 { assert(CAMERA_MOTIONS[2]@[0] != CAMERA_MOTIONS[12]@[0]); }
        if i == 2 && j == 13 { assert(CAMERA_MOTIONS[2]@[0] != CAMERA_MOTIONS[13]@[0]); }
        if i == 2 && j == 14 { assert(CAMERA_MOTIONS[2]@.len() != CAMERA_MOTIONS[14]@.len()); }
        if i == 3 && j == 4 { assert(CAMERA_MOTIONS[3]@.len() != CAMERA_MOTIONS[4]@.len()); }
        if i == 3 && j == 5 { assert(CAMERA_MOTIONS[3]@.len() != CAMERA_MOTIONS[5]@.len()); }
        if i == 3 && j == 6 { assert(CAMERA_MOTIONS[3]@.len() != CAMERA_MOTIONS[6]@.len()); }
        if i == 3 && j == 7 { assert(CAMERA_MOTIONS[3]@.len() != CAMERA_MOTIONS[7]@.len()); }
        if i == 3 && j == 8 { assert(CAMERA_MOTIONS[3]@.len() != CAMERA_MOTIONS[8]@.len()); }
        if i == 3 && j == 9 { assert(CAMERA_MOTIONS[3]@.len() != CAMERA_MOTIONS[9]@.len()); }
        if i == 3 && j == 10 { assert(CAMERA_MOTIONS[3]@.len() != CAMERA_MOTIONS[10]@.len()); }
        if i == 3 && j == 11 { assert(CAMERA_MOTIONS[3]@.len() != CAMERA_MOTIONS[11]@.len()); }
        if i == 3 && j == 12 { assert(CAMERA_MOTIONS[3]@[0] != CAMERA_MOTIONS[12]@[0]); }
        if i == 3 && j == 13 { assert(CAMERA_MOTIONS[3]@[0] != CAMERA_MOTIONS[13]@[0]); }
        if i == 3 && j == 14 { assert(CAMERA_MOTIONS[3]@.len() != CAMERA_MOTIONS[14]@.len()); }
        if i == 4 && j == 5 { assert(CAMERA_MOTIONS[4]@.len() != CAMERA_MOTIONS[5]@.len()); }
        if i == 4 && j == 6 { assert(CAMERA_MOTIONS[4]@[0] != CAMERA_MOTIONS[6]@[0]); }
        if i == 4 && j == 7 { assert(CAMERA_MOTIONS[4]@.len() != CAMERA_MOTIONS[7]@.len()); }
        if i == 4 && j == 8 { assert(CAMERA_MOTIONS[4]@.len() != CAMERA_MOTIONS[8]@.len()); }
        if i == 4 && j == 9 { assert(CAMERA_MOTIONS[4]@.len() != CAMERA_MOTIONS[9]@.len()); }
        if i == 4 && j == 10 { assert(CAMERA_MOTIONS[4]@.len() != CAMERA_MOTIONS[10]@.len()); }
        if i == 4 && j == 11 { assert(CAMERA_MOTIONS[4]@.len() != CAMERA_MOTIONS[11]@.len()); }
        if i == 4 && j == 12 { assert(CAMERA_MOTIONS[4]@.len() != CAMERA_MOTIONS[12]@.len()); }
        if i == 4 && j == 13 { assert(CAMERA_MOTIONS[4]@.len() != CAMERA_MOTIONS[13]@.len()); }
        if i == 4 && j == 14 { assert(CAMERA_MOTIONS[4]@.len() != CAMERA_MOTIONS[14]@.len()); }
        if i == 5 && j == 6 { assert(CAMERA_MOTIONS[5]@.len() != CAMERA_MOTIONS[6]@.len()); }
        if i == 5 && j == 7 { assert(CAMERA_MOTIONS[5]@.len() != CAMERA_MOTIONS[7]@.len()); }
        if i == 5 && j == 8 { assert(CAMERA_MOTIONS[5]@.len() != CAMERA_MOTIONS[8]@.len()); }
        if i == 5 && j == 9 { assert(CAMERA_MOTIONS[5]@.len() != CAMERA_MOTIONS[9]@.len()); }
        if i == 5 && j == 10 { assert(CAMERA_MOTIONS[5]@.len() != CAMERA_MOTIONS[10]@.len()); }
        if i == 5 && j == 11 { assert(CAMERA_MOTIONS[5]@[0] != CAMERA_MOTIONS[11]@[0]); }
        if i == 5 && j == 12 { assert(CAMERA_MOTIONS[5]@.len() != CAMERA_MOTIONS[12]@.len()); }
        if i == 5 && j == 13 { assert(CAMERA_MOTIONS[5]@.len() != CAMERA_MOTIONS[13]@.len()); }
        if i == 5 && j == 14 { assert(CAMERA_MOTIONS[5]@.len() != CAMERA_MOTIONS[14]@.len()); }
        if i == 6 && j == 7 { assert(CAMERA_MOTIONS[6]@.len() != CAMERA_MOTIONS[7]@.len()); }
        if i == 6 && j == 8 { assert(CAMERA_MOTIONS[6]@.len() != CAMERA_MOTIONS[8]@.len()); }
        if i == 6 && j == 9 { assert(CAMERA_MOTIONS[6]@.len() != CAMERA_MOTIONS[9]@.len()); }
        if i == 6 && j == 10 { assert(CAMERA_MOTIONS[6]@.len() != CAMERA_MOTIONS[10]@.len()); }
        if i == 6 && j == 11 { assert(CAMERA_MOTIONS[6]@.len() != CAMERA_MOTIONS[11]@.len()); }
        if i == 6 && j == 12 { assert(CAMERA_MOTIONS[6]@.len() != CAMERA_MOTIONS[12]@.len()); }
        if i == 6 && j == 13 { assert(CAMERA_MOTIONS[6]@.len() != CAMERA_MOTIONS[13]@.len()); }
        if i == 6 && j == 14 { assert(CAMERA_MOTIONS[6]@.len() != CAMERA_MOTIONS[14]@.len()); }
        if i == 7 && j == 8 { assert(CAMERA_MOTIONS[7]@.len() != CAMERA_MOTIONS[8]@.len()); }
        if i == 7 && j == 9 { assert(CAMERA_MOTIONS[7]@.len() != CAMERA_MOTIONS[9]@.len()); }
        if i == 7 && j == 10 { assert(CAMERA_MOTIONS[7]@.len() != CAMERA_MOTIONS[10]@.len()); }
        if i == 7 && j == 11 { assert(CAMERA_MOTIONS[7]@.len() != CAMERA_MOTIONS[11]@.len()); }
        if i == 7 && j == 12 { assert(CAMERA_MOTIONS[7]@.len() != CAMERA_MOTIONS[12]@.len()); }
        if i == 7 && j == 13 { assert(CAMERA_MOTIONS[7]@.len() != CAMERA_MOTIONS[13]@.len()); }
        if i == 7 && j == 14 { assert(CAMERA_MOTIONS[7]@.len() != CAMERA_MOTIONS[14]@.len()); }
        if i == 8 && j == 9 { assert(CAMERA_MOTIONS[8]@[0] != CAMERA_MOTIONS[9]@[0]); }
        if i == 8 && j == 10 { assert(CAMERA_MOTIONS[8]@.len() != CAMERA_MOTIONS[10]@.len()); }
        if i == 8 && j == 11 { assert(CAMERA_MOTIONS[8]@.len() != CAMERA_MOTIONS[11]@.len()); }
        if i == 8 && j == 12 { assert(CAMERA_MOTIONS[8]@.len() != CAMERA_MOTIONS[12]@.len()); }
        if i == 8 && j == 13 { assert(CAMERA_MOTIONS[8]@.len() != CAMERA_MOTIONS[13]@.len()); }
        if i == 8 && j == 14 { assert(CAMERA_MOTIONS[8]@.len() != CAMERA_MOTIONS[14]@.len()); }
        if i == 9 && j == 10 { assert(CAMERA_MOTIONS[9]@.len() != CAMERA_MOTIONS[10]@.len()); }
        if i == 9 && j == 11 { assert(CAMERA_MOTIONS[9]@.len() != CAMERA_MOTIONS[11]@.len()); }
        if i == 9 && j == 12 { assert(CAMERA_MOTIONS[9]@.len() != CAMERA_MOTIONS[12]@.len()); }
        if i == 9 && j == 13 { assert(CAMERA_MOTIONS[9]@.len() != CAMERA_MOTIONS[13]@.len()); }
        if i == 9 && j == 14 { assert(CAMERA_MOTIONS[9]@.len() != CAMERA_MOTIONS[14]@.len()); }
        if i == 10 && j == 11 { assert(CAMERA_MOTIONS[10]@.len() != CAMERA_MOTIONS[11]@.len()); }
        if i == 10 && j == 12 { assert(CAMERA_MOTIONS[10]@.len() != CAMERA_MOTIONS[12]@.len()); }
        if i == 10 && j == 13 { assert(CAMERA_MOTIONS[10]@.len() != CAMERA_MOTIONS[13]@.len()); }
        if i == 10 && j == 14 { assert(CAMERA_MOTIONS[10]@.len() != CAMERA_MOTIONS[14]@.len()); }
        if i == 11 && j == 12 { assert(CAMERA_MOTIONS[11]@.len() != CAMERA_MOTIONS[12]@.len()); }
        if i == 11 && j == 13 { assert(CAMERA_MOTIONS[11]@.len() != CAMERA_MOTIONS[13]@.len()); }
        if i == 11 && j == 14 { assert(CAMERA_MOTIONS[11]@.len() != CAMERA_MOTIONS[14]@.len()); }
        if i == 12 && j == 13 { assert(CAMERA_MOTIONS[12]@[0] != CAMERA_MOTIONS[13]@[0]); }
        if i == 12 && j == 14 { assert(CAMERA_MOTIONS[12]@.len() != CAMERA_MOTIONS[14]@.len()); }
        if i == 13 && j == 14 { assert(CAMERA_MOTIONS[13]@.len() != CAMERA_MOTIONS[14]@.len()); }
    }
}

/// The words of `LIGHTING_SOURCES` are pairwise distinct.
pub proof fn lemma_lighting_sources_distinct()
    ensures
        all_distinct(LIGHTING_SOURCES@),
{
    reveal_strlit("daylight");
    reveal_strlit("moonlight");
    reveal_strlit("practical");
    reveal_strlit("firelight");
    reveal_strlit("fluorescent");
    reveal_strlit("overcast");
    reveal_strlit("mixed");
    reveal_strlit("artificial");
    assert forall|i: int, j: int| 0 <= i < j < 8 implies (#[trigger] LIGHTING_SOURCES@[i])@ != (#[trigger] LIGHTING_SOURCES@[j])@ by {
        if i == 0 && j == 1 { assert(LIGHTING_SOURCES[0]@.len() != LIGHTING_SOURCES[1]@.len()); }
        if i == 0 && j == 2 { assert(LIGHTING_SOURCES[0]@.len() != LIGHTING_SOURCES[2]@.len()); }
        if i == 0 && j == 3 { assert(LIGHTING_SOURCES[0]@.len() != LIGHTING_SOURCES[3]@.len()); }
        if i == 0 && j == 4 { assert(LIGHTING_SOURCES[0]@.len() != LIGHTING_SOURCES[4]@.len()); }
        if i == 0 && j == 5 { assert(LIGHTING_SOURCES[0]@[0] != LIGHTING_SOURCES[5]@[0]); }
        if i == 0 && j == 6 { assert(LIGHTING_SOURCES[0]@.len() != LIGHTING_SOURCES[6]@.len()); }
        if i == 0 && j == 7 { assert(LIGHTING_SOURCES[0]@.len() != LIGHTING_SOURCES[7]@.len()); }
        if i == 1 && j == 2 { assert(LIGHTING_SOURCES[1]@[0] != LIGHTING_SOURCES[2]@[0]); }
        if i == 1 && j == 3 { assert(LIGHTING_SOURCES[1]@[0] != LIGHTING_SOURCES[3]@[0]); }
        if i == 1 && j == 4 { assert(LIGHTING_SOURCES[1]@.len() != LIGHTING_SOURCES[4]@.len()); }
        if i == 1 && j == 5 { assert(LIGHTING_SOURCES[1]@.len() != LIGHTING_SOURCES[5]@.len()); }
        if i == 1 && j == 6 { assert(LIGHTING_SOURCES[1]@.len() != LIGHTING_SOURCES[6]@.len()); }
        if i == 1 && j == 7 { assert(LIGHTING_SOURCES[1]@.len() != LIGHTING_SOURCES[7]@.len()); }
        if i == 2 && j == 3 { assert(LIGHTING_SOURCES[2]@[0] != LIGHTING_SOURCES[3]@[0]); }
        if i == 2 && j == 4 { assert(LIGHTING_SOURCES[2]@.len() != LIGHTING_SOURCES[4]@.len()); }
        if i == 2 && j == 5 { assert(LIGHTING_SOURCES[2]@.len() != LIGHTING_SOURCES[5]@.len()); }
        if i == 2 && j == 6 { assert(LIGHTING_SOURCES[2]@.len() != LIGHTING_SOURCES[6]@.len()); }
        if i == 2 && j == 7 { assert(LIGHTING_SOURCES[2]@.len() != LIGHTING_SOURCES[7]@.len()); }
        if i == 3 && j == 4 { assert(LIGHTING_SOURCES[3]@.len() != LIGHTING_SOURCES[4]@.len()); }
        if i == 3 && j == 5 { assert(LIGHTING_SOURCES[3]@.len() != LIGHTING_SOURCES[5]@.len()); }
        if i == 3 && j == 6 { assert(LIGHTING_SOURCES[3]@.len() != LIGHTING_SOURCES[6]@.len()); }
        if i == 3 && j == 7 { assert(LIGHTING_SOURCES[3]@.len() != LIGHTING_SOURCES[7]@.len()); }
        if i == 4 && j == 5 { assert(LIGHTING_SOURCES[4]@.len() != LIGHTING_SOURCES[5]@.len()); }
        if i == 4 && j == 6 { assert(LIGHTING_SOURCES[4]@.len() != LIGHTING_SOURCES[6]@.len()); }
        if i == 4 && j == 7 { assert(LIGHTING_SOURCES[4]@.len() != LIGHTING_SOURCES[7]@.len()); }
        if i == 5 && j == 6 { assert(LIGHTING_SOURCES[5]@.len() != LIGHTING_SOURCES[6]@.len()); }
        if i == 5 && j == 7 { assert(LIGHTING_SOURCES[5]@.len() != LIGHTING_SOURCES[7]@.len()); }
        if i == 6 && j == 7 { assert(LIGHTING_SOURCES[6]@.len() != LIGHTING_SOURCES[7]@.len()); }
    }
}

/// The words of `LIGHTING_KEYS` are pairwise distinct.
pub proof fn lemma_lighting_keys_distinct()
    ensures
        all_distinct(LIGHTING_KEYS@),
{
    reveal_strlit("soft");
    reveal_strlit("hard");
    reveal_strlit("top");
    reveal_strlit("side");
    reveal_strlit("back");
    reveal_strlit("rim");
    reveal_strlit("silhouette");
    reveal_strlit("bottom");
    assert forall|i: int, j: int| 0 <= i < j < 8 implies (#[trigger] LIGHTING_KEYS@[i])@ != (#[trigger] LIGHTING_KEYS@[j])@ by {
        if i == 0 && j == 1 { assert(LIGHTING_KEYS[0]@[0] != LIGHTING_KEYS[1]@[0]); }
        if i == 0 && j == 2 { assert(LIGHTING_KEYS[0]@.len() != LIGHTING_KEYS[2]@.len()); }
        if i == 0 && j == 3 { assert(LIGHTING_KEYS[0]@[1] != LIGHTING_KEYS[3]@[1]); }
        if i == 0 && j == 4 { assert(LIGHTING_KEYS[0]@[0] != LIGHTING_KEYS[4]@[0]); }
        if i == 0 && j == 5 { assert(LIGHTING_KEYS[0]@.len() != LIGHTING_KEYS[5]@.len()); }
        if i == 0 && j == 6 { assert(LIGHTING_KEYS[0]@.len() != LIGHTING_KEYS[6]@.len()); }
        if i == 0 && j == 7 { assert(LIGHTING_KEYS[0]@.len() != LIGHTING_KEYS[7]@.len()); }
        if i == 1 && j == 2 { assert(LIGHTING_KEYS[1]@.len() != LIGHTING_KEYS[2]@.len()); }
        if i == 1 && j == 3 { assert(LIGHTING_KEYS[1]@[0] != LIGHTING_KEYS[3]@[0]); }
        if i == 1 && j == 4 { assert(LIGHTING_KEYS[1]@[0] != LIGHTING_KEYS[4]@[0]); }
        if i == 1 && j == 5 { assert(LIGHTING_KEYS[1]@.len() != LIGHTING_KEYS[5]@.len()); }
        if i == 1 && j == 6 { assert(LIGHTING_KEYS[1]@.len() != LIGHTING_KEYS[6]@.len()); }
        if i == 1 && j == 7 { assert(LIGHTING_KEYS[1]@.len() != LIGHTING_KEYS[7]@.len()); }
        if i == 2 && j == 3 { assert(LIGHTING_KEYS[2]@.len() != LIGHTING_KEYS[3]@.len()); }
        if i == 2 && j == 4 { assert(LIGHTING_KEYS[2]@.len() != LIGHTING_KEYS[4]@.len()); }
        if i == 2 && j == 5 { assert(LIGHTING_KEYS[2]@[0] != LIGHTING_KEYS[5]@[0]); }
        if i == 2 && j == 6 { assert(LIGHTING_KEYS[2]@.len() != LIGHTING_KEYS[6]@.len()); }
        if i == 2 && j == 7 { assert(LIGHTING_KEYS[2]@.len() != LIGHTING_KEYS[7]@.len()); }
        if i == 3 && j == 4 { assert(LIGHTING_KEYS[3]@[0] != LIGHTING_KEYS[4]@[0]); }
        if i == 3 && j == 5 { assert(LIGHTING_KEYS[3]@.len() != LIGHTING_KEYS[5]@.len()); }
        if i == 3 && j == 6 { assert(LIGHTING_KEYS[3]@.len() != LIGHTING_KEYS[6]@.len()); }
        if i == 3 && j == 7 { assert(LIGHTING_KEYS[3]@.len() != LIGHTING_KEYS[7]@.len()); }
        if i == 4 && j == 5 { assert(LIGHTING_KEYS[4]@.len() != LIGHTING_KEYS[5]@.len()); }
        if i == 4 && j == 6 { assert(LIGHTING_KEYS[4]@.len() != LIGHTING_KEYS[6]@.len()); }
        if i == 4 && j == 7 { assert(LIGHTING_KEYS[4]@.len() != LIGHTING_KEYS[7]@.len()); }
        if i == 5 && j == 6 { assert(LIGHTING_KEYS[5]@.len() != LIGHTING_KEYS[6]@.len()); }
        if i == 5 && j == 7 { assert(LIGHTING_KEYS[5]@.len() != LIGHTING_KEYS[7]@.len()); }
        if i == 6 && j == 7 { assert(LIGHTING_KEYS[6]@.len() != LIGHTING_KEYS[7]@.len()); }
    }
}

/// The words of `SHOT_FUNCTIONS` are pairwise distinct.
pub proof fn lemma_shot_functions_distinct()
    ensures
        all_distinct(SHOT_FUNCTIONS@),
{
    reveal_strlit("change_emotion");
    reveal_strlit("advance_action");
    reveal_strlit("raise_pressure");
    assert forall|i: int, j: int| 0 <= i < j < 3 implies (#[trigger] SHOT_FUNCTIONS@[i])@ != (#[trigger] SHOT_FUNCTIONS@[j])@ by {
        if i == 0 && j == 1 { assert(SHOT_FUNCTIONS[0]@[0] != SHOT_FUNCTIONS[1]@[0]); }
        if i == 0 && j == 2 { assert(SHOT_FUNCTIONS[0]@[0] != SHOT_FUNCTIONS[2]@[0]); }
        if i == 1 && j == 2 { assert(SHOT_FUNCTIONS[1]@[0] != SHOT_FUNCTIONS[2]@[0]); }
    }
}

/// The words of `BEAT_TYPES` are pairwise distinct.
pub proof fn lemma_beat_types_distinct()
    ensures
        all_distinct(BEAT_TYPES@),
{
    reveal_strlit("hook");
    reveal_strlit("setup");
    reveal_strlit("develop");
    reveal_strlit("turn");
    reveal_strlit("payoff");
    reveal_strlit("resolve");
    assert forall|i: int, j: int| 0 <= i < j < 6 implies (#[trigger] BEAT_TYPES@[i])@ != (#[trigger] BEAT_TYPES@[j])@ by {
        if i == 0 && j == 1 { assert(BEAT_TYPES[0]@.len() != BEAT_TYPES[1]@.len()); }
        if i == 0 && j == 2 { assert(BEAT_TYPES[0]@.len() != BEAT_TYPES[2]@.len()); }
        if i == 0 && j == 3 { assert(BEAT_TYPES[0]@[0] != BEAT_TYPES[3]@[0]); }
        if i == 0 && j == 4 { assert(BEAT_TYPES[0]@.len() != BEAT_TYPES[4]@.len()); }
        if i == 0 && j == 5 { assert(BEAT_TYPES[0]@.len() != BEAT_TYPES[5]@.len()); }
        if i == 1 && j == 2 { assert(BEAT_TYPES[1]@.len() != BEAT_TYPES[2]@.len()); }
        if i == 1 && j == 3 { assert(BEAT_TYPES[1]@.len() != BEAT_TYPES[3]@.len()); }
        if i == 1 && j == 4 { assert(BEAT_TYPES[1]@.len() != BEAT_TYPES[4]@.len()); }
        if i == 1 && j == 5 { assert(BEAT_TYPES[1]@.len() != BEAT_TYPES[5]@.len()); }
        if i == 2 && j == 3 { assert(BEAT_TYPES[2]@.len() != BEAT_TYPES[3]@.len()); }
        if i == 2 && j == 4 { assert(BEAT_TYPES[2]@.len() != BEAT_TYPES[4]@.len()); }
        if i == 2 && j == 5 { assert(BEAT_TYPES[2]@[0] != BEAT_TYPES[5]@[0]); }
        if i == 3 && j == 4 { assert(BEAT_TYPES[3]@.len() != BEAT_TYPES[4]@.len()); }
        if i == 3 && j == 5 { assert(BEAT_TYPES[3]@.len() != BEAT_TYPES[5]@.len()); }
        if i == 4 && j == 5 { assert(BEAT_TYPES[4]@.len() != BEAT_TYPES[5]@.len()); }
    }
}

/// The words of `BANNED_TIER1` are pairwise distinct.
pub proof fn lemma_banned_tier1_distinct()
    ensures
        all_distinct(BANNED_TIER1@),
{
    reveal_strlit("cinematic");
    reveal_strlit("epic");
    reveal_strlit("stunning");
    reveal_strlit("masterpiece");
    reveal_strlit("best quality");
    reveal_strlit("high quality");
    reveal_strlit("ultra detailed");
    reveal_strlit("8k");
    reveal_strlit("4k");
    reveal_strlit("电影感");
    reveal_strlit("电影质感");
    reveal_strlit("史诗");
    reveal_strlit("大片质感");
    reveal_strlit("唯美");
    reveal_strlit("高清");
    reveal_strlit("超高清");
    reveal_strlit("精致细腻");
    reveal_strlit("画质极佳");
    assert forall|i: int, j: int| 0 <= i < j < 18 implies (#[trigger] BANNED_TIER1@[i])@ != (#[trigger] BANNED_TIER1@[j])@ by {
        if i == 0 && j == 1 { assert(BANNED_TIER1[0]@.len() != BANNED_TIER1[1]@.len()); }
        if i == 0 && j == 2 { assert(BANNED_TIER1[0]@.len() != BANNED_TIER1[2]@.len()); }
        if i == 0 && j == 3 { assert(BANNED_TIER1[0]@.len() != BANNED_TIER1[3]@.len()); }
        if i == 0 && j == 4 { assert(BANNED_TIER1[0]@.len() != BANNED_TIER1[4]@.len()); }
        if i == 0 && j == 5 { assert(BANNED_TIER1[0]@.len() != BANNED_TIER1[5]@.len()); }
        if i == 0 && j == 6 { assert(BANNED_TIER1[0]@.len() != BANNED_TIER1[6]@.len()); }
        if i == 0 && j == 7 { assert(BANNED_TIER1[0]@.len() != BANNED_TIER1[7]@.len()); }
        if i == 0 && j == 8 { assert(BANNED_TIER1[0]@.len() != BANNED_TIER1[8]@.len()); }
        if i == 0 && j == 9 { assert(BANNED_TIER1[0]@.len() != BANNED_TIER1[9]@.len()); }
        if i == 0 && j == 10 { assert(BANNED_TIER1[0]@.len() != BANNED_TIER1[10]@.len()); }
        if i == 0 && j == 11 { assert(BANNED_TIER1[0]@.len() != BANNED_TIER1[11]@.len()); }
        if i == 0 && j == 12 { assert(BANNED_TIER1[0]@.len() != BANNED_TIER1[12]@.len()); }
        if i == 0 && j == 13 { assert(BANNED_TIER1[0]@.len() != BANNED_TIER1[13]@.len()); }
        if i == 0 && j == 14 { assert(BANNED_TIER1[0]@.len() != BANNED_TIER1[14]@.len()); }
        if i == 0 && j == 15 { assert(BANNED_TIER1[0]@.len() != BANNED_TIER1[15]@.len()); }
        if i == 0 && j == 16 { assert(BANNED_TIER1[0]@.len() != BANNED_TIER1[16]@.len()); }
        if i == 0 && j == 17 { assert(BANNED_TIER1[0]@.len() != BANNED_TIER1[17]@.len()); }
        if i == 1 && j == 2 { assert(BANNED_TIER1[1]@.len() != BANNED_TIER1[2]@.len()); }
        if i == 1 && j == 3 { assert(BANNED_TIER1[1]@.len() != BANNED_TIER1[3]@.len()); }
        if i == 1 && j == 4 { assert(BANNED_TIER1[1]@.len() != BANNED_TIER1[4]@.len()); }
        if i == 1 && j == 5 { assert(BANNED_TIER1[1]@.len() != BANNED_TIER1[5]@.len()); }
        if i == 1 && j == 6 { assert(BANNED_TIER1[1]@.len() != BANNED_TIER1[6]@.len()); }
        if i == 1 && j == 7 { assert(BANNED_TIER1[1]@.len() != BANNED_TIER1[7]@.len()); }
        if i == 1 && j == 8 { assert(BANNED_TIER1[1]@.len() != BANNED_TIER1[8]@.len()); }
        if i == 1 && j == 9 { assert(BANNED_TIER1[1]@.len() != BANNED_TIER1[9]@.len()); }
        if i == 1 && j == 10 { assert(BANNED_TIER1[1]@[0] != BANNED_TIER1[10]@[0]); }
        if i == 1 && j == 11 { assert(BANNED_TIER1[1]@.len() != BANNED_TIER1[11]@.len()); }
        if i == 1 && j == 12 { assert(BANNED_TIER1[1]@[0] != BANNED_TIER1[12]@[0]); }
        if i == 1 && j == 13 { assert(BANNED_TIER1[1]@.len() != BANNED_TIER1[13]@.len()); }
        if i == 1 && j == 14 { assert(BANNED_TIER1[1]@.len() != BANNED_TIER1[14]@.len()); }
        if i == 1 && j == 15 { assert(BANNED_TIER1[1]@.len() != BANNED_TIER1[15]@.len()); }
        if i == 1 && j == 16 { assert(BANNED_TIER1[1]@[0] != BANNED_TIER1[16]@[0]); }
        if i == 1 && j == 17 { assert(BANNED_TIER1[1]@[0] != BANNED_TIER1[17]@[0]); }
        if i == 2 && j == 3 { assert(BANNED_TIER1[2]@.len() != BANNED_TIER1[3]@.len()); }
        if i == 2 && j == 4 { assert(BANNED_TIER1[2]@.len() != BANNED_TIER1[4]@.len()); }
        if i == 2 && j == 5 { assert(BANNED_TIER1[2]@.len() != BANNED_TIER1[5]@.len()); }
        if i == 2 && j == 6 { assert(BANNED_TIER1[2]@.len() != BANNED_TIER1[6]@.len()); }
        if i == 2 && j == 7 { assert(BANNED_TIER1[2]@.len() != BANNED_TIER1[7]@.len()); }
        if i == 2 && j == 8 { assert(BANNED_TIER1[2]@.len() != BANNED_TIER1[8]@.len()); }
        if i == 2 && j == 9 { assert(BANNED_TIER1[2]@.len() != BANNED_TIER1[9]@.len()); }
        if i == 2 && j == 10 { assert(BANNED_TIER1[2]@.len() != BANNED_TIER1[10]@.len()); }
        if i == 2 && j == 11 { assert(BANNED_TIER1[2]@.len() != BANNED_TIER1[11]@.len()); }
        if i == 2 && j == 12 { assert(BANNED_TIER1[2]@.len() != BANNED_TIER1[12]@.len()); }
        if i == 2 && j == 13 { assert(BANNED_TIER1[2]@.len() != BANNED_TIER1[13]@.len()); }
        if i == 2 && j == 14 { assert(BANNED_TIER1[2]@.len() != BANNED_TIER1[14]@.len()); }
        if i == 2 && j == 15 { assert(BANNED_TIER1[2]@.len() != BANNED_TIER1[15]@.len()); }
        if i == 2 && j == 16 { assert(BANNED_TIER1[2]@.len() != BANNED_TIER1[16]@.len()); }
        if i == 2 && j == 17 { assert(BANNED_TIER1[2]@.len() != BANNED_TIER1[17]@.len()); }
        if i == 3 && j == 4 { assert(BANNED_TIER1[3]@.len() != BANNED_TIER1[4]@.len()); }
        if i == 3 && j == 5 { assert(BANNED_TIER1[3]@.len() != BANNED_TIER1[5]@.len()); }
        if i == 3 && j == 6 { assert(BANNED_TIER1[3]@.len() != BANNED_TIER1[6]@.len()); }
        if i == 3 && j == 7 { assert(BANNED_TIER1[3]@.len() != BANNED_TIER1[7]@.len()); }
        if i == 3 && j == 8 { assert(BANNED_TIER1[3]@.len() != BANNED_TIER1[8]@.len()); }
        if i == 3 && j == 9 { assert(BANNED_TIER1[3]@.len() != BANNED_TIER1[9]@.len()); }
        if i == 3 && j == 10 { assert(BANNED_TIER1[3]@.len() != BANNED_TIER1[10]@.len()); }
        if i == 3 && j == 11 { assert(BANNED_TIER1[3]@.len() != BANNED_TIER1[11]@.len()); }
        if i == 3 && j == 12 { assert(BANNED_TIER1[3]@.len() != BANNED_TIER1[12]@.len()); }
        if i == 3 && j == 13 { assert(BANNED_TIER1[3]@.len() != BANNED_TIER1[13]@.len()); }
        if i == 3 && j == 14 { assert(BANNED_TIER1[3]@.len() != BANNED_TIER1[14]@.len()); }
        if i == 3 && j == 15 { assert(BANNED_TIER1[3]@.len() != BANNED_TIER1[15]@.len()); }
        if i == 3 && j == 16 { assert(BANNED_TIER1[3]@.len() != BANNED_TIER1[16]@.len()); }
        if i == 3 && j == 17 { assert(BANNED_TIER1[3]@.len() != BANNED_TIER1[17]@.len()); }
        if i == 4 && j == 5 { assert(BANNED_TIER1[4]@[0] != BANNED_TIER1[5]@[0]); }
        if i == 4 && j == 6 { assert(BANNED_TIER1[4]@.len() != BANNED_TIER1[6]@.len()); }
        if i == 4 && j == 7 { assert(BANNED_TIER1[4]@.len() != BANNED_TIER1[7]@.len()); }
        if i == 4 && j == 8 { assert(BANNED_TIER1[4]@.len() != BANNED_TIER1[8]@.len()); }
        if i == 4 && j == 9 { assert(BANNED_TIER1[4]@.len() != BANNED_TIER1[9]@.len()); }
        if i == 4 && j == 10 { assert(BANNED_TIER1[4]@.len() != BANNED_TIER1[10]@.len()); }
        if i == 4 && j == 11 { assert(BANNED_TIER1[4]@.len() != BANNED_TIER1[11]@.len()); }
        if i == 4 && j == 12 { assert(BANNED_TIER1[4]@.len() != BANNED_TIER1[12]@.len()); }
        if i == 4 && j == 13 { assert(BANNED_TIER1[4]@.len() != BANNED_TIER1[13]@.len()); }
        if i == 4 && j == 14 { assert(BANNED_TIER1[4]@.len() != BANNED_TIER1[14]@.len()); }
        if i == 4 && j == 15 { assert(BANNED_TIER1[4]@.len() != BANNED_TIER1[15]@.len()); }
        if i == 4 && j == 16 { assert(BANNED_TIER1[4]@.len() != BANNED_TIER1[16]@.len()); }
        if i == 4 && j == 17 { assert(BANNED_TIER1[4]@.len() != BANNED_TIER1[17]@.len()); }
        if i == 5 && j == 6 { assert(BANNED_TIER1[5]@.len() != BANNED_TIER1[6]@.len()); }
        if i == 5 && j == 7 { assert(BANNED_TIER1[5]@.len() != BANNED_TIER1[7]@.len()); }
        if i == 5 && j == 8 { assert(BANNED_TIER1[5]@.len() != BANNED_TIER1[8]@.len()); }
        if i == 5 && j == 9 { assert(BANNED_TIER1[5]@.len() != BANNED_TIER1[9]@.len()); }
        if i == 5 && j == 10 { assert(BANNED_TIER1[5]@.len() != BANNED_TIER1[10]@.len()); }
        if i == 5 && j == 11 { assert(BANNED_TIER1[5]@.len() != BANNED_TIER1[11]@.len()); }
        if i == 5 && j == 12 { assert(BANNED_TIER1[5]@.len() != BANNED_TIER1[12]@.len()); }
        if i == 5 && j == 13 { assert(BANNED_TIER1[5]@.len() != BANNED_TIER1[13]@.len()); }
        if i == 5 && j == 14 { assert(BANNED_TIER1[5]@.len() != BANNED_TIER1[14]@.len()); }
        if i == 5 && j == 15 { assert(BANNED_TIER1[5]@.len() != BANNED_TIER1[15]@.len()); }
        if i == 5 && j == 16 { assert(BANNED_TIER1[5]@.len() != BANNED_TIER1[16]@.len()); }
        if i == 5 && j == 17 { assert(BANNED_TIER1[5]@.len() != BANNED_TIER1[17]@.len()); }
        if i == 6 && j == 7 { assert(BANNED_TIER1[6]@.len() != BANNED_TIER1[7]@.len()); }
        if i == 6 && j == 8 { assert(BANNED_TIER1[6]@.len() != BANNED_TIER1[8]@.len()); }
        if i == 6 && j == 9 { assert(BANNED_TIER1[6]@.len() != BANNED_TIER1[9]@.len()); }
        if i == 6 && j == 10 { assert(BANNED_TIER1[6]@.len() != BANNED_TIER1[10]@.len()); }
        if i == 6 && j == 11 { assert(BANNED_TIER1[6]@.len() != BANNED_TIER1[11]@.len()); }
        if i == 6 && j == 12 { assert(BANNED_TIER1[6]@.len() != BANNED_TIER1[12]@.len()); }
        if i == 6 && j == 13 { assert(BANNED_TIER1[6]@.len() != BANNED_TIER1[13]@.len()); }
        if i == 6 && j == 14 { assert(BANNED_TIER1[6]@.len() != BANNED_TIER1[14]@.len()); }
        if i == 6 && j == 15 { assert(BANNED_TIER1[6]@.len() != BANNED_TIER1[15]@.len()); }
        if i == 6 && j == 16 { assert(BANNED_TIER1[6]@.len() != BANNED_TIER1[16]@.len()); }
        if i == 6 && j == 17 { assert(BANNED_TIER1[6]@.len() != BANNED_TIER1[17]@.len()); }
        if i == 7 && j == 8 { assert(BANNED_TIER1[7]@[0] != BANNED_TIER1[8]@[0]); }
        if i == 7 && j == 9 { assert(BANNED_TIER1[7]@.len() != BANNED_TIER1[9]@.len()); }
        if i == 7 && j == 10 { assert(BANNED_TIER1[7]@.len() != BANNED_TIER1[10]@.len()); }
        if i == 7 && j == 11 { assert(BANNED_TIER1[7]@[0] != BANNED_TIER1[11]@[0]); }
        if i == 7 && j == 12 { assert(BANNED_TIER1[7]@.len() != BANNED_TIER1[12]@.len()); }
        if i == 7 && j == 13 { assert(BANNED_TIER1[7]@[0] != BANNED_TIER1[13]@[0]); }
        if i == 7 && j == 14 { assert(BANNED_TIER1[7]@[0] != BANNED_TIER1[14]@[0]); }
        if i == 7 && j == 15 { assert(BANNED_TIER1[7]@.len() != BANNED_TIER1[15]@.len()); }
        if i == 7 && j == 16 { assert(BANNED_TIER1[7]@.len() != BANNED_TIER1[16]@.len()); }
        if i == 7 && j == 17 { assert(BANNED_TIER1[7]@.len() != BANNED_TIER1[17]@.len()); }
        if i == 8 && j == 9 { assert(BANNED_TIER1[8]@.len() != BANNED_TIER1[9]@.len()); }
        if i == 8 && j == 10 { assert(BANNED_TIER1[8]@.len() != BANNED_TIER1[10]@.len()); }
        if i == 8 && j == 11 { assert(BANNED_TIER1[8]@[0] != BANNED_TIER1[11]@[0]); }
        if i == 8 && j == 12 { assert(BANNED_TIER1[8]@.len() != BANNED_TIER1[12]@.len()); }
        if i == 8 && j == 13 { assert(BANNED_TIER1[8]@[0] != BANNED_TIER1[13]@[0]); }
        if i == 8 && j == 14 { assert(BANNED_TIER1[8]@[0] != BANNED_TIER1[14]@[0]); }
        if i == 8 && j == 15 { assert(BANNED_TIER1[8]@.len() != BANNED_TIER1[15]@.len()); }
        if i == 8 && j == 16 { assert(BANNED_TIER1[8]@.len() != BANNED_TIER1[16]@.len()); }
        if i == 8 && j == 17 { assert(BANNED_TIER1[8]@.len() != BANNED_TIER1[17]@.len()); }
        if i == 9 && j == 10 { assert(BANNED_TIER1[9]@.len() != BANNED_TIER1[10]@.len()); }
        if i == 9 && j == 11 { assert(BANNED_TIER1[9]@.len() != BANNED_TIER1[11]@.len()); }
        if i == 9 && j == 12 { assert(BANNED_TIER1[9]@.len() != BANNED_TIER1[12]@.len()); }
        if i == 9 && j == 13 { assert(BANNED_TIER1[9]@.len() != BANNED_TIER1[13]@.len()); }
        if i == 9 && j == 14 { assert(BANNED_TIER1[9]@.len() != BANNED_TIER1[14]@.len()); }
        if i == 9 && j == 15 { assert(BANNED_TIER1[9]@[0] != BANNED_TIER1[15]@[0]); }
        if i == 9 && j == 16 { assert(BANNED_TIER1[9]@.len() != BANNED_TIER1[16]@.len()); }
        if i == 9 && j == 17 { assert(BANNED_TIER1[9]@.len() != BANNED_TIER1[17]@.len()); }
        if i == 10 && j == 11 { assert(BANNED_TIER1[10]@.len() != BANNED_TIER1[11]@.len()); }
        if i == 10 && j == 12 { assert(BANNED_TIER1[10]@[0] != BANNED_TIER1[12]@[0]); }
        if i == 10 && j == 13 { assert(BANNED_TIER1[10]@.len() != BANNED_TIER1[13]@.len()); }
        if i == 10 && j == 14 { assert(BANNED_TIER1[10]@.len() != BANNED_TIER1[14]@.len()); }
        if i == 10 && j == 15 { assert(BANNED_TIER1[10]@.len() != BANNED_TIER1[15]@.len()); }
        if i == 10 && j == 16 { assert(BANNED_TIER1[10]@[0] != BANNED_TIER1[16]@[0]); }
        if i == 10 && j == 17 { assert(BANNED_TIER1[10]@[0] != BANNED_TIER1[17]@[0]); }
        if i == 11 && j == 12 { assert(BANNED_TIER1[11]@.len() != BANNED_TIER1[12]@.len()); }
        if i == 11 && j == 13 { assert(BANNED_TIER1[11]@[0] != BANNED_TIER1[13]@[0]); }
        if i == 11 && j == 14 { assert(BANNED_TIER1[11]@[0] != BANNED_TIER1[14]@[0]); }
        if i == 11 && j == 15 { assert(BANNED_TIER1[11]@.len() != BANNED_TIER1[15]@.len()); }
        if i == 11 && j == 16 { assert(BANNED_TIER1[11]@.len() != BANNED_TIER1[16]@.len()); }
        if i == 11 && j == 17 { assert(BANNED_TIER1[11]@.len() != BANNED_TIER1[17]@.len()); }
        if i == 12 && j == 13 { assert(BANNED_TIER1[12]@.len() != BANNED_TIER1[13]@.len()); }
        if i == 12 && j == 14 { assert(BANNED_TIER1[12]@.len() != BANNED_TIER1[14]@.len()); }
        if i == 12 && j == 15 { assert(BANNED_TIER1[12]@.len() != BANNED_TIER1[15]@.len()); }
        if i == 12 && j == 16 { assert(BANNED_TIER1[12]@[0] != BANNED_TIER1[16]@[0]); }
        if i == 12 && j == 17 { assert(BANNED_TIER1[12]@[0] != BANNED_TIER1[17]@[0]); }
        if i == 13 && j == 14 { assert(BANNED_TIER1[13]@[0] != BANNED_TIER1[14]@[0]); }
        if i == 13 && j == 15 { assert(BANNED_TIER1[13]@.len() != BANNED_TIER1[15]@.len()); }
        if i == 13 && j == 16 { assert(BANNED_TIER1[13]@.len() != BANNED_TIER1[16]@.len()); }
        if i == 13 && j == 17 { assert(BANNED_TIER1[13]@.len() != BANNED_TIER1[17]@.len()); }
        if i == 14 && j == 15 { assert(BANNED_TIER1[14]@.len() != BANNED_TIER1[15]@.len()); }
        if i == 14 && j == 16 { assert(BANNED_TIER1[14]@.len() != BANNED_TIER1[16]@.len()); }
        if i == 14 && j == 17 { assert(BANNED_TIER1[14]@.len() != BANNED_TIER1[17]@.len()); }
        if i == 15 && j == 16 { assert(BANNED_TIER1[15]@.len() != BANNED_TIER1[16]@.len()); }
        if i == 15 && j == 17 { assert(BANNED_TIER1[15]@.len() != BANNED_TIER1[17]@.len()); }
        if i == 16 && j == 17 { assert(BANNED_TIER1[16]@[0] != BANNED_TIER1[17]@[0]); }
    }
}

/// The words of `BANNED_TIER2` are pairwise distinct.
pub proof fn lemma_banned_tier2_distinct()
    ensures
        all_distinct(BANNED_TIER2@),
{
    reveal_strlit("beautiful");
    reveal_strlit("dynamic");
    reveal_strlit("dramatic");
    reveal_strlit("atmospheric");
    reveal_strlit("gorgeous");
    reveal_strlit("breathtaking");
    reveal_strlit("氛围感");
    reveal_strlit("质感");
    reveal_strlit("高级感");
    reveal_strlit("震撼");
    reveal_strlit("梦幻");
    reveal_strlit("绝美");
    assert forall|i: int, j: int| 0 <= i < j < 12 implies (#[trigger] BANNED_TIER2@[i])@ != (#[trigger] BANNED_TIER2@[j])@ by {
        if i == 0 && j == 1 { assert(BANNED_TIER2[0]@.len() != BANNED_TIER2[1]@.len()); }
        if i == 0 && j == 2 { assert(BANNED_TIER2[0]@.len() != BANNED_TIER2[2]@.len()); }
        if i == 0 && j == 3 { assert(BANNED_TIER2[0]@.len() != BANNED_TIER2[3]@.len()); }
        if i == 0 && j == 4 { assert(BANNED_TIER2[0]@.len() != BANNED_TIER2[4]@.len()); }
        if i == 0 && j == 5 { assert(BANNED_TIER2[0]@.len() != BANNED_TIER2[5]@.len()); }
        if i == 0 && j == 6 { assert(BANNED_TIER2[0]@.len() != BANNED_TIER2[6]@.len()); }
        if i == 0 && j == 7 { assert(BANNED_TIER2[0]@.len() != BANNED_TIER2[7]@.len()); }
        if i == 0 && j == 8 { assert(BANNED_TIER2[0]@.len() != BANNED_TIER2[8]@.len()); }
        if i == 0 && j == 9 { assert(BANNED_TIER2[0]@.len() != BANNED_TIER2[9]@.len()); }
        if i == 0 && j == 10 { assert(BANNED_TIER2[0]@.len() != BANNED_TIER2[10]@.len()); }
        if i == 0 && j == 11 { assert(BANNED_TIER2[0]@.len() != BANNED_TIER2[11]@.len()); }
        if i == 1 && j == 2 { assert(BANNED_TIER2[1]@.len() != BANNED_TIER2[2]@.len()); }
        if i == 1 && j == 3 { assert(BANNED_TIER2[1]@.len() != BANNED_TIER2[3]@.len()); }
        if i == 1 && j == 4 { assert(BANNED_TIER2[1]@.len() != BANNED_TIER2[4]@.len()); }
        if i == 1 && j == 5 { assert(BANNED_TIER2[1]@.len() != BANNED_TIER2[5]@.len()); }
        if i == 1 && j == 6 { assert(BANNED_TIER2[1]@.len() != BANNED_TIER2[6]@.len()); }
        if i == 1 && j == 7 { assert(BANNED_TIER2[1]@.len() != BANNED_TIER2[7]@.len()); }
        if i == 1 && j == 8 { assert(BANNED_TIER2[1]@.len() != BANNED_TIER2[8]@.len()); }
        if i == 1 && j == 9 { assert(BANNED_TIER2[1]@.len() != BANNED_TIER2[9]@.len()); }
        if i == 1 && j == 10 { assert(BANNED_TIER2[1]@.len() != BANNED_TIER2[10]@.len()); }
        if i == 1 && j == 11 { assert(BANNED_TIER2[1]@.len() != BANNED_TIER2[11]@.len()); }
        if i == 2 && j == 3 { assert(BANNED_TIER2[2]@.len() != BANNED_TIER2[3]@.len()); }
        if i == 2 && j == 4 { assert(BANNED_TIER2[2]@[0] != BANNED_TIER2[4]@[0]); }
        if i == 2 && j == 5 { assert(BANNED_TIER2[2]@.len() != BANNED_TIER2[5]@.len()); }
        if i == 2 && j == 6 { assert(BANNED_TIER2[2]@.len() != BANNED_TIER2[6]@.len()); }
        if i == 2 && j == 7 { assert(BANNED_TIER2[2]@.len() != BANNED_TIER2[7]@.len()); }
        if i == 2 && j == 8 { assert(BANNED_TIER2[2]@.len() != BANNED_TIER2[8]@.len()); }
        if i == 2 && j == 9 { assert(BANNED_TIER2[2]@.len() != BANNED_TIER2[9]@.len()); }
        if i == 2 && j == 10 { assert(BANNED_TIER2[2]@.len() != BANNED_TIER2[10]@.len()); }
        if i == 2 && j == 11 { assert(BANNED_TIER2[2]@.len() != BANNED_TIER2[11]@.len()); }
        if i == 3 && j == 4 { assert(BANNED_TIER2[3]@.len() != BANNED_TIER2[4]@.len()); }
        if i == 3 && j == 5 { assert(BANNED_TIER2[3]@.len() != BANNED_TIER2[5]@.len()); }
        if i == 3 && j == 6 { assert(BANNED_TIER2[3]@.len() != BANNED_TIER2[6]@.len()); }
        if i == 3 && j == 7 { assert(BANNED_TIER2[3]@.len() != BANNED_TIER2[7]@.len()); }
        if i == 3 && j == 8 { assert(BANNED_TIER2[3]@.len() != BANNED_TIER2[8]@.len()); }
        if i == 3 && j == 9 { assert(BANNED_TIER2[3]@.len() != BANNED_TIER2[9]@.len()); }
        if i == 3 && j == 10 { assert(BANNED_TIER2[3]@.len() != BANNED_TIER2[10]@.len()); }
        if i == 3 && j == 11 { assert(BANNED_TIER2[3]@.len() != BANNED_TIER2[11]@.len()); }
        if i == 4 && j == 5 { assert(BANNED_TIER2[4]@.len() != BANNED_TIER2[5]@.len()); }
        if i == 4 && j == 6 { assert(BANNED_TIER2[4]@.len() != BANNED_TIER2[6]@.len()); }
        if i == 4 && j == 7 { assert(BANNED_TIER2[4]@.len() != BANNED_TIER2[7]@.len()); }
        if i == 4 && j == 8 { assert(BANNED_TIER2[4]@.len() != BANNED_TIER2[8]@.len()); }
        if i == 4 && j == 9 { assert(BANNED_TIER2[4]@.len() != BANNED_TIER2[9]@.len()); }
        if i == 4 && j == 10 { assert(BANNED_TIER2[4]@.len() != BANNED_TIER2[10]@.len()); }
        if i == 4 && j == 11 { assert(BANNED_TIER2[4]@.len() != BANNED_TIER2[11]@.len()); }
        if i == 5 && j == 6 { assert(BANNED_TIER2[5]@.len() != BANNED_TIER2[6]@.len()); }
        if i == 5 && j == 7 { assert(BANNED_TIER2[5]@.len() != BANNED_TIER2[7]@.len()); }
        if i == 5 && j == 8 { assert(BANNED_TIER2[5]@.len() != BANNED_TIER2[8]@.len()); }
        if i == 5 && j == 9 { assert(BANNED_TIER2[5]@.len() != BANNED_TIER2[9]@.len()); }
        if i == 5 && j == 10 { assert(BANNED_TIER2[5]@.len() != BANNED_TIER2[10]@.len()); }
        if i == 5 && j == 11 { assert(BANNED_TIER2[5]@.len() != BANNED_TIER2[11]@.len()); }
        if i == 6 && j == 7 { assert(BANNED_TIER2[6]@.len() != BANNED_TIER2[7]@.len()); }
        if i == 6 && j == 8 { assert(BANNED_TIER2[6]@[0] != BANNED_TIER2[8]@[0]); }
        if i == 6 && j == 9 { assert(BANNED_TIER2[6]@.len() != BANNED_TIER2[9]@.len()); }
        if i == 6 && j == 10 { assert(BANNED_TIER2[6]@.len() != BANNED_TIER2[10]@.len()); }
        if i == 6 && j == 11 { assert(BANNED_TIER2[6]@.len() != BANNED_TIER2[11]@.len()); }
        if i == 7 && j == 8 { assert(BANNED_TIER2[7]@.len() != BANNED_TIER2[8]@.len()); }
        if i == 7 && j == 9 { assert(BANNED_TIER2[7]@[0] != BANNED_TIER2[9]@[0]); }
        if i == 7 && j == 10 { assert(BANNED_TIER2[7]@[0] != BANNED_TIER2[10]@[0]); }
        if i == 7 && j == 11 { assert(BANNED_TIER2[7]@[0] != BANNED_TIER2[11]@[0]); }
        if i == 8 && j == 9 { assert(BANNED_TIER2[8]@.len() != BANNED_TIER2[9]@.len()); }
        if i == 8 && j == 10 { assert(BANNED_TIER2[8]@.len() != BANNED_TIER2[10]@.len()); }
        if i == 8 && j == 11 { assert(BANNED_TIER2[8]@.len() != BANNED_TIER2[11]@.len()); }
        if i == 9 && j == 10 { assert(BANNED_TIER2[9]@[0] != BANNED_TIER2[10]@[0]); }
        if i == 9 && j == 11 { assert(BANNED_TIER2[9]@[0] != BANNED_TIER2[11]@[0]); }
        if i == 10 && j == 11 { assert(BANNED_TIER2[10]@[0] != BANNED_TIER2[11]@[0]); }
    }
}

} // verus!
