use video_studio::contract::{AnswerOption, Confirmation, SelectionType};
use video_studio::error::StudioError;
use video_studio::json::{Decimal, Json, Number, Outputs};
use video_studio::lexicon::{banned_tier1_hits, CAMERA_MOTIONS};
use video_studio::prose::prose;
use video_studio::quality::{check_across_stages, check_stage, gate, metrics, Severity, RULES};
use video_studio::quality_report::{render, Report};
use video_studio::rubric::{tally, validate as validate_review, RubricItem, SelfReview, CRITERIA};
use video_studio::schema::{stage_schema_document, validate, MAX_CARD_REFERENCES};
use video_studio::stage::StageId;
use video_studio::state::StageState;

fn decimal_of(text: &str) -> Number {
    let (int_part, frac_part) = match text.split_once('.') {
        Some((a, b)) => (a.to_string(), b.to_string()),
        None => (text.to_string(), String::new()),
    };
    let digits = format!("{}{}", int_part, frac_part);
    Number::Frac(Decimal::new(digits.parse::<i64>().unwrap(), frac_part.len() as u8))
}

fn to_json(v: &serde_json::Value) -> Json {
    match v {
        serde_json::Value::Null => Json::Null,
        serde_json::Value::Bool(b) => Json::Bool(*b),
        serde_json::Value::Number(n) => {
            if let Some(i) = n.as_i64() {
                Json::Num(Number::Int(i as i128))
            } else if let Some(u) = n.as_u64() {
                Json::Num(Number::Int(u as i128))
            } else {
                Json::Num(decimal_of(&n.to_string()))
            }
        }
        serde_json::Value::String(s) => Json::Str(s.clone()),
        serde_json::Value::Array(a) => Json::Array(a.iter().map(to_json).collect()),
        serde_json::Value::Object(m) => {
            Json::Object(m.iter().map(|(k, x)| (k.clone(), to_json(x))).collect())
        }
    }
}

fn from_json(v: &Json) -> serde_json::Value {
    match v {
        Json::Null => serde_json::Value::Null,
        Json::Bool(b) => serde_json::Value::Bool(*b),
        Json::Num(Number::Int(i)) => {
            if *i >= 0 {
                serde_json::Value::from(*i as u64)
            } else {
                serde_json::Value::from(*i as i64)
            }
        }
        Json::Num(Number::Frac(d)) => serde_json::Value::from(d.mantissa as f64 / 10f64.powi(d.scale as i32)),
        Json::Str(s) => serde_json::Value::String(s.clone()),
        Json::Array(a) => serde_json::Value::Array(a.iter().map(from_json).collect()),
        Json::Object(e) => {
            let mut m = serde_json::Map::new();
            for (k, x) in e {
                m.insert(k.clone(), from_json(x));
            }
            serde_json::Value::Object(m)
        }
    }
}

fn val(text: &str) -> serde_json::Value {
    serde_json::from_str(text).unwrap()
}

/// The identity lock: the description of her repeated word for word.
const IDENTITY_LOCK: &str = "20岁东亚女性，长黑发及胸，白色无袖连衣裙，低帮白色板鞋，奶油色小斜挎包";

/// The outputs of every stage of a complete sample film.
const FIXTURES: &str = r##"
{
 "brief": {
  "title": "千岛湖，把快乐装进十秒",
  "logline": "20岁黑长发女孩在千岛湖的十秒五镜头游玩Vlog。三个方案在「怎么讲」上分岔，平台、时长、画幅不变。",
  "platform": "抖音竖屏短视频",
  "audience": "18-35岁周末短途旅行、自然风景和轻松Vlog受众",
  "theme": "湖光、微风、轻松出游的即时快乐",
  "tone": "欢乐、清爽、轻旅行、自然阳光",
  "duration_seconds": 10,
  "shot_count": 5,
  "aspect_ratio": "9:16",
  "delivery_spec": "1080x1920, 30fps, H.264/AAC",
  "concepts": [
   {
    "concept_id": "c1",
    "logline": "跟着她的脚走完一段湖边路，十秒里只做一件事：把「在这儿很自在」拍出来。",
    "angle": "以人物动作为主线，风景是背景",
    "hook_0_3s": "船头切开清透湖面，她以约30度侧脸快速入画并转头笑出来——0.6 秒内认出地点和人。",
    "story_beats": [
     "镜头1：船头湖面建立地点与侧脸笑容",
     "镜头2：沿湖栈道小跑，白裙被风吹起",
     "镜头3：观景台举起手机取景，湖中群岛展开",
     "镜头4：递出冷饮与镜头轻碰杯，保持30度侧脸",
     "镜头5：夕阳前回头挥手，湖面远山收束"
    ],
    "tradeoff": "牺牲行程信息与地标全貌，换十秒内更连贯的人物情绪"
   },
   {
    "concept_id": "c2",
    "logline": "从一只沾着水的板鞋开始，一路往上，最后才让人看见她的脸。",
    "angle": "先藏人后露脸，用局部特写攒出好奇",
    "hook_0_3s": "特写：一只白色板鞋踩上湿木板，水从鞋边挤出来——看不见人，只听见笑声。",
    "story_beats": [
     "镜头1：板鞋踩上湿木栈道的特写，画外一声轻笑",
     "镜头2：裙摆与手中冷饮杯的中近景，仍不露脸",
     "镜头3：她把手机举高取景，镜头顺手臂上摇",
     "镜头4：终于给到30度侧脸，她正对着湖笑",
     "镜头5：拉远，人和千岛湖一起进画"
    ],
    "tradeoff": "前四秒不给地点，靠好奇心留人；地点辨识度让给了悬念"
   },
   {
    "concept_id": "c3",
    "logline": "十秒里只有湖，人只是最后一秒的一个剪影。",
    "angle": "风景片，人物退到点缀位置",
    "hook_0_3s": "船头劈开的水把上午的光切成两半，群岛在雾里一层层退开。",
    "story_beats": [
     "镜头1：船头切水的广角，光在水面碎开",
     "镜头2：群岛层层退开的横摇",
     "镜头3：水面倒影里的云",
     "镜头4：栈道尽头的空景",
     "镜头5：夕阳里她的背影剪影，抬手挥了一下"
    ],
    "tradeoff": "牺牲人物代入感，换更强的画面质感；对「跟着谁玩」这个期待没有回应"
   }
  ],
  "success_metrics": [
   "五镜头严格合计10秒，转场可审计",
   "五镜头均能识别同一位20岁女性、黑长发、白裙、板鞋",
   "30度侧脸至少出现在4/5镜头",
   "9:16竖屏，无可读Logo与水印"
  ],
  "rights_and_safety_risks": [
   {
    "risk": "景区品牌或游客肖像进入画面",
    "level": "可规避",
    "mitigation": "无Logo构图，背景人物虚化"
   },
   {
    "risk": "在船边或栈道边缘做危险动作",
    "level": "可规避",
    "mitigation": "动作限于低速轻快行走，保持安全距离"
   }
  ],
  "assumptions": [
   "将用户原文『20色女性』按『20岁女性』理解"
  ],
  "explicit_exclusions": [
   "不出现翻越、跳水、船舷外探身"
  ],
  "protagonist": {
   "assumed_age": 20,
   "gender": "female",
   "hair": "长黑发",
   "wardrobe": "白裙、低帮板鞋、奶油色小斜挎包",
   "camera_signature": "约30度侧脸，面部可读"
  }
 },
 "selection": {
  "candidates": [
   {
    "concept_id": "c1",
    "feasibility": {
     "score": "high",
     "rationale": "单角色、单套服装、明确的侧脸角度，五镜都能各自独立生成；每镜一个主动作一个主运镜，是三个方案里最好控的。"
    },
    "audience_fit": {
     "hook_strength": "strong",
     "rationale": "0.6 秒就同时给出地点和人，刷到的人不需要等就知道这是什么。"
    },
    "risks": [
     "动作类镜头多，模型可能把小跑拍成滑步"
    ],
    "verdict": "recommended"
   },
   {
    "concept_id": "c2",
    "feasibility": {
     "score": "medium",
     "rationale": "四个镜头都要精确控制「不露脸」，模型很容易自作主张把脸转过来；一旦露早了，整个悬念结构就塌了。"
    },
    "audience_fit": {
     "hook_strength": "medium",
     "rationale": "局部特写开场对停留有帮助，但前四秒不给地点，冲着「千岛湖」刷进来的人可能提前划走。"
    },
    "risks": [
     "露脸时机不可控",
     "前四秒没有地点信息，完播率风险"
    ],
    "verdict": "viable"
   },
   {
    "concept_id": "c3",
    "feasibility": {
     "score": "high",
     "rationale": "纯风景，没有人物一致性问题，是三个里最容易出片的。"
    },
    "audience_fit": {
     "hook_strength": "weak",
     "rationale": "用户明确要的是「游玩 vlog」，风景片对不上这个期待；好看，但看完不知道跟着谁玩了一趟。"
    },
    "risks": [
     "与用户原始需求偏离"
    ],
    "verdict": "not_advised"
   }
  ],
  "recommendation": "c1",
  "tradeoffs": "选 c1 就放弃了 c2 那种「憋一下再给脸」的张力——c1 第一秒就把牌全摊开，后面靠动作和情绪撑，不靠悬念。代价是它更平，没有一个让人「哦」一声的转折点。",
  "publishing_risks": {
   "avoidable": [
    "景区Logo入镜",
    "危险动作误导"
   ],
   "unacceptable": [
    "伪造真实人物肖像"
   ],
   "user_decision": [
    "是否使用流行歌曲"
   ]
  },
  "acceptance_metrics": [
   "地点3秒内可辨识",
   "角色五镜头一致",
   "总时长误差为0"
  ]
 },
 "script": {
  "title": "千岛湖，把快乐装进十秒",
  "total_duration_seconds": 10,
  "shot_count": 5,
  "timing_rule": "按动作复杂度和信息量分配时长；五段连续片段无重叠，精确合计10秒",
  "hook_at_seconds": 0.6,
  "language": "none",
  "story_arc": [
   {
    "beat_id": "beat_01",
    "beat_type": "hook",
    "start": 0,
    "end": 1.4,
    "duration_seconds": 1.4,
    "purpose": "0.6 秒内让人认出这是千岛湖，并给出一张会笑的脸",
    "visual": "船头切开清透湖面，女孩以约30度侧脸快速入画并转头露出笑容",
    "audio": "湖水拍打船身的持续哗声"
   },
   {
    "beat_id": "beat_02",
    "beat_type": "setup",
    "start": 1.4,
    "end": 3.4,
    "duration_seconds": 2.0,
    "purpose": "交代人物状态：她在这里是自在的",
    "visual": "女孩沿湖边木质步道轻快小跑两步，白裙被风吹起",
    "audio": "板鞋落在木板上的两声闷响与风声"
   },
   {
    "beat_id": "beat_03",
    "beat_type": "develop",
    "start": 3.4,
    "end": 5.8,
    "duration_seconds": 2.4,
    "purpose": "把视线从人交给景，这是全片信息量最大的一拍",
    "visual": "她在观景台举起手机取景，镜头从30度侧脸摇向湖中群岛",
    "audio": "快门声，随后远处游船汽笛"
   },
   {
    "beat_id": "beat_04",
    "beat_type": "payoff",
    "start": 5.8,
    "end": 7.8,
    "duration_seconds": 2.0,
    "purpose": "把风景兑现成可分享的快乐：有人在跟她一起",
    "visual": "保持30度侧脸笑着举起冷饮，与画外另一只手轻碰杯",
    "audio": "两只玻璃杯轻碰的脆响与短促笑声"
   },
   {
    "beat_id": "beat_05",
    "beat_type": "resolve",
    "start": 7.8,
    "end": 10.0,
    "duration_seconds": 2.2,
    "purpose": "收在一个可以停住的画面上，留出天空的空白",
    "visual": "夕阳暖光下女孩回头挥手，白裙和长发被风带动",
    "audio": "衣料摩擦声与远处水浪低频，自然尾收"
   }
  ],
  "segments": [
   {
    "segment_id": "s01",
    "start": 0,
    "end": 1.4,
    "speaker": "ambient",
    "text": "",
    "subtitle_text": "",
    "source": "核心模型原生环境声"
   },
   {
    "segment_id": "s02",
    "start": 1.4,
    "end": 3.4,
    "speaker": "ambient",
    "text": "",
    "subtitle_text": "",
    "source": "核心模型原生环境声"
   },
   {
    "segment_id": "s03",
    "start": 3.4,
    "end": 5.8,
    "speaker": "ambient",
    "text": "",
    "subtitle_text": "",
    "source": "核心模型原生环境声"
   },
   {
    "segment_id": "s04",
    "start": 5.8,
    "end": 7.8,
    "speaker": "ambient",
    "text": "",
    "subtitle_text": "",
    "source": "核心模型原生环境声"
   },
   {
    "segment_id": "s05",
    "start": 7.8,
    "end": 10.0,
    "speaker": "ambient",
    "text": "",
    "subtitle_text": "",
    "source": "核心模型原生环境声"
   }
  ],
  "subtitle_policy": {
   "policy": "本版无口播、无字幕",
   "generated_from": []
  },
  "audio_policy": {
   "primary": "核心模型原生音频",
   "external_music": "disabled",
   "fallback": "原生音频不可用则结构化阻塞"
  },
  "safety_notes": [
   "步道动作保持低速，远离护栏和水边边缘"
  ]
 },
 "storyboard": {
  "title": "千岛湖，把快乐装进十秒",
  "aspect_ratio": "9:16",
  "total_duration_seconds": 10,
  "shot_count": 5,
  "timing_basis": "时长由动作完成度和信息密度决定，不平均切分",
  "character_lock": {
   "identity_lock": "20岁东亚女性，长黑发及胸，白色无袖连衣裙，低帮白色板鞋，奶油色小斜挎包",
   "camera_signature": "主要使用约30度侧脸，面部可读",
   "safety": "不靠近水边危险边缘，不翻越护栏"
  },
  "shots": [
   {
    "shot_id": "sh01",
    "start": 0,
    "end": 1.4,
    "duration_seconds": 1.4,
    "purpose": "地点钩子：0.6 秒内认出千岛湖，同时给出一张会笑的脸",
    "shot_function": "advance_action",
    "three_facts": [
     "船行带起的风把碎发吹到她嘴角",
     "她抬手把碎发别到耳后，指尖在耳廓停住",
     "船头切开水面的持续哗声"
    ],
    "shot_size": "wide",
    "angle": "low",
    "camera_motion": "push_in",
    "lighting_source": "daylight",
    "lighting_key": "soft",
    "color_tone": "上午冷白，低对比",
    "subject": "女孩以约30度侧脸入画",
    "foreground": "船头栏杆",
    "midground": "清透湖面",
    "background": "层叠群岛与远山",
    "action_chain": "船头切开水面 -> 她转头 -> 笑容展开",
    "first_frame": "湖面与船头",
    "last_frame": "侧脸笑容定格",
    "audio": {
     "ambient": "湖水拍打船身的持续哗声，低频风声",
     "foley": "碎发拂过脸颊、衣料轻响",
     "music": "none"
    },
    "sound": "湖水拍打船身",
    "transition_to_next": "以水声作 J-cut"
   },
   {
    "shot_id": "sh02",
    "start": 1.4,
    "end": 3.4,
    "duration_seconds": 2.0,
    "purpose": "交代人物状态：她在这里是自在的",
    "shot_function": "advance_action",
    "three_facts": [
     "湖风从左侧推来，裙摆和发梢一起向右扬",
     "落地时脚踝先内扣再蹬直，重心前倾半步",
     "板鞋鞋底拍在木板上的两声闷响"
    ],
    "shot_size": "medium",
    "angle": "eye_level",
    "camera_motion": "tracking",
    "lighting_source": "daylight",
    "lighting_key": "soft",
    "color_tone": "顺光明亮，低对比",
    "subject": "女孩沿木质步道小跑",
    "foreground": "步道栏杆虚化",
    "midground": "女孩全身",
    "background": "湖面与远岛",
    "action_chain": "起步 -> 小跑两步 -> 裙摆扬到最高点",
    "first_frame": "脚步落下",
    "last_frame": "裙摆最高点",
    "audio": {
     "ambient": "开阔湖面的风声",
     "foley": "板鞋踩木板的两声闷响、裙摆抖动",
     "music": "none"
    },
    "sound": "脚步与风声",
    "transition_to_next": "顺动作切"
   },
   {
    "shot_id": "sh03",
    "start": 3.4,
    "end": 5.8,
    "duration_seconds": 2.4,
    "purpose": "把视线从人交给景，全片信息量最大的一镜",
    "shot_function": "change_emotion",
    "three_facts": [
     "正午的光很硬，手机屏幕反着湖面的白",
     "她眯了一下眼，拇指在快门键上停了半秒",
     "快门声，随后是远处游船的汽笛"
    ],
    "shot_size": "medium_close",
    "angle": "eye_level",
    "camera_motion": "pan_right",
    "lighting_source": "daylight",
    "lighting_key": "hard",
    "color_tone": "正午偏暖，高对比",
    "subject": "女孩举起手机取景",
    "foreground": "手机边框",
    "midground": "女孩侧脸",
    "background": "湖中群岛",
    "action_chain": "举起手机 -> 镜头随视线摇向群岛 -> 按下快门",
    "first_frame": "抬手",
    "last_frame": "群岛全景",
    "audio": {
     "ambient": "观景台上的风与零星人声",
     "foley": "手机快门声",
     "music": "none"
    },
    "sound": "快门声",
    "transition_to_next": "快门声作硬切"
   },
   {
    "shot_id": "sh04",
    "start": 5.8,
    "end": 7.8,
    "duration_seconds": 2.0,
    "purpose": "把风景兑现成可分享的快乐：有人跟她在一起",
    "shot_function": "change_emotion",
    "three_facts": [
     "杯壁的冷凝水滑到虎口",
     "指节收紧握住杯身，笑的时候肩膀轻轻一耸",
     "两只玻璃杯轻碰的一声脆响"
    ],
    "shot_size": "close",
    "angle": "eye_level",
    "camera_motion": "static",
    "lighting_source": "daylight",
    "lighting_key": "side",
    "color_tone": "下午暖金",
    "subject": "女孩举起冷饮与画外的手碰杯",
    "foreground": "画外伸入的另一只杯子",
    "midground": "女孩胸像",
    "background": "湖岛虚化",
    "action_chain": "举杯 -> 轻碰 -> 笑出声",
    "first_frame": "两杯靠近",
    "last_frame": "笑容与杯壁水珠",
    "audio": {
     "ambient": "湖风与远处水声",
     "foley": "玻璃杯轻碰的脆响、短促笑声",
     "music": "none"
    },
    "sound": "碰杯声与笑声",
    "transition_to_next": "笑声延续到下一镜"
   },
   {
    "shot_id": "sh05",
    "start": 7.8,
    "end": 10.0,
    "duration_seconds": 2.2,
    "purpose": "收在一个能停住的画面上，给天空留白",
    "shot_function": "change_emotion",
    "three_facts": [
     "逆光把发丝勾出暖金边，风把裙摆吹成一道弧",
     "她转身时先动眼神再动脖子，抬手挥到肩高",
     "衣料摩擦声与远处水浪的低频"
    ],
    "shot_size": "medium_wide",
    "angle": "eye_level",
    "camera_motion": "pedestal_up",
    "lighting_source": "daylight",
    "lighting_key": "back",
    "color_tone": "夕阳暖金，逆光",
    "subject": "女孩回头挥手",
    "foreground": "草叶",
    "midground": "女孩全身",
    "background": "湖面与远山",
    "action_chain": "转身 -> 回头 -> 挥手",
    "first_frame": "背影",
    "last_frame": "挥手定格，天空留白",
    "audio": {
     "ambient": "傍晚的风与远处水浪低频",
     "foley": "衣料摩擦、手臂划过空气",
     "music": "none"
    },
    "sound": "挥手拟音与环境尾音",
    "transition_to_next": "淡出黑场"
   }
  ]
 },
 "asset_plan": {
  "backend": "comfyui",
  "core_model_family": "minimax_h3",
  "strategy": "先用核心系列生成视觉开发片段，再用 ffmpeg 抽取参考帧",
  "fallback_policy": "核心系列不可用时结构化阻塞；不自动切换其他系列",
  "consistency_lock": {
   "character": "20岁东亚女性，长黑发及胸，白色无袖连衣裙，低帮白色板鞋，奶油色小斜挎包",
   "camera": "五镜头优先约30度侧脸，侧脸方向与主光方向连续",
   "environment": "千岛湖清透湖面、层叠群岛、远山",
   "typography": "禁止字幕、Logo、水印和可读文字"
  },
  "assets": [
   {
    "asset_id": "C01",
    "asset_kind": "character_card",
    "identity_prompt": "20岁东亚女性，长黑发及胸，白色无袖连衣裙，低帮白色板鞋，奶油色小斜挎包，鹅蛋脸，浅麦色皮肤，深棕色瞳孔，左眉尾有一颗小痣",
    "applies_to": [
     "sh01",
     "sh02",
     "sh03",
     "sh04",
     "sh05"
    ],
    "views": [
     {
      "view": "front_full",
      "is_anchor": true,
      "aspect": "9:16",
      "prompt": "20岁东亚女性，长黑发及胸，白色无袖连衣裙，低帮白色板鞋，奶油色小斜挎包，鹅蛋脸，浅麦色皮肤，深棕色瞳孔，左眉尾有一颗小痣。正面全身，自然站姿，双手自然垂放，中性表情，双脚完整入画。中性灰底，均匀柔光，无阴影投射，主体完整入画不裁切，画面中不出现任何文字、标志或水印。画幅 9:16。",
      "status": "planned"
     },
     {
      "view": "three_quarter",
      "is_anchor": false,
      "aspect": "9:16",
      "prompt": "20岁东亚女性，长黑发及胸，白色无袖连衣裙，低帮白色板鞋，奶油色小斜挎包，鹅蛋脸，浅麦色皮肤，深棕色瞳孔，左眉尾有一颗小痣。四分之三侧身全身，身体转约30度，脸朝镜头，全身入画。中性灰底，均匀柔光，无阴影投射，主体完整入画不裁切，画面中不出现任何文字、标志或水印。画幅 9:16。",
      "status": "planned",
      "derived_from": [
       "front_full"
      ]
     },
     {
      "view": "profile",
      "is_anchor": false,
      "aspect": "9:16",
      "prompt": "20岁东亚女性，长黑发及胸，白色无袖连衣裙，低帮白色板鞋，奶油色小斜挎包，鹅蛋脸，浅麦色皮肤，深棕色瞳孔，左眉尾有一颗小痣。正侧面全身，鼻尖朝画左，全身入画。中性灰底，均匀柔光，无阴影投射，主体完整入画不裁切，画面中不出现任何文字、标志或水印。画幅 9:16。",
      "status": "planned",
      "derived_from": [
       "front_full"
      ]
     },
     {
      "view": "back",
      "is_anchor": false,
      "aspect": "9:16",
      "prompt": "20岁东亚女性，长黑发及胸，白色无袖连衣裙，低帮白色板鞋，奶油色小斜挎包，鹅蛋脸，浅麦色皮肤，深棕色瞳孔，左眉尾有一颗小痣。背面全身，可见发尾长度与连衣裙背面剪裁、挎包背带走向。中性灰底，均匀柔光，无阴影投射，主体完整入画不裁切，画面中不出现任何文字、标志或水印。画幅 9:16。",
      "status": "planned",
      "derived_from": [
       "front_full"
      ]
     },
     {
      "view": "face_close",
      "is_anchor": false,
      "aspect": "9:16",
      "prompt": "20岁东亚女性，长黑发及胸，白色无袖连衣裙，低帮白色板鞋，奶油色小斜挎包，鹅蛋脸，浅麦色皮肤，深棕色瞳孔，左眉尾有一颗小痣。面部特写，中性表情，双眼平视镜头，可见发际线与耳廓。中性灰底，均匀柔光，无阴影投射，主体完整入画不裁切，画面中不出现任何文字、标志或水印。画幅 9:16。",
      "status": "planned",
      "derived_from": [
       "front_full"
      ]
     }
    ]
   },
   {
    "asset_id": "SC01",
    "asset_kind": "scene_card",
    "identity_prompt": "千岛湖清透湖面与游船船头，层叠群岛与远山，上午冷白自然光",
    "applies_to": [
     "sh01"
    ],
    "views": [
     {
      "view": "establishing",
      "is_anchor": true,
      "aspect": "9:16",
      "prompt": "千岛湖清透湖面与游船船头，层叠群岛与远山，上午冷白自然光。广角建立镜头，船头与湖面各占一半，群岛在远景。中性灰底，均匀柔光，无阴影投射，主体完整入画不裁切，画面中不出现任何文字、标志或水印。画幅 9:16。",
      "status": "planned"
     },
     {
      "view": "key_angle",
      "is_anchor": false,
      "aspect": "9:16",
      "prompt": "千岛湖清透湖面与游船船头，层叠群岛与远山，上午冷白自然光。船头栏杆后方的主机位，视线越过栏杆看向湖面。中性灰底，均匀柔光，无阴影投射，主体完整入画不裁切，画面中不出现任何文字、标志或水印。画幅 9:16。",
      "status": "planned",
      "derived_from": [
       "establishing"
      ]
     },
     {
      "view": "reverse_angle",
      "is_anchor": false,
      "aspect": "9:16",
      "prompt": "千岛湖清透湖面与游船船头，层叠群岛与远山，上午冷白自然光。反打：从船头朝船舱方向，湖面退到画外。中性灰底，均匀柔光，无阴影投射，主体完整入画不裁切，画面中不出现任何文字、标志或水印。画幅 9:16。",
      "status": "planned",
      "derived_from": [
       "establishing"
      ]
     },
     {
      "view": "detail",
      "is_anchor": false,
      "aspect": "9:16",
      "prompt": "千岛湖清透湖面与游船船头，层叠群岛与远山，上午冷白自然光。船头切开水面的浪线与栏杆金属表面的水痕特写。中性灰底，均匀柔光，无阴影投射，主体完整入画不裁切，画面中不出现任何文字、标志或水印。画幅 9:16。",
      "status": "planned",
      "derived_from": [
       "establishing"
      ]
     }
    ]
   },
   {
    "asset_id": "SC02",
    "asset_kind": "scene_card",
    "identity_prompt": "湖边木质步道与护栏，两侧绿植，湖面在侧，顺光明亮",
    "applies_to": [
     "sh02"
    ],
    "views": [
     {
      "view": "establishing",
      "is_anchor": true,
      "aspect": "9:16",
      "prompt": "湖边木质步道与护栏，两侧绿植，湖面在侧，顺光明亮。广角建立镜头，步道从画面下方延伸到远处。中性灰底，均匀柔光，无阴影投射，主体完整入画不裁切，画面中不出现任何文字、标志或水印。画幅 9:16。",
      "status": "planned"
     },
     {
      "view": "key_angle",
      "is_anchor": false,
      "aspect": "9:16",
      "prompt": "湖边木质步道与护栏，两侧绿植，湖面在侧，顺光明亮。与步道同向的跟拍机位，护栏在画左。中性灰底，均匀柔光，无阴影投射，主体完整入画不裁切，画面中不出现任何文字、标志或水印。画幅 9:16。",
      "status": "planned",
      "derived_from": [
       "establishing"
      ]
     },
     {
      "view": "reverse_angle",
      "is_anchor": false,
      "aspect": "9:16",
      "prompt": "湖边木质步道与护栏，两侧绿植，湖面在侧，顺光明亮。反打：从步道尽头回看来路。中性灰底，均匀柔光，无阴影投射，主体完整入画不裁切，画面中不出现任何文字、标志或水印。画幅 9:16。",
      "status": "planned",
      "derived_from": [
       "establishing"
      ]
     },
     {
      "view": "detail",
      "is_anchor": false,
      "aspect": "9:16",
      "prompt": "湖边木质步道与护栏，两侧绿植，湖面在侧，顺光明亮。木板拼缝、护栏立柱与脚下青苔的特写。中性灰底，均匀柔光，无阴影投射，主体完整入画不裁切，画面中不出现任何文字、标志或水印。画幅 9:16。",
      "status": "planned",
      "derived_from": [
       "establishing"
      ]
     }
    ]
   },
   {
    "asset_id": "SC03",
    "asset_kind": "scene_card",
    "identity_prompt": "千岛湖观景台，俯瞰层叠群岛与开阔天空，下午暖光",
    "applies_to": [
     "sh03",
     "sh04",
     "sh05"
    ],
    "views": [
     {
      "view": "establishing",
      "is_anchor": true,
      "aspect": "9:16",
      "prompt": "千岛湖观景台，俯瞰层叠群岛与开阔天空，下午暖光。广角建立镜头，观景台护栏在前景，群岛铺满中远景。中性灰底，均匀柔光，无阴影投射，主体完整入画不裁切，画面中不出现任何文字、标志或水印。画幅 9:16。",
      "status": "planned"
     },
     {
      "view": "key_angle",
      "is_anchor": false,
      "aspect": "9:16",
      "prompt": "千岛湖观景台，俯瞰层叠群岛与开阔天空，下午暖光。站在护栏内侧朝群岛的主机位。中性灰底，均匀柔光，无阴影投射，主体完整入画不裁切，画面中不出现任何文字、标志或水印。画幅 9:16。",
      "status": "planned",
      "derived_from": [
       "establishing"
      ]
     },
     {
      "view": "reverse_angle",
      "is_anchor": false,
      "aspect": "9:16",
      "prompt": "千岛湖观景台，俯瞰层叠群岛与开阔天空，下午暖光。反打：从群岛方向回看观景台与台阶。中性灰底，均匀柔光，无阴影投射，主体完整入画不裁切，画面中不出现任何文字、标志或水印。画幅 9:16。",
      "status": "planned",
      "derived_from": [
       "establishing"
      ]
     },
     {
      "view": "detail",
      "is_anchor": false,
      "aspect": "9:16",
      "prompt": "千岛湖观景台，俯瞰层叠群岛与开阔天空，下午暖光。护栏石材纹理与远处水面反光的特写。中性灰底，均匀柔光，无阴影投射，主体完整入画不裁切，画面中不出现任何文字、标志或水印。画幅 9:16。",
      "status": "planned",
      "derived_from": [
       "establishing"
      ]
     }
    ]
   },
   {
    "asset_id": "P01",
    "asset_kind": "prop_card",
    "identity_prompt": "无品牌透明冷饮杯，杯壁带冷凝水，无任何文字与标志",
    "applies_to": [
     "sh03",
     "sh04"
    ],
    "views": [
     {
      "view": "front",
      "is_anchor": true,
      "aspect": "1:1",
      "prompt": "无品牌透明冷饮杯，杯壁带冷凝水，无任何文字与标志。正面单物体，杯身完整入画。中性灰底，均匀柔光，无阴影投射，主体完整入画不裁切，画面中不出现任何文字、标志或水印。画幅 1:1。",
      "status": "planned"
     },
     {
      "view": "side",
      "is_anchor": false,
      "aspect": "1:1",
      "prompt": "无品牌透明冷饮杯，杯壁带冷凝水，无任何文字与标志。侧面，可见杯壁厚度与杯底。中性灰底，均匀柔光，无阴影投射，主体完整入画不裁切，画面中不出现任何文字、标志或水印。画幅 1:1。",
      "status": "planned",
      "derived_from": [
       "front"
      ]
     },
     {
      "view": "in_use",
      "is_anchor": false,
      "aspect": "1:1",
      "prompt": "无品牌透明冷饮杯，杯壁带冷凝水，无任何文字与标志。一只手握住杯身中段，拇指压在杯壁，可见握持角度。中性灰底，均匀柔光，无阴影投射，主体完整入画不裁切，画面中不出现任何文字、标志或水印。画幅 1:1。",
      "status": "planned",
      "derived_from": [
       "front"
      ]
     },
     {
      "view": "scale_reference",
      "is_anchor": false,
      "aspect": "1:1",
      "prompt": "无品牌透明冷饮杯，杯壁带冷凝水，无任何文字与标志。与成年人手掌并排，交代相对大小。中性灰底，均匀柔光，无阴影投射，主体完整入画不裁切，画面中不出现任何文字、标志或水印。画幅 1:1。",
      "status": "planned",
      "derived_from": [
       "front"
      ]
     }
    ]
   }
  ]
 },
 "prompt_pack": {
  "core_model_family": "minimax_h3",
  "identity_lock": {
   "character": "20岁东亚女性，长黑发及胸，白色无袖连衣裙，低帮白色板鞋，奶油色小斜挎包",
   "environment": "千岛湖清透湖面、层叠群岛、远山",
   "typography": "画面中不出现任何文字、标志或水印"
  },
  "shots": [
   {
    "shot_id": "sh01",
    "head": "reference",
    "width": 768,
    "height": 1344,
    "length_frames": 56,
    "fps": 24,
    "seed": 101001,
    "references": [
     {
      "kind": "image",
      "asset_id": "C01"
     },
     {
      "kind": "image",
      "asset_id": "SC01"
     }
    ],
    "positive": "船头切开清透湖面，一位20岁东亚女性，长黑发及胸，白色无袖连衣裙，低帮白色板鞋，奶油色小斜挎包，以约30度侧脸快速入画并转头露出笑容。船行的风把碎发吹到她嘴角，她抬手把碎发别到耳后。层叠群岛与远山在后景。上午冷白自然光，柔光顺照，低对比。[Push in] 镜头缓慢前推。一镜到底，不切场景，人物保持在画面中央，画面中不出现任何文字、标志或水印。",
    "audio": "环境声：湖水拍打船身的持续哗声，低频风声。拟音：碎发拂过脸颊、衣料轻响。无对白，无音乐。"
   },
   {
    "shot_id": "sh02",
    "head": "reference",
    "width": 768,
    "height": 1344,
    "length_frames": 39,
    "fps": 24,
    "seed": 101002,
    "references": [
     {
      "kind": "image",
      "asset_id": "C01"
     },
     {
      "kind": "image",
      "asset_id": "SC02"
     }
    ],
    "guides": [
     {
      "kind": "image",
      "at_frame": 0,
      "asset_id": "sh01.tail"
     }
    ],
    "positive": "一位20岁东亚女性，长黑发及胸，白色无袖连衣裙，低帮白色板鞋，奶油色小斜挎包，沿湖边木质步道轻快小跑两步。湖风从左侧推来，裙摆和发梢一起向右扬；落地时脚踝先内扣再蹬直，重心前倾半步。顺光明亮，低对比，背景是湖面与远岛。[Tracking shot] 镜头横向跟移，与她同速。一镜到底，不切场景，人物保持在画面中央，画面中不出现任何文字、标志或水印。",
    "audio": "环境声：开阔湖面的风声。拟音：板鞋踩在木板上的两声闷响、裙摆抖动。无对白，无音乐。"
   },
   {
    "shot_id": "sh03",
    "head": "reference",
    "width": 768,
    "height": 1344,
    "length_frames": 56,
    "fps": 24,
    "seed": 101003,
    "references": [
     {
      "kind": "image",
      "asset_id": "C01"
     },
     {
      "kind": "image",
      "asset_id": "SC03"
     },
     {
      "kind": "image",
      "asset_id": "P01"
     }
    ],
    "positive": "一位20岁东亚女性，长黑发及胸，白色无袖连衣裙，低帮白色板鞋，奶油色小斜挎包，在观景台举起一部无品牌手机取景，眯了一下眼，拇指在快门键上停半秒后按下。正午硬光，手机屏幕反着湖面的白，高对比。[Pan right] 镜头向右缓慢横摇，从她的侧脸摇到湖中群岛。一镜到底，不切场景，画面中不出现任何文字、标志或水印。",
    "audio": "环境声：观景台上的风与零星人声。拟音：手机快门声，随后远处游船汽笛。无对白，无音乐。"
   },
   {
    "shot_id": "sh04",
    "head": "reference",
    "width": 768,
    "height": 1344,
    "length_frames": 39,
    "fps": 24,
    "seed": 101004,
    "references": [
     {
      "kind": "image",
      "asset_id": "C01"
     },
     {
      "kind": "image",
      "asset_id": "P01"
     }
    ],
    "positive": "近景：一位20岁东亚女性，长黑发及胸，白色无袖连衣裙，低帮白色板鞋，奶油色小斜挎包，举起一只无品牌透明冷饮杯，与画外伸入的另一只杯子轻碰。杯壁的冷凝水滑到虎口，指节收紧握住杯身，笑的时候肩膀轻轻一耸。下午暖金侧光，背景的湖岛虚化。[Static shot] 固定机位，镜头不移动。一镜到底，不切场景，画面中不出现任何文字、标志或水印。",
    "audio": "环境声：湖风与远处水声。拟音：两只玻璃杯轻碰的一声脆响、短促笑声。无对白，无音乐。"
   },
   {
    "shot_id": "sh05",
    "head": "reference",
    "width": 768,
    "height": 1344,
    "length_frames": 56,
    "fps": 24,
    "seed": 101005,
    "references": [
     {
      "kind": "image",
      "asset_id": "C01"
     },
     {
      "kind": "image",
      "asset_id": "SC03"
     }
    ],
    "positive": "夕阳逆光下，一位20岁东亚女性，长黑发及胸，白色无袖连衣裙，低帮白色板鞋，奶油色小斜挎包，转身回头向镜头挥手，先动眼神再动脖子，抬手挥到肩高。逆光把发丝勾出暖金边，风把裙摆吹成一道弧，湖面与远山在身后。[Pedestal up] 镜头缓慢升高。一镜到底，不切场景，画面中不出现任何文字、标志或水印。",
    "audio": "环境声：傍晚的风与远处水浪低频。拟音：衣料摩擦、手臂划过空气。无对白，无音乐。"
   }
  ]
 },
 "preview": {
  "shots": [
   {
    "shot_id": "sh01",
    "node": "http://127.0.0.1:9001",
    "prompt_id": "pv-sh01",
    "path": "media/preview/sh01.mp4",
    "width": 480,
    "height": 854,
    "duration_seconds": 1.4
   },
   {
    "shot_id": "sh02",
    "node": "http://127.0.0.1:9002",
    "prompt_id": "pv-sh02",
    "path": "media/preview/sh02.mp4",
    "width": 480,
    "height": 854,
    "duration_seconds": 2.0
   },
   {
    "shot_id": "sh03",
    "node": "http://127.0.0.1:9003",
    "prompt_id": "pv-sh03",
    "path": "media/preview/sh03.mp4",
    "width": 480,
    "height": 854,
    "duration_seconds": 2.4
   },
   {
    "shot_id": "sh04",
    "node": "http://127.0.0.1:9004",
    "prompt_id": "pv-sh04",
    "path": "media/preview/sh04.mp4",
    "width": 480,
    "height": 854,
    "duration_seconds": 2.0
   },
   {
    "shot_id": "sh05",
    "node": "http://127.0.0.1:9005",
    "prompt_id": "pv-sh05",
    "path": "media/preview/sh05.mp4",
    "width": 480,
    "height": 854,
    "duration_seconds": 2.2
   }
  ]
 },
 "render": {
  "shots": [
   {
    "shot_id": "sh01",
    "node": "http://127.0.0.1:9001",
    "prompt_id": "p-sh01",
    "path": "media/sh01.mp4",
    "duration_seconds": 1.4
   },
   {
    "shot_id": "sh02",
    "node": "http://127.0.0.1:9002",
    "prompt_id": "p-sh02",
    "path": "media/sh02.mp4",
    "duration_seconds": 2.0
   },
   {
    "shot_id": "sh03",
    "node": "http://127.0.0.1:9003",
    "prompt_id": "p-sh03",
    "path": "media/sh03.mp4",
    "duration_seconds": 2.4
   },
   {
    "shot_id": "sh04",
    "node": "http://127.0.0.1:9004",
    "prompt_id": "p-sh04",
    "path": "media/sh04.mp4",
    "duration_seconds": 2.0
   },
   {
    "shot_id": "sh05",
    "node": "http://127.0.0.1:9005",
    "prompt_id": "p-sh05",
    "path": "media/sh05.mp4",
    "duration_seconds": 2.2
   }
  ]
 },
 "post": {
  "video": "media/final.mp4",
  "cover": "media/cover.jpg",
  "subtitles": "media/subtitles.srt",
  "duration_seconds": 10.0,
  "aspect_ratio": "9:16"
 },
 "review": {
  "passed": true,
  "checks": [
   {
    "name": "总时长",
    "kind": "technical",
    "passed": true,
    "detail": "ffprobe 实测 10.00 秒，与剧本一致"
   },
   {
    "name": "画幅",
    "kind": "technical",
    "passed": true,
    "detail": "ffprobe 实测 1080x1920，9:16"
   },
   {
    "name": "镜头数与转场",
    "kind": "technical",
    "passed": true,
    "detail": "五段拼接，四处硬切可审计"
   }
  ],
  "content_review": {
   "items": [
    {
     "criterion": "hook",
     "verdict": "met",
     "at_seconds": 0.6,
     "evidence": "0.6 秒她已经转过头笑出来，同一帧里船头切开的水面和远处群岛都在，地点和人一起给到"
    },
    {
     "criterion": "information_density",
     "verdict": "partially_met",
     "at_seconds": 5.8,
     "evidence": "第四镜的碰杯除了「她很开心」没有给出新信息，删掉它观众不会察觉少了什么"
    },
    {
     "criterion": "pacing",
     "verdict": "met",
     "at_seconds": 3.4,
     "evidence": "第三镜给到 2.4 秒，是全片最长的一镜，正好够举手机、摇过去、按快门三个动作走完"
    },
    {
     "criterion": "consistency",
     "verdict": "met",
     "at_seconds": 7.8,
     "evidence": "第五镜的白裙、板鞋、奶油色挎包与第一镜逐一对得上，侧脸角度也仍在30度附近"
    },
    {
     "criterion": "brief_metrics",
     "verdict": "met",
     "at_seconds": 9.9,
     "evidence": "brief 要求30度侧脸至少出现在4/5镜，实际五镜都有；全片无可读文字与水印"
    }
   ],
   "summary": "最强的是前三秒的地点加人物一次给足；最弱的是第四镜没有承担新信息"
  }
 }
}
"##;

/// A stage's sample outputs as `{key: value}`.
fn fixture(stage: StageId) -> serde_json::Value {
    let all = val(FIXTURES);
    let key = stage.output_key();
    let mut m = serde_json::Map::new();
    m.insert(key.to_string(), all[key].clone());
    serde_json::Value::Object(m)
}

fn outputs_from(v: &serde_json::Value) -> Outputs {
    let mut o = Outputs::new();
    for (k, x) in v.as_object().unwrap() {
        o.insert(k.clone(), to_json(x));
    }
    o
}

fn outputs(stage: StageId) -> Outputs {
    outputs_from(&fixture(stage))
}

fn option(id: &str, label: &str) -> AnswerOption {
    AnswerOption::new(id.to_string(), label.to_string())
}

fn revise(id: &str, label: &str) -> AnswerOption {
    AnswerOption::revise(id.to_string(), label.to_string())
}

/// The sample gate of each gated stage.
fn confirmation(stage: StageId) -> Option<Confirmation> {
    let (prompt, approve_label) = match stage {
        StageId::Selection => {
            return Some(Confirmation {
                prompt: "三个方案，选一个推进：\nA（推荐）跟着她走——第一秒就给地点和笑脸，最好控，但比较平；\nB 先藏后露——从一只湿板鞋开始攒好奇，第四秒才给脸，张力最强，但露脸时机不可控，前四秒没有地点；\nC 纯风景——最容易出片，但看完不知道跟着谁玩了一趟。".to_string(),
                selection_type: SelectionType::Single,
                options: vec![
                    option("c1", "A：跟着她走（推荐）"),
                    option("c2", "B：先藏后露"),
                    option("c3", "C：纯风景"),
                    revise("revise", "三个都不满意，重想"),
                ],
            });
        }
        StageId::Script => ("是否确认按镜头内容智能分配时长的10秒剧本：1.4 / 2.0 / 2.4 / 2.0 / 2.2 秒？", "确认剧本，进入分镜"),
        StageId::Storyboard => ("是否确认这版五镜头分镜？五镜头均保持约30度侧脸与角色连续性。", "确认分镜，进入视觉资产"),
        StageId::VisualAssets => ("是否确认这组视觉资产计划？确认后按核心系列生成参考帧。", "确认资产计划，进入提示词"),
        StageId::PromptPack => ("是否确认这份逐镜头提示词？确认后开始占用 GPU 渲染。", "确认提示词，开始渲染"),
        StageId::Preview => ("480p 预览已生成，构图与内容是否符合预期？确认后开始正式 1080p 渲染。", "预览符合预期，开始正式渲染"),
        _ => return None,
    };
    Some(Confirmation {
        prompt: prompt.to_string(),
        selection_type: SelectionType::Single,
        options: vec![option("approve", approve_label), revise("revise", "先修改再确认")],
    })
}

fn violations_of(e: StudioError) -> Vec<video_studio::error::Violation> {
    match e {
        StudioError::SchemaViolation { violations, .. } => violations,
        other => panic!("expected a schema violation, got {:?}", other),
    }
}

// ---------------------------------------------------------------------------
// The schemas.

#[test]
fn every_stage_has_a_schema_document() {
    for s in StageId::all() {
        let doc = from_json(&stage_schema_document(s));
        assert_eq!(doc["required"][0], serde_json::Value::String(s.output_key().to_string()));
        assert!(doc["properties"][s.output_key()].is_object());
    }
}

#[test]
fn missing_top_level_key_is_reported() {
    let v = violations_of(validate(StageId::Script, &Outputs::new()).unwrap_err());
    assert_eq!(v[0].path, "script");
}

fn wrap(stage: StageId, text: &str) -> Outputs {
    let mut o = Outputs::new();
    o.insert(stage.output_key().to_string(), to_json(&val(text)));
    o
}

#[test]
fn violation_paths_point_at_the_exact_field() {
    let bad = wrap(
        StageId::Script,
        r#"{
            "title": "千岛湖，把快乐装进十秒",
            "total_duration_seconds": 10,
            "shot_count": 5,
            "timing_rule": "按动作复杂度分配",
            "story_arc": [
                { "beat_id": "beat_01", "start": 0, "end": 1.4, "duration_seconds": 1.4,
                  "purpose": "地点钩子", "visual": "船头掠过湖面", "audio": "湖水轻拍" },
                { "beat_id": "beat_02", "start": 1.4, "end": 3.4, "duration_seconds": "两秒",
                  "purpose": "人物动作", "visual": "小跑", "audio": "脚步" }
            ],
            "segments": [
                { "segment_id": "s01", "start": 0, "end": 1.4, "speaker": "ambient" }
            ]
        }"#,
    );
    let v = violations_of(validate(StageId::Script, &bad).unwrap_err());
    assert!(v.iter().any(|x| x.path == "script.story_arc[1].duration_seconds"), "{:?}", v);
}

#[test]
fn a_well_formed_script_passes() {
    let good = wrap(
        StageId::Script,
        r#"{
            "title": "千岛湖，把快乐装进十秒",
            "total_duration_seconds": 10,
            "shot_count": 5,
            "timing_rule": "按动作复杂度和信息量分配，合计 10 秒",
            "language": "none",
            "story_arc": [
                { "beat_id": "beat_01", "beat_type": "hook", "start": 0,   "end": 1.4,  "duration_seconds": 1.4,
                  "purpose": "地点钩子", "visual": "船头掠过清透湖面", "audio": "湖水轻拍船身" },
                { "beat_id": "beat_02", "beat_type": "setup", "start": 1.4, "end": 3.4,  "duration_seconds": 2.0,
                  "purpose": "人物动作", "visual": "沿步道轻快小跑", "audio": "轻快脚步与风声" },
                { "beat_id": "beat_03", "beat_type": "develop", "start": 3.4, "end": 5.8,  "duration_seconds": 2.4,
                  "purpose": "景色展开", "visual": "观景台举起手机取景", "audio": "快门声" },
                { "beat_id": "beat_04", "beat_type": "payoff", "start": 5.8, "end": 7.8,  "duration_seconds": 2.0,
                  "purpose": "互动快乐", "visual": "举起冷饮轻碰杯", "audio": "碰杯声" },
                { "beat_id": "beat_05", "beat_type": "resolve", "start": 7.8, "end": 10.0, "duration_seconds": 2.2,
                  "purpose": "情绪收束", "visual": "回头挥手", "audio": "环境声收尾" }
            ],
            "segments": [
                { "segment_id": "s01", "start": 0, "end": 10, "speaker": "ambient",
                  "text": "", "subtitle_text": "", "source": "核心模型原生环境声" }
            ]
        }"#,
    );
    validate(StageId::Script, &good).expect("this script is well formed");
}

#[test]
fn enum_values_are_enforced() {
    let bad = wrap(
        StageId::Storyboard,
        r#"{
            "title": "t", "aspect_ratio": "竖屏", "total_duration_seconds": 10, "shot_count": 1,
            "shots": [{ "shot_id": "sh01", "start": 0, "end": 10, "duration_seconds": 10,
                        "purpose": "p", "shot_size": "近景", "camera_motion": "推",
                        "subject": "人", "action_chain": "起 -> 收" }]
        }"#,
    );
    let v = violations_of(validate(StageId::Storyboard, &bad).unwrap_err());
    assert!(v.iter().any(|x| x.path == "storyboard.aspect_ratio"), "{:?}", v);
}

#[test]
fn empty_required_array_is_reported() {
    let bad = wrap(StageId::PromptPack, r#"{ "core_model_family": "minimax_h3", "shots": [] }"#);
    let v = violations_of(validate(StageId::PromptPack, &bad).unwrap_err());
    assert!(v.iter().any(|x| x.path == "prompt_pack.shots"), "{:?}", v);
}

#[test]
fn every_fixture_passes_its_own_schema() {
    for stage in StageId::all() {
        validate(stage, &outputs(stage)).unwrap_or_else(|e| panic!("{:?} sample fails: {}", stage, e.to_string()));
    }
}

fn plan() -> serde_json::Value {
    fixture(StageId::VisualAssets)
}

fn refuses(o: &serde_json::Value, needle: &str) {
    let e = validate(StageId::VisualAssets, &outputs_from(o)).expect_err(needle);
    assert!(e.message().contains(needle), "looked for {}: {}", needle, e.message());
}

#[test]
fn a_character_card_missing_a_required_view_is_refused() {
    let mut o = plan();
    o["asset_plan"]["assets"][0]["views"].as_array_mut().unwrap().retain(|v| v["view"] != "back");
    refuses(&o, "缺必需视图 back");
}

#[test]
fn two_anchors_on_one_card_is_refused() {
    let mut o = plan();
    o["asset_plan"]["assets"][0]["views"][1]["is_anchor"] = serde_json::Value::Bool(true);
    refuses(&o, "有 2 个主视图");
}

#[test]
fn a_non_anchor_view_without_an_anchor_to_derive_from_is_refused() {
    let mut o = plan();
    o["asset_plan"]["assets"][0]["views"][2].as_object_mut().unwrap().remove("derived_from");
    refuses(&o, "非主视图必须挂参考图");
}

#[test]
fn derived_from_not_starting_at_the_anchor_is_refused() {
    let mut o = plan();
    o["asset_plan"]["assets"][0]["views"][2]["derived_from"] = val(r#"["three_quarter"]"#);
    refuses(&o, "第一项必须是主视图");
}

#[test]
fn deriving_from_a_later_view_is_refused() {
    let mut o = plan();
    let last = o["asset_plan"]["assets"][0]["views"].as_array().unwrap().len() - 1;
    let last_name = o["asset_plan"]["assets"][0]["views"][last]["view"].as_str().unwrap().to_string();
    o["asset_plan"]["assets"][0]["views"][1]["derived_from"] =
        serde_json::Value::Array(vec!["front_full".into(), last_name.into()]);
    refuses(&o, "还没生成");
}

#[test]
fn an_anchor_that_is_not_first_is_refused() {
    let mut o = plan();
    o["asset_plan"]["assets"][0]["views"].as_array_mut().unwrap().swap(0, 1);
    refuses(&o, "views 的顺序就是生成顺序");
}

#[test]
fn too_many_references_on_one_view_are_refused() {
    let mut o = plan();
    let mut refs: Vec<serde_json::Value> = vec!["front_full".into()];
    refs.extend((0..MAX_CARD_REFERENCES).map(|i| serde_json::Value::String(format!("x{}", i))));
    o["asset_plan"]["assets"][0]["views"][1]["derived_from"] = serde_json::Value::Array(refs);
    refuses(&o, "上限是 10");
}

#[test]
fn mixing_aspects_within_one_card_is_refused() {
    let mut o = plan();
    o["asset_plan"]["assets"][0]["views"][4]["aspect"] = "1:1".into();
    refuses(&o, "多种画幅");
}

#[test]
fn a_card_identity_that_paraphrases_the_lock_is_refused() {
    let mut o = plan();
    o["asset_plan"]["assets"][0]["identity_prompt"] = "20岁女生，黑长发，白裙子，白板鞋，小挎包，鹅蛋脸".into();
    refuses(&o, "没有逐字包含 consistency_lock.character");
}

#[test]
fn a_view_prompt_that_does_not_start_with_its_own_card_identity_is_refused() {
    let mut o = plan();
    o["asset_plan"]["assets"][0]["views"][1]["prompt"] = "完全不相干的一段身份锁，四分之三侧身全身".into();
    refuses(&o, "没有以本卡的 identity_prompt 逐字开头");
}

#[test]
fn a_prompt_that_merely_contains_the_identity_somewhere_is_still_refused() {
    let mut o = plan();
    let identity = o["asset_plan"]["assets"][0]["identity_prompt"].as_str().unwrap().to_string();
    o["asset_plan"]["assets"][0]["views"][1]["prompt"] = format!("一段别的开头，中间才提到{}", identity).into();
    refuses(&o, "没有以本卡的 identity_prompt 逐字开头");
}

#[test]
fn a_scene_view_on_a_character_card_is_refused() {
    let mut o = plan();
    o["asset_plan"]["assets"][0]["views"][1]["view"] = "establishing".into();
    refuses(&o, "不是 character_card 的视图");
}

#[test]
fn a_style_reference_needs_no_views() {
    let mut o = plan();
    o["asset_plan"]["assets"][0]["asset_kind"] = "style_reference".into();
    o["asset_plan"]["assets"][0]["views"] = val(
        r#"[{ "view": "front_full", "is_anchor": true, "aspect": "9:16",
              "prompt": "一张色调参照", "status": "planned" }]"#,
    );
    assert!(validate(StageId::VisualAssets, &outputs_from(&o)).is_ok());
}

#[test]
fn script_fixture_durations_add_up() {
    let o = fixture(StageId::Script);
    let arc = o["script"]["story_arc"].as_array().unwrap();
    let sum: f64 = arc.iter().map(|b| b["duration_seconds"].as_f64().unwrap()).sum();
    assert!((sum - 10.0).abs() < 1e-9, "the beats add up to {}", sum);
    assert_eq!(arc.len(), 5);
}

#[test]
fn gated_stages_have_fixture_confirmations() {
    for stage in StageId::all() {
        assert_eq!(confirmation(stage).is_some(), stage.gate().is_some(), "{:?}", stage);
    }
}

#[test]
fn every_fixture_confirmation_is_well_formed() {
    for stage in StageId::all() {
        if let Some(c) = confirmation(stage) {
            assert!(video_studio::state::confirmation_violations(&c).is_empty(), "{:?}", stage);
        }
    }
}

// ---------------------------------------------------------------------------
// The samples are what the agent copies: they must meet their own bar.

#[test]
fn no_stage_fixture_contains_a_banned_word() {
    for stage in StageId::all() {
        for (path, s) in prose(&outputs(stage)) {
            let hits = banned_tier1_hits(&s);
            assert!(hits.is_empty(), "{:?} sample {} has banned words {:?}: {}", stage, path, hits, s);
        }
    }
}

#[test]
fn the_prose_of_a_stage_is_every_string_with_its_path() {
    let p = prose(&outputs(StageId::Post));
    assert!(p.contains(&("post.video".to_string(), "media/final.mp4".to_string())), "{:?}", p);
    assert!(p.contains(&("post.aspect_ratio".to_string(), "9:16".to_string())), "{:?}", p);
    assert_eq!(p.len(), 4);
}

#[test]
fn every_prompt_repeats_the_identity_lock_verbatim() {
    let pack = fixture(StageId::PromptPack);
    let shots = pack["prompt_pack"]["shots"].as_array().unwrap();
    assert_eq!(shots.len(), 5);
    for shot in shots {
        assert!(shot["positive"].as_str().unwrap().contains(IDENTITY_LOCK), "{}", shot["shot_id"]);
    }
}

#[test]
fn prompts_for_minimax_carry_constraints_positively() {
    let pack = fixture(StageId::PromptPack);
    for shot in pack["prompt_pack"]["shots"].as_array().unwrap() {
        if shot["head"].as_str().is_none() {
            continue;
        }
        assert!(shot.get("negative").is_none(), "{}", shot["shot_id"]);
        let positive = shot["positive"].as_str().unwrap();
        assert!(positive.contains("一镜到底") && positive.contains("不出现任何文字"), "{}", shot["shot_id"]);
        assert!(shot["audio"].as_str().is_some_and(|a| !a.is_empty()), "{}", shot["shot_id"]);
    }
}

#[test]
fn every_shot_states_three_physical_facts() {
    let sb = fixture(StageId::Storyboard);
    for shot in sb["storyboard"]["shots"].as_array().unwrap() {
        let facts = shot["three_facts"].as_array().unwrap();
        assert!(facts.len() >= 3, "{}", shot["shot_id"]);
        for f in facts {
            assert!(f.as_str().unwrap().chars().count() >= 6, "{}", shot["shot_id"]);
        }
        assert!(CAMERA_MOTIONS.contains(&shot["camera_motion"].as_str().unwrap()), "{}", shot["shot_id"]);
    }
}

// ---------------------------------------------------------------------------
// The quality gate.

#[test]
fn every_fixture_passes_its_own_gate() {
    for stage in StageId::all() {
        let findings = check_stage(stage, &outputs(stage));
        assert!(findings.is_empty(), "{:?}: {:#?}", stage, findings);
        assert!(gate(stage, &outputs(stage)).is_ok());
    }
}

#[test]
fn fixtures_agree_on_one_identity_lock() {
    let approved: Vec<(StageId, Outputs)> = StageId::all().into_iter().map(|s| (s, outputs(s))).collect();
    let findings = check_across_stages(&approved);
    assert!(findings.is_empty(), "{:#?}", findings);
}

#[test]
fn a_banned_word_in_a_prompt_blocks_but_in_a_brief_only_warns() {
    let mut pack = fixture(StageId::PromptPack);
    pack["prompt_pack"]["shots"][0]["positive"] = format!("{} 电影感的湖面", IDENTITY_LOCK).into();
    let pack = outputs_from(&pack);
    let f = check_stage(StageId::PromptPack, &pack);
    assert!(f.iter().any(|f| f.rule == "banned_word" && f.severity == Severity::Blocking));
    assert!(gate(StageId::PromptPack, &pack).is_err());

    let mut idea = fixture(StageId::Idea);
    idea["brief"]["theme"] = "用户原话：想要唯美一点".into();
    let idea = outputs_from(&idea);
    let f = check_stage(StageId::Idea, &idea);
    assert!(f.iter().any(|f| f.rule == "banned_word_upstream" && f.severity == Severity::Advisory));
    assert!(gate(StageId::Idea, &idea).is_ok(), "an upstream stage does not block");
}

#[test]
fn a_blocking_finding_is_reported_as_a_quality_violation() {
    let mut pack = fixture(StageId::PromptPack);
    pack["prompt_pack"]["shots"][0]["positive"] = format!("{} 电影感的湖面", IDENTITY_LOCK).into();
    match gate(StageId::PromptPack, &outputs_from(&pack)).unwrap_err() {
        StudioError::QualityViolation { stage, findings } => {
            assert_eq!(stage, StageId::PromptPack);
            assert!(findings.iter().any(|v| v.path == "prompt_pack.shots[0].positive"), "{:?}", findings);
        }
        other => panic!("expected a quality violation, got {:?}", other),
    }
}

#[test]
fn a_paraphrased_identity_lock_is_caught() {
    let mut pack = fixture(StageId::PromptPack);
    pack["prompt_pack"]["shots"][0]["positive"] =
        "同一位20岁东亚女性，长黑发，白色连衣裙，站在船头，上午冷白自然光，竖构图".into();
    let findings = check_stage(StageId::PromptPack, &outputs_from(&pack));
    assert!(findings.iter().any(|f| f.rule == "identity_lock_missing"), "{:#?}", findings);
}

#[test]
fn a_lock_that_drifts_between_stages_is_caught() {
    let mut pack = fixture(StageId::PromptPack);
    pack["prompt_pack"]["identity_lock"]["character"] = "20岁女生，黑长发，白裙子".into();
    let approved = vec![(StageId::Storyboard, outputs(StageId::Storyboard)), (StageId::PromptPack, outputs_from(&pack))];
    let findings = check_across_stages(&approved);
    assert_eq!(findings.len(), 1);
    assert_eq!(findings[0].rule, "identity_lock_drift");
}

#[test]
fn a_three_character_fact_is_not_a_fact() {
    let mut sb = fixture(StageId::Storyboard);
    sb["storyboard"]["shots"][0]["three_facts"][0] = "很好看".into();
    let findings = check_stage(StageId::Storyboard, &outputs_from(&sb));
    assert!(findings.iter().any(|f| f.rule == "thin_fact"));
}

#[test]
fn every_rule_is_documented() {
    for (rule, _, desc) in RULES {
        assert!(!desc.is_empty(), "{} has no description", rule);
    }
    let mut used = vec![
        "banned_word",
        "banned_word_upstream",
        "thin_fact",
        "identity_lock_missing",
        "identity_lock_drift",
        "thin_prompt",
        "no_camera_command",
    ];
    used.sort();
    let mut listed: Vec<&str> = RULES.iter().map(|(r, _, _)| *r).collect();
    listed.sort();
    assert_eq!(used, listed);
}

#[test]
fn metrics_report_the_fixture_as_meeting_its_targets() {
    for stage in [StageId::Storyboard, StageId::PromptPack] {
        let ms = metrics(stage, &outputs(stage));
        assert!(!ms.is_empty());
        for m in ms {
            if let Some(met) = m.met {
                assert!(met, "{:?}: {} is {}", stage, m.name, m.value);
            }
        }
    }
}

// ---------------------------------------------------------------------------
// The content self-review.

fn ten_seconds() -> Number {
    Number::Frac(Decimal::new(100, 1))
}

fn good() -> SelfReview {
    SelfReview {
        items: CRITERIA
            .iter()
            .map(|(c, _)| RubricItem {
                criterion: c.to_string(),
                verdict: "met".to_string(),
                at_seconds: Number::Frac(Decimal::new(6, 1)),
                evidence: "0.6 秒她转头笑出来，同一帧里湖面和群岛都在，地点和人一起给到".to_string(),
            })
            .collect(),
        summary: "钩子成立得很早，最弱的是第三镜的信息密度".to_string(),
    }
}

#[test]
fn a_complete_self_review_passes() {
    assert!(validate_review(&good(), ten_seconds()).is_ok());
}

#[test]
fn missing_a_criterion_is_rejected() {
    let mut r = good();
    r.items.pop();
    assert!(validate_review(&r, ten_seconds()).unwrap_err().message().contains("缺维度"));
}

#[test]
fn a_timecode_outside_the_film_is_rejected() {
    let mut r = good();
    r.items[0].at_seconds = Number::Frac(Decimal::new(420, 1));
    assert!(validate_review(&r, ten_seconds()).unwrap_err().message().contains("不在成片里"));
}

#[test]
fn a_vague_evidence_is_rejected() {
    let mut r = good();
    r.items[2].evidence = "还不错".to_string();
    assert!(validate_review(&r, ten_seconds()).unwrap_err().message().contains("证据太短"));
}

#[test]
fn the_same_criterion_twice_is_rejected() {
    let mut r = good();
    let dup = r.items[0].clone();
    r.items.push(dup);
    assert!(validate_review(&r, ten_seconds()).unwrap_err().message().contains("只给一条结论"));
}

#[test]
fn tally_counts_each_verdict() {
    let mut r = good();
    r.items[0].verdict = "not_met".to_string();
    r.items[1].verdict = "partially_met".to_string();
    assert_eq!(tally(&r), (3, 1, 1));
}

#[test]
fn a_review_written_back_as_json_keeps_every_item() {
    let doc = from_json(&good().to_json());
    assert_eq!(doc["items"].as_array().unwrap().len(), 5);
    assert_eq!(doc["items"][0]["criterion"], serde_json::Value::String(CRITERIA[0].0.to_string()));
    assert_eq!(doc["items"][0]["at_seconds"].as_f64(), Some(0.6));
    assert_eq!(doc["summary"], serde_json::Value::String(good().summary));
}

#[test]
fn the_sample_review_passes_the_rubric() {
    let review = fixture(StageId::Review);
    let items = review["review"]["content_review"]["items"].as_array().unwrap();
    let r = SelfReview {
        items: items
            .iter()
            .map(|i| RubricItem {
                criterion: i["criterion"].as_str().unwrap().to_string(),
                verdict: i["verdict"].as_str().unwrap().to_string(),
                at_seconds: match to_json(&i["at_seconds"]) {
                    Json::Num(n) => n,
                    _ => panic!(),
                },
                evidence: i["evidence"].as_str().unwrap().to_string(),
            })
            .collect(),
        summary: review["review"]["content_review"]["summary"].as_str().unwrap().to_string(),
    };
    assert!(validate_review(&r, ten_seconds()).is_ok());
    assert_eq!(tally(&r), (4, 1, 0));
}

// ---------------------------------------------------------------------------
// The quality report of a bundle.

fn approved_bundle() -> Vec<(StageId, StageState, Outputs)> {
    StageId::all().into_iter().map(|s| (s, StageState::Approved, outputs(s))).collect()
}

#[test]
fn a_bundle_built_from_the_golden_fixtures_passes() {
    let report = Report::build("千岛湖".to_string(), "/tmp/作品".to_string(), approved_bundle(), None);
    assert!(report.has_data);
    assert_eq!(report.blocking, 0, "{}", render(&report));
    assert!(report.cross_stage.is_empty());
    assert!(report.passed);
    assert_eq!(report.stages.len(), 10);
}

#[test]
fn an_empty_bundle_is_not_a_failure() {
    let report = Report::build("空".to_string(), "/tmp/空作品".to_string(), vec![], None);
    assert!(!report.has_data);
    assert!(report.passed);
    assert!(render(&report).contains("没什么可查的"));
}

#[test]
fn a_missing_bundle_says_so_instead_of_passing() {
    let report = Report::unopened("".to_string(), "/tmp/不存在".to_string(), "no such file");
    assert!(!report.passed);
    assert!(report.problem.is_some());
    assert_eq!(report.problem.unwrap(), "打不开作品状态库：no such file");
}

#[test]
fn only_one_stage_still_runs_the_cross_stage_check() {
    let report = Report::build("千岛湖".to_string(), "/tmp/作品".to_string(), approved_bundle(), Some(StageId::Storyboard));
    assert_eq!(report.stages.len(), 1);
    assert_eq!(report.stages[0].stage, "storyboard");
    assert!(report.cross_stage.is_empty());
}

#[test]
fn a_blocking_finding_fails_the_bundle_report() {
    let mut pack = fixture(StageId::PromptPack);
    pack["prompt_pack"]["shots"][0]["positive"] = format!("{} 电影感的湖面", IDENTITY_LOCK).into();
    let mut loaded = approved_bundle();
    loaded[5].2 = outputs_from(&pack);
    let report = Report::build("千岛湖".to_string(), "/tmp/作品".to_string(), loaded, None);
    assert!(!report.passed);
    assert!(report.blocking >= 1);
    let text = render(&report);
    assert!(text.contains("挡提交  prompt_pack.shots[0].positive"), "{}", text);
    assert!(text.contains("共 1 条挡提交、0 条提醒。没通过"), "{}", text);
}
