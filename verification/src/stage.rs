//! The stage graph: ten stages in a fixed order, each with the capability
//! that does it, who produces its content, its confirmation gate and the
//! top-level key its outputs live under.
use vstd::prelude::*;
use crate::text::str_eq;

verus! {

broadcast use vstd::string::group_string_axioms;

/// The ten stages, in order.
#[derive(Debug, Clone, Copy, PartialEq, Eq, PartialOrd, Ord, Hash, Structural)]
pub enum StageId {
    Idea,
    Selection,
    Script,
    Storyboard,
    VisualAssets,
    PromptPack,
    Preview,
    Render,
    Post,
    Review,
}

/// The capability that carries a stage (the name of a skill directory).
#[derive(Debug, Clone, Copy, PartialEq, Eq, Hash, Structural)]
pub enum Capability {
    Idea,
    Selection,
    Script,
    Director,
    Visual,
    Prompt,
    Comfyui,
    Post,
    Review,
}

/// Who produces a stage's content.
#[derive(Debug, Clone, Copy, PartialEq, Eq, Hash, Structural)]
pub enum StageKind {
    /// The agent gives all of it; the control plane runs nothing.
    Creative,
    /// The agent decides the content; after confirmation the control plane generates it.
    Hybrid,
    /// Pure code; it goes back to the agent only on failure.
    Deterministic,
}

/// One row of the stage graph.
#[derive(Debug, Clone, Copy)]
pub struct StageSpec {
    pub id: StageId,
    pub capability: Capability,
    pub kind: StageKind,
    /// The confirmation gate. A gate pauses the stage *after* it has produced.
    pub gate: Option<&'static str>,
    /// The top-level key of the stage's outputs.
    pub output_key: &'static str,
}

/// Number of stages in the graph.
pub const STAGE_COUNT: usize = 10;

/// The stage at a position of the graph.
pub open spec fn stage_at(i: int) -> Option<StageId> {
    if i == 0 {
        Some(StageId::Idea)
    } else if i == 1 {
        Some(StageId::Selection)
    } else if i == 2 {
        Some(StageId::Script)
    } else if i == 3 {
        Some(StageId::Storyboard)
    } else if i == 4 {
        Some(StageId::VisualAssets)
    } else if i == 5 {
        Some(StageId::PromptPack)
    } else if i == 6 {
        Some(StageId::Preview)
    } else if i == 7 {
        Some(StageId::Render)
    } else if i == 8 {
        Some(StageId::Post)
    } else if i == 9 {
        Some(StageId::Review)
    } else {
        None
    }
}

impl StageId {
    /// The position of the stage in the graph.
    pub open spec fn position(self) -> int {
        match self {
            StageId::Idea => 0,
            StageId::Selection => 1,
            StageId::Script => 2,
            StageId::Storyboard => 3,
            StageId::VisualAssets => 4,
            StageId::PromptPack => 5,
            StageId::Preview => 6,
            StageId::Render => 7,
            StageId::Post => 8,
            StageId::Review => 9,
        }
    }

    pub open spec fn name(self) -> Seq<char> {
        match self {
            StageId::Idea => "idea"@,
            StageId::Selection => "selection"@,
            StageId::Script => "script"@,
            StageId::Storyboard => "storyboard"@,
            StageId::VisualAssets => "visual_assets"@,
            StageId::PromptPack => "prompt_pack"@,
            StageId::Preview => "preview"@,
            StageId::Render => "render"@,
            StageId::Post => "post"@,
            StageId::Review => "review"@,
        }
    }

    pub open spec fn gate_name(self) -> Option<Seq<char>> {
        match self {
            StageId::Selection => Some("selection.approval"@),
            StageId::Script => Some("script.approval"@),
            StageId::Storyboard => Some("storyboard.approval"@),
            StageId::VisualAssets => Some("visual_assets.approval"@),
            StageId::PromptPack => Some("prompt_pack.approval"@),
            StageId::Preview => Some("preview.approval"@),
            _ => None,
        }
    }

    pub open spec fn key_name(self) -> Seq<char> {
        match self {
            StageId::Idea => "brief"@,
            StageId::Selection => "selection"@,
            StageId::Script => "script"@,
            StageId::Storyboard => "storyboard"@,
            StageId::VisualAssets => "asset_plan"@,
            StageId::PromptPack => "prompt_pack"@,
            StageId::Preview => "preview"@,
            StageId::Render => "render"@,
            StageId::Post => "post"@,
            StageId::Review => "review"@,
        }
    }

    pub open spec fn capability_of(self) -> Capability {
        match self {
            StageId::Idea => Capability::Idea,
            StageId::Selection => Capability::Selection,
            StageId::Script => Capability::Script,
            StageId::Storyboard => Capability::Director,
            StageId::VisualAssets => Capability::Visual,
            StageId::PromptPack => Capability::Prompt,
            StageId::Preview => Capability::Comfyui,
            StageId::Render => Capability::Comfyui,
            StageId::Post => Capability::Post,
            StageId::Review => Capability::Review,
        }
    }

    pub open spec fn kind_of(self) -> StageKind {
        match self {
            StageId::VisualAssets => StageKind::Hybrid,
            StageId::Preview | StageId::Render | StageId::Post | StageId::Review => {
                StageKind::Deterministic
            },
            _ => StageKind::Creative,
        }
    }

    /// Where a revision of this stage lands.
    pub open spec fn revise_target_of(self) -> StageId {
        match self {
            StageId::Preview => StageId::PromptPack,
            other => other,
        }
    }

    /// The row of the stage graph for this stage.
    pub fn spec(self) -> (r: StageSpec)
        ensures
            r.id == self,
            r.capability == self.capability_of(),
            r.kind == self.kind_of(),
            r.output_key@ == self.key_name(),
            r.gate is Some == self.gate_name() is Some,
            r.gate matches Some(g) ==> self.gate_name() == Some(g@),
    {
        let graph = stage_graph();
        graph[self.index()]
    }

    /// The position of the stage in the graph.
    pub fn index(self) -> (r: usize)
        ensures
            r as int == self.position(),
            r < STAGE_COUNT,
    {
        match self {
            StageId::Idea => 0,
            StageId::Selection => 1,
            StageId::Script => 2,
            StageId::Storyboard => 3,
            StageId::VisualAssets => 4,
            StageId::PromptPack => 5,
            StageId::Preview => 6,
            StageId::Render => 7,
            StageId::Post => 8,
            StageId::Review => 9,
        }
    }

    pub fn as_str(self) -> (r: &'static str)
        ensures
            r@ == self.name(),
    {
        match self {
            StageId::Idea => "idea",
            StageId::Selection => "selection",
            StageId::Script => "script",
            StageId::Storyboard => "storyboard",
            StageId::VisualAssets => "visual_assets",
            StageId::PromptPack => "prompt_pack",
            StageId::Preview => "preview",
            StageId::Render => "render",
            StageId::Post => "post",
            StageId::Review => "review",
        }
    }

    /// Which stage a revision goes back to. Itself, except `preview`: it produces
    /// nothing of its own, so revising it goes back to `prompt_pack`.
    pub fn revise_target(self) -> (r: StageId)
        ensures
            r == self.revise_target_of(),
    {
        match self {
            StageId::Preview => StageId::PromptPack,
            other => other,
        }
    }

    /// The stage whose name is `s`.
    pub fn parse(s: &str) -> (r: Option<StageId>)
        ensures
            r matches Some(id) ==> id.name() == s@,
            r is None ==> forall|id: StageId| id.name() != s@,
    {
        let graph = stage_graph();
        let mut i: usize = 0;
        while i < STAGE_COUNT
            invariant
                i <= STAGE_COUNT,
                forall|k: int| 0 <= k < STAGE_COUNT ==> stage_at(k) == Some(#[trigger] graph[k].id),
                forall|k: int| 0 <= k < i ==> (#[trigger] graph[k]).id.name() != s@,
            decreases STAGE_COUNT - i,
        {
            let id = graph[i].id;
            if str_eq(id.as_str(), s) {
                return Some(id);
            }
            i = i + 1;
        }
        proof {
            assert forall|id: StageId| id.name() != s@ by {
                let k = id.position();
                assert(graph[k].id == id);
            }
        }
        None
    }

    /// The next stage; the last stage has none.
    pub fn next(self) -> (r: Option<StageId>)
        ensures
            r == stage_at(self.position() + 1),
    {
        let i = self.index() + 1;
        if i < STAGE_COUNT {
            let graph = stage_graph();
            Some(graph[i].id)
        } else {
            None
        }
    }

    pub fn first() -> (r: StageId)
        ensures
            r == StageId::Idea,
            r.position() == 0,
    {
        let graph = stage_graph();
        graph[0].id
    }

    /// All stages in graph order.
    pub fn all() -> (r: Vec<StageId>)
        ensures
            r@.len() == STAGE_COUNT,
            forall|k: int| 0 <= k < STAGE_COUNT ==> Some(#[trigger] r@[k]) == stage_at(k),
    {
        let graph = stage_graph();
        let mut out: Vec<StageId> = Vec::new();
        let mut i: usize = 0;
        while i < STAGE_COUNT
            invariant
                i <= STAGE_COUNT,
                out@.len() == i,
                forall|k: int| 0 <= k < STAGE_COUNT ==> stage_at(k) == Some(#[trigger] graph[k].id),
                forall|k: int| 0 <= k < i ==> Some(#[trigger] out@[k]) == stage_at(k),
            decreases STAGE_COUNT - i,
        {
            out.push(graph[i].id);
            i = i + 1;
        }
        out
    }

    pub fn gate(self) -> (r: Option<&'static str>)
        ensures
            r is Some == self.gate_name() is Some,
            r matches Some(g) ==> self.gate_name() == Some(g@),
    {
        self.spec().gate
    }

    pub fn capability(self) -> (r: Capability)
        ensures
            r == self.capability_of(),
    {
        self.spec().capability
    }

    pub fn kind(self) -> (r: StageKind)
        ensures
            r == self.kind_of(),
    {
        self.spec().kind
    }

    /// The top-level key of the stage's outputs.
    pub fn output_key(self) -> (r: &'static str)
        ensures
            r@ == self.key_name(),
    {
        self.spec().output_key
    }
}

/// The stage graph. The order is the order of execution.
pub fn stage_graph() -> (r: [StageSpec; 10])
    ensures
        forall|k: int| 0 <= k < STAGE_COUNT ==> stage_at(k) == Some(#[trigger] r[k].id),
        forall|k: int|
            0 <= k < STAGE_COUNT ==> {
                let s = #[trigger] r[k];
                &&& s.capability == s.id.capability_of()
                &&& s.kind == s.id.kind_of()
                &&& s.output_key@ == s.id.key_name()
                &&& s.gate is Some == s.id.gate_name() is Some
                &&& (s.gate matches Some(g) ==> s.id.gate_name() == Some(g@))
            },
{
    let r = [
        StageSpec {
            id: StageId::Idea,
            capability: Capability::Idea,
            kind: StageKind::Creative,
            gate: None,
            output_key: "brief",
        },
        StageSpec {
            id: StageId::Selection,
            capability: Capability::Selection,
            kind: StageKind::Creative,
            gate: Some("selection.approval"),
            output_key: "selection",
        },
        StageSpec {
            id: StageId::Script,
            capability: Capability::Script,
            kind: StageKind::Creative,
            gate: Some("script.approval"),
            output_key: "script",
        },
        StageSpec {
            id: StageId::Storyboard,
            capability: Capability::Director,
            kind: StageKind::Creative,
            gate: Some("storyboard.approval"),
            output_key: "storyboard",
        },
        StageSpec {
            id: StageId::VisualAssets,
            capability: Capability::Visual,
            kind: StageKind::Hybrid,
            gate: Some("visual_assets.approval"),
            output_key: "asset_plan",
        },
        StageSpec {
            id: StageId::PromptPack,
            capability: Capability::Prompt,
            kind: StageKind::Creative,
            gate: Some("prompt_pack.approval"),
            output_key: "prompt_pack",
        },
        // Two steps of GPU time: a cheap 480p first, confirmed by a person,
        // then the expensive full size. The only deterministic stage with a gate.
        StageSpec {
            id: StageId::Preview,
            capability: Capability::Comfyui,
            kind: StageKind::Deterministic,
            gate: Some("preview.approval"),
            output_key: "preview",
        },
        StageSpec {
            id: StageId::Render,
            capability: Capability::Comfyui,
            kind: StageKind::Deterministic,
            gate: None,
            output_key: "render",
        },
        StageSpec {
            id: StageId::Post,
            capability: Capability::Post,
            kind: StageKind::Deterministic,
            gate: None,
            output_key: "post",
        },
        StageSpec {
            id: StageId::Review,
            capability: Capability::Review,
            kind: StageKind::Deterministic,
            gate: None,
            output_key: "review",
        },
    ];
    r
}

impl Capability {
    pub open spec fn name(self) -> Seq<char> {
        match self {
            Capability::Idea => "idea"@,
            Capability::Selection => "selection"@,
            Capability::Script => "script"@,
            Capability::Director => "director"@,
            Capability::Visual => "visual"@,
            Capability::Prompt => "prompt"@,
            Capability::Comfyui => "comfyui"@,
            Capability::Post => "post"@,
            Capability::Review => "review"@,
        }
    }

    pub fn as_str(self) -> (r: &'static str)
        ensures
            r@ == self.name(),
    {
        match self {
            Capability::Idea => "idea",
            Capability::Selection => "selection",
            Capability::Script => "script",
            Capability::Director => "director",
            Capability::Visual => "visual",
            Capability::Prompt => "prompt",
            Capability::Comfyui => "comfyui",
            Capability::Post => "post",
            Capability::Review => "review",
        }
    }
}

impl StageKind {
    pub open spec fn name(self) -> Seq<char> {
        match self {
            StageKind::Creative => "creative"@,
            StageKind::Hybrid => "hybrid"@,
            StageKind::Deterministic => "deterministic"@,
        }
    }

    pub fn as_str(self) -> (r: &'static str)
        ensures
            r@ == self.name(),
    {
        match self {
            StageKind::Creative => "creative",
            StageKind::Hybrid => "hybrid",
            StageKind::Deterministic => "deterministic",
        }
    }
}

/// Every skill directory name, in the order of the stage graph, then
/// `run-management`, which has no stage of its own.
pub open spec fn skill_dir_names() -> Seq<Seq<char>> {
    seq!["idea"@, "selection"@, "script"@, "director"@, "visual"@, "prompt"@, "comfyui"@, "post"@, "review"@, "run-management"@]
}

/// Every skill directory name. `run-management` has no stage of its own.
pub fn skill_names() -> (r: [&'static str; 10])
    ensures
        forall|i: int| 0 <= i < 10 ==> (#[trigger] r@[i])@ == skill_dir_names()[i],
{
    let r: [&'static str; 10] = [
        "idea",
        "selection",
        "script",
        "director",
        "visual",
        "prompt",
        "comfyui",
        "post",
        "review",
        "run-management",
    ];
    proof {
        reveal_strlit("idea");
        reveal_strlit("selection");
        reveal_strlit("script");
        reveal_strlit("director");
        reveal_strlit("visual");
        reveal_strlit("prompt");
        reveal_strlit("comfyui");
        reveal_strlit("post");
        reveal_strlit("review");
        reveal_strlit("run-management");
    }
    r
}

/// The graph is a chain: each stage's position is its place in `stage_at`,
/// the chain starts at `idea`, ends at `review`, and `next` moves one step.
pub proof fn lemma_stage_chain(s: StageId)
    ensures
        0 <= s.position() < STAGE_COUNT,
        stage_at(s.position()) == Some(s),
        stage_at(0) == Some(StageId::Idea),
        stage_at(STAGE_COUNT - 1) == Some(StageId::Review),
        stage_at(s.position() + 1) matches Some(t) ==> t.position() == s.position() + 1,
        stage_at(s.position() + 1) is None <==> s == StageId::Review,
{
}

/// Stage names are distinct, so a name identifies its stage.
pub proof fn lemma_stage_names_distinct(a: StageId, b: StageId)
    ensures
        a.name() == b.name() <==> a == b,
{
    reveal_strlit("idea");
    reveal_strlit("selection");
    reveal_strlit("script");
    reveal_strlit("storyboard");
    reveal_strlit("visual_assets");
    reveal_strlit("prompt_pack");
    reveal_strlit("preview");
    reveal_strlit("render");
    reveal_strlit("post");
    reveal_strlit("review");
    if a != b {
        assert(a.name().len() != b.name().len() || a.name()[0] != b.name()[0] || a.name()[1]
            != b.name()[1] || a.name()[2] != b.name()[2] || a.name()[3] != b.name()[3]);
    }
}

/// Parsing the name of a stage gives that stage back.
pub proof fn lemma_parse_roundtrip(s: StageId, r: Option<StageId>)
    requires
        r matches Some(id) ==> id.name() == s.name(),
        r is None ==> forall|id: StageId| #[trigger] id.name() != s.name(),
    ensures
        r == Some(s),
{
    match r {
        Some(id) => lemma_stage_names_distinct(id, s),
        None => {
            let n = s.name();
            assert(n.len() >= 0);
            assert(false);
        },
    }
}

/// Exactly the stages from `selection` to `preview` carry a gate, and the
/// gate is named after its stage.
pub proof fn lemma_gated_stages(s: StageId)
    ensures
        s.gate_name() is Some <==> 1 <= s.position() <= 6,
        s.gate_name() is Some ==> s.gate_name() == Some(s.name() + ".approval"@),
{
    reveal_strlit("selection");
    reveal_strlit("script");
    reveal_strlit("storyboard");
    reveal_strlit("visual_assets");
    reveal_strlit("prompt_pack");
    reveal_strlit("preview");
    reveal_strlit(".approval");
    reveal_strlit("selection.approval");
    reveal_strlit("script.approval");
    reveal_strlit("storyboard.approval");
    reveal_strlit("visual_assets.approval");
    reveal_strlit("prompt_pack.approval");
    reveal_strlit("preview.approval");
    match s {
        StageId::Selection => assert("selection.approval"@ =~= "selection"@ + ".approval"@),
        StageId::Script => assert("script.approval"@ =~= "script"@ + ".approval"@),
        StageId::Storyboard => assert("storyboard.approval"@ =~= "storyboard"@ + ".approval"@),
        StageId::VisualAssets => assert("visual_assets.approval"@ =~= "visual_assets"@
            + ".approval"@),
        StageId::PromptPack => assert("prompt_pack.approval"@ =~= "prompt_pack"@ + ".approval"@),
        StageId::Preview => assert("preview.approval"@ =~= "preview"@ + ".approval"@),
        _ => {},
    }
}

/// A revision lands on the stage itself or, for `preview`, on the stage before it;
/// revising never moves forward.
pub proof fn lemma_revise_target(s: StageId)
    ensures
        s.revise_target_of().position() <= s.position(),
        s != StageId::Preview ==> s.revise_target_of() == s,
        s.revise_target_of().revise_target_of() == s.revise_target_of(),
{
}

} // verus!
