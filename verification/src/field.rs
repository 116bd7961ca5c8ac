//! The settings as fields: their names, kinds and groups.

use vstd::prelude::*;

use crate::text::same;

verus! {

/// The tab that a field stands on.
#[derive(Clone, Copy, Debug, PartialEq, Eq, Structural)]
pub enum Group {
    Song,
    Advanced,
    Components,
}

impl Group {
    pub open spec fn name(self) -> Seq<char> {
        match self {
            Group::Song => "song"@,
            Group::Advanced => "advanced"@,
            Group::Components => "components"@,
        }
    }

    /// The name of the group, as the web interface knows it.
    pub fn as_str(self) -> (r: &'static str)
        ensures
            r@ == self.name(),
    {
        match self {
            Group::Song => "song",
            Group::Advanced => "advanced",
            Group::Components => "components",
        }
    }
}

/// How a field is edited.
#[derive(Clone, Copy, Debug, PartialEq, Eq, Structural)]
pub enum Kind {
    Select,
    Bool,
    Int,
    Float,
    Text,
    Multiline,
}

impl Kind {
    pub open spec fn name(self) -> Seq<char> {
        match self {
            Kind::Select => "select"@,
            Kind::Bool => "bool"@,
            Kind::Int => "int"@,
            Kind::Float => "float"@,
            Kind::Text => "text"@,
            Kind::Multiline => "multiline"@,
        }
    }

    /// The name of the kind, as the web interface knows it.
    pub fn as_str(self) -> (r: &'static str)
        ensures
            r@ == self.name(),
    {
        match self {
            Kind::Select => "select",
            Kind::Bool => "bool",
            Kind::Int => "int",
            Kind::Float => "float",
            Kind::Text => "text",
            Kind::Multiline => "multiline",
        }
    }
}

/// One setting.
#[derive(Clone, Copy, Debug, PartialEq, Eq, Structural)]
pub enum Field {
    Genre,
    Mood,
    Vocals,
    Caption,
    Lyrics,
    Duration,
    Steps,
    Out,
    Guidance,
    ArGuidance,
    TopK,
    Seed,
    FlowInterval,
    FlowWarmup,
    FlowHop,
    EnsembleTakes,
    EnsemblePrefix,
    MemSaver,
    PipelineOverlap,
    GraphCtx,
    WeightCtx,
    Backend,
    Lm,
    Flow,
    Depth,
}

/// The fields of the tab of the song.
pub const SONG_FIELDS: [Field; 8] = [
    Field::Genre,
    Field::Mood,
    Field::Vocals,
    Field::Caption,
    Field::Lyrics,
    Field::Duration,
    Field::Steps,
    Field::Out,
];

/// The fields of the advanced tab.
pub const ADVANCED_FIELDS: [Field; 13] = [
    Field::Guidance,
    Field::ArGuidance,
    Field::TopK,
    Field::Seed,
    Field::FlowInterval,
    Field::FlowWarmup,
    Field::FlowHop,
    Field::EnsembleTakes,
    Field::EnsemblePrefix,
    Field::MemSaver,
    Field::PipelineOverlap,
    Field::GraphCtx,
    Field::WeightCtx,
];

/// The fields of the tab of the components.
pub const COMPONENT_FIELDS: [Field; 4] = [
    Field::Backend,
    Field::Lm,
    Field::Flow,
    Field::Depth,
];

/// All fields, tab by tab.
pub const ALL_FIELDS: [Field; 25] = [
    Field::Genre,
    Field::Mood,
    Field::Vocals,
    Field::Caption,
    Field::Lyrics,
    Field::Duration,
    Field::Steps,
    Field::Out,
    Field::Guidance,
    Field::ArGuidance,
    Field::TopK,
    Field::Seed,
    Field::FlowInterval,
    Field::FlowWarmup,
    Field::FlowHop,
    Field::EnsembleTakes,
    Field::EnsemblePrefix,
    Field::MemSaver,
    Field::PipelineOverlap,
    Field::GraphCtx,
    Field::WeightCtx,
    Field::Backend,
    Field::Lm,
    Field::Flow,
    Field::Depth,
];

/// The identifiers of the fields, in the order of [`ALL_FIELDS`].
pub const IDS: [&'static str; 25] = [
    "genre",
    "mood",
    "vocals",
    "caption",
    "lyrics",
    "duration_sec",
    "num_inference_steps",
    "out",
    "guidance_scale",
    "ar_guidance_scale",
    "top_k",
    "seed",
    "flow_uncond_interval",
    "flow_uncond_warmup",
    "flow_chunk_hop_frames",
    "ensemble_takes",
    "ensemble_prefix_frames",
    "mem_saver",
    "pipeline_overlap",
    "graph_context_mb",
    "weight_context_mb",
    "backend",
    "language_model_gguf",
    "flow_transformer_gguf",
    "rvq_depth_decoder_gguf",
];

/// The labels of the fields, in the order of [`ALL_FIELDS`].
pub const LABELS: [&'static str; 25] = [
    "Style",
    "Mood",
    "Vocals",
    "Caption override",
    "Lyrics",
    "Length (s)",
    "Steps",
    "Output file",
    "Flow guidance",
    "AR guidance",
    "Top-k",
    "Seed",
    "Flow uncond interval",
    "Flow uncond warmup",
    "Flow chunk hop",
    "Ensemble takes",
    "Ensemble prefix frames",
    "Mem saver",
    "Pipeline overlap",
    "Graph ctx (MiB)",
    "Weight ctx (MiB)",
    "Backend",
    "Language model",
    "Flow transformer",
    "Depth decoder",
];

/// What is said about the fields, in the order of [`ALL_FIELDS`].
pub const HELPS: [&'static str; 25] = [
    "caption style; last item lets you type your own",
    "mood word added to the caption",
    "vocal description; last item is instrumental",
    "if set, overrides the composed caption entirely",
    "song words; [verse]/[chorus]/[bridge]/[outro] tags allowed",
    "AR frame budget in seconds — a cap, not a hard length",
    "flow-matching Euler steps per chunk (lower = faster)",
    "where the .wav is written (~ = home)",
    "flow CFG scale; 0 disables CFG",
    "semantic/depth AR CFG scale; 0 disables",
    "top-k sampling for semantic and residual codes",
    "reroll the song by changing this",
    "evaluate flow uncond branch every N steps (2-3 = faster)",
    "steps per chunk that always evaluate both CFG branches",
    "flow chunk hop in AR frames (0 = model default; 150 = faster)",
    "generate K takes sharing one AR pass",
    "shared AR prefix frames across takes (intro lock)",
    "load big stages only when needed (lower peak VRAM)",
    "overlap AR with denoise/vocode (needs mem_saver off)",
    "runtime graph arena size",
    "weight context size",
    "cuda / metal / vulkan / hip / cpu",
    "language-model component GGUF",
    "flow-transformer component GGUF",
    "RVQ depth-decoder component GGUF",
];

/// The field with an identifier.
pub open spec fn field_named(id: Seq<char>) -> Option<Field> {
    if exists|f: Field| #[trigger] f.name() == id {
        Some(choose|f: Field| #[trigger] f.name() == id)
    } else {
        None
    }
}

impl Field {
    /// The place of the field in [`ALL_FIELDS`].
    pub open spec fn place(self) -> int {
        match self {
            Field::Genre => 0,
            Field::Mood => 1,
            Field::Vocals => 2,
            Field::Caption => 3,
            Field::Lyrics => 4,
            Field::Duration => 5,
            Field::Steps => 6,
            Field::Out => 7,
            Field::Guidance => 8,
            Field::ArGuidance => 9,
            Field::TopK => 10,
            Field::Seed => 11,
            Field::FlowInterval => 12,
            Field::FlowWarmup => 13,
            Field::FlowHop => 14,
            Field::EnsembleTakes => 15,
            Field::EnsemblePrefix => 16,
            Field::MemSaver => 17,
            Field::PipelineOverlap => 18,
            Field::GraphCtx => 19,
            Field::WeightCtx => 20,
            Field::Backend => 21,
            Field::Lm => 22,
            Field::Flow => 23,
            Field::Depth => 24,
        }
    }

    /// The place of the field in [`ALL_FIELDS`].
    fn position(self) -> (r: usize)
        ensures
            r == self.place(),
            r < 25,
    {
        match self {
            Field::Genre => 0,
            Field::Mood => 1,
            Field::Vocals => 2,
            Field::Caption => 3,
            Field::Lyrics => 4,
            Field::Duration => 5,
            Field::Steps => 6,
            Field::Out => 7,
            Field::Guidance => 8,
            Field::ArGuidance => 9,
            Field::TopK => 10,
            Field::Seed => 11,
            Field::FlowInterval => 12,
            Field::FlowWarmup => 13,
            Field::FlowHop => 14,
            Field::EnsembleTakes => 15,
            Field::EnsemblePrefix => 16,
            Field::MemSaver => 17,
            Field::PipelineOverlap => 18,
            Field::GraphCtx => 19,
            Field::WeightCtx => 20,
            Field::Backend => 21,
            Field::Lm => 22,
            Field::Flow => 23,
            Field::Depth => 24,
        }
    }

    /// The identifier of the field.
    pub open spec fn name(self) -> Seq<char> {
        IDS@[self.place()]@
    }

    /// The identifier of the field, as requests and arguments name it.
    pub fn id(self) -> (r: &'static str)
        ensures
            r@ == self.name(),
    {
        IDS[self.position()]
    }

    /// The label that is shown for the field.
    pub fn label(self) -> (r: &'static str)
        ensures
            r@ == LABELS@[self.place()]@,
    {
        LABELS[self.position()]
    }

    /// What the field means.
    pub fn help(self) -> (r: &'static str)
        ensures
            r@ == HELPS@[self.place()]@,
    {
        HELPS[self.position()]
    }

    /// The kind of the field.
    pub open spec fn sort(self) -> Kind {
        match self {
            Field::Genre | Field::Mood | Field::Vocals | Field::Backend | Field::Lm | Field::Flow
            | Field::Depth => Kind::Select,
            Field::MemSaver | Field::PipelineOverlap => Kind::Bool,
            Field::Duration | Field::Guidance | Field::ArGuidance => Kind::Float,
            Field::Caption | Field::Out => Kind::Text,
            Field::Lyrics => Kind::Multiline,
            _ => Kind::Int,
        }
    }

    /// How the field is edited.
    pub fn kind(self) -> (r: Kind)
        ensures
            r == self.sort(),
    {
        match self {
            Field::Genre | Field::Mood | Field::Vocals | Field::Backend | Field::Lm | Field::Flow
            | Field::Depth => Kind::Select,
            Field::MemSaver | Field::PipelineOverlap => Kind::Bool,
            Field::Duration | Field::Guidance | Field::ArGuidance => Kind::Float,
            Field::Caption | Field::Out => Kind::Text,
            Field::Lyrics => Kind::Multiline,
            _ => Kind::Int,
        }
    }

    /// The tab on which the field stands.
    pub open spec fn tab_group(self) -> Group {
        if SONG_FIELDS@.contains(self) {
            Group::Song
        } else if ADVANCED_FIELDS@.contains(self) {
            Group::Advanced
        } else {
            Group::Components
        }
    }

    /// The tab on which the field stands.
    pub fn group(self) -> (r: Group)
        ensures
            r == self.tab_group(),
    {
        if holds_field(&SONG_FIELDS, self) {
            Group::Song
        } else if holds_field(&ADVANCED_FIELDS, self) {
            Group::Advanced
        } else {
            Group::Components
        }
    }

    /// The field with an identifier, if there is one.
    pub fn from_id(id: &str) -> (r: Option<Field>)
        ensures
            r == field_named(id@),
            match r {
                Some(f) => f.name() == id@,
                None => forall|f: Field| #[trigger] f.name() != id@,
            },
    {
        let mut i: usize = 0;
        while i < 25
            invariant
                i <= 25,
                forall|j: int| 0 <= j < i ==> #[trigger] ALL_FIELDS@[j].name() != id@,
            decreases 25 - i,
        {
            let f = ALL_FIELDS[i];
            if same(f.id(), id) {
                proof {
                    law_ids_are_distinct(f, field_named(id@)->0);
                }
                return Some(f);
            }
            i = i + 1;
        }
        assert forall|f: Field| #[trigger] f.name() != id@ by {
            lemma_place(f);
            assert(ALL_FIELDS@[f.place()].name() != id@);
        }
        None
    }

    /// Whether a selection of the field has a place for the automatic choice.
    pub open spec fn automatic(self) -> bool {
        self is Backend || self is Lm || self is Flow || self is Depth
    }

    /// Whether a selection of the field has a place for the automatic choice.
    pub fn has_auto(self) -> (r: bool)
        ensures
            r == self.automatic(),
    {
        match self {
            Field::Backend | Field::Lm | Field::Flow | Field::Depth => true,
            _ => false,
        }
    }
}

/// Whether a list of fields holds a field.
fn holds_field(fields: &[Field], f: Field) -> (r: bool)
    ensures
        r == fields@.contains(f),
{
    let mut i: usize = 0;
    while i < fields.len()
        invariant
            i <= fields@.len(),
            forall|j: int| 0 <= j < i ==> fields@[j] != f,
        decreases fields@.len() - i,
    {
        if fields[i] == f {
            assert(fields@[i as int] == f);
            return true;
        }
        i = i + 1;
    }
    false
}

/// Every field stands at its place among all fields.
pub proof fn lemma_place(f: Field)
    ensures
        0 <= f.place() < 25,
        ALL_FIELDS@[f.place()] == f,
{
}

/// The fields of the three tabs in a row are all the fields, and each field stands once, on the
/// tab of its group.
pub proof fn law_tabs_hold_every_field_once(f: Field)
    ensures
        ALL_FIELDS@ == SONG_FIELDS@ + ADVANCED_FIELDS@ + COMPONENT_FIELDS@,
        forall|i: int| 0 <= i < 25 ==> (#[trigger] ALL_FIELDS@[i] == f <==> i == f.place()),
        f.tab_group() == Group::Song <==> f.place() < 8,
        f.tab_group() == Group::Advanced <==> 8 <= f.place() < 21,
        f.tab_group() == Group::Components <==> 21 <= f.place() < 25,
{
    assert(ALL_FIELDS@ =~= SONG_FIELDS@ + ADVANCED_FIELDS@ + COMPONENT_FIELDS@);
    assert forall|i: int| 0 <= i < 25 implies (#[trigger] ALL_FIELDS@[i] == f <==> i == f.place()) by {
        assert(ALL_FIELDS@[i].place() == i);
    }
    if f.place() < 8 {
        assert(SONG_FIELDS@[f.place()] == f);
    } else if f.place() < 21 {
        assert(ADVANCED_FIELDS@[f.place() - 8] == f);
        assert forall|i: int| 0 <= i < 8 implies #[trigger] SONG_FIELDS@[i] != f by {
            assert(SONG_FIELDS@[i].place() == i);
        }
    } else {
        assert forall|i: int| 0 <= i < 8 implies #[trigger] SONG_FIELDS@[i] != f by {
            assert(SONG_FIELDS@[i].place() == i);
        }
        assert forall|i: int| 0 <= i < 13 implies #[trigger] ADVANCED_FIELDS@[i] != f by {
            assert(ADVANCED_FIELDS@[i].place() == i + 8);
        }
    }
}

/// Different fields have different identifiers: no request for one field reaches another.
pub proof fn law_ids_are_distinct(f: Field, g: Field)
    requires
        f.name() == g.name(),
    ensures
        f == g,
{
    reveal_strlit("genre");
    reveal_strlit("mood");
    reveal_strlit("vocals");
    reveal_strlit("caption");
    reveal_strlit("lyrics");
    reveal_strlit("duration_sec");
    reveal_strlit("num_inference_steps");
    reveal_strlit("out");
    reveal_strlit("guidance_scale");
    reveal_strlit("ar_guidance_scale");
    reveal_strlit("top_k");
    reveal_strlit("seed");
    reveal_strlit("flow_uncond_interval");
    reveal_strlit("flow_uncond_warmup");
    reveal_strlit("flow_chunk_hop_frames");
    reveal_strlit("ensemble_takes");
    reveal_strlit("ensemble_prefix_frames");
    reveal_strlit("mem_saver");
    reveal_strlit("pipeline_overlap");
    reveal_strlit("graph_context_mb");
    reveal_strlit("weight_context_mb");
    reveal_strlit("backend");
    reveal_strlit("language_model_gguf");
    reveal_strlit("flow_transformer_gguf");
    reveal_strlit("rvq_depth_decoder_gguf");
    let a = f.name();
    let b = g.name();
    assert(a.len() == b.len());
    assert(a[0] == b[0]);
    assert(a[5] == b[5]);
}

} // verus!
