//! The settings of a song and what follows from them: the caption, the lyrics, the complaints.

use vstd::prelude::*;

use crate::clock::{default_out, out_named};
use crate::detect::{missing, problems, texts, Paths, PathsV, BACKENDS};
use crate::double::{
    finite, is_finite, is_less, less, make, settle, settled, valued, Double, DoubleV, ONE,
    ONE_AND_A_HALF, ONE_POINT_SEVEN, THIRTY, THREE_HUNDRED, THREE_THOUSAND_SIX_HUNDRED, TWENTY,
    ZERO,
};
use crate::path::{expand_tilde, expanded};
use crate::text::{
    capitalize_first, capitalized, contains, extend, group_views, holds, is_blank, listed, lowered,
    note, only_if, same, to_lower, trim, trimmed, views,
};

verus! {

/// The styles to choose from; the last stands for one of the user's own.
pub const GENRES: [&'static str; 8] = [
    "bright pop rock with clean drums and crisp rhythm guitars",
    "mellow lo-fi hip hop with warm vinyl crackle and dusty drums",
    "epic cinematic orchestral score with soaring strings and big percussion",
    "retro synthwave with pulsing analog bass and gated 80s drums",
    "intimate acoustic ballad with fingerpicked guitar and soft piano",
    "high-energy EDM festival anthem with a hard synth drop",
    "smooth late-night jazz with brushed drums and a walking bass",
    "custom...",
];

/// The moods to choose from.
pub const MOODS: [&'static str; 8] = [
    "uplifting",
    "melancholic",
    "energetic",
    "calm",
    "dark",
    "romantic",
    "dreamy",
    "defiant",
];

/// The vocals to choose from; the last is none.
pub const VOCALS: [&'static str; 4] = [
    "a clear female vocal",
    "a warm male vocal",
    "a duet with male and female vocals",
    "no vocals (instrumental)",
];

/// The lyrics that a new song starts with.
pub const DEFAULT_LYRICS: &'static str = "[verse]\nCity lights are shining low\nI keep moving with the glow\n[chorus]\nTurn it up and let it fly\nSing the melody tonight";

/// The settings of a song.
pub struct Config {
    pub genre: usize,
    pub genre_custom: String,
    pub mood: usize,
    pub vocals: usize,
    pub caption_override: String,
    pub lyrics: String,
    pub duration_sec: Double,
    pub num_inference_steps: u32,
    pub guidance_scale: Double,
    pub ar_guidance_scale: Double,
    pub top_k: u32,
    pub seed: u64,
    pub flow_uncond_interval: u32,
    pub flow_uncond_warmup: u32,
    pub flow_chunk_hop_frames: u32,
    pub ensemble_takes: u32,
    pub ensemble_prefix_frames: u32,
    pub mem_saver: bool,
    pub pipeline_overlap: bool,
    pub graph_context_mb: u32,
    pub weight_context_mb: u32,
    pub lm_gguf: String,
    pub flow_gguf: String,
    pub depth_gguf: String,
    pub backend: String,
    pub out: String,
}

/// What a [`Config`] holds. An empty component or backend is the automatic choice.
#[verifier::ext_equal]
pub struct ConfigV {
    pub genre: usize,
    pub genre_custom: Seq<char>,
    pub mood: usize,
    pub vocals: usize,
    pub caption_override: Seq<char>,
    pub lyrics: Seq<char>,
    pub duration_sec: DoubleV,
    pub num_inference_steps: u32,
    pub guidance_scale: DoubleV,
    pub ar_guidance_scale: DoubleV,
    pub top_k: u32,
    pub seed: u64,
    pub flow_uncond_interval: u32,
    pub flow_uncond_warmup: u32,
    pub flow_chunk_hop_frames: u32,
    pub ensemble_takes: u32,
    pub ensemble_prefix_frames: u32,
    pub mem_saver: bool,
    pub pipeline_overlap: bool,
    pub graph_context_mb: u32,
    pub weight_context_mb: u32,
    pub lm_gguf: Seq<char>,
    pub flow_gguf: Seq<char>,
    pub depth_gguf: Seq<char>,
    pub backend: Seq<char>,
    pub out: Seq<char>,
}

impl View for Config {
    type V = ConfigV;

    open spec fn view(&self) -> ConfigV {
        ConfigV {
            genre: self.genre,
            genre_custom: self.genre_custom@,
            mood: self.mood,
            vocals: self.vocals,
            caption_override: self.caption_override@,
            lyrics: self.lyrics@,
            duration_sec: self.duration_sec@,
            num_inference_steps: self.num_inference_steps,
            guidance_scale: self.guidance_scale@,
            ar_guidance_scale: self.ar_guidance_scale@,
            top_k: self.top_k,
            seed: self.seed,
            flow_uncond_interval: self.flow_uncond_interval,
            flow_uncond_warmup: self.flow_uncond_warmup,
            flow_chunk_hop_frames: self.flow_chunk_hop_frames,
            ensemble_takes: self.ensemble_takes,
            ensemble_prefix_frames: self.ensemble_prefix_frames,
            mem_saver: self.mem_saver,
            pipeline_overlap: self.pipeline_overlap,
            graph_context_mb: self.graph_context_mb,
            weight_context_mb: self.weight_context_mb,
            lm_gguf: self.lm_gguf@,
            flow_gguf: self.flow_gguf@,
            depth_gguf: self.depth_gguf@,
            backend: self.backend@,
            out: self.out@,
        }
    }
}

impl Clone for Config {
    fn clone(&self) -> (r: Self)
        ensures
            r == *self,
    {
        Config {
            genre: self.genre,
            genre_custom: self.genre_custom.clone(),
            mood: self.mood,
            vocals: self.vocals,
            caption_override: self.caption_override.clone(),
            lyrics: self.lyrics.clone(),
            duration_sec: self.duration_sec.clone(),
            num_inference_steps: self.num_inference_steps,
            guidance_scale: self.guidance_scale.clone(),
            ar_guidance_scale: self.ar_guidance_scale.clone(),
            top_k: self.top_k,
            seed: self.seed,
            flow_uncond_interval: self.flow_uncond_interval,
            flow_uncond_warmup: self.flow_uncond_warmup,
            flow_chunk_hop_frames: self.flow_chunk_hop_frames,
            ensemble_takes: self.ensemble_takes,
            ensemble_prefix_frames: self.ensemble_prefix_frames,
            mem_saver: self.mem_saver,
            pipeline_overlap: self.pipeline_overlap,
            graph_context_mb: self.graph_context_mb,
            weight_context_mb: self.weight_context_mb,
            lm_gguf: self.lm_gguf.clone(),
            flow_gguf: self.flow_gguf.clone(),
            depth_gguf: self.depth_gguf.clone(),
            backend: self.backend.clone(),
            out: self.out.clone(),
        }
    }
}

/// The default settings with an output path.
pub open spec fn defaults(out: Seq<char>) -> ConfigV {
    ConfigV {
        genre: 0,
        genre_custom: Seq::<char>::empty(),
        mood: 0,
        vocals: 0,
        caption_override: Seq::<char>::empty(),
        lyrics: DEFAULT_LYRICS@,
        duration_sec: valued(THIRTY, "30"@),
        num_inference_steps: 30,
        guidance_scale: valued(ONE_POINT_SEVEN, "1.7"@),
        ar_guidance_scale: valued(ONE_AND_A_HALF, "1.5"@),
        top_k: 50,
        seed: 0,
        flow_uncond_interval: 1,
        flow_uncond_warmup: 2,
        flow_chunk_hop_frames: 0,
        ensemble_takes: 1,
        ensemble_prefix_frames: 0,
        mem_saver: true,
        pipeline_overlap: false,
        graph_context_mb: 32,
        weight_context_mb: 32,
        lm_gguf: Seq::<char>::empty(),
        flow_gguf: Seq::<char>::empty(),
        depth_gguf: Seq::<char>::empty(),
        backend: Seq::<char>::empty(),
        out,
    }
}

impl Default for Config {
    /// The default settings; the output file is named after the current time.
    fn default() -> (r: Self)
        ensures
            exists|secs: u64| r@ == defaults(#[trigger] out_named(secs)),
    {
        Config::with_out(default_out())
    }
}

/// An index, or the last one of a list where it is behind it.
pub open spec fn capped(i: usize, n: int) -> int {
    if i < n {
        i as int
    } else {
        n - 1
    }
}

impl ConfigV {
    /// Whether the style is the user's own.
    pub open spec fn custom_genre(self) -> bool {
        capped(self.genre, 8) == 7
    }

    /// Whether there are no vocals.
    pub open spec fn instrumental(self) -> bool {
        capped(self.vocals, 4) == 3
    }

    /// The words for the style.
    pub open spec fn style(self) -> Seq<char> {
        if !self.custom_genre() {
            GENRES@[capped(self.genre, 8)]@
        } else if trimmed(self.genre_custom).len() == 0 {
            "an original song"@
        } else {
            trimmed(self.genre_custom)
        }
    }

    /// The caption that is composed of style, mood and vocals.
    pub open spec fn composed(self) -> Seq<char> {
        let caption = capitalized(trimmed(self.style())) + " — "@ + MOODS@[capped(self.mood, 8)]@
            + " mood, "@ + VOCALS@[capped(self.vocals, 4)]@ + ", polished studio production."@;
        if self.instrumental() {
            caption + " Focus on the melody and arrangement."@
        } else {
            caption
        }
    }

    /// The caption: the user's own, or the composed one.
    pub open spec fn title(self) -> Seq<char> {
        if trimmed(self.caption_override).len() > 0 {
            trimmed(self.caption_override)
        } else {
            self.composed()
        }
    }

    /// The lyrics that are sung.
    pub open spec fn sung(self) -> Seq<char> {
        let t = trimmed(self.lyrics);
        if self.instrumental() && !holds(lowered(t), "instrumental"@) {
            "[instrumental]\n"@ + t
        } else if t.len() == 0 {
            DEFAULT_LYRICS@
        } else {
            t
        }
    }

    /// The settings with indices and numbers in their ranges.
    pub open spec fn sanitized(self) -> ConfigV {
        ConfigV {
            genre: capped(self.genre, 8) as usize,
            mood: capped(self.mood, 8) as usize,
            vocals: capped(self.vocals, 4) as usize,
            duration_sec: settled(
                self.duration_sec,
                valued(ONE, "1"@),
                valued(THREE_THOUSAND_SIX_HUNDRED, "3600"@),
            ),
            num_inference_steps: between(self.num_inference_steps, 1, 500),
            guidance_scale: settled(
                self.guidance_scale,
                valued(ZERO, "0"@),
                valued(TWENTY, "20"@),
            ),
            ar_guidance_scale: settled(
                self.ar_guidance_scale,
                valued(ZERO, "0"@),
                valued(TWENTY, "20"@),
            ),
            top_k: between(self.top_k, 1, 2000),
            flow_uncond_interval: between(self.flow_uncond_interval, 1, 20),
            flow_uncond_warmup: between(self.flow_uncond_warmup, 0, 20),
            ensemble_takes: between(self.ensemble_takes, 1, 16),
            graph_context_mb: between(self.graph_context_mb, 8, 4096),
            weight_context_mb: between(self.weight_context_mb, 8, 4096),
            backend: if listed(texts(BACKENDS@), self.backend) {
                self.backend
            } else {
                Seq::<char>::empty()
            },
            ..self
        }
    }

    /// What makes a run impossible.
    pub open spec fn faults(self, paths: PathsV) -> Seq<Seq<char>> {
        only_if(
            less(self.duration_sec.bits, ONE) || !finite(self.duration_sec.bits),
            "duration must be at least 1 second"@,
        ) + only_if(self.num_inference_steps == 0, "steps must be >= 1"@) + only_if(
            trimmed(self.out).len() == 0,
            "output path is empty"@,
        ) + missing(paths)
    }

    /// What is worth saying before a run.
    pub open spec fn advice(self, paths: PathsV) -> Seq<Seq<char>> {
        only_if(
            self.pipeline_overlap && self.mem_saver,
            "pipeline_overlap has no effect while mem_saver is on"@,
        ) + only_if(
            self.instrumental() && trimmed(self.lyrics).len() == 0,
            "instrumental selected — lyrics will be replaced with [instrumental]"@,
        ) + only_if(
            less(THREE_HUNDRED, self.duration_sec.bits),
            "very long duration — generation may take a long time"@,
        ) + self.faults(paths)
    }
}

/// A number between two bounds.
pub open spec fn between(v: u32, lo: u32, hi: u32) -> u32 {
    if v < lo {
        lo
    } else if v > hi {
        hi
    } else {
        v
    }
}

fn put_between(v: u32, lo: u32, hi: u32) -> (r: u32)
    ensures
        r == between(v, lo, hi),
{
    if v < lo {
        lo
    } else if v > hi {
        hi
    } else {
        v
    }
}

fn cap(i: usize, n: usize) -> (r: usize)
    requires
        n > 0,
    ensures
        r == capped(i, n as int),
        r < n,
{
    if i < n {
        i
    } else {
        n - 1
    }
}

/// Puts a duration in its range.
pub(crate) fn settle_duration(v: Double) -> (r: Double)
    ensures
        r@ == settled(v@, valued(ONE, "1"@), valued(THREE_THOUSAND_SIX_HUNDRED, "3600"@)),
{
    settle(v, make(ONE, "1"), make(THREE_THOUSAND_SIX_HUNDRED, "3600"))
}

/// Puts a guidance scale in its range.
pub(crate) fn settle_scale(v: Double) -> (r: Double)
    ensures
        r@ == settled(v@, valued(ZERO, "0"@), valued(TWENTY, "20"@)),
{
    settle(v, make(ZERO, "0"), make(TWENTY, "20"))
}

/// Whether the name is that of a backend.
pub fn is_backend(name: &str) -> (r: bool)
    ensures
        r == listed(texts(BACKENDS@), name@),
{
    let mut i: usize = 0;
    while i < 5
        invariant
            i <= 5,
            forall|j: int| 0 <= j < i ==> #[trigger] texts(BACKENDS@)[j] != name@,
        decreases 5 - i,
    {
        assert(texts(BACKENDS@)[i as int] == BACKENDS@[i as int]@);
        if same(BACKENDS[i], name) {
            return true;
        }
        i = i + 1;
    }
    false
}

impl Config {
    /// The default settings with an output path.
    pub fn with_out(out: String) -> (r: Self)
        ensures
            r@ == defaults(out@),
    {
        Config {
            genre: 0,
            genre_custom: String::new(),
            mood: 0,
            vocals: 0,
            caption_override: String::new(),
            lyrics: DEFAULT_LYRICS.to_string(),
            duration_sec: make(THIRTY, "30"),
            num_inference_steps: 30,
            guidance_scale: make(ONE_POINT_SEVEN, "1.7"),
            ar_guidance_scale: make(ONE_AND_A_HALF, "1.5"),
            top_k: 50,
            seed: 0,
            flow_uncond_interval: 1,
            flow_uncond_warmup: 2,
            flow_chunk_hop_frames: 0,
            ensemble_takes: 1,
            ensemble_prefix_frames: 0,
            mem_saver: true,
            pipeline_overlap: false,
            graph_context_mb: 32,
            weight_context_mb: 32,
            lm_gguf: String::new(),
            flow_gguf: String::new(),
            depth_gguf: String::new(),
            backend: String::new(),
            out,
        }
    }

    /// The index of the style, within the list whatever the settings hold.
    pub fn genre_index(&self) -> (r: usize)
        ensures
            r == capped(self.genre, 8),
            r < 8,
    {
        cap(self.genre, 8)
    }

    /// The index of the mood, within the list whatever the settings hold.
    pub fn mood_index(&self) -> (r: usize)
        ensures
            r == capped(self.mood, 8),
            r < 8,
    {
        cap(self.mood, 8)
    }

    /// The index of the vocals, within the list whatever the settings hold.
    pub fn vocals_index(&self) -> (r: usize)
        ensures
            r == capped(self.vocals, 4),
            r < 4,
    {
        cap(self.vocals, 4)
    }

    /// The words for the style.
    pub fn genre_text(&self) -> (r: String)
        ensures
            r@ == self@.style(),
    {
        if self.is_custom_genre() {
            if is_blank(self.genre_custom.as_str()) {
                "an original song".to_string()
            } else {
                trim(self.genre_custom.as_str())
            }
        } else {
            GENRES[self.genre_index()].to_string()
        }
    }

    /// Whether the style is the user's own.
    pub fn is_custom_genre(&self) -> (r: bool)
        ensures
            r == self@.custom_genre(),
    {
        self.genre_index() == 7
    }

    /// Whether there are no vocals.
    pub fn is_instrumental(&self) -> (r: bool)
        ensures
            r == self@.instrumental(),
    {
        self.vocals_index() == 3
    }

    /// The caption: the user's own, or one composed of style, mood and vocals.
    pub fn caption(&self) -> (r: String)
        ensures
            r@ == self@.title(),
    {
        if !is_blank(self.caption_override.as_str()) {
            return trim(self.caption_override.as_str());
        }
        let genre = trim(self.genre_text().as_str());
        let mut c = capitalize_first(genre.as_str());
        c.append(" — ");
        c.append(MOODS[self.mood_index()]);
        c.append(" mood, ");
        c.append(VOCALS[self.vocals_index()]);
        c.append(", polished studio production.");
        if self.is_instrumental() {
            c.append(" Focus on the melody and arrangement.");
        }
        c
    }

    /// Puts indices and numbers in their ranges.
    pub fn sanitize(&mut self)
        ensures
            final(self)@ == old(self)@.sanitized(),
    {
        self.genre = self.genre_index();
        self.mood = self.mood_index();
        self.vocals = self.vocals_index();
        self.duration_sec = settle_duration(self.duration_sec.clone());
        self.num_inference_steps = put_between(self.num_inference_steps, 1, 500);
        self.guidance_scale = settle_scale(self.guidance_scale.clone());
        self.ar_guidance_scale = settle_scale(self.ar_guidance_scale.clone());
        self.top_k = put_between(self.top_k, 1, 2000);
        self.flow_uncond_interval = put_between(self.flow_uncond_interval, 1, 20);
        self.flow_uncond_warmup = put_between(self.flow_uncond_warmup, 0, 20);
        self.ensemble_takes = put_between(self.ensemble_takes, 1, 16);
        self.graph_context_mb = put_between(self.graph_context_mb, 8, 4096);
        self.weight_context_mb = put_between(self.weight_context_mb, 8, 4096);
        if !is_backend(self.backend.as_str()) {
            self.backend = String::new();
        }
    }

    /// The lyrics that are sung.
    pub fn lyrics_text(&self) -> (r: String)
        ensures
            r@ == self@.sung(),
    {
        let t = trim(self.lyrics.as_str());
        if self.is_instrumental() && !contains(to_lower(t.as_str()).as_str(), "instrumental") {
            let mut s = "[instrumental]\n".to_string();
            s.append(t.as_str());
            s
        } else if t.as_str().is_empty() {
            DEFAULT_LYRICS.to_string()
        } else {
            t
        }
    }

    /// The path of the output file.
    pub fn out_path(&self, home: &str) -> (r: String)
        ensures
            r@ == expanded(trimmed(self.out@), home@),
    {
        expand_tilde(trim(self.out.as_str()).as_str(), home)
    }

    /// What makes a run impossible. No generation is started while there is any of it.
    pub fn errors(&self, paths: &Paths) -> (r: Vec<String>)
        ensures
            views(r@) == self@.faults(paths@),
    {
        broadcast use group_views;

        let mut e: Vec<String> = Vec::new();
        let short = is_less(self.duration_sec.bits, ONE) || !is_finite(self.duration_sec.bits);
        note(&mut e, short, "duration must be at least 1 second".to_string());
        assert(views(e@) =~= only_if(short, "duration must be at least 1 second"@));
        note(&mut e, self.num_inference_steps == 0, "steps must be >= 1".to_string());
        note(&mut e, is_blank(self.out.as_str()), "output path is empty".to_string());
        extend(&mut e, &problems(paths));
        e
    }

    /// What is worth saying before a run, and what makes it impossible.
    pub fn warnings(&self, paths: &Paths) -> (r: Vec<String>)
        ensures
            views(r@) == self@.advice(paths@),
    {
        broadcast use group_views;

        let mut w: Vec<String> = Vec::new();
        let idle = self.pipeline_overlap && self.mem_saver;
        note(&mut w, idle, "pipeline_overlap has no effect while mem_saver is on".to_string());
        assert(views(w@) =~= only_if(idle, "pipeline_overlap has no effect while mem_saver is on"@));
        note(
            &mut w,
            self.is_instrumental() && is_blank(self.lyrics.as_str()),
            "instrumental selected — lyrics will be replaced with [instrumental]".to_string(),
        );
        note(
            &mut w,
            is_less(THREE_HUNDRED, self.duration_sec.bits),
            "very long duration — generation may take a long time".to_string(),
        );
        extend(&mut w, &self.errors(paths));
        w
    }
}

} // verus!
