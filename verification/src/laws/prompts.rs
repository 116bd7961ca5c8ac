//! What the model is told: the caption and the lyrics, and what is said against a run.

use vstd::prelude::*;

use crate::config::{ConfigV, DEFAULT_LYRICS, GENRES, MOODS, VOCALS};
use crate::detect::{components, missing, no_component, PathsV};
use crate::double::{
    finite, lemma_bounds_are_whole, less, undefined, whole, worth, ONE, THREE_HUNDRED,
};
use crate::edit::{in_lists, shown};
use crate::field::Field;
use crate::text::{
    begins, capitalized, ends, holds, listed, lowered, only_if, stands_at, trim_end, trim_start,
    trimmed, white,
};

verus! {

/// Whether the caption is left to be composed.
pub open spec fn composing(c: ConfigV) -> bool {
    in_lists(c) && trimmed(c.caption_override).len() == 0
}

proof fn lemma_moods_differ(i: int, j: int)
    requires
        0 <= i < 8,
        0 <= j < 8,
        MOODS@[i]@ == MOODS@[j]@,
    ensures
        i == j,
{
    reveal_strlit("uplifting");
    reveal_strlit("melancholic");
    reveal_strlit("energetic");
    reveal_strlit("calm");
    reveal_strlit("dark");
    reveal_strlit("romantic");
    reveal_strlit("dreamy");
    reveal_strlit("defiant");
    assert(MOODS@[0]@.len() == 9 && MOODS@[0]@[0] == 'u');
    assert(MOODS@[1]@.len() == 11);
    assert(MOODS@[2]@.len() == 9 && MOODS@[2]@[0] == 'e');
    assert(MOODS@[3]@.len() == 4 && MOODS@[3]@[0] == 'c');
    assert(MOODS@[4]@.len() == 4 && MOODS@[4]@[0] == 'd');
    assert(MOODS@[5]@.len() == 8);
    assert(MOODS@[6]@.len() == 6);
    assert(MOODS@[7]@.len() == 7);
    assert(MOODS@[i]@.len() == MOODS@[j]@.len() && MOODS@[i]@[0] == MOODS@[j]@[0]);
}

proof fn lemma_code(c: char)
    ensures
        c as u32 == c as int,
        c as int >= 0,
{
}

/// What is chosen for the mood and the vocals stands in the caption in these words, and what is shown
/// in the two fields is what is chosen.
pub proof fn law_caption_says_mood_and_vocals(c: ConfigV)
    requires
        composing(c),
    ensures
        shown(c, Field::Mood) == MOODS@[c.mood as int]@,
        shown(c, Field::Vocals) == VOCALS@[c.vocals as int]@,
        holds(
            c.title(),
            " — "@ + MOODS@[c.mood as int]@ + " mood, "@ + VOCALS@[c.vocals as int]@
                + ", polished studio production."@,
        ),
{
    let head = capitalized(trimmed(c.style()));
    let said = " — "@ + MOODS@[c.mood as int]@ + " mood, "@ + VOCALS@[c.vocals as int]@
        + ", polished studio production."@;
    assert(c.title().subrange(head.len() as int, (head.len() + said.len()) as int) =~= said);
    assert(stands_at(c.title(), said, head.len() as int));
}

/// Two settings that differ in the mood alone have different captions.
pub proof fn law_moods_make_different_captions(c: ConfigV, d: ConfigV)
    requires
        composing(c),
        composing(d),
        d == (ConfigV { mood: d.mood, ..c }),
        c.mood != d.mood,
    ensures
        c.title() != d.title(),
{
    if c.title() == d.title() {
        let head = capitalized(trimmed(c.style())) + " — "@;
        let m = MOODS@[c.mood as int]@;
        let n = MOODS@[d.mood as int]@;
        let a = c.title();
        let k = head.len() as int;
        assert(a.len() == d.title().len());
        assert(m.len() == n.len());
        assert(a.subrange(k, k + m.len()) =~= m);
        assert(d.title().subrange(k, k + n.len()) =~= n);
        lemma_moods_differ(c.mood as int, d.mood as int);
    }
}

/// Two settings that differ in the vocals alone have different captions.
pub proof fn law_vocals_make_different_captions(c: ConfigV, d: ConfigV)
    requires
        composing(c),
        composing(d),
        d == (ConfigV { vocals: d.vocals, ..c }),
        c.vocals != d.vocals,
    ensures
        c.title() != d.title(),
{
    reveal_strlit("a clear female vocal");
    reveal_strlit("a warm male vocal");
    reveal_strlit("a duet with male and female vocals");
    reveal_strlit("no vocals (instrumental)");
    reveal_strlit(" Focus on the melody and arrangement.");
    assert(c.title().len() != d.title().len());
}

/// The caption asks for the melody exactly where there are no vocals.
pub proof fn law_instrumental_caption_asks_for_melody(c: ConfigV)
    requires
        composing(c),
    ensures
        c.vocals == 3 ==> ends(c.title(), " Focus on the melody and arrangement."@),
        c.vocals < 3 ==> ends(c.title(), ", polished studio production."@),
{
    let tail = ", polished studio production."@;
    let more = " Focus on the melody and arrangement."@;
    let a = c.title();
    if c.vocals == 3 {
        assert(a.skip(a.len() - more.len()) =~= more);
    } else {
        assert(a.skip(a.len() - tail.len()) =~= tail);
    }
}

proof fn lemma_bare(s: Seq<char>)
    requires
        s.len() > 0,
        !white(s[0]),
        !white(s.last()),
    ensures
        trimmed(s) == s,
{
}

proof fn lemma_styles(i: int)
    requires
        0 <= i < 7,
    ensures
        ({
            let s = GENRES@[i]@;
            &&& s.len() > 0
            &&& 97 <= s[0] as int <= 122
            &&& trimmed(s) == s
        }),
{
    reveal_strlit("bright pop rock with clean drums and crisp rhythm guitars");
    reveal_strlit("mellow lo-fi hip hop with warm vinyl crackle and dusty drums");
    reveal_strlit("epic cinematic orchestral score with soaring strings and big percussion");
    reveal_strlit("retro synthwave with pulsing analog bass and gated 80s drums");
    reveal_strlit("intimate acoustic ballad with fingerpicked guitar and soft piano");
    reveal_strlit("high-energy EDM festival anthem with a hard synth drop");
    reveal_strlit("smooth late-night jazz with brushed drums and a walking bass");
    let s = GENRES@[i]@;
    lemma_bare(s);
}

/// The caption begins with the chosen style, its first letter in upper case.
pub proof fn law_caption_begins_with_the_style(c: ConfigV)
    requires
        composing(c),
        c.genre < 7,
    ensures
        ({
            let s = GENRES@[c.genre as int]@;
            &&& c.title().len() > s.len()
            &&& c.title()[0] as int == s[0] as int - 32
            &&& c.title().subrange(1, s.len() as int) == s.skip(1)
            &&& shown(c, Field::Genre) == s
        }),
{
    lemma_styles(c.genre as int);
    let s = GENRES@[c.genre as int]@;
    reveal_strlit(" mood, ");
    assert(c.style() == s);
    assert(c.title().subrange(1, s.len() as int) =~= s.skip(1));
}

/// Two settings that differ in the style alone, both of the list, have different captions.
pub proof fn law_styles_make_different_captions(c: ConfigV, d: ConfigV)
    requires
        composing(c),
        composing(d),
        c.genre < 7,
        d.genre < 7,
        c.genre != d.genre,
    ensures
        c.title() != d.title(),
{
    law_caption_begins_with_the_style(c);
    law_caption_begins_with_the_style(d);
    reveal_strlit("bright pop rock with clean drums and crisp rhythm guitars");
    reveal_strlit("mellow lo-fi hip hop with warm vinyl crackle and dusty drums");
    reveal_strlit("epic cinematic orchestral score with soaring strings and big percussion");
    reveal_strlit("retro synthwave with pulsing analog bass and gated 80s drums");
    reveal_strlit("intimate acoustic ballad with fingerpicked guitar and soft piano");
    reveal_strlit("high-energy EDM festival anthem with a hard synth drop");
    reveal_strlit("smooth late-night jazz with brushed drums and a walking bass");
    assert(c.title()[0] != d.title()[0]);
}

/// A style of the user's own begins the caption, without the white space around it and, where it is a
/// letter of ASCII, with its first character in upper case; without one, a phrase for any song does.
pub proof fn law_caption_begins_with_the_own_style(c: ConfigV)
    requires
        composing(c),
        c.genre == 7,
    ensures
        ({
            let s = trimmed(c.genre_custom);
            &&& s.len() > 0 && 97 <= s[0] as int <= 122 ==> c.title()[0] as int == s[0] as int - 32
                && c.title().len() >= s.len() && c.title().subrange(1, s.len() as int) == s.skip(1)
            &&& s.len() > 0 && s[0] as int <= 96 ==> begins(c.title(), s)
            &&& s.len() == 0 ==> begins(c.title(), "An original song"@)
        }),
{
    let s = trimmed(c.genre_custom);
    reveal_strlit("an original song");
    reveal_strlit("An original song");
    lemma_trimmed_again(c.genre_custom);
    if s.len() == 0 {
        lemma_bare("an original song"@);
        assert(c.title().take(16) =~= "An original song"@);
    } else {
        lemma_code(s[0]);
        if 97 <= s[0] as int <= 122 {
            assert(c.title().subrange(1, s.len() as int) =~= s.skip(1));
        } else if s[0] as int <= 96 {
            assert(c.title().take(s.len() as int) =~= s);
        }
    }
}

/// What is left at the beginning, and that no white space is at its end.
pub proof fn lemma_trim_end(s: Seq<char>)
    ensures
        ({
            let t = trim_end(s);
            &&& t.len() <= s.len()
            &&& t == s.take(t.len() as int)
            &&& t.len() > 0 ==> !white(t.last())
        }),
    decreases s.len(),
{
    if s.len() > 0 && white(s.last()) {
        lemma_trim_end(s.drop_last());
        let t = trim_end(s);
        assert(s.drop_last().take(t.len() as int) =~= s.take(t.len() as int));
    } else {
        assert(s.take(s.len() as int) =~= s);
    }
}

/// What is left at the end, and that no white space is at its beginning.
pub proof fn lemma_trim_start(s: Seq<char>)
    ensures
        ({
            let t = trim_start(s);
            &&& t.len() <= s.len()
            &&& t == s.skip(s.len() - t.len())
            &&& t.len() > 0 ==> !white(t[0])
        }),
    decreases s.len(),
{
    if s.len() > 0 && white(s[0]) {
        lemma_trim_start(s.skip(1));
        let t = trim_start(s);
        assert(s.skip(1).skip(s.len() - 1 - t.len()) =~= s.skip(s.len() - t.len()));
    } else {
        assert(s.skip(0) =~= s);
    }
}

/// Trimming twice is trimming once.
proof fn lemma_trimmed_again(s: Seq<char>)
    ensures
        trimmed(trimmed(s)) == trimmed(s),
{
    lemma_trim_start(s);
    let a = trim_start(s);
    lemma_trim_end(a);
    let t = trimmed(s);
    if t.len() > 0 {
        assert(t[0] == a[0]);
        lemma_bare(t);
    }
}

/// The lyrics that are sung are those of the user, without the white space around them: as they are
/// where there are vocals, and behind at most a tag where there are none. Without any, those that a
/// song starts with are sung.
pub proof fn law_lyrics_are_those_of_the_user(c: ConfigV)
    requires
        in_lists(c),
    ensures
        c.vocals < 3 && trimmed(c.lyrics).len() > 0 ==> c.sung() == trimmed(c.lyrics),
        c.vocals < 3 && trimmed(c.lyrics).len() == 0 ==> c.sung() == DEFAULT_LYRICS@,
        c.vocals == 3 ==> c.sung() == trimmed(c.lyrics) || c.sung() == "[instrumental]\n"@ + trimmed(
            c.lyrics,
        ),
        trimmed(c.lyrics).len() > 0 ==> ends(c.sung(), trimmed(c.lyrics)),
        shown(c, Field::Lyrics) == c.lyrics,
{
    let t = trimmed(c.lyrics);
    let a = c.sung();
    reveal_strlit("instrumental");
    if t.len() == 0 {
        assert(t =~= Seq::<char>::empty());
        assert(lowered(t).len() == 0);
        assert(!holds(lowered(t), "instrumental"@));
    } else {
        assert(a.skip(a.len() - t.len()) =~= t);
    }
}

// --- what is said against a run ------------------------------------------------------------------

proof fn lemma_listed_add(a: Seq<Seq<char>>, b: Seq<Seq<char>>, m: Seq<char>)
    ensures
        listed(a + b, m) == (listed(a, m) || listed(b, m)),
{
    if listed(a, m) {
        let i = choose|i: int| 0 <= i < a.len() && a[i] == m;
        assert((a + b)[i] == m);
    }
    if listed(b, m) {
        let i = choose|i: int| 0 <= i < b.len() && b[i] == m;
        assert((a + b)[a.len() + i] == m);
    }
    if listed(a + b, m) {
        let i = choose|i: int| 0 <= i < (a + b).len() && (a + b)[i] == m;
        if i < a.len() {
            assert(a[i] == m);
        } else {
            assert(b[i - a.len()] == m);
        }
    }
}

proof fn lemma_listed_if(b: bool, s: Seq<char>, m: Seq<char>)
    ensures
        listed(only_if(b, s), m) == (b && s == m),
{
    if b {
        assert(only_if(b, s)[0] == s);
    }
}

proof fn lemma_faults(c: ConfigV, paths: PathsV, m: Seq<char>)
    ensures
        listed(c.faults(paths), m) == {
            ||| (less(c.duration_sec.bits, ONE) || !finite(c.duration_sec.bits)) && m
                == "duration must be at least 1 second"@
            ||| c.num_inference_steps == 0 && m == "steps must be >= 1"@
            ||| trimmed(c.out).len() == 0 && m == "output path is empty"@
            ||| listed(missing(paths), m)
        },
{
    let a = only_if(
        less(c.duration_sec.bits, ONE) || !finite(c.duration_sec.bits),
        "duration must be at least 1 second"@,
    );
    let b = only_if(c.num_inference_steps == 0, "steps must be >= 1"@);
    let d = only_if(trimmed(c.out).len() == 0, "output path is empty"@);
    lemma_listed_add(a + b + d, missing(paths), m);
    lemma_listed_add(a + b, d, m);
    lemma_listed_add(a, b, m);
    lemma_listed_if(
        less(c.duration_sec.bits, ONE) || !finite(c.duration_sec.bits),
        "duration must be at least 1 second"@,
        m,
    );
    lemma_listed_if(c.num_inference_steps == 0, "steps must be >= 1"@, m);
    lemma_listed_if(trimmed(c.out).len() == 0, "output path is empty"@, m);
}

proof fn lemma_missing(p: PathsV, m: Seq<char>)
    ensures
        listed(missing(p), m) == {
            ||| !p.disk.bin_exists && m == "audiocpp_cli not found at "@ + p.bin
            ||| !p.disk.model_is_dir && m == "model dir missing: "@ + p.model_dir
            ||| p.disk.model_is_dir && {
                let names = p.disk.names;
                ||| components(names, "language_model_"@).len() == 0 && m
                    == "no language model GGUF in model dir"@
                ||| components(names, "transformer_"@).len() == 0 && m
                    == "no flow transformer GGUF in model dir"@
                ||| components(names, "rvq_depth_decoder_"@).len() == 0 && m
                    == "no depth decoder GGUF in model dir"@
                ||| !listed(p.disk.existing, "condition_encoder.gguf"@) && m
                    == "missing condition_encoder.gguf"@
                ||| !listed(p.disk.existing, "vocoder.gguf"@) && m == "missing vocoder.gguf"@
                ||| !listed(p.disk.existing, "config.json"@) && m == "missing config.json"@
            }
        },
{
    reveal_strlit("no ");
    reveal_strlit(" GGUF in model dir");
    reveal_strlit("language model");
    reveal_strlit("flow transformer");
    reveal_strlit("depth decoder");
    reveal_strlit("missing ");
    reveal_strlit("condition_encoder.gguf");
    reveal_strlit("vocoder.gguf");
    reveal_strlit("config.json");
    reveal_strlit("no language model GGUF in model dir");
    reveal_strlit("no flow transformer GGUF in model dir");
    reveal_strlit("no depth decoder GGUF in model dir");
    reveal_strlit("missing condition_encoder.gguf");
    reveal_strlit("missing vocoder.gguf");
    reveal_strlit("missing config.json");
    assert(no_component("language model"@) =~= "no language model GGUF in model dir"@);
    assert(no_component("flow transformer"@) =~= "no flow transformer GGUF in model dir"@);
    assert(no_component("depth decoder"@) =~= "no depth decoder GGUF in model dir"@);
    assert("missing "@ + "condition_encoder.gguf"@ =~= "missing condition_encoder.gguf"@);
    assert("missing "@ + "vocoder.gguf"@ =~= "missing vocoder.gguf"@);
    assert("missing "@ + "config.json"@ =~= "missing config.json"@);
    let names = p.disk.names;
    let e = p.disk.existing;
    let bin = only_if(!p.disk.bin_exists, "audiocpp_cli not found at "@ + p.bin);
    lemma_listed_if(!p.disk.bin_exists, "audiocpp_cli not found at "@ + p.bin, m);
    if !p.disk.model_is_dir {
        let rest = seq!["model dir missing: "@ + p.model_dir];
        assert(rest[0] == "model dir missing: "@ + p.model_dir);
        lemma_listed_add(bin, rest, m);
    } else {
        let a = only_if(
            components(names, "language_model_"@).len() == 0,
            no_component("language model"@),
        );
        let b = only_if(
            components(names, "transformer_"@).len() == 0,
            no_component("flow transformer"@),
        );
        let c = only_if(
            components(names, "rvq_depth_decoder_"@).len() == 0,
            no_component("depth decoder"@),
        );
        let d = only_if(
            !listed(e, "condition_encoder.gguf"@),
            "missing "@ + "condition_encoder.gguf"@,
        );
        let f = only_if(!listed(e, "vocoder.gguf"@), "missing "@ + "vocoder.gguf"@);
        let g = only_if(!listed(e, "config.json"@), "missing "@ + "config.json"@);
        lemma_listed_add(bin, a + b + c + d + f + g, m);
        lemma_listed_add(a + b + c + d + f, g, m);
        lemma_listed_add(a + b + c + d, f, m);
        lemma_listed_add(a + b + c, d, m);
        lemma_listed_add(a + b, c, m);
        lemma_listed_add(a, b, m);
        lemma_listed_if(
            components(names, "language_model_"@).len() == 0,
            no_component("language model"@),
            m,
        );
        lemma_listed_if(
            components(names, "transformer_"@).len() == 0,
            no_component("flow transformer"@),
            m,
        );
        lemma_listed_if(
            components(names, "rvq_depth_decoder_"@).len() == 0,
            no_component("depth decoder"@),
            m,
        );
        lemma_listed_if(
            !listed(e, "condition_encoder.gguf"@),
            "missing "@ + "condition_encoder.gguf"@,
            m,
        );
        lemma_listed_if(!listed(e, "vocoder.gguf"@), "missing "@ + "vocoder.gguf"@, m);
        lemma_listed_if(!listed(e, "config.json"@), "missing "@ + "config.json"@, m);
    }
}

/// What is missing on disk is named in so many words, each exactly where it is missing; what is in a
/// model directory is asked about only where there is one.
pub proof fn law_what_is_missing_is_named(p: PathsV)
    ensures
        listed(missing(p), "audiocpp_cli not found at "@ + p.bin) <==> !p.disk.bin_exists,
        listed(missing(p), "model dir missing: "@ + p.model_dir) <==> !p.disk.model_is_dir,
        listed(missing(p), "no language model GGUF in model dir"@) <==> p.disk.model_is_dir
            && components(p.disk.names, "language_model_"@).len() == 0,
        listed(missing(p), "no flow transformer GGUF in model dir"@) <==> p.disk.model_is_dir
            && components(p.disk.names, "transformer_"@).len() == 0,
        listed(missing(p), "no depth decoder GGUF in model dir"@) <==> p.disk.model_is_dir
            && components(p.disk.names, "rvq_depth_decoder_"@).len() == 0,
        listed(missing(p), "missing condition_encoder.gguf"@) <==> p.disk.model_is_dir && !listed(
            p.disk.existing,
            "condition_encoder.gguf"@,
        ),
        listed(missing(p), "missing vocoder.gguf"@) <==> p.disk.model_is_dir && !listed(
            p.disk.existing,
            "vocoder.gguf"@,
        ),
        listed(missing(p), "missing config.json"@) <==> p.disk.model_is_dir && !listed(
            p.disk.existing,
            "config.json"@,
        ),
{
    reveal_strlit("audiocpp_cli not found at ");
    reveal_strlit("model dir missing: ");
    reveal_strlit("no language model GGUF in model dir");
    reveal_strlit("no flow transformer GGUF in model dir");
    reveal_strlit("no depth decoder GGUF in model dir");
    reveal_strlit("missing condition_encoder.gguf");
    reveal_strlit("missing vocoder.gguf");
    reveal_strlit("missing config.json");
    let a = "audiocpp_cli not found at "@ + p.bin;
    let b = "model dir missing: "@ + p.model_dir;
    assert(a[0] == 'a' && b[0] == 'm' && b[1] == 'o');
    assert("no language model GGUF in model dir"@[3] == 'l');
    assert("no flow transformer GGUF in model dir"@[3] == 'f');
    assert("no depth decoder GGUF in model dir"@[3] == 'd');
    assert("missing condition_encoder.gguf"@.len() == 30 && "missing condition_encoder.gguf"@[1] == 'i');
    assert("missing vocoder.gguf"@.len() == 20 && "missing vocoder.gguf"@[1] == 'i');
    assert("missing config.json"@.len() == 19 && "missing config.json"@[1] == 'i');
    lemma_missing(p, a);
    lemma_missing(p, b);
    lemma_missing(p, "no language model GGUF in model dir"@);
    lemma_missing(p, "no flow transformer GGUF in model dir"@);
    lemma_missing(p, "no depth decoder GGUF in model dir"@);
    lemma_missing(p, "missing condition_encoder.gguf"@);
    lemma_missing(p, "missing vocoder.gguf"@);
    lemma_missing(p, "missing config.json"@);
}

/// What makes a run impossible is named in so many words, each exactly where it does: a duration
/// under a second or none at all, no steps, no output path, and all that is missing on disk.
pub proof fn law_faults_are_named(c: ConfigV, paths: PathsV)
    ensures
        listed(c.faults(paths), "duration must be at least 1 second"@) <==> (!finite(
            c.duration_sec.bits,
        ) || worth(c.duration_sec.bits) < whole(1)),
        listed(c.faults(paths), "steps must be >= 1"@) <==> c.num_inference_steps == 0,
        listed(c.faults(paths), "output path is empty"@) <==> trimmed(c.out).len() == 0,
        forall|m: Seq<char>| #[trigger]
            listed(missing(paths), m) ==> listed(c.faults(paths), m),
{
    lemma_bounds_are_whole();
    reveal_strlit("duration must be at least 1 second");
    reveal_strlit("steps must be >= 1");
    reveal_strlit("output path is empty");
    lemma_missing_begins(paths);
    let a = "duration must be at least 1 second"@;
    let b = "steps must be >= 1"@;
    let d = "output path is empty"@;
    assert(a[0] == 'd' && b[0] == 's' && d[0] == 'o');
    lemma_faults(c, paths, a);
    lemma_faults(c, paths, b);
    lemma_faults(c, paths, d);
    assert forall|m: Seq<char>| #[trigger] listed(missing(paths), m) implies listed(
        c.faults(paths),
        m,
    ) by {
        lemma_faults(c, paths, m);
    }
}

proof fn lemma_missing_begins(p: PathsV)
    ensures
        forall|m: Seq<char>| #[trigger]
            listed(missing(p), m) ==> m.len() > 0 && (m[0] == 'a' || m[0] == 'm' || m[0] == 'n'),
{
    reveal_strlit("audiocpp_cli not found at ");
    reveal_strlit("model dir missing: ");
    reveal_strlit("no language model GGUF in model dir");
    reveal_strlit("no flow transformer GGUF in model dir");
    reveal_strlit("no depth decoder GGUF in model dir");
    reveal_strlit("missing condition_encoder.gguf");
    reveal_strlit("missing vocoder.gguf");
    reveal_strlit("missing config.json");
    assert forall|m: Seq<char>| #[trigger] listed(missing(p), m) implies m.len() > 0 && (m[0] == 'a'
        || m[0] == 'm' || m[0] == 'n') by {
        lemma_missing(p, m);
    }
}

/// What is worth saying before a run is said in so many words, each exactly where it holds, and so is
/// all that makes the run impossible.
pub proof fn law_warnings_are_named(c: ConfigV, paths: PathsV)
    requires
        in_lists(c),
    ensures
        listed(c.advice(paths), "pipeline_overlap has no effect while mem_saver is on"@) <==> (
        c.pipeline_overlap && c.mem_saver),
        listed(
            c.advice(paths),
            "instrumental selected — lyrics will be replaced with [instrumental]"@,
        ) <==> (c.vocals == 3 && trimmed(c.lyrics).len() == 0),
        listed(c.advice(paths), "very long duration — generation may take a long time"@) <==> (
        !undefined(c.duration_sec.bits) && worth(c.duration_sec.bits) > whole(300)),
        forall|m: Seq<char>| #[trigger]
            listed(c.faults(paths), m) ==> listed(c.advice(paths), m),
{
    lemma_bounds_are_whole();
    reveal_strlit("pipeline_overlap has no effect while mem_saver is on");
    reveal_strlit("instrumental selected — lyrics will be replaced with [instrumental]");
    reveal_strlit("very long duration — generation may take a long time");
    reveal_strlit("duration must be at least 1 second");
    reveal_strlit("steps must be >= 1");
    reveal_strlit("output path is empty");
    lemma_missing_begins(paths);
    let x = "pipeline_overlap has no effect while mem_saver is on"@;
    let y = "instrumental selected — lyrics will be replaced with [instrumental]"@;
    let z = "very long duration — generation may take a long time"@;
    assert(x[0] == 'p' && y[0] == 'i' && z[0] == 'v');
    lemma_advice(c, paths, x);
    lemma_advice(c, paths, y);
    lemma_advice(c, paths, z);
    lemma_faults(c, paths, x);
    lemma_faults(c, paths, y);
    lemma_faults(c, paths, z);
    assert forall|m: Seq<char>| #[trigger] listed(c.faults(paths), m) implies listed(
        c.advice(paths),
        m,
    ) by {
        lemma_advice(c, paths, m);
    }
}

proof fn lemma_advice(c: ConfigV, paths: PathsV, m: Seq<char>)
    ensures
        listed(c.advice(paths), m) == {
            ||| c.pipeline_overlap && c.mem_saver && m
                == "pipeline_overlap has no effect while mem_saver is on"@
            ||| c.instrumental() && trimmed(c.lyrics).len() == 0 && m
                == "instrumental selected — lyrics will be replaced with [instrumental]"@
            ||| less(THREE_HUNDRED, c.duration_sec.bits) && m
                == "very long duration — generation may take a long time"@
            ||| listed(c.faults(paths), m)
        },
{
    let x = "pipeline_overlap has no effect while mem_saver is on"@;
    let y = "instrumental selected — lyrics will be replaced with [instrumental]"@;
    let z = "very long duration — generation may take a long time"@;
    let a = only_if(c.pipeline_overlap && c.mem_saver, x);
    let b = only_if(c.instrumental() && trimmed(c.lyrics).len() == 0, y);
    let d = only_if(less(THREE_HUNDRED, c.duration_sec.bits), z);
    lemma_listed_add(a + b + d, c.faults(paths), m);
    lemma_listed_add(a + b, d, m);
    lemma_listed_add(a, b, m);
    lemma_listed_if(c.pipeline_overlap && c.mem_saver, x, m);
    lemma_listed_if(c.instrumental() && trimmed(c.lyrics).len() == 0, y, m);
    lemma_listed_if(less(THREE_HUNDRED, c.duration_sec.bits), z, m);
}

} // verus!
