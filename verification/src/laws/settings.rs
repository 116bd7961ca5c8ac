//! Settings stay in their ranges, whichever way they are changed.

use vstd::arithmetic::power2::lemma_pow2_pos;
use vstd::prelude::*;

use crate::argv::{arguments, flagged, request, run_backend, session};
use crate::config::{defaults, ConfigV};
use crate::detect::{missing, texts, PathsV, BACKENDS};
use crate::double::{
    finite, lemma_bounds_are_whole, law_settled_is_between, lemma_finite, lemma_worth_order,
    undefined, valued, whole, worth, DoubleV, ONE, ONE_AND_A_HALF, ONE_POINT_SEVEN,
    THREE_THOUSAND_SIX_HUNDRED, TWENTY, ZERO,
};
use crate::edit::{
    adds_up, adjusted, amount, stride, with_amount, with_count, within, bounded, choices, count,
    counted, cycled, in_lists, range, selected, shown, slots, toggled, typed_in, with_index, picked,
    wrap64,
};
use crate::field::{Field, Kind};
use crate::number::{decimal, is_digit, law_decimal_reads_back};
use crate::path::expanded;
use crate::shell::{command_line, law_shell_reads_arguments_back, shell_words};
use crate::text::{begins, holds, listed, lowered, stands_at, trimmed, white};

verus! {

/// Whether a number with a fraction is finite and lies between two whole numbers.
pub open spec fn lies_between(v: DoubleV, lo: int, hi: int) -> bool {
    finite(v.bits) && whole(lo) <= worth(v.bits) <= whole(hi)
}

/// Whether all settings are in their ranges.
pub open spec fn sane(c: ConfigV) -> bool {
    &&& in_lists(c)
    &&& lies_between(c.duration_sec, 1, 3600)
    &&& lies_between(c.guidance_scale, 0, 20)
    &&& lies_between(c.ar_guidance_scale, 0, 20)
    &&& forall|f: Field| #[trigger]
        bounded(f) ==> range(f).0 <= count(c, f) <= range(f).1
    &&& c.backend.len() == 0 || listed(texts(BACKENDS@), c.backend)
}

proof fn lemma_bounds()
    ensures
        worth(ZERO) == whole(0),
        worth(ONE) == whole(1),
        worth(TWENTY) == whole(20),
        worth(THREE_THOUSAND_SIX_HUNDRED) == whole(3600),
        whole(0) == 0,
        0 < whole(1) < whole(2) < whole(20) < whole(30) < whole(3600),
{
    lemma_bounds_are_whole();
    lemma_pow2_pos(1074);
}

/// Putting settings in range leaves them in range, and leaves those that already are as they were;
/// so doing it twice is doing it once.
pub proof fn law_sanitized_is_sane(c: ConfigV)
    ensures
        sane(c.sanitized()),
        sane(c) ==> c.sanitized() == c,
        c.sanitized().sanitized() == c.sanitized(),
{
    lemma_bounds();
    let one = valued(ONE, "1"@);
    let most = valued(THREE_THOUSAND_SIX_HUNDRED, "3600"@);
    let zero = valued(ZERO, "0"@);
    let twenty = valued(TWENTY, "20"@);
    law_settled_is_between(c.duration_sec, one, most);
    law_settled_is_between(c.guidance_scale, zero, twenty);
    law_settled_is_between(c.ar_guidance_scale, zero, twenty);
    let s = c.sanitized();
    assert forall|f: Field| #[trigger] bounded(f) implies range(f).0 <= count(s, f) <= range(f).1 by {}
    if sane(c) {
        assert(bounded(Field::Steps) && bounded(Field::TopK) && bounded(Field::FlowInterval));
        assert(bounded(Field::FlowWarmup) && bounded(Field::EnsembleTakes));
        assert(bounded(Field::GraphCtx) && bounded(Field::WeightCtx));
        if c.backend.len() == 0 {
            assert(c.backend =~= Seq::<char>::empty());
        }
        assert(c.sanitized() =~= c);
    }
    assert(s.sanitized() =~= s);
}

/// The default settings are in range, wherever the output goes.
pub proof fn law_defaults_are_sane(out: Seq<char>)
    ensures
        sane(defaults(out)),
        defaults(out).out == out,
{
    lemma_bounds();
    lemma_bounds_are_whole();
    let c = defaults(out);
    assert forall|f: Field| #[trigger] bounded(f) implies range(f).0 <= count(c, f) <= range(f).1 by {}
    lemma_scales();
}

/// The default scales lie in their range.
proof fn lemma_scales()
    ensures
        lies_between(valued(ONE_POINT_SEVEN, "1.7"@), 0, 20),
        lies_between(valued(ONE_AND_A_HALF, "1.5"@), 0, 20),
{
    lemma_bounds();
    lemma_bounds_are_whole();
    lemma_worth_order(ZERO, ONE_POINT_SEVEN);
    lemma_worth_order(ONE_POINT_SEVEN, TWENTY);
    lemma_worth_order(ZERO, ONE_AND_A_HALF);
    lemma_worth_order(ONE_AND_A_HALF, TWENTY);
}

/// Typing a text into any field, whatever it is, leaves settings that are in range in range; a
/// number beyond its range becomes the bound. `number` is what the text stands for where it is read
/// as a number with a fraction.
pub proof fn law_typing_keeps_sane(c: ConfigV, f: Field, s: Seq<char>, number: Option<DoubleV>)
    requires
        sane(c),
    ensures
        sane(typed_in(c, f, s, number)),
{
    lemma_bounds();
    if let Some(v) = number {
        law_settled_is_between(
            v,
            valued(ONE, "1"@),
            valued(THREE_THOUSAND_SIX_HUNDRED, "3600"@),
        );
        law_settled_is_between(v, valued(ZERO, "0"@), valued(TWENTY, "20"@));
    }
    lemma_sane_by_fields(c, typed_in(c, f, s, number), f);
}

/// Two settings that differ in one field only, where that field is in range.
proof fn lemma_sane_by_fields(c: ConfigV, d: ConfigV, f: Field)
    requires
        sane(c),
        in_lists(d),
        d.duration_sec == c.duration_sec || (f is Duration && lies_between(d.duration_sec, 1, 3600)),
        d.guidance_scale == c.guidance_scale || (f is Guidance && lies_between(
            d.guidance_scale,
            0,
            20,
        )),
        d.ar_guidance_scale == c.ar_guidance_scale || (f is ArGuidance && lies_between(
            d.ar_guidance_scale,
            0,
            20,
        )),
        forall|g: Field| #[trigger]
            bounded(g) ==> count(d, g) == count(c, g) || range(g).0 <= count(d, g) <= range(g).1,
        d.backend.len() == 0 || d.backend == c.backend || listed(texts(BACKENDS@), d.backend),
    ensures
        sane(d),
{
    assert forall|g: Field| #[trigger] bounded(g) implies range(g).0 <= count(d, g) <= range(g).1 by {
        assert(bounded(g));
    }
}

/// Turning a switch leaves settings that are in range in range.
pub proof fn law_toggling_keeps_sane(c: ConfigV, f: Field)
    requires
        sane(c),
    ensures
        sane(toggled(c, f)),
{
    lemma_sane_by_fields(c, toggled(c, f), f);
}

/// Whichever of the two switches is turned, the overlap is never on together with the memory saver
/// behind it.
pub proof fn law_overlap_needs_the_saver_off(c: ConfigV, f: Field)
    requires
        f is MemSaver || f is PipelineOverlap,
    ensures
        !(toggled(c, f).mem_saver && toggled(c, f).pipeline_overlap),
{
}

/// Moving a choice on, by any number of places, leaves settings that are in range in range.
pub proof fn law_cycling_keeps_sane(c: ConfigV, paths: PathsV, f: Field, dir: int)
    requires
        sane(c),
    ensures
        sane(cycled(c, paths, f, dir)),
{
    let d = cycled(c, paths, f, dir);
    let n = slots(paths, f);
    if n > 0 {
        lemma_index_keeps_sane(
            c,
            paths,
            f,
            (wrap64(picked(c, paths, f)) + dir) % n,
        );
    }
}

proof fn lemma_index_keeps_sane(c: ConfigV, paths: PathsV, f: Field, i: int)
    requires
        sane(c),
        0 <= i < slots(paths, f),
    ensures
        sane(with_index(c, paths, f, i)),
{
    let d = with_index(c, paths, f, i);
    if f is Backend && i > 0 {
        assert(listed(texts(BACKENDS@), texts(BACKENDS@)[i - 1]));
    }
    lemma_sane_by_fields(c, d, f);
}

/// Choosing any index leaves settings that are in range in range.
pub proof fn law_choosing_keeps_sane(c: ConfigV, paths: PathsV, f: Field, i: int)
    requires
        sane(c),
        i >= 0,
    ensures
        sane(selected(c, paths, f, i)),
{
    let n = choices(paths, f).len();
    if f.automatic() {
        lemma_index_keeps_sane(
            c,
            paths,
            f,
            if i <= n {
                i
            } else {
                0
            },
        );
    } else if n > 0 {
        lemma_index_keeps_sane(
            c,
            paths,
            f,
            if i < n {
                i
            } else {
                n - 1
            },
        );
    }
}

/// Adjusting any field by any number of steps leaves settings that are in range in range, but that a
/// duration may be adjusted above its range. `moved` is what the field's own number and the steps
/// add up to, where it has a fraction.
pub proof fn law_adjusting_keeps_sane(
    c: ConfigV,
    paths: PathsV,
    f: Field,
    delta: int,
    moved: Option<DoubleV>,
)
    requires
        sane(c),
        f.sort() == Kind::Float ==> adds_up(amount(c, f), moved),
        f is Duration ==> (moved matches Some(v) ==> worth(v.bits) <= whole(3600)),
    ensures
        sane(adjusted(c, paths, f, delta, moved)),
{
    lemma_bounds();
    let d = adjusted(c, paths, f, delta, moved);
    if f.sort() == Kind::Float {
        if let Some(v) = moved {
            if !undefined(v.bits) && 0 <= worth(v.bits) <= whole(3600) {
                lemma_finite(v.bits, THREE_THOUSAND_SIX_HUNDRED);
            }
        }
        lemma_sane_by_fields(c, d, f);
    } else if f.sort() == Kind::Select {
        law_cycling_keeps_sane(c, paths, f, delta);
    } else if counted(f) || f is Seed {
        lemma_sane_by_fields(c, d, f);
    } else {
        assert(slots(paths, f) == 0);
    }
}

/// Adjusting changes the one field that it is about and nothing else: a whole number by so many of
/// its strides, up to the bounds of its range, of which there is only zero for some; a choice by
/// going on; a number with a fraction by what it adds up to; and no switch and no text.
pub proof fn law_adjusting_moves_one_field(
    c: ConfigV,
    paths: PathsV,
    f: Field,
    delta: int,
    moved: Option<DoubleV>,
)
    ensures
        ({
            let d = adjusted(c, paths, f, delta, moved);
            let sum = count(c, f) + stride(f) * delta;
            &&& counted(f) ==> d == with_count(c, f, count(d, f))
            &&& bounded(f) ==> count(d, f) == within(sum, range(f).0, range(f).1)
            &&& counted(f) && !bounded(f) && sum <= u32::MAX ==> count(d, f) == within(
                sum,
                0,
                u32::MAX as int,
            )
            &&& f is Seed ==> d == (ConfigV { seed: d.seed, ..c })
            &&& f is Seed && c.seed <= i64::MAX ==> d.seed == within(
                c.seed + delta,
                0,
                i64::MAX as int,
            )
            &&& f.sort() == Kind::Select ==> d == cycled(c, paths, f, delta)
            &&& f.sort() == Kind::Float ==> d == with_amount(c, f, amount(d, f))
            &&& f.sort() == Kind::Bool || f.sort() == Kind::Text || f.sort() == Kind::Multiline ==> d
                == c
        }),
{
    let d = adjusted(c, paths, f, delta, moved);
    if counted(f) {
        assert(d =~= with_count(c, f, count(d, f)));
    } else if f.sort() == Kind::Float {
        assert(d =~= with_amount(c, f, amount(d, f)));
    }
}

proof fn lemma_digits_are_bare(s: Seq<char>)
    requires
        s.len() > 0,
        is_digit(s[0]),
        is_digit(s.last()),
    ensures
        trimmed(s) == s,
{
    assert(!white(s[0]));
    assert(!white(s.last()));
}

/// What is shown in a field, typed into it again, changes nothing: for every number and every text.
/// What is shown for a number with a fraction counts as read where its own value comes back.
pub proof fn law_shown_value_reads_back(c: ConfigV, f: Field)
    requires
        sane(c),
        f.sort() != Kind::Select,
    ensures
        typed_in(c, f, shown(c, f), Some(amount(c, f))) == c,
{
    lemma_bounds();
    if f.sort() == Kind::Float {
        law_settled_is_between(
            amount(c, f),
            valued(ONE, "1"@),
            valued(THREE_THOUSAND_SIX_HUNDRED, "3600"@),
        );
        law_settled_is_between(amount(c, f), valued(ZERO, "0"@), valued(TWENTY, "20"@));
    } else if counted(f) || f is Seed {
        let n = if f is Seed {
            c.seed as nat
        } else {
            count(c, f) as nat
        };
        law_decimal_reads_back(n);
        let s = decimal(n);
        assert(is_digit(s[0]));
        assert(is_digit(s[s.len() - 1]));
        lemma_digits_are_bare(s);
        assert(bounded(f) ==> range(f).0 <= count(c, f) <= range(f).1);
    }
    assert(typed_in(c, f, shown(c, f), Some(amount(c, f))) =~= c);
}

/// A generation is refused for nothing but what is missing on disk, where the settings are in range
/// and there is an output path.
pub proof fn law_sane_settings_can_run(c: ConfigV, paths: PathsV)
    requires
        sane(c),
        trimmed(c.out).len() > 0,
    ensures
        c.faults(paths) == missing(paths),
{
    lemma_bounds();
    assert(bounded(Field::Steps));
    assert(c.faults(paths) =~= missing(paths));
}

/// A caption of the user's own replaces the composed one, whatever style, mood and vocals are chosen.
pub proof fn law_override_replaces_the_caption(c: ConfigV, d: ConfigV)
    requires
        trimmed(c.caption_override).len() > 0,
        d.caption_override == c.caption_override,
    ensures
        c.title() == d.title(),
        c.title() == trimmed(c.caption_override),
{
}

/// Instrumental lyrics say that they are: they begin with a tag for it, or speak of it themselves.
pub proof fn law_instrumental_is_said(c: ConfigV)
    requires
        c.instrumental(),
    ensures
        begins(c.sung(), "[instrumental]\n"@) || holds(lowered(c.sung()), "instrumental"@),
{
    let t = trimmed(c.lyrics);
    if holds(lowered(t), "instrumental"@) {
        reveal_strlit("instrumental");
        let i = choose|i: int| #[trigger] stands_at(lowered(t), "instrumental"@, i);
        if t.len() == 0 {
            assert(lowered(t).len() == 0);
        }
    } else {
        let tag = "[instrumental]\n"@;
        assert(c.sung().take(tag.len() as int) =~= tag);
    }
}

proof fn lemma_flagged_is_something(
    flag: Seq<char>,
    prefix: Seq<char>,
    pairs: Seq<(Seq<char>, Seq<char>)>,
)
    requires
        flag.len() > 0,
    ensures
        forall|i: int|
            0 <= i < flagged(flag, prefix, pairs).len() ==> (#[trigger] flagged(flag, prefix, pairs)[i]).len()
                > 0,
    decreases pairs.len(),
{
    reveal_strlit("=");
    if pairs.len() > 0 {
        lemma_flagged_is_something(flag, prefix, pairs.drop_last());
        let init = flagged(flag, prefix, pairs.drop_last());
        let all = flagged(flag, prefix, pairs);
        assert forall|i: int| 0 <= i < all.len() implies (#[trigger] all[i]).len() > 0 by {
            if i < init.len() {
                assert(all[i] == init[i]);
            }
        }
    }
}

/// The command that is shown, given to a shell, is the command that is run: the shell reads the very
/// arguments of the process, whatever is in the lyrics, the caption or a path.
pub proof fn law_shown_command_is_the_one_run(paths: PathsV, c: ConfigV)
    requires
        paths.bin.len() > 0,
        paths.model_dir.len() > 0,
        run_backend(paths, c).len() > 0,
        expanded(trimmed(c.out), paths.home).len() > 0,
    ensures
        shell_words(command_line(arguments(paths, c))) == arguments(paths, c),
{
    let a = arguments(paths, c);
    reveal_strlit("--task");
    reveal_strlit("gen");
    reveal_strlit("--family");
    reveal_strlit("minimax_music3");
    reveal_strlit("--model");
    reveal_strlit("--backend");
    reveal_strlit("--session-option");
    reveal_strlit("--text");
    reveal_strlit("--request-option");
    reveal_strlit("--out");
    reveal_strlit("--metrics");
    reveal_strlit(" mood, ");
    lemma_flagged_is_something("--session-option"@, "minimax_music3."@, session(paths, c));
    lemma_flagged_is_something("--request-option"@, ""@, request(c));
    let s = flagged("--session-option"@, "minimax_music3."@, session(paths, c));
    let r = flagged("--request-option"@, ""@, request(c));
    assert(c.title().len() > 0);
    assert forall|i: int| 0 <= i < a.len() implies (#[trigger] a[i]).len() > 0 by {
        if 9 <= i < 9 + s.len() {
            assert(a[i] == s[i - 9]);
        } else if 11 + s.len() <= i < 11 + s.len() + r.len() {
            assert(a[i] == r[i - 11 - s.len()]);
        }
    }
    law_shell_reads_arguments_back(a);
}

} // verus!
