//! What is found on disk is the best of what is there.

use vstd::prelude::*;

use crate::detect::{
    backend_in, binary, binary_in, components, first_build, first_existing, first_model,
    law_components_are_sorted, located, model_dir, precedes, texts, DiskV, Home, ModelEntry, BUILDS,
    DEPTH_DECODERS, FLOW_TRANSFORMERS, LANGUAGE_MODELS,
};
use crate::path::path_join;
use crate::text::{before, begins, ends, holds, listed, lowered, views};

verus! {

// --- the binary ------------------------------------------------------------------------------------

/// Where the binary of a build lies under the home directory, the fastest build first.
pub open spec fn build_at(k: int) -> Seq<char> {
    if k == 0 {
        "audio.cpp/build/linux-cuda-release/bin/audiocpp_cli"@
    } else if k == 1 {
        "audio.cpp/build/macos-metal-release/bin/audiocpp_cli"@
    } else if k == 2 {
        "audio.cpp/build/linux-vulkan-release/bin/audiocpp_cli"@
    } else if k == 3 {
        "audio.cpp/build/linux-hip-release/bin/audiocpp_cli"@
    } else if k == 4 {
        "audio.cpp/build/linux-cpu-release/bin/audiocpp_cli"@
    } else {
        "audio.cpp/build/macos-cpu-release/bin/audiocpp_cli"@
    }
}

/// The candidates for the binary are those of the builds under the home directory, in their order.
pub proof fn law_candidates_are_the_builds(home: Seq<char>, k: int)
    requires
        0 <= k < 6,
    ensures
        binary_in(home, BUILDS@[k]@) == path_join(home, build_at(k)),
{
    reveal_strlit("/");
    reveal_strlit("audio.cpp/build");
    reveal_strlit("bin/audiocpp_cli");
    reveal_strlit("linux-cuda-release");
    reveal_strlit("macos-metal-release");
    reveal_strlit("linux-vulkan-release");
    reveal_strlit("linux-hip-release");
    reveal_strlit("linux-cpu-release");
    reveal_strlit("macos-cpu-release");
    reveal_strlit("audio.cpp/build/linux-cuda-release/bin/audiocpp_cli");
    reveal_strlit("audio.cpp/build/macos-metal-release/bin/audiocpp_cli");
    reveal_strlit("audio.cpp/build/linux-vulkan-release/bin/audiocpp_cli");
    reveal_strlit("audio.cpp/build/linux-hip-release/bin/audiocpp_cli");
    reveal_strlit("audio.cpp/build/linux-cpu-release/bin/audiocpp_cli");
    reveal_strlit("audio.cpp/build/macos-cpu-release/bin/audiocpp_cli");
    let b = BUILDS@[k]@;
    assert("audio.cpp/build"@ + "/"@ + b + "/"@ + "bin/audiocpp_cli"@ =~= build_at(k));
    assert(binary_in(home, b) =~= path_join(home, build_at(k)));
}

proof fn lemma_first_build(home: Seq<char>, existing: Seq<Seq<char>>, from: int, k: int)
    requires
        0 <= from <= k <= 6,
        forall|j: int|
            from <= j < k ==> !listed(existing, #[trigger] binary_in(home, BUILDS@[j]@)),
        k < 6 ==> listed(existing, binary_in(home, BUILDS@[k]@)),
    ensures
        first_build(home, existing, from) == k,
    decreases k - from,
{
    if from < k {
        assert(!listed(existing, binary_in(home, BUILDS@[from]@)));
        lemma_first_build(home, existing, from + 1, k);
    }
}

/// Of the binaries that are there, that of the fastest build is used: none of a faster build is there.
/// Where none is there, that of the fastest build is looked for; one that is asked for is used
/// whatever is there.
pub proof fn law_fastest_binary_is_used(
    home: Seq<char>,
    existing: Seq<Seq<char>>,
    k: int,
    asked: Seq<char>,
)
    requires
        0 <= k <= 6,
        forall|j: int| 0 <= j < k ==> !listed(existing, path_join(home, #[trigger] build_at(j))),
        k < 6 ==> listed(existing, path_join(home, build_at(k))),
    ensures
        k < 6 ==> binary(None, home, existing) == path_join(home, build_at(k)),
        k == 6 ==> binary(None, home, existing) == path_join(home, build_at(0)),
        binary(Some(asked), home, existing) == asked,
{
    assert forall|j: int| 0 <= j < k implies !listed(
        existing,
        #[trigger] binary_in(home, BUILDS@[j]@),
    ) by {
        law_candidates_are_the_builds(home, j);
        assert(!listed(existing, path_join(home, build_at(j))));
    }
    if k < 6 {
        law_candidates_are_the_builds(home, k);
    }
    lemma_first_build(home, existing, 0, k);
}

proof fn lemma_first_there(home: Seq<char>, existing: Seq<Seq<char>>, i: int) -> (k: int)
    requires
        0 <= i <= 6,
        i < 6 ==> listed(existing, path_join(home, build_at(i))),
    ensures
        0 <= k <= i,
        k < 6 ==> listed(existing, path_join(home, build_at(k))),
        forall|j: int| 0 <= j < k ==> !listed(existing, path_join(home, #[trigger] build_at(j))),
    decreases i,
{
    if exists|j: int| 0 <= j < i && listed(existing, path_join(home, #[trigger] build_at(j))) {
        let j = choose|j: int|
            0 <= j < i && listed(existing, path_join(home, #[trigger] build_at(j)));
        lemma_first_there(home, existing, j)
    } else {
        i
    }
}

/// Whenever any of the candidates is there, the binary is one that is there, and none before it is.
pub proof fn law_binary_is_one_that_is_there(home: Seq<char>, existing: Seq<Seq<char>>, i: int)
    requires
        0 <= i < 6,
        listed(existing, binary_in(home, BUILDS@[i]@)),
    ensures
        exists|k: int|
            0 <= k <= i && binary(None, home, existing) == #[trigger] binary_in(home, BUILDS@[k]@)
                && listed(existing, binary_in(home, BUILDS@[k]@)) && forall|j: int|
                0 <= j < k ==> !listed(existing, #[trigger] binary_in(home, BUILDS@[j]@)),
{
    law_candidates_are_the_builds(home, i);
    let k = lemma_first_there(home, existing, i);
    law_fastest_binary_is_used(home, existing, k, home);
    law_candidates_are_the_builds(home, k);
    assert forall|j: int| 0 <= j < k implies !listed(
        existing,
        #[trigger] binary_in(home, BUILDS@[j]@),
    ) by {
        law_candidates_are_the_builds(home, j);
        assert(!listed(existing, path_join(home, build_at(j))));
    }
    assert(binary(None, home, existing) == binary_in(home, BUILDS@[k]@));
}

/// The name of a backend that a path can speak of, the preferred one first.
pub open spec fn backend_name(k: int) -> Seq<char> {
    if k == 0 {
        "cuda"@
    } else if k == 1 {
        "metal"@
    } else if k == 2 {
        "vulkan"@
    } else if k == 3 {
        "hip"@
    } else {
        "cpu"@
    }
}

/// The backend is the first that the path of the binary speaks of, and the processor where it speaks
/// of none.
pub proof fn law_backend_is_the_one_spoken_of(bin: Seq<char>, k: int)
    requires
        0 <= k <= 4,
        forall|j: int| 0 <= j < k ==> !holds(bin, #[trigger] backend_name(j)),
        k < 4 ==> holds(bin, backend_name(k)),
    ensures
        backend_in(bin) == backend_name(k),
{
    assert(k > 0 ==> !holds(bin, backend_name(0)));
    assert(k > 1 ==> !holds(bin, backend_name(1)));
    assert(k > 2 ==> !holds(bin, backend_name(2)));
    assert(k > 3 ==> !holds(bin, backend_name(3)));
}

// --- the model -------------------------------------------------------------------------------------

/// Whether an entry is a directory whose name speaks of the model, in whatever case.
pub open spec fn speaks_of_model(e: ModelEntry) -> bool {
    holds(lowered(e.name@), "music"@) && holds(lowered(e.name@), "minimax"@) && e.is_dir
}

proof fn lemma_first_model(entries: Seq<ModelEntry>, k: int)
    requires
        0 <= k <= entries.len(),
        forall|j: int| 0 <= j < k ==> !speaks_of_model(#[trigger] entries[j]),
        k < entries.len() ==> speaks_of_model(entries[k]),
    ensures
        first_model(entries) == k,
    decreases k,
{
    if k > 0 {
        assert(!speaks_of_model(entries[0]));
        let rest = entries.skip(1);
        assert forall|j: int| 0 <= j < k - 1 implies !speaks_of_model(#[trigger] rest[j]) by {
            assert(rest[j] == entries[j + 1]);
        }
        lemma_first_model(rest, k - 1);
    }
}

/// The model is looked for at its usual place, and only where there is no directory in the first
/// directory whose name speaks of it; one that is asked for is used whatever is there.
pub proof fn law_model_is_looked_for_in_order(
    home: Seq<char>,
    usual_is_dir: bool,
    entries: Seq<ModelEntry>,
    k: int,
    asked: Seq<char>,
)
    requires
        0 <= k <= entries.len(),
        forall|j: int| 0 <= j < k ==> !speaks_of_model(#[trigger] entries[j]),
        k < entries.len() ==> speaks_of_model(entries[k]),
    ensures
        ({
            let usual = path_join(home, "models/MiniMax-Music3-GGUF"@);
            &&& usual_is_dir ==> model_dir(None, home, usual_is_dir, entries) == usual
            &&& !usual_is_dir && k < entries.len() ==> model_dir(None, home, usual_is_dir, entries)
                == entries[k].path@
            &&& !usual_is_dir && k == entries.len() ==> model_dir(None, home, usual_is_dir, entries)
                == usual
            &&& model_dir(Some(asked), home, usual_is_dir, entries) == asked
        }),
{
    lemma_first_model(entries, k);
}

// --- the components --------------------------------------------------------------------------------

/// Of the candidates that are there, the first is taken: none before it is there. Where none is there,
/// none is taken.
pub proof fn law_first_candidate_is_taken(
    candidates: Seq<Seq<char>>,
    existing: Seq<Seq<char>>,
    k: int,
)
    requires
        0 <= k <= candidates.len(),
        forall|j: int| 0 <= j < k ==> !listed(existing, #[trigger] candidates[j]),
        k < candidates.len() ==> listed(existing, candidates[k]),
    ensures
        k < candidates.len() ==> first_existing(candidates, existing) == Some(candidates[k]),
        k == candidates.len() ==> first_existing(candidates, existing) is None,
    decreases k,
{
    if k > 0 {
        assert(!listed(existing, candidates[0]));
        let rest = candidates.skip(1);
        assert forall|j: int| 0 <= j < k - 1 implies !listed(existing, #[trigger] rest[j]) by {
            assert(rest[j] == candidates[j + 1]);
        }
        law_first_candidate_is_taken(rest, existing, k - 1);
    }
}

/// A file, or the next one where it is not there.
pub open spec fn or_else(
    existing: Seq<Seq<char>>,
    file: Seq<char>,
    next: Option<Seq<char>>,
) -> Option<Seq<char>> {
    if listed(existing, file) {
        Some(file)
    } else {
        next
    }
}

/// What is located is what was asked for, or else what was found: the binary, the backend that it
/// speaks of, the model directory, and of each component the best file that is there, by its
/// quantization.
pub proof fn law_best_of_what_is_there_is_located(
    over_bin: Option<Seq<char>>,
    over_model: Option<Seq<char>>,
    over_backend: Option<Seq<char>>,
    home: Home,
    disk: DiskV,
)
    ensures
        ({
            let p = located(over_bin, over_model, over_backend, home, disk);
            let e = disk.existing;
            &&& p.home == home.path@
            &&& p.disk == disk
            &&& p.bin == binary(over_bin, home.path@, views(home.binaries@))
            &&& over_bin matches Some(b) ==> p.bin == b
            &&& over_model matches Some(m) ==> p.model_dir == m
            &&& p.model_dir == model_dir(over_model, home.path@, home.usual_is_dir, home.models@)
            &&& over_backend matches Some(b) ==> p.backend == b
            &&& over_backend is None ==> p.backend == backend_in(p.bin)
            &&& p.language_model == or_else(
                e,
                "language_model_q4_k.gguf"@,
                or_else(
                    e,
                    "language_model_q8_0.gguf"@,
                    or_else(
                        e,
                        "language_model_q4_0.gguf"@,
                        or_else(e, "language_model_bf16.gguf"@, None),
                    ),
                ),
            )
            &&& p.flow_transformer == or_else(
                e,
                "transformer_q4_k.gguf"@,
                or_else(
                    e,
                    "transformer_q8_0.gguf"@,
                    or_else(
                        e,
                        "transformer_q4_0.gguf"@,
                        or_else(e, "transformer_bf16.gguf"@, None),
                    ),
                ),
            )
            &&& p.depth_decoder == or_else(
                e,
                "rvq_depth_decoder_q8_0.gguf"@,
                or_else(
                    e,
                    "rvq_depth_decoder_q4_k.gguf"@,
                    or_else(e, "rvq_depth_decoder_bf16.gguf"@, None),
                ),
            )
        }),
{
    let e = disk.existing;
    reveal_with_fuel(first_existing, 5);
    let a = texts(LANGUAGE_MODELS@);
    let b = texts(FLOW_TRANSFORMERS@);
    let d = texts(DEPTH_DECODERS@);
    assert(a.len() == 4 && b.len() == 4 && d.len() == 3);
    assert(a.skip(1)[0] == a[1] && a.skip(1).skip(1)[0] == a[2] && a.skip(1).skip(1).skip(1)[0] == a[3]);
    assert(b.skip(1)[0] == b[1] && b.skip(1).skip(1)[0] == b[2] && b.skip(1).skip(1).skip(1)[0] == b[3]);
    assert(d.skip(1)[0] == d[1] && d.skip(1).skip(1)[0] == d[2]);
}

/// Of two files of a component, the one of the better quantization is listed first, and of two alike
/// the one whose name comes first.
pub proof fn law_better_files_come_first(
    names: Seq<Seq<char>>,
    prefix: Seq<char>,
    i: int,
    j: int,
)
    requires
        0 <= i < j < components(names, prefix).len(),
    ensures
        ({
            let a = components(names, prefix)[i];
            let b = components(names, prefix)[j];
            let none = |s: Seq<char>| !holds(s, "q4_k"@) && !holds(s, "q8_0"@) && !holds(s, "q4_0"@)
                && !holds(s, "bf16"@);
            &&& holds(b, "q4_k"@) ==> holds(a, "q4_k"@)
            &&& holds(b, "q8_0"@) ==> holds(a, "q4_k"@) || holds(a, "q8_0"@)
            &&& holds(b, "q4_0"@) ==> holds(a, "q4_k"@) || holds(a, "q8_0"@) || holds(a, "q4_0"@)
            &&& none(a) ==> none(b)
            &&& holds(a, "q4_k"@) && holds(b, "q4_k"@) ==> !before(b, a)
            &&& none(a) && none(b) ==> !before(b, a)
            &&& holds(a, "q4_k"@) == holds(b, "q4_k"@) && holds(a, "q8_0"@) == holds(b, "q8_0"@) && holds(
                a,
                "q4_0"@,
            ) == holds(b, "q4_0"@) && holds(a, "bf16"@) == holds(b, "bf16"@) ==> !before(b, a)
        }),
{
    law_components_are_sorted(names, prefix);
    let c = components(names, prefix);
    assert(!precedes(c[j], c[i]));
}

/// The files of a component are exactly the names that begin and end as its files do.
pub proof fn law_components_are_its_files(
    names: Seq<Seq<char>>,
    prefix: Seq<char>,
    n: Seq<char>,
)
    ensures
        components(names, prefix).contains(n) <==> names.contains(n) && begins(n, prefix) && ends(
            n,
            ".gguf"@,
        ),
    decreases names.len(),
{
    let all = components(names, prefix);
    if names.len() > 0 {
        let init = names.drop_last();
        let last = names.last();
        let rest = components(init, prefix);
        law_components_are_its_files(init, prefix, n);
        crate::detect::lemma_slot(rest, last);
        let k = crate::detect::slot(rest, last);
        if names.contains(n) {
            let i = choose|i: int| 0 <= i < names.len() && names[i] == n;
            if i < init.len() {
                assert(init[i] == n);
            }
        }
        if init.contains(n) {
            let i = choose|i: int| 0 <= i < init.len() && init[i] == n;
            assert(names[i] == n);
        }
        assert(names[names.len() - 1] == last);
        if begins(last, prefix) && ends(last, ".gguf"@) {
            assert(all[k] == last);
            if rest.contains(n) {
                let i = choose|i: int| 0 <= i < rest.len() && rest[i] == n;
                assert(all[if i < k {
                    i
                } else {
                    i + 1
                }] == n);
            }
            if all.contains(n) {
                let i = choose|i: int| 0 <= i < all.len() && all[i] == n;
                if i < k {
                    assert(rest[i] == n);
                } else if i > k {
                    assert(rest[i - 1] == n);
                }
            }
        }
    }
}

} // verus!
