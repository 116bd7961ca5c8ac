//! Where the runtime and the model are: which binary, directory, backend and components to use.
//!
//! What is on disk comes in as plain facts: the names in a directory, and which of the paths
//! that were asked about exist.

use vstd::prelude::*;

use crate::path::{join_path, path_join};
use crate::text::{
    before, begins, contains, ends, ends_with, extend, group_views, holds, is_before, is_listed,
    lemma_before_irreflexive, lemma_before_total, lemma_before_transitive, listed, lowered, note,
    only_if, opt, starts_with, to_lower, views,
};

verus! {

/// The backends that the runtime can be built for.
pub const BACKENDS: [&'static str; 5] = ["cuda", "metal", "vulkan", "hip", "cpu"];

/// The build directories of the runtime, the fastest backend first.
pub const BUILDS: [&'static str; 6] = [
    "linux-cuda-release",
    "macos-metal-release",
    "linux-vulkan-release",
    "linux-hip-release",
    "linux-cpu-release",
    "macos-cpu-release",
];

/// The language models, the preferred one first.
pub const LANGUAGE_MODELS: [&'static str; 4] = [
    "language_model_q4_k.gguf",
    "language_model_q8_0.gguf",
    "language_model_q4_0.gguf",
    "language_model_bf16.gguf",
];

/// The flow transformers, the preferred one first.
pub const FLOW_TRANSFORMERS: [&'static str; 4] = [
    "transformer_q4_k.gguf",
    "transformer_q8_0.gguf",
    "transformer_q4_0.gguf",
    "transformer_bf16.gguf",
];

/// The depth decoders, the preferred one first.
pub const DEPTH_DECODERS: [&'static str; 3] = [
    "rvq_depth_decoder_q8_0.gguf",
    "rvq_depth_decoder_q4_k.gguf",
    "rvq_depth_decoder_bf16.gguf",
];

/// The files that every model directory needs.
pub const NEEDED_FILES: [&'static str; 3] = ["condition_encoder.gguf", "vocoder.gguf", "config.json"];

/// The texts of a table of strings.
pub open spec fn texts(t: Seq<&'static str>) -> Seq<Seq<char>> {
    t.map_values(|s: &'static str| s@)
}

/// The strings of a table.
pub fn to_list(t: &[&'static str]) -> (r: Vec<String>)
    ensures
        views(r@) == texts(t@),
{
    broadcast use group_views;

    let mut out: Vec<String> = Vec::new();
    let mut i: usize = 0;
    assert(texts(t@).take(0) =~= Seq::<Seq<char>>::empty());
    while i < t.len()
        invariant
            i <= t@.len(),
            views(out@) == texts(t@).take(i as int),
        decreases t@.len() - i,
    {
        let ghost prev = views(out@);
        let s = t[i].to_string();
        out.push(s);
        assert(views(out@) == prev.push(s@));
        i = i + 1;
        assert(texts(t@).take(i as int) =~= texts(t@).take(i - 1).push(t@[i - 1]@));
    }
    assert(texts(t@).take(i as int) =~= texts(t@));
    out
}

// --- what is known of the disk ------------------------------------------------------

/// What is on disk of a runtime and a model.
pub struct Disk {
    /// Whether there is a file at the path of the binary.
    pub bin_exists: bool,
    /// Whether the path of the model is that of a directory.
    pub model_is_dir: bool,
    /// The names in the model directory, in the order in which they were read.
    pub names: Vec<String>,
    /// Those of the names in [`probes`] that exist in the model directory.
    pub existing: Vec<String>,
}

/// What a [`Disk`] holds.
#[verifier::ext_equal]
pub struct DiskV {
    pub bin_exists: bool,
    pub model_is_dir: bool,
    pub names: Seq<Seq<char>>,
    pub existing: Seq<Seq<char>>,
}

impl View for Disk {
    type V = DiskV;

    open spec fn view(&self) -> DiskV {
        DiskV {
            bin_exists: self.bin_exists,
            model_is_dir: self.model_is_dir,
            names: views(self.names@),
            existing: views(self.existing@),
        }
    }
}

/// Resolved paths and components of a local runtime and model.
pub struct Paths {
    pub home: String,
    pub bin: String,
    pub model_dir: String,
    pub backend: String,
    pub language_model: Option<String>,
    pub flow_transformer: Option<String>,
    pub depth_decoder: Option<String>,
    pub disk: Disk,
}

/// What [`Paths`] hold.
#[verifier::ext_equal]
pub struct PathsV {
    pub home: Seq<char>,
    pub bin: Seq<char>,
    pub model_dir: Seq<char>,
    pub backend: Seq<char>,
    pub language_model: Option<Seq<char>>,
    pub flow_transformer: Option<Seq<char>>,
    pub depth_decoder: Option<Seq<char>>,
    pub disk: DiskV,
}

impl View for Paths {
    type V = PathsV;

    open spec fn view(&self) -> PathsV {
        PathsV {
            home: self.home@,
            bin: self.bin@,
            model_dir: self.model_dir@,
            backend: self.backend@,
            language_model: opt(self.language_model),
            flow_transformer: opt(self.flow_transformer),
            depth_decoder: opt(self.depth_decoder),
            disk: self.disk@,
        }
    }
}

/// An entry of the directory in which models are kept.
pub struct ModelEntry {
    pub name: String,
    pub path: String,
    pub is_dir: bool,
}

// --- component files ----------------------------------------------------------------

/// The rank of a component file by its quantization, the best first.
pub open spec fn rank(n: Seq<char>) -> int {
    if holds(n, "q4_k"@) {
        0
    } else if holds(n, "q8_0"@) {
        1
    } else if holds(n, "q4_0"@) {
        2
    } else if holds(n, "bf16"@) {
        3
    } else {
        4
    }
}

fn rank_of(n: &str) -> (r: u8)
    ensures
        r == rank(n@),
{
    if contains(n, "q4_k") {
        0
    } else if contains(n, "q8_0") {
        1
    } else if contains(n, "q4_0") {
        2
    } else if contains(n, "bf16") {
        3
    } else {
        4
    }
}

/// Whether a component file is listed before another: by rank, then by name.
pub open spec fn precedes(a: Seq<char>, b: Seq<char>) -> bool {
    rank(a) < rank(b) || (rank(a) == rank(b) && before(a, b))
}

fn does_precede(a: &str, b: &str) -> (r: bool)
    ensures
        r == precedes(a@, b@),
{
    let x = rank_of(a);
    let y = rank_of(b);
    x < y || (x == y && is_before(a, b))
}

/// Whether a name is that of a component file.
pub open spec fn is_component(n: Seq<char>, prefix: Seq<char>) -> bool {
    begins(n, prefix) && ends(n, ".gguf"@)
}

/// The place in a list at which a name is put.
pub open spec fn slot(r: Seq<Seq<char>>, n: Seq<char>) -> int
    decreases r.len(),
{
    if r.len() == 0 || !precedes(r[0], n) {
        0
    } else {
        1 + slot(r.skip(1), n)
    }
}

/// The component files among the names, each put at its place.
pub open spec fn components(names: Seq<Seq<char>>, prefix: Seq<char>) -> Seq<Seq<char>>
    decreases names.len(),
{
    if names.len() == 0 {
        Seq::<Seq<char>>::empty()
    } else {
        let rest = components(names.drop_last(), prefix);
        if is_component(names.last(), prefix) {
            rest.insert(slot(rest, names.last()), names.last())
        } else {
            rest
        }
    }
}

/// The place of a name stands behind all that precede it and before what does not.
pub proof fn lemma_slot(r: Seq<Seq<char>>, n: Seq<char>)
    ensures
        0 <= slot(r, n) <= r.len(),
        forall|j: int| 0 <= j < slot(r, n) ==> precedes(#[trigger] r[j], n),
        slot(r, n) < r.len() ==> !precedes(r[slot(r, n)], n),
    decreases r.len(),
{
    if r.len() > 0 && precedes(r[0], n) {
        lemma_slot(r.skip(1), n);
        assert forall|j: int| 0 <= j < slot(r, n) implies precedes(#[trigger] r[j], n) by {
            if j > 0 {
                assert(r.skip(1)[j - 1] == r[j]);
            }
        }
    }
}

fn find_slot(r: &Vec<String>, n: &str) -> (k: usize)
    ensures
        k == slot(views(r@), n@),
        k <= r@.len(),
{
    let mut i: usize = 0;
    proof {
        lemma_slot(views(r@), n@);
    }
    while i < r.len() && does_precede(r[i].as_str(), n)
        invariant
            i <= r@.len(),
            i <= slot(views(r@), n@) <= r@.len(),
            forall|j: int| 0 <= j < slot(views(r@), n@) ==> precedes(#[trigger] views(r@)[j], n@),
            slot(views(r@), n@) < r@.len() ==> !precedes(views(r@)[slot(views(r@), n@)], n@),
        decreases r@.len() - i,
    {
        assert(views(r@)[i as int] == r@[i as int]@);
        i = i + 1;
    }
    if i < r.len() {
        assert(views(r@)[i as int] == r@[i as int]@);
    }
    i
}

/// The component files with a prefix among the names of a directory, ordered by quality.
pub fn component_files(names: &Vec<String>, prefix: &str) -> (r: Vec<String>)
    ensures
        views(r@) == components(views(names@), prefix@),
{
    let mut out: Vec<String> = Vec::new();
    let mut i: usize = 0;
    assert(views(names@).take(0) =~= Seq::<Seq<char>>::empty());
    assert(views(out@) =~= Seq::<Seq<char>>::empty());
    while i < names.len()
        invariant
            i <= names@.len(),
            views(out@) == components(views(names@).take(i as int), prefix@),
        decreases names@.len() - i,
    {
        let n = &names[i];
        let ghost all = views(names@);
        assert(all.take(i + 1).drop_last() =~= all.take(i as int));
        assert(all.take(i + 1).last() == n@);
        if starts_with(n.as_str(), prefix) && ends_with(n.as_str(), ".gguf") {
            let ghost prev = out@;
            let k = find_slot(&out, n.as_str());
            let s = n.clone();
            out.insert(k, s);
            assert(out@ == prev.insert(k as int, s));
            assert(views(out@) =~= views(prev).insert(k as int, s@));
        }
        i = i + 1;
    }
    assert(views(names@).take(i as int) =~= views(names@));
    out
}

/// The component files of a directory are listed by rank and name, and they are exactly those
/// names, as often as they occur, that have the prefix and the ending.
pub proof fn law_components_are_sorted(names: Seq<Seq<char>>, prefix: Seq<char>)
    ensures
        forall|i: int, j: int|
            0 <= i < j < components(names, prefix).len() ==> !precedes(
                #[trigger] components(names, prefix)[j],
                #[trigger] components(names, prefix)[i],
            ),
        components(names, prefix).to_multiset() == names.filter(
            |n: Seq<char>| is_component(n, prefix),
        ).to_multiset(),
    decreases names.len(),
{
    let keep = |n: Seq<char>| is_component(n, prefix);
    let c = components(names, prefix);
    reveal(Seq::filter);
    broadcast use vstd::seq_lib::group_to_multiset_ensures;

    if names.len() > 0 {
        law_components_are_sorted(names.drop_last(), prefix);
        let rest = components(names.drop_last(), prefix);
        let n = names.last();
        lemma_slot(rest, n);
        let k = slot(rest, n);
        if is_component(n, prefix) {
            assert(c == rest.insert(k, n));
            assert(names.filter(keep) == names.drop_last().filter(keep).push(n));
            assert(c.remove(k) =~= rest);
            assert(c[k] == n);
            assert(c.contains(n));
            assert(c.to_multiset() =~= rest.to_multiset().insert(n));
            assert forall|i: int, j: int| 0 <= i < j < c.len() implies !precedes(
                #[trigger] c[j],
                #[trigger] c[i],
            ) by {
                let di = if i < k { i } else { i - 1 };
                let dj = if j < k { j } else { j - 1 };
                if j == k {
                    assert(c[i] == rest[i]);
                    lemma_precedes_asymmetric(rest[i], n);
                } else if i == k {
                    assert(c[j] == rest[j - 1]);
                    if precedes(rest[j - 1], n) {
                        if j - 1 > k {
                            assert(!precedes(rest[j - 1], rest[k]));
                            lemma_precedes_step(rest[j - 1], n, rest[k]);
                        }
                    }
                } else {
                    assert(c[i] == rest[di]);
                    assert(c[j] == rest[dj]);
                }
            }
        } else {
            assert(names.filter(keep) == names.drop_last().filter(keep));
        }
    }
}

proof fn lemma_precedes_asymmetric(a: Seq<char>, b: Seq<char>)
    requires
        precedes(a, b),
    ensures
        !precedes(b, a),
{
    if precedes(b, a) {
        lemma_before_transitive(a, b, a);
        lemma_before_irreflexive(a);
    }
}

proof fn lemma_precedes_step(a: Seq<char>, b: Seq<char>, c: Seq<char>)
    requires
        precedes(a, b),
        !precedes(c, b),
    ensures
        precedes(a, c),
{
    if rank(a) == rank(b) && rank(b) == rank(c) {
        lemma_before_total(b, c);
        if b != c {
            lemma_before_transitive(a, b, c);
        }
    }
}

// --- finding the runtime and the model ------------------------------------------------

/// The path of the binary in a build directory.
pub open spec fn binary_in(home: Seq<char>, build: Seq<char>) -> Seq<char> {
    path_join(path_join(path_join(home, "audio.cpp/build"@), build), "bin/audiocpp_cli"@)
}

fn binary_path(home: &str, build: &str) -> (r: String)
    ensures
        r@ == binary_in(home@, build@),
{
    let a = join_path(home, "audio.cpp/build");
    let b = join_path(a.as_str(), build);
    join_path(b.as_str(), "bin/audiocpp_cli")
}

/// The first of the builds whose binary exists; otherwise the number of the builds.
pub open spec fn first_build(home: Seq<char>, existing: Seq<Seq<char>>, from: int) -> int
    decreases 6 - from,
{
    if from >= 6 || listed(existing, binary_in(home, BUILDS@[from]@)) {
        from
    } else {
        first_build(home, existing, from + 1)
    }
}

/// The paths at which the binary is looked for, in the order of preference.
pub fn bin_candidates(home: &str) -> (r: Vec<String>)
    ensures
        views(r@) == Seq::new(6, |i: int| binary_in(home@, BUILDS@[i]@)),
{
    broadcast use group_views;

    let ghost all = Seq::new(6, |i: int| binary_in(home@, BUILDS@[i]@));
    let mut out: Vec<String> = Vec::new();
    let mut i: usize = 0;
    assert(all.take(0) =~= Seq::<Seq<char>>::empty());
    while i < 6
        invariant
            i <= 6,
            all == Seq::new(6, |k: int| binary_in(home@, BUILDS@[k]@)),
            views(out@) == all.take(i as int),
        decreases 6 - i,
    {
        let s = binary_path(home, BUILDS[i]);
        out.push(s);
        i = i + 1;
        assert(all.take(i as int) =~= all.take(i - 1).push(s@));
    }
    assert(all.take(6) =~= all);
    out
}

/// The binary to use: the one asked for, else the first that exists, else that of the first
/// build.
pub open spec fn binary(over: Option<Seq<char>>, home: Seq<char>, existing: Seq<Seq<char>>) -> Seq<
    char,
> {
    match over {
        Some(b) => b,
        None => {
            let k = first_build(home, existing, 0);
            if k < 6 {
                binary_in(home, BUILDS@[k]@)
            } else {
                path_join(home, "audio.cpp/build/linux-cuda-release/bin/audiocpp_cli"@)
            }
        },
    }
}

/// Finds the binary; `existing` are those of the [`bin_candidates`] that exist.
pub fn detect_bin(override_bin: Option<String>, home: &str, existing: &Vec<String>) -> (r: String)
    ensures
        r@ == binary(opt(override_bin), home@, views(existing@)),
{
    if let Some(b) = override_bin {
        return b;
    }
    let mut i: usize = 0;
    while i < 6
        invariant
            i <= 6,
            opt(override_bin) is None,
            first_build(home@, views(existing@), i as int) == first_build(
                home@,
                views(existing@),
                0,
            ),
        decreases 6 - i,
    {
        let p = binary_path(home, BUILDS[i]);
        if is_listed(existing, p.as_str()) {
            return p;
        }
        i = i + 1;
    }
    join_path(home, "audio.cpp/build/linux-cuda-release/bin/audiocpp_cli")
}

/// The backend that the path of the binary speaks of.
pub open spec fn backend_in(bin: Seq<char>) -> Seq<char> {
    if holds(bin, "cuda"@) {
        "cuda"@
    } else if holds(bin, "metal"@) {
        "metal"@
    } else if holds(bin, "vulkan"@) {
        "vulkan"@
    } else if holds(bin, "hip"@) {
        "hip"@
    } else {
        "cpu"@
    }
}

/// The backend that the path of the binary speaks of.
pub fn backend_from_bin(bin: &str) -> (r: String)
    ensures
        r@ == backend_in(bin@),
{
    if contains(bin, "cuda") {
        "cuda".to_string()
    } else if contains(bin, "metal") {
        "metal".to_string()
    } else if contains(bin, "vulkan") {
        "vulkan".to_string()
    } else if contains(bin, "hip") {
        "hip".to_string()
    } else {
        "cpu".to_string()
    }
}

/// Whether an entry is a directory that is named after the model.
pub open spec fn is_model(e: ModelEntry) -> bool {
    e.is_dir && holds(lowered(e.name@), "minimax"@) && holds(lowered(e.name@), "music"@)
}

/// The first of the entries that is a model; otherwise their number.
pub open spec fn first_model(entries: Seq<ModelEntry>) -> int
    decreases entries.len(),
{
    if entries.len() == 0 || is_model(entries[0]) {
        0
    } else {
        1 + first_model(entries.skip(1))
    }
}

/// The model directory to use: the one asked for, else the usual one, else the first that is
/// named after the model, else the usual one although it is missing.
pub open spec fn model_dir(
    over: Option<Seq<char>>,
    home: Seq<char>,
    usual_is_dir: bool,
    entries: Seq<ModelEntry>,
) -> Seq<char> {
    match over {
        Some(d) => d,
        None => if !usual_is_dir && first_model(entries) < entries.len() {
            entries[first_model(entries)].path@
        } else {
            path_join(home, "models/MiniMax-Music3-GGUF"@)
        },
    }
}

/// The path at which the model is looked for first.
pub fn usual_model_dir(home: &str) -> (r: String)
    ensures
        r@ == path_join(home@, "models/MiniMax-Music3-GGUF"@),
{
    join_path(home, "models/MiniMax-Music3-GGUF")
}

/// Finds the model directory. `usual_is_dir` says whether the [`usual_model_dir`] is one, and
/// `entries` are what is in `models` in the home directory, in the order in which they were read.
pub fn detect_model_dir(
    override_dir: Option<String>,
    home: &str,
    usual_is_dir: bool,
    entries: &Vec<ModelEntry>,
) -> (r: String)
    ensures
        r@ == model_dir(opt(override_dir), home@, usual_is_dir, entries@),
{
    if let Some(d) = override_dir {
        return d;
    }
    let direct = usual_model_dir(home);
    if usual_is_dir {
        return direct;
    }
    let mut i: usize = 0;
    assert(entries@.skip(0) =~= entries@);
    while i < entries.len()
        invariant
            i <= entries@.len(),
            opt(override_dir) is None,
            !usual_is_dir,
            first_model(entries@) == i + first_model(entries@.skip(i as int)),
        decreases entries@.len() - i,
    {
        let e = &entries[i];
        assert(entries@.skip(i as int)[0] == e);
        assert(entries@.skip(i as int).skip(1) =~= entries@.skip(i + 1));
        let name = to_lower(e.name.as_str());
        if contains(name.as_str(), "minimax") && contains(name.as_str(), "music") && e.is_dir {
            return e.path.clone();
        }
        i = i + 1;
    }
    direct
}

/// The first of the candidates that exists.
pub open spec fn first_existing(candidates: Seq<Seq<char>>, existing: Seq<Seq<char>>) -> Option<
    Seq<char>,
>
    decreases candidates.len(),
{
    if candidates.len() == 0 {
        None
    } else if listed(existing, candidates[0]) {
        Some(candidates[0])
    } else {
        first_existing(candidates.skip(1), existing)
    }
}

/// The first of the candidates that exists.
pub fn pick(existing: &Vec<String>, candidates: &[&'static str]) -> (r: Option<String>)
    ensures
        opt(r) == first_existing(texts(candidates@), views(existing@)),
{
    let ghost all = texts(candidates@);
    let mut i: usize = 0;
    assert(all.skip(0) =~= all);
    while i < candidates.len()
        invariant
            i <= candidates@.len(),
            all == texts(candidates@),
            first_existing(all, views(existing@)) == first_existing(
                all.skip(i as int),
                views(existing@),
            ),
        decreases candidates@.len() - i,
    {
        assert(all.skip(i as int)[0] == candidates@[i as int]@);
        assert(all.skip(i as int).skip(1) =~= all.skip(i + 1));
        if is_listed(existing, candidates[i]) {
            return Some(candidates[i].to_string());
        }
        i = i + 1;
    }
    None
}

/// The names that are asked about in a model directory.
pub fn probes() -> (r: Vec<String>)
    ensures
        views(r@) == texts(LANGUAGE_MODELS@) + texts(FLOW_TRANSFORMERS@) + texts(DEPTH_DECODERS@)
            + texts(NEEDED_FILES@),
{
    let mut out = to_list(&LANGUAGE_MODELS);
    extend(&mut out, &to_list(&FLOW_TRANSFORMERS));
    extend(&mut out, &to_list(&DEPTH_DECODERS));
    extend(&mut out, &to_list(&NEEDED_FILES));
    out
}

/// What was found about the home directory.
pub struct Home {
    pub path: String,
    /// Those of the [`bin_candidates`] that exist.
    pub binaries: Vec<String>,
    /// Whether the [`usual_model_dir`] is a directory.
    pub usual_is_dir: bool,
    /// The entries of the directory in which models are kept.
    pub models: Vec<ModelEntry>,
}

/// The paths and components: what is asked for, or else what was found.
pub open spec fn located(
    over_bin: Option<Seq<char>>,
    over_model: Option<Seq<char>>,
    over_backend: Option<Seq<char>>,
    home: Home,
    disk: DiskV,
) -> PathsV {
    let bin = binary(over_bin, home.path@, views(home.binaries@));
    PathsV {
        home: home.path@,
        bin,
        model_dir: model_dir(over_model, home.path@, home.usual_is_dir, home.models@),
        backend: match over_backend {
            Some(b) => b,
            None => backend_in(bin),
        },
        language_model: first_existing(texts(LANGUAGE_MODELS@), disk.existing),
        flow_transformer: first_existing(texts(FLOW_TRANSFORMERS@), disk.existing),
        depth_decoder: first_existing(texts(DEPTH_DECODERS@), disk.existing),
        disk,
    }
}

/// Resolves the paths and components. `disk` tells what is at the binary and in the model
/// directory that [`detect_bin`] and [`detect_model_dir`] find.
pub fn detect(
    override_bin: Option<String>,
    override_model: Option<String>,
    override_backend: Option<String>,
    home: &Home,
    disk: Disk,
) -> (r: Paths)
    ensures
        r@ == located(
            opt(override_bin),
            opt(override_model),
            opt(override_backend),
            *home,
            disk@,
        ),
{
    let bin = detect_bin(override_bin, home.path.as_str(), &home.binaries);
    let backend = match override_backend {
        Some(b) => b,
        None => backend_from_bin(bin.as_str()),
    };
    let model_dir = detect_model_dir(
        override_model,
        home.path.as_str(),
        home.usual_is_dir,
        &home.models,
    );
    let language_model = pick(&disk.existing, &LANGUAGE_MODELS);
    let flow_transformer = pick(&disk.existing, &FLOW_TRANSFORMERS);
    let depth_decoder = pick(&disk.existing, &DEPTH_DECODERS);
    Paths {
        home: home.path.clone(),
        bin,
        model_dir,
        backend,
        language_model,
        flow_transformer,
        depth_decoder,
        disk,
    }
}

// --- what is missing --------------------------------------------------------------------

/// What is said where no file of a component is there.
pub open spec fn no_component(name: Seq<char>) -> Seq<char> {
    "no "@ + name + " GGUF in model dir"@
}

/// What is missing for a run.
pub open spec fn missing(p: PathsV) -> Seq<Seq<char>> {
    let names = p.disk.names;
    let existing = p.disk.existing;
    only_if(!p.disk.bin_exists, "audiocpp_cli not found at "@ + p.bin) + (if !p.disk.model_is_dir {
        seq!["model dir missing: "@ + p.model_dir]
    } else {
        only_if(components(names, "language_model_"@).len() == 0, no_component("language model"@))
            + only_if(components(names, "transformer_"@).len() == 0, no_component("flow transformer"@))
            + only_if(
            components(names, "rvq_depth_decoder_"@).len() == 0,
            no_component("depth decoder"@),
        ) + only_if(
            !listed(existing, "condition_encoder.gguf"@),
            "missing "@ + "condition_encoder.gguf"@,
        ) + only_if(!listed(existing, "vocoder.gguf"@), "missing "@ + "vocoder.gguf"@) + only_if(
            !listed(existing, "config.json"@),
            "missing "@ + "config.json"@,
        )
    })
}

fn check_component(out: &mut Vec<String>, names: &Vec<String>, prefix: &str, name: &str)
    ensures
        views(final(out)@) == views(old(out)@) + only_if(
            components(views(names@), prefix@).len() == 0,
            no_component(name@),
        ),
{
    let files = component_files(names, prefix);
    assert(views(files@).len() == files@.len());
    let mut s = "no ".to_string();
    s.append(name);
    s.append(" GGUF in model dir");
    note(out, files.len() == 0, s);
}

fn check_file(out: &mut Vec<String>, existing: &Vec<String>, name: &str)
    ensures
        views(final(out)@) == views(old(out)@) + only_if(
            !listed(views(existing@), name@),
            "missing "@ + name@,
        ),
{
    let mut s = "missing ".to_string();
    s.append(name);
    note(out, !is_listed(existing, name), s);
}

/// What is missing for a run, in words.
pub fn problems(paths: &Paths) -> (r: Vec<String>)
    ensures
        views(r@) == missing(paths@),
{
    broadcast use group_views;

    let mut out: Vec<String> = Vec::new();
    let mut s = "audiocpp_cli not found at ".to_string();
    s.append(paths.bin.as_str());
    note(&mut out, !paths.disk.bin_exists, s);
    assert(views(out@) =~= only_if(!paths.disk.bin_exists, "audiocpp_cli not found at "@ + paths.bin@));
    if !paths.disk.model_is_dir {
        let mut s = "model dir missing: ".to_string();
        s.append(paths.model_dir.as_str());
        note(&mut out, true, s);
    } else {
        let mut more: Vec<String> = Vec::new();
        check_component(&mut more, &paths.disk.names, "language_model_", "language model");
        assert(views(more@) =~= only_if(
            components(paths@.disk.names, "language_model_"@).len() == 0,
            no_component("language model"@),
        ));
        check_component(&mut more, &paths.disk.names, "transformer_", "flow transformer");
        check_component(&mut more, &paths.disk.names, "rvq_depth_decoder_", "depth decoder");
        check_file(&mut more, &paths.disk.existing, "condition_encoder.gguf");
        check_file(&mut more, &paths.disk.existing, "vocoder.gguf");
        check_file(&mut more, &paths.disk.existing, "config.json");
        extend(&mut out, &more);
    }
    out
}

/// A run can be started, as far as the disk goes, exactly where the binary and the model
/// directory are there and nothing is missing in the directory.
pub proof fn law_nothing_is_missing(p: PathsV)
    ensures
        missing(p).len() == 0 <==> {
            &&& p.disk.bin_exists
            &&& p.disk.model_is_dir
            &&& components(p.disk.names, "language_model_"@).len() > 0
            &&& components(p.disk.names, "transformer_"@).len() > 0
            &&& components(p.disk.names, "rvq_depth_decoder_"@).len() > 0
            &&& listed(p.disk.existing, "condition_encoder.gguf"@)
            &&& listed(p.disk.existing, "vocoder.gguf"@)
            &&& listed(p.disk.existing, "config.json"@)
        },
{
}

} // verus!
