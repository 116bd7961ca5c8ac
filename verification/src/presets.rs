//! Named settings, kept in the order of their names.

use vstd::prelude::*;

use crate::config::{Config, ConfigV};
use crate::text::{
    before, group_views, is_before, lemma_before_irreflexive, lemma_before_total,
    lemma_before_transitive, same, views,
};

verus! {

/// Settings with a name.
pub struct Preset {
    pub name: String,
    pub cfg: Config,
}

/// What a [`Preset`] holds.
#[verifier::ext_equal]
pub struct PresetV {
    pub name: Seq<char>,
    pub cfg: ConfigV,
}

impl View for Preset {
    type V = PresetV;

    open spec fn view(&self) -> PresetV {
        PresetV { name: self.name@, cfg: self.cfg@ }
    }
}

/// What a list of presets holds.
pub open spec fn preset_views(v: Seq<Preset>) -> Seq<PresetV> {
    v.map_values(|p: Preset| p@)
}

/// Whether the names stand in strictly rising order, so that none occurs twice.
pub open spec fn rising(ps: Seq<PresetV>) -> bool {
    forall|i: int, j: int|
        0 <= i < j < ps.len() ==> before((#[trigger] ps[i]).name, (#[trigger] ps[j]).name)
}

/// The first place whose name does not stand before a name.
pub open spec fn spot(ps: Seq<PresetV>, name: Seq<char>) -> int
    decreases ps.len(),
{
    if ps.len() == 0 || !before(ps[0].name, name) {
        0
    } else {
        1 + spot(ps.skip(1), name)
    }
}

/// Whether there is a preset with a name at its place.
pub open spec fn is_kept(ps: Seq<PresetV>, name: Seq<char>) -> bool {
    spot(ps, name) < ps.len() && ps[spot(ps, name)].name == name
}

/// The settings with a name.
pub open spec fn found(ps: Seq<PresetV>, name: Seq<char>) -> Option<ConfigV> {
    if is_kept(ps, name) {
        Some(ps[spot(ps, name)].cfg)
    } else {
        None
    }
}

/// The presets with settings put under a name, in the place of those that were there.
pub open spec fn put(ps: Seq<PresetV>, name: Seq<char>, cfg: ConfigV) -> Seq<PresetV> {
    let p = PresetV { name, cfg };
    if is_kept(ps, name) {
        ps.update(spot(ps, name), p)
    } else {
        ps.insert(spot(ps, name), p)
    }
}

/// The presets without the one with a name.
pub open spec fn without(ps: Seq<PresetV>, name: Seq<char>) -> Seq<PresetV> {
    if is_kept(ps, name) {
        ps.remove(spot(ps, name))
    } else {
        ps
    }
}

/// The names of presets.
pub open spec fn names_of(ps: Seq<PresetV>) -> Seq<Seq<char>> {
    ps.map_values(|p: PresetV| p.name)
}

/// The presets that a list of entries leaves, each with its settings put in range.
pub open spec fn loaded(entries: Seq<PresetV>) -> Seq<PresetV>
    decreases entries.len(),
{
    if entries.len() == 0 {
        entries
    } else {
        put(loaded(entries.drop_last()), entries.last().name, entries.last().cfg.sanitized())
    }
}

pub proof fn lemma_spot(ps: Seq<PresetV>, name: Seq<char>)
    ensures
        0 <= spot(ps, name) <= ps.len(),
        forall|j: int| 0 <= j < spot(ps, name) ==> before((#[trigger] ps[j]).name, name),
        spot(ps, name) < ps.len() ==> !before(ps[spot(ps, name)].name, name),
    decreases ps.len(),
{
    if ps.len() > 0 && before(ps[0].name, name) {
        lemma_spot(ps.skip(1), name);
        assert forall|j: int| 0 <= j < spot(ps, name) implies before((#[trigger] ps[j]).name, name) by {
            if j > 0 {
                assert(ps.skip(1)[j - 1] == ps[j]);
            }
        }
    }
}

/// In rising presets, a place is a name's own exactly if what stands before it stands before the
/// name and what stands at it does not.
proof fn lemma_spot_is(ps: Seq<PresetV>, name: Seq<char>, k: int)
    requires
        0 <= k <= ps.len(),
        forall|j: int| 0 <= j < k ==> before((#[trigger] ps[j]).name, name),
        k < ps.len() ==> !before(ps[k].name, name),
    ensures
        spot(ps, name) == k,
{
    lemma_spot(ps, name);
    let s = spot(ps, name);
    if s < k {
        assert(before(ps[s].name, name));
    } else if k < s {
        assert(before(ps[k].name, name));
    }
}

/// In rising presets, a name is found exactly if it occurs.
pub proof fn lemma_has(ps: Seq<PresetV>, name: Seq<char>, k: int)
    requires
        rising(ps),
        0 <= k < ps.len(),
        ps[k].name == name,
    ensures
        is_kept(ps, name),
        spot(ps, name) == k,
{
    lemma_before_irreflexive(name);
    lemma_spot_is(ps, name, k);
}

/// Where a name is not found, what stands at its place and behind stands behind the name.
proof fn lemma_behind(ps: Seq<PresetV>, name: Seq<char>)
    requires
        rising(ps),
    ensures
        forall|j: int|
            spot(ps, name) < j < ps.len() ==> before(name, (#[trigger] ps[j]).name),
        !is_kept(ps, name) && spot(ps, name) < ps.len() ==> before(name, ps[spot(ps, name)].name),
{
    lemma_spot(ps, name);
    let s = spot(ps, name);
    if s < ps.len() {
        lemma_before_total(ps[s].name, name);
        assert forall|j: int| s < j < ps.len() implies before(name, (#[trigger] ps[j]).name) by {
            assert(before(ps[s].name, ps[j].name));
            if ps[s].name != name {
                lemma_before_transitive(name, ps[s].name, ps[j].name);
            }
        }
    }
}

/// Saving and deleting keep the presets in the order of their names, none twice.
pub proof fn law_presets_stay_in_order(ps: Seq<PresetV>, name: Seq<char>, cfg: ConfigV)
    requires
        rising(ps),
    ensures
        rising(put(ps, name, cfg)),
        rising(without(ps, name)),
{
    lemma_spot(ps, name);
    lemma_behind(ps, name);
    let s = spot(ps, name);
    let q = put(ps, name, cfg);
    assert forall|i: int, j: int| 0 <= i < j < q.len() implies before(
        (#[trigger] q[i]).name,
        (#[trigger] q[j]).name,
    ) by {
        if is_kept(ps, name) {
            assert(q[i].name == ps[i].name);
            assert(q[j].name == ps[j].name);
        } else {
            if i < s {
                assert(q[i] == ps[i]);
            } else if i > s {
                assert(q[i] == ps[i - 1]);
            }
            if j < s {
                assert(q[j] == ps[j]);
            } else if j > s {
                assert(q[j] == ps[j - 1]);
            }
        }
    }
    let w = without(ps, name);
    assert forall|i: int, j: int| 0 <= i < j < w.len() implies before(
        (#[trigger] w[i]).name,
        (#[trigger] w[j]).name,
    ) by {
        if is_kept(ps, name) {
            assert(w[i] == ps[if i < s { i } else { i + 1 }]);
            assert(w[j] == ps[if j < s { j } else { j + 1 }]);
        }
    }
}

/// What is saved under a name is what is loaded from it, and no other preset changes.
pub proof fn law_load_gives_back_what_was_saved(
    ps: Seq<PresetV>,
    name: Seq<char>,
    cfg: ConfigV,
    other: Seq<char>,
)
    requires
        rising(ps),
    ensures
        found(put(ps, name, cfg), name) == Some(cfg),
        other != name ==> found(put(ps, name, cfg), other) == found(ps, other),
{
    lemma_spot(ps, name);
    lemma_behind(ps, name);
    law_presets_stay_in_order(ps, name, cfg);
    let s = spot(ps, name);
    let q = put(ps, name, cfg);
    assert(q[s] == PresetV { name, cfg });
    lemma_has(q, name, s);
    if other != name {
        lemma_spot(ps, other);
        let t = spot(ps, other);
        if is_kept(ps, other) {
            if is_kept(ps, name) || t < s {
                assert(q[t] == ps[t]);
                lemma_has(q, other, t);
            } else {
                assert(q[t + 1] == ps[t]);
                lemma_has(q, other, t + 1);
            }
        } else if is_kept(q, other) {
            let u = spot(q, other);
            lemma_spot(q, other);
            assert(q[u].name == other);
            assert(u != s);
            if is_kept(ps, name) || u < s {
                assert(q[u] == ps[u]);
                lemma_has(ps, other, u);
            } else {
                assert(q[u] == ps[u - 1]);
                lemma_has(ps, other, u - 1);
            }
        }
    }
}

/// A deleted preset is gone, and no other preset changes.
pub proof fn law_deleted_is_gone(ps: Seq<PresetV>, name: Seq<char>, other: Seq<char>)
    requires
        rising(ps),
    ensures
        found(without(ps, name), name) is None,
        other != name ==> found(without(ps, name), other) == found(ps, other),
{
    lemma_spot(ps, name);
    lemma_behind(ps, name);
    if ps.len() > 0 {
        law_presets_stay_in_order(ps, name, ps[0].cfg);
    }
    let s = spot(ps, name);
    let w = without(ps, name);
    if is_kept(ps, name) {
        assert forall|j: int| 0 <= j < w.len() implies #[trigger] w[j] == ps[if j < s {
            j
        } else {
            j + 1
        }] by {}
        lemma_spot(w, name);
        if is_kept(w, name) {
            let u = spot(w, name);
            lemma_before_irreflexive(name);
            assert(w[u].name == name);
        }
        if other != name {
            lemma_spot(ps, other);
            let t = spot(ps, other);
            if is_kept(ps, other) {
                assert(t != s);
                if t < s {
                    assert(w[t] == ps[t]);
                    lemma_has(w, other, t);
                } else {
                    assert(w[t - 1] == ps[t]);
                    lemma_has(w, other, t - 1);
                }
            } else if is_kept(w, other) {
                lemma_spot(w, other);
                let u = spot(w, other);
                assert(w[u].name == other);
                lemma_has(ps, other, if u < s { u } else { u + 1 });
            }
        }
    }
}

/// Presets, in the order of their names.
pub struct Presets {
    pub items: Vec<Preset>,
}

impl Presets {
    /// What the presets hold.
    pub open spec fn all(self) -> Seq<PresetV> {
        preset_views(self.items@)
    }

    /// The names stand in order, none twice.
    pub open spec fn wf(self) -> bool {
        rising(self.all())
    }

    /// No presets.
    pub fn new() -> (r: Self)
        ensures
            r.wf(),
            r.all() == Seq::<PresetV>::empty(),
    {
        let r = Presets { items: Vec::new() };
        assert(r.all() =~= Seq::<PresetV>::empty());
        r
    }

    fn find(&self, name: &str) -> (r: (usize, bool))
        ensures
            r.0 == spot(self.all(), name@),
            r.0 <= self.items@.len(),
            r.1 == is_kept(self.all(), name@),
    {
        let ghost all = self.all();
        let mut i: usize = 0;
        proof {
            lemma_spot(all, name@);
        }
        while i < self.items.len() && is_before(self.items[i].name.as_str(), name)
            invariant
                i <= self.items@.len(),
                all == self.all(),
                i <= spot(all, name@) <= all.len(),
                forall|j: int| 0 <= j < spot(all, name@) ==> before((#[trigger] all[j]).name, name@),
                spot(all, name@) < all.len() ==> !before(all[spot(all, name@)].name, name@),
            decreases self.items@.len() - i,
        {
            assert(all[i as int] == self.items@[i as int]@);
            i = i + 1;
        }
        if i < self.items.len() {
            assert(all[i as int] == self.items@[i as int]@);
            (i, same(self.items[i].name.as_str(), name))
        } else {
            (i, false)
        }
    }

    /// The names of the presets.
    pub fn names(&self) -> (r: Vec<String>)
        ensures
            views(r@) == names_of(self.all()),
    {
        broadcast use group_views;

        let ghost all = names_of(self.all());
        let mut out: Vec<String> = Vec::new();
        let mut i: usize = 0;
        assert(all.take(0) =~= Seq::<Seq<char>>::empty());
        while i < self.items.len()
            invariant
                i <= self.items@.len(),
                all == names_of(self.all()),
                views(out@) == all.take(i as int),
            decreases self.items@.len() - i,
        {
            let s = self.items[i].name.clone();
            out.push(s);
            i = i + 1;
            assert(all.take(i as int) =~= all.take(i - 1).push(s@));
        }
        assert(all.take(i as int) =~= all);
        out
    }

    /// The settings with a name.
    pub fn get(&self, name: &str) -> (r: Option<Config>)
        ensures
            match r {
                Some(c) => found(self.all(), name@) == Some(c@),
                None => found(self.all(), name@) is None,
            },
    {
        let (k, there) = self.find(name);
        if there {
            assert(self.all()[k as int] == self.items@[k as int]@);
            Some(self.items[k].cfg.clone())
        } else {
            None
        }
    }

    /// Puts settings under a name, in the place of those that were there.
    pub fn insert(&mut self, name: String, cfg: Config)
        requires
            old(self).wf(),
        ensures
            final(self).wf(),
            final(self).all() == put(old(self).all(), name@, cfg@),
    {
        proof {
            law_presets_stay_in_order(self.all(), name@, cfg@);
        }
        let (k, there) = self.find(name.as_str());
        let p = Preset { name, cfg };
        if there {
            self.items.set(k, p);
        } else {
            self.items.insert(k, p);
        }
        assert(self.all() =~= put(old(self).all(), name@, cfg@));
    }

    /// Takes the preset with a name away.
    pub fn remove(&mut self, name: &str)
        requires
            old(self).wf(),
        ensures
            final(self).wf(),
            final(self).all() == without(old(self).all(), name@),
    {
        proof {
            if self.all().len() > 0 {
                law_presets_stay_in_order(self.all(), name@, self.all()[0].cfg);
            }
        }
        let (k, there) = self.find(name);
        if there {
            self.items.remove(k);
        }
        assert(self.all() =~= without(old(self).all(), name@));
    }

    /// A copy of the presets.
    pub fn copy(&self) -> (r: Self)
        ensures
            r.all() == self.all(),
    {
        let mut items: Vec<Preset> = Vec::new();
        let mut i: usize = 0;
        assert(preset_views(items@) =~= self.all().take(0));
        while i < self.items.len()
            invariant
                i <= self.items@.len(),
                preset_views(items@) == self.all().take(i as int),
            decreases self.items@.len() - i,
        {
            let p = Preset {
                name: self.items[i].name.clone(),
                cfg: self.items[i].cfg.clone(),
            };
            assert(p@ == self.all()[i as int]);
            let ghost prev = preset_views(items@);
            items.push(p);
            i = i + 1;
            assert(preset_views(items@) =~= prev.push(p@));
            assert(self.all().take(i as int) =~= self.all().take(i - 1).push(p@));
        }
        assert(self.all().take(i as int) =~= self.all());
        Presets { items }
    }
}

/// The presets that a list of entries leaves: settings are put in range, and of entries with one
/// name the last one counts.
pub fn load_presets(entries: &Vec<Preset>) -> (r: Presets)
    ensures
        r.wf(),
        r.all() == loaded(preset_views(entries@)),
{
    let ghost all = preset_views(entries@);
    let mut out = Presets::new();
    let mut i: usize = 0;
    assert(all.take(0) =~= Seq::<PresetV>::empty());
    while i < entries.len()
        invariant
            i <= entries@.len(),
            all == preset_views(entries@),
            out.wf(),
            out.all() == loaded(all.take(i as int)),
        decreases entries@.len() - i,
    {
        assert(all.take(i + 1).drop_last() =~= all.take(i as int));
        assert(all.take(i + 1).last() == entries@[i as int]@);
        let mut cfg = entries[i].cfg.clone();
        cfg.sanitize();
        out.insert(entries[i].name.clone(), cfg);
        i = i + 1;
    }
    assert(all.take(i as int) =~= all);
    out
}

/// A name that is listed finds its own settings, and no other name finds any.
pub proof fn law_listed_names_find_their_settings(ps: Seq<PresetV>, i: int, name: Seq<char>)
    requires
        rising(ps),
        0 <= i < ps.len(),
    ensures
        found(ps, ps[i].name) == Some(ps[i].cfg),
        names_of(ps)[i] == ps[i].name,
        names_of(ps).len() == ps.len(),
        found(ps, name) is Some <==> names_of(ps).contains(name),
{
    lemma_has(ps, ps[i].name, i);
    lemma_spot(ps, name);
    if names_of(ps).contains(name) {
        let k = choose|k: int| 0 <= k < names_of(ps).len() && names_of(ps)[k] == name;
        lemma_has(ps, name, k);
    }
    if is_kept(ps, name) {
        assert(names_of(ps)[spot(ps, name)] == name);
    }
}

/// Of the entries that are read the last with a name counts, with its settings put in range; those under
/// other names are not touched by it.
pub proof fn law_last_entry_counts(entries: Seq<PresetV>, e: PresetV, other: Seq<char>)
    ensures
        rising(loaded(entries)),
        found(loaded(entries.push(e)), e.name) == Some(e.cfg.sanitized()),
        other != e.name ==> found(loaded(entries.push(e)), other) == found(loaded(entries), other),
        found(loaded(Seq::<PresetV>::empty()), other) is None,
    decreases entries.len(),
{
    assert(entries.push(e).drop_last() =~= entries);
    if entries.len() > 0 {
        law_last_entry_counts(entries.drop_last(), e, other);
        law_presets_stay_in_order(
            loaded(entries.drop_last()),
            entries.last().name,
            entries.last().cfg.sanitized(),
        );
    }
    law_load_gives_back_what_was_saved(loaded(entries), e.name, e.cfg.sanitized(), other);
}

} // verus!
