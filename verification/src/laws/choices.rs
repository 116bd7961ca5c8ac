//! Choices can be gone through, in both directions and all around.

use vstd::arithmetic::div_mod::{
    lemma_add_mod_noop, lemma_mod_multiples_vanish, lemma_mod_twice, lemma_small_mod,
};
use vstd::prelude::*;

use crate::config::ConfigV;
use crate::detect::{components, is_component, lemma_slot, slot, PathsV, BACKENDS};
use crate::edit::{
    choices, chosen, cycled, in_lists, lemma_place_of, picked, place_of, selected, slots,
    with_index,
};
use crate::field::{Field, Kind};

verus! {

/// Whether the choices for a field can be told apart, and are no more than a list can hold: no file
/// of the component that it is about is there twice.
pub open spec fn told_apart(paths: PathsV, f: Field) -> bool {
    &&& choices(paths, f).len() < isize::MAX
    &&& f is Lm || f is Flow || f is Depth ==> choices(paths, f).no_duplicates()
}

/// Whether what is chosen for a field is in its list, or left to the program.
pub open spec fn settled_on(c: ConfigV, paths: PathsV, f: Field) -> bool {
    &&& in_lists(c)
    &&& f.automatic() ==> chosen(c, f).len() == 0 || choices(paths, f).contains(chosen(c, f))
}

/// Where no name is in a directory twice, no file of a component is among its choices twice.
pub proof fn law_components_are_distinct(names: Seq<Seq<char>>, prefix: Seq<char>)
    requires
        names.no_duplicates(),
    ensures
        components(names, prefix).no_duplicates(),
        forall|i: int|
            0 <= i < components(names, prefix).len() ==> names.contains(
                #[trigger] components(names, prefix)[i],
            ),
    decreases names.len(),
{
    let all = components(names, prefix);
    if names.len() > 0 {
        let init = names.drop_last();
        let n = names.last();
        let rest = components(init, prefix);
        law_components_are_distinct(init, prefix);
        lemma_slot(rest, n);
        let k = slot(rest, n);
        assert forall|i: int| 0 <= i < rest.len() implies names.contains(#[trigger] rest[i]) && rest[i]
            != n by {
            let j = choose|j: int| 0 <= j < init.len() && init[j] == rest[i];
            assert(names[j] == rest[i]);
            assert(names[names.len() - 1] == n);
        }
        if is_component(n, prefix) {
            assert forall|i: int| 0 <= i < all.len() implies names.contains(#[trigger] all[i]) by {
                if i < k {
                    assert(all[i] == rest[i]);
                } else if i > k {
                    assert(all[i] == rest[i - 1]);
                } else {
                    assert(names[names.len() - 1] == n);
                }
            }
            assert forall|i: int, j: int| 0 <= i < j < all.len() implies all[i] != all[j] by {
                let a = if i < k {
                    i
                } else {
                    i - 1
                };
                let b = if j < k {
                    j
                } else {
                    j - 1
                };
                if i == k {
                    assert(all[j] == rest[b]);
                } else if j == k {
                    assert(all[i] == rest[a]);
                } else {
                    assert(all[i] == rest[a] && all[j] == rest[b]);
                }
            }
        }
    }
}

/// No name of a component file is empty.
proof fn lemma_components_named(names: Seq<Seq<char>>, prefix: Seq<char>)
    ensures
        forall|i: int|
            0 <= i < components(names, prefix).len() ==> (#[trigger] components(names, prefix)[i]).len()
                > 0,
    decreases names.len(),
{
    let all = components(names, prefix);
    if names.len() > 0 {
        let rest = components(names.drop_last(), prefix);
        lemma_components_named(names.drop_last(), prefix);
        lemma_slot(rest, names.last());
        let k = slot(rest, names.last());
        reveal_strlit(".gguf");
        assert forall|i: int| 0 <= i < all.len() implies (#[trigger] all[i]).len() > 0 by {
            if !is_component(names.last(), prefix) || i < k {
                assert(all[i] == rest[i]);
            } else if i > k {
                assert(all[i] == rest[i - 1]);
            }
        }
    }
}

/// No two choices for a field with an automatic one are the same, and none is empty.
proof fn lemma_choices_distinct(paths: PathsV, f: Field)
    requires
        told_apart(paths, f),
        f.automatic(),
    ensures
        choices(paths, f).no_duplicates(),
        forall|i: int|
            0 <= i < choices(paths, f).len() ==> (#[trigger] choices(paths, f)[i]).len() > 0,
{
    let names = paths.disk.names;
    lemma_components_named(names, "language_model_"@);
    lemma_components_named(names, "transformer_"@);
    lemma_components_named(names, "rvq_depth_decoder_"@);
    if f is Backend {
        reveal_strlit("cuda");
        reveal_strlit("metal");
        reveal_strlit("vulkan");
        reveal_strlit("hip");
        reveal_strlit("cpu");
        let v = choices(paths, f);
        assert(v.len() == 5);
        assert forall|i: int| 0 <= i < v.len() implies (#[trigger] v[i]).len() > 0 by {
            assert(v[i] == BACKENDS@[i]@);
        }
        assert forall|i: int, j: int| 0 <= i < j < v.len() implies v[i] != v[j] by {
            assert(v[i] == BACKENDS@[i]@ && v[j] == BACKENDS@[j]@);
            assert(v[i].len() != v[j].len() || v[i][0] != v[j][0] || v[i][1] != v[j][1]);
        }
    }
}

proof fn lemma_place_in_distinct(v: Seq<Seq<char>>, k: int)
    requires
        v.no_duplicates(),
        0 <= k < v.len(),
    ensures
        place_of(v, v[k]) == k,
{
    lemma_place_of(v, v[k]);
    let p = place_of(v, v[k]);
    if p < k {
        assert(v[p] == v[k]);
    } else if p > k {
        assert(v[k] != v[k]);
    }
}

/// The index that was chosen is the index that is shown as chosen, for every choice of a field.
pub proof fn law_chosen_index_is_shown(c: ConfigV, paths: PathsV, f: Field, i: int)
    requires
        told_apart(paths, f),
        f.sort() == Kind::Select,
        0 <= i < slots(paths, f),
    ensures
        picked(with_index(c, paths, f, i), paths, f) == i,
        selected(c, paths, f, i) == with_index(c, paths, f, i),
{
    if f.automatic() {
        lemma_choices_distinct(paths, f);
        let v = choices(paths, f);
        if i == 0 {
            lemma_place_of(v, Seq::<char>::empty());
        } else {
            lemma_place_in_distinct(v, i - 1);
        }
    }
}

proof fn lemma_index_again(c: ConfigV, paths: PathsV, f: Field, i: int, j: int)
    ensures
        with_index(with_index(c, paths, f, i), paths, f, j) == with_index(c, paths, f, j),
{
}

proof fn lemma_picked(c: ConfigV, paths: PathsV, f: Field)
    requires
        told_apart(paths, f),
        f.sort() == Kind::Select,
        settled_on(c, paths, f),
    ensures
        0 <= picked(c, paths, f) < slots(paths, f) <= isize::MAX,
        with_index(c, paths, f, picked(c, paths, f)) == c,
{
    if f.automatic() {
        let v = choices(paths, f);
        lemma_place_of(v, chosen(c, f));
        if chosen(c, f).len() == 0 {
            lemma_choices_distinct(paths, f);
            assert(chosen(c, f) =~= Seq::<char>::empty());
        } else {
            let k = choose|k: int| 0 <= k < v.len() && v[k] == chosen(c, f);
            assert(place_of(v, chosen(c, f)) <= k);
        }
    }
    assert(with_index(c, paths, f, picked(c, paths, f)) =~= c);
}

/// Going on by a number of places moves the index by that number, around the end.
pub proof fn law_cycling_moves_the_index(c: ConfigV, paths: PathsV, f: Field, dir: int)
    requires
        told_apart(paths, f),
        f.sort() == Kind::Select,
        settled_on(c, paths, f),
    ensures
        picked(cycled(c, paths, f, dir), paths, f) == (picked(c, paths, f) + dir) % slots(paths, f),
        settled_on(cycled(c, paths, f, dir), paths, f),
{
    lemma_picked(c, paths, f);
    let n = slots(paths, f);
    let i = (picked(c, paths, f) + dir) % n;
    law_chosen_index_is_shown(c, paths, f, i);
    if f.automatic() && i > 0 {
        assert(choices(paths, f).contains(choices(paths, f)[i - 1]));
    }
}

/// Going on and then back by the same number of places changes nothing.
pub proof fn law_cycling_back_undoes(c: ConfigV, paths: PathsV, f: Field, dir: int)
    requires
        told_apart(paths, f),
        f.sort() == Kind::Select,
        settled_on(c, paths, f),
    ensures
        cycled(cycled(c, paths, f, dir), paths, f, -dir) == c,
{
    lemma_picked(c, paths, f);
    law_cycling_moves_the_index(c, paths, f, dir);
    let n = slots(paths, f);
    let d = cycled(c, paths, f, dir);
    lemma_picked(d, paths, f);
    let p = picked(c, paths, f);
    let q = picked(d, paths, f);
    lemma_round(p, dir, n);
    lemma_index_again(c, paths, f, q, p);
    lemma_index_again(c, paths, f, q, (q - dir) % n);
}

proof fn lemma_round(p: int, dir: int, n: int)
    requires
        0 <= p < n,
    ensures
        ((p + dir) % n - dir) % n == p,
{
    lemma_add_mod_noop(p + dir, -dir, n);
    lemma_mod_twice(p + dir, n);
    lemma_add_mod_noop((p + dir) % n, -dir, n);
    lemma_small_mod(p as nat, n as nat);
}

/// Going on one by one through all choices, the automatic one with them, comes back to where it began.
pub proof fn law_full_round_returns(c: ConfigV, paths: PathsV, f: Field)
    requires
        told_apart(paths, f),
        f.sort() == Kind::Select,
        settled_on(c, paths, f),
    ensures
        stepped(c, paths, f, slots(paths, f) as nat) == c,
{
    lemma_picked(c, paths, f);
    let n = slots(paths, f);
    lemma_stepped(c, paths, f, n as nat);
    let p = picked(c, paths, f);
    lemma_mod_multiples_vanish(1, p, n);
    lemma_small_mod(p as nat, n as nat);
    lemma_index_again(c, paths, f, p, p);
}

/// The settings with the choice for a field moved on by one, a number of times.
pub open spec fn stepped(c: ConfigV, paths: PathsV, f: Field, times: nat) -> ConfigV
    decreases times,
{
    if times == 0 {
        c
    } else {
        cycled(stepped(c, paths, f, (times - 1) as nat), paths, f, 1)
    }
}

proof fn lemma_stepped(c: ConfigV, paths: PathsV, f: Field, times: nat)
    requires
        told_apart(paths, f),
        f.sort() == Kind::Select,
        settled_on(c, paths, f),
    ensures
        settled_on(stepped(c, paths, f, times), paths, f),
        picked(stepped(c, paths, f, times), paths, f) == (picked(c, paths, f) + times) % slots(
            paths,
            f,
        ),
        stepped(c, paths, f, times) == with_index(
            c,
            paths,
            f,
            (picked(c, paths, f) + times) % slots(paths, f),
        ),
    decreases times,
{
    lemma_picked(c, paths, f);
    let n = slots(paths, f);
    let p = picked(c, paths, f);
    if times == 0 {
        lemma_small_mod(p as nat, n as nat);
    } else {
        let t = (times - 1) as nat;
        lemma_stepped(c, paths, f, t);
        let before = stepped(c, paths, f, t);
        lemma_picked(before, paths, f);
        law_cycling_moves_the_index(before, paths, f, 1);
        lemma_add_mod_noop(p + t, 1, n);
        lemma_add_mod_noop((p + t) % n, 1, n);
        lemma_mod_twice(p + t, n);
        assert(((p + t) % n + 1) % n == (p + times) % n);
        lemma_index_again(c, paths, f, (p + t) % n, (p + times) % n);
    }
}

} // verus!
