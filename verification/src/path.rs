//! Paths of a Unix file system, as texts.

use vstd::prelude::*;

use crate::text::{
    begins, chars_of, group_views, opt, same, split, split_on, starts_with, strip_prefix, views,
};

verus! {

/// A path with another behind it; an absolute one takes the first one's place.
pub open spec fn path_join(base: Seq<char>, rest: Seq<char>) -> Seq<char> {
    if rest.len() > 0 && rest[0] == '/' {
        rest
    } else if base.len() > 0 && base.last() != '/' {
        base + "/"@ + rest
    } else {
        base + rest
    }
}

/// Puts a path behind another.
pub fn join_path(base: &str, rest: &str) -> (r: String)
    ensures
        r@ == path_join(base@, rest@),
{
    proof {
        reveal_strlit("/");
    }
    let b = chars_of(base);
    assert("/"@ =~= seq!['/']);
    if starts_with(rest, "/") {
        assert(rest@.take(1)[0] == '/');
        return rest.to_string();
    }
    assert(rest@.len() > 0 && rest@[0] == '/' ==> rest@.take(1) =~= "/"@);
    let mut s = base.to_string();
    if b.len() > 0 && b[b.len() - 1] != '/' {
        s.append("/");
    }
    s.append(rest);
    s
}

/// The home directory: what the environment says, or the current directory.
pub fn home(var: Option<String>) -> (r: String)
    ensures
        r@ == (match var {
            Some(v) => v@,
            None => "."@,
        }),
{
    match var {
        Some(v) => v,
        None => ".".to_string(),
    }
}

/// The path with a leading tilde replaced by the home directory.
pub open spec fn expanded(p: Seq<char>, home: Seq<char>) -> Seq<char> {
    if begins(p, "~/"@) {
        path_join(home, p.skip(2))
    } else if p == "~"@ {
        home
    } else {
        p
    }
}

/// Replaces a leading tilde by the home directory.
pub fn expand_tilde(p: &str, home: &str) -> (r: String)
    ensures
        r@ == expanded(p@, home@),
{
    proof {
        reveal_strlit("~/");
    }
    match strip_prefix(p, "~/") {
        Some(rest) => join_path(home, rest.as_str()),
        None => if same(p, "~") {
            home.to_string()
        } else {
            p.to_string()
        },
    }
}

/// The directory in which presets and history are kept: under the one that is set for settings, or
/// else under `.config` at home.
pub open spec fn settings_dir(xdg: Option<Seq<char>>, home: Seq<char>) -> Seq<char> {
    path_join(
        match xdg {
            Some(dir) => dir,
            None => path_join(home, ".config"@),
        },
        "lyra"@,
    )
}

/// The directory in which presets and history are kept. `xdg` is what is set in `XDG_CONFIG_HOME`.
pub fn config_dir(xdg: Option<String>, home: &str) -> (r: String)
    ensures
        r@ == settings_dir(opt(xdg), home@),
{
    let base = match xdg {
        Some(dir) => dir,
        None => join_path(home, ".config"),
    };
    join_path(base.as_str(), "lyra")
}

// --- the steps of a path ------------------------------------------------------------

/// Whether the path starts at the root.
pub open spec fn rooted(p: Seq<char>) -> bool {
    p.len() > 0 && p[0] == '/'
}

/// Those of the pieces that are steps of a path: a piece that is empty is none, and a dot is one
/// only where a path that does not start at the root begins with it.
pub open spec fn real_steps(pieces: Seq<Seq<char>>, root: bool) -> Seq<Seq<char>>
    decreases pieces.len(),
{
    if pieces.len() == 0 {
        pieces
    } else {
        let rest = real_steps(pieces.drop_last(), root);
        let last = pieces.last();
        if last.len() == 0 || (last == "."@ && (root || pieces.len() > 1)) {
            rest
        } else {
            rest.push(last)
        }
    }
}

/// The steps of a path from its start on.
pub open spec fn steps(p: Seq<char>) -> Seq<Seq<char>> {
    real_steps(split(p, '/'), rooted(p))
}

/// The steps of a path.
pub fn path_steps(p: &str) -> (r: (bool, Vec<String>))
    ensures
        r.0 == rooted(p@),
        views(r.1@) == steps(p@),
{
    broadcast use group_views;

    proof {
        reveal_strlit("/");
    }
    assert("/"@ =~= seq!['/']);
    let root = starts_with(p, "/");
    assert(root == rooted(p@)) by {
        if p@.len() > 0 {
            assert(p@.take(1)[0] == p@[0]);
            if p@[0] == '/' {
                assert(p@.take(1) =~= "/"@);
            }
        }
    }
    let pieces = split_on(p, '/');
    let mut out: Vec<String> = Vec::new();
    let mut i: usize = 0;
    let ghost all = views(pieces@);
    assert(all.take(0) =~= Seq::<Seq<char>>::empty());
    while i < pieces.len()
        invariant
            i <= pieces@.len(),
            all == views(pieces@),
            views(out@) == real_steps(all.take(i as int), root),
        decreases pieces@.len() - i,
    {
        assert(all.take(i + 1).drop_last() =~= all.take(i as int));
        assert(all.take(i + 1).last() == pieces@[i as int]@);
        let piece = pieces[i].as_str();
        if !piece.is_empty() && !(same(piece, ".") && (root || i > 0)) {
            out.push(pieces[i].clone());
        }
        i = i + 1;
    }
    assert(all.take(i as int) =~= all);
    (root, out)
}

/// Whether a path, step by step, begins with the steps of another. Every path begins with one that
/// is empty.
pub open spec fn leads_through(p: Seq<char>, dir: Seq<char>) -> bool {
    dir.len() == 0 || (rooted(p) == rooted(dir) && opens(steps(p), steps(dir)))
}

/// Whether a list begins with another.
pub open spec fn opens(v: Seq<Seq<char>>, head: Seq<Seq<char>>) -> bool {
    head.len() <= v.len() && v.take(head.len() as int) == head
}

/// Where a walk along the steps ends: a step up takes the last step back. There is nothing above the
/// root; above another start the steps up remain.
pub open spec fn resolved(walk: Seq<Seq<char>>, root: bool) -> Seq<Seq<char>>
    decreases walk.len(),
{
    if walk.len() == 0 {
        walk
    } else {
        let r = resolved(walk.drop_last(), root);
        if walk.last() == "."@ {
            r
        } else if walk.last() != ".."@ {
            r.push(walk.last())
        } else if r.len() > 0 && r.last() != ".."@ {
            r.drop_last()
        } else if root {
            r
        } else {
            r.push(".."@)
        }
    }
}

/// Whether what is reached lies in a directory or is that directory.
pub open spec fn lies_in(end: Seq<Seq<char>>, dir: Seq<Seq<char>>) -> bool {
    opens(end, dir) && (end.len() > dir.len() ==> end[dir.len() as int] != ".."@)
}

/// Whether a path begins with a directory and ends in it, whatever detour it takes. An empty path
/// is no directory that could be left.
pub open spec fn under(p: Seq<char>, dir: Seq<char>) -> bool {
    leads_through(p, dir) && (dir.len() == 0 || lies_in(
        resolved(steps(p), rooted(p)),
        resolved(steps(dir), rooted(dir)),
    ))
}

proof fn lemma_straight(walk: Seq<Seq<char>>, root: bool, k: int)
    requires
        0 <= k <= walk.len(),
        forall|i: int| 0 <= i < walk.len() ==> #[trigger] walk[i] != ".."@,
    ensures
        opens(resolved(walk, root), resolved(walk.take(k), root)),
        forall|i: int|
            0 <= i < resolved(walk, root).len() ==> #[trigger] resolved(walk, root)[i] != ".."@,
    decreases walk.len(),
{
    let all = resolved(walk, root);
    if walk.len() == 0 {
        assert(walk.take(k) =~= walk);
        assert(all.take(all.len() as int) =~= all);
    } else {
        let init = walk.drop_last();
        assert forall|i: int| 0 <= i < init.len() implies #[trigger] init[i] != ".."@ by {
            assert(init[i] == walk[i]);
        }
        assert(walk[walk.len() - 1] != ".."@);
        if k == walk.len() {
            lemma_straight(init, root, k - 1);
            assert(walk.take(k) =~= walk);
            assert(all.take(all.len() as int) =~= all);
        } else {
            lemma_straight(init, root, k);
            assert(init.take(k) =~= walk.take(k));
            let part = resolved(walk.take(k), root);
            assert(all.take(part.len() as int) =~= resolved(init, root).take(part.len() as int));
        }
        assert forall|i: int| 0 <= i < all.len() implies #[trigger] all[i] != ".."@ by {
            if i < resolved(init, root).len() {
                assert(all[i] == resolved(init, root)[i]);
            }
        }
    }
}

/// A path that begins with a directory and never steps up is under that directory.
pub proof fn law_straight_paths_are_under(p: Seq<char>, dir: Seq<char>)
    requires
        leads_through(p, dir),
        forall|i: int| 0 <= i < steps(p).len() ==> #[trigger] steps(p)[i] != ".."@,
    ensures
        under(p, dir),
{
    if dir.len() > 0 {
        lemma_straight(steps(p), rooted(p), steps(dir).len() as int);
    }
}

fn has_head(v: &Vec<String>, head: &Vec<String>) -> (r: bool)
    ensures
        r == opens(views(v@), views(head@)),
{
    let ghost vs = views(v@);
    let ghost hs = views(head@);
    if head.len() > v.len() {
        return false;
    }
    let mut i: usize = 0;
    while i < head.len()
        invariant
            i <= head@.len() <= v@.len(),
            vs == views(v@),
            hs == views(head@),
            forall|j: int| 0 <= j < i ==> #[trigger] vs[j] == hs[j],
        decreases head@.len() - i,
    {
        assert(vs[i as int] == v@[i as int]@);
        assert(hs[i as int] == head@[i as int]@);
        if !same(v[i].as_str(), head[i].as_str()) {
            assert(vs.take(hs.len() as int)[i as int] != hs[i as int]);
            return false;
        }
        i = i + 1;
    }
    assert(vs.take(hs.len() as int) =~= hs);
    true
}

fn resolve(walk: &Vec<String>, root: bool) -> (r: Vec<String>)
    ensures
        views(r@) == resolved(views(walk@), root),
{
    broadcast use group_views;

    proof {
        reveal_strlit(".");
        reveal_strlit("..");
        assert("."@.len() != ".."@.len());
    }
    let ghost all = views(walk@);
    let mut out: Vec<String> = Vec::new();
    let mut i: usize = 0;
    assert(all.take(0) =~= Seq::<Seq<char>>::empty());
    while i < walk.len()
        invariant
            "."@ != ".."@,
            i <= walk@.len(),
            all == views(walk@),
            views(out@) == resolved(all.take(i as int), root),
        decreases walk@.len() - i,
    {
        assert(all.take(i + 1).drop_last() =~= all.take(i as int));
        assert(all.take(i + 1).last() == walk@[i as int]@);
        let ghost had = views(out@);
        let step = walk[i].as_str();
        let n: usize = out.len();
        assert(had.len() == n);
        assert(n > 0 ==> had.last() == out@[n - 1]@);
        if !same(step, "..") {
            if !same(step, ".") {
                out.push(walk[i].clone());
            }
        } else if n > 0 && !same(out[n - 1].as_str(), "..") {
            let _ = out.pop();
            assert(views(out@) =~= had.drop_last());
        } else if !root {
            out.push("..".to_string());
        }
        i = i + 1;
    }
    assert(all.take(i as int) =~= all);
    out
}

/// Whether a path begins with a directory and ends in it.
pub fn is_under(p: &str, dir: &str) -> (r: bool)
    ensures
        r == under(p@, dir@),
{
    if dir.is_empty() {
        return true;
    }
    let (p_root, p_steps) = path_steps(p);
    let (d_root, d_steps) = path_steps(dir);
    if p_root != d_root || !has_head(&p_steps, &d_steps) {
        return false;
    }
    let end = resolve(&p_steps, p_root);
    let inner = resolve(&d_steps, d_root);
    if !has_head(&end, &inner) {
        return false;
    }
    assert(views(end@).len() == end@.len());
    assert(views(inner@).len() == inner@.len());
    if end.len() > inner.len() {
        assert(views(end@)[inner@.len() as int] == end@[inner@.len() as int]@);
        !same(end[inner.len()].as_str(), "..")
    } else {
        true
    }
}

} // verus!
