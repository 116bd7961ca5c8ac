//! Fitting text into the terminal: shortening, wrapping, and where things stand.

use vstd::prelude::*;

use crate::text::{
    chars_of, group_views, joined, replace, replaced, split, split_on, split_words, string_of,
    views, word_scan, words,
};

verus! {

// --- shortening --------------------------------------------------------------------------------

/// A text on one line, without what is beyond a number of characters.
pub open spec fn shortened(s: Seq<char>, max: nat) -> Seq<char> {
    let t = replaced(s, '\n', "⏎"@);
    if t.len() <= max {
        t
    } else if max == 0 {
        "…"@
    } else {
        t.take(max - 1) + "…"@
    }
}

/// Puts a text on one line and cuts it where it is too long.
pub fn truncate(s: &str, max: usize) -> (r: String)
    ensures
        r@ == shortened(s@, max as nat),
{
    let t = replace(s, '\n', "⏎");
    let v = chars_of(t.as_str());
    if v.len() <= max {
        return t;
    }
    let keep: usize = if max == 0 {
        0
    } else {
        max - 1
    };
    let mut out = string_of(&v, 0, keep);
    out.append("…");
    assert(out@ =~= shortened(s@, max as nat));
    out
}

/// A shortened text is on one line and no longer than asked for, unless nothing was asked for; a
/// text that is no longer than that and on one line stays as it is.
pub proof fn law_shortened_fits(s: Seq<char>, max: nat)
    ensures
        max > 0 ==> shortened(s, max).len() <= max,
        forall|i: int| 0 <= i < shortened(s, max).len() ==> #[trigger] shortened(s, max)[i] != '\n',
        s.len() <= max && (forall|i: int| 0 <= i < s.len() ==> s[i] != '\n') ==> shortened(s, max)
            == s,
{
    reveal_strlit("…");
    lemma_replaced(s);
    let t = replaced(s, '\n', "⏎"@);
    assert forall|i: int| 0 <= i < shortened(s, max).len() implies #[trigger] shortened(s, max)[i]
        != '\n' by {
        if t.len() <= max || i < max - 1 {
            assert(shortened(s, max)[i] == t[i]);
        }
    }
}

proof fn lemma_replaced(s: Seq<char>)
    ensures
        forall|i: int|
            0 <= i < replaced(s, '\n', "⏎"@).len() ==> #[trigger] replaced(s, '\n', "⏎"@)[i] != '\n',
        (forall|i: int| 0 <= i < s.len() ==> s[i] != '\n') ==> replaced(s, '\n', "⏎"@) == s,
    decreases s.len(),
{
    reveal_strlit("⏎");
    if s.len() > 0 {
        lemma_replaced(s.drop_last());
        let t = replaced(s, '\n', "⏎"@);
        let init = replaced(s.drop_last(), '\n', "⏎"@);
        assert forall|i: int| 0 <= i < t.len() implies #[trigger] t[i] != '\n' by {
            if i < init.len() {
                assert(t[i] == init[i]);
            }
        }
        if forall|i: int| 0 <= i < s.len() ==> s[i] != '\n' {
            assert(forall|i: int| 0 <= i < s.drop_last().len() ==> s.drop_last()[i] != '\n');
            assert(replaced(s, '\n', "⏎"@) =~= s);
        }
    } else {
        assert(replaced(s, '\n', "⏎"@) =~= s);
    }
}

// --- wrapping ----------------------------------------------------------------------------------

/// The words set one behind the other on lines of a width, as many on a line as fit; a word that
/// is longer than a line has one of its own. There is always a line.
pub open spec fn filled(ws: Seq<Seq<char>>, width: nat) -> Seq<Seq<char>>
    decreases ws.len(),
{
    if ws.len() == 0 {
        seq![Seq::<char>::empty()]
    } else {
        let set = filled(ws.drop_last(), width);
        let line = set.last();
        let w = ws.last();
        if line.len() == 0 {
            set.drop_last().push(w)
        } else if line.len() + 1 + w.len() <= width {
            set.drop_last().push(line + seq![' '] + w)
        } else {
            set.push(w)
        }
    }
}

/// The lines of paragraphs, each wrapped.
pub open spec fn all_filled(paras: Seq<Seq<char>>, width: nat) -> Seq<Seq<char>>
    decreases paras.len(),
{
    if paras.len() == 0 {
        Seq::<Seq<char>>::empty()
    } else {
        all_filled(paras.drop_last(), width) + filled(words(paras.last()), width)
    }
}

/// The width that text is wrapped at: as given, but no less than eight.
pub open spec fn wide(width: nat) -> nat {
    if width < 8 {
        8
    } else {
        width
    }
}

/// A text wrapped, paragraph by paragraph.
pub open spec fn wrapped(s: Seq<char>, width: nat) -> Seq<Seq<char>> {
    all_filled(split(s, '\n'), wide(width))
}

proof fn lemma_filled_len(ws: Seq<Seq<char>>, width: nat)
    ensures
        filled(ws, width).len() >= 1,
    decreases ws.len(),
{
    if ws.len() > 0 {
        lemma_filled_len(ws.drop_last(), width);
    }
}

fn fill(ws: &Vec<String>, width: usize) -> (r: Vec<String>)
    ensures
        views(r@) == filled(views(ws@), width as nat),
{
    broadcast use group_views;

    let ghost all = views(ws@);
    let mut out: Vec<String> = Vec::new();
    let mut line = String::new();
    let mut i: usize = 0;
    assert(all.take(0) =~= Seq::<Seq<char>>::empty());
    assert(views(out@).push(line@) =~= filled(all.take(0), width as nat));
    while i < ws.len()
        invariant
            i <= ws@.len(),
            all == views(ws@),
            views(out@).push(line@) == filled(all.take(i as int), width as nat),
        decreases ws@.len() - i,
    {
        let ghost set = filled(all.take(i as int), width as nat);
        let ghost had = views(out@);
        assert(set.drop_last() =~= had);
        assert(set.last() == line@);
        assert(all.take(i + 1).drop_last() =~= all.take(i as int));
        assert(all.take(i + 1).last() == ws@[i as int]@);
        let word = ws[i].clone();
        let n: usize = chars_of(line.as_str()).len();
        let m: usize = chars_of(word.as_str()).len();
        if n == 0 {
            line = word;
        } else if n < width && m < width - n {
            let ghost was = line@;
            line.append(" ");
            line.append(word.as_str());
            proof {
                reveal_strlit(" ");
            }
            assert(line@ =~= was + seq![' '] + word@);
        } else {
            out.push(line);
            line = word;
        }
        i = i + 1;
        assert(views(out@).push(line@) =~= filled(all.take(i as int), width as nat));
    }
    assert(all.take(i as int) =~= all);
    out.push(line);
    out
}

/// Wraps a text, paragraph by paragraph.
pub fn wrap(s: &str, width: usize) -> (r: Vec<String>)
    ensures
        views(r@) == wrapped(s@, width as nat),
{
    broadcast use group_views;

    let width: usize = if width < 8 {
        8
    } else {
        width
    };
    let paras = split_on(s, '\n');
    let ghost all = views(paras@);
    let mut out: Vec<String> = Vec::new();
    let mut i: usize = 0;
    assert(all.take(0) =~= Seq::<Seq<char>>::empty());
    while i < paras.len()
        invariant
            i <= paras@.len(),
            all == views(paras@),
            views(out@) == all_filled(all.take(i as int), width as nat),
        decreases paras@.len() - i,
    {
        assert(all.take(i + 1).drop_last() =~= all.take(i as int));
        assert(all.take(i + 1).last() == paras@[i as int]@);
        let mut more = fill(&split_words(paras[i].as_str()), width);
        out.append(&mut more);
        i = i + 1;
    }
    assert(all.take(i as int) =~= all);
    out
}

/// Wrapping loses no word and adds none: the lines of a paragraph, set behind one another, are its
/// words in their order, with a blank between any two.
pub proof fn law_wrapping_keeps_the_words(para: Seq<char>, width: nat)
    ensures
        joined(filled(words(para), width), seq![' ']) == joined(words(para), seq![' ']),
{
    lemma_words_are_something(para);
    lemma_filled_keeps(words(para), width);
}

proof fn lemma_words_are_something(s: Seq<char>)
    ensures
        forall|i: int| 0 <= i < words(s).len() ==> (#[trigger] words(s)[i]).len() > 0,
        forall|i: int| 0 <= i < word_scan(s).0.len() ==> (#[trigger] word_scan(s).0[i]).len() > 0,
    decreases s.len(),
{
    let done = word_scan(s).0;
    if s.len() > 0 {
        lemma_words_are_something(s.drop_last());
        let had = word_scan(s.drop_last()).0;
        assert forall|i: int| 0 <= i < done.len() implies (#[trigger] done[i]).len() > 0 by {
            if i < had.len() {
                assert(had[i].len() > 0);
                assert(done[i] == had[i]);
            }
        }
    }
    assert forall|i: int| 0 <= i < words(s).len() implies (#[trigger] words(s)[i]).len() > 0 by {
        if i < done.len() {
            assert(done[i].len() > 0);
            assert(words(s)[i] == done[i]);
        }
    }
}

proof fn lemma_filled_keeps(ws: Seq<Seq<char>>, width: nat)
    requires
        forall|i: int| 0 <= i < ws.len() ==> (#[trigger] ws[i]).len() > 0,
    ensures
        joined(filled(ws, width), seq![' ']) == joined(ws, seq![' ']),
    decreases ws.len(),
{
    let set = filled(ws, width);
    lemma_filled_len(ws, width);
    if ws.len() > 0 {
        let init = ws.drop_last();
        assert forall|i: int| 0 <= i < init.len() implies (#[trigger] init[i]).len() > 0 by {
            assert(init[i] == ws[i]);
        }
        lemma_filled_keeps(init, width);
        lemma_filled_len(init, width);
        let before = filled(init, width);
        let w = ws.last();
        assert(ws[ws.len() - 1].len() > 0);
        lemma_last_line(init, width);
        if init.len() == 0 {
            assert(set =~= seq![w]);
            assert(ws =~= seq![w]);
        } else {
            lemma_joined_push(init, w);
            assert(init.push(w) =~= ws);
            assert(before.last().len() > 0);
            assert(before.drop_last().push(before.last()) =~= before);
            if before.last().len() + 1 + w.len() <= width {
                let longer = before.last() + seq![' '] + w;
                assert(set =~= before.drop_last().push(longer));
                if before.len() == 1 {
                    assert(before =~= seq![before.last()]);
                    assert(set =~= seq![longer]);
                } else {
                    lemma_joined_push(before.drop_last(), before.last());
                    lemma_joined_push(before.drop_last(), longer);
                }
                assert(joined(set, seq![' ']) =~= joined(before, seq![' ']) + seq![' '] + w);
            } else {
                lemma_joined_push(before, w);
            }
        }
    } else {
        assert(joined(set, seq![' ']) =~= joined(ws, seq![' ']));
    }
}

/// The last line is empty only where there are no words.
proof fn lemma_last_line(ws: Seq<Seq<char>>, width: nat)
    requires
        forall|i: int| 0 <= i < ws.len() ==> (#[trigger] ws[i]).len() > 0,
    ensures
        ws.len() > 0 ==> filled(ws, width).last().len() > 0,
{
    if ws.len() > 0 {
        assert(ws[ws.len() - 1].len() > 0);
        lemma_filled_len(ws.drop_last(), width);
    }
}

proof fn lemma_joined_push(parts: Seq<Seq<char>>, p: Seq<char>)
    requires
        parts.len() > 0,
    ensures
        joined(parts.push(p), seq![' ']) == joined(parts, seq![' ']) + seq![' '] + p,
    decreases parts.len(),
{
    let all = parts.push(p);
    if parts.len() == 1 {
        assert(all.drop_last() =~= parts);
    } else {
        assert(all.drop_last() =~= parts);
    }
}

/// No line is wider than asked for, unless it is a single word that is wider on its own.
pub proof fn law_wrapped_lines_fit(ws: Seq<Seq<char>>, width: nat, i: int)
    requires
        0 <= i < filled(ws, width).len(),
    ensures
        filled(ws, width)[i].len() <= width || ws.contains(filled(ws, width)[i]),
    decreases ws.len(),
{
    let set = filled(ws, width);
    if ws.len() > 0 {
        let init = ws.drop_last();
        lemma_filled_len(init, width);
        let before = filled(init, width);
        if i < before.len() && set[i] == before[i] {
            law_wrapped_lines_fit(init, width, i);
            if init.contains(before[i]) {
                let k = choose|k: int| 0 <= k < init.len() && init[k] == before[i];
                assert(ws[k] == before[i]);
            }
        } else {
            assert(ws[ws.len() - 1] == ws.last());
        }
    }
}

// --- where things stand --------------------------------------------------------------------------

/// Which lines of a log are seen: the last ones that fit, a number of lines above the end.
pub open spec fn seen(len: nat, visible: nat, offset: nat) -> (nat, nat) {
    let end = if offset < len {
        (len - offset) as nat
    } else {
        0
    };
    let start = if visible < end {
        (end - visible) as nat
    } else {
        0
    };
    (start, end)
}

/// Which lines of a log are seen.
pub fn window(len: usize, visible: usize, offset: usize) -> (r: (usize, usize))
    ensures
        (r.0 as nat, r.1 as nat) == seen(len as nat, visible as nat, offset as nat),
        r.0 <= r.1 <= len,
{
    let end: usize = if offset < len {
        len - offset
    } else {
        0
    };
    let start: usize = if visible < end {
        end - visible
    } else {
        0
    };
    (start, end)
}

/// What is seen of a log fits, and without scrolling it is the end of the log.
pub proof fn law_window_shows_the_end(len: nat, visible: nat, offset: nat)
    ensures
        ({
            let (start, end) = seen(len, visible, offset);
            &&& start <= end <= len
            &&& end - start <= visible
            &&& offset == 0 ==> end == len
            &&& end - start < visible ==> start == 0
        }),
{
}

/// A part of the screen.
#[derive(Clone, Copy, Debug, PartialEq, Eq, Structural)]
pub struct Area {
    pub x: u16,
    pub y: u16,
    pub width: u16,
    pub height: u16,
}

/// How long a side of a box is that is to stand within a side of the screen: as asked for, with a
/// margin, but no less than a least length.
pub open spec fn fitted(want: int, side: int, least: int) -> int {
    let room = if side > 2 {
        side - 2
    } else {
        0
    };
    let w = if want < room {
        want
    } else {
        room
    };
    if w < least {
        least
    } else {
        w
    }
}

/// How far a box is from the edge in the middle of a side.
pub open spec fn margin(side: int, len: int) -> int {
    if side > len {
        (side - len) / 2
    } else {
        0
    }
}

/// A box in the middle of an area.
pub open spec fn centre(area: Area, pw: u16, ph: u16) -> Area {
    let w = fitted(pw as int, area.width as int, 20);
    let h = fitted(ph as int, area.height as int, 5);
    Area {
        x: (area.x + margin(area.width as int, w)) as u16,
        y: (area.y + margin(area.height as int, h)) as u16,
        width: w as u16,
        height: h as u16,
    }
}

fn fit(want: u16, side: u16, least: u16) -> (r: u16)
    ensures
        r == fitted(want as int, side as int, least as int),
{
    let room: u16 = if side > 2 {
        side - 2
    } else {
        0
    };
    let w: u16 = if want < room {
        want
    } else {
        room
    };
    if w < least {
        least
    } else {
        w
    }
}

/// A box in the middle of an area.
pub fn centered(area: Area, pw: u16, ph: u16) -> (r: Area)
    requires
        area.x + margin(area.width as int, fitted(pw as int, area.width as int, 20)) <= u16::MAX,
        area.y + margin(area.height as int, fitted(ph as int, area.height as int, 5)) <= u16::MAX,
    ensures
        r == centre(area, pw, ph),
{
    let w = fit(pw, area.width, 20);
    let h = fit(ph, area.height, 5);
    let dx: u16 = if area.width > w {
        (area.width - w) / 2
    } else {
        0
    };
    let dy: u16 = if area.height > h {
        (area.height - h) / 2
    } else {
        0
    };
    Area { x: area.x + dx, y: area.y + dy, width: w, height: h }
}

/// A box that is in the middle of a large enough area lies within it.
pub proof fn law_box_lies_within(area: Area, pw: u16, ph: u16)
    requires
        area.x + area.width <= u16::MAX,
        area.y + area.height <= u16::MAX,
        area.width >= 20,
        area.height >= 5,
    ensures
        ({
            let r = centre(area, pw, ph);
            &&& area.x <= r.x && r.x + r.width <= area.x + area.width
            &&& area.y <= r.y && r.y + r.height <= area.y + area.height
        }),
{
}

} // verus!
