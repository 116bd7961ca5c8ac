//! Texts are taken apart and put together without a loss.

use vstd::prelude::*;
use vstd::utf8::is_ascii_chars;

use crate::laws::prompts::{lemma_trim_end, lemma_trim_start};
use crate::text::{
    at_most, before, capitalized, first_of, joined, lemma_before_irreflexive, lemma_first_of,
    lemma_split_len, lines, lowered, padded, replaced, split, trim_end, trim_start, trimmed, white,
    without_return, word_scan, words,
};

verus! {

// --- white space -----------------------------------------------------------------------------------

/// Blanks, tabs and the ends of lines are white space; no printable character of ASCII is.
pub proof fn law_printable_is_not_white(c: char)
    ensures
        33 <= c as int <= 126 ==> !white(c),
        white(' ') && white('\t') && white('\n') && white('\r'),
        c as int == 160 || c as int == 12288 ==> white(c),
        c as int <= 8 ==> !white(c),
{
}

/// Whether all characters are white space.
pub open spec fn all_white(s: Seq<char>) -> bool {
    forall|i: int| 0 <= i < s.len() ==> white(#[trigger] s[i])
}

proof fn lemma_start_white(s: Seq<char>)
    ensures
        all_white(s.take(s.len() - trim_start(s).len())),
    decreases s.len(),
{
    lemma_trim_start(s);
    if s.len() > 0 && white(s[0]) {
        lemma_start_white(s.skip(1));
        lemma_trim_start(s.skip(1));
        let head = s.take(s.len() - trim_start(s).len());
        let rest = s.skip(1).take(s.len() - 1 - trim_start(s).len());
        assert forall|i: int| 0 <= i < head.len() implies white(#[trigger] head[i]) by {
            if i > 0 {
                assert(head[i] == rest[i - 1]);
            }
        }
    }
}

proof fn lemma_end_white(s: Seq<char>)
    ensures
        all_white(s.skip(trim_end(s).len() as int)),
    decreases s.len(),
{
    lemma_trim_end(s);
    if s.len() > 0 && white(s.last()) {
        lemma_end_white(s.drop_last());
        lemma_trim_end(s.drop_last());
        let n = trim_end(s).len() as int;
        let tail = s.skip(n);
        assert forall|i: int| 0 <= i < tail.len() implies white(#[trigger] tail[i]) by {
            if i + n < s.len() - 1 {
                assert(tail[i] == s.drop_last().skip(n)[i]);
            }
        }
    }
}

/// Trimming takes white space from both ends and nothing else: what it leaves stands between white
/// space, and neither begins nor ends with any.
pub proof fn law_trimming_takes_only_white_space(s: Seq<char>)
    ensures
        ({
            let t = trimmed(s);
            let k = (s.len() - trim_start(s).len()) as int;
            &&& 0 <= k <= k + t.len() <= s.len()
            &&& s.subrange(k, k + t.len()) == t
            &&& all_white(s.take(k))
            &&& all_white(s.skip(k + t.len()))
            &&& t.len() > 0 ==> !white(t[0]) && !white(t.last())
            &&& t.len() == 0 <==> all_white(s)
        }),
{
    let a = trim_start(s);
    let t = trimmed(s);
    let k = (s.len() - a.len()) as int;
    lemma_trim_start(s);
    lemma_trim_end(a);
    lemma_start_white(s);
    lemma_end_white(a);
    assert(s.subrange(k, k + t.len()) =~= t);
    assert(s.skip(k + t.len()) =~= a.skip(t.len() as int));
    if t.len() > 0 {
        assert(t[0] == a[0]);
        assert(s[k] == t[0]);
    } else {
        assert forall|i: int| 0 <= i < s.len() implies white(#[trigger] s[i]) by {
            if i < k {
                assert(s.take(k)[i] == s[i]);
            } else {
                assert(s.skip(k)[i - k] == s[i]);
            }
        }
    }
}

// --- pieces ----------------------------------------------------------------------------------------

/// Whether a character does not occur.
pub open spec fn lacks(s: Seq<char>, c: char) -> bool {
    forall|i: int| 0 <= i < s.len() ==> #[trigger] s[i] != c
}

/// The first piece of a text ends at the first separator, and the pieces of what is behind it follow;
/// a text without a separator is its only piece.
pub proof fn law_pieces_end_at_separators(a: Seq<char>, b: Seq<char>, sep: char)
    requires
        lacks(a, sep),
    ensures
        split(a, sep) == seq![a],
        split(a + seq![sep] + b, sep) == seq![a] + split(b, sep),
    decreases a.len(), b.len(),
{
    if b.len() == 0 {
        if a.len() == 0 {
            assert(a =~= Seq::<char>::empty());
            assert(split(a, sep) =~= seq![a]);
        } else {
            assert(lacks(a.drop_last(), sep)) by {
                assert forall|i: int| 0 <= i < a.drop_last().len() implies #[trigger] a.drop_last()[i]
                    != sep by {
                    assert(a.drop_last()[i] == a[i]);
                }
            }
            law_pieces_end_at_separators(a.drop_last(), b, sep);
            assert(a.drop_last().push(a.last()) =~= a);
            assert(a[a.len() - 1] != sep);
            assert(split(a, sep) =~= seq![a]);
        }
        let s = a + seq![sep] + b;
        assert(s.drop_last() =~= a);
        assert(s.last() == sep);
        assert(split(b, sep) =~= seq![Seq::<char>::empty()]);
        assert(split(s, sep) =~= seq![a] + split(b, sep));
    } else {
        law_pieces_end_at_separators(a, b.drop_last(), sep);
        let s = a + seq![sep] + b;
        assert(s.drop_last() =~= a + seq![sep] + b.drop_last());
        assert(s.last() == b.last());
        lemma_split_len(b.drop_last(), sep);
        let before = seq![a] + split(b.drop_last(), sep);
        assert(before.last() == split(b.drop_last(), sep).last());
        assert(split(s, sep) =~= seq![a] + split(b, sep));
    }
}

/// The pieces of a text, put together with the separator between them, are the text again; none of
/// them holds the separator.
pub proof fn law_pieces_make_up_the_text(s: Seq<char>, sep: char)
    ensures
        joined(split(s, sep), seq![sep]) == s,
        forall|i: int| 0 <= i < split(s, sep).len() ==> lacks(#[trigger] split(s, sep)[i], sep),
    decreases s.len(),
{
    let all = split(s, sep);
    if s.len() == 0 {
        assert(joined(all, seq![sep]) =~= s);
    } else {
        let head = split(s.drop_last(), sep);
        law_pieces_make_up_the_text(s.drop_last(), sep);
        lemma_split_len(s.drop_last(), sep);
        if s.last() == sep {
            assert(all.drop_last() =~= head);
            assert(joined(all, seq![sep]) =~= s.drop_last() + seq![sep]);
            assert(joined(all, seq![sep]) =~= s);
            assert forall|i: int| 0 <= i < all.len() implies lacks(#[trigger] all[i], sep) by {
                if i < head.len() {
                    assert(all[i] == head[i]);
                }
            }
        } else {
            assert(all.drop_last() =~= head.drop_last());
            if head.len() == 1 {
                assert(joined(all, seq![sep]) =~= s);
            } else {
                assert(joined(all, seq![sep]) =~= joined(head, seq![sep]).push(s.last()));
                assert(joined(all, seq![sep]) =~= s);
            }
            assert forall|i: int| 0 <= i < all.len() implies lacks(#[trigger] all[i], sep) by {
                if i < head.len() - 1 {
                    assert(all[i] == head[i]);
                } else {
                    let p = head.last();
                    assert(lacks(head[head.len() - 1], sep));
                    assert forall|j: int| 0 <= j < all[i].len() implies #[trigger] all[i][j] != sep by {
                        if j < p.len() {
                            assert(all[i][j] == p[j]);
                        }
                    }
                }
            }
        }
    }
}

/// The first position of a character is the one before which it does not occur.
pub proof fn law_first_position(s: Seq<char>, c: char, k: int)
    requires
        0 <= k <= s.len(),
        lacks(s.take(k), c),
        k < s.len() ==> s[k] == c,
    ensures
        first_of(s, c) == k,
{
    lemma_first_of(s, c);
    let p = first_of(s, c);
    if p < k {
        assert(s.take(k)[p] == s[p]);
    }
}

/// Texts are joined one behind the other: nothing for none, a text itself for one, and a separator
/// between two.
pub proof fn law_joining_puts_separators_between(
    a: Seq<Seq<char>>,
    b: Seq<Seq<char>>,
    one: Seq<char>,
    sep: Seq<char>,
)
    ensures
        joined(Seq::<Seq<char>>::empty(), sep).len() == 0,
        joined(seq![one], sep) == one,
        a.len() > 0 && b.len() > 0 ==> joined(a + b, sep) == joined(a, sep) + sep + joined(b, sep),
    decreases b.len(),
{
    if a.len() > 0 && b.len() > 0 {
        if b.len() == 1 {
            assert((a + b).drop_last() =~= a);
            assert((a + b).last() == b[0]);
        } else {
            law_joining_puts_separators_between(a, b.drop_last(), one, sep);
            assert((a + b).drop_last() =~= a + b.drop_last());
            assert((a + b).last() == b.last());
            assert(joined(a + b, sep) =~= joined(a, sep) + sep + joined(b, sep));
        }
    }
}

/// A line that ends with a line feed, with or without a carriage return before it, is the first line,
/// and the lines of what is behind it follow; what is left without an end is a line too, unless it is
/// nothing.
pub proof fn law_lines_end_at_line_feeds(a: Seq<char>, b: Seq<char>)
    requires
        lacks(a, '\n'),
    ensures
        a.len() == 0 || a.last() != '\r' ==> lines(a + seq!['\n'] + b) == seq![a] + lines(b),
        lines(a + seq!['\r', '\n'] + b) == seq![a] + lines(b),
        a.len() > 0 ==> lines(a) == seq![a],
        a.len() == 0 ==> lines(a).len() == 0,
{
    law_pieces_end_at_separators(a, b, '\n');
    lemma_lines_follow(a, b);
    let r = a.push('\r');
    assert(lacks(r, '\n')) by {
        assert forall|i: int| 0 <= i < r.len() implies #[trigger] r[i] != '\n' by {
            if i < a.len() {
                assert(r[i] == a[i]);
            }
        }
    }
    lemma_lines_follow(r, b);
    assert(r + seq!['\n'] + b =~= a + seq!['\r', '\n'] + b);
    assert(r.drop_last() =~= a);
    assert(seq![a].drop_last().map_values(|l: Seq<char>| without_return(l)) =~= Seq::<
        Seq<char>,
    >::empty());
    if a.len() > 0 {
        assert(lines(a) =~= seq![a]);
    }
}

proof fn lemma_lines_follow(a: Seq<char>, b: Seq<char>)
    requires
        lacks(a, '\n'),
    ensures
        lines(a + seq!['\n'] + b) == seq![without_return(a)] + lines(b),
{
    law_pieces_end_at_separators(a, b, '\n');
    lemma_split_len(b, '\n');
    let x = split(a + seq!['\n'] + b, '\n');
    let y = split(b, '\n');
    assert(x.last() == y.last());
    let f = |l: Seq<char>| without_return(l);
    assert(x.drop_last() =~= seq![a] + y.drop_last());
    assert(x.drop_last().map_values(f) =~= seq![without_return(a)] + y.drop_last().map_values(f));
    assert(lines(a + seq!['\n'] + b) =~= seq![without_return(a)] + lines(b));
}

// --- words -----------------------------------------------------------------------------------------

/// A text without its white space.
pub open spec fn squeezed(s: Seq<char>) -> Seq<char> {
    s.filter(|c: char| !white(c))
}

proof fn lemma_scanned(s: Seq<char>)
    ensures
        ({
            let (done, cur) = word_scan(s);
            &&& joined(done, Seq::<char>::empty()) + cur == squeezed(s)
            &&& forall|i: int| 0 <= i < done.len() ==> (#[trigger] done[i]).len() > 0
            &&& forall|i: int, j: int|
                0 <= i < done.len() && 0 <= j < done[i].len() ==> !white(#[trigger] done[i][j])
            &&& forall|j: int| 0 <= j < cur.len() ==> !white(#[trigger] cur[j])
        }),
    decreases s.len(),
{
    reveal(Seq::filter);
    if s.len() == 0 {
        assert(joined(word_scan(s).0, Seq::<char>::empty()) + word_scan(s).1 =~= squeezed(s));
    } else {
        lemma_scanned(s.drop_last());
        let (done, cur) = word_scan(s.drop_last());
        let (d, c) = word_scan(s);
        if !white(s.last()) {
            assert(joined(d, Seq::<char>::empty()) + c =~= (joined(done, Seq::<char>::empty())
                + cur).push(s.last()));
        } else if cur.len() > 0 {
            law_joining_puts_separators_between(done, seq![cur], cur, Seq::<char>::empty());
            assert(done + seq![cur] =~= d);
            if done.len() == 0 {
                assert(d =~= seq![cur]);
                assert(joined(done, Seq::<char>::empty()) + cur =~= cur);
            }
            assert(joined(d, Seq::<char>::empty()) + c =~= joined(done, Seq::<char>::empty()) + cur);
        }
    }
}

/// The words of a text hold all its characters but the white space, in their order; none is empty, and
/// none holds white space.
pub proof fn law_words_hold_all_but_white_space(s: Seq<char>)
    ensures
        joined(words(s), Seq::<char>::empty()) == squeezed(s),
        forall|i: int| 0 <= i < words(s).len() ==> (#[trigger] words(s)[i]).len() > 0,
        forall|i: int, j: int|
            0 <= i < words(s).len() && 0 <= j < words(s)[i].len() ==> !white(
                #[trigger] words(s)[i][j],
            ),
{
    lemma_scanned(s);
    let (done, cur) = word_scan(s);
    if cur.len() == 0 {
        assert(joined(done, Seq::<char>::empty()) + cur =~= joined(done, Seq::<char>::empty()));
    } else {
        law_joining_puts_separators_between(done, seq![cur], cur, Seq::<char>::empty());
        assert(done + seq![cur] =~= words(s));
        if done.len() == 0 {
            assert(words(s) =~= seq![cur]);
            assert(joined(done, Seq::<char>::empty()) + cur =~= cur);
        }
        assert(joined(words(s), Seq::<char>::empty()) =~= joined(done, Seq::<char>::empty()) + cur);
    }
}

/// White space ends a word: the words before and behind it are those of the two texts.
pub proof fn law_white_space_parts_words(a: Seq<char>, c: char, b: Seq<char>)
    requires
        white(c),
    ensures
        words(a + seq![c] + b) == words(a) + words(b),
{
    lemma_scan_on(a, c, b);
    assert(words(a + seq![c] + b) =~= words(a) + words(b));
}

proof fn lemma_scan_on(a: Seq<char>, c: char, b: Seq<char>)
    requires
        white(c),
    ensures
        word_scan(a + seq![c] + b) == (words(a) + word_scan(b).0, word_scan(b).1),
    decreases b.len(),
{
    let s = a + seq![c] + b;
    if b.len() == 0 {
        assert(s.drop_last() =~= a);
        assert(s.last() == c);
        assert(word_scan(s).0 =~= words(a) + word_scan(b).0);
        assert(word_scan(s).1 =~= word_scan(b).1);
    } else {
        lemma_scan_on(a, c, b.drop_last());
        assert(s.drop_last() =~= a + seq![c] + b.drop_last());
        assert(s.last() == b.last());
        assert(word_scan(s).0 =~= words(a) + word_scan(b).0);
        assert(word_scan(s).1 =~= word_scan(b).1);
    }
}

// --- one character for another ---------------------------------------------------------------------

/// Replacing a character leaves a text without it as it is, and puts the other text in its place where
/// it occurs.
pub proof fn law_replacing_puts_in_place(a: Seq<char>, b: Seq<char>, c: char, with: Seq<char>)
    ensures
        lacks(a, c) ==> replaced(a, c, with) == a,
        replaced(a + seq![c] + b, c, with) == replaced(a, c, with) + with + replaced(b, c, with),
    decreases a.len(), b.len(),
{
    if a.len() > 0 {
        if lacks(a, c) {
            law_replacing_puts_in_place(a.drop_last(), b, c, with);
            assert(lacks(a.drop_last(), c)) by {
                assert forall|i: int| 0 <= i < a.drop_last().len() implies #[trigger] a.drop_last()[i]
                    != c by {
                    assert(a.drop_last()[i] == a[i]);
                }
            }
            assert(a[a.len() - 1] != c);
            assert(a.drop_last().push(a.last()) =~= a);
        }
    } else {
        assert(replaced(a, c, with) =~= a);
    }
    let s = a + seq![c] + b;
    if b.len() == 0 {
        assert(s.drop_last() =~= a);
        assert(replaced(s, c, with) =~= replaced(a, c, with) + with + replaced(b, c, with));
    } else {
        law_replacing_puts_in_place(a, b.drop_last(), c, with);
        assert(s.drop_last() =~= a + seq![c] + b.drop_last());
        assert(s.last() == b.last());
        assert(replaced(s, c, with) =~= replaced(a, c, with) + with + replaced(b, c, with));
    }
}

/// A text that is filled up begins with the text and goes on with blanks, up to its width; one that is
/// as wide stays as it is.
pub proof fn law_filled_up_with_blanks(s: Seq<char>, width: nat)
    ensures
        s.len() >= width ==> padded(s, width) == s,
        s.len() < width ==> padded(s, width).len() == width,
        padded(s, width).take(s.len() as int) == s,
        forall|i: int| s.len() <= i < padded(s, width).len() ==> padded(s, width)[i] == ' ',
    decreases width - s.len(),
{
    if s.len() < width {
        let t = s.push(' ');
        law_filled_up_with_blanks(t, width);
        let p = padded(s, width);
        assert(p.take(t.len() as int)[s.len() as int] == ' ');
        assert(p.take(s.len() as int) =~= p.take(t.len() as int).take(s.len() as int));
        assert(t.take(s.len() as int) =~= s);
    } else {
        assert(padded(s, width).take(s.len() as int) =~= s);
    }
}

/// A text that is cut off is its beginning, no longer than asked for, and whole where it fits.
pub proof fn law_cut_off_is_the_beginning(s: Seq<char>, n: nat)
    ensures
        at_most(s, n).len() <= n,
        s.len() > n ==> at_most(s, n).len() == n,
        s.len() <= n ==> at_most(s, n) == s,
        at_most(s, n) == s.take(at_most(s, n).len() as int),
{
    assert(at_most(s, n) =~= s.take(at_most(s, n).len() as int));
}

// --- order and case --------------------------------------------------------------------------------

/// The first characters in which two texts differ decide their order; where there are none, the shorter
/// comes first.
pub proof fn law_first_difference_decides(a: Seq<char>, b: Seq<char>, i: int)
    requires
        0 <= i <= a.len(),
        i <= b.len(),
        a.take(i) == b.take(i),
    ensures
        i < a.len() && i < b.len() && (a[i] as int) < (b[i] as int) ==> before(a, b) && !before(b, a),
        i == a.len() && i < b.len() ==> before(a, b) && !before(b, a),
        i == a.len() && i == b.len() ==> !before(a, b) && a == b,
    decreases i,
{
    if i > 0 {
        assert(a[0] == a.take(i)[0] && b[0] == b.take(i)[0]);
        assert(a.skip(1).take(i - 1) =~= a.take(i).skip(1));
        assert(b.skip(1).take(i - 1) =~= b.take(i).skip(1));
        law_first_difference_decides(a.skip(1), b.skip(1), i - 1);
    }
    if i == a.len() && i == b.len() {
        assert(a.take(i) =~= a);
        assert(b.take(i) =~= b);
        lemma_before_irreflexive(a);
    }
}

/// A text whose first letter is a small one of ASCII begins with the large one when it is capitalized;
/// the rest of it stays, and so does all of it where it begins with another character of ASCII.
pub proof fn law_first_letter_is_capitalized(s: Seq<char>)
    requires
        s.len() > 0,
        s[0] as u32 <= 127,
    ensures
        capitalized(s).len() == s.len(),
        capitalized(s).skip(1) == s.skip(1),
        97 <= s[0] as u32 <= 122 ==> capitalized(s)[0] as u32 == s[0] as u32 - 32,
        !(97 <= s[0] as u32 <= 122) ==> capitalized(s) == s,
{
    let c = s[0];
    lemma_char_cases(c);
    assert(capitalized(s).skip(1) =~= s.skip(1));
    if !(97 <= s[0] as u32 <= 122) {
        assert(capitalized(s) =~= s);
    }
}

/// The letters of a text of ASCII become small and all else stays, character by character.
pub proof fn law_letters_become_small(s: Seq<char>, i: int)
    requires
        is_ascii_chars(s),
        0 <= i < s.len(),
    ensures
        lowered(s).len() == s.len(),
        65 <= s[i] as u32 <= 90 ==> lowered(s)[i] as u32 == s[i] as u32 + 32,
        !(65 <= s[i] as u32 <= 90) ==> lowered(s)[i] == s[i],
{
    lemma_large_letters(s[i]);
}

proof fn lemma_large_letters(c: char)
    ensures
        'A' <= c <= 'Z' <==> 65 <= c as u32 <= 90,
        'A' <= c <= 'Z' ==> (c as u32 + 32) as char as u32 == c as u32 + 32,
{
}

proof fn lemma_char_cases(c: char)
    ensures
        c as u32 == c as int,
        'a' <= c <= 'z' <==> 97 <= c as u32 <= 122,
        'a' <= c <= 'z' ==> (c as u32 - 32) as char as u32 == c as u32 - 32,
{
}

} // verus!
