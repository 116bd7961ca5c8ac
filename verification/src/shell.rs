//! Writing a command line so that a shell reads the same arguments again.

use vstd::prelude::*;

use crate::text::{chars_of, code, group_views, join, joined, replace, replaced, views};

verus! {

/// Whether a character needs no quotes: a letter or digit of ASCII, or one of `-_./=~`.
pub open spec fn plain(c: char) -> bool {
    ||| 'a' <= c <= 'z'
    ||| 'A' <= c <= 'Z'
    ||| '0' <= c <= '9'
    ||| c == '-'
    ||| c == '_'
    ||| c == '.'
    ||| c == '/'
    ||| c == '='
    ||| c == '~'
}

fn is_plain(c: char) -> (r: bool)
    ensures
        r == plain(c),
{
    let u = code(c);
    (97 <= u && u <= 122) || (65 <= u && u <= 90) || (48 <= u && u <= 57) || c == '-' || c == '_'
        || c == '.' || c == '/' || c == '=' || c == '~'
}

/// Whether an argument can stand as it is.
pub open spec fn all_plain(a: Seq<char>) -> bool {
    forall|i: int| 0 <= i < a.len() ==> plain(#[trigger] a[i])
}

/// The argument as it is written: as it is, or in single quotes, with each single quote in it
/// put outside of them.
pub open spec fn quoted(a: Seq<char>) -> Seq<char> {
    if all_plain(a) {
        a
    } else {
        "'"@ + replaced(a, '\'', "'\\''"@) + "'"@
    }
}

fn quote(a: &str) -> (r: String)
    ensures
        r@ == quoted(a@),
{
    let v = chars_of(a);
    let mut i: usize = 0;
    while i < v.len()
        invariant
            v@ == a@,
            i <= v@.len(),
            forall|j: int| 0 <= j < i ==> plain(#[trigger] a@[j]),
        decreases v@.len() - i,
    {
        if !is_plain(v[i]) {
            assert(!plain(a@[i as int]));
            let mut s = "'".to_string();
            s.append(replace(a, '\'', "'\\''").as_str());
            s.append("'");
            return s;
        }
        i = i + 1;
    }
    a.to_string()
}

/// The command line: the arguments as they are written, with blanks between them.
pub open spec fn command_line(argv: Seq<Seq<char>>) -> Seq<char> {
    joined(argv.map_values(|a: Seq<char>| quoted(a)), " "@)
}

/// Writes a command line.
pub fn shell_join(argv: &Vec<String>) -> (r: String)
    ensures
        r@ == command_line(views(argv@)),
{
    broadcast use group_views;

    let ghost all = views(argv@).map_values(|a: Seq<char>| quoted(a));
    let mut parts: Vec<String> = Vec::new();
    let mut i: usize = 0;
    assert(all.take(0) =~= Seq::<Seq<char>>::empty());
    while i < argv.len()
        invariant
            i <= argv@.len(),
            all == views(argv@).map_values(|a: Seq<char>| quoted(a)),
            views(parts@) == all.take(i as int),
        decreases argv@.len() - i,
    {
        let s = quote(argv[i].as_str());
        parts.push(s);
        i = i + 1;
        assert(all.take(i as int) =~= all.take(i - 1).push(s@));
    }
    assert(all.take(i as int) =~= all);
    join(&parts, " ")
}

// --- how a shell reads --------------------------------------------------------------------

/// Where a shell is in reading a line.
pub enum Mode {
    Bare,
    Quoted,
    Escaped,
}

/// What a shell has read: the finished words, the word at hand if there is one, and the mode.
pub struct Reader {
    pub words: Seq<Seq<char>>,
    pub word: Option<Seq<char>>,
    pub mode: Mode,
}

/// The word at hand with one more character.
pub open spec fn grown(word: Option<Seq<char>>, c: char) -> Option<Seq<char>> {
    match word {
        Some(w) => Some(w.push(c)),
        None => Some(seq![c]),
    }
}

/// The word at hand, begun if there was none.
pub open spec fn begun(word: Option<Seq<char>>) -> Option<Seq<char>> {
    match word {
        Some(w) => Some(w),
        None => Some(Seq::<char>::empty()),
    }
}

/// Reading one character: a blank ends a word, single quotes keep all but themselves, and a
/// backslash keeps the character behind it.
pub open spec fn read_char(r: Reader, c: char) -> Reader {
    match r.mode {
        Mode::Bare => if c == ' ' {
            match r.word {
                Some(w) => Reader { words: r.words.push(w), word: None, mode: Mode::Bare },
                None => r,
            }
        } else if c == '\'' {
            Reader { word: begun(r.word), mode: Mode::Quoted, ..r }
        } else if c == '\\' {
            Reader { word: begun(r.word), mode: Mode::Escaped, ..r }
        } else {
            Reader { word: grown(r.word, c), ..r }
        },
        Mode::Quoted => if c == '\'' {
            Reader { mode: Mode::Bare, ..r }
        } else {
            Reader { word: grown(r.word, c), ..r }
        },
        Mode::Escaped => Reader { word: grown(r.word, c), mode: Mode::Bare, ..r },
    }
}

/// Reading a text.
pub open spec fn read_text(r: Reader, s: Seq<char>) -> Reader
    decreases s.len(),
{
    if s.len() == 0 {
        r
    } else {
        read_char(read_text(r, s.drop_last()), s.last())
    }
}

/// The words that a shell makes of a line.
pub open spec fn shell_words(line: Seq<char>) -> Seq<Seq<char>> {
    let r = read_text(
        Reader { words: Seq::<Seq<char>>::empty(), word: None, mode: Mode::Bare },
        line,
    );
    match r.word {
        Some(w) => r.words.push(w),
        None => r.words,
    }
}

proof fn lemma_read_concat(r: Reader, s: Seq<char>, t: Seq<char>)
    ensures
        read_text(r, s + t) == read_text(read_text(r, s), t),
    decreases t.len(),
{
    if t.len() == 0 {
        assert(s + t =~= s);
    } else {
        lemma_read_concat(r, s, t.drop_last());
        assert((s + t).drop_last() =~= s + t.drop_last());
    }
}

proof fn lemma_read_one(r: Reader, c: char)
    ensures
        read_text(r, seq![c]) == read_char(r, c),
{
    assert(seq![c].drop_last() =~= Seq::<char>::empty());
    assert(read_text(r, seq![c].drop_last()) == r);
}

proof fn lemma_read_plain(words: Seq<Seq<char>>, a: Seq<char>)
    requires
        all_plain(a),
        a.len() > 0,
    ensures
        read_text(Reader { words, word: None, mode: Mode::Bare }, a) == (Reader {
            words,
            word: Some(a),
            mode: Mode::Bare,
        }),
    decreases a.len(),
{
    let start = Reader { words, word: None, mode: Mode::Bare };
    assert(plain(a.last()));
    if a.len() == 1 {
        assert(a.drop_last() =~= Seq::<char>::empty());
        assert(read_text(start, a.drop_last()) == start);
        assert(seq![a.last()] =~= a);
    } else {
        lemma_read_plain(words, a.drop_last());
        assert(a.drop_last().push(a.last()) =~= a);
    }
}

proof fn lemma_read_escape(words: Seq<Seq<char>>, w: Seq<char>)
    ensures
        read_text(Reader { words, word: Some(w), mode: Mode::Quoted }, "'\\''"@) == (Reader {
            words,
            word: Some(w.push('\'')),
            mode: Mode::Quoted,
        }),
{
    reveal_strlit("'\\''");
    let s = "'\\''"@;
    let r = Reader { words, word: Some(w), mode: Mode::Quoted };
    assert(s =~= seq!['\'', '\\', '\'', '\'']);
    let s3 = s.drop_last();
    let s2 = s3.drop_last();
    let s1 = s2.drop_last();
    assert(s1.drop_last().len() == 0);
    assert(read_text(r, s1.drop_last()) == r);
    let r1 = read_text(r, s1);
    assert(r1.mode == Mode::Bare);
    let r2 = read_text(r, s2);
    assert(r2.mode == Mode::Escaped);
    let r3 = read_text(r, s3);
    assert(r3.word == Some(w.push('\'')));
}

proof fn lemma_read_replaced(words: Seq<Seq<char>>, a: Seq<char>)
    ensures
        read_text(
            Reader { words, word: Some(Seq::<char>::empty()), mode: Mode::Quoted },
            replaced(a, '\'', "'\\''"@),
        ) == (Reader { words, word: Some(a), mode: Mode::Quoted }),
    decreases a.len(),
{
    let start = Reader { words, word: Some(Seq::<char>::empty()), mode: Mode::Quoted };
    if a.len() == 0 {
        assert(a =~= Seq::<char>::empty());
    } else {
        let b = a.drop_last();
        lemma_read_replaced(words, b);
        assert(b.push(a.last()) =~= a);
        if a.last() == '\'' {
            lemma_read_concat(start, replaced(b, '\'', "'\\''"@), "'\\''"@);
            lemma_read_escape(words, b);
        } else {
            let t = replaced(b, '\'', "'\\''"@);
            assert(t.push(a.last()).drop_last() =~= t);
        }
    }
}

proof fn lemma_read_quoted(words: Seq<Seq<char>>, a: Seq<char>)
    requires
        a.len() > 0,
    ensures
        read_text(Reader { words, word: None, mode: Mode::Bare }, quoted(a)) == (Reader {
            words,
            word: Some(a),
            mode: Mode::Bare,
        }),
{
    let start = Reader { words, word: None, mode: Mode::Bare };
    if all_plain(a) {
        lemma_read_plain(words, a);
    } else {
        reveal_strlit("'");
        assert("'"@ =~= seq!['\'']);
        let t = replaced(a, '\'', "'\\''"@);
        let inside = Reader { words, word: Some(Seq::<char>::empty()), mode: Mode::Quoted };
        lemma_read_concat(start, "'"@ + t, "'"@);
        lemma_read_concat(start, "'"@, t);
        lemma_read_one(start, '\'');
        assert(read_text(start, "'"@) == inside);
        lemma_read_replaced(words, a);
        lemma_read_one(Reader { words, word: Some(a), mode: Mode::Quoted }, '\'');
    }
}

/// A shell, by its rules for blanks, quotes and backslashes, reads a command line as the
/// arguments that it was written from. An empty argument is left out: it is written as nothing.
pub proof fn law_shell_reads_arguments_back(argv: Seq<Seq<char>>)
    requires
        forall|i: int| 0 <= i < argv.len() ==> (#[trigger] argv[i]).len() > 0,
    ensures
        shell_words(command_line(argv)) == argv,
{
    if argv.len() == 0 {
        let none = argv.map_values(|a: Seq<char>| quoted(a));
        assert(none.len() == 0);
        assert(shell_words(command_line(argv)) =~= argv);
    } else {
        lemma_read_line(argv);
        assert(argv.drop_last().push(argv.last()) =~= argv);
    }
}

proof fn lemma_read_line(argv: Seq<Seq<char>>)
    requires
        argv.len() > 0,
        forall|i: int| 0 <= i < argv.len() ==> (#[trigger] argv[i]).len() > 0,
    ensures
        read_text(
            Reader { words: Seq::<Seq<char>>::empty(), word: None, mode: Mode::Bare },
            command_line(argv),
        ) == (Reader { words: argv.drop_last(), word: Some(argv.last()), mode: Mode::Bare }),
    decreases argv.len(),
{
    let start = Reader { words: Seq::<Seq<char>>::empty(), word: None, mode: Mode::Bare };
    let parts = argv.map_values(|a: Seq<char>| quoted(a));
    assert(argv[argv.len() - 1].len() > 0);
    if argv.len() == 1 {
        assert(parts[0] == quoted(argv[0]));
        lemma_read_quoted(Seq::<Seq<char>>::empty(), argv[0]);
        assert(argv.drop_last() =~= Seq::<Seq<char>>::empty());
    } else {
        let front = argv.drop_last();
        assert forall|i: int| 0 <= i < front.len() implies (#[trigger] front[i]).len() > 0 by {
            assert(argv[i].len() > 0);
        }
        lemma_read_line(front);
        assert(parts.drop_last() =~= front.map_values(|a: Seq<char>| quoted(a)));
        assert(parts.last() == quoted(argv.last()));
        reveal_strlit(" ");
        assert(" "@ =~= seq![' ']);
        let head = command_line(front);
        lemma_read_concat(start, head + " "@, quoted(argv.last()));
        lemma_read_concat(start, head, " "@);
        let mid = Reader { words: front.drop_last(), word: Some(front.last()), mode: Mode::Bare };
        lemma_read_one(mid, ' ');
        assert(front.drop_last().push(front.last()) =~= front);
        lemma_read_quoted(front, argv.last());
    }
}

/// An argument of letters, digits and `-_./=~` is written as it is; one with any other character, and no
/// other one, stands in single quotes.
pub proof fn law_plain_arguments_stand_bare(a: Seq<char>, i: int)
    ensures
        (forall|j: int|
            0 <= j < a.len() ==> {
                let u = (#[trigger] a[j]) as int;
                97 <= u <= 122 || 65 <= u <= 90 || 45 <= u <= 57 || u == 95 || u == 61 || u == 126
            }) ==> quoted(a) == a,
        0 <= i < a.len() && (a[i] == ' ' || a[i] == '\'' || a[i] == '"' || a[i] == '$' || a[i] == '*' || a[i]
            == ';' || a[i] == '&' || a[i] == '\\' || a[i] == '\n') ==> quoted(a).len() > a.len() + 1
            && quoted(a)[0] == '\'' && quoted(a).last() == '\'',
{
    reveal_strlit("'");
    reveal_strlit("'\\''");
    lemma_replaced_is_no_shorter(a);
    if 0 <= i < a.len() && (a[i] == ' ' || a[i] == '\'' || a[i] == '"' || a[i] == '$' || a[i] == '*' || a[i]
        == ';' || a[i] == '&' || a[i] == '\\' || a[i] == '\n') {
        assert(!plain(a[i]));
    }
}

proof fn lemma_replaced_is_no_shorter(a: Seq<char>)
    ensures
        replaced(a, '\'', "'\\''"@).len() >= a.len(),
    decreases a.len(),
{
    reveal_strlit("'\\''");
    if a.len() > 0 {
        lemma_replaced_is_no_shorter(a.drop_last());
    }
}

} // verus!
