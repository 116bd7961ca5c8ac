//! The query of a request: finding a parameter and decoding it.

use vstd::prelude::*;
use vstd::utf8::{
    decode_utf8, encode_utf8, encode_utf8_decode_utf8, encode_utf8_valid_utf8,
    is_ascii_chars_encode_utf8, is_continuation_byte, valid_utf8,
};

use crate::text::{first_of, lemma_first_of, opt, same, split, split_on, split_once, views};

verus! {

// --- parameters -------------------------------------------------------------------------------

/// The value of the first of the pieces that gives the key one.
pub open spec fn param_in(pieces: Seq<Seq<char>>, key: Seq<char>) -> Option<Seq<char>>
    decreases pieces.len(),
{
    if pieces.len() == 0 {
        None
    } else {
        let k = first_of(pieces[0], '=');
        if k < pieces[0].len() && pieces[0].take(k) == key {
            Some(pieces[0].skip(k + 1))
        } else {
            param_in(pieces.skip(1), key)
        }
    }
}

/// The value of a parameter of a query.
pub open spec fn param(query: Seq<char>, key: Seq<char>) -> Option<Seq<char>> {
    param_in(split(query, '&'), key)
}

/// The value of a parameter of a query, as it stands there.
pub fn query_param(query: &str, key: &str) -> (r: Option<String>)
    ensures
        opt(r) == param(query@, key@),
{
    let pieces = split_on(query, '&');
    let ghost all = views(pieces@);
    let mut i: usize = 0;
    assert(all.skip(0) =~= all);
    while i < pieces.len()
        invariant
            i <= pieces@.len(),
            all == views(pieces@),
            all == split(query@, '&'),
            param_in(all, key@) == param_in(all.skip(i as int), key@),
        decreases pieces@.len() - i,
    {
        assert(all.skip(i as int)[0] == pieces@[i as int]@);
        assert(all.skip(i as int).skip(1) =~= all.skip(i + 1));
        if let Some(p) = split_once(pieces[i].as_str(), '=') {
            if same(p.0.as_str(), key) {
                return Some(p.1);
            }
        }
        i = i + 1;
    }
    None
}

// --- percent signs ------------------------------------------------------------------------------

/// The value of a hexadecimal digit.
pub open spec fn hex_digit(b: u8) -> Option<int> {
    if 48 <= b <= 57 {
        Some(b - 48)
    } else if 97 <= b <= 102 {
        Some(b - 87)
    } else if 65 <= b <= 70 {
        Some(b - 55)
    } else {
        None
    }
}

fn read_hex(b: u8) -> (r: Option<u8>)
    ensures
        match r {
            Some(v) => hex_digit(b) == Some(v as int) && v < 16,
            None => hex_digit(b) is None,
        },
{
    if 48 <= b && b <= 57 {
        Some(b - 48)
    } else if 97 <= b && b <= 102 {
        Some(b - 87)
    } else if 65 <= b && b <= 70 {
        Some(b - 55)
    } else {
        None
    }
}

/// The byte that two characters stand for: two hexadecimal digits, or a plus sign and one.
pub open spec fn hex_pair(a: u8, b: u8) -> Option<u8> {
    match hex_digit(b) {
        None => None,
        Some(lo) => if a == 43 {
            Some(lo as u8)
        } else {
            match hex_digit(a) {
                None => None,
                Some(hi) => Some((hi * 16 + lo) as u8),
            }
        },
    }
}

fn read_pair(a: u8, b: u8) -> (r: Option<u8>)
    ensures
        r == hex_pair(a, b),
{
    match read_hex(b) {
        None => None,
        Some(lo) => if a == 43 {
            Some(lo)
        } else {
            match read_hex(a) {
                None => None,
                Some(hi) => Some(hi * 16 + lo),
            }
        },
    }
}

/// Whether a percent sign with two bytes behind it begins the bytes.
pub open spec fn at_percent(b: Seq<u8>) -> bool {
    b.len() > 2 && b[0] == 37
}

/// The bytes with percent signs and pairs replaced by what they stand for, and plus signs by
/// blanks.
pub open spec fn unpercent(b: Seq<u8>) -> Seq<u8>
    decreases b.len(),
{
    if b.len() == 0 {
        b
    } else if at_percent(b) && hex_pair(b[1], b[2]) is Some {
        seq![hex_pair(b[1], b[2])->0] + unpercent(b.skip(3))
    } else {
        seq![if b[0] == 43 { 32u8 } else { b[0] }] + unpercent(b.skip(1))
    }
}

/// Whether no character is cut in two behind a percent sign: of the two bytes that follow it,
/// the second is the last of its character.
pub open spec fn decodable(b: Seq<u8>) -> bool
    decreases b.len(),
{
    if b.len() == 0 {
        true
    } else if at_percent(b) {
        &&& b.len() > 3 ==> !is_continuation_byte(b[3])
        &&& if hex_pair(b[1], b[2]) is Some {
            decodable(b.skip(3))
        } else {
            decodable(b.skip(1))
        }
    } else {
        decodable(b.skip(1))
    }
}

/// Whether a text can be decoded.
pub fn is_decodable(s: &str) -> (r: bool)
    ensures
        r == decodable(encode_utf8(s@)),
{
    let b = s.as_bytes();
    let ghost all = b@;
    let mut i: usize = 0;
    assert(all.skip(0) =~= all);
    while i < b.len()
        invariant
            i <= b@.len(),
            all == b@,
            all == encode_utf8(s@),
            decodable(all) == decodable(all.skip(i as int)),
        decreases b@.len() - i,
    {
        let ghost rest = all.skip(i as int);
        assert(rest.skip(1) =~= all.skip(i + 1));
        if b[i] == 37 && b.len() - i > 2 {
            assert(rest.skip(3) =~= all.skip(i + 3));
            if b.len() - i > 3 {
                let c = b[i + 3];
                assert(rest[3] == c);
                if 0x80 <= c && c <= 0xbf {
                    return false;
                }
            }
            match read_pair(b[i + 1], b[i + 2]) {
                Some(_) => {
                    i = i + 3;
                },
                None => {
                    i = i + 1;
                },
            }
        } else {
            i = i + 1;
        }
    }
    true
}

/// The text of bytes, with what is no text replaced.
pub uninterp spec fn lossy(b: Seq<u8>) -> Seq<char>;

/// Calls `String::from_utf8_lossy`: bytes that encode a text become that text. What stands for
/// other bytes depends on nothing but them, and is not stated.
#[verifier::external_body]
fn text_of_bytes(b: &Vec<u8>) -> (r: String)
    ensures
        r@ == lossy(b@),
        valid_utf8(b@) ==> r@ == decode_utf8(b@),
{
    String::from_utf8_lossy(b).into_owned()
}

/// The text of bytes.
pub open spec fn readable(b: Seq<u8>) -> Seq<char> {
    if valid_utf8(b) {
        decode_utf8(b)
    } else {
        lossy(b)
    }
}

/// The text with percent signs and pairs replaced by the bytes that they stand for.
pub open spec fn percent_decoded(s: Seq<char>) -> Seq<char> {
    readable(unpercent(encode_utf8(s)))
}

/// Replaces percent signs and pairs by the bytes that they stand for, and plus signs by blanks.
pub fn percent_decode(s: &str) -> (r: String)
    requires
        decodable(encode_utf8(s@)),
    ensures
        r@ == percent_decoded(s@),
{
    let b = s.as_bytes();
    let ghost all = b@;
    let mut out: Vec<u8> = Vec::new();
    let mut i: usize = 0;
    assert(all.skip(0) =~= all);
    assert(out@ + unpercent(all) =~= unpercent(all));
    while i < b.len()
        invariant
            i <= b@.len(),
            all == b@,
            all == encode_utf8(s@),
            out@ + unpercent(all.skip(i as int)) == unpercent(all),
        decreases b@.len() - i,
    {
        let ghost rest = all.skip(i as int);
        let ghost prev = out@;
        assert(rest.skip(1) =~= all.skip(i + 1));
        if b[i] == 37 && b.len() - i > 2 {
            assert(rest.skip(3) =~= all.skip(i + 3));
            if let Some(v) = read_pair(b[i + 1], b[i + 2]) {
                out.push(v);
                i = i + 3;
                assert(out@ + unpercent(all.skip(i as int)) =~= prev + unpercent(rest));
                continue ;
            }
        }
        let v: u8 = if b[i] == 43 {
            32
        } else {
            b[i]
        };
        out.push(v);
        i = i + 1;
        assert(out@ + unpercent(all.skip(i as int)) =~= prev + unpercent(rest));
    }
    assert(unpercent(all.skip(i as int)) =~= Seq::<u8>::empty());
    assert(out@ =~= unpercent(all));
    text_of_bytes(&out)
}

// --- what a browser sends -----------------------------------------------------------------------

/// Whether a browser sends a byte as it is: a letter or digit, or one of `-_.!~*'()`.
pub open spec fn sent_bare(b: u8) -> bool {
    ||| 48 <= b <= 57
    ||| 65 <= b <= 90
    ||| 97 <= b <= 122
    ||| b == 45
    ||| b == 95
    ||| b == 46
    ||| b == 33
    ||| b == 126
    ||| b == 42
    ||| b == 39
    ||| b == 40
    ||| b == 41
}

/// The digit of a value, in upper case.
pub open spec fn hex_char(v: int) -> char {
    if v < 10 {
        (48 + v) as char
    } else {
        (55 + v) as char
    }
}

/// A byte as a browser sends it in a parameter.
pub open spec fn sent_byte(b: u8) -> Seq<char> {
    if sent_bare(b) {
        seq![b as char]
    } else {
        seq!['%', hex_char(b as int / 16), hex_char(b as int % 16)]
    }
}

/// Bytes as a browser sends them in a parameter.
pub open spec fn sent_bytes(b: Seq<u8>) -> Seq<char>
    decreases b.len(),
{
    if b.len() == 0 {
        Seq::<char>::empty()
    } else {
        sent_byte(b[0]) + sent_bytes(b.skip(1))
    }
}

/// A text as a browser sends it in a parameter.
pub open spec fn sent(s: Seq<char>) -> Seq<char> {
    sent_bytes(encode_utf8(s))
}

/// Whether a character can stand in what a browser sends in a parameter.
spec fn plain(c: char) -> bool {
    0 <= c as int <= 127 && c != '&'
}

proof fn lemma_sent_plain(b: Seq<u8>)
    ensures
        forall|i: int| 0 <= i < sent_bytes(b).len() ==> #[trigger] plain(sent_bytes(b)[i]),
    decreases b.len(),
{
    if b.len() > 0 {
        lemma_sent_plain(b.skip(1));
        let head = sent_byte(b[0]);
        assert forall|i: int| 0 <= i < head.len() implies #[trigger] plain(head[i]) by {}
        assert forall|i: int| 0 <= i < sent_bytes(b).len() implies #[trigger] plain(
            sent_bytes(b)[i],
        ) by {
            if i < head.len() {
                assert(plain(head[i]));
            } else {
                assert(plain(sent_bytes(b.skip(1))[i - head.len()]));
            }
        }
    }
}

/// The bytes of what a browser sends.
spec fn sent_raw(b: Seq<u8>) -> Seq<u8> {
    sent_bytes(b).map_values(|c: char| c as u8)
}

proof fn lemma_sent_raw(b: Seq<u8>)
    ensures
        encode_utf8(sent_bytes(b)) == sent_raw(b),
{
    lemma_sent_plain(b);
    let s = sent_bytes(b);
    assert forall|i: int| 0 <= i < s.len() implies '\0' <= #[trigger] s[i] <= '\u{7f}' by {
        assert(plain(s[i]));
    }
    is_ascii_chars_encode_utf8(s);
    assert(encode_utf8(s) =~= sent_raw(b));
}

proof fn lemma_decode_sent(b: Seq<u8>)
    ensures
        unpercent(sent_raw(b)) == b,
        decodable(sent_raw(b)),
        b.len() > 0 ==> sent_raw(b).len() > 0 && sent_raw(b)[0] <= 127,
    decreases b.len(),
{
    if b.len() == 0 {
        assert(sent_raw(b) =~= b);
    } else {
        let rest = b.skip(1);
        lemma_decode_sent(rest);
        let all = sent_raw(b);
        if sent_bare(b[0]) {
            assert(all =~= seq![b[0]] + sent_raw(rest));
            assert(all.skip(1) =~= sent_raw(rest));
        } else {
            let hi = hex_char(b[0] as int / 16) as u8;
            let lo = hex_char(b[0] as int % 16) as u8;
            assert(all =~= seq![37u8, hi, lo] + sent_raw(rest));
            assert(all.skip(3) =~= sent_raw(rest));
            assert(hex_pair(hi, lo) == Some(b[0]));
        }
        assert(unpercent(all) =~= b);
    }
}

proof fn lemma_split_whole(s: Seq<char>, sep: char)
    requires
        forall|i: int| 0 <= i < s.len() ==> s[i] != sep,
    ensures
        split(s, sep) == seq![s],
    decreases s.len(),
{
    if s.len() == 0 {
        assert(s =~= Seq::<char>::empty());
    } else {
        lemma_split_whole(s.drop_last(), sep);
        assert(s.drop_last().push(s.last()) =~= s);
        assert(split(s, sep) =~= seq![s]);
    }
}

/// Whatever text a browser sends as the path of a download is the path that is read: it is found
/// in the query, it can be decoded, and decoding it gives the text back.
pub proof fn law_sent_path_is_read_back(s: Seq<char>)
    ensures
        param("path="@ + sent(s), "path"@) == Some(sent(s)),
        decodable(encode_utf8(sent(s))),
        percent_decoded(sent(s)) == s,
{
    let b = encode_utf8(s);
    lemma_sent_raw(b);
    lemma_decode_sent(b);
    encode_utf8_valid_utf8(s);
    encode_utf8_decode_utf8(s);
    reveal_strlit("path=");
    reveal_strlit("path");
    let q = "path="@ + sent(s);
    lemma_sent_plain(b);
    assert forall|i: int| 0 <= i < q.len() implies q[i] != '&' by {
        if i >= 5 {
            assert(plain(sent(s)[i - 5]));
        }
    }
    lemma_split_whole(q, '&');
    lemma_first_of(q, '=');
    assert(q[4] == '=');
    assert(first_of(q, '=') == 4);
    assert(q.take(4) =~= "path"@);
    assert(q.skip(5) =~= sent(s));
}

} // verus!
