//! Which origins may call the HTTP endpoints across sites.

use vstd::prelude::*;
use vstd::string::*;
use crate::text::push_char;

verus! {

/// The origins to allow: any, or those listed.
#[derive(Debug, Clone, PartialEq, Eq)]
pub enum CorsOrigins {
    Any,
    List(Vec<String>),
}

/// The pieces of `s` between commas, in order; `s` without a comma is one piece.
pub open spec fn split_commas(s: Seq<char>) -> Seq<Seq<char>>
    decreases s.len(),
{
    if s.len() == 0 {
        seq![Seq::empty()]
    } else {
        let p = split_commas(s.drop_last());
        if s.last() == ',' {
            p.push(Seq::empty())
        } else {
            p.update(p.len() - 1, p.last().push(s.last()))
        }
    }
}

/// A character with the Unicode White_Space property: tab to carriage return,
/// space, U+0085, U+00A0, U+1680, U+2000 to U+200A, the line and paragraph
/// separators, U+202F, U+205F and U+3000.
pub open spec fn is_white_space(c: char) -> bool {
    let u = c as u32;
    ||| 9 <= u <= 13
    ||| u == 32
    ||| u == 0x85
    ||| u == 0xA0
    ||| u == 0x1680
    ||| 0x2000 <= u <= 0x200A
    ||| u == 0x2028
    ||| u == 0x2029
    ||| u == 0x202F
    ||| u == 0x205F
    ||| u == 0x3000
}

/// `s` without its leading white space.
pub open spec fn trim_start(s: Seq<char>) -> Seq<char>
    decreases s.len(),
{
    if s.len() > 0 && is_white_space(s[0]) {
        trim_start(s.drop_first())
    } else {
        s
    }
}

/// `s` without its trailing white space.
pub open spec fn trim_end(s: Seq<char>) -> Seq<char>
    decreases s.len(),
{
    if s.len() > 0 && is_white_space(s.last()) {
        trim_end(s.drop_last())
    } else {
        s
    }
}

/// `s` with leading and trailing white space removed.
pub open spec fn trimmed(s: Seq<char>) -> Seq<char> {
    trim_end(trim_start(s))
}

/// Removes leading and trailing white space.
/// Trusted: `str::trim` (std), which strips the characters with the Unicode
/// White_Space property (`char::is_whitespace`) from both ends.
#[verifier::external_body]
fn trim_text(s: &str) -> (r: &str)
    ensures
        r@ == trimmed(s@),
{
    s.trim()
}

/// A character an HTTP header value may hold: tab, or any character from
/// space on except DEL.
pub open spec fn header_char_ok(c: char) -> bool {
    (c as u32) == 9 || ((c as u32) >= 32 && (c as u32) != 127)
}

/// A text that is a valid HTTP header value.
pub open spec fn header_value_ok(s: Seq<char>) -> bool {
    forall|i: int| 0 <= i < s.len() ==> header_char_ok(#[trigger] s[i])
}

/// Whether a text is a valid HTTP header value.
/// Trusted: `http::HeaderValue::from_str` (through axum), which accepts exactly
/// the texts whose every byte is a tab or at least 32 and not 127. A character
/// from U+0080 on is encoded in bytes of 128 and more, so this is a test on the
/// characters.
#[verifier::external_body]
fn is_header_value(s: &str) -> (r: bool)
    ensures
        r == header_value_ok(s@),
{
    axum::http::HeaderValue::from_str(s).is_ok()
}

/// The trimmed pieces that are valid header values, in order.
pub open spec fn valid_origins(pieces: Seq<Seq<char>>) -> Seq<Seq<char>>
    decreases pieces.len(),
{
    if pieces.len() == 0 {
        Seq::empty()
    } else {
        let rest = valid_origins(pieces.drop_last());
        let t = trimmed(pieces.last());
        if header_value_ok(t) {
            rest.push(t)
        } else {
            rest
        }
    }
}

proof fn lemma_split_nonempty(s: Seq<char>)
    ensures
        split_commas(s).len() >= 1,
    decreases s.len(),
{
    if s.len() > 0 {
        lemma_split_nonempty(s.drop_last());
    }
}

/// Splits a text at its commas.
pub fn split_at_commas(s: &str) -> (r: Vec<String>)
    ensures
        r@.map_values(|p: String| p@) == split_commas(s@),
{
    let len = s.unicode_len();
    let mut done: Vec<String> = Vec::new();
    let mut cur = String::new();
    let mut i: usize = 0;
    assert(s@.take(0) =~= Seq::<char>::empty());
    while i < len
        invariant
            i <= len,
            len == s@.len(),
            done@.map_values(|p: String| p@).push(cur@) == split_commas(s@.take(i as int)),
        decreases len - i,
    {
        let c = s.get_char(i);
        let ghost t = s@.take(i + 1);
        assert(t.drop_last() =~= s@.take(i as int));
        assert(t.last() == c);
        proof {
            lemma_split_nonempty(s@.take(i as int));
        }
        if c == ',' {
            let ghost old_done = done@;
            let piece = cur;
            done.push(piece);
            cur = String::new();
            assert(done@.map_values(|p: String| p@) =~= old_done.map_values(|p: String| p@).push(piece@));
            assert(done@.map_values(|p: String| p@).push(cur@) =~= split_commas(t));
        } else {
            push_char(&mut cur, c);
            assert(done@.map_values(|p: String| p@).push(cur@) =~= split_commas(t));
        }
        i += 1;
    }
    assert(s@.take(len as int) =~= s@);
    let ghost old_done = done@;
    done.push(cur);
    assert(done@.map_values(|p: String| p@) =~= old_done.map_values(|p: String| p@).push(cur@));
    done
}

/// The origins named by a setting: `*` allows any; otherwise the comma-separated
/// entries, trimmed, that are valid header values.
pub fn cors_origins(origin: &str) -> (r: CorsOrigins)
    ensures
        origin@ == "*"@ ==> r == CorsOrigins::Any,
        origin@ != "*"@ ==> (r matches CorsOrigins::List(v) && v@.map_values(|p: String| p@)
            == valid_origins(split_commas(origin@))),
{
    proof {
        reveal_strlit("*");
    }
    if origin.unicode_len() == 1 && origin.get_char(0) == '*' {
        assert(origin@ =~= "*"@);
        return CorsOrigins::Any;
    }
    let pieces = split_at_commas(origin);
    let ghost all = pieces@.map_values(|p: String| p@);
    let mut out: Vec<String> = Vec::new();
    let mut i: usize = 0;
    assert(all.take(0) =~= Seq::<Seq<char>>::empty());
    while i < pieces.len()
        invariant
            i <= pieces@.len(),
            all == pieces@.map_values(|p: String| p@),
            out@.map_values(|p: String| p@) == valid_origins(all.take(i as int)),
        decreases pieces@.len() - i,
    {
        let t = trim_text(pieces[i].as_str());
        let ghost prev = out@;
        assert(all.take(i + 1).drop_last() =~= all.take(i as int));
        assert(all.take(i + 1).last() == pieces@[i as int]@);
        if is_header_value(t) {
            out.push(String::from_str(t));
            assert(out@.map_values(|p: String| p@) =~= prev.map_values(|p: String| p@).push(t@));
        }
        i += 1;
    }
    assert(all.take(pieces@.len() as int) =~= all);
    proof {
        if origin@ == "*"@ {
            assert(origin@.len() == 1);
        }
    }
    CorsOrigins::List(out)
}

/// Pieces put back together with a comma between each two.
pub open spec fn joined(ps: Seq<Seq<char>>) -> Seq<char>
    decreases ps.len(),
{
    if ps.len() == 0 {
        Seq::empty()
    } else if ps.len() == 1 {
        ps[0]
    } else {
        joined(ps.drop_last()) + seq![','] + ps.last()
    }
}

/// Splitting at commas loses nothing: the pieces hold no comma, and joining
/// them with commas gives back the text.
pub proof fn lemma_split_rejoins(s: Seq<char>)
    ensures
        joined(split_commas(s)) == s,
        forall|i: int| 0 <= i < split_commas(s).len() ==> !(#[trigger] split_commas(s)[i]).contains(','),
    decreases s.len(),
{
    if s.len() == 0 {
        assert(split_commas(s) =~= seq![Seq::<char>::empty()]);
        assert(joined(split_commas(s)) =~= s);
    } else {
        let t = s.drop_last();
        let c = s.last();
        let p = split_commas(t);
        lemma_split_rejoins(t);
        lemma_split_nonempty(t);
        if c == ',' {
            let q = p.push(Seq::<char>::empty());
            assert(q.drop_last() =~= p);
            assert(joined(q) =~= t + seq![','] + Seq::<char>::empty());
            assert(joined(q) =~= s);
            assert forall|i: int| 0 <= i < q.len() implies !(#[trigger] q[i]).contains(',') by {
                if i < p.len() {
                    assert(q[i] == p[i]);
                }
            }
        } else {
            let last = p.last().push(c);
            let q = p.update(p.len() - 1, last);
            assert(s =~= t.push(c));
            if p.len() == 1 {
                assert(q[0] == last);
                assert(p.last() == p[0]);
                assert(joined(q) == q[0]);
                assert(joined(p) == p[0]);
                assert(joined(q) =~= s);
            } else {
                assert(q.drop_last() =~= p.drop_last());
                assert(joined(q) == joined(p.drop_last()) + seq![','] + last);
                assert(joined(p) == joined(p.drop_last()) + seq![','] + p.last());
                assert(joined(q) =~= s);
            }
            assert forall|i: int| 0 <= i < q.len() implies !(#[trigger] q[i]).contains(',') by {
                if i < p.len() - 1 {
                    assert(q[i] == p[i]);
                } else {
                    assert(!p[p.len() - 1].contains(','));
                    if q[i].contains(',') {
                        let j = choose|j: int| 0 <= j < q[i].len() && q[i][j] == ',';
                        if j < p.last().len() {
                            assert(p.last()[j] == ',');
                        }
                    }
                }
            }
        }
    }
}

} // verus!
