use vstd::prelude::*;
use vstd::string::*;

use crate::models::FetchAllQuery;

verus! {

/// Characters with the Unicode `White_Space` property.
pub open spec fn is_space(c: char) -> bool {
    let u = c as u32;
    ||| 0x9 <= u <= 0xd
    ||| u == 0x20
    ||| u == 0x85
    ||| u == 0xa0
    ||| u == 0x1680
    ||| 0x2000 <= u <= 0x200a
    ||| u == 0x2028
    ||| u == 0x2029
    ||| u == 0x202f
    ||| u == 0x205f
    ||| u == 0x3000
}

/// Relies on `char::is_whitespace`: true exactly for the `White_Space` characters.
#[verifier::external_body]
fn is_whitespace(c: char) -> (r: bool)
    ensures
        r == is_space(c),
{
    c.is_whitespace()
}

/// `t` without its leading white space.
pub open spec fn trim_start(t: Seq<char>) -> Seq<char>
    decreases t.len(),
{
    if t.len() > 0 && is_space(t[0]) {
        trim_start(t.drop_first())
    } else {
        t
    }
}

/// `t` without its trailing white space.
pub open spec fn trim_end(t: Seq<char>) -> Seq<char>
    decreases t.len(),
{
    if t.len() > 0 && is_space(t.last()) {
        trim_end(t.drop_last())
    } else {
        t
    }
}

/// `t` without white space at either end.
pub open spec fn trim(t: Seq<char>) -> Seq<char> {
    trim_end(trim_start(t))
}

/// The pieces of `s` between commas; a string without commas is one piece.
pub open spec fn split_commas(s: Seq<char>) -> Seq<Seq<char>>
    decreases s.len(),
{
    if s.len() == 0 {
        seq![Seq::empty()]
    } else {
        let p = split_commas(s.drop_last());
        if s.last() == ',' {
            p.push(Seq::empty())
        } else {
            p.update(p.len() - 1, p.last().push(s.last()))
        }
    }
}

/// The trimmed pieces that are not empty, in order.
pub open spec fn kept(pieces: Seq<Seq<char>>) -> Seq<Seq<char>>
    decreases pieces.len(),
{
    if pieces.len() == 0 {
        Seq::empty()
    } else {
        let rest = kept(pieces.drop_last());
        let t = trim(pieces.last());
        if t.len() > 0 {
            rest.push(t)
        } else {
            rest
        }
    }
}

/// The identifiers that a comma-separated list names.
pub open spec fn identifiers_in(s: Seq<char>) -> Seq<Seq<char>> {
    kept(split_commas(s))
}

/// The contents of each string of `v`.
pub open spec fn texts(v: Seq<String>) -> Seq<Seq<char>> {
    v.map_values(|x: String| x@)
}

/// Appends the trimmed characters `lo..hi` of `s` to `out` unless they are empty.
fn push_trimmed(s: &str, lo: usize, hi: usize, out: &mut Vec<String>)
    requires
        lo <= hi <= s@.len(),
    ensures
        texts(final(out)@) == (if trim(s@.subrange(lo as int, hi as int)).len() > 0 {
            texts(old(out)@).push(trim(s@.subrange(lo as int, hi as int)))
        } else {
            texts(old(out)@)
        }),
{
    let ghost whole = s@.subrange(lo as int, hi as int);
    let mut a: usize = lo;
    while a < hi && is_whitespace(s.get_char(a))
        invariant
            lo <= a <= hi <= s@.len(),
            trim_start(whole) == trim_start(s@.subrange(a as int, hi as int)),
        decreases hi - a,
    {
        assert(s@.subrange(a as int, hi as int).drop_first() =~= s@.subrange(a + 1, hi as int));
        a = a + 1;
    }
    proof {
        if a < hi {
            assert(s@.subrange(a as int, hi as int)[0] == s@[a as int]);
        }
    }
    assert(trim_start(whole) == s@.subrange(a as int, hi as int));
    let mut b: usize = hi;
    while b > a && is_whitespace(s.get_char(b - 1))
        invariant
            lo <= a <= b <= hi <= s@.len(),
            trim(whole) == trim_end(s@.subrange(a as int, b as int)),
        decreases b - a,
    {
        assert(s@.subrange(a as int, b as int).drop_last() =~= s@.subrange(a as int, b - 1));
        b = b - 1;
    }
    proof {
        if a < b {
            assert(s@.subrange(a as int, b as int).last() == s@[b - 1]);
        }
    }
    assert(trim(whole) == s@.subrange(a as int, b as int));
    let ghost before = old(out)@;
    if a < b {
        let piece = String::from_str(s.substring_char(a, b));
        out.push(piece);
        assert(texts(out@) =~= texts(before).push(trim(whole)));
    }
}

/// Splits a comma-separated list of identifiers, trims each one and drops the
/// empty ones.
pub fn parse_names(s: &str) -> (r: Vec<String>)
    ensures
        texts(r@) == identifiers_in(s@),
{
    let n = s.unicode_len();
    let mut out: Vec<String> = Vec::new();
    let ghost mut done: Seq<Seq<char>> = Seq::empty();
    let mut start: usize = 0;
    let mut i: usize = 0;
    assert(s@.take(0) =~= Seq::<char>::empty());
    assert(s@.subrange(0, 0) =~= Seq::<char>::empty());
    assert(texts(out@) =~= Seq::<Seq<char>>::empty());
    while i < n
        invariant
            n == s@.len(),
            start <= i <= n,
            split_commas(s@.take(i as int)) == done.push(s@.subrange(start as int, i as int)),
            texts(out@) == kept(done),
        decreases n - i,
    {
        let c = s.get_char(i);
        assert(s@.take(i + 1).drop_last() =~= s@.take(i as int));
        assert(s@.take(i + 1).last() == c);
        if c == ',' {
            push_trimmed(s, start, i, &mut out);
            proof {
                let piece = s@.subrange(start as int, i as int);
                assert(done.push(piece).drop_last() =~= done);
                done = done.push(piece);
                assert(s@.subrange(i + 1, i + 1) =~= Seq::<char>::empty());
            }
            start = i + 1;
        } else {
            assert(s@.subrange(start as int, i + 1) =~= s@.subrange(start as int, i as int).push(c));
        }
        i = i + 1;
    }
    push_trimmed(s, start, n, &mut out);
    proof {
        let piece = s@.subrange(start as int, n as int);
        assert(done.push(piece).drop_last() =~= done);
        assert(s@.take(n as int) =~= s@);
    }
    out
}

/// The address of the provider's document for one identifier.
pub fn provider_url(name: &str) -> (r: String)
    ensures
        r@ == "https://pokeapi.co/api/v2/pokemon/"@ + name@,
{
    let mut url = String::from_str("https://pokeapi.co/api/v2/pokemon/");
    url.append(name);
    url
}

impl FetchAllQuery {
    /// The identifiers that the query names: split at commas, trimmed, empty
    /// ones dropped.
    pub fn identifiers(&self) -> (r: Vec<String>)
        ensures
            texts(r@) == identifiers_in(self.names@),
    {
        parse_names(self.names.as_str())
    }
}

} // verus!
