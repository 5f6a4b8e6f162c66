//! Small verified text helpers shared by the parsing and formatting code:
//! a character-sequence model of trimming and splitting, and conversions
//! between `String` and `Vec<char>`.

use vstd::prelude::*;

verus! {

/// The whitespace characters that trimming removes.
pub open spec fn is_space_char(c: char) -> bool {
    c == ' ' || c == '\t' || c == '\r' || c == '\n'
}

/// `s` with leading whitespace removed.
pub open spec fn trim_start_spec(s: Seq<char>) -> Seq<char>
    decreases s.len(),
{
    if s.len() > 0 && is_space_char(s[0]) {
        trim_start_spec(s.skip(1))
    } else {
        s
    }
}

/// `s` with trailing whitespace removed.
pub open spec fn trim_end_spec(s: Seq<char>) -> Seq<char>
    decreases s.len(),
{
    if s.len() > 0 && is_space_char(s.last()) {
        trim_end_spec(s.drop_last())
    } else {
        s
    }
}

/// `s` with whitespace removed from both ends.
pub open spec fn trim_spec(s: Seq<char>) -> Seq<char> {
    trim_end_spec(trim_start_spec(s))
}

/// `s` split on every occurrence of `sep`; empty pieces are kept, and the
/// empty string yields one empty piece.
pub open spec fn split_spec(s: Seq<char>, sep: char) -> Seq<Seq<char>>
    decreases s.len(),
{
    if s.len() == 0 {
        seq![Seq::<char>::empty()]
    } else if s.last() == sep {
        split_spec(s.drop_last(), sep).push(Seq::<char>::empty())
    } else {
        let ps = split_spec(s.drop_last(), sep);
        ps.update(ps.len() - 1, ps.last().push(s.last()))
    }
}

/// `s` split on `sep`, with a final empty piece (the one a trailing
/// separator leaves behind, or the one the empty string yields) dropped.
pub open spec fn split_terminator_spec(s: Seq<char>, sep: char) -> Seq<Seq<char>> {
    let ps = split_spec(s, sep);
    if ps.len() > 0 && ps.last().len() == 0 {
        ps.drop_last()
    } else {
        ps
    }
}

/// All pieces concatenated back together, with nothing in between.
pub open spec fn concat_all(ss: Seq<Seq<char>>) -> Seq<char>
    decreases ss.len(),
{
    if ss.len() == 0 {
        Seq::<char>::empty()
    } else {
        concat_all(ss.drop_last()) + ss.last()
    }
}

/// The characters of `s`, as a vector.
pub fn chars_of(s: &str) -> (r: Vec<char>)
    ensures
        r@ == s@,
{
    let n = s.unicode_len();
    let mut r: Vec<char> = Vec::new();
    let mut i: usize = 0;
    while i < n
        invariant
            i <= n,
            n == s@.len(),
            r@ == s@.take(i as int),
        decreases n - i,
    {
        r.push(s.get_char(i));
        i = i + 1;
    }
    proof {
        assert(r@ =~= s@);
    }
    r
}

/// The characters of `cs` with whitespace removed from both ends.
pub fn trim_chars(cs: &Vec<char>) -> (r: Vec<char>)
    ensures
        r@ == trim_spec(cs@),
{
    let n = cs.len();
    let mut a: usize = 0;
    proof {
        assert(cs@.skip(0) =~= cs@);
    }
    while a < n && is_space(cs[a])
        invariant
            a <= n,
            n == cs@.len(),
            trim_start_spec(cs@) == trim_start_spec(cs@.skip(a as int)),
        decreases n - a,
    {
        proof {
            assert(cs@.skip(a as int).skip(1) =~= cs@.skip(a + 1));
        }
        a = a + 1;
    }
    proof {
        if a == n {
            assert(cs@.skip(a as int) =~= Seq::<char>::empty());
        }
        assert(trim_start_spec(cs@) == cs@.skip(a as int));
    }
    let mut b: usize = n;
    while b > a && is_space(cs[b - 1])
        invariant
            a <= b <= n,
            n == cs@.len(),
            trim_start_spec(cs@) == cs@.skip(a as int),
            trim_end_spec(cs@.skip(a as int)) == trim_end_spec(cs@.subrange(a as int, b as int)),
        decreases b,
    {
        proof {
            let part = cs@.subrange(a as int, b as int);
            assert(part.last() == cs@[b - 1]);
            assert(part.drop_last() =~= cs@.subrange(a as int, b - 1));
        }
        b = b - 1;
    }
    proof {
        let part = cs@.subrange(a as int, b as int);
        if b == a {
            assert(part =~= Seq::<char>::empty());
        }
        assert(trim_end_spec(part) == part);
        assert(cs@.skip(a as int) =~= cs@.subrange(a as int, n as int));
    }
    let mut r: Vec<char> = Vec::new();
    let mut i: usize = a;
    while i < b
        invariant
            a <= i <= b <= n,
            n == cs@.len(),
            r@ == cs@.subrange(a as int, i as int),
        decreases b - i,
    {
        proof {
            assert(cs@.subrange(a as int, i + 1) =~= cs@.subrange(a as int, i as int).push(
                cs@[i as int],
            ));
        }
        r.push(cs[i]);
        i = i + 1;
    }
    r
}

/// Relies on `String: FromIterator<char>` (`collect`): the collected string
/// holds exactly the characters of the iterator, in order.
#[verifier::external_body]
pub fn string_from_chars(cs: &Vec<char>) -> (r: String)
    ensures
        r@ == cs@,
{
    cs.iter().collect()
}

/// Whether two string slices hold the same characters.
pub fn str_eq(a: &str, b: &str) -> (r: bool)
    ensures
        r == (a@ == b@),
{
    let x = a.to_owned();
    let y = b.to_owned();
    x == y
}

/// Whether the character is whitespace in the sense of [`is_space_char`].
pub fn is_space(c: char) -> (r: bool)
    ensures
        r == is_space_char(c),
{
    c == ' ' || c == '\t' || c == '\r' || c == '\n'
}

} // verus!
