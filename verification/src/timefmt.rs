//! Rendering spans of seconds as text: a clock-style `HH:MM:SS` (hours
//! omitted when zero) and a readable form such as `1 day, 2 hours and
//! 5 minutes`.

use vstd::prelude::*;

use crate::text::string_from_chars;

verus! {

/// The decimal digit character for `d`.
pub open spec fn digit_char(d: nat) -> char {
    if d == 0 {
        '0'
    } else if d == 1 {
        '1'
    } else if d == 2 {
        '2'
    } else if d == 3 {
        '3'
    } else if d == 4 {
        '4'
    } else if d == 5 {
        '5'
    } else if d == 6 {
        '6'
    } else if d == 7 {
        '7'
    } else if d == 8 {
        '8'
    } else {
        '9'
    }
}

/// The decimal digits of `n`, most significant first, with no leading
/// zeroes (a single `0` for zero).
pub open spec fn dec_digits(n: nat) -> Seq<char>
    decreases n,
{
    if n < 10 {
        seq![digit_char(n)]
    } else {
        dec_digits(n / 10).push(digit_char(n % 10))
    }
}

/// The decimal digits of `n`, zero-padded on the left to two places.
pub open spec fn pad2(n: nat) -> Seq<char> {
    if n < 10 {
        seq!['0'] + dec_digits(n)
    } else {
        dec_digits(n)
    }
}

/// The clock-style text: `HH:MM:SS`, or `MM:SS` when no whole hour has
/// passed. Each part has at least two places.
pub open spec fn timestamp_text(t: nat) -> Seq<char> {
    let h = t / 3600;
    let m = (t / 60) % 60;
    let s = t % 60;
    if h > 0 {
        pad2(h) + seq![':'] + pad2(m) + seq![':'] + pad2(s)
    } else {
        pad2(m) + seq![':'] + pad2(s)
    }
}

/// A count and its unit, the unit name pluralized unless the count is one.
pub open spec fn pluralized(n: nat, singular: Seq<char>, plural: Seq<char>) -> Seq<char> {
    dec_digits(n) + seq![' '] + (if n > 1 {
        plural
    } else {
        singular
    })
}

/// The non-zero parts of the span, largest unit first.
pub open spec fn time_segments(t: nat) -> Seq<Seq<char>> {
    let d = t / 86400;
    let h = (t % 86400) / 3600;
    let m = (t % 3600) / 60;
    let s = t % 60;
    (if d > 0 {
        seq![pluralized(d, "day"@, "days"@)]
    } else {
        Seq::<Seq<char>>::empty()
    }) + (if h > 0 {
        seq![pluralized(h, "hour"@, "hours"@)]
    } else {
        Seq::<Seq<char>>::empty()
    }) + (if m > 0 {
        seq![pluralized(m, "minute"@, "minutes"@)]
    } else {
        Seq::<Seq<char>>::empty()
    }) + (if s > 0 {
        seq![pluralized(s, "second"@, "seconds"@)]
    } else {
        Seq::<Seq<char>>::empty()
    })
}

/// The parts joined for reading: commas between the early parts, `and`
/// before the last.
pub open spec fn joined_segments(ss: Seq<Seq<char>>) -> Seq<char>
    recommends
        ss.len() <= 4,
{
    if ss.len() == 0 {
        Seq::empty()
    } else if ss.len() == 1 {
        ss[0]
    } else if ss.len() == 2 {
        ss[0] + " and "@ + ss[1]
    } else if ss.len() == 3 {
        ss[0] + ", "@ + ss[1] + " and "@ + ss[2]
    } else {
        ss[0] + ", "@ + ss[1] + ", "@ + ss[2] + " and "@ + ss[3]
    }
}

/// The readable text of the span. Zero seconds reads as the empty string.
pub open spec fn readable_time(t: nat) -> Seq<char> {
    joined_segments(time_segments(t))
}

/// A span of time, readable in two renderings.
pub trait Timestamp {
    /// The span in whole seconds, at the specification level.
    spec fn secs_of(&self) -> u64;

    /// The span in whole seconds.
    fn as_secs(&self) -> (r: u64)
        ensures
            r == self.secs_of(),
    ;

    /// The clock-style rendering.
    fn as_timestamp(&self) -> (r: String)
        ensures
            r@ == timestamp_text(self.secs_of() as nat),
    ;

    /// The readable rendering.
    fn as_readable_time(&self) -> (r: String)
        ensures
            r@ == readable_time(self.secs_of() as nat),
    ;
}

impl Timestamp for u64 {
    open spec fn secs_of(&self) -> u64 {
        *self
    }

    fn as_secs(&self) -> (r: u64) {
        *self
    }

    fn as_timestamp(&self) -> (r: String) {
        let t = *self;
        let h = t / 3600;
        let m = (t / 60) % 60;
        let s = t % 60;
        let mut out: Vec<char> = Vec::new();
        if h > 0 {
            push_pad2(h, &mut out);
            out.push(':');
        }
        push_pad2(m, &mut out);
        out.push(':');
        push_pad2(s, &mut out);
        proof {
            if h > 0 {
                assert(out@ =~= timestamp_text(t as nat));
            } else {
                assert(out@ =~= timestamp_text(t as nat));
            }
        }
        string_from_chars(&out)
    }

    fn as_readable_time(&self) -> (r: String) {
        let t = *self;
        let d = t / 86400;
        let h = (t % 86400) / 3600;
        let m = (t % 3600) / 60;
        let s = t % 60;
        let mut segs: Vec<Vec<char>> = Vec::new();
        if d > 0 {
            segs.push(pluralize(d, 'd', 'a', 'y'));
        }
        if h > 0 {
            segs.push(pluralize(h, 'h', 'o', 'u'));
        }
        if m > 0 {
            segs.push(pluralize(m, 'm', 'i', 'n'));
        }
        if s > 0 {
            segs.push(pluralize(s, 's', 'e', 'c'));
        }
        proof {
            assert(segs@.map_values(|v: Vec<char>| v@) =~~= time_segments(t as nat));
        }
        let mut out: Vec<char> = Vec::new();
        let mut k: usize = 0;
        while k < segs.len()
            invariant
                k <= segs@.len() <= 4,
                segs@.map_values(|v: Vec<char>| v@) == time_segments((*self) as nat),
                out@ == joined_prefix(segs@.map_values(|v: Vec<char>| v@), k as int),
            decreases segs@.len() - k,
        {
            if k > 0 {
                if k + 1 == segs.len() {
                    out.push(' ');
                    out.push('a');
                    out.push('n');
                    out.push('d');
                    out.push(' ');
                } else {
                    out.push(',');
                    out.push(' ');
                }
            }
            let ghost before = out@;
            let seg = &segs[k];
            let mut j: usize = 0;
            while j < seg.len()
                invariant
                    j <= seg@.len(),
                    out@ == before + seg@.take(j as int),
                decreases seg@.len() - j,
            {
                proof {
                    assert(seg@.take(j + 1) =~= seg@.take(j as int).push(seg@[j as int]));
                    assert(before + seg@.take(j + 1) =~= (before + seg@.take(j as int)).push(
                        seg@[j as int],
                    ));
                }
                out.push(seg[j]);
                j = j + 1;
            }
            proof {
                let ss = segs@.map_values(|v: Vec<char>| v@);
                reveal_strlit(" and ");
                reveal_strlit(", ");
                assert(seg@.take(seg@.len() as int) =~= seg@);
                assert(seg@ == ss[k as int]);
                assert(out@ =~= joined_prefix(ss, k + 1));
            }
            k = k + 1;
        }
        proof {
            let ss = segs@.map_values(|v: Vec<char>| v@);
            lemma_joined_prefix_full(ss);
        }
        string_from_chars(&out)
    }
}

/// The join of the first `k` parts, commas between early parts and `and`
/// before the part that is the last of the whole list.
pub open spec fn joined_prefix(ss: Seq<Seq<char>>, k: int) -> Seq<char>
    decreases k,
{
    if k <= 0 {
        Seq::empty()
    } else if k == 1 {
        ss[0]
    } else {
        joined_prefix(ss, k - 1) + (if k == ss.len() {
            " and "@
        } else {
            ", "@
        }) + ss[k - 1]
    }
}

proof fn lemma_joined_prefix_full(ss: Seq<Seq<char>>)
    requires
        ss.len() <= 4,
    ensures
        joined_prefix(ss, ss.len() as int) == joined_segments(ss),
{
    assert(joined_prefix(ss, 0) == Seq::<char>::empty());
    if ss.len() == 0 {
    } else if ss.len() == 1 {
        assert(joined_prefix(ss, 1) == ss[0]);
    } else if ss.len() == 2 {
        assert(joined_prefix(ss, 1) == ss[0]);
        assert(joined_prefix(ss, 2) =~= ss[0] + " and "@ + ss[1]);
    } else if ss.len() == 3 {
        assert(joined_prefix(ss, 1) == ss[0]);
        assert(joined_prefix(ss, 2) == joined_prefix(ss, 1) + ", "@ + ss[1]);
        assert(joined_prefix(ss, 3) =~= ss[0] + ", "@ + ss[1] + " and "@ + ss[2]);
    } else {
        assert(joined_prefix(ss, 1) == ss[0]);
        assert(joined_prefix(ss, 2) == joined_prefix(ss, 1) + ", "@ + ss[1]);
        assert(joined_prefix(ss, 3) == joined_prefix(ss, 2) + ", "@ + ss[2]);
        assert(joined_prefix(ss, 4) =~= ss[0] + ", "@ + ss[1] + ", "@ + ss[2] + " and "@ + ss[3]);
    }
}

/// The count followed by the unit name; the first three letters of the
/// name pick the unit, whose full singular and plural forms are written
/// out here.
fn pluralize(n: u64, c0: char, c1: char, c2: char) -> (r: Vec<char>)
    requires
        (c0 == 'd' && c1 == 'a' && c2 == 'y') || (c0 == 'h' && c1 == 'o' && c2 == 'u') || (c0
            == 'm' && c1 == 'i' && c2 == 'n') || (c0 == 's' && c1 == 'e' && c2 == 'c'),
    ensures
        c0 == 'd' ==> r@ == pluralized(n as nat, "day"@, "days"@),
        c0 == 'h' ==> r@ == pluralized(n as nat, "hour"@, "hours"@),
        c0 == 'm' ==> r@ == pluralized(n as nat, "minute"@, "minutes"@),
        c0 == 's' ==> r@ == pluralized(n as nat, "second"@, "seconds"@),
{
    let mut out: Vec<char> = Vec::new();
    push_dec(n, &mut out);
    out.push(' ');
    if c0 == 'd' {
        out.push('d');
        out.push('a');
        out.push('y');
        if n > 1 {
            out.push('s');
        }
        proof {
            reveal_strlit("day");
            reveal_strlit("days");
            assert(out@ =~= pluralized(n as nat, "day"@, "days"@));
        }
    } else if c0 == 'h' {
        out.push('h');
        out.push('o');
        out.push('u');
        out.push('r');
        if n > 1 {
            out.push('s');
        }
        proof {
            reveal_strlit("hour");
            reveal_strlit("hours");
            assert(out@ =~= pluralized(n as nat, "hour"@, "hours"@));
        }
    } else if c0 == 'm' {
        out.push('m');
        out.push('i');
        out.push('n');
        out.push('u');
        out.push('t');
        out.push('e');
        if n > 1 {
            out.push('s');
        }
        proof {
            reveal_strlit("minute");
            reveal_strlit("minutes");
            assert(out@ =~= pluralized(n as nat, "minute"@, "minutes"@));
        }
    } else {
        out.push('s');
        out.push('e');
        out.push('c');
        out.push('o');
        out.push('n');
        out.push('d');
        if n > 1 {
            out.push('s');
        }
        proof {
            reveal_strlit("second");
            reveal_strlit("seconds");
            assert(out@ =~= pluralized(n as nat, "second"@, "seconds"@));
        }
    }
    out
}

/// The digit character of `d`.
fn digit_of(d: u64) -> (c: char)
    requires
        d < 10,
    ensures
        c == digit_char(d as nat),
{
    if d == 0 {
        '0'
    } else if d == 1 {
        '1'
    } else if d == 2 {
        '2'
    } else if d == 3 {
        '3'
    } else if d == 4 {
        '4'
    } else if d == 5 {
        '5'
    } else if d == 6 {
        '6'
    } else if d == 7 {
        '7'
    } else if d == 8 {
        '8'
    } else {
        '9'
    }
}

/// Append the decimal digits of `n`.
pub fn push_dec(n: u64, out: &mut Vec<char>)
    ensures
        final(out)@ == old(out)@ + dec_digits(n as nat),
    decreases n,
{
    if n >= 10 {
        push_dec(n / 10, out);
        out.push(digit_of(n % 10));
        proof {
            assert(final(out)@ =~= old(out)@ + dec_digits(n as nat));
        }
    } else {
        out.push(digit_of(n));
        proof {
            assert(final(out)@ =~= old(out)@ + dec_digits(n as nat));
        }
    }
}

/// Append the decimal digits of `n`, zero-padded to two places.
fn push_pad2(n: u64, out: &mut Vec<char>)
    ensures
        final(out)@ == old(out)@ + pad2(n as nat),
{
    if n < 10 {
        out.push('0');
    }
    push_dec(n, out);
    proof {
        assert(final(out)@ =~= old(out)@ + pad2(n as nat));
    }
}

} // verus!
