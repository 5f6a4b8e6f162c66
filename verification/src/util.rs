//! Small shared pieces: the handler error taxonomy and the not-interested
//! marker, boolean aggregation for the argument handler, type-name
//! reduction for diagnostics, and the clock reads.

use vstd::prelude::*;

use crate::responder::ResponderError;
use crate::text::string_from_chars;

verus! {

/// Why a handler invocation produced no outbound message. `NotInterested`
/// is a voluntary decline: it is never reported as an error. The rest are
/// genuine failures of one invocation, isolated from its siblings.
#[derive(Clone, Debug)]
pub enum HandlerError {
    NotInterested,
    MissingDependency { key: u64 },
    TemplateResolution { namespace: String, variant: String },
    TemplateApplication { namespace: String, variant: String },
}

impl HandlerError {
    /// Whether an observability sink should stay silent about this error.
    pub open spec fn is_not_interested(&self) -> bool {
        self is NotInterested
    }

    /// The dispatcher's reporting rule: a voluntary decline is suppressed
    /// from error reporting; every genuine failure is reported.
    pub fn should_report(&self) -> (r: bool)
        ensures
            r == !self.is_not_interested(),
    {
        match self {
            HandlerError::NotInterested => false,
            _ => true,
        }
    }

    /// A responder failure carried into the handler taxonomy, unchanged.
    pub fn from_responder(e: ResponderError) -> (r: Self)
        ensures
            match e {
                ResponderError::TemplateResolution { namespace, variant } => r == (
                HandlerError::TemplateResolution { namespace, variant }),
                ResponderError::TemplateApplication { namespace, variant } => r == (
                HandlerError::TemplateApplication { namespace, variant }),
            },
    {
        match e {
            ResponderError::TemplateResolution { namespace, variant } => {
                HandlerError::TemplateResolution { namespace, variant }
            },
            ResponderError::TemplateApplication { namespace, variant } => {
                HandlerError::TemplateApplication { namespace, variant }
            },
        }
    }
}

/// The marker behind a voluntary decline: an error type that is not an
/// error.
#[derive(Clone, Copy, Debug, PartialEq, Eq, Structural, Default)]
pub struct DontCareSigil {}

/// A not-interested outcome.
pub fn dont_care() -> (r: Result<(), HandlerError>)
    ensures
        r matches Err(e) && e is NotInterested,
{
    Err(HandlerError::NotInterested)
}

/// Turning an absent value into a not-interested outcome.
pub trait DontCare<T>: Sized {
    /// The value as an option, at the specification level.
    spec fn option_of(self) -> Option<T>;

    /// The value, or a not-interested decline.
    fn dont_care(self) -> (r: Result<T, HandlerError>)
        ensures
            match self.option_of() {
                Some(v) => r matches Ok(x) && x == v,
                None => r matches Err(e) && e is NotInterested,
            },
    ;
}

impl<T> DontCare<T> for Option<T> {
    open spec fn option_of(self) -> Option<T> {
        self
    }

    fn dont_care(self) -> (r: Result<T, HandlerError>) {
        match self {
            Some(v) => Ok(v),
            None => Err(HandlerError::NotInterested),
        }
    }
}

/// Whether any of the flags is set; the argument handler exits when any
/// of its steps asked for that.
pub fn maybe_exit(maybes: Vec<bool>) -> (r: bool)
    requires
        maybes@.len() > 0,
    ensures
        r == exists|i: int| 0 <= i < maybes@.len() && maybes@[i],
{
    let mut r = false;
    let mut i: usize = 0;
    while i < maybes.len()
        invariant
            i <= maybes@.len(),
            r == exists|j: int| 0 <= j < i && maybes@[j],
        decreases maybes@.len() - i,
    {
        if maybes[i] {
            r = true;
        }
        i = i + 1;
    }
    r
}

/// Whether `c` is an ASCII capital letter.
pub open spec fn is_upper(c: char) -> bool {
    65 <= (c as u32) <= 90
}

/// How many characters stand before the first capital letter.
pub open spec fn before_upper(s: Seq<char>) -> nat
    decreases s.len(),
{
    if s.len() == 0 || is_upper(s[0]) {
        0
    } else {
        1 + before_upper(s.skip(1))
    }
}

/// How many `<` stand before the first capital letter.
pub open spec fn angles_before_upper(s: Seq<char>) -> nat
    decreases s.len(),
{
    if s.len() == 0 || is_upper(s[0]) {
        0
    } else {
        angles_before_upper(s.skip(1)) + if s[0] == '<' {
            1nat
        } else {
            0nat
        }
    }
}

/// One reduction step: drop everything before the first capital letter,
/// and one closing character from the end for every `<` dropped (none
/// left, when that would reach back into the kept part).
pub open spec fn trim_type_spec(s: Seq<char>) -> Seq<char> {
    let left = before_upper(s);
    let cut = angles_before_upper(s);
    if left + cut <= s.len() {
        s.subrange(left as int, s.len() - cut)
    } else {
        Seq::empty()
    }
}

/// The reduction of `s` toward its base type name: trim; when a `<`
/// remains, trim again past it; stop at an empty result (yielding the
/// untouched original) or at a fixed point.
pub open spec fn reduce_spec(original: Seq<char>, s: Seq<char>) -> Seq<char>
    decreases s.len(),
    via reduce_spec_decreases
{
    let t0 = trim_type_spec(s);
    let t = if t0.contains('<') {
        trim_type_spec(t0.skip(1))
    } else {
        t0
    };
    if t.len() == 0 {
        original
    } else if t.len() == s.len() {
        t
    } else {
        reduce_spec(original, t)
    }
}

proof fn lemma_before_upper_le(s: Seq<char>)
    ensures
        before_upper(s) <= s.len(),
        angles_before_upper(s) <= before_upper(s),
    decreases s.len(),
{
    if s.len() > 0 && !is_upper(s[0]) {
        lemma_before_upper_le(s.skip(1));
    }
}

proof fn lemma_trim_type_le(s: Seq<char>)
    ensures
        trim_type_spec(s).len() <= s.len(),
{
    lemma_before_upper_le(s);
}

#[via_fn]
proof fn reduce_spec_decreases(original: Seq<char>, s: Seq<char>) {
    let t0 = trim_type_spec(s);
    lemma_trim_type_le(s);
    if t0.contains('<') {
        lemma_trim_type_le(t0.skip(1));
    }
}

/// One reduction step on a character vector.
fn trim_type(cs: &Vec<char>) -> (r: Vec<char>)
    ensures
        r@ == trim_type_spec(cs@),
{
    let n = cs.len();
    let mut left: usize = 0;
    let mut cut: usize = 0;
    proof {
        assert(cs@.skip(0) =~= cs@);
    }
    while left < n && !(65 <= cs[left] as u32 && cs[left] as u32 <= 90)
        invariant
            left <= n,
            cut <= left,
            n == cs@.len(),
            before_upper(cs@) == left + before_upper(cs@.skip(left as int)),
            angles_before_upper(cs@) == cut + angles_before_upper(cs@.skip(left as int)),
        decreases n - left,
    {
        proof {
            assert(cs@.skip(left as int).skip(1) =~= cs@.skip(left + 1));
        }
        if cs[left] == '<' {
            cut = cut + 1;
        }
        left = left + 1;
    }
    proof {
        if left == n {
            assert(cs@.skip(left as int) =~= Seq::<char>::empty());
        }
        assert(before_upper(cs@) == left);
        assert(angles_before_upper(cs@) == cut);
    }
    let mut r: Vec<char> = Vec::new();
    if cut > n - left {
        return r;
    }
    let stop = n - cut;
    let mut i: usize = left;
    while i < stop
        invariant
            left <= i <= stop <= n,
            n == cs@.len(),
            r@ == cs@.subrange(left as int, i as int),
        decreases stop - i,
    {
        proof {
            assert(cs@.subrange(left as int, i + 1) =~= cs@.subrange(left as int, i as int).push(
                cs@[i as int],
            ));
        }
        r.push(cs[i]);
        i = i + 1;
    }
    r
}

/// Reduce a complex type name down to its base type: the text from its
/// first capital letter on, with generic argument brackets peeled away.
/// A name that reduces to nothing comes back whole.
pub fn reduce_type_name(input: &str) -> (r: String)
    ensures
        r@ == reduce_spec(input@, input@),
{
    let original = crate::text::chars_of(input);
    let mut cs = crate::text::chars_of(input);
    loop
        invariant
            original@ == input@,
            reduce_spec(input@, input@) == reduce_spec(input@, cs@),
        decreases cs@.len(),
    {
        let ghost s0 = cs@;
        let start = cs.len();
        let mut t = trim_type(&cs);
        let mut has_angle = false;
        let mut k: usize = 0;
        while k < t.len()
            invariant
                k <= t@.len(),
                has_angle == exists|j: int| 0 <= j < k && t@[j] == '<',
            decreases t@.len() - k,
        {
            if t[k] == '<' {
                has_angle = true;
                proof {
                    assert(t@[k as int] == '<');
                }
            }
            k = k + 1;
        }
        proof {
            assert(has_angle == t@.contains('<'));
        }
        if has_angle {
            let mut t2: Vec<char> = Vec::new();
            let mut p: usize = 1;
            proof {
                assert(t@.len() > 0);
            }
            while p < t.len()
                invariant
                    1 <= p <= t@.len(),
                    t2@ == t@.subrange(1, p as int),
                decreases t@.len() - p,
            {
                proof {
                    assert(t@.subrange(1, p + 1) =~= t@.subrange(1, p as int).push(t@[p as int]));
                }
                t2.push(t[p]);
                p = p + 1;
            }
            proof {
                assert(t2@ =~= t@.skip(1));
            }
            t = trim_type(&t2);
        }
        if t.len() == 0 {
            return string_from_chars(&original);
        }
        if t.len() == start {
            return string_from_chars(&t);
        }
        proof {
            lemma_trim_type_le(s0);
            if has_angle {
                lemma_trim_type_le(trim_type_spec(s0).skip(1));
            }
        }
        cs = t;
    }
}

/// Relies on `std::time::SystemTime`: the wall clock, read as whole
/// milliseconds since the Unix epoch; zero when the clock stands before
/// the epoch. Nothing can be promised of the clock.
#[verifier::external_body]
fn epoch_millis() -> (r: u64) {
    std::time::SystemTime::now().duration_since(std::time::SystemTime::UNIX_EPOCH).map(
        |d| d.as_millis() as u64,
    ).unwrap_or(0)
}

/// The current timestamp (time since the Unix epoch) in whole seconds.
/// Nothing can be promised of the clock itself.
pub fn timestamp() -> (r: u64) {
    epoch_millis() / 1000
}

/// The current timestamp (time since the Unix epoch) in milliseconds.
/// Nothing can be promised of the clock itself.
pub fn timestamp_ms() -> (r: u64) {
    epoch_millis()
}

/// Whether `c` is a decimal digit.
pub open spec fn is_digit(c: char) -> bool {
    48 <= (c as u32) <= 57
}

/// The value of a digit character.
pub open spec fn digit_val(c: char) -> nat {
    ((c as u32) - 48) as nat
}

/// The number the digit string names, read in decimal.
pub open spec fn digits_value(s: Seq<char>) -> nat
    decreases s.len(),
{
    if s.len() == 0 {
        0
    } else {
        digits_value(s.drop_last()) * 10 + digit_val(s.last())
    }
}

/// The text an unsigned parse reads digits from: the whole text, or what
/// follows one leading `+` sign.
pub open spec fn unsigned_body(s: Seq<char>) -> Seq<char> {
    if s.len() > 0 && s[0] == '+' {
        s.skip(1)
    } else {
        s
    }
}

/// Parse an unsigned number from decimal text, as the unsigned integer
/// parser reads it: an optional leading `+`, then at least one digit,
/// digits only, and a value that fits.
pub fn from_str(s: &str) -> (r: Option<u64>)
    ensures
        ({
            let body = unsigned_body(s@);
            &&& (r is Some <==> (body.len() > 0 && (forall|i: int|
                0 <= i < body.len() ==> is_digit(body[i])) && digits_value(body) <= u64::MAX))
            &&& (r matches Some(n) ==> n == digits_value(body))
        }),
{
    let cs = crate::text::chars_of(s);
    let start: usize = if cs.len() > 0 && cs[0] == '+' {
        1
    } else {
        0
    };
    let ghost body = unsigned_body(s@);
    proof {
        assert(body =~= cs@.subrange(start as int, cs@.len() as int));
    }
    if cs.len() == start {
        return None;
    }
    let mut acc: u64 = 0;
    let mut i: usize = start;
    proof {
        assert(body.take(0) =~= Seq::<char>::empty());
    }
    while i < cs.len()
        invariant
            start <= i <= cs@.len(),
            cs@ == s@,
            body == unsigned_body(s@),
            body =~= cs@.subrange(start as int, cs@.len() as int),
            forall|j: int| 0 <= j < i - start ==> is_digit(body[j]),
            acc == digits_value(body.take(i - start)),
        decreases cs@.len() - i,
    {
        let c = cs[i];
        let code = c as u32;
        proof {
            assert(body[i - start] == cs@[i as int]);
        }
        if !(48 <= code && code <= 57) {
            proof {
                lemma_digits_value_grows(body, i - start);
            }
            return None;
        }
        let d = (code - 48) as u64;
        proof {
            assert(body.take(i - start + 1).drop_last() =~= body.take(i - start));
            assert(body.take(i - start + 1).last() == body[i - start]);
        }
        let shifted = match acc.checked_mul(10) {
            Some(v) => v,
            None => {
                proof {
                    assert(digits_value(body.take(i - start + 1)) == (acc as nat) * 10
                        + digit_val(body[i - start]));
                    lemma_digits_value_grows(body, i - start + 1);
                }
                return None;
            },
        };
        acc = match shifted.checked_add(d) {
            Some(v) => v,
            None => {
                proof {
                    assert(digits_value(body.take(i - start + 1)) == (acc as nat) * 10
                        + digit_val(body[i - start]));
                    lemma_digits_value_grows(body, i - start + 1);
                }
                return None;
            },
        };
        i = i + 1;
    }
    proof {
        assert(body.take(body.len() as int) =~= body);
    }
    Some(acc)
}

/// Reading more digits never shrinks the value: when the digits up to a
/// point already name a number, the whole string names one at least as
/// large — or is no number at all.
proof fn lemma_digits_value_grows(s: Seq<char>, i: int)
    requires
        0 <= i <= s.len(),
    ensures
        (forall|j: int| 0 <= j < s.len() ==> is_digit(s[j])) ==> digits_value(s)
            >= digits_value(s.take(i)),
    decreases s.len() - i,
{
    if i < s.len() {
        lemma_digits_value_grows(s, i + 1);
        if forall|j: int| 0 <= j < s.len() ==> is_digit(s[j]) {
            assert(s.take(i + 1).drop_last() =~= s.take(i));
            assert(digits_value(s.take(i + 1)) == digits_value(s.take(i)) * 10 + digit_val(
                s[i],
            ));
            assert(digits_value(s.take(i)) * 10 >= digits_value(s.take(i))) by (nonlinear_arith);
        }
    } else {
        assert(s.take(i) =~= s);
    }
}

} // verus!
