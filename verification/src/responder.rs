//! The responder: turns a response descriptor — a template namespace, a
//! case inside it, and the data for that case — into resolved outbound
//! text. Resolution looks the (namespace, case) pair up in a template
//! store; application substitutes each `${key}` in the template with the
//! matching data value. `reply` addresses the user by prefixing
//! `@name: `; `action` marks the line for the protocol's emote path.
//! Outbound lines are buffered for the transport to drain.

use vstd::prelude::*;

use crate::event::Room;
use crate::event::User;
use crate::text::chars_of;
use crate::text::str_eq;
use crate::text::string_from_chars;

verus! {

/// A response descriptor: which template to resolve and what to fill in.
pub struct ResponseTemplate {
    pub namespace: String,
    pub variant: String,
    pub data: Vec<(String, String)>,
}

/// Why rendering failed: the (namespace, case) pair resolved to nothing,
/// or the template asked for a key the data does not hold.
#[derive(Clone, Debug)]
pub enum ResponderError {
    TemplateResolution { namespace: String, variant: String },
    TemplateApplication { namespace: String, variant: String },
}

/// One outbound line: the room it goes to, the resolved text, and whether
/// it takes the protocol's action (emote) path.
pub struct Outbound {
    pub room: String,
    pub text: String,
    pub action: bool,
}

/// The views of a store entry list.
pub open spec fn store_views(es: Seq<(String, String, String)>) -> Seq<
    (Seq<char>, Seq<char>, Seq<char>),
> {
    es.map_values(|e: (String, String, String)| (e.0@, e.1@, e.2@))
}

/// The views of a data pair list.
pub open spec fn pair_views(ps: Seq<(String, String)>) -> Seq<(Seq<char>, Seq<char>)> {
    ps.map_values(|p: (String, String)| (p.0@, p.1@))
}

/// The first template stored under (namespace, case), if any.
pub open spec fn resolve_spec(
    es: Seq<(Seq<char>, Seq<char>, Seq<char>)>,
    ns: Seq<char>,
    vc: Seq<char>,
) -> Option<Seq<char>>
    decreases es.len(),
{
    if es.len() == 0 {
        None
    } else if es[0].0 == ns && es[0].1 == vc {
        Some(es[0].2)
    } else {
        resolve_spec(es.drop_first(), ns, vc)
    }
}

/// The value of the first data pair whose key is `key`, if any.
pub open spec fn lookup_pair(ps: Seq<(Seq<char>, Seq<char>)>, key: Seq<char>) -> Option<Seq<char>>
    decreases ps.len(),
{
    if ps.len() == 0 {
        None
    } else if ps[0].0 == key {
        Some(ps[0].1)
    } else {
        lookup_pair(ps.drop_first(), key)
    }
}

/// The position of the first occurrence of `c`, if any.
pub open spec fn first_index(s: Seq<char>, c: char) -> Option<nat>
    decreases s.len(),
{
    if s.len() == 0 {
        None
    } else if s[0] == c {
        Some(0)
    } else {
        match first_index(s.drop_first(), c) {
            Some(i) => Some(i + 1),
            None => None,
        }
    }
}

pub proof fn lemma_first_index(s: Seq<char>, c: char, k: nat)
    requires
        k <= s.len(),
        forall|j: int| 0 <= j < k ==> s[j] != c,
        k < s.len() ==> s[k as int] == c,
    ensures
        first_index(s, c) == if k < s.len() {
            Some(k)
        } else {
            None::<nat>
        },
    decreases s.len(),
{
    if s.len() > 0 {
        if k == 0 {
        } else {
            assert(s[0] != c);
            assert(forall|j: int| 0 <= j < k - 1 ==> s.drop_first()[j] == s[j + 1]);
            lemma_first_index(s.drop_first(), c, (k - 1) as nat);
        }
    }
}

pub proof fn lemma_first_index_bounds(s: Seq<char>, c: char)
    ensures
        first_index(s, c) matches Some(j) ==> j < s.len() && s[j as int] == c,
    decreases s.len(),
{
    if s.len() > 0 && s[0] != c {
        lemma_first_index_bounds(s.drop_first(), c);
    }
}

/// The template applied to the data: every `${key}` replaced by the value
/// stored under `key`. Absent when a `${` has no closing `}` or a key has
/// no pair; every other character stands as it is.
pub open spec fn apply_spec(t: Seq<char>, data: Seq<(Seq<char>, Seq<char>)>) -> Option<Seq<char>>
    decreases t.len(),
    via apply_spec_decreases
{
    if t.len() == 0 {
        Some(Seq::empty())
    } else if t[0] == '$' && t.len() >= 2 && t[1] == '{' {
        match first_index(t.skip(2), '}') {
            Some(j) => {
                let key = t.skip(2).take(j as int);
                match lookup_pair(data, key) {
                    Some(v) => opt_prepend(v, apply_spec(t.skip(3 + j as int), data)),
                    None => None,
                }
            },
            None => None,
        }
    } else {
        opt_prepend(seq![t[0]], apply_spec(t.skip(1), data))
    }
}

#[via_fn]
proof fn apply_spec_decreases(t: Seq<char>, data: Seq<(Seq<char>, Seq<char>)>) {
    lemma_first_index_bounds(t.skip(2), '}');
}

/// `prefix` put in front of a present tail.
pub open spec fn opt_prepend(prefix: Seq<char>, tail: Option<Seq<char>>) -> Option<Seq<char>> {
    match tail {
        Some(r) => Some(prefix + r),
        None => None,
    }
}

proof fn lemma_opt_prepend_assoc(a: Seq<char>, b: Seq<char>, tail: Option<Seq<char>>)
    ensures
        opt_prepend(a, opt_prepend(b, tail)) == opt_prepend(a + b, tail),
{
    match tail {
        Some(r) => {
            assert((a + b) + r =~= a + (b + r));
        },
        None => {},
    }
}

/// The store of templates, each filed under a namespace and a case name.
/// Of entries filed under the same pair, the earliest wins.
pub struct TemplateResolver {
    pub entries: Vec<(String, String, String)>,
}

impl TemplateResolver {
    /// An empty store.
    pub fn new() -> (r: Self)
        ensures
            r.entries@ == Seq::<(String, String, String)>::empty(),
    {
        TemplateResolver { entries: Vec::new() }
    }

    /// File `template` under (namespace, case).
    pub fn add(&mut self, namespace: &str, variant: &str, template: &str)
        ensures
            final(self).entries@.len() == old(self).entries@.len() + 1,
            final(self).entries@.drop_last() == old(self).entries@,
            store_views(final(self).entries@).last() == (namespace@, variant@, template@),
    {
        self.entries.push((namespace.to_owned(), variant.to_owned(), template.to_owned()));
        proof {
            assert(final(self).entries@.drop_last() =~= old(self).entries@);
        }
    }

    /// The first template filed under (namespace, case), if any.
    pub fn resolve(&self, namespace: &str, variant: &str) -> (r: Option<&String>)
        ensures
            match r {
                Some(t) => resolve_spec(store_views(self.entries@), namespace@, variant@)
                    == Some(t@),
                None => resolve_spec(store_views(self.entries@), namespace@, variant@) is None,
            },
    {
        let ghost es = store_views(self.entries@);
        let mut i: usize = 0;
        proof {
            assert(es.skip(0) =~= es);
        }
        while i < self.entries.len()
            invariant
                i <= self.entries@.len(),
                es == store_views(self.entries@),
                resolve_spec(es, namespace@, variant@) == resolve_spec(
                    es.skip(i as int),
                    namespace@,
                    variant@,
                ),
            decreases self.entries@.len() - i,
        {
            let e = &self.entries[i];
            proof {
                assert(es.skip(i as int)[0] == es[i as int]);
                assert(es.skip(i as int).drop_first() =~= es.skip(i + 1));
            }
            if str_eq(e.0.as_str(), namespace) && str_eq(e.1.as_str(), variant) {
                return Some(&self.entries[i].2);
            }
            i = i + 1;
        }
        proof {
            assert(es.skip(es.len() as int) =~= Seq::<(Seq<char>, Seq<char>, Seq<char>)>::empty());
        }
        None
    }
}

/// Apply `template` to the data pairs: substitute every `${key}`.
pub fn apply_template(template: &str, data: &Vec<(String, String)>) -> (r: Option<String>)
    ensures
        match r {
            Some(s) => apply_spec(template@, pair_views(data@)) == Some(s@),
            None => apply_spec(template@, pair_views(data@)) is None,
        },
{
    let cs = chars_of(template);
    let n = cs.len();
    let ghost dv = pair_views(data@);
    let mut out: Vec<char> = Vec::new();
    let mut i: usize = 0;
    proof {
        assert(cs@.skip(0) =~= cs@);
        assert(out@ + apply_spec(cs@, dv)->0 =~= apply_spec(cs@, dv)->0);
    }
    while i < n
        invariant
            i <= n,
            n == cs@.len(),
            cs@ == template@,
            dv == pair_views(data@),
            apply_spec(cs@, dv) == opt_prepend(out@, apply_spec(cs@.skip(i as int), dv)),
        decreases n - i,
    {
        let c = cs[i];
        let ghost rest = cs@.skip(i as int);
        if c == '$' && i + 1 < n && cs[i + 1] == '{' {
            proof {
                assert(rest[0] == '$' && rest.len() >= 2 && rest[1] == '{');
            }
            // scan for the closing brace
            let mut k: usize = i + 2;
            while k < n && cs[k] != '}'
                invariant
                    i + 2 <= k <= n,
                    n == cs@.len(),
                    forall|j: int| i + 2 <= j < k ==> cs@[j] != '}',
                decreases n - k,
            {
                k = k + 1;
            }
            proof {
                let sub = rest.skip(2);
                assert(sub =~= cs@.skip(i + 2));
                assert(forall|j: int| 0 <= j < k - (i + 2) ==> sub[j] == cs@[j + i + 2]);
                lemma_first_index(sub, '}', (k - (i + 2)) as nat);
            }
            if k == n {
                // unclosed `${`: the template is invalid for any data
                return None;
            }
            let key_chars = {
                let mut key_chars: Vec<char> = Vec::new();
                let mut p: usize = i + 2;
                while p < k
                    invariant
                        i + 2 <= p <= k <= n,
                        n == cs@.len(),
                        key_chars@ == cs@.subrange(i + 2, p as int),
                    decreases k - p,
                {
                    proof {
                        assert(cs@.subrange(i + 2, p + 1) =~= cs@.subrange(i + 2, p as int).push(
                            cs@[p as int],
                        ));
                    }
                    key_chars.push(cs[p]);
                    p = p + 1;
                }
                key_chars
            };
            let key = string_from_chars(&key_chars);
            proof {
                assert(rest.skip(2).take(k - (i + 2)) =~= cs@.subrange(i + 2, k as int));
            }
            let value = lookup_value(data, key.as_str());
            match value {
                Some(v) => {
                    let ghost out0 = out@;
                    let mut vcs = chars_of(v.as_str());
                    let ghost vv = vcs@;
                    out.append(&mut vcs);
                    proof {
                        assert(rest.skip(3 + (k - (i + 2))) =~= cs@.skip(k + 1));
                        lemma_opt_prepend_assoc(out0, vv, apply_spec(cs@.skip(k + 1), dv));
                    }
                    i = k + 1;
                },
                None => {
                    return None;
                },
            }
        } else {
            proof {
                assert(rest.skip(1) =~= cs@.skip(i + 1));
                lemma_opt_prepend_assoc(out@, seq![rest[0]], apply_spec(cs@.skip(i + 1), dv));
                assert(out@ + seq![rest[0]] =~= out@.push(rest[0]));
            }
            out.push(c);
            i = i + 1;
        }
    }
    proof {
        assert(cs@.skip(n as int) =~= Seq::<char>::empty());
        assert(out@ + Seq::<char>::empty() =~= out@);
    }
    Some(string_from_chars(&out))
}

/// The value of the first data pair whose key is `key`, if any.
fn lookup_value<'a>(data: &'a Vec<(String, String)>, key: &str) -> (r: Option<&'a String>)
    ensures
        match r {
            Some(v) => lookup_pair(pair_views(data@), key@) == Some(v@),
            None => lookup_pair(pair_views(data@), key@) is None,
        },
{
    let ghost dv = pair_views(data@);
    let mut i: usize = 0;
    proof {
        assert(dv.skip(0) =~= dv);
    }
    while i < data.len()
        invariant
            i <= data@.len(),
            dv == pair_views(data@),
            lookup_pair(dv, key@) == lookup_pair(dv.skip(i as int), key@),
        decreases data@.len() - i,
    {
        proof {
            assert(dv.skip(i as int)[0] == dv[i as int]);
            assert(dv.skip(i as int).drop_first() =~= dv.skip(i + 1));
        }
        if str_eq(data[i].0.as_str(), key) {
            return Some(&data[i].1);
        }
        i = i + 1;
    }
    proof {
        assert(dv.skip(dv.len() as int) =~= Seq::<(Seq<char>, Seq<char>)>::empty());
    }
    None
}

/// Which step of rendering failed.
#[derive(Clone, Copy, Debug, PartialEq, Eq, Structural)]
pub enum RenderFailure {
    Resolution,
    Application,
}

/// The outcome of rendering the descriptor against a store: the resolved
/// and applied text, or the step that failed.
pub open spec fn render_spec(
    es: Seq<(Seq<char>, Seq<char>, Seq<char>)>,
    ns: Seq<char>,
    vc: Seq<char>,
    dv: Seq<(Seq<char>, Seq<char>)>,
) -> Result<Seq<char>, RenderFailure> {
    match resolve_spec(es, ns, vc) {
        None => Err(RenderFailure::Resolution),
        Some(t) => match apply_spec(t, dv) {
            None => Err(RenderFailure::Application),
            Some(x) => Ok(x),
        },
    }
}

/// Whether the reported error matches the failed step and names the
/// descriptor that failed.
pub open spec fn render_err_matches(
    e: ResponderError,
    f: RenderFailure,
    ns: Seq<char>,
    vc: Seq<char>,
) -> bool {
    match e {
        ResponderError::TemplateResolution { namespace, variant } => {
            &&& f == RenderFailure::Resolution
            &&& namespace@ == ns
            &&& variant@ == vc
        },
        ResponderError::TemplateApplication { namespace, variant } => {
            &&& f == RenderFailure::Application
            &&& namespace@ == ns
            &&& variant@ == vc
        },
    }
}

/// The reply addressing prefix put in front of resolved text.
pub open spec fn reply_prefixed(name: Seq<char>, text: Seq<char>) -> Seq<char> {
    seq!['@'] + name + seq![':', ' '] + text
}

/// Resolve the descriptor's template and apply its data.
fn render(resolver: &TemplateResolver, t: &ResponseTemplate) -> (r: Result<String, ResponderError>)
    ensures
        match r {
            Ok(s) => render_spec(
                store_views(resolver.entries@),
                t.namespace@,
                t.variant@,
                pair_views(t.data@),
            ) == Ok::<Seq<char>, RenderFailure>(s@),
            Err(e) => {
                &&& render_spec(
                    store_views(resolver.entries@),
                    t.namespace@,
                    t.variant@,
                    pair_views(t.data@),
                ) matches Err(f) && render_err_matches(e, f, t.namespace@, t.variant@)
            },
        },
{
    let template = match resolver.resolve(t.namespace.as_str(), t.variant.as_str()) {
        Some(template) => template,
        None => {
            return Err(
                ResponderError::TemplateResolution {
                    namespace: t.namespace.clone(),
                    variant: t.variant.clone(),
                },
            );
        },
    };
    match apply_template(template.as_str(), &t.data) {
        Some(text) => Ok(text),
        None => Err(
            ResponderError::TemplateApplication {
                namespace: t.namespace.clone(),
                variant: t.variant.clone(),
            },
        ),
    }
}

/// The responder that renders descriptors and buffers the outbound lines
/// for the transport to drain.
pub struct WriterResponder {
    pub resolver: TemplateResolver,
    pub queue: Vec<Outbound>,
}

impl WriterResponder {
    /// A responder over the given template store, with nothing buffered.
    pub fn new(resolver: TemplateResolver) -> (r: Self)
        ensures
            r.resolver == resolver,
            r.queue@ == Seq::<Outbound>::empty(),
    {
        WriterResponder { resolver, queue: Vec::new() }
    }

    /// What rendering the descriptor against this responder's store yields.
    pub open spec fn renders(&self, t: &ResponseTemplate) -> Result<Seq<char>, RenderFailure> {
        render_spec(
            store_views(self.resolver.entries@),
            t.namespace@,
            t.variant@,
            pair_views(t.data@),
        )
    }

    /// Say the rendered text in the room: buffer one plain outbound line.
    /// Fails, buffering nothing, exactly when rendering fails.
    pub fn say(&mut self, room: &Room, t: &ResponseTemplate) -> (r: Result<(), ResponderError>)
        ensures
            r is Ok <==> old(self).renders(t) is Ok,
            final(self).resolver == old(self).resolver,
            r is Ok ==> {
                &&& final(self).queue@.len() == old(self).queue@.len() + 1
                &&& final(self).queue@.drop_last() == old(self).queue@
                &&& final(self).queue@.last().room@ == room.name@
                &&& final(self).queue@.last().text@ == old(self).renders(t)->Ok_0
                &&& final(self).queue@.last().action == false
            },
            r matches Err(e) ==> {
                &&& *final(self) == *old(self)
                &&& old(self).renders(t) matches Err(f) && render_err_matches(
                    e,
                    f,
                    t.namespace@,
                    t.variant@,
                )
            },
    {
        let text = render(&self.resolver, t)?;
        self.queue.push(Outbound { room: room.name.clone(), text, action: false });
        proof {
            assert(final(self).queue@.drop_last() =~= old(self).queue@);
        }
        Ok(())
    }

    /// Reply to the user in the room: like `say`, with the user's display
    /// name prefixed as `@name: `.
    pub fn reply(&mut self, room: &Room, user: &User, t: &ResponseTemplate) -> (r: Result<
        (),
        ResponderError,
    >)
        ensures
            r is Ok <==> old(self).renders(t) is Ok,
            final(self).resolver == old(self).resolver,
            r is Ok ==> {
                &&& final(self).queue@.len() == old(self).queue@.len() + 1
                &&& final(self).queue@.drop_last() == old(self).queue@
                &&& final(self).queue@.last().room@ == room.name@
                &&& final(self).queue@.last().text@ == reply_prefixed(
                    user.name@,
                    old(self).renders(t)->Ok_0,
                )
                &&& final(self).queue@.last().action == false
            },
            r matches Err(e) ==> {
                &&& *final(self) == *old(self)
                &&& old(self).renders(t) matches Err(f) && render_err_matches(
                    e,
                    f,
                    t.namespace@,
                    t.variant@,
                )
            },
    {
        let text = render(&self.resolver, t)?;
        let mut line = "@".to_owned();
        line.append(user.name.as_str());
        line.append(": ");
        line.append(text.as_str());
        proof {
            reveal_strlit("@");
            reveal_strlit(": ");
            assert(line@ =~= reply_prefixed(user.name@, text@));
        }
        self.queue.push(Outbound { room: room.name.clone(), text: line, action: false });
        proof {
            assert(final(self).queue@.drop_last() =~= old(self).queue@);
        }
        Ok(())
    }

    /// Send the rendered text down the protocol's action (emote) path.
    pub fn action(&mut self, room: &Room, t: &ResponseTemplate) -> (r: Result<(), ResponderError>)
        ensures
            r is Ok <==> old(self).renders(t) is Ok,
            final(self).resolver == old(self).resolver,
            r is Ok ==> {
                &&& final(self).queue@.len() == old(self).queue@.len() + 1
                &&& final(self).queue@.drop_last() == old(self).queue@
                &&& final(self).queue@.last().room@ == room.name@
                &&& final(self).queue@.last().text@ == old(self).renders(t)->Ok_0
                &&& final(self).queue@.last().action == true
            },
            r matches Err(e) ==> {
                &&& *final(self) == *old(self)
                &&& old(self).renders(t) matches Err(f) && render_err_matches(
                    e,
                    f,
                    t.namespace@,
                    t.variant@,
                )
            },
    {
        let text = render(&self.resolver, t)?;
        self.queue.push(Outbound { room: room.name.clone(), text, action: true });
        proof {
            assert(final(self).queue@.drop_last() =~= old(self).queue@);
        }
        Ok(())
    }

    /// Hand every buffered outbound line to the caller, leaving the buffer
    /// empty. The transport delivers them in this order.
    pub fn take_outbound(&mut self) -> (r: Vec<Outbound>)
        ensures
            r@ == old(self).queue@,
            final(self).queue@ == Seq::<Outbound>::empty(),
            final(self).resolver == old(self).resolver,
    {
        let mut out: Vec<Outbound> = Vec::new();
        core::mem::swap(&mut out, &mut self.queue);
        out
    }
}

/// A decorating responder; the decoration (a trace of destination,
/// namespace and case for the observability sink) is the transport's
/// concern, so this delegates unchanged and preserves every success and
/// failure outcome of the inner responder.
pub struct LoggingResponder {
    pub inner: WriterResponder,
}

impl LoggingResponder {
    /// Wrap a responder.
    pub fn new(inner: WriterResponder) -> (r: Self)
        ensures
            r.inner == inner,
    {
        LoggingResponder { inner }
    }

    /// Delegates to the inner `say`, outcome unchanged.
    pub fn say(&mut self, room: &Room, t: &ResponseTemplate) -> (r: Result<(), ResponderError>)
        ensures
            r is Ok <==> old(self).inner.renders(t) is Ok,
            final(self).inner.resolver == old(self).inner.resolver,
            r is Ok ==> {
                &&& final(self).inner.queue@.len() == old(self).inner.queue@.len() + 1
                &&& final(self).inner.queue@.drop_last() == old(self).inner.queue@
                &&& final(self).inner.queue@.last().room@ == room.name@
                &&& final(self).inner.queue@.last().text@ == old(self).inner.renders(t)->Ok_0
                &&& final(self).inner.queue@.last().action == false
            },
            r is Err ==> *final(self) == *old(self),
    {
        self.inner.say(room, t)
    }

    /// Delegates to the inner `reply`, outcome unchanged.
    pub fn reply(&mut self, room: &Room, user: &User, t: &ResponseTemplate) -> (r: Result<
        (),
        ResponderError,
    >)
        ensures
            r is Ok <==> old(self).inner.renders(t) is Ok,
            final(self).inner.resolver == old(self).inner.resolver,
            r is Ok ==> {
                &&& final(self).inner.queue@.len() == old(self).inner.queue@.len() + 1
                &&& final(self).inner.queue@.drop_last() == old(self).inner.queue@
                &&& final(self).inner.queue@.last().room@ == room.name@
                &&& final(self).inner.queue@.last().text@ == reply_prefixed(
                    user.name@,
                    old(self).inner.renders(t)->Ok_0,
                )
                &&& final(self).inner.queue@.last().action == false
            },
            r is Err ==> *final(self) == *old(self),
    {
        self.inner.reply(room, user, t)
    }

    /// Delegates to the inner `action`, outcome unchanged.
    pub fn action(&mut self, room: &Room, t: &ResponseTemplate) -> (r: Result<(), ResponderError>)
        ensures
            r is Ok <==> old(self).inner.renders(t) is Ok,
            final(self).inner.resolver == old(self).inner.resolver,
            r is Ok ==> {
                &&& final(self).inner.queue@.len() == old(self).inner.queue@.len() + 1
                &&& final(self).inner.queue@.drop_last() == old(self).inner.queue@
                &&& final(self).inner.queue@.last().room@ == room.name@
                &&& final(self).inner.queue@.last().text@ == old(self).inner.renders(t)->Ok_0
                &&& final(self).inner.queue@.last().action == true
            },
            r is Err ==> *final(self) == *old(self),
    {
        self.inner.action(room, t)
    }
}

/// The responder that discards all output and always succeeds; for tests
/// and for running handlers whose output nobody wants.
#[derive(Clone, Copy, Debug, Default)]
pub struct NullResponder {}

impl NullResponder {
    /// Discards the line; always succeeds.
    pub fn say(&mut self, room: &Room, t: &ResponseTemplate) -> (r: Result<(), ResponderError>)
        ensures
            r is Ok,
            *final(self) == *old(self),
    {
        let _ = room;
        let _ = t;
        Ok(())
    }

    /// Discards the line; always succeeds.
    pub fn reply(&mut self, room: &Room, user: &User, t: &ResponseTemplate) -> (r: Result<
        (),
        ResponderError,
    >)
        ensures
            r is Ok,
            *final(self) == *old(self),
    {
        let _ = room;
        let _ = user;
        let _ = t;
        Ok(())
    }

    /// Discards the line; always succeeds.
    pub fn action(&mut self, room: &Room, t: &ResponseTemplate) -> (r: Result<(), ResponderError>)
        ensures
            r is Ok,
            *final(self) == *old(self),
    {
        let _ = room;
        let _ = t;
        Ok(())
    }
}

} // verus!
