//! The configuration watcher's core: a debounce queue that collapses bursts
//! of change notifications into one settled item, and a versioned live
//! snapshot that republishing replaces for all current and future readers.
//! The filesystem notification source, the file read and the parse live at
//! the transport edge; they hand plain values in and take plain values out.

use vstd::prelude::*;

verus! {

/// Whether a queue last touched at `last` has settled by `comp`: strictly
/// more than `freq` has passed.
pub open spec fn settled_spec(last: u64, freq: u64, comp: u64) -> bool {
    last + freq < comp
}

/// What a settling attempt yields: the most recent item once settled,
/// nothing before that and nothing from an empty queue.
pub open spec fn force_result<T>(queue: Seq<T>, settled: bool) -> Option<T> {
    if settled && queue.len() > 0 {
        Some(queue.last())
    } else {
        None
    }
}

/// What a settling attempt leaves queued: nothing once settled, everything
/// before that.
pub open spec fn force_queue<T>(queue: Seq<T>, settled: bool) -> Seq<T> {
    if settled {
        Seq::empty()
    } else {
        queue
    }
}

/// The debounce queue: items arrive in bursts; once no item has arrived
/// for strictly longer than `freq`, the queue settles and only the most
/// recent item is kept.
pub struct DebounceQueue<T> {
    pub freq: u64,
    pub last: u64,
    pub queue: Vec<T>,
}

impl<T> DebounceQueue<T> {
    /// Whether the queue has settled by `comp`.
    pub open spec fn settled(&self, comp: u64) -> bool {
        settled_spec(self.last, self.freq, comp)
    }

    /// An empty queue, created at `now`.
    pub fn new(freq: u64, now: u64) -> (r: Self)
        ensures
            r.freq == freq,
            r.last == now,
            r.queue@ == Seq::<T>::empty(),
    {
        DebounceQueue { freq, last: now, queue: Vec::new() }
    }

    /// Record an arrival at `now`.
    pub fn push(&mut self, item: T, now: u64)
        ensures
            final(self).freq == old(self).freq,
            final(self).last == now,
            final(self).queue@ == old(self).queue@.push(item),
    {
        self.queue.push(item);
        self.last = now;
    }

    /// Try to settle at `comp`. Before the window has strictly elapsed
    /// nothing happens; afterwards the queue is drained and only the most
    /// recent item comes out (nothing, when no item was queued).
    pub fn force(&mut self, comp: u64) -> (r: Option<T>)
        ensures
            final(self).freq == old(self).freq,
            final(self).last == old(self).last,
            r == force_result(old(self).queue@, old(self).settled(comp)),
            final(self).queue@ == force_queue(old(self).queue@, old(self).settled(comp)),
    {
        let elapsed = if comp >= self.last {
            comp - self.last
        } else {
            0
        };
        if elapsed > self.freq {
            let r = self.queue.pop();
            self.queue.clear();
            proof {
                if old(self).queue@.len() == 0 {
                    assert(old(self).queue@ =~= Seq::<T>::empty());
                }
            }
            r
        } else {
            None
        }
    }
}

/// Law: three change notifications arriving within one debounce window
/// collapse into a single settled item, the last-queued one. A tick while
/// the window is still open yields nothing and drops nothing; the first
/// tick after the window has strictly elapsed yields exactly the last
/// queued item and empties the queue, so every later tick yields nothing:
/// one item comes out, hence one re-parse and one publish follow.
pub proof fn lemma_debounce_collapse<T>(
    q0: Seq<T>,
    freq: u64,
    t3: u64,
    p1: T,
    p2: T,
    p3: T,
    tick: u64,
    settle: u64,
)
    requires
        tick <= t3 + freq,
        t3 + freq < settle,
    ensures
        force_result(q0.push(p1).push(p2).push(p3), settled_spec(t3, freq, tick)) is None,
        force_queue(q0.push(p1).push(p2).push(p3), settled_spec(t3, freq, tick)) == q0.push(
            p1,
        ).push(p2).push(p3),
        force_result(q0.push(p1).push(p2).push(p3), settled_spec(t3, freq, settle)) == Some(p3),
        force_queue(q0.push(p1).push(p2).push(p3), settled_spec(t3, freq, settle)) == Seq::<
            T,
        >::empty(),
        force_result(Seq::<T>::empty(), settled_spec(t3, freq, settle)) is None,
{
}

/// The live configuration: a versioned snapshot; each publish replaces the
/// value for every current and future reader and advances the version.
pub struct LiveConfig<C> {
    pub version: u64,
    pub value: C,
}

impl<C> LiveConfig<C> {
    /// The snapshot seeded at startup.
    pub fn new(initial: C) -> (r: Self)
        ensures
            r.version == 0,
            r.value == initial,
    {
        LiveConfig { version: 0, value: initial }
    }

    /// Replace the snapshot for everyone; the version advances by one.
    pub fn publish(&mut self, value: C)
        requires
            old(self).version < u64::MAX,
        ensures
            final(self).version == old(self).version + 1,
            final(self).value == value,
    {
        self.version = self.version + 1;
        self.value = value;
    }

    /// Read the current snapshot.
    pub fn current(&self) -> (r: &C)
        ensures
            *r == self.value,
    {
        &self.value
    }
}

/// One reader's place in the publish order: it knows which version it last
/// saw. A late subscriber starts at the current version, receiving only
/// the value current at subscription time, never history.
pub struct ConfigSubscription {
    pub seen: u64,
}

impl ConfigSubscription {
    /// Subscribe now: the reader starts current.
    pub fn subscribe<C>(live: &LiveConfig<C>) -> (r: Self)
        ensures
            r.seen == live.version,
    {
        ConfigSubscription { seen: live.version }
    }

    /// Whether a publish happened that this reader has not seen.
    pub fn is_stale<C>(&self, live: &LiveConfig<C>) -> (r: bool)
        ensures
            r == (self.seen != live.version),
    {
        self.seen != live.version
    }

    /// Read the current snapshot and become current.
    pub fn next<'a, C>(&mut self, live: &'a LiveConfig<C>) -> (r: &'a C)
        ensures
            *r == live.value,
            final(self).seen == live.version,
    {
        self.seen = live.version;
        &live.value
    }
}

} // verus!
