//! The song-lookup service's answer as plain values, and the decision the
//! current-song handler makes over it. The HTTP fetch stays at the
//! transport edge and hands the fields over.

use vstd::prelude::*;

verus! {

/// One song of the lookup service. `timestamp` is when it started, in
/// seconds since the epoch; `duration` is its length in seconds.
pub struct Song {
    pub id: i64,
    pub vid: String,
    pub timestamp: u64,
    pub duration: u64,
    pub title: String,
}

impl Song {
    /// The playback position the current-song answer carries: how long ago
    /// the song started. The service interface stands a song down — no
    /// position, nothing playing — when its duration exceeds its start
    /// timestamp; otherwise the position is reported as it is, however far
    /// along.
    pub fn current_position(&self, now: u64) -> (r: Option<u64>)
        requires
            self.timestamp <= now,
        ensures
            r is Some <==> self.duration <= self.timestamp,
            r matches Some(ts) ==> ts == now - self.timestamp,
    {
        let ts = now - self.timestamp;
        if self.duration <= self.timestamp {
            Some(ts)
        } else {
            None
        }
    }
}

/// The public watch link of a song's video id.
pub fn youtube_url(vid: &str) -> (r: String)
    ensures
        r@ == "https://youtu.be/"@ + vid@,
{
    let mut url = "https://youtu.be/".to_owned();
    url.append(vid);
    url
}

} // verus!
