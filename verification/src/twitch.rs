//! The shapes the streaming service's API answers take, as plain values
//! (the HTTP client at the transport edge fills them in), and the
//! decisions the stream-information handlers make over them.

use vstd::prelude::*;

verus! {

/// The people in a channel, by role.
pub struct Users {
    pub room: String,
    pub chatter_count: usize,
    pub broadcaster: Vec<String>,
    pub vips: Vec<String>,
    pub moderators: Vec<String>,
    pub staff: Vec<String>,
    pub admins: Vec<String>,
    pub global_mods: Vec<String>,
    pub viewers: Vec<String>,
}

/// One live stream. `started_at` counts seconds since the epoch.
pub struct Stream {
    pub id: u64,
    pub user_id: u64,
    pub user_name: String,
    pub game_id: u64,
    pub type_: Option<String>,
    pub title: String,
    pub viewer_count: u64,
    pub started_at: u64,
}

/// One user of the service.
pub struct User {
    pub id: u64,
    pub login: String,
    pub display_name: String,
}

/// Whether position `i` holds the first stream broadcast by `room_id`.
pub open spec fn first_stream_at(streams: Seq<Stream>, i: int, room_id: u64) -> bool {
    &&& 0 <= i < streams.len()
    &&& streams[i].user_id == room_id
    &&& forall|j: int| 0 <= j < i ==> streams[j].user_id != room_id
}

/// The first stream of the answer that the room itself broadcasts, if any.
pub fn find_stream(streams: &Vec<Stream>, room_id: u64) -> (r: Option<usize>)
    ensures
        match r {
            Some(i) => first_stream_at(streams@, i as int, room_id),
            None => forall|j: int| 0 <= j < streams@.len() ==> streams@[j].user_id != room_id,
        },
{
    let mut i: usize = 0;
    while i < streams.len()
        invariant
            i <= streams@.len(),
            forall|j: int| 0 <= j < i ==> streams@[j].user_id != room_id,
        decreases streams@.len() - i,
    {
        if streams[i].user_id == room_id {
            return Some(i);
        }
        i = i + 1;
    }
    None
}

/// How long the room's own stream has been up at `now`: the seconds since
/// it started (zero when the clock stands before the start), or absent
/// when the room is offline.
pub fn stream_uptime(streams: &Vec<Stream>, room_id: u64, now: u64) -> (r: Option<u64>)
    ensures
        match r {
            Some(d) => exists|i: int|
                first_stream_at(streams@, i, room_id) && d == (if now
                    >= streams@[i].started_at {
                    now - streams@[i].started_at
                } else {
                    0
                }),
            None => forall|j: int| 0 <= j < streams@.len() ==> streams@[j].user_id != room_id,
        },
{
    match find_stream(streams, room_id) {
        Some(i) => {
            let started = streams[i].started_at;
            if now >= started {
                Some(now - started)
            } else {
                Some(0)
            }
        },
        None => None,
    }
}

/// How many viewers the room's own stream has, or absent when the room is
/// offline.
pub fn viewer_count_for(streams: &Vec<Stream>, room_id: u64) -> (r: Option<u64>)
    ensures
        match r {
            Some(n) => exists|i: int|
                first_stream_at(streams@, i, room_id) && n == streams@[i].viewer_count,
            None => forall|j: int| 0 <= j < streams@.len() ==> streams@[j].user_id != room_id,
        },
{
    match find_stream(streams, room_id) {
        Some(i) => Some(streams[i].viewer_count),
        None => None,
    }
}

} // verus!
