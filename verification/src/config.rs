//! The bot configuration: plain values, seeded at startup and republished
//! by the watcher. Reading the file and parsing its markup happen at the
//! transport edge, which hands the parsed values over.

use vstd::prelude::*;

verus! {

/// The gibberish generator's settings. `chance_ppm` is the passive firing
/// probability in parts per million.
pub struct Shakespeare {
    pub whitelist: Vec<String>,
    pub address: String,
    pub chance_ppm: u32,
    pub quiet: u64,
    pub interval: u64,
}

/// The song lookup service's settings.
pub struct WhatSong {
    pub whitelist: Vec<String>,
    pub address: String,
}

/// The whole configuration.
pub struct Config {
    pub user_name: String,
    pub rooms: Vec<String>,
    pub owners: Vec<String>,
    pub shakespeare: Shakespeare,
    pub whatsong: WhatSong,
}

impl Default for Shakespeare {
    /// Half chance, five minutes of quiet, half a minute of cooldown.
    fn default() -> (r: Self)
        ensures
            r.whitelist@.len() == 0,
            r.address@ == "http://localhost:9090"@,
            r.chance_ppm == 500000,
            r.quiet == 300,
            r.interval == 30,
    {
        Shakespeare {
            whitelist: Vec::new(),
            address: "http://localhost:9090".to_owned(),
            chance_ppm: 500000,
            quiet: 300,
            interval: 30,
        }
    }
}

impl Default for WhatSong {
    fn default() -> (r: Self)
        ensures
            r.whitelist@.len() == 0,
            r.address@ == "http://localhost:58810"@,
    {
        WhatSong { whitelist: Vec::new(), address: "http://localhost:58810".to_owned() }
    }
}

impl Default for Config {
    /// The startup configuration before any file is read: the default
    /// collaborator settings under a default bot identity.
    fn default() -> (r: Self)
        ensures
            r.user_name@ == "shaken_bot"@,
            r.rooms@.len() == 0,
            r.owners@.len() == 0,
            r.shakespeare.whitelist@.len() == 0,
            r.shakespeare.address@ == "http://localhost:9090"@,
            r.shakespeare.chance_ppm == 500000,
            r.shakespeare.quiet == 300,
            r.shakespeare.interval == 30,
            r.whatsong.whitelist@.len() == 0,
            r.whatsong.address@ == "http://localhost:58810"@,
    {
        Config {
            user_name: "shaken_bot".to_owned(),
            rooms: Vec::new(),
            owners: Vec::new(),
            shakespeare: Shakespeare::default(),
            whatsong: WhatSong::default(),
        }
    }
}

} // verus!
