//! Configuration values, as plain data.
//!
//! Reading and writing the on-disk TOML file is I/O and stays outside the
//! library; what stands here is the shape of the configuration and the path
//! of the default file.

use vstd::prelude::*;
use crate::mixer::VOLUME_MAX;

verus! {

/// Audio-related settings. The input volume is a gain in 1/256 steps, as
/// everywhere in the pipeline.
pub struct AudioConfig {
    pub input_volume: Option<u32>,
}

impl AudioConfig {
    /// A configured volume stays inside the accepted gain range.
    pub open spec fn wf(&self) -> bool {
        match self.input_volume {
            Some(v) => v <= VOLUME_MAX,
            None => true,
        }
    }
}

/// One saved server: a display name, where to reach it, and optional
/// credentials.
pub struct ServerConfig {
    pub name: String,
    pub host: String,
    pub port: Option<u16>,
    pub username: Option<String>,
    pub password: Option<String>,
}

/// A configured sound effect: the event key and the file to play.
pub struct SoundEffect {
    pub event: String,
    pub file: String,
}

/// The whole configuration file.
pub struct Config {
    pub audio: Option<AudioConfig>,
    pub servers: Option<Vec<ServerConfig>>,
}

impl Config {
    pub open spec fn wf(&self) -> bool {
        match self.audio {
            Some(a) => a.wf(),
            None => true,
        }
    }
}

/// Where the configuration file lives.
pub fn get_cfg_path() -> (r: String)
    ensures
        r@ == ".mumdrc"@,
{
    String::from_str(".mumdrc")
}

} // verus!
