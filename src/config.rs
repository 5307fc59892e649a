//! Process configuration.
use vstd::prelude::*;

verus! {

pub struct Config {
    pub server: ServerConfig,
    pub database: DatabaseConfig,
    pub jwt: JwtConfig,
    pub ffmpeg: FfmpegConfig,
    pub storage: StorageConfig,
}

pub struct ServerConfig {
    pub host: String,
    pub port: u16,
}

pub struct DatabaseConfig {
    pub url: String,
}

pub struct JwtConfig {
    pub secret: String,
    pub expiration: i64,
}

pub struct FfmpegConfig {
    pub ffmpeg_path: String,
    pub ffprobe_path: String,
}

pub struct StorageConfig {
    pub media_path: String,
    pub thumbnails_path: String,
    pub playlists_path: String,
}

} // verus!
