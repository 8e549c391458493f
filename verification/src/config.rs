//! User settings: metadata providers, player, audio mode and minimum quality.
//! Reading and writing `config.toml` happens outside the library.

use vstd::prelude::*;

use crate::model::stream::Quality;

verus! {

/// Where series, episode and poster metadata come from.
#[derive(Debug, Clone, Copy, PartialEq, Eq, Structural)]
pub enum MetadataProvider {
    Jikan,
    Anilist,
    Anidb,
    Kitsu,
    Notify,
}

/// Subtitled or dubbed audio.
#[derive(Debug, Clone, Copy, PartialEq, Eq, Structural)]
pub enum AudioMode {
    Sub,
    Dub,
}

/// The video player to launch.
#[derive(Debug, Clone, Copy, PartialEq, Eq, Structural)]
pub enum PlayerName {
    Mpv,
    Iina,
    Vlc,
    Quicktime,
    Custom,
}

/// The lowest stream quality the user wants to play.
#[derive(Debug, Clone, Copy, PartialEq, Eq, Structural)]
pub enum MinQuality {
    Any,
    P360,
    P480,
    P720,
    P1080,
}

/// The `[general]` table.
pub struct GeneralConfig {
    pub series_provider: MetadataProvider,
    pub episode_provider: MetadataProvider,
    pub poster_provider: MetadataProvider,
    pub default_mode: AudioMode,
    pub min_quality: MinQuality,
}

/// The `[player]` table.
pub struct PlayerConfig {
    pub name: PlayerName,
    pub custom_command: Option<String>,
}

/// The `[subtitles]` table.
pub struct SubtitleConfig {
    pub enabled: bool,
    pub language: String,
    pub opensubtitles_api_key: Option<String>,
}

/// The `[anidb]` table.
pub struct AnidbConfig {
    pub client: Option<String>,
    pub client_version: Option<u32>,
}

/// The whole configuration file.
pub struct Config {
    pub general: GeneralConfig,
    pub player: PlayerConfig,
    pub subtitles: SubtitleConfig,
    pub anidb: AnidbConfig,
}

impl MetadataProvider {
    /// The value written in `config.toml`.
    pub fn as_str(self) -> (r: &'static str)
        ensures
            r@ == match self {
                MetadataProvider::Jikan => "jikan"@,
                MetadataProvider::Anilist => "anilist"@,
                MetadataProvider::Anidb => "anidb"@,
                MetadataProvider::Kitsu => "kitsu"@,
                MetadataProvider::Notify => "notify"@,
            },
    {
        match self {
            MetadataProvider::Jikan => "jikan",
            MetadataProvider::Anilist => "anilist",
            MetadataProvider::Anidb => "anidb",
            MetadataProvider::Kitsu => "kitsu",
            MetadataProvider::Notify => "notify",
        }
    }
}

impl MinQuality {
    /// Whether a stream of quality `quality` meets this minimum.
    /// `Quality::Unknown` always passes: streams without a resolution are not rejected.
    pub open spec fn spec_accepts(self, quality: Quality) -> bool {
        match self {
            MinQuality::Any => true,
            MinQuality::P360 => quality.rank() >= Quality::P360.rank() || quality == Quality::Unknown,
            MinQuality::P480 => quality.rank() >= Quality::P480.rank() || quality == Quality::Unknown,
            MinQuality::P720 => quality.rank() >= Quality::P720.rank() || quality == Quality::Unknown,
            MinQuality::P1080 => quality.rank() >= Quality::P1080.rank() || quality == Quality::Unknown,
        }
    }

    /// Check if a stream quality meets this minimum.
    pub fn accepts(self, quality: Quality) -> (r: bool)
        ensures
            r == self.spec_accepts(quality),
    {
        let rank: u8 = match quality {
            Quality::Unknown => 0,
            Quality::P360 => 1,
            Quality::P480 => 2,
            Quality::P720 => 3,
            Quality::P1080 => 4,
        };
        let unknown = rank == 0;
        match self {
            MinQuality::Any => true,
            MinQuality::P360 => rank >= 1 || unknown,
            MinQuality::P480 => rank >= 2 || unknown,
            MinQuality::P720 => rank >= 3 || unknown,
            MinQuality::P1080 => rank >= 4 || unknown,
        }
    }
}

/// Raising the quality of a stream never makes a minimum reject it.
pub proof fn accepts_is_monotone(min: MinQuality, q1: Quality, q2: Quality)
    requires
        min.spec_accepts(q1),
        q1 != Quality::Unknown,
        q1.rank() <= q2.rank(),
    ensures
        min.spec_accepts(q2),
{
}

/// `Any` accepts every stream and every minimum accepts `Unknown`.
pub proof fn accepts_any_and_unknown(min: MinQuality, q: Quality)
    ensures
        MinQuality::Any.spec_accepts(q),
        min.spec_accepts(Quality::Unknown),
{
}

impl Default for GeneralConfig {
    fn default() -> (r: Self)
        ensures
            r.series_provider == MetadataProvider::Jikan,
            r.episode_provider == MetadataProvider::Jikan,
            r.poster_provider == MetadataProvider::Jikan,
            r.default_mode == AudioMode::Sub,
            r.min_quality == MinQuality::P1080,
    {
        GeneralConfig {
            series_provider: MetadataProvider::Jikan,
            episode_provider: MetadataProvider::Jikan,
            poster_provider: MetadataProvider::Jikan,
            default_mode: AudioMode::Sub,
            min_quality: MinQuality::P1080,
        }
    }
}

impl Default for PlayerConfig {
    fn default() -> (r: Self)
        ensures
            r.name == PlayerName::Mpv,
            r.custom_command is None,
    {
        PlayerConfig { name: PlayerName::Mpv, custom_command: None }
    }
}

impl Default for SubtitleConfig {
    fn default() -> (r: Self)
        ensures
            r.enabled,
            r.language@ == "en"@,
            r.opensubtitles_api_key is None,
    {
        SubtitleConfig {
            enabled: true,
            language: String::from_str("en"),
            opensubtitles_api_key: None,
        }
    }
}

impl Default for AnidbConfig {
    fn default() -> (r: Self)
        ensures
            r.client is None,
            r.client_version is None,
    {
        AnidbConfig { client: None, client_version: None }
    }
}

impl Config {
    /// The settings used when no config file exists yet.
    pub open spec fn is_default(self) -> bool {
        &&& self.general.series_provider == MetadataProvider::Jikan
        &&& self.general.episode_provider == MetadataProvider::Jikan
        &&& self.general.poster_provider == MetadataProvider::Jikan
        &&& self.general.default_mode == AudioMode::Sub
        &&& self.general.min_quality == MinQuality::P1080
        &&& self.player.name == PlayerName::Mpv
        &&& self.player.custom_command is None
        &&& self.subtitles.enabled
        &&& self.subtitles.language@ == "en"@
        &&& self.subtitles.opensubtitles_api_key is None
        &&& self.anidb.client is None
        &&& self.anidb.client_version is None
    }
}

impl Default for Config {
    fn default() -> (r: Self)
        ensures
            r.is_default(),
    {
        Config {
            general: GeneralConfig::default(),
            player: PlayerConfig::default(),
            subtitles: SubtitleConfig::default(),
            anidb: AnidbConfig::default(),
        }
    }
}

impl Clone for Config {
    fn clone(&self) -> (r: Self)
        ensures
            r == *self,
    {
        Config {
            general: GeneralConfig {
                series_provider: self.general.series_provider,
                episode_provider: self.general.episode_provider,
                poster_provider: self.general.poster_provider,
                default_mode: self.general.default_mode,
                min_quality: self.general.min_quality,
            },
            player: PlayerConfig {
                name: self.player.name,
                custom_command: crate::model::anime::clone_opt_string(&self.player.custom_command),
            },
            subtitles: SubtitleConfig {
                enabled: self.subtitles.enabled,
                language: self.subtitles.language.clone(),
                opensubtitles_api_key: crate::model::anime::clone_opt_string(
                    &self.subtitles.opensubtitles_api_key,
                ),
            },
            anidb: AnidbConfig {
                client: crate::model::anime::clone_opt_string(&self.anidb.client),
                client_version: self.anidb.client_version,
            },
        }
    }
}

} // verus!
