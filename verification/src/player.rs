//! Video players: which ones are installed, and the command line that
//! launches each. Probing the system and spawning the process happen
//! outside the library.

use vstd::prelude::*;

use crate::config::PlayerName;

verus! {

/// Options passed to the player when launching.
pub struct PlayOptions {
    pub url: String,
    pub title: String,
    pub referer: Option<String>,
    pub subtitle_path: Option<String>,
}

/// A program and its arguments.
pub struct CommandLine {
    pub program: String,
    pub args: Vec<String>,
}

/// What was found on this system: programs on the `PATH` and application
/// bundles under `/Applications`.
pub struct PlayerProbe {
    pub mpv_on_path: bool,
    pub iina_bundle: bool,
    pub iina_on_path: bool,
    pub vlc_on_path: bool,
    pub vlc_bundle: bool,
    pub quicktime_bundle: bool,
}

/// Why a player cannot be launched.
#[derive(Debug, Clone, Copy, PartialEq, Eq, Structural)]
pub enum LaunchError {
    /// The custom player is selected but no command is configured.
    NoCustomCommand,
}

impl PlayerProbe {
    pub open spec fn has_mpv(self) -> bool {
        self.mpv_on_path
    }

    pub open spec fn has_iina(self) -> bool {
        self.iina_bundle || self.iina_on_path
    }

    pub open spec fn has_vlc(self) -> bool {
        self.vlc_on_path || self.vlc_bundle
    }

    pub open spec fn has_quicktime(self) -> bool {
        self.quicktime_bundle
    }
}

/// The installed players, in the order mpv, IINA, VLC, QuickTime.
pub open spec fn installed(p: PlayerProbe) -> Seq<PlayerName> {
    (if p.has_mpv() { seq![PlayerName::Mpv] } else { Seq::empty() })
        + (if p.has_iina() { seq![PlayerName::Iina] } else { Seq::empty() })
        + (if p.has_vlc() { seq![PlayerName::Vlc] } else { Seq::empty() })
        + (if p.has_quicktime() { seq![PlayerName::Quicktime] } else { Seq::empty() })
}

/// Detect which players are installed on this system.
pub fn detect_installed(probe: &PlayerProbe) -> (r: Vec<PlayerName>)
    ensures
        r@ == installed(*probe),
        r@.len() <= 4,
{
    let mut found: Vec<PlayerName> = Vec::new();
    if probe.mpv_on_path {
        found.push(PlayerName::Mpv);
    }
    if probe.iina_bundle || probe.iina_on_path {
        found.push(PlayerName::Iina);
    }
    if probe.vlc_on_path || probe.vlc_bundle {
        found.push(PlayerName::Vlc);
    }
    if probe.quicktime_bundle {
        found.push(PlayerName::Quicktime);
    }
    assert(found@ =~= installed(*probe));
    found
}

/// Whether the configured player can be found. For the custom player,
/// `custom_on_path` says whether its command was found on the `PATH`.
pub fn validate_player(
    name: PlayerName,
    custom_command: Option<&str>,
    custom_on_path: bool,
    probe: &PlayerProbe,
) -> (r: bool)
    ensures
        r == match name {
            PlayerName::Mpv => probe.has_mpv(),
            PlayerName::Iina => probe.has_iina(),
            PlayerName::Vlc => probe.has_vlc(),
            PlayerName::Quicktime => probe.has_quicktime(),
            PlayerName::Custom => custom_command is Some && custom_on_path,
        },
{
    match name {
        PlayerName::Mpv => probe.mpv_on_path,
        PlayerName::Iina => probe.iina_bundle || probe.iina_on_path,
        PlayerName::Vlc => probe.vlc_on_path || probe.vlc_bundle,
        PlayerName::Quicktime => probe.quicktime_bundle,
        PlayerName::Custom => custom_command.is_some() && custom_on_path,
    }
}

/// `prefix` followed by `s`.
fn prefixed(prefix: &str, s: &String) -> (r: String)
    ensures
        r@ == prefix@ + s@,
{
    String::from_str(prefix).concat(s.as_str())
}

/// `flag` followed by the value, when there is one.
pub open spec fn optional_flag(flag: Seq<char>, value: Option<String>) -> Seq<Seq<char>> {
    match value {
        Some(v) => seq![flag + v@],
        None => Seq::empty(),
    }
}

fn push_optional_flag(args: &mut Vec<String>, flag: &str, value: &Option<String>)
    ensures
        final(args)@.map_values(|s: String| s@) == old(args)@.map_values(|s: String| s@)
            + optional_flag(flag@, *value),
{
    let ghost before = args@;
    if let Some(v) = value {
        args.push(prefixed(flag, v));
        assert(args@.map_values(|s: String| s@) =~= before.map_values(|s: String| s@) + seq![flag@ + v@]);
    } else {
        assert(args@.map_values(|s: String| s@) =~= before.map_values(|s: String| s@) + Seq::<Seq<char>>::empty());
    }
}

/// The text of each argument.
pub open spec fn arg_texts(args: Seq<String>) -> Seq<Seq<char>> {
    args.map_values(|s: String| s@)
}

/// The mpv command line.
pub open spec fn mpv_args(o: PlayOptions) -> Seq<Seq<char>> {
    seq![o.url@, "--force-media-title="@ + o.title@] + optional_flag("--referrer="@, o.referer)
        + optional_flag("--sub-file="@, o.subtitle_path)
}

/// The IINA command line (after the program).
pub open spec fn iina_args(o: PlayOptions) -> Seq<Seq<char>> {
    seq![o.url@, "--no-stdin"@, "--keep-running"@, "--mpv-force-media-title="@ + o.title@]
        + optional_flag("--mpv-referrer="@, o.referer) + optional_flag("--mpv-sub-file="@, o.subtitle_path)
}

/// The VLC command line (after the program).
pub open spec fn vlc_args(o: PlayOptions) -> Seq<Seq<char>> {
    seq![o.url@, "--play-and-exit"@, "--meta-title="@ + o.title@] + optional_flag(
        "--http-referrer="@,
        o.referer,
    ) + optional_flag("--sub-file="@, o.subtitle_path)
}

/// mpv gets the URL, the media title, then `--referrer=` with the referer
/// and `--sub-file=` with the subtitle file, each only when it is given.
pub proof fn mpv_arguments(o: PlayOptions)
    ensures
        o.referer is None && o.subtitle_path is None ==> mpv_args(o) == seq![
            o.url@,
            "--force-media-title="@ + o.title@,
        ],
        o.referer is Some && o.subtitle_path is None ==> mpv_args(o) == seq![
            o.url@,
            "--force-media-title="@ + o.title@,
            "--referrer="@ + (o.referer->0)@,
        ],
        o.referer is None && o.subtitle_path is Some ==> mpv_args(o) == seq![
            o.url@,
            "--force-media-title="@ + o.title@,
            "--sub-file="@ + (o.subtitle_path->0)@,
        ],
        o.referer is Some && o.subtitle_path is Some ==> mpv_args(o) == seq![
            o.url@,
            "--force-media-title="@ + o.title@,
            "--referrer="@ + (o.referer->0)@,
            "--sub-file="@ + (o.subtitle_path->0)@,
        ],
{
    assert(seq![o.url@, "--force-media-title="@ + o.title@] + Seq::<Seq<char>>::empty()
        =~= seq![o.url@, "--force-media-title="@ + o.title@]);
    assert(seq![o.url@, "--force-media-title="@ + o.title@] + Seq::<Seq<char>>::empty()
        + Seq::<Seq<char>>::empty() =~= seq![o.url@, "--force-media-title="@ + o.title@]);
    if o.referer is Some {
        assert(seq![o.url@, "--force-media-title="@ + o.title@] + seq!["--referrer="@ + (o.referer->0)@]
            + Seq::<Seq<char>>::empty() =~= seq![
            o.url@,
            "--force-media-title="@ + o.title@,
            "--referrer="@ + (o.referer->0)@,
        ]);
    }
    if o.subtitle_path is Some {
        assert(seq![o.url@, "--force-media-title="@ + o.title@] + Seq::<Seq<char>>::empty()
            + seq!["--sub-file="@ + (o.subtitle_path->0)@] =~= seq![
            o.url@,
            "--force-media-title="@ + o.title@,
            "--sub-file="@ + (o.subtitle_path->0)@,
        ]);
    }
    if o.referer is Some && o.subtitle_path is Some {
        assert(seq![o.url@, "--force-media-title="@ + o.title@] + seq!["--referrer="@ + (o.referer->0)@]
            + seq!["--sub-file="@ + (o.subtitle_path->0)@] =~= seq![
            o.url@,
            "--force-media-title="@ + o.title@,
            "--referrer="@ + (o.referer->0)@,
            "--sub-file="@ + (o.subtitle_path->0)@,
        ]);
    }
}

/// IINA hands its options to mpv with the `--mpv-` prefix: it gets the URL,
/// `--no-stdin`, `--keep-running`, the media title, then `--mpv-referrer=`
/// with the referer and `--mpv-sub-file=` with the subtitle file, each only
/// when it is given.
pub proof fn iina_passes_mpv_options(o: PlayOptions)
    ensures
        o.referer is None && o.subtitle_path is None ==> iina_args(o) == seq![
            o.url@,
            "--no-stdin"@,
            "--keep-running"@,
            "--mpv-force-media-title="@ + o.title@,
        ],
        o.referer is Some && o.subtitle_path is None ==> iina_args(o) == seq![
            o.url@,
            "--no-stdin"@,
            "--keep-running"@,
            "--mpv-force-media-title="@ + o.title@,
            "--mpv-referrer="@ + (o.referer->0)@,
        ],
        o.referer is None && o.subtitle_path is Some ==> iina_args(o) == seq![
            o.url@,
            "--no-stdin"@,
            "--keep-running"@,
            "--mpv-force-media-title="@ + o.title@,
            "--mpv-sub-file="@ + (o.subtitle_path->0)@,
        ],
        o.referer is Some && o.subtitle_path is Some ==> iina_args(o) == seq![
            o.url@,
            "--no-stdin"@,
            "--keep-running"@,
            "--mpv-force-media-title="@ + o.title@,
            "--mpv-referrer="@ + (o.referer->0)@,
            "--mpv-sub-file="@ + (o.subtitle_path->0)@,
        ],
{
    assert(seq![o.url@, "--no-stdin"@, "--keep-running"@, "--mpv-force-media-title="@ + o.title@] + Seq::<Seq<char>>::empty() + Seq::<Seq<char>>::empty() =~= seq![
            o.url@,
            "--no-stdin"@,
            "--keep-running"@,
            "--mpv-force-media-title="@ + o.title@,
        ]);
    if o.referer is Some {
        assert(seq![o.url@, "--no-stdin"@, "--keep-running"@, "--mpv-force-media-title="@ + o.title@] + seq!["--mpv-referrer="@ + (o.referer->0)@] + Seq::<Seq<char>>::empty() =~= seq![
            o.url@,
            "--no-stdin"@,
            "--keep-running"@,
            "--mpv-force-media-title="@ + o.title@,
            "--mpv-referrer="@ + (o.referer->0)@,
        ]);
    }
    if o.subtitle_path is Some {
        assert(seq![o.url@, "--no-stdin"@, "--keep-running"@, "--mpv-force-media-title="@ + o.title@] + Seq::<Seq<char>>::empty() + seq!["--mpv-sub-file="@ + (o.subtitle_path->0)@] =~= seq![
            o.url@,
            "--no-stdin"@,
            "--keep-running"@,
            "--mpv-force-media-title="@ + o.title@,
            "--mpv-sub-file="@ + (o.subtitle_path->0)@,
        ]);
    }
    if o.referer is Some && o.subtitle_path is Some {
        assert(seq![o.url@, "--no-stdin"@, "--keep-running"@, "--mpv-force-media-title="@ + o.title@] + seq!["--mpv-referrer="@ + (o.referer->0)@] + seq!["--mpv-sub-file="@ + (o.subtitle_path->0)@] =~= seq![
            o.url@,
            "--no-stdin"@,
            "--keep-running"@,
            "--mpv-force-media-title="@ + o.title@,
            "--mpv-referrer="@ + (o.referer->0)@,
            "--mpv-sub-file="@ + (o.subtitle_path->0)@,
        ]);
    }
}

/// VLC gets the URL, `--play-and-exit`, the title, then `--http-referrer=`
/// with the referer and `--sub-file=` with the subtitle file, each only when
/// it is given.
pub proof fn vlc_arguments(o: PlayOptions)
    ensures
        o.referer is None && o.subtitle_path is None ==> vlc_args(o) == seq![
            o.url@,
            "--play-and-exit"@,
            "--meta-title="@ + o.title@,
        ],
        o.referer is Some && o.subtitle_path is None ==> vlc_args(o) == seq![
            o.url@,
            "--play-and-exit"@,
            "--meta-title="@ + o.title@,
            "--http-referrer="@ + (o.referer->0)@,
        ],
        o.referer is None && o.subtitle_path is Some ==> vlc_args(o) == seq![
            o.url@,
            "--play-and-exit"@,
            "--meta-title="@ + o.title@,
            "--sub-file="@ + (o.subtitle_path->0)@,
        ],
        o.referer is Some && o.subtitle_path is Some ==> vlc_args(o) == seq![
            o.url@,
            "--play-and-exit"@,
            "--meta-title="@ + o.title@,
            "--http-referrer="@ + (o.referer->0)@,
            "--sub-file="@ + (o.subtitle_path->0)@,
        ],
{
    assert(seq![o.url@, "--play-and-exit"@, "--meta-title="@ + o.title@] + Seq::<Seq<char>>::empty() + Seq::<Seq<char>>::empty() =~= seq![
            o.url@,
            "--play-and-exit"@,
            "--meta-title="@ + o.title@,
        ]);
    if o.referer is Some {
        assert(seq![o.url@, "--play-and-exit"@, "--meta-title="@ + o.title@] + seq!["--http-referrer="@ + (o.referer->0)@] + Seq::<Seq<char>>::empty() =~= seq![
            o.url@,
            "--play-and-exit"@,
            "--meta-title="@ + o.title@,
            "--http-referrer="@ + (o.referer->0)@,
        ]);
    }
    if o.subtitle_path is Some {
        assert(seq![o.url@, "--play-and-exit"@, "--meta-title="@ + o.title@] + Seq::<Seq<char>>::empty() + seq!["--sub-file="@ + (o.subtitle_path->0)@] =~= seq![
            o.url@,
            "--play-and-exit"@,
            "--meta-title="@ + o.title@,
            "--sub-file="@ + (o.subtitle_path->0)@,
        ]);
    }
    if o.referer is Some && o.subtitle_path is Some {
        assert(seq![o.url@, "--play-and-exit"@, "--meta-title="@ + o.title@] + seq!["--http-referrer="@ + (o.referer->0)@] + seq!["--sub-file="@ + (o.subtitle_path->0)@] =~= seq![
            o.url@,
            "--play-and-exit"@,
            "--meta-title="@ + o.title@,
            "--http-referrer="@ + (o.referer->0)@,
            "--sub-file="@ + (o.subtitle_path->0)@,
        ]);
    }
}

/// Launches mpv.
pub struct Mpv;

/// Launches IINA through its command-line tool.
pub struct Iina;

/// Launches VLC.
pub struct Vlc;

impl Mpv {
    pub fn build_command(&self, opts: &PlayOptions) -> (r: CommandLine)
        ensures
            r.program@ == "mpv"@,
            arg_texts(r.args@) == mpv_args(*opts),
    {
        let mut args: Vec<String> = Vec::new();
        args.push(opts.url.clone());
        args.push(prefixed("--force-media-title=", &opts.title));
        push_optional_flag(&mut args, "--referrer=", &opts.referer);
        push_optional_flag(&mut args, "--sub-file=", &opts.subtitle_path);
        CommandLine { program: String::from_str("mpv"), args }
    }
}

impl Iina {
    /// `bundle_installed` says whether IINA.app is in /Applications; its
    /// command-line tool is used then, `iina` from the `PATH` otherwise.
    pub fn build_command(&self, opts: &PlayOptions, bundle_installed: bool) -> (r: CommandLine)
        ensures
            r.program@ == (if bundle_installed {
                "/Applications/IINA.app/Contents/MacOS/iina-cli"@
            } else {
                "iina"@
            }),
            arg_texts(r.args@) == iina_args(*opts),
    {
        let program = if bundle_installed {
            String::from_str("/Applications/IINA.app/Contents/MacOS/iina-cli")
        } else {
            String::from_str("iina")
        };
        let mut args: Vec<String> = Vec::new();
        args.push(opts.url.clone());
        args.push(String::from_str("--no-stdin"));
        args.push(String::from_str("--keep-running"));
        args.push(prefixed("--mpv-force-media-title=", &opts.title));
        push_optional_flag(&mut args, "--mpv-referrer=", &opts.referer);
        push_optional_flag(&mut args, "--mpv-sub-file=", &opts.subtitle_path);
        CommandLine { program, args }
    }
}

impl Vlc {
    /// `bundle_installed` says whether VLC.app is in /Applications; its
    /// binary is used then, `vlc` from the `PATH` otherwise.
    pub fn build_command(&self, opts: &PlayOptions, bundle_installed: bool) -> (r: CommandLine)
        ensures
            r.program@ == (if bundle_installed {
                "/Applications/VLC.app/Contents/MacOS/VLC"@
            } else {
                "vlc"@
            }),
            arg_texts(r.args@) == vlc_args(*opts),
    {
        let program = if bundle_installed {
            String::from_str("/Applications/VLC.app/Contents/MacOS/VLC")
        } else {
            String::from_str("vlc")
        };
        let mut args: Vec<String> = Vec::new();
        args.push(opts.url.clone());
        args.push(String::from_str("--play-and-exit"));
        args.push(prefixed("--meta-title=", &opts.title));
        push_optional_flag(&mut args, "--http-referrer=", &opts.referer);
        push_optional_flag(&mut args, "--sub-file=", &opts.subtitle_path);
        CommandLine { program, args }
    }
}

/// QuickTime is opened through `open -a`.
pub fn build_quicktime_command(opts: &PlayOptions) -> (r: CommandLine)
    ensures
        r.program@ == "open"@,
        arg_texts(r.args@) == seq!["-a"@, "QuickTime Player"@, opts.url@],
{
    let mut args: Vec<String> = Vec::new();
    args.push(String::from_str("-a"));
    args.push(String::from_str("QuickTime Player"));
    args.push(opts.url.clone());
    assert(arg_texts(args@) =~= seq!["-a"@, "QuickTime Player"@, opts.url@]);
    CommandLine { program: String::from_str("open"), args }
}

/// The command line that launches the configured player.
/// `iina_bundle` and `vlc_bundle` say whether the macOS applications are installed.
pub fn player_command(
    player_name: PlayerName,
    custom_command: Option<&str>,
    opts: &PlayOptions,
    iina_bundle: bool,
    vlc_bundle: bool,
) -> (r: Result<CommandLine, LaunchError>)
    ensures
        player_name == PlayerName::Custom && custom_command is None <==> r is Err,
        r matches Ok(c) ==> match player_name {
            PlayerName::Mpv => c.program@ == "mpv"@ && arg_texts(c.args@) == mpv_args(*opts),
            PlayerName::Iina => arg_texts(c.args@) == iina_args(*opts) && c.program@ == (
            if iina_bundle {
                "/Applications/IINA.app/Contents/MacOS/iina-cli"@
            } else {
                "iina"@
            }),
            PlayerName::Vlc => arg_texts(c.args@) == vlc_args(*opts) && c.program@ == (
            if vlc_bundle {
                "/Applications/VLC.app/Contents/MacOS/VLC"@
            } else {
                "vlc"@
            }),
            PlayerName::Quicktime => c.program@ == "open"@ && arg_texts(c.args@) == seq![
                "-a"@,
                "QuickTime Player"@,
                opts.url@,
            ],
            PlayerName::Custom => c.program@ == custom_command->0@ && arg_texts(c.args@) == seq![
                opts.url@,
            ],
        },
{
    match player_name {
        PlayerName::Mpv => Ok(Mpv.build_command(opts)),
        PlayerName::Iina => Ok(Iina.build_command(opts, iina_bundle)),
        PlayerName::Vlc => Ok(Vlc.build_command(opts, vlc_bundle)),
        PlayerName::Quicktime => Ok(build_quicktime_command(opts)),
        PlayerName::Custom => match custom_command {
            Some(bin) => {
                let mut args: Vec<String> = Vec::new();
                args.push(opts.url.clone());
                assert(arg_texts(args@) =~= seq![opts.url@]);
                Ok(CommandLine { program: String::from_str(bin), args })
            },
            None => Err(LaunchError::NoCustomCommand),
        },
    }
}

} // verus!
