//! The command line: what each argument list asks for, and the messages the
//! command line answers with.

use vstd::prelude::*;

use crate::config::{Layout, RenderConfiguration, RenderConfigurationView};
use crate::digest::{sha256_label, sha256_label_of};
use crate::domain::Mainline;
use crate::export::FfmpegBinary;
use crate::preview::{PreviewReloadPolicy, PreviewReloadWatch, PreviewRunSummary, PreviewWindowStatus};
use crate::text::{concat, decimal, decimal_text, owned, push_text};
use vstd::utf8::encode_utf8;

verus! {

/// The help text.
pub open spec fn help_message() -> Seq<char> {
    "Gitflux command-line interface\n\nUsage:\n  gitflux [OPTIONS]\n  gitflux render <repository-path> --output <output-path>\n  gitflux preview <repository-path>\n  gitflux diagnostics <repository-path>\n\nOptions:\n  -h, --help       Print help\n  -V, --version    Print version\n  --ffmpeg-path    Use a specific FFmpeg binary for Video Export\n"@
}

/// Returns the help text.
pub fn help_text() -> (r: String)
    ensures
        r@ == help_message(),
{
    owned(
        "Gitflux command-line interface\n\nUsage:\n  gitflux [OPTIONS]\n  gitflux render <repository-path> --output <output-path>\n  gitflux preview <repository-path>\n  gitflux diagnostics <repository-path>\n\nOptions:\n  -h, --help       Print help\n  -V, --version    Print version\n  --ffmpeg-path    Use a specific FFmpeg binary for Video Export\n",
    )
}

/// The version this command line reports.
pub open spec fn version_message() -> Seq<char> {
    "gitflux 0.1.0\n"@
}

/// Returns the version line.
pub fn version_text() -> (r: String)
    ensures
        r@ == version_message(),
{
    owned("gitflux 0.1.0\n")
}

/// Which Mainline a command replays.
#[derive(Debug, Clone, PartialEq, Eq)]
pub enum MainlineSelection {
    /// Detect the Mainline from the repository.
    Detect,
    /// Use the named Mainline.
    Explicit(Mainline),
}

/// The view of a Mainline selection: the name, when one was given.
pub open spec fn selection_view(m: MainlineSelection) -> Option<Seq<char>> {
    match m {
        MainlineSelection::Detect => None,
        MainlineSelection::Explicit(name) => Some(name@),
    }
}

impl MainlineSelection {
    /// The label shown for the selection: `auto`, or the Mainline's name.
    pub fn as_label(&self) -> (r: &str)
        ensures
            r@ == match selection_view(*self) {
                None => "auto"@,
                Some(name) => name,
            },
    {
        match self {
            MainlineSelection::Detect => "auto",
            MainlineSelection::Explicit(mainline) => mainline.as_str(),
        }
    }

    /// How the Mainline was chosen: `detected` or `explicit`.
    pub fn selection_mode(&self) -> (r: &str)
        ensures
            r@ == match selection_view(*self) {
                None => "detected"@,
                Some(_) => "explicit"@,
            },
    {
        match self {
            MainlineSelection::Detect => "detected",
            MainlineSelection::Explicit(_) => "explicit",
        }
    }
}

/// The subcommands that take a repository path and options.
#[derive(Debug, Clone, Copy, PartialEq, Eq)]
pub enum CommandKind {
    /// `render`
    Render,
    /// `preview`
    Preview,
    /// `diagnostics`
    Diagnostics,
}

/// The name of a subcommand in messages.
pub open spec fn kind_name(kind: CommandKind) -> Seq<char> {
    match kind {
        CommandKind::Render => "render"@,
        CommandKind::Preview => "preview"@,
        CommandKind::Diagnostics => "diagnostics"@,
    }
}

/// The options read so far.
pub struct OptionsView {
    pub output_path: Option<Seq<char>>,
    pub config_path: Option<Seq<char>>,
    pub mainline: Option<Seq<char>>,
    pub ffmpeg_path: Seq<char>,
    pub json: bool,
    pub reload: bool,
}

/// No option read yet: FFmpeg from the search path, Mainline detected,
/// human output, config reload on.
pub open spec fn initial_options() -> OptionsView {
    OptionsView {
        output_path: None,
        config_path: None,
        mainline: None,
        ffmpeg_path: "ffmpeg"@,
        json: false,
        reload: true,
    }
}

/// The options a subcommand accepts.
pub open spec fn accepts(kind: CommandKind, flag: Seq<char>) -> bool {
    match kind {
        CommandKind::Render => flag == "-o"@ || flag == "--output"@ || flag == "--config"@ || flag
            == "--mainline"@ || flag == "--ffmpeg-path"@ || flag == "--json"@,
        CommandKind::Preview => flag == "--config"@ || flag == "--mainline"@ || flag == "--no-config-reload"@,
        CommandKind::Diagnostics => flag == "--ffmpeg-path"@ || flag == "--mainline"@ || flag == "--json"@,
    }
}

/// Reads the options of a subcommand from `rest`, left to right; a later
/// option overrides an earlier one.
pub open spec fn read_options(kind: CommandKind, st: OptionsView, rest: Seq<Seq<char>>) -> Result<OptionsView, Seq<char>>
    decreases rest.len(),
{
    if rest.len() == 0 {
        Ok(st)
    } else {
        let flag = rest[0];
        if !accepts(kind, flag) {
            Err("unrecognized "@ + kind_name(kind) + " option: "@ + flag)
        } else if flag == "--json"@ {
            read_options(kind, OptionsView { json: true, ..st }, rest.skip(1))
        } else if flag == "--no-config-reload"@ {
            read_options(kind, OptionsView { reload: false, ..st }, rest.skip(1))
        } else if rest.len() < 2 {
            Err(
                if flag == "--config"@ {
                    "missing render configuration path after --config"@
                } else if flag == "--mainline"@ {
                    "missing Mainline name after --mainline"@
                } else if flag == "--ffmpeg-path"@ {
                    "missing FFmpeg path after --ffmpeg-path"@
                } else {
                    "missing output path after --output"@
                },
            )
        } else {
            let value = rest[1];
            let next = if flag == "--config"@ {
                OptionsView { config_path: Some(value), ..st }
            } else if flag == "--mainline"@ {
                OptionsView { mainline: Some(value), ..st }
            } else if flag == "--ffmpeg-path"@ {
                OptionsView { ffmpeg_path: value, ..st }
            } else {
                OptionsView { output_path: Some(value), ..st }
            };
            read_options(kind, next, rest.skip(2))
        }
    }
}

/// The texts of a sequence of argument strings.
pub open spec fn arg_texts(args: Seq<String>) -> Seq<Seq<char>> {
    args.map_values(|a: String| a@)
}

/// Options read by `read_options`.
#[derive(Debug, Clone, PartialEq, Eq)]
struct Options {
    output_path: Option<String>,
    config_path: Option<String>,
    mainline: Option<String>,
    ffmpeg_path: String,
    json: bool,
    reload: bool,
}

/// The view of an optional string.
pub open spec fn opt_view(s: Option<String>) -> Option<Seq<char>> {
    match s {
        Some(t) => Some(t@),
        None => None,
    }
}

impl View for Options {
    type V = OptionsView;

    closed spec fn view(&self) -> OptionsView {
        OptionsView {
            output_path: opt_view(self.output_path),
            config_path: opt_view(self.config_path),
            mainline: opt_view(self.mainline),
            ffmpeg_path: self.ffmpeg_path@,
            json: self.json,
            reload: self.reload,
        }
    }
}

/// Whether a subcommand accepts a flag.
fn accepts_flag(kind: CommandKind, flag: &str) -> (r: bool)
    ensures
        r == accepts(kind, flag@),
{
    let f = crate::text::text_eq;
    match kind {
        CommandKind::Render => f(flag, "-o") || f(flag, "--output") || f(flag, "--config") || f(flag, "--mainline")
            || f(flag, "--ffmpeg-path") || f(flag, "--json"),
        CommandKind::Preview => f(flag, "--config") || f(flag, "--mainline") || f(flag, "--no-config-reload"),
        CommandKind::Diagnostics => f(flag, "--ffmpeg-path") || f(flag, "--mainline") || f(flag, "--json"),
    }
}

/// Reads the options of a subcommand from `args[start..]`.
fn parse_options(kind: CommandKind, args: &Vec<String>, start: usize) -> (r: Result<Options, String>)
    requires
        start <= args@.len(),
    ensures
        match read_options(kind, initial_options(), arg_texts(args@).skip(start as int)) {
            Ok(v) => r matches Ok(o) && o@ == v,
            Err(m) => r matches Err(e) && e@ == m,
        },
{
    let ghost all = arg_texts(args@);
    let mut st = Options {
        output_path: None,
        config_path: None,
        mainline: None,
        ffmpeg_path: owned("ffmpeg"),
        json: false,
        reload: true,
    };
    proof {
        reveal_strlit("ffmpeg");
    }
    let mut i: usize = start;
    while i < args.len()
        invariant
            start <= i <= args@.len(),
            all == arg_texts(args@),
            read_options(kind, initial_options(), all.skip(start as int)) == read_options(
                kind,
                st@,
                all.skip(i as int),
            ),
        decreases args@.len() - i,
    {
        let ghost rest = all.skip(i as int);
        assert(rest[0] == args@[i as int]@);
        let flag = args[i].as_str();
        if !accepts_flag(kind, flag) {
            let mut message = owned("unrecognized ");
            match kind {
                CommandKind::Render => push_text(&mut message, "render"),
                CommandKind::Preview => push_text(&mut message, "preview"),
                CommandKind::Diagnostics => push_text(&mut message, "diagnostics"),
            }
            push_text(&mut message, " option: ");
            push_text(&mut message, flag);
            proof {
                reveal_strlit("unrecognized ");
                reveal_strlit(" option: ");
            }
            return Err(message);
        }
        proof {
            assert(rest.skip(1) =~= all.skip(i + 1));
        }
        if crate::text::text_eq(flag, "--json") {
            st.json = true;
            i = i + 1;
        } else if crate::text::text_eq(flag, "--no-config-reload") {
            st.reload = false;
            i = i + 1;
        } else if i + 1 >= args.len() {
            if crate::text::text_eq(flag, "--config") {
                return Err(owned("missing render configuration path after --config"));
            } else if crate::text::text_eq(flag, "--mainline") {
                return Err(owned("missing Mainline name after --mainline"));
            } else if crate::text::text_eq(flag, "--ffmpeg-path") {
                return Err(owned("missing FFmpeg path after --ffmpeg-path"));
            } else {
                return Err(owned("missing output path after --output"));
            }
        } else {
            assert(rest[1] == args@[i + 1]@);
            assert(rest.skip(2) =~= all.skip(i + 2));
            let value = args[i + 1].clone();
            if crate::text::text_eq(flag, "--config") {
                st.config_path = Some(value);
            } else if crate::text::text_eq(flag, "--mainline") {
                st.mainline = Some(value);
            } else if crate::text::text_eq(flag, "--ffmpeg-path") {
                st.ffmpeg_path = value;
            } else {
                st.output_path = Some(value);
            }
            i = i + 2;
        }
    }
    assert(all.skip(i as int) =~= Seq::<Seq<char>>::empty());
    Ok(st)
}

/// The Mainline selection of an optional name.
fn selection_of(name: Option<String>) -> (r: MainlineSelection)
    ensures
        selection_view(r) == opt_view(name),
{
    match name {
        Some(n) => MainlineSelection::Explicit(Mainline::new(n.as_str())),
        None => MainlineSelection::Detect,
    }
}

/// What `render` was asked for.
#[derive(Debug, Clone, PartialEq, Eq)]
pub struct RenderArgs {
    repository_path: String,
    output_path: String,
    config_path: Option<String>,
    ffmpeg_binary: FfmpegBinary,
    mainline: MainlineSelection,
    json: bool,
}

/// What `render` was asked for, as values.
pub struct RenderArgsView {
    pub repository_path: Seq<char>,
    pub output_path: Seq<char>,
    pub config_path: Option<Seq<char>>,
    pub ffmpeg_path: Seq<char>,
    pub mainline: Option<Seq<char>>,
    pub json: bool,
}

impl View for RenderArgs {
    type V = RenderArgsView;

    closed spec fn view(&self) -> RenderArgsView {
        RenderArgsView {
            repository_path: self.repository_path@,
            output_path: self.output_path@,
            config_path: opt_view(self.config_path),
            ffmpeg_path: self.ffmpeg_binary@,
            mainline: selection_view(self.mainline),
            json: self.json,
        }
    }
}

impl RenderArgs {
    /// Returns the repository path.
    pub fn repository_path(&self) -> (r: &str)
        ensures
            r@ == self@.repository_path,
    {
        self.repository_path.as_str()
    }

    /// Returns the output path.
    pub fn output_path(&self) -> (r: &str)
        ensures
            r@ == self@.output_path,
    {
        self.output_path.as_str()
    }

    /// Returns the Render Configuration file, if one was given.
    pub fn config_path(&self) -> (r: Option<&str>)
        ensures
            r is Some == self@.config_path is Some,
            r matches Some(p) ==> p@ == self@.config_path.unwrap(),
    {
        match &self.config_path {
            Some(p) => Some(p.as_str()),
            None => None,
        }
    }

    /// Returns the FFmpeg binary.
    pub fn ffmpeg_binary(&self) -> (r: &FfmpegBinary)
        ensures
            r@ == self@.ffmpeg_path,
    {
        &self.ffmpeg_binary
    }

    /// Returns the Mainline selection.
    pub fn mainline(&self) -> (r: &MainlineSelection)
        ensures
            selection_view(*r) == self@.mainline,
    {
        &self.mainline
    }

    /// Returns whether JSON progress was asked for.
    pub fn json(&self) -> (r: bool)
        ensures
            r == self@.json,
    {
        self.json
    }
}

/// What `preview` was asked for.
#[derive(Debug, Clone, PartialEq, Eq)]
pub struct PreviewArgs {
    repository_path: String,
    config_path: Option<String>,
    mainline: MainlineSelection,
    reload_policy: PreviewReloadPolicy,
}

/// What `preview` was asked for, as values.
pub struct PreviewArgsView {
    pub repository_path: Seq<char>,
    pub config_path: Option<Seq<char>>,
    pub mainline: Option<Seq<char>>,
    pub reload_policy: PreviewReloadPolicy,
}

impl View for PreviewArgs {
    type V = PreviewArgsView;

    closed spec fn view(&self) -> PreviewArgsView {
        PreviewArgsView {
            repository_path: self.repository_path@,
            config_path: opt_view(self.config_path),
            mainline: selection_view(self.mainline),
            reload_policy: self.reload_policy,
        }
    }
}

impl PreviewArgs {
    /// Returns the repository path.
    pub fn repository_path(&self) -> (r: &str)
        ensures
            r@ == self@.repository_path,
    {
        self.repository_path.as_str()
    }

    /// Returns the Render Configuration file, if one was given.
    pub fn config_path(&self) -> (r: Option<&str>)
        ensures
            r is Some == self@.config_path is Some,
            r matches Some(p) ==> p@ == self@.config_path.unwrap(),
    {
        match &self.config_path {
            Some(p) => Some(p.as_str()),
            None => None,
        }
    }

    /// Returns the Mainline selection.
    pub fn mainline(&self) -> (r: &MainlineSelection)
        ensures
            selection_view(*r) == self@.mainline,
    {
        &self.mainline
    }

    /// Returns the reload policy.
    pub fn reload_policy(&self) -> (r: PreviewReloadPolicy)
        ensures
            r == self@.reload_policy,
    {
        self.reload_policy
    }
}

/// What `diagnostics` was asked for.
#[derive(Debug, Clone, PartialEq, Eq)]
pub struct DiagnosticsArgs {
    repository_path: String,
    ffmpeg_binary: FfmpegBinary,
    mainline: MainlineSelection,
    json: bool,
}

/// What `diagnostics` was asked for, as values.
pub struct DiagnosticsArgsView {
    pub repository_path: Seq<char>,
    pub ffmpeg_path: Seq<char>,
    pub mainline: Option<Seq<char>>,
    pub json: bool,
}

impl View for DiagnosticsArgs {
    type V = DiagnosticsArgsView;

    closed spec fn view(&self) -> DiagnosticsArgsView {
        DiagnosticsArgsView {
            repository_path: self.repository_path@,
            ffmpeg_path: self.ffmpeg_binary@,
            mainline: selection_view(self.mainline),
            json: self.json,
        }
    }
}

impl DiagnosticsArgs {
    /// Returns the repository path.
    pub fn repository_path(&self) -> (r: &str)
        ensures
            r@ == self@.repository_path,
    {
        self.repository_path.as_str()
    }

    /// Returns the FFmpeg binary.
    pub fn ffmpeg_binary(&self) -> (r: &FfmpegBinary)
        ensures
            r@ == self@.ffmpeg_path,
    {
        &self.ffmpeg_binary
    }

    /// Returns the Mainline selection.
    pub fn mainline(&self) -> (r: &MainlineSelection)
        ensures
            selection_view(*r) == self@.mainline,
    {
        &self.mainline
    }

    /// Returns whether a JSON report was asked for.
    pub fn json(&self) -> (r: bool)
        ensures
            r == self@.json,
    {
        self.json
    }
}

/// The error for a missing repository path argument.
pub open spec fn missing_repository_argument() -> Seq<char> {
    "missing repository path\n\n"@ + help_message()
}

/// The options of a subcommand's arguments (after the repository path).
pub open spec fn subcommand_options(kind: CommandKind, args: Seq<Seq<char>>) -> Result<OptionsView, Seq<char>> {
    if args.len() == 0 {
        Err(missing_repository_argument())
    } else {
        read_options(kind, initial_options(), args.skip(1))
    }
}

/// Reads a subcommand's repository path and options.
fn parse_subcommand(kind: CommandKind, args: &Vec<String>, start: usize) -> (r: Result<(String, Options), String>)
    requires
        start <= args@.len(),
    ensures
        match subcommand_options(kind, arg_texts(args@).skip(start as int)) {
            Ok(v) => r matches Ok(o) && o.1@ == v && o.0@ == arg_texts(args@)[start as int],
            Err(m) => r matches Err(e) && e@ == m,
        },
{
    if start >= args.len() {
        let mut message = owned("missing repository path\n\n");
        let help = help_text();
        push_text(&mut message, help.as_str());
        proof {
            reveal_strlit("missing repository path\n\n");
        }
        return Err(message);
    }
    let repository_path = args[start].clone();
    let options = parse_options(kind, args, start + 1);
    proof {
        assert(arg_texts(args@).skip(start as int).skip(1) =~= arg_texts(args@).skip(start + 1));
    }
    match options {
        Ok(o) => Ok((repository_path, o)),
        Err(e) => Err(e),
    }
}

/// The `render` arguments read from `args` (the words after `render`).
pub open spec fn render_args_of(args: Seq<Seq<char>>) -> Result<RenderArgsView, Seq<char>> {
    match subcommand_options(CommandKind::Render, args) {
        Err(e) => Err(e),
        Ok(o) => match o.output_path {
            None => Err("missing required --output <output-path>"@),
            Some(output) => Ok(
                RenderArgsView {
                    repository_path: args[0],
                    output_path: output,
                    config_path: o.config_path,
                    ffmpeg_path: o.ffmpeg_path,
                    mainline: o.mainline,
                    json: o.json,
                },
            ),
        },
    }
}

/// Reads the arguments of `render`: a repository path, then `--output`,
/// `--config`, `--mainline`, `--ffmpeg-path` and `--json`; the output path
/// is required.
pub fn parse_render_args(args: &Vec<String>, start: usize) -> (r: Result<RenderArgs, String>)
    requires
        start <= args@.len(),
    ensures
        match render_args_of(arg_texts(args@).skip(start as int)) {
            Ok(v) => r matches Ok(a) && a@ == v,
            Err(m) => r matches Err(e) && e@ == m,
        },
{
    let (repository_path, options) = match parse_subcommand(CommandKind::Render, args, start) {
        Ok(p) => p,
        Err(e) => {
            return Err(e);
        },
    };
    let output_path = match options.output_path {
        Some(p) => p,
        None => {
            return Err(owned("missing required --output <output-path>"));
        },
    };
    Ok(
        RenderArgs {
            repository_path,
            output_path,
            config_path: options.config_path,
            ffmpeg_binary: FfmpegBinary::from_path(options.ffmpeg_path.as_str()),
            mainline: selection_of(options.mainline),
            json: options.json,
        },
    )
}

/// The `preview` arguments read from `args` (the words after `preview`).
pub open spec fn preview_args_of(args: Seq<Seq<char>>) -> Result<PreviewArgsView, Seq<char>> {
    match subcommand_options(CommandKind::Preview, args) {
        Err(e) => Err(e),
        Ok(o) => Ok(
            PreviewArgsView {
                repository_path: args[0],
                config_path: o.config_path,
                mainline: o.mainline,
                reload_policy: if o.reload {
                    PreviewReloadPolicy::ConfigFileMetadata
                } else {
                    PreviewReloadPolicy::Disabled
                },
            },
        ),
    }
}

/// Reads the arguments of `preview`: a repository path, then `--config`,
/// `--mainline` and `--no-config-reload`.
pub fn parse_preview_args(args: &Vec<String>, start: usize) -> (r: Result<PreviewArgs, String>)
    requires
        start <= args@.len(),
    ensures
        match preview_args_of(arg_texts(args@).skip(start as int)) {
            Ok(v) => r matches Ok(a) && a@ == v,
            Err(m) => r matches Err(e) && e@ == m,
        },
{
    let (repository_path, options) = match parse_subcommand(CommandKind::Preview, args, start) {
        Ok(p) => p,
        Err(e) => {
            return Err(e);
        },
    };
    Ok(
        PreviewArgs {
            repository_path,
            config_path: options.config_path,
            mainline: selection_of(options.mainline),
            reload_policy: if options.reload {
                PreviewReloadPolicy::ConfigFileMetadata
            } else {
                PreviewReloadPolicy::Disabled
            },
        },
    )
}

/// The `diagnostics` arguments read from `args` (the words after
/// `diagnostics`).
pub open spec fn diagnostics_args_of(args: Seq<Seq<char>>) -> Result<DiagnosticsArgsView, Seq<char>> {
    match subcommand_options(CommandKind::Diagnostics, args) {
        Err(e) => Err(e),
        Ok(o) => Ok(
            DiagnosticsArgsView {
                repository_path: args[0],
                ffmpeg_path: o.ffmpeg_path,
                mainline: o.mainline,
                json: o.json,
            },
        ),
    }
}

/// Reads the arguments of `diagnostics`: a repository path, then
/// `--ffmpeg-path`, `--mainline` and `--json`.
pub fn parse_diagnostics_args(args: &Vec<String>, start: usize) -> (r: Result<DiagnosticsArgs, String>)
    requires
        start <= args@.len(),
    ensures
        match diagnostics_args_of(arg_texts(args@).skip(start as int)) {
            Ok(v) => r matches Ok(a) && a@ == v,
            Err(m) => r matches Err(e) && e@ == m,
        },
{
    let (repository_path, options) = match parse_subcommand(CommandKind::Diagnostics, args, start) {
        Ok(p) => p,
        Err(e) => {
            return Err(e);
        },
    };
    Ok(
        DiagnosticsArgs {
            repository_path,
            ffmpeg_binary: FfmpegBinary::from_path(options.ffmpeg_path.as_str()),
            mainline: selection_of(options.mainline),
            json: options.json,
        },
    )
}

/// What a command line asks for.
#[derive(Debug, Clone, PartialEq, Eq)]
pub enum CliRequest {
    /// Print this text: the help or the version.
    Print(String),
    /// Render a Video Export.
    Render(RenderArgs),
    /// Open an Interactive Preview.
    Preview(PreviewArgs),
    /// Report diagnostics.
    Diagnostics(DiagnosticsArgs),
}

/// What a command line asks for, as values.
pub enum CliRequestView {
    Print(Seq<char>),
    Render(RenderArgsView),
    Preview(PreviewArgsView),
    Diagnostics(DiagnosticsArgsView),
}

/// The view of a request.
pub open spec fn request_view(r: CliRequest) -> CliRequestView {
    match r {
        CliRequest::Print(text) => CliRequestView::Print(text@),
        CliRequest::Render(a) => CliRequestView::Render(a@),
        CliRequest::Preview(a) => CliRequestView::Preview(a@),
        CliRequest::Diagnostics(a) => CliRequestView::Diagnostics(a@),
    }
}

/// What the arguments after the program name ask for: help when there are
/// none or on `-h`/`--help`, the version on `-V`/`--version`, a subcommand
/// by its name (`doctor` also names diagnostics), an error otherwise.
pub open spec fn request_of(args: Seq<Seq<char>>) -> Result<CliRequestView, Seq<char>> {
    if args.len() == 0 || args[0] == "-h"@ || args[0] == "--help"@ {
        Ok(CliRequestView::Print(help_message()))
    } else if args[0] == "-V"@ || args[0] == "--version"@ {
        Ok(CliRequestView::Print(version_message()))
    } else if args[0] == "render"@ {
        match render_args_of(args.skip(1)) {
            Ok(a) => Ok(CliRequestView::Render(a)),
            Err(e) => Err(e),
        }
    } else if args[0] == "preview"@ {
        match preview_args_of(args.skip(1)) {
            Ok(a) => Ok(CliRequestView::Preview(a)),
            Err(e) => Err(e),
        }
    } else if args[0] == "diagnostics"@ || args[0] == "doctor"@ {
        match diagnostics_args_of(args.skip(1)) {
            Ok(a) => Ok(CliRequestView::Diagnostics(a)),
            Err(e) => Err(e),
        }
    } else {
        Err("unrecognized option: "@ + args[0] + "\n\n"@ + help_message())
    }
}

/// Reads what the arguments after the program name ask for.
pub fn run(args: &Vec<String>) -> (r: Result<CliRequest, String>)
    ensures
        match request_of(arg_texts(args@)) {
            Ok(v) => r matches Ok(q) && request_view(q) == v,
            Err(m) => r matches Err(e) && e@ == m,
        },
{
    let ghost all = arg_texts(args@);
    proof {
        assert(all.skip(0) =~= all);
        if all.len() > 0 {
            assert(all[0] == args@[0]@);
        }
    }
    if args.len() == 0 {
        return Ok(CliRequest::Print(help_text()));
    }
    let first = args[0].as_str();
    let eq = crate::text::text_eq;
    if eq(first, "-h") || eq(first, "--help") {
        return Ok(CliRequest::Print(help_text()));
    }
    if eq(first, "-V") || eq(first, "--version") {
        return Ok(CliRequest::Print(version_text()));
    }
    if eq(first, "render") {
        return match parse_render_args(args, 1) {
            Ok(a) => Ok(CliRequest::Render(a)),
            Err(e) => Err(e),
        };
    }
    if eq(first, "preview") {
        return match parse_preview_args(args, 1) {
            Ok(a) => Ok(CliRequest::Preview(a)),
            Err(e) => Err(e),
        };
    }
    if eq(first, "diagnostics") || eq(first, "doctor") {
        return match parse_diagnostics_args(args, 1) {
            Ok(a) => Ok(CliRequest::Diagnostics(a)),
            Err(e) => Err(e),
        };
    }
    let mut message = concat("unrecognized option: ", first);
    push_text(&mut message, "\n\n");
    let help = help_text();
    push_text(&mut message, help.as_str());
    proof {
        reveal_strlit("unrecognized option: ");
        reveal_strlit("\n\n");
    }
    Err(message)
}

/// The error for a repository path that does not exist, or is no directory.
pub open spec fn repository_path_error(path: Seq<char>, exists: bool, is_dir: bool) -> Option<Seq<char>> {
    if !exists {
        Some("repository path does not exist: "@ + path)
    } else if !is_dir {
        Some("repository path is not a directory: "@ + path)
    } else {
        None
    }
}

/// Accepts a repository path that exists and is a directory.
pub fn check_repository_path(path: &str, exists: bool, is_dir: bool) -> (r: Result<(), String>)
    ensures
        match repository_path_error(path@, exists, is_dir) {
            None => r is Ok,
            Some(m) => r matches Err(e) && e@ == m,
        },
{
    if !exists {
        return Err(concat("repository path does not exist: ", path));
    }
    if !is_dir {
        return Err(concat("repository path is not a directory: ", path));
    }
    Ok(())
}

/// The name shown for a layout.
pub open spec fn layout_name(layout: Layout) -> Seq<char> {
    match layout {
        Layout::Named(_) => "Named Layout"@,
        _ => "Repository Graph"@,
    }
}

/// The label of a Render Configuration: its source (`defaults` or the
/// file), theme, frame size, frame rate and layout.
pub open spec fn configuration_label(c: RenderConfigurationView, config_path: Option<Seq<char>>) -> Seq<char> {
    (match config_path {
        Some(p) => p,
        None => "defaults"@,
    }) + " (theme: "@ + c.theme.name + ", "@ + decimal(c.frame_size.0 as nat) + "x"@ + decimal(
        c.frame_size.1 as nat,
    ) + ", "@ + decimal(c.frames_per_second as nat) + " FPS, layout: "@ + layout_name(c.layout) + ")"@
}

/// Returns the label of a Render Configuration.
pub fn render_configuration_label(configuration: &RenderConfiguration, config_path: Option<&str>) -> (r: String)
    ensures
        r@ == configuration_label(configuration@, match config_path {
            Some(p) => Some(p@),
            None => None,
        }),
{
    let mut out = match config_path {
        Some(p) => owned(p),
        None => owned("defaults"),
    };
    push_text(&mut out, " (theme: ");
    push_text(&mut out, configuration.theme().name());
    push_text(&mut out, ", ");
    let size = configuration.frame_size();
    let width = decimal_text(size.width() as u64);
    push_text(&mut out, width.as_str());
    push_text(&mut out, "x");
    let height = decimal_text(size.height() as u64);
    push_text(&mut out, height.as_str());
    push_text(&mut out, ", ");
    let fps = decimal_text(configuration.frames_per_second().get() as u64);
    push_text(&mut out, fps.as_str());
    push_text(&mut out, " FPS, layout: ");
    match configuration.layout() {
        Layout::Named(_) => push_text(&mut out, "Named Layout"),
        _ => push_text(&mut out, "Repository Graph"),
    }
    push_text(&mut out, ")");
    out
}

/// What the hash of a Render Configuration covers: the bytes of its file
/// when one is named (none when the file could not be read), otherwise
/// `default:` and the label of the configuration.
pub open spec fn config_hash_input(
    configuration: RenderConfigurationView,
    config_file: Option<Result<Seq<u8>, Seq<char>>>,
) -> Seq<u8> {
    match config_file {
        Some(Ok(bytes)) => bytes,
        Some(Err(_)) => Seq::empty(),
        None => encode_utf8("default:"@ + configuration_label(configuration, None)),
    }
}

/// The hash that identifies a Render Configuration: `sha256:` and the hex
/// SHA-256 digest of its file's bytes as read (`config_file`), or of
/// `default:` and its label when no file is named. Identical files give
/// the same hash wherever they lie.
pub fn config_hash(configuration: &RenderConfiguration, config_file: Option<Result<Vec<u8>, String>>) -> (r: String)
    ensures
        r@ == sha256_label_of(
            config_hash_input(
                configuration@,
                match config_file {
                    Some(Ok(bytes)) => Some(Ok(bytes@)),
                    Some(Err(e)) => Some(Err(e@)),
                    None => None,
                },
            ),
        ),
{
    match config_file {
        Some(Ok(bytes)) => sha256_label(bytes.as_slice()),
        Some(Err(_)) => {
            let empty: Vec<u8> = Vec::new();
            proof {
                assert(empty@ =~= Seq::<u8>::empty());
            }
            sha256_label(empty.as_slice())
        },
        None => {
            let label = render_configuration_label(configuration, None);
            let text = concat("default:", label.as_str());
            sha256_label(text.as_str().as_bytes())
        },
    }
}

/// Returns how a preview window was shown.
pub fn preview_window_status_label(status: &PreviewWindowStatus) -> (r: &'static str)
    ensures
        r@ == match status {
            PreviewWindowStatus::Opened => "opened"@,
            PreviewWindowStatus::Planned(_) => "planned by minimal adapter"@,
        },
{
    match status {
        PreviewWindowStatus::Opened => "opened",
        PreviewWindowStatus::Planned(_) => "planned by minimal adapter",
    }
}

/// How config hot reload is reported.
pub open spec fn reload_label(status: PreviewReloadWatch, watcher_initialized: bool) -> Seq<char> {
    match status {
        PreviewReloadWatch::WatchingConfigFile => if watcher_initialized {
            "watching config file metadata"@
        } else {
            "planned for config file metadata"@
        },
        PreviewReloadWatch::NoConfigFile => "no config file supplied"@,
        PreviewReloadWatch::Disabled => "disabled"@,
    }
}

/// Returns how config hot reload is reported.
pub fn preview_reload_label(status: PreviewReloadWatch, watcher_initialized: bool) -> (r: &'static str)
    ensures
        r@ == reload_label(status, watcher_initialized),
{
    match status {
        PreviewReloadWatch::WatchingConfigFile => {
            if watcher_initialized {
                "watching config file metadata"
            } else {
                "planned for config file metadata"
            }
        },
        PreviewReloadWatch::NoConfigFile => "no config file supplied",
        PreviewReloadWatch::Disabled => "disabled",
    }
}

/// The phases of a render.
#[derive(Debug, Clone, Copy, PartialEq, Eq)]
pub enum RenderPhase {
    /// Reading the repository.
    Ingestion,
    /// Building the scene.
    SceneConstruction,
    /// Rendering frames.
    FrameRendering,
    /// Encoding with FFmpeg.
    FfmpegEncoding,
    /// Writing the Export Manifest.
    ManifestWriting,
    /// Reporting warnings.
    Warnings,
    /// Done.
    Completion,
}

/// The name of a render phase.
pub open spec fn phase_name(phase: RenderPhase) -> Seq<char> {
    match phase {
        RenderPhase::Ingestion => "Repository Ingestion"@,
        RenderPhase::SceneConstruction => "Scene Construction"@,
        RenderPhase::FrameRendering => "Frame Rendering"@,
        RenderPhase::FfmpegEncoding => "FFmpeg Encoding"@,
        RenderPhase::ManifestWriting => "Export Manifest"@,
        RenderPhase::Warnings => "Warnings"@,
        RenderPhase::Completion => "Completion"@,
    }
}

/// Returns the name of a render phase.
pub fn render_phase_label(phase: RenderPhase) -> (r: &'static str)
    ensures
        r@ == phase_name(phase),
{
    match phase {
        RenderPhase::Ingestion => "Repository Ingestion",
        RenderPhase::SceneConstruction => "Scene Construction",
        RenderPhase::FrameRendering => "Frame Rendering",
        RenderPhase::FfmpegEncoding => "FFmpeg Encoding",
        RenderPhase::ManifestWriting => "Export Manifest",
        RenderPhase::Warnings => "Warnings",
        RenderPhase::Completion => "Completion",
    }
}

/// One `- phase` line per phase, in order.
pub open spec fn phase_lines(phases: Seq<RenderPhase>) -> Seq<char>
    decreases phases.len(),
{
    if phases.len() == 0 {
        Seq::empty()
    } else {
        phase_lines(phases.drop_last()) + "- "@ + phase_name(phases.last()) + "\n"@
    }
}

/// The human-readable summary of a finished render.
pub open spec fn render_summary(
    args: RenderArgsView,
    configuration_label: Seq<char>,
    exported_path: Seq<char>,
    phases: Seq<RenderPhase>,
) -> Seq<char> {
    "Gitflux Render complete\n"@ + "Repository path: "@ + args.repository_path + "\n"@ + "Output target: "@
        + args.output_path + "\n"@ + "Mainline: "@ + (match args.mainline {
        Some(name) => name,
        None => "auto"@,
    }) + "\n"@ + "FFmpeg: "@ + args.ffmpeg_path + "\n"@ + "Exported: "@ + exported_path + "\n"@
        + "Render Configuration: "@ + configuration_label + "\n"@ + phase_lines(phases)
}

/// Describes a finished render for a person.
pub fn render_human_summary(
    args: &RenderArgs,
    configuration_label: &str,
    exported_path: &str,
    phases: &Vec<RenderPhase>,
) -> (r: String)
    ensures
        r@ == render_summary(args@, configuration_label@, exported_path@, phases@),
{
    let mut out = owned("Gitflux Render complete\n");
    push_text(&mut out, "Repository path: ");
    push_text(&mut out, args.repository_path());
    push_text(&mut out, "\n");
    push_text(&mut out, "Output target: ");
    push_text(&mut out, args.output_path());
    push_text(&mut out, "\n");
    push_text(&mut out, "Mainline: ");
    push_text(&mut out, args.mainline().as_label());
    push_text(&mut out, "\n");
    push_text(&mut out, "FFmpeg: ");
    push_text(&mut out, args.ffmpeg_binary().path());
    push_text(&mut out, "\n");
    push_text(&mut out, "Exported: ");
    push_text(&mut out, exported_path);
    push_text(&mut out, "\n");
    push_text(&mut out, "Render Configuration: ");
    push_text(&mut out, configuration_label);
    push_text(&mut out, "\n");
    let ghost head = out@;
    let mut i: usize = 0;
    assert(phases@.take(0) =~= Seq::<RenderPhase>::empty());
    while i < phases.len()
        invariant
            i <= phases@.len(),
            out@ == head + phase_lines(phases@.take(i as int)),
        decreases phases@.len() - i,
    {
        push_text(&mut out, "- ");
        push_text(&mut out, render_phase_label(phases[i]));
        push_text(&mut out, "\n");
        assert(phases@.take(i + 1).drop_last() =~= phases@.take(i as int));
        i = i + 1;
    }
    assert(phases@.take(phases@.len() as int) =~= phases@);
    out
}

/// The human-readable summary of a finished preview.
pub open spec fn preview_summary(
    args: PreviewArgsView,
    configuration_label: Seq<char>,
    window_status: PreviewWindowStatus,
    window: (Seq<char>, u32, u32),
    rendered_initial_frame: bool,
    reload: Seq<char>,
) -> Seq<char> {
    "Gitflux Preview complete\n"@ + "Repository path: "@ + args.repository_path + "\n"@ + "Mainline: "@
        + (match args.mainline {
        Some(name) => name,
        None => "auto"@,
    }) + "\n"@ + "Render Configuration: "@ + configuration_label + "\n"@ + "Window: "@ + (match window_status {
        PreviewWindowStatus::Opened => "opened"@,
        PreviewWindowStatus::Planned(_) => "planned by minimal adapter"@,
    }) + " ("@ + decimal(window.1 as nat) + "x"@ + decimal(window.2 as nat) + ")\n"@
        + "Shared renderer frame: "@ + (if rendered_initial_frame {
        "rendered"@
    } else {
        "not rendered"@
    }) + "\n"@ + "Config hot reload: "@ + reload + "\n"@
}

/// Describes a finished preview for a person.
pub fn preview_human_summary(
    args: &PreviewArgs,
    configuration_label: &str,
    summary: &PreviewRunSummary,
    watcher_initialized: bool,
) -> (r: String)
    ensures
        r@ == preview_summary(
            args@,
            configuration_label@,
            summary@.0,
            summary@.1,
            summary@.2,
            reload_label(summary@.3, watcher_initialized),
        ),
{
    let window = summary.window();
    let mut out = owned("Gitflux Preview complete\n");
    push_text(&mut out, "Repository path: ");
    push_text(&mut out, args.repository_path());
    push_text(&mut out, "\n");
    push_text(&mut out, "Mainline: ");
    push_text(&mut out, args.mainline().as_label());
    push_text(&mut out, "\n");
    push_text(&mut out, "Render Configuration: ");
    push_text(&mut out, configuration_label);
    push_text(&mut out, "\n");
    push_text(&mut out, "Window: ");
    push_text(&mut out, preview_window_status_label(summary.window_status()));
    push_text(&mut out, " (");
    let width = decimal_text(window.width() as u64);
    push_text(&mut out, width.as_str());
    push_text(&mut out, "x");
    let height = decimal_text(window.height() as u64);
    push_text(&mut out, height.as_str());
    push_text(&mut out, ")\n");
    push_text(&mut out, "Shared renderer frame: ");
    if summary.rendered_initial_frame() {
        push_text(&mut out, "rendered");
    } else {
        push_text(&mut out, "not rendered");
    }
    push_text(&mut out, "\n");
    push_text(&mut out, "Config hot reload: ");
    push_text(&mut out, preview_reload_label(summary.reload_watch(), watcher_initialized));
    push_text(&mut out, "\n");
    out
}

/// Loads the Render Configuration a command names: the default one when
/// no file is named; otherwise the file's text as read (`contents`), or
/// the reason it could not be read, each refusal naming the file.
pub fn load_render_configuration(
    config_path: Option<&str>,
    configuration_label: &str,
    contents: Option<Result<String, String>>,
) -> (r: Result<RenderConfiguration, String>)
    requires
        contents is Some == config_path is Some,
        contents matches Some(Ok(t)) ==> t@.len() < usize::MAX,
    ensures
        match (config_path, contents) {
            (None, _) => r matches Ok(c) && c@ == crate::config::default_configuration_view(),
            (Some(path), Some(Err(e))) => r matches Err(m) && m@ == "failed to read "@ + configuration_label@ + " "@
                + path@ + ": "@ + e@,
            (Some(path), Some(Ok(t))) => match crate::config_text::read_configuration(t@) {
                crate::config_text::ReadOutcome::Parsed(items) => r matches Ok(c)
                    && crate::config_text::configuration_of(items, c@),
                _ => r matches Err(m) && exists|e: crate::config_text::RenderConfigurationError|
                    m@ == "failed to load "@ + configuration_label@ + " "@ + path@ + ":\n"@
                        + crate::config_text::configuration_error_message(e) && match crate::config_text::read_configuration(
                        t@,
                    ) {
                        crate::config_text::ReadOutcome::ParseError(line, why) => e matches crate::config_text::RenderConfigurationError::Parse { line: l, detail } && l == line && detail@ == why,
                        crate::config_text::ReadOutcome::Invalid(lines) => e matches crate::config_text::RenderConfigurationError::Invalid { diagnostics } && crate::text::texts(diagnostics@) == lines,
                        _ => false,
                    },
            },
            _ => false,
        },
{
    match (config_path, contents) {
        (None, _) => Ok(RenderConfiguration::default()),
        (Some(path), Some(Err(e))) => {
            let mut message = owned("failed to read ");
            push_text(&mut message, configuration_label);
            push_text(&mut message, " ");
            push_text(&mut message, path);
            push_text(&mut message, ": ");
            push_text(&mut message, e.as_str());
            Err(message)
        },
        (Some(path), Some(Ok(text))) => match RenderConfiguration::from_toml_str(text.as_str()) {
            Ok(c) => Ok(c),
            Err(error) => {
                let mut message = owned("failed to load ");
                push_text(&mut message, configuration_label);
                push_text(&mut message, " ");
                push_text(&mut message, path);
                push_text(&mut message, ":\n");
                let detail = error.message();
                push_text(&mut message, detail.as_str());
                Err(message)
            },
        },
        (Some(_), None) => {
            proof {
                assert(false);
            }
            Err(String::new())
        },
    }
}

/// Reading options: a `--ffmpeg-path P` option after a list of options that
/// reads well makes P the FFmpeg path and changes nothing else.
proof fn lemma_read_options_ffmpeg_last(kind: CommandKind, st: OptionsView, rest: Seq<Seq<char>>, p: Seq<char>)
    requires
        accepts(kind, "--ffmpeg-path"@),
        read_options(kind, st, rest) is Ok,
    ensures
        read_options(kind, st, rest + seq!["--ffmpeg-path"@, p]) == Ok::<OptionsView, Seq<char>>(
            OptionsView { ffmpeg_path: p, ..read_options(kind, st, rest)->Ok_0 },
        ),
    decreases rest.len(),
{
    reveal_strlit("--ffmpeg-path");
    reveal_strlit("--json");
    reveal_strlit("--no-config-reload");
    reveal_strlit("--config");
    reveal_strlit("--mainline");
    let tail = seq!["--ffmpeg-path"@, p];
    let ext = rest + tail;
    if rest.len() == 0 {
        assert(ext =~= tail);
        assert(ext[0] == "--ffmpeg-path"@);
        assert("--ffmpeg-path"@[2] != "--json"@[2]);
        assert("--ffmpeg-path"@[2] != "--no-config-reload"@[2]);
        assert(ext[0] != "--json"@);
        assert(ext[0] != "--no-config-reload"@);
        assert(ext[0] != "--config"@);
        assert(ext[0] != "--mainline"@);
        assert(ext.skip(2) =~= Seq::<Seq<char>>::empty());
        let next = OptionsView { ffmpeg_path: p, ..st };
        assert(read_options(kind, next, ext.skip(2)) == Ok::<OptionsView, Seq<char>>(next));
        assert(ext[1] == p);
        assert(read_options(kind, st, rest) == Ok::<OptionsView, Seq<char>>(st));
    } else {
        let flag = rest[0];
        assert(ext[0] == flag);
        if flag == "--json"@ {
            assert(ext.skip(1) =~= rest.skip(1) + tail);
            lemma_read_options_ffmpeg_last(kind, OptionsView { json: true, ..st }, rest.skip(1), p);
        } else if flag == "--no-config-reload"@ {
            assert(ext.skip(1) =~= rest.skip(1) + tail);
            lemma_read_options_ffmpeg_last(kind, OptionsView { reload: false, ..st }, rest.skip(1), p);
        } else {
            let value = rest[1];
            assert(ext[1] == value);
            assert(ext.skip(2) =~= rest.skip(2) + tail);
            let next = if flag == "--config"@ {
                OptionsView { config_path: Some(value), ..st }
            } else if flag == "--mainline"@ {
                OptionsView { mainline: Some(value), ..st }
            } else if flag == "--ffmpeg-path"@ {
                OptionsView { ffmpeg_path: value, ..st }
            } else {
                OptionsView { output_path: Some(value), ..st }
            };
            lemma_read_options_ffmpeg_last(kind, next, rest.skip(2), p);
            assert(read_options(kind, st, rest) == read_options(kind, next, rest.skip(2)));
            assert(read_options(kind, st, ext) == read_options(kind, next, ext.skip(2)));
        }
    }
}

/// `--ffmpeg-path P` selects the FFmpeg binary of `render`: given after a
/// `render` command line that parses, P becomes the FFmpeg path and every
/// other argument keeps its meaning.
pub proof fn lemma_render_ffmpeg_path_option(args: Seq<Seq<char>>, p: Seq<char>)
    requires
        render_args_of(args) is Ok,
    ensures
        render_args_of(args + seq!["--ffmpeg-path"@, p]) == Ok::<RenderArgsView, Seq<char>>(
            RenderArgsView { ffmpeg_path: p, ..render_args_of(args)->Ok_0 },
        ),
{
    reveal_strlit("--ffmpeg-path");
    let ext = args + seq!["--ffmpeg-path"@, p];
    assert(ext[0] == args[0]);
    assert(ext.skip(1) =~= args.skip(1) + seq!["--ffmpeg-path"@, p]);
    lemma_read_options_ffmpeg_last(CommandKind::Render, initial_options(), args.skip(1), p);
}

/// `--ffmpeg-path P` selects the FFmpeg binary of `diagnostics`: given
/// after a `diagnostics` command line that parses, P becomes the FFmpeg path
/// and every other argument keeps its meaning.
pub proof fn lemma_diagnostics_ffmpeg_path_option(args: Seq<Seq<char>>, p: Seq<char>)
    requires
        diagnostics_args_of(args) is Ok,
    ensures
        diagnostics_args_of(args + seq!["--ffmpeg-path"@, p]) == Ok::<DiagnosticsArgsView, Seq<char>>(
            DiagnosticsArgsView { ffmpeg_path: p, ..diagnostics_args_of(args)->Ok_0 },
        ),
{
    reveal_strlit("--ffmpeg-path");
    let ext = args + seq!["--ffmpeg-path"@, p];
    assert(ext[0] == args[0]);
    assert(ext.skip(1) =~= args.skip(1) + seq!["--ffmpeg-path"@, p]);
    lemma_read_options_ffmpeg_last(CommandKind::Diagnostics, initial_options(), args.skip(1), p);
}

} // verus!
