//! Video Export planning: output presets, Export Manifests, and the FFmpeg
//! invocation that encodes a rendered frame sequence.

use vstd::prelude::*;

use crate::paths::{join, join_path, last_index_of, lemma_last_index_of};
use crate::render::{FrameCount, FrameFileStem, FrameSequenceOutput, RenderPlan, RendererSettings};
use crate::text::{
    chars_of, decimal, decimal_text, owned, push_text, signed_decimal, signed_decimal_text, trim, trimmed,
};

verus! {

/// Container and codec preset for a Video Export.
#[derive(Debug, Clone, Copy, PartialEq, Eq)]
pub enum OutputPreset {
    /// MP4 container encoded through H.264 for broad compatibility.
    Mp4,
    /// WebM container encoded through VP9.
    WebM,
}

/// External encoder used for Video Export.
#[derive(Debug, Clone, Copy, PartialEq, Eq)]
pub enum VideoEncoder {
    /// An installed FFmpeg binary.
    Ffmpeg,
}

/// `p` without what follows its last component: trailing `/` characters
/// and trailing `.` components, which name the directory they stand in.
pub open spec fn trim_path_tail(p: Seq<char>) -> Seq<char>
    decreases p.len(),
{
    if p.len() > 0 && (p.last() == '/' || (p.last() == '.' && (p.len() == 1 || p[p.len() - 2] == '/'))) {
        trim_path_tail(p.drop_last())
    } else {
        p
    }
}

/// The last component of a path, if it names a file: the text after the
/// last `/` once trailing `/` and `.` components are dropped, unless that
/// is empty (a root or current directory) or `..`.
pub open spec fn file_name(p: Seq<char>) -> Option<Seq<char>> {
    let t = trim_path_tail(p);
    let name = t.skip(last_index_of(t, '/') + 1);
    if name.len() == 0 || name == "."@ || name == ".."@ {
        None
    } else {
        Some(name)
    }
}

/// The extension of a path: the text after the last `.` of its file name,
/// when that `.` is not the name's first character.
pub open spec fn extension(p: Seq<char>) -> Option<Seq<char>> {
    match file_name(p) {
        None => None,
        Some(name) => {
            let k = last_index_of(name, '.');
            if k <= 0 {
                None
            } else {
                Some(name.skip(k + 1))
            }
        },
    }
}

/// ASCII letters in lower case; every other character unchanged.
pub open spec fn ascii_lower(c: char) -> char {
    if 'A' <= c && c <= 'Z' {
        ((c as u32) + 32) as char
    } else {
        c
    }
}

/// `a` and `b` are equal when ASCII letters are compared without case.
pub open spec fn eq_ignore_ascii_case(a: Seq<char>, b: Seq<char>) -> bool {
    a.len() == b.len() && forall|i: int| 0 <= i < a.len() ==> ascii_lower(#[trigger] a[i]) == ascii_lower(b[i])
}

/// The preset an output path asks for, by its extension.
pub open spec fn preset_of(p: Seq<char>) -> Option<OutputPreset> {
    match extension(p) {
        Some(e) => if eq_ignore_ascii_case(e, "mp4"@) {
            Some(OutputPreset::Mp4)
        } else if eq_ignore_ascii_case(e, "webm"@) {
            Some(OutputPreset::WebM)
        } else {
            None
        },
        None => None,
    }
}

/// `e` reports that `path` names no supported preset.
pub open spec fn unsupported_preset_error(e: ExportError, path: Seq<char>) -> bool {
    e matches ExportError::UnsupportedOutputPreset { output_path } && output_path@ == path
}

/// Decides `eq_ignore_ascii_case`.
fn same_ignoring_ascii_case(a: &Vec<char>, b: &str) -> (r: bool)
    ensures
        r == eq_ignore_ascii_case(a@, b@),
{
    let bv = chars_of(b);
    if a.len() != bv.len() {
        return false;
    }
    let mut i: usize = 0;
    while i < a.len()
        invariant
            i <= a.len(),
            a@.len() == bv@.len(),
            bv@ == b@,
            forall|j: int| 0 <= j < i ==> ascii_lower(#[trigger] a@[j]) == ascii_lower(bv@[j]),
        decreases a.len() - i,
    {
        let x = a[i];
        let y = bv[i];
        let lx = if 'A' <= x && x <= 'Z' {
            ((x as u32) + 32) as u8 as char
        } else {
            x
        };
        let ly = if 'A' <= y && y <= 'Z' {
            ((y as u32) + 32) as u8 as char
        } else {
            y
        };
        assert(lx == ascii_lower(a@[i as int])) by {
            if 'A' <= x && x <= 'Z' {
                assert(((x as u32) + 32) as u8 as char == ((x as u32) + 32) as char);
            }
        }
        assert(ly == ascii_lower(bv@[i as int])) by {
            if 'A' <= y && y <= 'Z' {
                assert(((y as u32) + 32) as u8 as char == ((y as u32) + 32) as char);
            }
        }
        if lx != ly {
            return false;
        }
        i = i + 1;
    }
    true
}

/// Index of the last occurrence of `c` in `v`, or `None`.
fn last_index(v: &Vec<char>, c: char) -> (r: Option<usize>)
    ensures
        r is None ==> last_index_of(v@, c) == -1,
        r matches Some(i) ==> i == last_index_of(v@, c),
{
    let mut i: usize = v.len();
    assert(v@.take(v.len() as int) =~= v@);
    while i > 0
        invariant
            i <= v.len(),
            last_index_of(v@, c) == last_index_of(v@.take(i as int), c),
        decreases i,
    {
        if v[i - 1] == c {
            assert(v@.take(i as int).last() == c);
            return Some(i - 1);
        }
        assert(v@.take(i as int).drop_last() =~= v@.take(i - 1));
        i = i - 1;
    }
    assert(v@.take(0) =~= Seq::<char>::empty());
    None
}

/// The characters of `v` from index `start` on.
fn suffix(v: &Vec<char>, start: usize) -> (r: Vec<char>)
    requires
        start <= v.len(),
    ensures
        r@ == v@.skip(start as int),
{
    let mut r: Vec<char> = Vec::new();
    let mut i: usize = start;
    while i < v.len()
        invariant
            start <= i <= v.len(),
            r@ == v@.subrange(start as int, i as int),
        decreases v.len() - i,
    {
        r.push(v[i]);
        assert(v@.subrange(start as int, i + 1) =~= v@.subrange(start as int, i as int).push(v@[i as int]));
        i = i + 1;
    }
    assert(v@.subrange(start as int, v.len() as int) =~= v@.skip(start as int));
    r
}

/// The extension of a path, as characters.
fn extension_chars(path: &str) -> (r: Option<Vec<char>>)
    ensures
        r is None <==> extension(path@) is None,
        r matches Some(e) ==> extension(path@) == Some(e@),
{
    let v = chars_of(path);
    let mut end: usize = v.len();
    assert(v@.take(v.len() as int) =~= v@);
    while end > 0 && (v[end - 1] == '/' || (v[end - 1] == '.' && (end == 1 || v[end - 2] == '/')))
        invariant
            end <= v.len(),
            trim_path_tail(v@) == trim_path_tail(v@.take(end as int)),
        decreases end,
    {
        assert(v@.take(end as int).drop_last() =~= v@.take(end - 1));
        assert(v@.take(end as int).last() == v@[end - 1]);
        if end >= 2 {
            assert(v@.take(end as int)[end - 2] == v@[end - 2]);
        }
        end = end - 1;
    }
    assert(end > 0 ==> v@.take(end as int).last() == v@[end - 1]);
    assert(end >= 2 ==> v@.take(end as int)[end - 2] == v@[end - 2]);
    let mut t: Vec<char> = Vec::new();
    let mut i: usize = 0;
    while i < end
        invariant
            i <= end <= v.len(),
            t@ == v@.take(i as int),
        decreases end - i,
    {
        t.push(v[i]);
        assert(v@.take(i + 1) =~= v@.take(i as int).push(v@[i as int]));
        i = i + 1;
    }
    assert(trim_path_tail(v@.take(end as int)) == v@.take(end as int));
    assert(t@ == trim_path_tail(path@));
    proof {
        lemma_last_index_of(t@, '/');
    }
    let start = match last_index(&t, '/') {
        Some(k) => k + 1,
        None => 0,
    };
    let name = suffix(&t, start);
    proof {
        reveal_strlit(".");
        reveal_strlit("..");
    }
    if name.len() == 0 || (name.len() == 1 && name[0] == '.') || (name.len() == 2 && name[0] == '.' && name[1] == '.') {
        proof {
            if name.len() == 1 && name[0] == '.' {
                assert(name@ =~= "."@);
            }
            if name.len() == 2 && name[0] == '.' && name[1] == '.' {
                assert(name@ =~= ".."@);
            }
        }
        return None;
    }
    assert(name@ != "."@ && name@ != ".."@) by {
        if name@ == "."@ {
            assert(name@[0] == '.');
        }
        if name@ == ".."@ {
            assert(name@[0] == '.' && name@[1] == '.');
        }
    }
    assert(file_name(path@) == Some(name@));
    proof {
        lemma_last_index_of(name@, '.');
    }
    match last_index(&name, '.') {
        None => None,
        Some(k) => {
            if k == 0 {
                None
            } else {
                Some(suffix(&name, k + 1))
            }
        },
    }
}

impl OutputPreset {
    /// The preset an output path asks for by its extension (`.mp4` or
    /// `.webm`, in any case), or the error naming the path.
    pub fn from_output_path(output_path: &str) -> (r: Result<Self, ExportError>)
        ensures
            r is Ok <==> preset_of(output_path@) is Some,
            r matches Ok(p) ==> preset_of(output_path@) == Some(p),
            r matches Err(e) ==> unsupported_preset_error(e, output_path@),
    {
        proof {
            reveal_strlit("mp4");
            reveal_strlit("webm");
        }
        match extension_chars(output_path) {
            Some(e) => {
                if same_ignoring_ascii_case(&e, "mp4") {
                    Ok(OutputPreset::Mp4)
                } else if same_ignoring_ascii_case(&e, "webm") {
                    Ok(OutputPreset::WebM)
                } else {
                    Err(ExportError::UnsupportedOutputPreset { output_path: owned(output_path) })
                }
            },
            None => Err(ExportError::UnsupportedOutputPreset { output_path: owned(output_path) }),
        }
    }

    /// The FFmpeg arguments that select this preset's codec and pixel
    /// format.
    pub fn ffmpeg_arguments(self) -> (r: Vec<String>)
        ensures
            crate::text::texts(r@) == preset_arguments(self),
    {
        let mut r: Vec<String> = Vec::new();
        match self {
            OutputPreset::Mp4 => {
                r.push(owned("-c:v"));
                r.push(owned("libx264"));
                r.push(owned("-pix_fmt"));
                r.push(owned("yuv420p"));
                r.push(owned("-movflags"));
                r.push(owned("+faststart"));
            },
            OutputPreset::WebM => {
                r.push(owned("-c:v"));
                r.push(owned("libvpx-vp9"));
                r.push(owned("-pix_fmt"));
                r.push(owned("yuva420p"));
            },
        }
        assert(crate::text::texts(r@) =~= preset_arguments(self));
        r
    }
}

/// The FFmpeg arguments of a preset.
pub open spec fn preset_arguments(preset: OutputPreset) -> Seq<Seq<char>> {
    match preset {
        OutputPreset::Mp4 => seq!["-c:v"@, "libx264"@, "-pix_fmt"@, "yuv420p"@, "-movflags"@, "+faststart"@],
        OutputPreset::WebM => seq!["-c:v"@, "libvpx-vp9"@, "-pix_fmt"@, "yuva420p"@],
    }
}

/// Video Export failure modes.
#[derive(Debug, Clone, PartialEq, Eq)]
pub enum ExportError {
    /// The output path does not map to a supported preset.
    UnsupportedOutputPreset {
        /// Requested output path.
        output_path: String,
    },
    /// The configured FFmpeg executable could not be launched.
    FfmpegNotFound {
        /// FFmpeg binary that was attempted.
        binary: String,
        /// Why the launch failed.
        source: String,
    },
    /// FFmpeg launched but reported a failure.
    FfmpegFailed {
        /// FFmpeg binary that was attempted.
        binary: String,
        /// Process exit code, when the platform reported one.
        exit_code: Option<i32>,
        /// FFmpeg's standard error, trimmed.
        stderr: String,
    },
    /// FFmpeg reported success but no output file was produced.
    OutputNotCreated {
        /// Requested output path.
        output_path: String,
        /// Why the output could not be inspected.
        source: String,
    },
    /// FFmpeg reported success but wrote an empty output file.
    OutputEmpty {
        /// Requested output path.
        output_path: String,
    },
    /// Deterministic frame rendering failed.
    Render(String),
}

/// The message of an export failure.
pub open spec fn export_error_message(e: ExportError) -> Seq<char> {
    match e {
        ExportError::UnsupportedOutputPreset { output_path } => "unsupported Video Export output preset for "@
            + output_path@ + "; supported presets: .mp4, .webm"@,
        ExportError::FfmpegNotFound { binary, source } => "FFmpeg was not found or could not be launched at '"@
            + binary@ + "': "@ + source@
            + ". Install FFmpeg and ensure it is on PATH, or pass --ffmpeg-path <path-to-ffmpeg>."@,
        ExportError::FfmpegFailed { binary, exit_code, stderr } => "FFmpeg failed while encoding with '"@
            + binary@ + "' (exit code: "@ + (match exit_code {
            Some(code) => signed_decimal(code as int),
            None => "unknown"@,
        }) + "): "@ + (if stderr@.len() == 0 {
            "no stderr output"@
        } else {
            stderr@
        }),
        ExportError::OutputNotCreated { output_path, source } => "FFmpeg completed but did not create output file '"@
            + output_path@ + "': "@ + source@,
        ExportError::OutputEmpty { output_path } => "FFmpeg completed but output file '"@ + output_path@
            + "' is empty"@,
        ExportError::Render(detail) => "could not render export frames: "@ + detail@,
    }
}

impl ExportError {
    /// Describes the failure for the user.
    pub fn message(&self) -> (r: String)
        ensures
            r@ == export_error_message(*self),
    {
        match self {
            ExportError::UnsupportedOutputPreset { output_path } => {
                let mut s = owned("unsupported Video Export output preset for ");
                push_text(&mut s, output_path.as_str());
                push_text(&mut s, "; supported presets: .mp4, .webm");
                proof {
                    reveal_strlit("unsupported Video Export output preset for ");
                    reveal_strlit("; supported presets: .mp4, .webm");
                }
                s
            },
            ExportError::FfmpegNotFound { binary, source } => {
                let mut s = owned("FFmpeg was not found or could not be launched at '");
                push_text(&mut s, binary.as_str());
                push_text(&mut s, "': ");
                push_text(&mut s, source.as_str());
                push_text(
                    &mut s,
                    ". Install FFmpeg and ensure it is on PATH, or pass --ffmpeg-path <path-to-ffmpeg>.",
                );
                s
            },
            ExportError::FfmpegFailed { binary, exit_code, stderr } => {
                let mut s = owned("FFmpeg failed while encoding with '");
                push_text(&mut s, binary.as_str());
                push_text(&mut s, "' (exit code: ");
                match exit_code {
                    Some(code) => {
                        let text = signed_decimal_text(*code);
                        push_text(&mut s, text.as_str());
                    },
                    None => {
                        push_text(&mut s, "unknown");
                    },
                }
                push_text(&mut s, "): ");
                if stderr.as_str().is_empty() {
                    push_text(&mut s, "no stderr output");
                } else {
                    push_text(&mut s, stderr.as_str());
                }
                s
            },
            ExportError::OutputNotCreated { output_path, source } => {
                let mut s = owned("FFmpeg completed but did not create output file '");
                push_text(&mut s, output_path.as_str());
                push_text(&mut s, "': ");
                push_text(&mut s, source.as_str());
                s
            },
            ExportError::OutputEmpty { output_path } => {
                let mut s = owned("FFmpeg completed but output file '");
                push_text(&mut s, output_path.as_str());
                push_text(&mut s, "' is empty");
                s
            },
            ExportError::Render(detail) => {
                let mut s = owned("could not render export frames: ");
                push_text(&mut s, detail.as_str());
                s
            },
        }
    }
}

/// What a Video Export request says.
pub struct VideoExportRequestView {
    pub render_plan: (crate::domain::RepositoryReplayView, crate::config::RenderConfigurationView),
    pub output_path: Seq<char>,
    pub output_preset: OutputPreset,
}

/// Request to produce a Video Export from a render plan.
#[derive(Debug, Clone, PartialEq, Eq)]
pub struct VideoExportRequest {
    render_plan: RenderPlan,
    output_path: String,
    output_preset: OutputPreset,
}

impl View for VideoExportRequest {
    type V = VideoExportRequestView;

    closed spec fn view(&self) -> VideoExportRequestView {
        VideoExportRequestView {
            render_plan: self.render_plan@,
            output_path: self.output_path@,
            output_preset: self.output_preset,
        }
    }
}

impl VideoExportRequest {
    /// Creates a Video Export request, deriving the output preset from the
    /// output path's extension; fails when it names no supported preset.
    pub fn try_new(render_plan: RenderPlan, output_path: &str) -> (r: Result<Self, ExportError>)
        ensures
            r is Ok <==> preset_of(output_path@) is Some,
            r matches Ok(q) ==> q@ == (VideoExportRequestView {
                render_plan: render_plan@,
                output_path: output_path@,
                output_preset: preset_of(output_path@).unwrap(),
            }),
            r matches Err(e) ==> unsupported_preset_error(e, output_path@),
    {
        let output_preset = match OutputPreset::from_output_path(output_path) {
            Ok(p) => p,
            Err(e) => {
                return Err(e);
            },
        };
        Ok(VideoExportRequest { render_plan, output_path: owned(output_path), output_preset })
    }

    /// Returns the render plan to export.
    pub fn render_plan(&self) -> (r: &RenderPlan)
        ensures
            r@ == self@.render_plan,
    {
        &self.render_plan
    }

    /// Returns the requested output path.
    pub fn output_path(&self) -> (r: &str)
        ensures
            r@ == self@.output_path,
    {
        self.output_path.as_str()
    }

    /// Returns the output preset selected for this request.
    pub fn output_preset(&self) -> (r: OutputPreset)
        ensures
            r == self@.output_preset,
    {
        self.output_preset
    }
}

/// Sidecar data describing the inputs used to produce a Video Export.
#[derive(Debug, Clone, PartialEq, Eq)]
pub struct ExportManifest {
    output_path: String,
    encoder: VideoEncoder,
    output_preset: OutputPreset,
}

impl View for ExportManifest {
    type V = (Seq<char>, VideoEncoder, OutputPreset);

    closed spec fn view(&self) -> (Seq<char>, VideoEncoder, OutputPreset) {
        (self.output_path@, self.encoder, self.output_preset)
    }
}

impl ExportManifest {
    /// Creates an Export Manifest from a validated Video Export request.
    pub fn from_request(request: &VideoExportRequest, encoder: VideoEncoder) -> (r: Self)
        ensures
            r@ == (request@.output_path, encoder, request@.output_preset),
    {
        ExportManifest {
            output_path: owned(request.output_path()),
            encoder,
            output_preset: request.output_preset(),
        }
    }

    /// Returns the exported media path.
    pub fn output_path(&self) -> (r: &str)
        ensures
            r@ == self@.0,
    {
        self.output_path.as_str()
    }

    /// Returns the encoder delegated to by Video Export.
    pub fn encoder(&self) -> (r: VideoEncoder)
        ensures
            r == self@.1,
    {
        self.encoder
    }

    /// Returns the output preset used by the export.
    pub fn output_preset(&self) -> (r: OutputPreset)
        ensures
            r == self@.2,
    {
        self.output_preset
    }
}

/// Creates the Export Manifest of an FFmpeg export of a request.
pub fn scaffold_export_manifest(request: &VideoExportRequest) -> (r: ExportManifest)
    ensures
        r@ == (request@.output_path, VideoEncoder::Ffmpeg, request@.output_preset),
{
    ExportManifest::from_request(request, VideoEncoder::Ffmpeg)
}

/// FFmpeg executable selected for export.
#[derive(Debug, Clone, PartialEq, Eq)]
pub struct FfmpegBinary {
    path: String,
}

impl View for FfmpegBinary {
    type V = Seq<char>;

    closed spec fn view(&self) -> Seq<char> {
        self.path@
    }
}

impl FfmpegBinary {
    /// Uses a specific FFmpeg binary path.
    pub fn from_path(path: &str) -> (r: Self)
        ensures
            r@ == path@,
    {
        FfmpegBinary { path: owned(path) }
    }

    /// Returns the executable path.
    pub fn path(&self) -> (r: &str)
        ensures
            r@ == self@,
    {
        self.path.as_str()
    }
}

impl Default for FfmpegBinary {
    /// The `ffmpeg` found on the search path.
    fn default() -> (r: Self)
        ensures
            r@ == "ffmpeg"@,
    {
        FfmpegBinary::from_path("ffmpeg")
    }
}

/// What Video Export options say.
pub struct VideoExportOptionsView {
    pub ffmpeg_binary: Seq<char>,
    pub frame_count: u64,
    pub renderer_settings: crate::render::GpuPowerPreference,
    pub work_directory: Option<Seq<char>>,
}

/// Options for rendering deterministic frames and encoding them through
/// FFmpeg. Without a work directory, the export picks a fresh temporary one.
#[derive(Debug, Clone, PartialEq, Eq)]
pub struct VideoExportOptions {
    ffmpeg_binary: FfmpegBinary,
    frame_count: FrameCount,
    renderer_settings: RendererSettings,
    work_directory: Option<String>,
}

/// The view of an optional string.
pub open spec fn opt_text(s: Option<String>) -> Option<Seq<char>> {
    match s {
        Some(t) => Some(t@),
        None => None,
    }
}

impl View for VideoExportOptions {
    type V = VideoExportOptionsView;

    closed spec fn view(&self) -> VideoExportOptionsView {
        VideoExportOptionsView {
            ffmpeg_binary: self.ffmpeg_binary@,
            frame_count: self.frame_count@,
            renderer_settings: self.renderer_settings@,
            work_directory: opt_text(self.work_directory),
        }
    }
}

impl VideoExportOptions {
    /// Creates Video Export options with default renderer settings.
    pub fn new(ffmpeg_binary: FfmpegBinary, frame_count: FrameCount) -> (r: Self)
        ensures
            r@ == (VideoExportOptionsView {
                ffmpeg_binary: ffmpeg_binary@,
                frame_count: frame_count@,
                renderer_settings: crate::render::GpuPowerPreference::LowPower,
                work_directory: None,
            }),
    {
        VideoExportOptions {
            ffmpeg_binary,
            frame_count,
            renderer_settings: RendererSettings::default(),
            work_directory: None,
        }
    }

    /// Uses a specific FFmpeg binary.
    pub fn with_ffmpeg_binary(self, ffmpeg_binary: FfmpegBinary) -> (r: Self)
        ensures
            r@ == (VideoExportOptionsView { ffmpeg_binary: ffmpeg_binary@, ..self@ }),
    {
        VideoExportOptions { ffmpeg_binary, ..self }
    }

    /// Uses specific renderer settings.
    pub fn with_renderer_settings(self, renderer_settings: RendererSettings) -> (r: Self)
        ensures
            r@ == (VideoExportOptionsView { renderer_settings: renderer_settings@, ..self@ }),
    {
        VideoExportOptions { renderer_settings, ..self }
    }

    /// Uses a specific temporary work directory for deterministic frames.
    pub fn with_work_directory(self, work_directory: &str) -> (r: Self)
        ensures
            r@ == (VideoExportOptionsView { work_directory: Some(work_directory@), ..self@ }),
    {
        VideoExportOptions { work_directory: Some(owned(work_directory)), ..self }
    }

    /// Returns the FFmpeg binary.
    pub fn ffmpeg_binary(&self) -> (r: &FfmpegBinary)
        ensures
            r@ == self@.ffmpeg_binary,
    {
        &self.ffmpeg_binary
    }

    /// Returns the requested frame count.
    pub fn frame_count(&self) -> (r: FrameCount)
        ensures
            r@ == self@.frame_count,
    {
        self.frame_count
    }

    /// Returns the renderer settings.
    pub fn renderer_settings(&self) -> (r: RendererSettings)
        ensures
            r@ == self@.renderer_settings,
    {
        self.renderer_settings
    }

    /// Returns the chosen work directory, if one was chosen.
    pub fn work_directory(&self) -> (r: Option<&str>)
        ensures
            r is Some == self@.work_directory is Some,
            r matches Some(d) ==> d@ == self@.work_directory.unwrap(),
    {
        match &self.work_directory {
            Some(d) => Some(d.as_str()),
            None => None,
        }
    }
}

impl Default for VideoExportOptions {
    /// One frame through the `ffmpeg` on the search path.
    fn default() -> (r: Self)
        ensures
            r@ == (VideoExportOptionsView {
                ffmpeg_binary: "ffmpeg"@,
                frame_count: 1,
                renderer_settings: crate::render::GpuPowerPreference::LowPower,
                work_directory: None,
            }),
    {
        VideoExportOptions::new(FfmpegBinary::default(), FrameCount::new(1))
    }
}

/// The FFmpeg arguments that encode a PNG sequence into a request's output.
pub open spec fn png_sequence_arguments(
    request: VideoExportRequestView,
    input_pattern: Seq<char>,
    frames_per_second: u32,
    first_frame_index: u64,
) -> Seq<Seq<char>> {
    seq![
        "-y"@,
        "-framerate"@,
        decimal(frames_per_second as nat),
        "-start_number"@,
        decimal(first_frame_index as nat),
        "-i"@,
        input_pattern,
    ] + preset_arguments(request.output_preset) + seq![request.output_path]
}

/// Concrete FFmpeg invocation for encoding a deterministic frame sequence.
#[derive(Debug, Clone, PartialEq, Eq)]
pub struct FfmpegCommandPlan {
    program: String,
    arguments: Vec<String>,
}

impl View for FfmpegCommandPlan {
    type V = (Seq<char>, Seq<Seq<char>>);

    closed spec fn view(&self) -> (Seq<char>, Seq<Seq<char>>) {
        (self.program@, crate::text::texts(self.arguments@))
    }
}

/// How a launched FFmpeg process ended.
#[derive(Debug, Clone, PartialEq, Eq)]
pub enum FfmpegLaunch {
    /// The executable could not be started.
    NotStarted {
        /// Why it could not be started.
        error: String,
    },
    /// The process ran and exited.
    Exited {
        /// Whether it reported success.
        success: bool,
        /// Its exit code, when the platform reported one.
        exit_code: Option<i32>,
        /// Its standard error, as text.
        stderr: String,
    },
}

/// What a finished FFmpeg launch means for the export.
pub open spec fn launch_result(binary: Seq<char>, launch: FfmpegLaunch, r: Result<(), ExportError>) -> bool {
    match launch {
        FfmpegLaunch::NotStarted { error } => r matches Err(ExportError::FfmpegNotFound { binary: b, source: s })
            && b@ == binary && s@ == error@,
        FfmpegLaunch::Exited { success, exit_code, stderr } => if success {
            r is Ok
        } else {
            r matches Err(ExportError::FfmpegFailed { binary: b, exit_code: c, stderr: s }) && b@ == binary
                && c == exit_code && s@ == trim(stderr@)
        },
    }
}

impl FfmpegCommandPlan {
    /// Builds an FFmpeg invocation for PNG frame-sequence input: overwrite,
    /// frame rate, first frame number and input pattern, then the preset's
    /// codec arguments and the output path.
    pub fn for_png_sequence(
        binary: FfmpegBinary,
        request: &VideoExportRequest,
        input_pattern: &str,
        frames_per_second: u32,
        first_frame_index: u64,
    ) -> (r: Self)
        ensures
            r@ == (binary@, png_sequence_arguments(request@, input_pattern@, frames_per_second, first_frame_index)),
    {
        let mut arguments: Vec<String> = Vec::new();
        arguments.push(owned("-y"));
        arguments.push(owned("-framerate"));
        arguments.push(decimal_text(frames_per_second as u64));
        arguments.push(owned("-start_number"));
        arguments.push(decimal_text(first_frame_index));
        arguments.push(owned("-i"));
        arguments.push(owned(input_pattern));
        let ghost head = crate::text::texts(arguments@);
        let preset = request.output_preset().ffmpeg_arguments();
        let mut i: usize = 0;
        while i < preset.len()
            invariant
                i <= preset@.len(),
                crate::text::texts(preset@) == preset_arguments(request@.output_preset),
                crate::text::texts(arguments@) == head + crate::text::texts(preset@).take(i as int),
            decreases preset@.len() - i,
        {
            let ghost before = arguments@;
            let item = preset[i].clone();
            assert(item@ == preset@[i as int]@);
            arguments.push(item);
            assert(crate::text::texts(arguments@) =~= crate::text::texts(before).push(item@));
            assert(crate::text::texts(preset@).take(i + 1) =~= crate::text::texts(preset@).take(i as int).push(
                preset@[i as int]@,
            ));
            assert(crate::text::texts(arguments@) =~= head + crate::text::texts(preset@).take(i + 1));
            i = i + 1;
        }
        let ghost before_output = arguments@;
        let output = owned(request.output_path());
        arguments.push(output);
        assert(crate::text::texts(arguments@) =~= crate::text::texts(before_output).push(request@.output_path));
        let r = FfmpegCommandPlan { program: binary.path, arguments };
        proof {
            reveal_strlit("-y");
            reveal_strlit("-framerate");
            reveal_strlit("-start_number");
            reveal_strlit("-i");
        }
        assert(crate::text::texts(preset@).take(preset@.len() as int) =~= crate::text::texts(preset@));
        assert(r@.1 =~= png_sequence_arguments(request@, input_pattern@, frames_per_second, first_frame_index));
        r
    }

    /// Returns the FFmpeg executable.
    pub fn program(&self) -> (r: &str)
        ensures
            r@ == self@.0,
    {
        self.program.as_str()
    }

    /// Returns FFmpeg arguments in execution order.
    pub fn arguments(&self) -> (r: &[String])
        ensures
            crate::text::texts(r@) == self@.1,
    {
        self.arguments.as_slice()
    }

    /// What a finished launch of this plan's executable means: success when
    /// it started and reported success; otherwise the failure, naming the
    /// executable, with its exit code and its standard error trimmed.
    pub fn launch_outcome(&self, launch: FfmpegLaunch) -> (r: Result<(), ExportError>)
        ensures
            launch_result(self@.0, launch, r),
    {
        match launch {
            FfmpegLaunch::NotStarted { error } => Err(
                ExportError::FfmpegNotFound { binary: self.program.clone(), source: error },
            ),
            FfmpegLaunch::Exited { success, exit_code, stderr } => {
                if success {
                    Ok(())
                } else {
                    Err(
                        ExportError::FfmpegFailed {
                            binary: self.program.clone(),
                            exit_code,
                            stderr: trimmed(stderr.as_str()),
                        },
                    )
                }
            },
        }
    }
}

/// What the inspection of the encoded output file means: its size when it
/// exists, or why it could not be inspected.
pub fn output_file_outcome(output_path: &str, size: Result<u64, String>) -> (r: Result<(), ExportError>)
    ensures
        match size {
            Err(error) => r matches Err(ExportError::OutputNotCreated { output_path: p, source: s })
                && p@ == output_path@ && s@ == error@,
            Ok(n) => if n == 0 {
                r matches Err(ExportError::OutputEmpty { output_path: p }) && p@ == output_path@
            } else {
                r is Ok
            },
        },
{
    match size {
        Err(error) => Err(ExportError::OutputNotCreated { output_path: owned(output_path), source: error }),
        Ok(n) => {
            if n == 0 {
                Err(ExportError::OutputEmpty { output_path: owned(output_path) })
            } else {
                Ok(())
            }
        },
    }
}

/// The FFmpeg input pattern of a frame sequence: its directory joined with
/// the stem, `_%06d` and `.png`.
pub fn ffmpeg_input_pattern(frame_output: &FrameSequenceOutput) -> (r: String)
    ensures
        r@ == join_path(frame_output@.directory, frame_output@.file_stem + "_%06d.png"@),
{
    let mut name = owned(frame_output.file_stem().as_str());
    push_text(&mut name, "_%06d.png");
    join(frame_output.directory(), name.as_str())
}

/// The frame sequence an export renders into its work directory: stem
/// `frame` under `frames`, starting at frame 0.
pub fn export_frame_output(work_directory: &str) -> (r: FrameSequenceOutput)
    ensures
        r@ == (crate::render::FrameSequenceOutputView {
            directory: join_path(work_directory@, "frames"@),
            file_stem: "frame"@,
            first_frame_index: 0,
        }),
{
    let directory = join(work_directory, "frames");
    FrameSequenceOutput::new(directory.as_str(), FrameFileStem::new("frame"))
}

/// The FFmpeg invocation of an export: the options' binary, the frame
/// sequence's input pattern and first frame, and the plan's frame rate.
pub fn export_command_plan(
    request: &VideoExportRequest,
    options: &VideoExportOptions,
    frame_output: &FrameSequenceOutput,
) -> (r: FfmpegCommandPlan)
    ensures
        r@ == (options@.ffmpeg_binary, png_sequence_arguments(
            request@,
            join_path(frame_output@.directory, frame_output@.file_stem + "_%06d.png"@),
            request@.render_plan.1.frames_per_second,
            frame_output@.first_frame_index,
        )),
{
    let pattern = ffmpeg_input_pattern(frame_output);
    FfmpegCommandPlan::for_png_sequence(
        FfmpegBinary::from_path(options.ffmpeg_binary().path()),
        request,
        pattern.as_str(),
        request.render_plan().configuration().frames_per_second().get(),
        frame_output.first_frame_index().get(),
    )
}

} // verus!
