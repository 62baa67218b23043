//! Readiness diagnostics: what the command line reports about the GPU,
//! FFmpeg, the repository's refs, and the replay cache.

use vstd::prelude::*;
use vstd::utf8::encode_utf8;

use crate::cli::{selection_view, MainlineSelection};
use crate::digest::{sha256_label, sha256_label_of};
use crate::export::FfmpegBinary;
use crate::paths::{join, join_path};
use crate::text::{
    first_nonempty_line, first_nonempty_line_of, owned, push_text, signed_decimal,
    signed_decimal_text, texts,
};

verus! {

/// GPU readiness.
#[derive(Debug, Clone, PartialEq, Eq)]
pub struct GpuDiagnostic {
    /// The backend probed.
    pub backend: String,
    /// Whether it is usable.
    pub ready: bool,
    /// What the probe found.
    pub detail: Option<String>,
}

/// FFmpeg readiness.
#[derive(Debug, Clone, PartialEq, Eq)]
pub struct FfmpegDiagnostic {
    /// The binary probed.
    pub path: String,
    /// Whether it is a working FFmpeg.
    pub available: bool,
    /// Its version line, when it is one.
    pub version: Option<String>,
    /// Why it is not available.
    pub error: Option<String>,
}

/// What the repository's refs say.
#[derive(Debug, Clone, PartialEq, Eq)]
pub struct RefDiagnostic {
    /// How the Mainline was chosen.
    pub selection_mode: String,
    /// The Mainline.
    pub mainline: String,
    /// The commit at the Mainline's tip.
    pub mainline_tip: Option<String>,
    /// What HEAD names.
    pub head: Option<String>,
    /// Local branch names, sorted.
    pub local_branches: Vec<String>,
    /// What went wrong reading them.
    pub error: Option<String>,
}

/// Replay cache readiness.
#[derive(Debug, Clone, PartialEq, Eq)]
pub struct CacheDiagnostic {
    /// Where the cache lives.
    pub location: String,
    /// Whether it is there.
    pub status: String,
    /// How cached data would be matched.
    pub match_policy: String,
    /// The key of the current inputs.
    pub current_inputs_key: String,
    /// Whether cached data matches the current inputs.
    pub matches_current_inputs: Option<bool>,
    /// Explanation.
    pub detail: String,
}

/// A diagnostics report.
#[derive(Debug, Clone, PartialEq, Eq)]
pub struct DiagnosticsReport {
    /// The report format's version.
    pub schema_version: u32,
    /// The repository examined.
    pub repository_path: String,
    /// GPU readiness.
    pub gpu: GpuDiagnostic,
    /// FFmpeg readiness.
    pub ffmpeg: FfmpegDiagnostic,
    /// Ref state.
    pub refs: RefDiagnostic,
    /// Cache readiness.
    pub cache: CacheDiagnostic,
}

/// The version of the report format.
pub const DIAGNOSTICS_SCHEMA_VERSION: u32 = 1;

/// `ready` or `unavailable`.
pub open spec fn readiness(ready: bool) -> Seq<char> {
    if ready {
        "ready"@
    } else {
        "unavailable"@
    }
}

/// Returns `ready` or `unavailable`.
pub fn readiness_label(ready: bool) -> (r: &'static str)
    ensures
        r@ == readiness(ready),
{
    if ready {
        "ready"
    } else {
        "unavailable"
    }
}

/// ` (` text `)` when there is a text.
pub open spec fn in_parens(o: Option<String>) -> Seq<char> {
    match o {
        Some(t) => " ("@ + t@ + ")"@,
        None => Seq::empty(),
    }
}

/// A line `label` text, when there is a text.
pub open spec fn opt_line(label: Seq<char>, o: Option<String>) -> Seq<char> {
    match o {
        Some(t) => label + t@ + "\n"@,
        None => Seq::empty(),
    }
}

/// Texts joined with `sep` between them.
pub open spec fn joined(items: Seq<Seq<char>>, sep: Seq<char>) -> Seq<char>
    decreases items.len(),
{
    if items.len() == 0 {
        Seq::empty()
    } else if items.len() == 1 {
        items[0]
    } else {
        joined(items.drop_last(), sep) + sep + items.last()
    }
}

/// The line listing local branches, when there are any.
pub open spec fn branches_line(branches: Seq<String>) -> Seq<char> {
    if branches.len() == 0 {
        Seq::empty()
    } else {
        "Local branches: "@ + joined(texts(branches), ", "@) + "\n"@
    }
}

/// `yes`, `no` or `unknown`.
pub open spec fn match_label(m: Option<bool>) -> Seq<char> {
    match m {
        Some(true) => "yes"@,
        Some(false) => "no"@,
        None => "unknown"@,
    }
}

/// Returns `yes`, `no` or `unknown`.
fn match_label_text(m: Option<bool>) -> (r: &'static str)
    ensures
        r@ == match_label(m),
{
    match m {
        Some(true) => "yes",
        Some(false) => "no",
        None => "unknown",
    }
}

/// Appends the line listing local branches, when there are any.
fn push_branches_line(out: &mut String, branches: &Vec<String>)
    ensures
        final(out)@ == old(out)@ + branches_line(branches@),
{
    if branches.len() > 0 {
        let ghost start = out@;
        push_text(out, "Local branches: ");
        push_joined(out, branches, ", ");
        push_text(out, "\n");
        assert(out@ =~= start + branches_line(branches@));
    } else {
        assert(old(out)@ + Seq::<char>::empty() =~= old(out)@);
    }
}

/// The human-readable diagnostics report.
pub open spec fn diagnostics_summary(report: DiagnosticsReport) -> Seq<char> {
    "Gitflux Diagnostics\n"@
        + "Repository path: "@ + report.repository_path@ + "\n"@
        + "GPU/backend: "@ + readiness(report.gpu.ready) + in_parens(report.gpu.detail) + "\n"@
        + "FFmpeg: "@ + readiness(report.ffmpeg.available) + " at "@ + report.ffmpeg.path@
        + in_parens(report.ffmpeg.version) + in_parens(report.ffmpeg.error) + "\n"@
        + "Ref selection: "@ + report.refs.selection_mode@ + "\n"@
        + "Mainline: "@ + report.refs.mainline@ + "\n"@
        + opt_line("Mainline tip: "@, report.refs.mainline_tip)
        + opt_line("HEAD: "@, report.refs.head)
        + branches_line(report.refs.local_branches@)
        + opt_line("Ref diagnostics: "@, report.refs.error)
        + "Cache location: "@ + report.cache.location@ + "\n"@
        + "Cache status: "@ + report.cache.status@ + "\n"@
        + "Cache match policy: "@ + report.cache.match_policy@ + "\n"@
        + "Cache matches current inputs: "@ + match_label(report.cache.matches_current_inputs) + "\n"@
        + "Cache detail: "@ + report.cache.detail@ + "\n"@
}

/// Appends ` (` text `)` when there is a text.
fn push_in_parens(out: &mut String, o: &Option<String>)
    ensures
        final(out)@ == old(out)@ + in_parens(*o),
{
    match o {
        Some(t) => {
            push_text(out, " (");
            push_text(out, t.as_str());
            push_text(out, ")");
            proof {
                reveal_strlit(" (");
                reveal_strlit(")");
            }
        },
        None => {
            assert(old(out)@ + Seq::<char>::empty() =~= old(out)@);
        },
    }
}

/// Appends a labelled line when there is a text.
fn push_opt_line(out: &mut String, label: &str, o: &Option<String>)
    ensures
        final(out)@ == old(out)@ + opt_line(label@, *o),
{
    match o {
        Some(t) => {
            push_text(out, label);
            push_text(out, t.as_str());
            push_text(out, "\n");
            proof {
                reveal_strlit("\n");
            }
        },
        None => {
            assert(old(out)@ + Seq::<char>::empty() =~= old(out)@);
        },
    }
}

/// Appends texts joined with `sep`.
fn push_joined(out: &mut String, items: &Vec<String>, sep: &str)
    ensures
        final(out)@ == old(out)@ + joined(texts(items@), sep@),
{
    let ghost start = out@;
    let mut i: usize = 0;
    assert(texts(items@).take(0) =~= Seq::<Seq<char>>::empty());
    while i < items.len()
        invariant
            i <= items@.len(),
            out@ == start + joined(texts(items@).take(i as int), sep@),
        decreases items@.len() - i,
    {
        if i > 0 {
            push_text(out, sep);
        }
        push_text(out, items[i].as_str());
        proof {
            let t = texts(items@);
            assert(t.take(i + 1).drop_last() =~= t.take(i as int));
            assert(t.take(i + 1).last() == items@[i as int]@);
            if i == 0 {
                assert(t.take(1)[0] == items@[0]@);
            }
        }
        i = i + 1;
    }
    assert(texts(items@).take(items@.len() as int) =~= texts(items@));
}

/// Describes a diagnostics report for a person.
pub fn diagnostics_human_summary(report: &DiagnosticsReport) -> (r: String)
    ensures
        r@ == diagnostics_summary(*report),
{
    let mut out = owned("Gitflux Diagnostics\n");
    push_text(&mut out, "Repository path: ");
    push_text(&mut out, report.repository_path.as_str());
    push_text(&mut out, "\n");
    push_text(&mut out, "GPU/backend: ");
    push_text(&mut out, readiness_label(report.gpu.ready));
    push_in_parens(&mut out, &report.gpu.detail);
    push_text(&mut out, "\n");
    push_text(&mut out, "FFmpeg: ");
    push_text(&mut out, readiness_label(report.ffmpeg.available));
    push_text(&mut out, " at ");
    push_text(&mut out, report.ffmpeg.path.as_str());
    push_in_parens(&mut out, &report.ffmpeg.version);
    push_in_parens(&mut out, &report.ffmpeg.error);
    push_text(&mut out, "\n");
    push_text(&mut out, "Ref selection: ");
    push_text(&mut out, report.refs.selection_mode.as_str());
    push_text(&mut out, "\n");
    push_text(&mut out, "Mainline: ");
    push_text(&mut out, report.refs.mainline.as_str());
    push_text(&mut out, "\n");
    push_opt_line(&mut out, "Mainline tip: ", &report.refs.mainline_tip);
    push_opt_line(&mut out, "HEAD: ", &report.refs.head);
    push_branches_line(&mut out, &report.refs.local_branches);
    push_opt_line(&mut out, "Ref diagnostics: ", &report.refs.error);
    push_text(&mut out, "Cache location: ");
    push_text(&mut out, report.cache.location.as_str());
    push_text(&mut out, "\n");
    push_text(&mut out, "Cache status: ");
    push_text(&mut out, report.cache.status.as_str());
    push_text(&mut out, "\n");
    push_text(&mut out, "Cache match policy: ");
    push_text(&mut out, report.cache.match_policy.as_str());
    push_text(&mut out, "\n");
    push_text(&mut out, "Cache matches current inputs: ");
    push_text(&mut out, match_label_text(report.cache.matches_current_inputs));
    push_text(&mut out, "\n");
    push_text(&mut out, "Cache detail: ");
    push_text(&mut out, report.cache.detail.as_str());
    push_text(&mut out, "\n");
    proof {
        assert(out@ =~= diagnostics_summary(*report));
    }
    out
}

/// How a probe of the GPU went: the offscreen renderer started, or why not.
pub open spec fn gpu_diagnostic_of(started: Result<(), Seq<char>>) -> (Seq<char>, bool, Seq<char>) {
    match started {
        Ok(()) => ("wgpu-offscreen"@, true, "offscreen renderer initialized"@),
        Err(e) => ("wgpu-offscreen"@, false, e),
    }
}

/// The GPU diagnostic of an attempt to start the offscreen renderer.
pub fn gpu_diagnostic(started: Result<(), String>) -> (r: GpuDiagnostic)
    ensures
        r.detail is Some,
        (r.backend@, r.ready, r.detail.unwrap()@) == gpu_diagnostic_of(
            match started {
                Ok(()) => Ok(()),
                Err(e) => Err(e@),
            },
        ),
{
    match started {
        Ok(()) => GpuDiagnostic {
            backend: owned("wgpu-offscreen"),
            ready: true,
            detail: Some(owned("offscreen renderer initialized")),
        },
        Err(e) => GpuDiagnostic { backend: owned("wgpu-offscreen"), ready: false, detail: Some(e) },
    }
}

/// How a run of `ffmpeg -version` went.
#[derive(Debug, Clone, PartialEq, Eq)]
pub enum FfmpegProbe {
    /// It could not be started.
    NotStarted {
        /// Why.
        error: String,
    },
    /// It ran and exited.
    Exited {
        /// Whether it reported success.
        success: bool,
        /// Its exit code, when the platform reported one.
        exit_code: Option<i32>,
        /// Its standard output, as text.
        stdout: String,
        /// Its standard error, as text.
        stderr: String,
    },
}

/// What a probe says of FFmpeg: (available, version, error).
pub open spec fn ffmpeg_findings(probe: FfmpegProbe) -> (bool, Option<Seq<char>>, Option<Seq<char>>) {
    match probe {
        FfmpegProbe::NotStarted { error } => (false, None, Some(error@)),
        FfmpegProbe::Exited { success, exit_code, stdout, stderr } => if success {
            let version = match first_nonempty_line(stdout@) {
                Some(line) => Some(line),
                None => first_nonempty_line(stderr@),
            };
            match version {
                Some(line) => if line.len() >= 15 && line.take(15) == "ffmpeg version "@ {
                    (true, Some(line), None)
                } else {
                    (false, None, Some("version probe did not produce recognizable FFmpeg output: "@ + line))
                },
                None => (false, None, Some("version probe did not produce recognizable FFmpeg output"@)),
            }
        } else {
            (
                false,
                None,
                Some(
                    "version probe exited with "@ + (match exit_code {
                        Some(code) => signed_decimal(code as int),
                        None => "signal"@,
                    }) + (match first_nonempty_line(stderr@) {
                        Some(line) => ": "@ + line,
                        None => Seq::empty(),
                    }),
                ),
            )
        },
    }
}

/// The view of an optional string.
pub open spec fn opt_text(o: Option<String>) -> Option<Seq<char>> {
    match o {
        Some(t) => Some(t@),
        None => None,
    }
}

/// Whether `line` starts with `ffmpeg version `.
fn is_ffmpeg_version_line(line: &str) -> (r: bool)
    ensures
        r == (line@.len() >= 15 && line@.take(15) == "ffmpeg version "@),
{
    let v = crate::text::chars_of(line);
    let prefix = crate::text::chars_of("ffmpeg version ");
    proof {
        reveal_strlit("ffmpeg version ");
    }
    if v.len() < 15 {
        return false;
    }
    let mut i: usize = 0;
    while i < 15
        invariant
            i <= 15,
            v@.len() >= 15,
            prefix@ == "ffmpeg version "@,
            prefix@.len() == 15,
            v@ == line@,
            forall|j: int| 0 <= j < i ==> v@[j] == prefix@[j],
        decreases 15 - i,
    {
        if v[i] != prefix[i] {
            assert(v@.take(15)[i as int] != "ffmpeg version "@[i as int]);
            return false;
        }
        i = i + 1;
    }
    assert(v@.take(15) =~= "ffmpeg version "@);
    true
}

/// The FFmpeg diagnostic of a version probe of `binary`: available when it
/// ran, succeeded, and its first non-blank output line is an FFmpeg version
/// line.
pub fn ffmpeg_diagnostic(binary: &FfmpegBinary, probe: FfmpegProbe) -> (r: FfmpegDiagnostic)
    ensures
        r.path@ == binary@,
        (r.available, opt_text(r.version), opt_text(r.error)) == ffmpeg_findings(probe),
{
    let path = owned(binary.path());
    match probe {
        FfmpegProbe::NotStarted { error } => FfmpegDiagnostic { path, available: false, version: None, error: Some(error) },
        FfmpegProbe::Exited { success, exit_code, stdout, stderr } => {
            if success {
                let version = match first_nonempty_line_of(stdout.as_str()) {
                    Some(line) => Some(line),
                    None => first_nonempty_line_of(stderr.as_str()),
                };
                match version {
                    Some(line) => {
                        if is_ffmpeg_version_line(line.as_str()) {
                            FfmpegDiagnostic { path, available: true, version: Some(line), error: None }
                        } else {
                            let mut message = owned("version probe did not produce recognizable FFmpeg output: ");
                            push_text(&mut message, line.as_str());
                            proof {
                                reveal_strlit("version probe did not produce recognizable FFmpeg output: ");
                            }
                            FfmpegDiagnostic { path, available: false, version: None, error: Some(message) }
                        }
                    },
                    None => FfmpegDiagnostic {
                        path,
                        available: false,
                        version: None,
                        error: Some(owned("version probe did not produce recognizable FFmpeg output")),
                    },
                }
            } else {
                let mut message = owned("version probe exited with ");
                match exit_code {
                    Some(code) => {
                        let text = signed_decimal_text(code);
                        push_text(&mut message, text.as_str());
                    },
                    None => push_text(&mut message, "signal"),
                }
                match first_nonempty_line_of(stderr.as_str()) {
                    Some(line) => {
                        push_text(&mut message, ": ");
                        push_text(&mut message, line.as_str());
                    },
                    None => {},
                }
                proof {
                    reveal_strlit("version probe exited with ");
                    reveal_strlit("signal");
                    reveal_strlit(": ");
                }
                FfmpegDiagnostic { path, available: false, version: None, error: Some(message) }
            }
        },
    }
}

/// What reading a repository's refs found.
#[derive(Debug, PartialEq, Eq)]
pub struct RefFacts {
    /// What HEAD names: its branch's short name, or its commit.
    pub head: Option<String>,
    /// Local branch names, in any order.
    pub local_branches: Vec<String>,
    /// The ingested Mainline and its tip commit, or why ingestion failed.
    pub ingestion: Result<(String, Option<String>), String>,
}

/// The ref diagnostic of a repository: how the Mainline was chosen, and
/// what its refs say; when the repository cannot be opened, only why.
pub fn ref_diagnostic(selection: &MainlineSelection, repository: Result<RefFacts, String>) -> (r: RefDiagnostic)
    ensures
        r.selection_mode@ == (match selection_view(*selection) {
            None => "detected"@,
            Some(_) => "explicit"@,
        }),
        match repository {
            Err(e) => {
                &&& r.mainline@ == (match selection_view(*selection) {
                    None => "auto"@,
                    Some(name) => name,
                })
                &&& r.mainline_tip is None
                &&& r.head is None
                &&& r.local_branches@.len() == 0
                &&& opt_text(r.error) == Some("failed to open Git repository: "@ + e@)
            },
            Ok(facts) => {
                &&& opt_text(r.head) == opt_text(facts.head)
                &&& crate::text::strictly_sorted(texts(r.local_branches@))
                &&& texts(r.local_branches@).to_set() == texts(facts.local_branches@).to_set()
                &&& match facts.ingestion {
                    Ok((mainline, tip)) => r.mainline@ == mainline@ && opt_text(r.mainline_tip) == opt_text(tip)
                        && r.error is None,
                    Err(e) => r.mainline@ == (match selection_view(*selection) {
                        None => "auto"@,
                        Some(name) => name,
                    }) && r.mainline_tip is None && opt_text(r.error) == Some(e@),
                }
            },
        },
{
    let selection_mode = owned(selection.selection_mode());
    let label = owned(selection.as_label());
    match repository {
        Err(e) => {
            let mut message = owned("failed to open Git repository: ");
            push_text(&mut message, e.as_str());
            proof {
                reveal_strlit("failed to open Git repository: ");
            }
            RefDiagnostic {
                selection_mode,
                mainline: label,
                mainline_tip: None,
                head: None,
                local_branches: Vec::new(),
                error: Some(message),
            }
        },
        Ok(facts) => {
            let local_branches = crate::text::sorted_texts(&facts.local_branches);
            match facts.ingestion {
                Ok((mainline, tip)) => RefDiagnostic {
                    selection_mode,
                    mainline,
                    mainline_tip: tip,
                    head: facts.head,
                    local_branches,
                    error: None,
                },
                Err(e) => RefDiagnostic {
                    selection_mode,
                    mainline: label,
                    mainline_tip: None,
                    head: facts.head,
                    local_branches,
                    error: Some(e),
                },
            }
        },
    }
}

/// Where the replay cache lives: under the repository's git directory when
/// it can be opened, under `.git` of the repository path otherwise.
pub open spec fn cache_location_of(repository_path: Seq<char>, git_dir: Option<Seq<char>>) -> Seq<char> {
    match git_dir {
        Some(d) => join_path(join_path(d, "gitflux"@), "cache"@),
        None => join_path(join_path(join_path(repository_path, ".git"@), "gitflux"@), "cache"@),
    }
}

/// Returns where the replay cache lives.
pub fn cache_location(repository_path: &str, git_dir: Option<&str>) -> (r: String)
    ensures
        r@ == cache_location_of(repository_path@, match git_dir {
            Some(d) => Some(d@),
            None => None,
        }),
{
    match git_dir {
        Some(d) => {
            let inner = join(d, "gitflux");
            join(inner.as_str(), "cache")
        },
        None => {
            let git = join(repository_path, ".git");
            let inner = join(git.as_str(), "gitflux");
            join(inner.as_str(), "cache")
        },
    }
}

/// The bytes hashed into the key of the current diagnostic inputs: the
/// repository path, the selection mode and the Mainline, each followed by a
/// zero byte, then the Mainline tip when known.
pub open spec fn inputs_key_bytes(repository_path: Seq<char>, refs: RefDiagnostic) -> Seq<u8> {
    encode_utf8(repository_path) + seq![0u8] + encode_utf8(refs.selection_mode@) + seq![0u8] + encode_utf8(
        refs.mainline@,
    ) + seq![0u8] + match refs.mainline_tip {
        Some(tip) => encode_utf8(tip@),
        None => Seq::empty(),
    }
}

/// Appends the UTF-8 bytes of `s`.
fn push_bytes(out: &mut Vec<u8>, s: &str)
    ensures
        final(out)@ == old(out)@ + encode_utf8(s@),
{
    let bytes = s.as_bytes();
    let ghost start = out@;
    let mut i: usize = 0;
    while i < bytes.len()
        invariant
            i <= bytes@.len(),
            bytes@ == encode_utf8(s@),
            out@ == start + bytes@.take(i as int),
        decreases bytes@.len() - i,
    {
        out.push(bytes[i]);
        assert(bytes@.take(i + 1) =~= bytes@.take(i as int).push(bytes@[i as int]));
        i = i + 1;
    }
    assert(bytes@.take(bytes@.len() as int) =~= bytes@);
}

/// The key of the current diagnostic inputs: the `sha256:` label of
/// `inputs_key_bytes`.
pub fn diagnostic_inputs_key(repository_path: &str, refs: &RefDiagnostic) -> (r: String)
    ensures
        r@ == sha256_label_of(inputs_key_bytes(repository_path@, *refs)),
{
    let mut bytes: Vec<u8> = Vec::new();
    push_bytes(&mut bytes, repository_path);
    bytes.push(0u8);
    push_bytes(&mut bytes, refs.selection_mode.as_str());
    bytes.push(0u8);
    push_bytes(&mut bytes, refs.mainline.as_str());
    bytes.push(0u8);
    let ghost before_tip = bytes@;
    match &refs.mainline_tip {
        Some(tip) => push_bytes(&mut bytes, tip.as_str()),
        None => {
            assert(before_tip + Seq::<u8>::empty() =~= before_tip);
        },
    }
    assert(bytes@ =~= inputs_key_bytes(repository_path@, *refs));
    sha256_label(bytes.as_slice())
}

/// The cache diagnostic: no cache metadata exists yet, so nothing can be
/// claimed to match the current inputs.
pub fn cache_diagnostic(location: String, location_exists: bool, current_inputs_key: String) -> (r: CacheDiagnostic)
    ensures
        r.location@ == location@,
        r.status@ == (if location_exists {
            "present_without_metadata"@
        } else {
            "not_present"@
        }),
        r.match_policy@ == "disabled_until_cache_metadata_exists"@,
        r.current_inputs_key@ == current_inputs_key@,
        r.matches_current_inputs == Some(false),
        r.detail@ == "Gitflux has no cache metadata subsystem yet, so diagnostics cannot claim any cached data matches the current repository inputs."@,
{
    CacheDiagnostic {
        location,
        status: if location_exists {
            owned("present_without_metadata")
        } else {
            owned("not_present")
        },
        match_policy: owned("disabled_until_cache_metadata_exists"),
        current_inputs_key,
        matches_current_inputs: Some(false),
        detail: owned(
            "Gitflux has no cache metadata subsystem yet, so diagnostics cannot claim any cached data matches the current repository inputs.",
        ),
    }
}

} // verus!
