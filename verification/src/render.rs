//! Render planning: what a renderer is asked to produce, and where frame
//! sequences are written.

use vstd::prelude::*;

use crate::config::{RenderConfiguration, RenderConfigurationView};
use crate::domain::{RepositoryReplay, RepositoryReplayView};
use crate::paths::{join, join_path, lemma_join_path_names};
use crate::text::{concat, lemma_zero_padded_value, owned, zero_padded, zero_padded_text};

verus! {

/// Deterministic input for producing rendered frames.
#[derive(Debug, Clone, PartialEq, Eq)]
pub struct RenderPlan {
    replay: RepositoryReplay,
    configuration: RenderConfiguration,
}

impl View for RenderPlan {
    type V = (RepositoryReplayView, RenderConfigurationView);

    closed spec fn view(&self) -> (RepositoryReplayView, RenderConfigurationView) {
        (self.replay@, self.configuration@)
    }
}

impl RenderPlan {
    /// Creates a render plan from a Repository Replay and Render Configuration.
    pub fn new(replay: RepositoryReplay, configuration: RenderConfiguration) -> (r: Self)
        ensures
            r@ == (replay@, configuration@),
    {
        RenderPlan { replay, configuration }
    }

    /// Returns the Repository Replay to render.
    pub fn replay(&self) -> (r: &RepositoryReplay)
        ensures
            r@ == self@.0,
    {
        &self.replay
    }

    /// Returns the Render Configuration.
    pub fn configuration(&self) -> (r: &RenderConfiguration)
        ensures
            r@ == self@.1,
    {
        &self.configuration
    }
}

/// Adapter preference for offscreen rendering.
#[derive(Debug, Clone, Copy, PartialEq, Eq)]
pub enum GpuPowerPreference {
    /// Prefer a lower-power adapter when available.
    LowPower,
    /// Prefer a higher-performance adapter when available.
    HighPerformance,
}

/// Windowless renderer settings.
#[derive(Debug, Clone, Copy, PartialEq, Eq)]
pub struct RendererSettings {
    power_preference: GpuPowerPreference,
}

impl View for RendererSettings {
    type V = GpuPowerPreference;

    closed spec fn view(&self) -> GpuPowerPreference {
        self.power_preference
    }
}

impl RendererSettings {
    /// Creates renderer settings.
    pub fn new(power_preference: GpuPowerPreference) -> (r: Self)
        ensures
            r@ == power_preference,
    {
        RendererSettings { power_preference }
    }

    /// Returns the requested GPU power preference.
    pub fn power_preference(self) -> (r: GpuPowerPreference)
        ensures
            r == self@,
    {
        self.power_preference
    }
}

impl Default for RendererSettings {
    /// Prefers a low-power adapter.
    fn default() -> (r: Self)
        ensures
            r@ == GpuPowerPreference::LowPower,
    {
        RendererSettings { power_preference: GpuPowerPreference::LowPower }
    }
}

/// Output frame dimensions.
#[derive(Debug, Clone, Copy, PartialEq, Eq)]
pub struct RenderFrameSize {
    width: u32,
    height: u32,
}

impl View for RenderFrameSize {
    type V = (u32, u32);

    closed spec fn view(&self) -> (u32, u32) {
        (self.width, self.height)
    }
}

impl RenderFrameSize {
    /// Creates frame dimensions.
    pub fn new(width: u32, height: u32) -> (r: Self)
        ensures
            r@ == (width, height),
    {
        RenderFrameSize { width, height }
    }

    /// Returns the frame width in pixels.
    pub fn width(self) -> (r: u32)
        ensures
            r == self@.0,
    {
        self.width
    }

    /// Returns the frame height in pixels.
    pub fn height(self) -> (r: u32)
        ensures
            r == self@.1,
    {
        self.height
    }
}

/// Zero-based frame index.
#[derive(Debug, Clone, Copy, PartialEq, Eq, PartialOrd, Ord)]
pub struct FrameIndex(u64);

impl View for FrameIndex {
    type V = u64;

    closed spec fn view(&self) -> u64 {
        self.0
    }
}

impl FrameIndex {
    /// Creates a frame index.
    pub fn new(value: u64) -> (r: Self)
        ensures
            r@ == value,
    {
        FrameIndex(value)
    }

    /// Returns the numeric frame index.
    pub fn get(self) -> (r: u64)
        ensures
            r == self@,
    {
        self.0
    }
}

/// Number of frames to render; never zero.
#[derive(Debug, Clone, Copy, PartialEq, Eq)]
pub struct FrameCount(u64);

impl View for FrameCount {
    type V = u64;

    closed spec fn view(&self) -> u64 {
        self.0
    }
}

impl FrameCount {
    /// A frame count is positive.
    #[verifier::type_invariant]
    spec fn positive(self) -> bool {
        self.0 > 0
    }

    /// Creates a non-zero frame count.
    pub fn new(value: u64) -> (r: Self)
        requires
            value > 0,
        ensures
            r@ == value,
    {
        FrameCount(value)
    }

    /// Returns the frame count.
    pub fn get(self) -> (r: u64)
        ensures
            r == self@,
            r > 0,
    {
        proof {
            use_type_invariant(&self);
        }
        self.0
    }
}

/// A rendered RGBA frame copied back from the GPU.
#[derive(Debug, Clone, PartialEq, Eq)]
pub struct RenderedFrame {
    index: FrameIndex,
    size: RenderFrameSize,
    frames_per_second: u32,
    rgba: Vec<u8>,
}

/// What a rendered frame holds.
pub struct RenderedFrameView {
    pub index: u64,
    pub size: (u32, u32),
    pub frames_per_second: u32,
    pub rgba: Seq<u8>,
}

impl View for RenderedFrame {
    type V = RenderedFrameView;

    closed spec fn view(&self) -> RenderedFrameView {
        RenderedFrameView {
            index: self.index@,
            size: self.size@,
            frames_per_second: self.frames_per_second,
            rgba: self.rgba@,
        }
    }
}

impl RenderedFrame {
    /// Records a frame read back from the renderer: its index, size, frame
    /// rate and tightly packed RGBA8 pixels.
    pub fn new(index: FrameIndex, size: RenderFrameSize, frames_per_second: u32, rgba: Vec<u8>) -> (r: Self)
        ensures
            r@ == (RenderedFrameView { index: index@, size: size@, frames_per_second, rgba: rgba@ }),
    {
        RenderedFrame { index, size, frames_per_second, rgba }
    }

    /// Returns the rendered frame index.
    pub fn index(&self) -> (r: FrameIndex)
        ensures
            r@ == self@.index,
    {
        self.index
    }

    /// Returns the rendered frame size.
    pub fn size(&self) -> (r: RenderFrameSize)
        ensures
            r@ == self@.size,
    {
        self.size
    }

    /// Returns the configured render frame rate.
    pub fn frames_per_second(&self) -> (r: u32)
        ensures
            r == self@.frames_per_second,
    {
        self.frames_per_second
    }

    /// Returns tightly packed RGBA8 pixels.
    pub fn rgba(&self) -> (r: &[u8])
        ensures
            r@ == self@.rgba,
    {
        self.rgba.as_slice()
    }
}

/// File stem used by frame-sequence PNGs.
#[derive(Debug, Clone, PartialEq, Eq)]
pub struct FrameFileStem(String);

impl View for FrameFileStem {
    type V = Seq<char>;

    closed spec fn view(&self) -> Seq<char> {
        self.0@
    }
}

impl FrameFileStem {
    /// Creates a frame file stem.
    pub fn new(value: &str) -> (r: Self)
        ensures
            r@ == value@,
    {
        FrameFileStem(owned(value))
    }

    /// Returns the frame file stem.
    pub fn as_str(&self) -> (r: &str)
        ensures
            r@ == self@,
    {
        self.0.as_str()
    }
}

/// The file name of frame `index`: the stem, `_`, the index padded with
/// zeros to six digits, and `.png`.
pub open spec fn frame_file_name(stem: Seq<char>, index: u64) -> Seq<char> {
    stem + seq!['_'] + zero_padded(index as nat, 6) + ".png"@
}

/// Each frame of a sequence is written to a file of its own: two frame
/// indices give the same path only when they are the same index.
pub proof fn lemma_frame_paths_distinct(output: FrameSequenceOutputView, i: u64, j: u64)
    ensures
        join_path(output.directory, frame_file_name(output.file_stem, i)) == join_path(
            output.directory,
            frame_file_name(output.file_stem, j),
        ) ==> i == j,
{
    let a = frame_file_name(output.file_stem, i);
    let b = frame_file_name(output.file_stem, j);
    if join_path(output.directory, a) == join_path(output.directory, b) {
        let head = output.file_stem + seq!['_'];
        let pi = zero_padded(i as nat, 6);
        let pj = zero_padded(j as nat, 6);
        assert(a =~= head + pi + ".png"@);
        assert(b =~= head + pj + ".png"@);
        assert(a[0] == head[0]);
        assert(b[0] == head[0]);
        lemma_join_path_names(output.directory, a, b);
        assert(pi.len() == pj.len());
        assert(pi =~= a.subrange(head.len() as int, (head.len() + pi.len()) as int));
        assert(pj =~= b.subrange(head.len() as int, (head.len() + pj.len()) as int));
        lemma_zero_padded_value(i as nat, 6);
        lemma_zero_padded_value(j as nat, 6);
    }
}

/// What a frame-sequence output target says.
pub struct FrameSequenceOutputView {
    pub directory: Seq<char>,
    pub file_stem: Seq<char>,
    pub first_frame_index: u64,
}

/// Target directory and naming policy for PNG frame sequences.
#[derive(Debug, Clone, PartialEq, Eq)]
pub struct FrameSequenceOutput {
    directory: String,
    file_stem: FrameFileStem,
    first_frame_index: FrameIndex,
}

impl View for FrameSequenceOutput {
    type V = FrameSequenceOutputView;

    closed spec fn view(&self) -> FrameSequenceOutputView {
        FrameSequenceOutputView {
            directory: self.directory@,
            file_stem: self.file_stem@,
            first_frame_index: self.first_frame_index@,
        }
    }
}

impl FrameSequenceOutput {
    /// Creates a PNG frame-sequence output target that starts at frame 0.
    pub fn new(directory: &str, file_stem: FrameFileStem) -> (r: Self)
        ensures
            r@ == (FrameSequenceOutputView {
                directory: directory@,
                file_stem: file_stem@,
                first_frame_index: 0,
            }),
    {
        FrameSequenceOutput { directory: owned(directory), file_stem, first_frame_index: FrameIndex::new(0) }
    }

    /// Uses another first frame index for the output sequence.
    pub fn with_first_frame_index(self, first_frame_index: FrameIndex) -> (r: Self)
        ensures
            r@ == (FrameSequenceOutputView { first_frame_index: first_frame_index@, ..self@ }),
    {
        FrameSequenceOutput { first_frame_index, ..self }
    }

    /// Returns the output directory.
    pub fn directory(&self) -> (r: &str)
        ensures
            r@ == self@.directory,
    {
        self.directory.as_str()
    }

    /// Returns the output file stem.
    pub fn file_stem(&self) -> (r: &FrameFileStem)
        ensures
            r@ == self@.file_stem,
    {
        &self.file_stem
    }

    /// Returns the first frame index written by this target.
    pub fn first_frame_index(&self) -> (r: FrameIndex)
        ensures
            r@ == self@.first_frame_index,
    {
        self.first_frame_index
    }

    /// Returns the PNG path for a frame index.
    pub fn frame_path(&self, frame_index: FrameIndex) -> (r: String)
        ensures
            r@ == join_path(self@.directory, frame_file_name(self@.file_stem, frame_index@)),
    {
        let with_sep = concat(self.file_stem.as_str(), "_");
        let padded = zero_padded_text(frame_index.get(), 6);
        let with_index = concat(with_sep.as_str(), padded.as_str());
        let name = concat(with_index.as_str(), ".png");
        proof {
            reveal_strlit("_");
            reveal_strlit(".png");
            assert(name@ =~= frame_file_name(self@.file_stem, frame_index@));
        }
        join(self.directory.as_str(), name.as_str())
    }
}

/// One frame of a sequence: the playback frame rendered, and the index its
/// file is written under.
#[derive(Debug, Clone, Copy, PartialEq, Eq)]
pub struct FrameSequenceIndexPair {
    playback_frame_index: FrameIndex,
    output_frame_index: FrameIndex,
}

impl View for FrameSequenceIndexPair {
    type V = (u64, u64);

    closed spec fn view(&self) -> (u64, u64) {
        (self.playback_frame_index@, self.output_frame_index@)
    }
}

impl FrameSequenceIndexPair {
    /// Returns the playback frame to render.
    pub fn playback_frame_index(self) -> (r: FrameIndex)
        ensures
            r@ == self@.0,
    {
        self.playback_frame_index
    }

    /// Returns the index the frame's file is written under.
    pub fn output_frame_index(self) -> (r: FrameIndex)
        ensures
            r@ == self@.1,
    {
        self.output_frame_index
    }
}

/// The frames of a sequence: playback frames 0 to `frame_count - 1`, each
/// written under the output's first frame index plus its offset.
pub fn frame_sequence_indices(output: &FrameSequenceOutput, frame_count: FrameCount) -> (r: Vec<FrameSequenceIndexPair>)
    requires
        output@.first_frame_index + frame_count@ - 1 <= u64::MAX,
    ensures
        r@.len() == frame_count@,
        forall|k: int|
            0 <= k < r@.len() ==> #[trigger] r@[k]@ == (k as u64, (output@.first_frame_index + k) as u64),
{
    let count = frame_count.get();
    let first = output.first_frame_index().get();
    let mut r: Vec<FrameSequenceIndexPair> = Vec::new();
    let mut offset: u64 = 0;
    while offset < count
        invariant
            count == frame_count@,
            first == output@.first_frame_index,
            first + count - 1 <= u64::MAX,
            offset <= count,
            r@.len() == offset,
            forall|k: int| 0 <= k < r@.len() ==> #[trigger] r@[k]@ == (k as u64, (first + k) as u64),
        decreases count - offset,
    {
        let pair = FrameSequenceIndexPair {
            playback_frame_index: FrameIndex::new(offset),
            output_frame_index: FrameIndex::new(first + offset),
        };
        r.push(pair);
        assert(r@[offset as int] == pair);
        offset = offset + 1;
    }
    r
}

/// What a frame-sequence manifest says.
pub struct FrameSequenceManifestView {
    pub frames_per_second: u32,
    pub frame_size: (u32, u32),
    pub frame_paths: Seq<Seq<char>>,
}

/// Files produced by a frame-sequence render.
#[derive(Debug, Clone, PartialEq, Eq)]
pub struct FrameSequenceManifest {
    frames_per_second: u32,
    frame_size: RenderFrameSize,
    frame_paths: Vec<String>,
}

impl View for FrameSequenceManifest {
    type V = FrameSequenceManifestView;

    closed spec fn view(&self) -> FrameSequenceManifestView {
        FrameSequenceManifestView {
            frames_per_second: self.frames_per_second,
            frame_size: self.frame_size@,
            frame_paths: crate::text::texts(self.frame_paths@),
        }
    }
}

impl FrameSequenceManifest {
    /// The manifest of rendering `frame_count` frames of `plan` into
    /// `output`: the configured frame rate and size, and the path of each
    /// frame in render order.
    pub fn for_sequence(plan: &RenderPlan, output: &FrameSequenceOutput, frame_count: FrameCount) -> (r: Self)
        requires
            output@.first_frame_index + frame_count@ - 1 <= u64::MAX,
        ensures
            r@.frames_per_second == plan@.1.frames_per_second,
            r@.frame_size == plan@.1.frame_size,
            r@.frame_paths.len() == frame_count@,
            forall|k: int|
                0 <= k < r@.frame_paths.len() ==> #[trigger] r@.frame_paths[k] == join_path(
                    output@.directory,
                    frame_file_name(output@.file_stem, (output@.first_frame_index + k) as u64),
                ),
    {
        let pairs = frame_sequence_indices(output, frame_count);
        let mut frame_paths: Vec<String> = Vec::new();
        let mut k: usize = 0;
        while k < pairs.len()
            invariant
                k <= pairs@.len(),
                pairs@.len() == frame_count@,
                forall|j: int|
                    0 <= j < pairs@.len() ==> #[trigger] pairs@[j]@ == (j as u64, (output@.first_frame_index + j) as u64),
                frame_paths@.len() == k,
                forall|j: int|
                    0 <= j < k ==> #[trigger] frame_paths@[j]@ == join_path(
                        output@.directory,
                        frame_file_name(output@.file_stem, (output@.first_frame_index + j) as u64),
                    ),
            decreases pairs@.len() - k,
        {
            let path = output.frame_path(pairs[k].output_frame_index());
            frame_paths.push(path);
            k = k + 1;
        }
        let configuration = plan.configuration();
        let size = configuration.frame_size();
        let manifest = FrameSequenceManifest {
            frames_per_second: configuration.frames_per_second().get(),
            frame_size: RenderFrameSize::new(size.width(), size.height()),
            frame_paths,
        };
        assert(manifest@.frame_paths.len() == frame_count@);
        manifest
    }

    /// Returns the frame rate used for the output sequence.
    pub fn frames_per_second(&self) -> (r: u32)
        ensures
            r == self@.frames_per_second,
    {
        self.frames_per_second
    }

    /// Returns the size of each rendered frame.
    pub fn frame_size(&self) -> (r: RenderFrameSize)
        ensures
            r@ == self@.frame_size,
    {
        self.frame_size
    }

    /// Returns PNG frame paths in render order.
    pub fn frame_paths(&self) -> (r: &[String])
        ensures
            crate::text::texts(r@) == self@.frame_paths,
    {
        self.frame_paths.as_slice()
    }
}

/// `value` rounded up to a multiple of `alignment`.
pub open spec fn aligned_up(value: int, alignment: int) -> int {
    (value + alignment - 1) / alignment * alignment
}

/// The bytes per row of a GPU readback buffer: the row's bytes rounded up
/// to the copy alignment the GPU asks for.
pub fn padded_bytes_per_row(unpadded_bytes_per_row: u32, alignment: u32) -> (r: u64)
    requires
        alignment > 0,
    ensures
        r == aligned_up(unpadded_bytes_per_row as int, alignment as int),
{
    let sum: u64 = unpadded_bytes_per_row as u64 + alignment as u64 - 1;
    let a: u64 = alignment as u64;
    let rows: u64 = sum / a;
    assert(rows * a <= sum) by (nonlinear_arith)
        requires
            rows == sum / a,
            a > 0,
    ;
    rows * a
}

/// The pixels of `rows` rows read back with `padded` bytes per row, of
/// which the first `unpadded` are the row's pixels: the padding of each
/// row dropped.
pub fn unpadded_rows(mapped: &[u8], padded: usize, unpadded: usize, rows: usize) -> (r: Vec<u8>)
    requires
        unpadded <= padded,
        rows * padded <= mapped@.len(),
    ensures
        r@.len() == rows * unpadded,
        forall|row: int, column: int|
            0 <= row < rows && 0 <= column < unpadded ==> #[trigger] r@[row * unpadded + column] == mapped@[row
                * padded + column],
{
    let total: usize = mapped.len();
    let mut r: Vec<u8> = Vec::new();
    let mut row: usize = 0;
    while row < rows
        invariant
            total == mapped@.len(),
            row <= rows,
            unpadded <= padded,
            rows * padded <= mapped@.len(),
            r@.len() == row * unpadded,
            forall|y: int, x: int|
                0 <= y < row && 0 <= x < unpadded ==> #[trigger] r@[y * unpadded + x] == mapped@[y * padded + x],
        decreases rows - row,
    {
        assert(row * padded <= (row + 1) * padded <= rows * padded) by (nonlinear_arith)
            requires
                row + 1 <= rows,
        ;
        let start = row * padded;
        assert(start + unpadded <= (row + 1) * padded) by (nonlinear_arith)
            requires
                start == row * padded,
                unpadded <= padded,
        ;
        let ghost base = r@;
        let mut column: usize = 0;
        while column < unpadded
            invariant
                total == mapped@.len(),
                column <= unpadded <= padded,
                start == row * padded,
                start + unpadded <= mapped@.len(),
                base.len() == row * unpadded,
                r@.len() == base.len() + column,
                forall|i: int| 0 <= i < base.len() ==> r@[i] == base[i],
                forall|x: int| 0 <= x < column ==> #[trigger] r@[base.len() + x] == mapped@[start + x],
            decreases unpadded - column,
        {
            r.push(mapped[start + column]);
            column = column + 1;
        }
        assert forall|y: int, x: int|
            0 <= y < row + 1 && 0 <= x < unpadded implies #[trigger] r@[y * unpadded + x] == mapped@[y * padded + x] by {
            if y < row {
                assert(y * unpadded + x < row * unpadded) by (nonlinear_arith)
                    requires
                        y < row,
                        0 <= x < unpadded,
                ;
                assert(r@[y * unpadded + x] == base[y * unpadded + x]);
            } else {
                assert(y * unpadded + x == base.len() + x);
                assert(y * padded + x == start + x);
            }
        }
        assert(r@.len() == (row + 1) * unpadded) by (nonlinear_arith)
            requires
                r@.len() == row * unpadded + unpadded,
        ;
        row = row + 1;
    }
    r
}

/// A renderer capability.
#[derive(Debug, Clone, Copy, PartialEq, Eq)]
pub enum RendererCapability {
    /// The renderer can produce offscreen frames for Video Export.
    OffscreenFrameProduction,
    /// The renderer can power an Interactive Preview.
    InteractivePreview,
    /// The renderer can write PNG frame sequences.
    PngFrameSequenceOutput,
}

/// Returns the renderer capabilities: offscreen frames, the interactive
/// preview, and PNG frame sequences, in that order.
pub fn planned_capabilities() -> (r: Vec<RendererCapability>)
    ensures
        r@ == seq![
            RendererCapability::OffscreenFrameProduction,
            RendererCapability::InteractivePreview,
            RendererCapability::PngFrameSequenceOutput,
        ],
{
    let mut r: Vec<RendererCapability> = Vec::new();
    r.push(RendererCapability::OffscreenFrameProduction);
    r.push(RendererCapability::InteractivePreview);
    r.push(RendererCapability::PngFrameSequenceOutput);
    r
}

} // verus!
