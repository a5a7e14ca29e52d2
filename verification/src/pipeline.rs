//! The steps of one rendering, from the input file to the saved picture.
//!
//! A [`Pipeline`] says what is to be done next and is told what came of it. It
//! decides the order of the steps, which of them are left out, where a failure
//! ends the rendering, what is printed on the way and which times are kept.

use vstd::prelude::*;
use vstd::string::StringExecFns;

use crate::masks::{count_skipped, skipped_note, MaskDefinition};
use crate::picture::shrink_target;
use crate::timing::{report, Timing};

verus! {

/// What one rendering is asked to do.
pub struct Request {
    /// The picture to render.
    pub input: String,
    /// The preset to render it with.
    pub preset: String,
    /// Where the result goes.
    pub output: String,
    /// The quality of a JPEG result; the other formats are written without loss.
    pub quality: u8,
    /// The greatest length of the longer edge of the result, if any.
    pub resize: Option<u32>,
}

impl Clone for Request {
    fn clone(&self) -> (copy: Request)
        ensures
            copy.input@ == self.input@,
            copy.preset@ == self.preset@,
            copy.output@ == self.output@,
            copy.quality == self.quality,
            copy.resize == self.resize,
    {
        Request {
            input: self.input.clone(),
            preset: self.preset.clone(),
            output: self.output.clone(),
            quality: self.quality,
            resize: self.resize,
        }
    }
}

/// The step that is to be done next.
#[derive(Clone, Copy, PartialEq, Eq, Structural, Debug)]
pub enum Phase {
    /// Read the bytes of the input file.
    ReadInput,
    /// Decode those bytes to a picture.
    DecodeInput,
    /// Read and parse the preset.
    ReadPreset,
    /// Apply the geometry of the preset and draw its masks.
    Transform,
    /// Load the lookup table that the preset names.
    LoadLut,
    /// Bring the graphics processor up.
    StartGpu,
    /// Render the picture.
    Render,
    /// Bring the picture down to the size that was asked for.
    Fit,
    /// Encode the picture.
    Encode,
    /// Write the encoded picture.
    Save,
    /// Nothing: the rendering has ended.
    Finished,
}

/// What came of a step.
pub enum Event {
    /// The step was done.
    Done,
    /// The preset was read; it names this lookup table, if any.
    Preset { lut_path: Option<String> },
    /// The picture has this size after the geometry of the preset, which has these
    /// masks.
    Transformed { width: u32, height: u32, masks: Vec<MaskDefinition> },
    /// The rendered picture has this size.
    Rendered { width: u32, height: u32 },
    /// The step could not be done, for this reason.
    Failed(String),
}

/// What came of a step, with texts as sequences of characters.
pub enum EventView {
    Done,
    Preset { lut_path: Option<Seq<char>> },
    Transformed { width: u32, height: u32, skipped: nat },
    Rendered { width: u32, height: u32 },
    Failed(Seq<char>),
}

/// The text inside an optional string.
pub open spec fn option_text(text: Option<String>) -> Option<Seq<char>> {
    match text {
        Some(inner) => Some(inner@),
        None => None,
    }
}

impl View for Event {
    type V = EventView;

    open spec fn view(&self) -> EventView {
        match self {
            Event::Done => EventView::Done,
            Event::Preset { lut_path } => EventView::Preset { lut_path: option_text(*lut_path) },
            Event::Transformed { width, height, masks } => EventView::Transformed {
                width: *width,
                height: *height,
                skipped: crate::masks::skipped_total(masks@),
            },
            Event::Rendered { width, height } => EventView::Rendered {
                width: *width,
                height: *height,
            },
            Event::Failed(reason) => EventView::Failed(reason@),
        }
    }
}

/// How far a rendering has come.
#[verifier::ext_equal]
pub struct Progress {
    /// Whether this is the one rendering of a run of its own, which starts the
    /// graphics processor itself and keeps times.
    pub batch: bool,
    /// The bound on the longer edge that was asked for.
    pub resize: Option<u32>,
    pub phase: Phase,
    /// The lookup table that the preset names.
    pub lut_path: Option<Seq<char>>,
    /// The length that the longer edge is to be brought down to, where it is longer.
    pub shrink_to: Option<u32>,
    /// The size of the picture after the geometry of the preset.
    pub width: u32,
    pub height: u32,
    /// The times kept so far.
    pub rows: Seq<crate::timing::Row>,
    /// Why the rendering ended early, if it did.
    pub failure: Option<Seq<char>>,
}

/// Where every rendering begins.
pub open spec fn start(batch: bool, resize: Option<u32>) -> Progress {
    Progress {
        batch,
        resize,
        phase: Phase::ReadInput,
        lut_path: None,
        shrink_to: None,
        width: 0,
        height: 0,
        rows: Seq::empty(),
        failure: None,
    }
}

/// `p` in another phase.
pub open spec fn moved_to(p: Progress, phase: Phase) -> Progress {
    Progress { phase, ..p }
}

/// `p` with one more time kept, where times are kept.
pub open spec fn timed(p: Progress, label: Seq<char>, ms: u128) -> Progress {
    if p.batch {
        Progress { rows: p.rows.push(crate::timing::Row { label, ms }), ..p }
    } else {
        p
    }
}

/// `p`, ended by a failure.
pub open spec fn failed(p: Progress, reason: Seq<char>) -> Progress {
    Progress { phase: Phase::Finished, failure: Some(reason), ..p }
}

/// What follows once the lookup table is settled: only a run of its own has to
/// start the graphics processor.
pub open spec fn after_lut(batch: bool) -> Phase {
    if batch {
        Phase::StartGpu
    } else {
        Phase::Render
    }
}

/// How far the rendering has come once `event` came of its current step, `ms`
/// milliseconds after the current time began to run. An event that is no answer
/// to the current step changes nothing.
pub open spec fn next(p: Progress, event: EventView, ms: u128) -> Progress {
    match (p.phase, event) {
        (Phase::Finished, _) => p,
        (Phase::LoadLut, EventView::Done) => moved_to(p, after_lut(p.batch)),
        (Phase::LoadLut, EventView::Failed(_)) => moved_to(p, after_lut(p.batch)),
        (_, EventView::Failed(reason)) => failed(p, reason),
        (Phase::ReadInput, EventView::Done) => moved_to(p, Phase::DecodeInput),
        (Phase::DecodeInput, EventView::Done) => moved_to(
            timed(p, "decode (RAW→linear)"@, ms),
            Phase::ReadPreset,
        ),
        (Phase::ReadPreset, EventView::Preset { lut_path }) => Progress {
            lut_path,
            ..moved_to(timed(p, "preset parse"@, ms), Phase::Transform)
        },
        (Phase::Transform, EventView::Transformed { width, height, skipped }) => Progress {
            width,
            height,
            ..moved_to(
                timed(p, "geometry + mask raster"@, ms),
                if p.lut_path is Some {
                    Phase::LoadLut
                } else {
                    after_lut(p.batch)
                },
            )
        },
        (Phase::StartGpu, EventView::Done) => moved_to(timed(p, "GPU init"@, ms), Phase::Render),
        (Phase::Render, EventView::Rendered { width, height }) => Progress {
            shrink_to: crate::picture::shrink_to(width, height, p.resize),
            ..moved_to(
                timed(p, "GPU process + readback"@, ms),
                if p.resize is Some {
                    Phase::Fit
                } else {
                    Phase::Encode
                },
            )
        },
        (Phase::Fit, EventView::Done) => moved_to(
            timed(p, "resize (Lanczos3)"@, ms),
            Phase::Encode,
        ),
        (Phase::Encode, EventView::Done) => moved_to(p, Phase::Save),
        (Phase::Save, EventView::Done) => moved_to(
            timed(p, "encode + write"@, ms),
            Phase::Finished,
        ),
        _ => p,
    }
}

/// What is said when the lookup table at `path` could not be loaded.
pub open spec fn lut_warning_text(path: Seq<char>, reason: Seq<char>) -> Seq<char> {
    "Warning: could not load LUT '"@ + path + "': "@ + reason
}

/// What is to be printed when `event` came of the current step.
pub open spec fn notice(p: Progress, event: EventView) -> Option<Seq<char>> {
    match (p.phase, event) {
        (
            Phase::Transform,
            EventView::Transformed { width, height, skipped },
        ) => crate::masks::skipped_note_text(skipped),
        (Phase::LoadLut, EventView::Failed(reason)) => match p.lut_path {
            Some(path) => Some(lut_warning_text(path, reason)),
            None => None,
        },
        _ => None,
    }
}

/// Whether a new time begins to run with this step: reading and decoding share one,
/// as do encoding and saving; loading a lookup table has none.
pub open spec fn begins_time(phase: Phase) -> bool {
    match phase {
        Phase::ReadInput
        | Phase::ReadPreset
        | Phase::Transform
        | Phase::StartGpu
        | Phase::Render
        | Phase::Fit
        | Phase::Encode => true,
        _ => false,
    }
}

/// One rendering under way.
pub struct Pipeline {
    request: Request,
    batch: bool,
    phase: Phase,
    lut_path: Option<String>,
    shrink_to: Option<u32>,
    width: u32,
    height: u32,
    timings: Vec<Timing>,
    failure: Option<String>,
}

impl View for Pipeline {
    type V = Progress;

    closed spec fn view(&self) -> Progress {
        Progress {
            batch: self.batch,
            resize: self.request.resize,
            phase: self.phase,
            lut_path: option_text(self.lut_path),
            shrink_to: self.shrink_to,
            width: self.width,
            height: self.height,
            rows: crate::timing::rows_of(self.timings@),
            failure: option_text(self.failure),
        }
    }
}

impl Pipeline {
    /// What this rendering was asked to do.
    pub closed spec fn asked(&self) -> Request {
        self.request
    }

    /// A rendering that has not begun. In a run of its own it starts the graphics
    /// processor and keeps times; as a job of the server it does neither.
    pub fn new(request: Request, batch: bool) -> (pipeline: Pipeline)
        ensures
            pipeline@ == start(batch, request.resize),
            pipeline.asked() == request,
    {
        let pipeline = Pipeline {
            request,
            batch,
            phase: Phase::ReadInput,
            lut_path: None,
            shrink_to: None,
            width: 0,
            height: 0,
            timings: Vec::new(),
            failure: None,
        };
        assert(crate::timing::rows_of(pipeline.timings@) =~= Seq::<crate::timing::Row>::empty());
        pipeline
    }

    /// The step that is to be done next.
    pub fn phase(&self) -> (phase: Phase)
        ensures
            phase == self@.phase,
    {
        self.phase
    }

    /// What this rendering was asked to do.
    pub fn request(&self) -> (request: &Request)
        ensures
            *request == self.asked(),
    {
        &self.request
    }

    /// The lookup table that the preset names.
    pub fn lut_path(&self) -> (path: Option<&String>)
        ensures
            match path {
                Some(text) => self@.lut_path == Some(text@),
                None => self@.lut_path is None,
            },
    {
        match &self.lut_path {
            Some(path) => Some(path),
            None => None,
        }
    }

    /// The length that the longer edge is to be brought down to in the step
    /// [`Phase::Fit`], or nothing where the picture stays as it is.
    pub fn shrink_to(&self) -> (edge: Option<u32>)
        ensures
            edge == self@.shrink_to,
    {
        self.shrink_to
    }

    /// Whether a new time begins to run with the step that is to be done next.
    pub fn begins_time(&self) -> (begins: bool)
        ensures
            begins == begins_time(self@.phase),
    {
        match self.phase {
            Phase::ReadInput
            | Phase::ReadPreset
            | Phase::Transform
            | Phase::StartGpu
            | Phase::Render
            | Phase::Fit
            | Phase::Encode => true,
            _ => false,
        }
    }

    /// How the rendering ended, once it has.
    pub fn outcome(&self) -> (outcome: Option<Result<(), String>>)
        ensures
            match outcome {
                Some(Ok(())) => self@.phase is Finished && self@.failure is None,
                Some(Err(reason)) => self@.phase is Finished && self@.failure == Some(reason@),
                None => !(self@.phase is Finished),
            },
    {
        match self.phase {
            Phase::Finished => match &self.failure {
                Some(reason) => Some(Err(reason.clone())),
                None => Some(Ok(())),
            },
            _ => None,
        }
    }

    /// The report on a rendering that was a run of its own.
    pub fn report(&self, total_ms: u128, is_raw: bool, output_size: (u32, u32)) -> (text: String)
        ensures
            text@ == crate::timing::report_text(
                self@.rows,
                total_ms,
                (self@.width, self@.height),
                is_raw,
                output_size,
                self.asked().output@,
            ),
    {
        report(
            &self.timings,
            total_ms,
            (self.width, self.height),
            is_raw,
            output_size,
            self.request.output.as_str(),
        )
    }

    /// Keeps a time, where times are kept.
    fn keep_time(&mut self, label: &'static str, ms: u128)
        ensures
            final(self)@ == timed(old(self)@, label@, ms),
            final(self).asked() == old(self).asked(),
    {
        if self.batch {
            self.timings.push(Timing { label, ms });
            assert(crate::timing::rows_of(self.timings@) =~= crate::timing::rows_of(
                old(self).timings@,
            ).push(crate::timing::Row { label: label@, ms }));
        }
    }

    /// Goes on to what follows once the lookup table is settled.
    fn settle_lut(&mut self)
        ensures
            final(self)@ == moved_to(old(self)@, after_lut(old(self)@.batch)),
            final(self).asked() == old(self).asked(),
    {
        if self.batch {
            self.phase = Phase::StartGpu;
        } else {
            self.phase = Phase::Render;
        }
    }

    /// Takes in what came of the current step, `ms` milliseconds after the current
    /// time began to run, and gives back what is to be printed.
    pub fn step(&mut self, event: Event, ms: u128) -> (printed: Option<String>)
        ensures
            final(self)@ == next(old(self)@, event@, ms),
            final(self).asked() == old(self).asked(),
            option_text(printed) == notice(old(self)@, event@),
    {
        match (self.phase, event) {
            (Phase::Finished, _) => None,
            (Phase::LoadLut, Event::Done) => {
                self.settle_lut();
                None
            },
            (Phase::LoadLut, Event::Failed(reason)) => {
                let warning = match &self.lut_path {
                    Some(path) => Some(lut_warning(path.as_str(), reason.as_str())),
                    None => None,
                };
                self.settle_lut();
                warning
            },
            (_, Event::Failed(reason)) => {
                self.phase = Phase::Finished;
                self.failure = Some(reason);
                None
            },
            (Phase::ReadInput, Event::Done) => {
                self.phase = Phase::DecodeInput;
                None
            },
            (Phase::DecodeInput, Event::Done) => {
                self.keep_time("decode (RAW→linear)", ms);
                self.phase = Phase::ReadPreset;
                None
            },
            (Phase::ReadPreset, Event::Preset { lut_path }) => {
                self.keep_time("preset parse", ms);
                self.phase = Phase::Transform;
                self.lut_path = lut_path;
                None
            },
            (Phase::Transform, Event::Transformed { width, height, masks }) => {
                self.keep_time("geometry + mask raster", ms);
                self.width = width;
                self.height = height;
                if self.lut_path.is_some() {
                    self.phase = Phase::LoadLut;
                } else {
                    self.settle_lut();
                }
                skipped_note(count_skipped(&masks))
            },
            (Phase::StartGpu, Event::Done) => {
                self.keep_time("GPU init", ms);
                self.phase = Phase::Render;
                None
            },
            (Phase::Render, Event::Rendered { width, height }) => {
                self.keep_time("GPU process + readback", ms);
                self.shrink_to = shrink_target(width, height, self.request.resize);
                if self.request.resize.is_some() {
                    self.phase = Phase::Fit;
                } else {
                    self.phase = Phase::Encode;
                }
                None
            },
            (Phase::Fit, Event::Done) => {
                self.keep_time("resize (Lanczos3)", ms);
                self.phase = Phase::Encode;
                None
            },
            (Phase::Encode, Event::Done) => {
                self.phase = Phase::Save;
                None
            },
            (Phase::Save, Event::Done) => {
                self.keep_time("encode + write", ms);
                self.phase = Phase::Finished;
                None
            },
            _ => None,
        }
    }
}

/// What is said when the lookup table at `path` could not be loaded.
pub fn lut_warning(path: &str, reason: &str) -> (text: String)
    ensures
        text@ == lut_warning_text(path@, reason@),
{
    let mut text = "Warning: could not load LUT '".to_string();
    text.append(path);
    text.append("': ");
    text.append(reason);
    text
}

} // verus!
