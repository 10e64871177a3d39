//! The exporter: its settings, the output checks, and the order in which an
//! export renders, mixes, muxes and publishes, step by step.

use crate::encoding::VideoEncoding;
use crate::export::{
    export_frame_time, plan_export, plan_react_export, spec_export_frame_time, spec_plan_export,
    spec_plan_react_export, ExportError, ExportProgress, ExportRange, ExportWindow,
};
use crate::time::{spec_frames, Rational, Time};
use vstd::prelude::*;

verus! {

/// How an export runs.
#[derive(Clone, Copy, Debug, PartialEq, Eq, Structural)]
pub struct ExportOptions {
    /// Replace an existing output file.
    pub overwrite: bool,
    /// When set, only this composition-time span is rendered, and the output
    /// starts at its own `t = 0`; `None` exports the whole composition.
    pub range: Option<ExportRange>,
    /// H.264 encoder settings.
    pub video: VideoEncoding,
}

impl Default for ExportOptions {
    fn default() -> (r: Self)
        ensures
            r == (ExportOptions {
                overwrite: false,
                range: None,
                video: VideoEncoding {
                    preset: crate::encoding::EncoderPreset::Medium,
                    crf: 18,
                    color_conversion: crate::encoding::ColorConversion::Auto,
                },
            }),
    {
        ExportOptions { overwrite: false, range: None, video: VideoEncoding::default() }
    }
}

/// Why an output path is refused before anything is rendered.
#[derive(Clone, Copy, Debug, PartialEq, Eq, Structural)]
pub enum OutputRefusal {
    /// The output does not use the `.mp4` extension.
    UnsupportedOutput,
    /// The output exists and overwriting was not asked for.
    OutputExists,
}

/// An export writes `.mp4` files and replaces an existing one only when
/// `overwrite` is set; `exists` is only consulted without `overwrite`.
pub fn check_output(is_mp4: bool, exists: bool, overwrite: bool) -> (r: Result<(), OutputRefusal>)
    ensures
        r == (if !is_mp4 {
            Err(OutputRefusal::UnsupportedOutput)
        } else if !overwrite && exists {
            Err(OutputRefusal::OutputExists)
        } else {
            Ok(())
        }),
{
    if !is_mp4 {
        return Err(OutputRefusal::UnsupportedOutput);
    }
    if !overwrite && exists {
        return Err(OutputRefusal::OutputExists);
    }
    Ok(())
}

/// Where an export is between two steps.
#[derive(Clone, Copy, Debug, PartialEq, Eq, Structural)]
pub enum ExportStage {
    /// Frames `0..index` of the window have been rendered; at the window's
    /// end the renderer's frames in flight are written next.
    NextFrame { index: u64 },
    /// The progress of frame `index` was reported; it is rendered next.
    FrameReported { index: u64 },
    /// Every frame is written.
    VideoDone,
    /// The audio a React entry reported while rendering has been collected.
    AudioCollected,
    /// The mixing progress was reported; the audio is mixed next.
    AudioReported,
    AudioMixed,
    /// The muxing progress was reported; audio and video are muxed next.
    MuxReported,
    Muxed,
    /// Published, failed or cancelled: nothing is left to do.
    Finished,
}

/// What the caller does for one step of an export.
#[derive(Clone, Copy, Debug, PartialEq, Eq, Structural)]
pub enum ExportAction {
    /// Tell the user where the export is.
    Report(ExportProgress),
    /// Evaluate the composition at this time, submit it to the renderer and
    /// write the frame the renderer hands back, if any.
    Render(Time),
    /// Write every frame the renderer still has in flight.
    Drain,
    /// Collect the audio a React entry reported while its frames rendered.
    CollectAudio,
    /// Mix the export's audio.
    MixAudio,
    /// Mux the rendered video with the mixed audio.
    MuxAudio,
    /// Move the finished file to the output path, replacing an existing file
    /// only when `overwrite` is set.
    Publish { overwrite: bool },
    /// The export is over.
    Done,
}

/// An export in progress: the frames `first_frame .. first_frame + frames`
/// of a composition at `frame_rate`.
#[derive(Clone, Copy, Debug, PartialEq, Eq, Structural)]
pub struct ExportSession {
    pub first_frame: i64,
    pub frames: u64,
    pub frame_rate: Rational,
    pub overwrite: bool,
    /// A project export always mixes its audio; a React entry export only
    /// when the entry (or its companion project) reported audio clips.
    pub audio_always: bool,
    pub stage: ExportStage,
}

/// The session after a step, with `stage` in place of its stage.
pub open spec fn at_stage(session: ExportSession, stage: ExportStage) -> ExportSession {
    ExportSession { stage, ..session }
}

/// One step of an export: the action to take (or the error that ends the
/// export) and the session afterwards. `cancelled` is whether the export has
/// been cancelled; `has_audio` whether the collected React audio holds any
/// clip, read only right after it was collected. Cancellation is checked
/// before each frame, before the audio is collected, mixed or muxed, after
/// muxing and before publishing; a failed or cancelled step finishes the
/// session.
pub open spec fn spec_step(session: ExportSession, cancelled: bool, has_audio: bool) -> (
    Result<ExportAction, ExportError>,
    ExportSession,
) {
    let finished = at_stage(session, ExportStage::Finished);
    match session.stage {
        ExportStage::NextFrame { index } => if index >= session.frames {
            (Ok(ExportAction::Drain), at_stage(session, ExportStage::VideoDone))
        } else if cancelled {
            (Err(ExportError::Cancelled), finished)
        } else {
            (
                Ok(
                    ExportAction::Report(
                        ExportProgress::Rendering { frame: (index + 1) as u64, total: session.frames },
                    ),
                ),
                at_stage(session, ExportStage::FrameReported { index }),
            )
        },
        ExportStage::FrameReported { index } => match spec_export_frame_time(
            session.first_frame,
            index,
            session.frame_rate,
        ) {
            Err(e) => (Err(e), finished),
            Ok(time) => (
                Ok(ExportAction::Render(time)),
                at_stage(session, ExportStage::NextFrame { index: (index + 1) as u64 }),
            ),
        },
        ExportStage::VideoDone => if cancelled {
            (Err(ExportError::Cancelled), finished)
        } else if session.audio_always {
            (
                Ok(ExportAction::Report(ExportProgress::MixingAudio)),
                at_stage(session, ExportStage::AudioReported),
            )
        } else {
            (Ok(ExportAction::CollectAudio), at_stage(session, ExportStage::AudioCollected))
        },
        ExportStage::AudioCollected => if has_audio {
            (
                Ok(ExportAction::Report(ExportProgress::MixingAudio)),
                at_stage(session, ExportStage::AudioReported),
            )
        } else if cancelled {
            (Err(ExportError::Cancelled), finished)
        } else {
            (Ok(ExportAction::Publish { overwrite: session.overwrite }), finished)
        },
        ExportStage::AudioReported => (
            Ok(ExportAction::MixAudio),
            at_stage(session, ExportStage::AudioMixed),
        ),
        ExportStage::AudioMixed => if cancelled {
            (Err(ExportError::Cancelled), finished)
        } else {
            (
                Ok(ExportAction::Report(ExportProgress::Muxing)),
                at_stage(session, ExportStage::MuxReported),
            )
        },
        ExportStage::MuxReported => if cancelled {
            (Err(ExportError::Cancelled), finished)
        } else {
            (Ok(ExportAction::MuxAudio), at_stage(session, ExportStage::Muxed))
        },
        ExportStage::Muxed => if cancelled {
            (Err(ExportError::Cancelled), finished)
        } else {
            (Ok(ExportAction::Publish { overwrite: session.overwrite }), finished)
        },
        ExportStage::Finished => (Ok(ExportAction::Done), session),
    }
}

/// The session after `n` steps taken with the same `cancelled` and
/// `has_audio`.
pub open spec fn spec_steps(session: ExportSession, n: nat, cancelled: bool, has_audio: bool) -> ExportSession
    decreases n,
{
    if n == 0 {
        session
    } else {
        spec_step(spec_steps(session, (n - 1) as nat, cancelled, has_audio), cancelled, has_audio).1
    }
}

impl ExportSession {
    /// A session that renders the frames of `window`.
    pub fn for_window(window: ExportWindow, frame_rate: Rational, overwrite: bool, audio_always: bool) -> (r: Self)
        ensures
            r == (ExportSession {
                first_frame: window.start_frame,
                frames: window.frames,
                frame_rate,
                overwrite,
                audio_always,
                stage: ExportStage::NextFrame { index: 0 },
            }),
    {
        ExportSession {
            first_frame: window.start_frame,
            frames: window.frames,
            frame_rate,
            overwrite,
            audio_always,
            stage: ExportStage::NextFrame { index: 0 },
        }
    }

    /// Takes one step of the export (see [`spec_step`]).
    pub fn step(&mut self, cancelled: bool, has_audio: bool) -> (r: Result<ExportAction, ExportError>)
        ensures
            (r, *final(self)) == spec_step(*old(self), cancelled, has_audio),
    {
        let session = *self;
        match session.stage {
            ExportStage::NextFrame { index } => {
                if index >= session.frames {
                    self.stage = ExportStage::VideoDone;
                    return Ok(ExportAction::Drain);
                }
                if cancelled {
                    self.stage = ExportStage::Finished;
                    return Err(ExportError::Cancelled);
                }
                self.stage = ExportStage::FrameReported { index };
                Ok(
                    ExportAction::Report(
                        ExportProgress::Rendering { frame: index + 1, total: session.frames },
                    ),
                )
            },
            ExportStage::FrameReported { index } => {
                match export_frame_time(session.first_frame, index, session.frame_rate) {
                    Err(e) => {
                        self.stage = ExportStage::Finished;
                        Err(e)
                    },
                    Ok(time) => {
                        proof {
                            // The time exists, so the index is below i64::MAX.
                            assert(index < u64::MAX);
                        }
                        self.stage = ExportStage::NextFrame { index: index + 1 };
                        Ok(ExportAction::Render(time))
                    },
                }
            },
            ExportStage::VideoDone => {
                if cancelled {
                    self.stage = ExportStage::Finished;
                    Err(ExportError::Cancelled)
                } else if session.audio_always {
                    self.stage = ExportStage::AudioReported;
                    Ok(ExportAction::Report(ExportProgress::MixingAudio))
                } else {
                    self.stage = ExportStage::AudioCollected;
                    Ok(ExportAction::CollectAudio)
                }
            },
            ExportStage::AudioCollected => {
                if has_audio {
                    self.stage = ExportStage::AudioReported;
                    Ok(ExportAction::Report(ExportProgress::MixingAudio))
                } else {
                    self.stage = ExportStage::Finished;
                    if cancelled {
                        Err(ExportError::Cancelled)
                    } else {
                        Ok(ExportAction::Publish { overwrite: session.overwrite })
                    }
                }
            },
            ExportStage::AudioReported => {
                self.stage = ExportStage::AudioMixed;
                Ok(ExportAction::MixAudio)
            },
            ExportStage::AudioMixed => {
                if cancelled {
                    self.stage = ExportStage::Finished;
                    Err(ExportError::Cancelled)
                } else {
                    self.stage = ExportStage::MuxReported;
                    Ok(ExportAction::Report(ExportProgress::Muxing))
                }
            },
            ExportStage::MuxReported => {
                if cancelled {
                    self.stage = ExportStage::Finished;
                    Err(ExportError::Cancelled)
                } else {
                    self.stage = ExportStage::Muxed;
                    Ok(ExportAction::MuxAudio)
                }
            },
            ExportStage::Muxed => {
                self.stage = ExportStage::Finished;
                if cancelled {
                    Err(ExportError::Cancelled)
                } else {
                    Ok(ExportAction::Publish { overwrite: session.overwrite })
                }
            },
            ExportStage::Finished => Ok(ExportAction::Done),
        }
    }
}

/// Exports compositions with one set of [`ExportOptions`].
pub struct Exporter {
    options: ExportOptions,
}

impl View for Exporter {
    type V = ExportOptions;

    closed spec fn view(&self) -> ExportOptions {
        self.options
    }
}

impl Exporter {
    pub fn new(options: ExportOptions) -> (r: Self)
        ensures
            r@ == options,
    {
        Exporter { options }
    }

    /// The options this exporter runs with.
    pub fn options(&self) -> (r: &ExportOptions)
        ensures
            *r == self@,
    {
        &self.options
    }

    /// Plans a project export of a `width` x `height` composition lasting
    /// `duration` at `frame_rate`: the window the options' range selects
    /// (the whole composition without one), refused as
    /// [`spec_plan_export`] says; the session renders that window and always
    /// mixes the project's audio.
    pub fn plan_project(&self, width: u32, height: u32, duration: Time, frame_rate: Rational) -> (r:
        Result<(ExportWindow, ExportSession), ExportError>)
        ensures
            match spec_plan_export(width, height, duration, frame_rate, self@.range) {
                Err(e) => r == Err::<(ExportWindow, ExportSession), ExportError>(e),
                Ok(window) => r == Ok::<(ExportWindow, ExportSession), ExportError>(
                    (
                        window,
                        ExportSession {
                            first_frame: window.start_frame,
                            frames: window.frames,
                            frame_rate,
                            overwrite: self@.overwrite,
                            audio_always: true,
                            stage: ExportStage::NextFrame { index: 0 },
                        },
                    ),
                ),
            },
    {
        let window = plan_export(width, height, duration, frame_rate, self.options.range)?;
        let session = ExportSession::for_window(window, frame_rate, self.options.overwrite, true);
        Ok((window, session))
    }

    /// Plans a React entry export of `duration_in_frames` frames of a
    /// `width` x `height` entry at `frame_rate`, refused as
    /// [`spec_plan_react_export`] says. Gives the time the audio is shifted
    /// by (the window's start) and a session that renders the window and
    /// mixes audio only when some was reported.
    pub fn plan_react(&self, width: u32, height: u32, duration_in_frames: u64, frame_rate: Rational) -> (r:
        Result<(Time, ExportSession), ExportError>)
        ensures
            match spec_plan_react_export(width, height, duration_in_frames, frame_rate, self@.range) {
                Err(e) => r == Err::<(Time, ExportSession), ExportError>(e),
                Ok((start_frame, frames, window_start)) => r == Ok::<(Time, ExportSession), ExportError>(
                    (
                        window_start,
                        ExportSession {
                            first_frame: start_frame as i64,
                            frames,
                            frame_rate,
                            overwrite: self@.overwrite,
                            audio_always: false,
                            stage: ExportStage::NextFrame { index: 0 },
                        },
                    ),
                ),
            },
            r matches Ok((_, session)) ==> session.first_frame >= 0,
    {
        let (start_frame, frames, window_start) = plan_react_export(
            width,
            height,
            duration_in_frames,
            frame_rate,
            self.options.range,
        )?;
        let session = ExportSession {
            first_frame: start_frame as i64,
            frames,
            frame_rate,
            overwrite: self.options.overwrite,
            audio_always: false,
            stage: ExportStage::NextFrame { index: 0 },
        };
        Ok((window_start, session))
    }
}

impl Default for Exporter {
    fn default() -> (r: Self)
        ensures
            r@ == (ExportOptions {
                overwrite: false,
                range: None,
                video: VideoEncoding {
                    preset: crate::encoding::EncoderPreset::Medium,
                    crf: 18,
                    color_conversion: crate::encoding::ColorConversion::Auto,
                },
            }),
    {
        Exporter::new(ExportOptions::default())
    }
}

} // verus!
