//! Laws of the export sequence.

use crate::export::{spec_export_frame_time, ExportProgress};
use crate::exporter::{at_stage, spec_step, spec_steps, ExportAction, ExportSession, ExportStage};
use vstd::prelude::*;

verus! {

/// A cancelled export is never published: no step taken while the export is
/// cancelled publishes the output.
pub proof fn law_cancelled_export_is_never_published(session: ExportSession, has_audio: bool)
    ensures
        !(spec_step(session, true, has_audio).0 matches Ok(ExportAction::Publish { .. })),
{
}

/// Cancellation ends an export within three steps, and a finished export
/// stays finished, answering every further step with `Done`.
pub proof fn law_cancellation_ends_export(session: ExportSession, has_audio: bool)
    ensures
        spec_steps(session, 3, true, has_audio).stage == ExportStage::Finished,
        session.stage == ExportStage::Finished ==> spec_step(session, true, has_audio) == (
            Ok::<ExportAction, crate::export::ExportError>(ExportAction::Done),
            session,
        ),
{
    reveal_with_fuel(spec_steps, 4);
}

/// Without cancellation, and while every frame's time exists, an export
/// that starts at its first frame reports frame `i + 1` of the window and
/// then renders the frame `first_frame + i`, in order, for each `i` below
/// `k`; after those `2 * k` steps it is at frame `k`.
pub proof fn law_frames_render_in_order(
    session: ExportSession,
    k: nat,
    has_audio: bool,
)
    requires
        session.stage == (ExportStage::NextFrame { index: 0 }),
        k <= session.frames,
        forall|i: u64|
            i < k ==> #[trigger] spec_export_frame_time(session.first_frame, i, session.frame_rate) is Ok,
    ensures
        spec_steps(session, 2 * k, false, has_audio) == at_stage(
            session,
            ExportStage::NextFrame { index: k as u64 },
        ),
        forall|i: u64|
            i < k ==> #[trigger] spec_step(spec_steps(session, 2 * i as nat, false, has_audio), false, has_audio).0
                == Ok::<ExportAction, crate::export::ExportError>(
                ExportAction::Report(
                    ExportProgress::Rendering { frame: (i + 1) as u64, total: session.frames },
                ),
            ),
        forall|i: u64|
            i < k ==> #[trigger] spec_step(spec_steps(session, (2 * i + 1) as nat, false, has_audio), false, has_audio).0
                == Ok::<ExportAction, crate::export::ExportError>(
                ExportAction::Render(
                    spec_export_frame_time(session.first_frame, i, session.frame_rate)->Ok_0,
                ),
            ),
    decreases k,
{
    if k > 0 {
        let j = (k - 1) as nat;
        law_frames_render_in_order(session, j, has_audio);
        let before = spec_steps(session, 2 * j, false, has_audio);
        assert(before == at_stage(session, ExportStage::NextFrame { index: j as u64 }));
        assert(spec_export_frame_time(session.first_frame, j as u64, session.frame_rate) is Ok);
        assert(spec_steps(session, 2 * j + 1, false, has_audio) == spec_step(before, false, has_audio).1);
        assert(spec_steps(session, 2 * j + 2, false, has_audio) == spec_step(
            spec_steps(session, 2 * j + 1, false, has_audio),
            false,
            has_audio,
        ).1);
        assert(2 * k == 2 * j + 2);
        assert forall|i: u64| i < k implies #[trigger] spec_step(spec_steps(session, 2 * i as nat, false, has_audio), false, has_audio).0
            == Ok::<ExportAction, crate::export::ExportError>(
            ExportAction::Report(
                ExportProgress::Rendering { frame: (i + 1) as u64, total: session.frames },
            ),
        ) by {
            if i == j {
                assert(2 * i as nat == 2 * j);
            }
        }
        assert forall|i: u64| i < k implies #[trigger] spec_step(spec_steps(session, (2 * i + 1) as nat, false, has_audio), false, has_audio).0
            == Ok::<ExportAction, crate::export::ExportError>(
            ExportAction::Render(
                spec_export_frame_time(session.first_frame, i, session.frame_rate)->Ok_0,
            ),
        ) by {
            if i == j {
                assert((2 * i + 1) as nat == 2 * j + 1);
            }
        }
    }
}

/// Without cancellation, a project export whose frame times all exist
/// renders its whole window, drains the renderer, mixes and muxes the audio
/// and then publishes, honouring the overwrite option, in `2 * frames + 6`
/// steps.
pub proof fn law_project_export_publishes(session: ExportSession, has_audio: bool)
    requires
        session.stage == (ExportStage::NextFrame { index: 0 }),
        session.audio_always,
        forall|i: u64|
            i < session.frames ==> #[trigger] spec_export_frame_time(session.first_frame, i, session.frame_rate) is Ok,
    ensures
        ({
            let n: nat = (2 * session.frames) as nat;
            let at = |m: nat| spec_steps(session, m, false, has_audio);
            &&& spec_step(at(n), false, has_audio).0 == Ok::<ExportAction, crate::export::ExportError>(ExportAction::Drain)
            &&& spec_step(at(n + 1), false, has_audio).0 == Ok::<ExportAction, crate::export::ExportError>(ExportAction::Report(ExportProgress::MixingAudio))
            &&& spec_step(at(n + 2), false, has_audio).0 == Ok::<ExportAction, crate::export::ExportError>(ExportAction::MixAudio)
            &&& spec_step(at(n + 3), false, has_audio).0 == Ok::<ExportAction, crate::export::ExportError>(ExportAction::Report(ExportProgress::Muxing))
            &&& spec_step(at(n + 4), false, has_audio).0 == Ok::<ExportAction, crate::export::ExportError>(ExportAction::MuxAudio)
            &&& spec_step(at(n + 5), false, has_audio).0 == Ok::<ExportAction, crate::export::ExportError>(ExportAction::Publish { overwrite: session.overwrite })
            &&& at(n + 6).stage == ExportStage::Finished
        }),
{
    let n: nat = (2 * session.frames) as nat;
    assert(spec_steps(session, n, false, has_audio) == at_stage(
        session,
        ExportStage::NextFrame { index: session.frames },
    )) by {
        law_frames_render_in_order(session, session.frames as nat, has_audio);
    }
    assert(spec_steps(session, n + 0, false, has_audio) == spec_steps(session, n, false, has_audio));
    assert(spec_steps(session, n + 1, false, has_audio) == spec_step(
        spec_steps(session, n + 0, false, has_audio),
        false,
        has_audio,
    ).1);
    assert(spec_steps(session, n + 2, false, has_audio) == spec_step(
        spec_steps(session, n + 1, false, has_audio),
        false,
        has_audio,
    ).1);
    assert(spec_steps(session, n + 3, false, has_audio) == spec_step(
        spec_steps(session, n + 2, false, has_audio),
        false,
        has_audio,
    ).1);
    assert(spec_steps(session, n + 4, false, has_audio) == spec_step(
        spec_steps(session, n + 3, false, has_audio),
        false,
        has_audio,
    ).1);
    assert(spec_steps(session, n + 5, false, has_audio) == spec_step(
        spec_steps(session, n + 4, false, has_audio),
        false,
        has_audio,
    ).1);
    assert(spec_steps(session, n + 6, false, has_audio) == spec_step(
        spec_steps(session, n + 5, false, has_audio),
        false,
        has_audio,
    ).1);
}

/// Without cancellation, a React entry export whose frame times all exist
/// renders its window, drains the renderer and collects the reported audio;
/// with no audio clip it publishes right away, honouring the overwrite
/// option, and with some it mixes and muxes them first.
pub proof fn law_react_export_publishes(session: ExportSession, has_audio: bool)
    requires
        session.stage == (ExportStage::NextFrame { index: 0 }),
        !session.audio_always,
        forall|i: u64|
            i < session.frames ==> #[trigger] spec_export_frame_time(session.first_frame, i, session.frame_rate) is Ok,
    ensures
        ({
            let n: nat = (2 * session.frames) as nat;
            let at = |m: nat| spec_steps(session, m, false, has_audio);
            &&& spec_step(at(n), false, has_audio).0 == Ok::<ExportAction, crate::export::ExportError>(ExportAction::Drain)
            &&& spec_step(at(n + 1), false, has_audio).0 == Ok::<ExportAction, crate::export::ExportError>(ExportAction::CollectAudio)
            &&& !has_audio ==> spec_step(at(n + 2), false, has_audio).0 == Ok::<ExportAction, crate::export::ExportError>(ExportAction::Publish { overwrite: session.overwrite })
            &&& !has_audio ==> at(n + 3).stage == ExportStage::Finished
            &&& has_audio ==> spec_step(at(n + 2), false, has_audio).0 == Ok::<ExportAction, crate::export::ExportError>(ExportAction::Report(ExportProgress::MixingAudio))
            &&& has_audio ==> spec_step(at(n + 3), false, has_audio).0 == Ok::<ExportAction, crate::export::ExportError>(ExportAction::MixAudio)
            &&& has_audio ==> spec_step(at(n + 4), false, has_audio).0 == Ok::<ExportAction, crate::export::ExportError>(ExportAction::Report(ExportProgress::Muxing))
            &&& has_audio ==> spec_step(at(n + 5), false, has_audio).0 == Ok::<ExportAction, crate::export::ExportError>(ExportAction::MuxAudio)
            &&& has_audio ==> spec_step(at(n + 6), false, has_audio).0 == Ok::<ExportAction, crate::export::ExportError>(ExportAction::Publish { overwrite: session.overwrite })
            &&& has_audio ==> at(n + 7).stage == ExportStage::Finished
        }),
{
    let n: nat = (2 * session.frames) as nat;
    assert(spec_steps(session, n, false, has_audio) == at_stage(
        session,
        ExportStage::NextFrame { index: session.frames },
    )) by {
        law_frames_render_in_order(session, session.frames as nat, has_audio);
    }
    assert(spec_steps(session, n + 0, false, has_audio) == spec_steps(session, n, false, has_audio));
    let s1 = spec_step(spec_steps(session, n, false, has_audio), false, has_audio).1;
    assert(spec_steps(session, n + 1, false, has_audio) == s1);
    assert(s1 == at_stage(session, ExportStage::VideoDone));
    let s2 = spec_step(s1, false, has_audio).1;
    assert(spec_steps(session, n + 2, false, has_audio) == s2);
    assert(s2 == at_stage(session, ExportStage::AudioCollected));
    let s3 = spec_step(s2, false, has_audio).1;
    assert(spec_steps(session, n + 3, false, has_audio) == s3);
    if has_audio {
        assert(s3 == at_stage(session, ExportStage::AudioReported));
        let s4 = spec_step(s3, false, has_audio).1;
        assert(spec_steps(session, n + 4, false, has_audio) == s4);
        assert(s4 == at_stage(session, ExportStage::AudioMixed));
        let s5 = spec_step(s4, false, has_audio).1;
        assert(spec_steps(session, n + 5, false, has_audio) == s5);
        assert(s5 == at_stage(session, ExportStage::MuxReported));
        let s6 = spec_step(s5, false, has_audio).1;
        assert(spec_steps(session, n + 6, false, has_audio) == s6);
        assert(s6 == at_stage(session, ExportStage::Muxed));
        let s7 = spec_step(s6, false, has_audio).1;
        assert(spec_steps(session, n + 7, false, has_audio) == s7);
    } else {
        assert(s3 == at_stage(session, ExportStage::Finished));
    }
}

} // verus!
