use celesta::encoding::VideoEncoding;
use celesta::export::{ExportError, ExportProgress, ExportRange};
use celesta::exporter::{
    check_output, ExportAction, ExportOptions, ExportSession, ExportStage, Exporter, OutputRefusal,
};
use celesta::time::{Rational, Time, TimeError};

fn run(session: &mut ExportSession, has_audio: bool, steps: usize) -> Vec<Result<ExportAction, ExportError>> {
    (0..steps).map(|_| session.step(false, has_audio)).collect()
}

#[test]
fn default_options_export_everything_without_overwriting() {
    let options = ExportOptions::default();
    assert!(!options.overwrite);
    assert_eq!(options.range, None);
    assert_eq!(options.video, VideoEncoding::default());
    assert_eq!(*Exporter::default().options(), options);
}

#[test]
fn output_checks_follow_extension_then_existence() {
    assert_eq!(check_output(false, false, true), Err(OutputRefusal::UnsupportedOutput));
    assert_eq!(check_output(false, true, false), Err(OutputRefusal::UnsupportedOutput));
    assert_eq!(check_output(true, true, false), Err(OutputRefusal::OutputExists));
    assert_eq!(check_output(true, true, true), Ok(()));
    assert_eq!(check_output(true, false, false), Ok(()));
    assert_eq!(
        celesta::export::validate_dimensions(63, 64),
        Err(ExportError::UnsupportedDimensions { width: 63, height: 64 })
    );
}

#[test]
fn project_export_renders_mixes_muxes_then_publishes() {
    let exporter = Exporter::new(ExportOptions { overwrite: true, ..ExportOptions::default() });
    let (window, mut session) = exporter
        .plan_project(4, 2, Time::new(2, 30), Rational::new(30, 1))
        .unwrap();
    assert_eq!(window.frames, 2);
    let actions = run(&mut session, false, 11);
    assert_eq!(
        actions,
        vec![
            Ok(ExportAction::Report(ExportProgress::Rendering { frame: 1, total: 2 })),
            Ok(ExportAction::Render(Time::new(0, 30))),
            Ok(ExportAction::Report(ExportProgress::Rendering { frame: 2, total: 2 })),
            Ok(ExportAction::Render(Time::new(1, 30))),
            Ok(ExportAction::Drain),
            Ok(ExportAction::Report(ExportProgress::MixingAudio)),
            Ok(ExportAction::MixAudio),
            Ok(ExportAction::Report(ExportProgress::Muxing)),
            Ok(ExportAction::MuxAudio),
            Ok(ExportAction::Publish { overwrite: true }),
            Ok(ExportAction::Done),
        ]
    );
    assert_eq!(session.stage, ExportStage::Finished);
}

#[test]
fn ranged_project_export_starts_at_the_window() {
    let exporter = Exporter::new(ExportOptions {
        range: Some(ExportRange::new(Time::new(1, 30), Time::new(2, 30))),
        ..ExportOptions::default()
    });
    let (window, mut session) = exporter
        .plan_project(4, 2, Time::new(3, 30), Rational::new(30, 1))
        .unwrap();
    assert_eq!((window.start_frame, window.frames), (1, 1));
    assert_eq!(
        run(&mut session, false, 2),
        vec![
            Ok(ExportAction::Report(ExportProgress::Rendering { frame: 1, total: 1 })),
            Ok(ExportAction::Render(Time::new(1, 30))),
        ]
    );
    assert_eq!(session.step(false, false), Ok(ExportAction::Drain));
}

#[test]
fn plans_refuse_what_the_exporter_cannot_write() {
    let exporter = Exporter::default();
    assert_eq!(
        exporter.plan_project(3, 2, Time::new(1, 1), Rational::new(30, 1)),
        Err(ExportError::UnsupportedDimensions { width: 3, height: 2 })
    );
    assert_eq!(
        exporter.plan_project(4, 2, Time::new(0, 1), Rational::new(30, 1)),
        Err(ExportError::EmptyTimeline)
    );
    assert_eq!(
        exporter.plan_react(4, 2, 0, Rational::new(30, 1)),
        Err(ExportError::EmptyTimeline)
    );
    assert_eq!(
        exporter.plan_project(4, 2, Time::new(1, 1), Rational::new(0, 1)),
        Err(ExportError::Time(TimeError::InvalidFrameRate))
    );
}

#[test]
fn silent_react_export_publishes_right_after_the_frames() {
    let exporter = Exporter::default();
    let (start, mut session) = exporter.plan_react(4, 2, 1, Rational::new(25, 1)).unwrap();
    assert_eq!(start, Time::new(0, 1));
    assert_eq!(
        run(&mut session, false, 5),
        vec![
            Ok(ExportAction::Report(ExportProgress::Rendering { frame: 1, total: 1 })),
            Ok(ExportAction::Render(Time::new(0, 25))),
            Ok(ExportAction::Drain),
            Ok(ExportAction::CollectAudio),
            Ok(ExportAction::Publish { overwrite: false }),
        ]
    );
    assert_eq!(session.step(false, false), Ok(ExportAction::Done));
}

#[test]
fn react_export_with_audio_mixes_before_publishing() {
    let exporter = Exporter::default();
    let (_, mut session) = exporter.plan_react(4, 2, 1, Rational::new(25, 1)).unwrap();
    let actions = run(&mut session, true, 9);
    assert_eq!(
        actions[3..],
        [
            Ok(ExportAction::CollectAudio),
            Ok(ExportAction::Report(ExportProgress::MixingAudio)),
            Ok(ExportAction::MixAudio),
            Ok(ExportAction::Report(ExportProgress::Muxing)),
            Ok(ExportAction::MuxAudio),
            Ok(ExportAction::Publish { overwrite: false }),
        ]
    );
}

#[test]
fn cancelled_export_stops_and_never_publishes() {
    let exporter = Exporter::default();
    let (_, mut session) = exporter
        .plan_project(4, 2, Time::new(2, 30), Rational::new(30, 1))
        .unwrap();
    assert_eq!(
        session.step(false, false),
        Ok(ExportAction::Report(ExportProgress::Rendering { frame: 1, total: 2 }))
    );
    assert_eq!(session.step(true, false), Ok(ExportAction::Render(Time::new(0, 30))));
    assert_eq!(session.step(true, false), Err(ExportError::Cancelled));
    assert_eq!(session.stage, ExportStage::Finished);
    assert_eq!(session.step(false, false), Ok(ExportAction::Done));

    let (_, mut muxed) = exporter
        .plan_project(4, 2, Time::new(1, 30), Rational::new(30, 1))
        .unwrap();
    run(&mut muxed, false, 7);
    assert_eq!(muxed.stage, ExportStage::Muxed);
    assert_eq!(muxed.step(true, false), Err(ExportError::Cancelled));
}

#[test]
fn frame_past_the_time_range_ends_the_export() {
    let mut session = ExportSession {
        first_frame: i64::MAX,
        frames: 2,
        frame_rate: Rational::new(30, 1),
        overwrite: false,
        audio_always: true,
        stage: ExportStage::NextFrame { index: 1 },
    };
    assert_eq!(
        session.step(false, false),
        Ok(ExportAction::Report(ExportProgress::Rendering { frame: 2, total: 2 }))
    );
    assert_eq!(session.step(false, false), Err(ExportError::TimelineTooLong));
    assert_eq!(session.stage, ExportStage::Finished);
}
