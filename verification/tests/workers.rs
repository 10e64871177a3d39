use celesta::workers::{LatestRequest, PreviewGenerations};

#[test]
fn preview_shows_frames_that_move_forward_even_while_newer_ones_render() {
    let mut preview = PreviewGenerations::new();
    let first = preview.begin();
    preview.sent(true);
    let second = preview.begin();
    preview.sent(true);
    assert_eq!((first, second), (1, 2));
    assert!(preview.arrived(first));
    assert!(preview.pending);
    assert_eq!(preview.shown, 1);
    assert!(preview.arrived(second));
    assert!(!preview.pending);
    assert!(!preview.arrived(first));
    assert_eq!(preview.shown, 2);
}

#[test]
fn a_late_old_frame_does_not_replace_a_newer_one() {
    let mut preview = PreviewGenerations::new();
    preview.begin();
    preview.begin();
    preview.sent(true);
    assert!(preview.arrived(2));
    assert!(!preview.arrived(1));
    assert_eq!(preview, PreviewGenerations { requested: 2, shown: 2, pending: false });
}

#[test]
fn a_stopped_worker_is_reported_only_while_waiting() {
    let mut preview = PreviewGenerations::new();
    assert!(!preview.disconnected());
    preview.begin();
    preview.sent(true);
    assert!(preview.disconnected());
    assert!(!preview.pending);

    let mut media = LatestRequest::new();
    media.begin();
    media.sent(false);
    assert!(!media.disconnected());
}

#[test]
fn only_the_newest_request_is_answered() {
    let mut audio = LatestRequest::new();
    let old = audio.begin();
    audio.sent(true);
    let new = audio.begin();
    audio.sent(true);
    assert!(!audio.arrived(old));
    assert!(audio.pending);
    assert!(audio.arrived(new));
    assert_eq!(audio, LatestRequest { generation: 2, pending: false });
}

#[test]
fn generations_wrap_around_at_the_top() {
    let mut preview = PreviewGenerations { requested: u64::MAX, shown: 0, pending: false };
    assert_eq!(preview.begin(), 0);
    let mut latest = LatestRequest { generation: u64::MAX, pending: true };
    assert_eq!(latest.begin(), 0);
    assert!(!latest.pending);
}
