use std::sync::mpsc;
use std::time::Duration;

use nes_ui::rewind::{
    advance_rewind_deadline, rewind_status_text, RewindCapture, RewindCompressor, RewindControl, RewindHistory,
    RewindNotice, RewindPoint, SnapshotErrorKind, FF_RUN_LIMIT,
};

fn nanos(d: Duration) -> u64 {
    d.as_nanos() as u64
}

fn machine() -> Vec<u8> {
    (0..256_u16).flat_map(|byte| [byte as u8; 256]).collect::<Vec<_>>()
}

fn round_trip() {
    let machine = machine();
    let point = RewindPoint::compress(RewindCapture {
        machine: machine.clone(),
        generation: 9,
        tas_cursor: 12,
        lag_frames: 3,
        controller_reads: 4,
    });
    assert!(point.compressed_machine.len() < machine.len());
    assert_eq!(point.generation, 9);
    assert_eq!(point.decompress().unwrap(), machine);
}

#[test]
fn rewind_rewind_points_round_trip_through_fast_compression() {
    round_trip();
}

#[test]
fn app_rewind_points_round_trip_through_fast_compression() {
    round_trip();
}

fn deadline() {
    // Times are nanoseconds on a monotonic clock; `start` stands for "now".
    let start = nanos(Duration::from_secs(1_000));
    let interval = nanos(Duration::from_millis(10));
    let slightly_late = start + nanos(Duration::from_millis(12));
    assert_eq!(
        advance_rewind_deadline(start, slightly_late, interval),
        start + interval
    );

    let badly_late = start + nanos(Duration::from_millis(25));
    assert_eq!(
        advance_rewind_deadline(start, badly_late, interval),
        badly_late + interval
    );
}

#[test]
fn rewind_rewind_deadline_carries_small_scheduler_delays_without_drifting() {
    deadline();
}

#[test]
fn app_rewind_deadline_carries_small_scheduler_delays_without_drifting() {
    deadline();
}

#[test]
fn an_early_deadline_check_keeps_the_deadline_cadence() {
    assert_eq!(advance_rewind_deadline(100, 50, 10), 110);
    assert_eq!(advance_rewind_deadline(100, 119, 10), 110);
    assert_eq!(advance_rewind_deadline(100, 120, 10), 130);
}

#[test]
fn compression_changes_the_bytes_and_metadata_is_kept() {
    let point = RewindPoint::compress(RewindCapture {
        machine: vec![1, 2, 3],
        generation: 1,
        tas_cursor: 2,
        lag_frames: 5,
        controller_reads: 6,
    });
    assert_ne!(point.compressed_machine, vec![1, 2, 3]);
    assert_eq!(point.uncompressed_len, 3);
    assert_eq!(point.tas_cursor, 2);
    assert_eq!(point.lag_frames, 5);
    assert_eq!(point.controller_reads, 6);
    assert_eq!(point.decompress().unwrap(), vec![1, 2, 3]);
}

#[test]
fn corrupt_snapshots_report_an_error() {
    let point = RewindPoint {
        compressed_machine: vec![10, 0, 0, 0, 0xF0],
        uncompressed_len: 10,
        generation: 0,
        tas_cursor: 0,
        lag_frames: 0,
        controller_reads: 0,
    };
    let error = point.decompress().unwrap_err();
    assert_eq!(error.kind, SnapshotErrorKind::ExpectedAnotherByte);
    assert_eq!(error.message, "expected another byte, found none");
}

#[test]
fn snapshots_with_overlong_length_runs_are_refused() {
    let mut compressed_machine = vec![0u8, 0, 0, 0, 0xF0];
    compressed_machine.extend(std::iter::repeat(0xFF).take(FF_RUN_LIMIT));
    compressed_machine.push(0x10);
    let point = RewindPoint {
        compressed_machine,
        uncompressed_len: 0,
        generation: 0,
        tas_cursor: 0,
        lag_frames: 0,
        controller_reads: 0,
    };
    let error = point.decompress().unwrap_err();
    assert_eq!(error.kind, SnapshotErrorKind::TooLarge);
    assert_eq!(error.message, "rewind snapshot is too large to restore");
}

fn point(generation: u64, tas_cursor: usize) -> RewindPoint {
    RewindPoint::compress(RewindCapture {
        machine: vec![tas_cursor as u8; 4],
        generation,
        tas_cursor,
        lag_frames: 0,
        controller_reads: 0,
    })
}

#[test]
fn stale_points_are_refused_and_history_is_trimmed() {
    let (capture_tx, capture_rx) = mpsc::sync_channel::<RewindCapture>(2);
    let (point_tx, point_rx) = mpsc::channel::<RewindPoint>();
    let compressor = RewindCompressor {
        captures: capture_tx,
        points: point_rx,
    };
    let mut history = RewindHistory::new();
    point_tx.send(point(0, 1)).unwrap();
    point_tx.send(point(0, 2)).unwrap();
    point_tx.send(point(5, 3)).unwrap();
    point_tx.send(point(0, 4)).unwrap();
    history.collect_compressed_rewind_points(&compressor, 10, 1, 1);
    assert_eq!(history.len(), 3);
    // 2 seconds at 3 frames per second, one point every 2 frames: 3 points.
    for cursor in 5..10 {
        point_tx.send(point(0, cursor)).unwrap();
    }
    history.collect_compressed_rewind_points(&compressor, 2, 3, 2);
    assert_eq!(history.len(), 3);
    assert_eq!(history.take_latest().unwrap().tas_cursor, 9);
    history.invalidate_pending_rewind_captures();
    assert_eq!(history.generation(), 1);
    point_tx.send(point(0, 20)).unwrap();
    history.collect_compressed_rewind_points(&compressor, 100, 60, 0);
    assert_eq!(history.len(), 2);
    history.clear_rewind_history();
    assert_eq!(history.len(), 0);
    assert!(history.take_latest().is_none());
    assert_eq!(history.generation(), 2);
    compressor.submit(RewindCapture {
        machine: vec![],
        generation: 2,
        tas_cursor: 0,
        lag_frames: 0,
        controller_reads: 0,
    });
    assert_eq!(capture_rx.try_recv().unwrap().generation, 2);
}

#[test]
fn a_history_never_drops_below_one_point() {
    let (capture_tx, _capture_rx) = mpsc::sync_channel::<RewindCapture>(2);
    let (point_tx, point_rx) = mpsc::channel::<RewindPoint>();
    let compressor = RewindCompressor {
        captures: capture_tx,
        points: point_rx,
    };
    let mut history = RewindHistory::new();
    point_tx.send(point(0, 1)).unwrap();
    point_tx.send(point(0, 2)).unwrap();
    history.collect_compressed_rewind_points(&compressor, 0, 60, 1);
    assert_eq!(history.len(), 1);
    assert_eq!(history.take_latest().unwrap().tas_cursor, 2);
}

#[test]
fn holding_rewind_pauses_and_releasing_resumes() {
    let mut control = RewindControl {
        rewind_active: false,
        resume_after_rewind: false,
        paused: false,
        next_rewind_step: 0,
    };
    let tick = control.update_continuous_rewind(true, true, 1_000, 100);
    assert!(tick.began && tick.step && tick.ended.is_none());
    assert!(control.paused && control.rewind_active && control.resume_after_rewind);
    assert_eq!(control.next_rewind_step, 1_100);
    let tick = control.update_continuous_rewind(true, true, 1_050, 100);
    assert!(!tick.began && !tick.step);
    let tick = control.update_continuous_rewind(true, true, 1_120, 100);
    assert!(tick.step);
    assert_eq!(control.next_rewind_step, 1_200);
    let tick = control.update_continuous_rewind(false, true, 1_130, 100);
    assert_eq!(tick.ended, Some(RewindNotice::ResumedAfterRewind));
    assert_eq!(RewindNotice::ResumedAfterRewind.text(), "Resumed after rewind");
    assert!(!control.paused && !control.rewind_active);
    let tick = control.update_continuous_rewind(false, true, 1_140, 100);
    assert_eq!(tick.ended, None);
}

#[test]
fn releasing_a_rewind_of_a_paused_game_stays_paused() {
    let mut control = RewindControl {
        rewind_active: false,
        resume_after_rewind: false,
        paused: true,
        next_rewind_step: 0,
    };
    control.update_continuous_rewind(true, true, 10, 5);
    let tick = control.update_continuous_rewind(false, true, 20, 5);
    assert_eq!(tick.ended, Some(RewindNotice::RewindStopped));
    assert_eq!(RewindNotice::RewindStopped.text(), "Rewind stopped");
    assert!(control.paused);
}

#[test]
fn rewind_steps_take_the_newest_point() {
    let mut history = RewindHistory::new();
    assert_eq!(history.take_rewind_target().unwrap_err(), "Rewind buffer is empty");
    history.accept(point(0, 1));
    history.accept(point(0, 2));
    let (target, machine) = history.take_rewind_target().unwrap();
    assert_eq!(target.tas_cursor, 2);
    assert_eq!(machine.len(), target.uncompressed_len);
    assert_eq!(history.len(), 1);
    history.accept(RewindPoint {
        compressed_machine: vec![10, 0, 0, 0, 0xF0],
        uncompressed_len: 10,
        generation: 0,
        tas_cursor: 3,
        lag_frames: 0,
        controller_reads: 0,
    });
    assert_eq!(
        history.take_rewind_target().unwrap_err(),
        "Rewind snapshot is corrupt: expected another byte, found none"
    );
    assert_eq!(history.len(), 1);
}

#[test]
fn rewind_status_lines() {
    assert_eq!(
        rewind_status_text(true, 3, 120, true),
        "Rewound to TAS frame 120; removed 3 future input frame(s)"
    );
    assert_eq!(rewind_status_text(false, 0, 7, true), "Rewinding…");
    assert_eq!(rewind_status_text(false, 0, 7, false), "Rewound");
}

#[test]
fn absorbed_points_append_in_order_and_keep_the_newest() {
    let mut history = RewindHistory::new();
    history.accept(point(0, 0));
    history.absorb_rewind_points(vec![point(0, 1), point(1, 2), point(0, 3)], 1, 2, 1);
    assert_eq!(history.len(), 2);
    assert_eq!(history.take_latest().unwrap().tas_cursor, 3);
    assert_eq!(history.take_latest().unwrap().tas_cursor, 1);
    assert!(history.take_latest().is_none());
}

#[test]
fn large_snapshots_within_the_safe_length_round_trip() {
    let machine: Vec<u8> = (0..4_000_000u32).map(|i| (i % 251) as u8 ^ (i >> 12) as u8).collect();
    let point = RewindPoint::compress(RewindCapture {
        machine: machine.clone(),
        generation: 1,
        tas_cursor: 0,
        lag_frames: 0,
        controller_reads: 0,
    });
    assert_eq!(point.decompress().unwrap(), machine);
}

#[test]
fn letting_go_after_many_frames_restores_the_pause_state() {
    for paused in [false, true] {
        let mut control = RewindControl {
            rewind_active: false,
            resume_after_rewind: false,
            paused,
            next_rewind_step: 0,
        };
        for now in [10, 15, 20, 27, 40] {
            control.update_continuous_rewind(true, true, now, 5);
            assert!(control.paused && control.rewind_active);
        }
        let tick = control.update_continuous_rewind(false, true, 50, 5);
        assert_eq!(control.paused, paused);
        assert!(!control.rewind_active && !control.resume_after_rewind);
        let expected = if paused { RewindNotice::RewindStopped } else { RewindNotice::ResumedAfterRewind };
        assert_eq!(tick.ended, Some(expected));
    }
}
