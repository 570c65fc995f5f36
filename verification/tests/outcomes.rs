use encore::editor::export::{trimmed_bundle_result, trimmed_video_result};
use encore::editor::header::local_time;
use encore::library::actions::delete_result;
use encore::library::group::{local_day, DAY_CAPTION_FORMAT};
use encore::library::thumbnail::thumbnail_result;
use encore::packager::package::{bundle_write_result, display_stamp};
use encore::packager::runner::RunnerFailure;

fn err(code: &str) -> Result<(), String> {
    Err(code.to_string())
}

#[test]
fn each_step_of_writing_a_bundle_fails_with_its_own_code() {
    assert_eq!(bundle_write_result(true, Ok(()), true, Some(5), true, true, true), Ok(()));
    assert_eq!(bundle_write_result(false, Ok(()), true, Some(5), true, true, true), err("export_destination_unavailable"));
    assert_eq!(
        bundle_write_result(true, Err(RunnerFailure::Unavailable), true, Some(5), true, true, true),
        err("export_ffmpeg_unavailable")
    );
    assert_eq!(
        bundle_write_result(true, Err(RunnerFailure::Failed), true, Some(5), true, true, true),
        err("export_concat_failed")
    );
    assert_eq!(bundle_write_result(true, Ok(()), false, Some(5), true, true, true), err("export_destination_unavailable"));
    assert_eq!(bundle_write_result(true, Ok(()), true, Some(0), true, true, true), err("export_concat_failed"));
    assert_eq!(bundle_write_result(true, Ok(()), true, None, true, true, true), err("export_concat_failed"));
    assert_eq!(bundle_write_result(true, Ok(()), true, Some(5), false, true, true), err("export_destination_unavailable"));
    assert_eq!(bundle_write_result(true, Ok(()), true, Some(5), true, false, true), err("export_metadata_failed"));
    assert_eq!(bundle_write_result(true, Ok(()), true, Some(5), true, true, false), err("export_destination_unavailable"));
}

#[test]
fn the_first_failed_cut_decides_a_trimmed_video() {
    assert_eq!(trimmed_video_result(2, None, true, true, Ok(()), true, true, Some(9), true), Ok(()));
    assert_eq!(
        trimmed_video_result(2, Some(RunnerFailure::Failed), true, true, Ok(()), true, true, Some(9), true),
        err("export_trim_failed")
    );
    assert_eq!(
        trimmed_video_result(2, Some(RunnerFailure::Unavailable), true, true, Ok(()), true, true, Some(9), true),
        err("export_ffmpeg_unavailable")
    );
    assert_eq!(trimmed_video_result(1, None, false, true, Ok(()), true, true, Some(9), true), err("export_destination_unavailable"));
    assert_eq!(trimmed_video_result(1, None, true, false, Err(RunnerFailure::Failed), false, false, Some(9), true), Ok(()));
    assert_eq!(
        trimmed_video_result(3, None, true, true, Err(RunnerFailure::Failed), true, true, Some(9), true),
        err("export_concat_failed")
    );
    assert_eq!(trimmed_video_result(3, None, true, true, Ok(()), true, false, Some(9), true), err("export_destination_unavailable"));
    assert_eq!(trimmed_video_result(3, None, true, true, Ok(()), true, true, Some(0), true), err("export_concat_failed"));
    assert_eq!(trimmed_video_result(3, None, true, true, Ok(()), true, true, Some(9), false), err("export_destination_unavailable"));
}

#[test]
fn a_trimmed_bundle_keeps_the_video_error_then_checks_metadata_and_sync() {
    assert_eq!(trimmed_bundle_result(err("export_trim_failed"), true, true), err("export_trim_failed"));
    assert_eq!(trimmed_bundle_result(Ok(()), false, true), err("export_metadata_failed"));
    assert_eq!(trimmed_bundle_result(Ok(()), true, false), err("export_destination_unavailable"));
    assert_eq!(trimmed_bundle_result(Ok(()), true, true), Ok(()));
}

#[test]
fn a_cached_thumbnail_wins_and_a_marker_stops_extraction() {
    assert_eq!(
        thumbnail_result(false, None, false, false, false, None),
        Err("library_thumbnail_missing".to_string())
    );
    assert_eq!(thumbnail_result(true, Some(b"jpg".to_vec()), true, false, false, None), Ok(b"jpg".to_vec()));
    assert_eq!(
        thumbnail_result(true, None, true, true, true, Some(b"x".to_vec())),
        Err("library_thumbnail_unavailable".to_string())
    );
    assert_eq!(
        thumbnail_result(true, None, false, false, true, Some(b"x".to_vec())),
        Err("library_thumbnail_unavailable".to_string())
    );
    assert_eq!(thumbnail_result(true, None, false, true, true, Some(b"x".to_vec())), Ok(b"x".to_vec()));
    assert_eq!(
        thumbnail_result(true, None, false, true, false, None),
        Err("library_thumbnail_unavailable".to_string())
    );
}

#[test]
fn a_missing_bundle_is_reported_before_the_mover_answers() {
    assert_eq!(delete_result(false, Ok(())), err("library_replay_missing"));
    assert_eq!(delete_result(true, err("trash_failed")), err("trash_failed"));
    assert_eq!(delete_result(true, Ok(())), Ok(()));
}

#[test]
fn local_readings_of_a_time_past_i64_fall_back_to_now() {
    let today = local_day(u64::MAX);
    assert_eq!(local_day(1_723_536_000_000) - local_day(1_723_536_000_000 - 86_400_000 * 3), 3);
    assert!(today >= local_day(1_723_536_000_000));
    assert!(local_time(1_723_536_000_000).ends_with('M'));
    assert_eq!(display_stamp(u64::MAX), None);
    assert_eq!(display_stamp(1_723_536_000_000).unwrap().len(), 19);
    assert_eq!(DAY_CAPTION_FORMAT, "%a, %b %-d");
}
