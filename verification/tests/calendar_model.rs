use ainc_mac::calendar::DAY;
use ainc_mac::calendar_model::{
    status, sync_control, CalendarModel, ImportView, IMPORT_AHEAD, IMPORT_BEHIND,
};
use ainc_mac::calendar_store::Access;

fn import(state: &str, created_at: i64, finished_at: Option<i64>) -> ImportView {
    ImportView { state: state.to_string(), created_at, finished_at }
}

#[test]
fn reads_never_overlap_and_errors_are_kept() {
    let mut model = CalendarModel::new(Access::Granted, 0);
    assert_eq!(model.window, (-62 * DAY, 200 * DAY));
    assert_eq!(model.refresh(), Some((-62 * DAY, 200 * DAY)));
    assert_eq!(model.refresh(), None);
    model.refreshed(Err("daemon offline".to_string()));
    assert!(model.loaded && !model.refreshing);
    assert_eq!(model.error.as_deref(), Some("daemon offline"));
    assert!(model.refresh().is_some());
    model.refreshed(Ok((vec![], Some(import("running", 5, None)))));
    assert!(model.error.is_none());
    assert!(model.is_syncing());
}

#[test]
fn covering_a_far_range_widens_the_window() {
    let mut model = CalendarModel::new(Access::Denied, 0);
    assert_eq!(model.cover(0, DAY), None);
    assert_eq!(model.cover(300 * DAY, 301 * DAY), Some((269 * DAY, 421 * DAY)));
    assert_eq!(model.window, (269 * DAY, 421 * DAY));
    // A read is already under way: the window moves, and is read when
    // that read ends.
    assert_eq!(model.cover(-500 * DAY, -499 * DAY), None);
    assert_eq!(model.window, (-531 * DAY, -379 * DAY));
    assert!(model.stale);
    assert_eq!(model.refreshed(Ok((vec![], None))), Some((-531 * DAY, -379 * DAY)));
    assert!(model.refreshing && !model.stale);
    assert_eq!(model.refreshed(Ok((vec![], None))), None);
    assert!(!model.refreshing);
    // A range longer than the usual window is still covered.
    assert_eq!(model.cover(0, 400 * DAY), Some((-31 * DAY, 400 * DAY)));
}

#[test]
fn mirroring_needs_access_and_runs_once_at_a_time() {
    let mut model = CalendarModel::new(Access::NotAsked, 0);
    assert_eq!(model.sync(Access::Denied, 0), None);
    assert_eq!(model.access, Access::Denied);
    assert_eq!(model.access_answered(Access::Granted, 1_000), Some((1_000 - IMPORT_BEHIND, 1_000 + IMPORT_AHEAD)));
    assert!(model.syncing && model.is_syncing());
    assert_eq!(model.sync(Access::Granted, 0), None);
    assert_eq!(model.synced(Err("no network".to_string())), Some(model.window));
    assert_eq!(model.error.as_deref(), Some("Calendar sync failed: no network"));
    assert!(!model.syncing);
}

#[test]
fn the_periodic_check_reads_during_imports_and_mirrors_when_due() {
    let mut model = CalendarModel::new(Access::Granted, 0);
    let work = model.tick(Some(60), Access::Granted, 0);
    assert_eq!((work.refresh, work.sync), (None, None));
    let work = model.tick(None, Access::Granted, 0);
    assert_eq!(work.sync, Some((-IMPORT_BEHIND, IMPORT_AHEAD)));
    model.synced(Ok(()));
    model.refreshed(Ok((vec![], Some(import("queued", 0, None)))));
    let work = model.tick(Some(15 * 60 - 1), Access::Granted, 0);
    assert_eq!(work.refresh, Some(model.window));
    assert_eq!(work.sync, None);
}

#[test]
fn the_status_line_names_the_sources() {
    assert_eq!(status(Access::Denied, &None, 0), "Your AgentInc events.");
    assert_eq!(status(Access::Granted, &None, 0), "Your events and your Mac's calendars.");
    assert_eq!(
        status(Access::Granted, &Some(import("failed", 0, Some(10))), 100),
        "Your Mac's calendars could not be imported."
    );
    assert_eq!(
        status(Access::Granted, &Some(import("succeeded", 0, Some(100))), 100 + 3 * 3600),
        "Your events and your Mac's calendars · synced 3 h ago"
    );
    assert_eq!(sync_control(Access::Granted, true), Some(("Syncing…", false)));
    assert_eq!(sync_control(Access::Granted, false), Some(("Sync now", true)));
    assert_eq!(sync_control(Access::NotAsked, false), Some(("Show Mac calendars", true)));
    assert_eq!(sync_control(Access::Denied, false), None);
}
