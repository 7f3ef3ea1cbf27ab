use sync_supervisor::control::{ControlState, Trigger};
use sync_supervisor::reassembly::Chunk;
use sync_supervisor::supervisor::{ChannelIdentity, ExitStatus, SupervisorState};

fn fresh_state() -> ControlState {
    ControlState::new(ChannelIdentity::new("fkey_2".to_string()))
}

#[test]
fn launch_request_without_directory_is_rejected() {
    let mut state = fresh_state();
    assert!(state.handle_trigger(Trigger::LaunchRequested).is_none());
    assert_eq!(state.supervisor.state(), SupervisorState::Idle);
}

#[test]
fn launch_request_after_directory_change_produces_the_command() {
    let mut state = fresh_state();
    let none = state.handle_trigger(Trigger::WorkingDirectoryChanged("/srv/game".to_string()));
    assert!(none.is_none());

    let cmd = state.handle_trigger(Trigger::LaunchRequested).unwrap();
    assert_eq!(cmd.program, "cargo");
    assert_eq!(cmd.args, vec!["run".to_string()]);
    assert_eq!(cmd.env[0].0, "BEVY_WORLD_SYNC_SERVICE");
    assert_eq!(cmd.env[0].1, "fkey_2");
    assert_eq!(cmd.working_dir, "/srv/game");
    assert_eq!(state.supervisor.state(), SupervisorState::Launching);

    // At most one live child: a second request changes nothing.
    state.supervisor.launch_succeeded();
    assert!(state.handle_trigger(Trigger::LaunchRequested).is_none());
    assert_eq!(state.supervisor.state(), SupervisorState::Running);
}

#[test]
fn directory_change_replaces_the_stored_path() {
    let mut state = fresh_state();
    state.handle_trigger(Trigger::WorkingDirectoryChanged("/old".to_string()));
    state.handle_trigger(Trigger::WorkingDirectoryChanged("/new".to_string()));
    let cmd = state.handle_trigger(Trigger::LaunchRequested).unwrap();
    assert_eq!(cmd.working_dir, "/new");
}

#[test]
fn tick_reports_exit_and_messages() {
    let mut state = fresh_state();
    state.handle_trigger(Trigger::WorkingDirectoryChanged("/srv/game".to_string()));
    state.handle_trigger(Trigger::LaunchRequested).unwrap();
    state.supervisor.launch_succeeded();

    let chunks = vec![
        Chunk::new(b"AB".to_vec(), false),
        Chunk::new(b"CD".to_vec(), true),
        Chunk::new(b"EF".to_vec(), true),
    ];
    let outcome = state.tick(Some(ExitStatus::from_code(0)), &chunks);
    let report = outcome.exit_report.unwrap();
    assert!(report.success);
    assert_eq!(state.supervisor.state(), SupervisorState::Idle);
    assert_eq!(outcome.completed.len(), 2);
    assert_eq!(outcome.completed[0], b"ABCD".to_vec());
    assert_eq!(outcome.completed[1], b"EF".to_vec());
    // The display value is the last completed message of the tick.
    assert_eq!(outcome.display.unwrap(), b"EF".to_vec());
    assert!(!outcome.no_activity);
}

#[test]
fn tick_with_nothing_to_do_reports_no_activity() {
    let mut state = fresh_state();
    let outcome = state.tick(None, &Vec::new());
    assert!(outcome.exit_report.is_none());
    assert_eq!(outcome.completed.len(), 0);
    assert!(outcome.display.is_none());
    assert!(outcome.no_activity);
}

#[test]
fn tick_without_terminal_chunk_completes_nothing() {
    let mut state = fresh_state();
    let chunks = vec![Chunk::new(b"AB".to_vec(), false)];
    let outcome = state.tick(None, &chunks);
    assert_eq!(outcome.completed.len(), 0);
    assert!(outcome.display.is_none());
    assert!(!outcome.no_activity);
    assert_eq!(*state.reassembler.in_progress(), b"AB".to_vec());
}
