use time_manager::command::{get_command, ManagerCommand};
use time_manager::errors::AppError;

#[test]
fn keywords_map_to_their_commands() {
    assert_eq!(get_command("start"), ManagerCommand::StartTrack);
    assert_eq!(get_command("end"), ManagerCommand::EndTrack);
    assert_eq!(get_command("out"), ManagerCommand::PauseTrack);
}

#[test]
fn surrounding_whitespace_is_ignored() {
    assert_eq!(get_command("  start\n"), ManagerCommand::StartTrack);
    assert_eq!(get_command("\t end \r\n"), ManagerCommand::EndTrack);
    assert_eq!(get_command("out "), ManagerCommand::PauseTrack);
}

#[test]
fn anything_else_is_an_error() {
    assert_eq!(get_command(""), ManagerCommand::Error);
    assert_eq!(get_command("   "), ManagerCommand::Error);
    assert_eq!(get_command("started"), ManagerCommand::Error);
    assert_eq!(get_command("s t a r t"), ManagerCommand::Error);
    assert_eq!(get_command("Start"), ManagerCommand::Error);
}

#[test]
fn every_error_kind_has_a_message() {
    let kinds = [
        AppError::Validation,
        AppError::Persistence,
        AppError::Initialization,
        AppError::Clear,
        AppError::Report,
    ];
    for k in kinds {
        assert!(!k.message().is_empty());
    }
    assert_eq!(
        AppError::Validation.message(),
        "You should enter new task name!"
    );
}
