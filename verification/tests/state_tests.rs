//! Tests of the state model, the switch coordinator and the command
//! surface.

use gus::cli::{parse, Action};
use gus::git::interpret_config_output;
use gus::config::{get_path, get_user, init, list_users, Config, User};
use gus::errors::{CliError, ConfigError, GitError};
use gus::switch::{apply_switch, switch_user};

fn user(name: &str, email: &str) -> User {
    User { name: name.to_string(), email: email.to_string() }
}

fn two_users() -> Config {
    Config {
        users: vec![user("Alice", "a@x"), user("Bob", "b@x")],
        previous_user: 0,
        current_user: 0,
    }
}

#[test]
fn first_run_seeding() {
    let seeded = init(user("Alice", "a@x"));
    assert_eq!(seeded.users.len(), 1);
    assert_eq!(seeded.users[0], user("Alice", "a@x"));
    assert_eq!(seeded.current_user, 0);
    assert_eq!(seeded.previous_user, 0);
}

#[test]
fn switch_scenario() {
    let start = two_users();
    let (written, after_first) = switch_user(1, &start).unwrap();
    assert_eq!(written.name, "Bob");
    assert_eq!(written.email, "b@x");
    assert_eq!(after_first.current_user, 1);
    assert_eq!(after_first.previous_user, 0);

    let (_, after_second) = switch_user(0, &after_first).unwrap();
    assert_eq!(after_second.current_user, 0);
    assert_eq!(after_second.previous_user, 1);

    let (_, after_previous) = switch_user(after_second.previous_user, &after_second).unwrap();
    assert_eq!(after_previous.current_user, 1);
    assert_eq!(after_previous.previous_user, 0);
}

#[test]
fn lookup_out_of_range() {
    let config = two_users();
    let r = get_user(5, &config);
    assert_eq!(r, Err(ConfigError::InvalidUserIndex(5)));
    assert_eq!(config.users.len(), 2);
    assert_eq!(config.current_user, 0);
    assert_eq!(config.previous_user, 0);
}

#[test]
fn switch_out_of_range() {
    let config = two_users();
    let r = switch_user(2, &config);
    assert_eq!(r, Err(ConfigError::InvalidUserIndex(2)));
}

#[test]
fn switch_to_current_keeps_indices() {
    let mut config = two_users();
    config.current_user = 1;
    config.previous_user = 0;
    let (written, after) = switch_user(1, &config).unwrap();
    assert_eq!(written.name, "Bob");
    assert_eq!(written.email, "b@x");
    assert_eq!(after.current_user, 1);
    assert_eq!(after.previous_user, 0);
    assert_eq!(after.users, config.users);
}

#[test]
fn apply_switch_moves_indices() {
    let mut fresh = two_users();
    apply_switch(&mut fresh, 1, 0);
    assert_eq!(fresh.current_user, 1);
    assert_eq!(fresh.previous_user, 0);
    assert_eq!(fresh.users.len(), 2);
}

#[test]
fn listing_marks_the_current_identity() {
    let mut config = two_users();
    config.current_user = 0;
    let lines = list_users(&config);
    assert_eq!(lines, vec!["* 0: Alice <a@x>".to_string(), "  1: Bob <b@x>".to_string()]);
}

#[test]
fn config_path_under_home() {
    assert_eq!(get_path("/home/x"), "/home/x/.config/gus.toml");
}

#[test]
fn parse_no_arguments_asks_for_help() {
    let args = vec!["gus".to_string()];
    assert_eq!(parse(&args, &two_users()), Ok(Action::ShowHelp));
}

#[test]
fn parse_too_many_arguments() {
    let args = vec!["gus".to_string(), "1".to_string(), "2".to_string()];
    assert_eq!(
        parse(&args, &two_users()),
        Err(CliError::InvalidUsage("Too many arguments provided".to_string()))
    );
}

#[test]
fn parse_fixed_commands() {
    let config = two_users();
    let args = vec!["gus".to_string(), "config".to_string()];
    assert_eq!(parse(&args, &config), Ok(Action::EditConfig));
    let args = vec!["gus".to_string(), "ls".to_string()];
    assert_eq!(parse(&args, &config), Ok(Action::ListUsers));
    let args = vec!["gus".to_string(), "list".to_string()];
    assert_eq!(parse(&args, &config), Ok(Action::ListUsers));
}

#[test]
fn parse_previous_marker_uses_stored_index() {
    let mut config = two_users();
    config.previous_user = 1;
    let args = vec!["gus".to_string(), "-".to_string()];
    assert_eq!(parse(&args, &config), Ok(Action::SwitchTo(1)));
}

#[test]
fn parse_numeric_index() {
    let args = vec!["gus".to_string(), "2".to_string()];
    assert_eq!(parse(&args, &two_users()), Ok(Action::SwitchTo(2)));
}

#[test]
fn parse_rejects_unknown_word() {
    let args = vec!["gus".to_string(), "frob".to_string()];
    assert_eq!(
        parse(&args, &two_users()),
        Err(CliError::ParseError("'frob' is not a valid user ID or command".to_string()))
    );
}

#[test]
fn parse_rejects_oversized_index() {
    let args = vec!["gus".to_string(), "99999999999999999999999".to_string()];
    assert_eq!(
        parse(&args, &two_users()),
        Err(CliError::ParseError(
            "'99999999999999999999999' is not a valid user ID or command".to_string()
        ))
    );
}

#[test]
fn error_messages() {
    assert_eq!(
        ConfigError::InvalidUserIndex(5).message(),
        "User not found at index: 5"
    );
    assert_eq!(ConfigError::HomeNotSet.message(), "HOME environment variable not set");
    assert_eq!(
        GitError::NotInstalled.message(),
        "Git is not installed. Please install Git to use this tool."
    );
    assert_eq!(
        CliError::from_git(&GitError::CommandFailed("boom".to_string())),
        CliError::GitError("Git command failed: boom".to_string())
    );
    assert_eq!(
        CliError::from_config(&ConfigError::ReadError("gone".to_string())),
        CliError::ConfigError("Failed to read config file: gone".to_string())
    );
}

#[test]
fn interpret_backend_output() {
    assert_eq!(
        interpret_config_output("user.name", true, "  Alice Doe \n", None),
        Ok("Alice Doe".to_string())
    );
    assert_eq!(
        interpret_config_output("user.name", true, " \n", None),
        Err(GitError::ConfigReadError("Git config field 'user.name' is not set".to_string()))
    );
    assert_eq!(
        interpret_config_output("user.name", false, "", Some(" boom\n")),
        Err(GitError::ConfigReadError(
            "Git config command failed for field 'user.name': boom".to_string()
        ))
    );
    assert_eq!(
        interpret_config_output("user.name", false, "", None),
        Err(GitError::ConfigReadError(
            "Git config command failed for field 'user.name': Unknown error".to_string()
        ))
    );
}
