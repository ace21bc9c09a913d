use anyhow::{Context, Error};
use utopia::error::{
    add_context, failure, is_terminal, mark_terminal, said_of, terminal_failure, AppError, Terminal,
};

#[test]
fn terminal_as_the_context() {
    let err = Error::msg("model endpoint gone").context(Terminal);
    assert!(is_terminal(&err));
}

#[test]
fn terminal_as_the_root() {
    let err = Error::new(Terminal).context("source_mismatch");
    assert!(is_terminal(&err));
}

#[test]
fn terminal_under_more_context() {
    let err = Error::msg("balance gone").context(Terminal).context("job 42");
    assert!(is_terminal(&err));
    let io: Result<(), _> = Err(std::io::Error::other("io"));
    assert!(is_terminal(&io.context(Terminal).unwrap_err()));
}

#[test]
fn a_plain_failure_is_not_terminal() {
    let err = Error::msg("network blip").context("job 42");
    assert!(!is_terminal(&err));
}

#[test]
fn a_marked_failure_is_shown_with_its_sentence() {
    assert_eq!(Terminal.to_string(), "will not recover by retrying");
}

#[test]
fn errors_speak_for_themselves() {
    assert_eq!(AppError::NotFound.message(), "Not found");
    assert_eq!(AppError::Unauthorized.message(), "Not signed in or invalid credentials");
    assert_eq!(AppError::Forbidden.message(), "You don't have permission to do that");
    assert_eq!(AppError::Conflict("taken".into()).message(), "taken");
    assert_eq!(AppError::Validation("bad".into()).message(), "bad");
    assert_eq!(AppError::invalid("cron", "not a schedule").message(), "not a schedule");
    assert_eq!(
        AppError::from(sqlx::Error::RowNotFound).message(),
        sqlx::Error::RowNotFound.to_string()
    );
    assert_eq!(AppError::from(Error::msg("gone").context("job 42")).message(), "job 42");
}

#[test]
fn an_invalid_error_keeps_its_code_and_detail() {
    match AppError::invalid_detail("cron", "not a schedule", "column 3") {
        AppError::Invalid { code, message, detail } => {
            assert_eq!(code, "cron");
            assert_eq!(message, "not a schedule");
            assert_eq!(detail.as_deref(), Some("column 3"));
        }
        other => panic!("{other:?}"),
    }
    assert!(matches!(
        AppError::invalid("cron", "x"),
        AppError::Invalid { code: "cron", detail: None, .. }
    ));
}

#[test]
fn outside_errors_are_kept() {
    assert!(matches!(
        AppError::from(sqlx::Error::RowNotFound),
        AppError::Db(sqlx::Error::RowNotFound)
    ));
    match AppError::from(Error::msg("gone").context(Terminal)) {
        AppError::Other(e) => assert!(is_terminal(&e)),
        other => panic!("{other:?}"),
    }
}

#[test]
fn the_mark_is_seen_through_context() {
    let plain = add_context(failure("network blip"), "job 42");
    assert!(!is_terminal(&plain));
    assert_eq!(plain.to_string(), "job 42");
    assert_eq!(plain.root_cause().to_string(), "network blip");
    assert_eq!(said_of(&plain), Some("job 42".to_string()));
    let marked = mark_terminal(plain);
    assert_eq!(marked.to_string(), "will not recover by retrying");
    assert!(is_terminal(&marked));
    assert_eq!(said_of(&marked), Some("job 42".to_string()));
    let again = add_context(marked, "once more");
    assert!(is_terminal(&again));
    assert_eq!(said_of(&again), Some("once more".to_string()));
    assert!(is_terminal(&terminal_failure()));
    assert_eq!(said_of(&terminal_failure()), None);
    assert!(is_terminal(&add_context(terminal_failure(), "source_mismatch")));
}
