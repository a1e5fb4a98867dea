use scanmap::error::{exit_code, Axis, InvalidInput, MapError, ScanError, ScanFault};
use scanmap::setup::{Setup, SetupAction};

#[test]
fn invalid_input_messages() {
    assert_eq!(InvalidInput::Format.message(), "    Error: Must be in format \"x y z\"");
    assert_eq!(InvalidInput::Number(Axis::X).message(), "    Error: Failed to parse x as float");
    assert_eq!(InvalidInput::Number(Axis::Y).message(), "    Error: Failed to parse y as float");
    assert_eq!(InvalidInput::Number(Axis::Z).message(), "    Error: Failed to parse z as float");
}

#[test]
fn scan_error_message_names_the_reason() {
    let all = [
        (ScanFault::SyntaxRegexError, "resource=SyntaxRegexError"),
        (ScanFault::CommandNotFound, "resource=CommandNotFound"),
        (ScanFault::NoMatch, "resource=NoMatch"),
        (ScanFault::FailedToParse, "resource=FailedToParse"),
        (ScanFault::NoValue, "resource=NoValue"),
    ];
    for (fault, text) in all {
        assert_eq!(ScanError::from(fault).message(), text);
        assert_eq!(ScanError::from(fault).reason, fault);
        assert_eq!(format!("resource={:?}", fault), text);
    }
}

#[test]
fn map_error_messages() {
    assert_eq!(MapError::NotFound.message(), "scan map file not found");
    assert_eq!(MapError::ParseError.message(), "failed to load existing scan map");
    assert_eq!(MapError::IoError.message(), "failed to read or write a file");
    assert_eq!(MapError::InvalidTarget.message(), "export target is not a directory");
    assert_eq!(
        MapError::ScanFailure(ScanError::from(ScanFault::NoMatch)).message(),
        "failed to acquire new reading: resource=NoMatch"
    );
}

#[test]
fn failures_of_loading_are_told_apart() {
    assert_eq!(MapError::on_open(true), MapError::NotFound);
    assert_eq!(MapError::on_open(false), MapError::IoError);
    assert_eq!(MapError::on_read(true), MapError::IoError);
    assert_eq!(MapError::on_read(false), MapError::ParseError);
}

#[test]
fn map_error_report_starts_with_error() {
    assert_eq!(MapError::NotFound.report(), "Error: scan map file not found");
    assert_eq!(
        MapError::ScanFailure(ScanError::from(ScanFault::CommandNotFound)).report(),
        "Error: failed to acquire new reading: resource=CommandNotFound"
    );
}

#[test]
fn exit_code_is_zero_only_after_success() {
    assert_eq!(exit_code(&Ok(())), 0);
    for e in [
        MapError::NotFound,
        MapError::ParseError,
        MapError::IoError,
        MapError::InvalidTarget,
        MapError::ScanFailure(ScanError::from(ScanFault::NoValue)),
    ] {
        assert_eq!(exit_code(&Err(e)), 1);
    }
}

#[test]
fn setup_asks_again_for_an_empty_name() {
    for line in ["", "\n", "\n\n"] {
        let (next, action) = Setup::new().step(line);
        assert_eq!(next, Setup::CollectName);
        assert_eq!(action, SetupAction::RetryName);
    }
}

#[test]
fn setup_takes_name_then_notes() {
    let (next, action) = Setup::new().step("Office\n");
    assert_eq!(next, Setup::CollectNotes { name: "Office".to_string() });
    assert_eq!(action, SetupAction::AskNotes);
    let (next, action) = next.step("third floor\n");
    assert_eq!(action, SetupAction::Finish);
    match next {
        Setup::Ready { map } => {
            assert_eq!(map.name, "Office");
            assert_eq!(map.notes, "third floor");
            assert!(map.nodes.is_empty());
        }
        other => panic!("unexpected state {:?}", other),
    }
}

#[test]
fn setup_accepts_empty_notes_and_blank_names() {
    let (next, _) = Setup::new().step(" \n");
    assert_eq!(next, Setup::CollectNotes { name: " ".to_string() });
    let (next, action) = next.step("\n");
    assert_eq!(action, SetupAction::Finish);
    match next {
        Setup::Ready { map } => {
            assert_eq!(map.name, " ");
            assert_eq!(map.notes, "");
        }
        other => panic!("unexpected state {:?}", other),
    }
}

#[test]
fn setup_ignores_lines_once_the_map_is_made() {
    let (next, _) = Setup::new().step("a\n");
    let (ready, _) = next.step("b\n");
    let (after, action) = ready.step("c\n");
    assert_eq!(action, SetupAction::Ignore);
    match after {
        Setup::Ready { map } => {
            assert_eq!(map.name, "a");
            assert_eq!(map.notes, "b");
        }
        other => panic!("unexpected state {:?}", other),
    }
}
