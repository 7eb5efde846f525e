use tmux_selector::driver::{
    auto_select, exit_code, fetch_panes, find_pane, interactive_result, output_format,
    select_output, OutputFormat, Selection, SelectorError,
};
use tmux_selector::fetch::{FetchError, ProcessOutput};
use tmux_selector::pane::TmuxPane;
use tmux_selector::selector::{Failure, Outcome};

fn printed(text: &str) -> ProcessOutput {
    ProcessOutput::Exited { success: true, stdout: text.as_bytes().to_vec() }
}

fn failed() -> ProcessOutput {
    ProcessOutput::Exited { success: false, stdout: Vec::new() }
}

fn pane(session: &str, index: &str, title: &str, last_used: u64, is_active: bool) -> TmuxPane {
    TmuxPane::new(
        session.to_string(),
        "0".to_string(),
        index.to_string(),
        title.to_string(),
        last_used,
        is_active,
    )
}

#[test]
fn auto_mode_picks_the_other_of_two_panes() {
    let listing = printed("s|0|0|one|5|1\ns|0|1|two|6|0\n");
    let panes = fetch_panes(true, listing).unwrap();
    assert_eq!(panes.len(), 2);
    let picked = auto_select(&panes, printed("s:0.0\n"));
    assert_eq!(picked, Ok("s:0.1".to_string()));
    assert_eq!(exit_code(&picked), 0);
    let format = output_format("plain");
    let line = select_output(&panes, picked.as_ref().unwrap(), format);
    assert_eq!(line, Some(Selection::Identifier("s:0.1".to_string())));
}

#[test]
fn auto_mode_finds_no_candidate_in_a_list_of_one() {
    let panes = fetch_panes(true, printed("s|0|0|one|5|1\n")).unwrap();
    let picked = auto_select(&panes, printed("s:0.0\n"));
    assert_eq!(picked, Err(SelectorError::NoCandidate));
    assert_eq!(exit_code(&picked), 1);
    assert_eq!(SelectorError::NoCandidate.message(), "No suitable pane found for auto-selection");
}

#[test]
fn auto_mode_needs_the_current_pane() {
    let panes = vec![pane("s", "0", "one", 5, false), pane("s", "1", "two", 6, false)];
    assert_eq!(auto_select(&panes, failed()), Err(SelectorError::Lookup(FetchError::Failed)));
    assert_eq!(
        auto_select(&panes, ProcessOutput::NotStarted),
        Err(SelectorError::Lookup(FetchError::NotStarted))
    );
    let garbled = ProcessOutput::Exited { success: true, stdout: vec![0xfe] };
    assert_eq!(auto_select(&panes, garbled), Err(SelectorError::Lookup(FetchError::NotText)));
    // A current pane that is not in the list leaves every pane a candidate.
    assert_eq!(auto_select(&panes, printed("other:9.9\n")), Ok("s:0.1".to_string()));
}

#[test]
fn panes_are_fetched_only_inside_a_session() {
    let listing = printed("s|0|0|one|5|1\n");
    assert_eq!(fetch_panes(false, listing.clone()), Err(SelectorError::NotInSession));
    assert_eq!(fetch_panes(false, failed()), Err(SelectorError::NotInSession));
    assert_eq!(fetch_panes(true, listing), Ok(vec![pane("s", "0", "one", 5, true)]));
}

#[test]
fn a_listing_without_panes_is_an_error() {
    assert_eq!(fetch_panes(true, printed("")), Err(SelectorError::NoPanes));
    assert_eq!(fetch_panes(true, printed("not|a|pane\n")), Err(SelectorError::NoPanes));
    assert_eq!(fetch_panes(true, failed()), Err(SelectorError::Listing(FetchError::Failed)));
    assert_eq!(
        fetch_panes(true, ProcessOutput::NotStarted),
        Err(SelectorError::Listing(FetchError::NotStarted))
    );
    let garbled = ProcessOutput::Exited { success: true, stdout: vec![b's', 0xff] };
    assert_eq!(fetch_panes(true, garbled), Err(SelectorError::Listing(FetchError::NotText)));
}

#[test]
fn every_error_ends_with_status_one() {
    let errors = [
        SelectorError::NotInSession,
        SelectorError::Listing(FetchError::Failed),
        SelectorError::Lookup(FetchError::NotText),
        SelectorError::NoPanes,
        SelectorError::NoCandidate,
        SelectorError::Cancelled,
        SelectorError::Terminal(Failure::Read),
    ];
    for error in errors {
        assert_eq!(exit_code(&Err(error)), 1);
    }
    assert_eq!(exit_code(&Ok("s:0.1".to_string())), 0);
}

#[test]
fn every_error_has_its_words() {
    assert_eq!(SelectorError::NotInSession.message(), "Error: Not running in tmux");
    assert_eq!(SelectorError::NoPanes.message(), "No tmux panes found");
    assert_eq!(SelectorError::Cancelled.message(), "Pane selection cancelled");
    assert_eq!(SelectorError::Listing(FetchError::Failed).message(), "Failed to get tmux panes");
    assert_eq!(
        SelectorError::Lookup(FetchError::Failed).message(),
        "Failed to get current pane ID"
    );
    assert_eq!(
        SelectorError::Terminal(Failure::Restore).message(),
        "Failed to drive the terminal"
    );
}

#[test]
fn a_picking_comes_to_a_pane_or_an_error() {
    assert_eq!(interactive_result(Outcome::Confirmed("s:0.1".to_string())), Ok("s:0.1".to_string()));
    assert_eq!(interactive_result(Outcome::Cancelled), Err(SelectorError::Cancelled));
    assert_eq!(interactive_result(Outcome::Empty), Err(SelectorError::Cancelled));
    assert_eq!(
        interactive_result(Outcome::Failed(Failure::Lookup(FetchError::NotText))),
        Err(SelectorError::Lookup(FetchError::NotText))
    );
    for failure in [Failure::RawMode, Failure::Draw, Failure::Read, Failure::Restore] {
        assert_eq!(
            interactive_result(Outcome::Failed(failure)),
            Err(SelectorError::Terminal(failure))
        );
    }
}

#[test]
fn only_json_names_the_record_format() {
    assert_eq!(output_format("json"), OutputFormat::Json);
    assert_eq!(output_format("plain"), OutputFormat::Plain);
    assert_eq!(output_format(""), OutputFormat::Plain);
    assert_eq!(output_format("JSON"), OutputFormat::Plain);
    assert_eq!(output_format("json "), OutputFormat::Plain);
    assert_eq!(output_format("yaml"), OutputFormat::Plain);
}

#[test]
fn the_format_decides_what_is_printed() {
    let panes = vec![pane("s", "0", "one", 5, false), pane("s", "1", "two \"2\"", 6, true)];
    assert_eq!(
        select_output(&panes, "s:0.1", OutputFormat::Plain),
        Some(Selection::Identifier("s:0.1".to_string()))
    );
    let record = match select_output(&panes, "s:0.1", OutputFormat::Json) {
        Some(Selection::Record(record)) => record,
        other => panic!("no record: {:?}", other),
    };
    assert_eq!(record.session_name(), "s");
    assert_eq!(record.window_index(), "0");
    assert_eq!(record.pane_index(), "1");
    assert_eq!(record.pane_title(), "two \"2\"");
    assert_eq!(record.last_used(), 6);
    assert!(record.is_active());
    assert_eq!(record.full_id(), "s:0.1");
}

#[test]
fn an_unknown_pane_has_no_record() {
    let panes = vec![pane("s", "0", "one", 5, false)];
    assert_eq!(select_output(&panes, "s:0.7", OutputFormat::Json), None);
    assert_eq!(
        select_output(&panes, "s:0.7", OutputFormat::Plain),
        Some(Selection::Identifier("s:0.7".to_string()))
    );
    assert_eq!(select_output(&[], "s:0.0", OutputFormat::Json), None);
}

#[test]
fn a_pane_is_found_by_its_identifier() {
    let panes = vec![
        pane("s", "0", "one", 5, false),
        pane("s", "1", "two", 6, true),
        pane("s", "1", "again", 7, true),
    ];
    assert_eq!(find_pane(&panes, "s:0.0"), Some(0));
    assert_eq!(find_pane(&panes, "s:0.1"), Some(1));
    assert_eq!(find_pane(&panes, "s:0.2"), None);
    assert_eq!(find_pane(&panes, ""), None);
    assert_eq!(find_pane(&[], "s:0.0"), None);
}
