use tmux_selector::fetch::{
    get_current_pane_id, get_tmux_panes, parse_pane_line, parse_panes, read_output, FetchError,
    ProcessOutput, CURRENT_PANE_FORMAT, LIST_PANES_FORMAT,
};
use tmux_selector::pane::TmuxPane;

fn printed(text: &str) -> ProcessOutput {
    ProcessOutput::Exited { success: true, stdout: text.as_bytes().to_vec() }
}

fn record(
    session: &str,
    window: &str,
    pane: &str,
    title: &str,
    last_used: u64,
    is_active: bool,
) -> TmuxPane {
    TmuxPane::new(
        session.to_string(),
        window.to_string(),
        pane.to_string(),
        title.to_string(),
        last_used,
        is_active,
    )
}

fn line(text: &str) -> Option<TmuxPane> {
    let chars: Vec<char> = text.chars().collect();
    parse_pane_line(&chars)
}

#[test]
fn a_line_of_six_fields_is_a_record() {
    let pane = line("main|2|1|vim|1700000000|1").unwrap();
    assert_eq!(pane.session_name(), "main");
    assert_eq!(pane.window_index(), "2");
    assert_eq!(pane.pane_index(), "1");
    assert_eq!(pane.pane_title(), "vim");
    assert_eq!(pane.last_used(), 1_700_000_000);
    assert!(pane.is_active());
    assert_eq!(pane.full_id(), "main:2.1");
    assert_eq!(pane.display_name(), "main:2.1 - vim");
}

#[test]
fn a_line_of_fewer_fields_is_no_record() {
    assert_eq!(line(""), None);
    assert_eq!(line("main"), None);
    assert_eq!(line("main|2|1|vim|1700000000"), None);
    assert_eq!(line("||||"), None);
    assert_eq!(line("|||||"), Some(record("", "", "", "", 0, false)));
}

#[test]
fn short_lines_are_skipped() {
    let panes = parse_panes("a|0|0|one|5|0\nbroken line\n\nb|0|1|two|6|1\na|b|c|d|e\n");
    assert_eq!(panes, vec![record("a", "0", "0", "one", 5, false), record("b", "0", "1", "two", 6, true)]);
}

#[test]
fn an_unreadable_time_counts_as_zero() {
    assert_eq!(line("s|0|0|t|never|0"), Some(record("s", "0", "0", "t", 0, false)));
    assert_eq!(line("s|0|0|t||0"), Some(record("s", "0", "0", "t", 0, false)));
    assert_eq!(line("s|0|0|t|-3|0"), Some(record("s", "0", "0", "t", 0, false)));
    assert_eq!(line("s|0|0|t|18446744073709551616|0"), Some(record("s", "0", "0", "t", 0, false)));
    assert_eq!(line("s|0|0|t| 7|0"), Some(record("s", "0", "0", "t", 0, false)));
    assert_eq!(line("s|0|0|t|+7|0"), Some(record("s", "0", "0", "t", 7, false)));
}

#[test]
fn only_the_field_one_marks_an_active_pane() {
    assert!(line("s|0|0|t|1|1").unwrap().is_active());
    assert!(!line("s|0|0|t|1|0").unwrap().is_active());
    assert!(!line("s|0|0|t|1|").unwrap().is_active());
    assert!(!line("s|0|0|t|1|11").unwrap().is_active());
    assert!(!line("s|0|0|t|1|yes").unwrap().is_active());
    assert!(!line("s|0|0|t|1|1 ").unwrap().is_active());
}

#[test]
fn fields_after_the_sixth_are_not_looked_at() {
    assert_eq!(line("s|0|0|t|9|1|more|fields"), Some(record("s", "0", "0", "t", 9, true)));
    // A title with a separator in it moves the fields that follow.
    assert_eq!(line("s|0|0|a|b|9|1"), Some(record("s", "0", "0", "a", 0, false)));
}

#[test]
fn records_come_in_the_order_of_the_lines() {
    let panes = parse_panes("z|9|9|last|1|0\r\na|0|0|first|2|0\nm|5|5|middle|3|1");
    assert_eq!(
        panes,
        vec![
            record("z", "9", "9", "last", 1, false),
            record("a", "0", "0", "first", 2, false),
            record("m", "5", "5", "middle", 3, true),
        ]
    );
    assert_eq!(parse_panes(""), Vec::<TmuxPane>::new());
    assert_eq!(parse_panes("\n\n"), Vec::<TmuxPane>::new());
}

#[test]
fn a_listing_is_read_from_what_tmux_printed() {
    let panes = get_tmux_panes(printed("work|1|0|títle ↑|12|1\nwork|1|1|bash|11|0\n")).unwrap();
    assert_eq!(panes.len(), 2);
    assert_eq!(panes[0], record("work", "1", "0", "títle ↑", 12, true));
    assert_eq!(panes[0].display_name(), "work:1.0 - títle ↑");
    assert_eq!(panes[1].full_id(), "work:1.1");
    assert_eq!(get_tmux_panes(printed("")), Ok(Vec::new()));
}

#[test]
fn a_run_that_failed_gives_no_listing() {
    assert_eq!(get_tmux_panes(ProcessOutput::NotStarted), Err(FetchError::NotStarted));
    let failed = ProcessOutput::Exited { success: false, stdout: b"a|0|0|one|5|0\n".to_vec() };
    assert_eq!(get_tmux_panes(failed), Err(FetchError::Failed));
    // The exit status is looked at before the bytes.
    let failed = ProcessOutput::Exited { success: false, stdout: vec![0xff] };
    assert_eq!(get_tmux_panes(failed), Err(FetchError::Failed));
}

#[test]
fn bytes_that_are_no_text_give_no_listing() {
    for bytes in [
        vec![0xff],
        vec![b'a', b'|', 0x80],
        vec![0xc0, 0x80],
        vec![0xed, 0xa0, 0x80],
        vec![0xe2, 0x86],
        vec![0xf4, 0x90, 0x80, 0x80],
    ] {
        let output = ProcessOutput::Exited { success: true, stdout: bytes };
        assert_eq!(get_tmux_panes(output.clone()), Err(FetchError::NotText));
        assert_eq!(get_current_pane_id(output.clone()), Err(FetchError::NotText));
        assert_eq!(read_output(output), Err(FetchError::NotText));
    }
}

#[test]
fn text_is_decoded_from_utf8() {
    assert_eq!(read_output(printed("plain")), Ok("plain".to_string()));
    assert_eq!(read_output(printed("")), Ok(String::new()));
    let bytes = vec![0x61, 0xc3, 0xa9, 0xe2, 0x86, 0x91, 0xf0, 0x9f, 0x98, 0x80];
    let output = ProcessOutput::Exited { success: true, stdout: bytes };
    assert_eq!(read_output(output), Ok("aé↑😀".to_string()));
}

#[test]
fn the_current_pane_is_what_tmux_printed_trimmed() {
    assert_eq!(get_current_pane_id(printed("main:2.1\n")), Ok("main:2.1".to_string()));
    assert_eq!(get_current_pane_id(printed("  main:2.1 \r\n")), Ok("main:2.1".to_string()));
    assert_eq!(get_current_pane_id(printed("my session:0.0\n")), Ok("my session:0.0".to_string()));
    assert_eq!(get_current_pane_id(printed("")), Ok(String::new()));
    assert_eq!(get_current_pane_id(ProcessOutput::NotStarted), Err(FetchError::NotStarted));
    let failed = ProcessOutput::Exited { success: false, stdout: b"main:2.1\n".to_vec() };
    assert_eq!(get_current_pane_id(failed), Err(FetchError::Failed));
}

#[test]
fn the_formats_name_the_fields_in_order() {
    let fields: Vec<&str> = LIST_PANES_FORMAT.split('|').collect();
    assert_eq!(
        fields,
        vec![
            "#{session_name}",
            "#{window_index}",
            "#{pane_index}",
            "#{pane_title}",
            "#{t:last-used}",
            "#{pane_active}",
        ]
    );
    assert_eq!(CURRENT_PANE_FORMAT, "#{session_name}:#{window_index}.#{pane_index}");
}

#[test]
fn a_copy_of_a_record_is_the_record() {
    let pane = record("main", "2", "1", "vim", 17, true);
    let copy = pane.clone();
    assert_eq!(copy, pane);
    assert_eq!(copy.full_id(), "main:2.1");
}
