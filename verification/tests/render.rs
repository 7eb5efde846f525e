use tmux_selector::pane::TmuxPane;
use tmux_selector::render::{display_panes, Color, DrawOp, HINT, TITLE};

fn pane(session: &str, title: &str) -> TmuxPane {
    TmuxPane::new(
        session.to_string(),
        "1".to_string(),
        "2".to_string(),
        title.to_string(),
        0,
        false,
    )
}

fn print(text: &str) -> DrawOp {
    DrawOp::Print(text.to_string())
}

fn header() -> Vec<DrawOp> {
    vec![
        DrawOp::ClearAll,
        DrawOp::MoveTo { column: 0, row: 0 },
        DrawOp::Foreground(Color::Yellow),
        print("Select target tmux pane:\n"),
        DrawOp::ResetColor,
        DrawOp::Foreground(Color::DarkGrey),
        print("Use ↑↓/WS/KJ to navigate, Enter to select, q to cancel\n\n"),
        DrawOp::ResetColor,
    ]
}

#[test]
fn a_frame_marks_the_pane_under_the_cursor() {
    let panes = vec![pane("a", "vim"), pane("b", "bash"), pane("c", "top")];
    let mut expected = header();
    expected.extend(vec![
        DrawOp::MoveTo { column: 0, row: 3 },
        print("    a:1.2 - vim"),
        print("\n"),
        DrawOp::Foreground(Color::Black),
        DrawOp::MoveTo { column: 0, row: 4 },
        DrawOp::PrintHighlighted("  > b:1.2 - bash".to_string()),
        DrawOp::ResetColor,
        print("\n"),
        DrawOp::MoveTo { column: 0, row: 5 },
        print("    c:1.2 - top"),
        print("\n"),
        DrawOp::Flush,
    ]);
    assert_eq!(display_panes(&panes, 1), expected);
}

#[test]
fn a_frame_of_no_panes_is_the_header() {
    let mut expected = header();
    expected.push(DrawOp::Flush);
    assert_eq!(display_panes(&[], 0), expected);
    assert_eq!(TITLE, "Select target tmux pane:\n");
    assert_eq!(HINT.lines().count(), 2);
}

#[test]
fn a_cursor_beyond_the_list_marks_nothing() {
    let panes = vec![pane("a", "vim"), pane("b", "bash")];
    let ops = display_panes(&panes, 2);
    assert_eq!(ops.len(), 9 + 3 * 2);
    assert!(ops.iter().all(|op| !matches!(op, DrawOp::PrintHighlighted(_))));
}

#[test]
fn every_frame_highlights_one_line() {
    let panes = vec![pane("a", "vim"), pane("b", "bash"), pane("c", "top"), pane("d", "")];
    for cursor in 0..panes.len() {
        let ops = display_panes(&panes, cursor);
        assert_eq!(ops.len(), 9 + 3 * panes.len() + 2);
        assert_eq!(ops[0], DrawOp::ClearAll);
        assert_eq!(ops[ops.len() - 1], DrawOp::Flush);
        let marked: Vec<&DrawOp> =
            ops.iter().filter(|op| matches!(op, DrawOp::PrintHighlighted(_))).collect();
        let label = format!("  > {}", panes[cursor].display_name());
        assert_eq!(marked, vec![&DrawOp::PrintHighlighted(label)]);
        let row = (cursor + 3) as u16;
        assert!(ops.contains(&DrawOp::MoveTo { column: 0, row }));
    }
}

#[test]
fn rows_are_counted_in_sixteen_bits() {
    let panes: Vec<TmuxPane> = (0..65_540).map(|_| pane("s", "t")).collect();
    let ops = display_panes(&panes, 70_000);
    // Three steps for each pane after the eight of the header.
    assert_eq!(ops[8 + 3 * 65_532], DrawOp::MoveTo { column: 0, row: 65_535 });
    assert_eq!(ops[8 + 3 * 65_533], DrawOp::MoveTo { column: 0, row: 0 });
    assert_eq!(ops[8 + 3 * 65_539], DrawOp::MoveTo { column: 0, row: 6 });
}
