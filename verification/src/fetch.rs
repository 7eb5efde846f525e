//! Reading what tmux prints: the listing of all panes, one line each, and the
//! identifier of the pane the caller runs in.

use crate::pane::{pane_views, PaneView, TmuxPane};
use crate::text::{
    chars_of, contents, lines, lines_of, parse_decimal, parse_u64, split, split_at_char,
    string_of, trim, trim_chars,
};
use vstd::prelude::*;
use vstd::utf8::{decode_utf8, valid_utf8};

verus! {

/// The program to run.
pub const TMUX: &'static str = "tmux";

/// The format that `tmux list-panes -a -F` is given: six fields, cut by `|`.
pub const LIST_PANES_FORMAT: &'static str =
    "#{session_name}|#{window_index}|#{pane_index}|#{pane_title}|#{t:last-used}|#{pane_active}";

/// The format that `tmux display-message -p` is given.
pub const CURRENT_PANE_FORMAT: &'static str = "#{session_name}:#{window_index}.#{pane_index}";

/// The character between the fields of a line of the listing.
pub const FIELD_SEPARATOR: char = '|';

/// The number of fields that a line of the listing must at least have.
pub const FIELD_COUNT: usize = 6;

/// How a run of tmux ended.
#[derive(Clone, Debug, PartialEq, Eq)]
pub enum ProcessOutput {
    /// tmux could not be started.
    NotStarted,
    /// tmux ran and exited, with or without success, having printed `stdout`.
    Exited { success: bool, stdout: Vec<u8> },
}

/// Why nothing could be read from a run of tmux.
#[derive(Clone, Copy, Debug, PartialEq, Eq, Structural)]
pub enum FetchError {
    /// tmux could not be started.
    NotStarted,
    /// tmux exited with a status other than success.
    Failed,
    /// What tmux printed is not UTF-8.
    NotText,
}

/// The text that a run of tmux printed, or why there is none.
pub open spec fn output_text(output: ProcessOutput) -> Result<Seq<char>, FetchError> {
    match output {
        ProcessOutput::NotStarted => Err(FetchError::NotStarted),
        ProcessOutput::Exited { success, stdout } => if !success {
            Err(FetchError::Failed)
        } else if !valid_utf8(stdout@) {
            Err(FetchError::NotText)
        } else {
            Ok(decode_utf8(stdout@))
        },
    }
}

/// The record that one line of the listing stands for. A line with fewer than
/// six fields stands for none. A time of last use that is no number counts as
/// 0, and a pane is active when its last field is `1`; fields after the sixth
/// are not looked at.
pub open spec fn parse_line(line: Seq<char>) -> Option<PaneView> {
    let fields = split(line, FIELD_SEPARATOR);
    if fields.len() >= FIELD_COUNT {
        Some(
            PaneView {
                session_name: fields[0],
                window_index: fields[1],
                pane_index: fields[2],
                pane_title: fields[3],
                last_used: match parse_u64(fields[4]) {
                    Some(t) => t,
                    None => 0,
                },
                is_active: fields[5] == seq!['1'],
            },
        )
    } else {
        None
    }
}

/// The records of a list of lines, in the order of the lines.
pub open spec fn parse_lines(ls: Seq<Seq<char>>) -> Seq<PaneView>
    decreases ls.len(),
{
    if ls.len() == 0 {
        Seq::<PaneView>::empty()
    } else {
        let before = parse_lines(ls.drop_last());
        match parse_line(ls.last()) {
            Some(pane) => before.push(pane),
            None => before,
        }
    }
}

/// The records of a listing.
pub open spec fn parse_listing(text: Seq<char>) -> Seq<PaneView> {
    parse_lines(lines(text))
}

/// The panes that a run of `tmux list-panes` reported, or why there are none.
pub open spec fn listed_panes(output: ProcessOutput) -> Result<Seq<PaneView>, FetchError> {
    match output_text(output) {
        Ok(text) => Ok(parse_listing(text)),
        Err(e) => Err(e),
    }
}

/// The identifier that a run of `tmux display-message` reported, or why there
/// is none: what was printed, without the white space around it.
pub open spec fn current_pane_id(output: ProcessOutput) -> Result<Seq<char>, FetchError> {
    match output_text(output) {
        Ok(text) => Ok(trim(text)),
        Err(e) => Err(e),
    }
}

/// The records of two lists of lines, one after the other, are the records
/// of the first list followed by those of the second.
pub proof fn parse_lines_of_both(first: Seq<Seq<char>>, second: Seq<Seq<char>>)
    ensures
        parse_lines(first + second) == parse_lines(first) + parse_lines(second),
    decreases second.len(),
{
    if second.len() == 0 {
        assert(first + second =~= first);
        assert(parse_lines(first) + parse_lines(second) =~= parse_lines(first));
    } else {
        parse_lines_of_both(first, second.drop_last());
        assert((first + second).drop_last() =~= first + second.drop_last());
        assert((first + second).last() == second.last());
        match parse_line(second.last()) {
            Some(pane) => {
                assert(parse_lines(first + second) =~= parse_lines(first) + parse_lines(second));
            },
            None => {},
        }
    }
}

/// A line with fewer than six fields adds no record, wherever it stands in
/// the listing.
pub proof fn short_line_adds_no_record(
    above: Seq<Seq<char>>,
    line: Seq<char>,
    below: Seq<Seq<char>>,
)
    requires
        split(line, FIELD_SEPARATOR).len() < FIELD_COUNT,
    ensures
        parse_line(line) is None,
        parse_lines(above + seq![line] + below) == parse_lines(above + below),
{
    parse_lines_of_both(above + seq![line], below);
    parse_lines_of_both(above, seq![line]);
    parse_lines_of_both(above, below);
    assert(seq![line].drop_last() =~= Seq::<Seq<char>>::empty());
    assert(parse_lines(seq![line]) =~= Seq::<PaneView>::empty()) by {
        reveal_with_fuel(parse_lines, 2);
    }
    assert(parse_lines(above) + Seq::<PaneView>::empty() =~= parse_lines(above));
}

/// A line with six fields or more stands for a record, and where its field
/// for the time of last use is no number that a `u64` holds, the record's
/// time is 0.
pub proof fn unreadable_time_counts_as_zero(line: Seq<char>)
    requires
        split(line, FIELD_SEPARATOR).len() >= FIELD_COUNT,
    ensures
        parse_line(line) is Some,
        parse_u64(split(line, FIELD_SEPARATOR)[4]) is None ==> parse_line(line)->0.last_used == 0,
        parse_u64(split(line, FIELD_SEPARATOR)[4]) matches Some(t) ==> parse_line(
            line,
        )->0.last_used == t,
{
}

/// `String::from_utf8` turns bytes into a string exactly when they are
/// well-formed UTF-8, and the string then holds the characters they encode.
#[verifier::external_body]
fn string_from_utf8(bytes: Vec<u8>) -> (text: Option<String>)
    ensures
        text is Some <==> valid_utf8(bytes@),
        text matches Some(t) ==> t@ == decode_utf8(bytes@),
{
    match String::from_utf8(bytes) {
        Ok(text) => Some(text),
        Err(_) => None,
    }
}

/// The text that a run of tmux printed.
pub fn read_output(output: ProcessOutput) -> (text: Result<String, FetchError>)
    ensures
        match text {
            Ok(t) => output_text(output) == Ok::<Seq<char>, FetchError>(t@),
            Err(e) => output_text(output) == Err::<Seq<char>, FetchError>(e),
        },
{
    match output {
        ProcessOutput::NotStarted => Err(FetchError::NotStarted),
        ProcessOutput::Exited { success, stdout } => {
            if !success {
                Err(FetchError::Failed)
            } else {
                match string_from_utf8(stdout) {
                    Some(text) => Ok(text),
                    None => Err(FetchError::NotText),
                }
            }
        },
    }
}

/// The record that one line of the listing stands for, if it stands for one.
pub fn parse_pane_line(line: &[char]) -> (pane: Option<TmuxPane>)
    ensures
        match pane {
            Some(p) => parse_line(line@) == Some(p@),
            None => parse_line(line@) is None,
        },
{
    let fields = split_at_char(line, FIELD_SEPARATOR);
    if fields.len() >= FIELD_COUNT {
        let ghost all = contents(fields@);
        assert(forall|k: int| 0 <= k < fields.len() ==> all[k] == (#[trigger] fields@[k])@);
        let last_used = match parse_decimal(fields[4]) {
            Some(t) => t,
            None => 0,
        };
        let is_active = fields[5].len() == 1 && fields[5][0] == '1';
        assert(is_active == (all[5] =~= seq!['1']));
        Some(
            TmuxPane::new(
                string_of(fields[0]),
                string_of(fields[1]),
                string_of(fields[2]),
                string_of(fields[3]),
                last_used,
                is_active,
            ),
        )
    } else {
        None
    }
}

/// The records of a listing, in the order of its lines.
pub fn parse_panes(text: &str) -> (panes: Vec<TmuxPane>)
    ensures
        pane_views(panes@) == parse_listing(text@),
{
    let chars = chars_of(text);
    let ls = lines_of(chars.as_slice());
    let ghost all = contents(ls@);
    let mut panes: Vec<TmuxPane> = Vec::new();
    let mut k: usize = 0;
    assert(all.take(0) =~= Seq::<Seq<char>>::empty());
    assert(pane_views(panes@) =~= Seq::<PaneView>::empty());
    while k < ls.len()
        invariant
            k <= ls.len(),
            all == contents(ls@),
            pane_views(panes@) == parse_lines(all.take(k as int)),
        decreases ls.len() - k,
    {
        assert(all.take(k + 1).drop_last() =~= all.take(k as int));
        assert(all.take(k + 1).last() == ls@[k as int]@);
        let ghost before = pane_views(panes@);
        match parse_pane_line(ls[k]) {
            Some(pane) => {
                panes.push(pane);
                assert(pane_views(panes@) =~= before.push(pane@));
            },
            None => {},
        }
        k += 1;
    }
    assert(all.take(k as int) =~= all);
    panes
}

/// The panes of all sessions, as a run of `tmux list-panes -a` with the
/// format `LIST_PANES_FORMAT` reported them.
pub fn get_tmux_panes(output: ProcessOutput) -> (panes: Result<Vec<TmuxPane>, FetchError>)
    ensures
        match panes {
            Ok(ps) => listed_panes(output) == Ok::<Seq<PaneView>, FetchError>(pane_views(ps@)),
            Err(e) => listed_panes(output) == Err::<Seq<PaneView>, FetchError>(e),
        },
{
    match read_output(output) {
        Ok(text) => Ok(parse_panes(text.as_str())),
        Err(e) => Err(e),
    }
}

/// The identifier of the caller's own pane, as a run of
/// `tmux display-message -p` with the format `CURRENT_PANE_FORMAT` reported it.
pub fn get_current_pane_id(output: ProcessOutput) -> (id: Result<String, FetchError>)
    ensures
        match id {
            Ok(s) => current_pane_id(output) == Ok::<Seq<char>, FetchError>(s@),
            Err(e) => current_pane_id(output) == Err::<Seq<char>, FetchError>(e),
        },
{
    match read_output(output) {
        Ok(text) => {
            let chars = chars_of(text.as_str());
            Ok(string_of(trim_chars(chars.as_slice())))
        },
        Err(e) => Err(e),
    }
}

} // verus!
