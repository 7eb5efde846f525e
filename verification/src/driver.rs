//! The decisions of the program around the picker: which errors end it and
//! with what words and status, how a pane is picked without asking, and what
//! is printed for the pane picked.

use crate::fetch::{
    current_pane_id, get_current_pane_id, get_tmux_panes, listed_panes, FetchError, ProcessOutput,
};
use crate::pane::{pane_views, PaneView, TmuxPane};
use crate::resolve::{find_most_recent_pane, most_recent};
use crate::selector::{Failure, Outcome, OutcomeView};
use vstd::prelude::*;

verus! {

/// The name of the output format that prints the whole record.
pub const JSON_FORMAT: &'static str = "json";

/// The exit status of a run that printed a pane.
pub const EXIT_SUCCESS: i32 = 0;

/// The exit status of every other run.
pub const EXIT_FAILURE: i32 = 1;

pub const NOT_IN_SESSION_MESSAGE: &'static str = "Error: Not running in tmux";

pub const NO_PANES_MESSAGE: &'static str = "No tmux panes found";

pub const NO_CANDIDATE_MESSAGE: &'static str = "No suitable pane found for auto-selection";

pub const CANCELLED_MESSAGE: &'static str = "Pane selection cancelled";

pub const LISTING_FAILED_MESSAGE: &'static str = "Failed to get tmux panes";

pub const LOOKUP_FAILED_MESSAGE: &'static str = "Failed to get current pane ID";

pub const TERMINAL_FAILED_MESSAGE: &'static str = "Failed to drive the terminal";

/// Why a run ends without a pane.
#[derive(Clone, Copy, Debug, PartialEq, Eq, Structural)]
pub enum SelectorError {
    /// The program does not run inside a tmux session.
    NotInSession,
    /// The panes could not be listed.
    Listing(FetchError),
    /// The caller's own pane could not be found out.
    Lookup(FetchError),
    /// tmux listed no pane.
    NoPanes,
    /// There is no pane but the caller's own.
    NoCandidate,
    /// The user left the picker without a pane.
    Cancelled,
    /// The terminal could not be driven.
    Terminal(Failure),
}

impl SelectorError {
    /// The words that tell the user of this error.
    pub open spec fn message_text(self) -> Seq<char> {
        match self {
            SelectorError::NotInSession => NOT_IN_SESSION_MESSAGE@,
            SelectorError::Listing(_) => LISTING_FAILED_MESSAGE@,
            SelectorError::Lookup(_) => LOOKUP_FAILED_MESSAGE@,
            SelectorError::NoPanes => NO_PANES_MESSAGE@,
            SelectorError::NoCandidate => NO_CANDIDATE_MESSAGE@,
            SelectorError::Cancelled => CANCELLED_MESSAGE@,
            SelectorError::Terminal(_) => TERMINAL_FAILED_MESSAGE@,
        }
    }

    /// The words that tell the user of this error.
    pub fn message(&self) -> (text: &'static str)
        ensures
            text@ == self.message_text(),
    {
        match self {
            SelectorError::NotInSession => NOT_IN_SESSION_MESSAGE,
            SelectorError::Listing(_) => LISTING_FAILED_MESSAGE,
            SelectorError::Lookup(_) => LOOKUP_FAILED_MESSAGE,
            SelectorError::NoPanes => NO_PANES_MESSAGE,
            SelectorError::NoCandidate => NO_CANDIDATE_MESSAGE,
            SelectorError::Cancelled => CANCELLED_MESSAGE,
            SelectorError::Terminal(_) => TERMINAL_FAILED_MESSAGE,
        }
    }
}

/// The exit status of a run: success where a pane was picked, failure for
/// every error.
pub fn exit_code(picked: &Result<String, SelectorError>) -> (status: i32)
    ensures
        status == if picked is Ok {
            EXIT_SUCCESS
        } else {
            EXIT_FAILURE
        },
{
    match picked {
        Ok(_) => EXIT_SUCCESS,
        Err(_) => EXIT_FAILURE,
    }
}

/// The panes to pick from, going by whether the program runs inside a tmux
/// session and by what listing the panes gave.
pub open spec fn usable_panes(in_session: bool, listing: ProcessOutput) -> Result<
    Seq<PaneView>,
    SelectorError,
> {
    if !in_session {
        Err(SelectorError::NotInSession)
    } else {
        match listed_panes(listing) {
            Err(e) => Err(SelectorError::Listing(e)),
            Ok(panes) => if panes.len() == 0 {
                Err(SelectorError::NoPanes)
            } else {
                Ok(panes)
            },
        }
    }
}

/// The panes to pick from: those that tmux listed, if the program runs
/// inside a session and there is at least one.
pub fn fetch_panes(in_session: bool, listing: ProcessOutput) -> (panes: Result<
    Vec<TmuxPane>,
    SelectorError,
>)
    ensures
        match panes {
            Ok(ps) => usable_panes(in_session, listing) == Ok::<Seq<PaneView>, SelectorError>(
                pane_views(ps@),
            ),
            Err(e) => usable_panes(in_session, listing) == Err::<Seq<PaneView>, SelectorError>(e),
        },
{
    if !in_session {
        return Err(SelectorError::NotInSession);
    }
    match get_tmux_panes(listing) {
        Err(e) => Err(SelectorError::Listing(e)),
        Ok(panes) => {
            if panes.len() == 0 {
                Err(SelectorError::NoPanes)
            } else {
                Ok(panes)
            }
        },
    }
}

/// The identifier of the pane picked without asking: the one used most
/// recently, the caller's own apart.
pub open spec fn auto_selected(panes: Seq<PaneView>, lookup: ProcessOutput) -> Result<
    Seq<char>,
    SelectorError,
> {
    match current_pane_id(lookup) {
        Err(e) => Err(SelectorError::Lookup(e)),
        Ok(current) => match most_recent(panes, current) {
            Some(i) => Ok(panes[i].full_id()),
            None => Err(SelectorError::NoCandidate),
        },
    }
}

/// Picks a pane without asking.
pub fn auto_select(panes: &[TmuxPane], lookup: ProcessOutput) -> (picked: Result<
    String,
    SelectorError,
>)
    ensures
        match picked {
            Ok(id) => auto_selected(pane_views(panes@), lookup) == Ok::<Seq<char>, SelectorError>(
                id@,
            ),
            Err(e) => auto_selected(pane_views(panes@), lookup) == Err::<Seq<char>, SelectorError>(
                e,
            ),
        },
{
    match get_current_pane_id(lookup) {
        Err(e) => Err(SelectorError::Lookup(e)),
        Ok(current) => match find_most_recent_pane(panes, current.as_str()) {
            Some(i) => {
                assert(pane_views(panes@)[i as int] == panes@[i as int]@);
                Ok(panes[i].full_id().to_owned())
            },
            None => Err(SelectorError::NoCandidate),
        },
    }
}

/// What a picking that is over comes to: the pane taken, or the error that
/// ends the run. An empty list counts as a picking that was left.
pub open spec fn picked_of(outcome: OutcomeView) -> Result<Seq<char>, SelectorError> {
    match outcome {
        OutcomeView::Confirmed(id) => Ok(id),
        OutcomeView::Cancelled | OutcomeView::Empty => Err(SelectorError::Cancelled),
        OutcomeView::Failed(Failure::Lookup(e)) => Err(SelectorError::Lookup(e)),
        OutcomeView::Failed(failure) => Err(SelectorError::Terminal(failure)),
    }
}

/// What a picking that is over comes to.
pub fn interactive_result(outcome: Outcome) -> (picked: Result<String, SelectorError>)
    ensures
        match picked {
            Ok(id) => picked_of(outcome@) == Ok::<Seq<char>, SelectorError>(id@),
            Err(e) => picked_of(outcome@) == Err::<Seq<char>, SelectorError>(e),
        },
{
    match outcome {
        Outcome::Confirmed(id) => Ok(id),
        Outcome::Cancelled => Err(SelectorError::Cancelled),
        Outcome::Empty => Err(SelectorError::Cancelled),
        Outcome::Failed(Failure::Lookup(e)) => Err(SelectorError::Lookup(e)),
        Outcome::Failed(failure) => Err(SelectorError::Terminal(failure)),
    }
}

/// The first pane with the identifier `id`, if there is one.
pub open spec fn position_of(panes: Seq<PaneView>, id: Seq<char>) -> Option<int>
    decreases panes.len(),
{
    if panes.len() == 0 {
        None
    } else {
        match position_of(panes.drop_last(), id) {
            Some(i) => Some(i),
            None => if panes.last().full_id() == id {
                Some(panes.len() - 1)
            } else {
                None
            },
        }
    }
}

/// No two panes of the list have the same identifier.
pub open spec fn distinct_ids(panes: Seq<PaneView>) -> bool {
    forall|i: int, j: int|
        0 <= i < j < panes.len() ==> panes[i].full_id() != panes[j].full_id()
}

/// The position found is the first with the identifier, and none is found
/// exactly when no pane has it.
pub proof fn position_of_is_first(panes: Seq<PaneView>, id: Seq<char>)
    ensures
        match position_of(panes, id) {
            Some(i) => 0 <= i < panes.len() && panes[i].full_id() == id && forall|k: int|
                0 <= k < i ==> panes[k].full_id() != id,
            None => forall|k: int| 0 <= k < panes.len() ==> panes[k].full_id() != id,
        },
    decreases panes.len(),
{
    if panes.len() > 0 {
        let front = panes.drop_last();
        position_of_is_first(front, id);
        assert(forall|k: int| 0 <= k < front.len() ==> front[k] == panes[k]);
    }
}

/// Where the identifiers of a list are distinct, looking up the identifier
/// of one of its panes finds that pane.
pub proof fn position_of_own_id(panes: Seq<PaneView>, i: int)
    requires
        distinct_ids(panes),
        0 <= i < panes.len(),
    ensures
        position_of(panes, panes[i].full_id()) == Some(i),
{
    position_of_is_first(panes, panes[i].full_id());
}

/// The index of the first pane with the identifier `id`.
pub fn find_pane(panes: &[TmuxPane], id: &str) -> (found: Option<usize>)
    ensures
        match found {
            Some(i) => position_of(pane_views(panes@), id@) == Some(i as int) && i < panes.len(),
            None => position_of(pane_views(panes@), id@) is None,
        },
{
    let ghost views = pane_views(panes@);
    let mut index: usize = 0;
    while index < panes.len()
        invariant
            index <= panes.len(),
            views == pane_views(panes@),
            position_of(views.take(index as int), id@) is None,
        decreases panes.len() - index,
    {
        proof {
            assert(views.take(index + 1).drop_last() =~= views.take(index as int));
            assert(views.take(index + 1).last() == panes@[index as int]@);
        }
        if *panes[index].full_id() == *id {
            proof {
                lemma_position_of_extends(views, id@, index + 1);
            }
            return Some(index);
        }
        index += 1;
    }
    assert(views.take(index as int) =~= views);
    None
}

/// A position found in a front part of the list is the position in the
/// whole list.
proof fn lemma_position_of_extends(panes: Seq<PaneView>, id: Seq<char>, n: int)
    requires
        0 <= n <= panes.len(),
        position_of(panes.take(n), id) is Some,
    ensures
        position_of(panes, id) == position_of(panes.take(n), id),
    decreases panes.len(),
{
    if n < panes.len() {
        assert(panes.drop_last().take(n) =~= panes.take(n));
        lemma_position_of_extends(panes.drop_last(), id, n);
    } else {
        assert(panes.take(n) =~= panes);
    }
}

/// How the pane picked is printed.
#[derive(Clone, Copy, Debug, PartialEq, Eq, Structural)]
pub enum OutputFormat {
    /// The identifier alone.
    Plain,
    /// The whole record, as a JSON object.
    Json,
}

/// The format that an option value names: `json` names the record, and
/// every other value the identifier.
pub fn output_format(name: &str) -> (format: OutputFormat)
    ensures
        format == if name@ == JSON_FORMAT@ {
            OutputFormat::Json
        } else {
            OutputFormat::Plain
        },
{
    if *name == *JSON_FORMAT {
        OutputFormat::Json
    } else {
        OutputFormat::Plain
    }
}

/// What is printed for the pane picked.
#[derive(Clone, Debug, PartialEq, Eq)]
pub enum Selection {
    /// The identifier, on a line of its own.
    Identifier(String),
    /// The record, as one line of JSON.
    Record(TmuxPane),
}

/// What is printed for the pane picked, as mathematical values.
pub enum SelectionView {
    Identifier(Seq<char>),
    Record(PaneView),
}

impl View for Selection {
    type V = SelectionView;

    open spec fn view(&self) -> SelectionView {
        match self {
            Selection::Identifier(id) => SelectionView::Identifier(id@),
            Selection::Record(pane) => SelectionView::Record(pane@),
        }
    }
}

/// What is printed for the pane with the identifier `id`: the identifier
/// itself, or in the JSON format the first record that has it. Nothing can
/// be printed in the JSON format for an identifier that no pane has.
pub open spec fn selection_of(panes: Seq<PaneView>, id: Seq<char>, format: OutputFormat) -> Option<
    SelectionView,
> {
    match format {
        OutputFormat::Plain => Some(SelectionView::Identifier(id)),
        OutputFormat::Json => match position_of(panes, id) {
            Some(i) => Some(SelectionView::Record(panes[i])),
            None => None,
        },
    }
}

/// What is printed for the pane with the identifier `id`.
pub fn select_output(panes: &[TmuxPane], id: &str, format: OutputFormat) -> (selection: Option<
    Selection,
>)
    ensures
        match selection {
            Some(s) => selection_of(pane_views(panes@), id@, format) == Some(s@),
            None => selection_of(pane_views(panes@), id@, format) is None,
        },
{
    match format {
        OutputFormat::Plain => Some(Selection::Identifier(id.to_owned())),
        OutputFormat::Json => match find_pane(panes, id) {
            Some(i) => {
                assert(pane_views(panes@)[i as int] == panes@[i as int]@);
                Some(Selection::Record(panes[i].clone()))
            },
            None => None,
        },
    }
}

} // verus!
