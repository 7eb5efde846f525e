//! The interactive picker as a machine. It never touches the terminal or
//! tmux: it is told what happened, and answers with what to do next. The
//! program around it carries each action out and reports back.

use crate::fetch::{current_pane_id, get_current_pane_id, FetchError, ProcessOutput};
use crate::keys::{classify, command_of, Command, KeyPress};
use crate::pane::{pane_views, PaneView, TmuxPane};
use crate::resolve::{find_most_recent_pane, most_recent, most_recent_excludes_current};
use vstd::prelude::*;

verus! {

/// The position one up the list from `cursor`, the last position from the
/// first.
pub open spec fn earlier(cursor: int, count: int) -> int {
    if cursor > 0 {
        cursor - 1
    } else {
        count - 1
    }
}

/// The position one down the list from `cursor`, the first position from the
/// last.
pub open spec fn later(cursor: int, count: int) -> int {
    if cursor < count - 1 {
        cursor + 1
    } else {
        0
    }
}

/// The position one up a list of `count` panes from `cursor`.
pub fn move_earlier(cursor: usize, count: usize) -> (moved: usize)
    requires
        cursor < count,
    ensures
        moved == earlier(cursor as int, count as int),
        moved < count,
{
    if cursor > 0 {
        cursor - 1
    } else {
        count - 1
    }
}

/// The position one down a list of `count` panes from `cursor`.
pub fn move_later(cursor: usize, count: usize) -> (moved: usize)
    requires
        cursor < count,
    ensures
        moved == later(cursor as int, count as int),
        moved < count,
{
    if cursor < count - 1 {
        cursor + 1
    } else {
        0
    }
}

/// Moving stays within the list and goes round it: one step up from the
/// first pane is the last pane, one step down from the last is the first,
/// and a step up and a step down undo each other.
pub proof fn moves_go_round(cursor: int, count: int)
    requires
        0 <= cursor < count,
    ensures
        0 <= earlier(cursor, count) < count,
        0 <= later(cursor, count) < count,
        earlier(0, count) == count - 1,
        later(count - 1, count) == 0,
        later(earlier(cursor, count), count) == cursor,
        earlier(later(cursor, count), count) == cursor,
        earlier(cursor, count) == (cursor + count - 1) % count,
        later(cursor, count) == (cursor + 1) % count,
{
    assert((cursor + count - 1) % count == earlier(cursor, count)) by (nonlinear_arith)
        requires
            0 <= cursor < count,
            earlier(cursor, count) == if cursor > 0 {
                cursor - 1
            } else {
                count - 1
            },
    ;
    assert((cursor + 1) % count == later(cursor, count)) by (nonlinear_arith)
        requires
            0 <= cursor < count,
            later(cursor, count) == if cursor < count - 1 {
                cursor + 1
            } else {
                0
            },
    ;
}

/// What went wrong in a picking that failed.
#[derive(Clone, Copy, Debug, PartialEq, Eq, Structural)]
pub enum Failure {
    /// The caller's own pane could not be found out.
    Lookup(FetchError),
    /// The terminal could not be put in raw mode.
    RawMode,
    /// The list could not be drawn.
    Draw,
    /// No key could be read.
    Read,
    /// The terminal could not be put back in order.
    Restore,
}

/// How a picking ended.
#[derive(Clone, Debug, PartialEq, Eq)]
pub enum Outcome {
    /// The pane with this identifier was taken.
    Confirmed(String),
    /// The user left without a pane.
    Cancelled,
    /// There was no pane to pick from.
    Empty,
    /// Something went wrong.
    Failed(Failure),
}

/// How a picking ended, as mathematical values.
pub enum OutcomeView {
    Confirmed(Seq<char>),
    Cancelled,
    Empty,
    Failed(Failure),
}

impl View for Outcome {
    type V = OutcomeView;

    open spec fn view(&self) -> OutcomeView {
        match self {
            Outcome::Confirmed(id) => OutcomeView::Confirmed(id@),
            Outcome::Cancelled => OutcomeView::Cancelled,
            Outcome::Empty => OutcomeView::Empty,
            Outcome::Failed(failure) => OutcomeView::Failed(*failure),
        }
    }
}

/// What the picker is told.
#[derive(Clone, Debug, PartialEq, Eq)]
pub enum Event {
    /// The action asked for last was carried out.
    Done,
    /// The action asked for last could not be carried out.
    Failed,
    /// tmux was asked for the caller's own pane, and this is how it ended.
    Output(ProcessOutput),
    /// A key was pressed.
    Key(KeyPress),
    /// Something other than a key press came in from the terminal.
    OtherInput,
}

/// What the picker asks for.
#[derive(Clone, Debug, PartialEq, Eq)]
pub enum Action {
    /// Run tmux to find out the caller's own pane; answer with `Output`.
    LookUpCurrentPane,
    /// Put the terminal in raw mode; answer with `Done` or `Failed`.
    EnterRawMode,
    /// Draw the list with the pane at `cursor` marked; answer with `Done` or
    /// `Failed`.
    Draw { cursor: usize },
    /// Wait for the next input; answer with `Key`, `OtherInput` or `Failed`.
    ReadKey,
    /// Leave raw mode, clear the screen and put the cursor at its origin;
    /// answer with `Done` or `Failed`.
    Restore,
    /// Stop: the picking is over, and this is how it ended.
    Finish(Outcome),
}

/// What the picker asks for, as mathematical values.
pub enum ActionView {
    LookUpCurrentPane,
    EnterRawMode,
    Draw { cursor: int },
    ReadKey,
    Restore,
    Finish(OutcomeView),
}

impl View for Action {
    type V = ActionView;

    open spec fn view(&self) -> ActionView {
        match self {
            Action::LookUpCurrentPane => ActionView::LookUpCurrentPane,
            Action::EnterRawMode => ActionView::EnterRawMode,
            Action::Draw { cursor } => ActionView::Draw { cursor: *cursor as int },
            Action::ReadKey => ActionView::ReadKey,
            Action::Restore => ActionView::Restore,
            Action::Finish(outcome) => ActionView::Finish(outcome@),
        }
    }
}

/// Where a picking stands.
pub enum State {
    /// Nothing has been asked for yet.
    Start,
    /// The caller's own pane is being looked up.
    Locating,
    /// Raw mode has been asked for; the cursor is already placed.
    Entering { cursor: int },
    /// Raw mode is on, and the list is being drawn.
    Drawing { cursor: int },
    /// Raw mode is on, and the next input is awaited.
    Reading { cursor: int },
    /// The terminal is being put back in order.
    Leaving { outcome: OutcomeView },
    /// The picking is over.
    Finished { outcome: OutcomeView },
}

/// Where the cursor stands at first: on the pane used most recently, or on
/// the first pane where there is none.
pub open spec fn start_index(panes: Seq<PaneView>, current: Seq<char>) -> int {
    match most_recent(panes, current) {
        Some(i) => i,
        None => 0,
    }
}

/// The picking ends with `outcome`.
pub open spec fn finish(outcome: OutcomeView) -> (State, ActionView) {
    (State::Finished { outcome }, ActionView::Finish(outcome))
}

/// The picking is to end with `outcome`, once the terminal is in order again.
pub open spec fn leave(outcome: OutcomeView) -> (State, ActionView) {
    (State::Leaving { outcome }, ActionView::Restore)
}

/// The list is to be drawn with the cursor at `cursor`.
pub open spec fn draw(cursor: int) -> (State, ActionView) {
    (State::Drawing { cursor }, ActionView::Draw { cursor })
}

/// What a picking over `panes` that stands at `state` does when told of
/// `event`: where it stands then, and what it asks for.
///
/// An empty list ends the picking at once. Otherwise the caller's own pane is
/// looked up, the cursor placed, raw mode entered, and then the list is drawn
/// and an input read in turn: a move changes the cursor, Enter takes the pane
/// under it, a cancelling key leaves without one, anything else changes
/// nothing. Once raw mode is on, every way out leads through `Restore`. A
/// failure to restore does not replace a failure that came before it. An
/// event that the state does not await counts as a failure of what was asked
/// for.
pub open spec fn next(panes: Seq<PaneView>, state: State, event: Event) -> (State, ActionView) {
    match state {
        State::Start => if panes.len() == 0 {
            finish(OutcomeView::Empty)
        } else {
            (State::Locating, ActionView::LookUpCurrentPane)
        },
        State::Locating => match event {
            Event::Output(output) => match current_pane_id(output) {
                Ok(id) => (
                    State::Entering { cursor: start_index(panes, id) },
                    ActionView::EnterRawMode,
                ),
                Err(e) => finish(OutcomeView::Failed(Failure::Lookup(e))),
            },
            _ => finish(OutcomeView::Failed(Failure::Lookup(FetchError::NotStarted))),
        },
        State::Entering { cursor } => match event {
            Event::Done => draw(cursor),
            _ => finish(OutcomeView::Failed(Failure::RawMode)),
        },
        State::Drawing { cursor } => match event {
            Event::Done => (State::Reading { cursor }, ActionView::ReadKey),
            _ => leave(OutcomeView::Failed(Failure::Draw)),
        },
        State::Reading { cursor } => match event {
            Event::Key(key) => match command_of(key) {
                Command::MoveEarlier => draw(earlier(cursor, panes.len() as int)),
                Command::MoveLater => draw(later(cursor, panes.len() as int)),
                Command::Confirm => leave(OutcomeView::Confirmed(panes[cursor].full_id())),
                Command::Cancel => leave(OutcomeView::Cancelled),
                Command::Ignore => draw(cursor),
            },
            Event::OtherInput => draw(cursor),
            _ => leave(OutcomeView::Failed(Failure::Read)),
        },
        State::Leaving { outcome } => match event {
            Event::Done => finish(outcome),
            _ => match outcome {
                OutcomeView::Failed(_) => finish(outcome),
                _ => finish(OutcomeView::Failed(Failure::Restore)),
            },
        },
        State::Finished { outcome } => finish(outcome),
    }
}

/// A state that a picking over `panes` can be in: the cursor, where the
/// state has one, points at a pane of the list, and the caller's own pane is
/// looked up only where there are panes to pick from.
pub open spec fn reachable(panes: Seq<PaneView>, state: State) -> bool {
    match state {
        State::Locating => panes.len() > 0,
        State::Entering { cursor } | State::Drawing { cursor } | State::Reading { cursor } => 0
            <= cursor < panes.len(),
        _ => true,
    }
}

/// A picking, as mathematical values: the panes to pick from, and where the
/// picking stands.
pub struct SelectorView {
    pub panes: Seq<PaneView>,
    pub state: State,
}

/// Which kind of state a picking is in.
#[derive(Clone, Copy, Debug, PartialEq, Eq, Structural)]
enum Phase {
    Start,
    Locating,
    Entering,
    Drawing,
    Reading,
    Leaving,
    Finished,
}

/// How a picking ends; the pane taken is the one under the cursor.
#[derive(Clone, Copy, Debug, PartialEq, Eq, Structural)]
enum Verdict {
    Confirmed,
    Cancelled,
    Empty,
    Failed(Failure),
}

/// A picking from a list of panes.
#[derive(Debug)]
pub struct Selector {
    panes: Vec<TmuxPane>,
    phase: Phase,
    cursor: usize,
    verdict: Verdict,
}

impl View for Selector {
    type V = SelectorView;

    closed spec fn view(&self) -> SelectorView {
        SelectorView {
            panes: pane_views(self.panes@),
            state: match self.phase {
                Phase::Start => State::Start,
                Phase::Locating => State::Locating,
                Phase::Entering => State::Entering { cursor: self.cursor as int },
                Phase::Drawing => State::Drawing { cursor: self.cursor as int },
                Phase::Reading => State::Reading { cursor: self.cursor as int },
                Phase::Leaving => State::Leaving { outcome: self.outcome_view() },
                Phase::Finished => State::Finished { outcome: self.outcome_view() },
            },
        }
    }
}

impl Selector {
    /// The cursor points at a pane wherever it is in use, and the caller's
    /// own pane is looked up only where there are panes.
    #[verifier::type_invariant]
    spec fn well_formed(&self) -> bool {
        &&& self.phase == Phase::Locating ==> self.panes.len() > 0
        &&& (self.phase == Phase::Entering || self.phase == Phase::Drawing || self.phase
            == Phase::Reading || self.verdict == Verdict::Confirmed) ==> self.cursor
            < self.panes.len()
    }

    /// How the picking ends, going by the verdict and the cursor.
    closed spec fn outcome_view(&self) -> OutcomeView {
        match self.verdict {
            Verdict::Confirmed => OutcomeView::Confirmed(
                pane_views(self.panes@)[self.cursor as int].full_id(),
            ),
            Verdict::Cancelled => OutcomeView::Cancelled,
            Verdict::Empty => OutcomeView::Empty,
            Verdict::Failed(failure) => OutcomeView::Failed(failure),
        }
    }

    /// A picking from `panes` that has not begun.
    pub fn new(panes: Vec<TmuxPane>) -> (selector: Selector)
        ensures
            selector@ == (SelectorView { panes: pane_views(panes@), state: State::Start }),
    {
        Selector { panes, phase: Phase::Start, cursor: 0, verdict: Verdict::Cancelled }
    }

    /// The panes that are picked from.
    pub fn panes(&self) -> (panes: &Vec<TmuxPane>)
        ensures
            pane_views(panes@) == self@.panes,
    {
        &self.panes
    }

    /// How the picking ends, going by the verdict and the cursor.
    fn outcome(&self) -> (outcome: Outcome)
        ensures
            outcome@ == self.outcome_view(),
    {
        proof {
            use_type_invariant(self);
        }
        match self.verdict {
            Verdict::Confirmed => Outcome::Confirmed(
                self.panes[self.cursor].full_id().to_owned(),
            ),
            Verdict::Cancelled => Outcome::Cancelled,
            Verdict::Empty => Outcome::Empty,
            Verdict::Failed(failure) => Outcome::Failed(failure),
        }
    }

    /// Ends the picking with the verdict reached.
    fn finish(&mut self) -> (action: Action)
        ensures
            final(self).panes == old(self).panes,
            final(self).cursor == old(self).cursor,
            final(self).verdict == old(self).verdict,
            final(self).phase == Phase::Finished,
            action@ == ActionView::Finish(old(self).outcome_view()),
    {
        proof {
            use_type_invariant(&*self);
        }
        self.phase = Phase::Finished;
        Action::Finish(self.outcome())
    }

    /// Takes the picker one step on: it is told of `event`, which answers the
    /// action it asked for last, and asks for the next action. The first
    /// step may be told of anything.
    pub fn step(&mut self, event: Event) -> (action: Action)
        ensures
            final(self)@.panes == old(self)@.panes,
            (final(self)@.state, action@) == next(old(self)@.panes, old(self)@.state, event),
            reachable(final(self)@.panes, final(self)@.state),
    {
        proof {
            use_type_invariant(&*self);
        }
        match self.phase {
            Phase::Start => {
                if self.panes.len() == 0 {
                    self.verdict = Verdict::Empty;
                    self.finish()
                } else {
                    self.phase = Phase::Locating;
                    Action::LookUpCurrentPane
                }
            },
            Phase::Locating => {
                let found = match event {
                    Event::Output(output) => get_current_pane_id(output),
                    _ => Err(FetchError::NotStarted),
                };
                match found {
                    Ok(id) => {
                        proof {
                            most_recent_excludes_current(pane_views(self.panes@), id@);
                        }
                        let best = find_most_recent_pane(self.panes.as_slice(), id.as_str());
                        self.cursor = match best {
                            Some(i) => i,
                            None => 0,
                        };
                        self.phase = Phase::Entering;
                        Action::EnterRawMode
                    },
                    Err(e) => {
                        self.verdict = Verdict::Failed(Failure::Lookup(e));
                        self.finish()
                    },
                }
            },
            Phase::Entering => match event {
                Event::Done => {
                    self.phase = Phase::Drawing;
                    Action::Draw { cursor: self.cursor }
                },
                _ => {
                    self.verdict = Verdict::Failed(Failure::RawMode);
                    self.finish()
                },
            },
            Phase::Drawing => match event {
                Event::Done => {
                    self.phase = Phase::Reading;
                    Action::ReadKey
                },
                _ => {
                    self.verdict = Verdict::Failed(Failure::Draw);
                    self.phase = Phase::Leaving;
                    Action::Restore
                },
            },
            Phase::Reading => {
                let command = match event {
                    Event::Key(key) => Some(classify(key)),
                    Event::OtherInput => Some(Command::Ignore),
                    _ => None,
                };
                match command {
                    Some(Command::MoveEarlier) => {
                        self.cursor = move_earlier(self.cursor, self.panes.len());
                        self.phase = Phase::Drawing;
                        Action::Draw { cursor: self.cursor }
                    },
                    Some(Command::MoveLater) => {
                        self.cursor = move_later(self.cursor, self.panes.len());
                        self.phase = Phase::Drawing;
                        Action::Draw { cursor: self.cursor }
                    },
                    Some(Command::Ignore) => {
                        self.phase = Phase::Drawing;
                        Action::Draw { cursor: self.cursor }
                    },
                    Some(Command::Confirm) => {
                        self.verdict = Verdict::Confirmed;
                        self.phase = Phase::Leaving;
                        Action::Restore
                    },
                    Some(Command::Cancel) => {
                        self.verdict = Verdict::Cancelled;
                        self.phase = Phase::Leaving;
                        Action::Restore
                    },
                    None => {
                        self.verdict = Verdict::Failed(Failure::Read);
                        self.phase = Phase::Leaving;
                        Action::Restore
                    },
                }
            },
            Phase::Leaving => {
                match event {
                    Event::Done => {},
                    _ => match self.verdict {
                        Verdict::Failed(_) => {},
                        _ => {
                            self.verdict = Verdict::Failed(Failure::Restore);
                        },
                    },
                }
                self.finish()
            },
            Phase::Finished => self.finish(),
        }
    }
}

/// Where a picking over `panes` stands after it was told of `events` one
/// after the other, beginning at `state`, and the actions it asked for.
pub open spec fn run(panes: Seq<PaneView>, state: State, events: Seq<Event>) -> (
    State,
    Seq<ActionView>,
)
    decreases events.len(),
{
    if events.len() == 0 {
        (state, Seq::<ActionView>::empty())
    } else {
        let (middle, actions) = run(panes, state, events.drop_last());
        let (end, action) = next(panes, middle, events.last());
        (end, actions.push(action))
    }
}

/// How often `actions` asks for raw mode.
pub open spec fn raw_mode_entries(actions: Seq<ActionView>) -> nat
    decreases actions.len(),
{
    if actions.len() == 0 {
        0
    } else {
        raw_mode_entries(actions.drop_last()) + if actions.last() is EnterRawMode {
            1nat
        } else {
            0nat
        }
    }
}

/// How often `actions` asks for the list to be drawn.
pub open spec fn draws(actions: Seq<ActionView>) -> nat
    decreases actions.len(),
{
    if actions.len() == 0 {
        0
    } else {
        draws(actions.drop_last()) + if actions.last() is Draw {
            1nat
        } else {
            0nat
        }
    }
}

/// How often `actions` asks for the terminal to be put back in order.
pub open spec fn restores(actions: Seq<ActionView>) -> nat
    decreases actions.len(),
{
    if actions.len() == 0 {
        0
    } else {
        restores(actions.drop_last()) + if actions.last() is Restore {
            1nat
        } else {
            0nat
        }
    }
}

/// An action that is carried out on a terminal in raw mode.
pub open spec fn needs_raw_mode(action: ActionView) -> bool {
    action is Draw || action is ReadKey || action is Restore
}

/// Raw mode was asked for before the action at `i`.
pub open spec fn entered_before(actions: Seq<ActionView>, i: int) -> bool {
    exists|j: int| 0 <= j < i && j < actions.len() && (#[trigger] actions[j]) is EnterRawMode
}

/// A step from a reachable state leads to a reachable state, and a cursor
/// that is to be drawn points at a pane of the list.
pub proof fn step_stays_reachable(panes: Seq<PaneView>, state: State, event: Event)
    requires
        reachable(panes, state),
    ensures
        reachable(panes, next(panes, state, event).0),
        next(panes, state, event).1 matches ActionView::Draw { cursor } ==> 0 <= cursor
            < panes.len(),
{
    match state {
        State::Locating => {
            if let Event::Output(output) = event {
                if let Ok(id) = current_pane_id(output) {
                    most_recent_excludes_current(panes, id);
                }
            }
        },
        _ => {},
    }
}

/// A cancelling key leads out without a pane wherever the cursor stands:
/// the terminal is put back in order, and the picking then ends as
/// cancelled.
pub proof fn cancel_leaves_without_pane(panes: Seq<PaneView>, cursor: int, key: KeyPress)
    requires
        command_of(key) == Command::Cancel,
    ensures
        next(panes, State::Reading { cursor }, Event::Key(key)) == leave(OutcomeView::Cancelled),
        next(panes, State::Leaving { outcome: OutcomeView::Cancelled }, Event::Done) == finish(
            OutcomeView::Cancelled,
        ),
{
}

/// Enter takes the pane under the cursor: the terminal is put back in
/// order, and the picking then ends with that pane's identifier.
pub proof fn confirm_takes_pane_under_cursor(panes: Seq<PaneView>, cursor: int, key: KeyPress)
    requires
        command_of(key) == Command::Confirm,
    ensures
        next(panes, State::Reading { cursor }, Event::Key(key)) == leave(
            OutcomeView::Confirmed(panes[cursor].full_id()),
        ),
        next(
            panes,
            State::Leaving { outcome: OutcomeView::Confirmed(panes[cursor].full_id()) },
            Event::Done,
        ) == finish(OutcomeView::Confirmed(panes[cursor].full_id())),
{
}

/// A failure to put the terminal back in order is reported, but never in
/// place of a failure that came before it.
pub proof fn restore_failure_keeps_earlier_failure(
    panes: Seq<PaneView>,
    outcome: OutcomeView,
    event: Event,
)
    requires
        !(event is Done),
    ensures
        next(panes, State::Leaving { outcome }, event) == finish(
            if outcome is Failed {
                outcome
            } else {
                OutcomeView::Failed(Failure::Restore)
            },
        ),
{
}

/// With no pane to pick from the picking ends at once: nothing is asked for
/// but to stop.
pub proof fn empty_list_ends_at_once(panes: Seq<PaneView>, events: Seq<Event>)
    requires
        panes.len() == 0,
        events.len() > 0,
    ensures
        run(panes, State::Start, events).0 == (State::Finished { outcome: OutcomeView::Empty }),
        forall|i: int|
            0 <= i < events.len() ==> (#[trigger] run(panes, State::Start, events).1[i])
                == ActionView::Finish(OutcomeView::Empty),
        run(panes, State::Start, events).1.len() == events.len(),
    decreases events.len(),
{
    let (middle, actions) = run(panes, State::Start, events.drop_last());
    if events.len() > 1 {
        empty_list_ends_at_once(panes, events.drop_last());
    } else {
        assert(middle == State::Start && actions.len() == 0);
    }
    assert(run(panes, State::Start, events).1 == actions.push(
        ActionView::Finish(OutcomeView::Empty),
    ));
}

/// What holds of the actions asked for so far, by the state reached.
spec fn on_course(state: State, actions: Seq<ActionView>) -> bool {
    &&& forall|i: int, j: int|
        0 <= i < j < actions.len() && actions[i] is Restore ==> actions[j] is Finish
    &&& forall|i: int|
        0 <= i < actions.len() && needs_raw_mode(#[trigger] actions[i]) ==> entered_before(
            actions,
            i,
        )
    &&& match state {
        State::Start => actions.len() == 0,
        State::Locating => raw_mode_entries(actions) == 0 && draws(actions) == 0 && restores(
            actions,
        ) == 0 && forall|i: int| 0 <= i < actions.len() ==> !(actions[i] is Restore),
        State::Entering { .. } => raw_mode_entries(actions) == 1 && draws(actions) == 0
            && restores(actions) == 0 && forall|i: int|
            0 <= i < actions.len() ==> !(actions[i] is Restore),
        State::Drawing { .. } | State::Reading { .. } => raw_mode_entries(actions) == 1 && draws(
            actions,
        ) >= 1 && restores(actions) == 0 && forall|i: int|
            0 <= i < actions.len() ==> !(actions[i] is Restore),
        State::Leaving { .. } => raw_mode_entries(actions) == 1 && draws(actions) >= 1
            && restores(actions) == 1,
        State::Finished { .. } => raw_mode_entries(actions) <= 1 && actions.len() > 0
            && actions.last() is Finish && restores(actions) == if draws(actions) >= 1 {
            1nat
        } else {
            0nat
        },
    }
}

/// Where raw mode was asked for, it was asked for at some position.
proof fn lemma_entry_exists(actions: Seq<ActionView>)
    requires
        raw_mode_entries(actions) >= 1,
    ensures
        entered_before(actions, actions.len() as int),
    decreases actions.len(),
{
    if actions.last() is EnterRawMode {
        assert(actions[actions.len() - 1] is EnterRawMode);
    } else {
        let front = actions.drop_last();
        lemma_entry_exists(front);
        let j = choose|j: int| 0 <= j < front.len() && (#[trigger] front[j]) is EnterRawMode;
        assert(actions[j] is EnterRawMode);
    }
}

/// One more step keeps a run on course.
proof fn lemma_step_on_course(
    panes: Seq<PaneView>,
    state: State,
    actions: Seq<ActionView>,
    event: Event,
)
    requires
        on_course(state, actions),
    ensures
        on_course(next(panes, state, event).0, actions.push(next(panes, state, event).1)),
{
    let (end, action) = next(panes, state, event);
    let all = actions.push(action);
    assert(all.drop_last() =~= actions);
    assert(all.last() == action);
    assert(raw_mode_entries(all) == raw_mode_entries(actions) + if action is EnterRawMode {
        1nat
    } else {
        0nat
    });
    assert(draws(all) == draws(actions) + if action is Draw {
        1nat
    } else {
        0nat
    });
    assert(restores(all) == restores(actions) + if action is Restore {
        1nat
    } else {
        0nat
    });
    assert forall|i: int, j: int|
        0 <= i < j < all.len() && all[i] is Restore implies all[j] is Finish by {
        assert(actions[i] is Restore);
        if j < actions.len() {
            assert(actions[j] is Finish);
        } else {
            assert(state is Leaving || state is Finished);
        }
    }
    assert forall|i: int| 0 <= i < all.len() && needs_raw_mode(#[trigger] all[i]) implies
        entered_before(all, i) by {
        if i < actions.len() {
            assert(needs_raw_mode(actions[i]));
            let j = choose|j: int|
                0 <= j < i && j < actions.len() && (#[trigger] actions[j]) is EnterRawMode;
            assert(all[j] is EnterRawMode);
        } else {
            assert(state is Entering || state is Drawing || state is Reading);
            lemma_entry_exists(actions);
            let j = choose|j: int|
                0 <= j < actions.len() && (#[trigger] actions[j]) is EnterRawMode;
            assert(all[j] is EnterRawMode);
        }
    }
    match state {
        State::Start => {},
        State::Locating => {},
        State::Entering { .. } => {},
        State::Drawing { .. } => {},
        State::Reading { .. } => {},
        State::Leaving { .. } => {},
        State::Finished { .. } => {},
    }
}

/// A run from the start stays on course.
proof fn lemma_run_on_course(panes: Seq<PaneView>, events: Seq<Event>)
    ensures
        on_course(run(panes, State::Start, events).0, run(panes, State::Start, events).1),
    decreases events.len(),
{
    if events.len() > 0 {
        lemma_run_on_course(panes, events.drop_last());
        let (middle, actions) = run(panes, State::Start, events.drop_last());
        lemma_step_on_course(panes, middle, actions, events.last());
    }
}

/// The terminal is put back in order exactly once, on every way out. Of the
/// actions that a picking asks for from its start, whatever it is told:
/// raw mode is asked for at most once, and `Restore` at most once; nothing
/// is drawn, read or restored before raw mode was asked for; after `Restore`
/// nothing is asked for but to stop; and once the picking is over, `Restore`
/// was asked for exactly once if the list was ever drawn, which is when raw
/// mode was on, and never otherwise.
pub proof fn terminal_restored_exactly_once(panes: Seq<PaneView>, events: Seq<Event>)
    ensures
        ({
            let (end, actions) = run(panes, State::Start, events);
            &&& raw_mode_entries(actions) <= 1
            &&& restores(actions) <= 1
            &&& forall|i: int|
                0 <= i < actions.len() && needs_raw_mode(#[trigger] actions[i])
                    ==> entered_before(actions, i)
            &&& forall|i: int, j: int|
                0 <= i < j < actions.len() && actions[i] is Restore ==> actions[j] is Finish
            &&& end is Finished ==> restores(actions) == if draws(actions) >= 1 {
                1nat
            } else {
                0nat
            }
            &&& (end is Drawing || end is Reading) ==> restores(actions) == 0
        }),
{
    lemma_run_on_course(panes, events);
    let (end, actions) = run(panes, State::Start, events);
    if end is Start {
        assert(actions.len() == 0);
    }
}

} // verus!
