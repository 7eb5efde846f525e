//! One tmux pane, as tmux reports it.

use vstd::prelude::*;

verus! {

/// What a pane record says, as mathematical values.
pub struct PaneView {
    pub session_name: Seq<char>,
    pub window_index: Seq<char>,
    pub pane_index: Seq<char>,
    pub pane_title: Seq<char>,
    pub last_used: u64,
    pub is_active: bool,
}

/// The identifier `session:window.pane` that tmux accepts as a target.
pub open spec fn composite_id(session: Seq<char>, window: Seq<char>, pane: Seq<char>) -> Seq<
    char,
> {
    session + seq![':'] + window + seq!['.'] + pane
}

impl PaneView {
    /// The pane's composite identifier.
    pub open spec fn full_id(self) -> Seq<char> {
        composite_id(self.session_name, self.window_index, self.pane_index)
    }

    /// The label under which the pane is listed: identifier, ` - `, title.
    pub open spec fn display_name(self) -> Seq<char> {
        self.full_id() + seq![' ', '-', ' '] + self.pane_title
    }
}

/// The views of a list of panes, in order.
pub open spec fn pane_views(panes: Seq<TmuxPane>) -> Seq<PaneView> {
    panes.map_values(|p: TmuxPane| p@)
}

/// A pane record. It never changes once made, and it carries its composite
/// identifier ready-made.
#[derive(Debug, PartialEq, Eq)]
pub struct TmuxPane {
    session_name: String,
    window_index: String,
    pane_index: String,
    pane_title: String,
    last_used: u64,
    is_active: bool,
    full_id: String,
}

impl View for TmuxPane {
    type V = PaneView;

    closed spec fn view(&self) -> PaneView {
        PaneView {
            session_name: self.session_name@,
            window_index: self.window_index@,
            pane_index: self.pane_index@,
            pane_title: self.pane_title@,
            last_used: self.last_used,
            is_active: self.is_active,
        }
    }
}

impl TmuxPane {
    /// The stored identifier is the one the three name parts spell.
    #[verifier::type_invariant]
    spec fn well_formed(&self) -> bool {
        self.full_id@ == composite_id(self.session_name@, self.window_index@, self.pane_index@)
    }

    /// A record of the given parts; its identifier is put together here.
    pub fn new(
        session_name: String,
        window_index: String,
        pane_index: String,
        pane_title: String,
        last_used: u64,
        is_active: bool,
    ) -> (pane: TmuxPane)
        ensures
            pane@ == (PaneView {
                session_name: session_name@,
                window_index: window_index@,
                pane_index: pane_index@,
                pane_title: pane_title@,
                last_used,
                is_active,
            }),
    {
        let mut full_id = session_name.clone();
        full_id.push(':');
        full_id.append(window_index.as_str());
        full_id.push('.');
        full_id.append(pane_index.as_str());
        assert(full_id@ =~= composite_id(session_name@, window_index@, pane_index@));
        TmuxPane {
            session_name,
            window_index,
            pane_index,
            pane_title,
            last_used,
            is_active,
            full_id,
        }
    }

    pub fn session_name(&self) -> (s: &str)
        ensures
            s@ == self@.session_name,
    {
        self.session_name.as_str()
    }

    pub fn window_index(&self) -> (s: &str)
        ensures
            s@ == self@.window_index,
    {
        self.window_index.as_str()
    }

    pub fn pane_index(&self) -> (s: &str)
        ensures
            s@ == self@.pane_index,
    {
        self.pane_index.as_str()
    }

    pub fn pane_title(&self) -> (s: &str)
        ensures
            s@ == self@.pane_title,
    {
        self.pane_title.as_str()
    }

    pub fn last_used(&self) -> (t: u64)
        ensures
            t == self@.last_used,
    {
        self.last_used
    }

    pub fn is_active(&self) -> (b: bool)
        ensures
            b == self@.is_active,
    {
        self.is_active
    }

    /// The composite identifier `session:window.pane`.
    pub fn full_id(&self) -> (s: &str)
        ensures
            s@ == self@.full_id(),
    {
        proof {
            use_type_invariant(self);
        }
        self.full_id.as_str()
    }

    /// The label shown for this pane in a list.
    pub fn display_name(&self) -> (label: String)
        ensures
            label@ == self@.display_name(),
    {
        proof {
            use_type_invariant(self);
            reveal_strlit(" - ");
        }
        let mut label = self.full_id.clone();
        label.append(" - ");
        label.append(self.pane_title.as_str());
        assert(" - "@ =~= seq![' ', '-', ' ']);
        label
    }
}

impl Clone for TmuxPane {
    fn clone(&self) -> (copy: TmuxPane)
        ensures
            copy@ == self@,
    {
        proof {
            use_type_invariant(self);
        }
        TmuxPane {
            session_name: self.session_name.clone(),
            window_index: self.window_index.clone(),
            pane_index: self.pane_index.clone(),
            pane_title: self.pane_title.clone(),
            last_used: self.last_used,
            is_active: self.is_active,
            full_id: self.full_id.clone(),
        }
    }
}

} // verus!
