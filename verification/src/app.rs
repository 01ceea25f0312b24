//! Cinema modes: which monitor is the cinema and which are veiled.
//! `Idle` → `Pick` → `Locked` → `Idle`; the platform layer only draws the
//! `Action` each step returns.
use crate::config::Style;
use crate::text::{owned, str_eq};
use vstd::prelude::*;

verus! {

#[derive(Clone, Copy, Debug, PartialEq, Eq, Structural)]
pub enum Mode {
    Idle,
    Pick,
    Locked,
}

/// Keys read while picking: digits `1`–`9`, arrows, Enter, Esc.
#[derive(Clone, Copy, Debug, PartialEq, Eq, Structural)]
pub enum PickKey {
    Digit(u8),
    Left,
    Right,
    Enter,
    Escape,
}

/// What the platform layer should do after a state change.
#[derive(Clone, Debug, PartialEq, Eq)]
pub enum Action {
    Nothing,
    HideAll,
    ShowPick { candidate: String },
    ShowLocked { cinema: String },
    RefreshPick { candidate: String },
}

/// An `Action` with its display ids as char sequences.
pub enum Act {
    Nothing,
    HideAll,
    ShowPick(Seq<char>),
    ShowLocked(Seq<char>),
    RefreshPick(Seq<char>),
}

impl View for Action {
    type V = Act;

    open spec fn view(&self) -> Act {
        match self {
            Action::Nothing => Act::Nothing,
            Action::HideAll => Act::HideAll,
            Action::ShowPick { candidate } => Act::ShowPick(candidate@),
            Action::ShowLocked { cinema } => Act::ShowLocked(cinema@),
            Action::RefreshPick { candidate } => Act::RefreshPick(candidate@),
        }
    }
}

#[derive(Debug)]
pub struct Logic {
    pub mode: Mode,
    pub style: Style,
    pub candidate: Option<String>,
    pub cinema: Option<String>,
    /// After keyboard navigation, ignore hover until the platform reports a real mouse move.
    pub follow_pointer: bool,
}

/// The state of `Logic` with its display ids as char sequences.
pub struct State {
    pub mode: Mode,
    pub style: Style,
    pub candidate: Option<Seq<char>>,
    pub cinema: Option<Seq<char>>,
    pub follow_pointer: bool,
}

pub open spec fn opt_view(o: Option<String>) -> Option<Seq<char>> {
    match o {
        Some(s) => Some(s@),
        None => None,
    }
}

impl View for Logic {
    type V = State;

    open spec fn view(&self) -> State {
        State {
            mode: self.mode,
            style: self.style,
            candidate: opt_view(self.candidate),
            cinema: opt_view(self.cinema),
            follow_pointer: self.follow_pointer,
        }
    }
}

/// The display ids of a list of display names.
pub open spec fn ids(ds: Seq<String>) -> Seq<Seq<char>> {
    ds.map_values(|d: String| d@)
}

impl State {
    /// Idle shows nothing; Pick has a candidate and no cinema; Locked has a
    /// cinema and no candidate; the pointer is followed outside Pick.
    pub open spec fn wf(self) -> bool {
        &&& self.mode == Mode::Idle ==> self.candidate is None && self.cinema is None
        &&& self.mode == Mode::Pick ==> self.candidate is Some && self.cinema is None
        &&& self.mode == Mode::Locked ==> self.cinema is Some && self.candidate is None
        &&& self.mode != Mode::Pick ==> self.follow_pointer
    }
}

// ---------------------------------------------------------------------------
// Transitions
// ---------------------------------------------------------------------------
pub open spec fn initial(style: Style) -> State {
    State { mode: Mode::Idle, style, candidate: None, cinema: None, follow_pointer: true }
}

pub open spec fn dismissed(s: State) -> (State, Act) {
    (
        State { mode: Mode::Idle, candidate: None, cinema: None, follow_pointer: true, ..s },
        Act::HideAll,
    )
}

pub open spec fn entered(s: State, cursor: Option<Seq<char>>) -> (State, Act) {
    match cursor {
        None => (s, Act::Nothing),
        Some(c) => (
            State {
                mode: Mode::Pick,
                cinema: None,
                follow_pointer: true,
                candidate: Some(c),
                ..s
            },
            Act::ShowPick(c),
        ),
    }
}

pub open spec fn toggled(s: State, cursor: Option<Seq<char>>) -> (State, Act) {
    if s.mode == Mode::Idle {
        entered(s, cursor)
    } else {
        dismissed(s)
    }
}

pub open spec fn locked(s: State, cinema: Seq<char>) -> (State, Act) {
    (
        State {
            mode: Mode::Locked,
            cinema: Some(cinema),
            candidate: None,
            follow_pointer: true,
            ..s
        },
        Act::ShowLocked(cinema),
    )
}

pub open spec fn pointed(s: State, display: Seq<char>) -> (State, Act) {
    if s.mode != Mode::Pick || !s.follow_pointer || s.candidate == Some(display) {
        (s, Act::Nothing)
    } else {
        (State { candidate: Some(display), ..s }, Act::RefreshPick(display))
    }
}

pub open spec fn clicked(s: State, display: Seq<char>) -> (State, Act) {
    match s.mode {
        Mode::Idle => (s, Act::Nothing),
        Mode::Pick => locked(s, display),
        Mode::Locked => dismissed(s),
    }
}

/// First position of `id` in `ds`, or -1.
pub open spec fn index_of(ds: Seq<Seq<char>>, id: Seq<char>) -> int
    decreases ds.len(),
{
    if ds.len() == 0 {
        -1
    } else if ds[0] == id {
        0
    } else {
        let r = index_of(ds.drop_first(), id);
        if r < 0 {
            -1
        } else {
            r + 1
        }
    }
}

/// Keyboard choice of `ds[i]` as the candidate.
pub open spec fn chosen(s: State, ds: Seq<Seq<char>>, i: int) -> (State, Act) {
    (State { follow_pointer: false, candidate: Some(ds[i]), ..s }, Act::RefreshPick(ds[i]))
}

pub open spec fn pick_keyed(s: State, key: PickKey, ds: Seq<Seq<char>>) -> (State, Act) {
    if s.mode != Mode::Pick {
        (s, Act::Nothing)
    } else {
        match key {
            PickKey::Escape => dismissed(s),
            PickKey::Enter => match s.candidate {
                Some(c) => locked(s, c),
                None => if ds.len() > 0 {
                    locked(s, ds[0])
                } else {
                    (s, Act::Nothing)
                },
            },
            PickKey::Digit(n) => {
                let i = if n >= 1 {
                    n - 1
                } else {
                    0
                };
                if i < ds.len() {
                    chosen(s, ds, i)
                } else {
                    (s, Act::Nothing)
                }
            },
            PickKey::Left | PickKey::Right => {
                if ds.len() == 0 {
                    (s, Act::Nothing)
                } else {
                    let cur = match s.candidate {
                        Some(c) => if index_of(ds, c) >= 0 {
                            index_of(ds, c)
                        } else {
                            0
                        },
                        None => 0,
                    };
                    let next = if key == PickKey::Right {
                        (cur + 1) % (ds.len() as int)
                    } else {
                        (cur + ds.len() - 1) % (ds.len() as int)
                    };
                    chosen(s, ds, next)
                }
            },
        }
    }
}

pub open spec fn restyled(s: State, style: Style) -> (State, Act) {
    if s.style == style {
        (s, Act::Nothing)
    } else {
        let t = State { style, ..s };
        match s.mode {
            Mode::Idle => (t, Act::Nothing),
            Mode::Pick => match s.candidate {
                Some(c) => (t, Act::RefreshPick(c)),
                None => (t, Act::Nothing),
            },
            Mode::Locked => match s.cinema {
                Some(c) => (t, Act::ShowLocked(c)),
                None => (t, Act::Nothing),
            },
        }
    }
}

pub open spec fn restored(s: State, ds: Seq<Seq<char>>) -> (State, Act) {
    match s.mode {
        Mode::Idle => (s, Act::HideAll),
        Mode::Pick => match s.candidate {
            Some(c) if ds.contains(c) => (s, Act::ShowPick(c)),
            _ => entered(
                s,
                if ds.len() > 0 {
                    Some(ds[0])
                } else {
                    None
                },
            ),
        },
        Mode::Locked => match s.cinema {
            Some(c) if ds.contains(c) => (s, Act::ShowLocked(c)),
            _ => dismissed(s),
        },
    }
}

fn same(a: &Option<String>, b: &str) -> (r: bool)
    ensures
        r == (opt_view(*a) == Some(b@)),
{
    match a {
        Some(s) => str_eq(s.as_str(), b),
        None => false,
    }
}

/// Index of the first display equal to `id`.
fn position(ds: &[String], id: &str) -> (r: Option<usize>)
    ensures
        r == (if index_of(ids(ds@), id@) >= 0 {
            Some(index_of(ids(ds@), id@) as usize)
        } else {
            None::<usize>
        }),
{
    let mut i: usize = 0;
    proof {
        lemma_index_of(ids(ds@), id@);
        assert(ids(ds@).skip(0) =~= ids(ds@));
    }
    while i < ds.len()
        invariant
            i <= ds.len(),
            index_of(ids(ds@), id@) == (if index_of(ids(ds@).skip(i as int), id@) < 0 {
                -1
            } else {
                index_of(ids(ds@).skip(i as int), id@) + i
            }),
        decreases ds.len() - i,
    {
        let ghost rest = ids(ds@).skip(i as int);
        assert(rest[0] == ds@[i as int]@);
        assert(rest.drop_first() =~= ids(ds@).skip(i + 1));
        if str_eq(ds[i].as_str(), id) {
            return Some(i);
        }
        i = i + 1;
    }
    assert(ids(ds@).skip(i as int) =~= Seq::<Seq<char>>::empty());
    None
}

fn contains(ds: &[String], id: &str) -> (r: bool)
    ensures
        r == ids(ds@).contains(id@),
{
    proof {
        lemma_index_of(ids(ds@), id@);
    }
    position(ds, id).is_some()
}

/// `index_of` finds the first occurrence, and only misses absent ids.
pub proof fn lemma_index_of(ds: Seq<Seq<char>>, id: Seq<char>)
    ensures
        -1 <= index_of(ds, id) < ds.len(),
        index_of(ds, id) >= 0 ==> ds[index_of(ds, id)] == id,
        index_of(ds, id) >= 0 ==> forall|j: int| 0 <= j < index_of(ds, id) ==> ds[j] != id,
        (index_of(ds, id) < 0) == !ds.contains(id),
    decreases ds.len(),
{
    if ds.len() > 0 {
        lemma_index_of(ds.drop_first(), id);
        if ds[0] != id {
            if ds.drop_first().contains(id) {
                let k = choose|k: int| 0 <= k < ds.drop_first().len() && ds.drop_first()[k] == id;
                assert(ds[k + 1] == id);
            }
            if ds.contains(id) {
                let k = choose|k: int| 0 <= k < ds.len() && ds[k] == id;
                assert(ds.drop_first()[k - 1] == id);
            }
            let r = index_of(ds, id);
            if r >= 0 {
                assert forall|j: int| 0 <= j < r implies ds[j] != id by {
                    if j > 0 {
                        assert(ds[j] == ds.drop_first()[j - 1]);
                    }
                }
            }
        } else {
            assert(ds.contains(id)) by {
                assert(ds[0] == id);
            }
        }
    }
}

impl Logic {
    pub fn new(style: Style) -> (r: Self)
        ensures
            r@ == initial(style),
            r@.wf(),
    {
        Self { mode: Mode::Idle, style, candidate: None, cinema: None, follow_pointer: true }
    }

    /// Hotkey / tray toggle: from Idle pick the display under the cursor (none:
    /// nothing happens); from Pick or Locked dismiss everything.
    pub fn on_toggle(&mut self, cursor_display: Option<String>) -> (a: Action)
        ensures
            (final(self)@, a@) == toggled(old(self)@, opt_view(cursor_display)),
            old(self)@.wf() ==> final(self)@.wf(),
    {
        match self.mode {
            Mode::Idle => self.enter_pick(cursor_display),
            Mode::Pick | Mode::Locked => self.dismiss(),
        }
    }

    pub fn enter_pick(&mut self, cursor_display: Option<String>) -> (a: Action)
        ensures
            (final(self)@, a@) == entered(old(self)@, opt_view(cursor_display)),
            old(self)@.wf() ==> final(self)@.wf(),
    {
        let candidate = match cursor_display {
            Some(c) => c,
            None => {
                return Action::Nothing;
            },
        };
        self.mode = Mode::Pick;
        self.cinema = None;
        self.follow_pointer = true;
        self.candidate = Some(candidate.clone());
        Action::ShowPick { candidate }
    }

    pub fn dismiss(&mut self) -> (a: Action)
        ensures
            (final(self)@, a@) == dismissed(old(self)@),
            final(self)@.wf(),
    {
        self.mode = Mode::Idle;
        self.candidate = None;
        self.cinema = None;
        self.follow_pointer = true;
        Action::HideAll
    }

    pub fn allow_pointer(&mut self)
        ensures
            final(self)@ == (State { follow_pointer: true, ..old(self)@ }),
            old(self)@.wf() ==> final(self)@.wf(),
    {
        self.follow_pointer = true;
    }

    /// Hover over a display: in Pick, while the pointer is followed, it becomes the candidate.
    pub fn on_pointer(&mut self, display: &str) -> (a: Action)
        ensures
            (final(self)@, a@) == pointed(old(self)@, display@),
            old(self)@.wf() ==> final(self)@.wf(),
    {
        if self.mode != Mode::Pick || !self.follow_pointer {
            return Action::Nothing;
        }
        if same(&self.candidate, display) {
            return Action::Nothing;
        }
        self.candidate = Some(owned(display));
        Action::RefreshPick { candidate: owned(display) }
    }

    /// Click on a display: in Pick it becomes the cinema (whichever was clicked);
    /// in Locked everything is dismissed.
    pub fn on_click(&mut self, display: &str) -> (a: Action)
        ensures
            (final(self)@, a@) == clicked(old(self)@, display@),
            old(self)@.wf() ==> final(self)@.wf(),
    {
        match self.mode {
            Mode::Idle => Action::Nothing,
            Mode::Pick => self.lock(display),
            Mode::Locked => self.dismiss(),
        }
    }

    pub fn lock(&mut self, cinema: &str) -> (a: Action)
        ensures
            (final(self)@, a@) == locked(old(self)@, cinema@),
            final(self)@.wf(),
    {
        self.mode = Mode::Locked;
        self.cinema = Some(owned(cinema));
        self.candidate = None;
        self.follow_pointer = true;
        Action::ShowLocked { cinema: owned(cinema) }
    }

    fn choose_display(&mut self, displays: &[String], i: usize) -> (a: Action)
        requires
            i < displays.len(),
        ensures
            (final(self)@, a@) == chosen(old(self)@, ids(displays@), i as int),
    {
        self.follow_pointer = false;
        self.candidate = Some(displays[i].clone());
        Action::RefreshPick { candidate: displays[i].clone() }
    }

    /// Keyboard picking, only in Pick: a digit chooses that display (1 is the
    /// first), arrows cycle, Enter locks the candidate or else the first
    /// display, Esc dismisses. `displays` is the platform's list, left to right.
    pub fn on_pick_key(&mut self, key: PickKey, displays: &[String]) -> (a: Action)
        ensures
            (final(self)@, a@) == pick_keyed(old(self)@, key, ids(displays@)),
            old(self)@.wf() ==> final(self)@.wf(),
    {
        if self.mode != Mode::Pick {
            return Action::Nothing;
        }
        match key {
            PickKey::Escape => self.dismiss(),
            PickKey::Enter => {
                let cinema = match &self.candidate {
                    Some(c) => Some(c.clone()),
                    None => if displays.len() > 0 {
                        Some(displays[0].clone())
                    } else {
                        None
                    },
                };
                match cinema {
                    Some(id) => self.lock(id.as_str()),
                    None => Action::Nothing,
                }
            },
            PickKey::Digit(n) => {
                let idx = (if n >= 1 {
                    n - 1
                } else {
                    0
                }) as usize;
                if idx < displays.len() {
                    self.choose_display(displays, idx)
                } else {
                    Action::Nothing
                }
            },
            PickKey::Left | PickKey::Right => {
                if displays.len() == 0 {
                    return Action::Nothing;
                }
                let current = match &self.candidate {
                    Some(id) => match position(displays, id.as_str()) {
                        Some(p) => p,
                        None => 0,
                    },
                    None => 0,
                };
                proof {
                    if let Some(c) = self@.candidate {
                        lemma_index_of(ids(displays@), c);
                    }
                }
                let len = displays.len();
                assert(current < len);
                let next = if key == PickKey::Right {
                    if current + 1 == len {
                        0
                    } else {
                        current + 1
                    }
                } else {
                    if current == 0 {
                        len - 1
                    } else {
                        current - 1
                    }
                };
                assert(key == PickKey::Right ==> next == (current + 1) % (len as int)) by (
                nonlinear_arith)
                    requires
                        current < len,
                        key == PickKey::Right ==> next == (if current + 1 == len {
                            0
                        } else {
                            current + 1
                        }),
                ;
                assert(key != PickKey::Right ==> next == (current + len - 1) % (len as int)) by (
                nonlinear_arith)
                    requires
                        current < len,
                        key != PickKey::Right ==> next == (if current == 0 {
                            len - 1
                        } else {
                            current - 1
                        }),
                ;
                self.choose_display(displays, next)
            },
        }
    }

    /// A new style: only remembered in Idle, redrawn in Pick and Locked.
    pub fn set_style(&mut self, style: Style) -> (a: Action)
        ensures
            (final(self)@, a@) == restyled(old(self)@, style),
            old(self)@.wf() ==> final(self)@.wf(),
    {
        if self.style == style {
            return Action::Nothing;
        }
        self.style = style;
        match self.mode {
            Mode::Idle => Action::Nothing,
            Mode::Pick => match &self.candidate {
                Some(c) => Action::RefreshPick { candidate: c.clone() },
                None => Action::Nothing,
            },
            Mode::Locked => match &self.cinema {
                Some(c) => Action::ShowLocked { cinema: c.clone() },
                None => Action::Nothing,
            },
        }
    }

    /// The display list changed: Idle hides; Pick keeps its candidate if it is
    /// still there, else picks the first display; Locked keeps its cinema if
    /// it is still there, else dismisses.
    pub fn restore_after_hotplug(&mut self, displays: &[String]) -> (a: Action)
        ensures
            (final(self)@, a@) == restored(old(self)@, ids(displays@)),
            old(self)@.wf() ==> final(self)@.wf(),
    {
        match self.mode {
            Mode::Idle => Action::HideAll,
            Mode::Pick => {
                if let Some(id) = &self.candidate {
                    if contains(displays, id.as_str()) {
                        return Action::ShowPick { candidate: id.clone() };
                    }
                }
                let first = if displays.len() > 0 {
                    Some(displays[0].clone())
                } else {
                    None
                };
                self.enter_pick(first)
            },
            Mode::Locked => {
                if let Some(id) = &self.cinema {
                    if contains(displays, id.as_str()) {
                        return Action::ShowLocked { cinema: id.clone() };
                    }
                }
                self.dismiss()
            },
        }
    }
}

} // verus!
