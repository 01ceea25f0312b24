//! Laws of the cinema-mode machine that span several steps.
use crate::app::{
    clicked, dismissed, index_of, lemma_index_of, pick_keyed, pointed, restored, restyled, toggled,
    Act, Mode, PickKey, State,
};
use crate::config::Style;
use vstd::prelude::*;

verus! {

/// No id occurs twice in the display list.
pub open spec fn distinct(ds: Seq<Seq<char>>) -> bool {
    forall|i: int, j: int| 0 <= i < ds.len() && 0 <= j < ds.len() && i != j ==> ds[i] != ds[j]
}

/// Toggling twice from a well-formed Idle state, with a display under the
/// cursor, shows the picker and then returns to exactly the same state,
/// hiding everything.
pub proof fn lemma_toggle_twice(s: State, cursor: Seq<char>, later: Option<Seq<char>>)
    requires
        s.wf(),
        s.mode == Mode::Idle,
    ensures
        toggled(s, Some(cursor)).1 == Act::ShowPick(cursor),
        toggled(s, Some(cursor)).0.mode == Mode::Pick,
        toggled(toggled(s, Some(cursor)).0, later).0 == s,
        toggled(toggled(s, Some(cursor)).0, later).1 == Act::HideAll,
{
}

/// In Pick a click locks the clicked display as the cinema; the next click
/// anywhere dismisses everything.
pub proof fn lemma_click_locks_then_dismisses(s: State, d: Seq<char>, e: Seq<char>)
    requires
        s.wf(),
        s.mode == Mode::Pick,
    ensures
        clicked(s, d).0.mode == Mode::Locked,
        clicked(s, d).0.cinema == Some(d),
        clicked(s, d).1 == Act::ShowLocked(d),
        clicked(clicked(s, d).0, e).0.mode == Mode::Idle,
        clicked(clicked(s, d).0, e).1 == Act::HideAll,
        clicked(clicked(s, d).0, e).0.wf(),
{
}

proof fn lemma_index_of_distinct(ds: Seq<Seq<char>>, i: int)
    requires
        distinct(ds),
        0 <= i < ds.len(),
    ensures
        index_of(ds, ds[i]) == i,
{
    lemma_index_of(ds, ds[i]);
    assert(ds.contains(ds[i]));
    let k = index_of(ds, ds[i]);
    if k != i {
        assert(ds[k] == ds[i]);
    }
}

/// With distinct display ids and the candidate among them, Right then Left,
/// or Left then Right, brings the candidate back.
pub proof fn lemma_arrows_invert(s: State, ds: Seq<Seq<char>>, c: Seq<char>)
    requires
        s.mode == Mode::Pick,
        s.candidate == Some(c),
        ds.contains(c),
        distinct(ds),
    ensures
        pick_keyed(pick_keyed(s, PickKey::Right, ds).0, PickKey::Left, ds).0.candidate == Some(c),
        pick_keyed(pick_keyed(s, PickKey::Left, ds).0, PickKey::Right, ds).0.candidate == Some(c),
        pick_keyed(pick_keyed(s, PickKey::Right, ds).0, PickKey::Left, ds).0.mode == Mode::Pick,
{
    let n = ds.len() as int;
    let p = choose|p: int| 0 <= p < n && ds[p] == c;
    lemma_index_of_distinct(ds, p);
    assert(index_of(ds, c) == p);
    let r = (p + 1) % n;
    let l = (p + n - 1) % n;
    assert(0 <= r < n && 0 <= l < n) by (nonlinear_arith)
        requires
            0 <= p < n,
            r == (p + 1) % n,
            l == (p + n - 1) % n,
    ;
    lemma_index_of_distinct(ds, r);
    lemma_index_of_distinct(ds, l);
    assert((r + n - 1) % n == p) by (nonlinear_arith)
        requires
            0 <= p < n,
            r == (p + 1) % n,
    ;
    assert((l + 1) % n == p) by (nonlinear_arith)
        requires
            0 <= p < n,
            l == (p + n - 1) % n,
    ;
}

/// Setting the same style twice: the second time nothing changes and nothing is redrawn.
pub proof fn lemma_restyle_idempotent(s: State, style: Style)
    ensures
        restyled(restyled(s, style).0, style).0 == restyled(s, style).0,
        restyled(restyled(s, style).0, style).1 == Act::Nothing,
{
}

/// After a hotplug that kept the candidate (in Pick) or the cinema (in
/// Locked), the state is unchanged and the same layout is shown again.
pub proof fn lemma_hotplug_keeps_layout(s: State, ds: Seq<Seq<char>>)
    requires
        s.wf(),
        s.mode == Mode::Pick ==> ds.contains(s.candidate.unwrap()),
        s.mode == Mode::Locked ==> ds.contains(s.cinema.unwrap()),
    ensures
        restored(s, ds).0 == s,
        s.mode == Mode::Idle ==> restored(s, ds).1 == Act::HideAll,
        s.mode == Mode::Pick ==> restored(s, ds).1 == Act::ShowPick(s.candidate.unwrap()),
        s.mode == Mode::Locked ==> restored(s, ds).1 == Act::ShowLocked(s.cinema.unwrap()),
{
}

/// Escape always ends picking with everything hidden.
pub proof fn lemma_escape_dismisses(s: State, ds: Seq<Seq<char>>)
    requires
        s.mode == Mode::Pick,
    ensures
        pick_keyed(s, PickKey::Escape, ds) == dismissed(s),
        pick_keyed(s, PickKey::Escape, ds).0.wf(),
{
}

/// Hovering changes nothing outside Pick: the state, the cinema of a locked
/// view among it, stays as it was and nothing is redrawn. In Pick, while the
/// pointer is followed, the hovered display becomes the candidate. Hovering
/// never changes the mode, the cinema or the style.
pub proof fn lemma_hover_only_moves_the_candidate(s: State, d: Seq<char>)
    ensures
        s.mode != Mode::Pick ==> pointed(s, d).0 == s && pointed(s, d).1 == Act::Nothing,
        pointed(s, d).0.mode == s.mode,
        pointed(s, d).0.cinema == s.cinema,
        pointed(s, d).0.style == s.style,
        s.mode == Mode::Pick && s.follow_pointer ==> pointed(s, d).0.candidate == Some(d),
        s.mode == Mode::Pick && !s.follow_pointer ==> pointed(s, d).0 == s && pointed(s, d).1
            == Act::Nothing,
        pointed(s, d).1 == Act::Nothing || pointed(s, d).1 == Act::RefreshPick(d),
{
}

} // verus!
