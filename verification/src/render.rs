//! View toggles for the visual layers: the overlay show/hide toggle and the
//! switch between the normal and engineering pipe views. The embedding
//! applies the resulting visibility states to its render layers.

use vstd::prelude::*;

verus! {

/// Visibility of one visual layer, as the embedding's renderer models it: an
/// `Inherited` layer follows its parent and counts as shown here.
#[derive(Clone, Copy, PartialEq, Eq, Structural, Debug)]
pub enum VisState {
    Visible,
    Hidden,
    Inherited,
}

/// Whether a layer in this state is on screen.
pub open spec fn is_shown(v: VisState) -> bool {
    v == VisState::Visible || v == VisState::Inherited
}

/// The state after one show/hide toggle: visible hides, hidden shows, and
/// inherited is pinned explicitly visible.
pub open spec fn spec_toggled(v: VisState) -> VisState {
    match v {
        VisState::Visible => VisState::Hidden,
        VisState::Hidden => VisState::Visible,
        VisState::Inherited => VisState::Visible,
    }
}

/// Consumes the one-shot overlay toggle: when the flag is set, flips the
/// overlay layer's visibility and clears the flag; otherwise changes nothing.
pub fn apply_input_toggle_overlay(toggle_overlay: &mut bool, overlay_vis: &mut VisState)
    ensures
        !*old(toggle_overlay) ==> *final(overlay_vis) == *old(overlay_vis)
            && *final(toggle_overlay) == *old(toggle_overlay),
        *old(toggle_overlay) ==> *final(overlay_vis) == spec_toggled(*old(overlay_vis))
            && !*final(toggle_overlay),
{
    if !*toggle_overlay {
        return ;
    }
    *overlay_vis = match *overlay_vis {
        VisState::Visible => VisState::Hidden,
        VisState::Hidden => VisState::Visible,
        VisState::Inherited => VisState::Visible,
    };
    *toggle_overlay = false;
}

/// Consumes the one-shot engineering toggle: when the flag is set, switches
/// between the two pipe views — if the normal view is shown it hides and the
/// engineering view shows, otherwise the reverse — and clears the flag;
/// otherwise changes nothing.
pub fn apply_input_toggle_engineering(
    toggle_engineering: &mut bool,
    pipes_vis: &mut VisState,
    pipes_eng_vis: &mut VisState,
)
    ensures
        !*old(toggle_engineering) ==> *final(pipes_vis) == *old(pipes_vis) && *final(pipes_eng_vis)
            == *old(pipes_eng_vis) && *final(toggle_engineering) == *old(toggle_engineering),
        *old(toggle_engineering) ==> !*final(toggle_engineering),
        *old(toggle_engineering) && is_shown(*old(pipes_vis)) ==> *final(pipes_vis)
            == VisState::Hidden && *final(pipes_eng_vis) == VisState::Visible,
        *old(toggle_engineering) && !is_shown(*old(pipes_vis)) ==> *final(pipes_vis)
            == VisState::Visible && *final(pipes_eng_vis) == VisState::Hidden,
{
    if !*toggle_engineering {
        return ;
    }
    let pipes_visible = match *pipes_vis {
        VisState::Visible | VisState::Inherited => true,
        VisState::Hidden => false,
    };
    if pipes_visible {
        *pipes_vis = VisState::Hidden;
        *pipes_eng_vis = VisState::Visible;
    } else {
        *pipes_vis = VisState::Visible;
        *pipes_eng_vis = VisState::Hidden;
    }
    *toggle_engineering = false;
}

} // verus!
