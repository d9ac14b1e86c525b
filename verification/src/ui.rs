//! Decisions of the user interface: which input mode is active, how the
//! console cursor blinks, and the frame of grouped buttons.
use vstd::prelude::*;

verus! {

/// Who receives the keyboard and the mouse.
#[derive(Clone, Copy, Debug, PartialEq, Eq, Structural, Hash)]
pub enum InputMode {
    PlayerControl,
    UiInteraction,
}

/// What happened to the input this frame, as far as switching modes goes.
#[derive(Clone, Copy, Debug, PartialEq, Eq, Structural)]
pub struct ModeInput {
    /// The empty area behind the interface was clicked.
    pub clicked_behind: bool,
    /// Escape, enter or tab was just pressed.
    pub enter_keys: bool,
    /// Escape, slash or T was just pressed.
    pub leave_keys: bool,
    /// The window no longer holds the cursor.
    pub cursor_released: bool,
}

/// The mode requested by the player this frame, if any: from the interface,
/// a click behind it or escape, enter or tab gives the control back; from
/// player control, escape, slash, T or a released cursor opens the interface.
pub fn requested_mode(mode: InputMode, input: ModeInput) -> (r: Option<InputMode>)
    ensures
        mode == InputMode::UiInteraction ==> (r == if input.clicked_behind || input.enter_keys {
            Some(InputMode::PlayerControl)
        } else {
            None
        }),
        mode == InputMode::PlayerControl ==> (r == if input.leave_keys || input.cursor_released {
            Some(InputMode::UiInteraction)
        } else {
            None
        }),
{
    match mode {
        InputMode::UiInteraction => {
            if input.clicked_behind || input.enter_keys {
                Some(InputMode::PlayerControl)
            } else {
                None
            }
        },
        InputMode::PlayerControl => {
            if input.leave_keys || input.cursor_released {
                Some(InputMode::UiInteraction)
            } else {
                None
            }
        },
    }
}

/// Whether an element is drawn.
#[derive(Clone, Copy, Debug, PartialEq, Eq, Structural, Hash)]
pub enum Visibility {
    Visible,
    Hidden,
    Inherited,
}

/// The next step of the cursor's blink: it alternates between hidden and
/// inherited; a cursor forced visible stays so.
pub fn blink(visibility: Visibility) -> (r: Visibility)
    ensures
        r == match visibility {
            Visibility::Visible => Visibility::Visible,
            Visibility::Hidden => Visibility::Inherited,
            Visibility::Inherited => Visibility::Hidden,
        },
{
    match visibility {
        Visibility::Visible => Visibility::Visible,
        Visibility::Hidden => Visibility::Inherited,
        Visibility::Inherited => Visibility::Hidden,
    }
}

/// Blinking twice returns to the start.
pub proof fn lemma_blink_twice(visibility: Visibility)
    ensures
        (match (match visibility {
            Visibility::Visible => Visibility::Visible,
            Visibility::Hidden => Visibility::Inherited,
            Visibility::Inherited => Visibility::Hidden,
        }) {
            Visibility::Visible => Visibility::Visible,
            Visibility::Hidden => Visibility::Inherited,
            Visibility::Inherited => Visibility::Hidden,
        }) == visibility,
{
}

/// The position of a button in a row of grouped buttons.
#[derive(Clone, Copy, Debug, PartialEq, Eq, Structural, Hash)]
pub enum GroupButtonPlace {
    First,
    Between,
    Last,
}

/// The rounded corners and border widths of a grouped button, in pixels:
/// `radius` is top-left, top-right, bottom-right, bottom-left; `border` is
/// left, right, top, bottom.
#[derive(Clone, Copy, Debug)]
pub struct ButtonFrame {
    pub radius: [i32; 4],
    pub border: [i32; 4],
}

/// The frame of a grouped button: the outer corners of the group are
/// rounded, its outer edges are two pixels wide and the inner ones one pixel,
/// so that two adjacent buttons share a two-pixel seam.
pub fn group_button_frame(place: GroupButtonPlace) -> (r: ButtonFrame)
    ensures
        place == GroupButtonPlace::First ==> r.radius@ == seq![4i32, 0, 0, 4] && r.border@ == seq![
            2i32,
            1,
            2,
            2,
        ],
        place == GroupButtonPlace::Between ==> r.radius@ == seq![0i32, 0, 0, 0] && r.border@
            == seq![1i32, 1, 2, 2],
        place == GroupButtonPlace::Last ==> r.radius@ == seq![0i32, 4, 4, 0] && r.border@ == seq![
            1i32,
            2,
            2,
            2,
        ],
{
    let r = match place {
        GroupButtonPlace::First => ButtonFrame { radius: [4, 0, 0, 4], border: [2, 1, 2, 2] },
        GroupButtonPlace::Between => ButtonFrame { radius: [0, 0, 0, 0], border: [1, 1, 2, 2] },
        GroupButtonPlace::Last => ButtonFrame { radius: [0, 4, 4, 0], border: [1, 2, 2, 2] },
    };
    assert(r.radius@ =~= match place {
        GroupButtonPlace::First => seq![4i32, 0, 0, 4],
        GroupButtonPlace::Between => seq![0i32, 0, 0, 0],
        GroupButtonPlace::Last => seq![0i32, 4, 4, 0],
    });
    assert(r.border@ =~= match place {
        GroupButtonPlace::First => seq![2i32, 1, 2, 2],
        GroupButtonPlace::Between => seq![1i32, 1, 2, 2],
        GroupButtonPlace::Last => seq![1i32, 2, 2, 2],
    });
    r
}

/// The block that a number key selects for placing: 0 stone, 1 sand,
/// 2 grass.
pub fn digit_block(digit: u8) -> (r: Option<crate::block::Block>)
    ensures
        r == match digit {
            0u8 => Some(crate::block::Block::Stone),
            1u8 => Some(crate::block::Block::Sand),
            2u8 => Some(crate::block::Block::Grass),
            _ => None,
        },
{
    match digit {
        0 => Some(crate::block::Block::Stone),
        1 => Some(crate::block::Block::Sand),
        2 => Some(crate::block::Block::Grass),
        _ => None,
    }
}

/// Whether the player flies after a request: an explicit request decides;
/// without one, flying toggles, so a player under physics starts flying.
pub fn flying_after(request: Option<bool>, has_physics: bool) -> (r: bool)
    ensures
        r == match request {
            Some(fly) => fly,
            None => has_physics,
        },
{
    match request {
        Some(fly) => fly,
        None => has_physics,
    }
}

} // verus!
