use voxel_world::block::Block;
use voxel_world::interaction::{break_block, place_block, Modify, Pointing};
use voxel_world::spacial::{IVec3, Side};
use voxel_world::ui::{
    blink, digit_block, flying_after, group_button_frame, requested_mode, GroupButtonPlace,
    InputMode, ModeInput, Visibility,
};

const NOTHING: ModeInput = ModeInput {
    clicked_behind: false,
    enter_keys: false,
    leave_keys: false,
    cursor_released: false,
};

#[test]
fn input_modes_switch() {
    assert_eq!(requested_mode(InputMode::UiInteraction, NOTHING), None);
    assert_eq!(
        requested_mode(InputMode::UiInteraction, ModeInput { clicked_behind: true, ..NOTHING }),
        Some(InputMode::PlayerControl)
    );
    assert_eq!(
        requested_mode(InputMode::UiInteraction, ModeInput { enter_keys: true, ..NOTHING }),
        Some(InputMode::PlayerControl)
    );
    assert_eq!(
        requested_mode(InputMode::UiInteraction, ModeInput { leave_keys: true, ..NOTHING }),
        None
    );
    assert_eq!(
        requested_mode(InputMode::PlayerControl, ModeInput { cursor_released: true, ..NOTHING }),
        Some(InputMode::UiInteraction)
    );
    assert_eq!(
        requested_mode(InputMode::PlayerControl, ModeInput { leave_keys: true, ..NOTHING }),
        Some(InputMode::UiInteraction)
    );
    assert_eq!(requested_mode(InputMode::PlayerControl, ModeInput { enter_keys: true, ..NOTHING }), None);
}

#[test]
fn cursor_blinks() {
    assert_eq!(blink(Visibility::Hidden), Visibility::Inherited);
    assert_eq!(blink(Visibility::Inherited), Visibility::Hidden);
    assert_eq!(blink(Visibility::Visible), Visibility::Visible);
    assert_eq!(blink(blink(Visibility::Hidden)), Visibility::Hidden);
}

#[test]
fn grouped_button_frames() {
    let first = group_button_frame(GroupButtonPlace::First);
    assert_eq!(first.radius, [4, 0, 0, 4]);
    assert_eq!(first.border, [2, 1, 2, 2]);
    let between = group_button_frame(GroupButtonPlace::Between);
    assert_eq!(between.radius, [0, 0, 0, 0]);
    assert_eq!(between.border, [1, 1, 2, 2]);
    let last = group_button_frame(GroupButtonPlace::Last);
    assert_eq!(last.radius, [0, 4, 4, 0]);
    assert_eq!(last.border, [1, 2, 2, 2]);
}

#[test]
fn keys_and_flying() {
    assert_eq!(digit_block(0), Some(Block::Stone));
    assert_eq!(digit_block(1), Some(Block::Sand));
    assert_eq!(digit_block(2), Some(Block::Grass));
    assert_eq!(digit_block(3), None);
    assert!(flying_after(None, true));
    assert!(!flying_after(None, false));
    assert!(flying_after(Some(true), false));
    assert!(!flying_after(Some(false), true));
}

#[test]
fn clicks_modify_the_world() {
    let pointing = Pointing { global: IVec3::new(1, 2, 3), side: Side::YPos };
    assert_eq!(break_block(pointing), Modify::Place { global: IVec3::new(1, 2, 3), block: Block::Air });
    assert_eq!(
        place_block(pointing, Block::Stone, false),
        Some(Modify::Place { global: IVec3::new(1, 3, 3), block: Block::Stone })
    );
    assert_eq!(place_block(pointing, Block::Stone, true), None);
    assert_eq!(
        place_block(pointing, Block::Water, true),
        Some(Modify::Place { global: IVec3::new(1, 3, 3), block: Block::Water })
    );
}
