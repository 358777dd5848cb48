use babomemo::layout::Area;
use babomemo::screen::{
    button_area, confirmation_layout, note_buttons, settings_layout, toolbar_layout, viewport_for,
    ConfirmationLayout, SettingsLayout,
};

#[test]
fn viewport_lies_between_toolbar_and_status() {
    assert_eq!(viewport_for(Area::new(0, 0, 80, 24)), Some(Area { x: 0, y: 2, width: 80, height: 21 }));
    assert_eq!(viewport_for(Area::new(0, 0, 19, 24)), None);
    assert_eq!(viewport_for(Area::new(0, 0, 80, 5)), None);
    assert_eq!(viewport_for(Area::new(0, 0, 20, 6)), Some(Area { x: 0, y: 2, width: 20, height: 3 }));
}

#[test]
fn buttons_fit_or_are_left_out() {
    assert_eq!(button_area(2, 1, 10, 8), Some(Area { x: 2, y: 1, width: 8, height: 1 }));
    assert_eq!(button_area(2, 1, 9, 8), None);
    assert_eq!(button_area(2, 1, 10, 0), None);
}

#[test]
fn toolbar_buttons_wrap_to_second_row() {
    let area = Area::new(0, 0, 30, 24);
    let (quit, slots) = toolbar_layout(area, 6, &vec![5, 10, 9, 12]);
    assert_eq!(quit, Some(Area { x: 24, y: 0, width: 6, height: 1 }));
    assert_eq!(slots[0], Some(Area { x: 0, y: 0, width: 5, height: 1 }));
    assert_eq!(slots[1], Some(Area { x: 6, y: 0, width: 10, height: 1 }));
    assert_eq!(slots[2], Some(Area { x: 0, y: 1, width: 9, height: 1 }));
    assert_eq!(slots[3], Some(Area { x: 10, y: 1, width: 12, height: 1 }));
}

#[test]
fn toolbar_buttons_that_fit_nowhere_are_left_out() {
    let area = Area::new(0, 0, 20, 24);
    let (_, slots) = toolbar_layout(area, 6, &vec![12, 12, 25, 5]);
    assert_eq!(slots[0], Some(Area { x: 0, y: 0, width: 12, height: 1 }));
    assert_eq!(slots[1], Some(Area { x: 0, y: 1, width: 12, height: 1 }));
    assert_eq!(slots[2], None);
    assert_eq!(slots[3], None);
}

#[test]
fn note_buttons_sit_at_the_right_of_the_top_border() {
    assert_eq!(
        note_buttons(0, 40, 3, 7, 8),
        Some((Some(Area { x: 23, y: 3, width: 7, height: 1 }), Some(Area { x: 31, y: 3, width: 8, height: 1 })))
    );
    assert_eq!(note_buttons(0, 16, 3, 7, 8), None);
}

#[test]
fn confirmation_dialog_is_centred_with_its_buttons() {
    let layout = confirmation_layout(Area::new(0, 0, 80, 24), 20, 9, 8);
    assert_eq!(
        layout,
        ConfirmationLayout {
            modal: Area { x: 24, y: 8, width: 32, height: 7 },
            confirm: Some(Area { x: 31, y: 13, width: 9, height: 1 }),
            cancel: Some(Area { x: 41, y: 13, width: 8, height: 1 }),
        }
    );
}

#[test]
fn settings_dialog_places_its_controls() {
    let layout = settings_layout(Area::new(0, 0, 80, 24), 3, 3, 3, 6);
    assert_eq!(
        layout,
        SettingsLayout {
            modal: Area { x: 13, y: 8, width: 54, height: 8 },
            less: Some(Area { x: 58, y: 11, width: 3, height: 1 }),
            more: Some(Area { x: 62, y: 11, width: 3, height: 1 }),
            done: Some(Area { x: 37, y: 14, width: 6, height: 1 }),
        }
    );
}
