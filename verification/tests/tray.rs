use yapel::tray::{menu, menu_action, play_pause_label, rgba_to_argb, MenuAction};

#[test]
fn menu_ids_map_to_actions() {
    assert_eq!(menu_action("show"), MenuAction::Show);
    assert_eq!(menu_action("quit"), MenuAction::Quit);
    assert_eq!(menu_action("play_pause"), MenuAction::PlayPause);
    assert_eq!(menu_action("next"), MenuAction::Next);
    assert_eq!(menu_action("prev"), MenuAction::Previous);
    assert_eq!(menu_action("other"), MenuAction::Ignore);
}

#[test]
fn the_toggle_says_what_a_click_does() {
    assert_eq!(play_pause_label(true), "Pause");
    assert_eq!(play_pause_label(false), "Play");
    let m = menu(true);
    assert_eq!(m.len(), 7);
    assert_eq!(m[0], Some(("Show Yapel".to_string(), "show".to_string())));
    assert_eq!(m[1], None);
    assert_eq!(m[2], Some(("Pause".to_string(), "play_pause".to_string())));
    assert_eq!(m[6], Some(("Quit".to_string(), "quit".to_string())));
    assert_eq!(menu(false)[2], Some(("Play".to_string(), "play_pause".to_string())));
}

#[test]
fn icon_pixels_turn_argb() {
    assert_eq!(rgba_to_argb(vec![1, 2, 3, 4, 5, 6, 7, 8]), vec![4, 1, 2, 3, 8, 5, 6, 7]);
    // A trailing partial pixel is left alone.
    assert_eq!(rgba_to_argb(vec![1, 2, 3, 4, 9, 9]), vec![4, 1, 2, 3, 9, 9]);
    assert_eq!(rgba_to_argb(Vec::new()), Vec::<u8>::new());
}
