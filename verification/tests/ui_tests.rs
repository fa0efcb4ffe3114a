use render::{root_index, Alignment, ButtonState, Direction, UiID, WidgetInteraction, WidgetTree};

#[test]
fn axes() {
    assert_eq!(Direction::Row.main_axis(), 0);
    assert_eq!(Direction::Row.cross_axis(), 1);
    assert_eq!(Direction::Column.main_axis(), 1);
    assert_eq!(Direction::Column.cross_axis(), 0);
    assert_eq!(root_index(), 0);
    assert_ne!(Alignment::Start, Alignment::End);
}

#[test]
fn ids_follow_labels() {
    assert_eq!(UiID::new("play"), UiID::new("play"));
    assert_ne!(UiID::new("play"), UiID::new("quit"));
    assert_ne!(UiID::new("play"), UiID::cleared());
    assert_eq!(UiID::new_child(7, "play"), UiID::new_child(7, "play"));
    assert_ne!(UiID::new_child(7, "play"), UiID::new_child(8, "play"));
    assert_ne!(UiID::new_child(7, "play"), UiID::new("play"));
}

#[test]
fn click_takes_hover_press_release() {
    let mut ui = WidgetInteraction::new();
    // first frame under the pointer: not yet hot
    assert!(!ui.clickable("ok", true, false, true));
    assert!(!ui.check_active("ok"));
    ui.end_frame(false);
    assert!(ui.check_last_hot("ok"));
    // pressed while hot
    assert!(!ui.clickable("ok", true, false, true));
    assert!(ui.check_hot("ok"));
    assert!(ui.check_active("ok"));
    ui.end_frame(false);
    // released while hot and active
    assert!(ui.clickable("ok", true, true, false));
    ui.end_frame(true);
    assert!(!ui.check_active("ok"));
}

#[test]
fn leaving_the_element_loses_hot() {
    let mut ui = WidgetInteraction::new();
    ui.clickable("a", true, false, false);
    ui.end_frame(false);
    assert!(!ui.clickable("a", false, false, true));
    assert!(!ui.check_hot("a"));
    assert!(!ui.check_active("a"));
    ui.end_frame(false);
    assert!(!ui.check_last_hot("a"));
}

#[test]
fn slider_drags_while_active() {
    let mut ui = WidgetInteraction::new();
    assert!(!ui.slider("s", true, true));
    ui.end_frame(false);
    assert!(!ui.slider("s", true, true));
    ui.end_frame(false);
    assert!(ui.slider("s", true, false));
    ui.end_frame(true);
    assert!(!ui.check_active("s"));
}

#[test]
fn button_press_release() {
    let id = UiID::new("button");
    let mut state = ButtonState::new();
    assert!(!state.button(id, true, false, false));
    assert!(state.check_hot(id));
    assert!(!state.button(id, true, false, true));
    assert!(state.check_active(id));
    assert!(state.button(id, true, true, false));
    assert!(!state.check_active(id));
    // released away from the button: no click, no longer hot
    assert!(!state.button(id, true, false, true));
    assert!(!state.button(id, false, false, false));
    assert!(!state.check_hot(id));
    assert!(!state.button(id, false, true, false));
    assert!(!state.check_active(id));
}

#[test]
fn widgets_are_created_under_their_parents() {
    let mut tree = WidgetTree::new(String::from("ROOT"));
    assert_eq!(tree.len(), 1);
    let panel = tree.create_widget(String::from("panel"), 0);
    let button = tree.create_widget(String::from("button"), panel);
    let label = tree.create_widget(String::from("label"), panel);
    let footer = tree.create_widget(String::from("footer"), 0);
    assert_eq!((panel, button, label, footer), (1, 2, 3, 4));
    assert_eq!(tree.parent_of(button), panel);
    assert_eq!(tree.parent_of(0), 0);
    assert_eq!(tree.children_of(0), &vec![1, 4]);
    assert_eq!(tree.children_of(panel), &vec![2, 3]);
    assert!(tree.children_of(label).is_empty());
    assert_eq!(tree.find_label("label"), Some(3));
    assert_eq!(tree.find_label("ROOT"), Some(0));
    assert_eq!(tree.find_label("missing"), None);
}
