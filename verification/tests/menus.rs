use cheese::gui::menu_definition::{Feature, MenuDefinition, MenuEntry, Toggle};
use cheese::gui::menus::{TheCheese, MAIN_MENU_ID, PLAYER_MENU_ID, VEHICLE_HANDLING_MENU_ID, VEHICLE_MENU_ID, WEAPON_MENU_ID};

fn names(m: &MenuDefinition) -> Vec<String> {
    m.entries.iter().map(|e| e.name().to_string()).collect()
}

#[test]
fn menu_definition_basics() {
    let mut m = MenuDefinition::new("Test");
    assert_eq!(m.name, "Test");
    assert_eq!(names(&m), vec!["<< Back"]);
    assert_eq!(m.selected, 0);
    m.add_entry(MenuEntry::Execute { name: "Run".to_string(), function: Feature::Kill });
    m.add_entry(MenuEntry::State { name: "Run".to_string(), state: Toggle::Godmode });
    assert!(matches!(m.get_entry("Run"), Some(MenuEntry::Execute { .. })));
    assert!(m.get_entry("Nope").is_none());
    m.replace_back_link(42);
    assert!(matches!(m.entries[0], MenuEntry::Redirect { to_menu_id: 42, .. }));
}

#[test]
fn replace_back_link_needs_back_entry_first() {
    let mut m = MenuDefinition::new("Test");
    m.entries.clear();
    m.replace_back_link(3);
    assert!(m.entries.is_empty());
    m.add_entry(MenuEntry::Redirect { name: "Other".to_string(), to_menu_id: 9 });
    m.replace_back_link(3);
    assert!(matches!(m.entries[0], MenuEntry::Redirect { to_menu_id: 9, .. }));
}

#[test]
fn menus_as_set_up() {
    let mut c = TheCheese::new();
    assert!(!c.window_hidden());
    assert!(c.draw_cheat_menu());
    assert_eq!(names(c.current_menu().unwrap()), vec!["Vehicle Mods", "Player Mods", "Weapon Mods"]);
    assert_eq!(c.get_current_max_entry(), 3);
    assert_eq!(c.get_current_selection(), 0);
}

#[test]
fn navigate_to_player_menu_and_use_entries() {
    let mut c = TheCheese::new();
    assert_eq!(c.update_cheat_menu(true, false, false), None);
    assert_eq!(c.get_current_selection(), 1);
    assert_eq!(c.update_cheat_menu(false, false, true), None);
    assert_eq!(c.current_menu().unwrap().name, "Player Mods");
    let _ = PLAYER_MENU_ID;
    assert_eq!(c.update_cheat_menu(true, false, true), None);
    assert!(c.toggle(Toggle::Godmode));
    assert_eq!(c.update_cheat_menu(false, false, true), None);
    assert!(!c.toggle(Toggle::Godmode));
    c.update_cheat_menu(true, false, false);
    c.update_cheat_menu(true, false, false);
    assert_eq!(c.update_cheat_menu(false, false, true), Some(Feature::IncreaseWanted));
    c.update_cheat_menu(true, false, false);
    assert_eq!(c.update_cheat_menu(false, false, true), Some(Feature::DecreaseWanted));
    c.update_cheat_menu(true, false, false);
    assert_eq!(c.update_cheat_menu(false, false, true), Some(Feature::Kill));
    // cannot go past the last entry
    c.update_cheat_menu(true, false, false);
    assert_eq!(c.get_current_selection(), 5);
    // back to the top and out
    for _ in 0..10 {
        c.update_cheat_menu(false, true, false);
    }
    assert_eq!(c.get_current_selection(), 0);
    c.update_cheat_menu(false, false, true);
    assert_eq!(c.current_menu().unwrap().name, "Main Menu");
}

#[test]
fn handling_menu_links_back_to_vehicle_menu() {
    let mut c = TheCheese::new();
    c.update_cheat_menu(false, false, true);
    assert_eq!(c.current_menu().unwrap().name, "Vehicle Mods");
    c.update_cheat_menu(true, false, true);
    assert!(c.toggle(Toggle::Seatbelt));
    c.update_cheat_menu(true, false, true);
    assert_eq!(c.current_menu().unwrap().name, "Handling");
    assert_eq!(c.get_current_max_entry(), 9);
    c.update_cheat_menu(true, false, true);
    assert!(!c.toggle(Toggle::Seatbelt));
    c.update_cheat_menu(false, true, true);
    assert_eq!(c.current_menu().unwrap().name, "Vehicle Mods");
    let _ = (VEHICLE_MENU_ID, VEHICLE_HANDLING_MENU_ID, WEAPON_MENU_ID, MAIN_MENU_ID);
}

#[test]
fn weapons_menu_refill() {
    let mut c = TheCheese::new();
    c.set_current_selected_entry(2);
    c.press_button();
    assert_eq!(c.current_menu().unwrap().name, "Weapon Mods");
    c.set_current_selected_entry(1);
    assert_eq!(c.press_button(), Some(Feature::RefillAmmo));
    c.set_current_selected_entry(7);
    assert_eq!(c.get_current_selection(), 1);
}

#[test]
fn end_key_toggles_window_once_per_press() {
    let mut c = TheCheese::new();
    c.handle_window_hiding(true);
    assert!(c.window_hidden());
    c.handle_window_hiding(true);
    assert!(c.window_hidden());
    c.handle_window_hiding(false);
    assert!(c.window_hidden());
    c.handle_window_hiding(true);
    assert!(!c.window_hidden());
}

#[test]
fn toggles_can_be_set_directly() {
    let mut c = TheCheese::new();
    c.set_toggle(Toggle::NeverWanted, true);
    assert!(c.toggle(Toggle::NeverWanted));
    assert!(!c.toggle(Toggle::Seatbelt));
}

#[test]
fn down_then_up_restores_selection() {
    let mut c = TheCheese::new();
    assert_eq!(c.update_cheat_menu(true, false, false), None);
    assert_eq!(c.get_current_selection(), 1);
    assert_eq!(c.update_cheat_menu(false, true, false), None);
    assert_eq!(c.get_current_selection(), 0);
    assert_eq!(c.update_cheat_menu(false, true, false), None);
    assert_eq!(c.get_current_selection(), 0);
    c.update_cheat_menu(true, false, false);
    c.update_cheat_menu(true, false, false);
    c.update_cheat_menu(true, false, false);
    assert_eq!(c.get_current_selection(), 2);
    c.update_cheat_menu(false, true, false);
    c.update_cheat_menu(true, false, false);
    assert_eq!(c.get_current_selection(), 2);
    assert_eq!(names(c.current_menu().unwrap()), vec!["Vehicle Mods", "Player Mods", "Weapon Mods"]);
}
