pub mod menu_definition;
pub mod menus;
