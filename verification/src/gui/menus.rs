use vstd::prelude::*;

use std::collections::HashMap;

use crate::gui::menu_definition::{
    is_back_link, Feature, MenuDefinition, MenuEntry, Toggle,
};

verus! {

broadcast use vstd::std_specs::hash::group_hash_axioms;

/// Id of the main menu, where the cheat menu starts.
pub const MAIN_MENU_ID: u32 = 0;

/// Id of the settings menu.
pub const SETTINGS_MENU_ID: u32 = 100;

/// Id of the vehicle menu.
pub const VEHICLE_MENU_ID: u32 = 200;

/// Id of the vehicle handling menu.
pub const VEHICLE_HANDLING_MENU_ID: u32 = 201;

/// Id of the player menu.
pub const PLAYER_MENU_ID: u32 = 300;

/// Id of the weapon menu.
pub const WEAPON_MENU_ID: u32 = 400;

/// State of the cheat menu: window visibility, the switches, the menus and where the user is.
pub struct TheCheese {
    window_hidden: bool,
    just_pressed_end: bool,
    seatbelt: bool,
    godmode: bool,
    never_wanted: bool,
    current_menu_id: u32,
    menu_definitions: HashMap<u32, MenuDefinition>,
}

/// The plain content of a `TheCheese`.
#[verifier::ext_equal]
pub struct CheeseView {
    pub window_hidden: bool,
    pub just_pressed_end: bool,
    pub seatbelt: bool,
    pub godmode: bool,
    pub never_wanted: bool,
    pub current_menu_id: u32,
    pub menus: Map<u32, MenuDefinition>,
}

impl TheCheese {
    /// Every menu's selection is on one of its entries (or at 0 for a menu without entries).
    #[verifier::type_invariant]
    closed spec fn selections_valid(&self) -> bool {
        forall|id: u32| #[trigger] self.menu_definitions@.contains_key(id) ==> selection_ok(
            self.menu_definitions@[id],
        )
    }
}

impl View for TheCheese {
    type V = CheeseView;

    closed spec fn view(&self) -> CheeseView {
        CheeseView {
            window_hidden: self.window_hidden,
            just_pressed_end: self.just_pressed_end,
            seatbelt: self.seatbelt,
            godmode: self.godmode,
            never_wanted: self.never_wanted,
            current_menu_id: self.current_menu_id,
            menus: self.menu_definitions@,
        }
    }
}

/// The value of a switch.
pub open spec fn toggle_value(v: CheeseView, t: Toggle) -> bool {
    match t {
        Toggle::Seatbelt => v.seatbelt,
        Toggle::Godmode => v.godmode,
        Toggle::NeverWanted => v.never_wanted,
    }
}

/// `v` with switch `t` set to `b`.
pub open spec fn with_toggle(v: CheeseView, t: Toggle, b: bool) -> CheeseView {
    match t {
        Toggle::Seatbelt => CheeseView { seatbelt: b, ..v },
        Toggle::Godmode => CheeseView { godmode: b, ..v },
        Toggle::NeverWanted => CheeseView { never_wanted: b, ..v },
    }
}

/// A menu's selection is on one of its entries (or at 0 for a menu without entries).
pub open spec fn selection_ok(m: MenuDefinition) -> bool {
    m.selected < m.entries@.len() || m.selected == 0
}

/// Every menu's selection is valid.
pub open spec fn selections_ok(v: CheeseView) -> bool {
    forall|id: u32| #[trigger] v.menus.contains_key(id) ==> selection_ok(v.menus[id])
}

/// Every entry that opens a menu opens one that exists.
pub open spec fn redirects_defined(v: CheeseView) -> bool {
    forall|id: u32, i: int|
        #![trigger v.menus[id].entries@[i]]
        v.menus.contains_key(id) && 0 <= i < v.menus[id].entries@.len() ==> (
        v.menus[id].entries@[i] matches MenuEntry::Redirect { to_menu_id, .. }
            ==> v.menus.contains_key(to_menu_id))
}

/// Selection of the current menu, or 0 when it does not exist.
pub open spec fn current_selection(v: CheeseView) -> usize {
    if v.menus.contains_key(v.current_menu_id) {
        v.menus[v.current_menu_id].selected
    } else {
        0
    }
}

/// `v` after selecting entry `entry` of the current menu: done only when the menu exists and has
/// such an entry.
pub open spec fn select_entry(v: CheeseView, entry: usize) -> CheeseView {
    let id = v.current_menu_id;
    if v.menus.contains_key(id) && entry < v.menus[id].entries@.len() {
        CheeseView { menus: v.menus.insert(id, MenuDefinition { selected: entry, ..v.menus[id] }), ..v }
    } else {
        v
    }
}

/// `v` after pressing the selected entry of the current menu, and the cheat to run: a switch
/// entry flips its switch, a redirect opens its menu, a cheat entry hands out its cheat.
pub open spec fn press(v: CheeseView) -> (CheeseView, Option<Feature>) {
    let id = v.current_menu_id;
    if v.menus.contains_key(id) && v.menus[id].selected < v.menus[id].entries@.len() {
        match v.menus[id].entries@[v.menus[id].selected as int] {
            MenuEntry::Execute { function, .. } => (v, Some(function)),
            MenuEntry::State { state, .. } => (with_toggle(v, state, !toggle_value(v, state)), None),
            MenuEntry::Redirect { to_menu_id, .. } => (CheeseView { current_menu_id: to_menu_id, ..v }, None),
        }
    } else {
        (v, None)
    }
}

/// `v` after one frame of menu keys: "down" selects the next entry, "up" the previous one (if
/// any), and "select" presses the selected entry.
pub open spec fn menu_keys(v: CheeseView, down: bool, up: bool, select: bool) -> (CheeseView, Option<Feature>) {
    let v1 = if down {
        select_entry(v, (current_selection(v) + 1) as usize)
    } else {
        v
    };
    let v2 = if up && current_selection(v1) != 0 {
        select_entry(v1, (current_selection(v1) - 1) as usize)
    } else {
        v1
    };
    if select {
        press(v2)
    } else {
        (v2, None)
    }
}

/// `v` after a frame in which the END key is (`end_down`) or is not held: the window is
/// shown or hidden once per press.
pub open spec fn end_key(v: CheeseView, end_down: bool) -> CheeseView {
    if end_down {
        if !v.just_pressed_end {
            CheeseView { just_pressed_end: true, window_hidden: !v.window_hidden, ..v }
        } else {
            v
        }
    } else {
        CheeseView { just_pressed_end: false, ..v }
    }
}

/// `e` opens menu `to` and is titled `name`.
pub open spec fn is_redirect(e: MenuEntry, name: Seq<char>, to: u32) -> bool {
    e matches MenuEntry::Redirect { name: n, to_menu_id } && n@ == name && to_menu_id == to
}

/// `e` flips switch `t` and is titled `name`.
pub open spec fn is_state(e: MenuEntry, name: Seq<char>, t: Toggle) -> bool {
    e matches MenuEntry::State { name: n, state } && n@ == name && state == t
}

/// `e` runs cheat `f` and is titled `name`.
pub open spec fn is_execute(e: MenuEntry, name: Seq<char>, f: Feature) -> bool {
    e matches MenuEntry::Execute { name: n, function } && n@ == name && function == f
}

/// The main menu: links to the vehicle, player and weapon menus, and no back link.
pub open spec fn main_menu_spec(m: MenuDefinition) -> bool {
    &&& m.name@ == "Main Menu"@
    &&& m.selected == 0
    &&& m.entries@.len() == 3
    &&& is_redirect(m.entries@[0], "Vehicle Mods"@, VEHICLE_MENU_ID)
    &&& is_redirect(m.entries@[1], "Player Mods"@, PLAYER_MENU_ID)
    &&& is_redirect(m.entries@[2], "Weapon Mods"@, WEAPON_MENU_ID)
}

/// The vehicle menu: back, the seatbelt switch, and a link to the handling menu.
pub open spec fn vehicle_menu_spec(m: MenuDefinition) -> bool {
    &&& m.name@ == "Vehicle Mods"@
    &&& m.selected == 0
    &&& m.entries@.len() == 3
    &&& is_back_link(m.entries@[0], MAIN_MENU_ID)
    &&& is_state(m.entries@[1], "Seatbelt"@, Toggle::Seatbelt)
    &&& is_redirect(m.entries@[2], "Handling"@, VEHICLE_HANDLING_MENU_ID)
}

/// The handling menu: back to the vehicle menu, then eight placeholder switches that all flip
/// the seatbelt.
pub open spec fn handling_menu_spec(m: MenuDefinition) -> bool {
    &&& m.name@ == "Handling"@
    &&& m.selected == 0
    &&& m.entries@.len() == 9
    &&& is_back_link(m.entries@[0], VEHICLE_MENU_ID)
    &&& is_state(m.entries@[1], "Placeholder1"@, Toggle::Seatbelt)
    &&& is_state(m.entries@[2], "Placeholder2"@, Toggle::Seatbelt)
    &&& is_state(m.entries@[3], "Placeholder3"@, Toggle::Seatbelt)
    &&& is_state(m.entries@[4], "Placeholder4"@, Toggle::Seatbelt)
    &&& is_state(m.entries@[5], "Placeholder5"@, Toggle::Seatbelt)
    &&& is_state(m.entries@[6], "Placeholder6"@, Toggle::Seatbelt)
    &&& is_state(m.entries@[7], "Placeholder7"@, Toggle::Seatbelt)
    &&& is_state(m.entries@[8], "All just placeholders :("@, Toggle::Seatbelt)
}

/// The player menu: back, the godmode and never-wanted switches, and the wanted level and
/// suicide cheats.
pub open spec fn player_menu_spec(m: MenuDefinition) -> bool {
    &&& m.name@ == "Player Mods"@
    &&& m.selected == 0
    &&& m.entries@.len() == 6
    &&& is_back_link(m.entries@[0], MAIN_MENU_ID)
    &&& is_state(m.entries@[1], "Godmode"@, Toggle::Godmode)
    &&& is_state(m.entries@[2], "Never Wanted"@, Toggle::NeverWanted)
    &&& is_execute(m.entries@[3], "Increase Wanted Level"@, Feature::IncreaseWanted)
    &&& is_execute(m.entries@[4], "Decrease Wanted Level"@, Feature::DecreaseWanted)
    &&& is_execute(m.entries@[5], "Suicide"@, Feature::Kill)
}

/// The weapon menu: back, and the ammunition refill cheat.
pub open spec fn weapons_menu_spec(m: MenuDefinition) -> bool {
    &&& m.name@ == "Weapon Mods"@
    &&& m.selected == 0
    &&& m.entries@.len() == 2
    &&& is_back_link(m.entries@[0], MAIN_MENU_ID)
    &&& is_execute(m.entries@[1], "Refill Ammo"@, Feature::RefillAmmo)
}

/// The menus as set up: the main, vehicle, handling, player and weapon menus under their ids.
pub open spec fn initial_menus(menus: Map<u32, MenuDefinition>) -> bool {
    &&& menus.dom() == set![MAIN_MENU_ID, VEHICLE_MENU_ID, VEHICLE_HANDLING_MENU_ID, PLAYER_MENU_ID, WEAPON_MENU_ID]
    &&& main_menu_spec(menus[MAIN_MENU_ID])
    &&& vehicle_menu_spec(menus[VEHICLE_MENU_ID])
    &&& handling_menu_spec(menus[VEHICLE_HANDLING_MENU_ID])
    &&& player_menu_spec(menus[PLAYER_MENU_ID])
    &&& weapons_menu_spec(menus[WEAPON_MENU_ID])
}

/// `a` and `b` agree on everything but the menus.
pub open spec fn same_but_menus(a: CheeseView, b: CheeseView) -> bool {
    &&& a.window_hidden == b.window_hidden
    &&& a.just_pressed_end == b.just_pressed_end
    &&& a.seatbelt == b.seatbelt
    &&& a.godmode == b.godmode
    &&& a.never_wanted == b.never_wanted
    &&& a.current_menu_id == b.current_menu_id
}

/// `b`'s menus are `a`'s with at most their selections changed.
pub open spec fn same_menu_entries(a: CheeseView, b: CheeseView) -> bool {
    &&& a.menus.dom() == b.menus.dom()
    &&& forall|id: u32| #[trigger] a.menus.contains_key(id) ==> b.menus[id].entries == a.menus[id].entries
        && b.menus[id].name == a.menus[id].name
}

/// The menu state is consistent: every selection is valid and every link leads to a menu.
pub open spec fn menu_wf(v: CheeseView) -> bool {
    &&& selections_ok(v)
    &&& redirects_defined(v)
}

fn redirect(name: &str, to: u32) -> (res: MenuEntry)
    ensures
        is_redirect(res, name@, to),
{
    MenuEntry::Redirect { name: String::from_str(name), to_menu_id: to }
}

fn state(name: &str, t: Toggle) -> (res: MenuEntry)
    ensures
        is_state(res, name@, t),
{
    MenuEntry::State { name: String::from_str(name), state: t }
}

fn execute(name: &str, f: Feature) -> (res: MenuEntry)
    ensures
        is_execute(res, name@, f),
{
    MenuEntry::Execute { name: String::from_str(name), function: f }
}

impl TheCheese {
    /// The cheat menu as it starts: window shown, switches off, the menus set up and the main
    /// menu open.
    pub fn new() -> (res: Self)
        ensures
            !res@.window_hidden,
            !res@.just_pressed_end,
            !res@.seatbelt,
            !res@.godmode,
            !res@.never_wanted,
            res@.current_menu_id == MAIN_MENU_ID,
            initial_menus(res@.menus),
            menu_wf(res@),
    {
        let mut me = TheCheese {
            window_hidden: false,
            just_pressed_end: false,
            seatbelt: false,
            godmode: false,
            never_wanted: false,
            current_menu_id: MAIN_MENU_ID,
            menu_definitions: HashMap::new(),
        };
        me.setup_menus();
        proof {
            lemma_initial_menus_wf(me@);
        }
        me
    }

    /// Installs the five menus and opens the main menu.
    pub(crate) fn setup_menus(&mut self)
        requires
            old(self)@.menus.dom().is_empty(),
        ensures
            same_but_menus(old(self)@, CheeseView { current_menu_id: old(self)@.current_menu_id, ..final(self)@ }),
            final(self)@.current_menu_id == MAIN_MENU_ID,
            initial_menus(final(self)@.menus),
    {
        proof {
            use_type_invariant(&*self);
        }
        self.setup_vehicle_menu();
        self.setup_main_menu();
        self.setup_vehicle_handling();
        self.setup_player_menu();
        self.setup_weapons_menu();
        self.current_menu_id = 0;
        assert(self@.menus.dom() =~= set![MAIN_MENU_ID, VEHICLE_MENU_ID, VEHICLE_HANDLING_MENU_ID, PLAYER_MENU_ID, WEAPON_MENU_ID]);
    }

    /// Puts menu `def` under `id`, replacing any menu there.
    fn install_menu(&mut self, id: u32, def: MenuDefinition)
        requires
            selection_ok(def),
        ensures
            same_but_menus(old(self)@, final(self)@),
            final(self)@.menus == old(self)@.menus.insert(id, def),
    {
        proof {
            use_type_invariant(&*self);
        }
        let mut menus: HashMap<u32, MenuDefinition> = HashMap::new();
        std::mem::swap(&mut menus, &mut self.menu_definitions);
        let ghost before = menus@;
        menus.insert(id, def);
        proof {
            assert forall|k: u32| #[trigger] menus@.contains_key(k) implies selection_ok(menus@[k]) by {
                assert(menus@ == before.insert(id, def));
                if k != id {
                    assert(before.contains_key(k));
                }
            }
        }
        self.menu_definitions = menus;
    }

    fn setup_main_menu(&mut self)
        ensures
            same_but_menus(old(self)@, final(self)@),
            final(self)@.menus == old(self)@.menus.insert(MAIN_MENU_ID, final(self)@.menus[MAIN_MENU_ID]),
            main_menu_spec(final(self)@.menus[MAIN_MENU_ID]),
    {
        let mut def = MenuDefinition::new("Main Menu");
        def.entries.clear();
        def.entries.push(redirect("Vehicle Mods", VEHICLE_MENU_ID));
        def.entries.push(redirect("Player Mods", PLAYER_MENU_ID));
        def.entries.push(redirect("Weapon Mods", WEAPON_MENU_ID));
        self.install_menu(MAIN_MENU_ID, def);
    }

    fn setup_vehicle_menu(&mut self)
        ensures
            same_but_menus(old(self)@, final(self)@),
            final(self)@.menus == old(self)@.menus.insert(VEHICLE_MENU_ID, final(self)@.menus[VEHICLE_MENU_ID]),
            vehicle_menu_spec(final(self)@.menus[VEHICLE_MENU_ID]),
    {
        let mut def = MenuDefinition::new("Vehicle Mods");
        def.entries.push(state("Seatbelt", Toggle::Seatbelt));
        def.entries.push(redirect("Handling", VEHICLE_HANDLING_MENU_ID));
        self.install_menu(VEHICLE_MENU_ID, def);
    }

    fn setup_vehicle_handling(&mut self)
        ensures
            same_but_menus(old(self)@, final(self)@),
            final(self)@.menus == old(self)@.menus.insert(
                VEHICLE_HANDLING_MENU_ID,
                final(self)@.menus[VEHICLE_HANDLING_MENU_ID],
            ),
            handling_menu_spec(final(self)@.menus[VEHICLE_HANDLING_MENU_ID]),
    {
        let mut def = MenuDefinition::new("Handling");
        def.replace_back_link(VEHICLE_MENU_ID);
        def.entries.push(state("Placeholder1", Toggle::Seatbelt));
        def.entries.push(state("Placeholder2", Toggle::Seatbelt));
        def.entries.push(state("Placeholder3", Toggle::Seatbelt));
        def.entries.push(state("Placeholder4", Toggle::Seatbelt));
        def.entries.push(state("Placeholder5", Toggle::Seatbelt));
        def.entries.push(state("Placeholder6", Toggle::Seatbelt));
        def.entries.push(state("Placeholder7", Toggle::Seatbelt));
        def.entries.push(state("All just placeholders :(", Toggle::Seatbelt));
        self.install_menu(VEHICLE_HANDLING_MENU_ID, def);
    }

    fn setup_player_menu(&mut self)
        ensures
            same_but_menus(old(self)@, final(self)@),
            final(self)@.menus == old(self)@.menus.insert(PLAYER_MENU_ID, final(self)@.menus[PLAYER_MENU_ID]),
            player_menu_spec(final(self)@.menus[PLAYER_MENU_ID]),
    {
        let mut def = MenuDefinition::new("Player Mods");
        def.entries.push(state("Godmode", Toggle::Godmode));
        def.entries.push(state("Never Wanted", Toggle::NeverWanted));
        def.entries.push(execute("Increase Wanted Level", Feature::IncreaseWanted));
        def.entries.push(execute("Decrease Wanted Level", Feature::DecreaseWanted));
        def.entries.push(execute("Suicide", Feature::Kill));
        self.install_menu(PLAYER_MENU_ID, def);
    }

    fn setup_weapons_menu(&mut self)
        ensures
            same_but_menus(old(self)@, final(self)@),
            final(self)@.menus == old(self)@.menus.insert(WEAPON_MENU_ID, final(self)@.menus[WEAPON_MENU_ID]),
            weapons_menu_spec(final(self)@.menus[WEAPON_MENU_ID]),
    {
        let mut def = MenuDefinition::new("Weapon Mods");
        def.entries.push(execute("Refill Ammo", Feature::RefillAmmo));
        self.install_menu(WEAPON_MENU_ID, def);
    }
}

impl TheCheese {
    /// Index of the selected entry of the current menu; 0 when the menu does not exist.
    pub fn get_current_selection(&self) -> (res: usize)
        ensures
            res == current_selection(self@),
    {
        match self.menu_definitions.get(&self.current_menu_id) {
            Some(menu) => menu.selected,
            None => 0,
        }
    }

    /// Number of entries of the current menu; 0 when the menu does not exist.
    pub fn get_current_max_entry(&self) -> (res: usize)
        ensures
            res == if self@.menus.contains_key(self@.current_menu_id) {
                self@.menus[self@.current_menu_id].entries@.len()
            } else {
                0
            },
    {
        match self.menu_definitions.get(&self.current_menu_id) {
            Some(menu) => menu.entries.len(),
            None => 0,
        }
    }

    /// Selects entry `entry` of the current menu, if the menu has such an entry.
    pub fn set_current_selected_entry(&mut self, entry: usize)
        ensures
            final(self)@ == select_entry(old(self)@, entry),
    {
        proof {
            use_type_invariant(&*self);
        }
        let id = self.current_menu_id;
        let mut menus: HashMap<u32, MenuDefinition> = HashMap::new();
        std::mem::swap(&mut menus, &mut self.menu_definitions);
        let ghost before = menus@;
        assert(before == old(self)@.menus);
        match menus.remove(&id) {
            None => {
                assert(menus@ =~= before);
            },
            Some(mut menu) => {
                let ghost m = menu;
                if entry < menu.entries.len() {
                    menu.selected = entry;
                }
                menus.insert(id, menu);
                proof {
                    assert(before.contains_key(id) && before[id] == m);
                    if entry < m.entries@.len() {
                        assert(menus@ =~= before.insert(id, MenuDefinition { selected: entry, ..m }));
                    } else {
                        assert(menus@ =~= before);
                    }
                }
            },
        }
        proof {
            assert forall|k: u32| #[trigger] menus@.contains_key(k) implies selection_ok(menus@[k]) by {
                assert(before.contains_key(k));
            }
        }
        self.menu_definitions = menus;
    }

    fn flip(&mut self, t: Toggle)
        ensures
            final(self)@ == with_toggle(old(self)@, t, !toggle_value(old(self)@, t)),
    {
        proof {
            use_type_invariant(&*self);
        }
        match t {
            Toggle::Seatbelt => self.seatbelt = !self.seatbelt,
            Toggle::Godmode => self.godmode = !self.godmode,
            Toggle::NeverWanted => self.never_wanted = !self.never_wanted,
        }
    }

    /// Presses the selected entry of the current menu: a switch entry flips its switch, a
    /// redirect opens its menu, and a cheat entry's cheat is returned for the caller to run.
    pub fn press_button(&mut self) -> (res: Option<Feature>)
        ensures
            (final(self)@, res) == press(old(self)@),
    {
        proof {
            use_type_invariant(&*self);
        }
        let id = self.current_menu_id;
        let (t, to, f) = match self.menu_definitions.get(&id) {
            None => (None, None, None),
            Some(menu) => {
                if menu.selected < menu.entries.len() {
                    match &menu.entries[menu.selected] {
                        MenuEntry::Execute { function, .. } => (None, None, Some(*function)),
                        MenuEntry::State { state, .. } => (Some(*state), None, None),
                        MenuEntry::Redirect { to_menu_id, .. } => (None, Some(*to_menu_id), None),
                    }
                } else {
                    (None, None, None)
                }
            },
        };
        match t {
            Some(t) => self.flip(t),
            None => {},
        }
        match to {
            Some(to) => self.current_menu_id = to,
            None => {},
        }
        f
    }

    /// Handles one frame of menu keys (each flag says whether its key was pressed): "down"
    /// selects the next entry, "up" the previous one, "select" presses the selected entry; the
    /// cheat to run, if one was pressed, is returned.
    pub fn update_cheat_menu(&mut self, down: bool, up: bool, select: bool) -> (res: Option<Feature>)
        ensures
            (final(self)@, res) == menu_keys(old(self)@, down, up, select),
    {
        proof {
            use_type_invariant(&*self);
        }
        if down {
            let cur_sel = self.get_current_selection();
            let max = self.get_current_max_entry();
            proof {
                if self@.menus.contains_key(self@.current_menu_id) {
                    assert(selection_ok(self@.menus[self@.current_menu_id]));
                }
            }
            assert(cur_sel < max || cur_sel == 0);
            self.set_current_selected_entry(cur_sel + 1);
        }
        if up {
            let cur_sel = self.get_current_selection();
            if cur_sel != 0 {
                self.set_current_selected_entry(cur_sel - 1);
            }
        }
        if select {
            return self.press_button();
        }
        None
    }

    /// Handles the END key for one frame (`end_down`: it is held): each press shows or hides
    /// the window once, however long it is held.
    pub fn handle_window_hiding(&mut self, end_down: bool)
        ensures
            final(self)@ == end_key(old(self)@, end_down),
    {
        proof {
            use_type_invariant(&*self);
        }
        if end_down {
            if !self.just_pressed_end {
                self.just_pressed_end = true;
                self.window_hidden = !self.window_hidden;
            }
        } else {
            self.just_pressed_end = false;
        }
    }

    /// Before the cheat menu is drawn: whether the current menu exists; when it does not, the
    /// main menu is opened instead.
    pub fn draw_cheat_menu(&mut self) -> (res: bool)
        ensures
            res == old(self)@.menus.contains_key(old(self)@.current_menu_id),
            final(self)@ == if res {
                old(self)@
            } else {
                CheeseView { current_menu_id: MAIN_MENU_ID, ..old(self)@ }
            },
    {
        proof {
            use_type_invariant(&*self);
        }
        let exists = self.menu_definitions.get(&self.current_menu_id).is_some();
        if !exists && self.current_menu_id != MAIN_MENU_ID {
            self.current_menu_id = MAIN_MENU_ID;
        }
        exists
    }

    /// The current menu, if it exists.
    pub fn current_menu(&self) -> (res: Option<&MenuDefinition>)
        ensures
            match res {
                Some(m) => self@.menus.contains_key(self@.current_menu_id) && *m == self@.menus[self@.current_menu_id],
                None => !self@.menus.contains_key(self@.current_menu_id),
            },
    {
        self.menu_definitions.get(&self.current_menu_id)
    }

    /// Whether the window is hidden.
    pub fn window_hidden(&self) -> (res: bool)
        ensures
            res == self@.window_hidden,
    {
        self.window_hidden
    }

    /// The value of switch `t`.
    pub fn toggle(&self, t: Toggle) -> (res: bool)
        ensures
            res == toggle_value(self@, t),
    {
        match t {
            Toggle::Seatbelt => self.seatbelt,
            Toggle::Godmode => self.godmode,
            Toggle::NeverWanted => self.never_wanted,
        }
    }

    /// Sets switch `t` (as a ticked or cleared checkbox does).
    pub fn set_toggle(&mut self, t: Toggle, value: bool)
        ensures
            final(self)@ == with_toggle(old(self)@, t, value),
    {
        proof {
            use_type_invariant(&*self);
        }
        match t {
            Toggle::Seatbelt => self.seatbelt = value,
            Toggle::Godmode => self.godmode = value,
            Toggle::NeverWanted => self.never_wanted = value,
        }
    }
}

/// Law: selecting, pressing, the menu keys and the END key keep the menu state consistent (every
/// selection valid, every link leading to a menu), change no menu's entries or title, and never
/// leave the user on a menu that does not exist.
pub proof fn law_menu_state_stays_consistent(v: CheeseView, entry: usize, down: bool, up: bool, select: bool, end_down: bool)
    requires
        menu_wf(v),
        v.menus.contains_key(v.current_menu_id),
    ensures
        menu_wf(select_entry(v, entry)) && same_menu_entries(v, select_entry(v, entry))
            && select_entry(v, entry).current_menu_id == v.current_menu_id,
        menu_wf(press(v).0) && same_menu_entries(v, press(v).0)
            && press(v).0.menus.contains_key(press(v).0.current_menu_id),
        menu_wf(menu_keys(v, down, up, select).0) && same_menu_entries(v, menu_keys(v, down, up, select).0)
            && menu_keys(v, down, up, select).0.menus.contains_key(menu_keys(v, down, up, select).0.current_menu_id),
        menu_wf(end_key(v, end_down)) && same_menu_entries(v, end_key(v, end_down)),
{
    lemma_select_keeps(v, entry);
    lemma_press_keeps(v);
    let v1 = if down {
        select_entry(v, (current_selection(v) + 1) as usize)
    } else {
        v
    };
    lemma_select_keeps(v, (current_selection(v) + 1) as usize);
    let v2 = if up && current_selection(v1) != 0 {
        select_entry(v1, (current_selection(v1) - 1) as usize)
    } else {
        v1
    };
    lemma_select_keeps(v1, (current_selection(v1) - 1) as usize);
    lemma_press_keeps(v2);
    lemma_same_entries_trans(v, v1, v2);
    lemma_same_entries_trans(v, v2, press(v2).0);
    assert(same_menu_entries(v, end_key(v, end_down)));
    assert(menu_wf(end_key(v, end_down)));
}

proof fn lemma_same_entries_trans(a: CheeseView, b: CheeseView, c: CheeseView)
    requires
        same_menu_entries(a, b),
        same_menu_entries(b, c),
    ensures
        same_menu_entries(a, c),
{
    assert forall|id: u32| #[trigger] a.menus.contains_key(id) implies c.menus[id].entries == a.menus[id].entries
        && c.menus[id].name == a.menus[id].name by {
        assert(b.menus.contains_key(id));
    }
}

proof fn lemma_select_keeps(v: CheeseView, entry: usize)
    requires
        menu_wf(v),
        v.menus.contains_key(v.current_menu_id),
    ensures
        menu_wf(select_entry(v, entry)),
        same_menu_entries(v, select_entry(v, entry)),
        select_entry(v, entry).current_menu_id == v.current_menu_id,
        select_entry(v, entry).menus.contains_key(v.current_menu_id),
{
    let w = select_entry(v, entry);
    let id = v.current_menu_id;
    if entry < v.menus[id].entries@.len() {
        assert(w.menus.dom() =~= v.menus.dom());
        assert forall|k: u32| #[trigger] w.menus.contains_key(k) implies selection_ok(w.menus[k]) by {
            assert(v.menus.contains_key(k));
        }
        assert forall|k: u32, i: int|
            #![trigger w.menus[k].entries@[i]]
            w.menus.contains_key(k) && 0 <= i < w.menus[k].entries@.len() implies (
            w.menus[k].entries@[i] matches MenuEntry::Redirect { to_menu_id, .. }
                ==> w.menus.contains_key(to_menu_id)) by {
            assert(v.menus.contains_key(k));
            assert(w.menus[k].entries == v.menus[k].entries);
            assert(w.menus[k].entries@[i] == v.menus[k].entries@[i]);
        }
    }
}

proof fn lemma_press_keeps(v: CheeseView)
    requires
        menu_wf(v),
        v.menus.contains_key(v.current_menu_id),
    ensures
        menu_wf(press(v).0),
        same_menu_entries(v, press(v).0),
        press(v).0.menus.contains_key(press(v).0.current_menu_id),
{
    let id = v.current_menu_id;
    if v.menus[id].selected < v.menus[id].entries@.len() {
        let e = v.menus[id].entries@[v.menus[id].selected as int];
        match e {
            MenuEntry::Redirect { to_menu_id, .. } => {
                assert(v.menus.contains_key(to_menu_id));
            },
            MenuEntry::State { state, .. } => {
                let w = press(v).0;
                assert(w.menus == v.menus);
            },
            _ => {},
        }
    }
}

/// Law: pressing a switch entry flips that entry's own switch and nothing else: the other two
/// switches, the window state, the open menu and every menu stay as they were, and no cheat is
/// handed out.
pub proof fn law_switch_press_flips_only_its_switch(v: CheeseView)
    requires
        v.menus.contains_key(v.current_menu_id),
        v.menus[v.current_menu_id].selected < v.menus[v.current_menu_id].entries@.len(),
        v.menus[v.current_menu_id].entries@[v.menus[v.current_menu_id].selected as int] is State,
    ensures
        ({
            let t = v.menus[v.current_menu_id].entries@[v.menus[v.current_menu_id].selected as int]->state;
            let w = press(v).0;
            &&& w.seatbelt == (if t is Seatbelt { !v.seatbelt } else { v.seatbelt })
            &&& w.godmode == (if t is Godmode { !v.godmode } else { v.godmode })
            &&& w.never_wanted == (if t is NeverWanted { !v.never_wanted } else { v.never_wanted })
            &&& w.window_hidden == v.window_hidden
            &&& w.just_pressed_end == v.just_pressed_end
            &&& w.current_menu_id == v.current_menu_id
            &&& w.menus == v.menus
            &&& press(v).1 is None
        }),
{
}

/// Law: pressing a link opens the menu it names and changes nothing else; pressing a cheat entry
/// changes nothing and hands out that entry's cheat; and pressing where no entry is selected (or
/// on a missing menu) does nothing.
pub proof fn law_press_links_and_cheats(v: CheeseView)
    ensures
        ({
            let id = v.current_menu_id;
            let w = press(v).0;
            if v.menus.contains_key(id) && v.menus[id].selected < v.menus[id].entries@.len() {
                let e = v.menus[id].entries@[v.menus[id].selected as int];
                match e {
                    MenuEntry::Redirect { to_menu_id, .. } => {
                        &&& w.current_menu_id == to_menu_id
                        &&& w.menus == v.menus
                        &&& w.seatbelt == v.seatbelt && w.godmode == v.godmode && w.never_wanted == v.never_wanted
                        &&& w.window_hidden == v.window_hidden && w.just_pressed_end == v.just_pressed_end
                        &&& press(v).1 is None
                    },
                    MenuEntry::Execute { function, .. } => w == v && press(v).1 == Some(function),
                    MenuEntry::State { .. } => press(v).1 is None,
                }
            } else {
                w == v && press(v).1 is None
            }
        }),
{
}

/// Law: pressing a switch entry twice leaves everything as it was.
pub proof fn law_switch_press_twice(v: CheeseView)
    requires
        v.menus.contains_key(v.current_menu_id),
        v.menus[v.current_menu_id].selected < v.menus[v.current_menu_id].entries@.len(),
        v.menus[v.current_menu_id].entries@[v.menus[v.current_menu_id].selected as int] is State,
    ensures
        press(press(v).0).0 == v,
        press(v).1 is None,
        press(press(v).0).1 is None,
{
    let t = v.menus[v.current_menu_id].entries@[v.menus[v.current_menu_id].selected as int]->state;
    let w = press(v).0;
    assert(w.menus == v.menus && w.current_menu_id == v.current_menu_id);
    assert(toggle_value(w, t) == !toggle_value(v, t));
    assert(press(w).0 =~= v);
}

/// Law: holding END shows or hides the window once, however many frames it is held; after a
/// release, the next press undoes it.
pub proof fn law_end_key_toggles_once(v: CheeseView)
    requires
        !v.just_pressed_end,
    ensures
        end_key(v, true).window_hidden == !v.window_hidden,
        end_key(end_key(v, true), true).window_hidden == !v.window_hidden,
        end_key(end_key(end_key(v, true), false), true).window_hidden == v.window_hidden,
{
}

/// Law: on an existing menu, moving the selection down and then up restores the state, when
/// there is an entry below; moving up and then down restores it, when there is one above.
pub proof fn law_down_up_restores(v: CheeseView)
    requires
        v.menus.contains_key(v.current_menu_id),
        v.menus[v.current_menu_id].selected < v.menus[v.current_menu_id].entries@.len(),
    ensures
        v.menus[v.current_menu_id].selected + 1 < v.menus[v.current_menu_id].entries@.len() ==> menu_keys(
            menu_keys(v, true, false, false).0,
            false,
            true,
            false,
        ).0 == v,
        v.menus[v.current_menu_id].selected > 0 ==> menu_keys(
            menu_keys(v, false, true, false).0,
            true,
            false,
            false,
        ).0 == v,
        menu_keys(v, true, false, false).1 is None && menu_keys(v, false, true, false).1 is None,
{
    let id = v.current_menu_id;
    let m = v.menus[id];
    assert(m.entries.len() == m.entries@.len());
    if m.selected + 1 < m.entries@.len() {
        let w = menu_keys(v, true, false, false).0;
        assert(w == select_entry(v, (m.selected + 1) as usize));
        assert(w.menus[id] == MenuDefinition { selected: (m.selected + 1) as usize, ..m });
        assert(current_selection(w) == m.selected + 1);
        let x = menu_keys(w, false, true, false).0;
        assert(x == select_entry(w, m.selected));
        assert(x.menus =~= v.menus) by {
            assert(MenuDefinition { selected: m.selected, ..w.menus[id] } == m);
        }
        assert(x =~= v);
    }
    if m.selected > 0 {
        let w = menu_keys(v, false, true, false).0;
        assert(w == select_entry(v, (m.selected - 1) as usize));
        assert(current_selection(w) == m.selected - 1);
        let x = menu_keys(w, true, false, false).0;
        assert(x == select_entry(w, m.selected));
        assert(x.menus =~= v.menus) by {
            assert(MenuDefinition { selected: m.selected, ..w.menus[id] } == m);
        }
        assert(x =~= v);
    }
}

/// The menus as set up are consistent.
proof fn lemma_initial_menus_wf(v: CheeseView)
    requires
        initial_menus(v.menus),
    ensures
        menu_wf(v),
{
    assert forall|id: u32| #[trigger] v.menus.contains_key(id) implies selection_ok(v.menus[id]) by {
        assert(v.menus.dom().contains(id));
    }
    assert forall|id: u32, i: int|
        v.menus.contains_key(id) && 0 <= i < v.menus[id].entries@.len() && (#[trigger] v.menus[id].entries@[i] matches MenuEntry::Redirect { .. })
        implies v.menus.contains_key(v.menus[id].entries@[i]->to_menu_id) by {
        assert(v.menus.dom().contains(id));
        assert(v.menus.dom().contains(MAIN_MENU_ID));
        assert(v.menus.dom().contains(VEHICLE_MENU_ID));
        assert(v.menus.dom().contains(VEHICLE_HANDLING_MENU_ID));
        assert(v.menus.dom().contains(PLAYER_MENU_ID));
        assert(v.menus.dom().contains(WEAPON_MENU_ID));
    }
}

} // verus!
