use vstd::prelude::*;

verus! {

/// A cheat that a menu entry runs.
#[derive(Clone, Copy, Debug, PartialEq, Eq, Structural)]
pub enum Feature {
    IncreaseWanted,
    DecreaseWanted,
    Kill,
    RefillAmmo,
}

/// A switch that menu entries flip; entries with the same switch share its state.
#[derive(Clone, Copy, Debug, PartialEq, Eq, Structural)]
pub enum Toggle {
    Seatbelt,
    Godmode,
    NeverWanted,
}

/// One line of a menu.
pub enum MenuEntry {
    /// Runs a cheat when pressed.
    Execute { name: String, function: Feature },
    /// Flips a switch when pressed.
    State { name: String, state: Toggle },
    /// Opens another menu when pressed.
    Redirect { name: String, to_menu_id: u32 },
}

/// The name of an entry.
pub open spec fn entry_name(e: MenuEntry) -> Seq<char> {
    match e {
        MenuEntry::Execute { name, .. } => name@,
        MenuEntry::State { name, .. } => name@,
        MenuEntry::Redirect { name, .. } => name@,
    }
}

/// `a == b` on string slices, character by character.
fn str_eq(a: &str, b: &str) -> (res: bool)
    ensures
        res == (a@ == b@),
{
    let n = a.unicode_len();
    if n != b.unicode_len() {
        return false;
    }
    let mut i: usize = 0;
    while i < n
        invariant
            n == a@.len(),
            n == b@.len(),
            i <= n,
            forall|j: int| 0 <= j < i ==> a@[j] == b@[j],
        decreases n - i,
    {
        if a.get_char(i) != b.get_char(i) {
            return false;
        }
        i = i + 1;
    }
    assert(a@ =~= b@);
    true
}

impl MenuEntry {
    /// The entry's name.
    pub fn name(&self) -> (res: &str)
        ensures
            res@ == entry_name(*self),
    {
        match self {
            MenuEntry::Execute { name, .. } => name.as_str(),
            MenuEntry::State { name, .. } => name.as_str(),
            MenuEntry::Redirect { name, .. } => name.as_str(),
        }
    }
}

/// A menu: its title, its entries and the index of the selected entry.
pub struct MenuDefinition {
    pub name: String,
    pub entries: Vec<MenuEntry>,
    pub selected: usize,
}

/// Text of the entry that leads back to the parent menu.
pub const BACK_TEXT: &'static str = "<< Back";

/// `e` is a back link (a redirect titled `BACK_TEXT`) to menu `to`.
pub open spec fn is_back_link(e: MenuEntry, to: u32) -> bool {
    e matches MenuEntry::Redirect { name, to_menu_id } && name@ == BACK_TEXT@ && to_menu_id == to
}

impl MenuDefinition {
    /// A menu titled `name` whose only entry leads back to the main menu, with that entry
    /// selected.
    pub fn new(name: &str) -> (res: Self)
        ensures
            res.name@ == name@,
            res.entries@.len() == 1,
            is_back_link(res.entries@[0], 0),
            res.selected == 0,
    {
        let mut entries: Vec<MenuEntry> = Vec::new();
        entries.push(MenuEntry::Redirect { name: String::from_str(BACK_TEXT), to_menu_id: 0 });
        MenuDefinition { name: String::from_str(name), entries, selected: 0 }
    }

    /// Appends an entry.
    pub fn add_entry(&mut self, entry: MenuEntry)
        ensures
            final(self).entries@ == old(self).entries@.push(entry),
            final(self).name == old(self).name,
            final(self).selected == old(self).selected,
    {
        self.entries.push(entry);
    }

    /// The first entry named `name`.
    pub fn get_entry(&self, name: &str) -> (res: Option<&MenuEntry>)
        ensures
            match res {
                Some(e) => exists|i: int|
                    0 <= i < self.entries@.len() && self.entries@[i] == *e && entry_name(*e) == name@
                        && forall|j: int| 0 <= j < i ==> entry_name(#[trigger] self.entries@[j]) != name@,
                None => forall|j: int|
                    0 <= j < self.entries@.len() ==> entry_name(#[trigger] self.entries@[j]) != name@,
            },
    {
        let mut i: usize = 0;
        while i < self.entries.len()
            invariant
                i <= self.entries@.len(),
                forall|j: int| 0 <= j < i ==> entry_name(#[trigger] self.entries@[j]) != name@,
            decreases self.entries@.len() - i,
        {
            if str_eq(self.entries[i].name(), name) {
                return Some(&self.entries[i]);
            }
            i = i + 1;
        }
        None
    }

    /// Points the back link (a first entry that redirects and is titled `BACK_TEXT`) at
    /// `new_to_menu_id`; a menu without one is left as it is.
    pub fn replace_back_link(&mut self, new_to_menu_id: u32)
        ensures
            final(self).name == old(self).name,
            final(self).selected == old(self).selected,
            final(self).entries@.len() == old(self).entries@.len(),
            if old(self).entries@.len() > 0 && is_back_link(
                old(self).entries@[0],
                old(self).entries@[0]->to_menu_id,
            ) {
                &&& is_back_link(final(self).entries@[0], new_to_menu_id)
                &&& final(self).entries@.subrange(1, final(self).entries@.len() as int)
                    == old(self).entries@.subrange(1, old(self).entries@.len() as int)
            } else {
                final(self).entries@ == old(self).entries@
            },
    {
        if self.entries.len() == 0 {
            return;
        }
        let is_back = match &self.entries[0] {
            MenuEntry::Redirect { name, .. } => str_eq(name.as_str(), BACK_TEXT),
            _ => false,
        };
        if is_back {
            let name = String::from_str(BACK_TEXT);
            self.entries[0] = MenuEntry::Redirect { name, to_menu_id: new_to_menu_id };
            assert(final(self).entries@.subrange(1, final(self).entries@.len() as int)
                =~= old(self).entries@.subrange(1, old(self).entries@.len() as int));
        }
    }
}

} // verus!
