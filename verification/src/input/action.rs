//! Named actions and the inputs bound to them.

use crate::input::gamepad::GamepadButton;
use crate::input::keyboard::KeyCode;
use crate::input::mouse::MouseButton;
use vstd::prelude::*;

verus! {

/// One input that can trigger an action.
#[derive(Debug, Clone)]
pub enum InputBinding {
    /// A keyboard key.
    Key(KeyCode),
    /// A mouse button.
    Mouse(MouseButton),
    /// A gamepad button.
    Gamepad(GamepadButton),
}

/// A named action with the inputs bound to it.
#[derive(Debug, Clone)]
pub struct Action {
    /// The action's name.
    pub name: String,
    /// The inputs that trigger the action.
    pub bindings: Vec<InputBinding>,
}

/// The hash table behind an [`ActionMap`].
///
/// It holds a `hashbrown::HashMap` from names to actions. Nothing of the
/// table's inside is visible to the verifier; what it holds is named by
/// [`table_entries`].
#[verifier::external_body]
#[derive(Debug)]
pub struct ActionTable {
    entries: hashbrown::HashMap<String, Action>,
}

/// What a table holds: the action stored under each name.
pub uninterp spec fn table_entries(table: ActionTable) -> Map<Seq<char>, Action>;

/// `hashbrown::HashMap::default`: a new table holds nothing.
#[verifier::external_body]
fn table_new() -> (made: ActionTable)
    ensures
        table_entries(made) =~= Map::empty(),
{
    ActionTable { entries: hashbrown::HashMap::default() }
}

/// `hashbrown::HashMap::insert`: afterwards the table holds `action` under
/// `key`, in place of what it held there before, and everything else as
/// before.
#[verifier::external_body]
fn table_insert(table: &mut ActionTable, key: String, action: Action)
    ensures
        table_entries(*final(table)) == table_entries(*old(table)).insert(key@, action),
{
    table.entries.insert(key, action);
}

/// `hashbrown::HashMap::get`: the action held under `name`, if there is one.
#[verifier::external_body]
fn table_get<'a>(table: &'a ActionTable, name: &str) -> (found: Option<&'a Action>)
    ensures
        found == if table_entries(*table).dom().contains(name@) {
            Some(&table_entries(*table)[name@])
        } else {
            None
        },
{
    table.entries.get(name)
}

/// Actions by name.
#[derive(Debug)]
pub struct ActionMap {
    actions: ActionTable,
}

impl View for ActionMap {
    type V = Map<Seq<char>, Action>;

    closed spec fn view(&self) -> Map<Seq<char>, Action> {
        table_entries(self.actions)
    }
}

impl ActionMap {
    /// Creates a map with no action.
    pub fn new() -> (m: Self)
        ensures
            m@ == Map::<Seq<char>, Action>::empty(),
    {
        ActionMap { actions: table_new() }
    }

    /// Registers `action` under its name, in place of any action registered
    /// under that name before.
    pub fn register(&mut self, action: Action)
        ensures
            final(self)@ == old(self)@.insert(action.name@, action),
    {
        let key = action.name.clone();
        table_insert(&mut self.actions, key, action);
    }

    /// The action registered under `name`, if there is one.
    pub fn get(&self, name: &str) -> (found: Option<&Action>)
        ensures
            found == if self@.dom().contains(name@) {
                Some(&self@[name@])
            } else {
                None
            },
    {
        table_get(&self.actions, name)
    }
}

impl Default for ActionMap {
    fn default() -> (m: Self)
        ensures
            m@ == Map::<Seq<char>, Action>::empty(),
    {
        ActionMap::new()
    }
}

} // verus!
