use vstd::prelude::*;

verus! {

/// The screen the application is on. `Downloads` and `Popup` remember the
/// mode they were opened from, to return to it when closed.
#[derive(Debug)]
pub enum Mode {
    Normal,
    Search,
    Searching,
    Results,
    Selected,
    Downloads(Box<Mode>),
    Popup(Box<Mode>),
    Player,
}

/// How a mode is shown in the status bar.
pub open spec fn mode_text(mode: Mode) -> Seq<char>
    decreases mode,
{
    match mode {
        Mode::Normal => "normal"@,
        Mode::Search => "search"@,
        Mode::Searching => "searching your query..."@,
        Mode::Results => "items list"@,
        Mode::Selected => "selected item info"@,
        Mode::Downloads(prev) => mode_text(*prev) + " -> downloads"@,
        Mode::Popup(prev) => mode_text(*prev) + " -> popup"@,
        Mode::Player => "player"@,
    }
}

impl Default for Mode {
    fn default() -> (m: Mode)
        ensures
            m == Mode::Normal,
    {
        Mode::Normal
    }
}

impl Mode {
    /// A copy of this mode.
    pub fn duplicate(&self) -> (m: Mode)
        ensures
            m == *self,
        decreases self,
    {
        match self {
            Mode::Normal => Mode::Normal,
            Mode::Search => Mode::Search,
            Mode::Searching => Mode::Searching,
            Mode::Results => Mode::Results,
            Mode::Selected => Mode::Selected,
            Mode::Downloads(prev) => Mode::Downloads(Box::new(prev.duplicate())),
            Mode::Popup(prev) => Mode::Popup(Box::new(prev.duplicate())),
            Mode::Player => Mode::Player,
        }
    }

    /// The text the status bar shows for this mode, as its `Display` writes it.
    pub fn describe(&self) -> (s: String)
        ensures
            s@ == mode_text(*self),
        decreases self,
    {
        match self {
            Mode::Normal => String::from_str("normal"),
            Mode::Search => String::from_str("search"),
            Mode::Searching => String::from_str("searching your query..."),
            Mode::Results => String::from_str("items list"),
            Mode::Selected => String::from_str("selected item info"),
            Mode::Downloads(prev) => prev.describe().concat(" -> downloads"),
            Mode::Popup(prev) => prev.describe().concat(" -> popup"),
            Mode::Player => String::from_str("player"),
        }
    }

    /// Whether this is the normal mode.
    pub fn is_normal(&self) -> (b: bool)
        ensures
            b == (*self is Normal),
    {
        match self {
            Mode::Normal => true,
            _ => false,
        }
    }
}

} // verus!
