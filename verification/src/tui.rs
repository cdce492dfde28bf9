//! The state behind the terminal view: what is selected, how far the list is
//! scrolled, what has been typed into the search bar, and how keys and the mouse
//! change that.

use crate::text::{pop_char, push_char};
use vstd::prelude::*;

verus! {

/// The part of the view that takes the keys.
#[derive(Clone, Copy, Debug, PartialEq, Eq, Structural)]
pub enum Selected {
    Nothing,
    Search,
    Tabel,
}

impl Selected {
    /// The part that the tabulator key moves to.
    pub open spec fn following(self) -> Selected {
        match self {
            Selected::Nothing => Selected::Search,
            Selected::Search => Selected::Tabel,
            Selected::Tabel => Selected::Nothing,
        }
    }

    /// The part that the tabulator key moves to.
    pub fn next(&self) -> (r: Selected)
        ensures
            r == self.following(),
    {
        match self {
            Selected::Nothing => Selected::Search,
            Selected::Search => Selected::Tabel,
            Selected::Tabel => Selected::Nothing,
        }
    }
}

/// A rectangle of the terminal, in cells.
#[derive(Clone, Copy, Debug, PartialEq, Eq, Structural)]
pub struct Area {
    pub x: u16,
    pub y: u16,
    pub width: u16,
    pub height: u16,
}

/// A key that was pressed.
#[derive(Clone, Copy, Debug, PartialEq, Eq, Structural)]
pub enum KeyInput {
    Char(char),
    Backspace,
    Tab,
    Esc,
    Other,
}

/// Something the mouse did.
#[derive(Clone, Copy, Debug, PartialEq, Eq, Structural)]
pub enum MouseInput {
    Down { column: u16, row: u16 },
    Moved,
    ScrollUp,
    ScrollDown,
    Other,
}

/// The furthest that the list scrolls.
pub const MAX_SCROLL: u16 = 10;

/// Rows from the top that belong to the search bar.
pub const SEARCH_ROWS: u16 = 3;

/// Rows at the bottom that belong to nothing.
pub const FOOTER_ROWS: u16 = 5;

/// What the state of the view is, to its users.
pub struct AppModel {
    pub scroll: u16,
    pub exit: bool,
    pub search_term: Seq<char>,
    pub selected: Selected,
    pub size: Area,
}

impl AppModel {
    /// The part that a click at `column` and `row` selects. A click outside
    /// `size` selects nothing new. Inside, the rows down to the third belong to
    /// the search bar, the last five to nothing, and those between to the list.
    pub open spec fn clicked(self, column: u16, row: u16) -> Selected {
        if self.size.x <= column && self.size.width >= column && self.size.y <= row
            && self.size.height >= row {
            if row <= SEARCH_ROWS {
                Selected::Search
            } else if row <= self.size.height - FOOTER_ROWS {
                Selected::Tabel
            } else {
                Selected::Nothing
            }
        } else {
            self.selected
        }
    }

    /// The state after the mouse did `mouse`. The wheel scrolls round: up from
    /// the furthest comes back to zero, down from zero goes to the furthest.
    pub open spec fn after_mouse(self, mouse: MouseInput) -> AppModel {
        match mouse {
            MouseInput::Down { column, row } => AppModel {
                selected: self.clicked(column, row),
                ..self
            },
            MouseInput::ScrollUp => AppModel {
                scroll: if self.scroll >= MAX_SCROLL {
                    0
                } else {
                    (self.scroll + 1) as u16
                },
                ..self
            },
            MouseInput::ScrollDown => AppModel {
                scroll: if self.scroll == 0 {
                    MAX_SCROLL
                } else {
                    (self.scroll - 1) as u16
                },
                ..self
            },
            _ => self,
        }
    }

    /// The state after `key` was pressed. While nothing is selected, `q` quits.
    /// While the search bar is selected, a character joins the search term and
    /// the backspace key takes the last one off. The tabulator key moves on to
    /// the next part whatever is selected, and the escape key selects nothing.
    pub open spec fn after_key(self, key: KeyInput) -> AppModel {
        match key {
            KeyInput::Char(c) => if c == 'q' && self.selected == Selected::Nothing {
                AppModel { exit: true, ..self }
            } else if self.selected == Selected::Search {
                AppModel { search_term: self.search_term.push(c), ..self }
            } else {
                self
            },
            KeyInput::Backspace => if self.selected == Selected::Search && self.search_term.len()
                > 0 {
                AppModel { search_term: self.search_term.drop_last(), ..self }
            } else {
                self
            },
            KeyInput::Tab => AppModel { selected: self.selected.following(), ..self },
            KeyInput::Esc => AppModel { selected: Selected::Nothing, ..self },
            KeyInput::Other => self,
        }
    }
}

/// The state of the view.
#[derive(Debug)]
pub struct App {
    scroll: u16,
    exit: bool,
    search_term: String,
    selected: Selected,
    size: Area,
}

impl View for App {
    type V = AppModel;

    closed spec fn view(&self) -> AppModel {
        AppModel {
            scroll: self.scroll,
            exit: self.exit,
            search_term: self.search_term@,
            selected: self.selected,
            size: self.size,
        }
    }
}

impl App {
    /// The state in which the view starts: nothing selected, nothing typed, not
    /// scrolled, over an empty area.
    pub fn new() -> (r: App)
        ensures
            r@ == (AppModel {
                scroll: 0,
                exit: false,
                search_term: Seq::empty(),
                selected: Selected::Nothing,
                size: Area { x: 0, y: 0, width: 0, height: 0 },
            }),
    {
        App {
            scroll: 0,
            exit: false,
            search_term: String::new(),
            selected: Selected::Nothing,
            size: Area { x: 0, y: 0, width: 0, height: 0 },
        }
    }

    /// How far the list is scrolled.
    pub fn scroll(&self) -> (r: u16)
        ensures
            r == self@.scroll,
    {
        self.scroll
    }

    /// What has been typed into the search bar.
    pub fn search_term(&self) -> (r: &String)
        ensures
            r@ == self@.search_term,
    {
        &self.search_term
    }

    /// Whether the user has asked to quit.
    pub fn should_exit(&self) -> (r: bool)
        ensures
            r == self@.exit,
    {
        self.exit
    }

    /// The part of the view that takes the keys.
    pub fn selected(&self) -> (r: Selected)
        ensures
            r == self@.selected,
    {
        self.selected
    }

    /// The area that the view was last drawn into.
    pub fn size(&self) -> (r: Area)
        ensures
            r == self@.size,
    {
        self.size
    }

    /// Takes note of the area that the view was drawn into.
    pub fn set_size(&mut self, size: Area)
        ensures
            final(self)@ == (AppModel { size, ..old(self)@ }),
    {
        self.size = size;
    }

    /// Asks to quit.
    pub fn exit(&mut self)
        ensures
            final(self)@ == (AppModel { exit: true, ..old(self)@ }),
    {
        self.exit = true;
    }

    /// Takes in what the mouse did.
    pub fn handle_mouse_event(&mut self, mouse: MouseInput)
        ensures
            final(self)@ == old(self)@.after_mouse(mouse),
    {
        match mouse {
            MouseInput::Down { column, row } => {
                if self.size.x <= column && self.size.width >= column && self.size.y <= row
                    && self.size.height >= row {
                    if row <= SEARCH_ROWS {
                        self.selected = Selected::Search;
                    } else if self.size.height >= FOOTER_ROWS && row <= self.size.height
                        - FOOTER_ROWS {
                        self.selected = Selected::Tabel;
                    } else {
                        self.selected = Selected::Nothing;
                    }
                }
            },
            MouseInput::ScrollUp => {
                if self.scroll >= MAX_SCROLL {
                    self.scroll = 0;
                } else {
                    self.scroll += 1;
                }
            },
            MouseInput::ScrollDown => {
                if self.scroll == 0 {
                    self.scroll = MAX_SCROLL;
                } else {
                    self.scroll -= 1;
                }
            },
            _ => {},
        }
    }

    /// Takes in a key that was pressed.
    pub fn handle_key_event(&mut self, key: KeyInput)
        ensures
            final(self)@ == old(self)@.after_key(key),
    {
        match key {
            KeyInput::Char(c) => {
                if c == 'q' && self.selected == Selected::Nothing {
                    self.exit = true;
                } else if self.selected == Selected::Search {
                    push_char(&mut self.search_term, c);
                }
            },
            KeyInput::Backspace => {
                if self.selected == Selected::Search {
                    pop_char(&mut self.search_term);
                }
            },
            KeyInput::Tab => {
                self.selected = self.selected.next();
            },
            KeyInput::Esc => {
                self.selected = Selected::Nothing;
            },
            KeyInput::Other => {},
        }
    }
}

} // verus!
