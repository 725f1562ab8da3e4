//! From keys to commands, and from commands to changes of the session.

use vstd::prelude::*;
use crate::app::{page_count, selected_of, App};
use crate::deletion::DeletionMessage;
use crate::requests::selected_indices;

verus! {

/// A key as the router sees it.
#[derive(Debug, Clone, Copy, PartialEq, Eq, Structural)]
pub enum Key {
    Char(char),
    Esc,
    Up,
    Down,
    Left,
    Right,
    Home,
    End,
    /// Any other key.
    Other,
}

/// What a key asks for.
#[derive(Debug, Clone, Copy, PartialEq, Eq, Structural)]
pub enum Command {
    Quit,
    Previous,
    Next,
    PreviousPage,
    NextPage,
    First,
    Last,
    ToggleCurrent,
    SelectAll,
    DeselectAll,
    ToggleSelectionMode,
    DeleteCurrent,
    DeleteSelected,
    /// The key is bound to nothing.
    Ignore,
}

impl Command {
    /// Whether the command moves the cursor or turns the page.
    pub open spec fn is_navigation(self) -> bool {
        self is Previous || self is Next || self is PreviousPage || self is NextPage || self
            is First || self is Last
    }
}

/// The binding of keys. `q` and Esc quit; the arrows, `k`, `j`, Home and End
/// move; Space, `a`, `d` and `s` select; `f` and `c` delete. With Control,
/// `d` and `x` delete the current entry; `d` alone deselects all and `x`
/// alone does nothing. For every other key Control makes no difference.
pub open spec fn command_for(key: Key, control: bool) -> Command {
    match key {
        Key::Esc => Command::Quit,
        Key::Up => Command::Previous,
        Key::Down => Command::Next,
        Key::Left => Command::PreviousPage,
        Key::Right => Command::NextPage,
        Key::Home => Command::First,
        Key::End => Command::Last,
        Key::Char(c) => if c == 'q' {
            Command::Quit
        } else if c == 'k' {
            Command::Previous
        } else if c == 'j' {
            Command::Next
        } else if c == ' ' {
            Command::ToggleCurrent
        } else if c == 'a' {
            Command::SelectAll
        } else if c == 's' {
            Command::ToggleSelectionMode
        } else if c == 'f' {
            Command::DeleteCurrent
        } else if c == 'c' {
            Command::DeleteSelected
        } else if c == 'x' {
            if control {
                Command::DeleteCurrent
            } else {
                Command::Ignore
            }
        } else if c == 'd' {
            if control {
                Command::DeleteCurrent
            } else {
                Command::DeselectAll
            }
        } else {
            Command::Ignore
        },
        Key::Other => Command::Ignore,
    }
}

/// Finds the command that a key is bound to; `control` says whether the
/// Control key was held.
pub fn route_key(key: Key, control: bool) -> (command: Command)
    ensures
        command == command_for(key, control),
{
    match key {
        Key::Esc => Command::Quit,
        Key::Up => Command::Previous,
        Key::Down => Command::Next,
        Key::Left => Command::PreviousPage,
        Key::Right => Command::NextPage,
        Key::Home => Command::First,
        Key::End => Command::Last,
        Key::Char(c) => {
            if c == 'q' {
                Command::Quit
            } else if c == 'k' {
                Command::Previous
            } else if c == 'j' {
                Command::Next
            } else if c == ' ' {
                Command::ToggleCurrent
            } else if c == 'a' {
                Command::SelectAll
            } else if c == 's' {
                Command::ToggleSelectionMode
            } else if c == 'f' {
                Command::DeleteCurrent
            } else if c == 'c' {
                Command::DeleteSelected
            } else if c == 'x' {
                if control {
                    Command::DeleteCurrent
                } else {
                    Command::Ignore
                }
            } else if c == 'd' {
                if control {
                    Command::DeleteCurrent
                } else {
                    Command::DeselectAll
                }
            } else {
                Command::Ignore
            }
        },
        Key::Other => Command::Ignore,
    }
}

/// What the loop does after a command.
#[derive(Debug)]
pub enum Effect {
    /// Leave the loop.
    Quit,
    /// The session may have changed: draw again.
    Redraw,
    /// A deletion was requested: send the message, do the work, draw again.
    Start(DeletionMessage),
    /// Nothing to do.
    Nothing,
}

/// Carries out a command on the session and tells the loop what follows.
/// Commands that need an entry do nothing in an empty list, and the deletion
/// of the selected entries does nothing when none is selected. After a
/// command that moves the cursor the page shown is the one that holds it.
pub fn apply_command(app: &mut App, command: Command, items_per_page: usize) -> (effect: Effect)
    requires
        items_per_page > 0,
    ensures
        old(app).entries_kept_in(*final(app)),
        old(app).indexed() ==> final(app).indexed(),
        old(app).cursor_valid() ==> final(app).cursor_valid(),
        command is Quit ==> effect is Quit && *final(app) == *old(app),
        command is Ignore ==> effect is Nothing && *final(app) == *old(app),
        command.is_navigation() ==> effect is Redraw,
        command.is_navigation() && old(app).page_matches(items_per_page)
            ==> final(app).page_matches(items_per_page),
        command.is_navigation() && !(command is PreviousPage || command is NextPage)
            && old(app).directories@.len() > 0 ==> final(app).page_matches(items_per_page)
            && final(app).cursor_valid(),
        command.is_navigation() && old(app).directories@.len() == 0 ==> (command is PreviousPage
            && old(app).current_page > 0) || *final(app) == *old(app),
        command is Next && old(app).directories@.len() > 0 ==> final(app).selected
            == (old(app).selected + 1) % (old(app).directories@.len() as int),
        command is Previous && old(app).directories@.len() > 0 ==> final(app).selected
            == old(app).stepped_back(),
        command is First && old(app).directories@.len() > 0 ==> *final(app) == (App {
            selected: 0,
            current_page: 0,
            ..*old(app)
        }),
        command is Last && old(app).directories@.len() > 0 ==> *final(app) == (App {
            selected: (old(app).directories@.len() - 1) as usize,
            current_page: ((old(app).directories@.len() - 1) / (items_per_page as int)) as usize,
            ..*old(app)
        }),
        command is NextPage ==> *final(app) == if old(app).current_page + 1 < page_count(
            old(app).directories@.len(),
            items_per_page as nat,
        ) {
            App {
                current_page: (old(app).current_page + 1) as usize,
                selected: ((old(app).current_page + 1) * items_per_page) as usize,
                ..*old(app)
            }
        } else {
            *old(app)
        },
        command is PreviousPage ==> *final(app) == if old(app).current_page > 0 {
            App {
                current_page: old(app).page_before(items_per_page),
                selected: (old(app).page_before(items_per_page) * items_per_page) as usize,
                ..*old(app)
            }
        } else {
            *old(app)
        },
        command is ToggleCurrent ==> effect is Redraw && if old(app).selected < old(app).directories@.len() {
            old(app).current_marked(
                *final(app),
                !old(app).directories@[old(app).selected as int].selected,
            )
        } else {
            *final(app) == *old(app)
        },
        command is SelectAll ==> effect is Redraw && old(app).all_marked(*final(app), true),
        command is DeselectAll ==> effect is Redraw && old(app).all_marked(*final(app), false),
        command is ToggleSelectionMode ==> effect is Redraw && *final(app) == (App {
            selection_mode: !old(app).selection_mode,
            ..*old(app)
        }),
        command is DeleteCurrent ==> if old(app).selected < old(app).directories@.len() {
            let entry = old(app).directories@[old(app).selected as int];
            &&& effect matches Effect::Start(message) && message == (DeletionMessage::StartSingle {
                index: old(app).selected,
                path: entry.path,
            })
            &&& old(app).batch_begun(*final(app), 1, entry.path@)
        } else {
            &&& *final(app) == *old(app)
            &&& if old(app).directories@.len() == 0 {
                effect is Nothing
            } else {
                effect is Redraw
            }
        },
        command is DeleteSelected ==> if selected_of(old(app).directories@).len() == 0 {
            effect is Nothing && *final(app) == *old(app)
        } else {
            let chosen = selected_indices(old(app).directories@, old(app).directories@.len());
            &&& chosen.len() > 0
            &&& effect matches Effect::Start(message) && message@
                == (crate::ledger::MessageView::StartMultiple {
                indices: chosen,
                paths: Seq::new(
                    chosen.len(),
                    |k: int| old(app).directories@[chosen[k] as int].path@,
                ),
            })
            &&& old(app).batch_begun(*final(app), chosen.len(), Seq::empty())
        },
{
    proof {
        app.lemma_same_paths_kept(*app);
        assert(app.directories@.len() == app.directories.len());
    }
    match command {
        Command::Quit => Effect::Quit,
        Command::Ignore => Effect::Nothing,
        Command::Previous => {
            app.previous(items_per_page);
            Effect::Redraw
        },
        Command::Next => {
            app.next(items_per_page);
            Effect::Redraw
        },
        Command::PreviousPage => {
            app.previous_page(items_per_page);
            Effect::Redraw
        },
        Command::NextPage => {
            app.next_page(items_per_page);
            Effect::Redraw
        },
        Command::First => {
            app.select_first();
            Effect::Redraw
        },
        Command::Last => {
            app.select_last(items_per_page);
            Effect::Redraw
        },
        Command::ToggleCurrent => {
            app.toggle_current_selection();
            Effect::Redraw
        },
        Command::SelectAll => {
            app.select_all();
            Effect::Redraw
        },
        Command::DeselectAll => {
            app.deselect_all();
            Effect::Redraw
        },
        Command::ToggleSelectionMode => {
            app.toggle_selection_mode();
            Effect::Redraw
        },
        Command::DeleteCurrent => {
            if app.is_empty() {
                Effect::Nothing
            } else {
                match app.start_delete_current_directory() {
                    Ok(message) => Effect::Start(message),
                    Err(_) => Effect::Redraw,
                }
            }
        },
        Command::DeleteSelected => {
            if app.get_selected_count() > 0 {
                proof {
                    lemma_selected_counts_agree(app.directories@, app.directories@.len());
                    assert(app.directories@.take(app.directories@.len() as int)
                        =~= app.directories@);
                }
                match app.start_delete_selected_directories() {
                    Some(message) => Effect::Start(message),
                    None => Effect::Nothing,
                }
            } else {
                Effect::Nothing
            }
        },
    }
}

/// There are as many selected indices as selected entries.
pub proof fn lemma_selected_counts_agree(entries: Seq<crate::entry::DirectoryInfo>, count: nat)
    requires
        count <= entries.len(),
    ensures
        selected_indices(entries, count).len() == selected_of(entries.take(count as int)).len(),
    decreases count,
{
    if count > 0 {
        lemma_selected_counts_agree(entries, (count - 1) as nat);
        crate::app::lemma_selected_step(entries, count - 1);
    } else {
        reveal(Seq::filter);
        assert(entries.take(0) =~= Seq::empty());
    }
}

} // verus!
