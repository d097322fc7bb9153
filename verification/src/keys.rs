//! The session's input routing: overlays are mutually exclusive and, when
//! active, intercept every key before normal navigation handling — delete
//! confirmation first, then rename input, then download mode, then the help
//! screen, then the search overlay, and only then normal browsing.

use vstd::prelude::*;
use crate::action::{Action, KeyCode, KeyInput};
use crate::data::{ObjectMetadata, Pane};
use crate::delete::{confirm_delete_rel, request_delete_rel, toggle_delete_rel};
use crate::download::{
    cancel_download_mode_rel, cancel_rename_rel, confirm_download_rel, finish_rename_rel,
    rename_backspace_rel, rename_char_rel, start_download_mode_rel, start_rename_rel,
};
use crate::localview::{local_enter_rel, local_go_back_rel, local_move_down_rel, local_move_up_rel};
use crate::navigation::{go_back_rel, move_down_rel, move_up_rel, refresh_rel, select_rel, switch_pane_rel};
use crate::search::{cancel_rel, search_backspace_rel, search_input_rel, start_search_rel};
use crate::session::App;

verus! {

/// Moving up in download mode: in the local pane the row above the first is
/// the parent slot (no selection); other panes move as usual.
pub open spec fn dm_up_rel(pre: App, post: App) -> bool {
    if pre.pane == Pane::LocalFs {
        match pre.local_selected {
            None => post == pre,
            Some(i) => if i == 0 {
                post.local_selected is None && post == (App {
                    local_selected: post.local_selected,
                    ..pre
                })
            } else {
                local_move_up_rel(pre, post)
            },
        }
    } else {
        move_up_rel(pre, post)
    }
}

/// Moving down in download mode: from the parent slot the first row is
/// selected; other panes move as usual.
pub open spec fn dm_down_rel(pre: App, post: App) -> bool {
    if pre.pane == Pane::LocalFs {
        match pre.local_selected {
            None => if pre.local_entries@.len() > 0 {
                post.local_selected == Some(0usize) && post == (App {
                    local_selected: post.local_selected,
                    ..pre
                })
            } else {
                post == pre
            },
            Some(i) => local_move_down_rel(pre, post),
        }
    } else {
        move_down_rel(pre, post)
    }
}

/// Accepting in download mode: the parent slot goes up, a directory row
/// descends; other panes select as usual.
pub open spec fn dm_enter_rel(pre: App, post: App, act: Option<Action>) -> bool {
    if pre.pane == Pane::LocalFs {
        match pre.local_selected {
            None => local_go_back_rel(pre, post, act),
            Some(i) => local_enter_rel(pre, post, act),
        }
    } else {
        select_rel(pre, post, act)
    }
}

/// Going back in download mode: the local pane goes to its parent; other
/// panes go back as usual.
pub open spec fn dm_back_rel(pre: App, post: App, act: Option<Action>) -> bool {
    if pre.pane == Pane::LocalFs {
        local_go_back_rel(pre, post, act)
    } else {
        go_back_rel(pre, post, act)
    }
}

impl App {
    /// Route one key press.  Exactly one overlay (or normal browsing)
    /// consumes it, in the fixed precedence order; the returned action is
    /// the outside work the consumed key asks for.
    #[verifier::rlimit(100)]
    pub fn on_key(&mut self, key: KeyInput) -> (act: Option<Action>)
        ensures
            ({
                let pre = *old(self);
                let post = *final(self);
                if pre.confirm_delete is Some {
                    match key.code {
                        KeyCode::Tab => act is None && toggle_delete_rel(pre, post),
                        KeyCode::Enter => if pre.confirm_delete.unwrap().selected_yes {
                            confirm_delete_rel(pre, post, act)
                        } else {
                            act is None && post.confirm_delete is None && post == (App {
                                confirm_delete: post.confirm_delete,
                                ..pre
                            })
                        },
                        KeyCode::Esc => act is None && post.confirm_delete is None && post == (App {
                            confirm_delete: post.confirm_delete,
                            ..pre
                        }),
                        _ => act is None && post == pre,
                    }
                } else if pre.rename_active {
                    match key.code {
                        KeyCode::Esc => act is None && cancel_rename_rel(pre, post),
                        KeyCode::Enter => act is None && finish_rename_rel(pre, post),
                        KeyCode::Backspace => act is None && rename_backspace_rel(pre, post),
                        KeyCode::Char(c) => act is None && rename_char_rel(pre, post, c),
                        _ => act is None && post == pre,
                    }
                } else if pre.download_mode {
                    match key.code {
                        KeyCode::Esc => act is None && cancel_download_mode_rel(pre, post),
                        KeyCode::Up => act is None && dm_up_rel(pre, post),
                        KeyCode::Down => act is None && dm_down_rel(pre, post),
                        KeyCode::Enter => dm_enter_rel(pre, post, act),
                        KeyCode::Backspace => dm_back_rel(pre, post, act),
                        KeyCode::Tab => act is None && switch_pane_rel(pre, post),
                        KeyCode::Char(c) => if c == 'k' {
                            act is None && dm_up_rel(pre, post)
                        } else if c == 'j' {
                            act is None && dm_down_rel(pre, post)
                        } else if c == 'l' {
                            dm_enter_rel(pre, post, act)
                        } else if c == 'h' {
                            dm_back_rel(pre, post, act)
                        } else if c == 'c' {
                            confirm_download_rel(pre, post, act)
                        } else if c == 'n' {
                            act is None && (if pre.pane == Pane::LocalFs {
                                start_rename_rel(pre, post)
                            } else {
                                post == pre
                            })
                        } else {
                            act is None && post == pre
                        },
                        _ => act is None && post == pre,
                    }
                } else if pre.show_help {
                    act is None && !post.show_help && post == (App {
                        show_help: post.show_help,
                        ..pre
                    })
                } else if pre.search_active {
                    match key.code {
                        KeyCode::Esc => act is None && cancel_rel(pre, post),
                        KeyCode::Enter => select_rel(pre, post, act),
                        KeyCode::Up => act is None && move_up_rel(pre, post),
                        KeyCode::Down => act is None && move_down_rel(pre, post),
                        KeyCode::Backspace => act is None && search_backspace_rel(pre, post),
                        KeyCode::Char(c) => act is None && search_input_rel(pre, post, c),
                        _ => act is None && post == pre,
                    }
                } else {
                    match key.code {
                        KeyCode::Up => act is None && move_up_rel(pre, post),
                        KeyCode::Down => act is None && move_down_rel(pre, post),
                        KeyCode::Enter => select_rel(pre, post, act),
                        KeyCode::Backspace => if key.super_mod {
                            act is None && request_delete_rel(pre, post)
                        } else {
                            go_back_rel(pre, post, act)
                        },
                        KeyCode::Tab => act is None && switch_pane_rel(pre, post),
                        KeyCode::Esc => act is None && post.error is None && post.metadata is None
                            && post.status_message is None && post.download_progress is None
                            && post == (App {
                            error: post.error,
                            metadata: post.metadata,
                            status_message: post.status_message,
                            download_progress: post.download_progress,
                            ..pre
                        }),
                        KeyCode::Char(c) => if c == 'q' {
                            act is None && post.should_quit && post == (App {
                                should_quit: post.should_quit,
                                ..pre
                            })
                        } else if c == 'p' && key.ctrl {
                            act is None && start_search_rel(pre, post)
                        } else if c == 'C' {
                            start_download_mode_rel(pre, post, act)
                        } else if c == '/' {
                            act is None && start_search_rel(pre, post)
                        } else if c == 'k' {
                            act is None && move_up_rel(pre, post)
                        } else if c == 'j' {
                            act is None && move_down_rel(pre, post)
                        } else if c == 'l' {
                            select_rel(pre, post, act)
                        } else if c == 'd' {
                            act is None && request_delete_rel(pre, post)
                        } else if c == 'h' {
                            go_back_rel(pre, post, act)
                        } else if c == 'r' {
                            refresh_rel(pre, post, act)
                        } else if c == '?' {
                            act is None && post.show_help && post == (App {
                                show_help: post.show_help,
                                ..pre
                            })
                        } else {
                            act is None && post == pre
                        },
                        KeyCode::Other => act is None && post == pre,
                    }
                }
            }),
    {
        if self.confirm_delete.is_some() {
            match key.code {
                KeyCode::Tab => {
                    self.toggle_delete_confirm();
                    None
                },
                KeyCode::Enter => {
                    let yes = match &self.confirm_delete {
                        Some(c) => c.selected_yes,
                        None => false,
                    };
                    if yes {
                        self.confirm_delete_yes()
                    } else {
                        self.confirm_delete = None;
                        None
                    }
                },
                KeyCode::Esc => {
                    self.confirm_delete = None;
                    None
                },
                _ => None,
            }
        } else if self.rename_active {
            match key.code {
                KeyCode::Esc => {
                    self.cancel_rename();
                    None
                },
                KeyCode::Enter => {
                    self.finish_rename();
                    None
                },
                KeyCode::Backspace => {
                    self.rename_backspace();
                    None
                },
                KeyCode::Char(c) => {
                    self.rename_char(c);
                    None
                },
                _ => None,
            }
        } else if self.download_mode {
            match key.code {
                KeyCode::Esc => {
                    self.cancel_download_mode();
                    None
                },
                KeyCode::Up => {
                    self.dm_up();
                    None
                },
                KeyCode::Down => {
                    self.dm_down();
                    None
                },
                KeyCode::Enter => self.dm_enter(),
                KeyCode::Backspace => self.dm_back(),
                KeyCode::Tab => {
                    self.switch_pane();
                    None
                },
                KeyCode::Char(c) => {
                    if c == 'k' {
                        self.dm_up();
                        None
                    } else if c == 'j' {
                        self.dm_down();
                        None
                    } else if c == 'l' {
                        self.dm_enter()
                    } else if c == 'h' {
                        self.dm_back()
                    } else if c == 'c' {
                        self.confirm_download()
                    } else if c == 'n' {
                        if self.pane == Pane::LocalFs {
                            self.start_rename();
                        }
                        None
                    } else {
                        None
                    }
                },
                _ => None,
            }
        } else if self.show_help {
            self.show_help = false;
            None
        } else if self.search_active {
            match key.code {
                KeyCode::Esc => {
                    self.cancel_search();
                    None
                },
                KeyCode::Enter => self.select(),
                KeyCode::Up => {
                    self.move_up();
                    None
                },
                KeyCode::Down => {
                    self.move_down();
                    None
                },
                KeyCode::Backspace => {
                    self.search_backspace();
                    None
                },
                KeyCode::Char(c) => {
                    self.search_input(c);
                    None
                },
                _ => None,
            }
        } else {
            match key.code {
                KeyCode::Up => {
                    self.move_up();
                    None
                },
                KeyCode::Down => {
                    self.move_down();
                    None
                },
                KeyCode::Enter => self.select(),
                KeyCode::Backspace => {
                    if key.super_mod {
                        self.request_delete();
                        None
                    } else {
                        self.go_back()
                    }
                },
                KeyCode::Tab => {
                    self.switch_pane();
                    None
                },
                KeyCode::Esc => {
                    self.error = None;
                    self.metadata = None;
                    self.status_message = None;
                    self.download_progress = None;
                    None
                },
                KeyCode::Char(c) => {
                    if c == 'q' {
                        self.should_quit = true;
                        None
                    } else if c == 'p' && key.ctrl {
                        self.start_search();
                        None
                    } else if c == 'C' {
                        self.start_download_mode()
                    } else if c == '/' {
                        self.start_search();
                        None
                    } else if c == 'k' {
                        self.move_up();
                        None
                    } else if c == 'j' {
                        self.move_down();
                        None
                    } else if c == 'l' {
                        self.select()
                    } else if c == 'd' {
                        self.request_delete();
                        None
                    } else if c == 'h' {
                        self.go_back()
                    } else if c == 'r' {
                        self.refresh()
                    } else if c == '?' {
                        self.show_help = true;
                        None
                    } else {
                        None
                    }
                },
                KeyCode::Other => None,
            }
        }
    }

    /// The local pane's move-up with the parent slot above the first row.
    fn dm_up(&mut self)
        ensures
            dm_up_rel(*old(self), *final(self)),
    {
        if self.pane == Pane::LocalFs {
            match self.local_selected {
                None => {},
                Some(i) => {
                    if i == 0 {
                        self.local_selected = None;
                    } else {
                        self.local_move_up();
                    }
                },
            }
        } else {
            self.move_up();
        }
    }

    /// The local pane's move-down out of the parent slot.
    fn dm_down(&mut self)
        ensures
            dm_down_rel(*old(self), *final(self)),
    {
        if self.pane == Pane::LocalFs {
            match self.local_selected {
                None => {
                    if self.local_entries.len() > 0 {
                        self.local_selected = Some(0);
                    }
                },
                Some(_) => {
                    self.local_move_down();
                },
            }
        } else {
            self.move_down();
        }
    }

    /// The local pane's accept: the parent slot ascends, a directory row
    /// descends.
    fn dm_enter(&mut self) -> (act: Option<Action>)
        ensures
            dm_enter_rel(*old(self), *final(self), act),
    {
        if self.pane == Pane::LocalFs {
            match self.local_selected {
                None => self.local_go_back(),
                Some(_) => self.local_enter(),
            }
        } else {
            self.select()
        }
    }

    /// The local pane's back.
    fn dm_back(&mut self) -> (act: Option<Action>)
        ensures
            dm_back_rel(*old(self), *final(self), act),
    {
        if self.pane == Pane::LocalFs {
            self.local_go_back()
        } else {
            self.go_back()
        }
    }
}

} // verus!
