//! The application state behind the window: the annotation session, the
//! hotkey bindings, the capture settings and which panels are shown. Every
//! user request is an operation here; what it asks of the outside world comes
//! back as a command for the caller to carry out.

use vstd::prelude::*;
use crate::bitmap::Bitmap;
use crate::capture::{
    capture_delay, capture_delay_ms, plan_capture, CaptureError, CaptureRequest,
};
use crate::hotkeys_utils::{
    dispatched, draft_conflict, registered_handles, staged, Action, Hotkey, HotkeyDispatcher,
    HotkeyError, Key, Modifier, Rebinding, RegisteredHotkey, default_bindings,
};
use crate::session::{
    clamp_pen_size, PointerEvent, Session, SessionError, SessionView, MIN_PEN_SIZE,
};
use crate::tool_utils::Tool;

verus! {

/// What the caller is asked to do after a hotkey fired.
#[derive(Clone, Copy, PartialEq, Eq, Structural, Debug)]
pub enum Command {
    /// Nothing.
    Nothing,
    /// Hide the window and start a capture.
    TakeSnapshot,
    /// Save the current bitmap to a file.
    SaveSnapshot,
    /// Put the current bitmap on the clipboard.
    CopySnapshot,
}

/// Mathematical model of the application state.
pub struct AppView {
    pub session: SessionView,
    pub bindings: Seq<Hotkey>,
    pub valid_hotkeys: bool,
    pub display: usize,
    pub timer_ms: u64,
    pub show_settings: bool,
    pub show_credits: bool,
    pub show_tools: bool,
}

impl AppView {
    /// The state at start-up: nothing captured, no tool, the thinnest pen,
    /// the default bindings with no conflict recorded, the first display, no
    /// timer, the main view with the tools hidden.
    pub open spec fn is_initial(self) -> bool {
        &&& self.session.wf()
        &&& self.session.snapshot is None
        &&& self.session.undo.len() == 0
        &&& self.session.redo.len() == 0
        &&& self.session.tool == Tool::NoTool
        &&& !self.session.tooling
        &&& self.session.pen_size == MIN_PEN_SIZE
        &&& self.session.pen_color@ == seq![243u8, 148u8, 133u8]
        &&& self.session.last_pos == (0i32, 0i32)
        &&& self.session.current_pos == (0i32, 0i32)
        &&& self.bindings == default_bindings()
        &&& self.valid_hotkeys
        &&& self.display == 0
        &&& self.timer_ms == 0
        &&& !self.show_settings
        &&& !self.show_credits
        &&& !self.show_tools
    }

    /// The state after a fired hotkey asked for `action`. Everything but
    /// taking a snapshot is ignored until a bitmap exists.
    pub open spec fn acted(self, action: Action) -> AppView {
        if self.session.snapshot is None {
            self
        } else {
            match action {
                Action::SelectNoTool => AppView {
                    session: self.session.with_tool(Tool::NoTool),
                    ..self
                },
                Action::SelectPen => AppView { session: self.session.with_tool(Tool::Pen), ..self },
                Action::SelectCrop => AppView {
                    session: self.session.with_tool(Tool::Crop),
                    ..self
                },
                Action::Undo => AppView { session: self.session.undone(), ..self },
                Action::Redo => AppView { session: self.session.redone(), ..self },
                _ => self,
            }
        }
    }

    /// The command that a fired hotkey's action hands to the caller.
    pub open spec fn command_for(self, action: Action) -> Command {
        match action {
            Action::TakeSnapshot => Command::TakeSnapshot,
            Action::SaveImage => if self.session.snapshot is Some {
                Command::SaveSnapshot
            } else {
                Command::Nothing
            },
            Action::CopyImage => if self.session.snapshot is Some {
                Command::CopySnapshot
            } else {
                Command::Nothing
            },
            _ => Command::Nothing,
        }
    }
}

/// The application state.
pub struct SnapRustApp {
    session: Session,
    hotkeys: HotkeyDispatcher,
    display: usize,
    timer_ms: u64,
    show_settings: bool,
    show_credits: bool,
    show_tools: bool,
}

impl View for SnapRustApp {
    type V = AppView;

    closed spec fn view(&self) -> AppView {
        AppView {
            session: self.session@,
            bindings: self.hotkeys.bindings(),
            valid_hotkeys: self.hotkeys.valid(),
            display: self.display,
            timer_ms: self.timer_ms,
            show_settings: self.show_settings,
            show_credits: self.show_credits,
            show_tools: self.show_tools,
        }
    }
}

impl Default for SnapRustApp {
    /// The state at start-up: nothing captured, the default bindings, the
    /// first display, no timer, the main view with the tools hidden.
    fn default() -> (res: Self)
        ensures
            res@.is_initial(),
    {
        SnapRustApp {
            session: Session::new(),
            hotkeys: HotkeyDispatcher::new(),
            display: 0,
            timer_ms: 0,
            show_settings: false,
            show_credits: false,
            show_tools: false,
        }
    }
}

impl SnapRustApp {
    /// The state at start-up, as `default` gives it.
    pub fn new() -> (res: Self)
        ensures
            res@.is_initial(),
    {
        SnapRustApp::default()
    }

    /// The annotation session.
    pub fn session(&self) -> (res: &Session)
        ensures
            res@ == self@.session,
            res.wf(),
    {
        proof {
            use_type_invariant(&self.session);
        }
        &self.session
    }

    /// The hotkey bindings.
    pub fn hotkeys(&self) -> (res: &HotkeyDispatcher)
        ensures
            res.bindings() == self@.bindings,
            res.valid() == self@.valid_hotkeys,
            res.wf(),
    {
        proof {
            use_type_invariant(&self.hotkeys);
        }
        &self.hotkeys
    }

    /// The display that captures are taken of.
    pub fn display(&self) -> (res: usize)
        ensures
            res == self@.display,
    {
        self.display
    }

    /// The capture timer, in milliseconds.
    pub fn timer_ms(&self) -> (res: u64)
        ensures
            res == self@.timer_ms,
    {
        self.timer_ms
    }

    /// Whether the settings view is shown.
    pub fn show_settings(&self) -> (res: bool)
        ensures
            res == self@.show_settings,
    {
        self.show_settings
    }

    /// Whether the credits view is shown.
    pub fn show_credits(&self) -> (res: bool)
        ensures
            res == self@.show_credits,
    {
        self.show_credits
    }

    /// Whether the tool panel is shown.
    pub fn show_tools(&self) -> (res: bool)
        ensures
            res == self@.show_tools,
    {
        self.show_tools
    }

    /// Chooses the display that captures are taken of.
    pub fn set_display(&mut self, display: usize)
        ensures
            final(self)@ == (AppView { display, ..old(self)@ }),
    {
        self.display = display;
    }

    /// Sets the capture timer, in milliseconds.
    pub fn set_timer_ms(&mut self, timer_ms: u64)
        ensures
            final(self)@ == (AppView { timer_ms, ..old(self)@ }),
    {
        self.timer_ms = timer_ms;
    }

    /// Lists the handle of every binding's active chord, for the caller to
    /// register with the system.
    pub fn register_hotkeys(&mut self) -> (handles: Vec<RegisteredHotkey>)
        ensures
            final(self)@ == old(self)@,
            handles@ == registered_handles(final(self)@.bindings),
    {
        self.hotkeys.register_hotkeys()
    }

    /// Lists the handles that the bindings were last registered under, for
    /// the caller to release.
    pub fn unregister_hotkeys(&self) -> (handles: Vec<RegisteredHotkey>)
        ensures
            handles@ == registered_handles(self@.bindings),
    {
        self.hotkeys.unregister_hotkeys()
    }

    /// Handles one hotkey event: the identifier of the fired handle and
    /// whether the chord was pressed (rather than let go).
    ///
    /// A pressed chord triggers the action of the last binding registered
    /// under the identifier. Tool changes, undo and redo are carried out
    /// here; capturing, saving and copying come back as a command. All but
    /// capturing are ignored until a bitmap exists.
    pub fn register_hotkey_listener(&mut self, event_id: u32, pressed: bool) -> (res: Command)
        ensures
            final(self)@.session.wf(),
            !pressed || dispatched(old(self)@.bindings, event_id) is None ==> res
                == Command::Nothing && final(self)@ == old(self)@,
            pressed ==> (dispatched(old(self)@.bindings, event_id) matches Some(action) ==> res
                == old(self)@.command_for(action) && final(self)@ == old(self)@.acted(action)),
    {
        proof {
            use_type_invariant(&self.session);
        }
        if !pressed {
            return Command::Nothing;
        }
        match self.hotkeys.dispatch(event_id) {
            None => Command::Nothing,
            Some(action) => {
                let has_image = self.session.snapshot().is_some();
                match action {
                    Action::TakeSnapshot => Command::TakeSnapshot,
                    Action::SaveImage => {
                        if has_image {
                            Command::SaveSnapshot
                        } else {
                            Command::Nothing
                        }
                    },
                    Action::CopyImage => {
                        if has_image {
                            Command::CopySnapshot
                        } else {
                            Command::Nothing
                        }
                    },
                    Action::SelectNoTool => {
                        self.session.set_tool(Tool::NoTool);
                        Command::Nothing
                    },
                    Action::SelectPen => {
                        self.session.set_tool(Tool::Pen);
                        Command::Nothing
                    },
                    Action::SelectCrop => {
                        self.session.set_tool(Tool::Crop);
                        Command::Nothing
                    },
                    Action::Undo => {
                        if has_image {
                            self.session.undo();
                        }
                        Command::Nothing
                    },
                    Action::Redo => {
                        if has_image {
                            self.session.redo();
                        }
                        Command::Nothing
                    },
                }
            },
        }
    }

    /// Plans a capture of the chosen display, given how many displays are
    /// enumerated now. The delay is the chosen timer, lengthened when it is
    /// short. A display index that names none of the displays is refused.
    pub fn get_snapshot(&self, display_count: usize) -> (res: Result<CaptureRequest, CaptureError>)
        ensures
            self@.display < display_count ==> res == Ok::<CaptureRequest, CaptureError>(
                CaptureRequest { display: self@.display, delay_ms: capture_delay(self@.timer_ms) },
            ),
            self@.display >= display_count ==> res == Err::<CaptureRequest, CaptureError>(
                CaptureError::InvalidDisplay,
            ),
    {
        plan_capture(self.display, display_count, capture_delay_ms(self.timer_ms))
    }

    /// The current bitmap's dimensions and bytes, for the caller to save.
    /// Fails when nothing has been captured.
    pub fn save_snapshot(&self) -> (res: Result<(u32, u32, &Vec<u8>), SessionError>)
        ensures
            self@.session.snapshot is None ==> res == Err::<(u32, u32, &Vec<u8>), SessionError>(
                SessionError::NoImage,
            ),
            self@.session.snapshot matches Some(b) ==> (res matches Ok((w, h, bytes)) && w
                == b.width && h == b.height && bytes@ == b.data && b.wf()),
    {
        self.session.export()
    }

    /// The current bitmap's dimensions and bytes, for the caller to put on
    /// the clipboard. Fails when nothing has been captured.
    pub fn copy_snapshot(&self) -> (res: Result<(usize, usize, &Vec<u8>), SessionError>)
        ensures
            self@.session.snapshot is None ==> res == Err::<
                (usize, usize, &Vec<u8>),
                SessionError,
            >(SessionError::NoImage),
            self@.session.snapshot matches Some(b) ==> (res matches Ok((w, h, bytes)) && w
                == b.width && h == b.height && bytes@ == b.data && b.wf()),
    {
        self.session.to_clipboard_payload()
    }

    /// Steps the session back one checkpoint.
    pub fn undo(&mut self)
        ensures
            final(self)@.session.wf(),
            final(self)@ == (AppView { session: old(self)@.session.undone(), ..old(self)@ }),
    {
        self.session.undo();
    }

    /// Steps the session forward one checkpoint.
    pub fn redo(&mut self)
        ensures
            final(self)@.session.wf(),
            final(self)@ == (AppView { session: old(self)@.session.redone(), ..old(self)@ }),
    {
        self.session.redo();
    }

    /// Selects a tool.
    pub fn select_tool(&mut self, tool: Tool)
        ensures
            final(self)@.session.wf(),
            final(self)@ == (AppView { session: old(self)@.session.with_tool(tool), ..old(self)@ }),
    {
        self.session.set_tool(tool);
    }

    /// Sets the pen radius, brought into the allowed range.
    pub fn set_pen_size(&mut self, size: usize)
        ensures
            final(self)@.session.wf(),
            final(self)@ == (AppView {
                session: SessionView { pen_size: clamp_pen_size(size), ..old(self)@.session },
                ..old(self)@
            }),
    {
        self.session.set_pen_size(size);
    }

    /// Sets the pen colour.
    pub fn set_pen_color(&mut self, color: [u8; 3])
        ensures
            final(self)@.session.wf(),
            final(self)@ == (AppView {
                session: SessionView { pen_color: color, ..old(self)@.session },
                ..old(self)@
            }),
    {
        self.session.set_pen_color(color);
    }

    /// Routes one pointer event on the displayed image to the session.
    pub fn update_editing(&mut self, event: PointerEvent, displayed: (u32, u32))
        ensures
            final(self)@.session.wf(),
            final(self)@ == (AppView {
                session: old(self)@.session.updated(event, displayed),
                ..old(self)@
            }),
    {
        self.session.update_editing(event, displayed);
    }

    /// Takes in what the capture channel delivered, if anything: a bitmap
    /// starts the session over. Returns whether the window is to be shown
    /// again, which is when a bitmap arrived.
    pub fn update(&mut self, delivered: Option<Bitmap>) -> (show_window: bool)
        ensures
            final(self)@.session.wf(),
            show_window == delivered is Some,
            delivered is None ==> final(self)@ == old(self)@,
            delivered matches Some(b) ==> final(self)@ == (AppView {
                session: old(self)@.session.reset(b@),
                ..old(self)@
            }),
    {
        proof {
            use_type_invariant(&self.session);
        }
        match delivered {
            Some(snapshot) => {
                self.session.reset_session(snapshot);
                true
            },
            None => false,
        }
    }

    /// Opens the settings view: the tool panel is hidden and every binding's
    /// draft starts from its active chord.
    pub fn open_settings(&mut self)
        ensures
            final(self)@ == (AppView {
                bindings: old(self)@.bindings.map_values(|h: Hotkey| h.restaged()),
                show_tools: false,
                show_settings: true,
                ..old(self)@
            }),
    {
        self.hotkeys.begin_edit();
        self.show_tools = false;
        self.show_settings = true;
    }

    /// Stages a chord for the bindings of `label`.
    pub fn stage_hotkey(&mut self, label: Action, modifier: Modifier, key: Key)
        ensures
            final(self)@ == (AppView {
                bindings: staged(old(self)@.bindings, label, modifier, key),
                ..old(self)@
            }),
    {
        self.hotkeys.stage_edit(label, modifier, key);
    }

    /// Applies the settings: commits the staged bindings and, when that goes
    /// through, closes the settings view. A conflict leaves the view open and
    /// everything but the recorded conflict as it was.
    pub fn apply_settings(&mut self) -> (res: Result<Rebinding, HotkeyError>)
        ensures
            draft_conflict(old(self)@.bindings) ==> res == Err::<Rebinding, HotkeyError>(
                HotkeyError::AlreadyInUse,
            ) && final(self)@ == (AppView { valid_hotkeys: false, ..old(self)@ }),
            !draft_conflict(old(self)@.bindings) ==> final(self)@ == (AppView {
                bindings: old(self)@.bindings.map_values(|h: Hotkey| h.applied()),
                valid_hotkeys: true,
                show_settings: false,
                ..old(self)@
            }) && (res matches Ok(plan) && plan.unregister@ == registered_handles(
                old(self)@.bindings,
            ) && plan.register@ == registered_handles(final(self)@.bindings)),
    {
        let res = self.hotkeys.commit();
        if res.is_ok() {
            self.show_settings = false;
        }
        res
    }

    /// Leaves the settings view without applying: a recorded conflict is
    /// dropped, the active bindings stay.
    pub fn cancel_settings(&mut self)
        ensures
            final(self)@ == (AppView {
                valid_hotkeys: true,
                show_settings: false,
                ..old(self)@
            }),
    {
        self.hotkeys.cancel_edit();
        self.show_settings = false;
    }

    /// Opens the credits view and hides the tool panel.
    pub fn open_credits(&mut self)
        ensures
            final(self)@ == (AppView { show_tools: false, show_credits: true, ..old(self)@ }),
    {
        self.show_tools = false;
        self.show_credits = true;
    }

    /// Leaves the credits view.
    pub fn close_credits(&mut self)
        ensures
            final(self)@ == (AppView { show_credits: false, ..old(self)@ }),
    {
        self.show_credits = false;
    }

    /// Shows or hides the tool panel. There is nothing to toggle until
    /// something has been captured.
    pub fn toggle_tools(&mut self)
        ensures
            final(self)@ == (AppView {
                show_tools: if old(self)@.session.undo.len() > 0 {
                    !old(self)@.show_tools
                } else {
                    old(self)@.show_tools
                },
                ..old(self)@
            }),
    {
        if self.session.undo_len() > 0 {
            self.show_tools = !self.show_tools;
        }
    }
}

} // verus!
