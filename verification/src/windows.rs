//! The window commands: the decision logic behind the handlers that open,
//! close, focus and pin the shell's three pre-configured windows.
//!
//! The host window manager owns the real windows. This module keeps the
//! dispatcher's model of them — for each identifier whether the host has the
//! window, whether it is visible, and whether it is pinned above the others —
//! and gives each command an exact transition on that model. The caller
//! mirrors each successful transition with the corresponding host calls.

use vstd::prelude::*;

verus! {

/// Identifier of one of the three windows the host is configured with.
#[derive(Clone, Copy, PartialEq, Eq, Structural, Debug)]
pub enum WindowId {
    Main,
    Settings,
    Messages,
}

/// What the dispatcher tracks of one window.
#[derive(Clone, Copy, PartialEq, Eq, Structural, Debug)]
pub struct WindowState {
    /// The host currently has a live window under this identifier.
    pub exists: bool,
    pub visible: bool,
    /// The window is kept above the others in the stacking order.
    pub always_on_top: bool,
}

/// Events the commands signal to the UI layer.
#[derive(Clone, Copy, PartialEq, Eq, Structural, Debug)]
pub enum UiEvent {
    SettingsWindowShown,
    MessagesWindowShown,
}

/// The dispatcher's model of the host window manager.
#[derive(Clone, PartialEq, Debug)]
pub struct Desktop {
    pub main: WindowState,
    pub settings: WindowState,
    pub messages: WindowState,
    /// The window holding input focus, if any.
    pub focused: Option<WindowId>,
    /// Events signalled so far, oldest first.
    pub events: Vec<UiEvent>,
    /// Set once the quit command has asked the host to terminate.
    pub exited: bool,
}

/// The mathematical value of a [`Desktop`].
#[verifier::ext_equal]
pub struct DesktopView {
    pub main: WindowState,
    pub settings: WindowState,
    pub messages: WindowState,
    pub focused: Option<WindowId>,
    pub events: Seq<UiEvent>,
    pub exited: bool,
}

impl View for Desktop {
    type V = DesktopView;

    open spec fn view(&self) -> DesktopView {
        DesktopView {
            main: self.main,
            settings: self.settings,
            messages: self.messages,
            focused: self.focused,
            events: self.events@,
            exited: self.exited,
        }
    }
}

impl WindowState {
    /// The window once the host has closed it: gone, hence not visible.
    pub open spec fn closed(self) -> WindowState {
        WindowState { exists: false, visible: false, always_on_top: self.always_on_top }
    }

    /// The window with its always-on-top attribute set to `pin`.
    pub open spec fn pinned(self, pin: bool) -> WindowState {
        WindowState { exists: self.exists, visible: self.visible, always_on_top: pin }
    }
}

impl DesktopView {
    /// The state tracked for `id`.
    pub open spec fn window(self, id: WindowId) -> WindowState {
        match id {
            WindowId::Main => self.main,
            WindowId::Settings => self.settings,
            WindowId::Messages => self.messages,
        }
    }

    /// A window only counts as visible or focused while the host has it.
    pub open spec fn wf(self) -> bool {
        &&& (self.main.visible ==> self.main.exists)
        &&& (self.settings.visible ==> self.settings.exists)
        &&& (self.messages.visible ==> self.messages.exists)
        &&& (self.focused matches Some(id) ==> self.window(id).exists)
    }

    /// State after the settings-window command succeeds: the window is
    /// pinned or unpinned as asked, shown, given focus, and its event is
    /// signalled to the UI layer.
    pub open spec fn after_open_settings(self, pin: bool) -> DesktopView {
        DesktopView {
            main: self.main,
            settings: (WindowState { exists: true, visible: true, always_on_top: pin }),
            messages: self.messages,
            focused: Some(WindowId::Settings),
            events: self.events.push(UiEvent::SettingsWindowShown),
            exited: self.exited,
        }
    }

    /// State after the messages-window command succeeds; the mirror image of
    /// [`DesktopView::after_open_settings`].
    pub open spec fn after_open_messages(self, pin: bool) -> DesktopView {
        DesktopView {
            main: self.main,
            settings: self.settings,
            messages: (WindowState { exists: true, visible: true, always_on_top: pin }),
            focused: Some(WindowId::Messages),
            events: self.events.push(UiEvent::MessagesWindowShown),
            exited: self.exited,
        }
    }

    /// State after the pin command: the attribute is set on every window the
    /// host currently has; identifiers without a live window are skipped.
    pub open spec fn after_set_always_on_top(self, pin: bool) -> DesktopView {
        DesktopView {
            main: if self.main.exists {
                self.main.pinned(pin)
            } else {
                self.main
            },
            settings: if self.settings.exists {
                self.settings.pinned(pin)
            } else {
                self.settings
            },
            messages: if self.messages.exists {
                self.messages.pinned(pin)
            } else {
                self.messages
            },
            focused: self.focused,
            events: self.events,
            exited: self.exited,
        }
    }

    /// State after the close command: each child window that the host has
    /// and that is visible is closed; the main window is untouched, and a
    /// closed window loses focus if it held it.
    pub open spec fn after_close_child_windows(self) -> DesktopView {
        let closing_settings = self.settings.exists && self.settings.visible;
        let closing_messages = self.messages.exists && self.messages.visible;
        DesktopView {
            main: self.main,
            settings: if closing_settings {
                self.settings.closed()
            } else {
                self.settings
            },
            messages: if closing_messages {
                self.messages.closed()
            } else {
                self.messages
            },
            focused: if (self.focused == Some(WindowId::Settings) && closing_settings) || (
            self.focused == Some(WindowId::Messages) && closing_messages) {
                None
            } else {
                self.focused
            },
            events: self.events,
            exited: self.exited,
        }
    }

    /// State after the quit command: every window the host still has is
    /// closed, visible or not, and the shell is marked as exiting.
    pub open spec fn after_quit(self) -> DesktopView {
        DesktopView {
            main: if self.main.exists {
                self.main.closed()
            } else {
                self.main
            },
            settings: if self.settings.exists {
                self.settings.closed()
            } else {
                self.settings
            },
            messages: if self.messages.exists {
                self.messages.closed()
            } else {
                self.messages
            },
            focused: if self.focused matches Some(id) && self.window(id).exists {
                None
            } else {
                self.focused
            },
            events: self.events,
            exited: true,
        }
    }
}

impl Desktop {
    /// The dispatcher's model of a freshly started host whose configuration
    /// pre-created the given windows: nothing signalled, nothing focused.
    pub fn startup(main: WindowState, settings: WindowState, messages: WindowState) -> (d: Desktop)
        ensures
            d@.main == main,
            d@.settings == settings,
            d@.messages == messages,
            d@.focused is None,
            d@.events == Seq::<UiEvent>::empty(),
            !d@.exited,
    {
        Desktop {
            main,
            settings,
            messages,
            focused: None,
            events: Vec::new(),
            exited: false,
        }
    }

    /// The settings-window command: pins or unpins the settings window,
    /// shows it, gives it focus and signals its event — or reports that the
    /// host has no such window, leaving everything unchanged.
    pub fn open_settings_window(&mut self, always_on_top: bool) -> (r: Result<(), String>)
        ensures
            old(self)@.settings.exists ==> r is Ok && final(self)@ == old(
                self,
            )@.after_open_settings(always_on_top),
            !old(self)@.settings.exists ==> final(self)@ == old(self)@ && (r matches Err(m) && m@
                == "Settings window not found"@),
    {
        if self.settings.exists {
            self.settings.always_on_top = always_on_top;
            self.settings.visible = true;
            self.focused = Some(WindowId::Settings);
            self.events.push(UiEvent::SettingsWindowShown);
            Ok(())
        } else {
            Err("Settings window not found".to_owned())
        }
    }

    /// The messages-window command; the mirror image of
    /// [`Desktop::open_settings_window`].
    pub fn open_messages_window(&mut self, always_on_top: bool) -> (r: Result<(), String>)
        ensures
            old(self)@.messages.exists ==> r is Ok && final(self)@ == old(
                self,
            )@.after_open_messages(always_on_top),
            !old(self)@.messages.exists ==> final(self)@ == old(self)@ && (r matches Err(m) && m@
                == "Messages window not found"@),
    {
        if self.messages.exists {
            self.messages.always_on_top = always_on_top;
            self.messages.visible = true;
            self.focused = Some(WindowId::Messages);
            self.events.push(UiEvent::MessagesWindowShown);
            Ok(())
        } else {
            Err("Messages window not found".to_owned())
        }
    }

    /// The pin command: applies the always-on-top attribute to each of the
    /// three windows the host currently has, silently skipping the rest.
    pub fn set_always_on_top(&mut self, always_on_top: bool) -> (r: Result<(), String>)
        ensures
            r is Ok,
            final(self)@ == old(self)@.after_set_always_on_top(always_on_top),
    {
        if self.main.exists {
            self.main.always_on_top = always_on_top;
        }
        if self.settings.exists {
            self.settings.always_on_top = always_on_top;
        }
        if self.messages.exists {
            self.messages.always_on_top = always_on_top;
        }
        Ok(())
    }

    /// The close command: closes the settings and the messages window where
    /// the host has them visible; closing nothing is not an error.
    pub fn close_child_windows(&mut self) -> (r: Result<(), String>)
        ensures
            r is Ok,
            final(self)@ == old(self)@.after_close_child_windows(),
    {
        if self.settings.exists && self.settings.visible {
            self.settings.exists = false;
            self.settings.visible = false;
            if let Some(id) = self.focused {
                if id == WindowId::Settings {
                    self.focused = None;
                }
            }
        }
        if self.messages.exists && self.messages.visible {
            self.messages.exists = false;
            self.messages.visible = false;
            if let Some(id) = self.focused {
                if id == WindowId::Messages {
                    self.focused = None;
                }
            }
        }
        Ok(())
    }

    /// The quit command: closes every window the host still has and marks
    /// the shell as exiting; the caller then terminates the process, so
    /// failures of the individual host calls are ignored by design.
    pub fn quit_app(&mut self) -> (r: Result<(), String>)
        ensures
            r is Ok,
            final(self)@ == old(self)@.after_quit(),
    {
        let focus_lost = match self.focused {
            Some(WindowId::Main) => self.main.exists,
            Some(WindowId::Settings) => self.settings.exists,
            Some(WindowId::Messages) => self.messages.exists,
            None => false,
        };
        if self.settings.exists {
            self.settings.exists = false;
            self.settings.visible = false;
        }
        if self.messages.exists {
            self.messages.exists = false;
            self.messages.visible = false;
        }
        if self.main.exists {
            self.main.exists = false;
            self.main.visible = false;
        }
        if focus_lost {
            self.focused = None;
        }
        self.exited = true;
        Ok(())
    }
}

/// Closing the child windows twice is the same as closing them once: the
/// second close finds no visible child window and leaves the state alone.
pub proof fn lemma_close_child_windows_idempotent(d: DesktopView)
    ensures
        d.after_close_child_windows().after_close_child_windows() == d.after_close_child_windows(),
{
    assert(d.after_close_child_windows().after_close_child_windows()
        =~= d.after_close_child_windows());
}

/// A well-formed desktop stays well-formed under every command.
pub proof fn lemma_commands_preserve_wf(d: DesktopView, pin: bool)
    requires
        d.wf(),
    ensures
        d.settings.exists ==> d.after_open_settings(pin).wf(),
        d.messages.exists ==> d.after_open_messages(pin).wf(),
        d.after_set_always_on_top(pin).wf(),
        d.after_close_child_windows().wf(),
        d.after_quit().wf(),
{
}

} // verus!
