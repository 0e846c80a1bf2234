//! What the tray program does in answer to each thing that happens: a
//! click on the tray icon, a menu choice, the picker's report, a badge that
//! closed. The message loop performs the actions; this module decides them.

use vstd::prelude::*;
use crate::win::WindowId;

verus! {

/// Something the main loop was told.
#[derive(Debug, Clone, Copy, PartialEq, Eq, Structural)]
pub enum AppEvent {
    /// The picker reported the window the user clicked.
    Picked(WindowId),
    /// The picker was cancelled.
    PickCanceled,
    /// The badge over this window closed itself (it was clicked, or the
    /// window went away) and already took the window out of the topmost band.
    BadgeClosed(WindowId),
    /// The program's message window is being destroyed.
    MessageWindowDestroyed,
    /// The user chose `Quit` in the tray menu.
    QuitChosen,
    /// The user chose `Unpin all` in the tray menu.
    UnpinAllChosen,
    /// The user chose `Start at login` in the tray menu.
    AutostartChosen,
    /// A mouse button went down or up over the tray icon.
    TrayClick { left: bool, released: bool },
}

/// What the main loop must do, in this order: close the picker, forget a
/// window whose badge closed, pin a window, unpin everything, flip the
/// autostart setting, open the picker, quit.
#[derive(Debug, Clone, Copy, PartialEq, Eq, Structural)]
pub struct AppActions {
    pub close_picker: bool,
    pub forget: Option<WindowId>,
    pub pin: Option<WindowId>,
    pub unpin_all: bool,
    pub toggle_autostart: bool,
    pub open_picker: bool,
    pub quit: bool,
}

/// Doing nothing.
pub open spec fn no_actions() -> AppActions {
    AppActions {
        close_picker: false,
        forget: None,
        pin: None,
        unpin_all: false,
        toggle_autostart: false,
        open_picker: false,
        quit: false,
    }
}

/// The actions for `event` while the picker is open (`picker_open`) or not.
pub open spec fn app_actions(picker_open: bool, event: AppEvent) -> AppActions {
    let none = no_actions();
    match event {
        AppEvent::Picked(w) => AppActions { close_picker: true, pin: Some(w), ..none },
        AppEvent::PickCanceled => AppActions { close_picker: true, ..none },
        AppEvent::BadgeClosed(w) => AppActions { forget: Some(w), ..none },
        AppEvent::MessageWindowDestroyed => AppActions { quit: true, ..none },
        AppEvent::QuitChosen => AppActions {
            close_picker: true,
            unpin_all: true,
            quit: true,
            ..none
        },
        AppEvent::UnpinAllChosen => AppActions { unpin_all: true, ..none },
        AppEvent::AutostartChosen => AppActions { toggle_autostart: true, ..none },
        AppEvent::TrayClick { left, released } => if left && released {
            if picker_open {
                AppActions { close_picker: true, ..none }
            } else {
                AppActions { open_picker: true, ..none }
            }
        } else {
            none
        },
    }
}

/// Decides what to do about `event`. A left click on the tray icon (acted
/// on when the button is released) opens the picker, or closes it when it
/// is open; a picked window is pinned; a closed badge drops its window;
/// `Unpin all` unpins everything; `Quit` unpins everything and quits.
pub fn on_app_event(picker_open: bool, event: AppEvent) -> (r: AppActions)
    ensures
        r == app_actions(picker_open, event),
{
    let none = AppActions {
        close_picker: false,
        forget: None,
        pin: None,
        unpin_all: false,
        toggle_autostart: false,
        open_picker: false,
        quit: false,
    };
    match event {
        AppEvent::Picked(w) => AppActions { close_picker: true, pin: Some(w), ..none },
        AppEvent::PickCanceled => AppActions { close_picker: true, ..none },
        AppEvent::BadgeClosed(w) => AppActions { forget: Some(w), ..none },
        AppEvent::MessageWindowDestroyed => AppActions { quit: true, ..none },
        AppEvent::QuitChosen => AppActions {
            close_picker: true,
            unpin_all: true,
            quit: true,
            ..none
        },
        AppEvent::UnpinAllChosen => AppActions { unpin_all: true, ..none },
        AppEvent::AutostartChosen => AppActions { toggle_autostart: true, ..none },
        AppEvent::TrayClick { left, released } => {
            if left && released {
                if picker_open {
                    AppActions { close_picker: true, ..none }
                } else {
                    AppActions { open_picker: true, ..none }
                }
            } else {
                none
            }
        },
    }
}

/// Something the picker window was told while it holds the mouse.
#[derive(Debug, Clone, Copy, PartialEq, Eq, Structural)]
pub enum PickerEvent {
    /// The left button went down over a window; `target_pinnable` says
    /// whether that window may be pinned.
    LeftClick { target_pinnable: bool },
    /// Right or middle click, any key, lost focus or lost capture.
    Cancel,
    /// Anything else.
    Other,
}

/// What the picker does about an event.
#[derive(Debug, Clone, Copy, PartialEq, Eq, Structural)]
pub enum PickerAction {
    /// Report the window under the cursor and close.
    Pick,
    /// Report the cancellation and close.
    Cancel,
    /// Stay open.
    Stay,
}

/// Decides the picker's answer: a click on a window that may be pinned
/// picks it, a click elsewhere is ignored, and every cancelling input
/// cancels.
pub fn on_picker_event(event: PickerEvent) -> (r: PickerAction)
    ensures
        r == match event {
            PickerEvent::LeftClick { target_pinnable } => if target_pinnable {
                PickerAction::Pick
            } else {
                PickerAction::Stay
            },
            PickerEvent::Cancel => PickerAction::Cancel,
            PickerEvent::Other => PickerAction::Stay,
        },
{
    match event {
        PickerEvent::LeftClick { target_pinnable } => {
            if target_pinnable {
                PickerAction::Pick
            } else {
                PickerAction::Stay
            }
        },
        PickerEvent::Cancel => PickerAction::Cancel,
        PickerEvent::Other => PickerAction::Stay,
    }
}

/// Something the badge window over a pinned window was told.
#[derive(Debug, Clone, Copy, PartialEq, Eq, Structural)]
pub enum BadgeEvent {
    /// The user clicked the badge.
    Clicked,
    /// The follow timer fired; `target_alive` says whether the pinned window
    /// still exists.
    Tick { target_alive: bool },
    /// The badge window is going away; `target_alive` says whether the
    /// pinned window still exists, `has_main_window` whether the main loop
    /// can be told.
    Destroyed { target_alive: bool, has_main_window: bool },
}

/// What the badge does about an event.
#[derive(Debug, Clone, Copy, PartialEq, Eq, Structural)]
pub struct BadgeActions {
    /// Destroy the badge window.
    pub destroy_self: bool,
    /// Move the badge over the target's title bar again, restoring the
    /// target's topmost style if something cleared it.
    pub follow_target: bool,
    /// Take the target out of the topmost band.
    pub clear_target_topmost: bool,
    /// Tell the main loop that this window is no longer pinned.
    pub notify_main: bool,
}

/// Decides the badge's answer: a click destroys the badge; on each tick it
/// follows a live target and destroys itself once the target is gone; when
/// it is destroyed it takes a still-live target out of the topmost band and
/// tells the main loop.
pub fn on_badge_event(event: BadgeEvent) -> (r: BadgeActions)
    ensures
        r == (match event {
            BadgeEvent::Clicked => BadgeActions {
                destroy_self: true,
                follow_target: false,
                clear_target_topmost: false,
                notify_main: false,
            },
            BadgeEvent::Tick { target_alive } => BadgeActions {
                destroy_self: !target_alive,
                follow_target: target_alive,
                clear_target_topmost: false,
                notify_main: false,
            },
            BadgeEvent::Destroyed { target_alive, has_main_window } => BadgeActions {
                destroy_self: false,
                follow_target: false,
                clear_target_topmost: target_alive,
                notify_main: has_main_window,
            },
        }),
{
    match event {
        BadgeEvent::Clicked => BadgeActions {
            destroy_self: true,
            follow_target: false,
            clear_target_topmost: false,
            notify_main: false,
        },
        BadgeEvent::Tick { target_alive } => BadgeActions {
            destroy_self: !target_alive,
            follow_target: target_alive,
            clear_target_topmost: false,
            notify_main: false,
        },
        BadgeEvent::Destroyed { target_alive, has_main_window } => BadgeActions {
            destroy_self: false,
            follow_target: false,
            clear_target_topmost: target_alive,
            notify_main: has_main_window,
        },
    }
}

/// Two left clicks on the tray icon leave the picker as it was: the first
/// opens it (or closes it), the second closes it (or opens it).
pub proof fn lemma_tray_click_toggles_picker(picker_open: bool)
    ensures
        ({
            let click = AppEvent::TrayClick { left: true, released: true };
            let first = app_actions(picker_open, click);
            let open_after_first = (picker_open && !first.close_picker) || first.open_picker;
            let second = app_actions(open_after_first, click);
            &&& open_after_first == !picker_open
            &&& ((open_after_first && !second.close_picker) || second.open_picker) == picker_open
        }),
{
}

/// Only a quit choice or the end of the message window quits, and quitting
/// from the menu unpins every window first.
pub proof fn lemma_quit_unpins_everything(picker_open: bool, event: AppEvent)
    ensures
        app_actions(picker_open, event).quit <==> (event == AppEvent::QuitChosen || event
            == AppEvent::MessageWindowDestroyed),
        event == AppEvent::QuitChosen ==> app_actions(picker_open, event).unpin_all
            && app_actions(picker_open, event).close_picker,
{
}

/// Each action has its own cause. Only the `Start at login` choice flips the
/// autostart setting; only `Quit` and `Unpin all` unpin everything; only a
/// picked window is pinned, and it is that window; only a closed badge makes
/// a window be forgotten, and it is that badge's window; only a left click
/// released over the tray icon while the picker is closed opens it; and the
/// picker is closed on a pick, a cancel, `Quit`, or that click while it is
/// open.
pub proof fn lemma_each_action_has_its_own_cause(picker_open: bool, event: AppEvent)
    ensures
        app_actions(picker_open, event).toggle_autostart <==> event == AppEvent::AutostartChosen,
        app_actions(picker_open, event).unpin_all <==> (event == AppEvent::QuitChosen || event
            == AppEvent::UnpinAllChosen),
        app_actions(picker_open, event).pin == (match event {
            AppEvent::Picked(w) => Some(w),
            _ => None,
        }),
        app_actions(picker_open, event).forget == (match event {
            AppEvent::BadgeClosed(w) => Some(w),
            _ => None,
        }),
        app_actions(picker_open, event).open_picker <==> (!picker_open && event
            == (AppEvent::TrayClick { left: true, released: true })),
        app_actions(picker_open, event).close_picker <==> (event is Picked || event
            == AppEvent::PickCanceled || event == AppEvent::QuitChosen || (picker_open && event
            == (AppEvent::TrayClick { left: true, released: true }))),
{
}

/// Choosing `Quit` closes the picker, unpins everything and quits, and does
/// nothing else, whether the picker is open or not.
pub proof fn lemma_quit_does_exactly_three_things(picker_open: bool)
    ensures
        app_actions(picker_open, AppEvent::QuitChosen) == (AppActions {
            close_picker: true,
            forget: None,
            pin: None,
            unpin_all: true,
            toggle_autostart: false,
            open_picker: false,
            quit: true,
        }),
{
}

} // verus!
