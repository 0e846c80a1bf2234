use pin::control::{
    on_app_event, on_badge_event, on_picker_event, AppActions, AppEvent, BadgeActions, BadgeEvent,
    PickerAction, PickerEvent,
};
use pin::win::WindowId;

fn none() -> AppActions {
    AppActions {
        close_picker: false,
        forget: None,
        pin: None,
        unpin_all: false,
        toggle_autostart: false,
        open_picker: false,
        quit: false,
    }
}

#[test]
fn left_click_release_toggles_picker() {
    let click = AppEvent::TrayClick { left: true, released: true };
    assert_eq!(on_app_event(false, click), AppActions { open_picker: true, ..none() });
    assert_eq!(on_app_event(true, click), AppActions { close_picker: true, ..none() });
}

#[test]
fn other_tray_clicks_do_nothing() {
    for (left, released) in [(true, false), (false, true), (false, false)] {
        for open in [true, false] {
            assert_eq!(on_app_event(open, AppEvent::TrayClick { left, released }), none());
        }
    }
}

#[test]
fn picked_window_is_pinned_and_picker_closed() {
    let w = WindowId(77);
    assert_eq!(
        on_app_event(true, AppEvent::Picked(w)),
        AppActions { close_picker: true, pin: Some(w), ..none() }
    );
    assert_eq!(on_app_event(true, AppEvent::PickCanceled), AppActions { close_picker: true, ..none() });
}

#[test]
fn badge_close_forgets_window() {
    let w = WindowId(9);
    assert_eq!(on_app_event(false, AppEvent::BadgeClosed(w)), AppActions { forget: Some(w), ..none() });
}

#[test]
fn menu_choices() {
    assert_eq!(
        on_app_event(true, AppEvent::QuitChosen),
        AppActions { close_picker: true, unpin_all: true, quit: true, ..none() }
    );
    assert_eq!(on_app_event(false, AppEvent::UnpinAllChosen), AppActions { unpin_all: true, ..none() });
    assert_eq!(on_app_event(false, AppEvent::AutostartChosen), AppActions { toggle_autostart: true, ..none() });
    assert_eq!(on_app_event(false, AppEvent::MessageWindowDestroyed), AppActions { quit: true, ..none() });
}

#[test]
fn picker_picks_only_pinnable_targets_and_cancels() {
    assert_eq!(on_picker_event(PickerEvent::LeftClick { target_pinnable: true }), PickerAction::Pick);
    assert_eq!(on_picker_event(PickerEvent::LeftClick { target_pinnable: false }), PickerAction::Stay);
    assert_eq!(on_picker_event(PickerEvent::Cancel), PickerAction::Cancel);
    assert_eq!(on_picker_event(PickerEvent::Other), PickerAction::Stay);
}

#[test]
fn badge_clicks_follows_and_cleans_up() {
    let quiet = BadgeActions { destroy_self: false, follow_target: false, clear_target_topmost: false, notify_main: false };
    assert_eq!(on_badge_event(BadgeEvent::Clicked), BadgeActions { destroy_self: true, ..quiet });
    assert_eq!(on_badge_event(BadgeEvent::Tick { target_alive: true }), BadgeActions { follow_target: true, ..quiet });
    assert_eq!(on_badge_event(BadgeEvent::Tick { target_alive: false }), BadgeActions { destroy_self: true, ..quiet });
    assert_eq!(
        on_badge_event(BadgeEvent::Destroyed { target_alive: true, has_main_window: true }),
        BadgeActions { clear_target_topmost: true, notify_main: true, ..quiet }
    );
    assert_eq!(
        on_badge_event(BadgeEvent::Destroyed { target_alive: false, has_main_window: false }),
        quiet
    );
}
