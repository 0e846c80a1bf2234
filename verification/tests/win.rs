use pin::win::{
    is_pinnable_candidate, Rect, WindowCandidate, WS_CAPTION_BITS, WS_CHILD_BITS,
    WS_EX_APPWINDOW_BITS, WS_EX_TOOLWINDOW_BITS, WS_SYSMENU_BITS, WS_THICKFRAME_BITS,
};

fn app_candidate() -> WindowCandidate {
    WindowCandidate {
        class_name: "Chrome_WidgetWin_1".to_string(),
        style: WS_CAPTION_BITS | WS_SYSMENU_BITS | WS_THICKFRAME_BITS,
        ex_style: 0,
        rect: Rect {
            left: 10,
            top: 10,
            right: 810,
            bottom: 610,
        },
        is_window: true,
        is_visible: true,
        is_iconic: false,
        has_parent: false,
    }
}

#[test]
fn ordinary_application_window_is_pinnable() {
    assert!(is_pinnable_candidate(&app_candidate()));
}

#[test]
fn shell_surfaces_are_not_pinnable() {
    for class_name in [
        "Progman",
        "WorkerW",
        "Shell_TrayWnd",
        "Shell_SecondaryTrayWnd",
    ] {
        let mut candidate = app_candidate();
        candidate.class_name = class_name.to_string();
        assert!(
            !is_pinnable_candidate(&candidate),
            "{class_name} should be rejected"
        );
    }
}

#[test]
fn own_helper_windows_are_not_pinnable() {
    for class_name in ["PinPickerClass", "PinOverlayClass", "PinAppMsgWindow"] {
        let mut candidate = app_candidate();
        candidate.class_name = class_name.to_string();
        assert!(
            !is_pinnable_candidate(&candidate),
            "{class_name} should be rejected"
        );
    }
}

#[test]
fn hidden_minimized_child_and_tool_windows_are_not_pinnable() {
    let mut hidden = app_candidate();
    hidden.is_visible = false;
    assert!(!is_pinnable_candidate(&hidden));

    let mut minimized = app_candidate();
    minimized.is_iconic = true;
    assert!(!is_pinnable_candidate(&minimized));

    let mut child = app_candidate();
    child.has_parent = true;
    assert!(!is_pinnable_candidate(&child));

    let mut child_style = app_candidate();
    child_style.style |= WS_CHILD_BITS;
    assert!(!is_pinnable_candidate(&child_style));

    let mut tool = app_candidate();
    tool.ex_style |= WS_EX_TOOLWINDOW_BITS;
    assert!(!is_pinnable_candidate(&tool));
}

#[test]
fn tiny_or_empty_targets_are_not_pinnable() {
    let mut tiny = app_candidate();
    tiny.rect.right = tiny.rect.left + 16;
    tiny.rect.bottom = tiny.rect.top + 16;
    assert!(!is_pinnable_candidate(&tiny));

    let mut empty = app_candidate();
    empty.rect.right = empty.rect.left;
    assert!(!is_pinnable_candidate(&empty));
}

#[test]
fn appwindow_extended_style_can_be_pinnable_without_caption() {
    let mut candidate = app_candidate();
    candidate.style = 0;
    candidate.ex_style = WS_EX_APPWINDOW_BITS;
    assert!(is_pinnable_candidate(&candidate));
}

#[test]
fn borderless_non_appwindow_is_not_pinnable() {
    let mut candidate = app_candidate();
    candidate.style = 0;
    candidate.ex_style = 0;
    assert!(!is_pinnable_candidate(&candidate));
}

#[test]
fn excluded_classes_match_regardless_of_ascii_case() {
    for class_name in ["progman", "SHELL_TRAYWND", "pinoverlayclass", "NotifyIconOverflowWindow", "dv2controlhost", "mstasklistwclass"] {
        let mut candidate = app_candidate();
        candidate.class_name = class_name.to_string();
        assert!(!is_pinnable_candidate(&candidate), "{class_name}");
    }
    for class_name in ["Progman2", "Worker", "", "Notepad"] {
        let mut candidate = app_candidate();
        candidate.class_name = class_name.to_string();
        assert!(is_pinnable_candidate(&candidate), "{class_name}");
    }
}

#[test]
fn caption_needs_sys_menu_or_thick_frame() {
    let mut caption_only = app_candidate();
    caption_only.style = WS_CAPTION_BITS;
    assert!(!is_pinnable_candidate(&caption_only));

    let mut sys_menu = app_candidate();
    sys_menu.style = WS_CAPTION_BITS | WS_SYSMENU_BITS;
    assert!(is_pinnable_candidate(&sys_menu));

    let mut thick = app_candidate();
    thick.style = WS_CAPTION_BITS | WS_THICKFRAME_BITS;
    assert!(is_pinnable_candidate(&thick));

    let mut half_caption = app_candidate();
    half_caption.style = 0x0080_0000 | WS_SYSMENU_BITS;
    assert!(!is_pinnable_candidate(&half_caption));
}

#[test]
fn minimum_size_is_inclusive() {
    let mut exact = app_candidate();
    exact.rect = Rect { left: 0, top: 0, right: 32, bottom: 32 };
    assert!(is_pinnable_candidate(&exact));
    exact.rect.bottom = 31;
    assert!(!is_pinnable_candidate(&exact));
}

#[test]
fn rect_width_and_height() {
    let r = Rect { left: -5, top: 7, right: 20, bottom: 3 };
    assert_eq!(r.width(), 25);
    assert_eq!(r.height(), -4);
}
