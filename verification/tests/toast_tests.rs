use snowlv::toast::{toast_colors, ToastTheme, ToastType, WARNING_TEXT_ON_DARK};

fn theme(dark: bool) -> ToastTheme {
    ToastTheme {
        dark,
        text: [230, 230, 230],
        accent_alt: [10, 20, 30],
        success: [0, 200, 0],
        warning: [250, 200, 0],
        error: [200, 0, 0],
    }
}

#[test]
fn toast_background_follows_its_kind() {
    let t = theme(false);
    assert_eq!(toast_colors(ToastType::Info, &t).0, [10, 20, 30]);
    assert_eq!(toast_colors(ToastType::Success, &t).0, [0, 200, 0]);
    assert_eq!(toast_colors(ToastType::Warning, &t).0, [250, 200, 0]);
    assert_eq!(toast_colors(ToastType::Error, &t).0, [200, 0, 0]);
}

#[test]
fn warning_on_dark_theme_gets_dark_text() {
    assert_eq!(toast_colors(ToastType::Warning, &theme(true)).1, WARNING_TEXT_ON_DARK);
    assert_eq!(toast_colors(ToastType::Warning, &theme(false)).1, [230, 230, 230]);
    assert_eq!(toast_colors(ToastType::Error, &theme(true)).1, [230, 230, 230]);
}
