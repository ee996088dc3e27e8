//! Colors of toast notifications.

use vstd::prelude::*;

verus! {

/// The kind of a toast notification.
#[derive(Clone, Copy, Debug, PartialEq, Eq, Structural)]
pub enum ToastType {
    Info,
    Success,
    Warning,
    Error,
}

/// The theme colors a toast is drawn with.
#[derive(Clone, Copy, Debug)]
pub struct ToastTheme {
    pub dark: bool,
    pub text: [u8; 3],
    pub accent_alt: [u8; 3],
    pub success: [u8; 3],
    pub warning: [u8; 3],
    pub error: [u8; 3],
}

/// Text color on a warning toast of a dark theme: near black, for contrast
/// with the bright warning color.
pub const WARNING_TEXT_ON_DARK: [u8; 3] = [20, 20, 20];

/// The background and text colors of a toast of kind `toast_type`: the
/// theme's color for the kind behind the theme's text color, except that a
/// warning on a dark theme gets near-black text.
pub fn toast_colors(toast_type: ToastType, theme: &ToastTheme) -> (r: ([u8; 3], [u8; 3]))
    ensures
        r.0 == match toast_type {
            ToastType::Info => theme.accent_alt,
            ToastType::Success => theme.success,
            ToastType::Warning => theme.warning,
            ToastType::Error => theme.error,
        },
        r.1 == (if toast_type == ToastType::Warning && theme.dark {
            WARNING_TEXT_ON_DARK
        } else {
            theme.text
        }),
{
    let bg_color = match toast_type {
        ToastType::Info => theme.accent_alt,
        ToastType::Success => theme.success,
        ToastType::Warning => theme.warning,
        ToastType::Error => theme.error,
    };
    let text_color = if toast_type == ToastType::Warning && !theme.dark {
        theme.text
    } else if toast_type == ToastType::Warning {
        WARNING_TEXT_ON_DARK
    } else {
        theme.text
    };
    (bg_color, text_color)
}

} // verus!
