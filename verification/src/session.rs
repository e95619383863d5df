//! How an editing session's settings change when a project is opened and
//! saved.
//!
//! The output size can be edited in the preview footer and the name in the
//! project details dialog; both ride along with a save. Opening prefers the
//! frame size the document itself recorded.

use vstd::prelude::*;

use crate::model::{DocumentSettings, SettingsView};
use crate::scan::{trim_window, trimmed, window_string};
use crate::text::chars_of;

verus! {

/// The name a save leaves the session with: the one sent, trimmed, unless
/// that is blank.
pub open spec fn saved_name(current: Seq<char>, sent: Option<Seq<char>>) -> Seq<char> {
    match sent {
        Some(name) => if trimmed(name).len() > 0 {
            trimmed(name)
        } else {
            current
        },
        None => current,
    }
}

/// A dimension a save leaves the session with: the one sent, unless it is
/// missing or zero - a zero dimension is never a real output size.
pub open spec fn saved_dimension(current: u32, sent: Option<u32>) -> u32 {
    match sent {
        Some(value) => if value > 0 {
            value
        } else {
            current
        },
        None => current,
    }
}

/// Applies what a save carries to the session's settings: a non-blank name,
/// trimmed, and any non-zero width and height. The frame rate is never
/// changed by a save.
pub fn apply_saved_settings(
    settings: &mut DocumentSettings,
    name: Option<&str>,
    width: Option<u32>,
    height: Option<u32>,
)
    ensures
        final(settings).name@ == saved_name(
            old(settings).name@,
            match name {
                Some(text) => Some(text@),
                None => None,
            },
        ),
        final(settings).width == saved_dimension(old(settings).width, width),
        final(settings).height == saved_dimension(old(settings).height, height),
        final(settings).rate_num == old(settings).rate_num,
        final(settings).rate_den == old(settings).rate_den,
{
    if let Some(name) = name {
        let chars = chars_of(name);
        let (low, high) = trim_window(&chars, 0, chars.len());
        assert(chars@.subrange(0, chars@.len() as int) =~= chars@);
        if low < high {
            settings.name = window_string(&chars, low, high);
        }
    }
    if let Some(width) = width {
        if width > 0 {
            settings.width = width;
        }
    }
    if let Some(height) = height {
        if height > 0 {
            settings.height = height;
        }
    }
}

/// Takes the frame size a document recorded in place of the manifest's:
/// only when both dimensions are there and neither is zero, each narrowed
/// to `u32` the way `as` narrows.
pub fn adopt_document_size(settings: &mut DocumentSettings, width: Option<u64>, height: Option<
    u64,
>)
    ensures
        match (width, height) {
            (Some(w), Some(h)) => if w > 0 && h > 0 {
                final(settings).width == w as u32 && final(settings).height == h as u32
            } else {
                final(settings).width == old(settings).width && final(settings).height == old(
                    settings,
                ).height
            },
            _ => final(settings).width == old(settings).width && final(settings).height == old(
                settings,
            ).height,
        },
        final(settings).name == old(settings).name,
        final(settings).rate_num == old(settings).rate_num,
        final(settings).rate_den == old(settings).rate_den,
{
    if let (Some(width), Some(height)) = (width, height) {
        if width > 0 && height > 0 {
            settings.width = width as u32;
            settings.height = height as u32;
        }
    }
}

/// The settings as the session holds them, as the editor view reports
/// them.
pub fn settings_view(settings: &DocumentSettings) -> (view: SettingsView)
    ensures
        view.name@ == settings.name@,
        view.width == settings.width,
        view.height == settings.height,
        view.rate_num == settings.rate_num,
        view.rate_den == settings.rate_den,
{
    SettingsView {
        name: settings.name.clone(),
        width: settings.width,
        height: settings.height,
        rate_num: settings.rate_num,
        rate_den: settings.rate_den,
    }
}

} // verus!
