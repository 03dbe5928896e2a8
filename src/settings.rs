use vstd::prelude::*;

verus! {

/// Describes the Background Alternating option for Splits Component.
#[derive(Clone, Copy, Debug, PartialEq, Eq, Structural)]
pub enum Alternating {
    /// Only a single Gradient
    Single,
    /// Alternating Gradients for every split
    Alternating,
}

/// A color with 8-bit channels.
#[derive(Clone, Copy, Debug, PartialEq, Eq, Structural)]
pub struct Color {
    pub red: u8,
    pub green: u8,
    pub blue: u8,
    pub alpha: u8,
}

/// The number of colors in the general layout settings.
pub const COLOR_SLOTS: usize = 11;

/// The colors that the whole layout shares, in the order of
/// [`GeneralSettings::colors`]: text, thin separators, separators, personal
/// best, ahead and gaining, ahead and losing, behind and gaining, behind and
/// losing, best segment, not running, paused.
#[derive(Clone, Copy, Debug, PartialEq, Eq, Structural)]
pub struct GeneralSettings {
    pub text_color: Color,
    pub thin_separators_color: Color,
    pub separators_color: Color,
    pub personal_best_color: Color,
    pub ahead_gaining_time_color: Color,
    pub ahead_losing_time_color: Color,
    pub behind_gaining_time_color: Color,
    pub behind_losing_time_color: Color,
    pub best_segment_color: Color,
    pub not_running_color: Color,
    pub paused_color: Color,
}

impl GeneralSettings {
    /// The color in slot `k`.
    pub open spec fn slot(self, k: int) -> Color {
        if k == 0 { self.text_color }
        else if k == 1 { self.thin_separators_color }
        else if k == 2 { self.separators_color }
        else if k == 3 { self.personal_best_color }
        else if k == 4 { self.ahead_gaining_time_color }
        else if k == 5 { self.ahead_losing_time_color }
        else if k == 6 { self.behind_gaining_time_color }
        else if k == 7 { self.behind_losing_time_color }
        else if k == 8 { self.best_segment_color }
        else if k == 9 { self.not_running_color }
        else { self.paused_color }
    }

    /// These settings with slot `k` set to `c`.
    pub open spec fn with_slot(self, k: int, c: Color) -> GeneralSettings {
        if k == 0 { GeneralSettings { text_color: c, ..self } }
        else if k == 1 { GeneralSettings { thin_separators_color: c, ..self } }
        else if k == 2 { GeneralSettings { separators_color: c, ..self } }
        else if k == 3 { GeneralSettings { personal_best_color: c, ..self } }
        else if k == 4 { GeneralSettings { ahead_gaining_time_color: c, ..self } }
        else if k == 5 { GeneralSettings { ahead_losing_time_color: c, ..self } }
        else if k == 6 { GeneralSettings { behind_gaining_time_color: c, ..self } }
        else if k == 7 { GeneralSettings { behind_losing_time_color: c, ..self } }
        else if k == 8 { GeneralSettings { best_segment_color: c, ..self } }
        else if k == 9 { GeneralSettings { not_running_color: c, ..self } }
        else { GeneralSettings { paused_color: c, ..self } }
    }

    pub open spec fn new_spec() -> GeneralSettings {
        let black = Color { red: 0, green: 0, blue: 0, alpha: 255 };
        GeneralSettings {
            text_color: Color { red: 255, green: 255, blue: 255, alpha: 255 },
            thin_separators_color: black,
            separators_color: black,
            personal_best_color: black,
            ahead_gaining_time_color: black,
            ahead_losing_time_color: black,
            behind_gaining_time_color: black,
            behind_losing_time_color: black,
            best_segment_color: black,
            not_running_color: black,
            paused_color: black,
        }
    }

    /// Settings with every color opaque black but the text, which is white.
    pub fn new() -> (r: GeneralSettings)
        ensures
            r == GeneralSettings::new_spec(),
            r.text_color == (Color { red: 255, green: 255, blue: 255, alpha: 255 }),
            forall|k: int| 1 <= k < COLOR_SLOTS ==> r.slot(k) == (Color { red: 0, green: 0, blue: 0, alpha: 255 }),
    {
        let black = Color { red: 0, green: 0, blue: 0, alpha: 255 };
        GeneralSettings {
            text_color: Color { red: 255, green: 255, blue: 255, alpha: 255 },
            thin_separators_color: black,
            separators_color: black,
            personal_best_color: black,
            ahead_gaining_time_color: black,
            ahead_losing_time_color: black,
            behind_gaining_time_color: black,
            behind_losing_time_color: black,
            best_segment_color: black,
            not_running_color: black,
            paused_color: black,
        }
    }

    /// Sets the color in slot `k`.
    pub fn set_slot(&mut self, k: usize, c: Color)
        requires
            k < COLOR_SLOTS,
        ensures
            *final(self) == old(self).with_slot(k as int, c),
    {
        if k == 0 { self.text_color = c; }
        else if k == 1 { self.thin_separators_color = c; }
        else if k == 2 { self.separators_color = c; }
        else if k == 3 { self.personal_best_color = c; }
        else if k == 4 { self.ahead_gaining_time_color = c; }
        else if k == 5 { self.ahead_losing_time_color = c; }
        else if k == 6 { self.behind_gaining_time_color = c; }
        else if k == 7 { self.behind_losing_time_color = c; }
        else if k == 8 { self.best_segment_color = c; }
        else if k == 9 { self.not_running_color = c; }
        else { self.paused_color = c; }
    }
}

} // verus!
