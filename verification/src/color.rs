//! Threshold policy: the highlight color for an elapsed second count.
//!
//! Two thresholds, in seconds, escalate the label color from green through
//! yellow to red. Both thresholds zero means the feature is off and the
//! neutral color is used. Comparisons are strict: the boundary value itself
//! is not yet escalated.

use vstd::prelude::*;

verus! {

/// The highlight color of the elapsed-time label.
#[derive(Clone, Copy, Debug, PartialEq, Eq, Structural)]
pub enum Color {
    /// Thresholds disabled, or the display suppressed while paused.
    Neutral,
    /// At or below the warn threshold.
    Green,
    /// Above the warn threshold, at or below the danger threshold.
    Yellow,
    /// Above the danger threshold.
    Red,
}

/// The two escalation thresholds, in seconds. Built once at startup and
/// passed explicitly to every call that needs it.
#[derive(Clone, Copy, Debug, PartialEq, Eq, Structural)]
pub struct WarnSettings {
    pub warn_after: u64,
    pub danger_after: u64,
}

/// What `highlight_color` returns for the given seconds and thresholds.
pub open spec fn spec_highlight_color(seconds: int, warn_after: int, danger_after: int) -> Color {
    if warn_after == 0 && danger_after == 0 {
        Color::Neutral
    } else if seconds > danger_after {
        Color::Red
    } else if seconds > warn_after {
        Color::Yellow
    } else {
        Color::Green
    }
}

impl WarnSettings {
    /// Convert user-configured minutes to the thresholds in seconds.
    pub fn from_minutes(warn_after_minutes: u64, danger_after_minutes: u64) -> (r: WarnSettings)
        requires
            warn_after_minutes * 60 <= u64::MAX,
            danger_after_minutes * 60 <= u64::MAX,
        ensures
            r.warn_after == warn_after_minutes * 60,
            r.danger_after == danger_after_minutes * 60,
    {
        WarnSettings { warn_after: warn_after_minutes * 60, danger_after: danger_after_minutes * 60 }
    }
}

/// The color for an elapsed second count under the given thresholds:
/// neutral when both thresholds are zero, red above the danger threshold,
/// yellow above the warn threshold, green otherwise.
pub fn highlight_color(seconds: u64, settings: &WarnSettings) -> (c: Color)
    ensures
        c == spec_highlight_color(
            seconds as int,
            settings.warn_after as int,
            settings.danger_after as int,
        ),
{
    if settings.warn_after == 0 && settings.danger_after == 0 {
        Color::Neutral
    } else if seconds > settings.danger_after {
        Color::Red
    } else if seconds > settings.warn_after {
        Color::Yellow
    } else {
        Color::Green
    }
}

/// The label color for one tick: neutral while paused (the running clock is
/// suppressed), the threshold color otherwise.
pub fn highlight_col(seconds: u64, paused: bool, settings: &WarnSettings) -> (c: Color)
    ensures
        paused ==> c == Color::Neutral,
        !paused ==> c == spec_highlight_color(
            seconds as int,
            settings.warn_after as int,
            settings.danger_after as int,
        ),
{
    if paused {
        Color::Neutral
    } else {
        highlight_color(seconds, settings)
    }
}

/// With both thresholds zero the feature is off: the color is neutral for
/// every second count.
pub proof fn lemma_disabled_thresholds_neutral(seconds: int)
    ensures
        spec_highlight_color(seconds, 0, 0) == Color::Neutral,
{
}

/// With the feature enabled and ordered thresholds, the color bands are:
/// green up to and including the warn threshold, yellow from there up to
/// and including the danger threshold, red above it.
pub proof fn lemma_color_bands(seconds: int, warn_after: int, danger_after: int)
    requires
        warn_after <= danger_after,
        !(warn_after == 0 && danger_after == 0),
    ensures
        seconds <= warn_after ==> spec_highlight_color(seconds, warn_after, danger_after)
            == Color::Green,
        warn_after < seconds <= danger_after ==> spec_highlight_color(
            seconds,
            warn_after,
            danger_after,
        ) == Color::Yellow,
        seconds > danger_after ==> spec_highlight_color(seconds, warn_after, danger_after)
            == Color::Red,
{
}

} // verus!
