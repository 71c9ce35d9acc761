//! The settings of the application, and what was changed while it runs.

use crate::text::{contains_string, copy_strings, same_text};
use crate::views::{group_views, views};
use vstd::prelude::*;

verus! {

broadcast use group_views;

/// The settings as the configuration file gives them.
pub struct Settings {
    /// The reactions that are always on offer.
    pub reactions: Vec<String>,
    /// The rooms that do not notify.
    pub muted: Vec<String>,
    /// Whether vim is started without the user's own configuration.
    pub clean_vim: bool,
    /// The seconds after which a window that got the focus counts as left
    /// alone; none if it is not above zero.
    pub blur_delay: i64,
    /// The number of events of a room at which no more are fetched; -1 for
    /// none.
    pub max_events: i32,
    /// The rooms that were muted or unmuted while the application runs,
    /// the latest change last.
    pub overrides: Vec<MuteChange>,
}

/// A room that was muted or unmuted while the application runs.
pub struct MuteChange {
    pub room_id: String,
    pub muted: bool,
}

pub struct MuteChangeView {
    pub room_id: Seq<char>,
    pub muted: bool,
}

impl View for MuteChange {
    type V = MuteChangeView;

    open spec fn view(&self) -> MuteChangeView {
        MuteChangeView { room_id: self.room_id@, muted: self.muted }
    }
}

pub struct SettingsView {
    pub reactions: Seq<Seq<char>>,
    pub muted: Seq<Seq<char>>,
    pub clean_vim: bool,
    pub blur_delay: i64,
    pub max_events: i32,
    pub overrides: Seq<MuteChangeView>,
}

impl View for Settings {
    type V = SettingsView;

    open spec fn view(&self) -> SettingsView {
        SettingsView {
            reactions: views(self.reactions@),
            muted: views(self.muted@),
            clean_vim: self.clean_vim,
            blur_delay: self.blur_delay,
            max_events: self.max_events,
            overrides: views(self.overrides@),
        }
    }
}

/// What the first `n` changes say of a room: the latest of them that is
/// about the room.
pub open spec fn changed(overrides: Seq<MuteChangeView>, room_id: Seq<char>, n: nat) -> Option<bool>
    decreases n,
{
    if n == 0 || n > overrides.len() {
        None
    } else if overrides[n - 1].room_id == room_id {
        Some(overrides[n - 1].muted)
    } else {
        changed(overrides, room_id, (n - 1) as nat)
    }
}

/// Whether a room is muted: as it was last changed while the application
/// runs, and as the configuration says where it was not changed.
pub open spec fn muted(s: SettingsView, room_id: Seq<char>) -> bool {
    match changed(s.overrides, room_id, s.overrides.len()) {
        Some(m) => m,
        None => s.muted.contains(room_id),
    }
}

/// The settings of an application without a configuration: six reactions,
/// no room muted, no limit to the events, no blur.
pub fn default_settings() -> (s: Settings)
    ensures
        s@.reactions.len() == 6,
        s@.muted.len() == 0,
        !s@.clean_vim,
        s@.blur_delay == 0,
        s@.max_events == -1,
        s@.overrides.len() == 0,
{
    let mut reactions: Vec<String> = Vec::new();
    reactions.push(String::from_str("\u{2764}\u{fe0f}"));
    reactions.push(String::from_str("\u{1f44d}"));
    reactions.push(String::from_str("\u{1f44e}"));
    reactions.push(String::from_str("\u{1f602}"));
    reactions.push(String::from_str("\u{203c}\u{fe0f}"));
    reactions.push(String::from_str("\u{2753}\u{fe0f}"));
    Settings {
        reactions,
        muted: Vec::new(),
        clean_vim: false,
        blur_delay: 0,
        max_events: -1,
        overrides: Vec::new(),
    }
}

/// Whether a room is muted: see `muted`.
pub fn is_muted(settings: &Settings, room_id: &str) -> (m: bool)
    ensures
        m == muted(settings@, room_id@),
{
    let mut i: usize = settings.overrides.len();
    while i > 0
        invariant
            i <= settings.overrides.len(),
            changed(settings@.overrides, room_id@, i as nat) == changed(
                settings@.overrides,
                room_id@,
                settings@.overrides.len(),
            ),
        decreases i,
    {
        assert(settings@.overrides[i - 1] == settings.overrides@[i - 1]@);
        if same_text(settings.overrides[i - 1].room_id.as_str(), room_id) {
            return settings.overrides[i - 1].muted;
        }
        i -= 1;
    }
    contains_string(&settings.muted, room_id)
}

/// Mutes or unmutes a room until the application ends.
pub fn set_muted(settings: &mut Settings, room_id: &str, m: bool)
    ensures
        final(settings)@ == (SettingsView {
            overrides: old(settings)@.overrides.push(MuteChangeView { room_id: room_id@, muted: m }),
            ..old(settings)@
        }),
        muted(final(settings)@, room_id@) == m,
{
    settings.overrides.push(MuteChange { room_id: String::from_str(room_id), muted: m });
}

/// Whether vim is started without the user's own configuration.
pub fn clean_vim(settings: &Settings) -> (clean: bool)
    ensures
        clean == settings@.clean_vim,
{
    settings.clean_vim
}

/// The seconds after which a focused window counts as left alone, if the
/// settings ask for that.
pub fn blur_delay(settings: &Settings) -> (delay: Option<u64>)
    ensures
        delay == if settings@.blur_delay > 0 {
            Some(settings@.blur_delay as u64)
        } else {
            None
        },
{
    if settings.blur_delay > 0 {
        Some(settings.blur_delay as u64)
    } else {
        None
    }
}

/// The number of events of a room at which no more are fetched; -1 for
/// none.
pub fn max_events(settings: &Settings) -> (max: i64)
    ensures
        max == settings@.max_events,
{
    settings.max_events as i64
}

/// The reactions that are always on offer.
pub fn reactions(settings: &Settings) -> (list: Vec<String>)
    ensures
        views(list@) == settings@.reactions,
{
    copy_strings(&settings.reactions)
}

} // verus!
