use crate::key::KeyEvent;
use crate::widgets::{closing, Effect, EventResult};
use vstd::prelude::*;

verus! {

/// The popup that lists the keys.
pub struct Help;

/// The help popup as it is drawn.
pub struct HelpWidget;

impl Help {
    pub fn widget(&self) -> (w: HelpWidget) {
        HelpWidget
    }

    /// Any key closes the popup.
    pub fn key_event(&mut self, input: &KeyEvent) -> (result: EventResult)
        ensures
            result@ == closing(),
    {
        EventResult::Consumed(Effect::ClosePopup)
    }
}

/// The key that line `i` of the help explains; the last line explains none.
pub open spec fn help_key(i: int) -> Seq<char> {
    if i == 0 {
        "Space"@
    } else if i == 1 {
        "j*"@
    } else if i == 2 {
        "k*"@
    } else if i == 3 {
        "i"@
    } else if i == 4 {
        "Enter"@
    } else if i == 5 {
        "s"@
    } else if i == 6 {
        "c"@
    } else if i == 7 {
        "r"@
    } else if i == 8 {
        "R"@
    } else if i == 9 {
        "v"@
    } else if i == 10 {
        "V"@
    } else if i == 11 {
        "u"@
    } else if i == 12 {
        "m"@
    } else if i == 13 {
        "?"@
    } else {
        ""@
    }
}

/// What line `i` of the help says of its key.
pub open spec fn help_description(i: int) -> Seq<char> {
    if i == 0 {
        "Show the room switcher"@
    } else if i == 1 {
        "Select one line down."@
    } else if i == 2 {
        "Select one line up."@
    } else if i == 3 {
        "Create a new message using the external editor."@
    } else if i == 4 {
        "Open the selected message (images, videos, urls, etc)."@
    } else if i == 5 {
        "Save the selected message (images and videos)."@
    } else if i == 6 {
        "Edit the selected message in the external editor."@
    } else if i == 7 {
        "React to the selected message."@
    } else if i == 8 {
        "Reply to the selected message."@
    } else if i == 9 {
        "View the selected message in the external editor."@
    } else if i == 10 {
        "View the current room in the external editor."@
    } else if i == 11 {
        "Upload a file."@
    } else if i == 12 {
        "Mute or unmute the current room (until restart)."@
    } else if i == 13 {
        "Show this helper."@
    } else {
        "* arrow keys are fine too."@
    }
}

impl HelpWidget {
    /// The number of keys that the popup explains.
    pub fn len(&self) -> (n: usize)
        ensures
            n == 15,
    {
        15
    }

    /// The key in line `i` of the popup.
    pub fn key(&self, i: usize) -> (text: &'static str)
        ensures
            text@ == help_key(i as int),
    {
        match i {
            0 => "Space",
            1 => "j*",
            2 => "k*",
            3 => "i",
            4 => "Enter",
            5 => "s",
            6 => "c",
            7 => "r",
            8 => "R",
            9 => "v",
            10 => "V",
            11 => "u",
            12 => "m",
            13 => "?",
            _ => "",
        }
    }

    /// What the key in line `i` does.
    pub fn description(&self, i: usize) -> (text: &'static str)
        ensures
            text@ == help_description(i as int),
    {
        match i {
            0 => "Show the room switcher",
            1 => "Select one line down.",
            2 => "Select one line up.",
            3 => "Create a new message using the external editor.",
            4 => "Open the selected message (images, videos, urls, etc).",
            5 => "Save the selected message (images and videos).",
            6 => "Edit the selected message in the external editor.",
            7 => "React to the selected message.",
            8 => "Reply to the selected message.",
            9 => "View the selected message in the external editor.",
            10 => "View the current room in the external editor.",
            11 => "Upload a file.",
            12 => "Mute or unmute the current room (until restart).",
            13 => "Show this helper.",
            _ => "* arrow keys are fine too.",
        }
    }
}

} // verus!
