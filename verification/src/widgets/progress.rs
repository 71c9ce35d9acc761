use crate::clock::{nanos_since, now};
use std::time::Instant;
use vstd::prelude::*;

verus! {

/// The frames of the animation.
pub open spec fn frame(i: nat) -> Seq<char> {
    seq![frame_char(i)]
}

/// The character of the frame `i`; the frames repeat after thirty-five.
pub open spec fn frame_char(i: nat) -> char {
    let k = i % 35;
    if k == 0 {
        '⠁'
    } else if k == 1 {
        '⠂'
    } else if k == 2 {
        '⠄'
    } else if k == 3 {
        '⡀'
    } else if k == 4 {
        '⡈'
    } else if k == 5 {
        '⡐'
    } else if k == 6 {
        '⡠'
    } else if k == 7 {
        '⣀'
    } else if k == 8 {
        '⣁'
    } else if k == 9 {
        '⣂'
    } else if k == 10 {
        '⣄'
    } else if k == 11 {
        '⣌'
    } else if k == 12 {
        '⣔'
    } else if k == 13 {
        '⣤'
    } else if k == 14 {
        '⣥'
    } else if k == 15 {
        '⣦'
    } else if k == 16 {
        '⣮'
    } else if k == 17 {
        '⣶'
    } else if k == 18 {
        '⣷'
    } else if k == 19 {
        '⣿'
    } else if k == 20 {
        '⡿'
    } else if k == 21 {
        '⠿'
    } else if k == 22 {
        '⢟'
    } else if k == 23 {
        '⠟'
    } else if k == 24 {
        '⡛'
    } else if k == 25 {
        '⠛'
    } else if k == 26 {
        '⠫'
    } else if k == 27 {
        '⢋'
    } else if k == 28 {
        '⠋'
    } else if k == 29 {
        '⠍'
    } else if k == 30 {
        '⡉'
    } else if k == 31 {
        '⠉'
    } else if k == 32 {
        '⠑'
    } else if k == 33 {
        '⠡'
    } else {
        '⢁'
    }
}

fn frame_of(i: usize) -> (c: char)
    ensures
        c == frame_char(i as nat),
{
    match i % 35 {
        0 => '⠁',
        1 => '⠂',
        2 => '⠄',
        3 => '⡀',
        4 => '⡈',
        5 => '⡐',
        6 => '⡠',
        7 => '⣀',
        8 => '⣁',
        9 => '⣂',
        10 => '⣄',
        11 => '⣌',
        12 => '⣔',
        13 => '⣤',
        14 => '⣥',
        15 => '⣦',
        16 => '⣮',
        17 => '⣶',
        18 => '⣷',
        19 => '⣿',
        20 => '⡿',
        21 => '⠿',
        22 => '⢟',
        23 => '⠟',
        24 => '⡛',
        25 => '⠛',
        26 => '⠫',
        27 => '⢋',
        28 => '⠋',
        29 => '⠍',
        30 => '⡉',
        31 => '⠉',
        32 => '⠑',
        33 => '⠡',
        _ => '⢁',
    }
}

/// Work in progress: a text between two copies of an animated mark. It is
/// drawn only once the work has lasted longer than the delay.
pub struct Progress {
    text: String,
    tail: String,
    created: Instant,
    delay_ms: u64,
}

pub struct ProgressView {
    pub text: Seq<char>,
    pub tail: Seq<char>,
    pub delay_ms: u64,
}

impl View for Progress {
    type V = ProgressView;

    closed spec fn view(&self) -> ProgressView {
        ProgressView { text: self.text@, tail: self.tail@, delay_ms: self.delay_ms }
    }
}

/// The line that is drawn.
pub open spec fn progress_line(p: ProgressView) -> Seq<char> {
    p.tail + " "@ + p.text + " "@ + p.tail
}

impl Progress {
    pub fn new(text: &str, delay_ms: u64) -> (p: Progress)
        ensures
            p@ == (ProgressView { text: text@, tail: Seq::empty(), delay_ms }),
    {
        Progress { text: String::from_str(text), tail: String::new(), created: now(), delay_ms }
    }

    /// Shows the frame of the animation that belongs to the tick
    /// `timestamp`.
    pub fn tick(&mut self, timestamp: usize)
        ensures
            final(self)@ == (ProgressView { tail: frame(timestamp as nat), ..old(self)@ }),
    {
        let mut tail = String::new();
        crate::text::push_char(&mut tail, frame_of(timestamp));
        self.tail = tail;
    }

    /// Whether the popup is drawn when the work has lasted `elapsed_ms`.
    pub fn visible_after(&self, elapsed_ms: u128) -> (visible: bool)
        ensures
            visible == (elapsed_ms >= self@.delay_ms),
    {
        elapsed_ms >= self.delay_ms as u128
    }

    /// Whether the popup is drawn now: whether the work has lasted as long
    /// as the delay. A popup without delay is drawn at once.
    pub fn visible(&self) -> (visible: bool)
        ensures
            self@.delay_ms == 0 ==> visible,
    {
        let elapsed: u128 = nanos_since(&self.created) / 1_000_000;
        self.visible_after(elapsed)
    }

    /// The line that is drawn: see `progress_line`.
    pub fn line(&self) -> (text: String)
        ensures
            text@ == progress_line(self@),
    {
        let mut text = self.tail.clone();
        text.append(" ");
        text.append(self.text.as_str());
        text.append(" ");
        text.append(self.tail.as_str());
        text
    }

    pub fn widget(&self) -> (w: ProgressWidget<'_>)
        ensures
            w.progress@ == self@,
    {
        ProgressWidget { progress: self }
    }
}

/// A progress popup as it is drawn.
pub struct ProgressWidget<'a> {
    pub progress: &'a Progress,
}

} // verus!
