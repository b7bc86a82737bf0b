//! The decisions of the button interrupt: debouncing against a cooldown timer
//! and choosing the resolution to publish.
use vstd::prelude::*;
use crate::resolution::BubbleResolution;

verus! {

/// The cooldown after an accepted press: 100 ms of a timer that ticks at 1 MHz.
pub const DEBOUNCE_TIME: u32 = 100_000;

/// The two buttons of the board.
#[derive(Clone, Copy, Debug, PartialEq, Eq, Structural)]
pub enum Button {
    /// Selects coarse resolution.
    A,
    /// Selects fine resolution.
    B,
}

impl Button {
    /// The resolution a press of this button selects.
    pub open spec fn spec_resolution(self) -> BubbleResolution {
        match self {
            Button::A => BubbleResolution::Coarse,
            Button::B => BubbleResolution::Fine,
        }
    }

    /// The resolution a press of this button selects.
    pub fn resolution(self) -> (r: BubbleResolution)
        ensures
            r == self.spec_resolution(),
    {
        match self {
            Button::A => BubbleResolution::Coarse,
            Button::B => BubbleResolution::Fine,
        }
    }
}

/// What the interrupt handler does about one edge.
#[derive(Clone, Copy, Debug, PartialEq, Eq, Structural)]
pub struct EdgeAction {
    /// Start the cooldown timer with `DEBOUNCE_TIME`.
    pub start_cooldown: bool,
    /// The button whose pending event is to be cleared.
    pub clear: Option<Button>,
    /// The resolution to store into the shared cell.
    pub publish: Option<BubbleResolution>,
}

/// The button serviced when the event flags read `a_pending` and `b_pending`:
/// A before B.
pub open spec fn pending_button(a_pending: bool, b_pending: bool) -> Option<Button> {
    if a_pending {
        Some(Button::A)
    } else if b_pending {
        Some(Button::B)
    } else {
        None
    }
}

/// The resolution published for an edge seen while the cooldown timer reads
/// `timer_reading`: only a ready timer (0) lets a press through.
pub open spec fn published(timer_reading: int, a_pending: bool, b_pending: bool) -> Option<
    BubbleResolution,
> {
    if timer_reading == 0 {
        match pending_button(a_pending, b_pending) {
            Some(b) => Some(b.spec_resolution()),
            None => None,
        }
    } else {
        None
    }
}

/// What the cooldown timer reads `elapsed` ticks after it was started with
/// `DEBOUNCE_TIME`: the ticks left, 0 once the cooldown is over.
pub open spec fn cooldown_left(elapsed: nat) -> nat {
    if elapsed >= DEBOUNCE_TIME {
        0
    } else {
        (DEBOUNCE_TIME - elapsed) as nat
    }
}

/// Decides what to do about a button edge, given what the cooldown timer reads
/// and which event flags are set. A ready timer means a real press: the cooldown
/// starts and the button's resolution is published. A running timer means
/// contact bounce: the event is only cleared.
pub fn on_button_edge(timer_reading: u32, a_pending: bool, b_pending: bool) -> (r: EdgeAction)
    ensures
        r.start_cooldown == (timer_reading == 0),
        r.clear == pending_button(a_pending, b_pending),
        r.publish == published(timer_reading as int, a_pending, b_pending),
{
    let debounced: bool = timer_reading == 0;
    let clear: Option<Button> = if a_pending {
        Some(Button::A)
    } else if b_pending {
        Some(Button::B)
    } else {
        None
    };
    let publish: Option<BubbleResolution> = match clear {
        Some(b) => if debounced {
            Some(b.resolution())
        } else {
            None
        },
        None => None,
    };
    EdgeAction { start_cooldown: debounced, clear, publish }
}

/// Of two edges, the first, met by a ready timer, publishes its button's
/// resolution. With the cooldown started then, a second edge less than
/// `DEBOUNCE_TIME` ticks later publishes nothing, and one at least
/// `DEBOUNCE_TIME` ticks later publishes again.
pub proof fn lemma_debounce(first: Button, second: Button, elapsed: nat)
    ensures
        published(0, first == Button::A, first == Button::B) == Some(first.spec_resolution()),
        elapsed < DEBOUNCE_TIME ==> published(
            cooldown_left(elapsed) as int,
            second == Button::A,
            second == Button::B,
        ) == None::<BubbleResolution>,
        elapsed >= DEBOUNCE_TIME ==> published(
            cooldown_left(elapsed) as int,
            second == Button::A,
            second == Button::B,
        ) == Some(second.spec_resolution()),
{
}

} // verus!
