//! A bubble level for a 5×5 LED matrix: tilt readings from an accelerometer
//! are projected onto a single lit LED, with a coarse and a fine sensitivity
//! that two debounced buttons select.
pub mod debounce;
pub mod leds;
pub mod resolution;

pub use debounce::{on_button_edge, Button, EdgeAction, DEBOUNCE_TIME};
pub use leds::{LEDState, LEDs, LED_SIZE};
pub use resolution::{BubbleResolution, InvalidResolution};
