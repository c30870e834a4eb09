//! The knob preview's colours: which RGB the ring is drawn in for a named
//! LED colour. Drawing it is the window's business.

use vstd::prelude::*;
use crate::text::{lowercase, same_text, to_lowercase};

verus! {

/// The preview colour of a lower-case LED colour name; white for a name the
/// preview does not know.
pub open spec fn led_rgb_of(name: Seq<char>) -> (u8, u8, u8) {
    if name == "red"@ {
        (255, 65, 65)
    } else if name == "green"@ {
        (45, 230, 115)
    } else if name == "blue"@ {
        (45, 140, 255)
    } else if name == "cyan"@ {
        (0, 235, 235)
    } else if name == "magenta"@ {
        (245, 50, 245)
    } else if name == "yellow"@ {
        (255, 220, 45)
    } else if name == "off"@ {
        (40, 40, 45)
    } else {
        (240, 245, 255)
    }
}

/// The colour the preview draws for a colour name already in lower case.
pub fn lowercase_led_rgb(name: &str) -> (r: (u8, u8, u8))
    ensures
        r == led_rgb_of(name@),
{
    if same_text(name, "red") {
        (255, 65, 65)
    } else if same_text(name, "green") {
        (45, 230, 115)
    } else if same_text(name, "blue") {
        (45, 140, 255)
    } else if same_text(name, "cyan") {
        (0, 235, 235)
    } else if same_text(name, "magenta") {
        (245, 50, 245)
    } else if same_text(name, "yellow") {
        (255, 220, 45)
    } else if same_text(name, "off") {
        (40, 40, 45)
    } else {
        (240, 245, 255)
    }
}

/// The colour the preview draws for an LED colour name, in any case.
pub fn led_color_rgb(color_name: &str) -> (r: (u8, u8, u8))
    ensures
        r == led_rgb_of(lowercase(color_name@)),
{
    let lower = to_lowercase(color_name);
    lowercase_led_rgb(lower.as_str())
}

} // verus!
