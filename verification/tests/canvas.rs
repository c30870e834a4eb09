use antiknob::gui::canvas::{led_color_rgb, lowercase_led_rgb};

#[test]
fn led_colours_are_named_in_any_case() {
    assert_eq!(led_color_rgb("red"), (255, 65, 65));
    assert_eq!(led_color_rgb("Red"), (255, 65, 65));
    assert_eq!(led_color_rgb("GREEN"), (45, 230, 115));
    assert_eq!(led_color_rgb("blue"), (45, 140, 255));
    assert_eq!(led_color_rgb("Cyan"), (0, 235, 235));
    assert_eq!(led_color_rgb("magenta"), (245, 50, 245));
    assert_eq!(led_color_rgb("yellow"), (255, 220, 45));
    assert_eq!(led_color_rgb("Off"), (40, 40, 45));
}

#[test]
fn an_unknown_colour_is_drawn_white() {
    assert_eq!(led_color_rgb("purple"), (240, 245, 255));
    assert_eq!(led_color_rgb(""), (240, 245, 255));
}

#[test]
fn a_lower_case_name_picks_its_colour_directly() {
    assert_eq!(lowercase_led_rgb("magenta"), (245, 50, 245));
    assert_eq!(lowercase_led_rgb("Magenta"), (240, 245, 255));
}
