use antiknob::device::led_state::{find_led_reply, led_mode_of, led_reply, LedReply};
use antiknob::device::reports::{led_read_step, LedRead};

const INIT_ECHO: [u8; 16] = [
    0x03, 0xFB, 0x00, 0x01, 0x0B, 0x00, 0xFF, 0x00, 0x00, 0xFF, 0x80, 0x30, 0xFF, 0xFF, 0x30, 0x00,
];
const MODE_REPLY_GREEN: [u8; 16] = [
    0x03, 0xFA, 0x02, 0xFF, 0x00, 0x00, 0xFF, 0x00, 0x00, 0xFF, 0x00, 0x00, 0xFF, 0x00, 0x00, 0xFF,
];

#[test]
fn the_init_echo_is_not_a_mode() {
    assert_eq!(led_mode_of(&INIT_ECHO.to_vec()), None);
}

#[test]
fn the_query_reply_carries_the_mode() {
    assert_eq!(led_mode_of(&MODE_REPLY_GREEN.to_vec()), Some(2));
}

#[test]
fn the_reply_is_found_past_the_echo() {
    let queued: Vec<Vec<u8>> = vec![INIT_ECHO.to_vec(), MODE_REPLY_GREEN.to_vec()];
    assert_eq!(find_led_reply(&queued), LedReply::Mode(2));
    let found = queued.iter().find_map(|r| led_mode_of(r));
    assert_eq!(found, Some(2));
}

#[test]
fn off_is_a_mode_and_not_a_failure() {
    let mut off = MODE_REPLY_GREEN;
    off[2] = 0;
    assert_eq!(led_mode_of(&off.to_vec()), Some(0));
}

#[test]
fn a_truncated_report_carries_nothing() {
    assert_eq!(led_mode_of(&vec![0x03, 0xFA]), None);
    assert_eq!(led_mode_of(&vec![]), None);
}

#[test]
fn a_short_report_fails_the_read_and_an_empty_queue_finds_nothing() {
    assert_eq!(led_reply(&vec![0x03, 0xFA]), LedReply::Short(2));
    assert_eq!(find_led_reply(&vec![]), LedReply::Other);
    assert_eq!(
        find_led_reply(&vec![INIT_ECHO.to_vec(), vec![3], MODE_REPLY_GREEN.to_vec()]),
        LedReply::Short(1)
    );
}

#[test]
fn the_led_read_skips_the_echo_and_gives_up_after_eight_reports() {
    assert_eq!(led_read_step(0, &INIT_ECHO.to_vec()), LedRead::Waiting(1));
    assert_eq!(led_read_step(1, &MODE_REPLY_GREEN.to_vec()), LedRead::Found(2));
    assert_eq!(led_read_step(7, &INIT_ECHO.to_vec()), LedRead::Exhausted);
    assert_eq!(led_read_step(0, &vec![0x03]), LedRead::Short(1));
    assert_eq!(LedRead::Short(1).message(), "Short LED reply (1 bytes)");
    assert_eq!(
        LedRead::Exhausted.message(),
        "No LED reply from the device after 8 report(s)"
    );
    assert_eq!(LedRead::Found(2).message(), "");
}
