use battery_telemetry::extract::{
    controller_block, controller_from_block, extract_controller, extract_controllers, extract_headset,
    read_by_pattern, reading_from_capture, ExtractError, Side, LEFT_PATTERN, RIGHT_PATTERN,
};
use battery_telemetry::text::chars_of;

const CONTROLLER_DUMP: &str = "Controller service\n   handler: left\n   state: connected\n   battery: 4\n   handler: right\n   battery: 5\n";

#[test]
fn headset_level_line_is_read_at_any_position() {
    assert_eq!(extract_headset("  level: 73"), Ok(73));
    assert_eq!(extract_headset("  level: 73\n  scale: 100\n"), Ok(73));
    assert_eq!(extract_headset("Current Battery Service state:\n  AC powered: false\n  level: 73\n  scale: 100\n"), Ok(73));
    assert_eq!(extract_headset("header\n  status: 2\n  level: 73"), Ok(73));
}

#[test]
fn headset_without_level_line_is_not_found() {
    assert_eq!(extract_headset(""), Err(ExtractError::NotFound));
    assert_eq!(extract_headset("  scale: 100\n  status: 2\n"), Err(ExtractError::NotFound));
    assert_eq!(extract_headset(" level: 73\n"), Err(ExtractError::NotFound));
    assert_eq!(extract_headset("   level: 73\n"), Err(ExtractError::NotFound));
    assert_eq!(extract_headset("  level:73\n"), Err(ExtractError::NotFound));
    assert_eq!(extract_headset("battery  level: 73\n"), Err(ExtractError::NotFound));
}

#[test]
fn headset_takes_the_first_level_line_only() {
    assert_eq!(extract_headset("  level: 12\n  level: 99\n"), Ok(12));
    assert_eq!(extract_headset("  level: nope\n  level: 99\n"), Err(ExtractError::ParseError));
}

#[test]
fn headset_level_must_be_an_unsigned_byte() {
    assert_eq!(extract_headset("  level: 0\n"), Ok(0));
    assert_eq!(extract_headset("  level: 255\n"), Ok(255));
    assert_eq!(extract_headset("  level: 256\n"), Err(ExtractError::ParseError));
    assert_eq!(extract_headset("  level: \n"), Err(ExtractError::ParseError));
    assert_eq!(extract_headset("  level: 7 3\n"), Err(ExtractError::ParseError));
    assert_eq!(extract_headset("  level: -1\n"), Err(ExtractError::ParseError));
    assert_eq!(extract_headset("  level: 73%\n"), Err(ExtractError::ParseError));
    assert_eq!(extract_headset("  level:   level: 7\n"), Err(ExtractError::ParseError));
}

#[test]
fn headset_level_line_may_end_with_carriage_return() {
    assert_eq!(extract_headset("  status: 2\r\n  level: 73\r\n  scale: 100\r\n"), Ok(73));
}

#[test]
fn controller_block_keeps_marker_lines_in_order() {
    let block: String = controller_block(CONTROLLER_DUMP).iter().collect();
    assert_eq!(block, "   handler: left\n   battery: 4\n   handler: right\n   battery: 5");
    assert_eq!(controller_block("nothing here\n  handler: left\n"), Vec::<char>::new());
    let single: String = controller_block("a\n   battery: 2\r\nb\n").iter().collect();
    assert_eq!(single, "   battery: 2");
}

#[test]
fn controllers_are_read_across_unrelated_lines() {
    assert_eq!(extract_controllers(CONTROLLER_DUMP), Ok((4, 5)));
    assert_eq!(extract_controller(CONTROLLER_DUMP, Side::Left), Ok(4));
    assert_eq!(extract_controller(CONTROLLER_DUMP, Side::Right), Ok(5));
}

#[test]
fn controllers_may_come_right_before_left() {
    let dump = "   handler: right\n   battery: 1\n   handler: left\n   battery: 3\n";
    assert_eq!(extract_controllers(dump), Ok((3, 1)));
}

#[test]
fn left_only_dump_fails_on_the_right_side() {
    let dump = "   handler: left\n   other: 1\n   battery: 4\n";
    assert_eq!(extract_controller(dump, Side::Left), Ok(4));
    assert_eq!(
        extract_controller(dump, Side::Right),
        Err(ExtractError::CaptureNotFound(Side::Right))
    );
    assert_eq!(extract_controllers(dump), Err(ExtractError::CaptureNotFound(Side::Right)));
}

#[test]
fn right_only_dump_fails_on_the_left_side() {
    let dump = "   handler: right\n   battery: 2\n";
    assert_eq!(extract_controller(dump, Side::Right), Ok(2));
    assert_eq!(extract_controllers(dump), Err(ExtractError::CaptureNotFound(Side::Left)));
    assert_eq!(extract_controllers(""), Err(ExtractError::CaptureNotFound(Side::Left)));
}

#[test]
fn handler_without_battery_is_not_captured() {
    let dump = "   handler: left\n   handler: right\n";
    assert_eq!(extract_controllers(dump), Err(ExtractError::CaptureNotFound(Side::Left)));
}

#[test]
fn first_left_block_wins() {
    let dump = "   handler: left\n   battery: 1\n   handler: left\n   battery: 2\n   handler: right\n   battery: 3\n";
    assert_eq!(extract_controllers(dump), Ok((1, 3)));
}

#[test]
fn controller_battery_must_be_an_unsigned_byte() {
    let empty = "   handler: left\n   battery: \n   handler: right\n   battery: 5\n";
    assert_eq!(extract_controllers(empty), Err(ExtractError::ParseError));
    let large = "   handler: left\n   battery: 4\n   handler: right\n   battery: 256\n";
    assert_eq!(extract_controller(large, Side::Left), Ok(4));
    assert_eq!(extract_controller(large, Side::Right), Err(ExtractError::ParseError));
    let word = "   handler: left\n   battery: low\n";
    assert_eq!(extract_controller(word, Side::Left), Err(ExtractError::ParseError));
}

#[test]
fn reading_from_capture_covers_every_outcome() {
    assert_eq!(
        reading_from_capture(None, Side::Left),
        Err(ExtractError::CaptureNotFound(Side::Left))
    );
    assert_eq!(
        reading_from_capture(None, Side::Right),
        Err(ExtractError::CaptureNotFound(Side::Right))
    );
    assert_eq!(reading_from_capture(Some(chars_of("4")), Side::Left), Ok(4));
    assert_eq!(reading_from_capture(Some(chars_of("")), Side::Left), Err(ExtractError::ParseError));
    assert_eq!(
        reading_from_capture(Some(chars_of("999")), Side::Right),
        Err(ExtractError::ParseError)
    );
}

#[test]
fn controller_from_block_searches_the_block_given() {
    let block = chars_of("   handler: left\n   battery: 2\n   handler: right\n   battery: 0");
    assert_eq!(controller_from_block(&block, Side::Left), Ok(2));
    assert_eq!(controller_from_block(&block, Side::Right), Ok(0));
    assert_eq!(
        controller_from_block(&chars_of(""), Side::Left),
        Err(ExtractError::CaptureNotFound(Side::Left))
    );
    assert_eq!(
        controller_from_block(&chars_of("battery: 3 handler: left"), Side::Left),
        Err(ExtractError::CaptureNotFound(Side::Left))
    );
}

#[test]
fn read_by_pattern_rejects_a_pattern_that_does_not_compile() {
    let block = chars_of("   handler: left\n   battery: 2");
    assert_eq!(read_by_pattern("(", &block, Side::Left), Err(ExtractError::InvalidPattern));
    assert_eq!(read_by_pattern("[0-", &block, Side::Right), Err(ExtractError::InvalidPattern));
}

#[test]
fn read_by_pattern_reads_the_first_group_of_the_leftmost_match() {
    let block = chars_of("battery: 7\nbattery: 9");
    assert_eq!(read_by_pattern("battery: ([0-9]*)", &block, Side::Left), Ok(7));
    assert_eq!(read_by_pattern("battery: ([0-9]*)$", &block, Side::Left), Ok(9));
    assert_eq!(read_by_pattern("(b)attery", &block, Side::Left), Err(ExtractError::ParseError));
    assert_eq!(
        read_by_pattern("charge: ([0-9]*)", &block, Side::Right),
        Err(ExtractError::CaptureNotFound(Side::Right))
    );
}

#[test]
fn read_by_pattern_needs_the_group_to_take_part() {
    let block = chars_of("battery: 7");
    assert_eq!(
        read_by_pattern("battery", &block, Side::Left),
        Err(ExtractError::CaptureNotFound(Side::Left))
    );
    assert_eq!(
        read_by_pattern("battery(?:x([0-9]))?", &block, Side::Right),
        Err(ExtractError::CaptureNotFound(Side::Right))
    );
}

#[test]
fn side_patterns_are_accepted() {
    let block = chars_of("handler: left battery: 1 handler: right battery: 2");
    assert_eq!(read_by_pattern(LEFT_PATTERN, &block, Side::Left), Ok(1));
    assert_eq!(read_by_pattern(RIGHT_PATTERN, &block, Side::Right), Ok(2));
    assert_eq!(LEFT_PATTERN, "handler: left[.\\s\\S]*?battery: ([0-9]*)");
    assert_eq!(RIGHT_PATTERN, "handler: right[.\\s\\S]*?battery: ([0-9]*)");
}
