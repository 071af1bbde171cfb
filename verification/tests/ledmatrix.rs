use led_games::constants::Colour;
use led_games::game::{Block, Position};
use led_games::ledmatrix::{
    commit_cols, find_serialdevs, match_serialdevs, pack_matrix, render_matrix, send_col,
    simple_cmd, Command, Grid, PortInfo, UsbId, FRAMEWORK_VID, LED_MATRIX_PID,
};

fn usb(name: &str, vid: u16, pid: u16) -> PortInfo {
    PortInfo { port_name: name.to_string(), usb: Some(UsbId { vid, pid }) }
}

fn plain(name: &str) -> PortInfo {
    PortInfo { port_name: name.to_string(), usb: None }
}

#[test]
fn command_codes() {
    assert_eq!(Command::Brightness.code(), 0x00);
    assert_eq!(Command::DisplayBwImage.code(), 0x06);
    assert_eq!(Command::SendCol.code(), 0x07);
    assert_eq!(Command::CommitCols.code(), 0x08);
    assert_eq!(Command::B1Reserved.code(), 0x09);
    assert_eq!(Command::StartGame.code(), 0x10);
    assert_eq!(Command::AnimationPeriod.code(), 0x1C);
    assert_eq!(Command::PwmFreq.code(), 0x1E);
    assert_eq!(Command::Version.code(), 0x20);
}

#[test]
fn simple_cmd_frames_the_arguments() {
    assert_eq!(simple_cmd(Command::Brightness, &[0x40]), vec![0x32, 0xAC, 0x00, 0x40]);
    assert_eq!(simple_cmd(Command::Version, &[]), vec![0x32, 0xAC, 0x20]);
    let args = [7u8; 61];
    let bytes = simple_cmd(Command::Pattern, &args);
    assert_eq!(bytes.len(), 64);
    assert_eq!(bytes[..3], [0x32, 0xAC, 0x01]);
    assert_eq!(bytes[3..], args);
}

#[test]
fn send_col_puts_the_column_before_the_values() {
    assert_eq!(send_col(3, &[1, 2, 255]), vec![0x32, 0xAC, 0x07, 3, 1, 2, 255]);
    let vals = [9u8; 34];
    let bytes = send_col(8, &vals);
    assert_eq!(bytes.len(), 38);
    assert_eq!(bytes[3], 8);
    assert_eq!(bytes[4..], vals);
}

#[test]
fn commit_cols_has_no_arguments() {
    assert_eq!(commit_cols(), vec![0x32, 0xAC, 0x08]);
}

#[test]
fn pack_matrix_of_a_dark_picture_is_zero() {
    assert_eq!(pack_matrix(&[[0; 34]; 9]), [0u8; 39]);
}

#[test]
fn pack_matrix_sets_one_bit_for_each_lit_led() {
    let mut matrix = [[0u8; 34]; 9];
    matrix[0][0] = 0xFF; // LED 0: byte 0, bit 0
    matrix[8][0] = 0xFF; // LED 8: byte 1, bit 0
    matrix[1][1] = 0xFF; // LED 10: byte 1, bit 2
    matrix[8][33] = 0xFF; // LED 305: byte 38, bit 1
    matrix[4][4] = 0x7F; // not lit
    let mut expected = [0u8; 39];
    expected[0] = 0b0000_0001;
    expected[1] = 0b0000_0101;
    expected[38] = 0b0000_0010;
    assert_eq!(pack_matrix(&matrix), expected);
}

#[test]
fn pack_matrix_of_a_bright_picture_leaves_the_last_bits_clear() {
    let mut expected = [0xFFu8; 39];
    expected[38] = 0b0000_0011;
    assert_eq!(pack_matrix(&[[0xFF; 34]; 9]), expected);
}

#[test]
fn render_matrix_frames_the_packed_picture() {
    let mut matrix = [[0u8; 34]; 9];
    matrix[2][0] = 0xFF;
    let bytes = render_matrix(&matrix);
    assert_eq!(bytes.len(), 42);
    assert_eq!(bytes[..4], [0x32, 0xAC, 0x06, 0b0000_0100]);
    assert!(bytes[4..].iter().all(|b| *b == 0));
}

#[test]
fn render_block_lights_the_led_of_a_block() {
    let mut grid = Grid::default();
    let green = Block { position: Position { x: 5, y: 7 }, colour: Colour::Green };
    grid.render_block(&green, 3, true);
    let mut expected = [[0u8; 34]; 9];
    expected[2][7] = 0xFF;
    assert_eq!(grid.0, expected);
    let red = Block { position: Position { x: 0, y: 33 }, colour: Colour::Red };
    grid.render_block(&red, 0, false);
    expected[0][33] = 0xFF;
    assert_eq!(grid.0, expected);
}

#[test]
fn render_block_skips_what_is_not_shown() {
    let mut grid = Grid::default();
    let dark = [[0u8; 34]; 9];
    let at = |x, y, colour| Block { position: Position { x, y }, colour };
    grid.render_block(&at(5, 7, Colour::Yellow), 3, true);
    grid.render_block(&at(5, 7, Colour::Black), 0, false);
    grid.render_block(&at(2, 7, Colour::Green), 3, true);
    grid.render_block(&at(12, 7, Colour::Green), 3, true);
    grid.render_block(&at(9, 7, Colour::Green), 0, false);
    grid.render_block(&at(5, 34, Colour::Green), 3, true);
    assert_eq!(grid.0, dark);
}

#[test]
fn match_serialdevs_finds_the_requested_port() {
    let ports = [plain("/dev/ttyS0"), usb("/dev/ttyACM0", FRAMEWORK_VID, LED_MATRIX_PID)];
    let requested = Some("/dev/ttyS0".to_string());
    assert_eq!(match_serialdevs(&ports, &requested, None), vec!["/dev/ttyS0".to_string()]);
    let missing = Some("/dev/ttyUSB9".to_string());
    assert!(match_serialdevs(&ports, &missing, Some(LED_MATRIX_PID)).is_empty());
}

#[test]
fn match_serialdevs_picks_the_modules() {
    let ports = [
        plain("/dev/ttyS0"),
        usb("/dev/ttyACM0", FRAMEWORK_VID, LED_MATRIX_PID),
        usb("/dev/ttyACM1", 0x1234, LED_MATRIX_PID),
        usb("/dev/ttyACM2", FRAMEWORK_VID, 0x22),
        usb("/dev/ttyACM3", FRAMEWORK_VID, 0xFF),
        usb("/dev/ttyACM4", FRAMEWORK_VID, 0x21),
    ];
    assert_eq!(
        match_serialdevs(&ports, &None, None),
        vec!["/dev/ttyACM0".to_string(), "/dev/ttyACM2".to_string(), "/dev/ttyACM3".to_string()]
    );
    assert_eq!(
        match_serialdevs(&ports, &None, Some(LED_MATRIX_PID)),
        vec!["/dev/ttyACM0".to_string()]
    );
    assert_eq!(match_serialdevs(&ports, &None, Some(0x21)), vec!["/dev/ttyACM4".to_string()]);
    assert!(match_serialdevs(&ports, &None, Some(0x99)).is_empty());
    assert!(match_serialdevs(&[], &None, None).is_empty());
}

#[test]
fn find_serialdevs_waits_until_a_module_is_there() {
    let none = [plain("/dev/ttyS0"), usb("/dev/ttyACM2", FRAMEWORK_VID, 0x22)];
    assert_eq!(find_serialdevs(&none, true, false), None);
    assert_eq!(find_serialdevs(&none, true, true), None);
    assert_eq!(find_serialdevs(&none, false, false), Some((vec![], false)));
    let one = [usb("/dev/ttyACM0", FRAMEWORK_VID, LED_MATRIX_PID)];
    assert_eq!(
        find_serialdevs(&one, true, true),
        Some((vec!["/dev/ttyACM0".to_string()], true))
    );
    assert_eq!(
        find_serialdevs(&one, false, false),
        Some((vec!["/dev/ttyACM0".to_string()], false))
    );
}
