use nes_ui::cheats::MemorySpace;
use nes_ui::hex_view::{
    cheat_cell_index, hex_ascii_column, hex_byte_value, hex_jump_target, hex_page_back, hex_page_forward,
};

#[test]
fn jumps_land_on_the_row_of_the_address() {
    assert_eq!(hex_jump_target("0x8123", 0x8000, 0x8000), Some(0x120));
    assert_eq!(hex_jump_target("  8123\n", 0x8000, 0x8000), Some(0x120));
    assert_eq!(hex_jump_target("0x0x1f", 0, 0x800), Some(0x10));
    assert_eq!(hex_jump_target("+1F", 0, 0x800), Some(0x10));
}

#[test]
fn jumps_stay_inside_the_image() {
    assert_eq!(hex_jump_target("ffff", 0, 0x800), Some(0x7f0));
    assert_eq!(hex_jump_target("10", 0x8000, 0x8000), Some(0));
    assert_eq!(hex_jump_target("10", 0, 0), Some(0));
}

#[test]
fn text_that_is_no_address_does_not_jump() {
    assert_eq!(hex_jump_target("", 0, 0x800), None);
    assert_eq!(hex_jump_target("0x", 0, 0x800), None);
    assert_eq!(hex_jump_target("+", 0, 0x800), None);
    assert_eq!(hex_jump_target("12g4", 0, 0x800), None);
    assert_eq!(hex_jump_target("-1", 0, 0x800), None);
    assert_eq!(hex_jump_target("1ffffffffffffffff", 0, 0x800), None);
}

#[test]
fn bytes_to_write_are_hexadecimal() {
    assert_eq!(hex_byte_value(" 7f "), Some(0x7f));
    assert_eq!(hex_byte_value("FF"), Some(0xff));
    assert_eq!(hex_byte_value("100"), None);
    assert_eq!(hex_byte_value("0x10"), None);
    assert_eq!(hex_byte_value(""), None);
}

#[test]
fn pages_move_by_whole_rows() {
    assert_eq!(hex_page_back(0x100, 16), 0);
    assert_eq!(hex_page_back(0x80, 16), 0);
    assert_eq!(hex_page_back(0x300, 16), 0x200);
    assert_eq!(hex_page_forward(0, 16, 0x800), 0x100);
    assert_eq!(hex_page_forward(0x7f0, 16, 0x800), 0x7f0);
    assert_eq!(hex_page_forward(0x10, 16, 0x105), 0x100);
    assert_eq!(hex_page_forward(0, 16, 0), 0);
}

#[test]
fn cheats_show_where_their_address_lives() {
    assert_eq!(cheat_cell_index(MemorySpace::CpuBus, 0x8123), Some(0x8123));
    assert_eq!(cheat_cell_index(MemorySpace::CpuRam, 0x0812), Some(0x012));
    assert_eq!(cheat_cell_index(MemorySpace::CpuRam, 0x2000), None);
    assert_eq!(cheat_cell_index(MemorySpace::PrgRom, 0x0010), None);
}

#[test]
fn the_text_column_shows_visible_ascii() {
    let bytes = b"Hi there!\x00\x7f\x20ABCDEFGH";
    assert_eq!(hex_ascii_column(bytes, 0), "Hi.there!...ABCD");
    assert_eq!(hex_ascii_column(bytes, 16), "EFGH");
    assert_eq!(hex_ascii_column(bytes, bytes.len()), "");
}
