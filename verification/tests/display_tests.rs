use musicpi_display::display::Display;

#[test]
fn packed_row_sets_bit7_for_first_cell() {
    // Cells 0 and 3 lit: bit 7 for cell 0, bit 4 for cell 3.
    let row = vec![true, false, false, true, false, false, false, false];
    assert_eq!(0b1001_0000, Display::slice_to_row_data(&row, 0));
}

#[test]
fn packed_row_all_dark_is_zero() {
    let row = vec![false; 8];
    assert_eq!(0, Display::slice_to_row_data(&row, 0));
}

#[test]
fn packed_row_all_lit_is_ff() {
    let row = vec![true; 8];
    assert_eq!(0xFF, Display::slice_to_row_data(&row, 0));
}

#[test]
fn packed_row_reads_from_the_start_offset() {
    let mut row = vec![false; 16];
    row[8] = true;
    assert_eq!(0b1000_0000, Display::slice_to_row_data(&row, 8));
}

#[test]
fn write_addresses_one_device_with_noops_elsewhere() {
    let display = Display::new(4, 2);
    let frame = display.write(0x5, 0x7, 3);
    assert_eq!(16, frame.len());
    for d in 0..8 {
        if d == 3 {
            assert_eq!(0x5, frame[2 * d]);
            assert_eq!(0x7, frame[2 * d + 1]);
        } else {
            assert_eq!(0, frame[2 * d]);
            assert_eq!(0, frame[2 * d + 1]);
        }
    }
}

#[test]
fn write_all_addresses_every_device() {
    let display = Display::new(2, 1);
    assert_eq!(vec![0xA, 3, 0xA, 3], display.write_all(0xA, 3));
}

#[test]
fn get_devices_multiplies_the_grid() {
    assert_eq!(8, Display::new(4, 2).get_devices());
}

#[test]
fn setup_issues_the_five_configuration_writes() {
    let display = Display::new(1, 1);
    let frames = display.setup();
    assert_eq!(
        vec![
            vec![0xA, 1],
            vec![0x9, 0],
            vec![0xF, 0],
            vec![0xC, 1],
            vec![0xB, 7],
        ],
        frames
    );
}

#[test]
fn clear_zeroes_digit_registers_one_to_seven() {
    let display = Display::new(1, 1);
    let frames = display.clear();
    assert_eq!(7, frames.len());
    for (k, frame) in frames.iter().enumerate() {
        assert_eq!(&vec![(k + 1) as u8, 0], frame);
    }
}

#[test]
fn set_intensity_writes_the_intensity_register() {
    let display = Display::new(2, 1);
    assert_eq!(vec![0xA, 9, 0xA, 9], display.set_intensity(9));
}

#[test]
fn display_reverses_rows_into_digit_registers() {
    // One 8x8 module; only the top-left cell is lit.
    let display = Display::new(1, 1);
    let mut buffer = vec![false; 64];
    buffer[0] = true;
    let frames = display.display(&buffer);
    assert_eq!(8, frames.len());
    // Buffer row 0 goes to digit register 8, with the leftmost cell in bit 7.
    assert_eq!(vec![8, 0b1000_0000], frames[0]);
    for row in 1..8 {
        assert_eq!(vec![(8 - row) as u8, 0], frames[row as usize]);
    }
}

#[test]
fn display_fans_out_to_the_addressed_module() {
    // A 2x1 chain; one lit cell in the second module's row 5.
    let display = Display::new(2, 1);
    let mut buffer = vec![false; 128];
    // Row 5 starts at cell 5 * 16; the second module covers columns 8..16.
    buffer[5 * 16 + 8] = true;
    let frames = display.display(&buffer);
    assert_eq!(16, frames.len());
    // Frames come module by module: frames 0..8 for module (0,0), 8..16 for
    // module (1,0). Row 5 of module 1 is frame 8 + 5.
    let frame = &frames[8 + 5];
    assert_eq!(vec![0, 0, 8 - 5, 0b1000_0000], *frame);
    // Every other frame carries no lit cell.
    for (i, f) in frames.iter().enumerate() {
        if i != 8 + 5 {
            assert_eq!(0, f[1]);
            assert_eq!(0, f[3]);
        }
    }
}
