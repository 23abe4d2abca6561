use exodus_term::console::{
    input_commands, mapping_size, DeviceError, KernelConsole, HEADER_SIZE,
};

fn region(rows: u16, cols: u16, hdr_rows: u16, hdr_cols: u16, extra: usize) -> Vec<u8> {
    let mut b = vec![0u8; HEADER_SIZE as usize + rows as usize * cols as usize * 2 + extra];
    b[0..2].copy_from_slice(&hdr_rows.to_le_bytes());
    b[2..4].copy_from_slice(&hdr_cols.to_le_bytes());
    b
}

#[test]
fn mapping_size_rounds_up_to_page() {
    assert_eq!(mapping_size(40, 120, 4096), 12288);
    assert_eq!(mapping_size(1, 1, 4096), 4096);
}

#[test]
fn mapping_size_exact_multiple_is_kept() {
    // 48 + 1 * 24 * 2 = 96 bytes
    assert_eq!(mapping_size(1, 24, 32), 96);
    assert_eq!(mapping_size(1, 24, 96), 96);
    assert_eq!(mapping_size(1, 24, 64), 128);
}

#[test]
fn mapping_size_largest_grid() {
    let total: u64 = 48 + 65535u64 * 65535 * 2;
    let r = mapping_size(65535, 65535, 4096);
    assert_eq!(r % 4096, 0);
    assert!(r >= total && r < total + 4096);
}

#[test]
fn push_input_of_300_bytes_makes_two_commands() {
    let data: Vec<u8> = (0..300u32).map(|i| (i % 251) as u8).collect();
    let cmds = input_commands(&data);
    assert_eq!(cmds.len(), 2);
    assert_eq!(cmds[0].len, 256);
    assert_eq!(cmds[1].len, 44);
    assert_eq!(&cmds[0].data[..], &data[..256]);
    assert_eq!(&cmds[1].data[..44], &data[256..]);
    assert!(cmds[1].data[44..].iter().all(|&b| b == 0));
}

#[test]
fn push_input_edge_lengths() {
    assert_eq!(input_commands(&[]).len(), 0);
    let one = input_commands(&[7u8]);
    assert_eq!(one.len(), 1);
    assert_eq!(one[0].len, 1);
    assert_eq!(one[0].data[0], 7);
    assert_eq!(input_commands(&[1u8; 256]).len(), 1);
    let two = input_commands(&[1u8; 512]);
    assert_eq!(two.len(), 2);
    assert_eq!(two[1].len, 256);
    assert_eq!(input_commands(&[1u8; 257]).len(), 2);
}

#[test]
fn errno_classification() {
    assert_eq!(DeviceError::from_errno(2), DeviceError::NotFound);
    assert_eq!(DeviceError::from_errno(19), DeviceError::NotFound);
    assert_eq!(DeviceError::from_errno(13), DeviceError::PermissionDenied);
    assert_eq!(DeviceError::from_errno(1), DeviceError::PermissionDenied);
    assert_eq!(DeviceError::from_errno(22), DeviceError::ProtocolError);
    assert_eq!(DeviceError::from_errno(5), DeviceError::IoError);
}

#[test]
fn from_mapping_rejects_short_region() {
    assert!(KernelConsole::from_mapping(2, 3, vec![0u8; 48 + 11]).is_none());
    assert!(KernelConsole::from_mapping(2, 3, vec![0u8; 48 + 12]).is_some());
}

#[test]
fn header_decodes_little_endian_fields() {
    let mut b = region(2, 3, 2, 3, 0);
    b[4..6].copy_from_slice(&1u16.to_le_bytes());
    b[6..8].copy_from_slice(&2u16.to_le_bytes());
    b[8..12].copy_from_slice(&1u32.to_le_bytes());
    b[12..16].copy_from_slice(&0x00aabbccu32.to_le_bytes());
    b[16..20].copy_from_slice(&0x00112233u32.to_le_bytes());
    b[20..24].copy_from_slice(&0xdeadbeefu32.to_le_bytes());
    b[24..28].copy_from_slice(&5u32.to_le_bytes());
    b[28..32].copy_from_slice(&9u32.to_le_bytes());
    b[32] = 0x5a;
    b[47] = 0xa5;
    let c = KernelConsole::from_mapping(2, 3, b).unwrap();
    let h = c.header();
    let (rows, cols, cr, cc) = (h.rows, h.cols, h.cursor_row, h.cursor_col);
    assert_eq!((rows, cols, cr, cc), (2, 3, 1, 2));
    let (flags, fg, bg, seq) = (h.flags, h.fg_color, h.bg_color, h.dirty_seq);
    assert_eq!((flags, fg, bg, seq), (1, 0x00aabbcc, 0x00112233, 0xdeadbeef));
    let (so, sl) = (h.scroll_offset, h.scroll_lines);
    assert_eq!((so, sl), (5, 9));
    let pad = h._pad;
    assert_eq!(pad[0], 0x5a);
    assert_eq!(pad[15], 0xa5);
}

#[test]
fn cell_reads_row_major() {
    let mut b = region(2, 3, 2, 3, 0);
    // cell (1, 2) is the sixth: offset 48 + 5 * 2
    b[58] = b'x';
    b[59] = 0x17;
    b[48] = b'a';
    b[49] = 0x07;
    let c = KernelConsole::from_mapping(2, 3, b).unwrap();
    let x = c.cell(1, 2).unwrap();
    assert_eq!((x.ch, x.attr), (b'x', 0x17));
    let a = c.cell(0, 0).unwrap();
    assert_eq!((a.ch, a.attr), (b'a', 0x07));
}

#[test]
fn cell_outside_configured_grid_is_refused() {
    // room for more cells than configured: still refused
    let c = KernelConsole::from_mapping(2, 3, region(2, 3, 2, 3, 4096)).unwrap();
    assert!(c.cell(2, 0).is_none());
    assert!(c.cell(0, 3).is_none());
    assert!(c.cell(65535, 65535).is_none());
    assert!(c.cell(1, 2).is_some());
}
