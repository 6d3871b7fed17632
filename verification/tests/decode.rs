use voxel_mesh::colour::{scale_channel, Colour};
use voxel_mesh::decode::{load_model, DecodeError};

fn stream(width: u32, height: u32, depth: u32, cells: &[u8], palette: &[(u8, u8, u8)]) -> Vec<u8> {
    let mut bytes = Vec::new();
    bytes.extend_from_slice(&width.to_le_bytes());
    bytes.extend_from_slice(&height.to_le_bytes());
    bytes.extend_from_slice(&depth.to_le_bytes());
    bytes.extend_from_slice(cells);
    for i in 0..256 {
        let (r, g, b) = if i < palette.len() { palette[i] } else { (0, 0, 0) };
        bytes.push(r);
        bytes.push(g);
        bytes.push(b);
    }
    bytes
}

fn store(model: &voxel_mesh::grid::VoxelModel) -> Vec<u8> {
    let palette: Vec<(u8, u8, u8)> =
        model.palette().iter().map(|c| (c.r >> 2, c.g >> 2, c.b >> 2)).collect();
    stream(model.width(), model.height(), model.depth(), model.data(), &palette)
}

#[test]
fn header_is_little_endian() {
    let cells = vec![7u8; 258];
    let mut bytes = vec![0x02, 0x01, 0x00, 0x00, 0x01, 0x00, 0x00, 0x00, 0x01, 0x00, 0x00, 0x00];
    bytes.extend_from_slice(&cells);
    bytes.extend_from_slice(&[0u8; 768]);
    let model = load_model(&bytes).unwrap();
    assert_eq!(model.width(), 258);
    assert_eq!(model.height(), 1);
    assert_eq!(model.depth(), 1);
    assert_eq!(model.data().len(), 258);
}

#[test]
fn header_uses_all_four_bytes() {
    // 0x0001_0000 * 0x0100 * 1 cells: only the length check is reached.
    let bytes = vec![0x00, 0x00, 0x01, 0x00, 0x00, 0x01, 0x00, 0x00, 0x01, 0x00, 0x00, 0x00];
    assert_eq!(load_model(&bytes).err(), Some(DecodeError::UnexpectedEof));
    let bytes = vec![0x00, 0x00, 0x00, 0x01, 0x01, 0x00, 0x00, 0x00, 0x01, 0x00, 0x00, 0x00];
    assert_eq!(load_model(&bytes).err(), Some(DecodeError::UnexpectedEof));
}

#[test]
fn cells_are_read_in_order_unchanged() {
    let cells: Vec<u8> = (0..24).map(|i| (i * 10) as u8).collect();
    let model = load_model(&stream(2, 3, 4, &cells, &[])).unwrap();
    assert_eq!((model.width(), model.height(), model.depth()), (2, 3, 4));
    assert_eq!(model.data(), &cells);
}

#[test]
fn palette_channels_are_scaled_by_four() {
    let model = load_model(&stream(0, 0, 0, &[], &[(63, 0, 1), (2, 3, 4)])).unwrap();
    assert_eq!(model.palette()[0], Colour { r: 252, g: 0, b: 4 });
    assert_eq!(model.palette()[1], Colour { r: 8, g: 12, b: 16 });
    assert_eq!(model.palette()[2], Colour { r: 0, g: 0, b: 0 });
    assert_eq!(model.palette().len(), 256);
}

#[test]
fn palette_is_read_red_green_blue_for_each_entry() {
    let palette: Vec<(u8, u8, u8)> =
        (0..256).map(|i| ((i % 64) as u8, ((i + 1) % 64) as u8, ((i + 2) % 64) as u8)).collect();
    let model = load_model(&stream(1, 1, 1, &[0], &palette)).unwrap();
    for i in 0..256usize {
        let expected = Colour {
            r: ((i % 64) * 4) as u8,
            g: (((i + 1) % 64) * 4) as u8,
            b: (((i + 2) % 64) * 4) as u8,
        };
        assert_eq!(model.palette()[i], expected);
    }
}

#[test]
fn scaling_shifts_without_clamping() {
    assert_eq!(scale_channel(0), 0);
    assert_eq!(scale_channel(1), 4);
    assert_eq!(scale_channel(63), 252);
    assert_eq!(scale_channel(64), 0);
    assert_eq!(scale_channel(65), 4);
    assert_eq!(scale_channel(255), 252);
}

#[test]
fn black_is_all_zero() {
    assert_eq!(Colour::black(), Colour { r: 0, g: 0, b: 0 });
}

#[test]
fn empty_stream_is_rejected() {
    assert_eq!(load_model(&[]).err(), Some(DecodeError::UnexpectedEof));
}

#[test]
fn truncated_header_is_rejected() {
    let bytes = stream(1, 1, 1, &[0], &[]);
    for len in 0..12 {
        assert_eq!(load_model(&bytes[..len]).err(), Some(DecodeError::UnexpectedEof));
    }
}

#[test]
fn truncated_cells_are_rejected() {
    let bytes = stream(2, 2, 2, &[0; 8], &[]);
    assert_eq!(load_model(&bytes[..12]).err(), Some(DecodeError::UnexpectedEof));
    assert_eq!(load_model(&bytes[..19]).err(), Some(DecodeError::UnexpectedEof));
}

#[test]
fn truncated_palette_is_rejected() {
    let bytes = stream(2, 2, 2, &[0; 8], &[]);
    assert_eq!(bytes.len(), 12 + 8 + 768);
    assert_eq!(load_model(&bytes[..20]).err(), Some(DecodeError::UnexpectedEof));
    assert_eq!(load_model(&bytes[..bytes.len() - 1]).err(), Some(DecodeError::UnexpectedEof));
    assert!(load_model(&bytes).is_ok());
}

#[test]
fn huge_declared_volume_is_rejected() {
    let mut bytes = vec![0xff; 12];
    bytes.extend_from_slice(&[0u8; 2000]);
    assert_eq!(load_model(&bytes).err(), Some(DecodeError::UnexpectedEof));
}

#[test]
fn bytes_after_the_palette_are_ignored() {
    let mut bytes = stream(1, 1, 2, &[3, 255], &[(1, 2, 3)]);
    bytes.extend_from_slice(&[9, 9, 9]);
    let model = load_model(&bytes).unwrap();
    assert_eq!(model.data(), &vec![3, 255]);
    assert_eq!(model.palette()[0], Colour { r: 4, g: 8, b: 12 });
}

#[test]
fn zero_sized_grid_decodes() {
    let model = load_model(&stream(0, 5, 7, &[], &[])).unwrap();
    assert_eq!((model.width(), model.height(), model.depth()), (0, 5, 7));
    assert!(model.data().is_empty());
}

#[test]
fn round_trip_keeps_dimensions_and_cells() {
    let cells: Vec<u8> = (0..60).map(|i| if i % 7 == 0 { 255 } else { i as u8 }).collect();
    let palette: Vec<(u8, u8, u8)> = (0..256).map(|i| ((i % 64) as u8, 5, 63)).collect();
    let first = load_model(&stream(3, 4, 5, &cells, &palette)).unwrap();
    let second = load_model(&store(&first)).unwrap();
    assert_eq!(second.width(), 3);
    assert_eq!(second.height(), 4);
    assert_eq!(second.depth(), 5);
    assert_eq!(second.data(), &cells);
    assert_eq!(second.palette(), first.palette());
}

#[test]
fn round_trip_truncates_channels_that_are_not_multiples_of_four() {
    let mut palette = [Colour { r: 0, g: 0, b: 0 }; 256];
    palette[0] = Colour { r: 252, g: 253, b: 3 };
    palette[1] = Colour { r: 4, g: 7, b: 128 };
    let model = voxel_mesh::grid::VoxelModel::new(1, 1, 1, palette, vec![0]).unwrap();
    let back = load_model(&store(&model)).unwrap();
    assert_eq!(back.palette()[0], Colour { r: 252, g: 252, b: 0 });
    assert_eq!(back.palette()[1], Colour { r: 4, g: 4, b: 128 });
    assert_eq!(back.data(), model.data());
}
