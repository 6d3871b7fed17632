use voxel_mesh::colour::Colour;
use voxel_mesh::grid::{volume_of, VoxelModel, EMPTY};

fn palette() -> [Colour; 256] {
    let mut palette = [Colour { r: 0, g: 0, b: 0 }; 256];
    for i in 0..256 {
        palette[i] = Colour { r: i as u8, g: (255 - i) as u8, b: 7 };
    }
    palette
}

fn grid(width: u32, height: u32, depth: u32, cells: Vec<u8>) -> VoxelModel {
    VoxelModel::new(width, height, depth, palette(), cells).unwrap()
}

#[test]
fn new_accepts_exactly_one_byte_per_cell() {
    assert!(VoxelModel::new(2, 3, 4, palette(), vec![0; 24]).is_some());
    assert!(VoxelModel::new(2, 3, 4, palette(), vec![0; 23]).is_none());
    assert!(VoxelModel::new(2, 3, 4, palette(), vec![0; 25]).is_none());
    assert!(VoxelModel::new(0, 3, 4, palette(), vec![]).is_some());
    assert!(VoxelModel::new(0, 3, 4, palette(), vec![0]).is_none());
    assert!(VoxelModel::new(u32::MAX, u32::MAX, u32::MAX, palette(), vec![0; 8]).is_none());
}

#[test]
fn new_keeps_its_parts() {
    let model = grid(1, 2, 3, vec![1, 2, 3, 4, 5, 6]);
    assert_eq!((model.width(), model.height(), model.depth()), (1, 2, 3));
    assert_eq!(model.data(), &vec![1, 2, 3, 4, 5, 6]);
    assert_eq!(model.palette(), &palette());
}

#[test]
fn volume_is_the_product_of_the_dimensions() {
    assert_eq!(volume_of(2, 3, 4), 24);
    assert_eq!(volume_of(0, 3, 4), 0);
    assert_eq!(volume_of(u32::MAX, u32::MAX, u32::MAX), 79228162458924105385300197375);
}

#[test]
fn index_has_z_fastest_then_y_then_x() {
    let model = grid(2, 3, 4, vec![0; 24]);
    assert_eq!(model.index(0, 0, 0), 0);
    assert_eq!(model.index(0, 0, 1), 1);
    assert_eq!(model.index(0, 1, 0), 4);
    assert_eq!(model.index(1, 0, 0), 12);
    assert_eq!(model.index(1, 2, 3), 23);
}

#[test]
fn index_is_one_to_one_onto_the_cell_positions() {
    let model = grid(3, 4, 5, vec![0; 60]);
    let mut seen = vec![false; 60];
    for x in 0..3 {
        for y in 0..4 {
            for z in 0..5 {
                let i = model.index(x, y, z);
                assert!(i < 60);
                assert!(!seen[i]);
                seen[i] = true;
            }
        }
    }
    assert!(seen.iter().all(|s| *s));
}

#[test]
fn at_fails_exactly_outside_the_grid() {
    let model = grid(2, 3, 4, vec![0; 24]);
    for x in 0..4 {
        for y in 0..5 {
            for z in 0..6 {
                let inside = x < 2 && y < 3 && z < 4;
                assert_eq!(model.at(x, y, z).is_ok(), inside);
            }
        }
    }
    assert_eq!(model.at(2, 0, 0), Err(()));
    assert_eq!(model.at(0, 3, 0), Err(()));
    assert_eq!(model.at(0, 0, 4), Err(()));
    assert_eq!(model.at(u32::MAX, 0, 0), Err(()));
    assert_eq!(model.at(0, u32::MAX, u32::MAX), Err(()));
}

#[test]
fn at_fails_everywhere_on_a_grid_without_cells() {
    let model = grid(0, 3, 4, vec![]);
    assert_eq!(model.at(0, 0, 0), Err(()));
}

#[test]
fn at_looks_the_cell_up_in_the_palette() {
    let cells: Vec<u8> = (0..24).collect();
    let model = grid(2, 3, 4, cells);
    assert_eq!(model.at(0, 0, 0), Ok(Some(Colour { r: 0, g: 255, b: 7 })));
    assert_eq!(model.at(0, 0, 3), Ok(Some(Colour { r: 3, g: 252, b: 7 })));
    assert_eq!(model.at(0, 2, 1), Ok(Some(Colour { r: 9, g: 246, b: 7 })));
    assert_eq!(model.at(1, 2, 3), Ok(Some(Colour { r: 23, g: 232, b: 7 })));
}

#[test]
fn at_gives_nothing_for_the_sentinel() {
    assert_eq!(EMPTY, 255);
    let model = grid(1, 1, 3, vec![254, 255, 0]);
    assert_eq!(model.at(0, 0, 0), Ok(Some(Colour { r: 254, g: 1, b: 7 })));
    assert_eq!(model.at(0, 0, 1), Ok(None));
    assert_eq!(model.at(0, 0, 2), Ok(Some(Colour { r: 0, g: 255, b: 7 })));
}
