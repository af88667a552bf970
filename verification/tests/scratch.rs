use risico::scratch::{
    check_cover, decode_plane, encode_plane, join_tiles, join_variable, scatter, PlaneLayout, ScratchError, TileOutput,
};
use risico::variables::OutputVariableName;

#[test]
fn scratch_layouts_are_checked_when_created() {
    assert_eq!(PlaneLayout::new(0, 3), Err(ScratchError::NoPlanes));
    assert_eq!(PlaneLayout::new(2, 0), Err(ScratchError::Empty));
    assert_eq!(PlaneLayout::new(2, usize::MAX), Err(ScratchError::ValueCountOverflow));
    assert_eq!(PlaneLayout::new(1, usize::MAX / 2), Err(ScratchError::ByteLengthOverflow));
    let layout = PlaneLayout::new(2, 3).unwrap();
    assert_eq!(layout.byte_len(), 24);
}

#[test]
fn planes_sit_one_after_another() {
    let layout = PlaneLayout::new(16, 4096).unwrap();
    assert_eq!(layout.value_byte_offset(0, 0), Ok(0));
    assert_eq!(layout.value_byte_offset(1, 2), Ok((4096 + 2) * 4));
    assert_eq!(layout.value_byte_offset(1, 4096), Err(ScratchError::CellOutside(4096)));
    assert_eq!(layout.plane_byte_range(3), Ok((3 * 4096 * 4, 4 * 4096 * 4)));
    assert_eq!(layout.validate_plane(16), Err(ScratchError::PlaneOutside(16)));
    assert_eq!(layout.validate_plane(15), Ok(()));
}

#[test]
fn dense_plane_writes_reject_a_length_mismatch() {
    let layout = PlaneLayout::new(1, 3).unwrap();
    assert_eq!(layout.plane_write_range(0, 2), Err(ScratchError::LengthMismatch(2)));
    assert_eq!(layout.plane_write_range(1, 3), Err(ScratchError::PlaneOutside(1)));
    assert_eq!(layout.plane_write_range(0, 3), Ok((0, 12)));
}

#[test]
fn mapped_planes_roundtrip_dense_writes_through_a_scatter() {
    let first: Vec<u32> = [10.0f32, 40.0, 70.0].iter().map(|v| v.to_bits()).collect();
    let bytes = encode_plane(&first);
    assert_eq!(bytes.len(), 12);
    assert_eq!(&bytes[0..4], &10.0f32.to_le_bytes());
    let stored = decode_plane(&bytes);
    assert_eq!(stored, first);

    // Planes land at the requested domain positions.
    let mut domain = vec![0.0f32.to_bits(); 8];
    scatter(&stored, &[1, 4, 7], &mut domain).unwrap();
    let domain: Vec<f32> = domain.into_iter().map(f32::from_bits).collect();
    assert_eq!(domain, vec![0.0, 10.0, 0.0, 0.0, 40.0, 0.0, 0.0, 70.0]);
}

#[test]
fn scatters_report_bad_positions() {
    let mut domain = vec![0u32; 3];
    assert_eq!(scatter(&[1, 2], &[0], &mut domain), Err(ScratchError::PositionCount(1)));
    assert_eq!(domain, vec![0, 0, 0]);
    assert_eq!(scatter(&[1, 2, 3], &[2, 5, 0], &mut domain), Err(ScratchError::PositionOutside(5)));
    assert_eq!(domain, vec![0, 0, 1]);
}

#[test]
fn per_tile_scratches_rejoin_into_domain_order() {
    // Two tiles interleaved across a six cell domain, as a raster tiling
    // produces: each tile owns increasing but non-contiguous positions.
    let positions = vec![vec![0usize, 2, 4], vec![1, 3, 5]];
    let temperature = vec![vec![1.0f32, 3.0, 5.0], vec![2.0, 4.0, 6.0]];
    let rain = vec![vec![10.0f32, 30.0, 50.0], vec![20.0, 40.0, 60.0]];
    assert_eq!(join_tiles(6, &positions, &temperature, f32::NAN).unwrap(), vec![1.0, 2.0, 3.0, 4.0, 5.0, 6.0]);
    assert_eq!(join_tiles(6, &positions, &rain, f32::NAN).unwrap(), vec![10.0, 20.0, 30.0, 40.0, 50.0, 60.0]);
}

#[test]
fn joining_rejects_tiles_that_do_not_cover_the_domain() {
    let positions = vec![vec![0usize, 1]];
    let values = vec![vec![1u32, 2]];
    assert_eq!(join_tiles(5, &positions, &values, 0), Err(ScratchError::CoverMismatch(2)));
    assert_eq!(check_cover(&[2, 3], 5), Ok(()));
    assert_eq!(check_cover(&[usize::MAX, 3], 5), Err(ScratchError::CoverMismatch(usize::MAX)));
}

#[test]
fn tiles_select_their_cells_and_warm_state() {
    use_selection();
}

fn use_selection() {
    let data = [10u32, 11, 12, 13, 14];
    assert_eq!(risico::scratch::select_cells(&data, &[4, 0, 2]), vec![14, 10, 12]);
    assert_eq!(risico::scratch::select_warm_state(&data, &[1, 3], 0), vec![11, 13]);
    assert_eq!(risico::scratch::select_warm_state(&[], &[1, 3, 7], 9u32), vec![9, 9, 9]);
}

#[test]
fn the_last_write_wins_and_unlisted_cells_keep_their_fill() {
    let mut destination = vec![9u32, 9, 9, 9];
    assert_eq!(scatter(&[1, 2, 3], &[0, 2, 0], &mut destination), Ok(()));
    assert_eq!(destination, vec![3, 9, 2, 9]);

    // Three positions listed in all, cell 1 twice and cell 2 never.
    let joined = join_tiles(3, &vec![vec![0, 1], vec![1]], &vec![vec![10.0f32, 11.0], vec![21.0]], 0.0).unwrap();
    assert_eq!(joined, vec![10.0, 21.0, 0.0]);
}

#[test]
fn one_variable_is_rejoined_from_every_tile() {
    let tile = |positions: Vec<usize>, variables: Vec<OutputVariableName>, planes: Vec<Vec<f32>>| TileOutput {
        positions,
        variables,
        planes,
    };
    let first = OutputVariableName::dffm;
    let second = OutputVariableName::V;
    let tiles = vec![
        tile(vec![2, 0], vec![second, first], vec![vec![20.0, 0.5], vec![2.0, 0.0]]),
        tile(vec![0], vec![first], vec![vec![10.0]]),
    ];
    // Cell 0 is listed twice, the later tile winning; cell 1 by no tile.
    assert_eq!(join_variable(3, &tiles, first, 0.0), Ok(vec![10.0, 0.0, 2.0]));
    assert_eq!(join_variable(3, &tiles, second, 0.0), Err(ScratchError::MissingVariable(second)));
    assert_eq!(join_variable(4, &tiles, first, 0.0), Err(ScratchError::CoverMismatch(3)));
    let outside = vec![tile(vec![5], vec![first], vec![vec![1.0]])];
    assert_eq!(join_variable(1, &outside, first, 0.0), Err(ScratchError::PositionOutside(5)));
}
