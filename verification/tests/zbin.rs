use risico::zbin::{
    read_zbin_file_grid, read_zbin_file_values, read_zbin_grid, read_zbin_values, regular_zbin_file,
    regular_zbin_payload, GridBounds, ZbinError, ZbinGrid,
};

fn bounds() -> GridBounds {
    GridBounds {
        min_lat: 36.0f32.to_bits(),
        max_lat: 47.0f32.to_bits(),
        min_lon: 6.0f32.to_bits(),
        max_lon: 19.0f32.to_bits(),
    }
}

#[test]
fn a_regular_payload_has_the_documented_layout() {
    let values: Vec<u32> = [1.5f32, -2.0, 3.25, 0.0, 9.0].iter().map(|v| v.to_bits()).collect();
    let payload = regular_zbin_payload(2, 2, bounds(), &values);
    assert_eq!(payload.len(), 4 * (7 + 4));
    assert_eq!(&payload[0..12], &[1, 0, 0, 0, 2, 0, 0, 0, 2, 0, 0, 0]);
    assert_eq!(&payload[12..16], &36.0f32.to_le_bytes());
    assert_eq!(&payload[28..32], &1.5f32.to_le_bytes());
    assert_eq!(read_zbin_values(&payload), Ok(values[..4].to_vec()));
    match read_zbin_grid(&payload) {
        Ok(ZbinGrid::Regular { nrows, ncols, bounds: b }) => {
            assert_eq!((nrows, ncols), (2, 2));
            assert_eq!(b, bounds());
        }
        other => panic!("unexpected {other:?}"),
    }
}

#[test]
fn zbin_files_round_trip_through_gzip() {
    let values: Vec<u32> = (0..6).map(|k| (k as f32 * 0.5).to_bits()).collect();
    let file = regular_zbin_file(2, 3, bounds(), &values);
    assert_eq!(&file[0..2], &[0x1f, 0x8b]);
    assert_eq!(read_zbin_file_values(&file), Ok(values.clone()));
    assert!(matches!(read_zbin_file_grid(&file), Ok(ZbinGrid::Regular { nrows: 2, ncols: 3, .. })));
    assert_eq!(read_zbin_file_values(&[1, 2, 3]), Err(ZbinError::NotGzip));
}

#[test]
fn irregular_grids_list_every_point() {
    let mut payload = vec![0u8, 0, 0, 0, 1, 0, 0, 0, 2, 0, 0, 0];
    for value in [10.0f32, 11.0, 20.0, 21.0, 0.5, 0.25] {
        payload.extend_from_slice(&value.to_le_bytes());
    }
    match read_zbin_grid(&payload) {
        Ok(ZbinGrid::Irregular { nrows, ncols, lats, lons }) => {
            assert_eq!((nrows, ncols), (1, 2));
            assert_eq!(lats, vec![10.0f32.to_bits(), 11.0f32.to_bits()]);
            assert_eq!(lons, vec![20.0f32.to_bits(), 21.0f32.to_bits()]);
        }
        other => panic!("unexpected {other:?}"),
    }
    assert_eq!(read_zbin_values(&payload), Ok(vec![0.5f32.to_bits(), 0.25f32.to_bits()]));
}

#[test]
fn malformed_payloads_are_rejected() {
    assert_eq!(read_zbin_values(&[1, 0, 0]), Err(ZbinError::Truncated));
    assert_eq!(read_zbin_values(&[7, 0, 0, 0, 1, 0, 0, 0, 1, 0, 0, 0]), Err(ZbinError::UnknownGridType(7)));
    assert!(matches!(read_zbin_grid(&[1, 0, 0, 0, 1, 0, 0, 0, 1, 0, 0, 0]), Err(ZbinError::Truncated)));
    let payload = regular_zbin_payload(1, 1, bounds(), &[5]);
    assert_eq!(read_zbin_values(&payload[..payload.len() - 1]), Err(ZbinError::Truncated));
}

#[test]
fn only_what_the_header_announces_is_read() {
    let values: Vec<u32> = (0..6).map(|k| (k as f32 + 1.0).to_bits()).collect();
    let file = regular_zbin_file(2, 3, bounds(), &values);
    // A damaged checksum in the gzip trailer lies past the values.
    let mut damaged = file.clone();
    let at = damaged.len() - 8;
    damaged[at] ^= 0xff;
    assert_eq!(read_zbin_file_values(&damaged), Ok(values.clone()));
    // A stream cut short cannot be read.
    assert!(read_zbin_file_values(&file[..file.len() / 2]).is_err());
}
