use risico::config::{
    byte_unit_multiplier, default_cells_per_tile, default_tile_height, default_tile_width, split_byte_size,
    ByteSizeError, MissingWarmStatePolicy, StreamingConfigError, StreamingExecutionConfig,
};

/// A human byte size read as a deployment reads it: split and unit by the
/// library, the amount in floating point.
fn parse_byte_size(text: &str) -> Result<u64, ByteSizeError> {
    let parts = split_byte_size(text)?;
    let amount: f64 = parts.number.parse().map_err(|_| ByteSizeError::NoLeadingNumber)?;
    if !amount.is_finite() || amount <= 0.0 {
        return Err(ByteSizeError::NotPositive);
    }
    let multiplier = byte_unit_multiplier(&parts.unit).ok_or(ByteSizeError::UnknownUnit)?;
    Ok((amount * multiplier as f64) as u64)
}

fn max_memory_bytes(config: &StreamingExecutionConfig) -> Result<Option<u64>, ByteSizeError> {
    config.max_memory.as_deref().map(parse_byte_size).transpose()
}

fn validate(config: &StreamingExecutionConfig) -> Result<(), StreamingConfigError> {
    config.validate(max_memory_bytes(config))
}

fn with_budget(text: &str) -> StreamingExecutionConfig {
    StreamingExecutionConfig { max_memory: Some(text.to_owned()), ..StreamingExecutionConfig::default() }
}

#[test]
fn streaming_execution_defaults_and_overrides_are_validated() {
    let defaults = StreamingExecutionConfig::default();
    assert_eq!(defaults.tile_height, 512);
    assert_eq!(defaults.tile_width, 512);
    assert_eq!(defaults.cells_per_tile, 1_048_576);
    assert_eq!(defaults.tile_concurrency, None);
    assert_eq!(defaults.max_memory, None);
    assert_eq!(max_memory_bytes(&defaults).unwrap(), None);
    validate(&defaults).unwrap();

    let configured = StreamingExecutionConfig {
        tile_height: 128,
        tile_width: 256,
        cells_per_tile: 10000,
        tile_concurrency: Some(4),
        scratch_directory: Some("/scratch/risico".to_owned()),
        ..StreamingExecutionConfig::default()
    };
    assert_eq!(configured.tile_height, 128);
    assert_eq!(configured.tile_width, 256);
    assert_eq!(configured.tile_concurrency, Some(4));
    assert_eq!(configured.scratch_directory.as_deref(), Some("/scratch/risico"));
    validate(&configured).unwrap();

    let invalid = StreamingExecutionConfig { tile_height: 0, ..StreamingExecutionConfig::default() };
    assert!(validate(&invalid).is_err());

    let invalid = StreamingExecutionConfig { tile_concurrency: Some(0), ..StreamingExecutionConfig::default() };
    assert!(validate(&invalid).is_err());
}

#[test]
fn memory_budgets_accept_both_the_decimal_and_binary_scales() {
    let cases = [
        ("512", 512_u64),
        ("512B", 512),
        ("6GB", 6_000_000_000),
        ("6 GB", 6_000_000_000),
        ("6gb", 6_000_000_000),
        ("768 MiB", 768 << 20),
        ("1.5GB", 1_500_000_000),
        ("8GiB", 8 << 30),
    ];
    for (text, expected) in cases {
        let configured = with_budget(text);
        validate(&configured).unwrap();
        assert_eq!(max_memory_bytes(&configured).unwrap(), Some(expected), "parsing {text}");
    }
}

#[test]
fn malformed_memory_budgets_are_rejected_by_validation() {
    for text in ["", "  ", "lots", "GB", "-4GB", "0GB", "12 parsecs"] {
        let configured = with_budget(text);
        assert!(validate(&configured).is_err(), "should reject {text:?}");
    }
}

#[test]
fn byte_sizes_split_into_number_and_unit() {
    let parts = split_byte_size("  1.5 GiB ").unwrap();
    assert_eq!(parts.number, "1.5");
    assert_eq!(parts.unit, "GiB");
    let parts = split_byte_size("512").unwrap();
    assert_eq!(parts.number, "512");
    assert_eq!(parts.unit, "");
    let parts = split_byte_size("GB").unwrap();
    assert_eq!(parts.number, "");
    assert_eq!(parts.unit, "GB");
    let parts = split_byte_size("-4GB").unwrap();
    assert_eq!(parts.number, "");
    assert_eq!(parts.unit, "-4GB");
    let parts = split_byte_size("1.2.3 kb").unwrap();
    assert_eq!(parts.number, "1.2.3");
    assert_eq!(parts.unit, "kb");
    assert!(matches!(split_byte_size(" \t "), Err(ByteSizeError::Empty)));
    assert!(matches!(split_byte_size(""), Err(ByteSizeError::Empty)));
}

#[test]
fn every_unit_has_its_multiplier() {
    let cases = [
        ("", 1_u64),
        ("b", 1),
        ("B", 1),
        ("k", 1_000),
        ("kB", 1_000),
        ("m", 1_000_000),
        ("MB", 1_000_000),
        ("g", 1_000_000_000),
        ("GB", 1_000_000_000),
        ("t", 1_000_000_000_000),
        ("tb", 1_000_000_000_000),
        ("Ki", 1 << 10),
        ("KiB", 1 << 10),
        ("mi", 1 << 20),
        ("MiB", 1 << 20),
        ("gi", 1 << 30),
        ("GiB", 1 << 30),
        ("ti", 1 << 40),
        ("TiB", 1 << 40),
    ];
    for (unit, expected) in cases {
        assert_eq!(byte_unit_multiplier(unit), Some(expected), "unit {unit:?}");
    }
    assert_eq!(byte_unit_multiplier("parsecs"), None);
    assert_eq!(byte_unit_multiplier("kbb"), None);
}

#[test]
fn each_byte_size_error_has_its_input() {
    assert_eq!(parse_byte_size("   "), Err(ByteSizeError::Empty));
    assert_eq!(parse_byte_size("GB"), Err(ByteSizeError::NoLeadingNumber));
    assert_eq!(parse_byte_size("1.2.3GB"), Err(ByteSizeError::NoLeadingNumber));
    assert_eq!(parse_byte_size("0GB"), Err(ByteSizeError::NotPositive));
    assert_eq!(parse_byte_size("12 parsecs"), Err(ByteSizeError::UnknownUnit));
    let huge = format!("1{}", "0".repeat(400));
    assert_eq!(parse_byte_size(&huge), Err(ByteSizeError::NotPositive));
    let tiny = format!("0.{}1", "0".repeat(400));
    assert_eq!(parse_byte_size(&tiny), Err(ByteSizeError::NotPositive));
}

#[test]
fn byte_sizes_are_scaled_in_floating_point_and_truncated() {
    assert_eq!(parse_byte_size("2k"), Ok(2_000));
    assert_eq!(parse_byte_size("2 kB"), Ok(2_000));
    assert_eq!(parse_byte_size("3 mb"), Ok(3_000_000));
    assert_eq!(parse_byte_size("1 TB"), Ok(1_000_000_000_000));
    assert_eq!(parse_byte_size("1 KiB"), Ok(1024));
    assert_eq!(parse_byte_size("2 ki"), Ok(2048));
    assert_eq!(parse_byte_size("1MiB"), Ok(1_048_576));
    assert_eq!(parse_byte_size("1 TiB"), Ok(1u64 << 40));
    assert_eq!(parse_byte_size("  1.25 kB  "), Ok(1_250));
    assert_eq!(parse_byte_size("1.005kB"), Ok(1_004));
    assert_eq!(parse_byte_size("0.5"), Ok(0));
}

#[test]
fn each_streaming_error_has_its_configuration() {
    let zero_width = StreamingExecutionConfig { tile_width: 0, ..StreamingExecutionConfig::default() };
    assert_eq!(validate(&zero_width), Err(StreamingConfigError::ZeroTileDimension));
    let zero_cells = StreamingExecutionConfig { cells_per_tile: 0, ..StreamingExecutionConfig::default() };
    assert_eq!(validate(&zero_cells), Err(StreamingConfigError::ZeroCellsPerTile));
    let zero_threads = StreamingExecutionConfig { tile_concurrency: Some(0), ..StreamingExecutionConfig::default() };
    assert_eq!(validate(&zero_threads), Err(StreamingConfigError::ZeroTileConcurrency));
    assert_eq!(
        validate(&with_budget("lots")),
        Err(StreamingConfigError::MaxMemory(ByteSizeError::NoLeadingNumber))
    );
    assert_eq!(
        StreamingExecutionConfig { tile_width: 0, ..with_budget("lots") }.validate(Err(ByteSizeError::NoLeadingNumber)),
        Err(StreamingConfigError::ZeroTileDimension)
    );
}

#[test]
fn defaults_are_the_documented_ones() {
    assert_eq!(default_tile_height(), 512);
    assert_eq!(default_tile_width(), 512);
    assert_eq!(default_cells_per_tile(), 1_048_576);
    assert_eq!(MissingWarmStatePolicy::default(), MissingWarmStatePolicy::Error);
}
