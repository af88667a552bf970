use risico::config::{MissingWarmStatePolicy, StaticDataConfig};
use risico::runner::{
    check_coordinates, check_warm_state_cells, fwi_output_time_resolution, output_format, risico_layers,
    finish_timestep, seed_without_snapshot, snapshot_max_age, timestep_output_time, TimestepEnd, variable_parallelism, variable_parallelism_for,
    warm_state_schedule, zbin_output_path, MissingWarmStateError, OutputFormat, StaticLayerError, TimestepError,
};

fn geotiff(slope: bool, ppf_summer: bool, ppf_winter: bool) -> StaticDataConfig {
    StaticDataConfig::GeoTiff {
        domain_mask: "/static/domain_mask.tif".to_owned(),
        slope: slope.then(|| "/static/slope.tif".to_owned()),
        aspect: Some("/static/aspect.tif".to_owned()),
        vegetation_id: Some("/static/vegetation_id.tif".to_owned()),
        vegetation_catalog: Some("/static/veg.txt".to_owned()),
        ppf_summer: ppf_summer.then(|| "/static/ppf_summer.tif".to_owned()),
        ppf_winter: ppf_winter.then(|| "/static/ppf_winter.tif".to_owned()),
    }
}

#[test]
fn risico_needs_its_layers_and_paired_ppf() {
    let layers = risico_layers(&geotiff(true, true, true)).unwrap();
    assert_eq!(layers.slope, "/static/slope.tif");
    assert_eq!(layers.ppf, Some(("/static/ppf_summer.tif".to_owned(), "/static/ppf_winter.tif".to_owned())));
    assert!(risico_layers(&geotiff(true, false, false)).unwrap().ppf.is_none());
    assert_eq!(risico_layers(&geotiff(false, false, false)).unwrap_err(), StaticLayerError::MissingSlope);
    assert_eq!(risico_layers(&geotiff(true, true, false)).unwrap_err(), StaticLayerError::UnpairedPpf);
}

#[test]
fn warm_state_defaults_follow_the_configuration() {
    assert_eq!(warm_state_schedule(None, None), (0, 1));
    assert_eq!(warm_state_schedule(Some(12), Some(2)), (12, 2));
    assert_eq!(snapshot_max_age(None), 120);
    assert_eq!(snapshot_max_age(Some(48)), 48);
    assert_eq!(seed_without_snapshot(MissingWarmStatePolicy::Defaults, 1_700_000_000), Ok(1_700_000_000 - 86400));
    assert_eq!(seed_without_snapshot(MissingWarmStatePolicy::Error, 1_700_000_000), Err(MissingWarmStateError));
}

#[test]
fn legacy_fwi_always_writes_daily_outputs() {
    assert_eq!(fwi_output_time_resolution(None, "v2023"), 24);
    assert_eq!(fwi_output_time_resolution(Some(3), "v2023"), 3);
    assert_eq!(fwi_output_time_resolution(Some(3), "legacy"), 24);
}

#[test]
fn outputs_choose_their_writer() {
    assert_eq!(output_format("PNGWJSON", false), OutputFormat::PngWithJson);
    assert_eq!(output_format("NETCDF", false), OutputFormat::NetCdf);
    assert_eq!(output_format("GEOTIFF", true), OutputFormat::GeoTiff);
    assert_eq!(output_format("GEOTIFF", false), OutputFormat::Zbin);
    assert_eq!(output_format("ZBIN", true), OutputFormat::Zbin);
    assert_eq!(output_format("zbin", true), OutputFormat::Zbin);
    assert_eq!(
        zbin_output_path("/out", "ITALY", 1_700_000_000, 1_700_003_600, "FWI").as_deref(),
        Some("/out/ITALY_202311142213_202311142313_FWI.zbin")
    );
}

#[test]
fn variables_share_out_the_worker_threads() {
    assert_eq!(variable_parallelism_for(16, 4), 4);
    assert_eq!(variable_parallelism_for(3, 8), 1);
    assert!(variable_parallelism(1000) >= 1);
}

#[test]
fn timesteps_produce_one_output_time_or_none() {
    assert_eq!(timestep_output_time(&vec![None, None]), Ok(None));
    assert_eq!(timestep_output_time(&vec![Some(10), Some(10), Some(10)]), Ok(Some(10)));
    assert_eq!(timestep_output_time(&vec![Some(10), Some(20)]), Err(TimestepError::MixedOutputTimes(10, 20)));
    assert_eq!(timestep_output_time(&vec![Some(10), None, Some(10)]), Err(TimestepError::PartialOutput(2, 3)));
    assert_eq!(
        timestep_output_time(&vec![None, Some(10), None, Some(10), Some(20), Some(30)]),
        Err(TimestepError::MixedOutputTimes(10, 20))
    );
    assert_eq!(check_coordinates(3, 3, 3), Ok(()));
    assert_eq!(check_coordinates(3, 2, 3), Err(TimestepError::Coordinates(3, 2)));
    assert_eq!(check_warm_state_cells(4, 5), Err(TimestepError::PartialWarmState(4)));
    assert_eq!(check_warm_state_cells(5, 5), Ok(()));
}

#[test]
fn a_timestep_closes_with_its_output_then_its_warm_state() {
    assert_eq!(
        finish_timestep(&vec![Some(10), Some(10)], Some(5), 5),
        Ok(TimestepEnd { output_time: Some(10), write_warm_state: true })
    );
    assert_eq!(
        finish_timestep(&vec![None, None], None, 5),
        Ok(TimestepEnd { output_time: None, write_warm_state: false })
    );
    assert_eq!(finish_timestep(&vec![None, None], Some(4), 5), Err(TimestepError::PartialWarmState(4)));
    // The output is checked before the warm state.
    assert_eq!(
        finish_timestep(&vec![Some(10), None], Some(4), 5),
        Err(TimestepError::PartialOutput(1, 2))
    );
}
