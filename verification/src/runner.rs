//! The decisions of a model run that do not depend on the numerical model:
//! its defaults, where its inputs and outputs go, and the checks made on each
//! timestep's results.

use vstd::prelude::*;
use vstd::string::StringExecFns;

use crate::concurrency::worker_thread_count;
use crate::config::{MissingWarmStatePolicy, StaticDataConfig};
use crate::text::same_text;
use crate::timeline::{formatted_utc, minutes_stamp};

verus! {

broadcast use vstd::string::group_string_axioms;

/// The hour at which warm state is written, unless configured.
pub const WARM_STATE_HOUR: i64 = 0;

/// How many days before the run the warm-state search starts, unless configured.
pub const WARM_STATE_LAG_DAYS: i64 = 1;

/// How old, in hours, a NetCDF snapshot may be, unless configured.
pub const MAX_SNAPSHOT_AGE_HOURS: i64 = 120;

/// The hour and the lag, in days, of the warm-state schedule.
pub fn warm_state_schedule(hour: Option<i64>, lag_days: Option<i64>) -> (schedule: (i64, i64))
    ensures
        schedule.0 == (match hour { Some(h) => h, None => WARM_STATE_HOUR }),
        schedule.1 == (match lag_days { Some(d) => d, None => WARM_STATE_LAG_DAYS }),
{
    let h = match hour {
        Some(h) => h,
        None => WARM_STATE_HOUR,
    };
    let d = match lag_days {
        Some(d) => d,
        None => WARM_STATE_LAG_DAYS,
    };
    (h, d)
}

/// How old, in hours, a snapshot may be.
pub fn snapshot_max_age(max_age_hours: Option<i64>) -> (hours: i64)
    ensures
        hours == (match max_age_hours { Some(h) => h, None => MAX_SNAPSHOT_AGE_HOURS }),
{
    match max_age_hours {
        Some(h) => h,
        None => MAX_SNAPSHOT_AGE_HOURS,
    }
}

/// A run found no snapshot and may not seed itself with defaults.
#[derive(Clone, Copy, Debug, PartialEq, Eq, Structural)]
pub struct MissingWarmStateError;

/// The time a run without a snapshot starts from: a day before the run when
/// defaults are allowed.
pub fn seed_without_snapshot(policy: MissingWarmStatePolicy, run_date: i64) -> (seed: Result<i64, MissingWarmStateError>)
    requires
        run_date - 86400 >= i64::MIN,
    ensures
        policy == MissingWarmStatePolicy::Defaults ==> seed == Ok::<i64, MissingWarmStateError>((run_date - 86400) as i64),
        policy == MissingWarmStatePolicy::Error ==> seed == Err::<i64, MissingWarmStateError>(MissingWarmStateError),
{
    match policy {
        MissingWarmStatePolicy::Defaults => Ok(run_date - 86400),
        MissingWarmStatePolicy::Error => Err(MissingWarmStateError),
    }
}

/// The FWI output interval in hours: 24 unless configured, and always 24 for
/// the legacy model.
pub fn fwi_output_time_resolution(configured: Option<u32>, model_version: &str) -> (hours: u32)
    ensures
        hours == (if model_version@ == "legacy"@ { 24 } else {
            match configured { Some(h) => h, None => 24 }
        }),
{
    let hours = match configured {
        Some(h) => h,
        None => 24,
    };
    if same_text(model_version, "legacy") && hours != 24 {
        return 24;
    }
    hours
}

/// The GeoTIFF layers a RISICO run reads.
#[derive(Clone, Debug)]
pub struct RisicoLayers {
    pub domain_mask: String,
    pub slope: String,
    pub aspect: String,
    pub vegetation_id: String,
    pub vegetation_catalog: String,
    /// The summer and winter PPF layers, when configured.
    pub ppf: Option<(String, String)>,
}

/// A missing or half-configured RISICO static layer.
#[derive(Clone, Copy, Debug, PartialEq, Eq, Structural)]
pub enum StaticLayerError {
    MissingSlope,
    MissingAspect,
    MissingVegetationId,
    MissingVegetationCatalog,
    /// Only one of the summer and winter PPF layers is configured.
    UnpairedPpf,
}

/// The layers RISICO reads from its static data: slope, aspect, vegetation
/// and its catalog are required; the PPF layers come both or not at all.
pub fn risico_layers(static_data: &StaticDataConfig) -> (layers: Result<RisicoLayers, StaticLayerError>)
    ensures
        match static_data {
            StaticDataConfig::GeoTiff { domain_mask, slope, aspect, vegetation_id, vegetation_catalog, ppf_summer, ppf_winter } => {
                if slope is None {
                    layers == Err::<RisicoLayers, StaticLayerError>(StaticLayerError::MissingSlope)
                } else if aspect is None {
                    layers == Err::<RisicoLayers, StaticLayerError>(StaticLayerError::MissingAspect)
                } else if vegetation_id is None {
                    layers == Err::<RisicoLayers, StaticLayerError>(StaticLayerError::MissingVegetationId)
                } else if vegetation_catalog is None {
                    layers == Err::<RisicoLayers, StaticLayerError>(StaticLayerError::MissingVegetationCatalog)
                } else if ppf_summer is Some != ppf_winter is Some {
                    layers == Err::<RisicoLayers, StaticLayerError>(StaticLayerError::UnpairedPpf)
                } else {
                    layers matches Ok(l) && l.domain_mask == domain_mask && Some(l.slope) == slope
                        && Some(l.aspect) == aspect && Some(l.vegetation_id) == vegetation_id
                        && Some(l.vegetation_catalog) == vegetation_catalog
                        && (match l.ppf {
                            Some((s, w)) => ppf_summer == Some(s) && ppf_winter == Some(w),
                            None => ppf_summer is None && ppf_winter is None,
                        })
                }
            },
        },
{
    match static_data {
        StaticDataConfig::GeoTiff { domain_mask, slope, aspect, vegetation_id, vegetation_catalog, ppf_summer, ppf_winter } => {
            let slope = match slope {
                Some(s) => s.clone(),
                None => return Err(StaticLayerError::MissingSlope),
            };
            let aspect = match aspect {
                Some(a) => a.clone(),
                None => return Err(StaticLayerError::MissingAspect),
            };
            let vegetation_id = match vegetation_id {
                Some(v) => v.clone(),
                None => return Err(StaticLayerError::MissingVegetationId),
            };
            let vegetation_catalog = match vegetation_catalog {
                Some(c) => c.clone(),
                None => return Err(StaticLayerError::MissingVegetationCatalog),
            };
            let ppf = match (ppf_summer, ppf_winter) {
                (None, None) => None,
                (Some(summer), Some(winter)) => Some((summer.clone(), winter.clone())),
                _ => return Err(StaticLayerError::UnpairedPpf),
            };
            Ok(RisicoLayers { domain_mask: domain_mask.clone(), slope, aspect, vegetation_id, vegetation_catalog, ppf })
        },
    }
}

/// The writers an output can use.
#[derive(Clone, Copy, Debug, PartialEq, Eq, Structural)]
pub enum OutputFormat {
    Zbin,
    PngWithJson,
    NetCdf,
    GeoTiff,
}

/// The writer of an output format: `PNGWJSON`, `NETCDF`, `GEOTIFF` (where
/// GeoTIFF writing is available), and `.zbin` for anything else.
pub fn output_format(format: &str, geotiff_available: bool) -> (chosen: OutputFormat)
    ensures
        chosen == (if format@ == "PNGWJSON"@ {
            OutputFormat::PngWithJson
        } else if format@ == "NETCDF"@ {
            OutputFormat::NetCdf
        } else if geotiff_available && format@ == "GEOTIFF"@ {
            OutputFormat::GeoTiff
        } else {
            OutputFormat::Zbin
        }),
{
    if same_text(format, "PNGWJSON") {
        OutputFormat::PngWithJson
    } else if same_text(format, "NETCDF") {
        OutputFormat::NetCdf
    } else if geotiff_available && same_text(format, "GEOTIFF") {
        OutputFormat::GeoTiff
    } else {
        OutputFormat::Zbin
    }
}

/// The `.zbin` file of one output variable at one time:
/// `<path>/<name>_<run stamp>_<time stamp>_<variable>.zbin`.
pub fn zbin_output_path(path: &str, name: &str, run_date: i64, time: i64, variable: &str) -> (file: Option<String>)
    ensures
        match file {
            Some(f) => exists|run: Seq<char>, at: Seq<char>|
                formatted_utc(run_date, "%Y%m%d%H%M"@) == Some(run) && formatted_utc(time, "%Y%m%d%H%M"@) == Some(at)
                && f@ == path@ + "/"@ + name@ + "_"@ + run + "_"@ + at + "_"@ + variable@ + ".zbin"@,
            None => formatted_utc(run_date, "%Y%m%d%H%M"@) is None || formatted_utc(time, "%Y%m%d%H%M"@) is None,
        },
{
    let run = match minutes_stamp(run_date) {
        Some(run) => run,
        None => return None,
    };
    let at = match minutes_stamp(time) {
        Some(at) => at,
        None => return None,
    };
    let mut file = path.to_owned();
    file.append("/");
    file.append(name);
    file.append("_");
    file.append(run.as_str());
    file.append("_");
    file.append(at.as_str());
    file.append("_");
    file.append(variable);
    file.append(".zbin");
    Some(file)
}

/// How many threads each of `requests` output variables may use to resample:
/// the worker threads shared out, at least one each.
pub open spec fn spec_variable_parallelism(threads: int, requests: int) -> int {
    let share = threads / requests;
    if share < 1 { 1 } else { share }
}

/// How many threads each of `requests` output variables may use, given the
/// worker threads.
pub fn variable_parallelism_for(threads: usize, requests: usize) -> (n: usize)
    requires
        requests > 0,
    ensures
        n == spec_variable_parallelism(threads as int, requests as int),
        n >= 1,
{
    let share = threads / requests;
    if share < 1 { 1 } else { share }
}

/// How many threads each of `requests` output variables may use on the
/// current thread pool; at least one.
pub fn variable_parallelism(requests: usize) -> (n: usize)
    requires
        requests > 0,
    ensures
        n >= 1,
        exists|threads: int| 0 <= threads <= usize::MAX && n == spec_variable_parallelism(threads, requests as int),
{
    let threads = worker_thread_count();
    variable_parallelism_for(threads, requests)
}

/// What went wrong in one timestep of a tiled run.
#[derive(Clone, Copy, Debug, PartialEq, Eq, Structural)]
pub enum TimestepError {
    /// The coordinates do not match the planned cells: latitudes, longitudes.
    Coordinates(usize, usize),
    /// Tiles produced output for two different times.
    MixedOutputTimes(i64, i64),
    /// Only this many of the tiles produced output.
    PartialOutput(usize, usize),
    /// The warm state written covers this many cells.
    PartialWarmState(usize),
}

/// Whether a run has one latitude and one longitude per planned cell.
pub fn check_coordinates(lat_count: usize, lon_count: usize, cell_count: usize) -> (result: Result<(), TimestepError>)
    ensures
        result is Ok <==> (lat_count == cell_count && lon_count == cell_count),
        result matches Err(e) ==> e == TimestepError::Coordinates(lat_count, lon_count),
{
    if lat_count != cell_count || lon_count != cell_count {
        Err(TimestepError::Coordinates(lat_count, lon_count))
    } else {
        Ok(())
    }
}

/// How many tiles produced output.
pub open spec fn produced_count(produced: Seq<Option<i64>>) -> int
    decreases produced.len(),
{
    if produced.len() == 0 {
        0
    } else {
        produced_count(produced.drop_last()) + if produced.last() is Some { 1int } else { 0int }
    }
}

/// Reads the tiles' output times from `k` on, having seen `expected` as the
/// first time and `count` tiles with output before `k`.
pub open spec fn scan_output_times(produced: Seq<Option<i64>>, k: int, expected: Option<i64>, count: int)
    -> Result<Option<i64>, TimestepError>
    decreases produced.len() - k,
{
    if k >= produced.len() {
        match expected {
            None => Ok(None),
            Some(t) => if count != produced.len() {
                Err(TimestepError::PartialOutput(count as usize, produced.len() as usize))
            } else {
                Ok(Some(t))
            },
        }
    } else {
        match produced[k] {
            None => scan_output_times(produced, k + 1, expected, count),
            Some(time) => match expected {
                None => scan_output_times(produced, k + 1, Some(time), count + 1),
                Some(t) => if t != time {
                    Err(TimestepError::MixedOutputTimes(t, time))
                } else {
                    scan_output_times(produced, k + 1, expected, count + 1)
                },
            },
        }
    }
}

/// The time of a timestep's output, or the error the run stops with, from
/// what each tile produced, in plan order.
pub open spec fn output_time_of(produced: Seq<Option<i64>>) -> Result<Option<i64>, TimestepError> {
    scan_output_times(produced, 0, None, 0)
}

/// The time of a timestep's output, from what each tile produced (in plan
/// order): none when no tile produced output. Tiles that disagree on the time
/// are reported first, by the first time produced and the first later time
/// that differs from it; otherwise output from only some tiles is reported.
pub fn timestep_output_time(produced: &Vec<Option<i64>>) -> (result: Result<Option<i64>, TimestepError>)
    ensures
        result == output_time_of(produced@),
        (exists|i: int, j: int| 0 <= i < j < produced@.len() && produced@[i] is Some && produced@[j] is Some
            && #[trigger] produced@[i] != #[trigger] produced@[j])
            ==> result matches Err(TimestepError::MixedOutputTimes(_, _)),
        match result {
            Ok(None) => forall|k: int| 0 <= k < produced@.len() ==> produced@[k] is None,
            Ok(Some(t)) => forall|k: int| 0 <= k < produced@.len() ==> produced@[k] == Some(t),
            Err(TimestepError::MixedOutputTimes(first, other)) => exists|i: int, j: int|
                0 <= i < j < produced@.len() && produced@[i] == Some(first) && produced@[j] == Some(other)
                && first != other
                && (forall|q: int| 0 <= q < i ==> produced@[q] is None)
                && (forall|q: int| i < q < j ==> (produced@[q] is None || produced@[q] == Some(first))),
            Err(TimestepError::PartialOutput(count, total)) => total == produced@.len()
                && count == produced_count(produced@) && 0 < count < total,
            Err(_) => false,
        },
{
    let mut expected: Option<i64> = None;
    let mut first_at: usize = 0;
    let mut count: usize = 0;
    let mut k: usize = 0;
    while k < produced.len()
        invariant
            k <= produced@.len(),
            count == produced_count(produced@.take(k as int)),
            count <= k,
            match expected {
                None => forall|j: int| 0 <= j < k ==> produced@[j] is None,
                Some(t) => first_at < k && produced@[first_at as int] == Some(t)
                    && (forall|j: int| 0 <= j < first_at ==> produced@[j] is None)
                    && forall|j: int| 0 <= j < k ==> (produced@[j] is None || produced@[j] == Some(t)),
            },
            (expected is None) <==> count == 0,
            output_time_of(produced@) == scan_output_times(produced@, k as int, expected, count as int),
        decreases produced@.len() - k,
    {
        proof {
            assert(produced@.take(k + 1).drop_last() =~= produced@.take(k as int));
            assert(produced@.take(k + 1).last() == produced@[k as int]);
        }
        if let Some(time) = produced[k] {
            match expected {
                None => {
                    expected = Some(time);
                    first_at = k;
                },
                Some(t) => {
                    if t != time {
                        proof {
                            assert(produced@[k as int] == Some(time));
                        }
                        return Err(TimestepError::MixedOutputTimes(t, time));
                    }
                },
            }
            count += 1;
        }
        k += 1;
    }
    proof {
        assert(produced@.take(k as int) =~= produced@);
        assert forall|i: int, j: int| 0 <= i < j < produced@.len() && produced@[i] is Some && produced@[j] is Some
            implies !(#[trigger] produced@[i] != #[trigger] produced@[j]) by {
        }
    }
    match expected {
        None => Ok(None),
        Some(t) => {
            if count != produced.len() {
                return Err(TimestepError::PartialOutput(count, produced.len()));
            }
            proof {
                lemma_all_produced(produced@);
            }
            Ok(Some(t))
        },
    }
}

/// When every tile produced output, none produced nothing.
proof fn lemma_all_produced(produced: Seq<Option<i64>>)
    requires
        produced_count(produced) == produced.len(),
    ensures
        forall|k: int| 0 <= k < produced.len() ==> produced[k] is Some,
    decreases produced.len(),
{
    if produced.len() > 0 {
        lemma_count_bound(produced.drop_last());
        lemma_all_produced(produced.drop_last());
        assert forall|k: int| 0 <= k < produced.len() implies produced[k] is Some by {
            if k < produced.len() - 1 {
                assert(produced[k] == produced.drop_last()[k]);
            }
        }
    }
}

proof fn lemma_count_bound(produced: Seq<Option<i64>>)
    ensures
        0 <= produced_count(produced) <= produced.len(),
    decreases produced.len(),
{
    if produced.len() > 0 {
        lemma_count_bound(produced.drop_last());
    }
}

/// Whether a timestep's warm state covers the whole domain.
pub fn check_warm_state_cells(written: usize, cell_count: usize) -> (result: Result<(), TimestepError>)
    ensures
        result is Ok <==> written == cell_count,
        result matches Err(e) ==> e == TimestepError::PartialWarmState(written),
{
    if written != cell_count {
        Err(TimestepError::PartialWarmState(written))
    } else {
        Ok(())
    }
}

/// What a timestep ends with, once every tile has run.
#[derive(Clone, Copy, Debug, PartialEq, Eq, Structural)]
pub struct TimestepEnd {
    /// The time of the output to write, if the tiles produced any.
    pub output_time: Option<i64>,
    /// Whether the assembled warm state is to be written.
    pub write_warm_state: bool,
}

/// The decisions that close a timestep, in the order a run makes them: the
/// output the tiles produced (`produced`, in plan order) is checked and
/// written first; then, if tiles wrote warm state (`warm_state_cells`, the
/// cells they covered), it must cover the whole domain before it is written.
pub fn finish_timestep(produced: &Vec<Option<i64>>, warm_state_cells: Option<usize>, cell_count: usize)
    -> (end: Result<TimestepEnd, TimestepError>)
    ensures
        end == match output_time_of(produced@) {
            Err(error) => Err(error),
            Ok(output_time) => match warm_state_cells {
                None => Ok(TimestepEnd { output_time, write_warm_state: false }),
                Some(n) => if n != cell_count {
                    Err(TimestepError::PartialWarmState(n))
                } else {
                    Ok(TimestepEnd { output_time, write_warm_state: true })
                },
            },
        },
{
    let output_time = match timestep_output_time(produced) {
        Err(error) => return Err(error),
        Ok(time) => time,
    };
    let write_warm_state = match warm_state_cells {
        None => false,
        Some(written) => {
            if let Err(error) = check_warm_state_cells(written, cell_count) {
                return Err(error);
            }
            true
        },
    };
    Ok(TimestepEnd { output_time, write_warm_state })
}

} // verus!
