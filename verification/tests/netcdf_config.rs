use risico::netcdf_config::{
    configuration_from_text, file_variables, offset_in_unit, variable_map_of, NetCdfInputConfiguration, TimeUnit,
    VariableEntry, VariableMapEntry,
};
use risico::variables::InputVariableName;

fn lookup<'a>(
    map: &'a [(InputVariableName, risico::netcdf_config::VariableEntry)],
    variable: InputVariableName,
) -> Option<(&'a str, i64)> {
    map.iter().rev().find(|(v, _)| *v == variable).map(|(_, e)| (e.name.as_str(), e.offset))
}

#[test]
fn the_default_configuration_reads_every_variable_by_its_own_name() {
    let config = NetCdfInputConfiguration::default();
    assert_eq!(config.lat_name, "latitude");
    assert_eq!(config.lon_name, "longitude");
    assert_eq!(config.time_name, "time");
    assert!(config.coords_dims.is_none() && config.time_units.is_none());
    for variable in InputVariableName::all() {
        assert_eq!(lookup(&config.variable_map, variable), Some((variable.name(), 0)));
    }
}

#[test]
fn configured_variable_lists_keep_the_last_entry_of_known_variables() {
    let entries = vec![
        VariableMapEntry { internal_name: "T".to_owned(), name: "t2m".to_owned(), offset: 0 },
        VariableMapEntry { internal_name: "XYZ".to_owned(), name: "ignored".to_owned(), offset: 5 },
        VariableMapEntry { internal_name: "T".to_owned(), name: "t2m_bis".to_owned(), offset: 3600 },
        VariableMapEntry { internal_name: "P".to_owned(), name: "tp".to_owned(), offset: -3600 },
    ];
    let map = variable_map_of(&entries);
    assert_eq!(lookup(&map, InputVariableName::T), Some(("t2m_bis", 3600)));
    assert_eq!(lookup(&map, InputVariableName::P), Some(("tp", -3600)));
    assert_eq!(lookup(&map, InputVariableName::W), None);
}

#[test]
fn text_descriptions_name_the_coordinates() {
    let config = configuration_from_text("latitude: lat , longitude:lon,latitude:LAT");
    assert_eq!(config.lat_name, "LAT");
    assert_eq!(config.lon_name, "lon");
    assert_eq!(config.time_name, "time");
    assert_eq!(lookup(&config.variable_map, InputVariableName::SWI), Some(("SWI", 0)));
}

#[test]
fn offsets_are_expressed_in_the_time_axis_unit() {
    assert_eq!(offset_in_unit(TimeUnit::Second, -7200), Some(-7200));
    assert_eq!(offset_in_unit(TimeUnit::Hour, -7200), Some(-2));
    assert_eq!(offset_in_unit(TimeUnit::Hour, 5400), Some(1));
    assert_eq!(offset_in_unit(TimeUnit::Hour, -5400), Some(-1));
    assert_eq!(offset_in_unit(TimeUnit::Day, 86400 * 3), Some(3));
    assert_eq!(offset_in_unit(TimeUnit::Minute, 90), Some(1));
    assert_eq!(offset_in_unit(TimeUnit::Millisecond, 2), Some(2000));
    assert_eq!(offset_in_unit(TimeUnit::Microsecond, 2), Some(2_000_000));
    assert_eq!(offset_in_unit(TimeUnit::Nanosecond, 2), Some(2_000_000_000));
    assert_eq!(offset_in_unit(TimeUnit::Month, 2), None);
    assert_eq!(offset_in_unit(TimeUnit::Year, 2), None);
}

#[test]
fn a_file_holds_the_configured_variables_it_names() {
    let map = vec![
        (InputVariableName::T, VariableEntry::new("t2m".to_owned(), 3600)),
        (InputVariableName::H, VariableEntry::new("rh".to_owned(), 0)),
        (InputVariableName::R, VariableEntry::new("t2m".to_owned(), 0)),
    ];
    let names = |list: &[&str]| list.iter().map(|name| name.to_string()).collect::<Vec<String>>();
    assert_eq!(
        file_variables(&names(&["lat", "rh", "t2m", "time"]), &map),
        Some((vec![InputVariableName::H, InputVariableName::T], 0))
    );
    assert_eq!(
        file_variables(&names(&["t2m", "rh"]), &map),
        Some((vec![InputVariableName::T, InputVariableName::H], 3600))
    );
    assert_eq!(file_variables(&names(&["lat", "lon"]), &map), None);
}
