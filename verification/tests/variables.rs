use risico::variables::{
    native_output_variables, ClusterMode, InputVariableName, OutputTypeConfig, OutputVariable, OutputVariableName,
};

#[test]
fn input_variables_are_named_exactly() {
    assert_eq!(InputVariableName::from_name("PSFC"), Some(InputVariableName::PSFC));
    assert_eq!(InputVariableName::from_name("psfc"), None);
    assert_eq!(InputVariableName::T.name(), "T");
    let all = InputVariableName::all();
    assert_eq!(all.len(), 18);
    for variable in all {
        assert_eq!(InputVariableName::from_name(variable.name()), Some(variable));
    }
}

#[test]
fn output_variables_ignore_case_and_know_the_old_index_name() {
    assert_eq!(OutputVariableName::from_name("FFMC"), Some(OutputVariableName::ffmc));
    assert_eq!(OutputVariableName::from_name("meteoIndex"), Some(OutputVariableName::meteoIndex2));
    assert_eq!(OutputVariableName::from_name("METEOINDEX2"), Some(OutputVariableName::meteoIndex2));
    assert_eq!(OutputVariableName::from_name("parsecs"), None);
    assert_eq!(OutputVariableName::meteoIndex2.name(), "meteoIndex2");
    assert_eq!(OutputVariableName::temperature.long_name(), "Input Temperature");
    assert_eq!(OutputVariableName::temperature.units(), "°C");
    assert_eq!(OutputVariableName::V.units(), "m/h");
    for variable in OutputVariableName::all() {
        assert_eq!(OutputVariableName::from_name(variable.name()), Some(variable));
    }
}

#[test]
fn cluster_modes_ignore_case() {
    assert_eq!(ClusterMode::from_name("mean"), Some(ClusterMode::Mean));
    assert_eq!(ClusterMode::from_name("MAX"), Some(ClusterMode::Max));
    assert_eq!(ClusterMode::from_name("mode"), None);
    assert_eq!(ClusterMode::Median.name(), "Median");
}

fn output(variables: &[(OutputVariableName, &str)]) -> OutputTypeConfig {
    OutputTypeConfig {
        internal_name: "out".to_owned(),
        name: "out".to_owned(),
        path: "/out".to_owned(),
        grid_path: "/grid".to_owned(),
        format: "ZBIN".to_owned(),
        variables: variables
            .iter()
            .map(|(internal, name)| OutputVariable::new(*internal, name, ClusterMode::Mean, 2))
            .collect(),
    }
}

#[test]
fn native_variables_are_listed_once_in_first_configured_order() {
    let outputs = vec![
        output(&[(OutputVariableName::ffmc, "FFMC"), (OutputVariableName::dmc, "DMC")]),
        output(&[(OutputVariableName::dmc, "DMC2"), (OutputVariableName::fwi, "FWI"), (OutputVariableName::ffmc, "FFMC3")]),
        output(&[]),
    ];
    assert_eq!(native_output_variables(&outputs), vec![OutputVariableName::ffmc, OutputVariableName::dmc, OutputVariableName::fwi]);
    assert!(native_output_variables(&vec![]).is_empty());
    let variable = OutputVariable::new(OutputVariableName::V, "VPPF", ClusterMode::Max, 1);
    assert_eq!(variable.internal_name(), OutputVariableName::V);
    assert_eq!(variable.output_name(), "VPPF");
    assert_eq!(variable.cluster_mode(), ClusterMode::Max);
    assert_eq!(variable.precision(), 1);
}
