use waremax::config::outline::{
    EdgeOutline, MapOutline, RackOutline, Reading, ScenarioOutline, Sign, StationOutline,
    StorageOutline,
};
use waremax::config::storage_config::PlacementConfig;
use waremax::config::validation::{
    validate_cross_references, validate_map_standalone, validate_scenario,
    validate_scenario_only, validate_scenario_standalone, validate_storage_standalone,
    FieldPath, ValidationError, ValidationErrorKind, ValidationErrors,
};

fn reading(v: f64) -> Reading {
    let sign = if v < 0.0 {
        Sign::Negative
    } else if v == 0.0 {
        Sign::Zero
    } else if v > 0.0 {
        Sign::Positive
    } else {
        Sign::Unordered
    };
    Reading { sign, text: format!("{}", v) }
}

fn station(id: &str, node: &str, station_type: &str, concurrency: u32, base: f64, per_item: f64) -> StationOutline {
    StationOutline {
        id: id.to_string(),
        node: node.to_string(),
        station_type: station_type.to_string(),
        concurrency,
        service_base: reading(base),
        service_per_item: reading(per_item),
    }
}

fn minimal_scenario() -> ScenarioOutline {
    ScenarioOutline {
        duration_minutes: reading(60.0),
        warmup_minutes: reading(5.0),
        robot_count: 5,
        max_speed_mps: reading(1.5),
        max_payload_kg: reading(25.0),
        stations: vec![station("S1", "0", "pick", 2, 5.0, 2.0)],
        arrival_rate_per_min: reading(4.0),
        lines_mean: reading(2.0),
        lines_dispersion: reading(1.0),
        sku_alpha: reading(1.0),
        edge_capacity_default: 1,
        node_capacity_default: 1,
    }
}

fn edge(from: &str, to: &str, length: f64, capacity: u32) -> EdgeOutline {
    EdgeOutline {
        from: from.to_string(),
        to: to.to_string(),
        length_m: reading(length),
        bidirectional: true,
        direction: None,
        capacity,
    }
}

fn rack(id: &str, access_node: &str, levels: u32, bins_per_level: u32) -> RackOutline {
    RackOutline { id: id.to_string(), access_node: access_node.to_string(), levels, bins_per_level }
}

fn placement(rack: &str, level: u32, bin: u32) -> PlacementConfig {
    PlacementConfig { rack: rack.to_string(), level, bin, qty: 10 }
}

#[test]
fn test_valid_scenario() {
    let scenario = minimal_scenario();
    let result = validate_scenario_only(&scenario);
    assert!(result.is_ok(), "Expected valid scenario: {:?}", result);
}

#[test]
fn test_negative_duration_rejected() {
    let mut scenario = minimal_scenario();
    scenario.duration_minutes = reading(-10.0);
    let result = validate_scenario_only(&scenario);
    assert!(result.is_err());
    let errors = result.unwrap_err();
    assert!(errors.iter().any(|e| matches!(
        &e.kind,
        ValidationErrorKind::ValueMustBePositive { field, .. } if field == "duration_minutes"
    )));
}

#[test]
fn test_zero_robot_count_rejected() {
    let mut scenario = minimal_scenario();
    scenario.robot_count = 0;
    let result = validate_scenario_only(&scenario);
    assert!(result.is_err());
    let errors = result.unwrap_err();
    assert!(errors.iter().any(|e| matches!(
        &e.kind,
        ValidationErrorKind::IntValueMustBePositive { field, .. } if field == "count"
    )));
}

#[test]
fn test_invalid_station_type_rejected() {
    let mut scenario = minimal_scenario();
    scenario.stations[0].station_type = "invalid".to_string();
    let result = validate_scenario_only(&scenario);
    assert!(result.is_err());
    let errors = result.unwrap_err();
    assert!(errors
        .iter()
        .any(|e| matches!(&e.kind, ValidationErrorKind::InvalidStationType { .. })));
}

#[test]
fn test_duplicate_station_id_rejected() {
    let mut scenario = minimal_scenario();
    scenario.stations.push(station("S1", "1", "drop", 1, 3.0, 1.0));
    let result = validate_scenario_only(&scenario);
    assert!(result.is_err());
    let errors = result.unwrap_err();
    assert!(errors
        .iter()
        .any(|e| matches!(&e.kind, ValidationErrorKind::DuplicateId { .. })));
}

#[test]
fn test_empty_stations_rejected() {
    let mut scenario = minimal_scenario();
    scenario.stations.clear();
    let result = validate_scenario_only(&scenario);
    assert!(result.is_err());
    let errors = result.unwrap_err();
    assert!(errors
        .iter()
        .any(|e| matches!(&e.kind, ValidationErrorKind::EmptyCollection { .. })));
}

#[test]
fn test_negative_service_time_rejected() {
    let mut scenario = minimal_scenario();
    scenario.stations[0].service_base = reading(-5.0);
    let result = validate_scenario_only(&scenario);
    assert!(result.is_err());
    let errors = result.unwrap_err();
    assert!(errors.iter().any(|e| matches!(
        &e.kind,
        ValidationErrorKind::ValueMustBeNonNegative { field, .. } if field == "base"
    )));
}

#[test]
fn test_map_edge_references_invalid_node() {
    let map = MapOutline {
        node_ids: vec!["N1".to_string()],
        edges: vec![edge("N1", "N2", 3.0, 1)],
    };
    let mut ctx = ValidationErrors::new();
    validate_map_standalone(&map, &mut ctx);
    assert!(ctx.has_errors());
    assert!(ctx.errors.iter().any(
        |e| matches!(&e.kind, ValidationErrorKind::NodeNotFound { node_id } if node_id == "N2")
    ));
}

#[test]
fn test_placement_out_of_bounds() {
    let storage = StorageOutline {
        racks: vec![rack("R1", "N1", 3, 4)],
        placements: vec![("SKU001".to_string(), vec![placement("R1", 5, 0)])],
    };
    let scenario = minimal_scenario();
    let map = MapOutline { node_ids: vec!["N1".to_string()], edges: vec![] };
    let result = validate_scenario(&scenario, Some(&map), Some(&storage));
    assert!(result.is_err());
    let errors = result.unwrap_err();
    assert!(errors.iter().any(|e| matches!(
        &e.kind,
        ValidationErrorKind::PlacementLevelOutOfBounds { .. }
    )));
}

fn messages(errors: &[ValidationError]) -> Vec<String> {
    errors.iter().map(|e| e.message()).collect()
}

#[test]
fn scenario_errors_come_in_order_with_paths() {
    let mut s = minimal_scenario();
    s.duration_minutes = reading(0.0);
    s.warmup_minutes = reading(-1.5);
    s.robot_count = 0;
    s.stations.push(station("S1", "1", "dock", 0, -1.0, -2.0));
    s.edge_capacity_default = 0;
    let errors = validate_scenario_only(&s).unwrap_err();
    assert_eq!(
        messages(&errors),
        vec![
            "[scenario.simulation.duration_minutes] duration_minutes must be positive, got 0",
            "[scenario.simulation.warmup_minutes] warmup_minutes must be non-negative, got -1.5",
            "[scenario.robots.count] count must be positive, got 0",
            "[scenario.stations[1].id] Duplicate station ID: 'S1'",
            "[scenario.stations[1].type] Invalid station type 'dock', valid types: pick, drop, inbound, outbound (use one of: pick, drop, inbound, outbound)",
            "[scenario.stations[1].concurrency] concurrency must be positive, got 0",
            "[scenario.stations[1].service_time_s.base] base must be non-negative, got -1",
            "[scenario.stations[1].service_time_s.per_item] per_item must be non-negative, got -2",
            "[scenario.traffic.edge_capacity_default] edge_capacity_default must be positive, got 0",
        ]
    );
}

#[test]
fn not_a_number_passes_sign_checks() {
    let mut s = minimal_scenario();
    s.duration_minutes = reading(f64::NAN);
    s.warmup_minutes = reading(f64::NAN);
    assert!(validate_scenario_only(&s).is_ok());
    s.stations.clear();
    let errors = validate_scenario_only(&s).unwrap_err();
    assert_eq!(messages(&errors), vec!["[scenario.stations] stations cannot be empty"]);
}

#[test]
fn map_checks_nodes_and_edges() {
    let map = MapOutline {
        node_ids: vec!["A".to_string(), "B".to_string(), "A".to_string()],
        edges: vec![edge("A", "B", 2.0, 1), edge("A", "Z", -1.0, 0)],
    };
    let mut ctx = ValidationErrors::new();
    validate_map_standalone(&map, &mut ctx);
    assert_eq!(
        messages(&ctx.errors),
        vec![
            "[map.nodes[2].id] Duplicate node ID: 'A'",
            "[map.edges[1].length_m] length_m must be positive, got -1",
            "[map.edges[1].capacity] capacity must be positive, got 0",
            "[map.edges[1].to] Node 'Z' not found in map (available nodes: {\"A\", \"B\"})",
        ]
    );
    assert!(ctx.warnings.is_empty());

    let empty = MapOutline { node_ids: vec![], edges: vec![] };
    let mut ctx = ValidationErrors::new();
    validate_map_standalone(&empty, &mut ctx);
    assert_eq!(messages(&ctx.errors), vec!["[map.nodes] nodes cannot be empty"]);
}

#[test]
fn storage_checks_racks() {
    let storage = StorageOutline {
        racks: vec![rack("R1", "N1", 0, 2), rack("R1", "N1", 1, 0)],
        placements: vec![],
    };
    let mut ctx = ValidationErrors::new();
    validate_storage_standalone(&storage, &mut ctx);
    assert_eq!(
        messages(&ctx.errors),
        vec![
            "[storage.racks[0].levels] levels must be positive, got 0",
            "[storage.racks[1].id] Duplicate rack ID: 'R1'",
            "[storage.racks[1].bins_per_level] bins_per_level must be positive, got 0",
        ]
    );
}

#[test]
fn cross_references_name_missing_nodes_and_racks() {
    let mut s = minimal_scenario();
    s.stations[0].node = "X".to_string();
    let nodes: Vec<String> = (0..12).map(|i| format!("N{}", i)).collect();
    let map = MapOutline { node_ids: nodes, edges: vec![] };
    let storage = StorageOutline {
        racks: vec![rack("R1", "N1", 3, 4), rack("R2", "Q", 2, 2), rack("R1", "N2", 1, 1)],
        placements: vec![
            ("SKU9".to_string(), vec![placement("R1", 1, 0), placement("R7", 0, 0)]),
            ("SKU2".to_string(), vec![placement("R2", 0, 5)]),
        ],
    };
    let mut ctx = ValidationErrors::new();
    validate_cross_references(&s, &map, &storage, &mut ctx);
    let hint = "available nodes: N0, N1, N2, N3, N4, N5, N6, N7, N8, N9";
    assert_eq!(
        messages(&ctx.errors),
        vec![
            format!("[scenario.stations[0].node] Node 'X' not found in map ({})", hint),
            format!("[storage.racks[1].access_node] Node 'Q' not found in map ({})", hint),
            "[storage.placements.SKU9[0].level] Level 1 exceeds rack 'R1' max level 0 (0-indexed)".to_string(),
            "[storage.placements.SKU9[1].rack] Rack 'R7' not found in storage config (available racks: R1, R2)".to_string(),
            "[storage.placements.SKU2[0].bin] Bin 5 exceeds rack 'R2' max bin 1 (0-indexed)".to_string(),
        ]
    );
}

#[test]
fn validate_scenario_runs_every_phase() {
    let s = minimal_scenario();
    let map = MapOutline { node_ids: vec!["0".to_string()], edges: vec![edge("0", "0", 0.0, 1)] };
    let storage = StorageOutline { racks: vec![rack("R1", "9", 1, 1)], placements: vec![] };
    let errors = validate_scenario(&s, Some(&map), Some(&storage)).unwrap_err();
    assert_eq!(
        messages(&errors),
        vec![
            "[map.edges[0].length_m] length_m must be positive, got 0",
            "[storage.racks[0].access_node] Node '9' not found in map (available nodes: 0)",
        ]
    );
    // Without a map, references are not checked.
    assert!(validate_scenario(&s, None, Some(&storage)).is_ok());
    assert!(validate_scenario(&s, Some(&map), None).is_err());
}

#[test]
fn error_collection_and_result() {
    let mut ctx = ValidationErrors::new();
    assert!(!ctx.has_errors());
    let warn = ValidationError::new(
        FieldPath::new("x"),
        ValidationErrorKind::EmptyCollection { collection: "x".to_string() },
    );
    ctx.add_warning(warn);
    assert!(!ctx.has_errors());
    let r = ctx.into_result();
    assert_eq!(r.unwrap().len(), 1);

    let mut ctx = ValidationErrors::default();
    ctx.add_error(ValidationError::new(
        FieldPath::root().field("a"),
        ValidationErrorKind::RackNotFound { rack_id: "R".to_string() },
    ));
    assert!(ctx.has_errors());
    let errs = ctx.into_result().unwrap_err();
    assert_eq!(errs[0].message(), "[a] Rack 'R' not found in storage config");
    let e = errs[0].clone().with_suggestion("check it".to_string());
    assert_eq!(e.message(), "[a] Rack 'R' not found in storage config (check it)");
}

#[test]
fn edge_direction() {
    let mut e = edge("A", "B", 1.0, 1);
    assert!(!e.is_one_way());
    e.bidirectional = false;
    assert!(e.is_one_way());
    e.direction = Some("bidirectional".to_string());
    assert!(!e.is_one_way());
    e.bidirectional = true;
    e.direction = Some("one_way".to_string());
    assert!(e.is_one_way());
}

#[test]
fn kind_messages() {
    let k = ValidationErrorKind::ValueMustBePositive { field: "alpha".to_string(), value: "0".to_string() };
    assert_eq!(k.message(), "alpha must be positive, got 0");
    let k = ValidationErrorKind::IntValueMustBePositive { field: "count".to_string(), value: 0 };
    assert_eq!(k.message(), "count must be positive, got 0");
    let k = ValidationErrorKind::PlacementLevelOutOfBounds { level: 7, max_level: 3, rack_id: "R".to_string() };
    assert_eq!(k.message(), "Level 7 exceeds rack 'R' max level 2 (0-indexed)");
    let k = ValidationErrorKind::NodeNotFound { node_id: "N".to_string() };
    assert_eq!(k.message(), "Node 'N' not found in map");
}

#[test]
fn standalone_scenario_keeps_earlier_errors() {
    let mut ctx = ValidationErrors::new();
    ctx.add_error(ValidationError::new(
        FieldPath::new("earlier"),
        ValidationErrorKind::EmptyCollection { collection: "c".to_string() },
    ));
    let mut s = minimal_scenario();
    s.sku_alpha = reading(-0.5);
    validate_scenario_standalone(&s, &mut ctx);
    assert_eq!(
        messages(&ctx.errors),
        vec![
            "[earlier] c cannot be empty",
            "[scenario.orders.sku_popularity.alpha] alpha must be positive, got -0.5",
        ]
    );
}
