use waremax::api::ApiConfig;
use waremax::config::map_config::{default_capacity as map_default_capacity, default_true, ConstraintsConfig};
use waremax::config::scenario::{
    config_format, default_algorithm, default_allocation, default_batching, default_bays,
    default_cache, default_capacity, default_concurrency, default_congestion_top_n,
    default_enabled, default_priority, default_replen_threshold, default_station_assign,
    default_time_unit, default_traffic_policy, ends_with, ConfigFormat, PolicyConfig,
    ReplenishmentConfig, RoutingConfig, TrafficConfig,
};
use waremax::config::validation::FieldPath;
use waremax::metrics::{EventLogConfig, ExportOptions, HtmlReportGenerator};

#[test]
fn field_paths() {
    let root = FieldPath::root();
    assert_eq!(root.as_str(), "");
    let stations = root.field("stations");
    assert_eq!(stations.as_str(), "stations");
    assert_eq!(stations.index(0).field("node").as_str(), "stations[0].node");
    assert_eq!(FieldPath::new("map").field("edges").index(12).as_str(), "map.edges[12]");
}

#[test]
fn config_defaults() {
    assert!(default_true());
    assert_eq!(map_default_capacity(), 1);
    assert_eq!(default_capacity(), 1);
    assert_eq!(default_time_unit(), "seconds");
    assert_eq!(default_concurrency(), 1);
    assert_eq!(default_allocation(), "nearest_robot");
    assert_eq!(default_station_assign(), "least_queue");
    assert_eq!(default_batching(), "none");
    assert_eq!(default_priority(), "strict_priority");
    assert_eq!(default_traffic_policy(), "wait_at_node");
    assert_eq!(default_algorithm(), "dijkstra");
    assert!(default_cache());
    assert!(default_enabled());
    assert_eq!(default_replen_threshold(), 10);
    assert_eq!(default_bays(), 1);
    assert_eq!(default_congestion_top_n(), 10);
}

#[test]
fn default_configs() {
    let p = PolicyConfig::default();
    assert_eq!(p.task_allocation.alloc_type, "nearest_robot");
    assert_eq!(p.station_assignment.assign_type, "least_queue");
    assert_eq!(p.batching.batch_type, "none");
    assert_eq!(p.batching.max_items, None);
    assert_eq!(p.priority.priority_type, "strict_priority");
    let t = TrafficConfig::default();
    assert_eq!(t.policy, "wait_at_node");
    assert_eq!((t.edge_capacity_default, t.node_capacity_default), (1, 1));
    let r = RoutingConfig::default();
    assert_eq!(r.algorithm, "dijkstra");
    assert!(!r.congestion_aware && r.cache_routes);
    let rep = ReplenishmentConfig::default();
    assert!(rep.enabled && rep.default_threshold == 10 && rep.sku_thresholds.is_empty());
    let c = ConstraintsConfig::default();
    assert!(c.blocked_nodes.is_empty() && c.blocked_edges.is_empty());
    let api = ApiConfig::default();
    assert_eq!(api.session_timeout_secs, 1800);
    assert_eq!(api.max_sessions, 100);
    assert!(api.cors_origins.is_empty() && api.request_id_header);
}

#[test]
fn file_formats() {
    assert_eq!(config_format("scenario.yaml"), Some(ConfigFormat::Yaml));
    assert_eq!(config_format("a/b.yml"), Some(ConfigFormat::Yaml));
    assert_eq!(config_format("x.json"), Some(ConfigFormat::Json));
    assert_eq!(config_format("x.toml"), None);
    assert_eq!(config_format("yaml"), None);
    assert!(ends_with("abc", ""));
    assert!(!ends_with("c", "abc"));
}

#[test]
fn metrics_settings() {
    let all = ExportOptions::all();
    assert!(all.robots && all.stations && all.heatmap && all.timeseries && all.trace && all.json);
    let none = ExportOptions::default();
    assert!(!none.robots && !none.json);
    let log = EventLogConfig::default();
    assert_eq!((log.flush_every, log.max_size_bytes, log.compress), (1000, 0, false));
    let g = HtmlReportGenerator::new();
    assert!(g.charts());
    assert!(g.template().contains("Waremax Simulation Report"));
    let g = g.with_charts(false);
    assert!(!g.charts());
}
