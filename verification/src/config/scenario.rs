//! Scenario configuration: policy selection, traffic and routing settings,
//! replenishment, their defaults, and the choice of file format.

use std::collections::HashMap;
use vstd::prelude::*;
use vstd::string::*;

verus! {

broadcast use vstd::string::group_string_axioms;

/// Time is counted in seconds unless said otherwise.
pub fn default_time_unit() -> (r: String)
    ensures
        r@ == "seconds"@,
{
    String::from_str("seconds")
}

/// A station serves one robot at a time unless said otherwise.
pub fn default_concurrency() -> (r: u32)
    ensures
        r == 1,
{
    1
}

/// Tasks go to the nearest robot unless said otherwise.
pub fn default_allocation() -> (r: String)
    ensures
        r@ == "nearest_robot"@,
{
    String::from_str("nearest_robot")
}

/// Tasks go to the station with the shortest queue unless said otherwise.
pub fn default_station_assign() -> (r: String)
    ensures
        r@ == "least_queue"@,
{
    String::from_str("least_queue")
}

/// Tasks are not batched unless said otherwise.
pub fn default_batching() -> (r: String)
    ensures
        r@ == "none"@,
{
    String::from_str("none")
}

/// Task types are served by strict priority unless said otherwise.
pub fn default_priority() -> (r: String)
    ensures
        r@ == "strict_priority"@,
{
    String::from_str("strict_priority")
}

/// Blocked robots wait at their node unless said otherwise.
pub fn default_traffic_policy() -> (r: String)
    ensures
        r@ == "wait_at_node"@,
{
    String::from_str("wait_at_node")
}

/// Edges and nodes hold one robot unless said otherwise.
pub fn default_capacity() -> (r: u32)
    ensures
        r == 1,
{
    1
}

/// Routes are found with Dijkstra's algorithm unless said otherwise.
pub fn default_algorithm() -> (r: String)
    ensures
        r@ == "dijkstra"@,
{
    String::from_str("dijkstra")
}

/// Routes are cached unless said otherwise.
pub fn default_cache() -> (r: bool)
    ensures
        r,
{
    true
}

/// Replenishment is enabled unless said otherwise.
pub fn default_enabled() -> (r: bool)
    ensures
        r,
{
    true
}

/// Replenishment triggers at 10 units unless said otherwise.
pub fn default_replen_threshold() -> (r: u32)
    ensures
        r == 10,
{
    10
}

/// A charging station has one bay unless said otherwise.
pub fn default_bays() -> (r: u32)
    ensures
        r == 1,
{
    1
}

/// Congestion reports list the 10 worst places unless said otherwise.
pub fn default_congestion_top_n() -> (r: usize)
    ensures
        r == 10,
{
    10
}

/// Reference to the map file.
#[derive(Debug, Clone)]
pub struct MapRef {
    pub file: String,
}

/// Reference to the storage file.
#[derive(Debug, Clone)]
pub struct StorageRef {
    pub file: String,
}

/// Which task allocation policy to use.
#[derive(Debug, Clone)]
pub struct TaskAllocationConfig {
    pub alloc_type: String,
}

impl Default for TaskAllocationConfig {
    fn default() -> (r: Self)
        ensures
            r.alloc_type@ == "nearest_robot"@,
    {
        TaskAllocationConfig { alloc_type: default_allocation() }
    }
}

/// Which station assignment policy to use.
#[derive(Debug, Clone)]
pub struct StationAssignmentConfig {
    pub assign_type: String,
}

impl Default for StationAssignmentConfig {
    fn default() -> (r: Self)
        ensures
            r.assign_type@ == "least_queue"@,
    {
        StationAssignmentConfig { assign_type: default_station_assign() }
    }
}

/// Which batching policy to use, and its batch size.
#[derive(Debug, Clone)]
pub struct BatchingConfig {
    pub batch_type: String,
    pub max_items: Option<u32>,
}

impl Default for BatchingConfig {
    fn default() -> (r: Self)
        ensures
            r.batch_type@ == "none"@,
            r.max_items is None,
    {
        BatchingConfig { batch_type: default_batching(), max_items: None }
    }
}

/// Which priority policy to use.
#[derive(Debug, Clone)]
pub struct PriorityConfig {
    pub priority_type: String,
}

impl Default for PriorityConfig {
    fn default() -> (r: Self)
        ensures
            r.priority_type@ == "strict_priority"@,
    {
        PriorityConfig { priority_type: default_priority() }
    }
}

/// The policies of a scenario.
#[derive(Debug, Clone)]
pub struct PolicyConfig {
    pub task_allocation: TaskAllocationConfig,
    pub station_assignment: StationAssignmentConfig,
    pub batching: BatchingConfig,
    pub priority: PriorityConfig,
}

impl Default for PolicyConfig {
    fn default() -> (r: Self)
        ensures
            r.task_allocation.alloc_type@ == "nearest_robot"@,
            r.station_assignment.assign_type@ == "least_queue"@,
            r.batching.batch_type@ == "none"@,
            r.batching.max_items is None,
            r.priority.priority_type@ == "strict_priority"@,
    {
        PolicyConfig {
            task_allocation: TaskAllocationConfig::default(),
            station_assignment: StationAssignmentConfig::default(),
            batching: BatchingConfig::default(),
            priority: PriorityConfig::default(),
        }
    }
}

/// Traffic policy and default capacities.
#[derive(Debug, Clone)]
pub struct TrafficConfig {
    pub policy: String,
    pub edge_capacity_default: u32,
    pub node_capacity_default: u32,
}

impl Default for TrafficConfig {
    fn default() -> (r: Self)
        ensures
            r.policy@ == "wait_at_node"@,
            r.edge_capacity_default == 1,
            r.node_capacity_default == 1,
    {
        TrafficConfig {
            policy: default_traffic_policy(),
            edge_capacity_default: default_capacity(),
            node_capacity_default: default_capacity(),
        }
    }
}

/// Routing algorithm and options.
#[derive(Debug, Clone)]
pub struct RoutingConfig {
    pub algorithm: String,
    pub congestion_aware: bool,
    pub cache_routes: bool,
}

impl Default for RoutingConfig {
    fn default() -> (r: Self)
        ensures
            r.algorithm@ == "dijkstra"@,
            !r.congestion_aware,
            r.cache_routes,
    {
        RoutingConfig {
            algorithm: default_algorithm(),
            congestion_aware: false,
            cache_routes: default_cache(),
        }
    }
}

/// Replenishment triggers.
#[derive(Debug, Clone)]
pub struct ReplenishmentConfig {
    /// Whether replenishment is triggered automatically.
    pub enabled: bool,
    /// Stock level (units) at which replenishment triggers.
    pub default_threshold: u32,
    /// Per-SKU thresholds, overriding the default.
    pub sku_thresholds: HashMap<String, u32>,
}

impl Default for ReplenishmentConfig {
    fn default() -> (r: Self)
        ensures
            r.enabled,
            r.default_threshold == 10,
            r.sku_thresholds@ == Map::<String, u32>::empty(),
    {
        ReplenishmentConfig {
            enabled: default_enabled(),
            default_threshold: default_replen_threshold(),
            sku_thresholds: HashMap::new(),
        }
    }
}

/// The format of a configuration file.
#[derive(Debug, Clone, Copy, PartialEq, Eq, Structural)]
pub enum ConfigFormat {
    Yaml,
    Json,
}

/// Whether `s` ends with `suffix`.
pub open spec fn has_suffix(s: Seq<char>, suffix: Seq<char>) -> bool {
    s.len() >= suffix.len() && s.subrange(s.len() - suffix.len(), s.len() as int) == suffix
}

/// The format a file name designates: YAML for `.yaml` and `.yml`, JSON for
/// `.json`, none otherwise.
pub open spec fn format_of_path(path: Seq<char>) -> Option<ConfigFormat> {
    if has_suffix(path, ".yaml"@) || has_suffix(path, ".yml"@) {
        Some(ConfigFormat::Yaml)
    } else if has_suffix(path, ".json"@) {
        Some(ConfigFormat::Json)
    } else {
        None
    }
}

/// Whether `s` ends with `suffix`.
pub fn ends_with(s: &str, suffix: &str) -> (r: bool)
    ensures
        r == has_suffix(s@, suffix@),
{
    let n = s.unicode_len();
    let m = suffix.unicode_len();
    if m > n {
        return false;
    }
    let mut i: usize = 0;
    while i < m
        invariant
            n == s@.len(),
            m == suffix@.len(),
            m <= n,
            i <= m,
            forall|j: int| 0 <= j < i ==> s@[n - m + j] == suffix@[j],
        decreases m - i,
    {
        if s.get_char(n - m + i) != suffix.get_char(i) {
            assert(s@.subrange(n - m, n as int)[i as int] != suffix@[i as int]);
            return false;
        }
        i = i + 1;
    }
    assert(s@.subrange(n - m, n as int) =~= suffix@);
    true
}

/// The format of a scenario file, chosen by its name's extension; `None`
/// for an unsupported format.
pub fn config_format(path: &str) -> (r: Option<ConfigFormat>)
    ensures
        r == format_of_path(path@),
{
    if ends_with(path, ".yaml") || ends_with(path, ".yml") {
        Some(ConfigFormat::Yaml)
    } else if ends_with(path, ".json") {
        Some(ConfigFormat::Json)
    } else {
        None
    }
}

} // verus!
