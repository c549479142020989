//! Paths that name configuration fields in validation messages.

use vstd::prelude::*;
use vstd::string::*;

use crate::config::storage_config::PlacementConfig;
use crate::config::outline::{
    EdgeOutline, MapOutline, RackOutline, Reading, ScenarioOutline, StationOutline, StorageOutline,
};
use crate::text::{decimal, joined, push_decimal, push_joined, same_text, texts};

verus! {

broadcast use vstd::string::group_string_axioms;

/// Path to a configuration field, such as `stations[0].node`.
#[derive(Debug)]
pub struct FieldPath(pub String);

impl Clone for FieldPath {
    fn clone(&self) -> (r: Self)
        ensures
            r.0@ == self.0@,
    {
        FieldPath(self.0.clone())
    }
}

/// The path to `name` below `parent`: `name` alone below the root,
/// `parent.name` otherwise.
pub open spec fn field_path(parent: Seq<char>, name: Seq<char>) -> Seq<char> {
    if parent.len() == 0 {
        name
    } else {
        parent + "."@ + name
    }
}

/// The path to element `idx` of the list at `parent`: `parent[idx]`.
pub open spec fn index_path(parent: Seq<char>, idx: nat) -> Seq<char> {
    parent + "["@ + decimal(idx) + "]"@
}

impl FieldPath {
    /// The path `path`.
    pub fn new(path: &str) -> (r: Self)
        ensures
            r.0@ == path@,
    {
        FieldPath(String::from_str(path))
    }

    /// The empty path.
    pub fn root() -> (r: Self)
        ensures
            r.0@ == Seq::<char>::empty(),
    {
        FieldPath(String::new())
    }

    /// The path to field `name` below this one.
    pub fn field(&self, name: &str) -> (r: Self)
        ensures
            r.0@ == field_path(self.0@, name@),
    {
        if self.0.as_str().unicode_len() == 0 {
            FieldPath(String::from_str(name))
        } else {
            let mut s = self.0.clone();
            s.append(".");
            s.append(name);
            FieldPath(s)
        }
    }

    /// The path to element `idx` of the list at this path.
    pub fn index(&self, idx: usize) -> (r: Self)
        ensures
            r.0@ == index_path(self.0@, idx as nat),
    {
        let mut s = self.0.clone();
        s.append("[");
        push_decimal(&mut s, idx as u64);
        s.append("]");
        FieldPath(s)
    }

    /// The path as text.
    pub fn as_str(&self) -> (r: &str)
        ensures
            r@ == self.0@,
    {
        self.0.as_str()
    }
}

/// What is wrong with a configuration value.
#[derive(Debug, Clone)]
pub enum ValidationErrorKind {
    /// A node named by another entry is not in the map.
    NodeNotFound { node_id: String },
    /// A rack named by a placement is not in the storage file.
    RackNotFound { rack_id: String },
    /// A real-valued setting is zero or below; `value` is its printed form.
    ValueMustBePositive { field: String, value: String },
    /// A real-valued setting is below zero; `value` is its printed form.
    ValueMustBeNonNegative { field: String, value: String },
    /// A count is zero.
    IntValueMustBePositive { field: String, value: u32 },
    /// A placement's level is not below the rack's number of levels.
    PlacementLevelOutOfBounds { level: u32, max_level: u32, rack_id: String },
    /// A placement's bin is not below the rack's bins per level.
    PlacementBinOutOfBounds { bin: u32, max_bin: u32, rack_id: String },
    /// A station type that is not one of the known ones.
    InvalidStationType { value: String, valid_types: Vec<String> },
    /// An identifier used twice.
    DuplicateId { id: String, entity_type: String },
    /// A list that must not be empty.
    EmptyCollection { collection: String },
}

/// A validation problem, as contracts speak of it.
pub ghost enum Problem {
    NodeNotFound { node_id: Seq<char> },
    RackNotFound { rack_id: Seq<char> },
    ValueMustBePositive { field: Seq<char>, value: Seq<char> },
    ValueMustBeNonNegative { field: Seq<char>, value: Seq<char> },
    IntValueMustBePositive { field: Seq<char>, value: u32 },
    PlacementLevelOutOfBounds { level: u32, max_level: u32, rack_id: Seq<char> },
    PlacementBinOutOfBounds { bin: u32, max_bin: u32, rack_id: Seq<char> },
    InvalidStationType { value: Seq<char>, valid_types: Seq<Seq<char>> },
    DuplicateId { id: Seq<char>, entity_type: Seq<char> },
    EmptyCollection { collection: Seq<char> },
}

impl View for ValidationErrorKind {
    type V = Problem;

    open spec fn view(&self) -> Problem {
        match self {
            ValidationErrorKind::NodeNotFound { node_id } => Problem::NodeNotFound {
                node_id: node_id@,
            },
            ValidationErrorKind::RackNotFound { rack_id } => Problem::RackNotFound {
                rack_id: rack_id@,
            },
            ValidationErrorKind::ValueMustBePositive { field, value } => Problem::ValueMustBePositive {
                field: field@,
                value: value@,
            },
            ValidationErrorKind::ValueMustBeNonNegative { field, value } => Problem::ValueMustBeNonNegative {
                field: field@,
                value: value@,
            },
            ValidationErrorKind::IntValueMustBePositive { field, value } => Problem::IntValueMustBePositive {
                field: field@,
                value: *value,
            },
            ValidationErrorKind::PlacementLevelOutOfBounds { level, max_level, rack_id } => {
                Problem::PlacementLevelOutOfBounds {
                    level: *level,
                    max_level: *max_level,
                    rack_id: rack_id@,
                }
            },
            ValidationErrorKind::PlacementBinOutOfBounds { bin, max_bin, rack_id } => {
                Problem::PlacementBinOutOfBounds { bin: *bin, max_bin: *max_bin, rack_id: rack_id@ }
            },
            ValidationErrorKind::InvalidStationType { value, valid_types } => Problem::InvalidStationType {
                value: value@,
                valid_types: texts(valid_types@),
            },
            ValidationErrorKind::DuplicateId { id, entity_type } => Problem::DuplicateId {
                id: id@,
                entity_type: entity_type@,
            },
            ValidationErrorKind::EmptyCollection { collection } => Problem::EmptyCollection {
                collection: collection@,
            },
        }
    }
}

/// A problem can be printed unless it is a placement bound of zero, whose
/// largest valid index (the bound less one) does not exist.
pub open spec fn printable(p: Problem) -> bool {
    match p {
        Problem::PlacementLevelOutOfBounds { max_level, .. } => max_level > 0,
        Problem::PlacementBinOutOfBounds { max_bin, .. } => max_bin > 0,
        _ => true,
    }
}

/// The message that describes a problem.
pub open spec fn problem_text(p: Problem) -> Seq<char> {
    match p {
        Problem::NodeNotFound { node_id } => "Node '"@ + node_id + "' not found in map"@,
        Problem::RackNotFound { rack_id } => "Rack '"@ + rack_id + "' not found in storage config"@,
        Problem::ValueMustBePositive { field, value } => field + " must be positive, got "@ + value,
        Problem::ValueMustBeNonNegative { field, value } => field + " must be non-negative, got "@
            + value,
        Problem::IntValueMustBePositive { field, value } => field + " must be positive, got "@
            + decimal(value as nat),
        Problem::PlacementLevelOutOfBounds { level, max_level, rack_id } => "Level "@ + decimal(
            level as nat,
        ) + " exceeds rack '"@ + rack_id + "' max level "@ + decimal((max_level - 1) as nat)
            + " (0-indexed)"@,
        Problem::PlacementBinOutOfBounds { bin, max_bin, rack_id } => "Bin "@ + decimal(bin as nat)
            + " exceeds rack '"@ + rack_id + "' max bin "@ + decimal((max_bin - 1) as nat)
            + " (0-indexed)"@,
        Problem::InvalidStationType { value, valid_types } => "Invalid station type '"@ + value
            + "', valid types: "@ + joined(valid_types, ", "@),
        Problem::DuplicateId { id, entity_type } => "Duplicate "@ + entity_type + " ID: '"@ + id
            + "'"@,
        Problem::EmptyCollection { collection } => collection + " cannot be empty"@,
    }
}

impl ValidationErrorKind {
    /// The message that describes this problem.
    pub fn message(&self) -> (r: String)
        requires
            printable(self@),
        ensures
            r@ == problem_text(self@),
    {
        let mut s = String::new();
        match self {
            ValidationErrorKind::NodeNotFound { node_id } => {
                s.append("Node '");
                s.append(node_id.as_str());
                s.append("' not found in map");
            },
            ValidationErrorKind::RackNotFound { rack_id } => {
                s.append("Rack '");
                s.append(rack_id.as_str());
                s.append("' not found in storage config");
            },
            ValidationErrorKind::ValueMustBePositive { field, value } => {
                s.append(field.as_str());
                s.append(" must be positive, got ");
                s.append(value.as_str());
            },
            ValidationErrorKind::ValueMustBeNonNegative { field, value } => {
                s.append(field.as_str());
                s.append(" must be non-negative, got ");
                s.append(value.as_str());
            },
            ValidationErrorKind::IntValueMustBePositive { field, value } => {
                s.append(field.as_str());
                s.append(" must be positive, got ");
                push_decimal(&mut s, *value as u64);
            },
            ValidationErrorKind::PlacementLevelOutOfBounds { level, max_level, rack_id } => {
                s.append("Level ");
                push_decimal(&mut s, *level as u64);
                s.append(" exceeds rack '");
                s.append(rack_id.as_str());
                s.append("' max level ");
                push_decimal(&mut s, (*max_level - 1) as u64);
                s.append(" (0-indexed)");
            },
            ValidationErrorKind::PlacementBinOutOfBounds { bin, max_bin, rack_id } => {
                s.append("Bin ");
                push_decimal(&mut s, *bin as u64);
                s.append(" exceeds rack '");
                s.append(rack_id.as_str());
                s.append("' max bin ");
                push_decimal(&mut s, (*max_bin - 1) as u64);
                s.append(" (0-indexed)");
            },
            ValidationErrorKind::InvalidStationType { value, valid_types } => {
                s.append("Invalid station type '");
                s.append(value.as_str());
                s.append("', valid types: ");
                push_joined(&mut s, valid_types, ", ");
            },
            ValidationErrorKind::DuplicateId { id, entity_type } => {
                s.append("Duplicate ");
                s.append(entity_type.as_str());
                s.append(" ID: '");
                s.append(id.as_str());
                s.append("'");
            },
            ValidationErrorKind::EmptyCollection { collection } => {
                s.append(collection.as_str());
                s.append(" cannot be empty");
            },
        }
        assert(s@ =~= problem_text(self@));
        s
    }
}

/// A validation error: where, what, and optionally how to fix it.
#[derive(Debug, Clone)]
pub struct ValidationError {
    pub path: FieldPath,
    pub kind: ValidationErrorKind,
    pub suggestion: Option<String>,
}

/// A validation error, as contracts speak of it.
pub ghost struct Finding {
    pub path: Seq<char>,
    pub kind: Problem,
    pub suggestion: Option<Seq<char>>,
}

impl View for ValidationError {
    type V = Finding;

    open spec fn view(&self) -> Finding {
        Finding {
            path: self.path.0@,
            kind: self.kind@,
            suggestion: match self.suggestion {
                Some(t) => Some(t@),
                None => None,
            },
        }
    }
}

/// A finding with no suggestion.
pub open spec fn finding(path: Seq<char>, kind: Problem) -> Finding {
    Finding { path, kind, suggestion: None }
}

/// The message of a finding: `[path] problem`, followed by ` (suggestion)`
/// when there is one.
pub open spec fn finding_text(f: Finding) -> Seq<char> {
    "["@ + f.path + "] "@ + problem_text(f.kind) + match f.suggestion {
        Some(t) => " ("@ + t + ")"@,
        None => Seq::empty(),
    }
}

/// The findings of a list of errors.
pub open spec fn findings(v: Seq<ValidationError>) -> Seq<Finding> {
    v.map_values(|e: ValidationError| e@)
}

impl ValidationError {
    /// An error at `path` with no suggestion.
    pub fn new(path: FieldPath, kind: ValidationErrorKind) -> (r: Self)
        ensures
            r@ == finding(path.0@, kind@),
    {
        ValidationError { path, kind, suggestion: None }
    }

    /// The same error with `suggestion` attached.
    pub fn with_suggestion(self, suggestion: String) -> (r: Self)
        ensures
            r@ == (Finding { suggestion: Some(suggestion@), ..self@ }),
    {
        ValidationError { suggestion: Some(suggestion), ..self }
    }

    /// The message of this error.
    pub fn message(&self) -> (r: String)
        requires
            printable(self.kind@),
        ensures
            r@ == finding_text(self@),
    {
        let mut s = String::new();
        s.append("[");
        s.append(self.path.0.as_str());
        s.append("] ");
        let k = self.kind.message();
        s.append(k.as_str());
        match &self.suggestion {
            Some(t) => {
                s.append(" (");
                s.append(t.as_str());
                s.append(")");
            },
            None => {},
        }
        assert(s@ =~= finding_text(self@));
        s
    }
}

/// The errors and warnings found so far.
#[derive(Debug)]
pub struct ValidationErrors {
    pub errors: Vec<ValidationError>,
    pub warnings: Vec<ValidationError>,
}

impl Default for ValidationErrors {
    fn default() -> (r: Self)
        ensures
            r.errors@.len() == 0,
            r.warnings@.len() == 0,
    {
        ValidationErrors { errors: Vec::new(), warnings: Vec::new() }
    }
}

impl ValidationErrors {
    /// No errors and no warnings.
    pub fn new() -> (r: Self)
        ensures
            r.errors@.len() == 0,
            r.warnings@.len() == 0,
    {
        ValidationErrors { errors: Vec::new(), warnings: Vec::new() }
    }

    /// Records an error.
    pub fn add_error(&mut self, error: ValidationError)
        ensures
            final(self).errors@ == old(self).errors@.push(error),
            findings(final(self).errors@) == findings(old(self).errors@).push(error@),
            final(self).warnings@ == old(self).warnings@,
    {
        self.errors.push(error);
        assert(findings(self.errors@) =~= findings(old(self).errors@).push(error@));
    }

    /// Records a warning.
    pub fn add_warning(&mut self, warning: ValidationError)
        ensures
            final(self).warnings@ == old(self).warnings@.push(warning),
            findings(final(self).warnings@) == findings(old(self).warnings@).push(warning@),
            final(self).errors@ == old(self).errors@,
    {
        self.warnings.push(warning);
        assert(findings(self.warnings@) =~= findings(old(self).warnings@).push(warning@));
    }

    /// Whether any error was recorded.
    pub fn has_errors(&self) -> (r: bool)
        ensures
            r == (self.errors@.len() > 0),
    {
        self.errors.len() > 0
    }

    /// The warnings when there is no error, the errors otherwise.
    pub fn into_result(self) -> (r: Result<Vec<ValidationError>, Vec<ValidationError>>)
        ensures
            self.errors@.len() == 0 ==> r == Ok::<Vec<ValidationError>, Vec<ValidationError>>(
                self.warnings,
            ),
            self.errors@.len() > 0 ==> r == Err::<Vec<ValidationError>, Vec<ValidationError>>(
                self.errors,
            ),
    {
        if self.errors.len() == 0 {
            Ok(self.warnings)
        } else {
            Err(self.errors)
        }
    }
}

// ---------------------------------------------------------------------------
// Checks of single values
// ---------------------------------------------------------------------------

/// A real-valued setting at `path` must be above zero.
pub open spec fn positive_check(path: Seq<char>, field: Seq<char>, r: Reading) -> Seq<Finding> {
    if r.spec_at_most_zero() {
        seq![finding(path, Problem::ValueMustBePositive { field, value: r.text@ })]
    } else {
        Seq::empty()
    }
}

/// A real-valued setting at `path` must not be below zero.
pub open spec fn non_negative_check(path: Seq<char>, field: Seq<char>, r: Reading) -> Seq<
    Finding,
> {
    if r.spec_below_zero() {
        seq![finding(path, Problem::ValueMustBeNonNegative { field, value: r.text@ })]
    } else {
        Seq::empty()
    }
}

/// A count at `path` must not be zero.
pub open spec fn count_check(path: Seq<char>, field: Seq<char>, v: u32) -> Seq<Finding> {
    if v == 0 {
        seq![finding(path, Problem::IntValueMustBePositive { field, value: 0 })]
    } else {
        Seq::empty()
    }
}

/// The errors recorded so far, and that no warning was added.
pub open spec fn appended(
    before: ValidationErrors,
    after: ValidationErrors,
    added: Seq<Finding>,
) -> bool {
    &&& findings(after.errors@) == findings(before.errors@) + added
    &&& after.warnings@ == before.warnings@
}

fn check_positive(ctx: &mut ValidationErrors, path: FieldPath, field: &str, r: &Reading)
    ensures
        appended(*old(ctx), *final(ctx), positive_check(path.0@, field@, *r)),
{
    if r.at_most_zero() {
        let kind = ValidationErrorKind::ValueMustBePositive {
            field: String::from_str(field),
            value: r.text.clone(),
        };
        ctx.add_error(ValidationError::new(path, kind));
    }
    assert(findings(ctx.errors@) =~= findings(old(ctx).errors@) + positive_check(
        path.0@,
        field@,
        *r,
    ));
}

fn check_non_negative(ctx: &mut ValidationErrors, path: FieldPath, field: &str, r: &Reading)
    ensures
        appended(*old(ctx), *final(ctx), non_negative_check(path.0@, field@, *r)),
{
    if r.below_zero() {
        let kind = ValidationErrorKind::ValueMustBeNonNegative {
            field: String::from_str(field),
            value: r.text.clone(),
        };
        ctx.add_error(ValidationError::new(path, kind));
    }
    assert(findings(ctx.errors@) =~= findings(old(ctx).errors@) + non_negative_check(
        path.0@,
        field@,
        *r,
    ));
}

fn check_count(ctx: &mut ValidationErrors, path: FieldPath, field: &str, v: u32)
    ensures
        appended(*old(ctx), *final(ctx), count_check(path.0@, field@, v)),
{
    if v == 0 {
        let kind = ValidationErrorKind::IntValueMustBePositive {
            field: String::from_str(field),
            value: 0,
        };
        ctx.add_error(ValidationError::new(path, kind));
    }
    assert(findings(ctx.errors@) =~= findings(old(ctx).errors@) + count_check(path.0@, field@, v));
}

// ---------------------------------------------------------------------------
// The scenario on its own
// ---------------------------------------------------------------------------

/// The known station types.
pub open spec fn station_types() -> Seq<Seq<char>> {
    seq!["pick"@, "drop"@, "inbound"@, "outbound"@]
}

/// Whether `t` is one of the known station types.
pub open spec fn is_station_type(t: Seq<char>) -> bool {
    t == "pick"@ || t == "drop"@ || t == "inbound"@ || t == "outbound"@
}

/// Entry `i` of `ids` occurs among the entries before it.
pub open spec fn seen_before(ids: Seq<Seq<char>>, i: int) -> bool {
    exists|j: int| 0 <= j < i && ids[j] == ids[i]
}

/// The identifiers of the stations.
pub open spec fn station_ids(stations: Seq<StationOutline>) -> Seq<Seq<char>> {
    stations.map_values(|st: StationOutline| st.id@)
}

/// The path of station `i`.
pub open spec fn station_path(i: int) -> Seq<char> {
    index_path(field_path("scenario"@, "stations"@), i as nat)
}

/// The findings on station `i` of the scenario.
pub open spec fn station_findings(stations: Seq<StationOutline>, i: int) -> Seq<Finding> {
    let st = stations[i];
    let p = station_path(i);
    (if seen_before(station_ids(stations), i) {
        seq![finding(field_path(p, "id"@), Problem::DuplicateId { id: st.id@, entity_type: "station"@ })]
    } else {
        Seq::empty()
    }) + (if !is_station_type(st.station_type@) {
        seq![
            Finding {
                path: field_path(p, "type"@),
                kind: Problem::InvalidStationType {
                    value: st.station_type@,
                    valid_types: station_types(),
                },
                suggestion: Some("use one of: pick, drop, inbound, outbound"@),
            },
        ]
    } else {
        Seq::empty()
    }) + count_check(field_path(p, "concurrency"@), "concurrency"@, st.concurrency)
        + non_negative_check(field_path(p, "service_time_s.base"@), "base"@, st.service_base)
        + non_negative_check(
        field_path(p, "service_time_s.per_item"@),
        "per_item"@,
        st.service_per_item,
    )
}

/// The findings on the first `n` stations, station by station.
pub open spec fn stations_findings(stations: Seq<StationOutline>, n: nat) -> Seq<Finding>
    decreases n,
{
    if n == 0 {
        Seq::empty()
    } else {
        stations_findings(stations, (n - 1) as nat) + station_findings(stations, n - 1)
    }
}

/// The findings on the scenario's simulation and robot settings.
pub open spec fn scenario_head_findings(s: ScenarioOutline) -> Seq<Finding> {
    let sim = field_path("scenario"@, "simulation"@);
    let robots = field_path("scenario"@, "robots"@);
    positive_check(field_path(sim, "duration_minutes"@), "duration_minutes"@, s.duration_minutes)
        + non_negative_check(
        field_path(sim, "warmup_minutes"@),
        "warmup_minutes"@,
        s.warmup_minutes,
    ) + count_check(field_path(robots, "count"@), "count"@, s.robot_count) + positive_check(
        field_path(robots, "max_speed_mps"@),
        "max_speed_mps"@,
        s.max_speed_mps,
    ) + positive_check(field_path(robots, "max_payload_kg"@), "max_payload_kg"@, s.max_payload_kg)
}

/// The findings on the scenario's order and traffic settings.
pub open spec fn scenario_tail_findings(s: ScenarioOutline) -> Seq<Finding> {
    let orders = field_path("scenario"@, "orders"@);
    let traffic = field_path("scenario"@, "traffic"@);
    positive_check(
        field_path(orders, "arrival_process.rate_per_min"@),
        "rate_per_min"@,
        s.arrival_rate_per_min,
    ) + positive_check(field_path(orders, "lines_per_order.mean"@), "mean"@, s.lines_mean)
        + positive_check(
        field_path(orders, "lines_per_order.dispersion"@),
        "dispersion"@,
        s.lines_dispersion,
    ) + positive_check(field_path(orders, "sku_popularity.alpha"@), "alpha"@, s.sku_alpha)
        + count_check(
        field_path(traffic, "edge_capacity_default"@),
        "edge_capacity_default"@,
        s.edge_capacity_default,
    ) + count_check(
        field_path(traffic, "node_capacity_default"@),
        "node_capacity_default"@,
        s.node_capacity_default,
    )
}

/// All findings on a scenario on its own, in the order they are reported:
/// simulation and robots, the station list, each station, orders, traffic.
pub open spec fn scenario_findings(s: ScenarioOutline) -> Seq<Finding> {
    scenario_head_findings(s) + (if s.stations@.len() == 0 {
        seq![
            finding(
                field_path("scenario"@, "stations"@),
                Problem::EmptyCollection { collection: "stations"@ },
            ),
        ]
    } else {
        Seq::empty()
    }) + stations_findings(s.stations@, s.stations@.len()) + scenario_tail_findings(s)
}

fn station_seen_before(stations: &Vec<StationOutline>, i: usize) -> (r: bool)
    requires
        i < stations@.len(),
    ensures
        r == seen_before(station_ids(stations@), i as int),
{
    let ghost ids = station_ids(stations@);
    let mut j: usize = 0;
    while j < i
        invariant
            i < stations@.len(),
            ids == station_ids(stations@),
            j <= i,
            forall|k: int| 0 <= k < j ==> ids[k] != ids[i as int],
        decreases i - j,
    {
        if stations[j].id == stations[i].id {
            assert(ids[j as int] == ids[i as int]);
            return true;
        }
        j = j + 1;
    }
    false
}

fn known_station_type(t: &str) -> (r: bool)
    ensures
        r == is_station_type(t@),
{
    same_text(t, "pick") || same_text(t, "drop") || same_text(t, "inbound") || same_text(
        t,
        "outbound",
    )
}

fn check_station(ctx: &mut ValidationErrors, stations: &Vec<StationOutline>, i: usize)
    requires
        i < stations@.len(),
    ensures
        appended(*old(ctx), *final(ctx), station_findings(stations@, i as int)),
{
    let st = &stations[i];
    let p = FieldPath::new("scenario").field("stations").index(i);
    let ghost acc: Seq<Finding> = Seq::empty();
    if station_seen_before(stations, i) {
        let kind = ValidationErrorKind::DuplicateId {
            id: st.id.clone(),
            entity_type: String::from_str("station"),
        };
        ctx.add_error(ValidationError::new(p.field("id"), kind));
    }
    proof {
        acc = if seen_before(station_ids(stations@), i as int) {
            seq![finding(field_path(p.0@, "id"@), Problem::DuplicateId { id: st.id@, entity_type: "station"@ })]
        } else {
            Seq::empty()
        };
    }
    assert(findings(ctx.errors@) =~= findings(old(ctx).errors@) + acc);
    if !known_station_type(st.station_type.as_str()) {
        let valid = vec![
            String::from_str("pick"),
            String::from_str("drop"),
            String::from_str("inbound"),
            String::from_str("outbound"),
        ];
        assert(texts(valid@) =~= station_types());
        let kind = ValidationErrorKind::InvalidStationType {
            value: st.station_type.clone(),
            valid_types: valid,
        };
        let e = ValidationError::new(p.field("type"), kind).with_suggestion(
            String::from_str("use one of: pick, drop, inbound, outbound"),
        );
        ctx.add_error(e);
    }
    proof {
        acc = acc + (if !is_station_type(st.station_type@) {
            seq![
                Finding {
                    path: field_path(p.0@, "type"@),
                    kind: Problem::InvalidStationType {
                        value: st.station_type@,
                        valid_types: station_types(),
                    },
                    suggestion: Some("use one of: pick, drop, inbound, outbound"@),
                },
            ]
        } else {
            Seq::empty()
        });
    }
    assert(findings(ctx.errors@) =~= findings(old(ctx).errors@) + acc);
    check_count(ctx, p.field("concurrency"), "concurrency", st.concurrency);
    proof {
        acc = acc + count_check(field_path(p.0@, "concurrency"@), "concurrency"@, st.concurrency);
    }
    assert(findings(ctx.errors@) =~= findings(old(ctx).errors@) + acc);
    check_non_negative(ctx, p.field("service_time_s.base"), "base", &st.service_base);
    proof {
        acc = acc + non_negative_check(
            field_path(p.0@, "service_time_s.base"@),
            "base"@,
            st.service_base,
        );
    }
    assert(findings(ctx.errors@) =~= findings(old(ctx).errors@) + acc);
    check_non_negative(ctx, p.field("service_time_s.per_item"), "per_item", &st.service_per_item);
    proof {
        acc = acc + non_negative_check(
            field_path(p.0@, "service_time_s.per_item"@),
            "per_item"@,
            st.service_per_item,
        );
    }
    assert(findings(ctx.errors@) =~= findings(old(ctx).errors@) + acc);
    assert(acc =~= station_findings(stations@, i as int));
}

fn check_scenario_head(ctx: &mut ValidationErrors, scenario: &ScenarioOutline)
    ensures
        appended(*old(ctx), *final(ctx), scenario_head_findings(*scenario)),
{
    let root = FieldPath::new("scenario");
    let sim = root.field("simulation");
    check_positive(ctx, sim.field("duration_minutes"), "duration_minutes", &scenario.duration_minutes);
    check_non_negative(ctx, sim.field("warmup_minutes"), "warmup_minutes", &scenario.warmup_minutes);
    let robots = root.field("robots");
    check_count(ctx, robots.field("count"), "count", scenario.robot_count);
    check_positive(ctx, robots.field("max_speed_mps"), "max_speed_mps", &scenario.max_speed_mps);
    check_positive(ctx, robots.field("max_payload_kg"), "max_payload_kg", &scenario.max_payload_kg);
    assert(findings(ctx.errors@) =~= findings(old(ctx).errors@) + scenario_head_findings(*scenario));
}

fn check_scenario_tail(ctx: &mut ValidationErrors, scenario: &ScenarioOutline)
    ensures
        appended(*old(ctx), *final(ctx), scenario_tail_findings(*scenario)),
{
    let root = FieldPath::new("scenario");
    let orders = root.field("orders");
    check_positive(
        ctx,
        orders.field("arrival_process.rate_per_min"),
        "rate_per_min",
        &scenario.arrival_rate_per_min,
    );
    check_positive(ctx, orders.field("lines_per_order.mean"), "mean", &scenario.lines_mean);
    check_positive(
        ctx,
        orders.field("lines_per_order.dispersion"),
        "dispersion",
        &scenario.lines_dispersion,
    );
    check_positive(ctx, orders.field("sku_popularity.alpha"), "alpha", &scenario.sku_alpha);
    let traffic = root.field("traffic");
    check_count(
        ctx,
        traffic.field("edge_capacity_default"),
        "edge_capacity_default",
        scenario.edge_capacity_default,
    );
    check_count(
        ctx,
        traffic.field("node_capacity_default"),
        "node_capacity_default",
        scenario.node_capacity_default,
    );
    assert(findings(ctx.errors@) =~= findings(old(ctx).errors@) + scenario_tail_findings(*scenario));
}

fn check_stations(ctx: &mut ValidationErrors, stations: &Vec<StationOutline>)
    ensures
        appended(*old(ctx), *final(ctx), stations_findings(stations@, stations@.len())),
{
    let mut i: usize = 0;
    while i < stations.len()
        invariant
            i <= stations@.len(),
            findings(ctx.errors@) == findings(old(ctx).errors@) + stations_findings(
                stations@,
                i as nat,
            ),
            ctx.warnings@ == old(ctx).warnings@,
        decreases stations@.len() - i,
    {
        check_station(ctx, stations, i);
        i = i + 1;
        assert(findings(ctx.errors@) =~= findings(old(ctx).errors@) + stations_findings(
            stations@,
            i as nat,
        ));
    }
}

/// Checks a scenario on its own: positive durations, speeds and rates, a
/// non-negative warm-up, at least one robot, a non-empty station list with
/// unique identifiers, known types, positive concurrency and non-negative
/// service times, and positive default capacities. Each failed check adds
/// one error, in that order.
pub fn validate_scenario_standalone(scenario: &ScenarioOutline, ctx: &mut ValidationErrors)
    ensures
        appended(*old(ctx), *final(ctx), scenario_findings(*scenario)),
{
    let ghost e0 = findings(ctx.errors@);
    check_scenario_head(ctx, scenario);
    let ghost e1 = findings(ctx.errors@);
    if scenario.stations.len() == 0 {
        let kind = ValidationErrorKind::EmptyCollection { collection: String::from_str("stations") };
        ctx.add_error(ValidationError::new(FieldPath::new("scenario").field("stations"), kind));
    }
    let ghost e2 = findings(ctx.errors@);
    check_stations(ctx, &scenario.stations);
    let ghost e3 = findings(ctx.errors@);
    check_scenario_tail(ctx, scenario);
    assert(findings(ctx.errors@) =~= findings(old(ctx).errors@) + scenario_findings(*scenario));
}

// ---------------------------------------------------------------------------
// Lists of identifiers
// ---------------------------------------------------------------------------

/// The distinct entries of `ids`, each where it first occurs.
pub open spec fn distinct_texts(ids: Seq<Seq<char>>) -> Seq<Seq<char>>
    decreases ids.len(),
{
    if ids.len() == 0 {
        Seq::empty()
    } else {
        let d = distinct_texts(ids.drop_last());
        if d.contains(ids.last()) {
            d
        } else {
            d.push(ids.last())
        }
    }
}

/// A name for how std's `Debug` prints a string: quoted, with special
/// characters escaped.
pub uninterp spec fn debug_form(s: Seq<char>) -> Seq<char>;

/// std's `Debug` form of a string (`format!("{:?}", s)`). The result is
/// named by `debug_form`; what the escapes are is not stated here.
#[verifier::external_body]
fn debug_quoted(s: &str) -> (r: String)
    ensures
        r@ == debug_form(s@),
{
    format!("{:?}", s)
}

fn contains_text(v: &Vec<String>, t: &str) -> (r: bool)
    ensures
        r == texts(v@).contains(t@),
{
    let mut i: usize = 0;
    while i < v.len()
        invariant
            i <= v@.len(),
            forall|k: int| 0 <= k < i ==> texts(v@)[k] != t@,
        decreases v@.len() - i,
    {
        if same_text(v[i].as_str(), t) {
            assert(texts(v@)[i as int] == t@);
            return true;
        }
        i = i + 1;
    }
    false
}

/// The distinct strings of `v`, each where it first occurs.
fn distinct_strings(v: &Vec<String>) -> (r: Vec<String>)
    ensures
        texts(r@) == distinct_texts(texts(v@)),
{
    let mut out: Vec<String> = Vec::new();
    let mut i: usize = 0;
    while i < v.len()
        invariant
            i <= v@.len(),
            texts(out@) == distinct_texts(texts(v@.subrange(0, i as int))),
        decreases v@.len() - i,
    {
        let ghost prefix = texts(v@.subrange(0, i + 1));
        assert(prefix.drop_last() =~= texts(v@.subrange(0, i as int)));
        assert(prefix.last() == v@[i as int]@);
        if !contains_text(&out, v[i].as_str()) {
            out.push(v[i].clone());
            assert(texts(out@) =~= distinct_texts(prefix));
        }
        i = i + 1;
    }
    assert(v@.subrange(0, v@.len() as int) =~= v@);
    out
}

/// The texts of `v`, each in its `Debug` form.
pub open spec fn debug_forms(v: Seq<Seq<char>>) -> Seq<Seq<char>> {
    v.map_values(|t: Seq<char>| debug_form(t))
}

// ---------------------------------------------------------------------------
// The map on its own
// ---------------------------------------------------------------------------

/// The node identifiers of a map.
pub open spec fn node_texts(m: MapOutline) -> Seq<Seq<char>> {
    texts(m.node_ids@)
}

/// The hint attached to an edge that names an unknown node: the set of
/// node identifiers, in `Debug` form, in the order the nodes are listed.
pub open spec fn node_set_hint(ids: Seq<Seq<char>>) -> Seq<char> {
    "available nodes: {"@ + joined(debug_forms(distinct_texts(ids)), ", "@) + "}"@
}

/// The finding on node `i` of the map.
pub open spec fn node_findings(ids: Seq<Seq<char>>, i: int) -> Seq<Finding> {
    if seen_before(ids, i) {
        seq![
            finding(
                field_path(index_path(field_path("map"@, "nodes"@), i as nat), "id"@),
                Problem::DuplicateId { id: ids[i], entity_type: "node"@ },
            ),
        ]
    } else {
        Seq::empty()
    }
}

/// The findings on the first `n` nodes.
pub open spec fn nodes_findings(ids: Seq<Seq<char>>, n: nat) -> Seq<Finding>
    decreases n,
{
    if n == 0 {
        Seq::empty()
    } else {
        nodes_findings(ids, (n - 1) as nat) + node_findings(ids, n - 1)
    }
}

/// The finding that an edge end at `path` names no node of the map.
pub open spec fn edge_end_check(path: Seq<char>, end: Seq<char>, ids: Seq<Seq<char>>) -> Seq<
    Finding,
> {
    if !ids.contains(end) {
        seq![
            Finding {
                path,
                kind: Problem::NodeNotFound { node_id: end },
                suggestion: Some(node_set_hint(ids)),
            },
        ]
    } else {
        Seq::empty()
    }
}

/// The findings on edge `i` of the map: its length, its capacity, its ends.
pub open spec fn edge_findings(m: MapOutline, i: int) -> Seq<Finding> {
    let e = m.edges@[i];
    let p = index_path(field_path("map"@, "edges"@), i as nat);
    positive_check(field_path(p, "length_m"@), "length_m"@, e.length_m) + count_check(
        field_path(p, "capacity"@),
        "capacity"@,
        e.capacity,
    ) + edge_end_check(field_path(p, "from"@), e.from@, node_texts(m)) + edge_end_check(
        field_path(p, "to"@),
        e.to@,
        node_texts(m),
    )
}

/// The findings on the first `n` edges.
pub open spec fn edges_findings(m: MapOutline, n: nat) -> Seq<Finding>
    decreases n,
{
    if n == 0 {
        Seq::empty()
    } else {
        edges_findings(m, (n - 1) as nat) + edge_findings(m, n - 1)
    }
}

/// All findings on a map on its own: an empty node list, repeated node
/// identifiers, then edge by edge.
pub open spec fn map_findings(m: MapOutline) -> Seq<Finding> {
    (if m.node_ids@.len() == 0 {
        seq![
            finding(
                field_path("map"@, "nodes"@),
                Problem::EmptyCollection { collection: "nodes"@ },
            ),
        ]
    } else {
        Seq::empty()
    }) + nodes_findings(node_texts(m), m.node_ids@.len()) + edges_findings(m, m.edges@.len())
}

fn text_seen_before(v: &Vec<String>, i: usize) -> (r: bool)
    requires
        i < v@.len(),
    ensures
        r == seen_before(texts(v@), i as int),
{
    let ghost ids = texts(v@);
    let mut j: usize = 0;
    while j < i
        invariant
            i < v@.len(),
            ids == texts(v@),
            j <= i,
            forall|k: int| 0 <= k < j ==> ids[k] != ids[i as int],
        decreases i - j,
    {
        if v[j] == v[i] {
            assert(ids[j as int] == ids[i as int]);
            return true;
        }
        j = j + 1;
    }
    false
}

/// The hint that lists the nodes of a map.
fn node_set_hint_text(node_ids: &Vec<String>) -> (r: String)
    ensures
        r@ == node_set_hint(texts(node_ids@)),
{
    let distinct = distinct_strings(node_ids);
    let mut quoted: Vec<String> = Vec::new();
    let mut i: usize = 0;
    while i < distinct.len()
        invariant
            i <= distinct@.len(),
            quoted@.len() == i,
            forall|k: int| 0 <= k < i ==> #[trigger] quoted@[k]@ == debug_form(distinct@[k]@),
        decreases distinct@.len() - i,
    {
        quoted.push(debug_quoted(distinct[i].as_str()));
        i = i + 1;
    }
    assert(texts(quoted@) =~= debug_forms(texts(distinct@)));
    let mut s = String::from_str("available nodes: {");
    push_joined(&mut s, &quoted, ", ");
    s.append("}");
    assert(s@ =~= node_set_hint(texts(node_ids@)));
    s
}

fn check_edge_end(
    ctx: &mut ValidationErrors,
    path: FieldPath,
    end: &String,
    node_ids: &Vec<String>,
    hint: &String,
)
    requires
        hint@ == node_set_hint(texts(node_ids@)),
    ensures
        appended(*old(ctx), *final(ctx), edge_end_check(path.0@, end@, texts(node_ids@))),
{
    if !contains_text(node_ids, end.as_str()) {
        let kind = ValidationErrorKind::NodeNotFound { node_id: end.clone() };
        ctx.add_error(ValidationError::new(path, kind).with_suggestion(hint.clone()));
    }
    assert(findings(ctx.errors@) =~= findings(old(ctx).errors@) + edge_end_check(
        path.0@,
        end@,
        texts(node_ids@),
    ));
}

fn check_edge(ctx: &mut ValidationErrors, map: &MapOutline, i: usize, hint: &String)
    requires
        i < map.edges@.len(),
        hint@ == node_set_hint(node_texts(*map)),
    ensures
        appended(*old(ctx), *final(ctx), edge_findings(*map, i as int)),
{
    let e = &map.edges[i];
    let p = FieldPath::new("map").field("edges").index(i);
    let ghost e0 = findings(ctx.errors@);
    check_positive(ctx, p.field("length_m"), "length_m", &e.length_m);
    check_count(ctx, p.field("capacity"), "capacity", e.capacity);
    check_edge_end(ctx, p.field("from"), &e.from, &map.node_ids, hint);
    check_edge_end(ctx, p.field("to"), &e.to, &map.node_ids, hint);
    assert(findings(ctx.errors@) =~= findings(old(ctx).errors@) + edge_findings(*map, i as int));
}

fn check_nodes(ctx: &mut ValidationErrors, node_ids: &Vec<String>)
    ensures
        appended(*old(ctx), *final(ctx), nodes_findings(texts(node_ids@), node_ids@.len())),
{
    let mut i: usize = 0;
    while i < node_ids.len()
        invariant
            i <= node_ids@.len(),
            findings(ctx.errors@) == findings(old(ctx).errors@) + nodes_findings(
                texts(node_ids@),
                i as nat,
            ),
            ctx.warnings@ == old(ctx).warnings@,
        decreases node_ids@.len() - i,
    {
        if text_seen_before(node_ids, i) {
            let path = FieldPath::new("map").field("nodes").index(i).field("id");
            let kind = ValidationErrorKind::DuplicateId {
                id: node_ids[i].clone(),
                entity_type: String::from_str("node"),
            };
            ctx.add_error(ValidationError::new(path, kind));
        }
        i = i + 1;
        assert(findings(ctx.errors@) =~= findings(old(ctx).errors@) + nodes_findings(
            texts(node_ids@),
            i as nat,
        ));
    }
}

/// Checks a map on its own: at least one node, unique node identifiers,
/// and edges with positive length and capacity whose ends are nodes of the
/// map. An unknown end comes with a hint that lists the map's nodes.
pub fn validate_map_standalone(map: &MapOutline, ctx: &mut ValidationErrors)
    ensures
        appended(*old(ctx), *final(ctx), map_findings(*map)),
{
    let ghost e0 = findings(ctx.errors@);
    if map.node_ids.len() == 0 {
        let kind = ValidationErrorKind::EmptyCollection { collection: String::from_str("nodes") };
        ctx.add_error(ValidationError::new(FieldPath::new("map").field("nodes"), kind));
    }
    let ghost e1 = findings(ctx.errors@);
    check_nodes(ctx, &map.node_ids);
    let ghost e2 = findings(ctx.errors@);
    let hint = node_set_hint_text(&map.node_ids);
    let mut i: usize = 0;
    while i < map.edges.len()
        invariant
            i <= map.edges@.len(),
            hint@ == node_set_hint(node_texts(*map)),
            findings(ctx.errors@) == e2 + edges_findings(*map, i as nat),
            ctx.warnings@ == old(ctx).warnings@,
        decreases map.edges@.len() - i,
    {
        check_edge(ctx, map, i, &hint);
        i = i + 1;
        assert(findings(ctx.errors@) =~= e2 + edges_findings(*map, i as nat));
    }
    assert(findings(ctx.errors@) =~= findings(old(ctx).errors@) + map_findings(*map));
}

// ---------------------------------------------------------------------------
// Storage on its own
// ---------------------------------------------------------------------------

/// The identifiers of the racks.
pub open spec fn rack_ids(racks: Seq<RackOutline>) -> Seq<Seq<char>> {
    racks.map_values(|r: RackOutline| r.id@)
}

/// The findings on rack `i`: a repeated identifier, no levels, no bins.
pub open spec fn rack_findings(racks: Seq<RackOutline>, i: int) -> Seq<Finding> {
    let r = racks[i];
    let p = index_path(field_path("storage"@, "racks"@), i as nat);
    (if seen_before(rack_ids(racks), i) {
        seq![finding(field_path(p, "id"@), Problem::DuplicateId { id: r.id@, entity_type: "rack"@ })]
    } else {
        Seq::empty()
    }) + count_check(field_path(p, "levels"@), "levels"@, r.levels) + count_check(
        field_path(p, "bins_per_level"@),
        "bins_per_level"@,
        r.bins_per_level,
    )
}

/// The findings on the first `n` racks.
pub open spec fn racks_findings(racks: Seq<RackOutline>, n: nat) -> Seq<Finding>
    decreases n,
{
    if n == 0 {
        Seq::empty()
    } else {
        racks_findings(racks, (n - 1) as nat) + rack_findings(racks, n - 1)
    }
}

/// All findings on storage on its own, rack by rack.
pub open spec fn storage_findings(st: StorageOutline) -> Seq<Finding> {
    racks_findings(st.racks@, st.racks@.len())
}

fn rack_seen_before(racks: &Vec<RackOutline>, i: usize) -> (r: bool)
    requires
        i < racks@.len(),
    ensures
        r == seen_before(rack_ids(racks@), i as int),
{
    let ghost ids = rack_ids(racks@);
    let mut j: usize = 0;
    while j < i
        invariant
            i < racks@.len(),
            ids == rack_ids(racks@),
            j <= i,
            forall|k: int| 0 <= k < j ==> ids[k] != ids[i as int],
        decreases i - j,
    {
        if racks[j].id == racks[i].id {
            assert(ids[j as int] == ids[i as int]);
            return true;
        }
        j = j + 1;
    }
    false
}

fn check_rack(ctx: &mut ValidationErrors, racks: &Vec<RackOutline>, i: usize)
    requires
        i < racks@.len(),
    ensures
        appended(*old(ctx), *final(ctx), rack_findings(racks@, i as int)),
{
    let r = &racks[i];
    let p = FieldPath::new("storage").field("racks").index(i);
    if rack_seen_before(racks, i) {
        let kind = ValidationErrorKind::DuplicateId {
            id: r.id.clone(),
            entity_type: String::from_str("rack"),
        };
        ctx.add_error(ValidationError::new(p.field("id"), kind));
    }
    let ghost e1 = findings(ctx.errors@);
    check_count(ctx, p.field("levels"), "levels", r.levels);
    check_count(ctx, p.field("bins_per_level"), "bins_per_level", r.bins_per_level);
    assert(findings(ctx.errors@) =~= findings(old(ctx).errors@) + rack_findings(racks@, i as int));
}

/// Checks storage on its own: unique rack identifiers, and racks with at
/// least one level and one bin per level.
pub fn validate_storage_standalone(storage: &StorageOutline, ctx: &mut ValidationErrors)
    ensures
        appended(*old(ctx), *final(ctx), storage_findings(*storage)),
{
    let mut i: usize = 0;
    while i < storage.racks.len()
        invariant
            i <= storage.racks@.len(),
            findings(ctx.errors@) == findings(old(ctx).errors@) + racks_findings(
                storage.racks@,
                i as nat,
            ),
            ctx.warnings@ == old(ctx).warnings@,
        decreases storage.racks@.len() - i,
    {
        check_rack(ctx, &storage.racks, i);
        i = i + 1;
        assert(findings(ctx.errors@) =~= findings(old(ctx).errors@) + racks_findings(
            storage.racks@,
            i as nat,
        ));
    }
}

// ---------------------------------------------------------------------------
// Cross references between the files
// ---------------------------------------------------------------------------

/// The first `n` entries of `v` (all of them when there are fewer).
pub open spec fn first_few(v: Seq<Seq<char>>, n: nat) -> Seq<Seq<char>> {
    if v.len() <= n {
        v
    } else {
        v.take(n as int)
    }
}

/// The hint attached to a station or rack whose node is unknown: up to ten
/// node identifiers, in the order the nodes are listed.
pub open spec fn few_nodes_hint(ids: Seq<Seq<char>>) -> Seq<char> {
    "available nodes: "@ + joined(first_few(distinct_texts(ids), 10), ", "@)
}

/// The finding that station `i` stands at a node the map lacks.
pub open spec fn station_node_findings(
    stations: Seq<StationOutline>,
    ids: Seq<Seq<char>>,
    i: int,
) -> Seq<Finding> {
    let node = stations[i].node@;
    if !ids.contains(node) {
        seq![
            Finding {
                path: "scenario.stations["@ + decimal(i as nat) + "].node"@,
                kind: Problem::NodeNotFound { node_id: node },
                suggestion: Some(few_nodes_hint(ids)),
            },
        ]
    } else {
        Seq::empty()
    }
}

/// The findings on the nodes of the first `n` stations.
pub open spec fn stations_nodes_findings(
    stations: Seq<StationOutline>,
    ids: Seq<Seq<char>>,
    n: nat,
) -> Seq<Finding>
    decreases n,
{
    if n == 0 {
        Seq::empty()
    } else {
        stations_nodes_findings(stations, ids, (n - 1) as nat) + station_node_findings(
            stations,
            ids,
            n - 1,
        )
    }
}

/// The finding that rack `i` is reached from a node the map lacks.
pub open spec fn rack_node_findings(racks: Seq<RackOutline>, ids: Seq<Seq<char>>, i: int) -> Seq<
    Finding,
> {
    let node = racks[i].access_node@;
    if !ids.contains(node) {
        seq![
            Finding {
                path: "storage.racks["@ + decimal(i as nat) + "].access_node"@,
                kind: Problem::NodeNotFound { node_id: node },
                suggestion: Some(few_nodes_hint(ids)),
            },
        ]
    } else {
        Seq::empty()
    }
}

/// The findings on the access nodes of the first `n` racks.
pub open spec fn racks_nodes_findings(racks: Seq<RackOutline>, ids: Seq<Seq<char>>, n: nat) -> Seq<
    Finding,
>
    decreases n,
{
    if n == 0 {
        Seq::empty()
    } else {
        racks_nodes_findings(racks, ids, (n - 1) as nat) + rack_node_findings(racks, ids, n - 1)
    }
}

/// The index of the last of the first `n` racks named `id`. A placement
/// refers to that rack when several share the name.
pub open spec fn last_rack(racks: Seq<RackOutline>, id: Seq<char>, n: nat) -> Option<int>
    decreases n,
{
    if n == 0 {
        None
    } else if racks[n - 1].id@ == id {
        Some(n - 1)
    } else {
        last_rack(racks, id, (n - 1) as nat)
    }
}

/// The path of placement `j` of SKU `sku`.
pub open spec fn placement_path(sku: Seq<char>, j: int) -> Seq<char> {
    "storage.placements."@ + sku + "["@ + decimal(j as nat) + "]"@
}

/// The hint attached to a placement in an unknown rack: the rack
/// identifiers, in the order the racks are listed.
pub open spec fn rack_hint(racks: Seq<RackOutline>) -> Seq<char> {
    "available racks: "@ + joined(distinct_texts(rack_ids(racks)), ", "@)
}

/// The findings on placement `j` of SKU `sku`: an unknown rack, or a level
/// or bin beyond the rack's.
pub open spec fn placement_findings(
    racks: Seq<RackOutline>,
    sku: Seq<char>,
    pl: PlacementConfig,
    j: int,
) -> Seq<Finding> {
    let p = placement_path(sku, j);
    match last_rack(racks, pl.rack@, racks.len()) {
        Some(k) => {
            let r = racks[k];
            (if pl.level >= r.levels {
                seq![
                    finding(
                        field_path(p, "level"@),
                        Problem::PlacementLevelOutOfBounds {
                            level: pl.level,
                            max_level: r.levels,
                            rack_id: r.id@,
                        },
                    ),
                ]
            } else {
                Seq::empty()
            }) + (if pl.bin >= r.bins_per_level {
                seq![
                    finding(
                        field_path(p, "bin"@),
                        Problem::PlacementBinOutOfBounds {
                            bin: pl.bin,
                            max_bin: r.bins_per_level,
                            rack_id: r.id@,
                        },
                    ),
                ]
            } else {
                Seq::empty()
            })
        },
        None => seq![
            Finding {
                path: field_path(p, "rack"@),
                kind: Problem::RackNotFound { rack_id: pl.rack@ },
                suggestion: Some(rack_hint(racks)),
            },
        ],
    }
}

/// The findings on the first `n` placements of SKU `sku`.
pub open spec fn sku_findings(
    racks: Seq<RackOutline>,
    sku: Seq<char>,
    list: Seq<PlacementConfig>,
    n: nat,
) -> Seq<Finding>
    decreases n,
{
    if n == 0 {
        Seq::empty()
    } else {
        sku_findings(racks, sku, list, (n - 1) as nat) + placement_findings(
            racks,
            sku,
            list[n - 1],
            n - 1,
        )
    }
}

/// The findings on the placements of the first `n` SKUs.
pub open spec fn placements_findings(st: StorageOutline, n: nat) -> Seq<Finding>
    decreases n,
{
    if n == 0 {
        Seq::empty()
    } else {
        let entry = st.placements@[n - 1];
        placements_findings(st, (n - 1) as nat) + sku_findings(
            st.racks@,
            entry.0@,
            entry.1@,
            entry.1@.len(),
        )
    }
}

/// All findings on the references between the files: station nodes, rack
/// access nodes, then placements SKU by SKU.
pub open spec fn cross_findings(s: ScenarioOutline, m: MapOutline, st: StorageOutline) -> Seq<
    Finding,
> {
    stations_nodes_findings(s.stations@, node_texts(m), s.stations@.len()) + racks_nodes_findings(
        st.racks@,
        node_texts(m),
        st.racks@.len(),
    ) + placements_findings(st, st.placements@.len())
}

fn few_nodes_hint_text(node_ids: &Vec<String>) -> (r: String)
    ensures
        r@ == few_nodes_hint(texts(node_ids@)),
{
    let distinct = distinct_strings(node_ids);
    let mut few: Vec<String> = Vec::new();
    let mut i: usize = 0;
    while i < distinct.len() && i < 10
        invariant
            i <= distinct@.len(),
            i <= 10,
            few@ == distinct@.subrange(0, i as int),
        decreases distinct@.len() - i,
    {
        few.push(distinct[i].clone());
        i = i + 1;
    }
    assert(texts(few@) =~= first_few(texts(distinct@), 10));
    let mut s = String::from_str("available nodes: ");
    push_joined(&mut s, &few, ", ");
    s
}

fn rack_hint_text(racks: &Vec<RackOutline>) -> (r: String)
    ensures
        r@ == rack_hint(racks@),
{
    let mut ids: Vec<String> = Vec::new();
    let mut i: usize = 0;
    while i < racks.len()
        invariant
            i <= racks@.len(),
            ids@.len() == i,
            forall|k: int| 0 <= k < i ==> #[trigger] ids@[k]@ == racks@[k].id@,
        decreases racks@.len() - i,
    {
        ids.push(racks[i].id.clone());
        i = i + 1;
    }
    assert(texts(ids@) =~= rack_ids(racks@));
    let distinct = distinct_strings(&ids);
    let mut s = String::from_str("available racks: ");
    push_joined(&mut s, &distinct, ", ");
    s
}

/// The index, as contracts speak of it.
pub open spec fn as_index(o: Option<usize>) -> Option<int> {
    match o {
        Some(k) => Some(k as int),
        None => None,
    }
}

fn find_last_rack(racks: &Vec<RackOutline>, id: &String) -> (r: Option<usize>)
    ensures
        as_index(r) == last_rack(racks@, id@, racks@.len()),
        r matches Some(k) ==> k < racks@.len(),
{
    let mut found: Option<usize> = None;
    let mut i: usize = 0;
    while i < racks.len()
        invariant
            i <= racks@.len(),
            as_index(found) == last_rack(racks@, id@, i as nat),
            found matches Some(k) ==> k < i,
        decreases racks@.len() - i,
    {
        if racks[i].id == *id {
            found = Some(i);
        }
        i = i + 1;
    }
    found
}

fn push_station_node_check(
    ctx: &mut ValidationErrors,
    stations: &Vec<StationOutline>,
    node_ids: &Vec<String>,
    hint: &String,
    i: usize,
)
    requires
        i < stations@.len(),
        hint@ == few_nodes_hint(texts(node_ids@)),
    ensures
        appended(
            *old(ctx),
            *final(ctx),
            station_node_findings(stations@, texts(node_ids@), i as int),
        ),
{
    let node = &stations[i].node;
    if !contains_text(node_ids, node.as_str()) {
        let mut p = String::from_str("scenario.stations[");
        push_decimal(&mut p, i as u64);
        p.append("].node");
        let kind = ValidationErrorKind::NodeNotFound { node_id: node.clone() };
        ctx.add_error(ValidationError::new(FieldPath(p), kind).with_suggestion(hint.clone()));
    }
    assert(findings(ctx.errors@) =~= findings(old(ctx).errors@) + station_node_findings(
        stations@,
        texts(node_ids@),
        i as int,
    ));
}

fn push_rack_node_check(
    ctx: &mut ValidationErrors,
    racks: &Vec<RackOutline>,
    node_ids: &Vec<String>,
    hint: &String,
    i: usize,
)
    requires
        i < racks@.len(),
        hint@ == few_nodes_hint(texts(node_ids@)),
    ensures
        appended(*old(ctx), *final(ctx), rack_node_findings(racks@, texts(node_ids@), i as int)),
{
    let node = &racks[i].access_node;
    if !contains_text(node_ids, node.as_str()) {
        let mut p = String::from_str("storage.racks[");
        push_decimal(&mut p, i as u64);
        p.append("].access_node");
        let kind = ValidationErrorKind::NodeNotFound { node_id: node.clone() };
        ctx.add_error(ValidationError::new(FieldPath(p), kind).with_suggestion(hint.clone()));
    }
    assert(findings(ctx.errors@) =~= findings(old(ctx).errors@) + rack_node_findings(
        racks@,
        texts(node_ids@),
        i as int,
    ));
}

fn check_placement(
    ctx: &mut ValidationErrors,
    racks: &Vec<RackOutline>,
    sku: &String,
    pl: &PlacementConfig,
    j: usize,
    hint: &String,
)
    requires
        hint@ == rack_hint(racks@),
    ensures
        appended(*old(ctx), *final(ctx), placement_findings(racks@, sku@, *pl, j as int)),
{
    let mut text = String::from_str("storage.placements.");
    text.append(sku.as_str());
    text.append("[");
    push_decimal(&mut text, j as u64);
    text.append("]");
    let path = FieldPath(text);
    match find_last_rack(racks, &pl.rack) {
        Some(k) => {
            let r = &racks[k];
            if pl.level >= r.levels {
                let kind = ValidationErrorKind::PlacementLevelOutOfBounds {
                    level: pl.level,
                    max_level: r.levels,
                    rack_id: r.id.clone(),
                };
                ctx.add_error(ValidationError::new(path.field("level"), kind));
            }
            if pl.bin >= r.bins_per_level {
                let kind = ValidationErrorKind::PlacementBinOutOfBounds {
                    bin: pl.bin,
                    max_bin: r.bins_per_level,
                    rack_id: r.id.clone(),
                };
                ctx.add_error(ValidationError::new(path.field("bin"), kind));
            }
        },
        None => {
            let kind = ValidationErrorKind::RackNotFound { rack_id: pl.rack.clone() };
            ctx.add_error(ValidationError::new(path.field("rack"), kind).with_suggestion(hint.clone()));
        },
    }
    assert(findings(ctx.errors@) =~= findings(old(ctx).errors@) + placement_findings(
        racks@,
        sku@,
        *pl,
        j as int,
    ));
}

fn check_sku_placements(
    ctx: &mut ValidationErrors,
    racks: &Vec<RackOutline>,
    sku: &String,
    list: &Vec<PlacementConfig>,
    hint: &String,
)
    requires
        hint@ == rack_hint(racks@),
    ensures
        appended(*old(ctx), *final(ctx), sku_findings(racks@, sku@, list@, list@.len())),
{
    let mut j: usize = 0;
    while j < list.len()
        invariant
            j <= list@.len(),
            hint@ == rack_hint(racks@),
            findings(ctx.errors@) == findings(old(ctx).errors@) + sku_findings(
                racks@,
                sku@,
                list@,
                j as nat,
            ),
            ctx.warnings@ == old(ctx).warnings@,
        decreases list@.len() - j,
    {
        check_placement(ctx, racks, sku, &list[j], j, hint);
        j = j + 1;
        assert(findings(ctx.errors@) =~= findings(old(ctx).errors@) + sku_findings(
            racks@,
            sku@,
            list@,
            j as nat,
        ));
    }
}

fn check_all_placements(ctx: &mut ValidationErrors, storage: &StorageOutline)
    ensures
        appended(*old(ctx), *final(ctx), placements_findings(*storage, storage.placements@.len())),
{
    let hint = rack_hint_text(&storage.racks);
    let mut k: usize = 0;
    while k < storage.placements.len()
        invariant
            k <= storage.placements@.len(),
            hint@ == rack_hint(storage.racks@),
            findings(ctx.errors@) == findings(old(ctx).errors@) + placements_findings(
                *storage,
                k as nat,
            ),
            ctx.warnings@ == old(ctx).warnings@,
        decreases storage.placements@.len() - k,
    {
        let entry = &storage.placements[k];
        check_sku_placements(ctx, &storage.racks, &entry.0, &entry.1, &hint);
        k = k + 1;
        assert(findings(ctx.errors@) =~= findings(old(ctx).errors@) + placements_findings(
            *storage,
            k as nat,
        ));
    }
}

/// Checks the references between the files: every station stands at a node
/// of the map, every rack is reached from a node of the map, and every
/// placement names a rack (the last one listed under that name) and a level
/// and bin within it. Unknown nodes and racks come with a hint that lists
/// what is available.
pub fn validate_cross_references(
    scenario: &ScenarioOutline,
    map: &MapOutline,
    storage: &StorageOutline,
    ctx: &mut ValidationErrors,
)
    ensures
        appended(*old(ctx), *final(ctx), cross_findings(*scenario, *map, *storage)),
{
    let hint = few_nodes_hint_text(&map.node_ids);
    let mut i: usize = 0;
    while i < scenario.stations.len()
        invariant
            i <= scenario.stations@.len(),
            hint@ == few_nodes_hint(node_texts(*map)),
            findings(ctx.errors@) == findings(old(ctx).errors@) + stations_nodes_findings(
                scenario.stations@,
                node_texts(*map),
                i as nat,
            ),
            ctx.warnings@ == old(ctx).warnings@,
        decreases scenario.stations@.len() - i,
    {
        push_station_node_check(ctx, &scenario.stations, &map.node_ids, &hint, i);
        i = i + 1;
        assert(findings(ctx.errors@) =~= findings(old(ctx).errors@) + stations_nodes_findings(
            scenario.stations@,
            node_texts(*map),
            i as nat,
        ));
    }
    let ghost e1 = findings(ctx.errors@);
    let mut i: usize = 0;
    while i < storage.racks.len()
        invariant
            i <= storage.racks@.len(),
            hint@ == few_nodes_hint(node_texts(*map)),
            findings(ctx.errors@) == e1 + racks_nodes_findings(
                storage.racks@,
                node_texts(*map),
                i as nat,
            ),
            ctx.warnings@ == old(ctx).warnings@,
        decreases storage.racks@.len() - i,
    {
        push_rack_node_check(ctx, &storage.racks, &map.node_ids, &hint, i);
        i = i + 1;
        assert(findings(ctx.errors@) =~= e1 + racks_nodes_findings(
            storage.racks@,
            node_texts(*map),
            i as nat,
        ));
    }
    let ghost e2 = findings(ctx.errors@);
    check_all_placements(ctx, storage);
    assert(findings(ctx.errors@) =~= findings(old(ctx).errors@) + cross_findings(
        *scenario,
        *map,
        *storage,
    ));
}

// ---------------------------------------------------------------------------
// Entry points
// ---------------------------------------------------------------------------

/// Every finding on a scenario and whichever of its map and storage are
/// given: the scenario, the map, the storage, and, when both are given, the
/// references between the files.
pub open spec fn all_findings(
    s: ScenarioOutline,
    m: Option<MapOutline>,
    st: Option<StorageOutline>,
) -> Seq<Finding> {
    scenario_findings(s) + (match m {
        Some(m) => map_findings(m),
        None => Seq::empty(),
    }) + (match st {
        Some(st) => storage_findings(st),
        None => Seq::empty(),
    }) + (match (m, st) {
        (Some(m), Some(st)) => cross_findings(s, m, st),
        _ => Seq::empty(),
    })
}

broadcast proof fn lemma_found_in_concat(a: Seq<Finding>, b: Seq<Finding>, f: Finding)
    ensures
        a.contains(f) || b.contains(f) ==> #[trigger] (a + b).contains(f),
{
    if a.contains(f) {
        let k = choose|k: int| 0 <= k < a.len() && a[k] == f;
        assert((a + b)[k] == f);
    } else if b.contains(f) {
        let k = choose|k: int| 0 <= k < b.len() && b[k] == f;
        assert((a + b)[a.len() + k] == f);
    }
}

/// Validation failed, and one of its errors is `f`.
pub open spec fn refused_with(r: Result<Vec<ValidationError>, Vec<ValidationError>>, f: Finding) -> bool {
    r matches Err(e) && findings(e@).contains(f)
}

/// Every scenario setting out of its range is refused with its own error,
/// whether the scenario is validated alone or with a map and storage: a
/// duration of zero or below, a warm-up below zero, no robots, a robot speed
/// or payload of zero or below, no stations, an order rate, line mean,
/// dispersion or popularity exponent of zero or below, and an edge or node
/// capacity of zero each give an error at the setting's path that names the
/// setting and the value as written. With every one of these settings in
/// range, none of these checks reports anything.
pub proof fn law_out_of_range_settings_are_refused(
    s: ScenarioOutline,
    m: Option<MapOutline>,
    st: Option<StorageOutline>,
    r: Result<Vec<ValidationError>, Vec<ValidationError>>,
)
    requires
        outcome_matches(r, all_findings(s, m, st)),
    ensures
        s.duration_minutes.spec_at_most_zero() ==> refused_with(
            r,
            finding(
                "scenario.simulation.duration_minutes"@,
                Problem::ValueMustBePositive {
                    field: "duration_minutes"@,
                    value: s.duration_minutes.text@,
                },
            ),
        ),
        s.warmup_minutes.spec_below_zero() ==> refused_with(
            r,
            finding(
                "scenario.simulation.warmup_minutes"@,
                Problem::ValueMustBeNonNegative {
                    field: "warmup_minutes"@,
                    value: s.warmup_minutes.text@,
                },
            ),
        ),
        s.robot_count == 0 ==> refused_with(
            r,
            finding(
                "scenario.robots.count"@,
                Problem::IntValueMustBePositive { field: "count"@, value: 0 },
            ),
        ),
        s.max_speed_mps.spec_at_most_zero() ==> refused_with(
            r,
            finding(
                "scenario.robots.max_speed_mps"@,
                Problem::ValueMustBePositive { field: "max_speed_mps"@, value: s.max_speed_mps.text@ },
            ),
        ),
        s.max_payload_kg.spec_at_most_zero() ==> refused_with(
            r,
            finding(
                "scenario.robots.max_payload_kg"@,
                Problem::ValueMustBePositive {
                    field: "max_payload_kg"@,
                    value: s.max_payload_kg.text@,
                },
            ),
        ),
        s.stations@.len() == 0 ==> refused_with(
            r,
            finding("scenario.stations"@, Problem::EmptyCollection { collection: "stations"@ }),
        ),
        s.arrival_rate_per_min.spec_at_most_zero() ==> refused_with(
            r,
            finding(
                "scenario.orders.arrival_process.rate_per_min"@,
                Problem::ValueMustBePositive {
                    field: "rate_per_min"@,
                    value: s.arrival_rate_per_min.text@,
                },
            ),
        ),
        s.lines_mean.spec_at_most_zero() ==> refused_with(
            r,
            finding(
                "scenario.orders.lines_per_order.mean"@,
                Problem::ValueMustBePositive { field: "mean"@, value: s.lines_mean.text@ },
            ),
        ),
        s.lines_dispersion.spec_at_most_zero() ==> refused_with(
            r,
            finding(
                "scenario.orders.lines_per_order.dispersion"@,
                Problem::ValueMustBePositive {
                    field: "dispersion"@,
                    value: s.lines_dispersion.text@,
                },
            ),
        ),
        s.sku_alpha.spec_at_most_zero() ==> refused_with(
            r,
            finding(
                "scenario.orders.sku_popularity.alpha"@,
                Problem::ValueMustBePositive { field: "alpha"@, value: s.sku_alpha.text@ },
            ),
        ),
        s.edge_capacity_default == 0 ==> refused_with(
            r,
            finding(
                "scenario.traffic.edge_capacity_default"@,
                Problem::IntValueMustBePositive { field: "edge_capacity_default"@, value: 0 },
            ),
        ),
        s.node_capacity_default == 0 ==> refused_with(
            r,
            finding(
                "scenario.traffic.node_capacity_default"@,
                Problem::IntValueMustBePositive { field: "node_capacity_default"@, value: 0 },
            ),
        ),
        !s.duration_minutes.spec_at_most_zero() && !s.warmup_minutes.spec_below_zero()
            && s.robot_count != 0 && !s.max_speed_mps.spec_at_most_zero()
            && !s.max_payload_kg.spec_at_most_zero() ==> scenario_head_findings(s).len() == 0,
        !s.arrival_rate_per_min.spec_at_most_zero() && !s.lines_mean.spec_at_most_zero()
            && !s.lines_dispersion.spec_at_most_zero() && !s.sku_alpha.spec_at_most_zero()
            && s.edge_capacity_default != 0 && s.node_capacity_default != 0
            ==> scenario_tail_findings(s).len() == 0,
{
    lemma_scenario_paths();
    lemma_checks_report();
    lemma_scenario_parts_reported(s, m, st);
    lemma_head_pieces(s);
    lemma_tail_pieces(s);
}

proof fn lemma_scenario_paths()
    ensures
        field_path(field_path("scenario"@, "simulation"@), "duration_minutes"@)
            == "scenario.simulation.duration_minutes"@,
        field_path(field_path("scenario"@, "simulation"@), "warmup_minutes"@)
            == "scenario.simulation.warmup_minutes"@,
        field_path(field_path("scenario"@, "robots"@), "count"@) == "scenario.robots.count"@,
        field_path(field_path("scenario"@, "robots"@), "max_speed_mps"@)
            == "scenario.robots.max_speed_mps"@,
        field_path(field_path("scenario"@, "robots"@), "max_payload_kg"@)
            == "scenario.robots.max_payload_kg"@,
        field_path("scenario"@, "stations"@) == "scenario.stations"@,
        field_path(field_path("scenario"@, "orders"@), "arrival_process.rate_per_min"@)
            == "scenario.orders.arrival_process.rate_per_min"@,
        field_path(field_path("scenario"@, "orders"@), "lines_per_order.mean"@)
            == "scenario.orders.lines_per_order.mean"@,
        field_path(field_path("scenario"@, "orders"@), "lines_per_order.dispersion"@)
            == "scenario.orders.lines_per_order.dispersion"@,
        field_path(field_path("scenario"@, "orders"@), "sku_popularity.alpha"@)
            == "scenario.orders.sku_popularity.alpha"@,
        field_path(field_path("scenario"@, "traffic"@), "edge_capacity_default"@)
            == "scenario.traffic.edge_capacity_default"@,
        field_path(field_path("scenario"@, "traffic"@), "node_capacity_default"@)
            == "scenario.traffic.node_capacity_default"@,
{
    reveal_strlit("scenario");
    reveal_strlit("simulation");
    reveal_strlit("robots");
    reveal_strlit("orders");
    reveal_strlit("traffic");
    reveal_strlit("stations");
    reveal_strlit(".");
    reveal_strlit("duration_minutes");
    reveal_strlit("warmup_minutes");
    reveal_strlit("count");
    reveal_strlit("max_speed_mps");
    reveal_strlit("max_payload_kg");
    reveal_strlit("arrival_process.rate_per_min");
    reveal_strlit("lines_per_order.mean");
    reveal_strlit("lines_per_order.dispersion");
    reveal_strlit("sku_popularity.alpha");
    reveal_strlit("edge_capacity_default");
    reveal_strlit("node_capacity_default");
    reveal_strlit("scenario.simulation.duration_minutes");
    reveal_strlit("scenario.simulation.warmup_minutes");
    reveal_strlit("scenario.robots.count");
    reveal_strlit("scenario.robots.max_speed_mps");
    reveal_strlit("scenario.robots.max_payload_kg");
    reveal_strlit("scenario.stations");
    reveal_strlit("scenario.orders.arrival_process.rate_per_min");
    reveal_strlit("scenario.orders.lines_per_order.mean");
    reveal_strlit("scenario.orders.lines_per_order.dispersion");
    reveal_strlit("scenario.orders.sku_popularity.alpha");
    reveal_strlit("scenario.traffic.edge_capacity_default");
    reveal_strlit("scenario.traffic.node_capacity_default");
    let sim = field_path("scenario"@, "simulation"@);
    let robots = field_path("scenario"@, "robots"@);
    let orders = field_path("scenario"@, "orders"@);
    let traffic = field_path("scenario"@, "traffic"@);
    assert(field_path(sim, "duration_minutes"@) =~= "scenario.simulation.duration_minutes"@);
    assert(field_path(sim, "warmup_minutes"@) =~= "scenario.simulation.warmup_minutes"@);
    assert(field_path(robots, "count"@) =~= "scenario.robots.count"@);
    assert(field_path(robots, "max_speed_mps"@) =~= "scenario.robots.max_speed_mps"@);
    assert(field_path(robots, "max_payload_kg"@) =~= "scenario.robots.max_payload_kg"@);
    assert(field_path("scenario"@, "stations"@) =~= "scenario.stations"@);
    assert(field_path(orders, "arrival_process.rate_per_min"@)
        =~= "scenario.orders.arrival_process.rate_per_min"@);
    assert(field_path(orders, "lines_per_order.mean"@) =~= "scenario.orders.lines_per_order.mean"@);
    assert(field_path(orders, "lines_per_order.dispersion"@)
        =~= "scenario.orders.lines_per_order.dispersion"@);
    assert(field_path(orders, "sku_popularity.alpha"@) =~= "scenario.orders.sku_popularity.alpha"@);
    assert(field_path(traffic, "edge_capacity_default"@)
        =~= "scenario.traffic.edge_capacity_default"@);
    assert(field_path(traffic, "node_capacity_default"@)
        =~= "scenario.traffic.node_capacity_default"@);
}

proof fn lemma_checks_report()
    ensures
        forall|p: Seq<char>, name: Seq<char>, v: Reading|
            v.spec_at_most_zero() ==> #[trigger] positive_check(p, name, v).contains(
                finding(p, Problem::ValueMustBePositive { field: name, value: v.text@ }),
            ),
        forall|p: Seq<char>, name: Seq<char>, v: Reading|
            v.spec_below_zero() ==> #[trigger] non_negative_check(p, name, v).contains(
                finding(p, Problem::ValueMustBeNonNegative { field: name, value: v.text@ }),
            ),
        forall|p: Seq<char>, name: Seq<char>, v: u32|
            v == 0 ==> #[trigger] count_check(p, name, v).contains(
                finding(p, Problem::IntValueMustBePositive { field: name, value: 0 }),
            ),
{
    assert forall|p: Seq<char>, name: Seq<char>, v: Reading|
        v.spec_at_most_zero() implies #[trigger] positive_check(p, name, v).contains(
            finding(p, Problem::ValueMustBePositive { field: name, value: v.text@ }),
        ) by {
        assert(positive_check(p, name, v)[0] == finding(
            p,
            Problem::ValueMustBePositive { field: name, value: v.text@ },
        ));
    }
    assert forall|p: Seq<char>, name: Seq<char>, v: Reading|
        v.spec_below_zero() implies #[trigger] non_negative_check(p, name, v).contains(
            finding(p, Problem::ValueMustBeNonNegative { field: name, value: v.text@ }),
        ) by {
        assert(non_negative_check(p, name, v)[0] == finding(
            p,
            Problem::ValueMustBeNonNegative { field: name, value: v.text@ },
        ));
    }
    assert forall|p: Seq<char>, name: Seq<char>, v: u32|
        v == 0 implies #[trigger] count_check(p, name, v).contains(
            finding(p, Problem::IntValueMustBePositive { field: name, value: 0 }),
        ) by {
        assert(count_check(p, name, v)[0] == finding(
            p,
            Problem::IntValueMustBePositive { field: name, value: 0 },
        ));
    }
}

proof fn lemma_scenario_parts_reported(
    s: ScenarioOutline,
    m: Option<MapOutline>,
    st: Option<StorageOutline>,
)
    ensures
        forall|f: Finding|
            scenario_head_findings(s).contains(f) || scenario_tail_findings(s).contains(f) || (
            s.stations@.len() == 0 && f == finding(
                field_path("scenario"@, "stations"@),
                Problem::EmptyCollection { collection: "stations"@ },
            )) ==> #[trigger] all_findings(s, m, st).contains(f),
{
    broadcast use lemma_found_in_concat;

    let all = all_findings(s, m, st);
    assert forall|f: Finding|
        scenario_head_findings(s).contains(f) || scenario_tail_findings(s).contains(f) || (
        s.stations@.len() == 0 && f == finding(
            field_path("scenario"@, "stations"@),
            Problem::EmptyCollection { collection: "stations"@ },
        )) implies #[trigger] all.contains(f) by {
        let empty_check = if s.stations@.len() == 0 {
            seq![
                finding(
                    field_path("scenario"@, "stations"@),
                    Problem::EmptyCollection { collection: "stations"@ },
                ),
            ]
        } else {
            Seq::<Finding>::empty()
        };
        if s.stations@.len() == 0 {
            assert(empty_check[0] == finding(
                field_path("scenario"@, "stations"@),
                Problem::EmptyCollection { collection: "stations"@ },
            ));
        }
        assert(scenario_findings(s) == scenario_head_findings(s) + empty_check + stations_findings(
            s.stations@,
            s.stations@.len(),
        ) + scenario_tail_findings(s));
        assert(scenario_findings(s).contains(f));
    }
}

proof fn lemma_head_pieces(s: ScenarioOutline)
    ensures
        forall|f: Finding|
            positive_check(
                field_path(field_path("scenario"@, "simulation"@), "duration_minutes"@),
                "duration_minutes"@,
                s.duration_minutes,
            ).contains(f) || non_negative_check(
                field_path(field_path("scenario"@, "simulation"@), "warmup_minutes"@),
                "warmup_minutes"@,
                s.warmup_minutes,
            ).contains(f) || count_check(
                field_path(field_path("scenario"@, "robots"@), "count"@),
                "count"@,
                s.robot_count,
            ).contains(f) || positive_check(
                field_path(field_path("scenario"@, "robots"@), "max_speed_mps"@),
                "max_speed_mps"@,
                s.max_speed_mps,
            ).contains(f) || positive_check(
                field_path(field_path("scenario"@, "robots"@), "max_payload_kg"@),
                "max_payload_kg"@,
                s.max_payload_kg,
            ).contains(f) ==> #[trigger] scenario_head_findings(s).contains(f),
{
    broadcast use lemma_found_in_concat;

}

proof fn lemma_tail_pieces(s: ScenarioOutline)
    ensures
        forall|f: Finding|
            positive_check(
                field_path(field_path("scenario"@, "orders"@), "arrival_process.rate_per_min"@),
                "rate_per_min"@,
                s.arrival_rate_per_min,
            ).contains(f) || positive_check(
                field_path(field_path("scenario"@, "orders"@), "lines_per_order.mean"@),
                "mean"@,
                s.lines_mean,
            ).contains(f) || positive_check(
                field_path(field_path("scenario"@, "orders"@), "lines_per_order.dispersion"@),
                "dispersion"@,
                s.lines_dispersion,
            ).contains(f) || positive_check(
                field_path(field_path("scenario"@, "orders"@), "sku_popularity.alpha"@),
                "alpha"@,
                s.sku_alpha,
            ).contains(f) || count_check(
                field_path(field_path("scenario"@, "traffic"@), "edge_capacity_default"@),
                "edge_capacity_default"@,
                s.edge_capacity_default,
            ).contains(f) || count_check(
                field_path(field_path("scenario"@, "traffic"@), "node_capacity_default"@),
                "node_capacity_default"@,
                s.node_capacity_default,
            ).contains(f) ==> #[trigger] scenario_tail_findings(s).contains(f),
{
    broadcast use lemma_found_in_concat;

}

/// A robot that cannot move is refused: whenever the robots' maximum speed
/// is zero or below, validation of the scenario (alone, or with whichever of
/// its map and storage are given) fails, and among its errors is one at
/// `scenario.robots.max_speed_mps` saying that `max_speed_mps` must be
/// positive, with the value as written.
pub proof fn law_nonpositive_speed_is_refused(
    s: ScenarioOutline,
    m: Option<MapOutline>,
    st: Option<StorageOutline>,
    r: Result<Vec<ValidationError>, Vec<ValidationError>>,
)
    requires
        s.max_speed_mps.spec_at_most_zero(),
        outcome_matches(r, all_findings(s, m, st)),
    ensures
        scenario_findings(s).contains(
            finding(
                "scenario.robots.max_speed_mps"@,
                Problem::ValueMustBePositive { field: "max_speed_mps"@, value: s.max_speed_mps.text@ },
            ),
        ),
        r matches Err(e) && findings(e@).contains(
            finding(
                "scenario.robots.max_speed_mps"@,
                Problem::ValueMustBePositive { field: "max_speed_mps"@, value: s.max_speed_mps.text@ },
            ),
        ),
{
    reveal_strlit("scenario.robots.max_speed_mps");
    reveal_strlit("scenario");
    reveal_strlit("robots");
    reveal_strlit("max_speed_mps");
    reveal_strlit(".");
    let f = finding(
        "scenario.robots.max_speed_mps"@,
        Problem::ValueMustBePositive { field: "max_speed_mps"@, value: s.max_speed_mps.text@ },
    );
    let robots = field_path("scenario"@, "robots"@);
    let sim = field_path("scenario"@, "simulation"@);
    assert(field_path(robots, "max_speed_mps"@) =~= "scenario.robots.max_speed_mps"@);
    let a = positive_check(field_path(sim, "duration_minutes"@), "duration_minutes"@, s.duration_minutes)
        + non_negative_check(field_path(sim, "warmup_minutes"@), "warmup_minutes"@, s.warmup_minutes)
        + count_check(field_path(robots, "count"@), "count"@, s.robot_count);
    let mid = positive_check(field_path(robots, "max_speed_mps"@), "max_speed_mps"@, s.max_speed_mps);
    assert(mid =~= seq![f]);
    let head = scenario_head_findings(s);
    assert(head =~= a + mid + positive_check(
        field_path(robots, "max_payload_kg"@),
        "max_payload_kg"@,
        s.max_payload_kg,
    ));
    assert(head[a.len() as int] == f);
    assert(head.contains(f));
    let sf = scenario_findings(s);
    assert(sf[a.len() as int] == f);
    assert(sf.contains(f));
    let all = all_findings(s, m, st);
    assert(all[a.len() as int] == f);
    assert(all.contains(f));
}

/// The value behind an optional reference.
pub open spec fn given<T>(o: Option<&T>) -> Option<T> {
    match o {
        Some(x) => Some(*x),
        None => None,
    }
}

/// The outcome of validation given its findings: no warnings when there is
/// no finding, the findings as errors otherwise.
pub open spec fn outcome_matches(
    r: Result<Vec<ValidationError>, Vec<ValidationError>>,
    found: Seq<Finding>,
) -> bool {
    match r {
        Ok(w) => found.len() == 0 && w@.len() == 0,
        Err(e) => found.len() > 0 && findings(e@) == found,
    }
}

/// Validates a scenario with its map and storage, where given. Returns the
/// warnings (there are none) when nothing is wrong, and every error found
/// otherwise, in the order of `all_findings`.
pub fn validate_scenario(
    scenario: &ScenarioOutline,
    map: Option<&MapOutline>,
    storage: Option<&StorageOutline>,
) -> (r: Result<Vec<ValidationError>, Vec<ValidationError>>)
    ensures
        outcome_matches(
            r,
            all_findings(*scenario, given(map), given(storage)),
        ),
{
    let mut ctx = ValidationErrors::new();
    assert(findings(ctx.errors@) =~= Seq::<Finding>::empty());
    validate_scenario_standalone(scenario, &mut ctx);
    let ghost e1 = findings(ctx.errors@);
    match map {
        Some(m) => validate_map_standalone(m, &mut ctx),
        None => {},
    }
    let ghost e2 = findings(ctx.errors@);
    match storage {
        Some(st) => validate_storage_standalone(st, &mut ctx),
        None => {},
    }
    let ghost e3 = findings(ctx.errors@);
    match (map, storage) {
        (Some(m), Some(st)) => validate_cross_references(scenario, m, st, &mut ctx),
        _ => {},
    }
    let ghost all = all_findings(*scenario, given(map), given(storage));
    assert(findings(ctx.errors@) =~= all);
    assert(findings(ctx.errors@).len() == ctx.errors@.len());
    ctx.into_result()
}

/// Validates a scenario that comes without map and storage files.
pub fn validate_scenario_only(scenario: &ScenarioOutline) -> (r: Result<
    Vec<ValidationError>,
    Vec<ValidationError>,
>)
    ensures
        outcome_matches(r, scenario_findings(*scenario)),
{
    let r = validate_scenario(scenario, None, None);
    assert(all_findings(*scenario, None, None) =~= scenario_findings(*scenario));
    r
}

} // verus!
