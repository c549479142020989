//! Root-cause analysis vocabulary: delay categories, order phases, report
//! formats, the reporter's settings and the parts of the text report that
//! carry no measurements.

use vstd::prelude::*;
use vstd::string::*;

use crate::text::{decimal, eq_ignore_case, matches_ignore_case, push_decimal, push_repeated, repeated};

verus! {

broadcast use {vstd::string::group_string_axioms, vstd::utf8::group_utf8_lib};

/// Categories of time spent during task execution.
#[derive(Clone, Copy, Debug, PartialEq, Eq, Structural, Hash)]
pub enum DelayCategory {
    /// Waiting for a robot to be assigned.
    RobotAssignment,
    /// Travel time to the pickup location.
    TravelToPickup,
    /// Travel time to the station or destination.
    TravelToStation,
    /// Waiting due to traffic congestion.
    CongestionWait,
    /// Waiting in queue at a station.
    StationQueue,
    /// Service time at a station.
    StationService,
    /// Detour for charging.
    ChargingDetour,
    /// Detour for scheduled maintenance.
    MaintenanceDetour,
    /// Recovery from a failure.
    FailureRecovery,
}

/// The human-readable name of a delay category.
pub open spec fn delay_category_name(c: DelayCategory) -> Seq<char> {
    match c {
        DelayCategory::RobotAssignment => "Robot Assignment Wait"@,
        DelayCategory::TravelToPickup => "Travel to Pickup"@,
        DelayCategory::TravelToStation => "Travel to Station"@,
        DelayCategory::CongestionWait => "Congestion Wait"@,
        DelayCategory::StationQueue => "Station Queue Wait"@,
        DelayCategory::StationService => "Station Service"@,
        DelayCategory::ChargingDetour => "Charging Detour"@,
        DelayCategory::MaintenanceDetour => "Maintenance Detour"@,
        DelayCategory::FailureRecovery => "Failure Recovery"@,
    }
}

/// The categories that are not productive time.
pub open spec fn is_waste_category(c: DelayCategory) -> bool {
    match c {
        DelayCategory::TravelToPickup | DelayCategory::TravelToStation
        | DelayCategory::StationService => false,
        _ => true,
    }
}

impl DelayCategory {
    /// All delay categories, in the order in which a task meets them.
    pub fn all() -> (r: Vec<DelayCategory>)
        ensures
            r@ == seq![
                DelayCategory::RobotAssignment,
                DelayCategory::TravelToPickup,
                DelayCategory::TravelToStation,
                DelayCategory::CongestionWait,
                DelayCategory::StationQueue,
                DelayCategory::StationService,
                DelayCategory::ChargingDetour,
                DelayCategory::MaintenanceDetour,
                DelayCategory::FailureRecovery,
            ],
    {
        let r = vec![
            DelayCategory::RobotAssignment,
            DelayCategory::TravelToPickup,
            DelayCategory::TravelToStation,
            DelayCategory::CongestionWait,
            DelayCategory::StationQueue,
            DelayCategory::StationService,
            DelayCategory::ChargingDetour,
            DelayCategory::MaintenanceDetour,
            DelayCategory::FailureRecovery,
        ];
        assert(r@ =~= seq![
            DelayCategory::RobotAssignment,
            DelayCategory::TravelToPickup,
            DelayCategory::TravelToStation,
            DelayCategory::CongestionWait,
            DelayCategory::StationQueue,
            DelayCategory::StationService,
            DelayCategory::ChargingDetour,
            DelayCategory::MaintenanceDetour,
            DelayCategory::FailureRecovery,
        ]);
        r
    }

    /// A human-readable name for the category.
    pub fn name(&self) -> (r: &'static str)
        ensures
            r@ == delay_category_name(*self),
    {
        match self {
            DelayCategory::RobotAssignment => "Robot Assignment Wait",
            DelayCategory::TravelToPickup => "Travel to Pickup",
            DelayCategory::TravelToStation => "Travel to Station",
            DelayCategory::CongestionWait => "Congestion Wait",
            DelayCategory::StationQueue => "Station Queue Wait",
            DelayCategory::StationService => "Station Service",
            DelayCategory::ChargingDetour => "Charging Detour",
            DelayCategory::MaintenanceDetour => "Maintenance Detour",
            DelayCategory::FailureRecovery => "Failure Recovery",
        }
    }

    /// Whether this category is waste, that is, time that is not productive.
    pub fn is_waste(&self) -> (r: bool)
        ensures
            r == is_waste_category(*self),
    {
        match self {
            DelayCategory::RobotAssignment | DelayCategory::CongestionWait
            | DelayCategory::StationQueue | DelayCategory::ChargingDetour
            | DelayCategory::MaintenanceDetour | DelayCategory::FailureRecovery => true,
            _ => false,
        }
    }
}

/// Phases of order processing for critical-path analysis.
#[derive(Clone, Copy, Debug, PartialEq, Eq, Structural, Hash)]
pub enum OrderPhase {
    /// Waiting for task creation or robot assignment.
    Assignment,
    /// Robot travelling to pickup.
    TravelToPickup,
    /// Robot travelling to station.
    TravelToStation,
    /// Waiting in queue at a station.
    QueueWait,
    /// Being served at a station.
    Service,
    /// Any detour (charging, maintenance, failure recovery).
    Detour,
}

/// The phase that time of a delay category counts toward.
pub open spec fn phase_of_category(c: DelayCategory) -> OrderPhase {
    match c {
        DelayCategory::RobotAssignment => OrderPhase::Assignment,
        DelayCategory::TravelToPickup => OrderPhase::TravelToPickup,
        DelayCategory::TravelToStation => OrderPhase::TravelToStation,
        DelayCategory::CongestionWait => OrderPhase::TravelToStation,
        DelayCategory::StationQueue => OrderPhase::QueueWait,
        DelayCategory::StationService => OrderPhase::Service,
        _ => OrderPhase::Detour,
    }
}

/// The human-readable name of an order phase.
pub open spec fn order_phase_name(p: OrderPhase) -> Seq<char> {
    match p {
        OrderPhase::Assignment => "Assignment"@,
        OrderPhase::TravelToPickup => "Travel to Pickup"@,
        OrderPhase::TravelToStation => "Travel to Station"@,
        OrderPhase::QueueWait => "Queue Wait"@,
        OrderPhase::Service => "Service"@,
        OrderPhase::Detour => "Detour"@,
    }
}

impl OrderPhase {
    /// Maps a delay category to the phase its time counts toward; congestion
    /// counts as travel to the station.
    pub fn from_delay_category(cat: &DelayCategory) -> (r: OrderPhase)
        ensures
            r == phase_of_category(*cat),
    {
        match cat {
            DelayCategory::RobotAssignment => OrderPhase::Assignment,
            DelayCategory::TravelToPickup => OrderPhase::TravelToPickup,
            DelayCategory::TravelToStation => OrderPhase::TravelToStation,
            DelayCategory::CongestionWait => OrderPhase::TravelToStation,
            DelayCategory::StationQueue => OrderPhase::QueueWait,
            DelayCategory::StationService => OrderPhase::Service,
            DelayCategory::ChargingDetour | DelayCategory::MaintenanceDetour
            | DelayCategory::FailureRecovery => OrderPhase::Detour,
        }
    }

    /// A human-readable name for the phase.
    pub fn name(&self) -> (r: &'static str)
        ensures
            r@ == order_phase_name(*self),
    {
        match self {
            OrderPhase::Assignment => "Assignment",
            OrderPhase::TravelToPickup => "Travel to Pickup",
            OrderPhase::TravelToStation => "Travel to Station",
            OrderPhase::QueueWait => "Queue Wait",
            OrderPhase::Service => "Service",
            OrderPhase::Detour => "Detour",
        }
    }

    /// All phases, in their usual order of execution.
    pub fn all() -> (r: Vec<OrderPhase>)
        ensures
            r@ == seq![
                OrderPhase::Assignment,
                OrderPhase::TravelToPickup,
                OrderPhase::TravelToStation,
                OrderPhase::QueueWait,
                OrderPhase::Service,
                OrderPhase::Detour,
            ],
    {
        let r = vec![
            OrderPhase::Assignment,
            OrderPhase::TravelToPickup,
            OrderPhase::TravelToStation,
            OrderPhase::QueueWait,
            OrderPhase::Service,
            OrderPhase::Detour,
        ];
        assert(r@ =~= seq![
            OrderPhase::Assignment,
            OrderPhase::TravelToPickup,
            OrderPhase::TravelToStation,
            OrderPhase::QueueWait,
            OrderPhase::Service,
            OrderPhase::Detour,
        ]);
        r
    }
}

/// Output format for reports.
#[derive(Clone, Copy, Debug, PartialEq, Eq, Structural)]
pub enum ReportFormat {
    /// Plain text.
    Text,
    /// JSON.
    Json,
    /// Compact text (summary only).
    Compact,
}

impl Default for ReportFormat {
    fn default() -> (r: Self)
        ensures
            r == ReportFormat::Text,
    {
        ReportFormat::Text
    }
}

/// The format that a name designates, compared without regard to case.
pub open spec fn parse_report_format(s: Seq<char>) -> Option<ReportFormat> {
    if eq_ignore_case(s, "text"@) || eq_ignore_case(s, "txt"@) {
        Some(ReportFormat::Text)
    } else if eq_ignore_case(s, "json"@) {
        Some(ReportFormat::Json)
    } else if eq_ignore_case(s, "compact"@) || eq_ignore_case(s, "summary"@) {
        Some(ReportFormat::Compact)
    } else {
        None
    }
}

impl ReportFormat {
    /// Parses a format name ("text"/"txt", "json", "compact"/"summary"), ignoring case.
    ///
    /// Letters are compared by ASCII case folding. Lower-casing any other
    /// character yields no letter of these names, so this agrees with full
    /// Unicode lower-casing.
    pub fn from_str(s: &str) -> (r: Option<Self>)
        ensures
            r == parse_report_format(s@),
    {
        proof {
            reveal_strlit("text");
            reveal_strlit("txt");
            reveal_strlit("json");
            reveal_strlit("compact");
            reveal_strlit("summary");
        }
        if matches_ignore_case(s, "text") || matches_ignore_case(s, "txt") {
            Some(ReportFormat::Text)
        } else if matches_ignore_case(s, "json") {
            Some(ReportFormat::Json)
        } else if matches_ignore_case(s, "compact") || matches_ignore_case(s, "summary") {
            Some(ReportFormat::Compact)
        } else {
            None
        }
    }
}

/// A recommendation produced by the analysis.
#[derive(Clone, Debug)]
pub struct Recommendation {
    /// Priority (1 = highest).
    pub priority: u32,
    /// Category of the recommendation.
    pub category: String,
    /// The recommendation text.
    pub text: String,
    /// Expected impact if implemented.
    pub expected_impact: String,
}

/// Generator of root-cause analysis reports.
pub struct RCAReporter {
    format: ReportFormat,
    include_recommendations: bool,
    include_anomalies: bool,
    max_bottlenecks: usize,
    max_anomalies: usize,
}

/// A horizontal rule of 70 copies of `c`.
pub open spec fn rule(c: Seq<char>) -> Seq<char> {
    repeated(c, 70)
}

/// The banner that opens a text report.
pub open spec fn report_header() -> Seq<char> {
    "\n"@ + rule("="@) + "\n"@ + "                     ROOT CAUSE ANALYSIS REPORT\n"@ + rule("="@)
        + "\n\n"@
}

/// The banner that closes a text report.
pub open spec fn report_footer() -> Seq<char> {
    "\n"@ + rule("="@) + "\n                         END OF REPORT\n"@ + rule("="@) + "\n"@
}

/// The text of one recommendation.
pub open spec fn recommendation_text(r: Recommendation) -> Seq<char> {
    "  [Priority "@ + decimal(r.priority as nat) + "] "@ + r.category@ + "\n"@ + "    Action: "@
        + r.text@ + "\n"@ + "    Impact: "@ + r.expected_impact@ + "\n\n"@
}

/// The texts of the recommendations, one after the other.
pub open spec fn recommendations_text(recs: Seq<Recommendation>) -> Seq<char>
    decreases recs.len(),
{
    if recs.len() == 0 {
        Seq::empty()
    } else {
        recommendations_text(recs.drop_last()) + recommendation_text(recs.last())
    }
}

/// The recommendations section of a text report.
pub open spec fn recommendations_section(recs: Seq<Recommendation>) -> Seq<char> {
    "RECOMMENDATIONS\n"@ + rule("-"@) + "\n\n"@ + recommendations_text(recs)
}

/// The first `i` anomaly lines, numbered from 1, each with its detail text.
pub open spec fn anomaly_lines(details: Seq<String>, i: int) -> Seq<char>
    decreases i,
{
    if i <= 0 {
        Seq::empty()
    } else {
        anomaly_lines(details, i - 1) + "  "@ + decimal(i as nat) + ". "@ + details[i - 1]@ + "\n"@
    }
}

/// The anomalies section of a text report: the number of anomalies, then
/// at most `max` of them, numbered, and a line with how many more there are
/// when there are more than `max`.
pub open spec fn anomalies_section(details: Seq<String>, max: nat) -> Seq<char> {
    let n = details.len();
    "ANOMALIES DETECTED\n"@ + rule("-"@) + "\n\n"@ + "  Total Anomalies: "@ + decimal(n) + "\n\n"@
        + if n == 0 {
        Seq::empty()
    } else {
        "  Details:\n"@ + anomaly_lines(details, if n < max {
            n as int
        } else {
            max as int
        }) + (if n > max {
            "  ... and "@ + decimal((n - max) as nat) + " more\n"@
        } else {
            Seq::empty()
        }) + "\n"@
    }
}

/// `s` cut to at most `max_len` bytes, with "..." marking a cut.
pub open spec fn truncated(s: &str, max_len: usize) -> Seq<char> {
    if s.spec_bytes().len() <= max_len {
        s@
    } else {
        vstd::utf8::decode_utf8(s.spec_bytes().subrange(0, max_len - 3)) + "..."@
    }
}

/// Cuts `s` to `max_len` bytes: a longer string keeps its first
/// `max_len - 3` bytes followed by "...".
pub fn truncate_str(s: &str, max_len: usize) -> (r: String)
    requires
        s.spec_bytes().len() > max_len ==> max_len >= 3 && vstd::utf8::is_char_boundary(
            s.spec_bytes(),
            (max_len - 3) as int,
        ),
    ensures
        r@ == truncated(s, max_len),
{
    let byte_len = s.as_bytes().len();
    if byte_len <= max_len {
        String::from_str(s)
    } else {
        let (head, _) = s.split_at(max_len - 3);
        proof {
            assert(head.spec_bytes() == s.spec_bytes().subrange(0, max_len - 3));
            vstd::utf8::encode_utf8_decode_utf8(head@);
            assert(vstd::utf8::decode_utf8(head.spec_bytes()) == head@);
        }
        let mut r = String::from_str(head);
        r.append("...");
        r
    }
}

impl RCAReporter {
    /// The output format.
    pub closed spec fn spec_format(&self) -> ReportFormat {
        self.format
    }

    /// Whether recommendations are included.
    pub closed spec fn spec_include_recommendations(&self) -> bool {
        self.include_recommendations
    }

    /// Whether anomalies are included.
    pub closed spec fn spec_include_anomalies(&self) -> bool {
        self.include_anomalies
    }

    /// The largest number of bottlenecks listed.
    pub closed spec fn spec_max_bottlenecks(&self) -> usize {
        self.max_bottlenecks
    }

    /// The largest number of anomalies listed.
    pub closed spec fn spec_max_anomalies(&self) -> usize {
        self.max_anomalies
    }

    /// A reporter with the default settings: text format, recommendations and
    /// anomalies included, at most 10 bottlenecks and 10 anomalies.
    pub fn new() -> (r: Self)
        ensures
            r.spec_format() == ReportFormat::Text,
            r.spec_include_recommendations(),
            r.spec_include_anomalies(),
            r.spec_max_bottlenecks() == 10,
            r.spec_max_anomalies() == 10,
    {
        RCAReporter {
            format: ReportFormat::Text,
            include_recommendations: true,
            include_anomalies: true,
            max_bottlenecks: 10,
            max_anomalies: 10,
        }
    }

    /// Sets the output format.
    pub fn with_format(self, format: ReportFormat) -> (r: Self)
        ensures
            r.spec_format() == format,
            r.spec_include_recommendations() == self.spec_include_recommendations(),
            r.spec_include_anomalies() == self.spec_include_anomalies(),
            r.spec_max_bottlenecks() == self.spec_max_bottlenecks(),
            r.spec_max_anomalies() == self.spec_max_anomalies(),
    {
        RCAReporter { format, ..self }
    }

    /// Sets whether recommendations are included.
    pub fn with_recommendations(self, enabled: bool) -> (r: Self)
        ensures
            r.spec_format() == self.spec_format(),
            r.spec_include_recommendations() == enabled,
            r.spec_include_anomalies() == self.spec_include_anomalies(),
            r.spec_max_bottlenecks() == self.spec_max_bottlenecks(),
            r.spec_max_anomalies() == self.spec_max_anomalies(),
    {
        RCAReporter { include_recommendations: enabled, ..self }
    }

    /// Sets whether anomalies are included.
    pub fn with_anomalies(self, enabled: bool) -> (r: Self)
        ensures
            r.spec_format() == self.spec_format(),
            r.spec_include_recommendations() == self.spec_include_recommendations(),
            r.spec_include_anomalies() == enabled,
            r.spec_max_bottlenecks() == self.spec_max_bottlenecks(),
            r.spec_max_anomalies() == self.spec_max_anomalies(),
    {
        RCAReporter { include_anomalies: enabled, ..self }
    }

    /// Sets the largest number of bottlenecks listed.
    pub fn with_max_bottlenecks(self, max: usize) -> (r: Self)
        ensures
            r.spec_format() == self.spec_format(),
            r.spec_include_recommendations() == self.spec_include_recommendations(),
            r.spec_include_anomalies() == self.spec_include_anomalies(),
            r.spec_max_bottlenecks() == max,
            r.spec_max_anomalies() == self.spec_max_anomalies(),
    {
        RCAReporter { max_bottlenecks: max, ..self }
    }

    /// Sets the largest number of anomalies listed.
    pub fn with_max_anomalies(self, max: usize) -> (r: Self)
        ensures
            r.spec_format() == self.spec_format(),
            r.spec_include_recommendations() == self.spec_include_recommendations(),
            r.spec_include_anomalies() == self.spec_include_anomalies(),
            r.spec_max_bottlenecks() == self.spec_max_bottlenecks(),
            r.spec_max_anomalies() == max,
    {
        RCAReporter { max_anomalies: max, ..self }
    }

    /// The output format.
    pub fn format(&self) -> (r: ReportFormat)
        ensures
            r == self.spec_format(),
    {
        self.format
    }

    /// Whether recommendations are included.
    pub fn include_recommendations(&self) -> (r: bool)
        ensures
            r == self.spec_include_recommendations(),
    {
        self.include_recommendations
    }

    /// Whether anomalies are included.
    pub fn include_anomalies(&self) -> (r: bool)
        ensures
            r == self.spec_include_anomalies(),
    {
        self.include_anomalies
    }

    /// The largest number of bottlenecks listed.
    pub fn max_bottlenecks(&self) -> (r: usize)
        ensures
            r == self.spec_max_bottlenecks(),
    {
        self.max_bottlenecks
    }

    /// The largest number of anomalies listed.
    pub fn max_anomalies(&self) -> (r: usize)
        ensures
            r == self.spec_max_anomalies(),
    {
        self.max_anomalies
    }

    /// The banner that opens a text report.
    pub fn text_header(&self) -> (r: String)
        ensures
            r@ == report_header(),
    {
        let mut s = String::new();
        s.append("\n");
        push_repeated(&mut s, "=", 70);
        s.append("\n");
        s.append("                     ROOT CAUSE ANALYSIS REPORT\n");
        push_repeated(&mut s, "=", 70);
        s.append("\n\n");
        assert(s@ =~= report_header());
        s
    }

    /// The banner that closes a text report.
    pub fn text_footer(&self) -> (r: String)
        ensures
            r@ == report_footer(),
    {
        let mut s = String::new();
        s.append("\n");
        push_repeated(&mut s, "=", 70);
        s.append("\n                         END OF REPORT\n");
        push_repeated(&mut s, "=", 70);
        s.append("\n");
        assert(s@ =~= report_footer());
        s
    }

    /// A whole text report from its measured sections (written by the
    /// caller, since they print real numbers): header, summary, delay
    /// attribution, bottlenecks and critical paths; then the anomalies
    /// section when anomalies are included and there is one at least
    /// (`anomaly_count`); then the recommendations when they are included
    /// and there are any; then the footer.
    pub fn assemble_text(
        &self,
        summary: &str,
        delay_attribution: &str,
        bottlenecks: &str,
        critical_paths: &str,
        anomalies: &str,
        anomaly_count: usize,
        recommendations: &[Recommendation],
    ) -> (r: String)
        ensures
            r@ == report_header() + summary@ + delay_attribution@ + bottlenecks@ + critical_paths@
                + (if self.spec_include_anomalies() && anomaly_count > 0 {
                anomalies@
            } else {
                Seq::<char>::empty()
            }) + (if self.spec_include_recommendations() && recommendations@.len() > 0 {
                recommendations_section(recommendations@)
            } else {
                Seq::<char>::empty()
            }) + report_footer(),
    {
        let mut output = self.text_header();
        output.append(summary);
        output.append(delay_attribution);
        output.append(bottlenecks);
        output.append(critical_paths);
        if self.include_anomalies && anomaly_count > 0 {
            output.append(anomalies);
        }
        if self.include_recommendations && recommendations.len() > 0 {
            let section = self.text_recommendations(recommendations);
            output.append(section.as_str());
        }
        let footer = self.text_footer();
        output.append(footer.as_str());
        output
    }

    /// The anomalies section of a text report. `details[i]` is the text
    /// that describes anomaly `i` (its severity and description, which
    /// print real numbers); the section lists at most `max_anomalies` of
    /// them and says how many more there are.
    pub fn text_anomalies(&self, details: &[String]) -> (r: String)
        ensures
            r@ == anomalies_section(details@, self.spec_max_anomalies() as nat),
    {
        let mut s = String::new();
        s.append("ANOMALIES DETECTED\n");
        push_repeated(&mut s, "-", 70);
        s.append("\n\n");
        s.append("  Total Anomalies: ");
        push_decimal(&mut s, details.len() as u64);
        s.append("\n\n");
        let n = details.len();
        let max = self.max_anomalies;
        if n > 0 {
            s.append("  Details:\n");
            let shown: usize = if n < max {
                n
            } else {
                max
            };
            let ghost head = s@;
            let mut i: usize = 0;
            while i < shown
                invariant
                    i <= shown,
                    shown <= details@.len(),
                    s@ == head + anomaly_lines(details@, i as int),
                decreases shown - i,
            {
                s.append("  ");
                push_decimal(&mut s, (i + 1) as u64);
                s.append(". ");
                s.append(details[i].as_str());
                s.append("\n");
                i = i + 1;
                assert(s@ =~= head + anomaly_lines(details@, i as int));
            }
            if n > max {
                s.append("  ... and ");
                push_decimal(&mut s, (n - max) as u64);
                s.append(" more\n");
            }
            s.append("\n");
        }
        assert(s@ =~= anomalies_section(details@, max as nat));
        s
    }

    /// The recommendations section of a text report.
    pub fn text_recommendations(&self, recommendations: &[Recommendation]) -> (r: String)
        ensures
            r@ == recommendations_section(recommendations@),
    {
        let mut s = String::new();
        s.append("RECOMMENDATIONS\n");
        push_repeated(&mut s, "-", 70);
        s.append("\n\n");
        let ghost head = s@;
        let mut i: usize = 0;
        while i < recommendations.len()
            invariant
                i <= recommendations@.len(),
                s@ == head + recommendations_text(recommendations@.subrange(0, i as int)),
            decreases recommendations@.len() - i,
        {
            let rec = &recommendations[i];
            s.append("  [Priority ");
            push_decimal(&mut s, rec.priority as u64);
            s.append("] ");
            s.append(rec.category.as_str());
            s.append("\n");
            s.append("    Action: ");
            s.append(rec.text.as_str());
            s.append("\n");
            s.append("    Impact: ");
            s.append(rec.expected_impact.as_str());
            s.append("\n\n");
            proof {
                let sub = recommendations@.subrange(0, i + 1);
                assert(sub.drop_last() =~= recommendations@.subrange(0, i as int));
                assert(sub.last() == *rec);
            }
            i = i + 1;
            assert(s@ =~= head + recommendations_text(recommendations@.subrange(0, i as int)));
        }
        assert(recommendations@.subrange(0, recommendations@.len() as int) =~= recommendations@);
        assert(s@ =~= recommendations_section(recommendations@));
        s
    }
}

impl Default for RCAReporter {
    fn default() -> (r: Self)
        ensures
            r.spec_format() == ReportFormat::Text,
            r.spec_include_recommendations(),
            r.spec_include_anomalies(),
            r.spec_max_bottlenecks() == 10,
            r.spec_max_anomalies() == 10,
    {
        RCAReporter::new()
    }
}

/// What kind of bottleneck was detected (its measurements stay with the
/// caller).
#[derive(Clone, Copy, Debug, PartialEq, Eq, Structural)]
pub enum BottleneckKind {
    CongestedNode,
    CongestedEdge,
    OverloadedStation,
    UnderutilizedStation,
    ChargingContention,
    UnderutilizedRobots,
    InsufficientRobots,
}

/// The human-readable name of a bottleneck kind.
pub open spec fn bottleneck_name(k: BottleneckKind) -> Seq<char> {
    match k {
        BottleneckKind::CongestedNode => "Congested Node"@,
        BottleneckKind::CongestedEdge => "Congested Edge"@,
        BottleneckKind::OverloadedStation => "Overloaded Station"@,
        BottleneckKind::UnderutilizedStation => "Underutilized Station"@,
        BottleneckKind::ChargingContention => "Charging Contention"@,
        BottleneckKind::UnderutilizedRobots => "Underutilized Robots"@,
        BottleneckKind::InsufficientRobots => "Insufficient Robots"@,
    }
}

/// What a bottleneck concerns.
#[derive(Clone, Copy, Debug, PartialEq, Eq, Structural)]
pub enum BottleneckClass {
    /// A congested node or edge.
    Congestion,
    /// A station or charging station.
    Station,
    /// The robot fleet.
    Robots,
}

/// What a bottleneck of kind `k` concerns.
pub open spec fn class_of(k: BottleneckKind) -> BottleneckClass {
    match k {
        BottleneckKind::CongestedNode | BottleneckKind::CongestedEdge => BottleneckClass::Congestion,
        BottleneckKind::OverloadedStation | BottleneckKind::UnderutilizedStation
        | BottleneckKind::ChargingContention => BottleneckClass::Station,
        BottleneckKind::UnderutilizedRobots | BottleneckKind::InsufficientRobots =>
            BottleneckClass::Robots,
    }
}

/// How many kinds of `s` concern `c`.
pub open spec fn count_of_class(s: Seq<BottleneckKind>, c: BottleneckClass) -> nat
    decreases s.len(),
{
    if s.len() == 0 {
        0
    } else {
        count_of_class(s.drop_last(), c) + if class_of(s.last()) == c {
            1nat
        } else {
            0nat
        }
    }
}

impl BottleneckKind {
    /// A human-readable name for the kind.
    pub fn name(&self) -> (r: &'static str)
        ensures
            r@ == bottleneck_name(*self),
    {
        match self {
            BottleneckKind::CongestedNode => "Congested Node",
            BottleneckKind::CongestedEdge => "Congested Edge",
            BottleneckKind::OverloadedStation => "Overloaded Station",
            BottleneckKind::UnderutilizedStation => "Underutilized Station",
            BottleneckKind::ChargingContention => "Charging Contention",
            BottleneckKind::UnderutilizedRobots => "Underutilized Robots",
            BottleneckKind::InsufficientRobots => "Insufficient Robots",
        }
    }

    /// What the kind concerns.
    pub fn class(&self) -> (r: BottleneckClass)
        ensures
            r == class_of(*self),
    {
        match self {
            BottleneckKind::CongestedNode | BottleneckKind::CongestedEdge =>
                BottleneckClass::Congestion,
            BottleneckKind::OverloadedStation | BottleneckKind::UnderutilizedStation
            | BottleneckKind::ChargingContention => BottleneckClass::Station,
            BottleneckKind::UnderutilizedRobots | BottleneckKind::InsufficientRobots =>
                BottleneckClass::Robots,
        }
    }
}

/// How many of `kinds` concern congestion, stations and the robot fleet.
pub fn count_by_class(kinds: &[BottleneckKind]) -> (r: (usize, usize, usize))
    ensures
        r.0 == count_of_class(kinds@, BottleneckClass::Congestion),
        r.1 == count_of_class(kinds@, BottleneckClass::Station),
        r.2 == count_of_class(kinds@, BottleneckClass::Robots),
        r.0 + r.1 + r.2 == kinds@.len(),
{
    let mut congestion: usize = 0;
    let mut station: usize = 0;
    let mut robots: usize = 0;
    let mut i: usize = 0;
    while i < kinds.len()
        invariant
            i <= kinds@.len(),
            congestion == count_of_class(kinds@.take(i as int), BottleneckClass::Congestion),
            station == count_of_class(kinds@.take(i as int), BottleneckClass::Station),
            robots == count_of_class(kinds@.take(i as int), BottleneckClass::Robots),
            congestion + station + robots == i,
        decreases kinds@.len() - i,
    {
        assert(kinds@.take(i + 1).drop_last() =~= kinds@.take(i as int));
        match kinds[i].class() {
            BottleneckClass::Congestion => congestion = congestion + 1,
            BottleneckClass::Station => station = station + 1,
            BottleneckClass::Robots => robots = robots + 1,
        }
        i = i + 1;
    }
    assert(kinds@.take(kinds@.len() as int) =~= kinds@);
    (congestion, station, robots)
}

/// What kind of anomaly was detected (its measurements stay with the
/// caller).
#[derive(Clone, Copy, Debug, PartialEq, Eq, Structural)]
pub enum AnomalyKind {
    SlowOrder,
    StationQueueSpike,
    RobotAnomaly,
    ThroughputDrop,
    CongestionSpike,
}

/// The human-readable name of an anomaly kind.
pub open spec fn anomaly_name(k: AnomalyKind) -> Seq<char> {
    match k {
        AnomalyKind::SlowOrder => "Slow Order"@,
        AnomalyKind::StationQueueSpike => "Station Queue Spike"@,
        AnomalyKind::RobotAnomaly => "Robot Anomaly"@,
        AnomalyKind::ThroughputDrop => "Throughput Drop"@,
        AnomalyKind::CongestionSpike => "Congestion Spike"@,
    }
}

impl AnomalyKind {
    /// A human-readable name for the kind.
    pub fn name(&self) -> (r: &'static str)
        ensures
            r@ == anomaly_name(*self),
    {
        match self {
            AnomalyKind::SlowOrder => "Slow Order",
            AnomalyKind::StationQueueSpike => "Station Queue Spike",
            AnomalyKind::RobotAnomaly => "Robot Anomaly",
            AnomalyKind::ThroughputDrop => "Throughput Drop",
            AnomalyKind::CongestionSpike => "Congestion Spike",
        }
    }
}

/// The area a recommendation for a bottleneck of kind `k` belongs to.
pub open spec fn bottleneck_category(k: BottleneckKind) -> Seq<char> {
    match k {
        BottleneckKind::CongestedNode | BottleneckKind::CongestedEdge => "Traffic Flow"@,
        BottleneckKind::OverloadedStation => "Station Capacity"@,
        BottleneckKind::UnderutilizedStation => "Resource Optimization"@,
        BottleneckKind::ChargingContention => "Charging Infrastructure"@,
        BottleneckKind::UnderutilizedRobots => "Fleet Optimization"@,
        BottleneckKind::InsufficientRobots => "Fleet Sizing"@,
    }
}

/// The expected impact of acting on a bottleneck of kind `k`.
pub open spec fn bottleneck_impact(k: BottleneckKind) -> Seq<char> {
    match k {
        BottleneckKind::CongestedNode | BottleneckKind::CongestedEdge =>
            "Reduce congestion delays by 20-40%"@,
        BottleneckKind::OverloadedStation => "Reduce queue wait times by 30-50%"@,
        BottleneckKind::UnderutilizedStation => "Improve overall efficiency by 10-20%"@,
        BottleneckKind::ChargingContention => "Reduce charging-related delays by 20-30%"@,
        BottleneckKind::UnderutilizedRobots => "Reduce operating costs by 15-25%"@,
        BottleneckKind::InsufficientRobots => "Improve throughput by 20-40%"@,
    }
}

/// The advice against waste of category `c`.
pub open spec fn waste_advice(c: DelayCategory) -> Seq<char> {
    match c {
        DelayCategory::RobotAssignment =>
            "Consider adding more robots or optimizing task allocation policy"@,
        DelayCategory::CongestionWait => "Implement traffic management or rerouting policies"@,
        DelayCategory::StationQueue =>
            "Add parallel capacity at busy stations or improve load balancing"@,
        _ => "Review and optimize operational processes"@,
    }
}

/// The first waste category of `s`, if any.
pub open spec fn first_waste(s: Seq<DelayCategory>) -> Option<DelayCategory>
    decreases s.len(),
{
    if s.len() == 0 {
        None
    } else if is_waste_category(s[0]) {
        Some(s[0])
    } else {
        first_waste(s.drop_first())
    }
}

/// A recommendation as its priority and its texts.
pub open spec fn rec_view(r: Recommendation) -> (u32, Seq<char>, Seq<char>, Seq<char>) {
    (r.priority, r.category@, r.text@, r.expected_impact@)
}

/// The recommendations drawn from the first (at most) three bottlenecks,
/// each with its own text, numbered from 1.
pub open spec fn bottleneck_recommendations(b: Seq<(BottleneckKind, String)>) -> Seq<
    (u32, Seq<char>, Seq<char>, Seq<char>),
> {
    let n = if b.len() < 3 {
        b.len()
    } else {
        3
    };
    Seq::new(
        n,
        |i: int| ((i + 1) as u32, bottleneck_category(b[i].0), b[i].1@, bottleneck_impact(b[i].0)),
    )
}

/// The recommendations of a root-cause analysis, by priority: one for each
/// of the first three bottlenecks; then, when waste is high (`waste`), one
/// against the first waste category; then, when many orders are slow
/// (`slow`), one naming the most common critical phase.
pub open spec fn planned_recommendations(
    b: Seq<(BottleneckKind, String)>,
    waste: Option<DelayCategory>,
    slow: Option<OrderPhase>,
) -> Seq<(u32, Seq<char>, Seq<char>, Seq<char>)> {
    let first = bottleneck_recommendations(b);
    let second = match waste {
        Some(c) => seq![
            ((first.len() + 1) as u32, "Waste Reduction"@, waste_advice(c), "Reduce waste time by 20-30%"@),
        ],
        None => Seq::empty(),
    };
    let n = first.len() + second.len();
    let third = match slow {
        Some(p) => seq![
            (
                (n + 1) as u32,
                "Order Fulfillment"@,
                "Investigate slow orders. Most impacted phase: "@ + order_phase_name(p),
                "Improve cycle time consistency by 15-25%"@,
            ),
        ],
        None => Seq::empty(),
    };
    first + second + third
}

fn bottleneck_texts(k: BottleneckKind) -> (r: (&'static str, &'static str))
    ensures
        r.0@ == bottleneck_category(k),
        r.1@ == bottleneck_impact(k),
{
    match k {
        BottleneckKind::CongestedNode | BottleneckKind::CongestedEdge => (
            "Traffic Flow",
            "Reduce congestion delays by 20-40%",
        ),
        BottleneckKind::OverloadedStation => ("Station Capacity", "Reduce queue wait times by 30-50%"),
        BottleneckKind::UnderutilizedStation => (
            "Resource Optimization",
            "Improve overall efficiency by 10-20%",
        ),
        BottleneckKind::ChargingContention => (
            "Charging Infrastructure",
            "Reduce charging-related delays by 20-30%",
        ),
        BottleneckKind::UnderutilizedRobots => (
            "Fleet Optimization",
            "Reduce operating costs by 15-25%",
        ),
        BottleneckKind::InsufficientRobots => ("Fleet Sizing", "Improve throughput by 20-40%"),
    }
}

fn waste_advice_text(c: DelayCategory) -> (r: &'static str)
    ensures
        r@ == waste_advice(c),
{
    match c {
        DelayCategory::RobotAssignment =>
            "Consider adding more robots or optimizing task allocation policy",
        DelayCategory::CongestionWait => "Implement traffic management or rerouting policies",
        DelayCategory::StationQueue =>
            "Add parallel capacity at busy stations or improve load balancing",
        _ => "Review and optimize operational processes",
    }
}

/// The first waste category of `ranked`, if any.
fn find_first_waste(ranked: &[DelayCategory]) -> (r: Option<DelayCategory>)
    ensures
        r == first_waste(ranked@),
{
    let mut i: usize = 0;
    assert(ranked@.subrange(0, ranked@.len() as int) =~= ranked@);
    while i < ranked.len()
        invariant
            i <= ranked@.len(),
            first_waste(ranked@) == first_waste(ranked@.subrange(i as int, ranked@.len() as int)),
        decreases ranked@.len() - i,
    {
        let ghost rest = ranked@.subrange(i as int, ranked@.len() as int);
        assert(rest.drop_first() =~= ranked@.subrange(i + 1, ranked@.len() as int));
        if ranked[i].is_waste() {
            return Some(ranked[i]);
        }
        i = i + 1;
    }
    assert(ranked@.subrange(i as int, ranked@.len() as int) =~= Seq::<DelayCategory>::empty());
    None
}

/// The recommendations of a root-cause analysis, by priority.
///
/// `bottlenecks` lists the detected bottlenecks, most severe first, each
/// with the text of its own recommendation. `waste_ratio_high` says whether
/// the share of waste time is above 30%; the recommendation against waste
/// then concerns the first waste category of `ranked_categories`.
/// `slow_share_high` says whether more than 5% of orders are slow; with at
/// least one slow order, a recommendation then names
/// `most_common_critical_phase`. (The shares are real numbers that the
/// caller compares.)
pub fn generate_recommendations(
    bottlenecks: &[(BottleneckKind, String)],
    ranked_categories: &[DelayCategory],
    waste_ratio_high: bool,
    slow_order_count: usize,
    slow_share_high: bool,
    most_common_critical_phase: OrderPhase,
) -> (r: Vec<Recommendation>)
    ensures
        r@.map_values(|x: Recommendation| rec_view(x)) == planned_recommendations(
            bottlenecks@,
            if waste_ratio_high {
                first_waste(ranked_categories@)
            } else {
                None
            },
            if slow_order_count > 0 && slow_share_high {
                Some(most_common_critical_phase)
            } else {
                None
            },
        ),
{
    let mut recommendations: Vec<Recommendation> = Vec::new();
    let mut priority: u32 = 1;
    let n: usize = if bottlenecks.len() < 3 {
        bottlenecks.len()
    } else {
        3
    };
    let ghost first = bottleneck_recommendations(bottlenecks@);
    let mut i: usize = 0;
    while i < n
        invariant
            n <= bottlenecks@.len(),
            n <= 3,
            n == first.len(),
            first == bottleneck_recommendations(bottlenecks@),
            i <= n,
            priority == i + 1,
            recommendations@.map_values(|x: Recommendation| rec_view(x)) == first.take(i as int),
        decreases n - i,
    {
        let (category, impact) = bottleneck_texts(bottlenecks[i].0);
        let text = bottlenecks[i].1.clone();
        let ghost before = recommendations@;
        recommendations.push(
            Recommendation {
                priority,
                category: category.to_string(),
                text,
                expected_impact: impact.to_string(),
            },
        );
        proof {
            assert(recommendations@.map_values(|x: Recommendation| rec_view(x)) =~= before.map_values(
                |x: Recommendation| rec_view(x),
            ).push(first[i as int]));
            assert(first.take(i + 1) =~= first.take(i as int).push(first[i as int]));
        }
        priority = priority + 1;
        i = i + 1;
    }
    assert(first.take(n as int) =~= first);
    let ghost waste = if waste_ratio_high {
        first_waste(ranked_categories@)
    } else {
        None
    };
    if waste_ratio_high {
        match find_first_waste(ranked_categories) {
            Some(cat) => {
                let ghost before = recommendations@;
                recommendations.push(
                    Recommendation {
                        priority,
                        category: "Waste Reduction".to_string(),
                        text: waste_advice_text(cat).to_string(),
                        expected_impact: "Reduce waste time by 20-30%".to_string(),
                    },
                );
                proof {
                    assert(recommendations@.map_values(|x: Recommendation| rec_view(x))
                        =~= before.map_values(|x: Recommendation| rec_view(x)).push(
                        (
                            priority,
                            "Waste Reduction"@,
                            waste_advice(cat),
                            "Reduce waste time by 20-30%"@,
                        ),
                    ));
                }
                priority = priority + 1;
            },
            None => {},
        }
    }
    let ghost second = match waste {
        Some(c) => seq![
            ((first.len() + 1) as u32, "Waste Reduction"@, waste_advice(c), "Reduce waste time by 20-30%"@),
        ],
        None => Seq::<(u32, Seq<char>, Seq<char>, Seq<char>)>::empty(),
    };
    assert(recommendations@.map_values(|x: Recommendation| rec_view(x)) =~= first + second);
    assert(priority == first.len() + second.len() + 1);
    if slow_order_count > 0 && slow_share_high {
        let mut text = "Investigate slow orders. Most impacted phase: ".to_string();
        text.append(most_common_critical_phase.name());
        let ghost before = recommendations@;
        recommendations.push(
            Recommendation {
                priority,
                category: "Order Fulfillment".to_string(),
                text,
                expected_impact: "Improve cycle time consistency by 15-25%".to_string(),
            },
        );
        proof {
            assert(recommendations@.map_values(|x: Recommendation| rec_view(x)) =~= before.map_values(
                |x: Recommendation| rec_view(x),
            ).push(
                (
                    priority,
                    "Order Fulfillment"@,
                    "Investigate slow orders. Most impacted phase: "@ + order_phase_name(
                        most_common_critical_phase,
                    ),
                    "Improve cycle time consistency by 15-25%"@,
                ),
            ));
        }
    }
    recommendations
}

/// The place of a phase in the usual order of execution.
pub open spec fn phase_rank(p: OrderPhase) -> int {
    match p {
        OrderPhase::Assignment => 0,
        OrderPhase::TravelToPickup => 1,
        OrderPhase::TravelToStation => 2,
        OrderPhase::QueueWait => 3,
        OrderPhase::Service => 4,
        OrderPhase::Detour => 5,
    }
}

/// The phase at place `k` of the usual order of execution.
pub open spec fn phase_at(k: int) -> OrderPhase {
    if k == 0 {
        OrderPhase::Assignment
    } else if k == 1 {
        OrderPhase::TravelToPickup
    } else if k == 2 {
        OrderPhase::TravelToStation
    } else if k == 3 {
        OrderPhase::QueueWait
    } else if k == 4 {
        OrderPhase::Service
    } else {
        OrderPhase::Detour
    }
}

/// How often `p` occurs in `s`.
pub open spec fn phase_count(s: Seq<OrderPhase>, p: OrderPhase) -> nat
    decreases s.len(),
{
    if s.len() == 0 {
        0
    } else {
        phase_count(s.drop_last(), p) + if s.last() == p {
            1nat
        } else {
            0nat
        }
    }
}

fn rank_of(p: OrderPhase) -> (r: usize)
    ensures
        r == phase_rank(p),
{
    match p {
        OrderPhase::Assignment => 0,
        OrderPhase::TravelToPickup => 1,
        OrderPhase::TravelToStation => 2,
        OrderPhase::QueueWait => 3,
        OrderPhase::Service => 4,
        OrderPhase::Detour => 5,
    }
}

fn phase_at_rank(k: usize) -> (r: OrderPhase)
    requires
        k < 6,
    ensures
        r == phase_at(k as int),
        phase_rank(r) == k,
{
    if k == 0 {
        OrderPhase::Assignment
    } else if k == 1 {
        OrderPhase::TravelToPickup
    } else if k == 2 {
        OrderPhase::TravelToStation
    } else if k == 3 {
        OrderPhase::QueueWait
    } else if k == 4 {
        OrderPhase::Service
    } else {
        OrderPhase::Detour
    }
}

/// The phase that is most often the critical one among `critical`; of
/// phases equally often critical, the one first in the usual order of
/// execution (so `Assignment` when `critical` is empty).
pub fn most_common_phase(critical: &[OrderPhase]) -> (r: OrderPhase)
    ensures
        forall|p: OrderPhase| phase_count(critical@, r) >= #[trigger] phase_count(critical@, p),
        forall|p: OrderPhase|
            phase_rank(p) < phase_rank(r) ==> #[trigger] phase_count(critical@, p) < phase_count(
                critical@,
                r,
            ),
{
    let mut counts: Vec<usize> = vec![0, 0, 0, 0, 0, 0];
    let mut i: usize = 0;
    while i < critical.len()
        invariant
            i <= critical@.len(),
            counts@.len() == 6,
            forall|k: int|
                0 <= k < 6 ==> #[trigger] counts@[k] == phase_count(
                    critical@.take(i as int),
                    phase_at(k),
                ),
            forall|k: int| 0 <= k < 6 ==> counts@[k] <= i,
        decreases critical@.len() - i,
    {
        let k = rank_of(critical[i]);
        proof {
            let t = critical@.take(i + 1);
            assert(t.drop_last() =~= critical@.take(i as int));
            assert(t.last() == critical@[i as int]);
            assert forall|m: int| 0 <= m < 6 implies (phase_at(m) == critical@[i as int] <==> m
                == k) by {}
        }
        let c = counts[k];
        counts.set(k, c + 1);
        i = i + 1;
    }
    assert(critical@.take(critical@.len() as int) =~= critical@);
    let mut best: usize = 0;
    let mut k: usize = 1;
    while k < 6
        invariant
            counts@.len() == 6,
            1 <= k <= 6,
            best < k,
            forall|m: int| 0 <= m < 6 ==> #[trigger] counts@[m] == phase_count(critical@, phase_at(m)),
            forall|m: int| 0 <= m < k ==> counts@[best as int] >= #[trigger] counts@[m],
            forall|m: int| 0 <= m < best ==> counts@[best as int] > #[trigger] counts@[m],
        decreases 6 - k,
    {
        if counts[k] > counts[best] {
            best = k;
        }
        k = k + 1;
    }
    let r = phase_at_rank(best);
    proof {
        assert forall|p: OrderPhase| phase_count(critical@, r) >= #[trigger] phase_count(
            critical@,
            p,
        ) by {
            assert(phase_at(phase_rank(p)) == p);
            assert(counts@[phase_rank(p)] == phase_count(critical@, p));
        }
        assert forall|p: OrderPhase|
            phase_rank(p) < phase_rank(r) implies #[trigger] phase_count(critical@, p)
            < phase_count(critical@, r) by {
            assert(phase_at(phase_rank(p)) == p);
            assert(counts@[phase_rank(p)] == phase_count(critical@, p));
        }
    }
    r
}

} // verus!
