//! Metrics settings: which exports to write, how the event log flushes, and
//! the HTML report generator's settings.

use vstd::prelude::*;
use vstd::string::*;

use crate::html_template::DEFAULT_TEMPLATE;

verus! {

/// Which exports to write.
#[derive(Clone, Copy, Debug, Default)]
pub struct ExportOptions {
    pub robots: bool,
    pub stations: bool,
    pub heatmap: bool,
    pub timeseries: bool,
    pub trace: bool,
    pub json: bool,
}

impl ExportOptions {
    /// Every export enabled.
    pub fn all() -> (r: Self)
        ensures
            r.robots && r.stations && r.heatmap && r.timeseries && r.trace && r.json,
    {
        ExportOptions {
            robots: true,
            stations: true,
            heatmap: true,
            timeseries: true,
            trace: true,
            json: true,
        }
    }
}

/// Event log settings.
#[derive(Clone, Copy, Debug)]
pub struct EventLogConfig {
    /// Events between flushes.
    pub flush_every: usize,
    /// Largest log size in bytes (0 for no limit).
    pub max_size_bytes: u64,
    /// Whether to compress.
    pub compress: bool,
}

impl Default for EventLogConfig {
    /// Flush every 1000 events, no size limit, no compression.
    fn default() -> (r: Self)
        ensures
            r.flush_every == 1000,
            r.max_size_bytes == 0,
            !r.compress,
    {
        EventLogConfig { flush_every: 1000, max_size_bytes: 0, compress: false }
    }
}

/// Settings of the HTML report generator: its template and whether charts
/// are embedded.
pub struct HtmlReportGenerator {
    template: String,
    include_charts: bool,
}

impl HtmlReportGenerator {
    /// The template the report is rendered from.
    pub closed spec fn spec_template(&self) -> Seq<char> {
        self.template@
    }

    /// Whether charts are embedded.
    pub closed spec fn spec_charts(&self) -> bool {
        self.include_charts
    }

    /// A generator with the built-in template and charts embedded.
    pub fn new() -> (r: Self)
        ensures
            r.spec_template() == DEFAULT_TEMPLATE@,
            r.spec_charts(),
    {
        HtmlReportGenerator { template: String::from_str(DEFAULT_TEMPLATE), include_charts: true }
    }

    /// Sets whether charts are embedded.
    pub fn with_charts(self, enabled: bool) -> (r: Self)
        ensures
            r.spec_template() == self.spec_template(),
            r.spec_charts() == enabled,
    {
        HtmlReportGenerator { include_charts: enabled, ..self }
    }

    /// The template the report is rendered from.
    pub fn template(&self) -> (r: &str)
        ensures
            r@ == self.spec_template(),
    {
        self.template.as_str()
    }

    /// Whether charts are embedded.
    pub fn charts(&self) -> (r: bool)
        ensures
            r == self.spec_charts(),
    {
        self.include_charts
    }
}

} // verus!
