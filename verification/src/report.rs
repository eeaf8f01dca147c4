//! What is reported of a sweep: the charts, the table and the summary.

use crate::bench::Engine;
use crate::text;
use vstd::prelude::*;

verus! {

/// Which sweep a sample belongs to.
#[derive(Debug, Clone, Copy, PartialEq, Eq, Structural)]
pub enum Sweep {
    Concurrency,
    Size,
}

/// What is read off a sample.
#[derive(Debug, Clone, Copy, PartialEq, Eq, Structural)]
pub enum Metric {
    /// Median latency.
    P50,
    /// Tail latency.
    P99,
    /// Mean latency.
    Mean,
    /// CPU cores in use.
    Cores,
    /// Requests per second.
    Rps,
    /// Request-body throughput.
    MibPerSecond,
    /// Body size.
    BodyBytes,
}

/// How the numbers on an axis read.
#[derive(Debug, Clone, Copy, PartialEq, Eq, Structural)]
pub enum Unit {
    Count,
    ByteSize,
    Millis,
    Cores,
    Rate,
    MibPerSecond,
}

/// A colour, as red, green and blue.
#[derive(Debug, Clone, Copy, PartialEq, Eq, Structural)]
pub struct Colour {
    pub red: u8,
    pub green: u8,
    pub blue: u8,
}

/// The colour of an engine, so that a series means the same thing in every
/// chart.
pub open spec fn engine_colour(engine: Engine) -> Colour {
    match engine {
        Engine::Httpsys => Colour { red: 0, green: 114, blue: 198 },
        Engine::Axum => Colour { red: 214, green: 73, blue: 55 },
    }
}

/// The colour of an engine in every chart.
pub fn color_of(engine: Engine) -> (r: Colour)
    ensures
        r == engine_colour(engine),
{
    match engine {
        Engine::Httpsys => Colour { red: 0, green: 114, blue: 198 },
        Engine::Axum => Colour { red: 214, green: 73, blue: 55 },
    }
}

/// One line of a chart.
#[derive(Debug)]
pub struct SeriesPlan {
    pub engine: Engine,
    pub metric: Metric,
    pub name: String,
    pub color: Colour,
    /// Dashed lines are used for the tail-latency companion of a solid median.
    pub dashed: bool,
}

/// What a [`SeriesPlan`] says.
#[verifier::ext_equal]
pub struct SeriesView {
    pub engine: Engine,
    pub metric: Metric,
    pub name: Seq<char>,
    pub color: Colour,
    pub dashed: bool,
}

impl View for SeriesPlan {
    type V = SeriesView;

    open spec fn view(&self) -> SeriesView {
        SeriesView {
            engine: self.engine,
            metric: self.metric,
            name: self.name@,
            color: self.color,
            dashed: self.dashed,
        }
    }
}

/// What a line is called: the engine, and what is shown of it where that needs
/// saying.
pub open spec fn series_name(engine: Engine, suffix: Seq<char>) -> Seq<char> {
    if suffix.len() == 0 {
        engine.name()
    } else {
        engine.name() + " "@ + suffix
    }
}

/// The line of one engine.
pub open spec fn one_series(
    engine: Engine,
    metric: Metric,
    suffix: Seq<char>,
    dashed: bool,
) -> SeriesView {
    SeriesView {
        engine,
        metric,
        name: series_name(engine, suffix),
        color: engine_colour(engine),
        dashed,
    }
}

/// A line for each engine.
pub open spec fn engine_series(metric: Metric, suffix: Seq<char>, dashed: bool) -> Seq<SeriesView> {
    seq![
        one_series(Engine::Httpsys, metric, suffix, dashed),
        one_series(Engine::Axum, metric, suffix, dashed),
    ]
}

/// The views of a chart's lines.
pub open spec fn series_views(series: Seq<SeriesPlan>) -> Seq<SeriesView> {
    series.map_values(|s: SeriesPlan| s@)
}

fn push_series(
    series: &mut Vec<SeriesPlan>,
    engine: Engine,
    metric: Metric,
    suffix: &str,
    dashed: bool,
)
    ensures
        series_views(final(series)@) == series_views(old(series)@).push(
            one_series(engine, metric, suffix@, dashed),
        ),
{
    let mut name = engine.label().to_owned();
    if !suffix.is_empty() {
        name.append(" ");
        name.append(suffix);
    }
    series.push(SeriesPlan { engine, metric, name, color: color_of(engine), dashed });
    assert(series_views(series@) =~= series_views(old(series)@).push(
        one_series(engine, metric, suffix@, dashed),
    ));
}

/// Adds a line for each engine.
fn push_engine_series(series: &mut Vec<SeriesPlan>, metric: Metric, suffix: &str, dashed: bool)
    ensures
        series_views(final(series)@) == series_views(old(series)@) + engine_series(
            metric,
            suffix@,
            dashed,
        ),
{
    push_series(series, Engine::Httpsys, metric, suffix, dashed);
    push_series(series, Engine::Axum, metric, suffix, dashed);
    assert(series_views(series@) =~= series_views(old(series)@) + engine_series(
        metric,
        suffix@,
        dashed,
    ));
}

/// One chart of the report.
#[derive(Debug)]
pub struct ChartPlan {
    /// The file that it is written to.
    pub file: &'static str,
    pub sweep: Sweep,
    pub caption: &'static str,
    pub subtitle: String,
    pub x_desc: &'static str,
    pub y_desc: &'static str,
    /// Whether the y axis is logarithmic.
    pub y_log: bool,
    pub x_unit: Unit,
    pub y_unit: Unit,
    pub series: Vec<SeriesPlan>,
}

/// What a [`ChartPlan`] says.
#[verifier::ext_equal]
pub struct ChartView {
    pub file: Seq<char>,
    pub sweep: Sweep,
    pub caption: Seq<char>,
    pub subtitle: Seq<char>,
    pub x_desc: Seq<char>,
    pub y_desc: Seq<char>,
    pub y_log: bool,
    pub x_unit: Unit,
    pub y_unit: Unit,
    pub series: Seq<SeriesView>,
}

impl View for ChartPlan {
    type V = ChartView;

    open spec fn view(&self) -> ChartView {
        ChartView {
            file: self.file@,
            sweep: self.sweep,
            caption: self.caption@,
            subtitle: self.subtitle@,
            x_desc: self.x_desc@,
            y_desc: self.y_desc@,
            y_log: self.y_log,
            x_unit: self.x_unit,
            y_unit: self.y_unit,
            series: series_views(self.series@),
        }
    }
}

/// The charts of a report, given what the machine is.
pub open spec fn charts(machine: Seq<char>) -> Seq<ChartView> {
    seq![
        ChartView {
            file: "latency-vs-concurrency.svg"@,
            sweep: Sweep::Concurrency,
            caption: "Latency vs concurrent requests"@,
            subtitle: "solid = median, dashed = p99. "@ + machine,
            x_desc: "Concurrent requests"@,
            y_desc: "Latency"@,
            y_log: true,
            x_unit: Unit::Count,
            y_unit: Unit::Millis,
            series: engine_series(Metric::P50, "p50"@, false) + engine_series(
                Metric::P99,
                "p99"@,
                true,
            ),
        },
        ChartView {
            file: "cpu-vs-concurrency.svg"@,
            sweep: Sweep::Concurrency,
            caption: "Server CPU vs concurrent requests"@,
            subtitle: "CPU cores burned by the server process alone. "@ + machine,
            x_desc: "Concurrent requests"@,
            y_desc: "CPU cores in use"@,
            y_log: false,
            x_unit: Unit::Count,
            y_unit: Unit::Cores,
            series: engine_series(Metric::Cores, ""@, false),
        },
        ChartView {
            file: "throughput-vs-concurrency.svg"@,
            sweep: Sweep::Concurrency,
            caption: "Throughput vs concurrent requests"@,
            subtitle: machine,
            x_desc: "Concurrent requests"@,
            y_desc: "Requests per second"@,
            y_log: false,
            x_unit: Unit::Count,
            y_unit: Unit::Rate,
            series: engine_series(Metric::Rps, ""@, false),
        },
        ChartView {
            file: "latency-vs-size.svg"@,
            sweep: Sweep::Size,
            caption: "Latency vs request size"@,
            subtitle: "solid = mean, dashed = p99. "@ + machine,
            x_desc: "Request body size"@,
            y_desc: "Latency"@,
            y_log: true,
            x_unit: Unit::ByteSize,
            y_unit: Unit::Millis,
            series: engine_series(Metric::Mean, "mean"@, false) + engine_series(
                Metric::P99,
                "p99"@,
                true,
            ),
        },
        ChartView {
            file: "cpu-vs-size.svg"@,
            sweep: Sweep::Size,
            caption: "Server CPU vs request size"@,
            subtitle: "CPU cores burned by the server process alone. "@ + machine,
            x_desc: "Request body size"@,
            y_desc: "CPU cores in use"@,
            y_log: false,
            x_unit: Unit::ByteSize,
            y_unit: Unit::Cores,
            series: engine_series(Metric::Cores, ""@, false),
        },
        ChartView {
            file: "throughput-vs-size.svg"@,
            sweep: Sweep::Size,
            caption: "Ingest throughput vs request size"@,
            subtitle: machine,
            x_desc: "Request body size"@,
            y_desc: "MiB/s received"@,
            y_log: false,
            x_unit: Unit::ByteSize,
            y_unit: Unit::MibPerSecond,
            series: engine_series(Metric::MibPerSecond, ""@, false),
        },
    ]
}

fn prefixed(prefix: &str, text: &str) -> (r: String)
    ensures
        r@ == prefix@ + text@,
{
    let mut out = prefix.to_owned();
    out.append(text);
    out
}

/// The charts of a report, given what the machine is.
pub fn chart_plans(machine: &str) -> (r: Vec<ChartPlan>)
    ensures
        r@.map_values(|plan: ChartPlan| plan@) == charts(machine@),
{
    let mut plans: Vec<ChartPlan> = Vec::new();
    let mut series: Vec<SeriesPlan> = Vec::new();
    push_engine_series(&mut series, Metric::P50, "p50", false);
    push_engine_series(&mut series, Metric::P99, "p99", true);
    plans.push(
        ChartPlan {
            file: "latency-vs-concurrency.svg",
            sweep: Sweep::Concurrency,
            caption: "Latency vs concurrent requests",
            subtitle: prefixed("solid = median, dashed = p99. ", machine),
            x_desc: "Concurrent requests",
            y_desc: "Latency",
            y_log: true,
            x_unit: Unit::Count,
            y_unit: Unit::Millis,
            series,
        },
    );
    let mut series: Vec<SeriesPlan> = Vec::new();
    push_engine_series(&mut series, Metric::Cores, "", false);
    plans.push(
        ChartPlan {
            file: "cpu-vs-concurrency.svg",
            sweep: Sweep::Concurrency,
            caption: "Server CPU vs concurrent requests",
            subtitle: prefixed("CPU cores burned by the server process alone. ", machine),
            x_desc: "Concurrent requests",
            y_desc: "CPU cores in use",
            y_log: false,
            x_unit: Unit::Count,
            y_unit: Unit::Cores,
            series,
        },
    );
    let mut series: Vec<SeriesPlan> = Vec::new();
    push_engine_series(&mut series, Metric::Rps, "", false);
    plans.push(
        ChartPlan {
            file: "throughput-vs-concurrency.svg",
            sweep: Sweep::Concurrency,
            caption: "Throughput vs concurrent requests",
            subtitle: machine.to_owned(),
            x_desc: "Concurrent requests",
            y_desc: "Requests per second",
            y_log: false,
            x_unit: Unit::Count,
            y_unit: Unit::Rate,
            series,
        },
    );
    let mut series: Vec<SeriesPlan> = Vec::new();
    push_engine_series(&mut series, Metric::Mean, "mean", false);
    push_engine_series(&mut series, Metric::P99, "p99", true);
    plans.push(
        ChartPlan {
            file: "latency-vs-size.svg",
            sweep: Sweep::Size,
            caption: "Latency vs request size",
            subtitle: prefixed("solid = mean, dashed = p99. ", machine),
            x_desc: "Request body size",
            y_desc: "Latency",
            y_log: true,
            x_unit: Unit::ByteSize,
            y_unit: Unit::Millis,
            series,
        },
    );
    let mut series: Vec<SeriesPlan> = Vec::new();
    push_engine_series(&mut series, Metric::Cores, "", false);
    plans.push(
        ChartPlan {
            file: "cpu-vs-size.svg",
            sweep: Sweep::Size,
            caption: "Server CPU vs request size",
            subtitle: prefixed("CPU cores burned by the server process alone. ", machine),
            x_desc: "Request body size",
            y_desc: "CPU cores in use",
            y_log: false,
            x_unit: Unit::ByteSize,
            y_unit: Unit::Cores,
            series,
        },
    );
    let mut series: Vec<SeriesPlan> = Vec::new();
    push_engine_series(&mut series, Metric::MibPerSecond, "", false);
    plans.push(
        ChartPlan {
            file: "throughput-vs-size.svg",
            sweep: Sweep::Size,
            caption: "Ingest throughput vs request size",
            subtitle: machine.to_owned(),
            x_desc: "Request body size",
            y_desc: "MiB/s received",
            y_log: false,
            x_unit: Unit::ByteSize,
            y_unit: Unit::MibPerSecond,
            series,
        },
    );
    assert(plans@.map_values(|plan: ChartPlan| plan@) =~= charts(machine@));
    plans
}

/// What to say of a chart with so many points, `None` if it can be drawn: one
/// without any cannot.
pub fn no_points(caption: &str, points: usize) -> (r: Option<String>)
    ensures
        match r {
            Some(text) => points == 0 && text@ == "chart '"@ + caption@ + "' has no data points"@,
            None => points > 0,
        },
{
    if points > 0 {
        return None;
    }
    let mut out = "chart '".to_owned();
    out.append(caption);
    out.append("' has no data points");
    Some(out)
}

/// What the machine is, in the words of a chart.
pub fn machine_summary(cores: usize, arch: &str) -> (r: String)
    ensures
        r@ == text::decimal(cores as nat) + " logical cores, loopback, "@ + arch@,
{
    let mut out = text::decimal_text(cores as u64);
    out.append(" logical cores, loopback, ");
    out.append(arch);
    out
}

// ---------------------------------------------------------------------------
// Table
// ---------------------------------------------------------------------------

/// One row of the table. Measured numbers come as they are to be printed.
#[derive(Debug)]
pub struct CsvRow {
    pub engine: Engine,
    pub connections: usize,
    pub body_bytes: usize,
    pub requests: u64,
    pub rps: String,
    pub mean_ms: String,
    pub p50_ms: String,
    pub p99_ms: String,
    pub cores: String,
    pub cpu_us_per_request: String,
}

impl CsvRow {
    /// What the row is about, as it is written down.
    pub open spec fn setup(self, sweep: Seq<char>) -> Seq<char> {
        sweep + ","@ + self.engine.name() + ","@ + text::decimal(self.connections as nat) + ","@
            + text::decimal(self.body_bytes as nat) + ","@ + text::decimal(self.requests as nat)
            + ","@
    }

    /// What was measured, as it is written down.
    pub open spec fn figures(self) -> Seq<char> {
        self.rps@ + ","@ + self.mean_ms@ + ","@ + self.p50_ms@ + ","@ + self.p99_ms@ + ","@
            + self.cores@ + ","@ + self.cpu_us_per_request@ + "\n"@
    }

    /// The row as it is written down.
    pub open spec fn line(self, sweep: Seq<char>) -> Seq<char> {
        self.setup(sweep) + self.figures()
    }

    fn push_setup(&self, out: &mut String, sweep: &str)
        ensures
            final(out)@ == old(out)@ + self.setup(sweep@),
    {
        out.append(sweep);
        out.append(",");
        out.append(self.engine.label());
        out.append(",");
        text::push_decimal(out, self.connections as u64);
        out.append(",");
        text::push_decimal(out, self.body_bytes as u64);
        out.append(",");
        text::push_decimal(out, self.requests);
        out.append(",");
        assert(out@ =~= old(out)@ + self.setup(sweep@));
    }

    fn push_figures(&self, out: &mut String)
        ensures
            final(out)@ == old(out)@ + self.figures(),
    {
        out.append(self.rps.as_str());
        out.append(",");
        out.append(self.mean_ms.as_str());
        out.append(",");
        out.append(self.p50_ms.as_str());
        out.append(",");
        out.append(self.p99_ms.as_str());
        out.append(",");
        out.append(self.cores.as_str());
        out.append(",");
        out.append(self.cpu_us_per_request.as_str());
        out.append("\n");
        assert(out@ =~= old(out)@ + self.figures());
    }

    fn push_line(&self, out: &mut String, sweep: &str)
        ensures
            final(out)@ == old(out)@ + self.line(sweep@),
    {
        self.push_setup(out, sweep);
        self.push_figures(out);
        assert(out@ =~= old(out)@ + self.line(sweep@));
    }
}

/// The rows of one sweep, one after the other.
pub open spec fn lines(sweep: Seq<char>, rows: Seq<CsvRow>) -> Seq<char>
    decreases rows.len(),
{
    if rows.len() == 0 {
        Seq::empty()
    } else {
        lines(sweep, rows.drop_last()) + rows.last().line(sweep)
    }
}

fn push_lines(out: &mut String, sweep: &str, rows: &Vec<CsvRow>)
    ensures
        final(out)@ == old(out)@ + lines(sweep@, rows@),
{
    let mut i: usize = 0;
    assert(rows@.take(0) =~= Seq::empty());
    assert(out@ =~= old(out)@ + Seq::empty());
    while i < rows.len()
        invariant
            i <= rows@.len(),
            out@ == old(out)@ + lines(sweep@, rows@.take(i as int)),
        decreases rows@.len() - i,
    {
        let ghost before = out@;
        rows[i].push_line(out, sweep);
        assert(rows@.take(i + 1).drop_last() =~= rows@.take(i as int));
        assert(rows@.take(i + 1).last() == rows@[i as int]);
        assert(out@ =~= old(out)@ + lines(sweep@, rows@.take(i + 1)));
        i += 1;
    }
    assert(rows@.take(rows@.len() as int) =~= rows@);
}

/// The first line of the table.
pub const CSV_HEADER: &'static str =
    "sweep,engine,connections,body_bytes,requests,rps,mean_ms,p50_ms,p99_ms,cpu_cores,cpu_us_per_request\n";

/// The whole table.
pub fn csv(concurrency: &Vec<CsvRow>, size: &Vec<CsvRow>) -> (r: String)
    ensures
        r@ == CSV_HEADER@ + lines("concurrency"@, concurrency@) + lines("size"@, size@),
{
    let mut out = CSV_HEADER.to_owned();
    push_lines(&mut out, "concurrency", concurrency);
    push_lines(&mut out, "size", size);
    out
}

// ---------------------------------------------------------------------------
// Summary
// ---------------------------------------------------------------------------

/// What one part of the summary compares.
#[derive(Debug, Clone, Copy, PartialEq, Eq, Structural)]
pub enum Topic {
    /// Requests per second.
    Throughput,
    /// Request-body throughput.
    Ingest,
    /// CPU time per request; less is better.
    CpuPerRequest,
    /// CPU cores for the throughput of the largest bodies; less is better.
    UploadCost,
}

/// One part of the summary: what it is called, and which sample of which sweep
/// stands for an engine in it.
#[derive(Debug, Clone, Copy)]
pub struct Comparison {
    pub topic: Topic,
    pub title: &'static str,
    pub sweep: Sweep,
    /// The sample with the most of this stands for its engine.
    pub best_by: Metric,
}

impl Comparison {
    /// Whether the part is called so, and compares these samples.
    pub open spec fn says(
        self,
        topic: Topic,
        title: Seq<char>,
        sweep: Sweep,
        best_by: Metric,
    ) -> bool {
        self.topic == topic && self.title@ == title && self.sweep == sweep && self.best_by
            == best_by
    }
}

/// The parts of the summary, in order.
pub fn comparisons() -> (r: Vec<Comparison>)
    ensures
        r@.len() == 4,
        r@[0].says(
            Topic::Throughput,
            "Peak throughput (small requests)"@,
            Sweep::Concurrency,
            Metric::Rps,
        ),
        r@[1].says(
            Topic::Ingest,
            "Peak ingest throughput (large requests)"@,
            Sweep::Size,
            Metric::MibPerSecond,
        ),
        r@[2].says(
            Topic::CpuPerRequest,
            "CPU per request at peak load"@,
            Sweep::Concurrency,
            Metric::Rps,
        ),
        r@[3].says(
            Topic::UploadCost,
            "CPU cost of the largest uploads"@,
            Sweep::Size,
            Metric::BodyBytes,
        ),
{
    let mut all: Vec<Comparison> = Vec::new();
    all.push(
        Comparison {
            topic: Topic::Throughput,
            title: "Peak throughput (small requests)",
            sweep: Sweep::Concurrency,
            best_by: Metric::Rps,
        },
    );
    all.push(
        Comparison {
            topic: Topic::Ingest,
            title: "Peak ingest throughput (large requests)",
            sweep: Sweep::Size,
            best_by: Metric::MibPerSecond,
        },
    );
    all.push(
        Comparison {
            topic: Topic::CpuPerRequest,
            title: "CPU per request at peak load",
            sweep: Sweep::Concurrency,
            best_by: Metric::Rps,
        },
    );
    all.push(
        Comparison {
            topic: Topic::UploadCost,
            title: "CPU cost of the largest uploads",
            sweep: Sweep::Size,
            best_by: Metric::BodyBytes,
        },
    );
    all
}

/// The numbers of a sample that the summary prints, as they read.
#[derive(Debug)]
pub struct SampleText {
    pub rate: String,
    pub connections: usize,
    pub mib_per_second: String,
    pub body: String,
    pub cpu_us_per_request: String,
    pub cores: String,
}

impl SampleText {
    /// What is said of the sample under a topic.
    pub open spec fn about(self, topic: Topic) -> Seq<char> {
        match topic {
            Topic::Throughput => self.rate@ + " req/s @ "@ + text::decimal(self.connections as nat)
                + " conns"@,
            Topic::Ingest => self.mib_per_second@ + " MiB/s @ "@ + self.body@ + " body"@,
            Topic::CpuPerRequest => self.cpu_us_per_request@ + " us/req"@,
            Topic::UploadCost => self.cores@ + " cores for "@ + self.mib_per_second@ + " MiB/s at "@
                + self.body@ + " body"@,
        }
    }

    /// What is said of the sample under a topic.
    pub fn describe(&self, topic: Topic) -> (r: String)
        ensures
            r@ == self.about(topic),
    {
        let mut out = String::new();
        match topic {
            Topic::Throughput => {
                out.append(self.rate.as_str());
                out.append(" req/s @ ");
                text::push_decimal(&mut out, self.connections as u64);
                out.append(" conns");
            },
            Topic::Ingest => {
                out.append(self.mib_per_second.as_str());
                out.append(" MiB/s @ ");
                out.append(self.body.as_str());
                out.append(" body");
            },
            Topic::CpuPerRequest => {
                out.append(self.cpu_us_per_request.as_str());
                out.append(" us/req");
            },
            Topic::UploadCost => {
                out.append(self.cores.as_str());
                out.append(" cores for ");
                out.append(self.mib_per_second.as_str());
                out.append(" MiB/s at ");
                out.append(self.body.as_str());
                out.append(" body");
            },
        }
        assert(out@ =~= self.about(topic));
        out
    }
}

/// A text filled up with blanks to a width, if it is shorter.
pub open spec fn padded(text: Seq<char>, width: nat) -> Seq<char>
    decreases width - text.len(),
{
    if text.len() < width {
        padded(text.push(' '), width)
    } else {
        text
    }
}

/// The line of the summary on one engine.
pub fn engine_line(engine: Engine, description: &str) -> (r: String)
    ensures
        r@ == "  "@ + padded(engine.name(), 8) + " "@ + description@,
{
    let mut label = engine.label().to_owned();
    let mut width: usize = text::chars_of(label.as_str()).len();
    while width < 8
        invariant
            width == label@.len(),
            padded(label@, 8) == padded(engine.name(), 8),
        decreases 8 - width,
    {
        text::push_char(&mut label, ' ');
        width += 1;
    }
    let mut out = "  ".to_owned();
    out.append(label.as_str());
    out.append(" ");
    out.append(description);
    out
}

/// The line of the summary on how the engines compare, given the factor between
/// them as it reads, and whether it is at least one.
pub fn verdict_line(factor: &str, at_least_one: bool) -> (r: String)
    ensures
        r@ == "  -> httpsys is "@ + factor@ + "x "@ + if at_least_one {
            "faster"@
        } else {
            "slower"@
        } + " than axum"@,
{
    let mut out = "  -> httpsys is ".to_owned();
    out.append(factor);
    out.append("x ");
    if at_least_one {
        out.append("faster");
    } else {
        out.append("slower");
    }
    out.append(" than axum");
    out
}

/// The texts with a comma between each two.
pub open spec fn comma_separated(texts: Seq<Seq<char>>) -> Seq<char>
    decreases texts.len(),
{
    if texts.len() == 0 {
        Seq::empty()
    } else if texts.len() == 1 {
        texts[0]
    } else {
        comma_separated(texts.drop_last()) + ","@ + texts.last()
    }
}

/// The columns of a row, in the order in which the first line of the table names
/// them.
pub open spec fn columns(row: CsvRow, sweep: Seq<char>) -> Seq<Seq<char>> {
    seq![
        sweep,
        row.engine.name(),
        text::decimal(row.connections as nat),
        text::decimal(row.body_bytes as nat),
        text::decimal(row.requests as nat),
        row.rps@,
        row.mean_ms@,
        row.p50_ms@,
        row.p99_ms@,
        row.cores@,
        row.cpu_us_per_request@,
    ]
}

/// The table is its first line and then a line for each row: first those of the
/// concurrency sweep and then those of the size sweep, each in order. A line is the
/// eleven columns of its row with commas between them. A row more is a line more,
/// at the end of its sweep.
pub proof fn law_the_table_has_a_line_for_each_row(
    concurrency: &Vec<CsvRow>,
    size: &Vec<CsvRow>,
    table: String,
    rows: Seq<CsvRow>,
    row: CsvRow,
    sweep: Seq<char>,
)
    requires
        call_ensures(csv, (concurrency, size), table),
    ensures
        table@ == CSV_HEADER@ + lines("concurrency"@, concurrency@) + lines("size"@, size@),
        lines(sweep, Seq::<CsvRow>::empty()).len() == 0,
        lines(sweep, rows.push(row)) == lines(sweep, rows) + comma_separated(columns(row, sweep))
            + "\n"@,
{
    assert(rows.push(row).drop_last() =~= rows);
    assert(rows.push(row).last() == row);
    lemma_line(row, sweep);
    assert(lines(sweep, rows) + (comma_separated(columns(row, sweep)) + "\n"@) =~= lines(sweep, rows)
        + comma_separated(columns(row, sweep)) + "\n"@);
}

proof fn lemma_line(row: CsvRow, sweep: Seq<char>)
    ensures
        row.line(sweep) == comma_separated(columns(row, sweep)) + "\n"@,
{
    let all = columns(row, sweep);
    let ten = all.drop_last();
    let nine = ten.drop_last();
    let eight = nine.drop_last();
    let seven = eight.drop_last();
    let six = seven.drop_last();
    let five = six.drop_last();
    let four = five.drop_last();
    let three = four.drop_last();
    let two = three.drop_last();
    let one = two.drop_last();
    assert(comma_separated(one) == sweep);
    assert(comma_separated(two) == comma_separated(one) + ","@ + two.last());
    assert(comma_separated(three) == comma_separated(two) + ","@ + three.last());
    assert(comma_separated(four) == comma_separated(three) + ","@ + four.last());
    assert(comma_separated(five) == comma_separated(four) + ","@ + five.last());
    assert(comma_separated(six) == comma_separated(five) + ","@ + six.last());
    assert(comma_separated(seven) == comma_separated(six) + ","@ + seven.last());
    assert(comma_separated(eight) == comma_separated(seven) + ","@ + eight.last());
    assert(comma_separated(nine) == comma_separated(eight) + ","@ + nine.last());
    assert(comma_separated(ten) == comma_separated(nine) + ","@ + ten.last());
    assert(comma_separated(all) == comma_separated(ten) + ","@ + all.last());
    assert(comma_separated(five) + ","@ == row.setup(sweep));
    assert(row.setup(sweep) + row.figures() =~= comma_separated(all) + "\n"@);
}

/// Each engine has a colour, and they can be told apart.
pub proof fn law_engines_have_colours(httpsys: Colour, axum: Colour)
    requires
        call_ensures(color_of, (Engine::Httpsys,), httpsys),
        call_ensures(color_of, (Engine::Axum,), axum),
    ensures
        httpsys != axum,
        (httpsys.red, httpsys.green, httpsys.blue) == (0u8, 114u8, 198u8),
        (axum.red, axum.green, axum.blue) == (214u8, 73u8, 55u8),
{
}

/// Whether a chart has a pair of lines, one for each engine, from index `at` on:
/// both show the metric, and are named after their engine and what is shown of it,
/// in the colour of their engine.
pub open spec fn has_pair(
    plan: ChartPlan,
    at: int,
    metric: Metric,
    suffix: Seq<char>,
    dashed: bool,
) -> bool {
    let (a, b) = (plan.series@[at], plan.series@[at + 1]);
    &&& a.engine is Httpsys && b.engine is Axum
    &&& a.metric == metric && b.metric == metric
    &&& a.name@ == "httpsys"@ + suffix && b.name@ == "axum"@ + suffix
    &&& (a.color.red, a.color.green, a.color.blue) == (0u8, 114u8, 198u8)
    &&& (b.color.red, b.color.green, b.color.blue) == (214u8, 73u8, 55u8)
    &&& a.dashed == dashed && b.dashed == dashed
}

/// Three charts are drawn of each sweep, against what was swept: latency, cores and
/// throughput. Each has a line for each engine. The ones on latency are logarithmic
/// and have two, the tail dashed next to the median or the mean. The words for the
/// machine stand under each.
pub proof fn law_which_charts_are_drawn(machine: &str, plans: Vec<ChartPlan>, i: int)
    requires
        call_ensures(chart_plans, (machine,), plans),
    ensures
        plans@.len() == 6,
        0 <= i < 3 ==> plans@[i].sweep is Concurrency && plans@[i].x_unit is Count
            && plans@[i].x_desc@ == "Concurrent requests"@,
        3 <= i < 6 ==> plans@[i].sweep is Size && plans@[i].x_unit is ByteSize && plans@[i].x_desc@
            == "Request body size"@,
        0 <= i < 6 ==> (plans@[i].y_log <==> i % 3 == 0),
        0 <= i < 6 && i % 3 == 0 ==> plans@[i].y_unit is Millis && plans@[i].y_desc@ == "Latency"@
            && plans@[i].series@.len() == 4 && has_pair(plans@[i], 2, Metric::P99, " p99"@, true),
        0 <= i < 6 && i % 3 == 1 ==> plans@[i].y_unit is Cores && plans@[i].y_desc@
            == "CPU cores in use"@ && plans@[i].series@.len() == 2 && has_pair(
            plans@[i],
            0,
            Metric::Cores,
            Seq::empty(),
            false,
        ) && plans@[i].subtitle@ == "CPU cores burned by the server process alone. "@ + machine@,
        0 <= i < 6 && i % 3 == 2 ==> plans@[i].series@.len() == 2 && plans@[i].subtitle@ == machine@,
        has_pair(plans@[0], 0, Metric::P50, " p50"@, false),
        plans@[0].subtitle@ == "solid = median, dashed = p99. "@ + machine@,
        has_pair(plans@[3], 0, Metric::Mean, " mean"@, false),
        plans@[3].subtitle@ == "solid = mean, dashed = p99. "@ + machine@,
        plans@[2].y_unit is Rate && plans@[2].y_desc@ == "Requests per second"@,
        has_pair(plans@[2], 0, Metric::Rps, Seq::empty(), false),
        plans@[5].y_unit is MibPerSecond && plans@[5].y_desc@ == "MiB/s received"@,
        has_pair(plans@[5], 0, Metric::MibPerSecond, Seq::empty(), false),
        plans@[0].file@ == "latency-vs-concurrency.svg"@,
        plans@[1].file@ == "cpu-vs-concurrency.svg"@,
        plans@[2].file@ == "throughput-vs-concurrency.svg"@,
        plans@[3].file@ == "latency-vs-size.svg"@,
        plans@[4].file@ == "cpu-vs-size.svg"@,
        plans@[5].file@ == "throughput-vs-size.svg"@,
        plans@[0].caption@ == "Latency vs concurrent requests"@,
        plans@[1].caption@ == "Server CPU vs concurrent requests"@,
        plans@[2].caption@ == "Throughput vs concurrent requests"@,
        plans@[3].caption@ == "Latency vs request size"@,
        plans@[4].caption@ == "Server CPU vs request size"@,
        plans@[5].caption@ == "Ingest throughput vs request size"@,
{
    let views = plans@.map_values(|plan: ChartPlan| plan@);
    assert(views == charts(machine@));
    assert(views.len() == 6);
    assert forall|k: int| 0 <= k < 6 implies #[trigger] plans@[k]@ == charts(machine@)[k] by {
        assert(views[k] == plans@[k]@);
    }
    lemma_pair(plans@[0], 0, Metric::P50, "p50"@, false);
    lemma_pair(plans@[0], 2, Metric::P99, "p99"@, true);
    lemma_pair(plans@[1], 0, Metric::Cores, ""@, false);
    lemma_pair(plans@[2], 0, Metric::Rps, ""@, false);
    lemma_pair(plans@[3], 0, Metric::Mean, "mean"@, false);
    lemma_pair(plans@[3], 2, Metric::P99, "p99"@, true);
    lemma_pair(plans@[4], 0, Metric::Cores, ""@, false);
    lemma_pair(plans@[5], 0, Metric::MibPerSecond, ""@, false);
    reveal_strlit("");
    reveal_strlit(" ");
    reveal_strlit("p50");
    reveal_strlit(" p50");
    reveal_strlit("p99");
    reveal_strlit(" p99");
    reveal_strlit("mean");
    reveal_strlit(" mean");
    assert(" "@ + "p50"@ =~= " p50"@);
    assert(" "@ + "p99"@ =~= " p99"@);
    assert(" "@ + "mean"@ =~= " mean"@);
    assert forall|k: int| 0 <= k < 6 implies (#[trigger] plans@[k]).series@.len()
        == charts(machine@)[k].series.len() by {
        assert(plans@[k]@.series.len() == plans@[k].series@.len());
    }
}

proof fn lemma_pair(plan: ChartPlan, at: int, metric: Metric, suffix: Seq<char>, dashed: bool)
    requires
        0 <= at && at + 1 < plan@.series.len(),
        plan@.series[at] == one_series(Engine::Httpsys, metric, suffix, dashed),
        plan@.series[at + 1] == one_series(Engine::Axum, metric, suffix, dashed),
    ensures
        suffix.len() == 0 ==> has_pair(plan, at, metric, Seq::empty(), dashed),
        suffix.len() > 0 ==> has_pair(plan, at, metric, " "@ + suffix, dashed),
{
    assert(plan@.series[at] == plan.series@[at]@);
    assert(plan@.series[at + 1] == plan.series@[at + 1]@);
    assert("httpsys"@ + Seq::<char>::empty() =~= "httpsys"@);
    assert("axum"@ + Seq::<char>::empty() =~= "axum"@);
    assert("httpsys"@ + " "@ + suffix =~= "httpsys"@ + (" "@ + suffix));
    assert("axum"@ + " "@ + suffix =~= "axum"@ + (" "@ + suffix));
}

/// A chart without points is reported by its caption, and any other can be drawn;
/// the words for the machine name its cores and its kind.
pub proof fn law_words_for_charts(
    caption: &str,
    points: usize,
    problem: Option<String>,
    cores: usize,
    arch: &str,
    summary: String,
)
    requires
        call_ensures(no_points, (caption, points), problem),
        call_ensures(machine_summary, (cores, arch), summary),
    ensures
        problem is Some <==> points == 0,
        problem matches Some(text) ==> text@ == "chart '"@ + caption@ + "' has no data points"@,
        summary@ == text::decimal(cores as nat) + " logical cores, loopback, "@ + arch@,
{
}

/// The summary has four parts. Those on what an engine bears take the samples with
/// most requests per second from the concurrency sweep; those on uploads take them
/// from the size sweep, by throughput and by size.
pub proof fn law_what_the_summary_compares(all: Vec<Comparison>)
    requires
        call_ensures(comparisons, (), all),
    ensures
        all@.len() == 4,
        all@[0].topic is Throughput && all@[0].sweep is Concurrency && all@[0].best_by is Rps,
        all@[1].topic is Ingest && all@[1].sweep is Size && all@[1].best_by is MibPerSecond,
        all@[2].topic is CpuPerRequest && all@[2].sweep is Concurrency && all@[2].best_by is Rps,
        all@[3].topic is UploadCost && all@[3].sweep is Size && all@[3].best_by is BodyBytes,
        all@[0].title@ == "Peak throughput (small requests)"@,
        all@[1].title@ == "Peak ingest throughput (large requests)"@,
        all@[2].title@ == "CPU per request at peak load"@,
        all@[3].title@ == "CPU cost of the largest uploads"@,
{
}

/// What is said of a sample names the numbers that its topic is about.
pub proof fn law_what_is_said_of_a_sample(sample: SampleText, topic: Topic, r: String)
    requires
        call_ensures(SampleText::describe, (&sample, topic), r),
    ensures
        topic is Throughput ==> r@ == sample.rate@ + " req/s @ "@ + text::decimal(
            sample.connections as nat,
        ) + " conns"@,
        topic is Ingest ==> r@ == sample.mib_per_second@ + " MiB/s @ "@ + sample.body@ + " body"@,
        topic is CpuPerRequest ==> r@ == sample.cpu_us_per_request@ + " us/req"@,
        topic is UploadCost ==> r@ == sample.cores@ + " cores for "@ + sample.mib_per_second@
            + " MiB/s at "@ + sample.body@ + " body"@,
{
}

/// The lines of the summary name the engine in a column of eight before what is said
/// of it, and say how this library compares: faster if the factor is at least one.
pub proof fn law_lines_of_the_summary(
    engine: Engine,
    description: &str,
    line: String,
    factor: &str,
    at_least_one: bool,
    verdict: String,
)
    requires
        call_ensures(engine_line, (engine, description), line),
        call_ensures(verdict_line, (factor, at_least_one), verdict),
    ensures
        engine is Httpsys ==> line@ == "  httpsys  "@ + description@,
        engine is Axum ==> line@ == "  axum     "@ + description@,
        at_least_one ==> verdict@ == "  -> httpsys is "@ + factor@ + "x faster than axum"@,
        !at_least_one ==> verdict@ == "  -> httpsys is "@ + factor@ + "x slower than axum"@,
{
    reveal_with_fuel(padded, 6);
    reveal_strlit("httpsys");
    reveal_strlit("axum");
    reveal_strlit("  ");
    reveal_strlit(" ");
    reveal_strlit("  httpsys  ");
    reveal_strlit("  axum     ");
    assert(padded("httpsys"@, 8) =~= "httpsys"@.push(' '));
    assert(padded("axum"@, 8) =~= "axum"@.push(' ').push(' ').push(' ').push(' '));
    assert("  "@ + "httpsys"@.push(' ') + " "@ =~= "  httpsys  "@);
    assert("  "@ + "axum"@.push(' ').push(' ').push(' ').push(' ') + " "@ =~= "  axum     "@);
    reveal_strlit("x ");
    reveal_strlit("faster");
    reveal_strlit("slower");
    reveal_strlit(" than axum");
    reveal_strlit("x faster than axum");
    reveal_strlit("x slower than axum");
    assert("x "@ + "faster"@ + " than axum"@ =~= "x faster than axum"@);
    assert("x "@ + "slower"@ + " than axum"@ =~= "x slower than axum"@);
    let head = "  -> httpsys is "@ + factor@;
    assert(head + "x "@ + "faster"@ + " than axum"@ =~= head + ("x "@ + "faster"@ + " than axum"@));
    assert(head + "x "@ + "slower"@ + " than axum"@ =~= head + ("x "@ + "slower"@ + " than axum"@));
}

} // verus!
