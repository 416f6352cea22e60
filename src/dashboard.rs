use vstd::prelude::*;

verus! {

/// The two phases of an epoch.
#[derive(Clone, Copy, Debug, PartialEq, Eq, Structural)]
pub enum Split {
    Train,
    Valid,
}

/// A metric registered with the dashboard; `plot` marks a numeric metric
/// whose values are also drawn by the renderer.
pub struct RegisteredMetric {
    pub name: String,
    pub plot: bool,
}

/// The registered metrics, in registration order, for each split.
pub struct Metrics {
    pub train: Vec<RegisteredMetric>,
    pub valid: Vec<RegisteredMetric>,
}

/// What one metric reports for one step: its text for the logger and its
/// numeric value for the plot.
pub struct MetricReading {
    pub text: String,
    pub value: i64,
}

/// One entry of a split's logger output.
#[derive(Debug, PartialEq, Eq)]
pub enum LogRecord {
    /// The value of a metric after a step.
    Value { split: Split, name: String, text: String },
    /// The end of an epoch for a split.
    EpochEnd { split: Split },
}

/// One point of a plotted series, tagged by the split that produced it.
pub struct PlotPoint {
    pub name: String,
    pub split: Split,
    pub value: i64,
}

/// An event emitted by the training driver.
pub enum Event {
    Step { split: Split, readings: Vec<MetricReading> },
    EpochEnd { split: Split },
}

impl Metrics {
    pub open spec fn of(&self, split: Split) -> Seq<RegisteredMetric> {
        match split {
            Split::Train => self.train@,
            Split::Valid => self.valid@,
        }
    }

    pub fn new() -> (r: Self)
        ensures
            r.train@.len() == 0,
            r.valid@.len() == 0,
    {
        Metrics { train: Vec::new(), valid: Vec::new() }
    }

    /// Appends a metric named `name` to the metrics of `split`.
    pub fn register(&mut self, split: Split, name: String, plot: bool)
        ensures
            final(self).of(split) == old(self).of(split).push(RegisteredMetric { name, plot }),
            split == Split::Train ==> final(self).valid@ == old(self).valid@,
            split == Split::Valid ==> final(self).train@ == old(self).train@,
    {
        match split {
            Split::Train => self.train.push(RegisteredMetric { name, plot }),
            Split::Valid => self.valid.push(RegisteredMetric { name, plot }),
        }
    }

    pub fn get(&self, split: Split) -> (r: &Vec<RegisteredMetric>)
        ensures
            r@ == self.of(split),
    {
        match split {
            Split::Train => &self.train,
            Split::Valid => &self.valid,
        }
    }
}

/// An event fits the registered metrics when a step carries exactly one
/// reading per metric of its split.
pub open spec fn event_fits(metrics: Metrics, e: Event) -> bool {
    match e {
        Event::Step { split, readings } => readings@.len() == metrics.of(split).len(),
        Event::EpochEnd { .. } => true,
    }
}

/// The logger records of a step: one per registered metric of the split, in
/// registration order.
pub open spec fn step_records(
    metrics: Seq<RegisteredMetric>,
    split: Split,
    readings: Seq<MetricReading>,
) -> Seq<LogRecord> {
    Seq::new(
        metrics.len(),
        |i: int| LogRecord::Value { split, name: metrics[i].name, text: readings[i].text },
    )
}

/// The plot points of the first `n` metrics of a step: one per plotted metric.
pub open spec fn step_points(
    metrics: Seq<RegisteredMetric>,
    split: Split,
    readings: Seq<MetricReading>,
    n: int,
) -> Seq<PlotPoint>
    decreases n,
{
    if n <= 0 {
        Seq::empty()
    } else {
        let prev = step_points(metrics, split, readings, n - 1);
        if metrics[n - 1].plot {
            prev.push(PlotPoint { name: metrics[n - 1].name, split, value: readings[n - 1].value })
        } else {
            prev
        }
    }
}

/// The logger records of one event.
pub open spec fn event_records(metrics: Metrics, e: Event) -> Seq<LogRecord> {
    match e {
        Event::Step { split, readings } => step_records(metrics.of(split), split, readings@),
        Event::EpochEnd { split } => seq![LogRecord::EpochEnd { split }],
    }
}

/// The plot points of one event.
pub open spec fn event_points(metrics: Metrics, e: Event) -> Seq<PlotPoint> {
    match e {
        Event::Step { split, readings } => {
            let m = metrics.of(split);
            step_points(m, split, readings@, m.len() as int)
        },
        Event::EpochEnd { split } => Seq::empty(),
    }
}

/// The logger output of a sequence of events, in emission order.
pub open spec fn records_of(metrics: Metrics, events: Seq<Event>) -> Seq<LogRecord>
    decreases events.len(),
{
    if events.len() == 0 {
        Seq::empty()
    } else {
        records_of(metrics, events.drop_last()) + event_records(metrics, events.last())
    }
}

/// The plot points of a sequence of events, in emission order.
pub open spec fn points_of(metrics: Metrics, events: Seq<Event>) -> Seq<PlotPoint>
    decreases events.len(),
{
    if events.len() == 0 {
        Seq::empty()
    } else {
        points_of(metrics, events.drop_last()) + event_points(metrics, events.last())
    }
}

/// The series of the metric named `name`: every plot point of that name, in
/// order, with its split.
pub open spec fn series_of(points: Seq<PlotPoint>, name: Seq<char>) -> Seq<(Split, i64)>
    decreases points.len(),
{
    if points.len() == 0 {
        Seq::empty()
    } else {
        let prev = series_of(points.drop_last(), name);
        if points.last().name@ == name {
            prev.push((points.last().split, points.last().value))
        } else {
            prev
        }
    }
}

/// Routes metric readings to the logger output and, for plotted metrics, to
/// the series the renderer draws.
pub struct Dashboard {
    pub metrics: Metrics,
    pub log: Vec<LogRecord>,
    pub points: Vec<PlotPoint>,
}

impl Dashboard {
    pub fn new(metrics: Metrics) -> (r: Self)
        ensures
            r.metrics == metrics,
            r.log@.len() == 0,
            r.points@.len() == 0,
    {
        Dashboard { metrics, log: Vec::new(), points: Vec::new() }
    }

    /// Records the readings of one step of `split`; the `i`-th reading belongs
    /// to the `i`-th metric registered for that split, and every registered
    /// metric has one.
    pub fn on_step(&mut self, split: Split, readings: &Vec<MetricReading>)
        requires
            readings@.len() == old(self).metrics.of(split).len(),
        ensures
            final(self).metrics == old(self).metrics,
            final(self).log@ == old(self).log@ + step_records(
                old(self).metrics.of(split),
                split,
                readings@,
            ),
            final(self).points@ == old(self).points@ + step_points(
                old(self).metrics.of(split),
                split,
                readings@,
                old(self).metrics.of(split).len() as int,
            ),
    {
        let metrics = self.metrics.get(split);
        let n: usize = metrics.len();
        let ghost m = metrics@;
        let mut i: usize = 0;
        while i < n
            invariant
                0 <= i <= n,
                n == m.len(),
                n == readings@.len(),
                m == old(self).metrics.of(split),
                self.metrics == old(self).metrics,
                self.log@ == old(self).log@ + step_records(m, split, readings@).subrange(0, i as int),
                self.points@ == old(self).points@ + step_points(m, split, readings@, i as int),
            decreases n - i,
        {
            let metrics = self.metrics.get(split);
            let name = metrics[i].name.clone();
            let text = readings[i].text.clone();
            self.log.push(LogRecord::Value { split, name, text });
            if metrics[i].plot {
                let name = metrics[i].name.clone();
                self.points.push(PlotPoint { name, split, value: readings[i].value });
            }
            assert(step_records(m, split, readings@).subrange(0, i + 1) =~= step_records(
                m,
                split,
                readings@,
            ).subrange(0, i as int).push(LogRecord::Value { split, name: m[i as int].name, text: readings@[i as int].text }));
            i = i + 1;
        }
        assert(step_records(m, split, readings@).subrange(0, n as int) =~= step_records(
            m,
            split,
            readings@,
        ));
    }

    /// Marks the end of an epoch of `split` in the logger output.
    pub fn on_epoch_end(&mut self, split: Split)
        ensures
            final(self).metrics == old(self).metrics,
            final(self).log@ == old(self).log@.push(LogRecord::EpochEnd { split }),
            final(self).points@ == old(self).points@,
    {
        self.log.push(LogRecord::EpochEnd { split });
    }

    /// Applies one event.
    pub fn on_event(&mut self, e: Event)
        requires
            event_fits(old(self).metrics, e),
        ensures
            final(self).metrics == old(self).metrics,
            final(self).log@ == old(self).log@ + event_records(old(self).metrics, e),
            final(self).points@ == old(self).points@ + event_points(old(self).metrics, e),
    {
        match e {
            Event::Step { split, readings } => self.on_step(split, &readings),
            Event::EpochEnd { split } => {
                self.on_epoch_end(split);
                assert(self.log@ =~= old(self).log@ + event_records(old(self).metrics, e));
                assert(self.points@ =~= old(self).points@ + event_points(old(self).metrics, e));
            },
        }
    }

    /// The plotted series of the metric named `name`, tagged by split.
    pub fn series(&self, name: &String) -> (r: Vec<(Split, i64)>)
        ensures
            r@ == series_of(self.points@, name@),
    {
        let mut r: Vec<(Split, i64)> = Vec::new();
        let mut i: usize = 0;
        while i < self.points.len()
            invariant
                0 <= i <= self.points.len(),
                r@ == series_of(self.points@.subrange(0, i as int), name@),
            decreases self.points.len() - i,
        {
            let ghost pre = self.points@.subrange(0, i + 1);
            assert(pre.drop_last() =~= self.points@.subrange(0, i as int));
            if self.points[i].name == *name {
                r.push((self.points[i].split, self.points[i].value));
            }
            i = i + 1;
        }
        assert(self.points@.subrange(0, i as int) =~= self.points@);
        r
    }
}

} // verus!
