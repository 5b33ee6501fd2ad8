//! The request schema: chart kind, series of data points, styling options.
//!
//! Data values are fixed-point integers counted in thousandths of a unit.
//! A value of `12_500` therefore stands for 12.5 units.  The engine bounds
//! every value by [`VALUE_LIMIT`] and every collection by [`MAX_POINTS`] and
//! [`MAX_SERIES`]; within those bounds all layout arithmetic is exact and
//! free of overflow.

use vstd::prelude::*;

verus! {

/// Largest magnitude (in thousandths) a data value may have.
pub const VALUE_LIMIT: i64 = 1_000_000_000_000;

/// Largest number of data points a series (or the flat data list) may have.
pub const MAX_POINTS: usize = 100_000;

/// Largest number of series a request may have.
pub const MAX_SERIES: usize = 1_000;

/// The chart kinds the engine can lay out.  `Donut` is the ring variant of
/// `Pie`; the remaining twelve are distinct layouts.
#[derive(Clone, Copy, PartialEq, Eq, Structural, Debug)]
pub enum GraphType {
    Line,
    Bar,
    Scatter,
    Pie,
    Donut,
    Area,
    Radar,
    Histogram,
    Heatmap,
    Candlestick,
    Gauge,
    Bubble,
    StackedBar,
    MultiLine,
}

impl Default for GraphType {
    /// An unrecognized or missing chart kind falls back to a line chart.
    fn default() -> (r: Self)
        ensures
            r == GraphType::Line,
    {
        GraphType::Line
    }
}

/// One observation: a value in thousandths, an optional category label and
/// an optional explicit color that beats every other color source.
pub struct DataPoint {
    pub value: i64,
    pub label: Option<String>,
    pub color: Option<String>,
}

/// A named ordered sequence of data points sharing one visual treatment.
/// The order is significant: it is the category order along the X axis.
pub struct Series {
    pub name: Option<String>,
    pub data: Vec<DataPoint>,
    pub color: Option<String>,
}

/// A chart request.  When `series` is non-empty it is authoritative and
/// `data` is ignored; the flat `data` list is a single-series shorthand.
pub struct GraphRequest {
    pub graph_type: GraphType,
    pub series: Vec<Series>,
    pub data: Vec<i64>,
    pub title: Option<String>,
    pub x_label: Option<String>,
    pub y_label: Option<String>,
    pub colors: Option<Vec<String>>,
    pub theme: Option<String>,
    pub bins: Option<usize>,
    pub show_density: Option<bool>,
    pub cell_size: Option<i64>,
    pub show_values: Option<bool>,
}

/// A data value the engine accepts.
pub open spec fn valid_value(v: int) -> bool {
    -VALUE_LIMIT <= v <= VALUE_LIMIT
}

/// All values of a sequence are acceptable.
pub open spec fn valid_values(vs: Seq<int>) -> bool {
    forall|i: int| 0 <= i < vs.len() ==> valid_value(#[trigger] vs[i])
}

impl Series {
    /// The values of this series, in order.
    pub open spec fn values(&self) -> Seq<int> {
        self.data@.map_values(|d: DataPoint| d.value as int)
    }

    /// The series stays within the engine's bounds.
    pub open spec fn wf(&self) -> bool {
        &&& self.data@.len() <= MAX_POINTS
        &&& valid_values(self.values())
    }
}

impl GraphRequest {
    /// The request stays within the engine's bounds.
    pub open spec fn wf(&self) -> bool {
        &&& self.data@.len() <= MAX_POINTS
        &&& valid_values(self.data@.map_values(|v: i64| v as int))
        &&& self.series@.len() <= MAX_SERIES
        &&& forall|i: int| 0 <= i < self.series@.len() ==> (#[trigger] self.series@[i]).wf()
    }

    /// The values the engine actually plots: the series when any are given,
    /// otherwise the flat data list as a single anonymous series.
    pub open spec fn eff_values(&self) -> Seq<Seq<int>> {
        if self.series@.len() > 0 {
            self.series@.map_values(|s: Series| s.values())
        } else {
            seq![self.data@.map_values(|v: i64| v as int)]
        }
    }

    /// The request carries at least one data point for its first plotted
    /// series.  Charts refuse requests without one.
    pub open spec fn has_data(&self) -> bool {
        self.eff_values()[0].len() > 0
    }

    /// Checks the engine's bounds at run time.
    pub fn well_formed(&self) -> (b: bool)
        ensures
            b == self.wf(),
    {
        if self.data.len() > MAX_POINTS {
            return false;
        }
        let mut i: usize = 0;
        while i < self.data.len()
            invariant
                i <= self.data@.len(),
                forall|k: int| 0 <= k < i ==> valid_value(#[trigger] self.data@[k] as int),
            decreases self.data@.len() - i,
        {
            let v = self.data[i];
            if v < -VALUE_LIMIT || v > VALUE_LIMIT {
                proof {
                    assert(self.data@.map_values(|x: i64| x as int)[i as int] == v as int);
                }
                return false;
            }
            i += 1;
        }
        if self.series.len() > MAX_SERIES {
            return false;
        }
        let mut s: usize = 0;
        while s < self.series.len()
            invariant
                s <= self.series@.len(),
                forall|k: int| 0 <= k < s ==> (#[trigger] self.series@[k]).wf(),
            decreases self.series@.len() - s,
        {
            let ser = &self.series[s];
            if ser.data.len() > MAX_POINTS {
                return false;
            }
            let mut j: usize = 0;
            while j < ser.data.len()
                invariant
                    s < self.series@.len(),
                    *ser == self.series@[s as int],
                    j <= ser.data@.len(),
                    forall|k: int| 0 <= k < j ==> valid_value(#[trigger] ser.values()[k]),
                decreases ser.data@.len() - j,
            {
                let v = ser.data[j].value;
                if v < -VALUE_LIMIT || v > VALUE_LIMIT {
                    proof {
                        assert(ser.values()[j as int] == v as int);
                        assert(!self.series@[s as int].wf());
                    }
                    return false;
                }
                j += 1;
            }
            s += 1;
        }
        true
    }
}

/// Why a request was rejected before layout began.
#[derive(Clone, Copy, PartialEq, Eq, Structural, Debug)]
pub enum ChartError {
    /// The request carries no data point to plot.
    EmptyData,
    /// The chosen chart kind needs more axes than the data offers
    /// (a radar chart needs at least three).
    InsufficientAxes,
}

impl ChartError {
    /// A human-readable description of the rejection.
    pub fn message(&self) -> (r: &'static str)
        ensures
            *self == ChartError::EmptyData ==> r@ == "No data provided"@,
            *self == ChartError::InsufficientAxes ==> r@
                == "A radar chart needs at least three axes"@,
    {
        match self {
            ChartError::EmptyData => "No data provided",
            ChartError::InsufficientAxes => "A radar chart needs at least three axes",
        }
    }
}

impl GraphRequest {
    /// Rejects a request whose effective data is empty, or whose chart kind
    /// needs more axes than the data offers.  Accepts every other request.
    pub fn validate(&self) -> (r: Result<(), ChartError>)
        ensures
            r is Ok <==> self.has_data() && (self.graph_type == GraphType::Radar
                ==> self.eff_values()[0].len() >= 3),
            r == Err::<(), ChartError>(ChartError::EmptyData) <==> !self.has_data(),
    {
        let n = if self.series.len() > 0 {
            self.series[0].data.len()
        } else {
            self.data.len()
        };
        proof {
            if self.series@.len() > 0 {
                assert(self.eff_values()[0] == self.series@[0].values());
            } else {
                assert(self.eff_values()[0] == self.data@.map_values(|v: i64| v as int));
            }
        }
        if n == 0 {
            Err(ChartError::EmptyData)
        } else if matches!(self.graph_type, GraphType::Radar) && n < 3 {
            Err(ChartError::InsufficientAxes)
        } else {
            Ok(())
        }
    }
}

} // verus!
