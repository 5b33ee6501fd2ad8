//! Candlestick layout.
//!
//! Input is explicit open/high/low/close quadruples when the flat data
//! length is a multiple of four, or is synthesized from the first series
//! by perturbing each value by fixed fractions (an approximation with no
//! real market meaning).  The price range is padded by a tenth above and
//! below; prices map through the shared linear scale, clamped to the
//! padded range.  A candle is up when close is at least open.

use vstd::prelude::*;
use crate::canvas::{count_rects, doc_wf, is_line, is_rect, render, render_doc, Prim};
use crate::charts::Chart;
use crate::models::{GraphRequest, MAX_POINTS, VALUE_LIMIT};
use crate::num::fmt_milli_2dp;
use crate::num::u64_str;
use crate::scale::v2p;

verus! {

broadcast use {crate::canvas::lemma_counts_push, crate::canvas::lemma_counts_concat};

/// Candlestick layout.
pub struct CandlestickChart;

/// One candlestick period: four prices and an optional label.
pub struct CandleData {
    pub open: i64,
    pub high: i64,
    pub low: i64,
    pub close: i64,
    pub label: Option<String>,
}

/// A signed percentage of a value, truncated toward zero.
pub open spec fn pctm(b: int, p: int) -> int {
    if b >= 0 {
        b * p / 100
    } else {
        -((-b) * p / 100)
    }
}

/// The candle quadruples a request stands for: explicit quadruples from
/// the flat data, or values of the first series perturbed by fixed
/// fractions.
pub open spec fn candle_vals(request: &GraphRequest) -> Seq<(int, int, int, int)> {
    if request.data@.len() > 0 && request.data@.len() % 4 == 0 {
        Seq::new(
            request.data@.len() / 4,
            |i: int|
                (
                    request.data@[4 * i] as int,
                    request.data@[4 * i + 1] as int,
                    request.data@[4 * i + 2] as int,
                    request.data@[4 * i + 3] as int,
                ),
        )
    } else if request.series@.len() > 0 {
        Seq::new(
            request.series@[0].values().len(),
            |i: int|
                {
                    let b = request.series@[0].values()[i];
                    (b + pctm(b, 2), b + pctm(b, 10), b - pctm(b, 10), b - pctm(b, 3))
                },
        )
    } else {
        Seq::<(int, int, int, int)>::empty()
    }
}

/// A price clamped into the padded range.
pub open spec fn clampr(p: int, lo: int, hi: int) -> int {
    if p < lo {
        lo
    } else if p > hi {
        hi
    } else {
        p
    }
}

/// The Y pixel of a price: clamped into the padded range, then mapped
/// through the shared linear scale (Y axis runs downward).
pub open spec fn price_y(p: int, lo: int, hi: int) -> int {
    v2p(clampr(p, lo, hi), lo, hi, 540000, 60000)
}

/// One candle: two wick lines and the body rectangle, at candle `i` of
/// `m`, over the padded price range `[lo, hi]`.
pub open spec fn candle_ok(
    w1: Prim,
    w2: Prim,
    body: Prim,
    cv: (int, int, int, int),
    i: int,
    m: int,
    lo: int,
    hi: int,
) -> bool {
    let spacing = 680000int / m;
    let x = 60000 + i * spacing + spacing / 2;
    let cw = spacing * 6 / 10;
    let yo = price_y(cv.0, lo, hi);
    let yh = price_y(cv.1, lo, hi);
    let yl = price_y(cv.2, lo, hi);
    let yc = price_y(cv.3, lo, hi);
    let top = if cv.3 >= cv.0 {
        yc
    } else {
        yo
    };
    let bot = if cv.3 >= cv.0 {
        yo
    } else {
        yc
    };
    let bh = if bot - top >= 1000 {
        bot - top
    } else {
        1000
    };
    &&& is_line(w1, x, yh, x, top, "class=\"candlestick-wick\""@)
    &&& is_line(w2, x, bot, x, yl, "class=\"candlestick-wick\""@)
    &&& is_rect(
        body,
        x - cw / 2,
        top,
        cw,
        bh,
        if cv.3 >= cv.0 {
            "class=\"candlestick-up\""@
        } else {
            "class=\"candlestick-down\""@
        },
    )
}

/// `m` is the lowest of the candle lows.
pub open spec fn is_min_low(cvs: Seq<(int, int, int, int)>, m: int) -> bool {
    &&& forall|i: int| 0 <= i < cvs.len() ==> m <= (#[trigger] cvs[i]).2
    &&& exists|i: int| 0 <= i < cvs.len() && (#[trigger] cvs[i]).2 == m
}

/// `m` is the highest of the candle highs.
pub open spec fn is_max_high(cvs: Seq<(int, int, int, int)>, m: int) -> bool {
    &&& forall|i: int| 0 <= i < cvs.len() ==> (#[trigger] cvs[i]).1 <= m
    &&& exists|i: int| 0 <= i < cvs.len() && (#[trigger] cvs[i]).1 == m
}

/// The padded price range: the true low/high span widened by a tenth on
/// each side (a high below the low collapses to the low first).
pub open spec fn padded_range(rmin: int, rmax: int) -> (int, int) {
    let top = if rmax < rmin {
        rmin
    } else {
        rmax
    };
    let pad = (top - rmin) / 10;
    (rmin - pad, top + pad)
}

/// A document that holds a rendered candlestick chart: somewhere in it
/// stand, for each candle, its wicks and up/down-classed body over the
/// padded true price range — and the bodies are the only rectangle
/// primitives in the document.
pub open spec fn candle_doc_ok(
    cvs: Seq<(int, int, int, int)>,
    rmin: int,
    rmax: int,
    doc: Seq<Prim>,
    k: int,
) -> bool {
    let lo = padded_range(rmin, rmax).0;
    let hi = padded_range(rmin, rmax).1;
    &&& is_min_low(cvs, rmin)
    &&& is_max_high(cvs, rmax)
    &&& 0 <= k
    &&& k + 3 * cvs.len() <= doc.len()
    &&& lo <= hi
    &&& forall|i: int|
        0 <= i < cvs.len() ==> candle_ok(
            #[trigger] doc[k + 3 * i],
            doc[k + 3 * i + 1],
            doc[k + 3 * i + 2],
            cvs[i],
            i,
            cvs.len() as int,
            lo,
            hi,
        )
    &&& count_rects(doc) == cvs.len()
}

/// A signed percentage of a value.
fn pctm_exec(b: i64, p: i64) -> (r: i64)
    requires
        -VALUE_LIMIT <= b <= VALUE_LIMIT,
        0 <= p <= 10,
    ensures
        r == pctm(b as int, p as int),
        -VALUE_LIMIT <= r <= VALUE_LIMIT,
{
    let mag: u64 = if b >= 0 {
        b as u64
    } else {
        (-b) as u64
    };
    proof {
        let m = mag as int;
        assert(0 <= m * (p as int) <= 10_000_000_000_000int) by (nonlinear_arith)
            requires
                0 <= m <= 1_000_000_000_000int,
                0 <= p <= 10,
        ;
        vstd::arithmetic::div_mod::lemma_div_pos_is_pos(m * (p as int), 100);
        vstd::arithmetic::div_mod::lemma_div_is_ordered(m * (p as int), 10_000_000_000_000int, 100);
    }
    let q = ((mag * (p as u64)) / 100) as i64;
    if b >= 0 {
        q
    } else {
        -q
    }
}

impl CandlestickChart {
    /// Derives the candle quadruples of a request.
    pub fn parse_ohlc_data(&self, request: &GraphRequest) -> (r: Vec<CandleData>)
        requires
            request.wf(),
        ensures
            r@.len() == candle_vals(request).len(),
            forall|i: int|
                0 <= i < r@.len() ==> ((#[trigger] r@[i]).open as int, r@[i].high as int,
                r@[i].low as int, r@[i].close as int) == candle_vals(request)[i],
            forall|i: int|
                0 <= i < r@.len() ==> -2_000_000_000_000i64 <= (#[trigger] r@[i]).open
                    <= 2_000_000_000_000i64 && -2_000_000_000_000i64 <= r@[i].high
                    <= 2_000_000_000_000i64 && -2_000_000_000_000i64 <= r@[i].low
                    <= 2_000_000_000_000i64 && -2_000_000_000_000i64 <= r@[i].close
                    <= 2_000_000_000_000i64,
    {
        let ghost cvs = candle_vals(request);
        let mut r: Vec<CandleData> = Vec::new();
        if request.data.len() > 0 && request.data.len() % 4 == 0 {
            let m = request.data.len() / 4;
            let mut i: usize = 0;
            while i < m
                invariant
                    request.wf(),
                    request.data@.len() > 0,
                    request.data@.len() % 4 == 0,
                    m == request.data@.len() / 4,
                    cvs == candle_vals(request),
                    cvs.len() == m,
                    i <= m,
                    r@.len() == i,
                    forall|j: int|
                        0 <= j < i ==> ((#[trigger] r@[j]).open as int, r@[j].high as int,
                        r@[j].low as int, r@[j].close as int) == cvs[j],
                    forall|j: int|
                        0 <= j < i ==> -2_000_000_000_000i64 <= (#[trigger] r@[j]).open
                            <= 2_000_000_000_000i64 && -2_000_000_000_000i64 <= r@[j].high
                            <= 2_000_000_000_000i64 && -2_000_000_000_000i64 <= r@[j].low
                            <= 2_000_000_000_000i64 && -2_000_000_000_000i64 <= r@[j].close
                            <= 2_000_000_000_000i64,
                decreases m - i,
            {
                proof {
                    assert(4 * (i as int) + 3 < request.data@.len()) by (nonlinear_arith)
                        requires
                            request.data@.len() % 4 == 0,
                            (request.data@.len() / 4) as int == m,
                            request.data@.len() == 4 * (request.data@.len() / 4) + request.data@.len() % 4,
                            0 <= i < m,
                    ;
                    vstd::arithmetic::div_mod::lemma_fundamental_div_mod(
                        request.data@.len() as int,
                        4,
                    );
                }
                let o = request.data[4 * i];
                let h = request.data[4 * i + 1];
                let l = request.data[4 * i + 2];
                let c = request.data[4 * i + 3];
                proof {
                    let mp = request.data@.map_values(|v: i64| v as int);
                    assert(mp[4 * i as int] == request.data@[4 * i as int] as int);
                    assert(mp[4 * i as int + 1] == request.data@[4 * i as int + 1] as int);
                    assert(mp[4 * i as int + 2] == request.data@[4 * i as int + 2] as int);
                    assert(mp[4 * i as int + 3] == request.data@[4 * i as int + 3] as int);
                }
                r.push(CandleData { open: o, high: h, low: l, close: c, label: None });
                i += 1;
            }
            r
        } else if request.series.len() > 0 {
            let ser = &request.series[0];
            let mut i: usize = 0;
            while i < ser.data.len()
                invariant
                    request.wf(),
                    request.series@.len() > 0,
                    *ser == request.series@[0],
                    !(request.data@.len() > 0 && request.data@.len() % 4 == 0),
                    cvs == candle_vals(request),
                    cvs.len() == ser.data@.len(),
                    i <= ser.data@.len(),
                    r@.len() == i,
                    forall|j: int|
                        0 <= j < i ==> ((#[trigger] r@[j]).open as int, r@[j].high as int,
                        r@[j].low as int, r@[j].close as int) == cvs[j],
                    forall|j: int|
                        0 <= j < i ==> -2_000_000_000_000i64 <= (#[trigger] r@[j]).open
                            <= 2_000_000_000_000i64 && -2_000_000_000_000i64 <= r@[j].high
                            <= 2_000_000_000_000i64 && -2_000_000_000_000i64 <= r@[j].low
                            <= 2_000_000_000_000i64 && -2_000_000_000_000i64 <= r@[j].close
                            <= 2_000_000_000_000i64,
                decreases ser.data@.len() - i,
            {
                let b = ser.data[i].value;
                proof {
                    assert(request.series@[0].values()[i as int] == b);
                    assert(request.series@[0].wf());
                }
                let p2 = pctm_exec(b, 2);
                let p10 = pctm_exec(b, 10);
                let p3 = pctm_exec(b, 3);
                let label = match &ser.data[i].label {
                    Some(l) => Some(l.clone()),
                    None => None,
                };
                r.push(
                    CandleData {
                        open: b + p2,
                        high: b + p10,
                        low: b - p10,
                        close: b - p3,
                        label,
                    },
                );
                i += 1;
            }
            r
        } else {
            proof {
                assert(cvs.len() == 0);
            }
            r
        }
    }

    /// Lays out a candlestick chart.  A request without candles yields an
    /// empty drawing; otherwise the result renders a document holding
    /// wicks and body for every candle over the padded price range.
    pub fn generate(&self, request: &GraphRequest) -> (r: String)
        requires
            request.wf(),
        ensures
            candle_vals(request).len() == 0 ==> r@ == Seq::<char>::empty(),
            candle_vals(request).len() > 0 ==> exists|rmin: int, rmax: int, doc: Seq<Prim>, k: int|
                #[trigger] candle_doc_ok(candle_vals(request), rmin, rmax, doc, k) && r@
                    == render_doc(doc),
    {
        let ghost cvs = candle_vals(request);
        let candles = self.parse_ohlc_data(request);
        let m = candles.len();
        if m == 0 {
            return String::new();
        }
        // The padded price range.
        let mut rmin: i64 = candles[0].low;
        let mut rmax: i64 = candles[0].high;
        let mut i: usize = 1;
        while i < m
            invariant
                m == candles@.len(),
                1 <= i <= m,
                forall|j: int|
                    0 <= j < m ==> -2_000_000_000_000i64 <= (#[trigger] candles@[j]).open
                        <= 2_000_000_000_000i64 && -2_000_000_000_000i64 <= candles@[j].high
                        <= 2_000_000_000_000i64 && -2_000_000_000_000i64 <= candles@[j].low
                        <= 2_000_000_000_000i64 && -2_000_000_000_000i64 <= candles@[j].close
                        <= 2_000_000_000_000i64,
                -2_000_000_000_000i64 <= rmin <= 2_000_000_000_000i64,
                -2_000_000_000_000i64 <= rmax <= 2_000_000_000_000i64,
                forall|j: int| 0 <= j < i ==> rmin <= (#[trigger] candles@[j]).low,
                exists|j: int| 0 <= j < i && (#[trigger] candles@[j]).low == rmin,
                forall|j: int| 0 <= j < i ==> (#[trigger] candles@[j]).high <= rmax,
                exists|j: int| 0 <= j < i && (#[trigger] candles@[j]).high == rmax,
            decreases m - i,
        {
            if candles[i].low < rmin {
                rmin = candles[i].low;
            }
            if candles[i].high > rmax {
                rmax = candles[i].high;
            }
            i += 1;
        }
        proof {
            assert forall|j: int| 0 <= j < m implies rmin as int <= (#[trigger] cvs[j]).2
                && (#[trigger] cvs[j]).1 <= rmax as int by {
                assert((candles@[j].open as int, candles@[j].high as int, candles@[j].low as int,
                candles@[j].close as int) == cvs[j]);
            }
            assert(is_min_low(cvs, rmin as int)) by {
                let w = choose|j: int| 0 <= j < m && (#[trigger] candles@[j]).low == rmin;
                assert(cvs[w].2 == rmin as int);
            }
            assert(is_max_high(cvs, rmax as int)) by {
                let w = choose|j: int| 0 <= j < m && (#[trigger] candles@[j]).high == rmax;
                assert(cvs[w].1 == rmax as int);
            }
        }
        let top: i64 = if rmax < rmin {
            rmin
        } else {
            rmax
        };
        let pad = (top - rmin) / 10;
        let lo = rmin - pad;
        let hi = top + pad;
        proof {
            assert(lo as int == padded_range(rmin as int, rmax as int).0);
            assert(hi as int == padded_range(rmin as int, rmax as int).1);
        }
        let spacing = 680000i64 / (m as i64);
        let cw = spacing * 6 / 10;
        let mut doc: Vec<Prim> = Vec::new();
        doc.push(
            Prim::Raw {
                markup: String::from_str(
                    "<svg width=\"800\" height=\"600\" xmlns=\"http://www.w3.org/2000/svg\">\n  <defs>\n    <style>\n      .candlestick-up { fill: #2ecc71; stroke: #27ae60; stroke-width: 1; }\n      .candlestick-down { fill: #e74c3c; stroke: #c0392b; stroke-width: 1; }\n      .candlestick-wick { stroke: #333; stroke-width: 1; }\n      .axis { stroke: #333; stroke-width: 2; }\n      .axis-text { font-family: Arial, sans-serif; font-size: 12px; fill: #333; }\n      .title { font-family: Arial, sans-serif; font-size: 16px; font-weight: bold; fill: #333; text-anchor: middle; }\n      .grid { stroke: #ddd; stroke-width: 1; stroke-dasharray: 2,2; }\n    </style>\n  </defs>\n  <rect width=\"100%\" height=\"100%\" fill=\"white\"/>",
                ),
            },
        );
        if let Some(title) = &request.title {
            doc.push(
                Prim::Text {
                    x: 400000,
                    y: 30000,
                    attrs: String::from_str("class=\"title\""),
                    content: title.clone(),
                },
            );
        }
        let mut g: i64 = 0;
        while g <= 5
            invariant
                0 <= g <= 6,
                doc_wf(doc@),
                count_rects(doc@) == 0,
            decreases 6 - g,
        {
            let y = 60000 + 96000 * g;
            doc.push(
                Prim::Line {
                    x1: 60000,
                    y1: y,
                    x2: 740000,
                    y2: y,
                    attrs: String::from_str("class=\"grid\""),
                },
            );
            g += 1;
        }
        let ghost k = doc@.len();
        let mut c: usize = 0;
        while c < m
            invariant
                m == candles@.len(),
                1 <= m <= MAX_POINTS,
                cvs.len() == m,
                forall|j: int|
                    0 <= j < m ==> ((#[trigger] candles@[j]).open as int, candles@[j].high as int,
                    candles@[j].low as int, candles@[j].close as int) == cvs[j],
                forall|j: int|
                    0 <= j < m ==> -2_000_000_000_000i64 <= (#[trigger] candles@[j]).open
                        <= 2_000_000_000_000i64 && -2_000_000_000_000i64 <= candles@[j].high
                        <= 2_000_000_000_000i64 && -2_000_000_000_000i64 <= candles@[j].low
                        <= 2_000_000_000_000i64 && -2_000_000_000_000i64 <= candles@[j].close
                        <= 2_000_000_000_000i64,
                -2_400_000_000_000i64 <= lo <= hi <= 2_400_000_000_000i64,
                spacing == 680000int / m as int,
                0 <= spacing <= 680000,
                cw == spacing * 6 / 10,
                0 <= cw <= spacing,
                c <= m,
                doc@.len() == k + 3 * c,
                count_rects(doc@) == c,
                doc_wf(doc@),
                forall|j: int|
                    0 <= j < c ==> candle_ok(
                        #[trigger] doc@[k + 3 * j],
                        doc@[k + 3 * j + 1],
                        doc@[k + 3 * j + 2],
                        cvs[j],
                        j,
                        m as int,
                        lo as int,
                        hi as int,
                    ),
            decreases m - c,
        {
            let cd = &candles[c];
            proof {
                assert(0 <= (c as int) * (spacing as int) <= 100_000int * 680000)
                    by (nonlinear_arith)
                    requires
                        0 <= c <= 100_000,
                        0 <= spacing <= 680000,
                ;
            }
            let x = 60000 + (c as i64) * spacing + spacing / 2;
            let yo = price_y_exec(cd.open, lo, hi);
            let yh = price_y_exec(cd.high, lo, hi);
            let yl = price_y_exec(cd.low, lo, hi);
            let yc = price_y_exec(cd.close, lo, hi);
            let is_up = cd.close >= cd.open;
            let top = if is_up {
                yc
            } else {
                yo
            };
            let bot = if is_up {
                yo
            } else {
                yc
            };
            let bh = if bot - top >= 1000 {
                bot - top
            } else {
                1000
            };
            let ghost d0 = doc@;
            doc.push(
                Prim::Line {
                    x1: x,
                    y1: yh,
                    x2: x,
                    y2: top,
                    attrs: String::from_str("class=\"candlestick-wick\""),
                },
            );
            doc.push(
                Prim::Line {
                    x1: x,
                    y1: bot,
                    x2: x,
                    y2: yl,
                    attrs: String::from_str("class=\"candlestick-wick\""),
                },
            );
            doc.push(
                Prim::Rect {
                    x: x - cw / 2,
                    y: top,
                    w: cw,
                    h: bh,
                    attrs: String::from_str(
                        if is_up {
                            "class=\"candlestick-up\""
                        } else {
                            "class=\"candlestick-down\""
                        },
                    ),
                },
            );
            proof {
                assert(candle_ok(
                    doc@[k + 3 * (c as int)],
                    doc@[k + 3 * (c as int) + 1],
                    doc@[k + 3 * (c as int) + 2],
                    cvs[c as int],
                    c as int,
                    m as int,
                    lo as int,
                    hi as int,
                ));
                assert forall|j: int| 0 <= j < c + 1 implies candle_ok(
                    #[trigger] doc@[k + 3 * j],
                    doc@[k + 3 * j + 1],
                    doc@[k + 3 * j + 2],
                    cvs[j],
                    j,
                    m as int,
                    lo as int,
                    hi as int,
                ) by {
                    if j < c {
                        assert(doc@[k + 3 * j] == d0[k + 3 * j]);
                        assert(doc@[k + 3 * j + 1] == d0[k + 3 * j + 1]);
                        assert(doc@[k + 3 * j + 2] == d0[k + 3 * j + 2]);
                        assert(candle_ok(
                            d0[k + 3 * j],
                            d0[k + 3 * j + 1],
                            d0[k + 3 * j + 2],
                            cvs[j],
                            j,
                            m as int,
                            lo as int,
                            hi as int,
                        ));
                    }
                }
            }
            c += 1;
        }
        let ghost dm = doc@;
        // Axes and price labels.
        doc.push(
            Prim::Line {
                x1: 60000,
                y1: 540000,
                x2: 740000,
                y2: 540000,
                attrs: String::from_str("class=\"axis\""),
            },
        );
        doc.push(
            Prim::Line {
                x1: 60000,
                y1: 60000,
                x2: 60000,
                y2: 540000,
                attrs: String::from_str("class=\"axis\""),
            },
        );
        let mut t: i64 = 0;
        while t <= 5
            invariant
                0 <= t <= 6,
                -2_400_000_000_000i64 <= lo <= hi <= 2_400_000_000_000i64,
                m == candles@.len(),
                count_rects(doc@) == m,
                doc_wf(doc@),
                doc@.len() >= dm.len(),
                forall|j: int| 0 <= j < dm.len() ==> #[trigger] doc@[j] == dm[j],
            decreases 6 - t,
        {
            let y = 540000 - 96000 * t;
            proof {
                assert(0 <= ((hi - lo) as int) * (t as int) <= 4_800_000_000_000int * 5)
                    by (nonlinear_arith)
                    requires
                        0 <= (hi - lo) as int <= 4_800_000_000_000int,
                        0 <= t <= 5,
                ;
            }
            let price = lo + ((((hi - lo) as u64) * (t as u64)) / 5u64) as i64;
            doc.push(
                Prim::Text {
                    x: 50000,
                    y: y + 4000,
                    attrs: String::from_str("class=\"axis-text\" text-anchor=\"end\""),
                    content: fmt_milli_2dp(price),
                },
            );
            t += 1;
        }
        // Sparse X-axis labels: only every eighth of the candles.
        let lbl_step: usize = if m / 8 >= 1 {
            m / 8
        } else {
            1
        };
        let mut c2: usize = 0;
        while c2 < m
            invariant
                m == candles@.len(),
                1 <= m <= MAX_POINTS,
                1 <= lbl_step,
                spacing == 680000int / m as int,
                0 <= spacing <= 680000,
                c2 <= m,
                count_rects(doc@) == m,
                doc_wf(doc@),
                doc@.len() >= dm.len(),
                forall|j: int| 0 <= j < dm.len() ==> #[trigger] doc@[j] == dm[j],
            decreases m - c2,
        {
            if c2 % lbl_step == 0 {
                proof {
                    assert(0 <= (c2 as int) * (spacing as int) <= 100_000int * 680000)
                        by (nonlinear_arith)
                        requires
                            0 <= c2 <= 100_000,
                            0 <= spacing <= 680000,
                    ;
                }
                let x = 60000 + (c2 as i64) * spacing + spacing / 2;
                let label: String = match &candles[c2].label {
                    Some(l) => l.clone(),
                    None => u64_str((c2 as u64) + 1),
                };
                doc.push(
                    Prim::Text {
                        x,
                        y: 560000,
                        attrs: String::from_str("class=\"axis-text\" text-anchor=\"middle\""),
                        content: label,
                    },
                );
            }
            c2 += 1;
        }
        if let Some(xl) = &request.x_label {
            doc.push(
                Prim::Text {
                    x: 400000,
                    y: 590000,
                    attrs: String::from_str("class=\"axis-text\" text-anchor=\"middle\""),
                    content: xl.clone(),
                },
            );
        }
        if let Some(yl) = &request.y_label {
            doc.push(
                Prim::Text {
                    x: 20000,
                    y: 300000,
                    attrs: String::from_str(
                        "class=\"axis-text\" text-anchor=\"middle\" transform=\"rotate(-90, 20, 300)\"",
                    ),
                    content: yl.clone(),
                },
            );
        }
        doc.push(Prim::Raw { markup: String::from_str("</svg>") });
        let out = render(&doc);
        proof {
            assert forall|j: int| 0 <= j < cvs.len() implies candle_ok(
                #[trigger] doc@[k + 3 * j],
                doc@[k + 3 * j + 1],
                doc@[k + 3 * j + 2],
                cvs[j],
                j,
                m as int,
                lo as int,
                hi as int,
            ) by {
                assert(doc@[k + 3 * j] == dm[k + 3 * j]);
                assert(doc@[k + 3 * j + 1] == dm[k + 3 * j + 1]);
                assert(doc@[k + 3 * j + 2] == dm[k + 3 * j + 2]);
            }
            assert(candle_doc_ok(cvs, rmin as int, rmax as int, doc@, k as int));
        }
        out
    }
}

/// The flat data value at an index stays within the engine's bounds.
pub open spec fn valid_data(request: &GraphRequest, i: int) -> bool {
    -(VALUE_LIMIT as int) <= request.data@[i] as int <= VALUE_LIMIT as int
}

/// Maps a price into the plot, clamping it into the padded range first.
fn price_y_exec(p: i64, lo: i64, hi: i64) -> (r: i64)
    requires
        -2_400_000_000_000i64 <= lo <= hi <= 2_400_000_000_000i64,
        -2_400_000_000_000i64 <= p <= 2_400_000_000_000i64,
    ensures
        r == price_y(p as int, lo as int, hi as int),
        60000 <= r <= 540000,
{
    let cp = if p < lo {
        lo
    } else if p > hi {
        hi
    } else {
        p
    };
    if hi <= lo {
        (540000 + 60000) / 2
    } else {
        proof {
            let a = (cp - lo) as int;
            let d = (hi - lo) as int;
            assert(0 <= a * 480000 <= 4_800_000_000_000int * 480000) by (nonlinear_arith)
                requires
                    0 <= a <= 4_800_000_000_000int,
            ;
            assert(a * 480000 <= d * 480000) by (nonlinear_arith)
                requires
                    a <= d,
            ;
            vstd::arithmetic::div_mod::lemma_div_pos_is_pos(a * 480000, d);
            vstd::arithmetic::div_mod::lemma_div_is_ordered(a * 480000, d * 480000, d);
            vstd::arithmetic::div_mod::lemma_div_multiples_vanish(480000, d);
            assert(d * 480000 == 480000 * d) by (nonlinear_arith);
        }
        540000 - ((((cp - lo) as u64) * 480000u64) / ((hi - lo) as u64)) as i64
    }
}

impl Chart for CandlestickChart {
    fn generate(&self, request: &GraphRequest) -> (svg: String) {
        CandlestickChart::generate(self, request)
    }
}

} // verus!
