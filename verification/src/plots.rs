//! Plot curves: scalar and vector curves with optional confidence bands, a
//! retention window, and an optional vertical marker line.
//!
//! These packets are routed as an opaque sibling of the render core; the only
//! logic they carry is the append-and-retain rule: appended samples join the
//! curve, then every sample whose abscissa has fallen more than the retention
//! window behind the newest one is dropped.

use vstd::prelude::*;

use crate::renderables::Color;

verus! {

/// Clear condition: the maximum retained x-range.
#[derive(Clone, Copy, Debug, PartialEq, Eq, Structural)]
pub struct ClearCondition {
    /// Samples older than the newest x minus this range are dropped.
    pub max_x_range: i64,
}

/// How a curve is drawn.
#[derive(Clone, Copy, Debug, PartialEq, Eq, Structural)]
pub enum LineType {
    /// A solid line strip.
    LineStrip,
    /// Individual points.
    Points,
}

/// The greatest abscissa in a sample sequence (the least `i64` if empty).
pub open spec fn max_abscissa<D>(s: Seq<(i64, D)>) -> int
    decreases s.len(),
{
    if s.len() == 0 {
        i64::MIN as int
    } else {
        let rest = max_abscissa(s.drop_last());
        if s.last().0 >= rest {
            s.last().0 as int
        } else {
            rest
        }
    }
}

/// The samples of `s` whose abscissa lies within `range` of `m`, in order.
pub open spec fn retained_samples<D>(s: Seq<(i64, D)>, m: int, range: int) -> Seq<(i64, D)>
    decreases s.len(),
{
    if s.len() == 0 {
        Seq::empty()
    } else {
        let rest = retained_samples(s.drop_last(), m, range);
        if s.last().0 + range > m {
            rest.push(s.last())
        } else {
            rest
        }
    }
}

/// The greatest abscissa of a sample list.
fn compute_max_abscissa<D>(data: &Vec<(i64, D)>) -> (m: i64)
    ensures
        m == max_abscissa(data@),
{
    let mut m: i64 = i64::MIN;
    let mut i: usize = 0;
    while i < data.len()
        invariant
            i <= data.len(),
            m == max_abscissa(data@.subrange(0, i as int)),
        decreases data.len() - i,
    {
        proof {
            assert(data@.subrange(0, i + 1 as int).drop_last() =~= data@.subrange(0, i as int));
            assert(data@.subrange(0, i + 1 as int).last() == data@[i as int]);
        }
        if data[i].0 >= m {
            m = data[i].0;
        }
        i += 1;
    }
    proof {
        assert(data@.subrange(0, data@.len() as int) =~= data@);
    }
    m
}

/// Appends new samples, then drops every sample whose abscissa lies more than
/// the retention window behind the greatest one.
fn append_and_drain<D>(data: &mut Vec<(i64, D)>, new_tuples: Vec<(i64, D)>, clear_cond: ClearCondition)
    ensures
        final(data)@ == retained_samples(
            old(data)@ + new_tuples@,
            max_abscissa(old(data)@ + new_tuples@),
            clear_cond.max_x_range as int,
        ),
{
    let mut incoming = new_tuples;
    data.append(&mut incoming);
    let ghost all = data@;
    let m = compute_max_abscissa(data);
    let range = clear_cond.max_x_range;
    let mut kept: Vec<(i64, D)> = Vec::new();
    while data.len() > 0
        invariant
            m == max_abscissa(all),
            data@.len() <= all.len(),
            data@ == all.subrange(all.len() - data@.len(), all.len() as int),
            kept@ == retained_samples(
                all.subrange(0, all.len() - data@.len()),
                m as int,
                range as int,
            ),
        decreases data.len(),
    {
        let ghost j = all.len() - data@.len();
        let pair = data.remove(0);
        proof {
            assert(all.subrange(j as int, all.len() as int)[0] == all[j as int]);
            assert(data@ =~= all.subrange(j + 1, all.len() as int));
            assert(all.subrange(0, j + 1).drop_last() =~= all.subrange(0, j as int));
            assert(all.subrange(0, j + 1).last() == all[j as int]);
        }
        let keep = (pair.0 as i128) + (range as i128) > m as i128;
        if keep {
            kept.push(pair);
        }
    }
    proof {
        assert(all.subrange(0, all.len() as int) =~= all);
    }
    *data = kept;
}

} // verus!

verus! {

/// Scalar curve style.
#[derive(Clone, Copy, Debug, PartialEq, Eq, Structural)]
pub struct ScalarCurveStyle {
    /// Curve color.
    pub color: Color,
    /// Line type.
    pub line_type: LineType,
}

/// A scalar curve: samples `(x, y)` with a retention window and an optional
/// vertical marker line.
pub struct ScalarCurve {
    /// The samples, in append order.
    pub data: Vec<(i64, i64)>,
    /// How the curve is drawn.
    pub style: ScalarCurveStyle,
    /// The retention window.
    pub clear_cond: ClearCondition,
    /// Abscissa of the vertical marker line, if any.
    pub v_line: Option<i64>,
}

impl ScalarCurve {
    /// A new scalar curve.
    pub fn new(
        data: Vec<(i64, i64)>,
        color: Color,
        line_type: LineType,
        clear_cond: ClearCondition,
        v_line: Option<i64>,
    ) -> (r: ScalarCurve)
        ensures
            r.data == data,
            r.style == (ScalarCurveStyle { color, line_type }),
            r.clear_cond == clear_cond,
            r.v_line == v_line,
    {
        ScalarCurve { data, style: ScalarCurveStyle { color, line_type }, clear_cond, v_line }
    }

    /// Appends samples, drops the ones that fell out of the retention window,
    /// and adopts the new style and marker line.
    pub fn append_to(
        &mut self,
        new_tuples: Vec<(i64, i64)>,
        style: ScalarCurveStyle,
        clear_cond: ClearCondition,
        v_line: Option<i64>,
    )
        ensures
            final(self).data@ == retained_samples(
                old(self).data@ + new_tuples@,
                max_abscissa(old(self).data@ + new_tuples@),
                clear_cond.max_x_range as int,
            ),
            final(self).style == style,
            final(self).clear_cond == clear_cond,
            final(self).v_line == v_line,
    {
        append_and_drain(&mut self.data, new_tuples, clear_cond);
        self.style = style;
        self.clear_cond = clear_cond;
        self.v_line = v_line;
    }
}

/// Vector curve style.
#[derive(Clone, Copy, Debug)]
pub struct VecCurveStyle<const N: usize> {
    /// Per-component colors.
    pub color: [Color; N],
    /// Line type.
    pub line_type: LineType,
}

/// A vector curve: samples `(x, [y; N])`.
pub struct VecCurve<const N: usize> {
    /// The samples, in append order.
    pub data: Vec<(i64, [i64; N])>,
    /// How the curve is drawn.
    pub style: VecCurveStyle<N>,
    /// The retention window.
    pub clear_cond: ClearCondition,
    /// Abscissa of the vertical marker line, if any.
    pub v_line: Option<i64>,
}

impl<const N: usize> VecCurve<N> {
    /// A new vector curve.
    pub fn new(
        data: Vec<(i64, [i64; N])>,
        color: [Color; N],
        line_type: LineType,
        clear_cond: ClearCondition,
        v_line: Option<i64>,
    ) -> (r: VecCurve<N>)
        ensures
            r.data == data,
            r.style == (VecCurveStyle { color, line_type }),
            r.clear_cond == clear_cond,
            r.v_line == v_line,
    {
        VecCurve { data, style: VecCurveStyle { color, line_type }, clear_cond, v_line }
    }

    /// Appends samples, drops the ones that fell out of the retention window,
    /// and adopts the new style and marker line.
    pub fn append_to(
        &mut self,
        new_tuples: Vec<(i64, [i64; N])>,
        style: VecCurveStyle<N>,
        clear_cond: ClearCondition,
        v_line: Option<i64>,
    )
        ensures
            final(self).data@ == retained_samples(
                old(self).data@ + new_tuples@,
                max_abscissa(old(self).data@ + new_tuples@),
                clear_cond.max_x_range as int,
            ),
            final(self).style == style,
            final(self).clear_cond == clear_cond,
            final(self).v_line == v_line,
    {
        append_and_drain(&mut self.data, new_tuples, clear_cond);
        self.style = style;
        self.clear_cond = clear_cond;
        self.v_line = v_line;
    }
}

/// Confidence-band curve style.
#[derive(Clone, Copy, Debug)]
pub struct VecConfCurveStyle<const N: usize> {
    /// Per-component colors.
    pub color: [Color; N],
    /// Per-component confidence band colors.
    pub conf_color: [Color; N],
}

/// A vector curve with confidence intervals: samples `(x, ([y; N], [e; N]))`.
pub struct VecConfCurve<const N: usize> {
    /// The samples, in append order.
    pub data: Vec<(i64, ([i64; N], [i64; N]))>,
    /// How the curve is drawn.
    pub style: VecConfCurveStyle<N>,
    /// The retention window.
    pub clear_cond: ClearCondition,
    /// Abscissa of the vertical marker line, if any.
    pub v_line: Option<i64>,
}

impl<const N: usize> VecConfCurve<N> {
    /// A new vector curve with confidence intervals.
    pub fn new(
        data: Vec<(i64, ([i64; N], [i64; N]))>,
        color: [Color; N],
        conf_color: [Color; N],
        clear_cond: ClearCondition,
        v_line: Option<i64>,
    ) -> (r: VecConfCurve<N>)
        ensures
            r.data == data,
            r.style == (VecConfCurveStyle { color, conf_color }),
            r.clear_cond == clear_cond,
            r.v_line == v_line,
    {
        VecConfCurve { data, style: VecConfCurveStyle { color, conf_color }, clear_cond, v_line }
    }

    /// Appends samples, drops the ones that fell out of the retention window,
    /// and adopts the new style and marker line.
    pub fn append_to(
        &mut self,
        new_tuples: Vec<(i64, ([i64; N], [i64; N]))>,
        style: VecConfCurveStyle<N>,
        clear_cond: ClearCondition,
        v_line: Option<i64>,
    )
        ensures
            final(self).data@ == retained_samples(
                old(self).data@ + new_tuples@,
                max_abscissa(old(self).data@ + new_tuples@),
                clear_cond.max_x_range as int,
            ),
            final(self).style == style,
            final(self).clear_cond == clear_cond,
            final(self).v_line == v_line,
    {
        append_and_drain(&mut self.data, new_tuples, clear_cond);
        self.style = style;
        self.clear_cond = clear_cond;
        self.v_line = v_line;
    }
}

/// A scalar curve addressed to one plot and one graph within it.
pub struct NamedScalarCurve {
    /// Plot name.
    pub plot_name: String,
    /// Graph name within the plot.
    pub graph_name: String,
    /// The curve payload.
    pub scalar_curve: ScalarCurve,
}

/// A vector curve addressed to one plot and one graph within it.
pub struct NamedVecCurve<const N: usize> {
    /// Plot name.
    pub plot_name: String,
    /// Graph name within the plot.
    pub graph_name: String,
    /// The curve payload.
    pub scalar_curve: VecCurve<N>,
}

/// A confidence-band curve addressed to one plot and one graph within it.
pub struct NamedVecConfCurve<const N: usize> {
    /// Plot name.
    pub plot_name: String,
    /// Graph name within the plot.
    pub graph_name: String,
    /// The curve payload.
    pub scalar_curve: VecConfCurve<N>,
}

/// A packet addressed to a plot view.
pub enum PlotViewPacket {
    /// A scalar curve.
    Scalar(NamedScalarCurve),
    /// A 2-vector curve.
    Vec2(NamedVecCurve<2>),
    /// A 2-vector curve with confidence intervals.
    Vec2Conf(NamedVecConfCurve<2>),
    /// A 3-vector curve.
    Vec3(NamedVecCurve<3>),
    /// A 3-vector curve with confidence intervals.
    Vec3Conf(NamedVecConfCurve<3>),
}

impl PlotViewPacket {
    /// The plot name this packet addresses.
    pub open spec fn name_spec(&self) -> Seq<char> {
        match self {
            PlotViewPacket::Scalar(c) => c.plot_name@,
            PlotViewPacket::Vec2(c) => c.plot_name@,
            PlotViewPacket::Vec2Conf(c) => c.plot_name@,
            PlotViewPacket::Vec3(c) => c.plot_name@,
            PlotViewPacket::Vec3Conf(c) => c.plot_name@,
        }
    }

    /// The plot name this packet addresses.
    pub fn name(&self) -> (n: String)
        ensures
            n@ == self.name_spec(),
    {
        match self {
            PlotViewPacket::Scalar(c) => c.plot_name.clone(),
            PlotViewPacket::Vec2(c) => c.plot_name.clone(),
            PlotViewPacket::Vec2Conf(c) => c.plot_name.clone(),
            PlotViewPacket::Vec3(c) => c.plot_name.clone(),
            PlotViewPacket::Vec3Conf(c) => c.plot_name.clone(),
        }
    }

    /// A packet that appends samples to a scalar curve.
    pub fn append_to_curve(
        plot: &str,
        graph: &str,
        data: Vec<(i64, i64)>,
        style: ScalarCurveStyle,
        clear_cond: ClearCondition,
        v_line: Option<i64>,
    ) -> (r: PlotViewPacket)
        ensures
            r matches PlotViewPacket::Scalar(c) && c.plot_name@ == plot@ && c.graph_name@ == graph@
                && c.scalar_curve.data == data && c.scalar_curve.style == style
                && c.scalar_curve.clear_cond == clear_cond && c.scalar_curve.v_line == v_line,
    {
        PlotViewPacket::Scalar(
            NamedScalarCurve {
                plot_name: plot.to_owned(),
                graph_name: graph.to_owned(),
                scalar_curve: ScalarCurve { data, style, clear_cond, v_line },
            },
        )
    }

    /// A packet that appends samples to a 2-vector curve.
    pub fn append_to_curve_vec2(
        plot: &str,
        graph: &str,
        data: Vec<(i64, [i64; 2])>,
        style: VecCurveStyle<2>,
        clear_cond: ClearCondition,
        v_line: Option<i64>,
    ) -> (r: PlotViewPacket)
        ensures
            r matches PlotViewPacket::Vec2(c) && c.plot_name@ == plot@ && c.graph_name@ == graph@
                && c.scalar_curve.data == data && c.scalar_curve.style == style
                && c.scalar_curve.clear_cond == clear_cond && c.scalar_curve.v_line == v_line,
    {
        PlotViewPacket::Vec2(
            NamedVecCurve {
                plot_name: plot.to_owned(),
                graph_name: graph.to_owned(),
                scalar_curve: VecCurve { data, style, clear_cond, v_line },
            },
        )
    }

    /// A packet that appends samples to a 3-vector curve.
    pub fn append_to_curve_vec3(
        plot: &str,
        graph: &str,
        data: Vec<(i64, [i64; 3])>,
        style: VecCurveStyle<3>,
        clear_cond: ClearCondition,
        v_line: Option<i64>,
    ) -> (r: PlotViewPacket)
        ensures
            r matches PlotViewPacket::Vec3(c) && c.plot_name@ == plot@ && c.graph_name@ == graph@
                && c.scalar_curve.data == data && c.scalar_curve.style == style
                && c.scalar_curve.clear_cond == clear_cond && c.scalar_curve.v_line == v_line,
    {
        PlotViewPacket::Vec3(
            NamedVecCurve {
                plot_name: plot.to_owned(),
                graph_name: graph.to_owned(),
                scalar_curve: VecCurve { data, style, clear_cond, v_line },
            },
        )
    }

    /// A packet that appends samples to a 2-vector confidence-band curve.
    pub fn append_to_curve_vec2_with_conf(
        plot: &str,
        graph: &str,
        data: Vec<(i64, ([i64; 2], [i64; 2]))>,
        style: VecConfCurveStyle<2>,
        clear_cond: ClearCondition,
        v_line: Option<i64>,
    ) -> (r: PlotViewPacket)
        ensures
            r matches PlotViewPacket::Vec2Conf(c) && c.plot_name@ == plot@ && c.graph_name@
                == graph@ && c.scalar_curve.data == data && c.scalar_curve.style == style
                && c.scalar_curve.clear_cond == clear_cond && c.scalar_curve.v_line == v_line,
    {
        PlotViewPacket::Vec2Conf(
            NamedVecConfCurve {
                plot_name: plot.to_owned(),
                graph_name: graph.to_owned(),
                scalar_curve: VecConfCurve { data, style, clear_cond, v_line },
            },
        )
    }

    /// A packet that appends samples to a 3-vector confidence-band curve.
    pub fn append_to_curve_vec3_with_conf(
        plot: &str,
        graph: &str,
        data: Vec<(i64, ([i64; 3], [i64; 3]))>,
        style: VecConfCurveStyle<3>,
        clear_cond: ClearCondition,
        v_line: Option<i64>,
    ) -> (r: PlotViewPacket)
        ensures
            r matches PlotViewPacket::Vec3Conf(c) && c.plot_name@ == plot@ && c.graph_name@
                == graph@ && c.scalar_curve.data == data && c.scalar_curve.style == style
                && c.scalar_curve.clear_cond == clear_cond && c.scalar_curve.v_line == v_line,
    {
        PlotViewPacket::Vec3Conf(
            NamedVecConfCurve {
                plot_name: plot.to_owned(),
                graph_name: graph.to_owned(),
                scalar_curve: VecConfCurve { data, style, clear_cond, v_line },
            },
        )
    }
}

} // verus!
