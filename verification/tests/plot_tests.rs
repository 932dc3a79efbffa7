use dog_tv::plots::ClearCondition;
use dog_tv::plots::LineType;
use dog_tv::plots::PlotViewPacket;
use dog_tv::plots::ScalarCurve;
use dog_tv::plots::ScalarCurveStyle;
use dog_tv::plots::VecCurve;
use dog_tv::plots::VecCurveStyle;
use dog_tv::renderables::Color;

fn red() -> Color {
    Color { r: 255, g: 0, b: 0, a: 255 }
}

fn style() -> ScalarCurveStyle {
    ScalarCurveStyle { color: red(), line_type: LineType::LineStrip }
}

#[test]
fn append_keeps_samples_inside_the_retention_window() {
    let mut curve = ScalarCurve::new(
        vec![(0, 10), (10, 20)],
        red(),
        LineType::LineStrip,
        ClearCondition { max_x_range: 50 },
        None,
    );
    curve.append_to(vec![(100, 30)], style(), ClearCondition { max_x_range: 50 }, Some(7));
    // the newest abscissa is 100; only samples with x + 50 > 100 stay
    assert_eq!(curve.data, vec![(100, 30)]);
    assert_eq!(curve.v_line, Some(7));
}

#[test]
fn append_without_overflow_keeps_everything() {
    let mut curve = ScalarCurve::new(
        vec![(0, 1)],
        red(),
        LineType::Points,
        ClearCondition { max_x_range: 1000 },
        None,
    );
    curve.append_to(
        vec![(5, 2), (9, 3)],
        style(),
        ClearCondition { max_x_range: 1000 },
        None,
    );
    assert_eq!(curve.data, vec![(0, 1), (5, 2), (9, 3)]);
}

#[test]
fn append_to_empty_curve_is_the_new_data() {
    let mut curve = ScalarCurve::new(
        Vec::new(),
        red(),
        LineType::LineStrip,
        ClearCondition { max_x_range: 10 },
        None,
    );
    curve.append_to(vec![(3, 4)], style(), ClearCondition { max_x_range: 10 }, None);
    assert_eq!(curve.data, vec![(3, 4)]);
}

#[test]
fn vector_curves_retain_per_component_samples() {
    let mut curve: VecCurve<2> = VecCurve::new(
        vec![(0, [1, 2])],
        [red(), red()],
        LineType::LineStrip,
        ClearCondition { max_x_range: 5 },
        None,
    );
    curve.append_to(
        vec![(4, [3, 4]), (20, [5, 6])],
        VecCurveStyle { color: [red(), red()], line_type: LineType::LineStrip },
        ClearCondition { max_x_range: 5 },
        None,
    );
    assert_eq!(curve.data, vec![(20, [5, 6])]);
}

#[test]
fn plot_packets_carry_their_plot_name() {
    let p = PlotViewPacket::append_to_curve(
        "errors",
        "rmse",
        vec![(0, 1)],
        style(),
        ClearCondition { max_x_range: 10 },
        None,
    );
    assert_eq!(p.name(), "errors");
    let q = PlotViewPacket::append_to_curve_vec3(
        "pose",
        "translation",
        vec![(0, [1, 2, 3])],
        VecCurveStyle { color: [red(), red(), red()], line_type: LineType::Points },
        ClearCondition { max_x_range: 10 },
        Some(3),
    );
    assert_eq!(q.name(), "pose");
}
