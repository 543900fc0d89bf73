use gantt_chart::calendar::{days_in_month, is_leap, Date};
use gantt_chart::color::{hsv_to_rgb, resource_colors, HALF};
use gantt_chart::layout::{
    layout_chart, month_name, process_chart_data, ChartData, ItemData, LayoutError, RenderData,
    Resource,
};
use gantt_chart::logger::GanttChartLogger;
use gantt_chart::shapes::{chart_shapes, LineClass, Shape, TextClass};
use gantt_chart::styles::{chart_styles, closed_style_rule, open_style_rule, parse_hex_color};

const TITLE_WIDTH: u32 = 210;
const MONTH_WIDTH: u32 = 80;
// The left edge of the month area, in thirty-firsts: 31 * (210 + 10).
const AREA_LEFT: i64 = 6820;

fn date(y: i32, m: u32, d: u32) -> Option<Date> {
    Some(Date::from_ymd(y, m, d).unwrap())
}

fn item(title: &str, start: Option<Date>, duration: Option<i64>, resource: Option<usize>) -> ItemData {
    ItemData {
        title: title.to_string(),
        duration,
        start_date: start,
        resource_index: resource,
        open: None,
    }
}

fn chart(resources: &[&str], items: Vec<ItemData>, marked: Option<Date>) -> ChartData {
    ChartData {
        title: "P".to_string(),
        marked_date: marked,
        resources: resources.iter().map(|r| Resource { title: r.to_string(), color: None }).collect(),
        items,
    }
}

fn layout(data: &ChartData) -> Result<RenderData, LayoutError> {
    layout_chart(TITLE_WIDTH, MONTH_WIDTH, data, 0)
}

#[test]
fn single_task_single_resource() {
    let data = chart(&["Eng"], vec![item("A", date(2023, 1, 5), Some(10), Some(0))], None);
    let rd = layout(&data).unwrap();
    assert_eq!(rd.cols.len(), 1);
    assert_eq!(rd.cols[0].month_name, "Jan");
    assert_eq!(rd.cols[0].days, 31);
    assert_eq!(rd.cols[0].width, 80 * 31);
    assert_eq!(rd.rows.len(), 1);
    // 10 / 31 * 80 units.
    assert_eq!(rd.rows[0].length, Some(800));
    // 210 + 10 + 4 / 31 * 80 units.
    assert_eq!(rd.rows[0].offset, AREA_LEFT + 320);
    assert_eq!(rd.rows[0].resource_index, 0);
    assert_eq!(rd.title, "P");
    assert_eq!(rd.width, 31 * 230 + 80 * 31);
}

#[test]
fn task_and_milestone_carry_over() {
    let data = chart(
        &["Eng"],
        vec![item("A", date(2023, 1, 1), Some(20), Some(0)), item("M", None, None, None)],
        None,
    );
    let rd = layout(&data).unwrap();
    assert_eq!(rd.rows.len(), 2);
    assert_eq!(rd.rows[0].length, Some(1600));
    assert_eq!(rd.rows[0].offset, AREA_LEFT);
    assert_eq!(rd.rows[1].length, None);
    assert_eq!(rd.rows[1].offset, AREA_LEFT + 80 * 20);
    assert_eq!(rd.rows[1].resource_index, 0);
    assert_eq!(rd.rows[1].title, "M");
}

#[test]
fn cross_month_span() {
    let data = chart(&["Eng"], vec![item("A", date(2023, 1, 20), Some(20), Some(0))], None);
    let rd = layout(&data).unwrap();
    assert_eq!(rd.cols.len(), 2);
    assert_eq!(rd.cols[0].month_name, "Jan");
    assert_eq!(rd.cols[0].days, 31);
    assert_eq!(rd.cols[1].month_name, "Feb");
    assert_eq!(rd.cols[1].days, 28);
    assert_eq!(rd.cols[0].width * 28, rd.cols[1].width * 31);
}

#[test]
fn marked_date() {
    let data = chart(
        &["Eng"],
        vec![item("A", date(2023, 1, 10), Some(30), Some(0))],
        date(2023, 2, 1),
    );
    let rd = layout(&data).unwrap();
    assert_eq!(rd.cols.len(), 2);
    let total_width = (rd.cols[0].width + rd.cols[1].width) as i64;
    // 31 / 59 of the month area.
    assert_eq!(rd.marked_date_offset, Some(AREA_LEFT + 31 * total_width / 59));
    assert_eq!(rd.marked_date_offset, Some(AREA_LEFT + 80 * 31));
}

#[test]
fn invalid_resource_index() {
    let data = chart(&["A", "B"], vec![item("", date(2023, 1, 1), Some(1), Some(5))], None);
    assert_eq!(layout(&data).unwrap_err(), LayoutError::ResourceIndexOutOfRange);
}

#[test]
fn missing_first_start() {
    let data = chart(&["Eng"], vec![item("A", None, Some(1), Some(0))], None);
    assert_eq!(layout(&data).unwrap_err(), LayoutError::MissingFirstStart);
}

#[test]
fn missing_first_resource() {
    let data = chart(&["Eng"], vec![item("A", date(2023, 1, 1), Some(1), None)], None);
    assert_eq!(layout(&data).unwrap_err(), LayoutError::MissingFirstResource);
}

#[test]
fn no_resource_anywhere_fails() {
    let data = chart(
        &["Eng"],
        vec![item("A", date(2023, 1, 1), Some(1), None), item("B", None, Some(2), None)],
        None,
    );
    assert!(layout(&data).is_err());
}

#[test]
fn date_out_of_range() {
    let data = chart(&["Eng"], vec![item("A", date(262142, 12, 31), Some(1), Some(0))], None);
    assert_eq!(layout(&data).unwrap_err(), LayoutError::DateOutOfRange);
}

#[test]
fn first_error_wins() {
    let data = chart(
        &["Eng"],
        vec![item("A", date(2023, 1, 1), Some(1), Some(0)), item("B", None, Some(1), Some(3))],
        None,
    );
    assert_eq!(layout(&data).unwrap_err(), LayoutError::ResourceIndexOutOfRange);
}

#[test]
fn error_messages() {
    assert_eq!(LayoutError::MissingFirstStart.message(), "First item must contain a start date");
    assert_eq!(
        LayoutError::MissingFirstResource.message(),
        "First item must contain a resource index"
    );
    assert_eq!(LayoutError::ResourceIndexOutOfRange.message(), "Resource index is out of range");
}

#[test]
fn one_row_per_item() {
    let data = chart(
        &["Eng", "Ops"],
        vec![
            item("A", date(2023, 3, 1), Some(5), Some(0)),
            item("B", None, Some(5), Some(1)),
            item("C", None, None, None),
        ],
        None,
    );
    let rd = layout(&data).unwrap();
    assert_eq!(rd.rows.len(), 3);
    assert_eq!(rd.rows[2].resource_index, 1);
    assert_eq!(rd.rows[1].offset, AREA_LEFT + 80 * 5);
}

#[test]
fn single_month_project() {
    let data = chart(&["Eng"], vec![item("A", date(2023, 4, 2), Some(27), Some(0))], None);
    let rd = layout(&data).unwrap();
    assert_eq!(rd.cols.len(), 1);
    assert_eq!(rd.cols[0].month_name, "Apr");
    assert_eq!(rd.cols[0].days, 30);
}

#[test]
fn december_to_january() {
    let data = chart(&["Eng"], vec![item("A", date(2022, 12, 20), Some(20), Some(0))], None);
    let rd = layout(&data).unwrap();
    assert_eq!(rd.cols.len(), 2);
    assert_eq!(rd.cols[0].month_name, "Dec");
    assert_eq!(rd.cols[1].month_name, "Jan");
    assert_eq!(rd.cols[1].days, 31);
}

#[test]
fn milestone_on_last_day() {
    let data = chart(
        &["Eng"],
        vec![item("A", date(2023, 1, 1), Some(30), Some(0)), item("M", None, None, None)],
        None,
    );
    let rd = layout(&data).unwrap();
    assert_eq!(rd.cols.len(), 1);
    assert_eq!(rd.rows[1].offset, AREA_LEFT + 80 * 30);
    assert!(rd.rows[1].offset <= rd.width - 31 * 10);
}

#[test]
fn zero_duration_is_a_bar() {
    let data = chart(&["Eng"], vec![item("A", date(2023, 1, 1), Some(0), Some(0))], None);
    let rd = layout(&data).unwrap();
    assert_eq!(rd.rows[0].length, Some(0));
}

#[test]
fn positive_duration_positive_length() {
    let data = chart(&["Eng"], vec![item("A", date(2023, 1, 1), Some(1), Some(0))], None);
    let rd = layout(&data).unwrap();
    assert!(rd.rows[0].length.unwrap() > 0);
}

#[test]
fn rows_stay_inside_chart() {
    let data = chart(
        &["Eng"],
        vec![
            item("A", date(2023, 2, 10), Some(40), Some(0)),
            item("B", date(2023, 1, 31), Some(3), None),
            item("C", None, None, None),
        ],
        None,
    );
    let rd = layout(&data).unwrap();
    assert_eq!(rd.cols.len(), 3);
    for row in rd.rows.iter() {
        assert!(row.offset >= AREA_LEFT);
        assert!(row.offset + row.length.unwrap_or(0) <= rd.width - 31 * 10);
    }
}

#[test]
fn column_widths_sum() {
    let data = chart(&["Eng"], vec![item("A", date(2024, 1, 15), Some(60), Some(0))], None);
    let rd = layout(&data).unwrap();
    let widths: u64 = rd.cols.iter().map(|c| c.width).sum();
    let days: u64 = rd.cols.iter().map(|c| c.days as u64).sum();
    assert_eq!(rd.cols.len(), 3);
    assert_eq!(rd.cols[1].days, 29);
    assert_eq!(widths, 80 * days);
    assert_eq!(days, 31 + 29 + 31);
    assert_eq!(rd.width, 31 * 230 + widths as i64);
}

#[test]
fn size_independent_of_item_order() {
    let a = chart(
        &["Eng"],
        vec![
            item("A", date(2023, 1, 5), Some(10), Some(0)),
            item("B", date(2023, 3, 1), Some(10), Some(0)),
        ],
        None,
    );
    let b = chart(
        &["Eng"],
        vec![
            item("B", date(2023, 3, 1), Some(10), Some(0)),
            item("A", date(2023, 1, 5), Some(10), Some(0)),
        ],
        None,
    );
    let ra = layout(&a).unwrap();
    let rb = layout(&b).unwrap();
    assert_eq!(ra.width, rb.width);
    assert_eq!(ra.height(false), rb.height(false));
    assert_eq!(ra.height(true), rb.height(true));
}

#[test]
fn same_hue_same_layout() {
    let data = chart(
        &["Eng", "Ops"],
        vec![item("A", date(2023, 1, 5), Some(10), Some(0)), item("B", None, Some(3), Some(1))],
        date(2023, 1, 9),
    );
    let a = layout_chart(TITLE_WIDTH, MONTH_WIDTH, &data, 12345).unwrap();
    let b = layout_chart(TITLE_WIDTH, MONTH_WIDTH, &data, 12345).unwrap();
    assert_eq!(format!("{:?}", a), format!("{:?}", b));
}

#[test]
fn height_with_and_without_table() {
    let data = chart(&["Eng"], vec![item("A", date(2023, 1, 5), Some(10), Some(0))], None);
    let rd = layout(&data).unwrap();
    assert_eq!(rd.height(false), 80 + 30 + 10);
    assert_eq!(rd.height(true), 80 + 30 + 20 + 30 + 10);
}

#[test]
fn empty_project() {
    let data = chart(&["Eng"], vec![], None);
    assert_eq!(layout(&data).unwrap_err(), LayoutError::MissingFirstStart);
    let marked = chart(&["Eng"], vec![], date(2023, 1, 1));
    assert_eq!(layout(&marked).unwrap_err(), LayoutError::MissingFirstStart);
}

#[test]
fn random_hue_layout_has_colors() {
    let data = chart(&["Eng", "Ops", "QA"], vec![item("A", date(2023, 1, 5), Some(10), Some(0))], None);
    let rd = process_chart_data(TITLE_WIDTH, MONTH_WIDTH, &data).unwrap();
    assert_eq!(rd.resource_colors.len(), 3);
    assert_eq!(rd.resources, vec!["Eng", "Ops", "QA"]);
}

#[test]
fn calendar_helpers() {
    assert_eq!(days_in_month(2023, 2), 28);
    assert_eq!(days_in_month(2024, 2), 29);
    assert_eq!(days_in_month(1900, 2), 28);
    assert_eq!(days_in_month(2000, 2), 29);
    assert_eq!(days_in_month(2023, 12), 31);
    assert!(is_leap(-4));
    assert!(!is_leap(-1));
    assert_eq!(Date::from_ymd(1, 1, 1).unwrap().day_number(), 1);
    assert_eq!(Date::from_ymd(1970, 1, 1).unwrap().day_number(), 719_163);
    assert_eq!(Date::from_ymd(0, 1, 1).unwrap().day_number(), -365);
    assert_eq!(Date::from_ymd(1999, 9, 3).unwrap().day_number(), 730_000);
    assert!(Date::from_ymd(2023, 2, 29).is_none());
    assert!(Date::from_ymd(2023, 13, 1).is_none());
    assert_eq!(month_name(1), "Jan");
    assert_eq!(month_name(12), "Dec");
}

#[test]
fn hsv_conversion() {
    assert_eq!(hsv_to_rgb(0, 0, HALF), 0x808080);
    // Value one would reach 256 in a channel: it is held at 255.
    assert_eq!(hsv_to_rgb(0, 0, 65536), 0xffffff);
    assert_eq!(hsv_to_rgb(0, 0, u32::MAX), 0xffffff);
    // Saturation above one counts as one.
    assert_eq!(hsv_to_rgb(0, u32::MAX, HALF), hsv_to_rgb(0, 65536, HALF));
    assert_eq!(hsv_to_rgb(0, 65536, HALF), 0x800000);
    assert_eq!(hsv_to_rgb(0, HALF, HALF), 0x804040);
    // A third of a turn is green.
    assert_eq!(hsv_to_rgb(0x5555_5556, HALF, HALF), 0x408040);
    let colors = resource_colors(3, 0);
    assert_eq!(colors.len(), 3);
    assert_eq!(colors[0], 0x804040);
    assert_ne!(colors[1], colors[0]);
}

#[test]
fn logger_builds() {
    assert_eq!(GanttChartLogger::new(), GanttChartLogger {});
}

fn text_of(shape: &Shape) -> (TextClass, i128, i128, String) {
    match shape {
        Shape::Text { style, x, y, text } => (*style, *x, *y, text.clone()),
        other => panic!("not a text: {:?}", other),
    }
}

fn line_of(shape: &Shape) -> (LineClass, i128, i128, i128, i128) {
    match shape {
        Shape::Line { class, x1, y1, x2, y2 } => (*class, *x1, *y1, *x2, *y2),
        other => panic!("not a line: {:?}", other),
    }
}

#[test]
fn grid_lines() {
    let data = chart(
        &["Eng"],
        vec![item("A", date(2023, 1, 20), Some(20), Some(0)), item("M", None, None, None)],
        None,
    );
    let rd = layout(&data).unwrap();
    let s = chart_shapes(&rd, false);
    assert_eq!(s.row_lines.len(), 3);
    assert_eq!(s.column_lines.len(), 3);
    assert_eq!(line_of(&s.row_lines[0]).0, LineClass::Outer);
    assert_eq!(line_of(&s.row_lines[1]).0, LineClass::Inner);
    assert_eq!(line_of(&s.row_lines[2]).0, LineClass::Outer);
    // Rows start at 80 and are 30 high; x runs from the left gutter to the right one.
    assert_eq!(line_of(&s.row_lines[1]), (LineClass::Inner, 620, 62 * 110, 2 * rd.width as i128 - 620, 62 * 110));
    // Column lines span the rows only.
    assert_eq!(line_of(&s.column_lines[0]), (LineClass::Inner, 62 * 220, 62 * 80, 62 * 220, 62 * 140));
    assert_eq!(line_of(&s.column_lines[2]).1, 62 * 220 + 2 * (80 * 31 + 80 * 28));
    assert_eq!(s.width, 2 * rd.width as i128);
    assert_eq!(s.width, 62 * 230 + 2 * (80 * 31 + 80 * 28));
    assert_eq!(s.height, 62 * (80 + 60 + 10));
}

#[test]
fn month_labels_centred() {
    let data = chart(&["Eng"], vec![item("A", date(2023, 1, 20), Some(20), Some(0))], None);
    let rd = layout(&data).unwrap();
    let s = chart_shapes(&rd, false);
    assert_eq!(s.column_labels.len(), 2);
    // Half of a 31-day and of a 28-day month, in sixty-seconds.
    assert_eq!(text_of(&s.column_labels[0]), (TextClass::Heading, 62 * 220 + 80 * 31, 62 * 75 - 31 * 30, "Jan".to_string()));
    assert_eq!(text_of(&s.column_labels[1]).1, 62 * 220 + 2 * 80 * 31 + 80 * 28);
    assert_eq!(text_of(&s.tasks_label), (TextClass::TaskHeading, 62 * 15, 62 * 75 - 31 * 30, "Tasks".to_string()));
    assert_eq!(text_of(&s.title), (TextClass::Title, 620, 62 * 25, "P".to_string()));
}

#[test]
fn bar_and_diamond() {
    let data = chart(
        &["Eng"],
        vec![item("A", date(2023, 1, 1), Some(20), Some(0)), item("M", None, None, None)],
        None,
    );
    let rd = layout(&data).unwrap();
    let s = chart_shapes(&rd, false);
    match &s.row_marks[0] {
        Shape::Bar { resource, open, x, y, width, height, radius } => {
            assert_eq!((*resource, *open), (0, false));
            assert_eq!((*x, *y, *width, *height, *radius), (2 * 6820, 62 * 85, 2 * 1600, 62 * 20, 62 * 3));
        }
        other => panic!("expected a bar: {:?}", other),
    }
    match &s.row_marks[1] {
        Shape::Diamond { x, y, half } => {
            assert_eq!((*x, *y, *half), (2 * (6820 + 1600), 62 * 115 + 620, 620));
        }
        other => panic!("expected a diamond: {:?}", other),
    }
    assert_eq!(text_of(&s.row_labels[1]), (TextClass::Item, 62 * 15, 62 * 115 + 31 * 30, "M".to_string()));
}

#[test]
fn marker_line_spans_rows() {
    let data = chart(
        &["Eng"],
        vec![item("A", date(2023, 1, 10), Some(30), Some(0))],
        date(2023, 2, 1),
    );
    let rd = layout(&data).unwrap();
    let s = chart_shapes(&rd, false);
    let x = 2 * rd.marked_date_offset.unwrap() as i128;
    assert_eq!(line_of(s.marker.as_ref().unwrap()), (LineClass::Marker, x, 62 * 75, x, 62 * 115));
    let plain = layout(&chart(&["Eng"], vec![item("A", date(2023, 1, 10), Some(30), Some(0))], None)).unwrap();
    assert!(chart_shapes(&plain, false).marker.is_none());
}

#[test]
fn legend_only_when_asked() {
    let data = chart(&["Eng", "Ops"], vec![item("A", date(2023, 1, 10), Some(3), Some(0))], None);
    let rd = layout(&data).unwrap();
    let without = chart_shapes(&rd, false);
    assert!(without.legend_swatches.is_empty());
    assert!(without.legend_labels.is_empty());
    let with = chart_shapes(&rd, true);
    assert_eq!(with.legend_swatches.len(), 2);
    match &with.legend_swatches[1] {
        Shape::Swatch { resource, x, y, size, radius } => {
            assert_eq!((*resource, *x, *y, *size, *radius), (1, 62 * 215, 62 * 120, 62 * 20, 62 * 3));
        }
        other => panic!("expected a swatch: {:?}", other),
    }
    assert_eq!(text_of(&with.legend_labels[1]), (TextClass::Resource, 62 * 205, 62 * 110 + 31 * 40, "Ops".to_string()));
    assert_eq!(with.height, 62 * (80 + 30 + 50 + 10));
}

#[test]
fn style_rules() {
    assert_eq!(closed_style_rule(3, 0x0a0b0c), ".resource-3-closed{fill:#0a0b0c;stroke-width:1;stroke:#0a0b0c;}");
    assert_eq!(open_style_rule(12, 0x804040), ".resource-12-open{fill:none;stroke-width:2;stroke:#804040;}");
    let styles = chart_styles(&vec![0xff0000, 0x00ff00]);
    assert_eq!(styles.len(), 13);
    assert_eq!(styles[0], ".outer-lines{stroke-width:3;stroke:#aaaaaa;}");
    assert_eq!(styles[8], ".marker{stroke-width:2;stroke:#888888;stroke-dasharray:7;}");
    assert_eq!(styles[11], ".resource-1-closed{fill:#00ff00;stroke-width:1;stroke:#00ff00;}");
}

#[test]
fn hex_colors() {
    assert_eq!(parse_hex_color("#a1B2c3"), Some(0xa1b2c3));
    assert_eq!(parse_hex_color("#000000"), Some(0));
    assert_eq!(parse_hex_color("a1b2c3"), None);
    assert_eq!(parse_hex_color("#a1b2c"), None);
    assert_eq!(parse_hex_color("#a1b2cg"), None);
}

#[test]
fn explicit_colors_are_kept() {
    let mut data = chart(&["Eng", "Ops"], vec![item("A", date(2023, 1, 10), Some(3), Some(0))], None);
    data.resources[0].color = Some(0x123456);
    let rd = layout_chart(TITLE_WIDTH, MONTH_WIDTH, &data, 0).unwrap();
    assert_eq!(rd.resource_colors[0], 0x123456);
    assert_eq!(rd.resource_colors[1], resource_colors(2, 0)[1]);
    assert_eq!(rd.styles.len(), 13);
    assert_eq!(rd.styles[9], ".resource-0-closed{fill:#123456;stroke-width:1;stroke:#123456;}");
}
