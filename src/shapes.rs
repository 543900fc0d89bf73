//! The drawing geometry of a laid-out chart: grid lines, labels, bars,
//! milestone diamonds, the marker line and the resource legend.
//!
//! Every coordinate is counted in `1 / SHAPE_SCALE` units, which holds the
//! `1 / X_SCALE` positions of the layout and the halves that centre labels.

use vstd::prelude::*;
use crate::layout::{ColumnRenderData, RenderData};

verus! {

/// Shape coordinates are counted in `1 / SHAPE_SCALE` units.
pub const SHAPE_SCALE: u32 = 62;

/// Baseline of the chart title.
pub const TITLE_BASELINE: u32 = 25;

/// How far the marker line reaches above and below the rows.
pub const MARKER_OVERSHOOT: u32 = 5;

/// Distance between two legend entries.
pub const LEGEND_SPACING: u32 = 100;

/// Gap between a legend entry's position and its swatch, or its label.
pub const LEGEND_GAP: u32 = 5;

#[derive(Clone, Copy, Debug, PartialEq, Eq, Structural)]
pub enum LineClass {
    /// The top and bottom grid lines.
    Outer,
    /// The other grid lines.
    Inner,
    /// The marked-date line.
    Marker,
}

#[derive(Clone, Copy, Debug, PartialEq, Eq, Structural)]
pub enum TextClass {
    Title,
    Heading,
    TaskHeading,
    Item,
    Resource,
}

/// One drawing primitive.
#[derive(Debug)]
pub enum Shape {
    Line { class: LineClass, x1: i128, y1: i128, x2: i128, y2: i128 },
    Text { style: TextClass, x: i128, y: i128, text: String },
    /// A task bar with rounded corners, in the colour of `resource`.
    Bar { resource: usize, open: bool, x: i128, y: i128, width: i128, height: i128, radius: i128 },
    /// A milestone: a diamond centred on `(x, y)`, `half` from centre to tip.
    Diamond { x: i128, y: i128, half: i128 },
    /// A filled square in the colour of `resource`, for the legend.
    Swatch { resource: usize, x: i128, y: i128, size: i128, radius: i128 },
}

/// Everything a back end draws, in drawing order.
#[derive(Debug)]
pub struct ChartShapes {
    pub width: i128,
    pub height: i128,
    pub title: Shape,
    pub column_lines: Vec<Shape>,
    pub column_labels: Vec<Shape>,
    pub tasks_label: Shape,
    pub row_lines: Vec<Shape>,
    pub row_labels: Vec<Shape>,
    pub row_marks: Vec<Shape>,
    pub marker: Option<Shape>,
    pub legend_swatches: Vec<Shape>,
    pub legend_labels: Vec<Shape>,
}

pub open spec fn is_line(s: Shape, class: LineClass, x1: int, y1: int, x2: int, y2: int) -> bool {
    match s {
        Shape::Line { class: c, x1: a, y1: b, x2: p, y2: q } =>
            c == class && a == x1 && b == y1 && p == x2 && q == y2,
        _ => false,
    }
}

pub open spec fn is_text(s: Shape, class: TextClass, x: int, y: int, text: Seq<char>) -> bool {
    match s {
        Shape::Text { style: c, x: a, y: b, text: t } => c == class && a == x && b == y && t@ == text,
        _ => false,
    }
}

/// Sum of the widths of the columns before column `i`.
pub open spec fn widths_before(cols: Seq<ColumnRenderData>, i: int) -> int
    decreases i,
{
    if i <= 0 { 0 } else { widths_before(cols, i - 1) + cols[i - 1].width }
}

pub open spec fn scaled(v: int) -> int {
    (SHAPE_SCALE as int) * v
}

/// Top of row `i` (and of the grid line above it).
pub open spec fn row_y(rd: RenderData, i: int) -> int {
    scaled(rd.gutter.top + i * rd.row_height)
}

/// Bottom of the rows area.
pub open spec fn rows_bottom(rd: RenderData) -> int {
    row_y(rd, rd.rows@.len() as int)
}

/// Left edge of column `i` (and of the grid line at it).
pub open spec fn column_x(rd: RenderData, i: int) -> int {
    scaled(rd.gutter.left + rd.title_width) + 2 * widths_before(rd.cols@, i)
}

/// Baseline of the month and "Tasks" headings.
pub open spec fn heading_y(rd: RenderData) -> int {
    scaled(rd.gutter.top as int - rd.row_gutter.bottom) - 31 * rd.row_height
}

/// Height of a bar or of a diamond.
pub open spec fn mark_height(rd: RenderData) -> int {
    scaled(rd.row_height - (rd.row_gutter.bottom + rd.row_gutter.top))
}

pub open spec fn chart_height(rd: RenderData, add_resource_table: bool) -> int {
    rd.gutter.top + rd.rows@.len() * rd.row_height + (if add_resource_table {
        rd.resource_gutter.bottom + rd.resource_gutter.top + rd.row_height
    } else {
        0
    }) + rd.gutter.bottom
}

/// The mark of row `i`: a bar for a task, a diamond for a milestone.
pub open spec fn is_row_mark(s: Shape, rd: RenderData, i: int) -> bool {
    let row = rd.rows@[i];
    let top = row_y(rd, i) + scaled(rd.row_gutter.top as int);
    match row.length {
        Some(l) => s == (Shape::Bar {
            resource: row.resource_index,
            open: row.open,
            x: (2 * row.offset) as i128,
            y: top as i128,
            width: (2 * l) as i128,
            height: mark_height(rd) as i128,
            radius: scaled(rd.rect_corner_radius as int) as i128,
        }),
        None => s == (Shape::Diamond {
            x: (2 * row.offset) as i128,
            y: (top + mark_height(rd) / 2) as i128,
            half: (mark_height(rd) / 2) as i128,
        }),
    }
}

/// Left of legend entry `i`, before the gap to its swatch or label.
pub open spec fn legend_x(rd: RenderData, i: int) -> int {
    scaled(rd.resource_gutter.left + (i + 1) * (LEGEND_SPACING as int))
}

impl ChartShapes {
    /// The shapes that draw `rd`, with the resource legend when asked for.
    pub open spec fn draws(self, rd: RenderData, add_resource_table: bool) -> bool {
        let n = rd.rows@.len() as int;
        let m = rd.cols@.len() as int;
        let left = scaled(rd.gutter.left as int);
        let right = column_x(rd, m);
        &&& self.width == right + scaled(rd.gutter.right as int)
        &&& self.height == scaled(chart_height(rd, add_resource_table))
        &&& is_text(self.title, TextClass::Title, left, scaled(TITLE_BASELINE as int), rd.title@)
        &&& self.column_lines@.len() == m + 1
        &&& forall|i: int| 0 <= i <= m ==> is_line(
            #[trigger] self.column_lines@[i],
            LineClass::Inner,
            column_x(rd, i),
            row_y(rd, 0),
            column_x(rd, i),
            rows_bottom(rd),
        )
        &&& self.column_labels@.len() == m
        &&& forall|i: int| 0 <= i < m ==> is_text(
            #[trigger] self.column_labels@[i],
            TextClass::Heading,
            column_x(rd, i) + rd.cols@[i].width,
            heading_y(rd),
            rd.cols@[i].month_name@,
        )
        &&& is_text(self.tasks_label, TextClass::TaskHeading, scaled(rd.gutter.left + rd.row_gutter.left), heading_y(rd), "Tasks"@)
        &&& self.row_lines@.len() == n + 1
        &&& forall|i: int| 0 <= i <= n ==> is_line(
            #[trigger] self.row_lines@[i],
            if i == 0 || i == n { LineClass::Outer } else { LineClass::Inner },
            left,
            row_y(rd, i),
            right,
            row_y(rd, i),
        )
        &&& self.row_labels@.len() == n
        &&& forall|i: int| 0 <= i < n ==> is_text(
            #[trigger] self.row_labels@[i],
            TextClass::Item,
            scaled(rd.gutter.left + rd.row_gutter.left),
            row_y(rd, i) + scaled(rd.row_gutter.top as int) + 31 * rd.row_height,
            rd.rows@[i].title@,
        )
        &&& self.row_marks@.len() == n
        &&& forall|i: int| 0 <= i < n ==> is_row_mark(#[trigger] self.row_marks@[i], rd, i)
        &&& (self.marker is Some <==> rd.marked_date_offset is Some)
        &&& rd.marked_date_offset matches Some(x) ==> is_line(
            self.marker.unwrap(),
            LineClass::Marker,
            2 * x,
            row_y(rd, 0) - scaled(MARKER_OVERSHOOT as int),
            2 * x,
            rows_bottom(rd) + scaled(MARKER_OVERSHOOT as int),
        )
        &&& self.legend_swatches@.len() == (if add_resource_table { rd.resources@.len() as int } else { 0 })
        &&& self.legend_labels@.len() == self.legend_swatches@.len()
        &&& forall|i: int| 0 <= i < self.legend_swatches@.len() ==> #[trigger] self.legend_swatches@[i] == (Shape::Swatch {
            resource: i as usize,
            x: (legend_x(rd, i) + scaled(LEGEND_GAP as int)) as i128,
            y: (rows_bottom(rd) + scaled(rd.resource_gutter.top as int)) as i128,
            size: scaled(rd.resource_height - (rd.resource_gutter.bottom + rd.resource_gutter.top)) as i128,
            radius: scaled(rd.rect_corner_radius as int) as i128,
        })
        &&& forall|i: int| 0 <= i < self.legend_labels@.len() ==> is_text(
            #[trigger] self.legend_labels@[i],
            TextClass::Resource,
            legend_x(rd, i) - scaled(LEGEND_GAP as int),
            rows_bottom(rd) + 31 * rd.resource_height,
            rd.resources@[i]@,
        )
    }
}

/// Sizes up to which every coordinate fits.
pub open spec fn within_drawing_limits(rd: RenderData) -> bool {
    &&& rd.rows@.len() <= 0xffff_ffff
    &&& rd.cols@.len() <= 0xffff_ffff
    &&& rd.resources@.len() <= 0xffff_ffff
}

proof fn lemma_widths_before_bound(cols: Seq<ColumnRenderData>, i: int)
    requires
        0 <= i <= cols.len(),
    ensures
        0 <= widths_before(cols, i) <= i * 0x1_0000_0000_0000_0000,
    decreases i,
{
    if i > 0 {
        lemma_widths_before_bound(cols, i - 1);
    }
}

proof fn lemma_small_product(a: int, b: int)
    requires
        0 <= a <= 0x1_0000_0000,
        0 <= b <= 0x1_0000_0000,
    ensures
        0 <= a * b <= 0x1_0000_0000_0000_0000,
{
    assert(0 <= a * b <= 0x1_0000_0000_0000_0000) by (nonlinear_arith)
        requires
            0 <= a <= 0x1_0000_0000,
            0 <= b <= 0x1_0000_0000,
    ;
}

fn scale(v: i128) -> (r: i128)
    requires
        -0x1_0000_0000_0000_0000_0000_0000 <= v <= 0x1_0000_0000_0000_0000_0000_0000,
    ensures
        r == scaled(v as int),
{
    proof {
        assert(-62 * 0x1_0000_0000_0000_0000_0000_0000 <= 62 * v <= 62 * 0x1_0000_0000_0000_0000_0000_0000) by (nonlinear_arith)
            requires
                -0x1_0000_0000_0000_0000_0000_0000 <= v <= 0x1_0000_0000_0000_0000_0000_0000,
        ;
    }
    62 * v
}

fn text(class: TextClass, x: i128, y: i128, s: &String) -> (r: Shape)
    ensures
        is_text(r, class, x as int, y as int, s@),
{
    Shape::Text { style: class, x, y, text: s.clone() }
}

/// The shapes that draw `rd`, with the resource legend under the rows when
/// `add_resource_table` holds.
pub fn chart_shapes(rd: &RenderData, add_resource_table: bool) -> (r: ChartShapes)
    requires
        within_drawing_limits(*rd),
    ensures
        r.draws(*rd, add_resource_table),
{
    let n: i128 = rd.rows.len() as i128;
    let m: usize = rd.cols.len();
    let top: i128 = rd.gutter.top as i128;
    let row_height: i128 = rd.row_height as i128;
    proof {
        lemma_small_product(n as int, row_height as int);
    }
    let bottom_row: i128 = scale(top + n * row_height);
    let left: i128 = scale(rd.gutter.left as i128);
    let table: i128 = if add_resource_table {
        rd.resource_gutter.bottom as i128 + rd.resource_gutter.top as i128 + row_height
    } else {
        0
    };
    let height: i128 = scale(top + n * row_height + table + rd.gutter.bottom as i128);
    let heading: i128 = scale(top - rd.row_gutter.bottom as i128) - 31 * row_height;
    let text_left: i128 = scale(rd.gutter.left as i128 + rd.row_gutter.left as i128);
    let mark_h: i128 = scale(row_height - (rd.row_gutter.bottom as i128 + rd.row_gutter.top as i128));
    let radius: i128 = scale(rd.rect_corner_radius as i128);

    // Columns: a grid line at the left of each, and one at the right end.
    let mut column_lines: Vec<Shape> = Vec::new();
    let mut column_labels: Vec<Shape> = Vec::new();
    let mut x: i128 = scale(rd.gutter.left as i128 + rd.title_width as i128);
    let mut i: usize = 0;
    proof {
        lemma_widths_before_bound(rd.cols@, 0);
    }
    while i < m
        invariant
            within_drawing_limits(*rd),
            i <= m,
            m == rd.cols@.len(),
            x == column_x(*rd, i as int),
            bottom_row == rows_bottom(*rd),
            top == rd.gutter.top,
            heading == heading_y(*rd),
            column_lines@.len() == i,
            column_labels@.len() == i,
            forall|k: int| 0 <= k < i ==> is_line(
                #[trigger] column_lines@[k],
                LineClass::Inner,
                column_x(*rd, k),
                row_y(*rd, 0),
                column_x(*rd, k),
                rows_bottom(*rd),
            ),
            forall|k: int| 0 <= k < i ==> is_text(
                #[trigger] column_labels@[k],
                TextClass::Heading,
                column_x(*rd, k) + rd.cols@[k].width,
                heading_y(*rd),
                rd.cols@[k].month_name@,
            ),
        decreases m - i,
    {
        proof {
            lemma_widths_before_bound(rd.cols@, i as int);
        }
        column_lines.push(Shape::Line { class: LineClass::Inner, x1: x, y1: scale(top), x2: x, y2: bottom_row });
        let w: i128 = rd.cols[i].width as i128;
        column_labels.push(text(TextClass::Heading, x + w, heading, &rd.cols[i].month_name));
        proof {
            lemma_widths_before_bound(rd.cols@, i as int + 1);
        }
        x = x + 2 * w;
        i = i + 1;
    }
    column_lines.push(Shape::Line { class: LineClass::Inner, x1: x, y1: scale(top), x2: x, y2: bottom_row });
    proof {
        lemma_widths_before_bound(rd.cols@, m as int);
        assert(m * 0x1_0000_0000_0000_0000 <= 0x1_0000_0000_0000_0000_0000_0000) by (nonlinear_arith)
            requires
                m <= 0xffff_ffff,
        ;
    }
    let right: i128 = x;

    // Rows: a grid line above each and one under the last, a label and a mark.
    let mut row_lines: Vec<Shape> = Vec::new();
    let mut row_labels: Vec<Shape> = Vec::new();
    let mut row_marks: Vec<Shape> = Vec::new();
    let mut j: usize = 0;
    while (j as i128) < n
        invariant
            within_drawing_limits(*rd),
            j <= n,
            n == rd.rows@.len(),
            top == rd.gutter.top,
            row_height == rd.row_height,
            left == scaled(rd.gutter.left as int),
            right == column_x(*rd, rd.cols@.len() as int),
            text_left == scaled(rd.gutter.left + rd.row_gutter.left),
            mark_h == mark_height(*rd),
            radius == scaled(rd.rect_corner_radius as int),
            row_lines@.len() == j,
            row_labels@.len() == j,
            row_marks@.len() == j,
            forall|k: int| 0 <= k < j ==> is_line(
                #[trigger] row_lines@[k],
                if k == 0 || k == n { LineClass::Outer } else { LineClass::Inner },
                left as int,
                row_y(*rd, k),
                right as int,
                row_y(*rd, k),
            ),
            forall|k: int| 0 <= k < j ==> is_text(
                #[trigger] row_labels@[k],
                TextClass::Item,
                scaled(rd.gutter.left + rd.row_gutter.left),
                row_y(*rd, k) + scaled(rd.row_gutter.top as int) + 31 * rd.row_height,
                rd.rows@[k].title@,
            ),
            forall|k: int| 0 <= k < j ==> is_row_mark(#[trigger] row_marks@[k], *rd, k),
        decreases n - j,
    {
        proof {
            lemma_small_product(j as int, row_height as int);
        }
        let y: i128 = scale(top + j as i128 * row_height);
        let class = if j == 0 || j as i128 == n { LineClass::Outer } else { LineClass::Inner };
        row_lines.push(Shape::Line { class, x1: left, y1: y, x2: right, y2: y });
        let row = &rd.rows[j];
        let mark_top: i128 = y + scale(rd.row_gutter.top as i128);
        row_labels.push(text(TextClass::Item, text_left, mark_top + 31 * row_height, &row.title));
        let mark = match row.length {
            Some(l) => Shape::Bar {
                resource: row.resource_index,
                open: row.open,
                x: 2 * row.offset as i128,
                y: mark_top,
                width: 2 * l as i128,
                height: mark_h,
                radius,
            },
            None => Shape::Diamond { x: 2 * row.offset as i128, y: mark_top + mark_h / 2, half: mark_h / 2 },
        };
        assert(is_row_mark(mark, *rd, j as int));
        row_marks.push(mark);
        assert(row_marks@[j as int] == mark);
        j = j + 1;
    }
    row_lines.push(Shape::Line { class: LineClass::Outer, x1: left, y1: bottom_row, x2: right, y2: bottom_row });

    let marker = match rd.marked_date_offset {
        Some(mx) => Some(Shape::Line {
            class: LineClass::Marker,
            x1: 2 * mx as i128,
            y1: scale(top) - scale(MARKER_OVERSHOOT as i128),
            x2: 2 * mx as i128,
            y2: bottom_row + scale(MARKER_OVERSHOOT as i128),
        }),
        None => None,
    };

    // The legend: one swatch and one label per resource.
    let mut legend_swatches: Vec<Shape> = Vec::new();
    let mut legend_labels: Vec<Shape> = Vec::new();
    if add_resource_table {
        let size: i128 = scale(
            rd.resource_height as i128 - (rd.resource_gutter.bottom as i128 + rd.resource_gutter.top as i128),
        );
        let swatch_y: i128 = bottom_row + scale(rd.resource_gutter.top as i128);
        let label_y: i128 = bottom_row + 31 * rd.resource_height as i128;
        let mut k: usize = 0;
        while k < rd.resources.len()
            invariant
                within_drawing_limits(*rd),
                add_resource_table,
                k <= rd.resources@.len(),
                size == scaled(rd.resource_height - (rd.resource_gutter.bottom + rd.resource_gutter.top)),
                swatch_y == rows_bottom(*rd) + scaled(rd.resource_gutter.top as int),
                label_y == rows_bottom(*rd) + 31 * rd.resource_height,
                radius == scaled(rd.rect_corner_radius as int),
                legend_swatches@.len() == k,
                legend_labels@.len() == k,
                forall|q: int| 0 <= q < k ==> #[trigger] legend_swatches@[q] == (Shape::Swatch {
                    resource: q as usize,
                    x: (legend_x(*rd, q) + scaled(LEGEND_GAP as int)) as i128,
                    y: (rows_bottom(*rd) + scaled(rd.resource_gutter.top as int)) as i128,
                    size: scaled(rd.resource_height - (rd.resource_gutter.bottom + rd.resource_gutter.top)) as i128,
                    radius: scaled(rd.rect_corner_radius as int) as i128,
                }),
                forall|q: int| 0 <= q < k ==> is_text(
                    #[trigger] legend_labels@[q],
                    TextClass::Resource,
                    legend_x(*rd, q) - scaled(LEGEND_GAP as int),
                    rows_bottom(*rd) + 31 * rd.resource_height,
                    rd.resources@[q]@,
                ),
            decreases rd.resources@.len() - k,
        {
            let ex: i128 = scale(rd.resource_gutter.left as i128 + (k as i128 + 1) * LEGEND_SPACING as i128);
            legend_swatches.push(Shape::Swatch {
                resource: k,
                x: ex + scale(LEGEND_GAP as i128),
                y: swatch_y,
                size,
                radius,
            });
            legend_labels.push(text(TextClass::Resource, ex - scale(LEGEND_GAP as i128), label_y, &rd.resources[k]));
            k = k + 1;
        }
    }

    let tasks = "Tasks".to_string();
    ChartShapes {
        width: right + scale(rd.gutter.right as i128),
        height,
        title: text(TextClass::Title, left, scale(TITLE_BASELINE as i128), &rd.title),
        column_lines,
        column_labels,
        tasks_label: text(TextClass::TaskHeading, text_left, heading, &tasks),
        row_lines,
        row_labels,
        row_marks,
        marker,
        legend_swatches,
        legend_labels,
    }
}

} // verus!
