//! Properties of every layout, proved from the contracts of the layout engine.

use vstd::prelude::*;
use crate::calendar::{
    first_day, lemma_date_in_month, lemma_day_in_month, lemma_first_day_increasing,
    lemma_month_index_of_day, lemma_next_first_day, month_of_index, year_of_index, Date, MIN_DAY,
};
use crate::shapes::{column_x, widths_before, ChartShapes};
use crate::layout::{
    carried_resource, chart_error, column_is, cursor_after, duration_of, earliest_start, first_error,
    first_month, item_start, last_month, latest_end, lemma_earliest_start_wf,
    lemma_first_error_prefix, row_is, total_days, ChartData, ColumnRenderData, ItemData,
    RenderData, GUTTER_LEFT, GUTTER_RIGHT, X_SCALE,
};

verus! {

/// Sum of the widths of the first `k` columns.
pub open spec fn sum_widths(cols: Seq<ColumnRenderData>, k: int) -> int
    decreases k,
{
    if k <= 0 { 0 } else { sum_widths(cols, k - 1) + cols[k - 1].width }
}

/// Sum of the days of the first `k` columns.
pub open spec fn sum_days(cols: Seq<ColumnRenderData>, k: int) -> int
    decreases k,
{
    if k <= 0 { 0 } else { sum_days(cols, k - 1) + cols[k - 1].days }
}

proof fn lemma_column_sums(cols: Seq<ColumnRenderData>, first: int, mmw: int, k: int)
    requires
        0 <= k <= cols.len(),
        mmw >= 0,
        forall|j: int| 0 <= j < cols.len() ==> column_is(#[trigger] cols[j], first + j, mmw),
    ensures
        sum_widths(cols, k) == mmw * sum_days(cols, k),
        sum_days(cols, k) == first_day(first + k) - first_day(first),
    decreases k,
{
    if k > 0 {
        lemma_column_sums(cols, first, mmw, k - 1);
        assert(column_is(cols[k - 1], first + k - 1, mmw));
        lemma_next_first_day(first + k - 1);
        assert(mmw * sum_days(cols, k - 1) + mmw * cols[k - 1].days
            == mmw * (sum_days(cols, k - 1) + cols[k - 1].days)) by (nonlinear_arith);
    }
}

/// The month columns add up: their widths sum to `max_month_width` times
/// their days over 31 (in `1 / X_SCALE` units, exactly `max_month_width`
/// times their days), their days are the days the chart shows, and the chart
/// is as wide as its gutters, its title column and its columns.
pub proof fn lemma_column_widths(rd: RenderData, data: ChartData, title_width: int, max_month_width: int, hue: int)
    requires
        rd.is_layout_of(data, title_width, max_month_width, hue),
        max_month_width >= 0,
    ensures
        sum_widths(rd.cols@, rd.cols@.len() as int) == max_month_width * sum_days(rd.cols@, rd.cols@.len() as int),
        sum_days(rd.cols@, rd.cols@.len() as int) == total_days(data.items@),
        rd.width == (X_SCALE as int) * (GUTTER_LEFT + title_width + GUTTER_RIGHT)
            + sum_widths(rd.cols@, rd.cols@.len() as int),
{
    let items = data.items@;
    if items.len() == 0 {
        assert(rd.cols@.len() == 0);
    } else {
        let first = first_month(items);
        lemma_column_sums(rd.cols@, first, max_month_width, rd.cols@.len() as int);
        if first <= last_month(items) {
            assert(first + rd.cols@.len() == last_month(items) + 1);
        } else {
            assert(rd.cols@.len() == 0);
        }
    }
}

/// One row per item.
pub proof fn lemma_one_row_per_item(rd: RenderData, data: ChartData, title_width: int, max_month_width: int, hue: int)
    requires
        rd.is_layout_of(data, title_width, max_month_width, hue),
    ensures
        rd.rows@.len() == data.items@.len(),
{
}

/// A task of a positive duration gets a bar of positive length.
pub proof fn lemma_task_length_positive(
    rd: RenderData,
    data: ChartData,
    title_width: int,
    max_month_width: int,
    hue: int,
    i: int,
)
    requires
        rd.is_layout_of(data, title_width, max_month_width, hue),
        0 <= i < data.items@.len(),
        data.items@[i].duration matches Some(d) && d > 0,
        max_month_width > 0,
    ensures
        rd.rows@[i].length matches Some(l) && l > 0,
{
    assert(row_is(rd.rows@[i], data.items@, i, title_width, max_month_width, first_month(data.items@)));
    let d = data.items@[i].duration.unwrap();
    assert(max_month_width * d > 0) by (nonlinear_arith)
        requires
            max_month_width > 0,
            d > 0,
    ;
}

/// A task of duration zero is a bar of length zero, not a milestone.
pub proof fn lemma_zero_duration_is_empty_bar(
    rd: RenderData,
    data: ChartData,
    title_width: int,
    max_month_width: int,
    hue: int,
    i: int,
)
    requires
        rd.is_layout_of(data, title_width, max_month_width, hue),
        0 <= i < data.items@.len(),
        data.items@[i].duration == Some(0i64),
    ensures
        rd.rows@[i].length == Some(0i64),
{
    assert(row_is(rd.rows@[i], data.items@, i, title_width, max_month_width, first_month(data.items@)));
}

proof fn lemma_carried_resource_in_range(items: Seq<ItemData>, n: int, i: int)
    requires
        0 <= i < items.len(),
        first_error(items, n, items.len() as int) is None,
    ensures
        0 <= carried_resource(items, i) < n,
    decreases i,
{
    lemma_first_error_prefix(items, n, items.len() as int, i);
    if items[i].resource_index is None {
        if i > 0 {
            lemma_carried_resource_in_range(items, n, i - 1);
        }
    }
}

/// A project whose items name no resource cannot be laid out; this holds of
/// a project without items too.
pub proof fn lemma_no_resource_fails(items: Seq<ItemData>, n: int)
    requires
        forall|i: int| 0 <= i < items.len() ==> (#[trigger] items[i]).resource_index is None,
    ensures
        chart_error(items, n) is Some,
{
    if items.len() > 0 && first_error(items, n, items.len() as int) is None {
        lemma_first_error_prefix(items, n, items.len() as int, 0);
        assert(items[0].resource_index is None);
    }
}

/// Every row of a layout names an existing resource.
pub proof fn lemma_rows_have_resources(rd: RenderData, data: ChartData, title_width: int, max_month_width: int, hue: int, i: int)
    requires
        rd.is_layout_of(data, title_width, max_month_width, hue),
        first_error(data.items@, data.resources@.len() as int, data.items@.len() as int) is None,
        0 <= i < rd.rows@.len(),
    ensures
        rd.rows@[i].resource_index < data.resources@.len(),
{
    assert(row_is(rd.rows@[i], data.items@, i, title_width, max_month_width, first_month(data.items@)));
    lemma_carried_resource_in_range(data.items@, data.resources@.len() as int, i);
}

/// The size of a chart depends on the number of items and on the months
/// it spans, not on which items lead to them: two projects with as many
/// items, spanning the same months, give charts of one width and one height.
pub proof fn lemma_size_depends_on_span(
    a: RenderData,
    da: ChartData,
    b: RenderData,
    db: ChartData,
    title_width: int,
    max_month_width: int,
    hue_a: int,
    hue_b: int,
)
    requires
        a.is_layout_of(da, title_width, max_month_width, hue_a),
        b.is_layout_of(db, title_width, max_month_width, hue_b),
        da.items@.len() == db.items@.len(),
        da.items@.len() > 0 ==> first_month(da.items@) == first_month(db.items@),
        da.items@.len() > 0 ==> last_month(da.items@) == last_month(db.items@),
    ensures
        a.width == b.width,
        a.rows@.len() == b.rows@.len(),
        a.gutter == b.gutter,
        a.row_height == b.row_height,
        a.resource_gutter == b.resource_gutter,
{
}

/// Laying out one project twice, with the same widths and hue, gives the same
/// chart.
pub proof fn lemma_layout_deterministic(
    a: RenderData,
    b: RenderData,
    data: ChartData,
    title_width: int,
    max_month_width: int,
    hue: int,
)
    requires
        a.is_layout_of(data, title_width, max_month_width, hue),
        b.is_layout_of(data, title_width, max_month_width, hue),
    ensures
        a.title@ == b.title@,
        a.width == b.width,
        a.marked_date_offset == b.marked_date_offset,
        a.cols@.len() == b.cols@.len(),
        forall|k: int| 0 <= k < a.cols@.len() ==> {
            &&& (#[trigger] a.cols@[k]).width == b.cols@[k].width
            &&& a.cols@[k].days == b.cols@[k].days
            &&& a.cols@[k].month_name@ == b.cols@[k].month_name@
        },
        a.rows@.len() == b.rows@.len(),
        forall|i: int| 0 <= i < a.rows@.len() ==> {
            &&& (#[trigger] a.rows@[i]).title@ == b.rows@[i].title@
            &&& a.rows@[i].resource_index == b.rows@[i].resource_index
            &&& a.rows@[i].offset == b.rows@[i].offset
            &&& a.rows@[i].length == b.rows@[i].length
            &&& a.rows@[i].open == b.rows@[i].open
        },
        a.resource_colors@ == b.resource_colors@,
{
    assert forall|i: int| 0 <= i < a.rows@.len() implies {
        &&& (#[trigger] a.rows@[i]).title@ == b.rows@[i].title@
        &&& a.rows@[i].resource_index == b.rows@[i].resource_index
        &&& a.rows@[i].offset == b.rows@[i].offset
        &&& a.rows@[i].length == b.rows@[i].length
        &&& a.rows@[i].open == b.rows@[i].open
    } by {
        let f = first_month(data.items@);
        assert(row_is(a.rows@[i], data.items@, i, title_width, max_month_width, f));
        assert(row_is(b.rows@[i], data.items@, i, title_width, max_month_width, f));
    }
    assert forall|k: int| 0 <= k < a.cols@.len() implies {
        &&& (#[trigger] a.cols@[k]).width == b.cols@[k].width
        &&& a.cols@[k].days == b.cols@[k].days
        &&& a.cols@[k].month_name@ == b.cols@[k].month_name@
    } by {
        let f = first_month(data.items@);
        assert(column_is(a.cols@[k], f + k, max_month_width));
        assert(column_is(b.cols@[k], f + k, max_month_width));
    }
    assert(a.resource_colors@ =~= b.resource_colors@);
}

/// The column after December is January of the next year.
pub proof fn lemma_december_rolls_over(rd: RenderData, data: ChartData, title_width: int, max_month_width: int, hue: int, k: int)
    requires
        rd.is_layout_of(data, title_width, max_month_width, hue),
        data.items@.len() > 0,
        0 <= k,
        k + 1 < rd.cols@.len(),
        month_of_index(first_month(data.items@) + k) == 12,
    ensures
        month_of_index(first_month(data.items@) + k + 1) == 1,
        year_of_index(first_month(data.items@) + k + 1) == year_of_index(first_month(data.items@) + k) + 1,
{
    let mi = first_month(data.items@) + k;
    vstd::arithmetic::div_mod::lemma_fundamental_div_mod(mi, 12);
    vstd::arithmetic::div_mod::lemma_fundamental_div_mod_converse(mi + 1, 12, mi / 12 + 1, 0);
}


proof fn lemma_earliest_below(items: Seq<ItemData>, k: int, j: int)
    requires
        0 <= j < k <= items.len(),
        items[j].start_date is Some,
    ensures
        earliest_start(items, k) is Some,
        earliest_start(items, k).unwrap().num() <= items[j].start_date.unwrap().num(),
    decreases k,
{
    if j < k - 1 {
        lemma_earliest_below(items, k - 1, j);
    }
}

proof fn lemma_start_after_earliest(items: Seq<ItemData>, n: int, i: int)
    requires
        0 <= i < items.len(),
        first_error(items, n, items.len() as int) is None,
        forall|j: int| 0 <= j < items.len() ==> duration_of(#[trigger] items[j]) >= 0,
    ensures
        earliest_start(items, items.len() as int) is Some,
        earliest_start(items, items.len() as int).unwrap().num() <= item_start(items, i),
    decreases i,
{
    lemma_first_error_prefix(items, n, items.len() as int, i);
    lemma_first_error_prefix(items, n, items.len() as int, 0);
    lemma_earliest_below(items, items.len() as int, 0);
    if items[i].start_date is Some {
        lemma_earliest_below(items, items.len() as int, i);
    } else {
        lemma_start_after_earliest(items, n, i - 1);
        assert(duration_of(items[i - 1]) >= 0);
    }
}

proof fn lemma_cursor_below_latest(items: Seq<ItemData>, k: int, m: int)
    requires
        1 <= k <= m <= items.len(),
    ensures
        cursor_after(items, k) <= latest_end(items, m),
    decreases m,
{
    if k < m {
        lemma_cursor_below_latest(items, k, m - 1);
    }
}

/// Every row lies within the chart: it starts right of the title column and
/// ends left of the right gutter.
pub proof fn lemma_rows_within_chart(
    rd: RenderData,
    data: ChartData,
    title_width: int,
    max_month_width: int,
    hue: int,
    i: int,
)
    requires
        data.wf(),
        rd.is_layout_of(data, title_width, max_month_width, hue),
        first_error(data.items@, data.resources@.len() as int, data.items@.len() as int) is None,
        max_month_width >= 0,
        0 <= i < rd.rows@.len(),
    ensures
        rd.rows@[i].offset >= (X_SCALE as int) * (title_width + GUTTER_LEFT),
        rd.rows@[i].offset + (match rd.rows@[i].length {
            Some(l) => l as int,
            None => 0,
        }) <= rd.width - (X_SCALE as int) * GUTTER_RIGHT,
{
    let items = data.items@;
    let n = data.resources@.len() as int;
    let len = items.len() as int;
    let first = first_month(items);
    let last = last_month(items);
    assert(row_is(rd.rows@[i], items, i, title_width, max_month_width, first));
    lemma_start_after_earliest(items, n, i);
    lemma_start_after_earliest(items, n, 0);
    lemma_earliest_start_wf(items, len);
    let e = earliest_start(items, len).unwrap();
    lemma_date_in_month(e);
    lemma_day_in_month(latest_end(items, len));
    lemma_cursor_below_latest(items, i + 1, len);
    lemma_cursor_below_latest(items, 1, len);
    assert(item_start(items, 0) <= cursor_after(items, 1));
    if first > last {
        lemma_first_day_increasing(last + 1, first);
    }
    assert(cursor_after(items, i + 1) == item_start(items, i) + duration_of(items[i]));
    let s = item_start(items, i) - first_day(first);
    let t = cursor_after(items, i + 1) - first_day(first);
    let span = first_day(last + 1) - first_day(first);
    assert(0 <= s <= t < span);
    assert(max_month_width * s >= 0) by (nonlinear_arith)
        requires
            max_month_width >= 0,
            s >= 0,
    ;
    assert(max_month_width * t <= max_month_width * span) by (nonlinear_arith)
        requires
            max_month_width >= 0,
            t <= span,
    ;
    assert(max_month_width * s + max_month_width * duration_of(items[i]) == max_month_width * t) by (nonlinear_arith)
        requires
            t == s + duration_of(items[i]),
    ;
    if items[i].duration is None {
        assert(max_month_width * s <= max_month_width * t) by (nonlinear_arith)
            requires
                max_month_width >= 0,
                s <= t,
        ;
    }
}


proof fn lemma_earliest_is_given(items: Seq<ItemData>, k: int) -> (j: int)
    requires
        0 <= k <= items.len(),
        earliest_start(items, k) is Some,
    ensures
        0 <= j < k,
        items[j].start_date == earliest_start(items, k),
    decreases k,
{
    let prev = earliest_start(items, k - 1);
    if items[k - 1].start_date is Some && (prev is None || earliest_start(items, k) != prev) {
        k - 1
    } else {
        lemma_earliest_is_given(items, k - 1)
    }
}

proof fn lemma_latest_is_reached(items: Seq<ItemData>, n: int, k: int) -> (j: int)
    requires
        1 <= k <= items.len(),
        first_error(items, n, items.len() as int) is None,
    ensures
        1 <= j <= k,
        latest_end(items, k) == cursor_after(items, j),
    decreases k,
{
    lemma_first_error_prefix(items, n, items.len() as int, k - 1);
    if k == 1 {
        assert(latest_end(items, 0) == MIN_DAY);
        1
    } else {
        let j = lemma_latest_is_reached(items, n, k - 1);
        if latest_end(items, k - 1) < cursor_after(items, k) { k } else { j }
    }
}

/// A project whose given start dates and carried dates all lie in month
/// `mi` gets exactly one column, showing that month.
pub proof fn lemma_one_month_one_column(
    rd: RenderData,
    data: ChartData,
    title_width: int,
    max_month_width: int,
    hue: int,
    mi: int,
)
    requires
        data.wf(),
        rd.is_layout_of(data, title_width, max_month_width, hue),
        first_error(data.items@, data.resources@.len() as int, data.items@.len() as int) is None,
        forall|i: int| 0 <= i < data.items@.len() ==> (#[trigger] data.items@[i]).start_date is Some
            ==> first_day(mi) <= data.items@[i].start_date.unwrap().num() < first_day(mi + 1),
        forall|k: int| 1 <= k <= data.items@.len() ==>
            first_day(mi) <= #[trigger] cursor_after(data.items@, k) < first_day(mi + 1),
    ensures
        rd.cols@.len() == 1,
        column_is(rd.cols@[0], mi, max_month_width),
{
    let items = data.items@;
    let len = items.len() as int;
    let n = data.resources@.len() as int;
    lemma_first_error_prefix(items, n, len, 0);
    lemma_earliest_below(items, len, 0);
    let j = lemma_earliest_is_given(items, len);
    lemma_earliest_start_wf(items, len);
    let e = earliest_start(items, len).unwrap();
    lemma_date_in_month(e);
    lemma_month_index_of_day(mi, e.num());
    let k = lemma_latest_is_reached(items, n, len);
    lemma_month_index_of_day(mi, cursor_after(items, k));
    assert(first_month(items) == mi);
    assert(last_month(items) == mi);
}


/// One column per month from the month of the earliest start date to the
/// month of the latest carried date `last`, none skipped or repeated.
pub proof fn lemma_column_count(
    rd: RenderData,
    data: ChartData,
    title_width: int,
    max_month_width: int,
    hue: int,
    last: Date,
)
    requires
        data.wf(),
        rd.is_layout_of(data, title_width, max_month_width, hue),
        first_error(data.items@, data.resources@.len() as int, data.items@.len() as int) is None,
        last.wf(),
        last.num() == latest_end(data.items@, data.items@.len() as int),
    ensures
        earliest_start(data.items@, data.items@.len() as int) is Some,
        rd.cols@.len() == last.index() - earliest_start(data.items@, data.items@.len() as int).unwrap().index() + 1,
        forall|k: int| 0 <= k < rd.cols@.len() ==>
            column_is(#[trigger] rd.cols@[k], earliest_start(data.items@, data.items@.len() as int).unwrap().index() + k, max_month_width),
{
    let items = data.items@;
    let n = data.resources@.len() as int;
    let len = items.len() as int;
    lemma_start_after_earliest(items, n, 0);
    lemma_earliest_start_wf(items, len);
    let e = earliest_start(items, len).unwrap();
    lemma_date_in_month(e);
    lemma_date_in_month(last);
    lemma_cursor_below_latest(items, 1, len);
    lemma_first_error_prefix(items, n, len, 0);
    assert(item_start(items, 0) <= cursor_after(items, 1));
    assert(e.num() <= last.num());
    if e.index() > last.index() {
        lemma_first_day_increasing(last.index() + 1, e.index());
    }
}


proof fn lemma_same_sums(cols: Seq<ColumnRenderData>, k: int)
    requires
        0 <= k <= cols.len(),
    ensures
        widths_before(cols, k) == sum_widths(cols, k),
    decreases k,
{
    if k > 0 {
        lemma_same_sums(cols, k - 1);
    }
}

/// The drawing of a layout is as wide as the layout.
pub proof fn lemma_drawing_width(
    rd: RenderData,
    data: ChartData,
    title_width: int,
    max_month_width: int,
    hue: int,
    shapes: ChartShapes,
    add_resource_table: bool,
)
    requires
        rd.is_layout_of(data, title_width, max_month_width, hue),
        max_month_width >= 0,
        shapes.draws(rd, add_resource_table),
    ensures
        shapes.width == 2 * rd.width,
{
    lemma_column_widths(rd, data, title_width, max_month_width, hue);
    lemma_same_sums(rd.cols@, rd.cols@.len() as int);
    assert(column_x(rd, rd.cols@.len() as int)
        == 62 * (rd.gutter.left + rd.title_width) + 2 * widths_before(rd.cols@, rd.cols@.len() as int));
}

} // verus!
