//! The layout engine: from a project description to the rows, month columns,
//! marker and colours of a chart.
//!
//! Horizontal positions and widths are exact: they are counted in
//! thirty-firsts of a width unit (`X_SCALE`), because a month of `days` days is
//! `max_month_width * days / 31` units wide.

use vstd::prelude::*;
use crate::calendar::{
    date_from_day_number, days_in_month, first_day, index_month_length, lemma_date_in_month,
    lemma_day_num_bounds, lemma_first_day_increasing, lemma_first_day_of_date,
    lemma_index_parts, lemma_next_first_day, month_index, month_index_of_day, month_of_index,
    Date, MAX_DAY, MIN_DAY,
};
use crate::color::{random_hue, resource_color, resource_colors};
use crate::styles::{chart_styles, styles_are, MAX_COLOR};

verus! {

/// Horizontal positions and widths are counted in `1 / X_SCALE` units.
pub const X_SCALE: u32 = 31;

pub const GUTTER_LEFT: u32 = 10;
pub const GUTTER_TOP: u32 = 80;
pub const GUTTER_RIGHT: u32 = 10;
pub const GUTTER_BOTTOM: u32 = 10;
pub const ROW_GUTTER: u32 = 5;
pub const RESOURCE_GUTTER: u32 = 10;
pub const BASE_ROW_HEIGHT: u32 = 20;
pub const CORNER_RADIUS: u32 = 3;

/// One row of the chart: a task when it has a duration, else a milestone.
#[derive(Debug)]
pub struct ItemData {
    pub title: String,
    pub duration: Option<i64>,
    pub start_date: Option<Date>,
    pub resource_index: Option<usize>,
    pub open: Option<bool>,
}

/// A named category of items; it keeps its own colour where it has one.
#[derive(Debug)]
pub struct Resource {
    pub title: String,
    /// A colour `0xRRGGBB`.
    pub color: Option<u32>,
}

/// A project: its title, an optional date to mark, its resources and items.
#[derive(Debug)]
pub struct ChartData {
    pub title: String,
    pub marked_date: Option<Date>,
    pub resources: Vec<Resource>,
    pub items: Vec<ItemData>,
}

/// Why a project cannot be laid out.
#[derive(Clone, Copy, Debug, PartialEq, Eq, Structural)]
pub enum LayoutError {
    /// There is no item, or the first item has no start date.
    MissingFirstStart,
    /// The first item has no resource index.
    MissingFirstResource,
    /// An item names a resource that does not exist.
    ResourceIndexOutOfRange,
    /// The carried date leaves the calendar's range.
    DateOutOfRange,
}

/// A date that is absent, or valid.
pub open spec fn date_ok(d: Option<Date>) -> bool {
    match d {
        Some(d) => d.wf(),
        None => true,
    }
}

/// What each error says to the user.
pub open spec fn error_text(e: LayoutError) -> Seq<char> {
    match e {
        LayoutError::MissingFirstStart => "First item must contain a start date"@,
        LayoutError::MissingFirstResource => "First item must contain a resource index"@,
        LayoutError::ResourceIndexOutOfRange => "Resource index is out of range"@,
        LayoutError::DateOutOfRange => "Date is out of range"@,
    }
}

impl LayoutError {
    pub fn message(&self) -> (r: &'static str)
        ensures
            r@ == error_text(*self),
    {
        match self {
            LayoutError::MissingFirstStart => "First item must contain a start date",
            LayoutError::MissingFirstResource => "First item must contain a resource index",
            LayoutError::ResourceIndexOutOfRange => "Resource index is out of range",
            LayoutError::DateOutOfRange => "Date is out of range",
        }
    }
}

/// A colour that is absent, or fits in `0xRRGGBB`.
pub open spec fn color_ok(c: Option<u32>) -> bool {
    match c {
        Some(c) => c <= MAX_COLOR,
        None => true,
    }
}

impl ChartData {
    pub open spec fn wf(self) -> bool {
        &&& forall|i: int| 0 <= i < self.items@.len() ==>
            date_ok((#[trigger] self.items@[i]).start_date)
        &&& date_ok(self.marked_date)
        &&& forall|i: int| 0 <= i < self.items@.len() ==> duration_of(#[trigger] self.items@[i]) >= 0
        &&& forall|k: int| 0 <= k < self.resources@.len() ==>
            color_ok((#[trigger] self.resources@[k]).color)
    }
}

pub open spec fn duration_of(it: ItemData) -> int {
    match it.duration {
        Some(d) => d as int,
        None => 0,
    }
}

/// Day number of the carried date after the first `k` items.
pub open spec fn cursor_after(items: Seq<ItemData>, k: int) -> int
    decreases k,
{
    if k <= 0 {
        MIN_DAY as int
    } else {
        let it = items[k - 1];
        let start = match it.start_date {
            Some(d) => d.num(),
            None => cursor_after(items, k - 1),
        };
        start + duration_of(it)
    }
}

/// Day number on which item `i` starts: its own start date, or the date
/// carried from the items before it.
pub open spec fn item_start(items: Seq<ItemData>, i: int) -> int {
    match items[i].start_date {
        Some(d) => d.num(),
        None => cursor_after(items, i),
    }
}

/// What is wrong with item `i`, in the order the checks are made.
pub open spec fn item_error(items: Seq<ItemData>, resource_count: int, i: int) -> Option<LayoutError> {
    if i == 0 && items[i].start_date is None {
        Some(LayoutError::MissingFirstStart)
    } else if !(MIN_DAY <= cursor_after(items, i + 1) <= MAX_DAY) {
        Some(LayoutError::DateOutOfRange)
    } else if items[i].resource_index matches Some(r) && r >= resource_count {
        Some(LayoutError::ResourceIndexOutOfRange)
    } else if i == 0 && items[i].resource_index is None {
        Some(LayoutError::MissingFirstResource)
    } else {
        None
    }
}

/// The first error among the first `k` items.
pub open spec fn first_error(items: Seq<ItemData>, resource_count: int, k: int) -> Option<LayoutError>
    decreases k,
{
    if k <= 0 {
        None
    } else {
        match first_error(items, resource_count, k - 1) {
            Some(e) => Some(e),
            None => item_error(items, resource_count, k - 1),
        }
    }
}

/// Why the project cannot be laid out, if it cannot: an empty project has
/// no first item to start from, else the first error among its items.
pub open spec fn chart_error(items: Seq<ItemData>, resource_count: int) -> Option<LayoutError> {
    if items.len() == 0 {
        Some(LayoutError::MissingFirstStart)
    } else {
        first_error(items, resource_count, items.len() as int)
    }
}

/// The earliest start date given among the first `k` items.
pub open spec fn earliest_start(items: Seq<ItemData>, k: int) -> Option<Date>
    decreases k,
{
    if k <= 0 {
        None
    } else {
        let prev = earliest_start(items, k - 1);
        match items[k - 1].start_date {
            Some(d) => match prev {
                Some(p) => if d.num() < p.num() { Some(d) } else { prev },
                None => Some(d),
            },
            None => prev,
        }
    }
}

/// The latest carried date after any of the first `k` items.
pub open spec fn latest_end(items: Seq<ItemData>, k: int) -> int
    decreases k,
{
    if k <= 0 {
        MIN_DAY as int
    } else {
        let prev = latest_end(items, k - 1);
        let c = cursor_after(items, k);
        if prev < c { c } else { prev }
    }
}

/// Index of the first month of the chart.
pub open spec fn first_month(items: Seq<ItemData>) -> int {
    earliest_start(items, items.len() as int).unwrap().index()
}

/// Index of the last month of the chart.
pub open spec fn last_month(items: Seq<ItemData>) -> int {
    month_index_of_day(latest_end(items, items.len() as int))
}

/// Months shown by the chart.
pub open spec fn month_count(items: Seq<ItemData>) -> int {
    if items.len() > 0 && first_month(items) <= last_month(items) {
        last_month(items) - first_month(items) + 1
    } else {
        0
    }
}

/// Days shown by the chart, from the first day of its first month to the
/// last day of its last month.
pub open spec fn total_days(items: Seq<ItemData>) -> int {
    if items.len() > 0 && first_month(items) <= last_month(items) {
        first_day(last_month(items) + 1) - first_day(first_month(items))
    } else {
        0
    }
}

/// The resource of item `i`: its own, or the one carried from before it.
pub open spec fn carried_resource(items: Seq<ItemData>, i: int) -> int
    decreases i,
{
    match items[i].resource_index {
        Some(r) => r as int,
        None => if i <= 0 { 0 } else { carried_resource(items, i - 1) },
    }
}

/// Where day number `day` lies on the chart, in `1 / X_SCALE` units.
pub open spec fn x_of_day(title_width: int, max_month_width: int, first: int, day: int) -> int {
    (X_SCALE as int) * (title_width + GUTTER_LEFT as int) + max_month_width * (day - first_day(first))
}

pub proof fn lemma_first_error_prefix(items: Seq<ItemData>, n: int, k: int, i: int)
    requires
        0 <= i < k,
        first_error(items, n, k) is None,
    ensures
        first_error(items, n, i) is None,
        item_error(items, n, i) is None,
    decreases k,
{
    if i < k - 1 {
        lemma_first_error_prefix(items, n, k - 1, i);
    }
}

proof fn lemma_first_error_stays(items: Seq<ItemData>, n: int, k: int, k2: int)
    requires
        0 <= k <= k2,
        first_error(items, n, k) is Some,
    ensures
        first_error(items, n, k2) == first_error(items, n, k),
    decreases k2 - k,
{
    if k < k2 {
        lemma_first_error_stays(items, n, k, k2 - 1);
    }
}

/// The dates the first pass finds: the earliest start and the latest end.
pub(crate) fn resolve_dates(items: &Vec<ItemData>, resource_count: usize) -> (r: Result<(Option<Date>, i64), LayoutError>)
    requires
        forall|i: int| 0 <= i < items@.len() ==>
            date_ok((#[trigger] items@[i]).start_date),
    ensures
        match r {
            Ok((start, end)) => {
                &&& first_error(items@, resource_count as int, items@.len() as int) is None
                &&& start == earliest_start(items@, items@.len() as int)
                &&& end == latest_end(items@, items@.len() as int)
                &&& MIN_DAY <= end <= MAX_DAY
            },
            Err(e) => first_error(items@, resource_count as int, items@.len() as int) == Some(e),
        },
{
    let mut start: Option<Date> = None;
    let mut end: i64 = MIN_DAY as i64;
    let mut cursor: i64 = MIN_DAY as i64;
    let mut i: usize = 0;
    while i < items.len()
        invariant
            i <= items@.len(),
            forall|j: int| 0 <= j < items@.len() ==>
                date_ok((#[trigger] items@[j]).start_date),
            first_error(items@, resource_count as int, i as int) is None,
            cursor == cursor_after(items@, i as int),
            MIN_DAY <= cursor <= MAX_DAY,
            start == earliest_start(items@, i as int),
            date_ok(start),
            end == latest_end(items@, i as int),
            MIN_DAY <= end <= MAX_DAY,
        decreases items@.len() - i,
    {
        let item = &items[i];
        match item.start_date {
            Some(d) => {
                let n = d.day_number();
                cursor = n as i64;
                match start {
                    Some(s) => {
                        if n < s.day_number() {
                            start = Some(d);
                        }
                    },
                    None => {
                        start = Some(d);
                    },
                }
            },
            None => {
                if i == 0 {
                    proof {
                        lemma_first_error_stays(items@, resource_count as int, i + 1, items@.len() as int);
                    }
                    return Err(LayoutError::MissingFirstStart);
                }
            },
        }
        proof {
            lemma_day_num_bounds_any(items@, i as int);
        }
        let days: i64 = match item.duration {
            Some(d) => d,
            None => 0,
        };
        if days > MAX_DAY as i64 - cursor || days < MIN_DAY as i64 - cursor {
            proof {
                lemma_first_error_stays(items@, resource_count as int, i + 1, items@.len() as int);
            }
            return Err(LayoutError::DateOutOfRange);
        }
        cursor = cursor + days;
        if end < cursor {
            end = cursor;
        }
        match item.resource_index {
            Some(r) => {
                if r >= resource_count {
                    proof {
                        lemma_first_error_stays(items@, resource_count as int, i + 1, items@.len() as int);
                    }
                    return Err(LayoutError::ResourceIndexOutOfRange);
                }
            },
            None => {
                if i == 0 {
                    proof {
                        lemma_first_error_stays(items@, resource_count as int, i + 1, items@.len() as int);
                    }
                    return Err(LayoutError::MissingFirstResource);
                }
            },
        }
        i = i + 1;
    }
    Ok((start, end))
}

proof fn lemma_day_num_bounds_any(items: Seq<ItemData>, i: int)
    requires
        0 <= i < items.len(),
        date_ok(items[i].start_date),
    ensures
        items[i].start_date is Some ==> -100_000_000 <= items[i].start_date.unwrap().num() <= 100_000_000,
{
    if let Some(d) = items[i].start_date {
        lemma_day_num_bounds(d.year as int, d.month as int, d.day as int);
    }
}


/// Reserved space on each side of an area.
#[derive(Clone, Copy, Debug, PartialEq, Eq, Structural)]
pub struct Gutter {
    pub left: u32,
    pub top: u32,
    pub right: u32,
    pub bottom: u32,
}

impl Gutter {
    pub fn height(&self) -> (r: u64)
        ensures
            r == self.bottom + self.top,
    {
        self.bottom as u64 + self.top as u64
    }

    pub fn width(&self) -> (r: u64)
        ensures
            r == self.right + self.left,
    {
        self.right as u64 + self.left as u64
    }
}

/// One month of the chart.
#[derive(Debug)]
pub struct ColumnRenderData {
    /// Width in `1 / X_SCALE` units.
    pub width: u64,
    pub days: u32,
    pub month_name: String,
}

/// One item of the chart, placed.
#[derive(Debug)]
pub struct RowRenderData {
    pub title: String,
    pub resource_index: usize,
    /// Left edge in `1 / X_SCALE` units.
    pub offset: i64,
    /// Bar length in `1 / X_SCALE` units; none for a milestone.
    pub length: Option<i64>,
    pub open: bool,
}

/// The laid-out chart, ready for a drawing back end.
#[derive(Debug)]
pub struct RenderData {
    pub title: String,
    pub gutter: Gutter,
    pub row_gutter: Gutter,
    pub row_height: u32,
    pub resource_gutter: Gutter,
    pub resource_height: u32,
    /// Position of the marker line in `1 / X_SCALE` units.
    pub marked_date_offset: Option<i64>,
    pub title_width: u32,
    pub max_month_width: u32,
    pub rect_corner_radius: u32,
    /// Width of the whole chart in `1 / X_SCALE` units.
    pub width: i64,
    pub cols: Vec<ColumnRenderData>,
    pub rows: Vec<RowRenderData>,
    pub resources: Vec<String>,
    /// One `0xRRGGBB` colour per resource.
    pub resource_colors: Vec<u32>,
    /// The style rules of the vector back end.
    pub styles: Vec<String>,
}

pub open spec fn month_abbrev(m: int) -> Seq<char> {
    if m == 1 { "Jan"@ }
    else if m == 2 { "Feb"@ }
    else if m == 3 { "Mar"@ }
    else if m == 4 { "Apr"@ }
    else if m == 5 { "May"@ }
    else if m == 6 { "Jun"@ }
    else if m == 7 { "Jul"@ }
    else if m == 8 { "Aug"@ }
    else if m == 9 { "Sep"@ }
    else if m == 10 { "Oct"@ }
    else if m == 11 { "Nov"@ }
    else { "Dec"@ }
}

/// The short English name of `month` (1 to 12).
pub fn month_name(month: u32) -> (r: String)
    requires
        1 <= month <= 12,
    ensures
        r@ == month_abbrev(month as int),
{
    if month == 1 { "Jan".to_string() }
    else if month == 2 { "Feb".to_string() }
    else if month == 3 { "Mar".to_string() }
    else if month == 4 { "Apr".to_string() }
    else if month == 5 { "May".to_string() }
    else if month == 6 { "Jun".to_string() }
    else if month == 7 { "Jul".to_string() }
    else if month == 8 { "Aug".to_string() }
    else if month == 9 { "Sep".to_string() }
    else if month == 10 { "Oct".to_string() }
    else if month == 11 { "Nov".to_string() }
    else { "Dec".to_string() }
}

/// Column `c` shows the month with index `mi`.
pub open spec fn column_is(c: ColumnRenderData, mi: int, max_month_width: int) -> bool {
    &&& c.days == index_month_length(mi)
    &&& c.width == max_month_width * c.days
    &&& c.month_name@ == month_abbrev(month_of_index(mi))
}

/// One column per month from the month of `first` to the month of `last`,
/// and the number of days they cover.
fn layout_columns(first: Date, last: Date, max_month_width: u32) -> (r: (Vec<ColumnRenderData>, u64))
    requires
        first.wf(),
        last.wf(),
    ensures
        r.0@.len() == if first.index() <= last.index() { last.index() - first.index() + 1 } else { 0 },
        forall|k: int| 0 <= k < r.0@.len() ==>
            column_is(#[trigger] r.0@[k], first.index() + k, max_month_width as int),
        r.1 == if first.index() <= last.index() {
            first_day(last.index() + 1) - first_day(first.index())
        } else {
            0
        },
{
    let mut cols: Vec<ColumnRenderData> = Vec::new();
    let mut days: u64 = 0;
    let mut y: i32 = first.year;
    let mut m: u32 = first.month;
    let ghost start = first.index();
    let ghost stop = last.index();
    proof {
        lemma_first_day_of_date(first.year as int, first.month as int, 1);
        lemma_first_day_of_date(last.year as int, last.month as int, 1);
        lemma_day_num_bounds(first.year as int, first.month as int, 1);
        lemma_day_num_bounds(last.year as int, last.month as int, 1);
        lemma_next_first_day(stop);
    }
    while y < last.year || (y == last.year && m <= last.month)
        invariant
            first.wf(),
            last.wf(),
            start == first.index(),
            stop == last.index(),
            1 <= m <= 12,
            start <= month_index(y as int, m as int),
            month_index(y as int, m as int) <= stop + 1 || month_index(y as int, m as int) == start,
            -100_000_000 <= first_day(start),
            first_day(stop + 1) <= 100_000_100,
            first_day(month_index(y as int, m as int)) <= 100_000_100,
            cols@.len() == month_index(y as int, m as int) - start,
            days == first_day(month_index(y as int, m as int)) - first_day(start),
            forall|k: int| 0 <= k < cols@.len() ==>
                column_is(#[trigger] cols@[k], start + k, max_month_width as int),
        decreases stop + 1 - month_index(y as int, m as int),
    {
        let ghost mi = month_index(y as int, m as int);
        proof {
            lemma_index_parts(y as int, m as int);
            lemma_next_first_day(mi);
            lemma_first_day_increasing(mi + 1, stop + 1);
            lemma_first_day_increasing(start, mi);
        }
        let n = days_in_month(y, m);
        proof {
            assert(max_month_width * n <= 0xffff_ffff * 31) by (nonlinear_arith)
                requires
                    max_month_width <= 0xffff_ffff,
                    n <= 31,
            ;
        }
        cols.push(ColumnRenderData {
            width: max_month_width as u64 * n as u64,
            days: n,
            month_name: month_name(m),
        });
        days = days + n as u64;
        if m == 12 {
            y = y + 1;
            m = 1;
        } else {
            m = m + 1;
        }
    }
    (cols, days)
}

/// Row `row` places item `i`.
pub open spec fn row_is(
    row: RowRenderData,
    items: Seq<ItemData>,
    i: int,
    title_width: int,
    max_month_width: int,
    first: int,
) -> bool {
    &&& row.title@ == items[i].title@
    &&& row.resource_index == carried_resource(items, i)
    &&& row.offset == x_of_day(title_width, max_month_width, first, item_start(items, i))
    &&& (row.length is Some <==> items[i].duration is Some)
    &&& row.length matches Some(l) ==> l == max_month_width * items[i].duration.unwrap()
    &&& row.open == match items[i].open {
        Some(b) => b,
        None => false,
    }
}

proof fn lemma_scaled_bound(a: int, b: int)
    requires
        0 <= a <= 0xffff_ffff,
        -400_000_000 <= b <= 400_000_000,
    ensures
        -2_000_000_000_000_000_000 <= a * b <= 2_000_000_000_000_000_000,
{
    assert(-2_000_000_000_000_000_000 <= a * b <= 2_000_000_000_000_000_000) by (nonlinear_arith)
        requires
            0 <= a <= 0xffff_ffff,
            -400_000_000 <= b <= 400_000_000,
    ;
}

/// The second pass: one row per item, each placed after the first day of
/// the month `first`.
fn layout_rows(
    items: &Vec<ItemData>,
    resource_count: usize,
    title_width: u32,
    max_month_width: u32,
    first: Date,
) -> (r: Vec<RowRenderData>)
    requires
        forall|i: int| 0 <= i < items@.len() ==> date_ok((#[trigger] items@[i]).start_date),
        first_error(items@, resource_count as int, items@.len() as int) is None,
        first.wf(),
        first.day == 1,
    ensures
        r@.len() == items@.len(),
        forall|i: int| 0 <= i < r@.len() ==>
            row_is(#[trigger] r@[i], items@, i, title_width as int, max_month_width as int, first.index()),
{
    let mut rows: Vec<RowRenderData> = Vec::new();
    let mut cursor: i64 = MIN_DAY as i64;
    let mut resource: usize = 0;
    let first_num: i64 = first.day_number() as i64;
    proof {
        lemma_first_day_of_date(first.year as int, first.month as int, 1);
        lemma_day_num_bounds(first.year as int, first.month as int, 1);
    }
    let base: i64 = X_SCALE as i64 * (title_width as i64 + GUTTER_LEFT as i64);
    let mut i: usize = 0;
    while i < items.len()
        invariant
            i <= items@.len(),
            forall|j: int| 0 <= j < items@.len() ==> date_ok((#[trigger] items@[j]).start_date),
            first_error(items@, resource_count as int, items@.len() as int) is None,
            first_num == first.num(),
            first_num == first_day(first.index()),
            -100_000_000 <= first_num <= 100_000_000,
            base == X_SCALE * (title_width + GUTTER_LEFT),
            cursor == cursor_after(items@, i as int),
            MIN_DAY <= cursor <= MAX_DAY,
            i > 0 ==> resource == carried_resource(items@, i - 1),
            rows@.len() == i,
            forall|j: int| 0 <= j < i ==>
                row_is(#[trigger] rows@[j], items@, j, title_width as int, max_month_width as int, first.index()),
        decreases items@.len() - i,
    {
        proof {
            lemma_first_error_prefix(items@, resource_count as int, items@.len() as int, i as int);
        }
        let item = &items[i];
        let start: i64 = match item.start_date {
            Some(d) => {
                proof {
                    lemma_day_num_bounds(d.year as int, d.month as int, d.day as int);
                }
                d.day_number() as i64
            },
            None => cursor,
        };
        proof {
            lemma_scaled_bound(max_month_width as int, start - first_num);
        }
        let offset: i64 = base + max_month_width as i64 * (start - first_num);
        let length: Option<i64> = match item.duration {
            Some(d) => {
                proof {
                    lemma_scaled_bound(max_month_width as int, d as int);
                }
                Some(max_month_width as i64 * d)
            },
            None => None,
        };
        cursor = start + match item.duration {
            Some(d) => d,
            None => 0,
        };
        match item.resource_index {
            Some(r) => {
                resource = r;
            },
            None => {},
        }
        let open: bool = match item.open {
            Some(b) => b,
            None => false,
        };
        rows.push(RowRenderData { title: item.title.clone(), resource_index: resource, offset, length, open });
        i = i + 1;
    }
    rows
}


pub open spec fn chart_width(title_width: int, max_month_width: int, days: int) -> int {
    (X_SCALE as int) * (GUTTER_LEFT + title_width + GUTTER_RIGHT) + max_month_width * days
}

impl RenderData {
    /// The fixed spacing of every chart.
    pub open spec fn has_standard_spacing(self) -> bool {
        &&& self.gutter == (Gutter { left: GUTTER_LEFT, top: GUTTER_TOP, right: GUTTER_RIGHT, bottom: GUTTER_BOTTOM })
        &&& self.row_gutter == (Gutter { left: ROW_GUTTER, top: ROW_GUTTER, right: ROW_GUTTER, bottom: ROW_GUTTER })
        &&& self.row_height == 2 * ROW_GUTTER + BASE_ROW_HEIGHT
        &&& self.resource_gutter == (Gutter {
            left: RESOURCE_GUTTER,
            top: RESOURCE_GUTTER,
            right: RESOURCE_GUTTER,
            bottom: RESOURCE_GUTTER,
        })
        &&& self.resource_height == 2 * RESOURCE_GUTTER + BASE_ROW_HEIGHT
        &&& self.rect_corner_radius == CORNER_RADIUS
    }

    /// This is the layout of `data` with the given widths and first hue.
    pub open spec fn is_layout_of(
        self,
        data: ChartData,
        title_width: int,
        max_month_width: int,
        first_hue: int,
    ) -> bool {
        let items = data.items@;
        &&& self.has_standard_spacing()
        &&& self.title@ == data.title@
        &&& self.title_width == title_width
        &&& self.max_month_width == max_month_width
        &&& self.resources@.len() == data.resources@.len()
        &&& forall|k: int| 0 <= k < self.resources@.len() ==>
            (#[trigger] self.resources@[k])@ == data.resources@[k].title@
        &&& self.resource_colors@.len() == data.resources@.len()
        &&& forall|k: int| 0 <= k < self.resource_colors@.len() ==>
            #[trigger] self.resource_colors@[k] == chosen_color(data.resources@[k], first_hue, k)
        &&& styles_are(self.styles@, self.resource_colors@)
        &&& items.len() > 0
        &&& self.rows@.len() == items.len()
        &&& self.cols@.len() == month_count(items)
        &&& forall|k: int| 0 <= k < self.cols@.len() ==>
            column_is(#[trigger] self.cols@[k], first_month(items) + k, max_month_width)
        &&& forall|i: int| 0 <= i < self.rows@.len() ==>
            row_is(#[trigger] self.rows@[i], items, i, title_width, max_month_width, first_month(items))
        &&& self.marked_date_offset == match data.marked_date {
            Some(d) => Some(x_of_day(title_width, max_month_width, first_month(items), d.num()) as i64),
            None => None,
        }
        &&& self.marked_date_offset matches Some(x) ==>
            x == x_of_day(title_width, max_month_width, first_month(items), data.marked_date.unwrap().num())
        &&& self.width == chart_width(title_width, max_month_width, total_days(items))
    }

    /// Height of the chart, with or without the resource table under it.
    pub fn height(&self, add_resource_table: bool) -> (r: u64)
        requires
            self.gutter.top + self.rows@.len() * self.row_height
                + (if add_resource_table {
                    self.resource_gutter.bottom + self.resource_gutter.top + self.row_height
                } else {
                    0
                }) + self.gutter.bottom <= u64::MAX,
        ensures
            r == self.gutter.top + self.rows@.len() * self.row_height
                + (if add_resource_table {
                    self.resource_gutter.bottom + self.resource_gutter.top + self.row_height
                } else {
                    0
                }) + self.gutter.bottom,
    {
        let n: u64 = self.rows.len() as u64;
        proof {
            assert(n * self.row_height >= 0) by (nonlinear_arith)
                requires
                    n >= 0,
                    self.row_height >= 0,
            ;
        }
        let table: u64 = if add_resource_table {
            self.resource_gutter.height() + self.row_height as u64
        } else {
            0
        };
        self.gutter.top as u64 + n * self.row_height as u64 + table + self.gutter.bottom as u64
    }
}

/// The colour of resource `k`: its own, or the `k`-th generated one.
pub open spec fn chosen_color(res: Resource, first_hue: int, k: int) -> int {
    match res.color {
        Some(c) => c as int,
        None => resource_color(first_hue, k),
    }
}

fn choose_colors(resources: &Vec<Resource>, first_hue: u32) -> (r: Vec<u32>)
    ensures
        r@.len() == resources@.len(),
        forall|k: int| 0 <= k < r@.len() ==> #[trigger] r@[k] == chosen_color(resources@[k], first_hue as int, k),
{
    let generated = resource_colors(resources.len(), first_hue);
    let mut r: Vec<u32> = Vec::new();
    let mut k: usize = 0;
    while k < resources.len()
        invariant
            k <= resources@.len(),
            generated@.len() == resources@.len(),
            forall|j: int| 0 <= j < generated@.len() ==> generated@[j] == resource_color(first_hue as int, j),
            r@.len() == k,
            forall|j: int| 0 <= j < k ==> #[trigger] r@[j] == chosen_color(resources@[j], first_hue as int, j),
        decreases resources@.len() - k,
    {
        let c = match resources[k].color {
            Some(c) => c,
            None => generated[k],
        };
        r.push(c);
        k = k + 1;
    }
    r
}

fn clone_names(names: &Vec<Resource>) -> (r: Vec<String>)
    ensures
        r@.len() == names@.len(),
        forall|k: int| 0 <= k < r@.len() ==> (#[trigger] r@[k])@ == names@[k].title@,
{
    let mut r: Vec<String> = Vec::new();
    let mut k: usize = 0;
    while k < names.len()
        invariant
            k <= names@.len(),
            r@.len() == k,
            forall|j: int| 0 <= j < k ==> (#[trigger] r@[j])@ == names@[j].title@,
        decreases names@.len() - k,
    {
        r.push(names[k].title.clone());
        k = k + 1;
    }
    r
}

/// Lays out `chart_data` with a title column of `title_width` units, months
/// of at most `max_month_width` units, and resource colours whose hues start
/// at `first_hue`.
pub fn layout_chart(title_width: u32, max_month_width: u32, chart_data: &ChartData, first_hue: u32) -> (r: Result<RenderData, LayoutError>)
    requires
        chart_data.wf(),
    ensures
        match r {
            Ok(rd) => {
                &&& chart_error(chart_data.items@, chart_data.resources@.len() as int) is None
                &&& rd.is_layout_of(*chart_data, title_width as int, max_month_width as int, first_hue as int)
            },
            Err(e) => chart_error(chart_data.items@, chart_data.resources@.len() as int) == Some(e),
        },
{
    let items = &chart_data.items;
    let resource_count = chart_data.resources.len();
    let (start, end) = match resolve_dates(items, resource_count) {
        Ok(found) => found,
        Err(e) => {
            return Err(e);
        },
    };
    let gutter = Gutter { left: GUTTER_LEFT, top: GUTTER_TOP, right: GUTTER_RIGHT, bottom: GUTTER_BOTTOM };
    let row_gutter = Gutter { left: ROW_GUTTER, top: ROW_GUTTER, right: ROW_GUTTER, bottom: ROW_GUTTER };
    let resource_gutter = Gutter {
        left: RESOURCE_GUTTER,
        top: RESOURCE_GUTTER,
        right: RESOURCE_GUTTER,
        bottom: RESOURCE_GUTTER,
    };
    let base: i64 = X_SCALE as i64 * (title_width as i64 + GUTTER_LEFT as i64);
    let frame: i64 = X_SCALE as i64 * (GUTTER_LEFT as i64 + title_width as i64 + GUTTER_RIGHT as i64);
    let (cols, rows, marked_date_offset, width) = match start {
        None => {
            proof {
                lemma_start_given(items@, resource_count as int);
            }
            return Err(LayoutError::MissingFirstStart);
        },
        Some(s) => {
            proof {
                lemma_start_given(items@, resource_count as int);
                lemma_earliest_start_wf(items@, items@.len() as int);
            }
            let first = s.first_of_month();
            let last_day = match date_from_day_number(end as i32) {
                Some(d) => d,
                None => {
                    return Err(LayoutError::DateOutOfRange);
                },
            };
            proof {
                lemma_date_in_month(last_day);
            }
            let (cols, days) = layout_columns(first, last_day, max_month_width);
            let rows = layout_rows(items, resource_count, title_width, max_month_width, first);
            proof {
                lemma_first_day_of_date(first.year as int, first.month as int, 1);
                lemma_day_num_bounds(first.year as int, first.month as int, 1);
                lemma_next_first_day(last_day.index());
                lemma_first_day_of_date(last_day.year as int, last_day.month as int, 1);
                lemma_day_num_bounds(last_day.year as int, last_day.month as int, 1);
                lemma_scaled_bound(max_month_width as int, days as int);
            }
            let marked = match chart_data.marked_date {
                Some(d) => {
                    proof {
                        lemma_day_num_bounds(d.year as int, d.month as int, d.day as int);
                        lemma_scaled_bound(max_month_width as int, d.num() - first.num());
                    }
                    Some(base + max_month_width as i64 * (d.day_number() as i64 - first.day_number() as i64))
                },
                None => None,
            };
            (cols, rows, marked, frame + max_month_width as i64 * days as i64)
        },
    };
    let colors = choose_colors(&chart_data.resources, first_hue);
    let styles = chart_styles(&colors);
    Ok(RenderData {
        title: chart_data.title.clone(),
        gutter,
        row_gutter,
        row_height: 2 * ROW_GUTTER + BASE_ROW_HEIGHT,
        resource_gutter,
        resource_height: 2 * RESOURCE_GUTTER + BASE_ROW_HEIGHT,
        marked_date_offset,
        title_width,
        max_month_width,
        rect_corner_radius: CORNER_RADIUS,
        width,
        cols,
        rows,
        resources: clone_names(&chart_data.resources),
        resource_colors: colors,
        styles,
    })
}

/// Lays out `chart_data` as `layout_chart` does, with a first hue drawn at
/// random.
pub fn process_chart_data(title_width: u32, max_month_width: u32, chart_data: &ChartData) -> (r: Result<RenderData, LayoutError>)
    requires
        chart_data.wf(),
    ensures
        match r {
            Ok(rd) => {
                &&& chart_error(chart_data.items@, chart_data.resources@.len() as int) is None
                &&& exists|h: u32| rd.is_layout_of(*chart_data, title_width as int, max_month_width as int, h as int)
            },
            Err(e) => chart_error(chart_data.items@, chart_data.resources@.len() as int) == Some(e),
        },
{
    let hue = random_hue();
    layout_chart(title_width, max_month_width, chart_data, hue)
}

/// Without errors, the first item gives a start date, and so the earliest
/// start exists exactly when there are items.
proof fn lemma_start_given(items: Seq<ItemData>, n: int)
    requires
        first_error(items, n, items.len() as int) is None,
    ensures
        earliest_start(items, items.len() as int) is Some <==> items.len() > 0,
{
    if items.len() > 0 {
        lemma_first_error_prefix(items, n, items.len() as int, 0);
        lemma_earliest_start_kept(items, 1, items.len() as int);
    }
}

/// The earliest start of valid dates is a valid date.
pub proof fn lemma_earliest_start_wf(items: Seq<ItemData>, k: int)
    requires
        0 <= k <= items.len(),
        forall|i: int| 0 <= i < items.len() ==> date_ok((#[trigger] items[i]).start_date),
    ensures
        date_ok(earliest_start(items, k)),
    decreases k,
{
    if k > 0 {
        lemma_earliest_start_wf(items, k - 1);
        assert(date_ok(items[k - 1].start_date));
    }
}

proof fn lemma_earliest_start_kept(items: Seq<ItemData>, k: int, k2: int)
    requires
        1 <= k <= k2 <= items.len(),
        earliest_start(items, k) is Some,
    ensures
        earliest_start(items, k2) is Some,
    decreases k2 - k,
{
    if k < k2 {
        lemma_earliest_start_kept(items, k, k2 - 1);
    }
}

} // verus!
