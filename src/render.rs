//! Rendering validated years into an SVG star chart.

use vstd::prelude::*;
use crate::text::{decimal, push_decimal};
use crate::validation::{YearView, years_view};

verus! {

pub const CELL_SIZE: u64 = 20;
pub const FONT_SIZE: u64 = 12;
pub const X_OFFSET: u64 = 40;
pub const Y_OFFSET: u64 = 60;
pub const YEAR_Y_OFFSET: u64 = 5;
pub const PADDING: u64 = 20;
pub const MATRIX_BORDER: u64 = 1;

/// Bound on the number of rows and of days per row, which keeps every coordinate in range.
pub const MAX_CELLS: usize = 1000000;

/// The stylesheet, with a light and a dark colour scheme.
pub const STYLE: &'static str = r#"
            <style>
                @media (prefers-color-scheme: light) {
                    .text { fill: #24292f; }
                    .grid-line { stroke: #24292f; }
                    .matrix-border { stroke: #24292f; }
                }
                @media (prefers-color-scheme: dark) {
                    .text { fill: #c9d1d9; }
                    .grid-line { stroke: #c9d1d9; }
                    .matrix-border { stroke: #c9d1d9; }
                }
                .year-label { font-family: Arial; font-size: 12px; }
                .day-label { font-family: Arial; font-size: 12px; }
                .total-label { font-family: Arial; font-size: 12px; font-weight: bold; }
                .grand-total { font-family: Arial; font-size: 14px; font-weight: bold; }
                .star { font-family: Arial; font-size: 12px; }
                .silver { fill: #6b7280; }
                .gold { fill: #fbbf24; }
                .matrix-border { fill: none; stroke-width: 1; }
                .grid-line { stroke-width: 0.5; stroke-opacity: 0.1; }
                .text { font-family: Arial; }
            </style>"#;

/// What separates the two digits of a two-digit day label.
pub const NEXT_LINE: &'static str = "\n                    ";

/// A year and the value of each of its days.
pub type Year = (usize, Vec<u8>);

pub type Years = Vec<Year>;

/// What a day value shows.
#[derive(Clone, Copy, Debug, PartialEq, Eq)]
pub enum Star {
    NoStar,
    Silver,
    Gold,
}

pub open spec fn star_of(value: u8) -> Star {
    if value == 1 {
        Star::Silver
    } else if value == 2 {
        Star::Gold
    } else {
        Star::NoStar
    }
}

impl From<u8> for Star {
    fn from(value: u8) -> (r: Star)
        ensures
            r == star_of(value),
    {
        match value {
            1 => Star::Silver,
            2 => Star::Gold,
            _ => Star::NoStar,
        }
    }
}

impl vstd::std_specs::convert::FromSpecImpl<u8> for Star {
    open spec fn obeys_from_spec() -> bool {
        true
    }

    open spec fn from_spec(v: u8) -> Star {
        star_of(v)
    }
}

/// The points a day value adds to a total: a silver star counts 1, a gold one 2.
pub open spec fn star_points(v: u8) -> nat {
    if v == 1 { 1 } else if v == 2 { 2 } else { 0 }
}

pub open spec fn header_text(width: nat, height: nat, mw: nat, mh: nat) -> Seq<char> {
    "<svg xmlns=\"http://www.w3.org/2000/svg\" width=\""@ + decimal(width) + "\" height=\""@ + decimal(height)
        + "\" viewBox=\"0 0 "@ + decimal(width) + " "@ + decimal(height) + "\">"@ + STYLE@
        + "<rect x=\""@ + decimal(39) + "\" y=\""@ + decimal(59) + "\" width=\""@ + decimal(mw + 2)
        + "\" height=\""@ + decimal(mh + 2) + "\" class=\"matrix-border\"/>"@
}

pub open spec fn line_text(x1: nat, y1: nat, x2: nat, y2: nat) -> Seq<char> {
    "<line x1=\""@ + decimal(x1) + "\" y1=\""@ + decimal(y1) + "\" x2=\""@ + decimal(x2) + "\" y2=\""@
        + decimal(y2) + "\" class=\"grid-line\"/>"@
}

/// The first `k` vertical grid lines.
pub open spec fn grid_columns(k: nat, mh: nat) -> Seq<char>
    decreases k,
{
    if k == 0 {
        Seq::empty()
    } else {
        let x = 40 + (k - 1) * 20;
        grid_columns((k - 1) as nat, mh) + line_text(x as nat, 60, x as nat, 60 + mh)
    }
}

/// The first `k` horizontal grid lines.
pub open spec fn grid_rows(k: nat, mw: nat) -> Seq<char>
    decreases k,
{
    if k == 0 {
        Seq::empty()
    } else {
        let y = 60 + (k - 1) * 20;
        grid_rows((k - 1) as nat, mw) + line_text(40, y as nat, 40 + mw, y as nat)
    }
}

pub open spec fn text_open(x: nat, y: nat, class: Seq<char>, anchor: Seq<char>) -> Seq<char> {
    "<text x=\""@ + decimal(x) + "\" y=\""@ + decimal(y) + "\" class=\""@ + class + "\" text-anchor=\""@
        + anchor + "\">"@
}

/// The labels of the first `k` years.
pub open spec fn year_labels(ys: Seq<YearView>, k: nat) -> Seq<char>
    decreases k,
{
    if k == 0 || k > ys.len() {
        Seq::empty()
    } else {
        let y = 60 + 5 + (k - 1) * 20 + 10;
        year_labels(ys, (k - 1) as nat) + text_open(30, y as nat, "year-label text"@, "end"@)
            + decimal(ys[k - 1].0) + "</text>"@
    }
}

/// The label of day `day_num` (counted from 1), drawn at column `x`.
pub open spec fn day_label(x: nat, day_num: nat) -> Seq<char> {
    if day_num < 10 {
        text_open(x + 10, 55, "day-label text"@, "middle"@) + decimal(day_num) + "</text>"@
    } else {
        text_open(x + 10, 38, "day-label text"@, "middle"@) + decimal(day_num / 10) + "</text>"@ + NEXT_LINE@
            + text_open(x + 10, 55, "day-label text"@, "middle"@) + decimal(day_num % 10) + "</text>"@
    }
}

/// The labels of the first `k` days.
pub open spec fn day_labels(k: nat) -> Seq<char>
    decreases k,
{
    if k == 0 {
        Seq::empty()
    } else {
        day_labels((k - 1) as nat) + day_label((40 + (k - 1) * 20) as nat, k)
    }
}

/// The mark of day `d` of row `row`, if it holds a star.
pub open spec fn star_mark(d: nat, row: nat, v: u8) -> Seq<char> {
    if v == 1 || v == 2 {
        "<text x=\""@ + decimal(40 + d * 20 + 10) + "\" y=\""@ + decimal(60 + row * 20 + 14) + "\" class=\"star "@
            + (if v == 1 { "silver"@ } else { "gold"@ }) + "\" text-anchor=\"middle\">\u{2605}</text>"@
    } else {
        Seq::empty()
    }
}

/// The marks of the first `k` days of row `row`.
pub open spec fn star_marks(days: Seq<u8>, row: nat, k: nat) -> Seq<char>
    decreases k,
{
    if k == 0 || k > days.len() {
        Seq::empty()
    } else {
        star_marks(days, row, (k - 1) as nat) + star_mark((k - 1) as nat, row, days[k - 1])
    }
}

/// The points of the first `k` days.
pub open spec fn points(days: Seq<u8>, k: nat) -> nat
    decreases k,
{
    if k == 0 || k > days.len() {
        0
    } else {
        points(days, (k - 1) as nat) + star_points(days[k - 1])
    }
}

/// One row of the chart: its stars, then the row's total.
pub open spec fn year_row(days: Seq<u8>, row: nat) -> Seq<char> {
    star_marks(days, row, days.len()) + text_open(40 + days.len() * 20 + 10, 60 + row * 20 + 14,
        "total-label text"@, "middle"@) + decimal(points(days, days.len())) + "</text>"@
}

/// The first `k` rows.
pub open spec fn year_rows(ys: Seq<YearView>, k: nat) -> Seq<char>
    decreases k,
{
    if k == 0 || k > ys.len() {
        Seq::empty()
    } else {
        year_rows(ys, (k - 1) as nat) + year_row(ys[k - 1].1, (k - 1) as nat)
    }
}

/// The points of the first `k` years.
pub open spec fn grand_total(ys: Seq<YearView>, k: nat) -> nat
    decreases k,
{
    if k == 0 || k > ys.len() {
        0
    } else {
        grand_total(ys, (k - 1) as nat) + points(ys[k - 1].1, ys[k - 1].1.len())
    }
}

pub open spec fn num_days(ys: Seq<YearView>) -> nat {
    if ys.len() == 0 { 0 } else { ys[0].1.len() }
}

/// The whole chart of `ys`.
pub open spec fn svg_text(ys: Seq<YearView>) -> Seq<char> {
    let nd = num_days(ys);
    let ny = ys.len();
    let mw = (nd + 1) * 20;
    let mh = ny * 20;
    header_text(40 + mw + 40, 60 + mh + 80, mw, mh) + grid_columns(nd + 2, mh) + grid_rows(ny + 1, mw)
        + year_labels(ys, ny) + day_labels(nd) + year_rows(ys, ny) + text_open(40 + mw / 2, 60 + mh + 40,
        "grand-total text"@, "middle"@) + "Total stars: "@ + decimal(grand_total(ys, ny)) + "</text>"@
        + "</svg>"@
}

/// Whether every row and every row's days stay within `MAX_CELLS`.
pub open spec fn within_bounds(ys: Seq<YearView>) -> bool {
    ys.len() <= MAX_CELLS && forall|i: int| 0 <= i < ys.len() ==> #[trigger] ys[i].1.len() <= MAX_CELLS
}

proof fn lemma_points_bound(days: Seq<u8>, k: nat)
    ensures
        points(days, k) <= 2 * k,
    decreases k,
{
    if k > 0 && k <= days.len() {
        lemma_points_bound(days, (k - 1) as nat);
    }
}

proof fn lemma_grand_total_bound(ys: Seq<YearView>, k: nat)
    requires
        within_bounds(ys),
    ensures
        grand_total(ys, k) <= 2 * MAX_CELLS * k,
    decreases k,
{
    if k > 0 && k <= ys.len() {
        lemma_grand_total_bound(ys, (k - 1) as nat);
        lemma_points_bound(ys[k - 1].1, ys[k - 1].1.len());
    }
}

fn push_line(s: &mut String, x1: u64, y1: u64, x2: u64, y2: u64)
    ensures
        final(s)@ == old(s)@ + line_text(x1 as nat, y1 as nat, x2 as nat, y2 as nat),
{
    s.append("<line x1=\"");
    push_decimal(s, x1);
    s.append("\" y1=\"");
    push_decimal(s, y1);
    s.append("\" x2=\"");
    push_decimal(s, x2);
    s.append("\" y2=\"");
    push_decimal(s, y2);
    s.append("\" class=\"grid-line\"/>");
    proof {
        assert(final(s)@ =~= old(s)@ + line_text(x1 as nat, y1 as nat, x2 as nat, y2 as nat));
    }
}

fn push_text_open(s: &mut String, x: u64, y: u64, class: &str, anchor: &str)
    ensures
        final(s)@ == old(s)@ + text_open(x as nat, y as nat, class@, anchor@),
{
    s.append("<text x=\"");
    push_decimal(s, x);
    s.append("\" y=\"");
    push_decimal(s, y);
    s.append("\" class=\"");
    s.append(class);
    s.append("\" text-anchor=\"");
    s.append(anchor);
    s.append("\">");
    proof {
        assert(final(s)@ =~= old(s)@ + text_open(x as nat, y as nat, class@, anchor@));
    }
}

/// A chart under construction, with its dimensions.
struct SvgBuilder {
    content: String,
    width: u64,
    height: u64,
    matrix_width: u64,
    matrix_height: u64,
}

impl SvgBuilder {
    /// Dimensions that fit `num_days` days and `num_years` years.
    spec fn sized(&self, num_days: nat, num_years: nat) -> bool {
        &&& self.matrix_width == (num_days + 1) * 20
        &&& self.matrix_height == num_years * 20
        &&& self.width == 40 + self.matrix_width + 40
        &&& self.height == 60 + self.matrix_height + 80
    }

    fn new(num_days: u64, num_years: u64) -> (r: Self)
        requires
            num_days <= MAX_CELLS,
            num_years <= MAX_CELLS,
        ensures
            r.sized(num_days as nat, num_years as nat),
            r.content@ == header_text(r.width as nat, r.height as nat, r.matrix_width as nat, r.matrix_height as nat),
    {
        let matrix_width = (num_days + 1) * CELL_SIZE;
        let matrix_height = num_years * CELL_SIZE;
        let width = X_OFFSET + matrix_width + PADDING * 2;
        let height = Y_OFFSET + matrix_height + PADDING * 4;
        let mut builder = SvgBuilder { content: String::new(), width, height, matrix_width, matrix_height };
        builder.add_header();
        proof {
            assert(builder.content@ =~= header_text(width as nat, height as nat, matrix_width as nat, matrix_height as nat));
        }
        builder
    }

    fn add_header(&mut self)
        requires
            old(self).matrix_width <= 100000000,
            old(self).matrix_height <= 100000000,
        ensures
            final(self).content@ == old(self).content@ + header_text(old(self).width as nat, old(self).height as nat,
                old(self).matrix_width as nat, old(self).matrix_height as nat),
            final(self).width == old(self).width,
            final(self).height == old(self).height,
            final(self).matrix_width == old(self).matrix_width,
            final(self).matrix_height == old(self).matrix_height,
    {
        let c = &mut self.content;
        c.append("<svg xmlns=\"http://www.w3.org/2000/svg\" width=\"");
        push_decimal(c, self.width);
        c.append("\" height=\"");
        push_decimal(c, self.height);
        c.append("\" viewBox=\"0 0 ");
        push_decimal(c, self.width);
        c.append(" ");
        push_decimal(c, self.height);
        c.append("\">");
        c.append(STYLE);
        c.append("<rect x=\"");
        push_decimal(c, X_OFFSET - MATRIX_BORDER);
        c.append("\" y=\"");
        push_decimal(c, Y_OFFSET - MATRIX_BORDER);
        c.append("\" width=\"");
        push_decimal(c, self.matrix_width + MATRIX_BORDER * 2);
        c.append("\" height=\"");
        push_decimal(c, self.matrix_height + MATRIX_BORDER * 2);
        c.append("\" class=\"matrix-border\"/>");
        proof {
            assert(self.content@ =~= old(self).content@ + header_text(self.width as nat, self.height as nat,
                self.matrix_width as nat, self.matrix_height as nat));
        }
    }

    fn add_grid(&mut self, num_days: u64, num_years: u64)
        requires
            num_days <= MAX_CELLS,
            num_years <= MAX_CELLS,
            old(self).sized(num_days as nat, num_years as nat),
        ensures
            final(self).sized(num_days as nat, num_years as nat),
            final(self).width == old(self).width,
            final(self).height == old(self).height,
            final(self).content@ == old(self).content@ + grid_columns(num_days as nat + 2,
                old(self).matrix_height as nat) + grid_rows(num_years as nat + 1, old(self).matrix_width as nat),
    {
        let ghost base = self.content@;
        let mut i: u64 = 0;
        while i <= num_days + 1
            invariant
                num_days <= MAX_CELLS,
                i <= num_days + 2,
                self.sized(num_days as nat, num_years as nat),
                self.width == old(self).width,
                self.height == old(self).height,
                self.content@ == base + grid_columns(i as nat, self.matrix_height as nat),
            decreases num_days + 2 - i,
        {
            let x = X_OFFSET + i * CELL_SIZE;
            push_line(&mut self.content, x, Y_OFFSET, x, Y_OFFSET + self.matrix_height);
            proof {
                assert(self.content@ =~= base + grid_columns((i + 1) as nat, self.matrix_height as nat));
            }
            i = i + 1;
        }
        let ghost mid = self.content@;
        let mut j: u64 = 0;
        while j <= num_years
            invariant
                num_years <= MAX_CELLS,
                j <= num_years + 1,
                self.sized(num_days as nat, num_years as nat),
                self.width == old(self).width,
                self.height == old(self).height,
                self.content@ == mid + grid_rows(j as nat, self.matrix_width as nat),
            decreases num_years + 1 - j,
        {
            let y = Y_OFFSET + j * CELL_SIZE;
            push_line(&mut self.content, X_OFFSET, y, X_OFFSET + self.matrix_width, y);
            proof {
                assert(self.content@ =~= mid + grid_rows((j + 1) as nat, self.matrix_width as nat));
            }
            j = j + 1;
        }
        proof {
            assert(self.content@ =~= base + grid_columns(num_days as nat + 2, self.matrix_height as nat)
                + grid_rows(num_years as nat + 1, self.matrix_width as nat));
        }
    }

    fn add_year_labels(&mut self, years: &Vec<(usize, Vec<u8>)>)
        requires
            years@.len() <= MAX_CELLS,
        ensures
            final(self).content@ == old(self).content@ + year_labels(years_view(years@), years@.len() as nat),
            final(self).width == old(self).width,
            final(self).height == old(self).height,
            final(self).matrix_width == old(self).matrix_width,
            final(self).matrix_height == old(self).matrix_height,
    {
        let ghost ys = years_view(years@);
        let ghost base = self.content@;
        let mut i: usize = 0;
        while i < years.len()
            invariant
                years@.len() <= MAX_CELLS,
                ys == years_view(years@),
                i <= years@.len(),
                self.width == old(self).width,
                self.height == old(self).height,
                self.matrix_width == old(self).matrix_width,
                self.matrix_height == old(self).matrix_height,
                self.content@ == base + year_labels(ys, i as nat),
            decreases years@.len() - i,
        {
            let y_position = Y_OFFSET + YEAR_Y_OFFSET + (i as u64) * CELL_SIZE;
            push_text_open(&mut self.content, X_OFFSET - PADDING / 2, y_position + CELL_SIZE / 2,
                "year-label text", "end");
            push_decimal(&mut self.content, years[i].0 as u64);
            self.content.append("</text>");
            proof {
                reveal_strlit("year-label text");
                reveal_strlit("end");
                assert(ys[i as int].0 == years@[i as int].0 as nat);
                assert(self.content@ =~= base + year_labels(ys, (i + 1) as nat));
            }
            i = i + 1;
        }
    }

    fn add_stars(&mut self, years: &Vec<(usize, Vec<u8>)>)
        requires
            within_bounds(years_view(years@)),
            old(self).matrix_width <= 100000000,
            old(self).matrix_height <= 100000000,
        ensures
            final(self).content@ == old(self).content@ + year_rows(years_view(years@), years@.len() as nat)
                + text_open(40 + old(self).matrix_width as nat / 2, 60 + old(self).matrix_height as nat + 40,
                "grand-total text"@, "middle"@) + "Total stars: "@ + decimal(grand_total(years_view(years@), years@.len() as nat))
                + "</text>"@,
            final(self).width == old(self).width,
            final(self).height == old(self).height,
            final(self).matrix_width == old(self).matrix_width,
            final(self).matrix_height == old(self).matrix_height,
    {
        let ghost ys = years_view(years@);
        let ghost base = self.content@;
        let mut grand: u64 = 0;
        let mut i: usize = 0;
        while i < years.len()
            invariant
                within_bounds(ys),
                ys == years_view(years@),
                i <= years@.len(),
                self.width == old(self).width,
                self.height == old(self).height,
                self.matrix_width == old(self).matrix_width,
                self.matrix_height == old(self).matrix_height,
                self.content@ == base + year_rows(ys, i as nat),
                grand == grand_total(ys, i as nat),
            decreases years@.len() - i,
        {
            let days = &years[i].1;
            let ghost dv = ys[i as int].1;
            assert(dv == days@);
            assert(days@.len() <= MAX_CELLS);
            let y_position = Y_OFFSET + (i as u64) * CELL_SIZE;
            let ghost row_base = self.content@;
            let mut year_total: u64 = 0;
            let mut d: usize = 0;
            while d < days.len()
                invariant
                    days@ == dv,
                    dv.len() <= MAX_CELLS,
                    i < MAX_CELLS,
                    y_position == 60 + i * 20,
                    d <= dv.len(),
                    self.width == old(self).width,
                    self.height == old(self).height,
                    self.matrix_width == old(self).matrix_width,
                    self.matrix_height == old(self).matrix_height,
                    self.content@ == row_base + star_marks(dv, i as nat, d as nat),
                    year_total == points(dv, d as nat),
                decreases dv.len() - d,
            {
                proof {
                    lemma_points_bound(dv, d as nat);
                }
                let value = days[d];
                let star = Star::from(value);
                let ghost before = self.content@;
                match star {
                    Star::NoStar => {},
                    _ => {
                        year_total = year_total + value as u64;
                        let x_position = X_OFFSET + (d as u64) * CELL_SIZE;
                        self.content.append("<text x=\"");
                        push_decimal(&mut self.content, x_position + CELL_SIZE / 2);
                        self.content.append("\" y=\"");
                        push_decimal(&mut self.content, y_position + CELL_SIZE / 2 + FONT_SIZE / 3);
                        self.content.append("\" class=\"star ");
                        let star_class = match star {
                            Star::Silver => "silver",
                            _ => "gold",
                        };
                        self.content.append(star_class);
                        self.content.append("\" text-anchor=\"middle\">\u{2605}</text>");
                    },
                }
                proof {
                    assert(self.content@ =~= before + star_mark(d as nat, i as nat, value));
                    assert(self.content@ =~= row_base + star_marks(dv, i as nat, (d + 1) as nat));
                }
                d = d + 1;
            }
            let total_x = X_OFFSET + (days.len() as u64) * CELL_SIZE;
            push_text_open(&mut self.content, total_x + CELL_SIZE / 2, y_position + CELL_SIZE / 2 + FONT_SIZE / 3,
                "total-label text", "middle");
            proof {
                lemma_points_bound(dv, dv.len());
                lemma_grand_total_bound(ys, i as nat);
                lemma_grand_total_bound(ys, (i + 1) as nat);
            }
            push_decimal(&mut self.content, year_total);
            self.content.append("</text>");
            proof {
                reveal_strlit("total-label text");
                reveal_strlit("middle");
                assert(self.content@ =~= row_base + year_row(dv, i as nat));
                assert(self.content@ =~= base + year_rows(ys, (i + 1) as nat));
            }
            grand = grand + year_total;
            i = i + 1;
        }
        let center_x = X_OFFSET + self.matrix_width / 2;
        let total_y = Y_OFFSET + self.matrix_height + PADDING * 2;
        let ghost mid = self.content@;
        push_text_open(&mut self.content, center_x, total_y, "grand-total text", "middle");
        self.content.append("Total stars: ");
        push_decimal(&mut self.content, grand);
        self.content.append("</text>");
        proof {
            assert(self.content@ =~= mid + text_open(center_x as nat, total_y as nat, "grand-total text"@, "middle"@)
                + "Total stars: "@ + decimal(grand as nat) + "</text>"@);
        }
    }

    fn finalize(self) -> (r: String)
        ensures
            r@ == self.content@ + "</svg>"@,
    {
        let mut content = self.content;
        content.append("</svg>");
        content
    }

    fn add_day_labels(&mut self, num_days: u64)
        requires
            num_days <= MAX_CELLS,
        ensures
            final(self).content@ == old(self).content@ + day_labels(num_days as nat),
            final(self).width == old(self).width,
            final(self).height == old(self).height,
            final(self).matrix_width == old(self).matrix_width,
            final(self).matrix_height == old(self).matrix_height,
    {
        let ghost base = self.content@;
        let mut day: u64 = 0;
        while day < num_days
            invariant
                num_days <= MAX_CELLS,
                day <= num_days,
                self.width == old(self).width,
                self.height == old(self).height,
                self.matrix_width == old(self).matrix_width,
                self.matrix_height == old(self).matrix_height,
                self.content@ == base + day_labels(day as nat),
            decreases num_days - day,
        {
            let x_position = X_OFFSET + day * CELL_SIZE;
            let day_num = day + 1;
            let ghost before = self.content@;
            if day_num < 10 {
                push_text_open(&mut self.content, x_position + CELL_SIZE / 2, Y_OFFSET - PADDING / 4,
                    "day-label text", "middle");
                push_decimal(&mut self.content, day_num);
                self.content.append("</text>");
            } else {
                push_text_open(&mut self.content, x_position + CELL_SIZE / 2, Y_OFFSET - PADDING - 2,
                    "day-label text", "middle");
                push_decimal(&mut self.content, day_num / 10);
                self.content.append("</text>");
                self.content.append(NEXT_LINE);
                push_text_open(&mut self.content, x_position + CELL_SIZE / 2, Y_OFFSET - PADDING / 4,
                    "day-label text", "middle");
                push_decimal(&mut self.content, day_num % 10);
                self.content.append("</text>");
            }
            proof {
                reveal_strlit("day-label text");
                reveal_strlit("middle");
                assert(self.content@ =~= before + day_label(x_position as nat, day_num as nat));
                assert(self.content@ =~= base + day_labels((day + 1) as nat));
            }
            day = day + 1;
        }
    }
}

/// Renders validated years as an SVG chart: a grid with one row per year and one column per
/// day of the first year, a star for each day value 1 (silver) or 2 (gold), each row's points
/// and the grand total.
pub fn generate_svg(years: Vec<(usize, Vec<u8>)>) -> (r: String)
    requires
        within_bounds(years_view(years@)),
    ensures
        r@ == svg_text(years_view(years@)),
{
    let ghost ys = years_view(years@);
    let num_years = years.len() as u64;
    let num_days = if years.len() == 0 { 0 } else { years[0].1.len() as u64 };
    proof {
        if years@.len() > 0 {
            assert(ys[0].1 == years@[0].1@);
        }
    }
    let mut builder = SvgBuilder::new(num_days, num_years);
    builder.add_grid(num_days, num_years);
    builder.add_year_labels(&years);
    builder.add_day_labels(num_days);
    builder.add_stars(&years);
    let r = builder.finalize();
    proof {
        assert(r@ =~= svg_text(ys));
    }
    r
}

} // verus!
