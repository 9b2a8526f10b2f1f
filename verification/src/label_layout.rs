//! Where each part of a label goes on the printed sheet, in printer dots.

use vstd::prelude::*;

verus! {

/// The row and column of a label on the sheet.
#[derive(Debug, Clone, Copy, PartialEq, Eq, Structural)]
pub struct LabelPosition {
    pub row: u32,
    pub column: u32,
}

/// The geometry of a sheet of labels, in printer dots.
#[derive(Debug, Clone, Copy)]
pub struct LabelLayout {
    pub label_width_dots: u32,
    pub label_height_dots: u32,
    pub columns: u32,
    pub margin_x: u32,
    pub margin_y: u32,
    pub barcode_height: u32,
    pub title_font_size: u32,
    pub code_font_size: u32,
    pub dpi: u32,
}

/// Left edge of the labels in `column`.
pub open spec fn spec_label_x(l: LabelLayout, column: nat) -> int {
    l.margin_x + column * l.label_width_dots
}

/// Top edge of the labels in `row`.
pub open spec fn spec_label_y(l: LabelLayout, row: nat) -> int {
    l.margin_y + row * l.label_height_dots
}

/// Top of the barcode of a label in `row`, below its title.
pub open spec fn spec_barcode_y(l: LabelLayout, row: nat) -> int {
    spec_label_y(l, row) + l.title_font_size + 20
}

/// Top of the code text of a label in `row`, below its barcode.
pub open spec fn spec_code_text_y(l: LabelLayout, row: nat) -> int {
    spec_barcode_y(l, row) + l.barcode_height + 10
}

/// Whether every coordinate of a label at `pos` fits in a `u32`.
pub open spec fn position_fits(l: LabelLayout, pos: LabelPosition) -> bool {
    &&& spec_label_x(l, pos.column as nat) <= u32::MAX
    &&& spec_code_text_y(l, pos.row as nat) <= u32::MAX
}

/// The layout with the given label size, column count and resolution, and
/// the standard margins (50), barcode height (100) and font sizes (30, 25).
pub open spec fn spec_layout(label_width_dots: u32, label_height_dots: u32, columns: u32, dpi: u32) -> LabelLayout {
    LabelLayout {
        label_width_dots,
        label_height_dots,
        columns,
        margin_x: 50,
        margin_y: 50,
        barcode_height: 100,
        title_font_size: 30,
        code_font_size: 25,
        dpi,
    }
}

impl LabelLayout {
    /// A layout with the standard margins, barcode height and fonts.
    pub fn new(label_width_dots: u32, label_height_dots: u32, columns: u32, dpi: u32) -> (l: Self)
        ensures
            l == spec_layout(label_width_dots, label_height_dots, columns, dpi),
    {
        Self {
            label_width_dots,
            label_height_dots,
            columns,
            margin_x: 50,
            margin_y: 50,
            barcode_height: 100,
            title_font_size: 30,
            code_font_size: 25,
            dpi,
        }
    }

    /// Width of a row of labels.
    pub fn total_width(&self) -> (w: u32)
        requires
            self.label_width_dots * self.columns <= u32::MAX,
        ensures
            w == self.label_width_dots * self.columns,
    {
        self.label_width_dots * self.columns
    }

    /// Height of `rows` rows of labels.
    pub fn total_height(&self, rows: u32) -> (h: u32)
        requires
            self.label_height_dots * rows <= u32::MAX,
        ensures
            h == self.label_height_dots * rows,
    {
        self.label_height_dots * rows
    }

    /// Left edge of the labels in `column`.
    pub fn label_x(&self, column: u32) -> (x: u32)
        requires
            spec_label_x(*self, column as nat) <= u32::MAX,
        ensures
            x == spec_label_x(*self, column as nat),
    {
        proof {
            assert(column * self.label_width_dots >= 0) by (nonlinear_arith);
        }
        self.margin_x + column * self.label_width_dots
    }

    /// Top edge of the labels in `row`.
    pub fn label_y(&self, row: u32) -> (y: u32)
        requires
            spec_label_y(*self, row as nat) <= u32::MAX,
        ensures
            y == spec_label_y(*self, row as nat),
    {
        proof {
            assert(row * self.label_height_dots >= 0) by (nonlinear_arith);
        }
        self.margin_y + row * self.label_height_dots
    }

    /// Where the title (the timestamp) of a label starts.
    pub fn title_position(&self, column: u32, row: u32) -> (p: (u32, u32))
        requires
            spec_label_x(*self, column as nat) <= u32::MAX,
            spec_label_y(*self, row as nat) <= u32::MAX,
        ensures
            p.0 == spec_label_x(*self, column as nat),
            p.1 == spec_label_y(*self, row as nat),
    {
        (self.label_x(column), self.label_y(row))
    }

    /// Where the barcode of a label starts: below the title.
    pub fn barcode_position(&self, column: u32, row: u32) -> (p: (u32, u32))
        requires
            spec_label_x(*self, column as nat) <= u32::MAX,
            spec_barcode_y(*self, row as nat) <= u32::MAX,
        ensures
            p.0 == spec_label_x(*self, column as nat),
            p.1 == spec_barcode_y(*self, row as nat),
    {
        proof {
            assert(row * self.label_height_dots >= 0) by (nonlinear_arith);
        }
        (self.label_x(column), self.label_y(row) + self.title_font_size + 20)
    }

    /// Where the code text of a label starts: below the barcode.
    pub fn code_text_position(&self, column: u32, row: u32) -> (p: (u32, u32))
        requires
            spec_label_x(*self, column as nat) <= u32::MAX,
            spec_code_text_y(*self, row as nat) <= u32::MAX,
        ensures
            p.0 == spec_label_x(*self, column as nat),
            p.1 == spec_code_text_y(*self, row as nat),
    {
        proof {
            assert(row * self.label_height_dots >= 0) by (nonlinear_arith);
        }
        (self.label_x(column), self.label_y(row) + self.title_font_size + 20 + self.barcode_height + 10)
    }
}

impl Default for LabelLayout {
    /// Two columns of 400 by 400 dot labels at 203 dpi.
    fn default() -> (l: Self)
        ensures
            l == spec_layout(400, 400, 2, 203),
    {
        Self::new(400, 400, 2, 203)
    }
}


/// On the standard layout the labels sit 50 dots in from the top and left,
/// one label width apart across and one label height apart down; in each
/// label the title starts at its top, the barcode 50 dots below it and the
/// code text 160 dots below it.
pub proof fn lemma_standard_cells(label_width_dots: u32, label_height_dots: u32, columns: u32, dpi: u32, column: nat, row: nat)
    ensures
        ({
            let l = spec_layout(label_width_dots, label_height_dots, columns, dpi);
            &&& spec_label_x(l, column) == 50 + column * label_width_dots
            &&& spec_label_y(l, row) == 50 + row * label_height_dots
            &&& spec_barcode_y(l, row) == 50 + row * label_height_dots + 50
            &&& spec_code_text_y(l, row) == 50 + row * label_height_dots + 160
        }),
{
}

} // verus!
