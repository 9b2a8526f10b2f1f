//! Rendering labels as ZPL, the command language of Zebra printers.

use vstd::prelude::*;
use crate::label_layout::{
    position_fits, spec_barcode_y, spec_code_text_y, spec_label_x, spec_label_y, spec_layout, LabelLayout,
    LabelPosition,
};
use std::collections::BTreeMap;
use vstd::std_specs::btree::{increasing_seq, spec_btree_map_iter};
use vstd::std_specs::iter::IteratorSpec;
use crate::text::{decimal, push_decimal};

verus! {

/// A text field: origin, scalable font of size `font`, then `data`.
pub open spec fn text_field(x: int, y: int, font: nat, data: Seq<char>) -> Seq<char> {
    "^FO"@ + decimal(x as nat) + ","@ + decimal(y as nat) + "\n^A@N,"@ + decimal(font) + ","@ + decimal(font)
        + "\n^FD"@ + data + "\n^FS\n"@
}

/// A Code 128 barcode field of height `height` for `code`, with its
/// interpretation line printed below.
pub open spec fn barcode_field(x: int, y: int, height: nat, code: Seq<char>) -> Seq<char> {
    "^FO"@ + decimal(x as nat) + ","@ + decimal(y as nat) + "\n^BY2\n^BCN,"@ + decimal(height) + ",Y,N\n^FD"@ + code
        + "\n^FS\n"@
}

/// One label: the timestamp as title, the barcode, and the code as text.
pub open spec fn label_zpl(l: LabelLayout, code: Seq<char>, timestamp: Seq<char>, pos: LabelPosition) -> Seq<char> {
    text_field(spec_label_x(l, pos.column as nat), spec_label_y(l, pos.row as nat), l.title_font_size as nat, timestamp)
        + barcode_field(spec_label_x(l, pos.column as nat), spec_barcode_y(l, pos.row as nat), l.barcode_height as nat, code)
        + text_field(spec_label_x(l, pos.column as nat), spec_code_text_y(l, pos.row as nat), l.code_font_size as nat, code)
}

/// The labels, one after the other, each at its own position.
pub open spec fn labels_zpl(l: LabelLayout, labels: Seq<(String, LabelPosition)>, timestamp: Seq<char>) -> Seq<char>
    decreases labels.len(),
{
    if labels.len() == 0 {
        Seq::empty()
    } else {
        labels_zpl(l, labels.drop_last(), timestamp) + label_zpl(l, labels.last().0@, timestamp, labels.last().1)
    }
}

/// The number of rows that `n` labels fill, `columns` to a row.
pub open spec fn rows_for(n: nat, columns: u32) -> nat {
    if n == 0 {
        0
    } else {
        ((n - 1) as nat / columns as nat + 1) as nat
    }
}

/// The header of a format: print width, then label length.
pub open spec fn format_header(width: nat, length: nat) -> Seq<char> {
    "^XA\n"@ + "^PW"@ + decimal(width) + "\n"@ + "^LL"@ + decimal(length) + "\n"@
}

/// The whole batch as one format: the width of a row, the height of all the
/// rows the labels fill, then every label.
pub open spec fn batch_zpl(l: LabelLayout, labels: Seq<(String, LabelPosition)>, timestamp: Seq<char>) -> Seq<char> {
    format_header((l.label_width_dots * l.columns) as nat, (l.label_height_dots * rows_for(labels.len(), l.columns)) as nat)
        + labels_zpl(l, labels, timestamp) + "^XZ\n"@
}

/// Whether `generate_batch` can render `labels` without overflowing a `u32`.
pub open spec fn batch_fits(l: LabelLayout, labels: Seq<(String, LabelPosition)>) -> bool {
    &&& labels.len() <= u32::MAX
    &&& l.label_width_dots * l.columns <= u32::MAX
    &&& labels.len() > 0 ==> l.columns > 0
    &&& labels.len() > 0 ==> l.label_height_dots * rows_for(labels.len(), l.columns) <= u32::MAX
    &&& forall|i: int| 0 <= i < labels.len() ==> position_fits(l, #[trigger] labels[i].1)
}


/// `rows` with `r` put in its place, if it is not there yet; kept in
/// increasing order when `rows` is.
pub open spec fn insert_row(rows: Seq<u32>, r: u32) -> Seq<u32>
    decreases rows.len(),
{
    if rows.len() == 0 {
        seq![r]
    } else if rows[0] == r {
        rows
    } else if rows[0] > r {
        seq![r] + rows
    } else {
        seq![rows[0]] + insert_row(rows.drop_first(), r)
    }
}

/// The rows that the labels occupy, each once, in increasing order.
pub open spec fn distinct_rows(labels: Seq<(String, LabelPosition)>) -> Seq<u32>
    decreases labels.len(),
{
    if labels.len() == 0 {
        Seq::empty()
    } else {
        insert_row(distinct_rows(labels.drop_last()), labels.last().1.row)
    }
}

/// The labels of `row`, in their order, each moved to the first row.
pub open spec fn row_labels_zpl(l: LabelLayout, labels: Seq<(String, LabelPosition)>, row: u32, timestamp: Seq<char>) -> Seq<char>
    decreases labels.len(),
{
    if labels.len() == 0 {
        Seq::empty()
    } else {
        let last = labels.last();
        row_labels_zpl(l, labels.drop_last(), row, timestamp) + if last.1.row == row {
            label_zpl(l, last.0@, timestamp, LabelPosition { row: 0, column: last.1.column })
        } else {
            Seq::empty()
        }
    }
}

/// The places of the labels of `row`, in their order.
pub open spec fn row_members(labels: Seq<(String, LabelPosition)>, row: u32) -> Seq<usize>
    decreases labels.len(),
{
    if labels.len() == 0 {
        Seq::empty()
    } else if labels.last().1.row == row {
        row_members(labels.drop_last(), row).push((labels.len() - 1) as usize)
    } else {
        row_members(labels.drop_last(), row)
    }
}

/// The labels at the places `members`, in that order, each moved to the
/// first row.
pub open spec fn members_zpl(l: LabelLayout, labels: Seq<(String, LabelPosition)>, members: Seq<usize>, timestamp: Seq<char>) -> Seq<char>
    decreases members.len(),
{
    if members.len() == 0 {
        Seq::empty()
    } else {
        let label = labels[members.last() as int];
        members_zpl(l, labels, members.drop_last(), timestamp)
            + label_zpl(l, label.0@, timestamp, LabelPosition { row: 0, column: label.1.column })
    }
}

/// One row of labels as its own format, one label high.
pub open spec fn row_batch_zpl(l: LabelLayout, labels: Seq<(String, LabelPosition)>, row: u32, timestamp: Seq<char>) -> Seq<char> {
    format_header((l.label_width_dots * l.columns) as nat, l.label_height_dots as nat) + row_labels_zpl(l, labels, row, timestamp)
        + "^XZ\n"@
}

/// Whether `generate_batch_by_rows` can render `labels` without overflowing
/// a `u32`.
pub open spec fn rows_fit(l: LabelLayout, labels: Seq<(String, LabelPosition)>) -> bool {
    &&& l.label_width_dots * l.columns <= u32::MAX
    &&& forall|i: int| 0 <= i < labels.len() ==> position_fits(l, LabelPosition { row: 0, column: #[trigger] labels[i].1.column })
}

/// Renders labels as ZPL for a given sheet layout.
#[derive(Debug, Clone, Copy)]
pub struct ZplGenerator {
    layout: LabelLayout,
}

impl View for ZplGenerator {
    type V = LabelLayout;

    closed spec fn view(&self) -> LabelLayout {
        self.layout
    }
}

impl ZplGenerator {
    pub fn new(layout: LabelLayout) -> (g: Self)
        ensures
            g@ == layout,
    {
        Self { layout }
    }

    /// All the labels in one format, at their positions; `timestamp` is the
    /// title of every label.
    pub fn generate_batch(&self, labels: &[(String, LabelPosition)], timestamp: &str) -> (zpl: String)
        requires
            batch_fits(self@, labels@),
        ensures
            zpl@ == batch_zpl(self@, labels@, timestamp@),
    {
        let mut zpl = String::from_str("^XA\n");
        zpl.append("^PW");
        push_decimal(&mut zpl, self.layout.total_width() as u64);
        zpl.append("\n");
        let n = labels.len();
        let rows: u32 = if n == 0 {
            0
        } else {
            #[verifier::truncate]
            let count = n as u32;
            (count - 1) / self.layout.columns + 1
        };
        assert(rows == rows_for(n as nat, self@.columns));
        zpl.append("^LL");
        push_decimal(&mut zpl, self.layout.total_height(rows) as u64);
        zpl.append("\n");
        let ghost head = zpl@;
        assert(head == format_header((self@.label_width_dots * self@.columns) as nat, (self@.label_height_dots * rows) as nat));
        let mut i: usize = 0;
        while i < n
            invariant
                n == labels@.len(),
                i <= n,
                batch_fits(self@, labels@),
                zpl@ == head + labels_zpl(self@, labels@.take(i as int), timestamp@),
            decreases n - i,
        {
            assert(position_fits(self@, labels@[i as int].1));
            self.append_label(&mut zpl, labels[i].0.as_str(), timestamp, labels[i].1);
            assert(labels@.take(i + 1).drop_last() =~= labels@.take(i as int));
            i = i + 1;
            assert(zpl@ =~= head + labels_zpl(self@, labels@.take(i as int), timestamp@));
        }
        assert(labels@.take(n as int) =~= labels@);
        zpl.append("^XZ\n");
        zpl
    }


    /// One format per occupied row, rows in increasing order, each holding the
    /// labels of its row in their order; with no labels, the single empty
    /// batch. The labels are grouped by row in an ordered map, whose keys come
    /// out in increasing order.
    pub fn generate_batch_by_rows(&self, labels: &[(String, LabelPosition)], timestamp: &str) -> (batches: Vec<String>)
        requires
            rows_fit(self@, labels@),
        ensures
            labels@.len() == 0 ==> batches@.len() == 1 && batches@[0]@ == batch_zpl(self@, labels@, timestamp@),
            labels@.len() > 0 ==> batches@.len() == distinct_rows(labels@).len()
                && forall|k: int| 0 <= k < batches@.len() ==> #[trigger] batches@[k]@ == row_batch_zpl(self@, labels@, distinct_rows(labels@)[k], timestamp@),
    {
        let n = labels.len();
        if n == 0 {
            let mut single: Vec<String> = Vec::new();
            single.push(self.generate_batch(labels, timestamp));
            return single;
        }
        let mut rows: BTreeMap<u32, Vec<usize>> = BTreeMap::new();
        let mut i: usize = 0;
        assert(labels@.take(0) =~= Seq::<(String, LabelPosition)>::empty());
        while i < n
            invariant
                n == labels@.len(),
                i <= n,
                forall|r: u32| rows@.contains_key(r) <==> exists|j: int| 0 <= j < i && #[trigger] labels@[j].1.row == r,
                forall|r: u32| #[trigger] row_members(labels@.take(i as int), r)
                    == (if rows@.contains_key(r) { rows@[r]@ } else { Seq::empty() }),
            decreases n - i,
        {
            let r = labels[i].1.row;
            let mut members: Vec<usize> = match rows.remove(&r) {
                Some(v) => v,
                None => Vec::new(),
            };
            members.push(i);
            rows.insert(r, members);
            proof {
                let prev = labels@.take(i as int);
                let next = labels@.take(i + 1);
                assert(next.drop_last() =~= prev);
                assert(row_members(next, r) == row_members(prev, r).push(i));
                assert forall|q: u32| #[trigger] row_members(next, q)
                    == (if rows@.contains_key(q) { rows@[q]@ } else { Seq::<usize>::empty() }) by {
                    if q != r {
                        assert(row_members(next, q) == row_members(prev, q));
                    }
                }
                assert forall|q: u32| rows@.contains_key(q) <==> exists|j: int| 0 <= j < i + 1 && #[trigger] labels@[j].1.row == q by {
                    if q == r {
                        assert(labels@[i as int].1.row == q);
                    } else if exists|j: int| 0 <= j < i + 1 && #[trigger] labels@[j].1.row == q {
                        let j = choose|j: int| 0 <= j < i + 1 && #[trigger] labels@[j].1.row == q;
                        assert(j != i);
                    }
                }
            }
            i = i + 1;
        }
        assert(labels@.take(n as int) =~= labels@);
        let mut batches: Vec<String> = Vec::new();
        let ghost all = spec_btree_map_iter(&rows).remaining();
        for entry in it: rows.iter()
            invariant
                n == labels@.len(),
                rows_fit(self@, labels@),
                forall|r: u32| #[trigger] rows@.contains_key(r) ==> rows@[r]@ == row_members(labels@, r),
                all == spec_btree_map_iter(&rows).remaining(),
                it.seq() == all,
                batches@.len() == it.index(),
                forall|j: int| 0 <= j < batches@.len() ==> #[trigger] batches@[j]@ == row_batch_zpl(self@, labels@, *all[j].0, timestamp@),
        {
            let (row, members) = entry;
            assert(rows@.contains_key(*all[batches@.len() as int].0));
            batches.push(self.row_batch(labels, members, *row, timestamp));
        }
        assert(batches@.len() == all.len());
        proof {
            let keys = all.map_values(|kv: (&u32, &Vec<usize>)| *kv.0);
            assert(increasing_seq(keys));
            lemma_increasing_rows(keys);
            lemma_distinct_rows(labels@);
            assert forall|x: u32| keys.contains(x) <==> distinct_rows(labels@).contains(x) by {
                if keys.contains(x) {
                    let j = choose|j: int| 0 <= j < keys.len() && keys[j] == x;
                    assert(rows@.contains_key(*all[j].0));
                }
                if distinct_rows(labels@).contains(x) {
                    assert(rows@.contains_key(x));
                    assert(all.contains((&x, &rows@[x])));
                    let j = choose|j: int| 0 <= j < all.len() && all[j] == (&x, &rows@[x]);
                    assert(keys[j] == x);
                }
            }
            lemma_increasing_same_rows(keys, distinct_rows(labels@));
        }
        batches
    }

    /// The format of one row: the labels at the places `members`, which are
    /// those of `row`.
    fn row_batch(&self, labels: &[(String, LabelPosition)], members: &Vec<usize>, row: u32, timestamp: &str) -> (zpl: String)
        requires
            rows_fit(self@, labels@),
            members@ == row_members(labels@, row),
        ensures
            zpl@ == row_batch_zpl(self@, labels@, row, timestamp@),
    {
        let mut zpl = String::from_str("^XA\n");
        zpl.append("^PW");
        push_decimal(&mut zpl, self.layout.total_width() as u64);
        zpl.append("\n");
        zpl.append("^LL");
        push_decimal(&mut zpl, self.layout.label_height_dots as u64);
        zpl.append("\n");
        let ghost head = zpl@;
        assert(head == format_header((self@.label_width_dots * self@.columns) as nat, self@.label_height_dots as nat));
        let n = labels.len();
        proof {
            lemma_row_members(self@, labels@, row, timestamp@);
        }
        let m = members.len();
        let mut k: usize = 0;
        assert(members@.take(0) =~= Seq::<usize>::empty());
        while k < m
            invariant
                m == members@.len(),
                k <= m,
                rows_fit(self@, labels@),
                forall|j: int| 0 <= j < m ==> #[trigger] members@[j] < labels@.len(),
                zpl@ == head + members_zpl(self@, labels@, members@.take(k as int), timestamp@),
            decreases m - k,
        {
            let idx = members[k];
            assert(members@[k as int] < labels@.len());
            let pos = labels[idx].1;
            let normalized = LabelPosition { row: 0, column: pos.column };
            assert(position_fits(self@, LabelPosition { row: 0, column: labels@[idx as int].1.column }));
            self.append_label(&mut zpl, labels[idx].0.as_str(), timestamp, normalized);
            assert(members@.take(k + 1).drop_last() =~= members@.take(k as int));
            k = k + 1;
            assert(zpl@ =~= head + members_zpl(self@, labels@, members@.take(k as int), timestamp@));
        }
        assert(members@.take(m as int) =~= members@);
        zpl.append("^XZ\n");
        zpl
    }

    fn append_label(&self, zpl: &mut String, code: &str, timestamp: &str, pos: LabelPosition)
        requires
            position_fits(self@, pos),
        ensures
            final(zpl)@ == old(zpl)@ + label_zpl(self@, code@, timestamp@, pos),
    {
        let (title_x, title_y) = self.layout.title_position(pos.column, pos.row);
        append_text_field(zpl, title_x, title_y, self.layout.title_font_size, timestamp);
        let (barcode_x, barcode_y) = self.layout.barcode_position(pos.column, pos.row);
        append_barcode_field(zpl, barcode_x, barcode_y, self.layout.barcode_height, code);
        let (text_x, text_y) = self.layout.code_text_position(pos.column, pos.row);
        append_text_field(zpl, text_x, text_y, self.layout.code_font_size, code);
        assert(zpl@ =~= old(zpl)@ + label_zpl(self@, code@, timestamp@, pos));
    }
}


fn append_text_field(zpl: &mut String, x: u32, y: u32, font: u32, data: &str)
    ensures
        final(zpl)@ == old(zpl)@ + text_field(x as int, y as int, font as nat, data@),
{
    zpl.append("^FO");
    push_decimal(zpl, x as u64);
    zpl.append(",");
    push_decimal(zpl, y as u64);
    zpl.append("\n^A@N,");
    push_decimal(zpl, font as u64);
    zpl.append(",");
    push_decimal(zpl, font as u64);
    zpl.append("\n^FD");
    zpl.append(data);
    zpl.append("\n^FS\n");
    assert(zpl@ =~= old(zpl)@ + text_field(x as int, y as int, font as nat, data@));
}

fn append_barcode_field(zpl: &mut String, x: u32, y: u32, height: u32, code: &str)
    ensures
        final(zpl)@ == old(zpl)@ + barcode_field(x as int, y as int, height as nat, code@),
{
    zpl.append("^FO");
    push_decimal(zpl, x as u64);
    zpl.append(",");
    push_decimal(zpl, y as u64);
    zpl.append("\n^BY2\n^BCN,");
    push_decimal(zpl, height as u64);
    zpl.append(",Y,N\n^FD");
    zpl.append(code);
    zpl.append("\n^FS\n");
    assert(zpl@ =~= old(zpl)@ + barcode_field(x as int, y as int, height as nat, code@));
}

impl Default for ZplGenerator {
    /// A generator for the default layout.
    fn default() -> (g: Self)
        ensures
            g@ == spec_layout(400, 400, 2, 203),
    {
        Self::new(LabelLayout::default())
    }
}

} // verus!

verus! {

/// Whether `t` occurs in `s` as a contiguous run of characters.
pub open spec fn contains_infix(s: Seq<char>, t: Seq<char>) -> bool {
    exists|i: int| 0 <= i && i + t.len() <= s.len() && #[trigger] s.subrange(i, i + t.len()) == t
}

/// Text added before or after a run keeps it.
pub proof fn lemma_infix_extend(a: Seq<char>, s: Seq<char>, b: Seq<char>, t: Seq<char>)
    requires
        contains_infix(s, t),
    ensures
        contains_infix(a + s + b, t),
{
    let i = choose|i: int| 0 <= i && i + t.len() <= s.len() && #[trigger] s.subrange(i, i + t.len()) == t;
    let j = a.len() + i;
    assert((a + s + b).subrange(j, j + t.len()) =~= s.subrange(i, i + t.len()));
}

/// A run occurs in any text that places it between two others.
pub proof fn lemma_infix_middle(a: Seq<char>, t: Seq<char>, b: Seq<char>)
    ensures
        contains_infix(a + t + b, t),
{
    let j = a.len() as int;
    assert((a + t + b).subrange(j, j + t.len()) =~= t);
}

/// A label's rendering holds its code and the timestamp.
pub proof fn lemma_label_holds_code(l: LabelLayout, code: Seq<char>, timestamp: Seq<char>, pos: LabelPosition)
    ensures
        contains_infix(label_zpl(l, code, timestamp, pos), code),
        contains_infix(label_zpl(l, code, timestamp, pos), timestamp),
{
    let x = spec_label_x(l, pos.column as nat);
    let title = text_field(x, spec_label_y(l, pos.row as nat), l.title_font_size as nat, timestamp);
    let bar = barcode_field(x, spec_barcode_y(l, pos.row as nat), l.barcode_height as nat, code);
    let text = text_field(x, spec_code_text_y(l, pos.row as nat), l.code_font_size as nat, code);
    let pre = "^FO"@ + decimal(x as nat) + ","@ + decimal(spec_barcode_y(l, pos.row as nat) as nat) + "\n^BY2\n^BCN,"@
        + decimal(l.barcode_height as nat) + ",Y,N\n^FD"@;
    assert(bar =~= pre + code + "\n^FS\n"@);
    lemma_infix_middle(pre, code, "\n^FS\n"@);
    lemma_infix_extend(title, bar, text, code);
    assert(label_zpl(l, code, timestamp, pos) == title + bar + text);
    let tpre = "^FO"@ + decimal(x as nat) + ","@ + decimal(spec_label_y(l, pos.row as nat) as nat) + "\n^A@N,"@
        + decimal(l.title_font_size as nat) + ","@ + decimal(l.title_font_size as nat) + "\n^FD"@;
    assert(title =~= tpre + timestamp + "\n^FS\n"@);
    lemma_infix_middle(tpre, timestamp, "\n^FS\n"@);
    lemma_infix_extend(Seq::empty(), title, bar + text, timestamp);
    assert(Seq::<char>::empty() + title + (bar + text) =~= title + bar + text);
}

/// The rendering of a list of labels holds the code of each.
pub proof fn lemma_labels_hold_codes(l: LabelLayout, labels: Seq<(String, LabelPosition)>, timestamp: Seq<char>, i: int)
    requires
        0 <= i < labels.len(),
    ensures
        contains_infix(labels_zpl(l, labels, timestamp), labels[i].0@),
        contains_infix(labels_zpl(l, labels, timestamp), timestamp),
    decreases labels.len(),
{
    let prev = labels_zpl(l, labels.drop_last(), timestamp);
    let last = label_zpl(l, labels.last().0@, timestamp, labels.last().1);
    lemma_label_holds_code(l, labels.last().0@, timestamp, labels.last().1);
    lemma_infix_extend(prev, last, Seq::empty(), timestamp);
    assert(prev + last + Seq::<char>::empty() =~= prev + last);
    if i == labels.len() - 1 {
        lemma_infix_extend(prev, last, Seq::empty(), labels[i].0@);
    } else {
        lemma_labels_hold_codes(l, labels.drop_last(), timestamp, i);
        assert(labels.drop_last()[i] == labels[i]);
        lemma_infix_extend(Seq::empty(), prev, last, labels[i].0@);
        assert(Seq::<char>::empty() + prev + last =~= prev + last);
    }
}

/// A batch is one ZPL format: it opens with `^XA` and closes with `^XZ`,
/// and it holds the code of every label and, with any label, the timestamp.
pub proof fn lemma_batch_shape(l: LabelLayout, labels: Seq<(String, LabelPosition)>, timestamp: Seq<char>)
    ensures
        batch_zpl(l, labels, timestamp).take(4) == "^XA\n"@,
        batch_zpl(l, labels, timestamp).skip(batch_zpl(l, labels, timestamp).len() - 4) == "^XZ\n"@,
        forall|i: int| 0 <= i < labels.len() ==> contains_infix(batch_zpl(l, labels, timestamp), #[trigger] labels[i].0@),
        labels.len() > 0 ==> contains_infix(batch_zpl(l, labels, timestamp), timestamp),
{
    reveal_strlit("^XA\n");
    reveal_strlit("^XZ\n");
    let width = (l.label_width_dots * l.columns) as nat;
    let length = (l.label_height_dots * rows_for(labels.len(), l.columns)) as nat;
    let head = format_header(width, length);
    let body = labels_zpl(l, labels, timestamp);
    let b = batch_zpl(l, labels, timestamp);
    assert(b == head + body + "^XZ\n"@);
    assert(b.take(4) =~= "^XA\n"@);
    assert(b.skip(b.len() - 4) =~= "^XZ\n"@);
    assert forall|i: int| 0 <= i < labels.len() implies contains_infix(b, #[trigger] labels[i].0@) by {
        lemma_labels_hold_codes(l, labels, timestamp, i);
        lemma_infix_extend(head, body, "^XZ\n"@, labels[i].0@);
    }
    if labels.len() > 0 {
        lemma_labels_hold_codes(l, labels, timestamp, 0);
        lemma_infix_extend(head, body, "^XZ\n"@, timestamp);
    }
}

/// What inserting a row does: the rows stay strictly increasing and gain
/// exactly `r`.
pub proof fn lemma_insert_row(rows: Seq<u32>, r: u32)
    requires
        forall|a: int, b: int| 0 <= a < b < rows.len() ==> rows[a] < rows[b],
    ensures
        forall|a: int, b: int| 0 <= a < b < insert_row(rows, r).len() ==> insert_row(rows, r)[a] < insert_row(rows, r)[b],
        forall|x: u32| #[trigger] insert_row(rows, r).contains(x) <==> (rows.contains(x) || x == r),
        insert_row(rows, r).len() > 0,
        rows.len() > 0 && insert_row(rows, r).len() > 0 ==> insert_row(rows, r)[0] == if rows[0] < r { rows[0] } else { r },
    decreases rows.len(),
{
    if rows.len() > 0 && rows[0] < r {
        let t = rows.drop_first();
        lemma_insert_row(t, r);
        let ins = insert_row(t, r);
        let res = seq![rows[0]] + ins;
        assert(insert_row(rows, r) == res);
        assert forall|x: u32| res.contains(x) <==> (rows.contains(x) || x == r) by {
            if res.contains(x) {
                let k = choose|k: int| 0 <= k < res.len() && res[k] == x;
                if k > 0 {
                    assert(ins[k - 1] == x);
                    assert(ins.contains(x));
                    if t.contains(x) {
                        let m = choose|m: int| 0 <= m < t.len() && t[m] == x;
                        assert(rows[m + 1] == x);
                    }
                }
            }
            if rows.contains(x) {
                let k = choose|k: int| 0 <= k < rows.len() && rows[k] == x;
                if k > 0 {
                    assert(t[k - 1] == x);
                    assert(t.contains(x));
                    assert(ins.contains(x));
                    let m = choose|m: int| 0 <= m < ins.len() && ins[m] == x;
                    assert(res[m + 1] == x);
                } else {
                    assert(res[0] == x);
                }
            }
            if x == r {
                assert(ins.contains(x));
                let m = choose|m: int| 0 <= m < ins.len() && ins[m] == x;
                assert(res[m + 1] == x);
            }
        }
        assert forall|a: int, b: int| 0 <= a < b < res.len() implies res[a] < res[b] by {
            if a == 0 {
                assert(ins.contains(res[b]));
                assert(rows.contains(res[b]) || res[b] == r);
                if rows.contains(res[b]) {
                    let m = choose|m: int| 0 <= m < rows.len() && rows[m] == res[b];
                    if m == 0 {
                        assert(t.len() > 0 ==> ins[0] == (if t[0] < r { t[0] } else { r }));
                        assert(!t.contains(rows[0])) by {
                            if t.contains(rows[0]) {
                                let q = choose|q: int| 0 <= q < t.len() && t[q] == rows[0];
                                assert(rows[q + 1] == rows[0]);
                            }
                        }
                    }
                }
            } else {
                assert(res[a] == ins[a - 1]);
                assert(res[b] == ins[b - 1]);
            }
        }
    } else if rows.len() > 0 && rows[0] > r {
        let res = seq![r] + rows;
        assert forall|x: u32| res.contains(x) <==> (rows.contains(x) || x == r) by {
            if res.contains(x) {
                let k = choose|k: int| 0 <= k < res.len() && res[k] == x;
                if k > 0 {
                    assert(rows[k - 1] == x);
                }
            }
            if rows.contains(x) {
                let k = choose|k: int| 0 <= k < rows.len() && rows[k] == x;
                assert(res[k + 1] == x);
            }
            if x == r {
                assert(res[0] == x);
            }
        }
        assert forall|a: int, b: int| 0 <= a < b < res.len() implies res[a] < res[b] by {
            if a == 0 {
                assert(rows[0] <= rows[b - 1]);
            } else {
                assert(res[a] == rows[a - 1]);
            }
        }
    } else if rows.len() > 0 {
        assert(rows.contains(r));
    } else {
        let res = seq![r];
        assert forall|x: u32| res.contains(x) <==> (rows.contains(x) || x == r) by {
            if res.contains(x) {
                let k = choose|k: int| 0 <= k < res.len() && res[k] == x;
                assert(k == 0);
            }
            if x == r {
                assert(res[0] == x);
            }
        }
    }
}

/// The batches of `generate_batch_by_rows` follow the rows in increasing
/// order, one per occupied row: the list of rows never repeats and holds
/// exactly the rows of the labels.
pub proof fn lemma_distinct_rows(labels: Seq<(String, LabelPosition)>)
    ensures
        forall|a: int, b: int| 0 <= a < b < distinct_rows(labels).len() ==> distinct_rows(labels)[a] < distinct_rows(labels)[b],
        forall|r: u32| distinct_rows(labels).contains(r) <==> exists|i: int| 0 <= i < labels.len() && #[trigger] labels[i].1.row == r,
    decreases labels.len(),
{
    if labels.len() > 0 {
        let prev = labels.drop_last();
        lemma_distinct_rows(prev);
        lemma_insert_row(distinct_rows(prev), labels.last().1.row);
        assert forall|r: u32| distinct_rows(labels).contains(r) <==> exists|i: int| 0 <= i < labels.len() && #[trigger] labels[i].1.row == r by {
            if distinct_rows(prev).contains(r) {
                let i = choose|i: int| 0 <= i < prev.len() && #[trigger] prev[i].1.row == r;
                assert(labels[i].1.row == r);
            }
            if r == labels.last().1.row {
                assert(labels[labels.len() - 1].1.row == r);
            }
            if exists|i: int| 0 <= i < labels.len() && #[trigger] labels[i].1.row == r {
                let i = choose|i: int| 0 <= i < labels.len() && #[trigger] labels[i].1.row == r;
                if i < labels.len() - 1 {
                    assert(prev[i].1.row == r);
                }
            }
        }
    } else {
        assert forall|r: u32| !distinct_rows(labels).contains(r) by {}
    }
}

/// The batch of a row holds the code of every label in that row.
pub proof fn lemma_row_batch_holds_its_labels(
    l: LabelLayout,
    labels: Seq<(String, LabelPosition)>,
    timestamp: Seq<char>,
    i: int,
)
    requires
        0 <= i < labels.len(),
    ensures
        contains_infix(row_batch_zpl(l, labels, labels[i].1.row, timestamp), labels[i].0@),
{
    let row = labels[i].1.row;
    lemma_row_labels_hold_codes(l, labels, row, timestamp, i);
    let head = format_header((l.label_width_dots * l.columns) as nat, l.label_height_dots as nat);
    lemma_infix_extend(head, row_labels_zpl(l, labels, row, timestamp), "^XZ\n"@, labels[i].0@);
}

proof fn lemma_row_labels_hold_codes(
    l: LabelLayout,
    labels: Seq<(String, LabelPosition)>,
    row: u32,
    timestamp: Seq<char>,
    i: int,
)
    requires
        0 <= i < labels.len(),
        labels[i].1.row == row,
    ensures
        contains_infix(row_labels_zpl(l, labels, row, timestamp), labels[i].0@),
    decreases labels.len(),
{
    let prev = row_labels_zpl(l, labels.drop_last(), row, timestamp);
    let last = labels.last();
    if i == labels.len() - 1 {
        let pos = LabelPosition { row: 0, column: last.1.column };
        let part = label_zpl(l, last.0@, timestamp, pos);
        lemma_label_holds_code(l, last.0@, timestamp, pos);
        lemma_infix_extend(prev, part, Seq::empty(), labels[i].0@);
        assert(prev + part + Seq::<char>::empty() =~= prev + part);
    } else {
        lemma_row_labels_hold_codes(l, labels.drop_last(), row, timestamp, i);
        assert(labels.drop_last()[i] == labels[i]);
        let rest = row_labels_zpl(l, labels, row, timestamp).skip(prev.len() as int);
        assert(row_labels_zpl(l, labels, row, timestamp) =~= Seq::<char>::empty() + prev + rest);
        lemma_infix_extend(Seq::empty(), prev, rest, labels[i].0@);
    }
}


/// The labels at a group of places are those places' labels: rendering
/// them is the same for a longer list of labels.
proof fn lemma_members_zpl_extend(
    l: LabelLayout,
    labels: Seq<(String, LabelPosition)>,
    members: Seq<usize>,
    more: Seq<(String, LabelPosition)>,
    timestamp: Seq<char>,
)
    requires
        forall|j: int| 0 <= j < members.len() ==> #[trigger] members[j] < labels.len(),
    ensures
        members_zpl(l, labels, members, timestamp) == members_zpl(l, labels + more, members, timestamp),
    decreases members.len(),
{
    if members.len() > 0 {
        lemma_members_zpl_extend(l, labels, members.drop_last(), more, timestamp);
        assert(members[members.len() - 1] < labels.len());
        assert((labels + more)[members.last() as int] == labels[members.last() as int]);
    }
}

/// The places of a row's labels are places of the list, and rendering the
/// labels at those places renders that row.
proof fn lemma_row_members(l: LabelLayout, labels: Seq<(String, LabelPosition)>, row: u32, timestamp: Seq<char>)
    requires
        labels.len() <= usize::MAX,
    ensures
        forall|j: int| 0 <= j < row_members(labels, row).len() ==> #[trigger] row_members(labels, row)[j] < labels.len(),
        members_zpl(l, labels, row_members(labels, row), timestamp) == row_labels_zpl(l, labels, row, timestamp),
    decreases labels.len(),
{
    if labels.len() > 0 {
        let prev = labels.drop_last();
        let ms = row_members(prev, row);
        lemma_row_members(l, prev, row, timestamp);
        lemma_members_zpl_extend(l, prev, ms, seq![labels.last()], timestamp);
        assert(prev + seq![labels.last()] =~= labels);
        if labels.last().1.row == row {
            let all = ms.push((labels.len() - 1) as usize);
            assert(all.drop_last() =~= ms);
        }
    }
}


/// Two strictly increasing lists of rows that hold the same rows are the
/// same list.
proof fn lemma_increasing_same_rows(a: Seq<u32>, b: Seq<u32>)
    requires
        forall|i: int, j: int| 0 <= i < j < a.len() ==> a[i] < a[j],
        forall|i: int, j: int| 0 <= i < j < b.len() ==> b[i] < b[j],
        forall|x: u32| a.contains(x) <==> b.contains(x),
    ensures
        a == b,
    decreases a.len(),
{
    if a.len() == 0 {
        if b.len() > 0 {
            assert(b.contains(b[0]));
        }
        assert(a =~= b);
    } else if b.len() == 0 {
        assert(a.contains(a[0]));
    } else {
        assert(a.contains(a[0]));
        assert(b.contains(b[0]));
        let ia = choose|i: int| 0 <= i < a.len() && a[i] == b[0];
        let ib = choose|i: int| 0 <= i < b.len() && b[i] == a[0];
        assert(a[0] <= a[ia]);
        assert(b[0] <= b[ib]);
        assert(a[0] == b[0]);
        let ta = a.drop_first();
        let tb = b.drop_first();
        assert forall|x: u32| ta.contains(x) <==> tb.contains(x) by {
            if ta.contains(x) {
                let i = choose|i: int| 0 <= i < ta.len() && ta[i] == x;
                assert(a[i + 1] == x);
                assert(a.contains(x));
                let k = choose|k: int| 0 <= k < b.len() && b[k] == x;
                assert(k != 0);
                assert(tb[k - 1] == x);
            }
            if tb.contains(x) {
                let i = choose|i: int| 0 <= i < tb.len() && tb[i] == x;
                assert(b[i + 1] == x);
                assert(b.contains(x));
                let k = choose|k: int| 0 <= k < a.len() && a[k] == x;
                assert(k != 0);
                assert(ta[k - 1] == x);
            }
        }
        lemma_increasing_same_rows(ta, tb);
        assert(a =~= seq![a[0]] + ta);
        assert(b =~= seq![b[0]] + tb);
    }
}


/// Rows listed in increasing order, as the standard ordered map lists its
/// keys, are strictly increasing numbers.
proof fn lemma_increasing_rows(keys: Seq<u32>)
    requires
        increasing_seq(keys),
    ensures
        forall|i: int, j: int| 0 <= i < j < keys.len() ==> keys[i] < keys[j],
{
    broadcast use vstd::laws_cmp::group_laws_cmp, vstd::std_specs::btree::axiom_increasing_seq_meaning;
    assert(vstd::laws_cmp::obeys_cmp::<u32>());
    assert forall|i: int, j: int| 0 <= i < j < keys.len() implies keys[i] < keys[j] by {
        assert(increasing_seq(keys));
        assert(vstd::std_specs::cmp::OrdSpec::cmp_spec(&keys[i], &keys[j]) is Less);
    }
}


/// A label is three fields placed from the corner of its own cell: the
/// title at (margin_x + column * label width, margin_y + row * label height),
/// the barcode `title_font_size + 20` dots below it and the code text
/// `barcode_height + 10` dots below the barcode, all at the same x.
pub proof fn lemma_label_fields_at_its_cell(l: LabelLayout, code: Seq<char>, timestamp: Seq<char>, pos: LabelPosition)
    ensures
        ({
            let x = (l.margin_x + pos.column * l.label_width_dots) as nat;
            let y = (l.margin_y + pos.row * l.label_height_dots) as nat;
            let by = (y + l.title_font_size + 20) as nat;
            let ty = (by + l.barcode_height + 10) as nat;
            label_zpl(l, code, timestamp, pos)
                == ("^FO"@ + decimal(x) + ","@ + decimal(y) + "\n^A@N,"@ + decimal(l.title_font_size as nat) + ","@
                    + decimal(l.title_font_size as nat) + "\n^FD"@ + timestamp + "\n^FS\n"@)
                + ("^FO"@ + decimal(x) + ","@ + decimal(by) + "\n^BY2\n^BCN,"@ + decimal(l.barcode_height as nat)
                    + ",Y,N\n^FD"@ + code + "\n^FS\n"@)
                + ("^FO"@ + decimal(x) + ","@ + decimal(ty) + "\n^A@N,"@ + decimal(l.code_font_size as nat) + ","@
                    + decimal(l.code_font_size as nat) + "\n^FD"@ + code + "\n^FS\n"@)
        }),
{
    let x = (l.margin_x + pos.column * l.label_width_dots) as nat;
    let y = (l.margin_y + pos.row * l.label_height_dots) as nat;
    let by = (y + l.title_font_size + 20) as nat;
    let ty = (by + l.barcode_height + 10) as nat;
    assert(spec_label_x(l, pos.column as nat) as nat == x);
    assert(spec_label_y(l, pos.row as nat) as nat == y);
    assert(spec_barcode_y(l, pos.row as nat) as nat == by);
    assert(spec_code_text_y(l, pos.row as nat) as nat == ty);
}

/// The labels are rendered one after the other, each on its own: rendering
/// two lists in turn is rendering them joined.
pub proof fn lemma_labels_zpl_concat(l: LabelLayout, s1: Seq<(String, LabelPosition)>, s2: Seq<(String, LabelPosition)>, timestamp: Seq<char>)
    ensures
        labels_zpl(l, s1 + s2, timestamp) == labels_zpl(l, s1, timestamp) + labels_zpl(l, s2, timestamp),
    decreases s2.len(),
{
    if s2.len() == 0 {
        assert(s1 + s2 =~= s1);
        assert(labels_zpl(l, s1, timestamp) + labels_zpl(l, s2, timestamp) =~= labels_zpl(l, s1, timestamp));
    } else {
        lemma_labels_zpl_concat(l, s1, s2.drop_last(), timestamp);
        assert((s1 + s2).drop_last() =~= s1 + s2.drop_last());
        assert((s1 + s2).last() == s2.last());
        let a = labels_zpl(l, s1, timestamp);
        let b = labels_zpl(l, s2.drop_last(), timestamp);
        let c = label_zpl(l, s2.last().0@, timestamp, s2.last().1);
        assert(a + b + c =~= a + (b + c));
    }
}

/// A single label is rendered at its own position, whatever labels come
/// before it: the part of a batch for one label is that label alone.
pub proof fn lemma_labels_zpl_single(
    l: LabelLayout,
    before: Seq<(String, LabelPosition)>,
    label: (String, LabelPosition),
    after: Seq<(String, LabelPosition)>,
    timestamp: Seq<char>,
)
    ensures
        labels_zpl(l, seq![label], timestamp) == label_zpl(l, label.0@, timestamp, label.1),
        labels_zpl(l, before + seq![label] + after, timestamp)
            == labels_zpl(l, before, timestamp) + label_zpl(l, label.0@, timestamp, label.1) + labels_zpl(l, after, timestamp),
{
    let one = seq![label];
    assert(one.drop_last() =~= Seq::<(String, LabelPosition)>::empty());
    assert(one.last() == label);
    assert(labels_zpl(l, Seq::<(String, LabelPosition)>::empty(), timestamp) == Seq::<char>::empty());
    assert(labels_zpl(l, one, timestamp) == Seq::<char>::empty() + label_zpl(l, label.0@, timestamp, label.1));
    assert(labels_zpl(l, one, timestamp) =~= label_zpl(l, label.0@, timestamp, label.1));
    lemma_labels_zpl_concat(l, before, one, timestamp);
    lemma_labels_zpl_concat(l, before + one, after, timestamp);
}

/// A whole batch starts with `^XA`, the width of a row of labels
/// (`label width * columns`) and the height of as many rows as the labels
/// fill, `columns` to a row (the fewest rows that hold them all), and ends
/// with `^XZ`.
pub proof fn lemma_batch_header(l: LabelLayout, labels: Seq<(String, LabelPosition)>, timestamp: Seq<char>)
    ensures
        labels.len() > 0 && l.columns > 0 ==> ({
            let r = rows_for(labels.len(), l.columns);
            &&& (r - 1) * l.columns < labels.len() <= r * l.columns
            &&& batch_zpl(l, labels, timestamp) == "^XA\n^PW"@ + decimal((l.label_width_dots * l.columns) as nat) + "\n^LL"@
                + decimal((l.label_height_dots * r) as nat) + "\n"@ + labels_zpl(l, labels, timestamp) + "^XZ\n"@
        }),
        labels.len() == 0 ==> batch_zpl(l, labels, timestamp) == "^XA\n^PW"@ + decimal((l.label_width_dots * l.columns) as nat)
            + "\n^LL0\n"@ + "^XZ\n"@,
{
    reveal_strlit("^XA\n");
    reveal_strlit("^PW");
    reveal_strlit("\n");
    reveal_strlit("^LL");
    reveal_strlit("^XA\n^PW");
    reveal_strlit("\n^LL");
    reveal_strlit("\n^LL0\n");
    let w = decimal((l.label_width_dots * l.columns) as nat);
    if labels.len() > 0 && l.columns > 0 {
        let n = labels.len();
        let c = l.columns as nat;
        let r = rows_for(n, l.columns);
        let q = ((n - 1) as nat / c) as nat;
        assert(r == q + 1);
        assert((r - 1) * c < n <= r * c) by (nonlinear_arith)
            requires r == q + 1, q == (n - 1) as nat / c, c > 0, n > 0;
        let h = decimal((l.label_height_dots * r) as nat);
        assert(format_header((l.label_width_dots * l.columns) as nat, (l.label_height_dots * r) as nat)
            =~= "^XA\n^PW"@ + w + "\n^LL"@ + h + "\n"@);
    }
    if labels.len() == 0 {
        assert(decimal(0) =~= seq!['0']) by {
            reveal_with_fuel(decimal, 2);
        }
        assert(labels_zpl(l, labels, timestamp) =~= Seq::<char>::empty());
        assert(rows_for(labels.len(), l.columns) == 0);
        assert((l.label_height_dots * rows_for(labels.len(), l.columns)) as nat == 0);
        let fh = format_header((l.label_width_dots * l.columns) as nat, 0);
        assert(fh =~= "^XA\n^PW"@ + w + "\n^LL0\n"@);
        assert(batch_zpl(l, labels, timestamp) == fh + labels_zpl(l, labels, timestamp) + "^XZ\n"@);
        assert(fh + labels_zpl(l, labels, timestamp) =~= fh);
    }
}

/// Each row's format is one label high: it starts with `^XA`, the width of a
/// row of labels and, as label length, the height of a single label,
/// whatever the label width; then that row's labels moved to the first row,
/// and `^XZ`.
pub proof fn lemma_row_batch_one_label_high(l: LabelLayout, labels: Seq<(String, LabelPosition)>, row: u32, timestamp: Seq<char>)
    ensures
        row_batch_zpl(l, labels, row, timestamp) == "^XA\n^PW"@ + decimal((l.label_width_dots * l.columns) as nat) + "\n^LL"@
            + decimal(l.label_height_dots as nat) + "\n"@ + row_labels_zpl(l, labels, row, timestamp) + "^XZ\n"@,
{
    reveal_strlit("^XA\n");
    reveal_strlit("^PW");
    reveal_strlit("\n");
    reveal_strlit("^LL");
    reveal_strlit("^XA\n^PW");
    reveal_strlit("\n^LL");
    let w = decimal((l.label_width_dots * l.columns) as nat);
    let h = decimal(l.label_height_dots as nat);
    assert(format_header((l.label_width_dots * l.columns) as nat, l.label_height_dots as nat)
        =~= "^XA\n^PW"@ + w + "\n^LL"@ + h + "\n"@);
}

/// A row's format renders the same labels as a batch of just that row's
/// labels, each moved to the first row, would: the labels of other rows are
/// left out and the order is kept.
pub proof fn lemma_row_labels_are_the_rows_labels(
    l: LabelLayout,
    labels: Seq<(String, LabelPosition)>,
    row: u32,
    timestamp: Seq<char>,
)
    ensures
        row_labels_zpl(l, labels, row, timestamp) == labels_zpl(l,
            labels.filter(|x: (String, LabelPosition)| x.1.row == row).map_values(
                |x: (String, LabelPosition)| (x.0, LabelPosition { row: 0, column: x.1.column })),
            timestamp),
    decreases labels.len(),
{
    let f = |x: (String, LabelPosition)| x.1.row == row;
    let m = |x: (String, LabelPosition)| (x.0, LabelPosition { row: 0, column: x.1.column });
    reveal(Seq::filter);
    if labels.len() == 0 {
        assert(labels.filter(f) =~= Seq::<(String, LabelPosition)>::empty());
        assert(labels.filter(f).map_values(m) =~= Seq::<(String, LabelPosition)>::empty());
    } else {
        let prev = labels.drop_last();
        lemma_row_labels_are_the_rows_labels(l, prev, row, timestamp);
        assert(labels =~= prev.push(labels.last()));
        reveal(Seq::filter);
        let fp = prev.filter(f).map_values(m);
        if labels.last().1.row == row {
            assert(labels.filter(f).map_values(m) =~= fp.push(m(labels.last())));
            assert(fp.push(m(labels.last())).drop_last() =~= fp);
        } else {
            assert(labels.filter(f).map_values(m) =~= fp);
            assert(row_labels_zpl(l, labels, row, timestamp) =~= row_labels_zpl(l, prev, row, timestamp));
        }
    }
}

} // verus!
