//! The raw vendor table: named columns of untyped cells, the shape a
//! delimited or JSON payload arrives in before normalization.
//!
//! A cell is null, text, or a whole number; fractional or typed values reach
//! the engine as text and are parsed during normalization.  A well-formed
//! table's columns all share one height.

use vstd::prelude::*;
use crate::text::str_eq;

verus! {

pub enum RawValue {
    Null,
    Text(String),
    Int(i64),
}

#[verifier::ext_equal]
pub ghost enum RawValueView {
    Null,
    Text(Seq<char>),
    Int(i64),
}

impl View for RawValue {
    type V = RawValueView;

    open spec fn view(&self) -> RawValueView {
        match self {
            RawValue::Null => RawValueView::Null,
            RawValue::Text(s) => RawValueView::Text(s@),
            RawValue::Int(x) => RawValueView::Int(*x),
        }
    }
}

impl DeepView for RawValue {
    type V = RawValueView;

    open spec fn deep_view(&self) -> RawValueView {
        self.view()
    }
}

impl RawValue {
    pub fn duplicate(&self) -> (r: RawValue)
        ensures
            r@ == self@,
    {
        match self {
            RawValue::Null => RawValue::Null,
            RawValue::Text(s) => RawValue::Text(s.clone()),
            RawValue::Int(x) => RawValue::Int(*x),
        }
    }
}

pub struct RawColumn {
    pub name: String,
    pub values: Vec<RawValue>,
}

#[verifier::ext_equal]
pub ghost struct RawColumnView {
    pub name: Seq<char>,
    pub values: Seq<RawValueView>,
}

impl View for RawColumn {
    type V = RawColumnView;

    open spec fn view(&self) -> RawColumnView {
        RawColumnView { name: self.name@, values: self.values.deep_view() }
    }
}

impl DeepView for RawColumn {
    type V = RawColumnView;

    open spec fn deep_view(&self) -> RawColumnView {
        self.view()
    }
}

pub struct RawTable {
    pub height: usize,
    pub cols: Vec<RawColumn>,
}

#[verifier::ext_equal]
pub ghost struct RawTableView {
    pub height: nat,
    pub cols: Seq<RawColumnView>,
}

impl View for RawTable {
    type V = RawTableView;

    open spec fn view(&self) -> RawTableView {
        RawTableView { height: self.height as nat, cols: self.cols.deep_view() }
    }
}

impl DeepView for RawTable {
    type V = RawTableView;

    open spec fn deep_view(&self) -> RawTableView {
        self.view()
    }
}

impl RawTableView {
    /// Every column carries exactly one cell per row.
    pub open spec fn wf(self) -> bool {
        forall|i: int| 0 <= i < self.cols.len() ==> (#[trigger] self.cols[i]).values.len()
            == self.height
    }
}

/// First column of that name, if any.
pub open spec fn find_col_spec(cols: Seq<RawColumnView>, name: Seq<char>) -> Option<int>
    decreases cols.len(),
{
    if cols.len() == 0 {
        None
    } else if cols[0].name == name {
        Some(0)
    } else {
        match find_col_spec(cols.skip(1), name) {
            Some(i) => Some(i + 1),
            None => None,
        }
    }
}

pub proof fn lemma_find_col_spec(cols: Seq<RawColumnView>, name: Seq<char>)
    ensures
        match find_col_spec(cols, name) {
            Some(i) => 0 <= i < cols.len() && cols[i].name == name && forall|j: int|
                0 <= j < i ==> (#[trigger] cols[j]).name != name,
            None => forall|j: int| 0 <= j < cols.len() ==> (#[trigger] cols[j]).name != name,
        },
    decreases cols.len(),
{
    if cols.len() == 0 {
    } else if cols[0].name == name {
    } else {
        lemma_find_col_spec(cols.skip(1), name);
        let t = cols.skip(1);
        assert(forall|j: int| 0 <= j < t.len() ==> #[trigger] t[j] == cols[j + 1]);
        match find_col_spec(t, name) {
            Some(i) => {
                assert forall|j: int| 0 <= j < i + 1 implies (#[trigger] cols[j]).name != name by {
                    if j > 0 {
                        assert(t[j - 1].name != name);
                    }
                }
            },
            None => {
                assert forall|j: int| 0 <= j < cols.len() implies (#[trigger] cols[j]).name
                    != name by {
                    if j > 0 {
                        assert(t[j - 1].name != name);
                    }
                }
            },
        }
    }
}

pub open spec fn has_col(t: RawTableView, name: Seq<char>) -> bool {
    find_col_spec(t.cols, name) is Some
}

/// Renaming the first column of a given name, if present.
pub open spec fn rename_col_spec(t: RawTableView, from: Seq<char>, to: Seq<char>) -> RawTableView {
    match find_col_spec(t.cols, from) {
        None => t,
        Some(i) => RawTableView {
            height: t.height,
            cols: t.cols.update(i, RawColumnView { name: to, values: t.cols[i].values }),
        },
    }
}

/// Dropping the first column of a given name, if present.
pub open spec fn drop_col_spec(t: RawTableView, name: Seq<char>) -> RawTableView {
    match find_col_spec(t.cols, name) {
        None => t,
        Some(i) => RawTableView { height: t.height, cols: t.cols.remove(i) },
    }
}

/// Appending an all-null column of the table's height.
pub open spec fn add_null_col_spec(t: RawTableView, name: Seq<char>) -> RawTableView {
    RawTableView {
        height: t.height,
        cols: t.cols.push(
            RawColumnView {
                name: name,
                values: Seq::new(t.height as nat, |i: int| RawValueView::Null),
            },
        ),
    }
}

/// One column with its first `k` cells dropped.
pub open spec fn skip_rows_col(c: RawColumnView, k: nat) -> RawColumnView {
    let start = if k <= c.values.len() {
        k as int
    } else {
        c.values.len() as int
    };
    RawColumnView { name: c.name, values: c.values.skip(start) }
}

/// The table with its first `k` rows dropped from every column.
pub open spec fn drop_first_rows_spec(t: RawTableView, k: nat) -> RawTableView {
    RawTableView {
        height: if k <= t.height {
            (t.height - k) as nat
        } else {
            0
        },
        cols: t.cols.map_values(|c: RawColumnView| skip_rows_col(c, k)),
    }
}

/// Copies a cell vector, values preserved.
pub fn copy_values(v: &Vec<RawValue>) -> (r: Vec<RawValue>)
    ensures
        r.deep_view() == v.deep_view(),
{
    let n = v.len();
    let mut out: Vec<RawValue> = Vec::new();
    let mut i: usize = 0;
    while i < n
        invariant
            i <= n,
            n == v@.len(),
            out@.len() == i,
            forall|j: int| 0 <= j < i ==> out.deep_view()[j] == v.deep_view()[j],
        decreases n - i,
    {
        let ghost oldo = out@;
        let ghost olddv = out.deep_view();
        out.push(v[i].duplicate());
        proof {
            assert(out@ == oldo.push(out@.last()));
            assert forall|j: int| 0 <= j < i + 1 implies out.deep_view()[j] == v.deep_view()[j] by {
                if j < i {
                    assert(out@[j] == oldo[j]);
                    assert(olddv[j] == v.deep_view()[j]);
                } else {
                    assert(out@[j]@ == v@[j]@);
                }
            }
        }
        i = i + 1;
    }
    proof {
        assert(out.deep_view() =~= v.deep_view());
    }
    out
}

/// Columns of one shared height keep it through the empty-header filter.
proof fn lemma_filter_cols_height(cols: Seq<RawColumnView>, h: nat)
    requires
        (RawTableView { height: h, cols: cols }).wf(),
    ensures
        drop_empty_named_cols_spec(RawTableView { height: h, cols: cols }).wf(),
    decreases cols.len(),
{
    reveal_with_fuel(Seq::filter, 2);
    let out = drop_empty_named_cols_spec(RawTableView { height: h, cols: cols });
    if cols.len() == 0 {
        assert(out.cols =~= Seq::<RawColumnView>::empty());
    } else {
        let prev = cols.drop_last();
        assert(forall|i: int| 0 <= i < prev.len() ==> (#[trigger] prev[i]) == cols[i]);
        lemma_filter_cols_height(prev, h);
        let pout = drop_empty_named_cols_spec(RawTableView { height: h, cols: prev });
        assert(cols.last().values.len() == h);
        assert forall|i: int| 0 <= i < out.cols.len() implies (#[trigger] out.cols[i]).values.len()
            == h by {
            if i < pout.cols.len() {
                assert(pout.cols[i].values.len() == h);
            }
        }
    }
}

/// Appending a column whose every cell holds the same text.
pub open spec fn add_text_col_spec(t: RawTableView, name: Seq<char>, value: Seq<char>) -> RawTableView {
    RawTableView {
        height: t.height,
        cols: t.cols.push(
            RawColumnView {
                name: name,
                values: Seq::new(t.height as nat, |i: int| RawValueView::Text(value)),
            },
        ),
    }
}

/// Dropping every column whose header is empty.
pub open spec fn drop_empty_named_cols_spec(t: RawTableView) -> RawTableView {
    RawTableView { height: t.height, cols: t.cols.filter(|c: RawColumnView| c.name.len() > 0) }
}

/// Renaming the column at a position.
pub open spec fn set_col_name_spec(t: RawTableView, i: int, name: Seq<char>) -> RawTableView {
    RawTableView {
        height: t.height,
        cols: t.cols.update(i, RawColumnView { name: name, values: t.cols[i].values }),
    }
}

impl RawTable {
    /// Appends a column holding the same text on every row.
    pub fn add_text_col(&mut self, name: &str, value: &str)
        ensures
            final(self)@ == add_text_col_spec(old(self)@, name@, value@),
            old(self)@.wf() ==> final(self)@.wf(),
    {
        let h = self.height;
        let mut values: Vec<RawValue> = Vec::new();
        let mut i: usize = 0;
        while i < h
            invariant
                i <= h,
                values@.len() == i,
                forall|j: int| 0 <= j < i ==> values.deep_view()[j] == RawValueView::Text(value@),
            decreases h - i,
        {
            let ghost oldv = values@;
            let ghost olddv = values.deep_view();
            values.push(RawValue::Text(value.to_owned()));
            proof {
                assert(values@ == oldv.push(values@.last()));
                assert forall|j: int| 0 <= j < i + 1 implies values.deep_view()[j]
                    == RawValueView::Text(value@) by {
                    if j < i {
                        assert(values@[j] == oldv[j]);
                        assert(olddv[j] == RawValueView::Text(value@));
                    } else {
                        assert(values@[j]@ == RawValueView::Text(value@));
                    }
                }
            }
            i = i + 1;
        }
        let ghost oldt = self@;
        let named = name.to_owned();
        let ok = self.push_col(named, values);
        proof {
            assert(ok);
            assert(final(self)@.cols =~= add_text_col_spec(oldt, name@, value@).cols) by {
                assert(final(self)@.cols.last().values =~= Seq::new(
                    oldt.height as nat,
                    |j: int| RawValueView::Text(value@),
                ));
            }
            assert(final(self)@ =~= add_text_col_spec(oldt, name@, value@));
        }
    }

    /// Drops every column with an empty header.
    pub fn drop_empty_named_cols(&mut self)
        ensures
            final(self)@ == drop_empty_named_cols_spec(old(self)@),
            old(self)@.wf() ==> final(self)@.wf(),
    {
        let ghost h = self@.height;
        let ncols = self.cols.len();
        let mut kept: Vec<RawColumn> = Vec::new();
        let mut i: usize = 0;
        while i < ncols
            invariant
                i <= ncols,
                ncols == self@.cols.len(),
                self@ == old(self)@,
                h == self@.height,
                kept.deep_view() == drop_empty_named_cols_spec(
                    RawTableView { height: h, cols: self@.cols.subrange(0, i as int) },
                ).cols,
            decreases ncols - i,
        {
            let ghost pre = RawTableView { height: h, cols: self@.cols.subrange(0, i as int) };
            let ghost post = RawTableView { height: h, cols: self@.cols.subrange(0, i + 1) };
            proof {
                assert(post.cols.drop_last() =~= pre.cols);
                assert(post.cols.last() == self@.cols[i as int]);
                assert(self@.cols[i as int] == self.cols@[i as int]@);
                reveal_with_fuel(Seq::filter, 2);
            }
            let keep = self.cols[i].name.as_str().unicode_len() > 0;
            if keep {
                let ghost oldk = kept@;
                let ghost oldkdv = kept.deep_view();
                let name_copy = self.cols[i].name.clone();
                let vals = copy_values(&self.cols[i].values);
                kept.push(RawColumn { name: name_copy, values: vals });
                proof {
                    assert(kept@ == oldk.push(kept@.last()));
                    assert forall|j: int| 0 <= j < oldk.len() implies kept.deep_view()[j]
                        == oldkdv[j] by {
                        assert(kept@[j] == oldk[j]);
                    }
                    assert(kept@.last()@ =~= self@.cols[i as int]);
                    assert(kept.deep_view() =~= oldkdv.push(self@.cols[i as int]));
                    assert(kept.deep_view() =~= drop_empty_named_cols_spec(post).cols);
                }
            } else {
                proof {
                    assert(kept.deep_view() =~= drop_empty_named_cols_spec(post).cols);
                }
            }
            i = i + 1;
        }
        proof {
            assert(self@.cols.subrange(0, ncols as int) =~= self@.cols);
        }
        let ghost oldt = self@;
        self.cols = kept;
        proof {
            assert(final(self)@ =~= drop_empty_named_cols_spec(oldt));
            if oldt.wf() {
                lemma_filter_cols_height(oldt.cols, oldt.height);
            }
        }
    }

    /// Renames the column at position `i`.
    pub fn set_col_name(&mut self, i: usize, name: &str)
        requires
            i < old(self)@.cols.len(),
        ensures
            final(self)@ == set_col_name_spec(old(self)@, i as int, name@),
            old(self)@.wf() ==> final(self)@.wf(),
    {
        let ghost oldt = self@;
        let c = self.cols.remove(i);
        let renamed = RawColumn { name: name.to_owned(), values: c.values };
        self.cols.insert(i, renamed);
        proof {
            assert(self@.cols =~= oldt.cols.update(
                i as int,
                RawColumnView { name: name@, values: oldt.cols[i as int].values },
            ));
            assert(final(self)@ =~= set_col_name_spec(oldt, i as int, name@));
        }
    }

    /// Drops the first `k` rows of the table.
    pub fn drop_first_rows(&mut self, k: usize)
        ensures
            final(self)@ == drop_first_rows_spec(old(self)@, k as nat),
            old(self)@.wf() ==> final(self)@.wf(),
    {
        let ncols = self.cols.len();
        let mut newcols: Vec<RawColumn> = Vec::new();
        let mut i: usize = 0;
        while i < ncols
            invariant
                i <= ncols,
                ncols == self@.cols.len(),
                self@ == old(self)@,
                newcols@.len() == i,
                forall|j: int| 0 <= j < i ==> newcols.deep_view()[j] == skip_rows_col(
                    #[trigger] self@.cols[j],
                    k as nat,
                ),
            decreases ncols - i,
        {
            proof {
                assert(self@.cols[i as int] == self.cols@[i as int]@);
            }
            let c = &self.cols[i];
            let len = c.values.len();
            let start: usize = if k < len {
                k
            } else {
                len
            };
            let mut vals: Vec<RawValue> = Vec::new();
            let mut r: usize = start;
            while r < len
                invariant
                    start <= r <= len,
                    len == c.values@.len(),
                    vals@.len() == r - start,
                    forall|j: int| 0 <= j < r - start ==> vals.deep_view()[j] == c.values.deep_view(
                    )[start + j],
                decreases len - r,
            {
                let ghost oldvals = vals@;
                let ghost olddv = vals.deep_view();
                vals.push(c.values[r].duplicate());
                proof {
                    assert(vals@ == oldvals.push(vals@.last()));
                    assert forall|j: int| 0 <= j < r - start + 1 implies vals.deep_view()[j] == c
                        .values.deep_view()[start + j] by {
                        if j < r - start {
                            assert(vals@[j] == oldvals[j]);
                            assert(olddv[j] == c.values.deep_view()[start + j]);
                        } else {
                            assert(vals@[j]@ == c.values@[r as int]@);
                        }
                    }
                }
                r = r + 1;
            }
            let ghost oldnew = newcols@;
            let ghost oldnewdv = newcols.deep_view();
            newcols.push(RawColumn { name: c.name.clone(), values: vals });
            proof {
                assert(newcols@ == oldnew.push(newcols@.last()));
                assert forall|j: int| 0 <= j < i + 1 implies newcols.deep_view()[j]
                    == skip_rows_col(#[trigger] self@.cols[j], k as nat) by {
                    if j < i {
                        assert(newcols@[j] == oldnew[j]);
                        assert(oldnewdv[j] == skip_rows_col(self@.cols[j], k as nat));
                    } else {
                        assert(newcols@[j]@.values =~= skip_rows_col(
                            self@.cols[j],
                            k as nat,
                        ).values);
                        assert(newcols@[j]@ =~= skip_rows_col(self@.cols[j], k as nat));
                    }
                }
            }
            i = i + 1;
        }
        let ghost oldt = self@;
        self.height = if k < self.height {
            self.height - k
        } else {
            0
        };
        self.cols = newcols;
        proof {
            assert(final(self)@.cols =~= drop_first_rows_spec(oldt, k as nat).cols);
            assert(final(self)@ =~= drop_first_rows_spec(oldt, k as nat));
        }
    }

    /// An empty table of a fixed height, ready to take columns.
    pub fn new(height: usize) -> (r: RawTable)
        ensures
            r@.height == height,
            r@.cols.len() == 0,
            r@.wf(),
    {
        let t = RawTable { height, cols: Vec::new() };
        proof {
            assert(t@.cols =~= Seq::<RawColumnView>::empty());
        }
        t
    }

    /// Adds a column; refused (table unchanged) when its height differs.
    pub fn push_col(&mut self, name: String, values: Vec<RawValue>) -> (ok: bool)
        ensures
            ok <==> values@.len() == old(self)@.height,
            ok ==> final(self)@ == (RawTableView {
                height: old(self)@.height,
                cols: old(self)@.cols.push(
                    RawColumnView { name: name@, values: values.deep_view() },
                ),
            }),
            !ok ==> final(self)@ == old(self)@,
            ok && old(self)@.wf() ==> final(self)@.wf(),
    {
        if values.len() != self.height {
            return false;
        }
        let ghost oldc = self@.cols;
        self.cols.push(RawColumn { name, values });
        proof {
            assert(self@.cols =~= oldc.push(self.cols@.last()@));
        }
        true
    }

    pub fn col_count(&self) -> (r: usize)
        ensures
            r == self@.cols.len(),
    {
        self.cols.len()
    }

    pub fn col_name(&self, i: usize) -> (r: &String)
        requires
            i < self@.cols.len(),
        ensures
            r@ == self@.cols[i as int].name,
    {
        &self.cols[i].name
    }

    pub fn cell(&self, col: usize, row: usize) -> (r: &RawValue)
        requires
            col < self@.cols.len(),
            row < self@.cols[col as int].values.len(),
        ensures
            r@ == self@.cols[col as int].values[row as int],
    {
        proof {
            assert(self@.cols[col as int] == self.cols@[col as int]@);
        }
        &self.cols[col].values[row]
    }

    pub fn find_col(&self, name: &str) -> (r: Option<usize>)
        ensures
            match r {
                Some(i) => find_col_spec(self@.cols, name@) == Some(i as int),
                None => find_col_spec(self@.cols, name@) is None,
            },
    {
        let n = self.cols.len();
        let mut i: usize = 0;
        while i < n
            invariant
                i <= n,
                n == self@.cols.len(),
                forall|j: int| 0 <= j < i ==> (#[trigger] self@.cols[j]).name != name@,
            decreases n - i,
        {
            proof {
                assert(self@.cols[i as int] == self.cols@[i as int]@);
            }
            if str_eq(self.cols[i].name.as_str(), name) {
                proof {
                    lemma_find_col_spec(self@.cols, name@);
                    match find_col_spec(self@.cols, name@) {
                        Some(k) => {
                            if k < i as int {
                                assert(self@.cols[k].name != name@);
                            }
                            if (i as int) < k {
                                assert(self@.cols[i as int].name != name@);
                            }
                        },
                        None => {
                            assert(self@.cols[i as int].name != name@);
                        },
                    }
                }
                return Some(i);
            }
            i = i + 1;
        }
        proof {
            lemma_find_col_spec(self@.cols, name@);
            if find_col_spec(self@.cols, name@) is Some {
                let k = find_col_spec(self@.cols, name@)->Some_0;
                assert(self@.cols[k].name != name@);
            }
        }
        None
    }

    pub fn has_col_exec(&self, name: &str) -> (r: bool)
        ensures
            r == has_col(self@, name@),
    {
        self.find_col(name).is_some()
    }

    /// Renames the first column called `from` to `to`; no such column, no
    /// change.
    pub fn rename_col(&mut self, from: &str, to: &str)
        ensures
            final(self)@ == rename_col_spec(old(self)@, from@, to@),
            old(self)@.wf() ==> final(self)@.wf(),
    {
        match self.find_col(from) {
            None => {},
            Some(i) => {
                proof {
                    lemma_find_col_spec(self@.cols, from@);
                }
                let ghost oldt = self@;
                let c = self.cols.remove(i);
                let renamed = RawColumn { name: to.to_owned(), values: c.values };
                self.cols.insert(i, renamed);
                proof {
                    assert(self@.cols =~= oldt.cols.update(
                        i as int,
                        RawColumnView { name: to@, values: oldt.cols[i as int].values },
                    ));
                    assert(final(self)@ =~= rename_col_spec(oldt, from@, to@));
                }
            },
        }
    }

    /// Drops the first column of that name; no such column, no change.
    pub fn drop_col(&mut self, name: &str)
        ensures
            final(self)@ == drop_col_spec(old(self)@, name@),
            old(self)@.wf() ==> final(self)@.wf(),
    {
        match self.find_col(name) {
            None => {},
            Some(i) => {
                proof {
                    lemma_find_col_spec(self@.cols, name@);
                }
                let ghost oldt = self@;
                self.cols.remove(i);
                proof {
                    assert(self@.cols =~= oldt.cols.remove(i as int));
                    assert(final(self)@ =~= drop_col_spec(oldt, name@));
                }
            },
        }
    }

    /// Appends a column of nulls, one per row.
    pub fn add_null_col(&mut self, name: &str)
        ensures
            final(self)@ == add_null_col_spec(old(self)@, name@),
            old(self)@.wf() ==> final(self)@.wf(),
    {
        let h = self.height;
        let mut values: Vec<RawValue> = Vec::new();
        let mut i: usize = 0;
        while i < h
            invariant
                i <= h,
                values@.len() == i,
                forall|j: int| 0 <= j < i ==> values.deep_view()[j] == RawValueView::Null,
            decreases h - i,
        {
            let ghost oldv = values@;
            let ghost olddv = values.deep_view();
            values.push(RawValue::Null);
            proof {
                assert(values@ == oldv.push(RawValue::Null));
                assert forall|j: int| 0 <= j < i implies values.deep_view()[j]
                    == RawValueView::Null by {
                    assert(values@[j] == oldv[j]);
                    assert(olddv[j] == RawValueView::Null);
                }
                assert(values@[i as int]@ == RawValueView::Null);
            }
            i = i + 1;
        }
        let ghost oldt = self@;
        let named = name.to_owned();
        let ok = self.push_col(named, values);
        proof {
            assert(ok);
            assert(final(self)@.cols =~= add_null_col_spec(oldt, name@).cols) by {
                assert(final(self)@.cols.last().values =~= Seq::new(
                    oldt.height as nat,
                    |j: int| RawValueView::Null,
                ));
            }
            assert(final(self)@ =~= add_null_col_spec(oldt, name@));
        }
    }
}

} // verus!
