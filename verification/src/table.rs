//! Column-oriented tables: typed cells, named columns of equal length.
//!
//! A table is modelled as a sequence of [`ColumnView`]s. Every operation of
//! this module is stated over that model.

use vstd::prelude::*;
use vstd::string::*;
use crate::error::GlobleError;

verus! {

/// The scalar type that every non-null cell of a column has.
#[derive(Clone, Copy, Debug, PartialEq, Eq, Structural)]
pub enum ColumnType {
    Bool,
    F64,
    I64,
    String,
}

/// One cell. A real number is held as its 64-bit IEEE 754 pattern, which
/// this crate moves around and orders but never computes with.
#[derive(Debug, PartialEq)]
pub enum Cell {
    Null,
    Bool(bool),
    I64(i64),
    F64(u64),
    String(String),
}

/// What a [`Cell`] holds.
pub enum CellView {
    Null,
    Bool(bool),
    I64(i64),
    F64(u64),
    String(Seq<char>),
}

impl View for Cell {
    type V = CellView;

    open spec fn view(&self) -> CellView {
        match self {
            Cell::Null => CellView::Null,
            Cell::Bool(b) => CellView::Bool(*b),
            Cell::I64(i) => CellView::I64(*i),
            Cell::F64(bits) => CellView::F64(*bits),
            Cell::String(s) => CellView::String(s@),
        }
    }
}

/// A cell fits a column when it is null or has the column's type.
pub open spec fn cell_fits(cell: CellView, dtype: ColumnType) -> bool {
    match cell {
        CellView::Null => true,
        CellView::Bool(_) => dtype == ColumnType::Bool,
        CellView::I64(_) => dtype == ColumnType::I64,
        CellView::F64(_) => dtype == ColumnType::F64,
        CellView::String(_) => dtype == ColumnType::String,
    }
}

impl Cell {
    /// A copy of the cell.
    pub fn duplicate(&self) -> (r: Cell)
        ensures
            r@ == self@,
    {
        match self {
            Cell::Null => Cell::Null,
            Cell::Bool(b) => Cell::Bool(*b),
            Cell::I64(i) => Cell::I64(*i),
            Cell::F64(bits) => Cell::F64(*bits),
            Cell::String(s) => Cell::String(s.clone()),
        }
    }

    /// Whether the cell fits a column of the given type.
    pub fn fits(&self, dtype: ColumnType) -> (r: bool)
        ensures
            r == cell_fits(self@, dtype),
    {
        match self {
            Cell::Null => true,
            Cell::Bool(_) => dtype == ColumnType::Bool,
            Cell::I64(_) => dtype == ColumnType::I64,
            Cell::F64(_) => dtype == ColumnType::F64,
            Cell::String(_) => dtype == ColumnType::String,
        }
    }

    /// Whether two cells hold the same value. Two nulls are the same.
    pub fn same(&self, other: &Cell) -> (r: bool)
        ensures
            r == (self@ == other@),
    {
        match (self, other) {
            (Cell::Null, Cell::Null) => true,
            (Cell::Bool(a), Cell::Bool(b)) => *a == *b,
            (Cell::I64(a), Cell::I64(b)) => *a == *b,
            (Cell::F64(a), Cell::F64(b)) => *a == *b,
            (Cell::String(a), Cell::String(b)) => *a == *b,
            _ => false,
        }
    }
}

/// What a [`Column`] holds.
pub struct ColumnView {
    pub name: Seq<char>,
    pub dtype: ColumnType,
    pub cells: Seq<CellView>,
}

/// A column is well formed when each of its cells fits its type.
pub open spec fn column_wf(c: ColumnView) -> bool {
    forall|i: int| 0 <= i < c.cells.len() ==> cell_fits(#[trigger] c.cells[i], c.dtype)
}

/// The views of a sequence of cells.
pub open spec fn cell_views(cells: Seq<Cell>) -> Seq<CellView> {
    Seq::new(cells.len(), |i: int| cells[i]@)
}

/// A named sequence of cells of one type.
#[derive(Debug, PartialEq)]
pub struct Column {
    name: String,
    dtype: ColumnType,
    cells: Vec<Cell>,
}

impl View for Column {
    type V = ColumnView;

    closed spec fn view(&self) -> ColumnView {
        ColumnView { name: self.name@, dtype: self.dtype, cells: cell_views(self.cells@) }
    }
}

impl Column {
    #[verifier::type_invariant]
    closed spec fn inv(&self) -> bool {
        column_wf(self@)
    }

    /// A column of the given name and type over the given cells. Fails with
    /// `PolarsError` if and only if some cell does not fit the type.
    pub fn new(name: &str, dtype: ColumnType, cells: Vec<Cell>) -> (r: Result<Column, GlobleError>)
        ensures
            match r {
                Ok(c) => c@ == (ColumnView { name: name@, dtype: dtype, cells: cell_views(cells@) })
                    && column_wf(c@),
                Err(e) => e@ == crate::error::ErrorView::PolarsError("cell does not fit the column type"@)
                    && !column_wf(ColumnView { name: name@, dtype: dtype, cells: cell_views(cells@) }),
            },
    {
        let mut i: usize = 0;
        while i < cells.len()
            invariant
                i <= cells.len(),
                forall|j: int| 0 <= j < i ==> cell_fits(#[trigger] cell_views(cells@)[j], dtype),
            decreases cells.len() - i,
        {
            if !cells[i].fits(dtype) {
                proof {
                    let cv = ColumnView { name: name@, dtype: dtype, cells: cell_views(cells@) };
                    assert(!cell_fits(cv.cells[i as int], cv.dtype));
                }
                return Err(GlobleError::PolarsError(String::from_str("cell does not fit the column type")));
            }
            i += 1;
        }
        Ok(Column { name: String::from_str(name), dtype, cells })
    }

    /// A column of truth values, none of them null.
    pub fn from_bools(name: &str, values: Vec<bool>) -> (r: Column)
        ensures
            r@.name == name@,
            r@.dtype == ColumnType::Bool,
            r@.cells == Seq::new(values@.len(), |i: int| CellView::Bool(values@[i])),
            column_wf(r@),
    {
        let mut cells: Vec<Cell> = Vec::new();
        let mut i: usize = 0;
        while i < values.len()
            invariant
                i <= values.len(),
                cells@.len() == i,
                forall|j: int| 0 <= j < i ==> (#[trigger] cells@[j])@ == CellView::Bool(values@[j]),
            decreases values.len() - i,
        {
            cells.push(Cell::Bool(values[i]));
            i += 1;
        }
        let r = Column { name: String::from_str(name), dtype: ColumnType::Bool, cells };
        assert(r@.cells =~= Seq::new(values@.len(), |i: int| CellView::Bool(values@[i])));
        r
    }

    /// A column of integers, none of them null.
    pub fn from_i64s(name: &str, values: Vec<i64>) -> (r: Column)
        ensures
            r@.name == name@,
            r@.dtype == ColumnType::I64,
            r@.cells == Seq::new(values@.len(), |i: int| CellView::I64(values@[i])),
            column_wf(r@),
    {
        let mut cells: Vec<Cell> = Vec::new();
        let mut i: usize = 0;
        while i < values.len()
            invariant
                i <= values.len(),
                cells@.len() == i,
                forall|j: int| 0 <= j < i ==> (#[trigger] cells@[j])@ == CellView::I64(values@[j]),
            decreases values.len() - i,
        {
            cells.push(Cell::I64(values[i]));
            i += 1;
        }
        let r = Column { name: String::from_str(name), dtype: ColumnType::I64, cells };
        assert(r@.cells =~= Seq::new(values@.len(), |i: int| CellView::I64(values@[i])));
        r
    }

    /// A column of integers in which an absent value becomes a null cell.
    pub fn from_optional_i64s(name: &str, values: Vec<Option<i64>>) -> (r: Column)
        ensures
            r@.name == name@,
            r@.dtype == ColumnType::I64,
            r@.cells == Seq::new(
                values@.len(),
                |i: int|
                    match values@[i] {
                        Some(v) => CellView::I64(v),
                        None => CellView::Null,
                    },
            ),
            column_wf(r@),
    {
        let mut cells: Vec<Cell> = Vec::new();
        let mut i: usize = 0;
        while i < values.len()
            invariant
                i <= values.len(),
                cells@.len() == i,
                forall|j: int|
                    0 <= j < i ==> (#[trigger] cells@[j])@ == (match values@[j] {
                        Some(v) => CellView::I64(v),
                        None => CellView::Null,
                    }),
            decreases values.len() - i,
        {
            match values[i] {
                Some(v) => cells.push(Cell::I64(v)),
                None => cells.push(Cell::Null),
            }
            i += 1;
        }
        let r = Column { name: String::from_str(name), dtype: ColumnType::I64, cells };
        assert(r@.cells =~= Seq::new(
            values@.len(),
            |i: int|
                match values@[i] {
                    Some(v) => CellView::I64(v),
                    None => CellView::Null,
                },
        ));
        r
    }

    /// A column of texts, none of them null.
    pub fn from_strings(name: &str, values: Vec<String>) -> (r: Column)
        ensures
            r@.name == name@,
            r@.dtype == ColumnType::String,
            r@.cells == Seq::new(values@.len(), |i: int| CellView::String(values@[i]@)),
            column_wf(r@),
    {
        let mut cells: Vec<Cell> = Vec::new();
        let mut i: usize = 0;
        while i < values.len()
            invariant
                i <= values.len(),
                cells@.len() == i,
                forall|j: int| 0 <= j < i ==> (#[trigger] cells@[j])@ == CellView::String(values@[j]@),
            decreases values.len() - i,
        {
            cells.push(Cell::String(values[i].clone()));
            i += 1;
        }
        let r = Column { name: String::from_str(name), dtype: ColumnType::String, cells };
        assert(r@.cells =~= Seq::new(values@.len(), |i: int| CellView::String(values@[i]@)));
        r
    }

    /// Every column is well formed.
    pub fn well_formed(&self)
        ensures
            column_wf(self@),
    {
        proof {
            use_type_invariant(self);
        }
    }

    /// The column's name.
    pub fn name(&self) -> (r: &String)
        ensures
            r@ == self@.name,
    {
        &self.name
    }

    /// The type of the column's cells.
    pub fn dtype(&self) -> (r: ColumnType)
        ensures
            r == self@.dtype,
    {
        self.dtype
    }

    /// The number of cells.
    pub fn len(&self) -> (r: usize)
        ensures
            r == self@.cells.len(),
    {
        self.cells.len()
    }

    /// The cell at the given row, if the column is that long.
    pub fn cell(&self, row: usize) -> (r: Option<Cell>)
        ensures
            match r {
                Some(c) => row < self@.cells.len() && c@ == self@.cells[row as int],
                None => row >= self@.cells.len(),
            },
    {
        if row < self.cells.len() {
            Some(self.cells[row].duplicate())
        } else {
            None
        }
    }

    /// A copy of the column.
    pub fn duplicate(&self) -> (r: Column)
        ensures
            r@ == self@,
    {
        proof {
            use_type_invariant(self);
        }
        let mut cells: Vec<Cell> = Vec::new();
        let mut i: usize = 0;
        while i < self.cells.len()
            invariant
                i <= self.cells.len(),
                cells@.len() == i,
                forall|j: int| 0 <= j < i ==> (#[trigger] cells@[j])@ == self.cells@[j]@,
            decreases self.cells.len() - i,
        {
            cells.push(self.cells[i].duplicate());
            i += 1;
        }
        assert(cell_views(cells@) =~= cell_views(self.cells@));
        Column { name: self.name.clone(), dtype: self.dtype, cells }
    }
}


/// Each column is well formed.
pub open spec fn columns_wf(t: Seq<ColumnView>) -> bool {
    forall|i: int| 0 <= i < t.len() ==> column_wf(#[trigger] t[i])
}

/// All columns have as many cells as the first.
pub open spec fn equal_heights(t: Seq<ColumnView>) -> bool {
    forall|i: int| 0 <= i < t.len() ==> (#[trigger] t[i]).cells.len() == t[0].cells.len()
}

/// No two columns share a name.
pub open spec fn names_distinct(t: Seq<ColumnView>) -> bool {
    forall|i: int, j: int| 0 <= i < j < t.len() ==> (#[trigger] t[i]).name != (#[trigger] t[j]).name
}

/// A table is well formed when its columns are, have one length, and have
/// names that differ.
pub open spec fn table_wf(t: Seq<ColumnView>) -> bool {
    &&& columns_wf(t)
    &&& equal_heights(t)
    &&& names_distinct(t)
}

/// The number of rows: the length of the first column, 0 without columns.
pub open spec fn table_height(t: Seq<ColumnView>) -> nat {
    if t.len() == 0 {
        0
    } else {
        t[0].cells.len()
    }
}

/// Whether the table has a column of that name.
pub open spec fn has_column(t: Seq<ColumnView>, name: Seq<char>) -> bool {
    exists|i: int| 0 <= i < t.len() && (#[trigger] t[i]).name == name
}

/// Where the column of that name stands (meaningful when there is one).
pub open spec fn column_position(t: Seq<ColumnView>, name: Seq<char>) -> int {
    choose|i: int| 0 <= i < t.len() && (#[trigger] t[i]).name == name
}

/// The column of that name (meaningful when there is one).
pub open spec fn column_named(t: Seq<ColumnView>, name: Seq<char>) -> ColumnView {
    t[column_position(t, name)]
}

/// In a table with distinct names, a column is found where it stands.
pub proof fn lemma_column_position(t: Seq<ColumnView>, i: int)
    requires
        names_distinct(t),
        0 <= i < t.len(),
    ensures
        has_column(t, t[i].name),
        column_position(t, t[i].name) == i,
        column_named(t, t[i].name) == t[i],
{
    let j = column_position(t, t[i].name);
    assert(0 <= j < t.len() && t[j].name == t[i].name);
    if j < i {
        assert(t[j].name != t[i].name);
    } else if i < j {
        assert(t[i].name != t[j].name);
    }
}

/// The views of a sequence of columns.
pub open spec fn column_views(columns: Seq<Column>) -> Seq<ColumnView> {
    Seq::new(columns.len(), |i: int| columns[i]@)
}

/// An ordered sequence of named columns of one length.
#[derive(Debug, PartialEq)]
pub struct Table {
    columns: Vec<Column>,
}

impl View for Table {
    type V = Seq<ColumnView>;

    closed spec fn view(&self) -> Seq<ColumnView> {
        column_views(self.columns@)
    }
}

impl Table {
    #[verifier::type_invariant]
    closed spec fn inv(&self) -> bool {
        table_wf(self@)
    }

    /// The table without columns and without rows.
    pub fn empty() -> (r: Table)
        ensures
            r@ == Seq::<ColumnView>::empty(),
    {
        let r = Table { columns: Vec::new() };
        assert(r@ =~= Seq::<ColumnView>::empty());
        r
    }

    /// The table of the given columns, in their order. Fails with
    /// `PolarsError` if the columns differ in length, or else if two of them
    /// share a name.
    pub fn new(columns: Vec<Column>) -> (r: Result<Table, GlobleError>)
        ensures
            match r {
                Ok(t) => t@ == column_views(columns@) && table_wf(t@),
                Err(e) => if !equal_heights(column_views(columns@)) {
                    e@ == crate::error::ErrorView::PolarsError("columns differ in length"@)
                } else {
                    &&& !names_distinct(column_views(columns@))
                    &&& e@ == crate::error::ErrorView::PolarsError("column name occurs twice"@)
                },
            },
    {
        let ghost views = column_views(columns@);
        let n = columns.len();
        let mut i: usize = 0;
        while i < n
            invariant
                i <= n,
                n == columns.len(),
                views == column_views(columns@),
                forall|k: int| 0 <= k < i ==> column_wf(#[trigger] views[k]),
                forall|k: int| 0 <= k < i ==> (#[trigger] views[k]).cells.len() == views[0].cells.len(),
            decreases n - i,
        {
            let c = &columns[i];
            proof {
                use_type_invariant(c);
            }
            if c.len() != columns[0].len() {
                assert(views[i as int].cells.len() != views[0].cells.len());
                return Err(GlobleError::PolarsError(String::from_str("columns differ in length")));
            }
            i += 1;
        }
        let mut a: usize = 0;
        while a < n
            invariant
                a <= n,
                n == columns.len(),
                views == column_views(columns@),
                columns_wf(views),
                equal_heights(views),
                forall|x: int, y: int| 0 <= x < y < n && x < a ==> (#[trigger] views[x]).name != (#[trigger] views[y]).name,
            decreases n - a,
        {
            let mut b: usize = a + 1;
            while b < n
                invariant
                    a < b <= n,
                    n == columns.len(),
                    views == column_views(columns@),
                    columns_wf(views),
                    equal_heights(views),
                    forall|y: int| a < y < b ==> views[a as int].name != (#[trigger] views[y]).name,
                decreases n - b,
            {
                if *columns[a].name() == *columns[b].name() {
                    assert(views[a as int].name == views[b as int].name);
                    return Err(GlobleError::PolarsError(String::from_str("column name occurs twice")));
                }
                b += 1;
            }
            a += 1;
        }
        Ok(Table { columns })
    }

    /// Every table is well formed.
    pub fn well_formed(&self)
        ensures
            table_wf(self@),
    {
        proof {
            use_type_invariant(self);
        }
    }

    /// The number of columns.
    pub fn width(&self) -> (r: usize)
        ensures
            r == self@.len(),
    {
        self.columns.len()
    }

    /// The number of rows.
    pub fn height(&self) -> (r: usize)
        ensures
            r == table_height(self@),
    {
        if self.columns.len() == 0 {
            0
        } else {
            self.columns[0].len()
        }
    }

    /// The names of the columns, in their order.
    pub fn get_column_names(&self) -> (r: Vec<String>)
        ensures
            r@.len() == self@.len(),
            forall|i: int| 0 <= i < r@.len() ==> (#[trigger] r@[i])@ == self@[i].name,
    {
        let mut names: Vec<String> = Vec::new();
        let mut i: usize = 0;
        while i < self.columns.len()
            invariant
                i <= self.columns.len(),
                names@.len() == i,
                forall|k: int| 0 <= k < i ==> (#[trigger] names@[k])@ == self@[k].name,
            decreases self.columns.len() - i,
        {
            names.push(self.columns[i].name().clone());
            i += 1;
        }
        names
    }

    /// Where the column of that name stands, if there is one.
    pub fn find_column(&self, name: &str) -> (r: Option<usize>)
        ensures
            table_wf(self@),
            match r {
                Some(i) => i < self@.len() && self@[i as int].name == name@ && has_column(self@, name@)
                    && column_position(self@, name@) == i,
                None => !has_column(self@, name@),
            },
    {
        proof {
            use_type_invariant(self);
        }
        let wanted = String::from_str(name);
        let mut i: usize = 0;
        while i < self.columns.len()
            invariant
                i <= self.columns.len(),
                wanted@ == name@,
                table_wf(self@),
                forall|k: int| 0 <= k < i ==> (#[trigger] self@[k]).name != name@,
            decreases self.columns.len() - i,
        {
            if *self.columns[i].name() == wanted {
                proof {
                    lemma_column_position(self@, i as int);
                }
                return Some(i);
            }
            i += 1;
        }
        None
    }

    /// The column of that name, if there is one.
    pub fn column(&self, name: &str) -> (r: Option<&Column>)
        ensures
            match r {
                Some(c) => has_column(self@, name@) && c@ == column_named(self@, name@),
                None => !has_column(self@, name@),
            },
    {
        match self.find_column(name) {
            Some(i) => Some(&self.columns[i]),
            None => None,
        }
    }

    /// A copy of the table.
    pub fn duplicate(&self) -> (r: Table)
        ensures
            r@ == self@,
    {
        proof {
            use_type_invariant(self);
        }
        let mut columns: Vec<Column> = Vec::new();
        let mut i: usize = 0;
        while i < self.columns.len()
            invariant
                i <= self.columns.len(),
                columns@.len() == i,
                forall|k: int| 0 <= k < i ==> (#[trigger] columns@[k])@ == self@[k],
            decreases self.columns.len() - i,
        {
            columns.push(self.columns[i].duplicate());
            i += 1;
        }
        assert(column_views(columns@) =~= self@);
        Table { columns }
    }
}


/// The views of a sequence of tables.
pub open spec fn table_views(tables: Seq<Table>) -> Seq<Seq<ColumnView>> {
    Seq::new(tables.len(), |i: int| tables[i]@)
}

/// The cells of the column called `name`, taken from each table in turn and
/// laid end to end.
pub open spec fn stacked(ts: Seq<Seq<ColumnView>>, name: Seq<char>) -> Seq<CellView>
    decreases ts.len(),
{
    if ts.len() == 0 {
        Seq::empty()
    } else {
        stacked(ts.drop_last(), name) + column_named(ts.last(), name).cells
    }
}

/// `t` has a column with the name and the type of `wanted`.
pub open spec fn frame_has(t: Seq<ColumnView>, wanted: ColumnView) -> bool {
    has_column(t, wanted.name) && column_named(t, wanted.name).dtype == wanted.dtype
}

/// `t` has the shape of `first`: as many columns, and each column of
/// `first` by name with the same type. As names do not repeat in a table,
/// the two then have the same names and no others.
pub open spec fn frame_matches(first: Seq<ColumnView>, t: Seq<ColumnView>) -> bool {
    &&& t.len() == first.len()
    &&& forall|c: int| 0 <= c < first.len() ==> #[trigger] frame_has(t, first[c])
}

/// There is a first table, and every table has its shape.
pub open spec fn mergeable(ts: Seq<Seq<ColumnView>>) -> bool {
    &&& ts.len() > 0
    &&& forall|k: int| 0 <= k < ts.len() ==> frame_matches(ts[0], #[trigger] ts[k])
}

/// The vertical merge: the columns of the first table, in its order, each
/// holding that column's cells from all tables in input order.
pub open spec fn merged(ts: Seq<Seq<ColumnView>>) -> Seq<ColumnView> {
    Seq::new(
        ts[0].len(),
        |c: int|
            ColumnView { name: ts[0][c].name, dtype: ts[0][c].dtype, cells: stacked(ts, ts[0][c].name) },
    )
}

/// The sum of the tables' heights.
pub open spec fn total_height(ts: Seq<Seq<ColumnView>>) -> nat
    decreases ts.len(),
{
    if ts.len() == 0 {
        0
    } else {
        total_height(ts.drop_last()) + table_height(ts.last())
    }
}

/// Each table is well formed.
pub open spec fn tables_wf(ts: Seq<Seq<ColumnView>>) -> bool {
    forall|k: int| 0 <= k < ts.len() ==> table_wf(#[trigger] ts[k])
}

proof fn lemma_stacked_step(ts: Seq<Seq<ColumnView>>, k: int, name: Seq<char>)
    requires
        0 <= k < ts.len(),
    ensures
        stacked(ts.take(k + 1), name) == stacked(ts.take(k), name) + column_named(ts[k], name).cells,
{
    assert(ts.take(k + 1).drop_last() =~= ts.take(k));
    assert(ts.take(k + 1).last() == ts[k]);
}

proof fn lemma_stacked_shape(ts: Seq<Seq<ColumnView>>, name: Seq<char>, dtype: ColumnType)
    requires
        tables_wf(ts),
        forall|k: int|
            0 <= k < ts.len() ==> has_column(#[trigger] ts[k], name) && column_named(ts[k], name).dtype
                == dtype,
    ensures
        stacked(ts, name).len() == total_height(ts),
        forall|i: int| 0 <= i < stacked(ts, name).len() ==> cell_fits(#[trigger] stacked(ts, name)[i], dtype),
    decreases ts.len(),
{
    if ts.len() > 0 {
        let rest = ts.drop_last();
        assert forall|k: int| 0 <= k < rest.len() implies has_column(#[trigger] rest[k], name)
            && column_named(rest[k], name).dtype == dtype && table_wf(rest[k]) by {
            assert(rest[k] == ts[k]);
        }
        lemma_stacked_shape(rest, name, dtype);
        let t = ts.last();
        assert(t == ts[ts.len() - 1]);
        let p = column_position(t, name);
        assert(0 <= p < t.len() && t[p].name == name);
        assert(t[p].cells.len() == t[0].cells.len());
        assert(column_wf(t[p]));
        let col = column_named(t, name);
        assert forall|i: int| 0 <= i < stacked(ts, name).len() implies cell_fits(
            #[trigger] stacked(ts, name)[i],
            dtype,
        ) by {
            if i >= stacked(rest, name).len() {
                assert(stacked(ts, name)[i] == col.cells[i - stacked(rest, name).len()]);
            } else {
                assert(stacked(ts, name)[i] == stacked(rest, name)[i]);
            }
        }
    }
}

proof fn lemma_no_columns_no_rows(ts: Seq<Seq<ColumnView>>)
    requires
        forall|k: int| 0 <= k < ts.len() ==> (#[trigger] ts[k]).len() == 0,
    ensures
        total_height(ts) == 0,
    decreases ts.len(),
{
    if ts.len() > 0 {
        let rest = ts.drop_last();
        assert forall|k: int| 0 <= k < rest.len() implies (#[trigger] rest[k]).len() == 0 by {
            assert(rest[k] == ts[k]);
        }
        lemma_no_columns_no_rows(rest);
        assert(ts.last() == ts[ts.len() - 1]);
    }
}

/// The merge of well-formed tables that can be merged is well formed, has
/// the columns of the first, and is as high as the tables together.
pub proof fn lemma_merged_wf(ts: Seq<Seq<ColumnView>>)
    requires
        tables_wf(ts),
        mergeable(ts),
    ensures
        table_wf(merged(ts)),
        merged(ts).len() == ts[0].len(),
        table_height(merged(ts)) == total_height(ts),
{
    let m = merged(ts);
    let first = ts[0];
    assert(table_wf(first));
    if first.len() == 0 {
        assert forall|k: int| 0 <= k < ts.len() implies (#[trigger] ts[k]).len() == 0 by {
            assert(frame_matches(first, ts[k]));
        }
        lemma_no_columns_no_rows(ts);
    }
    assert forall|c: int| 0 <= c < m.len() implies column_wf(#[trigger] m[c]) && m[c].cells.len()
        == total_height(ts) by {
        assert forall|k: int| 0 <= k < ts.len() implies has_column(#[trigger] ts[k], first[c].name)
            && column_named(ts[k], first[c].name).dtype == first[c].dtype by {
            assert(frame_matches(first, ts[k]));
            assert(frame_has(ts[k], first[c]));
        }
        lemma_stacked_shape(ts, first[c].name, first[c].dtype);
    }
    assert forall|i: int, j: int| 0 <= i < j < m.len() implies (#[trigger] m[i]).name != (
    #[trigger] m[j]).name by {
        assert(first[i].name != first[j].name);
    }
}

/// Merging a single well-formed table gives that table back.
pub proof fn lemma_merge_single(t: Seq<ColumnView>)
    requires
        table_wf(t),
    ensures
        mergeable(seq![t]),
        merged(seq![t]) == t,
{
    let ts = seq![t];
    assert forall|c: int| 0 <= c < t.len() implies #[trigger] frame_has(t, t[c]) by {
        lemma_column_position(t, c);
    }
    assert(frame_matches(t, t));
    assert(ts[0] == t);
    let m = merged(ts);
    assert(m.len() == t.len());
    assert forall|c: int| 0 <= c < t.len() implies m[c] == t[c] by {
        let name = t[c].name;
        lemma_column_position(t, c);
        assert(ts.drop_last() =~= Seq::<Seq<ColumnView>>::empty());
        assert(stacked(ts.drop_last(), name) =~= Seq::<CellView>::empty());
        assert(ts.last() == t);
        assert(stacked(ts, name) =~= column_named(t, name).cells);
    }
    assert(m =~= t);
}

proof fn lemma_stacked_grouped(xs: Seq<Seq<ColumnView>>, ys: Seq<Seq<ColumnView>>, c: int)
    requires
        xs.len() > 0,
        names_distinct(xs[0]),
        0 <= c < xs[0].len(),
    ensures
        stacked(xs + ys, xs[0][c].name) == stacked(seq![merged(xs)] + ys, xs[0][c].name),
    decreases ys.len(),
{
    let name = xs[0][c].name;
    let m = merged(xs);
    if ys.len() == 0 {
        assert(xs + ys =~= xs);
        assert(seq![m] + ys =~= seq![m]);
        assert(seq![m].drop_last() =~= Seq::<Seq<ColumnView>>::empty());
        assert(stacked(seq![m].drop_last(), name) =~= Seq::<CellView>::empty());
        assert(seq![m].last() == m);
        assert forall|i: int, j: int| 0 <= i < j < m.len() implies (#[trigger] m[i]).name != (
        #[trigger] m[j]).name by {
            assert(xs[0][i].name != xs[0][j].name);
        }
        assert(m[c].name == name);
        lemma_column_position(m, c);
        assert(stacked(seq![m], name) =~= m[c].cells);
    } else {
        let rest = ys.drop_last();
        lemma_stacked_grouped(xs, rest, c);
        assert((xs + ys).drop_last() =~= xs + rest);
        assert((seq![m] + ys).drop_last() =~= seq![m] + rest);
        assert((xs + ys).last() == ys.last());
        assert((seq![m] + ys).last() == ys.last());
    }
}

/// Merging is associative and keeps the input order: merging `xs` followed
/// by `ys` in one go gives what merging first `xs` alone, and then that
/// result followed by `ys`, gives; so the two are the same table still
/// after a sort. Either both merges can be made or neither.
pub proof fn lemma_merge_grouped(xs: Seq<Seq<ColumnView>>, ys: Seq<Seq<ColumnView>>)
    requires
        xs.len() > 0,
        tables_wf(xs),
        tables_wf(ys),
    ensures
        mergeable(xs + ys) <==> mergeable(xs) && mergeable(seq![merged(xs)] + ys),
        mergeable(xs + ys) ==> merged(xs + ys) == merged(seq![merged(xs)] + ys),
        mergeable(xs + ys) ==> forall|name: Seq<char>, ascending: bool|
            #[trigger] sorted_by(merged(xs + ys), name, ascending) == sorted_by(
                merged(seq![merged(xs)] + ys),
                name,
                ascending,
            ),
{
    let all = xs + ys;
    let m = merged(xs);
    let grouped = seq![m] + ys;
    let first = xs[0];
    assert(table_wf(first));
    assert(all[0] == first);
    assert(grouped[0] == m);
    assert(m.len() == first.len());
    assert forall|i: int, j: int| 0 <= i < j < m.len() implies (#[trigger] m[i]).name != (
    #[trigger] m[j]).name by {
        assert(first[i].name != first[j].name);
    }
    assert forall|c: int| 0 <= c < m.len() implies #[trigger] frame_has(m, m[c]) by {
        lemma_column_position(m, c);
    }
    assert(frame_matches(m, m));
    if mergeable(all) {
        assert forall|k: int| 0 <= k < xs.len() implies frame_matches(first, #[trigger] xs[k]) by {
            assert(all[k] == xs[k]);
            assert(frame_matches(all[0], all[k]));
        }
        assert forall|k: int| 0 <= k < grouped.len() implies frame_matches(m, #[trigger] grouped[k]) by {
            if k > 0 {
                assert(grouped[k] == ys[k - 1]);
                assert(all[xs.len() + k - 1] == ys[k - 1]);
                assert(frame_matches(all[0], all[xs.len() + k - 1]));
                assert forall|c: int| 0 <= c < m.len() implies #[trigger] frame_has(grouped[k], m[c]) by {
                    assert(frame_has(ys[k - 1], first[c]));
                }
            }
        }
        assert(merged(all).len() == merged(grouped).len());
        assert forall|c: int| 0 <= c < first.len() implies merged(all)[c] == merged(grouped)[c] by {
            lemma_stacked_grouped(xs, ys, c);
        }
        assert(merged(all) =~= merged(grouped));
    }
    if mergeable(xs) && mergeable(grouped) {
        assert forall|k: int| 0 <= k < all.len() implies frame_matches(first, #[trigger] all[k]) by {
            if k < xs.len() {
                assert(all[k] == xs[k]);
            } else {
                assert(all[k] == ys[k - xs.len()]);
                assert(grouped[k - xs.len() + 1] == ys[k - xs.len()]);
                assert(frame_matches(grouped[0], grouped[k - xs.len() + 1]));
                assert forall|c: int| 0 <= c < first.len() implies #[trigger] frame_has(all[k], first[c]) by {
                    assert(frame_has(ys[k - xs.len()], m[c]));
                }
            }
        }
    }
}

/// Merging keeps the rows in input order: row `r` of table `k` comes right
/// after all rows of the tables before `k` and the rows before `r` of
/// table `k`.
pub proof fn lemma_merge_keeps_order(ts: Seq<Seq<ColumnView>>, name: Seq<char>, k: int, r: int)
    requires
        tables_wf(ts),
        forall|j: int| 0 <= j < ts.len() ==> has_column(#[trigger] ts[j], name),
        0 <= k < ts.len(),
        0 <= r < table_height(ts[k]),
    ensures
        total_height(ts.take(k)) + r < stacked(ts, name).len(),
        stacked(ts, name)[total_height(ts.take(k)) + r] == column_named(ts[k], name).cells[r],
    decreases ts.len(),
{
    let rest = ts.drop_last();
    let last = ts.len() - 1;
    assert forall|j: int| 0 <= j < rest.len() implies has_column(#[trigger] rest[j], name) && table_wf(
        rest[j],
    ) by {
        assert(rest[j] == ts[j]);
    }
    let t = ts[k];
    let p = column_position(t, name);
    assert(0 <= p < t.len() && t[p].name == name);
    assert(table_wf(t));
    assert(t[p].cells.len() == t[0].cells.len());
    lemma_stacked_len(rest, name);
    if k == last {
        assert(ts.take(k) =~= rest);
    } else {
        lemma_merge_keeps_order(rest, name, k, r);
        assert(rest.take(k) =~= ts.take(k));
        assert(rest[k] == ts[k]);
    }
}

proof fn lemma_stacked_len(ts: Seq<Seq<ColumnView>>, name: Seq<char>)
    requires
        tables_wf(ts),
        forall|j: int| 0 <= j < ts.len() ==> has_column(#[trigger] ts[j], name),
    ensures
        stacked(ts, name).len() == total_height(ts),
    decreases ts.len(),
{
    if ts.len() > 0 {
        let rest = ts.drop_last();
        assert forall|j: int| 0 <= j < rest.len() implies has_column(#[trigger] rest[j], name) && table_wf(
            rest[j],
        ) by {
            assert(rest[j] == ts[j]);
        }
        lemma_stacked_len(rest, name);
        let t = ts.last();
        assert(t == ts[ts.len() - 1]);
        let p = column_position(t, name);
        assert(0 <= p < t.len() && t[p].name == name);
        assert(table_wf(t));
        assert(t[p].cells.len() == t[0].cells.len());
    }
}

/// Merges tables vertically. The first table gives the columns and their
/// order; each column holds its cells from all tables in input order.
///
/// Fails with `PolarsError` if there is no table, or if the tables do not
/// all have the same columns: some table has more or fewer columns than the
/// first, lacks a column of the first, or has it with another type.
pub fn merge_dataframes(frames: Vec<Table>) -> (r: Result<Table, GlobleError>)
    ensures
        match r {
            Ok(t) => mergeable(table_views(frames@)) && t@ == merged(table_views(frames@)),
            Err(e) => if frames@.len() == 0 {
                e@ == crate::error::ErrorView::PolarsError("No frames to merge"@)
            } else {
                &&& !mergeable(table_views(frames@))
                &&& e@ == crate::error::ErrorView::PolarsError("the frames do not have the same columns"@)
            },
        },
{
    let n = frames.len();
    if n == 0 {
        return Err(GlobleError::PolarsError(String::from_str("No frames to merge")));
    }
    let ghost views = table_views(frames@);
    let width = frames[0].columns.len();
    let mut k: usize = 0;
    while k < n
        invariant
            k <= n,
            n == frames.len(),
            n > 0,
            views == table_views(frames@),
            width == frames@[0].columns@.len(),
            forall|j: int| 0 <= j < k ==> table_wf(#[trigger] views[j]),
            forall|j: int| 0 <= j < k ==> frame_matches(views[0], #[trigger] views[j]),
        decreases n - k,
    {
        let frame = &frames[k];
        proof {
            use_type_invariant(frame);
        }
        if frame.columns.len() != width {
            assert(!frame_matches(views[0], views[k as int]));
            return Err(GlobleError::PolarsError(String::from_str("the frames do not have the same columns")));
        }
        let mut c: usize = 0;
        while c < width
            invariant
                c <= width,
                k < n,
                n == frames.len(),
                views == table_views(frames@),
                width == frames@[0].columns@.len(),
                *frame == frames@[k as int],
                forall|d: int| 0 <= d < c ==> #[trigger] frame_has(views[k as int], views[0][d]),
            decreases width - c,
        {
            let wanted = &frames[0].columns[c];
            let fits = match frame.column(wanted.name().as_str()) {
                Some(found) => found.dtype() == wanted.dtype(),
                None => false,
            };
            if !fits {
                proof {
                    assert(views[0][c as int] == wanted@);
                    assert(!frame_has(views[k as int], views[0][c as int]));
                }
                return Err(
                    GlobleError::PolarsError(String::from_str("the frames do not have the same columns")),
                );
            }
            c += 1;
        }
        k += 1;
    }
    proof {
        assert(mergeable(views));
        assert(tables_wf(views));
        lemma_merged_wf(views);
    }
    let mut columns: Vec<Column> = Vec::new();
    let mut c: usize = 0;
    while c < width
        invariant
            c <= width,
            n == frames.len(),
            n > 0,
            views == table_views(frames@),
            width == frames@[0].columns@.len(),
            mergeable(views),
            tables_wf(views),
            columns@.len() == c,
            forall|d: int| 0 <= d < c ==> (#[trigger] columns@[d])@ == merged(views)[d],
        decreases width - c,
    {
        let wanted = &frames[0].columns[c];
        let ghost name = views[0][c as int].name;
        let ghost dtype = views[0][c as int].dtype;
        proof {
            assert(wanted@.name == name);
            assert forall|j: int| 0 <= j < views.len() implies has_column(#[trigger] views[j], name)
                && column_named(views[j], name).dtype == dtype by {
                assert(frame_matches(views[0], views[j]));
                assert(frame_has(views[j], views[0][c as int]));
            }
        }
        let mut cells: Vec<Cell> = Vec::new();
        let mut k: usize = 0;
        while k < n
            invariant
                k <= n,
                n == frames.len(),
                views == table_views(frames@),
                c < width,
                width == frames@[0].columns@.len(),
                *wanted == frames@[0].columns@[c as int],
                name == wanted@.name,
                forall|j: int| 0 <= j < views.len() ==> has_column(#[trigger] views[j], name),
                cell_views(cells@) == stacked(views.take(k as int), name),
            decreases n - k,
        {
            let ghost before = cell_views(cells@);
            match frames[k].column(wanted.name().as_str()) {
                Some(found) => {
                    let mut i: usize = 0;
                    while i < found.cells.len()
                        invariant
                            i <= found.cells.len(),
                            cells@.len() == before.len() + i,
                            forall|j: int| 0 <= j < before.len() ==> (#[trigger] cells@[j])@ == before[j],
                            forall|j: int|
                                0 <= j < i ==> (#[trigger] cells@[before.len() + j])@ == found.cells@[j]@,
                        decreases found.cells.len() - i,
                    {
                        cells.push(found.cells[i].duplicate());
                        i += 1;
                    }
                    proof {
                        assert forall|j: int| 0 <= j < cells@.len() implies cell_views(cells@)[j] == (before
                            + found@.cells)[j] by {
                            if j >= before.len() {
                                assert(cells@[before.len() + (j - before.len())]@ == found.cells@[j
                                    - before.len()]@);
                            }
                        }
                        assert(cell_views(cells@) =~= before + found@.cells);
                        lemma_stacked_step(views, k as int, name);
                    }
                },
                None => {
                    assert(has_column(views[k as int], name));
                    assert(false);
                },
            }
            k += 1;
        }
        proof {
            assert(views.take(n as int) =~= views);
            lemma_stacked_shape(views, name, dtype);
        }
        let column = Column { name: wanted.name.clone(), dtype: wanted.dtype, cells };
        assert(column@ == merged(views)[c as int]);
        columns.push(column);
        c += 1;
    }
    assert(column_views(columns@) =~= merged(views));
    Ok(Table { columns })
}


/// The rows below `n` for which `keep` holds, in rising order.
pub open spec fn rows_where(keep: spec_fn(int) -> bool, n: nat) -> Seq<int>
    decreases n,
{
    if n == 0 {
        Seq::empty()
    } else {
        let before = rows_where(keep, (n - 1) as nat);
        if keep(n - 1) {
            before.push(n - 1)
        } else {
            before
        }
    }
}

/// `rows_where` lists rows below `n` that `keep` admits, each once and in
/// rising order, and leaves none of them out.
pub proof fn lemma_rows_where(keep: spec_fn(int) -> bool, n: nat)
    ensures
        rows_where(keep, n).len() <= n,
        forall|k: int|
            0 <= k < rows_where(keep, n).len() ==> 0 <= (#[trigger] rows_where(keep, n)[k]) < n && keep(
                rows_where(keep, n)[k],
            ),
        forall|k: int, m: int|
            0 <= k < m < rows_where(keep, n).len() ==> (#[trigger] rows_where(keep, n)[k]) < (
            #[trigger] rows_where(keep, n)[m]),
        forall|i: int| 0 <= i < n && keep(i) ==> rows_where(keep, n).contains(i),
    decreases n,
{
    if n > 0 {
        let before = rows_where(keep, (n - 1) as nat);
        lemma_rows_where(keep, (n - 1) as nat);
        let now = rows_where(keep, n);
        assert forall|i: int| 0 <= i < n && keep(i) implies now.contains(i) by {
            if i < n - 1 {
                assert(before.contains(i));
                let k = choose|k: int| 0 <= k < before.len() && before[k] == i;
                assert(now[k] == i);
            } else {
                assert(now[now.len() - 1] == i);
            }
        }
    }
}

/// The cells at the given rows, in the order of `rows`.
pub open spec fn take_rows(cells: Seq<CellView>, rows: Seq<int>) -> Seq<CellView> {
    Seq::new(rows.len(), |k: int| cells[rows[k]])
}

/// The table reduced to the given rows, in the order of `rows`.
pub open spec fn with_rows(t: Seq<ColumnView>, rows: Seq<int>) -> Seq<ColumnView> {
    Seq::new(
        t.len(),
        |c: int| ColumnView { name: t[c].name, dtype: t[c].dtype, cells: take_rows(t[c].cells, rows) },
    )
}

/// Row numbers as integers.
pub open spec fn row_numbers(rows: Seq<usize>) -> Seq<int> {
    Seq::new(rows.len(), |k: int| rows[k] as int)
}

/// Reducing a well-formed table to rows that it has leaves it well formed,
/// with the same columns.
pub proof fn lemma_with_rows_wf(t: Seq<ColumnView>, rows: Seq<int>)
    requires
        table_wf(t),
        forall|k: int| 0 <= k < rows.len() ==> 0 <= #[trigger] rows[k] < table_height(t),
    ensures
        table_wf(with_rows(t, rows)),
        with_rows(t, rows).len() == t.len(),
        t.len() > 0 ==> table_height(with_rows(t, rows)) == rows.len(),
        forall|name: Seq<char>| has_column(t, name) <==> has_column(with_rows(t, rows), name),
        forall|name: Seq<char>|
            has_column(t, name) ==> column_position(with_rows(t, rows), name) == column_position(t, name),
{
    let r = with_rows(t, rows);
    assert forall|c: int| 0 <= c < r.len() implies column_wf(#[trigger] r[c]) by {
        assert(column_wf(t[c]));
        assert(t[c].cells.len() == t[0].cells.len());
        assert forall|i: int| 0 <= i < r[c].cells.len() implies cell_fits(
            #[trigger] r[c].cells[i],
            r[c].dtype,
        ) by {
            assert(r[c].cells[i] == t[c].cells[rows[i]]);
        }
    }
    assert forall|i: int, j: int| 0 <= i < j < r.len() implies (#[trigger] r[i]).name != (
    #[trigger] r[j]).name by {
        assert(t[i].name != t[j].name);
    }
    assert forall|name: Seq<char>| has_column(t, name) implies has_column(r, name) && column_position(
        r,
        name,
    ) == column_position(t, name) by {
        let p = column_position(t, name);
        assert(r[p].name == name);
        lemma_column_position(r, p);
    }
    assert forall|name: Seq<char>| has_column(r, name) implies has_column(t, name) by {
        let p = column_position(r, name);
        assert(t[p].name == name);
    }
}

impl Table {
    /// The table reduced to the given rows, in the order given.
    pub(crate) fn pick_rows(&self, rows: &Vec<usize>) -> (r: Table)
        requires
            forall|k: int| 0 <= k < rows@.len() ==> (#[trigger] rows@[k]) < table_height(self@),
        ensures
            r@ == with_rows(self@, row_numbers(rows@)),
    {
        proof {
            use_type_invariant(self);
            lemma_with_rows_wf(self@, row_numbers(rows@));
        }
        let ghost target = with_rows(self@, row_numbers(rows@));
        let mut columns: Vec<Column> = Vec::new();
        let mut c: usize = 0;
        while c < self.columns.len()
            invariant
                c <= self.columns.len(),
                table_wf(self@),
                table_wf(target),
                target == with_rows(self@, row_numbers(rows@)),
                forall|k: int| 0 <= k < rows@.len() ==> (#[trigger] rows@[k]) < table_height(self@),
                columns@.len() == c,
                forall|d: int| 0 <= d < c ==> (#[trigger] columns@[d])@ == target[d],
            decreases self.columns.len() - c,
        {
            let source = &self.columns[c];
            assert(self@[c as int].cells.len() == self@[0].cells.len());
            let mut cells: Vec<Cell> = Vec::new();
            let mut k: usize = 0;
            while k < rows.len()
                invariant
                    k <= rows.len(),
                    source@.cells.len() == table_height(self@),
                    forall|m: int| 0 <= m < rows@.len() ==> (#[trigger] rows@[m]) < table_height(self@),
                    cells@.len() == k,
                    forall|m: int| 0 <= m < k ==> (#[trigger] cells@[m])@ == source@.cells[rows@[m] as int],
                decreases rows.len() - k,
            {
                cells.push(source.cells[rows[k]].duplicate());
                k += 1;
            }
            proof {
                assert(cell_views(cells@) =~= target[c as int].cells);
                assert(column_wf(target[c as int]));
            }
            let column = Column { name: source.name.clone(), dtype: source.dtype, cells };
            assert(column@ == target[c as int]);
            columns.push(column);
            c += 1;
        }
        assert(column_views(columns@) =~= target);
        Table { columns }
    }
}

/// A condition on one row of a table.
#[derive(Debug, PartialEq)]
pub enum Predicate {
    /// The cell of the named column is not null and holds this value.
    Equals(String, Cell),
    /// The cell of the named column holds a value of the same type that
    /// comes before this one in the natural order of the type: see
    /// [`value_before`]. A null cell does not.
    LessThan(String, Cell),
    /// The cell of the named column holds a value of the same type that
    /// comes after this one in the natural order of the type. A null cell
    /// does not.
    GreaterThan(String, Cell),
    /// The cell of the named column is null.
    IsNull(String),
    /// The condition does not hold.
    Not(Box<Predicate>),
    /// Both conditions hold.
    And(Box<Predicate>, Box<Predicate>),
    /// One of the conditions holds.
    Or(Box<Predicate>, Box<Predicate>),
}

/// Every column that the predicate names is in the table.
pub open spec fn predicate_applies(p: Predicate, t: Seq<ColumnView>) -> bool
    decreases p,
{
    match p {
        Predicate::Equals(name, _) => has_column(t, name@),
        Predicate::LessThan(name, _) => has_column(t, name@),
        Predicate::GreaterThan(name, _) => has_column(t, name@),
        Predicate::IsNull(name) => has_column(t, name@),
        Predicate::Not(q) => predicate_applies(*q, t),
        Predicate::And(a, b) => predicate_applies(*a, t) && predicate_applies(*b, t),
        Predicate::Or(a, b) => predicate_applies(*a, t) && predicate_applies(*b, t),
    }
}

/// Whether the predicate holds of the given row.
pub open spec fn predicate_holds(p: Predicate, t: Seq<ColumnView>, row: int) -> bool
    decreases p,
{
    match p {
        Predicate::Equals(name, value) => !(value@ is Null) && column_named(t, name@).cells[row] == value@,
        Predicate::LessThan(name, value) => value_before(column_named(t, name@).cells[row], value@),
        Predicate::GreaterThan(name, value) => value_before(value@, column_named(t, name@).cells[row]),
        Predicate::IsNull(name) => column_named(t, name@).cells[row] is Null,
        Predicate::Not(q) => !predicate_holds(*q, t, row),
        Predicate::And(a, b) => predicate_holds(*a, t, row) && predicate_holds(*b, t, row),
        Predicate::Or(a, b) => predicate_holds(*a, t, row) || predicate_holds(*b, t, row),
    }
}

impl Predicate {
    /// Whether the table has every column that the predicate names.
    pub fn applies(&self, table: &Table) -> (r: bool)
        ensures
            r == predicate_applies(*self, table@),
        decreases self,
    {
        match self {
            Predicate::Equals(name, _) => table.find_column(name.as_str()).is_some(),
            Predicate::LessThan(name, _) => table.find_column(name.as_str()).is_some(),
            Predicate::GreaterThan(name, _) => table.find_column(name.as_str()).is_some(),
            Predicate::IsNull(name) => table.find_column(name.as_str()).is_some(),
            Predicate::Not(q) => q.applies(table),
            Predicate::And(a, b) => a.applies(table) && b.applies(table),
            Predicate::Or(a, b) => a.applies(table) && b.applies(table),
        }
    }

    /// Whether the predicate holds of the given row.
    pub(crate) fn holds(&self, table: &Table, row: usize) -> (r: bool)
        requires
            predicate_applies(*self, table@),
            row < table_height(table@),
        ensures
            r == predicate_holds(*self, table@, row as int),
        decreases self,
    {
        match self {
            Predicate::Equals(name, value) => {
                match table.find_column(name.as_str()) {
                    Some(c) => {
                        assert(table@[c as int].cells.len() == table@[0].cells.len());
                        match value {
                            Cell::Null => false,
                            _ => table.columns[c].cells[row].same(value),
                        }
                    },
                    None => false,
                }
            },
            Predicate::LessThan(name, value) => {
                match table.find_column(name.as_str()) {
                    Some(c) => {
                        assert(table@[c as int].cells.len() == table@[0].cells.len());
                        table.columns[c].cells[row].precedes(value)
                    },
                    None => false,
                }
            },
            Predicate::GreaterThan(name, value) => {
                match table.find_column(name.as_str()) {
                    Some(c) => {
                        assert(table@[c as int].cells.len() == table@[0].cells.len());
                        value.precedes(&table.columns[c].cells[row])
                    },
                    None => false,
                }
            },
            Predicate::IsNull(name) => {
                match table.find_column(name.as_str()) {
                    Some(c) => {
                        assert(table@[c as int].cells.len() == table@[0].cells.len());
                        match table.columns[c].cells[row] {
                            Cell::Null => true,
                            _ => false,
                        }
                    },
                    None => false,
                }
            },
            Predicate::Not(q) => !q.holds(table, row),
            Predicate::And(a, b) => a.holds(table, row) && b.holds(table, row),
            Predicate::Or(a, b) => a.holds(table, row) || b.holds(table, row),
        }
    }
}

/// The table after the optional filter: all rows without one, else the rows
/// of which the predicate holds, in their order.
pub open spec fn filtered(t: Seq<ColumnView>, filter: Option<Predicate>) -> Seq<ColumnView> {
    match filter {
        None => t,
        Some(p) => with_rows(t, rows_where(|row: int| predicate_holds(p, t, row), table_height(t))),
    }
}

/// Whether the optional filter can be applied to the table.
pub open spec fn filter_applies(t: Seq<ColumnView>, filter: Option<Predicate>) -> bool {
    match filter {
        None => true,
        Some(p) => predicate_applies(p, t),
    }
}

impl Table {
    /// The rows of which the predicate holds, in their order.
    pub fn filter(&self, predicate: &Predicate) -> (r: Option<Table>)
        ensures
            match r {
                Some(t) => predicate_applies(*predicate, self@) && t@ == filtered(self@, Some(*predicate)),
                None => !predicate_applies(*predicate, self@),
            },
    {
        if !predicate.applies(self) {
            return None;
        }
        let height = self.height();
        let ghost keep = |row: int| predicate_holds(*predicate, self@, row);
        let mut rows: Vec<usize> = Vec::new();
        let mut i: usize = 0;
        while i < height
            invariant
                i <= height,
                height == table_height(self@),
                predicate_applies(*predicate, self@),
                keep == (|row: int| predicate_holds(*predicate, self@, row)),
                row_numbers(rows@) == rows_where(keep, i as nat),
                forall|k: int| 0 <= k < rows@.len() ==> (#[trigger] rows@[k]) < height,
            decreases height - i,
        {
            let ghost before = row_numbers(rows@);
            if predicate.holds(self, i) {
                rows.push(i);
                assert(row_numbers(rows@) =~= before.push(i as int));
            }
            assert(keep(i as int) == predicate_holds(*predicate, self@, i as int));
            i += 1;
        }
        Some(self.pick_rows(&rows))
    }
}


/// The requested names, as character sequences.
pub open spec fn wanted_names(names: Seq<&str>) -> Seq<Seq<char>> {
    Seq::new(names.len(), |k: int| names[k]@)
}

/// Every requested name is a column of the table, and none is asked for
/// twice.
pub open spec fn selectable(t: Seq<ColumnView>, names: Seq<Seq<char>>) -> bool {
    &&& forall|k: int| 0 <= k < names.len() ==> has_column(t, #[trigger] names[k])
    &&& forall|k: int, m: int| 0 <= k < m < names.len() ==> #[trigger] names[k] != #[trigger] names[m]
}

/// The requested columns, in the order requested.
pub open spec fn selected(t: Seq<ColumnView>, names: Seq<Seq<char>>) -> Seq<ColumnView> {
    Seq::new(names.len(), |k: int| column_named(t, names[k]))
}

impl Table {
    /// The requested columns, in the order requested; `None` if a name is
    /// no column of the table or is asked for twice.
    pub fn select(&self, names: &Vec<&str>) -> (r: Option<Table>)
        ensures
            match r {
                Some(t) => selectable(self@, wanted_names(names@)) && t@ == selected(
                    self@,
                    wanted_names(names@),
                ),
                None => !selectable(self@, wanted_names(names@)),
            },
    {
        proof {
            use_type_invariant(self);
        }
        let ghost wanted = wanted_names(names@);
        let ghost target = selected(self@, wanted);
        let mut positions: Vec<usize> = Vec::new();
        let mut columns: Vec<Column> = Vec::new();
        let mut k: usize = 0;
        while k < names.len()
            invariant
                k <= names.len(),
                table_wf(self@),
                wanted == wanted_names(names@),
                target == selected(self@, wanted),
                positions@.len() == k,
                columns@.len() == k,
                forall|m: int| 0 <= m < k ==> has_column(self@, #[trigger] wanted[m]),
                forall|m: int|
                    0 <= m < k ==> (#[trigger] positions@[m]) < self@.len() && positions@[m]
                        == column_position(self@, wanted[m]),
                forall|m: int, j: int| 0 <= m < j < k ==> #[trigger] wanted[m] != #[trigger] wanted[j],
                forall|m: int| 0 <= m < k ==> (#[trigger] columns@[m])@ == target[m],
            decreases names.len() - k,
        {
            match self.find_column(names[k]) {
                Some(p) => {
                    let mut m: usize = 0;
                    while m < k
                        invariant
                            m <= k,
                            k < names.len(),
                            positions@.len() == k,
                            wanted == wanted_names(names@),
                            table_wf(self@),
                            p < self@.len(),
                            self@[p as int].name == wanted[k as int],
                            forall|j: int|
                                0 <= j < k ==> (#[trigger] positions@[j]) < self@.len() && positions@[j]
                                    == column_position(self@, wanted[j]),
                            forall|j: int| 0 <= j < k ==> has_column(self@, #[trigger] wanted[j]),
                            forall|j: int| 0 <= j < m ==> #[trigger] wanted[j] != wanted[k as int],
                        decreases k - m,
                    {
                        if positions[m] == p {
                            proof {
                                let q = column_position(self@, wanted[m as int]);
                                assert(has_column(self@, wanted[m as int]));
                                assert(self@[q].name == wanted[m as int]);
                                assert(wanted[m as int] == wanted[k as int]);
                            }
                            return None;
                        }
                        proof {
                            let q = column_position(self@, wanted[m as int]);
                            assert(has_column(self@, wanted[m as int]));
                            assert(self@[q].name == wanted[m as int]);
                            if wanted[m as int] == wanted[k as int] {
                                lemma_column_position(self@, p as int);
                                lemma_column_position(self@, q);
                            }
                        }
                        m += 1;
                    }
                    positions.push(p);
                    columns.push(self.columns[p].duplicate());
                },
                None => {
                    assert(!has_column(self@, wanted[k as int]));
                    return None;
                },
            }
            k += 1;
        }
        proof {
            assert(column_views(columns@) =~= target);
            assert forall|c: int| 0 <= c < target.len() implies column_wf(#[trigger] target[c])
                && target[c].cells.len() == target[0].cells.len() by {
                assert(has_column(self@, wanted[c]));
                assert(has_column(self@, wanted[0]));
                let q = column_position(self@, wanted[c]);
                let z = column_position(self@, wanted[0]);
                assert(column_wf(self@[q]));
                assert(self@[q].cells.len() == self@[0].cells.len());
                assert(self@[z].cells.len() == self@[0].cells.len());
            }
            assert forall|i: int, j: int| 0 <= i < j < target.len() implies (#[trigger] target[i]).name != (
            #[trigger] target[j]).name by {
                assert(has_column(self@, wanted[i]));
                assert(has_column(self@, wanted[j]));
                assert(wanted[i] != wanted[j]);
            }
        }
        Some(Table { columns })
    }
}

/// Applies the filter, if there is one, and then keeps the requested
/// columns, in the order requested.
///
/// Fails with `PolarsError` if the filter names a column that the table
/// lacks; else with `OtherError` if a requested column is missing or asked
/// for twice.
pub fn filter_and_extract(df: Table, filter: Option<Predicate>, select_cols: Vec<&str>) -> (r: Result<
    Table,
    GlobleError,
>)
    ensures
        match r {
            Ok(t) => {
                &&& filter_applies(df@, filter)
                &&& selectable(filtered(df@, filter), wanted_names(select_cols@))
                &&& t@ == selected(filtered(df@, filter), wanted_names(select_cols@))
            },
            Err(e) => if !filter_applies(df@, filter) {
                e@ == crate::error::ErrorView::PolarsError("the filter names a column that is not there"@)
            } else {
                &&& !selectable(filtered(df@, filter), wanted_names(select_cols@))
                &&& e@ == crate::error::ErrorView::OtherError(
                    "Error while filtering and extracting: column not found or named twice"@,
                )
            },
        },
{
    let rows = match &filter {
        Some(p) => {
            match df.filter(p) {
                Some(t) => t,
                None => {
                    return Err(
                        GlobleError::PolarsError(
                            String::from_str("the filter names a column that is not there"),
                        ),
                    );
                },
            }
        },
        None => df,
    };
    match rows.select(&select_cols) {
        Some(t) => Ok(t),
        None => Err(
            GlobleError::OtherError(
                String::from_str("Error while filtering and extracting: column not found or named twice"),
            ),
        ),
    }
}

/// The non-null values of one column.
#[derive(Debug, PartialEq)]
pub enum ColumnValues {
    Bool(Vec<bool>),
    F64(Vec<u64>),
    I64(Vec<i64>),
    String(Vec<String>),
}

impl ColumnValues {
    /// The type of the values.
    pub open spec fn dtype(self) -> ColumnType {
        match self {
            ColumnValues::Bool(_) => ColumnType::Bool,
            ColumnValues::F64(_) => ColumnType::F64,
            ColumnValues::I64(_) => ColumnType::I64,
            ColumnValues::String(_) => ColumnType::String,
        }
    }

    /// The values as cells.
    pub open spec fn cells(self) -> Seq<CellView> {
        match self {
            ColumnValues::Bool(v) => Seq::new(v@.len(), |i: int| CellView::Bool(v@[i])),
            ColumnValues::F64(v) => Seq::new(v@.len(), |i: int| CellView::F64(v@[i])),
            ColumnValues::I64(v) => Seq::new(v@.len(), |i: int| CellView::I64(v@[i])),
            ColumnValues::String(v) => Seq::new(v@.len(), |i: int| CellView::String(v@[i]@)),
        }
    }
}

/// The first non-null value of one column, if it has one.
#[derive(Debug, PartialEq)]
pub enum ColumnValue {
    Bool(Option<bool>),
    F64(Option<u64>),
    I64(Option<i64>),
    String(Option<String>),
}

impl ColumnValue {
    /// The type of the value.
    pub open spec fn dtype(self) -> ColumnType {
        match self {
            ColumnValue::Bool(_) => ColumnType::Bool,
            ColumnValue::F64(_) => ColumnType::F64,
            ColumnValue::I64(_) => ColumnType::I64,
            ColumnValue::String(_) => ColumnType::String,
        }
    }

    /// The value as a cell, null when there is none.
    pub open spec fn cell(self) -> CellView {
        match self {
            ColumnValue::Bool(Some(b)) => CellView::Bool(b),
            ColumnValue::F64(Some(bits)) => CellView::F64(bits),
            ColumnValue::I64(Some(i)) => CellView::I64(i),
            ColumnValue::String(Some(s)) => CellView::String(s@),
            _ => CellView::Null,
        }
    }
}

/// The cells that are not null, in their order.
pub open spec fn present(cells: Seq<CellView>) -> Seq<CellView> {
    take_rows(cells, rows_where(|row: int| !(cells[row] is Null), cells.len()))
}

/// Whether the values of the column `name` can be read as `col_type`.
pub open spec fn readable(t: Seq<ColumnView>, name: Seq<char>, col_type: ColumnType) -> bool {
    has_column(t, name) && column_named(t, name).dtype == col_type
}

impl Column {
    /// The rows whose cell is not null, in rising order.
    fn present_rows(&self) -> (rows: Vec<usize>)
        ensures
            row_numbers(rows@) == rows_where(|row: int| !(self@.cells[row] is Null), self@.cells.len()),
            forall|k: int|
                0 <= k < rows@.len() ==> (#[trigger] rows@[k]) < self@.cells.len() && !(
                self@.cells[rows@[k] as int] is Null),
    {
        let ghost keep = |row: int| !(self@.cells[row] is Null);
        let mut rows: Vec<usize> = Vec::new();
        let mut i: usize = 0;
        while i < self.cells.len()
            invariant
                i <= self.cells.len(),
                keep == (|row: int| !(self@.cells[row] is Null)),
                row_numbers(rows@) == rows_where(keep, i as nat),
                forall|k: int|
                    0 <= k < rows@.len() ==> (#[trigger] rows@[k]) < i && !(
                    self@.cells[rows@[k] as int] is Null),
            decreases self.cells.len() - i,
        {
            let ghost before = row_numbers(rows@);
            let is_null = match self.cells[i] {
                Cell::Null => true,
                _ => false,
            };
            assert(is_null == (self@.cells[i as int] is Null));
            if !is_null {
                rows.push(i);
                assert(row_numbers(rows@) =~= before.push(i as int));
            }
            i += 1;
        }
        rows
    }

    /// The non-null values of the column.
    pub fn values(&self) -> (r: ColumnValues)
        ensures
            r.dtype() == self@.dtype,
            r.cells() == present(self@.cells),
    {
        proof {
            use_type_invariant(self);
        }
        let rows = self.present_rows();
        let ghost target = present(self@.cells);
        assert(target.len() == rows@.len());
        assert forall|k: int| 0 <= k < rows@.len() implies #[trigger] target[k] == self@.cells[rows@[k] as int] by {
            assert(row_numbers(rows@)[k] == rows@[k] as int);
        }
        match self.dtype {
            ColumnType::Bool => {
                let mut out: Vec<bool> = Vec::new();
                let mut k: usize = 0;
                while k < rows.len()
                    invariant
                        k <= rows.len(),
                        column_wf(self@),
                        self@.dtype == ColumnType::Bool,
                        target.len() == rows@.len(),
                        forall|m: int|
                            0 <= m < rows@.len() ==> (#[trigger] rows@[m]) < self@.cells.len() && !(
                            self@.cells[rows@[m] as int] is Null),
                        forall|m: int| 0 <= m < rows@.len() ==> #[trigger] target[m] == self@.cells[rows@[m] as int],
                        out@.len() == k,
                        forall|m: int| 0 <= m < k ==> CellView::Bool(#[trigger] out@[m]) == target[m],
                    decreases rows.len() - k,
                {
                    assert(cell_fits(self@.cells[rows@[k as int] as int], self@.dtype));
                    assert(target[k as int] == self@.cells[rows@[k as int] as int]);
                    match &self.cells[rows[k]] {
                        Cell::Bool(b) => out.push(*b),
                        _ => {
                            assert(false);
                        },
                    }
                    k += 1;
                }
                let r = ColumnValues::Bool(out);
                assert(r.cells() =~= target);
                r
            },
            ColumnType::F64 => {
                let mut out: Vec<u64> = Vec::new();
                let mut k: usize = 0;
                while k < rows.len()
                    invariant
                        k <= rows.len(),
                        column_wf(self@),
                        self@.dtype == ColumnType::F64,
                        target.len() == rows@.len(),
                        forall|m: int|
                            0 <= m < rows@.len() ==> (#[trigger] rows@[m]) < self@.cells.len() && !(
                            self@.cells[rows@[m] as int] is Null),
                        forall|m: int| 0 <= m < rows@.len() ==> #[trigger] target[m] == self@.cells[rows@[m] as int],
                        out@.len() == k,
                        forall|m: int| 0 <= m < k ==> CellView::F64(#[trigger] out@[m]) == target[m],
                    decreases rows.len() - k,
                {
                    assert(cell_fits(self@.cells[rows@[k as int] as int], self@.dtype));
                    assert(target[k as int] == self@.cells[rows@[k as int] as int]);
                    match &self.cells[rows[k]] {
                        Cell::F64(bits) => out.push(*bits),
                        _ => {
                            assert(false);
                        },
                    }
                    k += 1;
                }
                let r = ColumnValues::F64(out);
                assert(r.cells() =~= target);
                r
            },
            ColumnType::I64 => {
                let mut out: Vec<i64> = Vec::new();
                let mut k: usize = 0;
                while k < rows.len()
                    invariant
                        k <= rows.len(),
                        column_wf(self@),
                        self@.dtype == ColumnType::I64,
                        target.len() == rows@.len(),
                        forall|m: int|
                            0 <= m < rows@.len() ==> (#[trigger] rows@[m]) < self@.cells.len() && !(
                            self@.cells[rows@[m] as int] is Null),
                        forall|m: int| 0 <= m < rows@.len() ==> #[trigger] target[m] == self@.cells[rows@[m] as int],
                        out@.len() == k,
                        forall|m: int| 0 <= m < k ==> CellView::I64(#[trigger] out@[m]) == target[m],
                    decreases rows.len() - k,
                {
                    assert(cell_fits(self@.cells[rows@[k as int] as int], self@.dtype));
                    assert(target[k as int] == self@.cells[rows@[k as int] as int]);
                    match &self.cells[rows[k]] {
                        Cell::I64(i) => out.push(*i),
                        _ => {
                            assert(false);
                        },
                    }
                    k += 1;
                }
                let r = ColumnValues::I64(out);
                assert(r.cells() =~= target);
                r
            },
            ColumnType::String => {
                let mut out: Vec<String> = Vec::new();
                let mut k: usize = 0;
                while k < rows.len()
                    invariant
                        k <= rows.len(),
                        column_wf(self@),
                        self@.dtype == ColumnType::String,
                        target.len() == rows@.len(),
                        forall|m: int|
                            0 <= m < rows@.len() ==> (#[trigger] rows@[m]) < self@.cells.len() && !(
                            self@.cells[rows@[m] as int] is Null),
                        forall|m: int| 0 <= m < rows@.len() ==> #[trigger] target[m] == self@.cells[rows@[m] as int],
                        out@.len() == k,
                        forall|m: int| 0 <= m < k ==> CellView::String((#[trigger] out@[m])@) == target[m],
                    decreases rows.len() - k,
                {
                    assert(cell_fits(self@.cells[rows@[k as int] as int], self@.dtype));
                    assert(target[k as int] == self@.cells[rows@[k as int] as int]);
                    match &self.cells[rows[k]] {
                        Cell::String(s) => out.push(s.clone()),
                        _ => {
                            assert(false);
                        },
                    }
                    k += 1;
                }
                let r = ColumnValues::String(out);
                assert(r.cells() =~= target);
                r
            },
        }
    }
}

/// Applies the filter, if there is one, and then reads the non-null values
/// of one column as the given type, in row order.
///
/// Fails with `PolarsError`: if the filter names a column that the table
/// lacks; else if the column is missing; else if it has another type.
pub fn get_column_values(df: Table, filter: Option<Predicate>, column: &str, col_type: ColumnType) -> (r:
    Result<ColumnValues, GlobleError>)
    ensures
        match r {
            Ok(values) => {
                &&& filter_applies(df@, filter)
                &&& readable(filtered(df@, filter), column@, col_type)
                &&& values.dtype() == col_type
                &&& values.cells() == present(column_named(filtered(df@, filter), column@).cells)
            },
            Err(e) => if !filter_applies(df@, filter) {
                e@ == crate::error::ErrorView::PolarsError("the filter names a column that is not there"@)
            } else if !has_column(filtered(df@, filter), column@) {
                e@ == crate::error::ErrorView::PolarsError("column not found"@)
            } else {
                &&& column_named(filtered(df@, filter), column@).dtype != col_type
                &&& e@ == crate::error::ErrorView::PolarsError("column has another type"@)
            },
        },
{
    let rows = match &filter {
        Some(p) => {
            match df.filter(p) {
                Some(t) => t,
                None => {
                    return Err(
                        GlobleError::PolarsError(
                            String::from_str("the filter names a column that is not there"),
                        ),
                    );
                },
            }
        },
        None => df,
    };
    match rows.column(column) {
        Some(found) => {
            if found.dtype() == col_type {
                Ok(found.values())
            } else {
                Err(GlobleError::PolarsError(String::from_str("column has another type")))
            }
        },
        None => Err(GlobleError::PolarsError(String::from_str("column not found"))),
    }
}

/// The first cell, or null when there is none.
pub open spec fn first_or_null(cells: Seq<CellView>) -> CellView {
    if cells.len() > 0 {
        cells[0]
    } else {
        CellView::Null
    }
}

/// Applies the filter, if there is one, and then reads the first non-null
/// value of one column as the given type; the value is absent when the
/// column has no non-null cell. Fails as [`get_column_values`] does.
pub fn get_column_value(df: Table, filter: Option<Predicate>, column: &str, col_type: ColumnType) -> (r:
    Result<ColumnValue, GlobleError>)
    ensures
        match r {
            Ok(value) => {
                &&& filter_applies(df@, filter)
                &&& readable(filtered(df@, filter), column@, col_type)
                &&& value.dtype() == col_type
                &&& value.cell() == first_or_null(present(column_named(filtered(df@, filter), column@).cells))
            },
            Err(e) => if !filter_applies(df@, filter) {
                e@ == crate::error::ErrorView::PolarsError("the filter names a column that is not there"@)
            } else if !has_column(filtered(df@, filter), column@) {
                e@ == crate::error::ErrorView::PolarsError("column not found"@)
            } else {
                &&& column_named(filtered(df@, filter), column@).dtype != col_type
                &&& e@ == crate::error::ErrorView::PolarsError("column has another type"@)
            },
        },
{
    match get_column_values(df, filter, column, col_type) {
        Ok(ColumnValues::Bool(v)) => {
            let value = if v.len() > 0 {
                Some(v[0])
            } else {
                None
            };
            Ok(ColumnValue::Bool(value))
        },
        Ok(ColumnValues::F64(v)) => {
            let value = if v.len() > 0 {
                Some(v[0])
            } else {
                None
            };
            Ok(ColumnValue::F64(value))
        },
        Ok(ColumnValues::I64(v)) => {
            let value = if v.len() > 0 {
                Some(v[0])
            } else {
                None
            };
            Ok(ColumnValue::I64(value))
        },
        Ok(ColumnValues::String(v)) => {
            let value = if v.len() > 0 {
                Some(v[0].clone())
            } else {
                None
            };
            Ok(ColumnValue::String(value))
        },
        Err(e) => Err(e),
    }
}


/// `x` and `y` agree below `p`, and at `p` either `x` ends while `y` goes
/// on, or `x` has the smaller byte.
pub open spec fn parts_at(x: Seq<u8>, y: Seq<u8>, p: int) -> bool {
    &&& 0 <= p <= x.len()
    &&& p <= y.len()
    &&& forall|q: int| 0 <= q < p ==> x[q] == y[q]
    &&& (p == x.len() && p < y.len()) || (p < x.len() && p < y.len() && x[p] < y[p])
}

/// Lexicographic order of byte strings, which is how texts are ordered by
/// their UTF-8 encoding.
pub open spec fn bytes_before(x: Seq<u8>, y: Seq<u8>) -> bool {
    exists|p: int| parts_at(x, y, p)
}

/// The key by which reals are ordered: negative before positive, the
/// larger magnitude further out.
pub open spec fn real_key(bits: u64) -> u64 {
    if bits >= 0x8000_0000_0000_0000u64 {
        !bits
    } else {
        (bits + 0x8000_0000_0000_0000u64) as u64
    }
}

/// The natural order of two non-null values of one type: false before
/// true, integers by size, reals by [`real_key`], texts by their bytes.
/// Values of different types are not ordered.
pub open spec fn value_before(a: CellView, b: CellView) -> bool {
    match (a, b) {
        (CellView::Bool(x), CellView::Bool(y)) => !x && y,
        (CellView::I64(x), CellView::I64(y)) => x < y,
        (CellView::F64(x), CellView::F64(y)) => real_key(x) < real_key(y),
        (CellView::String(x), CellView::String(y)) => bytes_before(
            vstd::utf8::encode_utf8(x),
            vstd::utf8::encode_utf8(y),
        ),
        _ => false,
    }
}

/// Whether `a` has to stand after `b` in the sorted table: a null after
/// every value, a value after the values that precede it in the direction
/// of the sort.
pub open spec fn comes_after(a: CellView, b: CellView, ascending: bool) -> bool {
    if a is Null {
        !(b is Null)
    } else if b is Null {
        false
    } else if ascending {
        value_before(b, a)
    } else {
        value_before(a, b)
    }
}

/// Whether row `i` stands before row `j` in the sorted table: the earlier
/// row stays first unless it has to come after the later one.
pub open spec fn row_before(cells: Seq<CellView>, ascending: bool, i: int, j: int) -> bool {
    if i < j {
        !comes_after(cells[i], cells[j], ascending)
    } else if j < i {
        comes_after(cells[j], cells[i], ascending)
    } else {
        false
    }
}

/// `order` lists the rows of `cells`, each of them once, so that each row
/// stands before all that follow it: the stable sort of the rows by their
/// cell, nulls last.
pub open spec fn sorts(order: Seq<int>, cells: Seq<CellView>, ascending: bool) -> bool {
    &&& order.len() == cells.len()
    &&& forall|k: int| 0 <= k < order.len() ==> 0 <= #[trigger] order[k] < cells.len()
    &&& forall|r: int| 0 <= r < cells.len() ==> #[trigger] order.contains(r)
    &&& forall|k: int, m: int|
        0 <= k < m < order.len() ==> row_before(cells, ascending, #[trigger] order[k], #[trigger] order[m])
}

/// Where row `x` goes among rows that are in order already: behind the
/// last of them that does not have to stand after it.
pub open spec fn place(order: Seq<int>, x: int, cells: Seq<CellView>, ascending: bool) -> int
    decreases order.len(),
{
    if order.len() == 0 {
        0
    } else if comes_after(cells[order.last()], cells[x], ascending) {
        place(order.drop_last(), x, cells, ascending)
    } else {
        order.len() as int
    }
}

/// The first `n` rows in sorted order: each row in turn is put in its
/// place among those before it. For a well-formed column this is the one
/// order that [`sorts`] describes.
pub open spec fn stable_order(cells: Seq<CellView>, ascending: bool, n: nat) -> Seq<int>
    decreases n,
{
    if n == 0 {
        Seq::empty()
    } else {
        let before = stable_order(cells, ascending, (n - 1) as nat);
        before.insert(place(before, n - 1, cells, ascending), n - 1)
    }
}

proof fn lemma_bytes_total(x: Seq<u8>, y: Seq<u8>, p: int)
    requires
        0 <= p <= x.len(),
        p <= y.len(),
        forall|q: int| 0 <= q < p ==> x[q] == y[q],
    ensures
        x == y || bytes_before(x, y) || bytes_before(y, x),
    decreases x.len() - p,
{
    if p == x.len() {
        if p == y.len() {
            assert(x =~= y);
        } else {
            assert(parts_at(x, y, p));
        }
    } else if p == y.len() {
        assert(parts_at(y, x, p));
    } else if x[p] < y[p] {
        assert(parts_at(x, y, p));
    } else if y[p] < x[p] {
        assert(parts_at(y, x, p));
    } else {
        lemma_bytes_total(x, y, p + 1);
    }
}

proof fn lemma_bytes_transitive(x: Seq<u8>, y: Seq<u8>, z: Seq<u8>)
    requires
        bytes_before(x, y),
        bytes_before(y, z),
    ensures
        bytes_before(x, z),
{
    let p = choose|p: int| parts_at(x, y, p);
    let r = choose|r: int| parts_at(y, z, r);
    if p <= r {
        assert(parts_at(x, z, p));
    } else {
        assert(parts_at(x, z, r));
    }
}

proof fn lemma_bytes_asymmetric(x: Seq<u8>, y: Seq<u8>)
    requires
        bytes_before(x, y),
    ensures
        !bytes_before(y, x),
        x != y,
{
    let p = choose|p: int| parts_at(x, y, p);
    if bytes_before(y, x) {
        let r = choose|r: int| parts_at(y, x, r);
        if p < r {
            assert(y[p] == x[p]);
        } else if r < p {
            assert(x[r] == y[r]);
        }
    }
}

/// The natural order is a strict weak order on the values of one type.
proof fn lemma_value_order(a: CellView, b: CellView, c: CellView, dtype: ColumnType)
    requires
        cell_fits(a, dtype),
        cell_fits(b, dtype),
        cell_fits(c, dtype),
        !(a is Null),
        !(b is Null),
        !(c is Null),
    ensures
        value_before(a, b) && value_before(b, c) ==> value_before(a, c),
        !value_before(a, b) && !value_before(b, c) ==> !value_before(a, c),
{
    match (a, b, c) {
        (CellView::String(x), CellView::String(y), CellView::String(z)) => {
            let bx = vstd::utf8::encode_utf8(x);
            let by = vstd::utf8::encode_utf8(y);
            let bz = vstd::utf8::encode_utf8(z);
            if bytes_before(bx, by) && bytes_before(by, bz) {
                lemma_bytes_transitive(bx, by, bz);
            }
            if !bytes_before(bx, by) && !bytes_before(by, bz) && bytes_before(bx, bz) {
                lemma_bytes_total(bx, by, 0);
                lemma_bytes_total(by, bz, 0);
                lemma_bytes_asymmetric(bx, bz);
                if bx == by {
                } else if by == bz {
                } else {
                    // y before x and z before y, so z before x
                    lemma_bytes_transitive(bz, by, bx);
                }
            }
        },
        _ => {},
    }
}

/// Standing before is transitive among the rows of a well-formed column.
pub proof fn lemma_row_before_transitive(column: ColumnView, ascending: bool, i: int, j: int, k: int)
    requires
        column_wf(column),
        0 <= i < column.cells.len(),
        0 <= j < column.cells.len(),
        0 <= k < column.cells.len(),
        row_before(column.cells, ascending, i, j),
        row_before(column.cells, ascending, j, k),
    ensures
        row_before(column.cells, ascending, i, k),
{
    let a = column.cells[i];
    let b = column.cells[j];
    let c = column.cells[k];
    assert(cell_fits(a, column.dtype) && cell_fits(b, column.dtype) && cell_fits(c, column.dtype));
    if !(a is Null) && !(b is Null) && !(c is Null) {
        lemma_value_order(a, b, c, column.dtype);
        lemma_value_order(c, b, a, column.dtype);
        lemma_value_order(a, c, b, column.dtype);
        lemma_value_order(b, c, a, column.dtype);
        lemma_value_order(b, a, c, column.dtype);
        lemma_value_order(c, a, b, column.dtype);
    }
}

fn key_of_real(bits: u64) -> (r: u64)
    ensures
        r == real_key(bits),
{
    if bits >= 0x8000_0000_0000_0000u64 {
        !bits
    } else {
        bits + 0x8000_0000_0000_0000u64
    }
}

fn bytes_precede(x: &[u8], y: &[u8]) -> (r: bool)
    ensures
        r == bytes_before(x@, y@),
{
    let mut p: usize = 0;
    while p < x.len() && p < y.len()
        invariant
            p <= x@.len(),
            p <= y@.len(),
            forall|q: int| 0 <= q < p ==> x@[q] == y@[q],
        decreases x@.len() - p,
    {
        if x[p] != y[p] {
            if x[p] < y[p] {
                assert(parts_at(x@, y@, p as int));
                return true;
            } else {
                assert forall|r: int| !parts_at(x@, y@, r) by {
                    if r > p {
                        assert(x@[p as int] != y@[p as int]);
                    }
                }
                return false;
            }
        }
        p += 1;
    }
    if p < y.len() {
        assert(parts_at(x@, y@, p as int));
        true
    } else {
        assert forall|r: int| !parts_at(x@, y@, r) by {}
        false
    }
}

impl Cell {
    /// Whether this value precedes the other in the natural order of their
    /// type.
    pub fn precedes(&self, other: &Cell) -> (r: bool)
        ensures
            r == value_before(self@, other@),
    {
        match (self, other) {
            (Cell::Bool(x), Cell::Bool(y)) => !*x && *y,
            (Cell::I64(x), Cell::I64(y)) => *x < *y,
            (Cell::F64(x), Cell::F64(y)) => key_of_real(*x) < key_of_real(*y),
            (Cell::String(x), Cell::String(y)) => bytes_precede(x.as_str().as_bytes(), y.as_str().as_bytes()),
            _ => false,
        }
    }

    /// Whether this cell has to stand after the other in a sort of the
    /// given direction.
    pub fn sorts_after(&self, other: &Cell, ascending: bool) -> (r: bool)
        ensures
            r == comes_after(self@, other@, ascending),
    {
        match (self, other) {
            (Cell::Null, Cell::Null) => false,
            (Cell::Null, _) => true,
            (_, Cell::Null) => false,
            _ => if ascending {
                other.precedes(self)
            } else {
                self.precedes(other)
            },
        }
    }
}

/// The table with its rows sorted by the column called `name`.
pub open spec fn sorted_by(t: Seq<ColumnView>, name: Seq<char>, ascending: bool) -> Seq<ColumnView> {
    let cells = column_named(t, name).cells;
    with_rows(t, stable_order(cells, ascending, cells.len()))
}

proof fn lemma_place(order: Seq<int>, x: int, cells: Seq<CellView>, ascending: bool)
    ensures
        0 <= place(order, x, cells, ascending) <= order.len(),
        forall|m: int|
            place(order, x, cells, ascending) <= m < order.len() ==> comes_after(
                cells[#[trigger] order[m]],
                cells[x],
                ascending,
            ),
        place(order, x, cells, ascending) > 0 ==> !comes_after(
            cells[order[place(order, x, cells, ascending) - 1]],
            cells[x],
            ascending,
        ),
    decreases order.len(),
{
    if order.len() > 0 && comes_after(cells[order.last()], cells[x], ascending) {
        let rest = order.drop_last();
        lemma_place(rest, x, cells, ascending);
        assert forall|m: int| place(order, x, cells, ascending) <= m < order.len() implies comes_after(
            cells[#[trigger] order[m]],
            cells[x],
            ascending,
        ) by {
            if m < rest.len() {
                assert(order[m] == rest[m]);
            }
        }
        if place(order, x, cells, ascending) > 0 {
            assert(order[place(order, x, cells, ascending) - 1] == rest[place(rest, x, cells, ascending) - 1]);
        }
    }
}

/// The sorted order of the first `n` rows of a well-formed column lists
/// those rows, each of them once, so that each stands before all that
/// follow it.
pub proof fn lemma_stable_order(column: ColumnView, ascending: bool, n: nat)
    requires
        column_wf(column),
        n <= column.cells.len(),
    ensures
        stable_order(column.cells, ascending, n).len() == n,
        forall|k: int| 0 <= k < n ==> 0 <= #[trigger] stable_order(column.cells, ascending, n)[k] < n,
        forall|r: int| 0 <= r < n ==> #[trigger] stable_order(column.cells, ascending, n).contains(r),
        forall|a: int, b: int|
            0 <= a < b < n ==> row_before(
                column.cells,
                ascending,
                #[trigger] stable_order(column.cells, ascending, n)[a],
                #[trigger] stable_order(column.cells, ascending, n)[b],
            ),
    decreases n,
{
    if n > 0 {
        let cells = column.cells;
        let x = n - 1;
        let before = stable_order(cells, ascending, (n - 1) as nat);
        let p = place(before, x, cells, ascending);
        let now = stable_order(cells, ascending, n);
        lemma_stable_order(column, ascending, (n - 1) as nat);
        lemma_place(before, x, cells, ascending);
        assert(now == before.insert(p, x));
        assert forall|r: int| 0 <= r < n implies #[trigger] now.contains(r) by {
            if r == x {
                assert(now[p] == r);
            } else {
                assert(before.contains(r));
                let i = choose|i: int| 0 <= i < before.len() && before[i] == r;
                if i < p {
                    assert(now[i] == r);
                } else {
                    assert(now[i + 1] == r);
                }
            }
        }
        assert forall|k: int| 0 <= k < n implies 0 <= #[trigger] now[k] < n by {
            if k < p {
                assert(now[k] == before[k]);
            } else if k > p {
                assert(now[k] == before[k - 1]);
            }
        }
        assert forall|m: int| 0 <= m < p implies row_before(cells, ascending, #[trigger] before[m], x) by {
            let last = before[p - 1];
            assert(row_before(cells, ascending, last, x));
            if m < p - 1 {
                assert(row_before(cells, ascending, before[m], before[p - 1]));
                lemma_row_before_transitive(column, ascending, before[m], last, x);
            }
        }
        assert forall|a: int, b: int| 0 <= a < b < n implies row_before(
            cells,
            ascending,
            #[trigger] now[a],
            #[trigger] now[b],
        ) by {
            if b < p {
                assert(now[a] == before[a] && now[b] == before[b]);
            } else if b == p {
                assert(now[a] == before[a]);
            } else if a < p {
                assert(now[a] == before[a] && now[b] == before[b - 1]);
            } else if a == p {
                assert(now[b] == before[b - 1]);
                assert(comes_after(cells[before[b - 1]], cells[x], ascending));
            } else {
                assert(now[a] == before[a - 1] && now[b] == before[b - 1]);
            }
        }
    }
}

/// The sorted order of a well-formed column is the order that [`sorts`]
/// describes.
pub proof fn lemma_stable_order_sorts(column: ColumnView, ascending: bool)
    requires
        column_wf(column),
    ensures
        sorts(stable_order(column.cells, ascending, column.cells.len()), column.cells, ascending),
{
    lemma_stable_order(column, ascending, column.cells.len());
}

impl Column {
    /// The rows in sorted order: see [`stable_order`] and [`sorts`].
    pub fn sorted_rows(&self, ascending: bool) -> (order: Vec<usize>)
        ensures
            row_numbers(order@) == stable_order(self@.cells, ascending, self@.cells.len()),
            sorts(row_numbers(order@), self@.cells, ascending),
    {
        proof {
            use_type_invariant(self);
        }
        let n = self.cells.len();
        let mut order: Vec<usize> = Vec::new();
        let mut k: usize = 0;
        while k < n
            invariant
                k <= n,
                n == self.cells@.len(),
                n == self@.cells.len(),
                column_wf(self@),
                order@.len() == k,
                row_numbers(order@) == stable_order(self@.cells, ascending, k as nat),
            decreases n - k,
        {
            let ghost rows = row_numbers(order@);
            proof {
                lemma_stable_order(self@, ascending, k as nat);
                assert(rows.take(k as int) =~= rows);
                assert forall|m: int| 0 <= m < k implies (#[trigger] order@[m]) < k by {
                    assert(rows[m] == order@[m]);
                }
            }
            let mut p: usize = k;
            while p > 0 && self.cells[order[p - 1]].sorts_after(&self.cells[k], ascending)
                invariant
                    p <= k,
                    k < n,
                    n == self.cells@.len(),
                    n == self@.cells.len(),
                    order@.len() == k,
                    rows == row_numbers(order@),
                    forall|m: int| 0 <= m < k ==> (#[trigger] order@[m]) < k,
                    place(rows, k as int, self@.cells, ascending) == place(
                        rows.take(p as int),
                        k as int,
                        self@.cells,
                        ascending,
                    ),
                decreases p,
            {
                proof {
                    assert(rows.take(p as int).drop_last() =~= rows.take(p - 1));
                    assert(rows.take(p as int).last() == order@[p - 1] as int);
                }
                p -= 1;
            }
            proof {
                if p > 0 {
                    assert(rows.take(p as int).last() == order@[p - 1] as int);
                }
                assert(place(rows, k as int, self@.cells, ascending) == p);
            }
            order.insert(p, k);
            assert(row_numbers(order@) =~= rows.insert(p as int, k as int));
            k += 1;
        }
        proof {
            lemma_stable_order_sorts(self@, ascending);
        }
        order
    }
}

/// Sorts the rows by one column, stably: rows with equal cells keep their
/// order. Nulls come last in either direction. The rows come in the order
/// of [`stable_order`], in which each row stands before all that follow it
/// in the sense of [`row_before`].
///
/// Fails with `PolarsError` if and only if the table has no such column.
pub fn sort_dataframe(df: Table, column: &str, ascending: bool) -> (r: Result<Table, GlobleError>)
    ensures
        match r {
            Ok(t) => {
                let cells = column_named(df@, column@).cells;
                &&& has_column(df@, column@)
                &&& sorts(stable_order(cells, ascending, cells.len()), cells, ascending)
                &&& t@ == sorted_by(df@, column@, ascending)
            },
            Err(e) => !has_column(df@, column@) && e@ == crate::error::ErrorView::PolarsError(
                "column not found"@,
            ),
        },
{
    match df.column(column) {
        Some(key) => {
            proof {
                use_type_invariant(&df);
                let p = column_position(df@, column@);
                assert(df@[p].cells.len() == df@[0].cells.len());
            }
            let order = key.sorted_rows(ascending);
            proof {
                assert forall|k: int| 0 <= k < order@.len() implies (#[trigger] order@[k]) < table_height(
                    df@,
                ) by {
                    assert(row_numbers(order@)[k] == order@[k]);
                }
            }
            Ok(df.pick_rows(&order))
        },
        None => Err(GlobleError::PolarsError(String::from_str("column not found"))),
    }
}

} // verus!
