//! The tables behind the file system: the statements that operations run
//! against them, and the rows that come back.

use crate::text;
use vstd::prelude::*;

verus! {

/// A value in a row. Text and bytes are `String` and `Vec<u8>` in code, and
/// sequences in specifications.
#[derive(Debug)]
pub enum Cell<S, B> {
    Null,
    Integer(i64),
    Real,
    Text(S),
    Blob(B),
}

pub type CellView = Cell<Seq<char>, Seq<u8>>;

impl View for Cell<String, Vec<u8>> {
    type V = CellView;

    open spec fn view(&self) -> CellView {
        match self {
            Cell::Null => Cell::Null,
            Cell::Integer(i) => Cell::Integer(*i),
            Cell::Real => Cell::Real,
            Cell::Text(s) => Cell::Text(s@),
            Cell::Blob(b) => Cell::Blob(b@),
        }
    }
}

/// The rows that a statement yields.
#[derive(Debug)]
pub struct Rows {
    pub rows: Vec<Vec<Cell<String, Vec<u8>>>>,
}

pub open spec fn row_view(row: Seq<Cell<String, Vec<u8>>>) -> Seq<CellView> {
    Seq::new(row.len(), |i: int| row[i]@)
}

impl View for Rows {
    type V = Seq<Seq<CellView>>;

    open spec fn view(&self) -> Seq<Seq<CellView>> {
        Seq::new(self.rows@.len(), |i: int| row_view(self.rows@[i]@))
    }
}

/// A statement on the tables.
#[derive(Debug)]
pub enum Request<S, B> {
    /// The inode that the entry `name` of a directory points to.
    Lookup { parent: i64, name: S },
    /// All columns of an inode.
    Inode { ino: i64 },
    /// The mode of an inode.
    Mode { ino: i64 },
    /// How many entries point to an inode.
    LinkCount { ino: i64 },
    /// How many entries a directory has.
    ChildCount { ino: i64 },
    /// Adds an inode with the next free number.
    InsertInode { mode: i64, size: i64, now: i64 },
    /// Adds the root directory.
    InsertRoot { mode: i64, now: i64 },
    /// Whether an inode exists.
    InodeExists { ino: i64 },
    /// The number of the inode that was added last.
    LastRowid,
    /// Adds an entry to a directory.
    InsertEntry { name: S, parent: i64, ino: i64 },
    /// Removes an entry of a directory.
    DeleteEntry { parent: i64, name: S },
    /// Moves an entry to another directory and name.
    MoveEntry { new_parent: i64, new_name: S, parent: i64, name: S },
    /// Removes the contents of a file.
    DeleteData { ino: i64 },
    /// Removes the target of a link.
    DeleteTarget { ino: i64 },
    /// Removes an inode.
    DeleteInode { ino: i64 },
    /// Adds the contents of a file, as one block.
    InsertData { ino: i64, size: i64, data: B },
    /// Adds the target of a link.
    InsertTarget { ino: i64, target: S },
    /// Sets the size and the time of change of a file.
    UpdateSize { size: i64, mtime: i64, ino: i64 },
    /// Sets the time at which an inode was changed.
    UpdateCtime { ctime: i64, ino: i64 },
    /// The contents of a file, block by block.
    SelectData { ino: i64 },
    /// The names of the entries of a directory, in order.
    SelectNames { parent: i64 },
    /// The target of a link.
    SelectTarget { ino: i64 },
}

pub type RequestView = Request<Seq<char>, Seq<u8>>;

pub type DbRequest = Request<String, Vec<u8>>;

impl View for Request<String, Vec<u8>> {
    type V = RequestView;

    open spec fn view(&self) -> RequestView {
        match self {
            Request::Lookup { parent, name } => Request::Lookup { parent: *parent, name: name@ },
            Request::Inode { ino } => Request::Inode { ino: *ino },
            Request::Mode { ino } => Request::Mode { ino: *ino },
            Request::LinkCount { ino } => Request::LinkCount { ino: *ino },
            Request::ChildCount { ino } => Request::ChildCount { ino: *ino },
            Request::InsertInode { mode, size, now } => Request::InsertInode {
                mode: *mode,
                size: *size,
                now: *now,
            },
            Request::InsertRoot { mode, now } => Request::InsertRoot { mode: *mode, now: *now },
            Request::InodeExists { ino } => Request::InodeExists { ino: *ino },
            Request::LastRowid => Request::LastRowid,
            Request::InsertEntry { name, parent, ino } => Request::InsertEntry {
                name: name@,
                parent: *parent,
                ino: *ino,
            },
            Request::DeleteEntry { parent, name } => Request::DeleteEntry {
                parent: *parent,
                name: name@,
            },
            Request::MoveEntry { new_parent, new_name, parent, name } => Request::MoveEntry {
                new_parent: *new_parent,
                new_name: new_name@,
                parent: *parent,
                name: name@,
            },
            Request::DeleteData { ino } => Request::DeleteData { ino: *ino },
            Request::DeleteTarget { ino } => Request::DeleteTarget { ino: *ino },
            Request::DeleteInode { ino } => Request::DeleteInode { ino: *ino },
            Request::InsertData { ino, size, data } => Request::InsertData {
                ino: *ino,
                size: *size,
                data: data@,
            },
            Request::InsertTarget { ino, target } => Request::InsertTarget {
                ino: *ino,
                target: target@,
            },
            Request::UpdateSize { size, mtime, ino } => Request::UpdateSize {
                size: *size,
                mtime: *mtime,
                ino: *ino,
            },
            Request::UpdateCtime { ctime, ino } => Request::UpdateCtime {
                ctime: *ctime,
                ino: *ino,
            },
            Request::SelectData { ino } => Request::SelectData { ino: *ino },
            Request::SelectNames { parent } => Request::SelectNames { parent: *parent },
            Request::SelectTarget { ino } => Request::SelectTarget { ino: *ino },
        }
    }
}

/// The value of a row at a column; a column that is missing is null.
pub open spec fn cell(row: Seq<CellView>, i: int) -> CellView {
    if 0 <= i < row.len() {
        row[i]
    } else {
        Cell::Null
    }
}

/// The integer in a row at a column; anything else counts as zero.
pub open spec fn int_cell(row: Seq<CellView>, i: int) -> i64 {
    match cell(row, i) {
        Cell::Integer(n) => n,
        _ => 0,
    }
}

/// The integer in the first column of the first row, if there is a row.
pub open spec fn first_int(rows: Seq<Seq<CellView>>) -> Option<i64> {
    if rows.len() == 0 {
        None
    } else {
        Some(int_cell(rows[0], 0))
    }
}

/// The count in the first row; without a row it is zero.
pub open spec fn count(rows: Seq<Seq<CellView>>) -> i64 {
    match first_int(rows) {
        Some(n) => n,
        None => 0,
    }
}

/// The blobs in the first column, one after the other.
pub open spec fn blobs(rows: Seq<Seq<CellView>>) -> Seq<u8>
    decreases rows.len(),
{
    if rows.len() == 0 {
        Seq::<u8>::empty()
    } else {
        match cell(rows.last(), 0) {
            Cell::Blob(b) => blobs(rows.drop_last()) + b,
            _ => blobs(rows.drop_last()),
        }
    }
}

/// The texts in the first column that are not empty, in order.
pub open spec fn names(rows: Seq<Seq<CellView>>) -> Seq<Seq<char>>
    decreases rows.len(),
{
    if rows.len() == 0 {
        Seq::<Seq<char>>::empty()
    } else {
        match cell(rows.last(), 0) {
            Cell::Text(s) if s.len() > 0 => names(rows.drop_last()).push(s),
            _ => names(rows.drop_last()),
        }
    }
}

/// The text in the first column of the first row.
pub open spec fn first_text(rows: Seq<Seq<CellView>>) -> Option<Seq<char>> {
    if rows.len() == 0 {
        None
    } else {
        match cell(rows[0], 0) {
            Cell::Text(s) => Some(s),
            _ => None,
        }
    }
}

/// The integer in the first column of the first row, where it is one.
pub open spec fn strict_int(rows: Seq<Seq<CellView>>) -> Option<i64> {
    if rows.len() == 0 {
        None
    } else {
        match cell(rows[0], 0) {
            Cell::Integer(n) => Some(n),
            _ => None,
        }
    }
}

impl Rows {
    /// Whether there is no row.
    pub fn is_empty(&self) -> (r: bool)
        ensures
            r == (self@.len() == 0),
    {
        self.rows.len() == 0
    }

    /// The integer of the first row at a column.
    pub fn int_at(&self, column: usize) -> (r: i64)
        requires
            self@.len() > 0,
        ensures
            r == int_cell(self@[0], column as int),
    {
        let row = &self.rows[0];
        assert(self@[0] == row_view(row@));
        if column < row.len() {
            assert(self@[0][column as int] == row@[column as int]@);
            match &row[column] {
                Cell::Integer(n) => *n,
                _ => 0,
            }
        } else {
            0
        }
    }

    /// The integer in the first column of the first row.
    pub fn first_int(&self) -> (r: Option<i64>)
        ensures
            r == first_int(self@),
    {
        if self.is_empty() {
            None
        } else {
            Some(self.int_at(0))
        }
    }

    /// The count in the first row.
    pub fn count(&self) -> (r: i64)
        ensures
            r == count(self@),
    {
        match self.first_int() {
            Some(n) => n,
            None => 0,
        }
    }

    /// The integer in the first column of the first row, where it is one.
    pub fn strict_int(&self) -> (r: Option<i64>)
        ensures
            r == strict_int(self@),
    {
        if self.is_empty() {
            return None;
        }
        let row = &self.rows[0];
        assert(self@[0] == row_view(row@));
        if row.len() == 0 {
            return None;
        }
        assert(self@[0][0] == row@[0]@);
        match &row[0] {
            Cell::Integer(n) => Some(*n),
            _ => None,
        }
    }

    /// The text in the first column of the first row.
    pub fn first_text(&self) -> (r: Option<String>)
        ensures
            text::opt(r) == first_text(self@),
    {
        if self.is_empty() {
            return None;
        }
        let row = &self.rows[0];
        assert(self@[0] == row_view(row@));
        if row.len() == 0 {
            return None;
        }
        assert(self@[0][0] == row@[0]@);
        match &row[0] {
            Cell::Text(s) => Some(s.clone()),
            _ => None,
        }
    }

    /// The blobs in the first column, one after the other.
    pub fn blobs(&self) -> (r: Vec<u8>)
        ensures
            r@ == blobs(self@),
    {
        let ghost all = self@;
        let mut out: Vec<u8> = Vec::new();
        let mut i: usize = 0;
        assert(out@ =~= blobs(all.take(0)));
        while i < self.rows.len()
            invariant
                i <= self.rows@.len(),
                all == self@,
                out@ == blobs(all.take(i as int)),
            decreases self.rows@.len() - i,
        {
            let row = &self.rows[i];
            assert(all[i as int] == row_view(row@));
            assert(all.take(i + 1).drop_last() =~= all.take(i as int));
            assert(all.take(i + 1).last() == row_view(row@));
            if row.len() > 0 {
                assert(row_view(row@)[0] == row@[0]@);
                if let Cell::Blob(b) = &row[0] {
                    let ghost before = out@;
                    out.extend_from_slice(b.as_slice());
                    assert(out@ =~= before + b@);
                }
            }
            i = i + 1;
        }
        assert(all.take(i as int) =~= all);
        out
    }

    /// The texts in the first column that are not empty, in order.
    pub fn names(&self) -> (r: Vec<String>)
        ensures
            text::views(r@) == names(self@),
    {
        let ghost all = self@;
        let mut out: Vec<String> = Vec::new();
        let mut i: usize = 0;
        assert(text::views(out@) =~= names(all.take(0)));
        while i < self.rows.len()
            invariant
                i <= self.rows@.len(),
                all == self@,
                text::views(out@) == names(all.take(i as int)),
            decreases self.rows@.len() - i,
        {
            let row = &self.rows[i];
            assert(all[i as int] == row_view(row@));
            assert(all.take(i + 1).drop_last() =~= all.take(i as int));
            assert(all.take(i + 1).last() == row_view(row@));
            if row.len() > 0 {
                assert(row_view(row@)[0] == row@[0]@);
                if let Cell::Text(s) = &row[0] {
                    if !s.as_str().is_empty() {
                        let ghost before = text::views(out@);
                        out.push(s.clone());
                        assert(text::views(out@) =~= before.push(s@));
                    }
                }
            }
            i = i + 1;
        }
        assert(all.take(i as int) =~= all);
        out
    }
}

} // verus!
