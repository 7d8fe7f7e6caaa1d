//! A table of rows kept in ascending order of their ids, with ids handed
//! out in increasing order and never reused.
use vstd::prelude::*;

use crate::records::Record;

verus! {

/// The contents of a table: its rows, and the largest id it ever handed out.
pub struct TableModel<T> {
    pub rows: Seq<T>,
    pub last_id: int,
}

impl<T: Record> TableModel<T> {
    pub open spec fn empty() -> Self {
        TableModel { rows: Seq::empty(), last_id: 0 }
    }

    /// Ids rise strictly along the rows, are positive, and none exceeds the
    /// last id handed out.
    pub open spec fn wf(self) -> bool {
        &&& 0 <= self.last_id <= i64::MAX
        &&& forall|i: int, j: int|
            0 <= i < j < self.rows.len() ==> #[trigger] self.rows[i].key() < #[trigger] self.rows[j].key()
        &&& forall|i: int| 0 <= i < self.rows.len() ==> 0 < #[trigger] self.rows[i].key() <= self.last_id
    }

    pub open spec fn has(self, id: i64) -> bool {
        exists|i: int| 0 <= i < self.rows.len() && #[trigger] self.rows[i].key() == id
    }

    pub open spec fn index_of(self, id: i64) -> int {
        choose|i: int| 0 <= i < self.rows.len() && #[trigger] self.rows[i].key() == id
    }

    /// The row with the given id, if there is one.
    pub open spec fn lookup(self, id: i64) -> Option<T> {
        if self.has(id) {
            Some(self.rows[self.index_of(id)])
        } else {
            None
        }
    }

    /// The id that the next insert receives, unless the ids are spent.
    pub open spec fn next_id(self) -> Option<i64> {
        if self.last_id < i64::MAX {
            Some((self.last_id + 1) as i64)
        } else {
            None
        }
    }

    pub open spec fn inserted(self, row: T) -> Self {
        TableModel { rows: self.rows.push(row), last_id: row.key() as int }
    }

    /// The row with `row`'s id replaced by `row`, in its place.
    pub open spec fn replaced(self, row: T) -> Self {
        TableModel { rows: self.rows.update(self.index_of(row.key()), row), last_id: self.last_id }
    }

    pub open spec fn removed(self, id: i64) -> Self {
        TableModel { rows: self.rows.remove(self.index_of(id)), last_id: self.last_id }
    }
}

pub proof fn lemma_index_of<T: Record>(t: TableModel<T>, id: i64)
    requires
        t.wf(),
        t.has(id),
    ensures
        0 <= t.index_of(id) < t.rows.len(),
        t.rows[t.index_of(id)].key() == id,
        forall|i: int| 0 <= i < t.rows.len() && #[trigger] t.rows[i].key() == id ==> i == t.index_of(id),
{
    let k = t.index_of(id);
    assert forall|i: int| 0 <= i < t.rows.len() && #[trigger] t.rows[i].key() == id implies i == k by {
        if i < k {
            assert(t.rows[i].key() < t.rows[k].key());
        } else if k < i {
            assert(t.rows[k].key() < t.rows[i].key());
        }
    }
}

/// Inserting a row with the next id keeps the table well formed, and the
/// new row is found under its id, which was unused before.
pub proof fn lemma_inserted<T: Record>(t: TableModel<T>, row: T)
    requires
        t.wf(),
        t.next_id() == Some(row.key()),
    ensures
        t.inserted(row).wf(),
        !t.has(row.key()),
        t.inserted(row).lookup(row.key()) == Some(row),
        forall|x: i64| #[trigger] t.inserted(row).has(x) <==> (t.has(x) || x == row.key()),
{
    let u = t.inserted(row);
    let n = t.rows.len() as int;
    assert(u.rows[n] == row);
    assert forall|x: i64| #[trigger] u.has(x) <==> (t.has(x) || x == row.key()) by {
        if t.has(x) {
            let i = choose|i: int| 0 <= i < t.rows.len() && #[trigger] t.rows[i].key() == x;
            assert(u.rows[i] == t.rows[i]);
        }
        if u.has(x) && x != row.key() {
            let i = choose|i: int| 0 <= i < u.rows.len() && #[trigger] u.rows[i].key() == x;
            assert(u.rows[i] == t.rows[i]);
        }
    }
    lemma_index_of(u, row.key());
}

/// Replacing a row keeps the table well formed and its set of ids, and the
/// new row is found under its id.
pub proof fn lemma_replaced<T: Record>(t: TableModel<T>, row: T)
    requires
        t.wf(),
        t.has(row.key()),
    ensures
        t.replaced(row).wf(),
        t.replaced(row).lookup(row.key()) == Some(row),
        forall|x: i64| #[trigger] t.replaced(row).has(x) <==> t.has(x),
{
    let u = t.replaced(row);
    let k = t.index_of(row.key());
    lemma_index_of(t, row.key());
    assert forall|i: int| 0 <= i < u.rows.len() implies #[trigger] u.rows[i].key() == t.rows[i].key() by {
    }
    assert forall|x: i64| #[trigger] u.has(x) <==> t.has(x) by {
        if t.has(x) {
            let i = choose|i: int| 0 <= i < t.rows.len() && #[trigger] t.rows[i].key() == x;
            assert(u.rows[i].key() == x);
        }
        if u.has(x) {
            let i = choose|i: int| 0 <= i < u.rows.len() && #[trigger] u.rows[i].key() == x;
            assert(t.rows[i].key() == x);
        }
    }
    assert(u.rows[k] == row);
    lemma_index_of(u, row.key());
}

/// Removing a row keeps the table well formed; afterwards its id is absent
/// and every other id is present exactly when it was before.
pub proof fn lemma_removed<T: Record>(t: TableModel<T>, id: i64)
    requires
        t.wf(),
        t.has(id),
    ensures
        t.removed(id).wf(),
        t.removed(id).lookup(id) is None,
        forall|x: i64| #[trigger] t.removed(id).has(x) <==> (t.has(x) && x != id),
{
    let u = t.removed(id);
    let k = t.index_of(id);
    lemma_index_of(t, id);
    t.rows.remove_ensures(k);
    assert forall|i: int| 0 <= i < u.rows.len() implies #[trigger] u.rows[i] == t.rows[if i < k { i } else { i + 1 }] by {
    }
    assert forall|i: int, j: int| 0 <= i < j < u.rows.len() implies #[trigger] u.rows[i].key() < #[trigger] u.rows[j].key() by {
        let a = if i < k { i } else { i + 1 };
        let b = if j < k { j } else { j + 1 };
        assert(u.rows[i] == t.rows[a]);
        assert(u.rows[j] == t.rows[b]);
        assert(t.rows[a].key() < t.rows[b].key());
    }
    assert forall|i: int| 0 <= i < u.rows.len() implies 0 < #[trigger] u.rows[i].key() <= u.last_id by {
        let a = if i < k { i } else { i + 1 };
        assert(u.rows[i] == t.rows[a]);
    }
    assert forall|x: i64| #[trigger] u.has(x) <==> (t.has(x) && x != id) by {
        if t.has(x) && x != id {
            let i = choose|i: int| 0 <= i < t.rows.len() && #[trigger] t.rows[i].key() == x;
            assert(i != k);
            let j = if i < k { i } else { i - 1 };
            assert(u.rows[j] == t.rows[i]);
        }
        if u.has(x) {
            let j = choose|j: int| 0 <= j < u.rows.len() && #[trigger] u.rows[j].key() == x;
            let a = if j < k { j } else { j + 1 };
            assert(u.rows[j] == t.rows[a]);
            assert(a != k);
        }
    }
}

/// A table of rows of one kind.
pub struct Table<T> {
    rows: Vec<T>,
    last_id: i64,
}

impl<T> View for Table<T> {
    type V = TableModel<T>;

    closed spec fn view(&self) -> TableModel<T> {
        TableModel { rows: self.rows@, last_id: self.last_id as int }
    }
}

impl<T: Record> Table<T> {
    pub fn new() -> (r: Self)
        ensures
            r@ == TableModel::<T>::empty(),
    {
        let r = Table { rows: Vec::new(), last_id: 0 };
        assert(r@.rows =~= Seq::<T>::empty());
        r
    }

    /// The rows, in ascending order of id.
    pub fn rows(&self) -> (r: &Vec<T>)
        ensures
            r@ == self@.rows,
    {
        &self.rows
    }

    /// The position of the row with the given id.
    pub fn find(&self, id: i64) -> (r: Option<usize>)
        requires
            self@.wf(),
        ensures
            match r {
                Some(i) => self@.has(id) && i == self@.index_of(id),
                None => !self@.has(id),
            },
    {
        let mut i: usize = 0;
        while i < self.rows.len()
            invariant
                self@.wf(),
                i <= self.rows@.len(),
                forall|j: int| 0 <= j < i ==> #[trigger] self.rows@[j].key() != id,
            decreases self.rows@.len() - i,
        {
            if self.rows[i].id() == id {
                proof {
                    assert(self@.rows[i as int].key() == id);
                    lemma_index_of(self@, id);
                }
                return Some(i);
            }
            i = i + 1;
        }
        assert(!self@.has(id)) by {
            assert(forall|j: int| 0 <= j < self@.rows.len() ==> #[trigger] self@.rows[j].key() != id);
        }
        None
    }

    pub fn contains(&self, id: i64) -> (r: bool)
        requires
            self@.wf(),
        ensures
            r == self@.has(id),
    {
        self.find(id).is_some()
    }

    pub fn get(&self, id: i64) -> (r: Option<T>)
        requires
            self@.wf(),
        ensures
            r == self@.lookup(id),
    {
        match self.find(id) {
            Some(i) => Some(self.rows[i].duplicate()),
            None => None,
        }
    }

    /// A copy of every row, in ascending order of id.
    pub fn list(&self) -> (r: Vec<T>)
        ensures
            r@ == self@.rows,
    {
        let mut out: Vec<T> = Vec::new();
        let mut i: usize = 0;
        while i < self.rows.len()
            invariant
                i <= self.rows@.len(),
                out@ == self.rows@.subrange(0, i as int),
            decreases self.rows@.len() - i,
        {
            out.push(self.rows[i].duplicate());
            i = i + 1;
            assert(out@ =~= self.rows@.subrange(0, i as int));
        }
        assert(out@ =~= self.rows@);
        out
    }

    pub fn next_id(&self) -> (r: Option<i64>)
        requires
            self@.wf(),
        ensures
            r == self@.next_id(),
    {
        if self.last_id < i64::MAX {
            Some(self.last_id + 1)
        } else {
            None
        }
    }

    pub fn insert(&mut self, row: T)
        requires
            old(self)@.wf(),
            old(self)@.next_id() == Some(row.key()),
        ensures
            final(self)@ == old(self)@.inserted(row),
            final(self)@.wf(),
    {
        proof {
            lemma_inserted(self@, row);
        }
        self.last_id = row.id();
        self.rows.push(row);
    }

    pub fn replace(&mut self, row: T)
        requires
            old(self)@.wf(),
            old(self)@.has(row.key()),
        ensures
            final(self)@ == old(self)@.replaced(row),
            final(self)@.wf(),
    {
        proof {
            lemma_replaced(self@, row);
        }
        let i = self.find(row.id()).unwrap();
        self.rows.set(i, row);
    }

    pub fn remove(&mut self, id: i64)
        requires
            old(self)@.wf(),
            old(self)@.has(id),
        ensures
            final(self)@ == old(self)@.removed(id),
            final(self)@.wf(),
    {
        proof {
            lemma_removed(self@, id);
        }
        let i = self.find(id).unwrap();
        self.rows.remove(i);
    }
}

} // verus!
