//! The derived queries: animals above an age, enclosures at capacity,
//! feedings after an instant, treatments by a member of staff, and staff by
//! role.
use vstd::prelude::*;

use crate::model::ZooModel;
use crate::records::{Animal, Enclosure, Feeding, MedicalTreatment, Record, Staff, ZooError};
use crate::store::ZooStore;
use crate::table::{lemma_index_of, TableModel};
use crate::text::{decimal_i32, parse_i32};
use crate::timestamp::{lemma_precedes_order, parse_timestamp, parsed_date_time, Timestamp, TIMESTAMP_FORMAT};

verus! {

broadcast use crate::store::lemma_view_parts;

/// Filtering a prefix one element longer adds that element, if it passes.
pub proof fn lemma_filter_prefix<A>(s: Seq<A>, i: int, p: spec_fn(A) -> bool)
    requires
        0 <= i < s.len(),
    ensures
        s.subrange(0, i + 1).filter(p) == (if p(s[i]) {
            s.subrange(0, i).filter(p).push(s[i])
        } else {
            s.subrange(0, i).filter(p)
        }),
{
    reveal(Seq::filter);
    assert(s.subrange(0, i + 1).drop_last() =~= s.subrange(0, i));
}

pub open spec fn older_than(age: i32) -> spec_fn(Animal) -> bool {
    |a: Animal| a.age > age
}

pub open spec fn housed_in(id: i64) -> spec_fn(Animal) -> bool {
    |a: Animal| a.enclosure_id == id
}

/// How many of `animals` live in the enclosure `id`.
pub open spec fn resident_count(animals: Seq<Animal>, id: i64) -> nat {
    animals.filter(housed_in(id)).len()
}

pub open spec fn at_capacity(animals: Seq<Animal>) -> spec_fn(Enclosure) -> bool {
    |e: Enclosure| resident_count(animals, e.id) == e.capacity
}

/// Whether the treatment's member of staff is named exactly `first` `last`.
pub open spec fn given_by(staff: TableModel<Staff>, first: Seq<char>, last: Seq<char>) -> spec_fn(
    MedicalTreatment,
) -> bool {
    |m: MedicalTreatment|
        match staff.lookup(m.staff_id) {
            Some(s) => s.first_name@ == first && s.last_name@ == last,
            None => false,
        }
}

pub open spec fn has_role(role: Seq<char>) -> spec_fn(Staff) -> bool {
    |s: Staff| s.role@ == role
}

/// `a` comes before `b` in the order of feeding times, ties broken by id.
pub open spec fn fed_before(a: Feeding, b: Feeding) -> bool {
    a.feeding_time.precedes(b.feeding_time) || (a.feeding_time == b.feeding_time && a.id < b.id)
}

/// `r` lists exactly the feedings of `rows` later than `t`, each once, in
/// ascending order of feeding time (ties by id).
pub open spec fn lists_feedings_after(rows: Seq<Feeding>, t: Timestamp, r: Seq<Feeding>) -> bool {
    &&& forall|k: int| 0 <= k < r.len() ==> rows.contains(#[trigger] r[k]) && t.precedes(r[k].feeding_time)
    &&& forall|j: int| 0 <= j < rows.len() && t.precedes(#[trigger] rows[j].feeding_time) ==> r.contains(rows[j])
    &&& forall|a: int, b: int| 0 <= a < b < r.len() ==> fed_before(#[trigger] r[a], #[trigger] r[b])
}

/// Two sequences, each strictly ascending in the order of feeding times
/// (ties by id), that hold the same feedings are equal.
pub proof fn lemma_fed_sorted_unique(r1: Seq<Feeding>, r2: Seq<Feeding>)
    requires
        forall|a: int, b: int| 0 <= a < b < r1.len() ==> fed_before(#[trigger] r1[a], #[trigger] r1[b]),
        forall|a: int, b: int| 0 <= a < b < r2.len() ==> fed_before(#[trigger] r2[a], #[trigger] r2[b]),
        forall|x: Feeding| r1.contains(x) <==> r2.contains(x),
    ensures
        r1 == r2,
    decreases r1.len(),
{
    if r1.len() == 0 {
        if r2.len() > 0 {
            assert(r2.contains(r2[0]));
        }
        assert(r1 =~= r2);
    } else {
        assert(r1.contains(r1[0]));
        let j = choose|j: int| 0 <= j < r2.len() && r2[j] == r1[0];
        assert(r2.contains(r2[0]));
        let i = choose|i: int| 0 <= i < r1.len() && r1[i] == r2[0];
        if r1[0] != r2[0] {
            assert(fed_before(r2[0], r2[j]));
            assert(fed_before(r1[0], r1[i]));
            lemma_precedes_order(r1[0].feeding_time, r2[0].feeding_time, r1[0].feeding_time);
            assert(false);
        }
        let t1 = r1.drop_first();
        let t2 = r2.drop_first();
        assert forall|a: int, b: int| 0 <= a < b < t1.len() implies fed_before(#[trigger] t1[a], #[trigger] t1[b]) by {
            assert(t1[a] == r1[a + 1] && t1[b] == r1[b + 1]);
        }
        assert forall|a: int, b: int| 0 <= a < b < t2.len() implies fed_before(#[trigger] t2[a], #[trigger] t2[b]) by {
            assert(t2[a] == r2[a + 1] && t2[b] == r2[b + 1]);
        }
        assert forall|x: Feeding| t1.contains(x) <==> t2.contains(x) by {
            if t1.contains(x) {
                let a = choose|a: int| 0 <= a < t1.len() && t1[a] == x;
                assert(r1[a + 1] == x);
                lemma_precedes_order(r1[0].feeding_time, x.feeding_time, x.feeding_time);
                assert(fed_before(r1[0], r1[a + 1]));
                assert(x != r1[0]);
                assert(r1.contains(x));
                let b = choose|b: int| 0 <= b < r2.len() && r2[b] == x;
                assert(b != 0);
                assert(t2[b - 1] == x);
            }
            if t2.contains(x) {
                let a = choose|a: int| 0 <= a < t2.len() && t2[a] == x;
                assert(r2[a + 1] == x);
                lemma_precedes_order(r2[0].feeding_time, x.feeding_time, x.feeding_time);
                assert(fed_before(r2[0], r2[a + 1]));
                assert(x != r2[0]);
                assert(r2.contains(x));
                let b = choose|b: int| 0 <= b < r1.len() && r1[b] == x;
                assert(b != 0);
                assert(t1[b - 1] == x);
            }
        }
        lemma_fed_sorted_unique(t1, t2);
        assert(r1 =~= r2) by {
            assert forall|k: int| 0 <= k < r1.len() implies r1[k] == r2[k] by {
                if k > 0 {
                    assert(r1[k] == t1[k - 1]);
                    assert(r2[k] == t2[k - 1]);
                }
            }
        }
    }
}

/// At most one sequence lists the feedings after `t` as
/// `lists_feedings_after` asks: the contract of `feedings_after` fixes its result.
pub proof fn lemma_feedings_after_determined(rows: Seq<Feeding>, t: Timestamp, r1: Seq<Feeding>, r2: Seq<Feeding>)
    requires
        lists_feedings_after(rows, t, r1),
        lists_feedings_after(rows, t, r2),
    ensures
        r1 == r2,
{
    assert forall|x: Feeding| r1.contains(x) <==> r2.contains(x) by {
        if r1.contains(x) {
            let k = choose|k: int| 0 <= k < r1.len() && r1[k] == x;
            assert(rows.contains(r1[k]));
            let j = choose|j: int| 0 <= j < rows.len() && rows[j] == x;
            assert(t.precedes(rows[j].feeding_time));
        }
        if r2.contains(x) {
            let k = choose|k: int| 0 <= k < r2.len() && r2[k] == x;
            assert(rows.contains(r2[k]));
            let j = choose|j: int| 0 <= j < rows.len() && rows[j] == x;
            assert(t.precedes(rows[j].feeding_time));
        }
    }
    lemma_fed_sorted_unique(r1, r2);
}

impl ZooStore {
    /// The animals strictly older than `age`, in ascending order of id.
    pub fn animals_older_than(&self, age: i32) -> (r: Vec<Animal>)
        ensures
            r@ == self@.animals.rows.filter(older_than(age)),
    {
        let rows = self.animals.rows();
        let mut out: Vec<Animal> = Vec::new();
        let mut i: usize = 0;
        while i < rows.len()
            invariant
                i <= rows@.len(),
                out@ == rows@.subrange(0, i as int).filter(older_than(age)),
            decreases rows@.len() - i,
        {
            proof {
                lemma_filter_prefix(rows@, i as int, older_than(age));
            }
            if rows[i].age > age {
                out.push(rows[i].duplicate());
            }
            i = i + 1;
        }
        assert(rows@.subrange(0, rows@.len() as int) =~= rows@);
        out
    }

    /// The animals older than the age written in `age`; a text that is not
    /// a decimal `i32` is a validation error.
    pub fn get_animals_older_than(&self, age: &str) -> (r: Result<Vec<Animal>, ZooError>)
        ensures
            match decimal_i32(age@) {
                Some(n) => r matches Ok(v) && v@ == self@.animals.rows.filter(older_than(n)),
                None => r == Err::<Vec<Animal>, ZooError>(ZooError::ValidationError),
            },
    {
        match parse_i32(age) {
            Some(n) => Ok(self.animals_older_than(n)),
            None => Err(ZooError::ValidationError),
        }
    }

    fn residents(&self, id: i64) -> (r: usize)
        ensures
            r == resident_count(self@.animals.rows, id),
    {
        let rows = self.animals.rows();
        let mut count: usize = 0;
        let mut i: usize = 0;
        while i < rows.len()
            invariant
                i <= rows@.len(),
                rows@ == self@.animals.rows,
                count == rows@.subrange(0, i as int).filter(housed_in(id)).len(),
            decreases rows@.len() - i,
        {
            proof {
                lemma_filter_prefix(rows@, i as int, housed_in(id));
                rows@.subrange(0, i as int).lemma_filter_len(housed_in(id));
            }
            if rows[i].enclosure_id == id {
                count = count + 1;
            }
            i = i + 1;
        }
        assert(rows@.subrange(0, rows@.len() as int) =~= rows@);
        count
    }

    /// The enclosures whose number of resident animals equals their
    /// capacity, in ascending order of id.
    pub fn get_full_enclosure(&self) -> (r: Vec<Enclosure>)
        ensures
            r@ == self@.enclosures.rows.filter(at_capacity(self@.animals.rows)),
    {
        let rows = self.enclosures.rows();
        let mut out: Vec<Enclosure> = Vec::new();
        let mut i: usize = 0;
        while i < rows.len()
            invariant
                i <= rows@.len(),
                rows@ == self@.enclosures.rows,
                out@ == rows@.subrange(0, i as int).filter(at_capacity(self@.animals.rows)),
            decreases rows@.len() - i,
        {
            proof {
                lemma_filter_prefix(rows@, i as int, at_capacity(self@.animals.rows));
            }
            let e = &rows[i];
            let count = self.residents(e.id);
            if e.capacity >= 0 && count == e.capacity as usize {
                out.push(e.duplicate());
            }
            i = i + 1;
        }
        assert(rows@.subrange(0, rows@.len() as int) =~= rows@);
        out
    }

    /// The treatments given by the member of staff named exactly `first_name`
    /// `last_name`, in ascending order of id.
    pub fn get_medical_treatment_by_staff(&self, first_name: &String, last_name: &String) -> (r: Vec<MedicalTreatment>)
        requires
            self@.wf(),
        ensures
            r@ == self@.treatments.rows.filter(given_by(self@.staff, first_name@, last_name@)),
    {
        let rows = self.treatments.rows();
        let pred = Ghost(given_by(self@.staff, first_name@, last_name@));
        let mut out: Vec<MedicalTreatment> = Vec::new();
        let mut i: usize = 0;
        while i < rows.len()
            invariant
                i <= rows@.len(),
                self@.wf(),
                pred@ == given_by(self@.staff, first_name@, last_name@),
                out@ == rows@.subrange(0, i as int).filter(pred@),
            decreases rows@.len() - i,
        {
            proof {
                lemma_filter_prefix(rows@, i as int, pred@);
            }
            let m = &rows[i];
            let matched = match self.staff.get(m.staff_id) {
                Some(s) => s.first_name == *first_name && s.last_name == *last_name,
                None => false,
            };
            if matched {
                out.push(m.duplicate());
            }
            i = i + 1;
        }
        assert(rows@.subrange(0, rows@.len() as int) =~= rows@);
        out
    }

    /// The feedings later than `t`, in ascending order of feeding time, and
    /// of id among feedings at the same time.
    pub fn feedings_after(&self, t: Timestamp) -> (r: Vec<Feeding>)
        requires
            self@.wf(),
        ensures
            lists_feedings_after(self@.feedings.rows, t, r@),
    {
        let rows = self.feedings.rows();
        let mut out: Vec<Feeding> = Vec::new();
        let mut i: usize = 0;
        while i < rows.len()
            invariant
                i <= rows@.len(),
                rows@ == self@.feedings.rows,
                self@.feedings.wf(),
                forall|k: int|
                    0 <= k < out@.len() ==> t.precedes((#[trigger] out@[k]).feeding_time) && exists|j: int|
                        0 <= j < i && rows@[j] == out@[k],
                forall|j: int|
                    0 <= j < i && t.precedes(#[trigger] rows@[j].feeding_time) ==> out@.contains(rows@[j]),
                forall|a: int, b: int| 0 <= a < b < out@.len() ==> fed_before(#[trigger] out@[a], #[trigger] out@[b]),
            decreases rows@.len() - i,
        {
            let f = &rows[i];
            if t.is_before(&f.feeding_time) {
                let mut p: usize = 0;
                while p < out.len()
                    invariant
                        p <= out@.len(),
                        forall|k: int| 0 <= k < p ==> !f.feeding_time.precedes(#[trigger] out@[k].feeding_time),
                    ensures
                        p <= out@.len(),
                        forall|k: int| 0 <= k < p ==> !f.feeding_time.precedes(#[trigger] out@[k].feeding_time),
                        p < out@.len() ==> f.feeding_time.precedes(out@[p as int].feeding_time),
                    decreases out@.len() - p,
                {
                    if f.feeding_time.is_before(&out[p].feeding_time) {
                        break;
                    }
                    p = p + 1;
                }
                let ghost before = out@;
                out.insert(p, f.duplicate());
                proof {
                    let fv = rows@[i as int];
                    before.insert_ensures(p as int, fv);
                    // every row already listed came earlier in the table, so has a smaller id
                    assert forall|k: int| 0 <= k < before.len() implies #[trigger] before[k].id < fv.id by {
                        let j = choose|j: int| 0 <= j < i && rows@[j] == before[k];
                        assert(rows@[j].key() < rows@[i as int].key());
                    }
                    assert forall|k: int| 0 <= k < out@.len() implies t.precedes((#[trigger] out@[k]).feeding_time)
                        && exists|j: int| 0 <= j < i + 1 && rows@[j] == out@[k] by {
                        if k < p {
                            assert(out@[k] == before[k]);
                        } else if k == p {
                            assert(rows@[i as int] == out@[k]);
                        } else {
                            assert(out@[k] == before[k - 1]);
                        }
                    }
                    assert forall|j: int| 0 <= j < i + 1 && t.precedes(#[trigger] rows@[j].feeding_time)
                        implies out@.contains(rows@[j]) by {
                        if j < i {
                            assert(before.contains(rows@[j]));
                            let m = choose|m: int| 0 <= m < before.len() && before[m] == rows@[j];
                            if m < p {
                                assert(out@[m] == before[m]);
                            } else {
                                assert(out@[m + 1] == before[m]);
                            }
                        } else {
                            assert(out@[p as int] == rows@[j]);
                        }
                    }
                    assert forall|a: int, b: int| 0 <= a < b < out@.len() implies fed_before(
                        #[trigger] out@[a],
                        #[trigger] out@[b],
                    ) by {
                        let pi = p as int;
                        let x = if a < pi { before[a] } else if a == pi { fv } else { before[a - 1] };
                        let y = if b < pi { before[b] } else if b == pi { fv } else { before[b - 1] };
                        assert(out@[a] == x);
                        assert(out@[b] == y);
                        if a < pi && b < pi {
                            assert(fed_before(before[a], before[b]));
                        } else if a < pi && b == pi {
                            lemma_precedes_order(x.feeding_time, fv.feeding_time, fv.feeding_time);
                            lemma_precedes_order(fv.feeding_time, x.feeding_time, fv.feeding_time);
                        } else if a < pi {
                            assert(fed_before(before[a], before[b - 1]));
                        } else if a == pi {
                            // fv precedes before[p], which comes no later than before[b - 1]
                            if b - 1 > pi {
                                assert(fed_before(before[pi], before[b - 1]));
                            }
                            lemma_precedes_order(fv.feeding_time, before[pi].feeding_time, y.feeding_time);
                        } else {
                            assert(fed_before(before[a - 1], before[b - 1]));
                        }
                    }
                }
            } else {
                proof {
                    assert forall|k: int| 0 <= k < out@.len() implies t.precedes((#[trigger] out@[k]).feeding_time)
                        && exists|j: int| 0 <= j < i + 1 && rows@[j] == out@[k] by {
                        let j = choose|j: int| 0 <= j < i && rows@[j] == out@[k];
                        assert(0 <= j < i + 1 && rows@[j] == out@[k]);
                    }
                }
            }
            i = i + 1;
        }
        proof {
            assert forall|k: int| 0 <= k < out@.len() implies rows@.contains(#[trigger] out@[k]) && t.precedes(
                out@[k].feeding_time,
            ) by {
                let j = choose|j: int| 0 <= j < i && rows@[j] == out@[k];
                assert(rows@[j] == out@[k]);
            }
        }
        out
    }

    /// The feedings later than the timestamp written in `date`
    /// (`YYYY-MM-DDTHH:MM:SS`); an unreadable timestamp is a validation error.
    pub fn get_feedings_after(&self, date: &str) -> (r: Result<Vec<Feeding>, ZooError>)
        requires
            self@.wf(),
        ensures
            match parsed_date_time(date@, TIMESTAMP_FORMAT@) {
                Some(t) => r matches Ok(v) && lists_feedings_after(self@.feedings.rows, t, v@),
                None => r == Err::<Vec<Feeding>, ZooError>(ZooError::ValidationError),
            },
    {
        match parse_timestamp(date) {
            Some(t) => Ok(self.feedings_after(t)),
            None => Err(ZooError::ValidationError),
        }
    }

    /// The members of staff whose role is exactly `role`, in ascending order of id.
    pub fn get_staff_by_role(&self, role: &String) -> (r: Vec<Staff>)
        ensures
            r@ == self@.staff.rows.filter(has_role(role@)),
    {
        let rows = self.staff.rows();
        let mut out: Vec<Staff> = Vec::new();
        let mut i: usize = 0;
        while i < rows.len()
            invariant
                i <= rows@.len(),
                out@ == rows@.subrange(0, i as int).filter(has_role(role@)),
            decreases rows@.len() - i,
        {
            proof {
                lemma_filter_prefix(rows@, i as int, has_role(role@));
            }
            if rows[i].role == *role {
                out.push(rows[i].duplicate());
            }
            i = i + 1;
        }
        assert(rows@.subrange(0, rows@.len() as int) =~= rows@);
        out
    }
}

} // verus!
