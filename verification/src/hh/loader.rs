//! The columnar form a batch takes on its way to storage, and the
//! laws of the storage-side deduplication pass.
//!
//! The shell performs the actual bulk insert and the maintenance
//! statement; this module fixes what the columns hold, and proves
//! that re-loading a window and then deduplicating leaves one row per
//! record.

use vstd::prelude::*;

use crate::hh::transformer::{has_salary, kept_raws, normalized_from, Job, RawJob};
use crate::text::lemma_sorted_views_unique;

verus! {

/// One row of the analytical table, as a mathematical value. Two
/// loads of the same record produce equal rows, which is what the
/// storage-side deduplication collapses.
pub struct Row {
    pub local_id: Seq<char>,
    pub source: Seq<char>,
    pub title: Seq<char>,
    pub area: Seq<char>,
    pub salary_avg: Option<u64>,
    pub salary_currency: Option<Seq<char>>,
    pub created: i64,
    pub skills: Seq<Seq<char>>,
    pub remote: u8,
    pub experience: u8,
    pub specialization_ids: Seq<Seq<char>>,
    pub specialization_names: Seq<Seq<char>>,
}

/// The row one canonical record becomes.
pub open spec fn row_of(j: Job) -> Row {
    Row {
        local_id: j.id@,
        source: "hh"@,
        title: j.title@,
        area: j.area@,
        salary_avg: match j.salary {
            Some(s) => Some(s.avg),
            None => None,
        },
        salary_currency: match j.salary {
            Some(s) => Some(s.currency@),
            None => None,
        },
        created: j.created,
        skills: j.skills@.map_values(|s: String| s@),
        remote: if j.remote {
            1
        } else {
            0
        },
        experience: j.experience,
        specialization_ids: j.specializations@.map_values(|p: (String, String)| p.0@),
        specialization_names: j.specializations@.map_values(|p: (String, String)| p.1@),
    }
}

/// The rows a batch becomes, in order.
pub open spec fn rows_of(batch: Seq<Job>) -> Seq<Row> {
    batch.map_values(|j: Job| row_of(j))
}

/// A batch in column-oriented form: one vector per field of the
/// storage schema, all of one length, with the source tag fixed.
pub struct Columns {
    pub local_ids: Vec<String>,
    pub sources: Vec<String>,
    pub titles: Vec<String>,
    pub areas: Vec<String>,
    pub salary_avgs: Vec<Option<u64>>,
    pub salary_currencies: Vec<Option<String>>,
    pub createds: Vec<i64>,
    pub skills: Vec<Vec<String>>,
    pub remotes: Vec<u8>,
    pub experiences: Vec<u8>,
    pub specialization_ids: Vec<Vec<String>>,
    pub specialization_names: Vec<Vec<String>>,
}

/// The entry at position `i` of every column is the corresponding
/// field of the row `r`.
pub open spec fn row_in_columns(c: Columns, r: Row, i: int) -> bool {
    &&& c.local_ids@[i]@ == r.local_id
    &&& c.sources@[i]@ == r.source
    &&& c.titles@[i]@ == r.title
    &&& c.areas@[i]@ == r.area
    &&& c.salary_avgs@[i] == r.salary_avg
    &&& (match c.salary_currencies@[i] {
        Some(s) => r.salary_currency matches Some(rc) && s@ == rc,
        None => r.salary_currency is None,
    })
    &&& c.createds@[i] == r.created
    &&& c.skills@[i]@.map_values(|s: String| s@) == r.skills
    &&& c.remotes@[i] == r.remote
    &&& c.experiences@[i] == r.experience
    &&& c.specialization_ids@[i]@.map_values(|s: String| s@) == r.specialization_ids
    &&& c.specialization_names@[i]@.map_values(|s: String| s@) == r.specialization_names
}

/// The columns hold exactly the given rows, field by field.
pub open spec fn columns_hold(c: Columns, rows: Seq<Row>) -> bool {
    &&& c.local_ids@.len() == rows.len()
    &&& c.sources@.len() == rows.len()
    &&& c.titles@.len() == rows.len()
    &&& c.areas@.len() == rows.len()
    &&& c.salary_avgs@.len() == rows.len()
    &&& c.salary_currencies@.len() == rows.len()
    &&& c.createds@.len() == rows.len()
    &&& c.skills@.len() == rows.len()
    &&& c.remotes@.len() == rows.len()
    &&& c.experiences@.len() == rows.len()
    &&& c.specialization_ids@.len() == rows.len()
    &&& c.specialization_names@.len() == rows.len()
    &&& (forall|i: int| 0 <= i < rows.len() ==> row_in_columns(c, #[trigger] rows[i], i))
}

/// Turn a batch of canonical records into column-oriented form, the
/// source tag fixed to the upstream's name.
pub fn to_columnar(batch: Vec<Job>) -> (r: Columns)
    ensures
        columns_hold(r, rows_of(batch@)),
{
    let ghost all = batch@;
    let n = batch.len();
    let mut rest = batch;
    let mut c = Columns {
        local_ids: Vec::new(),
        sources: Vec::new(),
        titles: Vec::new(),
        areas: Vec::new(),
        salary_avgs: Vec::new(),
        salary_currencies: Vec::new(),
        createds: Vec::new(),
        skills: Vec::new(),
        remotes: Vec::new(),
        experiences: Vec::new(),
        specialization_ids: Vec::new(),
        specialization_names: Vec::new(),
    };
    for i in 0..n
        invariant
            n == all.len(),
            rest@ == all.skip(i as int),
            columns_hold(c, rows_of(all.take(i as int))),
    {
        let job = rest.remove(0);
        let ghost j = all[i as int];
        proof {
            assert(job == j);
            assert(rest@ =~= all.skip(i + 1));
        }
        let Job { id, title, salary, area, remote, created, specializations, skills, experience } =
            job;
        let mut spec_ids: Vec<String> = Vec::new();
        let mut spec_names: Vec<String> = Vec::new();
        let m = specializations.len();
        let mut pairs = specializations;
        let ghost specs = j.specializations@;
        proof {
            assert(pairs@ =~= specs.skip(0));
        }
        for k in 0..m
            invariant
                m == specs.len(),
                pairs@ == specs.skip(k as int),
                spec_ids@.len() == k,
                spec_names@.len() == k,
                forall|q: int| 0 <= q < k ==> (#[trigger] spec_ids@[q])@ == specs[q].0@,
                forall|q: int| 0 <= q < k ==> (#[trigger] spec_names@[q])@ == specs[q].1@,
        {
            let p = pairs.remove(0);
            proof {
                assert(p == specs[k as int]);
                assert(pairs@ =~= specs.skip(k + 1));
            }
            spec_ids.push(p.0);
            spec_names.push(p.1);
        }
        proof {
            assert(spec_ids@.map_values(|s: String| s@) =~= j.specializations@.map_values(
                |p: (String, String)| p.0@,
            ));
            assert(spec_names@.map_values(|s: String| s@) =~= j.specializations@.map_values(
                |p: (String, String)| p.1@,
            ));
        }
        let ghost cpre = c;
        c.local_ids.push(id);
        c.sources.push(source_tag());
        c.titles.push(title);
        c.areas.push(area);
        match salary {
            Some(s) => {
                c.salary_avgs.push(Some(s.avg));
                c.salary_currencies.push(Some(s.currency));
            },
            None => {
                c.salary_avgs.push(None);
                c.salary_currencies.push(None);
            },
        }
        c.createds.push(created);
        c.skills.push(skills);
        c.remotes.push(if remote {
            1
        } else {
            0
        });
        c.experiences.push(experience);
        c.specialization_ids.push(spec_ids);
        c.specialization_names.push(spec_names);
        proof {
            let rows_new = rows_of(all.take(i + 1));
            let rows_old = rows_of(all.take(i as int));
            assert(rows_new.drop_last() =~= rows_old);
            assert(rows_new.last() == row_of(j));
            assert forall|q: int| 0 <= q < rows_new.len() implies row_in_columns(
                c,
                #[trigger] rows_new[q],
                q,
            ) by {
                if q < i {
                    assert(rows_new[q] == rows_old[q]);
                    assert(row_in_columns(cpre, rows_old[q], q));
                } else {
                    assert(rows_new[q] == row_of(j));
                }
            }
            assert(columns_hold(c, rows_new));
        }
    }
    proof {
        assert(all.take(n as int) =~= all);
    }
    c
}

/// The upstream's source tag.
pub fn source_tag() -> (r: String)
    ensures
        r@ == "hh"@,
{
    "hh".to_owned()
}

/// What the storage-side deduplication maintenance pass leaves: the
/// first occurrence of every row value, in order.
pub open spec fn dedup_rows(t: Seq<Row>) -> Seq<Row>
    decreases t.len(),
{
    if t.len() == 0 {
        t
    } else {
        let rest = dedup_rows(t.drop_last());
        if t.drop_last().contains(t.last()) {
            rest
        } else {
            rest.push(t.last())
        }
    }
}

/// No two rows of `t` are equal.
pub open spec fn distinct_rows(t: Seq<Row>) -> bool {
    forall|i: int, j: int| 0 <= i < j < t.len() ==> t[i] != t[j]
}

/// No two rows of `t` carry the same record identifier.
pub open spec fn distinct_ids(t: Seq<Row>) -> bool {
    forall|i: int, j: int| 0 <= i < j < t.len() ==> t[i].local_id != t[j].local_id
}

proof fn lemma_dedup_same_elements(t: Seq<Row>, x: Row)
    ensures
        dedup_rows(t).contains(x) == t.contains(x),
    decreases t.len(),
{
    if t.len() > 0 {
        let dl = t.drop_last();
        let d = dedup_rows(dl);
        lemma_dedup_same_elements(dl, x);
        if dl.contains(x) {
            let i = choose|i: int| 0 <= i < dl.len() && dl[i] == x;
            assert(t[i] == x);
            assert(t.contains(x));
        }
        if dl.contains(t.last()) {
            if t.contains(x) {
                let i = choose|i: int| 0 <= i < t.len() && t[i] == x;
                if i == t.len() - 1 {
                    assert(x == t.last());
                } else {
                    assert(dl[i] == x);
                    assert(dl.contains(x));
                }
            }
        } else {
            if t.contains(x) {
                let i = choose|i: int| 0 <= i < t.len() && t[i] == x;
                if i == t.len() - 1 {
                    assert(dedup_rows(t)[d.len() as int] == x);
                    assert(dedup_rows(t).contains(x));
                } else {
                    assert(dl[i] == x);
                    assert(dl.contains(x));
                    let k = choose|k: int| 0 <= k < d.len() && d[k] == x;
                    assert(dedup_rows(t)[k] == x);
                    assert(dedup_rows(t).contains(x));
                }
            }
            if dedup_rows(t).contains(x) {
                let k = choose|k: int| 0 <= k < dedup_rows(t).len() && dedup_rows(t)[k] == x;
                if k < d.len() {
                    assert(d[k] == x);
                    assert(d.contains(x));
                } else {
                    assert(x == t.last());
                    assert(t[t.len() - 1] == x);
                    assert(t.contains(x));
                }
            }
        }
    }
}

proof fn lemma_dedup_distinct(t: Seq<Row>)
    ensures
        distinct_rows(dedup_rows(t)),
    decreases t.len(),
{
    if t.len() > 0 {
        lemma_dedup_distinct(t.drop_last());
        if !t.drop_last().contains(t.last()) {
            lemma_dedup_same_elements(t.drop_last(), t.last());
            let d = dedup_rows(t.drop_last());
            assert forall|i: int, j: int|
                0 <= i < j < dedup_rows(t).len() implies dedup_rows(t)[i] != dedup_rows(t)[j] by {
                if j == d.len() {
                    assert(d.contains(d[i]));
                }
            }
        }
    }
}

proof fn lemma_dedup_of_distinct(t: Seq<Row>)
    requires
        distinct_rows(t),
    ensures
        dedup_rows(t) == t,
    decreases t.len(),
{
    if t.len() > 0 {
        assert(distinct_rows(t.drop_last()));
        lemma_dedup_of_distinct(t.drop_last());
        if t.drop_last().contains(t.last()) {
            let i = choose|i: int| 0 <= i < t.drop_last().len() && t.drop_last()[i] == t.last();
            assert(t[i] == t[t.len() - 1]);
            assert(false);
        }
        assert(dedup_rows(t) =~= t);
    }
}

proof fn lemma_dedup_absorbs(u: Seq<Row>, v: Seq<Row>)
    requires
        forall|i: int| 0 <= i < v.len() ==> u.contains(#[trigger] v[i]),
    ensures
        dedup_rows(u + v) == dedup_rows(u),
    decreases v.len(),
{
    if v.len() == 0 {
        assert(u + v =~= u);
    } else {
        let t = u + v;
        assert(t.drop_last() =~= u + v.drop_last());
        assert(t.last() == v.last());
        assert(u.contains(v.last()));
        let i = choose|i: int| 0 <= i < u.len() && u[i] == v.last();
        assert((u + v.drop_last())[i] == v.last());
        assert((u + v.drop_last()).contains(v.last()));
        lemma_dedup_absorbs(u, v.drop_last());
    }
}

/// The deduplication pass is idempotent: running it again changes
/// nothing, so the maintenance statement is safe to repeat.
pub proof fn lemma_dedup_idempotent(t: Seq<Row>)
    ensures
        dedup_rows(dedup_rows(t)) == dedup_rows(t),
{
    lemma_dedup_distinct(t);
    lemma_dedup_of_distinct(dedup_rows(t));
}

/// Normalization is deterministic at row level: two records
/// normalized from the same raw record carry the same bytes into
/// storage.
pub proof fn lemma_normalized_row_unique(j1: Job, j2: Job, raw: RawJob)
    requires
        normalized_from(j1, raw),
        normalized_from(j2, raw),
    ensures
        row_of(j1) == row_of(j2),
{
    lemma_sorted_views_unique(j1.skills@, j2.skills@);
    assert(j1.specializations@.map_values(|p: (String, String)| p.0@)
        =~= j2.specializations@.map_values(|p: (String, String)| p.0@));
    assert(j1.specializations@.map_values(|p: (String, String)| p.1@)
        =~= j2.specializations@.map_values(|p: (String, String)| p.1@));
    if has_salary(raw.salary) {
        assert(j1.salary is Some && j2.salary is Some);
        assert(row_of(j1).salary_avg == row_of(j2).salary_avg);
        assert(row_of(j1).salary_currency == row_of(j2).salary_currency);
    }
    assert(row_of(j1) == row_of(j2));
}

/// Re-running a window normalizes the same fetched records to the
/// same rows, in the same order.
pub proof fn lemma_rerun_rows_identical(b1: Seq<Job>, b2: Seq<Job>, raws: Seq<Option<RawJob>>)
    requires
        b1.len() == kept_raws(raws).len(),
        b2.len() == kept_raws(raws).len(),
        forall|i: int|
            0 <= i < b1.len() ==> normalized_from(#[trigger] b1[i], kept_raws(raws)[i]),
        forall|i: int|
            0 <= i < b2.len() ==> normalized_from(#[trigger] b2[i], kept_raws(raws)[i]),
    ensures
        rows_of(b1) == rows_of(b2),
{
    assert forall|i: int| 0 <= i < b1.len() implies rows_of(b1)[i] == rows_of(b2)[i] by {
        lemma_normalized_row_unique(b1[i], b2[i], kept_raws(raws)[i]);
    }
    assert(rows_of(b1) =~= rows_of(b2));
}

/// Loading a window's batch a second time into a table whose record
/// identifiers were unique leaves, after the deduplication pass,
/// exactly the table with one load of the batch.
pub proof fn lemma_rerun_window_dedups(t: Seq<Row>, rs: Seq<Row>)
    requires
        distinct_ids(t + rs),
    ensures
        dedup_rows(t + rs + rs) == t + rs,
{
    let u = t + rs;
    assert(distinct_rows(u)) by {
        assert forall|i: int, j: int| 0 <= i < j < u.len() implies u[i] != u[j] by {
            assert(u[i].local_id != u[j].local_id);
        }
    }
    assert forall|i: int| 0 <= i < rs.len() implies u.contains(#[trigger] rs[i]) by {
        assert(u[t.len() + i] == rs[i]);
    }
    lemma_dedup_absorbs(u, rs);
    lemma_dedup_of_distinct(u);
}

/// Loading the same window's batch twice and then deduplicating
/// leaves exactly the batch: one row per record identifier, since
/// identifiers are unique within a batch.
pub proof fn lemma_double_load_dedups(rs: Seq<Row>)
    requires
        distinct_ids(rs),
    ensures
        dedup_rows(rs + rs) == rs,
{
    assert(distinct_rows(rs));
    assert forall|i: int| 0 <= i < rs.len() implies rs.contains(#[trigger] rs[i]) by {}
    lemma_dedup_absorbs(rs, rs);
    lemma_dedup_of_distinct(rs);
}

} // verus!
