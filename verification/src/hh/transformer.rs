//! Normalization of raw upstream records into canonical job records.
//!
//! Every function here is total over its raw input: malformed or
//! missing sub-fields degrade to the documented defaults instead of
//! failing the pipeline. The one exception is the published-at
//! timestamp, whose parse failure drops the record.

use vstd::prelude::*;

use crate::hh::skills::{canon_skill, implied_skill, normalize_skills};
use crate::text::{lower_of, lowercase, seq_has_view, str_eq, strictly_sorted_views};
use crate::times::{datetime_of, parse_datetime_utc};

verus! {

/// A salary statement: the midpoint of the upstream range, and the
/// currency it was stated in.
pub struct Salary {
    pub avg: u64,
    pub currency: String,
}

/// The salary sub-object as the upstream reports it.
pub struct RawSalary {
    pub from: Option<u64>,
    pub to: Option<u64>,
    pub currency: String,
}

/// A raw detail record, freed of its JSON shell. Sub-objects whose
/// absence the pipeline tolerates arrive as `None`.
pub struct RawJob {
    pub id: String,
    pub name: String,
    pub salary: Option<RawSalary>,
    pub area_name: String,
    pub schedule_id: Option<String>,
    pub published_at: String,
    pub specializations: Vec<(String, String)>,
    pub skills: Vec<String>,
    pub experience_id: Option<String>,
}

/// One canonical job record, the unit the pipeline moves.
pub struct Job {
    pub id: String,
    pub title: String,
    pub salary: Option<Salary>,
    pub area: String,
    pub remote: bool,
    pub created: i64,
    pub specializations: Vec<(String, String)>,
    pub skills: Vec<String>,
    pub experience: u8,
}

/// The midpoint of an optional salary range: the average of the two
/// bounds when both are present, the one present bound otherwise.
pub open spec fn salary_avg_of(from: Option<u64>, to: Option<u64>) -> Option<u64> {
    match (from, to) {
        (Some(f), Some(t)) => Some((((f as int) + (t as int)) / 2) as u64),
        (Some(f), None) => Some(f),
        (None, Some(t)) => Some(t),
        (None, None) => None,
    }
}

/// Average an optional salary range.
pub fn salary_average(from: Option<u64>, to: Option<u64>) -> (r: Option<u64>)
    ensures
        r == salary_avg_of(from, to),
{
    match (from, to) {
        (Some(f), Some(t)) => {
            let avg = (((f as u128) + (t as u128)) / 2) as u64;
            Some(avg)
        },
        (Some(f), None) => Some(f),
        (None, Some(t)) => Some(t),
        (None, None) => None,
    }
}

/// A raw salary statement yields a canonical one exactly when at
/// least one bound is present.
pub open spec fn has_salary(s: Option<RawSalary>) -> bool {
    match s {
        Some(rs) => rs.from is Some || rs.to is Some,
        None => false,
    }
}

/// Turn the upstream salary sub-object into its canonical form.
pub fn normalize_salary(raw: Option<RawSalary>) -> (r: Option<Salary>)
    ensures
        (r is Some) == has_salary(raw),
        r matches Some(s) ==> {
            &&& raw matches Some(rs) && s.avg == salary_avg_of(rs.from, rs.to)->Some_0
            &&& raw matches Some(rs) && s.currency@ == rs.currency@
        },
{
    match raw {
        Some(rs) => {
            match salary_average(rs.from, rs.to) {
                Some(avg) => Some(Salary { avg, currency: rs.currency }),
                None => None,
            }
        },
        None => None,
    }
}

/// The years-of-experience bucket an upstream experience tag maps to;
/// any unknown tag maps to zero years.
pub open spec fn experience_years_of(tag: Seq<char>) -> u8 {
    if tag == "between1And3"@ {
        1
    } else if tag == "between3And6"@ {
        3
    } else if tag == "moreThan6"@ {
        6
    } else {
        0
    }
}

/// Map an upstream experience tag to its bucket.
pub fn experience_bucket(tag: &str) -> (r: u8)
    ensures
        r == experience_years_of(tag@),
{
    if str_eq(tag, "between1And3") {
        1
    } else if str_eq(tag, "between3And6") {
        3
    } else if str_eq(tag, "moreThan6") {
        6
    } else {
        0
    }
}

/// A schedule tag marks a remote position exactly when it equals
/// `remote`.
pub fn is_remote(schedule_id: &str) -> (r: bool)
    ensures
        r == (schedule_id@ == "remote"@),
{
    str_eq(schedule_id, "remote")
}

/// Lower-case the specialization names, keeping the identifiers.
pub fn normalize_specializations(v: &Vec<(String, String)>) -> (r: Vec<(String, String)>)
    ensures
        r@.len() == v@.len(),
        forall|i: int|
            0 <= i < v@.len() ==> (#[trigger] r@[i]).0@ == v@[i].0@ && r@[i].1@ == lower_of(
                v@[i].1@,
            ),
{
    let mut out: Vec<(String, String)> = Vec::new();
    let mut i: usize = 0;
    while i < v.len()
        invariant
            i <= v@.len(),
            out@.len() == i,
            forall|k: int|
                0 <= k < i ==> (#[trigger] out@[k]).0@ == v@[k].0@ && out@[k].1@ == lower_of(
                    v@[k].1@,
                ),
        decreases v@.len() - i,
    {
        let id = v[i].0.clone();
        let name = lowercase(v[i].1.as_str());
        out.push((id, name));
        i = i + 1;
    }
    out
}

/// What it means for a canonical record to be the normalization of a
/// raw one.
pub open spec fn normalized_from(j: Job, raw: RawJob) -> bool {
    &&& j.id@ == raw.id@
    &&& j.title@ == lower_of(raw.name@)
    &&& (j.salary is Some) == has_salary(raw.salary)
    &&& (j.salary matches Some(s) ==> raw.salary matches Some(rs) && s.avg == salary_avg_of(
        rs.from,
        rs.to,
    )->Some_0 && s.currency@ == rs.currency@)
    &&& j.area@ == lower_of(raw.area_name@)
    &&& j.remote == match raw.schedule_id {
        Some(sched) => sched@ == "remote"@,
        None => false,
    }
    &&& Some(j.created) == datetime_of(raw.published_at@)
    &&& j.specializations@.len() == raw.specializations@.len()
    &&& (forall|i: int|
        0 <= i < raw.specializations@.len() ==> (#[trigger] j.specializations@[i]).0@
            == raw.specializations@[i].0@ && j.specializations@[i].1@ == lower_of(
            raw.specializations@[i].1@,
        ))
    &&& strictly_sorted_views(j.skills@)
    &&& (forall|x: Seq<char>|
        #[trigger] seq_has_view(j.skills@, x) <==> ((exists|i: int|
            0 <= i < raw.skills@.len() && x == canon_skill(raw.skills@[i]@)) || implied_skill(
            lower_of(raw.name@),
            x,
        )))
    &&& j.experience == match raw.experience_id {
        Some(tag) => experience_years_of(tag@),
        None => 0,
    }
}

/// Normalize one raw record. The record is dropped exactly when its
/// published-at text does not parse as a timestamp.
pub fn normalize_job(raw: RawJob) -> (r: Option<Job>)
    ensures
        (r is Some) == (datetime_of(raw.published_at@) is Some),
        r matches Some(j) ==> normalized_from(j, raw),
{
    let created = match parse_datetime_utc(raw.published_at.as_str()) {
        Some(t) => t,
        None => {
            return None;
        },
    };
    let title = lowercase(raw.name.as_str());
    let skills = normalize_skills(&raw.skills, title.as_str());
    let remote = match &raw.schedule_id {
        Some(sched) => is_remote(sched.as_str()),
        None => false,
    };
    let experience = match &raw.experience_id {
        Some(tag) => experience_bucket(tag.as_str()),
        None => 0,
    };
    let job = Job {
        id: raw.id,
        title,
        salary: normalize_salary(raw.salary),
        area: lowercase(raw.area_name.as_str()),
        remote,
        created,
        specializations: normalize_specializations(&raw.specializations),
        skills,
        experience,
    };
    Some(job)
}

/// Whether a fetched detail record survives: it parsed out of its
/// JSON shell, and its published-at text parses as a timestamp.
pub open spec fn keeps(raw: Option<RawJob>) -> bool {
    raw matches Some(r) && datetime_of(r.published_at@) is Some
}

/// The raw records of a fetch that the pipeline keeps, in order.
pub open spec fn kept_raws(raws: Seq<Option<RawJob>>) -> Seq<RawJob>
    decreases raws.len(),
{
    if raws.len() == 0 {
        Seq::empty()
    } else {
        kept_raws(raws.drop_last()) + if keeps(raws.last()) {
            seq![raws.last()->Some_0]
        } else {
            Seq::<RawJob>::empty()
        }
    }
}

/// Normalize a window's worth of fetched detail records: fetches that
/// failed or did not parse contribute nothing, every other record is
/// normalized in order.
pub fn normalize_batch(raws: Vec<Option<RawJob>>) -> (r: Vec<Job>)
    ensures
        r@.len() == kept_raws(raws@).len(),
        forall|i: int|
            0 <= i < r@.len() ==> normalized_from(#[trigger] r@[i], kept_raws(raws@)[i]),
{
    let ghost all = raws@;
    let mut out: Vec<Job> = Vec::new();
    let n = raws.len();
    let mut rest = raws;
    proof {
        assert(all.take(0) =~= Seq::<Option<RawJob>>::empty());
    }
    for i in 0..n
        invariant
            n == all.len(),
            rest@ == all.skip(i as int),
            out@.len() == kept_raws(all.take(i as int)).len(),
            forall|k: int|
                0 <= k < out@.len() ==> normalized_from(
                    #[trigger] out@[k],
                    kept_raws(all.take(i as int))[k],
                ),
    {
        let raw = rest.remove(0);
        let ghost pre = out@;
        match raw {
            Some(rj) => {
                match normalize_job(rj) {
                    Some(j) => {
                        out.push(j);
                    },
                    None => {},
                }
            },
            None => {},
        }
        proof {
            assert(all.take(i + 1).drop_last() =~= all.take(i as int));
            assert(all.take(i + 1).last() == all[i as int]);
            assert(rest@ =~= all.skip(i + 1));
        }
    }
    proof {
        assert(all.take(n as int) =~= all);
    }
    out
}

} // verus!
