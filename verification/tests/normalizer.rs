use extract_transform_load::hh::transformer::{
    experience_bucket, is_remote, normalize_batch, normalize_job, normalize_salary,
    normalize_specializations, salary_average, RawJob, RawSalary,
};

fn raw_job() -> RawJob {
    RawJob {
        id: String::from("12345"),
        name: String::from("Senior Backend Developer"),
        salary: Some(RawSalary { from: Some(1000), to: Some(2000), currency: String::from("USD") }),
        area_name: String::from("Berlin"),
        schedule_id: Some(String::from("remote")),
        published_at: String::from("2024-01-01T00:30:00Z"),
        specializations: vec![(String::from("1"), String::from("Backend"))],
        skills: vec![String::from("PHP")],
        experience_id: Some(String::from("moreThan6")),
    }
}

#[test]
fn salary_average_test() {
    assert_eq!(salary_average(Some(100), Some(200)), Some(150));
    assert_eq!(salary_average(Some(100), None), Some(100));
    assert_eq!(salary_average(None, Some(200)), Some(200));
    assert_eq!(salary_average(None, None), None);
}

#[test]
fn salary_average_large_test() {
    // the midpoint of the largest representable bounds still fits
    assert_eq!(salary_average(Some(u64::MAX), Some(u64::MAX)), Some(u64::MAX));
    assert_eq!(salary_average(Some(u64::MAX - 2), Some(u64::MAX)), Some(u64::MAX - 1));
}

#[test]
fn normalize_salary_test() {
    let s = normalize_salary(Some(RawSalary {
        from: Some(100),
        to: Some(201),
        currency: String::from("EUR"),
    }))
    .unwrap();
    assert_eq!(s.avg, 150);
    assert_eq!(s.currency, "EUR");

    assert!(normalize_salary(None).is_none());
    assert!(
        normalize_salary(Some(RawSalary { from: None, to: None, currency: String::from("EUR") }))
            .is_none()
    );
}

#[test]
fn experience_bucket_test() {
    assert_eq!(experience_bucket("between1And3"), 1);
    assert_eq!(experience_bucket("between3And6"), 3);
    assert_eq!(experience_bucket("moreThan6"), 6);
    assert_eq!(experience_bucket("noExperience"), 0);
    assert_eq!(experience_bucket(""), 0);
}

#[test]
fn is_remote_test() {
    assert!(is_remote("remote"));
    assert!(!is_remote("fullDay"));
    assert!(!is_remote("Remote"));
}

#[test]
fn normalize_specializations_test() {
    let specs = vec![
        (String::from("1.221"), String::from("Programming")),
        (String::from("1.10"), String::from("Backend Development")),
    ];
    let out = normalize_specializations(&specs);

    assert_eq!(out.len(), 2);
    assert_eq!(out[0].0, "1.221");
    assert_eq!(out[0].1, "programming");
    assert_eq!(out[1].0, "1.10");
    assert_eq!(out[1].1, "backend development");
}

#[test]
fn normalize_job_test() {
    let job = normalize_job(raw_job()).unwrap();

    assert_eq!(job.id, "12345");
    assert_eq!(job.title, "senior backend developer");
    let salary = job.salary.unwrap();
    assert_eq!(salary.avg, 1500);
    assert_eq!(salary.currency, "USD");
    assert_eq!(job.area, "berlin");
    assert!(job.remote);
    // 2024-01-01T00:30:00Z as UTC epoch seconds
    assert_eq!(job.created, 1704069000);
    assert_eq!(job.specializations, vec![(String::from("1"), String::from("backend"))]);
    assert_eq!(job.skills, vec!["back", "php", "senior"]);
    assert_eq!(job.experience, 6);
}

#[test]
fn normalize_job_defaults_test() {
    let mut raw = raw_job();
    raw.salary = None;
    raw.schedule_id = None;
    raw.experience_id = None;

    let job = normalize_job(raw).unwrap();

    assert!(job.salary.is_none());
    assert!(!job.remote);
    assert_eq!(job.experience, 0);
}

#[test]
fn normalize_job_bad_timestamp_test() {
    let mut raw = raw_job();
    raw.published_at = String::from("yesterday");

    assert!(normalize_job(raw).is_none());
}

#[test]
fn normalize_batch_test() {
    let mut bad_stamp = raw_job();
    bad_stamp.published_at = String::from("not a date");

    let batch = normalize_batch(vec![None, Some(bad_stamp), Some(raw_job())]);

    assert_eq!(batch.len(), 1);
    assert_eq!(batch[0].id, "12345");
}
