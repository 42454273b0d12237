use extract_transform_load::hh::extractor::{
    collect_detail_urls, page_url, page_urls, Config as ExtractorConfig, Extractor,
};
use extract_transform_load::hh::loader::to_columnar;
use extract_transform_load::hh::service::{plan_windows, Pipeline, Window};
use extract_transform_load::hh::state::State;
use extract_transform_load::hh::transformer::{normalize_batch, RawJob, RawSalary};
use extract_transform_load::service::config::Config as ServiceConfig;

// 2024-01-01T00:00:00Z as UTC epoch seconds
const JAN_FIRST: i64 = 1704067200;

fn extractor() -> Extractor {
    Extractor::new(ExtractorConfig {
        url: String::from("https://api.example.test/vacancies"),
        query_params: vec![
            (String::from("specialization"), String::from("1")),
            (String::from("industry"), String::from("7")),
            (String::from("page"), String::from("0")),
            (String::from("date_from"), String::new()),
            (String::from("date_to"), String::new()),
            (String::from("per_page"), String::from("100")),
        ],
        user_agent: String::from("jobs-pipeline"),
        delay_limit: Some(4),
    })
}

#[test]
fn service_config_test() {
    let config = ServiceConfig::new("internals", "config", "data");

    assert_eq!(config.internals, "internals");
    assert_eq!(config.config, "config");
    assert_eq!(config.data, "data");
    assert_eq!(config.state, "internals/state");
}

#[test]
fn state_advance_test() {
    let mut state = State::with_start(String::from("state/hh.yml"), JAN_FIRST);
    assert_eq!(state.start_from, JAN_FIRST);

    state.advance(JAN_FIRST + 3600);
    assert_eq!(state.start_from, JAN_FIRST + 3600);
}

#[test]
fn state_new_in_range_test() {
    let state = State::new(String::from("state/hh.yml"));

    assert!(state.start_from >= 0);
}

#[test]
fn plan_windows_test() {
    let windows = plan_windows(JAN_FIRST, JAN_FIRST + 3 * 3600 + 100, 3600);

    assert_eq!(windows.len(), 3);
    assert_eq!(windows[0], Window { left: JAN_FIRST, right: JAN_FIRST + 3600 });
    assert_eq!(windows[1], Window { left: JAN_FIRST + 3600, right: JAN_FIRST + 7200 });
    assert_eq!(windows[2], Window { left: JAN_FIRST + 7200, right: JAN_FIRST + 10800 });
}

#[test]
fn plan_windows_nothing_pending_test() {
    assert_eq!(plan_windows(JAN_FIRST, JAN_FIRST + 3599, 3600).len(), 0);
    assert_eq!(plan_windows(JAN_FIRST, JAN_FIRST - 50, 3600).len(), 0);
}

#[test]
fn checkpoint_monotonic_test() {
    // over a run of successful loads the cursor never decreases, and
    // a failure leaves it where it was
    let state = State::with_start(String::from("state/hh.yml"), JAN_FIRST);
    let mut pipeline = Pipeline::new(state, JAN_FIRST + 3 * 3600, 3600);

    let mut last = pipeline.state.start_from;
    while let Some(window) = pipeline.current_window() {
        if window.left == JAN_FIRST + 7200 {
            // the third window's load fails: the run stops and the
            // cursor keeps the value persisted after the second one
            break;
        }
        pipeline.on_window_loaded();
        assert!(pipeline.state.start_from >= last);
        last = pipeline.state.start_from;
    }

    assert_eq!(pipeline.state.start_from, JAN_FIRST + 7200);
}

#[test]
fn backoff_schedule_test() {
    // three failures then a success: the sleeps strictly increase,
    // doubling up to the ceiling
    let mut schedule = extractor().retry_schedule();

    let s1 = schedule.next_action(Some(500)).unwrap();
    let s2 = schedule.next_action(Some(500)).unwrap();
    let s3 = schedule.next_action(None).unwrap();
    assert_eq!((s1, s2, s3), (1, 2, 4));
    assert!(s1 < s2 && s2 < s3);

    // the ceiling holds from here on
    assert_eq!(schedule.next_action(Some(404)).unwrap(), 4);
    assert_eq!(schedule.next_action(Some(500)).unwrap(), 4);

    // the 200 ends the request
    assert_eq!(schedule.next_action(Some(200)), None);
}

#[test]
fn window_url_test() {
    let extractor = extractor();

    assert_eq!(
        extractor.url,
        "https://api.example.test/vacancies?specialization=1&industry=7&per_page=100"
    );

    // the window bounds are rendered local to Moscow, three hours
    // ahead of UTC
    let url = extractor.window_url(Window { left: JAN_FIRST, right: JAN_FIRST + 3600 });
    assert_eq!(
        url,
        "https://api.example.test/vacancies?specialization=1&industry=7&per_page=100\
         &date_from=2024-01-01T03:00:00&date_to=2024-01-01T04:00:00"
    );
}

#[test]
fn page_urls_test() {
    assert_eq!(page_url("u", 0), "u&page=0");
    assert_eq!(page_url("u", 1), "u&page=1");
    assert_eq!(page_url("u", 210), "u&page=210");

    let urls = page_urls("u", Some(3));
    assert_eq!(urls, vec!["u&page=0", "u&page=1", "u&page=2"]);

    assert_eq!(page_urls("u", None).len(), 0);
}

#[test]
fn collect_detail_urls_test() {
    let pages = vec![
        Some(vec![String::from("u1"), String::from("u2")]),
        None,
        Some(vec![String::from("u3")]),
        Some(Vec::new()),
    ];

    assert_eq!(collect_detail_urls(pages), vec!["u1", "u2", "u3"]);
}

#[test]
fn to_columnar_test() {
    let raw = RawJob {
        id: String::from("42"),
        name: String::from("Middle PHP Developer"),
        salary: Some(RawSalary { from: Some(100), to: None, currency: String::from("EUR") }),
        area_name: String::from("Riga"),
        schedule_id: Some(String::from("fullDay")),
        published_at: String::from("2024-01-01T00:10:00Z"),
        specializations: vec![(String::from("1"), String::from("Web"))],
        skills: vec![String::from("MySQL")],
        experience_id: Some(String::from("between1And3")),
    };
    let batch = normalize_batch(vec![Some(raw)]);
    let columns = to_columnar(batch);

    assert_eq!(columns.local_ids, vec!["42"]);
    assert_eq!(columns.sources, vec!["hh"]);
    assert_eq!(columns.titles, vec!["middle php developer"]);
    assert_eq!(columns.areas, vec!["riga"]);
    assert_eq!(columns.salary_avgs, vec![Some(100)]);
    assert_eq!(columns.salary_currencies, vec![Some(String::from("EUR"))]);
    assert_eq!(columns.createds, vec![1704067800]);
    assert_eq!(columns.skills, vec![vec!["middle", "mysql"]]);
    assert_eq!(columns.remotes, vec![0]);
    assert_eq!(columns.experiences, vec![1]);
    assert_eq!(columns.specialization_ids, vec![vec!["1"]]);
    assert_eq!(columns.specialization_names, vec![vec!["web"]]);
}

#[test]
fn end_to_end_window_test() {
    // a checkpoint of 2024-01-01T00:00:00Z, one hourly window, one
    // page with one detail record
    let state = State::with_start(String::from("state/hh.yml"), JAN_FIRST);
    let mut pipeline = Pipeline::new(state, JAN_FIRST + 3600, 3600);

    let window = pipeline.current_window().unwrap();
    assert_eq!(window, Window { left: JAN_FIRST, right: JAN_FIRST + 3600 });

    // the upstream reports one page with one item
    let listing = extractor().window_url(window);
    let pages = page_urls(listing.as_str(), Some(1));
    assert_eq!(pages.len(), 1);
    let details = collect_detail_urls(vec![Some(vec![String::from("detail-url")])]);
    assert_eq!(details.len(), 1);

    let raw = RawJob {
        id: String::from("777"),
        name: String::from("Senior Backend Developer"),
        salary: Some(RawSalary { from: Some(1000), to: Some(2000), currency: String::from("USD") }),
        area_name: String::from("Berlin"),
        schedule_id: Some(String::from("remote")),
        published_at: String::from("2024-01-01T00:30:00Z"),
        specializations: vec![(String::from("1"), String::from("Backend"))],
        skills: vec![String::from("PHP")],
        experience_id: Some(String::from("moreThan6")),
    };
    let batch = normalize_batch(vec![Some(raw)]);
    assert_eq!(batch.len(), 1);
    assert_eq!(batch[0].salary.as_ref().unwrap().avg, 1500);
    assert!(batch[0].remote);
    assert_eq!(batch[0].experience, 6);
    assert_eq!(batch[0].skills, vec!["back", "php", "senior"]);

    let columns = to_columnar(batch);
    assert_eq!(columns.local_ids.len(), 1);

    // the load succeeded, so the checkpoint advances one hour, to
    // 2024-01-01T01:00:00Z
    pipeline.on_window_loaded();
    assert_eq!(pipeline.state.start_from, JAN_FIRST + 3600);
    assert!(pipeline.current_window().is_none());
}

#[test]
fn idempotent_rerun_test() {
    // re-running a window produces a byte-identical batch, which is
    // what the storage-side deduplication pass collapses to one row
    // per record
    let raw = || RawJob {
        id: String::from("901"),
        name: String::from("Junior QA"),
        salary: None,
        area_name: String::from("Oslo"),
        schedule_id: None,
        published_at: String::from("2024-01-01T00:45:00Z"),
        specializations: Vec::new(),
        skills: vec![String::from("Selenium")],
        experience_id: None,
    };

    let first = to_columnar(normalize_batch(vec![Some(raw())]));
    let second = to_columnar(normalize_batch(vec![Some(raw())]));

    assert_eq!(first.local_ids, second.local_ids);
    assert_eq!(first.titles, second.titles);
    assert_eq!(first.areas, second.areas);
    assert_eq!(first.salary_avgs, second.salary_avgs);
    assert_eq!(first.salary_currencies, second.salary_currencies);
    assert_eq!(first.createds, second.createds);
    assert_eq!(first.skills, second.skills);
    assert_eq!(first.remotes, second.remotes);
    assert_eq!(first.experiences, second.experiences);
    assert_eq!(first.specialization_ids, second.specialization_ids);
    assert_eq!(first.specialization_names, second.specialization_names);
}
