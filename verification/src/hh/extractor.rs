//! The verified core of the resilient HTTP extractor: the listing
//! URL a window turns into, the per-page fan-out, and the retry
//! schedule of the client.
//!
//! The shell owns the HTTP client: it performs each request, sleeps
//! for the delays scheduled here, and hands back what it received as
//! plain values.

use vstd::prelude::*;
use vstd::string::StringExecFns;

use crate::hh::service::Window;
use crate::text::{dec_str, u64_to_string};
use crate::times::{format_moscow, moscow_str_of};

verus! {

/// The default backoff ceiling, in microseconds.
pub const DELAY_LIMIT: u64 = 10000000;

/// The largest backoff ceiling that doubling can stay below.
pub const MAX_DELAY_LIMIT: u64 = 0x7fffffffffffffff;

/// What the extractor is built from.
pub struct Config {
    pub url: String,
    pub query_params: Vec<(String, String)>,
    pub user_agent: String,
    pub delay_limit: Option<u64>,
}

impl Config {
    /// The static query parameters the URLs are built from are all
    /// present, and the backoff ceiling leaves room to double.
    pub open spec fn wf(self) -> bool {
        &&& self.query_params@.len() >= 6
        &&& (self.delay_limit matches Some(l) ==> l <= MAX_DELAY_LIMIT)
    }
}

/// The listing URL carrying the three static query parameters.
pub open spec fn listing_base(url: Seq<char>, qp: Seq<(String, String)>) -> Seq<char> {
    url + "?"@ + qp[0].0@ + "="@ + qp[0].1@ + "&"@ + qp[1].0@ + "="@ + qp[1].1@ + "&"@ + qp[5].0@
        + "="@ + qp[5].1@
}

/// The listing URL narrowed to one extraction window, both bounds
/// rendered in the Moscow time zone as the upstream expects.
pub open spec fn window_url_of(base: Seq<char>, qp: Seq<(String, String)>, w: Window) -> Seq<
    char,
> {
    base + "&"@ + qp[3].0@ + "="@ + moscow_str_of(w.left) + "&"@ + qp[4].0@ + "="@ + moscow_str_of(
        w.right,
    )
}

/// The URL of one listing page.
pub open spec fn page_url_of(window_url: Seq<char>, page: nat) -> Seq<char> {
    window_url + "&page="@ + dec_str(page)
}

/// The extractor: the prebuilt listing URL, the query parameters the
/// window bounds are appended under, and the backoff ceiling.
pub struct Extractor {
    pub url: String,
    pub query_params: Vec<(String, String)>,
    pub delay_limit: u64,
}

impl Extractor {
    pub open spec fn wf(self) -> bool {
        &&& self.query_params@.len() >= 6
        &&& self.delay_limit <= MAX_DELAY_LIMIT
    }

    /// Build the extractor, prebuilding the listing URL.
    pub fn new(config: Config) -> (r: Extractor)
        requires
            config.wf(),
        ensures
            r.wf(),
            r.url@ == listing_base(config.url@, config.query_params@),
            r.query_params == config.query_params,
            r.delay_limit == config.delay_limit.unwrap_or(DELAY_LIMIT),
    {
        let Config { url, query_params, user_agent: _, delay_limit } = config;
        let mut u = url;
        u.append("?");
        u.append(query_params[0].0.as_str());
        u.append("=");
        u.append(query_params[0].1.as_str());
        u.append("&");
        u.append(query_params[1].0.as_str());
        u.append("=");
        u.append(query_params[1].1.as_str());
        u.append("&");
        u.append(query_params[5].0.as_str());
        u.append("=");
        u.append(query_params[5].1.as_str());
        let limit = match delay_limit {
            Some(l) => l,
            None => DELAY_LIMIT,
        };
        Extractor { url: u, query_params, delay_limit: limit }
    }

    /// The listing URL for one extraction window.
    pub fn window_url(&self, w: Window) -> (r: String)
        requires
            self.wf(),
            w.wf(),
        ensures
            r@ == window_url_of(self.url@, self.query_params@, w),
    {
        let mut u = self.url.clone();
        u.append("&");
        u.append(self.query_params[3].0.as_str());
        u.append("=");
        let left = format_moscow(w.left);
        u.append(left.as_str());
        u.append("&");
        u.append(self.query_params[4].0.as_str());
        u.append("=");
        let right = format_moscow(w.right);
        u.append(right.as_str());
        u
    }

    /// A fresh retry schedule for one request against this extractor.
    pub fn retry_schedule(&self) -> (r: RetrySchedule)
        requires
            self.wf(),
        ensures
            r.wf(),
            r.delay == 1,
            r.limit == self.delay_limit,
    {
        RetrySchedule { delay: 1, limit: self.delay_limit }
    }
}

/// The URL of one listing page of a window.
pub fn page_url(window_url: &str, page: u32) -> (r: String)
    ensures
        r@ == page_url_of(window_url@, page as nat),
{
    proof {
        reveal_strlit("&page=");
    }
    let mut u = window_url.to_owned();
    u.append("&page=");
    let digits = u64_to_string(page as u64);
    u.append(digits.as_str());
    u
}

/// One URL per page index. A page-count probe that failed to parse
/// is treated as zero pages, so it fans out to nothing.
pub fn page_urls(window_url: &str, pages: Option<u32>) -> (r: Vec<String>)
    ensures
        r@.len() == (match pages {
            Some(p) => p as int,
            None => 0,
        }),
        forall|k: int| 0 <= k < r@.len() ==> (#[trigger] r@[k])@ == page_url_of(window_url@, k as nat),
{
    let mut out: Vec<String> = Vec::new();
    let count = match pages {
        Some(p) => p,
        None => 0,
    };
    let mut k: u32 = 0;
    while k < count
        invariant
            k <= count,
            out@.len() == k as int,
            forall|q: int|
                0 <= q < k as int ==> (#[trigger] out@[q])@ == page_url_of(window_url@, q as nat),
        decreases count - k,
    {
        out.push(page_url(window_url, k));
        k = k + 1;
    }
    out
}

/// The detail URLs a window's listing pages reported, flattened in
/// page order. A page whose fetch or parse failed contributes no
/// items.
pub fn collect_detail_urls(pages: Vec<Option<Vec<String>>>) -> (r: Vec<String>)
    ensures
        r@.map_values(|s: String| s@) == flatten_pages(pages@),
{
    let ghost all = pages@;
    let n = pages.len();
    let mut rest = pages;
    let mut out: Vec<String> = Vec::new();
    for i in 0..n
        invariant
            n == all.len(),
            rest@ == all.skip(i as int),
            out@.map_values(|s: String| s@) == flatten_pages(all.take(i as int)),
    {
        let page = rest.remove(0);
        proof {
            assert(rest@ =~= all.skip(i + 1));
            assert(page == all[i as int]);
        }
        match page {
            Some(mut urls) => {
                let ghost us = urls@;
                let m = urls.len();
                proof {
                    assert(urls@ =~= us.skip(0));
                    assert(out@.map_values(|s: String| s@) =~= flatten_pages(all.take(i as int))
                        + us.map_values(|s: String| s@).take(0));
                }
                for k in 0..m
                    invariant
                        m == us.len(),
                        urls@ == us.skip(k as int),
                        out@.map_values(|s: String| s@) == flatten_pages(all.take(i as int))
                            + us.map_values(|s: String| s@).take(k as int),
                {
                    let u = urls.remove(0);
                    proof {
                        assert(u == us[k as int]);
                        assert(urls@ =~= us.skip(k + 1));
                    }
                    let ghost pre = out@;
                    out.push(u);
                    proof {
                        let fl = flatten_pages(all.take(i as int));
                        let mv = us.map_values(|s: String| s@);
                        pre.lemma_push_map_commute(|s: String| s@, us[k as int]);
                        assert(out@ == pre.push(us[k as int]));
                        assert(fl + mv.take(k + 1) =~= (fl + mv.take(k as int)).push(
                            mv[k as int],
                        ));
                        assert(out@.map_values(|s: String| s@) =~= fl + mv.take(k + 1));
                    }
                }
                proof {
                    assert(us.map_values(|s: String| s@).take(us.len() as int) =~= us.map_values(
                        |s: String| s@,
                    ));
                }
            },
            None => {},
        }
        proof {
            assert(all.take(i + 1).drop_last() =~= all.take(i as int));
            assert(all.take(i + 1).last() == all[i as int]);
            assert(out@.map_values(|s: String| s@) =~= flatten_pages(all.take(i + 1)));
        }
    }
    proof {
        assert(all.take(n as int) =~= all);
    }
    out
}

/// The detail URLs of a sequence of fetched pages, flattened.
pub open spec fn flatten_pages(pages: Seq<Option<Vec<String>>>) -> Seq<Seq<char>>
    decreases pages.len(),
{
    if pages.len() == 0 {
        Seq::empty()
    } else {
        flatten_pages(pages.drop_last()) + match pages.last() {
            Some(urls) => urls@.map_values(|s: String| s@),
            None => Seq::<Seq<char>>::empty(),
        }
    }
}

/// The resilient client's backoff schedule: the delay before each
/// retry starts at one time unit and doubles on every failed attempt
/// until it reaches the configured ceiling, where it stays.
pub struct RetrySchedule {
    pub delay: u64,
    pub limit: u64,
}

impl RetrySchedule {
    /// The delay is positive and, once past the start, stays within
    /// twice the ceiling, so it can double without overflowing.
    pub open spec fn wf(self) -> bool {
        &&& 1 <= self.delay
        &&& self.limit <= MAX_DELAY_LIMIT
        &&& (self.delay <= 2 * self.limit || self.delay == 1)
    }

    /// Record one failed attempt: the attempt's sleep is the current
    /// delay, and the delay then doubles unless it has reached the
    /// ceiling. Until the ceiling is reached the delays strictly
    /// increase.
    pub fn on_failure(&mut self) -> (sleep: u64)
        requires
            old(self).wf(),
        ensures
            final(self).wf(),
            final(self).limit == old(self).limit,
            sleep == old(self).delay,
            final(self).delay == (if old(self).delay < old(self).limit {
                2 * old(self).delay
            } else {
                old(self).delay as int
            }),
            old(self).delay < old(self).limit ==> final(self).delay > old(self).delay,
    {
        let sleep = self.delay;
        if self.delay < self.limit {
            self.delay = self.delay * 2;
        }
        sleep
    }

    /// The client's decision on one attempt: a 200 response ends the
    /// request, and any other outcome sleeps for the scheduled delay
    /// and retries. A missing status stands for a network failure.
    pub fn next_action(&mut self, status: Option<u16>) -> (r: Option<u64>)
        requires
            old(self).wf(),
        ensures
            final(self).wf(),
            final(self).limit == old(self).limit,
            (r is None) == (status == Some(200u16)),
            status == Some(200u16) ==> *final(self) == *old(self),
            r matches Some(sleep) ==> sleep == old(self).delay && final(self).delay == (
            if old(self).delay < old(self).limit {
                2 * old(self).delay
            } else {
                old(self).delay as int
            }),
    {
        match status {
            Some(code) => {
                if code == 200 {
                    None
                } else {
                    Some(self.on_failure())
                }
            },
            None => Some(self.on_failure()),
        }
    }
}

} // verus!
