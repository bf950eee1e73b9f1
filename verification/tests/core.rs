use nyaa::Error;
use nyaa::cache::Cache;
use nyaa::client::Client;
use nyaa::data::{Category, Filter, Item, Sort, SortOrder};
use nyaa::normalize::{parse_boolean, parse_human_size, parse_size};
use nyaa::query::ListQuery;
use nyaa::rate::RateLimiter;
use nyaa::store::NyaaContext;

#[test]
fn size_parses_the_wire_forms() {
    assert_eq!(parse_size("205.9 MiB").unwrap(), 215_901_798);
    assert_eq!(parse_size("1.0 GiB").unwrap(), 1_073_741_824);
    assert_eq!(parse_size("3 B").unwrap(), 3);
    assert_eq!(parse_size("12 bytes").unwrap(), 12);
    assert_eq!(parse_size("1.5 KB").unwrap(), 1500);
    assert_eq!(parse_size("2 MB").unwrap(), 2_000_000);
    assert_eq!(parse_size("1 GB").unwrap(), 1_000_000_000);
    assert_eq!(parse_size("1 TB").unwrap(), 1_000_000_000_000);
    assert_eq!(parse_size("1 PB").unwrap(), 1_000_000_000_000_000);
    assert_eq!(parse_size("1 KiB").unwrap(), 1024);
    assert_eq!(parse_size("1 TiB").unwrap(), 1_099_511_627_776);
    assert_eq!(parse_size("1 PiB").unwrap(), 1_125_899_906_842_624);
    assert_eq!(parse_size("  1,024 KiB  "), Ok(1_048_576));
    assert_eq!(parse_size("5KB"), Ok(5_000));
    assert_eq!(parse_size("205.9MiB"), Ok(215_901_798));
    assert_eq!(parse_size(""), Ok(0));
    assert_eq!(parse_size("10"), Err(Error::ParseSize));
    assert_eq!(parse_size("x MiB"), Err(Error::ParseSize));
    assert_eq!(parse_size("10 XB"), Err(Error::ParseSize));
}

#[test]
fn human_size_is_exact_case_and_truncates() {
    assert_eq!(parse_human_size("205.9 MiB").unwrap(), 215_901_798);
    assert_eq!(parse_human_size("1.7 B").unwrap(), 1);
    assert_eq!(parse_human_size("2.9 KiB").unwrap(), 2969);
    assert_eq!(parse_human_size("205.9 mib"), Err(Error::ParseSize));
    assert_eq!(parse_human_size("5"), Err(Error::ParseSize));
}

#[test]
fn booleans_parse_their_spellings() {
    assert_eq!(parse_boolean("1"), Ok(true));
    assert_eq!(parse_boolean("0"), Ok(false));
    assert_eq!(parse_boolean("Yes"), Ok(true));
    assert_eq!(parse_boolean("no"), Ok(false));
    assert_eq!(parse_boolean("None"), Ok(false));
    assert_eq!(parse_boolean("True"), Ok(true));
    assert_eq!(parse_boolean("false"), Ok(false));
    assert_eq!(parse_boolean("NO"), Ok(false));
    assert_eq!(parse_boolean("TRUE"), Ok(true));
    assert_eq!(parse_boolean("none"), Ok(false));
    assert_eq!(parse_boolean("nOnE"), Ok(false));
    assert_eq!(parse_boolean("maybe"), Err(Error::ParseBoolean));
}

#[test]
fn cache_evicts_the_earliest_expiration_first() {
    let mut c = Cache::new(100);
    let (_, a) = c.put(0, "u", "A", 10_000, 40);
    assert!(a.is_ok());
    let (_, b) = c.put(0, "u", "B", 20_000, 40);
    assert!(b.is_ok());
    let (removed, r) = c.put(0, "u", "C", 30_000, 40);
    assert!(r.is_ok());
    assert_eq!(removed.len(), 1);
    assert_eq!(c.total_size, 80);
    let (_, hit_a) = c.get(0, "u", "A");
    assert!(hit_a.is_none());
    let (_, hit_b) = c.get(0, "u", "B");
    assert!(hit_b.is_some());
    let (_, hit_c) = c.get(0, "u", "C");
    assert!(hit_c.is_some());
}

#[test]
fn cache_entry_lapses_after_its_lifetime() {
    let mut c = Cache::new(100);
    let (_, r) = c.put(0, "u", "X", 1_000, 10);
    assert!(r.is_ok());
    assert_eq!(c.total_size, 10);
    let (removed, hit) = c.get(1_500, "u", "X");
    assert!(hit.is_none());
    assert_eq!(removed.len(), 1);
    assert_eq!(c.total_size, 0);
}

#[test]
fn cache_keys_do_not_collide_across_queries() {
    let mut c = Cache::new(100);
    let (_, r) = c.put(0, "u", "q1", 10_000, 10);
    assert!(r.is_ok());
    let (_, hit) = c.get(0, "u", "q2");
    assert!(hit.is_none());
    let (_, hit1) = c.get(0, "u", "q1");
    assert!(hit1.is_some());
}

#[test]
fn cache_rejects_what_never_fits() {
    let mut c = Cache::new(100);
    let (_, r) = c.put(0, "u", "big", 10_000, 101);
    assert_eq!(r, Err(Error::CacheNoSpace));
    assert_eq!(c.total_size, 0);
}

#[test]
fn cache_replaces_the_entry_under_the_same_key() {
    let mut c = Cache::new(100);
    let (_, r1) = c.put(0, "u", "k", 10_000, 40);
    assert!(r1.is_ok());
    let (removed, r2) = c.put(0, "u", "k", 10_000, 50);
    assert!(r2.is_ok());
    assert_eq!(removed.len(), 1);
    assert_eq!(c.total_size, 50);
    assert_eq!(c.len(), 1);
}

#[test]
fn rate_limit_window_admits_up_to_the_cap() {
    let mut l = RateLimiter::new(3, 1_000);
    assert_eq!(l.try_acquire_at(0), true);
    assert_eq!(l.try_acquire_at(0), true);
    assert_eq!(l.try_acquire_at(0), true);
    assert_eq!(l.try_acquire_at(0), false);
    assert_eq!(l.try_acquire_at(0), false);
    assert_eq!(l.try_acquire_at(1_100), true);
}

#[test]
fn store_upserts_and_pages() {
    let mut ctx = NyaaContext::new(1000);
    let mk = |id: &str, date: i64, seeders: usize| Item {
        id: id.to_string(),
        title: format!("t{}", id),
        link: "l".to_string(),
        date,
        seeders,
        leechers: 0,
        downloads: 0,
        category: Category::AnimeEnglish,
        size: 10,
        comments: 0,
        trusted: false,
        remake: false,
        download_link: None,
        magnet_link: None,
    };
    ctx.add_items(vec![mk("a", 10, 3), mk("b", 20, 1), mk("c", 30, 2)]);
    assert_eq!(ctx.get_item_count(), 3);
    ctx.add_items(vec![mk("b", 25, 9)]);
    assert_eq!(ctx.get_item_count(), 3);
    let (off, cnt, items) = ctx.get_items(None, None, None, None, None, None, None);
    assert_eq!(off, 0);
    assert_eq!(cnt, 75);
    assert_eq!(items.len(), 3);
    assert_eq!(items[0].id, "c");
    assert_eq!(items[1].id, "b");
    assert_eq!(items[2].id, "a");
    let (_, _, by_seeders) = ctx.get_items(
        None,
        None,
        None,
        None,
        None,
        Some(Sort::Seeders),
        Some(SortOrder::Ascending),
    );
    assert_eq!(by_seeders[0].seeders, 2);
    assert_eq!(by_seeders[1].seeders, 3);
    assert_eq!(by_seeders[2].seeders, 9);
    let (_, _, recent) = ctx.get_items(None, None, Some(15), None, None, None, None);
    assert_eq!(recent.len(), 2);
    let (off2, cnt2, page2) = ctx.get_items(Some(5), Some(2), None, None, None, None, None);
    assert_eq!(off2, 4);
    assert_eq!(cnt2, 2);
    assert_eq!(page2.len(), 0);
    let (_, _, trusted_only) = ctx.get_items(None, None, None, None, Some(Filter::Trusted), None, None);
    assert_eq!(trusted_only.len(), 0);
}

#[test]
fn coordinator_retries_then_succeeds() {
    let feed = r#"<rss><channel><title>t</title><description>d</description>
<item><title>Example</title><link>https://h/download/7.torrent</link><guid>https://h/view/7</guid>
<pubDate>Sat, 29 Mar 2025 06:51:19 -0000</pubDate><nyaa:seeders>5</nyaa:seeders><nyaa:leechers>41</nyaa:leechers>
<nyaa:downloads>1</nyaa:downloads><nyaa:infoHash>ab</nyaa:infoHash><nyaa:categoryId>1_3</nyaa:categoryId>
<nyaa:category>x</nyaa:category><nyaa:size>1.0 GiB</nyaa:size><nyaa:comments>0</nyaa:comments>
<nyaa:trusted>No</nyaa:trusted><nyaa:remake>No</nyaa:remake><description>d</description></item></channel></rss>"#;
    let mut client = Client::new(
        None,
        "https://h".to_string(),
        "agent".to_string(),
        30_000,
        2,
        0,
        60_000,
        600_000,
        600_000,
        1 << 20,
        10,
        1_000,
    );
    let query = ListQuery {
        page: None,
        category: None,
        filter: None,
        sort: None,
        order: None,
        query: None,
    };
    let mut now: u64 = 0;
    let (_, hit) = client.list_cached(now, &query);
    assert!(hit.is_none());

    // Two upstream failures, each followed by the retry wait, then success.
    let mut retries = 0;
    let mut elapsed_fail = Vec::new();
    loop {
        assert!(client.try_acquire(now));
        if retries < 2 {
            let r = client.list_fetched(now, &query, 503, "", "upstream busy", 5);
            assert!(matches!(r, Err(Error::HttpStatus(503, _))));
            elapsed_fail.push(5u64);
            let wait = client.retry_wait(retries).unwrap();
            assert_eq!(wait, 1_000);
            now += wait;
            retries += 1;
        } else {
            let r = client.list_fetched(now, &query, 200, "application/xml", feed, 2_011);
            let items = r.unwrap();
            assert_eq!(items.len(), 1);
            assert_eq!(items[0].id, 7);
            break;
        }
    }
    let (_, stored) = client.list_store(now, &query, 100);
    assert!(stored.is_some());
    assert_eq!(client.cache.len(), 1);

    let records = client.tracker.get_requests(None, 250);
    assert_eq!(records.len(), 3);
    // Newest first: the success, then the two failures.
    assert!(records[0].success && !records[0].cache_hit);
    assert!(!records[1].success && !records[1].cache_hit);
    assert!(!records[2].success && !records[2].cache_hit);
    let min_interval = 0u64;
    assert!(
        records[0].elapsed_ms
            > elapsed_fail.iter().sum::<u64>() + 2 * (min_interval + 1_000)
    );
}

#[test]
fn coordinator_records_a_cache_hit() {
    let mut client = Client::new(
        None,
        "https://h".to_string(),
        "agent".to_string(),
        30_000,
        0,
        0,
        60_000,
        600_000,
        600_000,
        1 << 20,
        10,
        1_000,
    );
    let query = ListQuery {
        page: None,
        category: None,
        filter: None,
        sort: None,
        order: None,
        query: None,
    };
    let (_, stored) = client.list_store(0, &query, 10);
    assert!(stored.is_some());
    let (_, hit) = client.list_cached(1, &query);
    assert_eq!(hit, stored);
    let records = client.tracker.get_requests(None, 250);
    assert_eq!(records.len(), 1);
    assert!(records[0].cache_hit && records[0].success);
    assert_eq!(records[0].elapsed_ms, 0);
}

#[test]
fn query_string_is_stable_and_drops_defaults() {
    let q = ListQuery {
        page: Some(1),
        category: Some("0_0".to_string()),
        filter: Some("0".to_string()),
        sort: Some("id".to_string()),
        order: Some("desc".to_string()),
        query: Some("".to_string()),
    };
    let q = q.remove_defaults();
    assert_eq!(q.to_query_string(), "");
    let q2 = ListQuery {
        page: Some(2),
        category: Some("1_2".to_string()),
        filter: None,
        sort: None,
        order: None,
        query: Some("hello world".to_string()),
    };
    assert_eq!(q2.to_query_string(), "p=2&c=1_2&q=hello+world");
}

#[test]
fn url_builder_renders_the_parameters() {
    let url = nyaa::urlbuild::NyaaUrlBuilder::new("https://nyaa.si/")
        .with_query("cube")
        .with_category(Category::AnimeEnglish)
        .with_filter(Filter::NoRemake)
        .with_sort(Sort::Seeders)
        .with_order(SortOrder::Descending)
        .with_offset(3)
        .build();
    assert_eq!(url, "https://nyaa.si/?q=cube&c=1_2&f=1&s=seeders&o=desc&p=3");
    let plain = nyaa::urlbuild::NyaaUrlBuilder::new("https://nyaa.si/").build();
    assert_eq!(plain, "https://nyaa.si/");
    let rss = nyaa::url_params::NyaaUrlBuilder::new("https://nyaa.si")
        .with_page("rss")
        .build();
    assert_eq!(rss, "https://nyaa.si/?p=rss");
}

#[test]
fn validate_normalizes_the_inbound_request() {
    let r = nyaa::mirror_api::MirrorListRequest {
        page: Some(0),
        category: Some("1_2".to_string()),
        sort: Some("bogus".to_string()),
        order: Some("asc".to_string()),
        filter: Some("7".to_string()),
        query: Some("".to_string()),
    }
    .validate();
    assert_eq!(r.page, Some(1));
    assert_eq!(r.category, Some("1_2".to_string()));
    assert_eq!(r.sort, None);
    assert_eq!(r.order, Some("asc".to_string()));
    assert_eq!(r.filter, None);
    assert_eq!(r.query, None);
    let r2 = nyaa::mirror_api::ListRequest {
        page: Some(4),
        category: None,
        sort: Some("seeders".to_string()),
        order: Some("down".to_string()),
        filter: Some("2".to_string()),
        query: Some("term".to_string()),
    }
    .validate();
    assert_eq!(r2.page, Some(4));
    assert_eq!(r2.sort, Some("seeders".to_string()));
    assert_eq!(r2.order, None);
    assert_eq!(r2.filter, Some("2".to_string()));
    assert_eq!(r2.query, Some("term".to_string()));
}

#[test]
fn category_codes_round_trip() {
    let c = Category::from_str("1_2").unwrap();
    assert_eq!(c, Category::AnimeEnglish);
    assert_eq!(c.to_string(), "1_2");
    assert_eq!(c.english(), "Anime - English");
    assert_eq!(Category::from_str("9_9"), Err(Error::ParseCategory));
    assert_eq!(Category::from_str("0_0").unwrap(), Category::All);
}

#[test]
fn tracker_projects_newest_first() {
    let mut t = nyaa::tracker::RequestTracker::new();
    t.track(None, 1, "https://h", "a=1", true, 10);
    t.track(None, 2, "https://h", "", false, 20);
    t.track_cached(None, 3, "https://h", "a=1");
    let rs = t.get_requests(None, 2);
    assert_eq!(rs.len(), 2);
    assert_eq!(rs[0].timestamp, 3);
    assert!(rs[0].cache_hit);
    assert_eq!(rs[1].timestamp, 2);
    assert_eq!(rs[0].path, "https://h?a=1");
    assert_eq!(rs[1].path, "https://h");
}

#[test]
fn size_round_trips_within_half_of_the_least_digit() {
    // Canonical one-decimal formatting over B, KiB, MiB and GiB: parsing
    // the formatted size lands within half of the least significant
    // digit, that is within a twentieth of the unit.
    let cases: &[(u64, u64, &str)] = &[
        (731, 1, "B"),
        (731, 1024, "KiB"),
        (215_901_798, 1 << 20, "MiB"),
        (1_073_741_824, 1 << 30, "GiB"),
        (5_400_000_000, 1 << 30, "GiB"),
    ];
    for &(bytes, unit, suffix) in cases {
        let tenths = (bytes as u128 * 10 + unit as u128 / 2) / unit as u128;
        let s = format!("{}.{} {}", tenths / 10, tenths % 10, suffix);
        let parsed = parse_size(&s).unwrap();
        let diff = if parsed > bytes { parsed - bytes } else { bytes - parsed };
        assert!(
            20 * diff as u128 <= unit as u128,
            "{s}: {parsed} vs {bytes}"
        );
    }
}

#[test]
fn per_day_statistic_counts_each_day() {
    let mut ctx = NyaaContext::new(1000);
    let mk = |id: &str, date: i64| Item {
        id: id.to_string(),
        title: "t".to_string(),
        link: "l".to_string(),
        date,
        seeders: 0,
        leechers: 0,
        downloads: 0,
        category: Category::All,
        size: 1,
        comments: 0,
        trusted: false,
        remake: false,
        download_link: None,
        magnet_link: None,
    };
    // Two items on 2025-03-29, one the day after.
    ctx.add_items(vec![mk("a", 1743231079), mk("b", 1743239642), mk("c", 1743329642)]);
    let days = ctx.get_torrent_per_day();
    assert_eq!(days.len(), 2);
    let first = days.iter().find(|d| d.date == "2025-03-29").unwrap();
    assert_eq!(first.count, 2);
    let second = days.iter().find(|d| d.date == "2025-03-30").unwrap();
    assert_eq!(second.count, 1);
}

#[test]
fn event_log_appends_and_projects() {
    let mut ctx = NyaaContext::new(1000);
    ctx.add_event(1, "fetch_list".to_string(), "{}".to_string());
    ctx.add_event(2, "rate_limit".to_string(), "{}".to_string());
    let events = ctx.get_events(10);
    assert_eq!(events.len(), 2);
    assert_eq!(events[0].date, 2);
    assert_eq!(events[0].event_type, "rate_limit");
    assert_eq!(events[1].date, 1);
}

#[test]
fn coordinator_passes_a_download_through() {
    let mut client = Client::new(
        None,
        "https://h".to_string(),
        "agent".to_string(),
        30_000,
        0,
        0,
        60_000,
        600_000,
        600_000,
        1 << 20,
        10,
        1_000,
    );
    let (_, miss) = client.download_cached(0, "7");
    assert!(miss.is_none());
    let r = client.download_fetched(0, "7", 404, "not found", 9);
    assert!(matches!(r, Err(Error::HttpStatus(404, _))));
    let r2 = client.download_fetched(1, "7", 200, "", 12);
    assert!(r2.is_ok());
    let (_, stored) = client.download_store(1, "7", 64);
    assert!(stored.is_some());
    let (_, hit) = client.download_cached(2, "7");
    assert_eq!(hit, stored);
    let records = client.tracker.get_requests(None, 10);
    assert_eq!(records.len(), 3);
    assert!(records[0].cache_hit && records[0].success);
    assert!(records[1].success && !records[1].cache_hit);
    assert!(!records[2].success && !records[2].cache_hit);
}

#[test]
fn unknown_content_type_carries_its_value() {
    let mut client = Client::new(
        None,
        "https://h".to_string(),
        "agent".to_string(),
        30_000,
        0,
        0,
        60_000,
        600_000,
        600_000,
        1 << 20,
        10,
        1_000,
    );
    let query = ListQuery {
        page: None,
        category: None,
        filter: None,
        sort: None,
        order: None,
        query: None,
    };
    let r = client.list_fetched(0, &query, 200, "image/png", "", 3);
    match r {
        Err(Error::UnsupportedContentType(v)) => assert_eq!(v, "image/png"),
        other => panic!("unexpected result: {other:?}"),
    }
}

#[test]
fn markdown_description_is_rendered() {
    let html = nyaa::front::render_markdown("some **bold** text");
    assert!(html.contains("<strong>bold</strong>"));
    assert_ne!(html, "some **bold** text");
}

#[test]
fn cache_entry_expiring_exactly_now_is_gone() {
    let mut c = Cache::new(100);
    let (_, r) = c.put(0, "u", "X", 1_000, 10);
    assert!(r.is_ok());
    let (removed, hit) = c.get(1_000, "u", "X");
    assert!(hit.is_none());
    assert_eq!(removed.len(), 1);
    assert_eq!(c.total_size, 0);
}

#[test]
fn seed_url_codes_are_named() {
    assert_eq!(nyaa::url_params::Sort::Seeders.as_str(), "seeders");
    assert_eq!(nyaa::url_params::Sort::Comments.as_str(), "comments");
    assert_eq!(nyaa::url_params::Sort::Date.as_str(), "id");
    assert_eq!(nyaa::url_params::Order::Ascending.as_str(), "asc");
    assert_eq!(nyaa::url_params::Order::Descending.as_str(), "desc");
    assert_eq!(nyaa::url_params::Filter::NoRemakes.as_str(), "1");
    assert_eq!(nyaa::url_params::Category::Anime.as_str(), "1_0");
    let url = nyaa::url_params::NyaaUrlBuilder::new("https://nyaa.si")
        .with_query("x")
        .with_sort(nyaa::url_params::Sort::Seeders)
        .with_order(nyaa::url_params::Order::Descending)
        .build();
    assert_eq!(url, "https://nyaa.si/?q=x&s=seeders&o=desc");
}
