use cube_sampler::card::Card;
use cube_sampler::export::csv_filename;
use cube_sampler::export::download_link;
use cube_sampler::export::export_pool;
use cube_sampler::export::generate_csv;
use cube_sampler::fetch::build_url;
use cube_sampler::fetch::process_cards;
use cube_sampler::fetch::run_fetch;
use cube_sampler::fetch::FetchQuery;
use cube_sampler::fetch::FetchStatus;
use cube_sampler::fetch::Fetcher;
use cube_sampler::fetch::HttpReply;
use cube_sampler::json::parse_page;
use cube_sampler::sample::generate_pool;
use cube_sampler::sample::partition;
use cube_sampler::sample::PackSpec;

fn card(name: &str, rarity: Option<&str>) -> Card {
    Card { name: name.to_string(), rarity: rarity.map(|r| r.to_string()) }
}

fn page_body(names_rarities: &[(&str, Option<&str>)], next_page: Option<&str>) -> String {
    let data: Vec<String> = names_rarities
        .iter()
        .map(|(n, r)| match r {
            Some(r) => format!("{{\"name\":\"{}\",\"rarity\":\"{}\"}}", n, r),
            None => format!("{{\"name\":\"{}\"}}", n),
        })
        .collect();
    let next = match next_page {
        Some(u) => format!("\"{}\"", u),
        None => "null".to_string(),
    };
    format!(
        "{{\"object\":\"list\",\"total_cards\":{},\"has_more\":{},\"next_page\":{},\"data\":[{}]}}",
        names_rarities.len(),
        next_page.is_some(),
        next,
        data.join(",")
    )
}

#[test]
fn parse_page_reads_a_page() {
    let body = page_body(
        &[("Opt", Some("common")), ("Shark Typhoon", Some("rare"))],
        Some("https://api.example.com/page2"),
    );
    let page = parse_page(&body).expect("well-formed page");
    assert_eq!(page.cards.len(), 2);
    assert_eq!(page.cards[0].name, "Opt");
    assert_eq!(page.cards[0].rarity.as_deref(), Some("common"));
    assert_eq!(page.cards[1].name, "Shark Typhoon");
    assert_eq!(page.next_page.as_deref(), Some("https://api.example.com/page2"));
    assert!(page.has_more);
}

#[test]
fn parse_page_rejects_invalid_json() {
    assert!(parse_page("this is not json").is_none());
}

#[test]
fn parse_page_rejects_missing_data() {
    assert!(parse_page("{\"object\":\"list\",\"has_more\":false}").is_none());
}

#[test]
fn parse_page_rejects_non_string_name() {
    let body = "{\"has_more\":false,\"next_page\":null,\"data\":[{\"name\":7}]}";
    assert!(parse_page(body).is_none());
}

#[test]
fn parse_page_rejects_missing_has_more() {
    let body = "{\"next_page\":null,\"data\":[]}";
    assert!(parse_page(body).is_none());
}

#[test]
fn parse_page_absent_or_null_rarity() {
    let body = "{\"has_more\":false,\"next_page\":null,\"data\":[{\"name\":\"A\"},{\"name\":\"B\",\"rarity\":null}]}";
    let page = parse_page(body).expect("well-formed page");
    assert_eq!(page.cards[0].rarity, None);
    assert_eq!(page.cards[1].rarity, None);
    assert_eq!(page.next_page, None);
    assert!(!page.has_more);
}

#[test]
fn process_cards_strips_rarity() {
    let raw = vec![card("A", Some("rare")), card("B", Some("common")), card("C", None)];
    let stripped = process_cards(&raw, false);
    assert_eq!(stripped.len(), 3);
    for c in &stripped {
        assert_eq!(c.rarity, None);
    }
    assert_eq!(stripped[0].name, "A");
    assert_eq!(stripped[2].name, "C");
}

#[test]
fn process_cards_keeps_rarity_when_tracked() {
    let raw = vec![card("A", Some("rare")), card("B", None)];
    let kept = process_cards(&raw, true);
    assert_eq!(kept[0].rarity.as_deref(), Some("rare"));
    assert_eq!(kept[1].rarity, None);
}

#[test]
fn build_url_matches_the_search_endpoint() {
    let query = FetchQuery::new(vec!["akh".to_string(), "dom".to_string()], true).unwrap();
    let url = build_url(&query);
    assert_eq!(
        url,
        "https://api.scryfall.com/cards/search?order=name&format=json&q=(-t%3ABasic+AND+game%3Apaper+AND+(set%3Aakh+OR+set%3Adom))&page=1"
    );
}

#[test]
fn fetch_query_requires_a_set() {
    assert!(FetchQuery::new(Vec::new(), true).is_none());
}

#[test]
fn pagination_consumes_all_pages_in_order() {
    let query = FetchQuery::new(vec!["akh".to_string()], true).unwrap();
    let replies = vec![
        HttpReply { ok: true, body: page_body(&[("A", Some("rare"))], Some("https://x/2")) },
        HttpReply { ok: true, body: page_body(&[("B", Some("common"))], Some("https://x/3")) },
        HttpReply { ok: true, body: page_body(&[("C", Some("uncommon"))], None) },
    ];
    let fetcher = run_fetch(&query, 50, &replies);
    assert_eq!(fetcher.status, FetchStatus::Complete);
    assert_eq!(fetcher.requests, 3);
    assert_eq!(fetcher.pages_fetched, 3);
    let names: Vec<&str> = fetcher.cards.iter().map(|c| c.name.as_str()).collect();
    assert_eq!(names, vec!["A", "B", "C"]);
}

#[test]
fn partial_result_on_http_failure() {
    let query = FetchQuery::new(vec!["akh".to_string()], true).unwrap();
    let replies = vec![
        HttpReply { ok: true, body: page_body(&[("A", Some("rare"))], Some("https://x/2")) },
        HttpReply { ok: true, body: page_body(&[("B", Some("common"))], Some("https://x/3")) },
        HttpReply { ok: false, body: String::new() },
    ];
    let fetcher = run_fetch(&query, 50, &replies);
    assert_eq!(fetcher.status, FetchStatus::Partial);
    assert_eq!(fetcher.requests, 3);
    let names: Vec<&str> = fetcher.cards.iter().map(|c| c.name.as_str()).collect();
    assert_eq!(names, vec!["A", "B"]);
}

#[test]
fn partial_result_on_malformed_body() {
    let query = FetchQuery::new(vec!["akh".to_string()], true).unwrap();
    let replies = vec![
        HttpReply { ok: true, body: page_body(&[("A", Some("rare"))], Some("https://x/2")) },
        HttpReply { ok: true, body: "{\"oops\"".to_string() },
    ];
    let fetcher = run_fetch(&query, 50, &replies);
    assert_eq!(fetcher.status, FetchStatus::Partial);
    let names: Vec<&str> = fetcher.cards.iter().map(|c| c.name.as_str()).collect();
    assert_eq!(names, vec!["A"]);
}

#[test]
fn page_cap_stops_an_endless_cursor_chain() {
    let query = FetchQuery::new(vec!["akh".to_string()], true).unwrap();
    let replies = vec![
        HttpReply { ok: true, body: page_body(&[("A", None)], Some("https://x/2")) },
        HttpReply { ok: true, body: page_body(&[("B", None)], Some("https://x/3")) },
    ];
    let fetcher = run_fetch(&query, 1, &replies);
    assert_eq!(fetcher.status, FetchStatus::Partial);
    assert_eq!(fetcher.requests, 1);
    let names: Vec<&str> = fetcher.cards.iter().map(|c| c.name.as_str()).collect();
    assert_eq!(names, vec!["A"]);
}

#[test]
fn fetch_stays_in_progress_when_replies_run_out() {
    let query = FetchQuery::new(vec!["akh".to_string()], true).unwrap();
    let replies = vec![
        HttpReply { ok: true, body: page_body(&[("A", None)], Some("https://x/2")) },
    ];
    let fetcher = run_fetch(&query, 50, &replies);
    assert_eq!(fetcher.status, FetchStatus::InProgress);
    assert_eq!(fetcher.requests, 1);
    assert_eq!(fetcher.url, "https://x/2");
}

#[test]
fn huge_pack_totals_saturate_at_the_tier_size() {
    let cube = vec![card("R", Some("rare")), card("C1", Some("common")), card("C2", Some("common"))];
    let spec = PackSpec {
        pack_count: usize::MAX,
        rares_per_pack: 2,
        uncommons_per_pack: 3,
        commons_per_pack: usize::MAX,
    };
    let pool = generate_pool(&cube, &spec);
    assert_eq!(pool.len(), 3);
}

#[test]
fn stepping_follows_the_cursor() {
    let query = FetchQuery::new(vec!["akh".to_string()], false).unwrap();
    let mut fetcher = Fetcher::new(&query, 10);
    assert!(fetcher.in_progress());
    let reply = HttpReply {
        ok: true,
        body: page_body(&[("A", Some("rare"))], Some("https://x/2")),
    };
    fetcher.step(&reply);
    assert!(fetcher.in_progress());
    assert_eq!(fetcher.url, "https://x/2");
    assert_eq!(fetcher.cards[0].rarity, None);
}

#[test]
fn sampling_respects_tier_caps_and_draws_distinct_cards() {
    let mut cube = Vec::new();
    for i in 0..5 {
        cube.push(card(&format!("R{}", i), Some(if i % 2 == 0 { "rare" } else { "mythic" })));
        cube.push(card(&format!("U{}", i), Some("uncommon")));
        cube.push(card(&format!("C{}", i), Some("common")));
    }
    let spec = PackSpec {
        pack_count: 2,
        rares_per_pack: 1,
        uncommons_per_pack: 3,
        commons_per_pack: 10,
    };
    let pool = generate_pool(&cube, &spec);
    assert_eq!(pool.len(), 2 + 5 + 5);
    let rarity_of = |c: &Card| c.rarity.as_deref().unwrap().to_string();
    for c in &pool[0..2] {
        assert!(rarity_of(c) == "rare" || rarity_of(c) == "mythic");
    }
    for c in &pool[2..7] {
        assert_eq!(rarity_of(c), "uncommon");
    }
    for c in &pool[7..12] {
        assert_eq!(rarity_of(c), "common");
    }
    let mut names: Vec<String> = pool.iter().map(|c| c.name.clone()).collect();
    names.sort();
    names.dedup();
    assert_eq!(names.len(), pool.len(), "a card was drawn twice");
    let cube_names: Vec<String> = cube.iter().map(|c| c.name.clone()).collect();
    for n in &names {
        assert!(cube_names.contains(n), "a drawn card is not in the cube");
    }
}

#[test]
fn sampling_never_draws_a_card_without_rarity() {
    let cube = vec![
        card("Nameless", None),
        card("Oddball", Some("special")),
        card("R", Some("rare")),
        card("C", Some("common")),
    ];
    let spec = PackSpec {
        pack_count: 10,
        rares_per_pack: 10,
        uncommons_per_pack: 10,
        commons_per_pack: 10,
    };
    for _ in 0..20 {
        let pool = generate_pool(&cube, &spec);
        assert!(pool.iter().all(|c| c.name != "Nameless"));
        assert!(pool.iter().all(|c| c.name != "Oddball"));
        assert_eq!(pool.len(), 2);
    }
}

#[test]
fn partition_splits_by_tier_in_cube_order() {
    let cube = vec![
        card("M", Some("mythic")),
        card("C1", Some("common")),
        card("U", Some("uncommon")),
        card("R", Some("rare")),
        card("X", None),
        card("C2", Some("common")),
    ];
    let (rares, uncommons, commons) = partition(&cube);
    let names = |v: &Vec<Card>| v.iter().map(|c| c.name.clone()).collect::<Vec<_>>();
    assert_eq!(names(&rares), vec!["M", "R"]);
    assert_eq!(names(&uncommons), vec!["U"]);
    assert_eq!(names(&commons), vec!["C1", "C2"]);
}

#[test]
fn csv_of_empty_pool_is_the_header_alone() {
    let pool: Vec<Card> = Vec::new();
    assert_eq!(generate_csv(&pool), "name\n");
}

#[test]
fn csv_of_one_card() {
    let pool = vec![card("Lightning Bolt", Some("common"))];
    assert_eq!(generate_csv(&pool), "name\n\"Lightning Bolt\"\n");
}

#[test]
fn csv_never_exports_rarity() {
    let pool = vec![card("A", Some("rare")), card("B", None)];
    assert_eq!(generate_csv(&pool), "name\n\"A\"\n\"B\"\n");
}

#[test]
fn download_link_encodes_the_csv() {
    assert_eq!(download_link("name\n"), "data:text/csv;base64,bmFtZQo=");
}

#[test]
fn export_names_the_file_and_encodes_the_pool() {
    let pool: Vec<Card> = Vec::new();
    let (filename, link) = export_pool("pool", &pool);
    assert_eq!(filename, "pool.csv");
    assert_eq!(link, "data:text/csv;base64,bmFtZQo=");
    assert_eq!(csv_filename("my cube"), "my cube.csv");
}
