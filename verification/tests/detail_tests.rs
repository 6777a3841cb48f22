use scenario_api::scenario::{Publisher, Region, Scenario, Sector, Stakeholder};
use scenario_api::store::{ScenarioLink, Store};

fn empty_store() -> Store {
    Store {
        scenarios: vec![],
        publishers: vec![],
        regions: vec![],
        stakeholders: vec![],
        sectors: vec![],
        scenario_regions: vec![],
        scenario_stakeholders: vec![],
        scenario_sectors: vec![],
        users: vec![],
    }
}

fn scenario(id: i32, title: &str, publisher_id: Option<i32>) -> Scenario {
    Scenario {
        id,
        title: String::from(title),
        kind: String::from("pathway"),
        temperature_target: None,
        description: None,
        publisher_id,
        published_date: None,
        target_year: None,
        created_at: 0,
        updated_at: 0,
    }
}

#[test]
fn get_detail_absent_id_is_not_found() {
    let store = empty_store();
    let err = store.get_detail(42).unwrap_err();
    assert_eq!(err.status_code(), 404);
    let body = err.error_response();
    assert_eq!(body.status.as_str(), "404 Not Found");
    assert_eq!(body.message.as_str(), "Not found: Scenario not found");
}

#[test]
fn get_detail_net_zero_fixture() {
    let mut store = empty_store();
    store.scenarios.push(scenario(42, "Net Zero 2050", None));
    let detail = store.get_detail(42).unwrap();
    assert_eq!(detail.id, 42);
    assert_eq!(detail.title.as_str(), "Net Zero 2050");
    assert!(detail.publisher.is_none());
    assert!(detail.regions.is_empty());
    assert!(detail.stakeholders.is_empty());
    assert!(detail.sectors.is_empty());
}

#[test]
fn get_detail_embeds_publisher_and_collections() {
    let mut store = empty_store();
    store.scenarios.push(scenario(1, "Deep Decarbonisation", Some(9)));
    store.scenarios.push(scenario(2, "Business As Usual", None));
    store.publishers.push(Publisher {
        id: 9,
        name: String::from("Climate Lab"),
        description: Some(String::from("a lab")),
    });
    store.regions.push(Region { id: 11, name: String::from("Europe"), parent_id: None });
    store.regions.push(Region { id: 12, name: String::from("Asia"), parent_id: None });
    store.stakeholders.push(Stakeholder {
        id: 21,
        name: String::from("Utilities"),
        kind: String::from("industry"),
    });
    store.sectors.push(Sector { id: 31, name: String::from("Power") });
    store.sectors.push(Sector { id: 32, name: String::from("Transport") });
    store.scenario_regions.push(ScenarioLink { scenario_id: 1, entity_id: 12 });
    store.scenario_stakeholders.push(ScenarioLink { scenario_id: 1, entity_id: 21 });
    store.scenario_sectors.push(ScenarioLink { scenario_id: 1, entity_id: 31 });
    store.scenario_sectors.push(ScenarioLink { scenario_id: 2, entity_id: 32 });

    let detail = store.get_detail(1).unwrap();
    let publisher = detail.publisher.expect("publisher must be embedded");
    assert_eq!(publisher.id, 9);
    assert_eq!(publisher.name.as_str(), "Climate Lab");
    assert_eq!(detail.regions.len(), 1);
    assert_eq!(detail.regions[0].id, 12);
    assert_eq!(detail.stakeholders.len(), 1);
    assert_eq!(detail.stakeholders[0].id, 21);
    assert_eq!(detail.sectors.len(), 1);
    assert_eq!(detail.sectors[0].id, 31);

    let other = store.get_detail(2).unwrap();
    assert!(other.publisher.is_none());
    assert!(other.regions.is_empty());
    assert_eq!(other.sectors.len(), 1);
    assert_eq!(other.sectors[0].id, 32);
}

#[test]
fn get_filter_options_sorted_and_distinct() {
    let mut store = empty_store();
    let mut s1 = scenario(1, "A", None);
    s1.kind = String::from("normative");
    s1.temperature_target = Some(String::from("2.0"));
    let mut s2 = scenario(2, "B", None);
    s2.kind = String::from("exploratory");
    s2.temperature_target = None;
    let mut s3 = scenario(3, "C", None);
    s3.kind = String::from("normative");
    s3.temperature_target = Some(String::from("1.5"));
    store.scenarios.push(s1);
    store.scenarios.push(s2);
    store.scenarios.push(s3);
    store.publishers.push(Publisher {
        id: 1,
        name: String::from("Zenith"),
        description: Some(String::from("z")),
    });
    store.publishers.push(Publisher { id: 2, name: String::from("Acme"), description: None });
    store.regions.push(Region { id: 1, name: String::from("South"), parent_id: None });
    store.regions.push(Region { id: 2, name: String::from("North"), parent_id: None });

    let options = store.get_filter_options();
    assert_eq!(options.publishers.len(), 2);
    assert_eq!(options.publishers[0].name.as_str(), "Acme");
    assert_eq!(options.publishers[1].name.as_str(), "Zenith");
    assert!(options.publishers[0].description.is_none());
    assert!(options.publishers[1].description.is_none());
    assert_eq!(options.regions.len(), 2);
    assert_eq!(options.regions[0].name.as_str(), "North");
    assert_eq!(options.regions[1].name.as_str(), "South");
    let kinds: Vec<&str> = options.kinds.iter().map(|s| s.as_str()).collect();
    assert_eq!(kinds, vec!["exploratory", "normative"]);
    let targets: Vec<&str> = options.temperature_targets.iter().map(|s| s.as_str()).collect();
    assert_eq!(targets, vec!["1.5", "2.0"]);
    assert!(options.stakeholders.is_empty());
    assert!(options.sectors.is_empty());
}

#[test]
fn get_filter_options_keeps_rows_with_equal_names() {
    let mut store = empty_store();
    store.publishers.push(Publisher { id: 2, name: String::from("Same"), description: None });
    store.publishers.push(Publisher { id: 1, name: String::from("Same"), description: None });
    let options = store.get_filter_options();
    assert_eq!(options.publishers.len(), 2);
    assert_eq!(options.publishers[0].name.as_str(), "Same");
    assert_eq!(options.publishers[1].name.as_str(), "Same");
    let mut ids: Vec<i32> = options.publishers.iter().map(|p| p.id).collect();
    ids.sort();
    assert_eq!(ids, vec![1, 2]);
}

#[test]
fn merge_detail_absent_row_is_not_found() {
    let err = scenario_api::store::merge_detail(None, None, vec![], vec![], vec![]).unwrap_err();
    assert_eq!(err.status_code(), 404);
}

#[test]
fn merge_detail_carries_rows_through_unchanged() {
    let row = scenario(5, "Current Policies", Some(9));
    let publisher = Some(Publisher { id: 9, name: String::from("Lab"), description: None });
    let regions = vec![Region { id: 1, name: String::from("Global"), parent_id: None }];
    let detail =
        scenario_api::store::merge_detail(Some(row), publisher, regions, vec![], vec![]).unwrap();
    assert_eq!(detail.id, 5);
    assert_eq!(detail.title.as_str(), "Current Policies");
    assert_eq!(detail.publisher.as_ref().unwrap().id, 9);
    assert_eq!(detail.regions.len(), 1);
    assert_eq!(detail.regions[0].name.as_str(), "Global");
    assert!(detail.stakeholders.is_empty());
    assert!(detail.sectors.is_empty());
}
