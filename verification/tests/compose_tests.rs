use scenario_api::query::{compose, QueryParam, ScenarioFilters};

const BASE: &str = "SELECT s.id, s.title, s.type as kind, s.temperature_target, s.description, p.name as publisher, s.published_date, s.target_year FROM pbtar.scenarios s LEFT JOIN pbtar.publishers p ON s.publisher_id = p.id WHERE 1=1";
const ORDER: &str = " ORDER BY s.published_date DESC";

fn no_filters() -> ScenarioFilters {
    ScenarioFilters::none()
}

#[test]
fn compose_empty_filters_gives_base_query() {
    let (sql, params) = compose(&no_filters());
    assert_eq!(sql.as_str(), format!("{}{}", BASE, ORDER));
    assert_eq!(params.len(), 0);
}

#[test]
fn compose_region_filter_only() {
    let filters = ScenarioFilters { region_id: Some(7), ..no_filters() };
    let (sql, params) = compose(&filters);
    let expected = format!(
        "{} AND s.id IN (SELECT scenario_id FROM pbtar.scenario_regions WHERE region_id = $1){}",
        BASE, ORDER
    );
    assert_eq!(sql.as_str(), expected);
    assert_eq!(params.len(), 1);
    assert!(matches!(params[0], QueryParam::IntValue(7)));
}

#[test]
fn compose_kind_clause_before_year_from() {
    let filters = ScenarioFilters {
        kind: Some(String::from("X")),
        year_from: Some(2030),
        ..no_filters()
    };
    let (sql, params) = compose(&filters);
    let expected = format!("{} AND s.type = $1 AND s.target_year >= $2{}", BASE, ORDER);
    assert_eq!(sql.as_str(), expected);
    assert_eq!(params.len(), 2);
    assert!(matches!(params[0], QueryParam::TextValue(ref s) if s == "X"));
    assert!(matches!(params[1], QueryParam::IntValue(2030)));
}

#[test]
fn compose_all_filters_fixed_order() {
    let filters = ScenarioFilters {
        publisher_id: Some(1),
        region_id: Some(2),
        stakeholder_id: Some(3),
        sector_id: Some(4),
        kind: Some(String::from("policy")),
        temperature_target: Some(String::from("1.5")),
        year_from: Some(2020),
        year_to: Some(2050),
    };
    let (sql, params) = compose(&filters);
    let expected = String::from(BASE)
        + " AND s.publisher_id = $1"
        + " AND s.id IN (SELECT scenario_id FROM pbtar.scenario_regions WHERE region_id = $2)"
        + " AND s.id IN (SELECT scenario_id FROM pbtar.scenario_stakeholders WHERE stakeholder_id = $3)"
        + " AND s.id IN (SELECT scenario_id FROM pbtar.scenario_sectors WHERE sector_id = $4)"
        + " AND s.type = $5"
        + " AND s.temperature_target = $6"
        + " AND s.target_year >= $7"
        + " AND s.target_year <= $8"
        + ORDER;
    assert_eq!(sql.as_str(), expected);
    assert_eq!(params.len(), 8);
    assert!(matches!(params[0], QueryParam::IntValue(1)));
    assert!(matches!(params[1], QueryParam::IntValue(2)));
    assert!(matches!(params[2], QueryParam::IntValue(3)));
    assert!(matches!(params[3], QueryParam::IntValue(4)));
    assert!(matches!(params[4], QueryParam::TextValue(ref s) if s == "policy"));
    assert!(matches!(params[5], QueryParam::TextValue(ref s) if s == "1.5"));
    assert!(matches!(params[6], QueryParam::IntValue(2020)));
    assert!(matches!(params[7], QueryParam::IntValue(2050)));
}

#[test]
fn compose_never_interpolates_values() {
    let filters = ScenarioFilters {
        publisher_id: Some(999),
        kind: Some(String::from("'; DROP TABLE pbtar.scenarios; --")),
        ..no_filters()
    };
    let (sql, params) = compose(&filters);
    assert!(!sql.as_str().contains("999"));
    assert!(!sql.as_str().contains("DROP TABLE"));
    assert_eq!(params.len(), 2);
}

#[test]
fn compose_same_shape_gives_same_text() {
    let a = ScenarioFilters { publisher_id: Some(1), year_to: Some(2030), ..no_filters() };
    let b = ScenarioFilters { publisher_id: Some(77), year_to: Some(2099), ..no_filters() };
    let (sql_a, _) = compose(&a);
    let (sql_b, _) = compose(&b);
    assert_eq!(sql_a.as_str(), sql_b.as_str());
}
