use climate_risk_map::model::data_category::{category_to_create, next_order, with_drafts, DataCategoryCreation};
use climate_risk_map::model::map_visualization_collection::{collection_to_create, Id};
use climate_risk_map::config::Config;
use climate_risk_map::controller::state_controller::states_to_map;
use climate_risk_map::decimal::{is_float_text_exec, parse_i32_exec};
use climate_risk_map::model::date::{year_end, year_start, Date};
use climate_risk_map::model::geo_id::State;

#[test]
fn integers_parse_as_std_does() {
    for text in ["0", "17", "+5", "-12", "007", "2147483647", "-2147483648", "2147483648", "-2147483649", "", "-", "+", "1a", " 1", "1.0", "99999999999999999999"] {
        assert_eq!(parse_i32_exec(text), text.parse::<i32>().ok(), "text {text:?}");
    }
}

#[test]
fn float_texts_are_those_std_accepts() {
    for text in ["1", "1.5", ".5", "5.", "1e10", "1E-3", "+2.5e+7", "inf", "-NaN", "Infinity", "INF", "", ".", "e5", "1.2.3", " 1", "1e", "1e+", "nan1", "--1", "17.7", "0x10", "1_000"] {
        assert_eq!(is_float_text_exec(text), text.parse::<f64>().is_ok(), "text {text:?}");
    }
}

#[test]
fn years_in_the_calendar_range() {
    assert_eq!(year_start(2020), Some(Date { year: 2020, month: 1, day: 1 }));
    assert_eq!(year_end(2020), Some(Date { year: 2020, month: 12, day: 31 }));
    assert!(year_start(262142).is_some());
    assert!(year_start(262143).is_none());
    assert!(year_end(-262143).is_some());
    assert!(year_end(-262144).is_none());
}

#[test]
fn config_addresses() {
    let config = Config::new("127.0.0.1".to_string(), 8080, 8081, "postgres://db".to_string());
    assert_eq!(config.app_url(), "127.0.0.1:8080");
    assert_eq!(config.editor_url(), "127.0.0.1:8081");
    assert_eq!(config.database_url(), "postgres://db");
}

#[test]
fn states_keyed_by_id() {
    let states = vec![
        State { id: 1, name: "Alabama".to_string() },
        State { id: 2, name: "Alaska".to_string() },
        State { id: 1, name: "Alabama again".to_string() },
    ];
    let map = states_to_map(states);
    assert_eq!(map.len(), 2);
    assert_eq!(map[&1].name, "Alabama again");
    assert_eq!(map[&2].name, "Alaska");
}

#[test]
fn orders_follow_the_last_taken() {
    assert_eq!(next_order(None), Some(1));
    assert_eq!(next_order(Some(4)), Some(5));
    assert_eq!(next_order(Some(i16::MAX)), None);
    let creation = DataCategoryCreation { name: "Climate".to_string(), normalized: true };
    let c = category_to_create(&creation, Some(2)).unwrap();
    assert_eq!((c.id, c.name.as_str(), c.normalized, c.order), (0, "Climate", true, 3));
    let placed = collection_to_create(&Id { category: 3, map_visualization: 9 }, None).unwrap();
    assert_eq!((placed.order, placed.category, placed.map_visualization), (1, 3, 9));
    let all = with_drafts(vec![c.clone()], true);
    assert_eq!(all.len(), 2);
    assert_eq!((all[1].id, all[1].name.as_str(), all[1].order), (-1, "drafts", 0));
    assert_eq!(with_drafts(vec![c], false).len(), 1);
}
