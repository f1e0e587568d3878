use web_samples::hero::{
    deserialize_abilities as read_abilities, handle_panic, healthcheck_json, hero_location,
    serialize_abilities as write_abilities, AppConfiguration, Environment, ApiError, GetHeroFilter,
    HealthcheckResponseDto, Hero, HeroPkVersion, IdentifyableHero, ProblemDetail,
};

#[test]
fn serialize_abilities() {
    let written = write_abilities(&Some(vec!["a".to_string(), "b".to_string()]));
    assert_eq!("a, b", written.unwrap());
}

#[test]
fn serialize_none() {
    assert!(write_abilities(&None).is_none());
}

#[test]
fn deserialize_abilities() {
    let read = read_abilities(Some("a, b"));
    assert_eq!(vec!["a", "b"], read.unwrap());
}

#[test]
fn deserialize_none() {
    assert!(read_abilities(None).is_none());
}

#[test]
fn abilities_edge_cases() {
    assert_eq!(read_abilities(Some("")).unwrap(), vec![""]);
    assert_eq!(read_abilities(Some(" fly ,, x-ray vision ")).unwrap(), vec!["fly", "", "x-ray vision"]);
    assert_eq!(write_abilities(&Some(vec![])).unwrap(), "");
    assert_eq!(write_abilities(&Some(vec!["one".to_string()])).unwrap(), "one");
}

#[test]
fn healthchecks() {
    let config = AppConfiguration { env: Environment::Development, version: "1.0.0" };
    assert_eq!(healthcheck_json(&config), r#"{"version":"1.0.0","env":"Development"}"#);
    let dto = HealthcheckResponseDto::new(&config);
    assert_eq!(dto.version, "1.0.0");
    assert_eq!(dto.env, Environment::Development);
}

#[test]
fn environment_names() {
    assert_eq!(Environment::Test.name(), "Test");
    assert_eq!(Environment::Production.name(), format!("{:?}", Environment::Production));
}

#[test]
fn get_heroes() {
    let filter = GetHeroFilter { name_filter: Some("Super%".to_string()) };
    assert_eq!(filter.name_pattern(), "Super%");
    assert_eq!(GetHeroFilter { name_filter: None }.name_pattern(), "%");
}

#[test]
fn validation_limits_abilities() {
    let mut hero = Hero { name: "Superman".to_string(), ..Default::default() };
    assert!(hero.validate().is_ok());
    hero.abilities = Some((0..5).map(|i| i.to_string()).collect());
    assert!(hero.validate().is_ok());
    hero.abilities = Some((0..6).map(|i| i.to_string()).collect());
    assert!(matches!(hero.validate(), Err(ApiError::InvalidEntity(_))));
}

#[test]
fn inserted_hero_location() {
    assert_eq!(hero_location(42), "/heroes/42");
    assert_eq!(hero_location(0), "/heroes/0");
    assert_eq!(hero_location(-7), "/heroes/-7");
    assert_eq!(hero_location(i64::MIN), "/heroes/-9223372036854775808");
    assert_eq!(hero_location(i64::MAX), "/heroes/9223372036854775807");
    let stored = IdentifyableHero::new(Hero::default(), HeroPkVersion { id: 3, version: 1 });
    assert_eq!(stored.id, 3);
    assert_eq!(stored.version, 1);
}

#[test]
fn problems_of_errors() {
    let p = ApiError::InvalidEntity("bad".to_string()).problem();
    assert_eq!(p.status, 422);
    assert_eq!(p.type_url, "https://example.com/errors/unprocessable-entity");
    assert_eq!(p.title, "Unprocessable entity in request body");
    assert_eq!(p.detail.as_deref(), Some("bad"));
    let p = ApiError::Database("down".to_string()).problem();
    assert_eq!(p.status, 500);
    assert_eq!(p.type_url, "https://example.com/errors/internal-error");
    assert_eq!(p.title, "Internal Server Error");
    assert_eq!(p.detail, None);
    assert_eq!(ApiError::Internal("x".to_string()).problem().status, 500);
}

#[test]
fn problems_of_panics_and_details() {
    let p = handle_panic(Some("boom"));
    assert_eq!(p.status, 500);
    assert_eq!(p.detail.as_deref(), Some("boom"));
    assert_eq!(handle_panic(None).detail, None);
    let p = ProblemDetail::UnprocessableEntity("name missing").problem();
    assert_eq!(p.status, 422);
    assert_eq!(p.detail.as_deref(), Some("name missing"));
}
