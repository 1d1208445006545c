use orbite::config::{read, read_initial_state, read_str, ConfigError, InitialState, Section};

fn section_of(pairs: &[(&str, &str)]) -> Section {
    let mut s = Section::new();
    for (k, v) in pairs {
        s.push(k.to_string(), v.to_string());
    }
    s
}

#[test]
fn get_returns_first_binding() {
    let s = section_of(&[("nb", "10"), ("nb", "20")]);
    assert_eq!(s.get("nb"), Some("10".to_string()));
    assert_eq!(s.get("absent"), None);
}

#[test]
fn read_parses_counting_setting() {
    let s = section_of(&[("nb_particules", "100"), ("nb_bins", "+8")]);
    assert!(matches!(read(&s, "nb_particules"), Ok(100)));
    assert!(matches!(read(&s, "nb_bins"), Ok(8)));
}

#[test]
fn read_reports_missing_key() {
    let s = section_of(&[("nb", "10")]);
    match read(&s, "nb_save") {
        Err(ConfigError::Missing(k)) => assert_eq!(k, "nb_save"),
        other => panic!("expected a missing-key error, got {:?}", other),
    }
}

#[test]
fn read_reports_invalid_value() {
    let s = section_of(&[("nb", "ten"), ("mu", "12.5")]);
    match read(&s, "nb") {
        Err(ConfigError::Invalid(k)) => assert_eq!(k, "nb"),
        other => panic!("expected an invalid-value error, got {:?}", other),
    }
    assert!(matches!(read(&s, "mu"), Err(ConfigError::Invalid(_))));
}

#[test]
fn read_str_returns_raw_text() {
    let s = section_of(&[("folder", "sim")]);
    match read_str(&s, "folder") {
        Ok(v) => assert_eq!(v, "sim"),
        other => panic!("expected the bound text, got {:?}", other),
    }
    assert!(matches!(read_str(&s, "f"), Err(ConfigError::Missing(_))));
}

#[test]
fn initial_state_selects_plummer() {
    let s = section_of(&[("initial_state", "0")]);
    assert!(matches!(read_initial_state(&s), Ok(InitialState::Plummer)));
}

#[test]
fn initial_state_selects_uniform() {
    let s = section_of(&[("initial_state", "1")]);
    assert!(matches!(read_initial_state(&s), Ok(InitialState::Uniform)));
}

#[test]
fn initial_state_selects_henon() {
    let s = section_of(&[("initial_state", "2")]);
    assert!(matches!(read_initial_state(&s), Ok(InitialState::Henon)));
}

#[test]
fn initial_state_selects_custom_with_path() {
    let s = section_of(&[("initial_state", "3"), ("custom_init_path", "init.dat")]);
    match read_initial_state(&s) {
        Ok(InitialState::Custom(path)) => assert_eq!(path, "init.dat"),
        other => panic!("expected the custom model, got {:?}", other),
    }
}

#[test]
fn initial_state_custom_needs_path() {
    let s = section_of(&[("initial_state", "3")]);
    match read_initial_state(&s) {
        Err(ConfigError::Missing(k)) => assert_eq!(k, "custom_init_path"),
        other => panic!("expected a missing-path error, got {:?}", other),
    }
}

#[test]
fn initial_state_rejects_unknown_selector() {
    let s = section_of(&[("initial_state", "4")]);
    assert!(matches!(
        read_initial_state(&s),
        Err(ConfigError::UnknownModel(4))
    ));
}

#[test]
fn initial_state_reports_missing_selector() {
    let s = section_of(&[]);
    match read_initial_state(&s) {
        Err(ConfigError::Missing(k)) => assert_eq!(k, "initial_state"),
        other => panic!("expected a missing-selector error, got {:?}", other),
    }
}

#[test]
fn initial_state_reports_garbled_selector() {
    let s = section_of(&[("initial_state", "plummer")]);
    match read_initial_state(&s) {
        Err(ConfigError::Invalid(k)) => assert_eq!(k, "initial_state"),
        other => panic!("expected an invalid-selector error, got {:?}", other),
    }
}
