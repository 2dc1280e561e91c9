use std::collections::BTreeMap;
use textspill::config::{
    api_key, configure, live_wanted, write_json, Backend, Config, KeySource, SessionConfig, Stored,
};
use textspill::failure::Failure;

/// Settings, with their JSON read as the client reads it.
fn stored(json: &str) -> Stored<Config> {
    let value: serde_json::Value = match serde_json::from_str(json) {
        Ok(value) => value,
        Err(error) => return Stored::Malformed(error.to_string()),
    };
    let mut config = Config::default();
    let mut extra = BTreeMap::new();
    for (key, value) in value.as_object().unwrap() {
        match (key.as_str(), value.as_str()) {
            ("backend", Some("local")) => config.backend = Backend::Local,
            ("backend", Some("deepgram")) => config.backend = Backend::Deepgram,
            ("deepgram_language", Some(language)) => config.deepgram_language = language.into(),
            _ => {
                extra.insert(key.clone(), value.clone());
            }
        }
    }
    config.extra = extra;
    Stored::Value(config)
}

/// The JSON that settings are stored as.
fn json(config: &Config) -> String {
    let mut map = serde_json::Map::new();
    map.insert("backend".into(), config.backend.as_str().into());
    map.insert("deepgram_language".into(), config.deepgram_language.clone().into());
    for (key, value) in &config.extra {
        map.insert(key.clone(), value.clone());
    }
    serde_json::Value::Object(map).to_string()
}

#[test]
fn old_installations_default_to_local_and_settings_round_trip() {
    assert_eq!(Config::read(Stored::Missing).unwrap().backend, Backend::Local);
    let mut config = Config::read(stored(r#"{"backend":"deepgram","custom":42}"#)).unwrap();
    assert_eq!(config.deepgram_language, "sv");
    config.deepgram_language = "en".into();
    let stored = Config::read(stored(&json(&config))).unwrap();
    assert_eq!(stored.extra["custom"], 42);
    assert_eq!(stored.deepgram_language, "en");
}

#[test]
fn configuring_keeps_other_settings() {
    let json = r#"{"backend":"local","custom":[1],"deepgram_language":"en"}"#;
    let config = Config::read(stored(json)).unwrap();
    let out = configure(config, Some(Backend::Deepgram));
    assert!(out.save);
    assert_eq!(out.config.backend, Backend::Deepgram);
    assert_eq!(out.config.deepgram_language, "en");
    assert_eq!(out.config.extra["custom"][0], 1);
    let out = configure(out.config, None);
    assert!(!out.save);
    assert_eq!(out.config.backend.as_str(), "deepgram");
}

#[test]
fn settings_that_cannot_be_read_are_told() {
    let e = Config::read(Stored::Malformed("EOF".into())).err().unwrap();
    assert_eq!(e.message(), "invalid TextSpill config.json: EOF");
    let e = Config::read(Stored::Unreadable("EACCES".into())).err().unwrap();
    assert_eq!(e.message(), "cannot read TextSpill config.json: EACCES");
    let e = SessionConfig::load(Stored::Malformed("EOF".into())).err().unwrap();
    assert_eq!(e.message(), "invalid recording settings: EOF");
    let e = SessionConfig::load(Stored::Unreadable("EACCES".into())).err().unwrap();
    assert_eq!(e.message(), "EACCES");
}

#[test]
fn the_environment_overrides_the_settings() {
    let key = || KeySource::Variable("key".into());
    let config = Config::default().effective(Some("deepgram"), Some("en"), key()).unwrap();
    assert_eq!(config.backend, Backend::Deepgram);
    assert_eq!(config.deepgram_language, "en");
    let config = config.effective(Some("local"), Some("de"), KeySource::VariableNotText).unwrap();
    assert_eq!(config.backend, Backend::Local);
    // Without Deepgram neither language nor key matter.
    assert_eq!(config.deepgram_language, "de");
    let e = config.effective(Some("Deepgram"), None, key()).err().unwrap();
    assert_eq!(e.message(), "TEXTSPILL_BACKEND must be local or deepgram");
    let e = Config::default().effective(Some("deepgram"), Some("de"), key()).err().unwrap();
    assert_eq!(e.message(), "deepgram_language must be sv or en");
    let nowhere = KeySource::Nowhere("ENOENT".into());
    let e = Config::default().effective(Some("deepgram"), None, nowhere).err().unwrap();
    assert_eq!(
        e.message(),
        "set DEEPGRAM_API_KEY or create ~/.config/textspill/deepgram-api-key (mode 0600): ENOENT"
    );
}

#[test]
fn keys_are_visible_ascii() {
    assert_eq!(api_key(KeySource::Variable(" a!~b\n".into())).unwrap(), "a!~b");
    assert_eq!(api_key(KeySource::File("key".into())).unwrap(), "key");
    for bad in ["", "  ", "a b", "nyckel-å", "a\u{7f}"] {
        let e = api_key(KeySource::Variable(bad.into())).unwrap_err();
        assert!(matches!(e, Failure::UnusableKey), "{bad:?}");
    }
    let e = api_key(KeySource::VariableNotText).unwrap_err();
    assert_eq!(e.message(), "DEEPGRAM_API_KEY is not valid text");
}

#[test]
fn recordings_without_settings_are_local_and_not_live() {
    let session = SessionConfig::load(Stored::Missing).unwrap();
    assert_eq!(session.config.backend, Backend::Local);
    assert!(!session.live && !session.streaming());
    let mut config = Config::default();
    config.backend = Backend::Deepgram;
    let session = SessionConfig::load(Stored::Value(SessionConfig { config, live: true })).unwrap();
    assert!(session.streaming());
}

#[test]
fn live_typing_is_on_unless_switched_off() {
    assert!(live_wanted(None));
    assert!(live_wanted(Some("1")));
    assert!(live_wanted(Some("")));
    assert!(!live_wanted(Some("0")));
}

#[test]
fn files_are_replaced_by_way_of_a_temporary() {
    let replacement = write_json("/c", "config.json");
    assert_eq!(replacement.path, "/c/config.json");
    assert_eq!(replacement.temporary, "/c/config.tmp");
    assert_eq!(write_json("/c/", "a.b.c").temporary, "/c/a.b.tmp");
    assert_eq!(write_json("", "plain").temporary, "plain.tmp");
    assert_eq!(write_json("/c", ".hidden").temporary, "/c/.hidden.tmp");
}
