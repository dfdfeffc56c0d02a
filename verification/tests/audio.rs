use meet123::audio::{
    is_browser, media_relay_score, sink_exists, sink_index, skip_system_stream, AudioApp,
    AudioSource,
};
use meet123::json::Json;
use meet123::pulse::{Pulse, PulseError};

fn s(t: &str) -> String {
    t.to_string()
}

fn obj(fields: Vec<(&str, Json)>) -> Json {
    Json::Object(fields.into_iter().map(|(k, v)| (s(k), v)).collect())
}

fn app(index: u32, name: &str, media: &str, binary: &str, sink: u32) -> AudioApp {
    AudioApp {
        index,
        name: s(name),
        media: s(media),
        binary: s(binary),
        sink,
        browser: is_browser(name, binary),
    }
}

#[test]
fn relay_score_prefers_the_page_itself() {
    assert_eq!(media_relay_score("Meet-123 relay"), 0);
    assert_eq!(media_relay_score("MEET123"), 0);
    assert_eq!(media_relay_score("AudioContext"), 1);
    assert_eq!(media_relay_score("Web Audio"), 1);
    assert_eq!(media_relay_score("Playback"), 2);
    assert_eq!(media_relay_score(""), 2);
}

#[test]
fn system_streams_are_loopbacks_and_the_helper() {
    assert!(skip_system_stream(&app(1, "Loopback", "x", "pw", 0)));
    assert!(skip_system_stream(&app(1, "a", "b", "Meet123", 0)));
    assert!(!skip_system_stream(&app(1, "Firefox", "YouTube", "firefox", 0)));
    // the fields are joined by spaces, so a word split across them does not count
    assert!(!skip_system_stream(&app(1, "loop", "back", "x", 0)));
}

#[test]
fn browsers_are_recognised_by_name_or_binary() {
    assert!(is_browser("Google Chrome", "chrome"));
    assert!(is_browser("x", "Brave"));
    assert!(is_browser("Vivaldi", ""));
    assert!(is_browser("", "msedge"));
    assert!(!is_browser("Firefox", "firefox"));
    assert!(!is_browser("spotify", "spotify"));
}

#[test]
fn sinks_are_found_by_name() {
    let sinks = Json::Array(vec![
        obj(vec![("name", Json::Str(s("alsa_output"))), ("index", Json::Number(Some(3)))]),
        obj(vec![("name", Json::Str(s("meet123_silent"))), ("index", Json::Str(s("bad")))]),
        obj(vec![("name", Json::Str(s("meet123_silent"))), ("index", Json::Str(s("9")))]),
    ]);
    assert_eq!(sink_index(&sinks, "alsa_output"), Some(3));
    assert_eq!(sink_index(&sinks, "meet123_silent"), Some(9));
    assert_eq!(sink_index(&sinks, "other"), None);
    assert!(sink_exists(&sinks, "meet123_silent"));
    assert!(!sink_exists(&Json::Null, "meet123_silent"));
}

#[test]
fn apps_are_read_from_sink_inputs() {
    let listing = Json::Array(vec![
        obj(vec![
            ("index", Json::Number(Some(41))),
            ("sink", Json::Number(Some(2))),
            (
                "properties",
                obj(vec![
                    ("application.name", Json::Str(s("Google Chrome"))),
                    ("media.name", Json::Str(s("Playback"))),
                    ("application.process.binary", Json::Str(s("chrome"))),
                ]),
            ),
        ]),
        obj(vec![("sink", Json::Number(Some(2)))]),
        obj(vec![("index", Json::Str(s("42")))]),
    ]);
    let apps = Pulse::list_apps(&listing);
    assert_eq!(apps.len(), 2);
    assert_eq!(apps[0].index, 41);
    assert_eq!(apps[0].sink, 2);
    assert_eq!(apps[0].name, "Google Chrome");
    assert_eq!(apps[0].media, "Playback");
    assert_eq!(apps[0].binary, "chrome");
    assert!(apps[0].browser);
    assert_eq!(apps[1].index, 42);
    assert_eq!(apps[1].sink, 0);
    assert_eq!(apps[1].name, "");
    assert!(!apps[1].browser);
    assert!(Pulse::list_apps(&Json::Null).is_empty());
}

fn source(name: &str, description: Option<&str>) -> Json {
    let mut fields = vec![("name", Json::Str(s(name)))];
    if let Some(d) = description {
        fields.push(("description", Json::Str(s(d))));
    }
    obj(fields)
}

#[test]
fn sources_are_monitors_default_first_then_by_description() {
    let listing = Json::Array(vec![
        source("alsa_input.mic", Some("Microphone")),
        source("b.monitor", Some("Zeta")),
        source("meet123_silent.monitor", Some("Silent")),
        source("c.monitor", None),
        source("a.monitor", Some("Alpha")),
        source("d.monitor", Some("Zeta")),
        source("default.monitor", Some("Speakers")),
    ]);
    let list: Vec<AudioSource> = Pulse::list_sources(&listing, "default.monitor");
    let names: Vec<&str> = list.iter().map(|x| x.name.as_str()).collect();
    assert_eq!(names, vec!["default.monitor", "a.monitor", "b.monitor", "d.monitor", "c.monitor"]);
    assert!(list[0].is_default);
    assert!(list[1..].iter().all(|x| !x.is_default));
    assert_eq!(list[4].description, "c.monitor");
}

#[test]
fn default_sink_comes_from_info() {
    let info = obj(vec![("default_sink_name", Json::Str(s("alsa_output.pci")))]);
    assert_eq!(Pulse::default_sink(&info), Ok(s("alsa_output.pci")));
    assert_eq!(Pulse::default_monitor(&info), Ok(s("alsa_output.pci.monitor")));
    assert_eq!(Pulse::default_sink(&Json::Null), Err(PulseError::MissingDefaultSink));
    assert_eq!(PulseError::MissingDefaultSink.message(), "missing default_sink_name");
}
