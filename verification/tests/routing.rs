use meet123::audio::{is_browser, AudioApp};
use meet123::json::Json;
use meet123::pulse::{
    isolation_timed_out, load_loopback, load_null_sink, unload_module, Effect, FollowPlan,
    ModuleSlot, PactlCommand, PactlQuery, PrepareRequest, Pulse, PulseError, RoutingMode, SinkRef,
    Step,
};

fn s(t: &str) -> String {
    t.to_string()
}

fn app(index: u32, name: &str, media: &str, binary: &str, sink: u32) -> AudioApp {
    AudioApp {
        index,
        name: s(name),
        media: s(media),
        binary: s(binary),
        sink,
        browser: is_browser(name, binary),
    }
}

fn sinks(named: &[(&str, u64)]) -> Json {
    Json::Array(
        named
            .iter()
            .map(|(n, i)| {
                Json::Object(vec![
                    (s("name"), Json::Str(s(n))),
                    (s("index"), Json::Number(Some(*i))),
                ])
            })
            .collect(),
    )
}

fn args(c: &PactlCommand) -> Vec<String> {
    c.args()
}

/// Runs the steps as the helper does, with `out` as what each command prints.
fn run(p: &mut Pulse, steps: Vec<Step>, out: &str) -> Vec<Vec<String>> {
    let mut ran = Vec::new();
    for st in steps {
        ran.push(args(&st.command));
        p.apply(st.effect, s(out));
    }
    ran
}

fn req(source: Option<&str>, apps: Option<Vec<u32>>, exclude: Option<bool>, loopback: Option<bool>) -> PrepareRequest {
    PrepareRequest::from_body(source.map(s), apps, exclude, loopback)
}

#[test]
fn request_defaults() {
    let r = req(None, None, None, None);
    assert!(r.source.is_none());
    assert!(r.app_indices.is_empty());
    assert!(!r.exclude_browser);
    assert!(r.loopback);
    let r = req(Some("x"), Some(vec![3]), Some(true), Some(false));
    assert_eq!(r.source.as_deref(), Some("x"));
    assert_eq!(r.app_indices, vec![3]);
    assert!(r.exclude_browser);
    assert!(!r.loopback);
}

#[test]
fn command_arguments() {
    assert_eq!(
        args(&load_null_sink("meet123_silent", "Meet123Silent")),
        vec!["load-module", "module-null-sink", "sink_name=meet123_silent sink_properties=device.description=Meet123Silent"]
    );
    assert_eq!(
        args(&load_loopback("meet123_capture.monitor", "alsa_out")),
        vec!["load-module", "module-loopback", "source=meet123_capture.monitor sink=alsa_out latency_msec=5"]
    );
    assert_eq!(args(&unload_module("27")), vec!["unload-module", "27"]);
    assert_eq!(
        args(&PactlCommand::MoveSinkInput { input: 40, to: SinkRef::Index(1) }),
        vec!["move-sink-input", "40", "1"]
    );
    assert_eq!(PactlQuery::ListSinkInputs.args(), vec!["--format=json", "list", "sink-inputs"]);
    assert_eq!(PactlQuery::Info.args(), vec!["--format=json", "info"]);
}

#[test]
fn new_controller_is_idle() {
    let p = Pulse::new();
    assert_eq!(p.routing_mode, RoutingMode::Idle);
    assert_eq!(p.routing_mode.name(), "idle");
    assert!(!p.needs_follow());
    assert!(!p.audio_running());
    assert_eq!(p.capture_target(), Err(PulseError::NotPrepared));
    assert_eq!(PulseError::NotPrepared.message(), "audio prepare was not called");
}

#[test]
fn silent_sink_is_created_once() {
    let mut p = Pulse::new();
    let steps = p.ensure_silent_sink(&sinks(&[("alsa_out", 1)]));
    assert_eq!(steps.len(), 1);
    assert_eq!(steps[0].effect, Effect::Loaded(ModuleSlot::Silent));
    let ran = run(&mut p, steps, "31");
    assert_eq!(ran[0][0], "load-module");
    assert_eq!(p.silent_module.as_deref(), Some("31"));
    assert!(p.ensure_silent_sink(&sinks(&[("meet123_silent", 5)])).is_empty());
    assert!(p.silent_ready(Some(&sinks(&[("meet123_silent", 5)]))));
    assert!(!p.silent_ready(Some(&sinks(&[]))));
    assert!(!p.silent_ready(None));
}

#[test]
fn monitor_mode_captures_the_default_output_when_no_source_is_given() {
    let mut p = Pulse::new();
    let apps = vec![app(1, "Firefox", "Video", "firefox", 1)];
    p.take_snapshot(&apps);
    assert_eq!(p.snapshot, vec![1]);
    assert!(p.prepare(&req(None, None, None, None), &apps, "alsa_out").is_none());
    assert_eq!(p.routing_mode, RoutingMode::Monitor);
    assert_eq!(p.pending_capture.as_deref(), Some("alsa_out.monitor"));
    assert!(p.needs_isolation());
    // an empty source means the default too
    let mut q = Pulse::new();
    q.prepare(&req(Some(""), None, None, None), &apps, "alsa_out");
    assert_eq!(q.pending_capture.as_deref(), Some("alsa_out.monitor"));
    let mut r = Pulse::new();
    r.prepare(&req(Some("hdmi.monitor"), Some(vec![]), Some(false), None), &apps, "alsa_out");
    assert_eq!(r.pending_capture.as_deref(), Some("hdmi.monitor"));
}

#[test]
fn chosen_apps_are_moved_to_the_capture_sink_and_restored() {
    let mut p = Pulse::new();
    let apps = vec![
        app(10, "Firefox", "Video", "firefox", 1),
        app(11, "Spotify", "Song", "spotify", 2),
        app(12, "Google Chrome", "Tab", "chrome", 1),
    ];
    p.take_snapshot(&apps);
    let plan = p.prepare(&req(None, Some(vec![11, 12]), None, None), &apps, "alsa_out").unwrap();
    assert_eq!(p.routing_mode, RoutingMode::Idle);
    let picked: Vec<u32> = plan.selected.iter().map(|a| a.index).collect();
    assert_eq!(picked, vec![11, 12]);
    assert!(!plan.exclude_browser);
    assert!(plan.loopback);
    let ensure = p.ensure_capture_sink(&sinks(&[("alsa_out", 1)]));
    run(&mut p, ensure, "50");
    assert_eq!(p.capture_module.as_deref(), Some("50"));
    let steps = p.route_apps(&plan);
    assert_eq!(p.follow_keys, vec![(s("Spotify"), s("spotify")), (s("Google Chrome"), s("chrome"))]);
    let ran = run(&mut p, steps, "51");
    assert_eq!(ran[0], vec!["move-sink-input", "11", "meet123_capture"]);
    assert_eq!(ran[1], vec!["move-sink-input", "12", "meet123_capture"]);
    assert_eq!(ran[2], vec!["load-module", "module-loopback", "source=meet123_capture.monitor sink=alsa_out latency_msec=5"]);
    p.finish_app_routing();
    assert_eq!(p.routing_mode, RoutingMode::Apps);
    assert_eq!(p.pending_capture.as_deref(), Some("meet123_capture.monitor"));
    assert_eq!(p.moved, vec![(11, 2), (12, 1)]);
    assert_eq!(p.loopback_module.as_deref(), Some("51"));
    let target = p.capture_target().unwrap();
    let result = p.engage(target, true);
    assert!(result.ok && result.isolated);
    assert_eq!(result.routing_mode, "apps");
    assert!(!p.playback_isolated);
    assert!(p.needs_follow());
    assert_eq!(p.follow_once(), FollowPlan::Capture);
    let undo: Vec<Vec<String>> = p.stop().iter().map(args).collect();
    assert_eq!(
        undo,
        vec![
            vec![s("move-sink-input"), s("11"), s("2")],
            vec![s("move-sink-input"), s("12"), s("1")],
            vec![s("unload-module"), s("51")],
            vec![s("unload-module"), s("50")],
        ]
    );
    assert_eq!(p.routing_mode, RoutingMode::Idle);
    assert!(p.capture_source.is_none() && p.pending_capture.is_none());
    assert!(p.moved.is_empty() && p.follow_keys.is_empty());
    assert!(p.stop().is_empty());
    assert_eq!(p.follow_once(), FollowPlan::Nothing);
}

#[test]
fn exclude_browser_moves_every_other_app() {
    let mut p = Pulse::new();
    let apps = vec![
        app(10, "Firefox", "Video", "firefox", 1),
        app(11, "Chromium", "Tab", "chromium", 1),
        app(12, "loopback-1", "x", "pw", 1),
        app(13, "mpv", "Film", "mpv", 1),
    ];
    let plan = p.prepare(&req(None, None, Some(true), Some(false)), &apps, "alsa_out").unwrap();
    let picked: Vec<u32> = plan.selected.iter().map(|a| a.index).collect();
    assert_eq!(picked, vec![10, 13]);
    assert!(plan.exclude_browser);
    let steps = p.route_apps(&plan);
    assert_eq!(steps.len(), 2);
    run(&mut p, steps, "");
    p.finish_app_routing();
    assert_eq!(p.routing_mode, RoutingMode::ExcludeBrowser);
    assert_eq!(p.routing_mode.name(), "exclude-browser");
    // indices chosen explicitly win over the exclusion flag
    let mut q = Pulse::new();
    let plan = q.prepare(&req(None, Some(vec![11]), Some(true), None), &apps, "alsa_out").unwrap();
    assert!(!plan.exclude_browser);
    assert_eq!(plan.selected.len(), 1);
}

#[test]
fn following_moves_new_streams_once() {
    let mut p = Pulse::new();
    let apps = vec![app(10, "Firefox", "Video", "firefox", 1), app(13, "mpv", "Film", "mpv", 1)];
    let plan = p.prepare(&req(None, None, Some(true), Some(false)), &apps, "alsa_out").unwrap();
    let steps = p.route_apps(&plan);
    run(&mut p, steps, "");
    p.finish_app_routing();
    p.engage(s("meet123_capture.monitor"), true);
    assert_eq!(p.follow_once(), FollowPlan::Capture);
    let now = vec![
        app(10, "Firefox", "Video", "firefox", 7),
        app(13, "mpv", "Film", "mpv", 7),
        app(20, "mpv", "Next", "mpv", 1),
        app(21, "Chrome", "Tab", "chrome", 1),
        app(22, "Rhythmbox", "Song", "rhythmbox", 7),
        app(23, "pw-loopback", "x", "pw", 1),
    ];
    let steps = p.follow_capture(&now, Some(7));
    let ran = run(&mut p, steps, "");
    assert_eq!(ran, vec![vec![s("move-sink-input"), s("20"), s("meet123_capture")]]);
    assert!(p.follow_capture(&now, Some(7)).is_empty());
}

#[test]
fn chosen_apps_are_followed_by_name_and_binary() {
    let mut p = Pulse::new();
    let apps = vec![app(10, "Spotify", "Song", "spotify", 1)];
    let plan = p.prepare(&req(None, Some(vec![10]), None, Some(false)), &apps, "alsa_out").unwrap();
    let steps = p.route_apps(&plan);
    run(&mut p, steps, "");
    p.finish_app_routing();
    p.engage(s("meet123_capture.monitor"), true);
    let now = vec![app(30, "Spotify", "Song 2", "spotify", 1), app(31, "Spotify", "Ad", "other", 1)];
    let targets: Vec<u32> = p
        .follow_capture(&now, None)
        .iter()
        .map(|st| match st.effect {
            Effect::Moved { input, .. } => input,
            _ => 0,
        })
        .collect();
    assert_eq!(targets, vec![30]);
}

#[test]
fn the_relay_stream_is_isolated_in_monitor_mode() {
    let mut p = Pulse::new();
    let before = vec![app(5, "Google Chrome", "Playback", "chrome", 1)];
    p.take_snapshot(&before);
    p.prepare(&req(None, None, None, None), &before, "alsa_out");
    assert!(p.needs_isolation());
    let now = vec![
        app(5, "Google Chrome", "Playback", "chrome", 1),
        app(8, "Google Chrome", "AudioContext", "chrome", 1),
        app(9, "Google Chrome", "AudioContext", "chrome", 1),
        app(6, "Firefox", "Meet-123", "firefox", 1),
    ];
    assert!(p.relay_on_silent(&now, Some(4)).is_none());
    let relay = p.find_relay_stream(&now, Some(4)).unwrap();
    assert_eq!(relay.index, 9);
    let ran = run(&mut p, vec![Pulse::move_app(&relay, "meet123_silent")], "");
    assert_eq!(ran[0], vec!["move-sink-input", "9", "meet123_silent"]);
    assert!(!p.adopt_relay(&relay));
    assert!(p.playback_isolated);
    let target = p.capture_target().unwrap();
    let result = p.engage(target, true);
    assert!(result.isolated);
    assert_eq!(result.routing_mode, "monitor");
    assert!(p.playback_isolated && p.needs_follow());
    assert_eq!(p.follow_once(), FollowPlan::Isolated);
    // the page reloaded: a new stream with the same key appears elsewhere
    let later = vec![app(9, "Google Chrome", "AudioContext", "chrome", 4), app(12, "Google Chrome", "AudioContext", "chrome", 1)];
    let steps = p.follow_isolated(&later, Some(4));
    assert_eq!(steps.len(), 1);
    assert_eq!(args(&steps[0].command), vec!["move-sink-input", "12", "meet123_silent"]);
}

#[test]
fn a_relay_already_on_the_silent_sink_is_adopted() {
    let mut p = Pulse::new();
    let apps = vec![app(3, "Chromium", "Meet-123", "chromium", 4)];
    p.prepare(&req(None, None, None, None), &vec![], "alsa_out");
    let relay = p.relay_on_silent(&apps, Some(4)).unwrap();
    assert_eq!(relay.index, 3);
    assert!(p.adopt_relay(&relay));
    p.record_return_sink(&relay, Some(1));
    assert_eq!(p.moved, vec![(3, 1)]);
    assert!(!p.adopt_relay(&relay));
    let mut q = Pulse::new();
    q.record_return_sink(&relay, None);
    assert_eq!(q.moved, vec![(3, 4)]);
}

#[test]
fn giving_up_on_isolation() {
    let p = Pulse::new();
    assert!(!isolation_timed_out(1499));
    assert!(isolation_timed_out(1500));
    let r = p.engage_result(false);
    assert!(r.ok && !r.isolated);
    assert_eq!(r.routing_mode, "idle");
}

#[test]
fn shutdown_also_removes_the_silent_sink() {
    let mut p = Pulse::new();
    p.apply(Effect::Loaded(ModuleSlot::Silent), s("1"));
    p.apply(Effect::Loaded(ModuleSlot::Capture), s("2"));
    p.apply(Effect::Moved { input: 7, sink: 3 }, s(""));
    let cmds: Vec<Vec<String>> = p.shutdown().iter().map(args).collect();
    assert_eq!(
        cmds,
        vec![
            vec![s("move-sink-input"), s("7"), s("3")],
            vec![s("unload-module"), s("2")],
            vec![s("unload-module"), s("1")],
        ]
    );
    assert!(p.silent_module.is_none());
    assert!(p.shutdown().is_empty());
}
