use meet123::browser::{
    available_browsers, candidate, chosen_browser, open_in_chromium, which, which_candidates,
    Launch, CANDIDATE_COUNT,
};
use meet123::desktop::{tips, TIP_GNOME, TIP_KDE, TIP_NIRI_BLOCK, TIP_NIRI_CAST, TIP_WAYLAND};
use meet123::pcm::{frame_pcm, recorder_args, RECORDER};

fn s(t: &str) -> String {
    t.to_string()
}

#[test]
fn browsers_are_listed_in_candidate_order() {
    let mut found = vec![false; CANDIDATE_COUNT];
    found[7] = true;
    found[2] = true;
    found[10] = true;
    assert_eq!(available_browsers(&found), vec!["chromium", "vivaldi", "google-chrome-unstable"]);
    assert_eq!(available_browsers(&vec![true]), vec!["google-chrome-stable"]);
    assert!(available_browsers(&vec![]).is_empty());
    assert_eq!(candidate(0), "google-chrome-stable");
}

#[test]
fn the_browser_named_by_the_user_wins() {
    let avail = vec![s("microsoft-edge"), s("brave"), s("vivaldi")];
    assert_eq!(chosen_browser(Some(s("/opt/x/chrome")), &avail), Some(s("/opt/x/chrome")));
    assert_eq!(chosen_browser(Some(s("")), &avail), Some(s("vivaldi")));
    assert_eq!(chosen_browser(None, &avail), Some(s("vivaldi")));
    assert_eq!(chosen_browser(None, &vec![s("microsoft-edge"), s("brave")]), Some(s("brave")));
    assert_eq!(chosen_browser(None, &vec![s("google-chrome-unstable")]), None);
    assert_eq!(chosen_browser(None, &vec![]), None);
}

#[test]
fn opening_the_page() {
    match open_in_chromium(Some(s("vivaldi")), "http://127.0.0.1:17373") {
        Launch::Browser { program, args } => {
            assert_eq!(program, "vivaldi");
            assert_eq!(args, vec!["--new-window", "http://127.0.0.1:17373"]);
        }
        _ => panic!("expected a browser"),
    }
    let l = open_in_chromium(None, "http://x");
    assert_eq!(l.label(), "system-default");
    assert!(matches!(l, Launch::SystemDefault { url } if url == "http://x"));
}

#[test]
fn path_lookup() {
    assert_eq!(
        which_candidates("/usr/bin:/opt/b/::/x/", "brave"),
        vec!["/usr/bin/brave", "/opt/b/brave", "brave", "/x/brave"]
    );
    assert_eq!(which_candidates("", "brave"), vec!["brave"]);
    assert_eq!(which_candidates("/usr/bin", "/abs/brave"), vec!["/abs/brave"]);
    let paths = vec![s("/a/brave"), s("/b/brave"), s("/c/brave")];
    assert_eq!(which(&paths, &vec![false, true, true]), Some(s("/b/brave")));
    assert_eq!(which(&paths, &vec![false]), None);
}

#[test]
fn tips_depend_on_desktop_and_session() {
    let base = tips("", "x11");
    assert_eq!(base.len(), 4);
    let niri = tips("niri:GNOME", "Wayland");
    assert_eq!(&niri[..4], &base[..]);
    assert_eq!(niri[4..], [s(TIP_NIRI_CAST), s(TIP_NIRI_BLOCK), s(TIP_WAYLAND)]);
    assert_eq!(tips("KDE", "tty")[4..], [s(TIP_KDE)]);
    assert_eq!(tips("plasma", "")[4..], [s(TIP_KDE)]);
    assert_eq!(tips("ubuntu:GNOME", "wayland")[4..], [s(TIP_GNOME), s(TIP_WAYLAND)]);
    assert_eq!(tips("GNOME", "waylandx").len(), 5);
}

#[test]
fn recorder_arguments() {
    assert_eq!(RECORDER, "parec");
    assert_eq!(
        recorder_args("meet123_capture.monitor"),
        vec![
            "-d",
            "meet123_capture.monitor",
            "--rate=48000",
            "--format=s16le",
            "--channels=2",
            "--latency-msec=20",
            "--raw",
            "--client-name=meet123",
            "--stream-name=system-audio",
        ]
    );
}

#[test]
fn pcm_is_sent_in_whole_frames() {
    let mut pending = Vec::new();
    assert_eq!(frame_pcm(&mut pending, &[1, 2, 3]), Vec::<u8>::new());
    assert_eq!(pending, vec![1, 2, 3]);
    assert_eq!(frame_pcm(&mut pending, &[4, 5, 6, 7, 8, 9]), vec![1, 2, 3, 4, 5, 6, 7, 8]);
    assert_eq!(pending, vec![9]);
    assert_eq!(frame_pcm(&mut pending, &[10, 11, 12]), vec![9, 10, 11, 12]);
    assert!(pending.is_empty());
    // concatenation law on a concrete run
    let chunks: Vec<Vec<u8>> = vec![vec![1; 5], vec![2; 7], vec![], vec![3; 1], vec![4; 4]];
    let mut pending = Vec::new();
    let mut sent = Vec::new();
    for c in &chunks {
        let out = frame_pcm(&mut pending, c);
        assert_eq!(out.len() % 4, 0);
        sent.extend(out);
    }
    sent.extend(pending.iter());
    assert_eq!(sent, chunks.concat());
    assert!(pending.len() < 4);
}
