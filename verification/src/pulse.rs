//! The audio routing controller. It never talks to the sound server itself:
//! each operation takes what `pactl` reported and says which `pactl` commands
//! to run next, and records their outcome.
use vstd::prelude::*;
use crate::audio::{
    copy_app, is_system_stream, relay_score, sink_index_in, AudioApp, EngageResult,
};
use crate::json::{json_items, Json};
use crate::text::{decimal, format_u32};

verus! {

/// The sink that the relay page's own playback is moved to, so that it is
/// not heard twice.
pub const SILENT_SINK: &'static str = "meet123_silent";

/// The label shown for the silent sink.
pub const SILENT_LABEL: &'static str = "Meet123Silent";

/// The sink that selected applications are moved to for capture.
pub const CAPTURE_SINK: &'static str = "meet123_capture";

/// The label shown for the capture sink.
pub const CAPTURE_LABEL: &'static str = "Meet123Capture";

/// How captured audio is routed.
#[derive(Debug, Clone, Copy, PartialEq, Eq, Structural)]
pub enum RoutingMode {
    /// Nothing prepared.
    Idle,
    /// The monitor of an output device is captured.
    Monitor,
    /// Chosen applications are moved to the capture sink.
    Apps,
    /// Every application but the browsers is moved to the capture sink.
    ExcludeBrowser,
}

/// The name of a routing mode as the page sees it.
pub open spec fn mode_name(m: RoutingMode) -> Seq<char> {
    match m {
        RoutingMode::Idle => "idle"@,
        RoutingMode::Monitor => "monitor"@,
        RoutingMode::Apps => "apps"@,
        RoutingMode::ExcludeBrowser => "exclude-browser"@,
    }
}

impl RoutingMode {
    /// The name of the mode as the page sees it.
    pub fn name(&self) -> (s: String)
        ensures
            s@ == mode_name(*self),
    {
        match self {
            RoutingMode::Idle => String::from_str("idle"),
            RoutingMode::Monitor => String::from_str("monitor"),
            RoutingMode::Apps => String::from_str("apps"),
            RoutingMode::ExcludeBrowser => String::from_str("exclude-browser"),
        }
    }
}

/// Why an operation of the controller could not be done.
#[derive(Debug, Clone, Copy, PartialEq, Eq, Structural)]
pub enum PulseError {
    /// `pactl info` named no default sink.
    MissingDefaultSink,
    /// Capture was engaged before anything was prepared.
    NotPrepared,
}

/// The message of an error.
pub open spec fn error_text(e: PulseError) -> Seq<char> {
    match e {
        PulseError::MissingDefaultSink => "missing default_sink_name"@,
        PulseError::NotPrepared => "audio prepare was not called"@,
    }
}

impl PulseError {
    /// The message of the error.
    pub fn message(&self) -> (s: String)
        ensures
            s@ == error_text(*self),
    {
        match self {
            PulseError::MissingDefaultSink => String::from_str("missing default_sink_name"),
            PulseError::NotPrepared => String::from_str("audio prepare was not called"),
        }
    }
}

/// A sink named by its name or by its index.
#[derive(Debug)]
pub enum SinkRef {
    Name(String),
    Index(u32),
}

/// A `pactl` command that changes the sound server.
#[derive(Debug)]
pub enum PactlCommand {
    /// Move a playback stream to a sink.
    MoveSinkInput { input: u32, to: SinkRef },
    /// Create a sink that plays nowhere.
    LoadNullSink { name: String, description: String },
    /// Play a source into a sink.
    LoadLoopback { source: String, sink: String },
    /// Remove a module loaded before.
    UnloadModule { id: String },
}

/// A `pactl --format=json` listing.
#[derive(Debug, Clone, Copy, PartialEq, Eq, Structural)]
pub enum PactlQuery {
    Info,
    ListSinks,
    ListSources,
    ListSinkInputs,
}

/// The words of a sink reference.
pub open spec fn sink_word(s: SinkRef) -> Seq<char> {
    match s {
        SinkRef::Name(n) => n@,
        SinkRef::Index(i) => decimal(i),
    }
}

/// The arguments `pactl` is run with for a command.
pub open spec fn command_args(c: PactlCommand) -> Seq<Seq<char>> {
    match c {
        PactlCommand::MoveSinkInput { input, to } => seq![
            "move-sink-input"@,
            decimal(input),
            sink_word(to),
        ],
        PactlCommand::LoadNullSink { name, description } => seq![
            "load-module"@,
            "module-null-sink"@,
            "sink_name="@ + name@ + " sink_properties=device.description="@ + description@,
        ],
        PactlCommand::LoadLoopback { source, sink } => seq![
            "load-module"@,
            "module-loopback"@,
            "source="@ + source@ + " sink="@ + sink@ + " latency_msec=5"@,
        ],
        PactlCommand::UnloadModule { id } => seq!["unload-module"@, id@],
    }
}

/// The arguments `pactl` is run with for a listing.
pub open spec fn query_args(q: PactlQuery) -> Seq<Seq<char>> {
    match q {
        PactlQuery::Info => seq!["--format=json"@, "info"@],
        PactlQuery::ListSinks => seq!["--format=json"@, "list"@, "sinks"@],
        PactlQuery::ListSources => seq!["--format=json"@, "list"@, "sources"@],
        PactlQuery::ListSinkInputs => seq!["--format=json"@, "list"@, "sink-inputs"@],
    }
}

/// The texts of a list of strings.
pub open spec fn texts(v: Seq<String>) -> Seq<Seq<char>> {
    v.map_values(|s: String| s@)
}

impl PactlCommand {
    /// The arguments `pactl` is run with.
    pub fn args(&self) -> (r: Vec<String>)
        ensures
            texts(r@) == command_args(*self),
    {
        let mut r: Vec<String> = Vec::new();
        match self {
            PactlCommand::MoveSinkInput { input, to } => {
                r.push(String::from_str("move-sink-input"));
                r.push(format_u32(*input));
                match to {
                    SinkRef::Name(n) => r.push(n.clone()),
                    SinkRef::Index(i) => r.push(format_u32(*i)),
                }
            },
            PactlCommand::LoadNullSink { name, description } => {
                r.push(String::from_str("load-module"));
                r.push(String::from_str("module-null-sink"));
                let mut a = String::from_str("sink_name=");
                a.append(name.as_str());
                a.append(" sink_properties=device.description=");
                a.append(description.as_str());
                r.push(a);
            },
            PactlCommand::LoadLoopback { source, sink } => {
                r.push(String::from_str("load-module"));
                r.push(String::from_str("module-loopback"));
                let mut a = String::from_str("source=");
                a.append(source.as_str());
                a.append(" sink=");
                a.append(sink.as_str());
                a.append(" latency_msec=5");
                r.push(a);
            },
            PactlCommand::UnloadModule { id } => {
                r.push(String::from_str("unload-module"));
                r.push(id.clone());
            },
        }
        assert(texts(r@) =~= command_args(*self));
        r
    }
}

impl PactlQuery {
    /// The arguments `pactl` is run with.
    pub fn args(&self) -> (r: Vec<String>)
        ensures
            texts(r@) == query_args(*self),
    {
        let mut r: Vec<String> = Vec::new();
        r.push(String::from_str("--format=json"));
        match self {
            PactlQuery::Info => {
                r.push(String::from_str("info"));
            },
            PactlQuery::ListSinks => {
                r.push(String::from_str("list"));
                r.push(String::from_str("sinks"));
            },
            PactlQuery::ListSources => {
                r.push(String::from_str("list"));
                r.push(String::from_str("sources"));
            },
            PactlQuery::ListSinkInputs => {
                r.push(String::from_str("list"));
                r.push(String::from_str("sink-inputs"));
            },
        }
        assert(texts(r@) =~= query_args(*self));
        r
    }
}

/// The command that creates the null sink `name`.
pub fn load_null_sink(name: &str, description: &str) -> (c: PactlCommand)
    ensures
        c matches PactlCommand::LoadNullSink { name: n, description: d } && n@ == name@ && d@
            == description@,
{
    PactlCommand::LoadNullSink {
        name: String::from_str(name),
        description: String::from_str(description),
    }
}

/// The command that plays `source` into `sink`.
pub fn load_loopback(source: &str, sink: &str) -> (c: PactlCommand)
    ensures
        c matches PactlCommand::LoadLoopback { source: so, sink: si } && so@ == source@ && si@
            == sink@,
{
    PactlCommand::LoadLoopback { source: String::from_str(source), sink: String::from_str(sink) }
}

/// The command that removes module `id`.
pub fn unload_module(id: &str) -> (c: PactlCommand)
    ensures
        c matches PactlCommand::UnloadModule { id: i } && i@ == id@,
{
    PactlCommand::UnloadModule { id: String::from_str(id) }
}

/// The module slots the controller keeps track of.
#[derive(Debug, Clone, Copy, PartialEq, Eq, Structural)]
pub enum ModuleSlot {
    Silent,
    Capture,
    Loopback,
}

/// What is recorded once a command succeeded.
#[derive(Debug, Clone, Copy, PartialEq, Eq, Structural)]
pub enum Effect {
    /// Stream `input` was moved away from sink `sink`.
    Moved { input: u32, sink: u32 },
    /// A module was loaded into the slot; `pactl` printed its id.
    Loaded(ModuleSlot),
}

/// A command to run, and what to record when it succeeds. A caller runs the
/// steps of a list in order and stops at the first that fails.
#[derive(Debug)]
pub struct Step {
    pub command: PactlCommand,
    pub effect: Effect,
}

/// The state of the routing controller.
#[derive(Debug)]
pub struct Pulse {
    /// Module id of the silent sink, when this helper created it.
    pub silent_module: Option<String>,
    /// Module id of the capture sink, when this helper created it.
    pub capture_module: Option<String>,
    /// Module id of the loopback that lets captured apps stay audible.
    pub loopback_module: Option<String>,
    /// Streams moved away, with the sink each played on before, in order.
    pub moved: Vec<(u32, u32)>,
    /// Indices of the streams that existed when capture was prepared.
    pub snapshot: Vec<u32>,
    /// (application name, binary) of the applications that are followed.
    pub follow_keys: Vec<(String, String)>,
    /// Every non-browser application is followed.
    pub follow_exclude_browser: bool,
    /// (name, media, binary) of the relay page's own playback stream.
    pub isolated_key: Option<(String, String, String)>,
    /// The source that engaging will capture.
    pub pending_capture: Option<String>,
    /// The source being captured.
    pub capture_source: Option<String>,
    pub routing_mode: RoutingMode,
    /// The relay page's playback was moved to the silent sink.
    pub playback_isolated: bool,
}

/// The command that sends a moved stream back where it played.
pub open spec fn move_back(m: (u32, u32)) -> PactlCommand {
    PactlCommand::MoveSinkInput { input: m.0, to: SinkRef::Index(m.1) }
}

/// The command that removes a module, if one is loaded.
pub open spec fn unload_if(m: Option<String>) -> Seq<PactlCommand> {
    match m {
        Some(id) => seq![PactlCommand::UnloadModule { id }],
        None => Seq::empty(),
    }
}

/// What undoing the routing runs: every moved stream goes back, in the order
/// it was moved, then the loopback and the capture sink are removed.
pub open spec fn restore_commands(p: Pulse) -> Seq<PactlCommand> {
    p.moved@.map_values(|m: (u32, u32)| move_back(m)) + unload_if(p.loopback_module) + unload_if(
        p.capture_module,
    )
}

/// `new` is `old` with its routing undone and forgotten.
pub open spec fn routing_restored(new: Pulse, old: Pulse) -> bool {
    &&& new.moved@.len() == 0
    &&& new.loopback_module is None
    &&& new.capture_module is None
    &&& new.snapshot@.len() == 0
    &&& new.follow_keys@.len() == 0
    &&& !new.follow_exclude_browser
    &&& new.isolated_key is None
    &&& new.silent_module == old.silent_module
    &&& new.pending_capture == old.pending_capture
    &&& new.capture_source == old.capture_source
    &&& new.routing_mode == old.routing_mode
    &&& new.playback_isolated == old.playback_isolated
}

/// Nothing is routed, prepared or captured.
pub open spec fn idle(p: Pulse) -> bool {
    &&& p.moved@.len() == 0
    &&& p.loopback_module is None
    &&& p.capture_module is None
    &&& p.snapshot@.len() == 0
    &&& p.follow_keys@.len() == 0
    &&& !p.follow_exclude_browser
    &&& p.isolated_key is None
    &&& p.pending_capture is None
    &&& p.capture_source is None
    &&& p.routing_mode == RoutingMode::Idle
    &&& !p.playback_isolated
}

/// `new` is `old` stopped: idle, and the silent sink kept.
pub open spec fn stopped(new: Pulse, old: Pulse) -> bool {
    idle(new) && new.silent_module == old.silent_module
}

/// Capture runs and something has to keep following new streams.
pub open spec fn follows(p: Pulse) -> bool {
    p.capture_source is Some && (p.follow_exclude_browser || p.follow_keys@.len() > 0
        || p.playback_isolated)
}

/// What following new streams has to do in state `p`.
pub open spec fn follow_plan(p: Pulse) -> FollowPlan {
    if !follows(p) {
        FollowPlan::Nothing
    } else if p.playback_isolated && p.routing_mode == RoutingMode::Monitor {
        if p.isolated_key is Some {
            FollowPlan::Isolated
        } else {
            FollowPlan::Nothing
        }
    } else {
        FollowPlan::Capture
    }
}

/// `new` is `old` after `effect` was recorded for a command that printed `out`.
pub open spec fn recorded(new: Pulse, old: Pulse, effect: Effect, out: String) -> bool {
    &&& new.silent_module == (if effect == Effect::Loaded(ModuleSlot::Silent) {
        Some(out)
    } else {
        old.silent_module
    })
    &&& new.capture_module == (if effect == Effect::Loaded(ModuleSlot::Capture) {
        Some(out)
    } else {
        old.capture_module
    })
    &&& new.loopback_module == (if effect == Effect::Loaded(ModuleSlot::Loopback) {
        Some(out)
    } else {
        old.loopback_module
    })
    &&& new.moved@ == match effect {
        Effect::Moved { input, sink } => old.moved@.push((input, sink)),
        Effect::Loaded(_) => old.moved@,
    }
    &&& new.snapshot == old.snapshot
    &&& new.follow_keys == old.follow_keys
    &&& new.follow_exclude_browser == old.follow_exclude_browser
    &&& new.isolated_key == old.isolated_key
    &&& new.pending_capture == old.pending_capture
    &&& new.capture_source == old.capture_source
    &&& new.routing_mode == old.routing_mode
    &&& new.playback_isolated == old.playback_isolated
}

impl Pulse {
    /// A controller that has routed nothing.
    pub fn new() -> (p: Self)
        ensures
            idle(p),
            p.silent_module is None,
    {
        Pulse {
            silent_module: None,
            capture_module: None,
            loopback_module: None,
            moved: Vec::new(),
            snapshot: Vec::new(),
            follow_keys: Vec::new(),
            follow_exclude_browser: false,
            isolated_key: None,
            pending_capture: None,
            capture_source: None,
            routing_mode: RoutingMode::Idle,
            playback_isolated: false,
        }
    }

    /// Whether capture runs and new streams have to be followed.
    pub fn needs_follow(&self) -> (r: bool)
        ensures
            r == follows(*self),
    {
        self.capture_source.is_some() && (self.follow_exclude_browser || self.follow_keys.len() > 0
            || self.playback_isolated)
    }

    /// Whether audio capture runs.
    pub fn audio_running(&self) -> (r: bool)
        ensures
            r == (self.capture_source is Some),
    {
        self.capture_source.is_some()
    }

    /// Records what a successful command printed, as its step says.
    pub fn apply(&mut self, effect: Effect, out: String)
        ensures
            recorded(*final(self), *old(self), effect, out),
    {
        match effect {
            Effect::Moved { input, sink } => self.moved.push((input, sink)),
            Effect::Loaded(ModuleSlot::Silent) => self.silent_module = Some(out),
            Effect::Loaded(ModuleSlot::Capture) => self.capture_module = Some(out),
            Effect::Loaded(ModuleSlot::Loopback) => self.loopback_module = Some(out),
        }
    }

    /// Undoes the routing: says which commands put every moved stream back
    /// and remove the loopback and the capture sink (their failures do not
    /// matter), and forgets what was routed.
    pub fn restore_routing(&mut self) -> (r: Vec<PactlCommand>)
        ensures
            r@ == restore_commands(*old(self)),
            routing_restored(*final(self), *old(self)),
    {
        let mut cmds: Vec<PactlCommand> = Vec::new();
        let n = self.moved.len();
        for i in 0..n
            invariant
                n == self.moved@.len(),
                self.moved@ == old(self).moved@,
                cmds@ == self.moved@.take(i as int).map_values(|m: (u32, u32)| move_back(m)),
        {
            let (input, sink) = self.moved[i];
            cmds.push(PactlCommand::MoveSinkInput { input, to: SinkRef::Index(sink) });
            assert(self.moved@.take(i + 1).map_values(|m: (u32, u32)| move_back(m))
                =~= self.moved@.take(i as int).map_values(|m: (u32, u32)| move_back(m)).push(
                move_back(self.moved@[i as int]),
            ));
        }
        assert(self.moved@.take(n as int) =~= self.moved@);
        let ghost moves = cmds@;
        self.moved = Vec::new();
        if let Some(id) = self.loopback_module.take() {
            cmds.push(PactlCommand::UnloadModule { id });
        }
        let ghost with_loopback = cmds@;
        assert(with_loopback =~= moves + unload_if(old(self).loopback_module));
        if let Some(id) = self.capture_module.take() {
            cmds.push(PactlCommand::UnloadModule { id });
        }
        assert(cmds@ =~= with_loopback + unload_if(old(self).capture_module));
        self.snapshot = Vec::new();
        self.follow_keys = Vec::new();
        self.follow_exclude_browser = false;
        self.isolated_key = None;
        cmds
    }

    /// Stops capture: undoes the routing and forgets what was prepared.
    pub fn stop(&mut self) -> (r: Vec<PactlCommand>)
        ensures
            r@ == restore_commands(*old(self)),
            stopped(*final(self), *old(self)),
    {
        let cmds = self.restore_routing();
        self.routing_mode = RoutingMode::Idle;
        self.capture_source = None;
        self.pending_capture = None;
        self.playback_isolated = false;
        cmds
    }

    /// Shuts down: stops, then also removes the silent sink if this helper
    /// created it. Failures of these commands do not matter.
    pub fn shutdown(&mut self) -> (r: Vec<PactlCommand>)
        ensures
            r@ == restore_commands(*old(self)) + unload_if(old(self).silent_module),
            idle(*final(self)),
            final(self).silent_module is None,
    {
        let mut cmds = self.stop();
        let ghost before = cmds@;
        if let Some(id) = self.silent_module.take() {
            cmds.push(PactlCommand::UnloadModule { id });
        }
        assert(cmds@ =~= before + unload_if(old(self).silent_module));
        cmds
    }
}

/// What the page asked to prepare.
#[derive(Debug)]
pub struct PrepareRequest {
    /// The source to capture in monitor mode; empty or missing means the
    /// monitor of the default output.
    pub source: Option<String>,
    /// The streams to capture; empty means none chosen.
    pub app_indices: Vec<u32>,
    /// Capture every application but the browsers.
    pub exclude_browser: bool,
    /// Keep captured applications audible through a loopback.
    pub loopback: bool,
}

impl PrepareRequest {
    /// A request from the optional fields of the page's JSON body: no
    /// streams, no browser exclusion and a loopback unless said otherwise.
    pub fn from_body(
        source: Option<String>,
        app_indices: Option<Vec<u32>>,
        exclude_browser: Option<bool>,
        loopback: Option<bool>,
    ) -> (r: PrepareRequest)
        ensures
            r.source == source,
            r.app_indices@ == match app_indices {
                Some(v) => v@,
                None => Seq::empty(),
            },
            r.exclude_browser == (exclude_browser == Some(true)),
            r.loopback == (loopback != Some(false)),
    {
        PrepareRequest {
            source,
            app_indices: match app_indices {
                Some(v) => v,
                None => Vec::new(),
            },
            exclude_browser: match exclude_browser {
                Some(b) => b,
                None => false,
            },
            loopback: match loopback {
                Some(b) => b,
                None => true,
            },
        }
    }
}

/// How chosen applications are to be routed to the capture sink.
#[derive(Debug)]
pub struct AppRouting {
    /// The streams to move, in listing order.
    pub selected: Vec<AudioApp>,
    /// Every non-browser application is followed.
    pub exclude_browser: bool,
    /// Play the capture sink into the default output too.
    pub loopback: bool,
    /// The default output.
    pub default_sink: String,
}

/// What following new streams has to do.
#[derive(Debug, Clone, Copy, PartialEq, Eq, Structural)]
pub enum FollowPlan {
    /// Nothing to follow.
    Nothing,
    /// Keep the relay page's playback on the silent sink.
    Isolated,
    /// Move newly started chosen applications to the capture sink.
    Capture,
}

/// The streams of `apps` that `keep` accepts, in order.
pub open spec fn keep_apps(apps: Seq<AudioApp>, keep: spec_fn(AudioApp) -> bool) -> Seq<AudioApp>
    decreases apps.len(),
{
    if apps.len() == 0 {
        Seq::empty()
    } else {
        let rest = keep_apps(apps.drop_last(), keep);
        if keep(apps.last()) {
            rest.push(apps.last())
        } else {
            rest
        }
    }
}

/// An optional sink index, with the largest index standing for "no such sink".
pub open spec fn or_max(i: Option<u32>) -> u32 {
    match i {
        Some(v) => v,
        None => u32::MAX,
    }
}

/// The page asked for chosen applications (or for all but the browsers)
/// rather than for a device monitor.
pub open spec fn captures_apps(req: PrepareRequest) -> bool {
    req.app_indices@.len() > 0 || req.exclude_browser
}

/// The streams that preparing moves: the chosen ones, or else every
/// non-browser stream that is not a loopback or this helper.
pub open spec fn wanted(indices: Seq<u32>) -> spec_fn(AudioApp) -> bool {
    |a: AudioApp|
        if indices.len() > 0 {
            indices.contains(a.index)
        } else {
            !a.browser && !is_system_stream(a)
        }
}

/// The source captured in monitor mode.
pub open spec fn monitor_target(source: Option<String>, default_sink: Seq<char>) -> Seq<char> {
    match source {
        Some(s) => if s@.len() > 0 {
            s@
        } else {
            default_sink + ".monitor"@
        },
        None => default_sink + ".monitor"@,
    }
}

/// `st` moves stream `a` to the sink named `sink`, and records where `a` played.
pub open spec fn moves(st: Step, a: AudioApp, sink: Seq<char>) -> bool {
    &&& st.command matches PactlCommand::MoveSinkInput { input, to: SinkRef::Name(n) } && input
        == a.index && n@ == sink
    &&& st.effect == Effect::Moved { input: a.index, sink: a.sink }
}

/// The steps move `targets` to the sink named `sink`, one each, in order.
pub open spec fn moves_all(steps: Seq<Step>, targets: Seq<AudioApp>, sink: Seq<char>) -> bool {
    &&& steps.len() == targets.len()
    &&& forall|k: int| 0 <= k < steps.len() ==> moves(#[trigger] steps[k], targets[k], sink)
}

/// The steps create the sink `name` labelled `label` exactly when the
/// listing lacks it, and record its module in `slot`.
pub open spec fn sink_steps(
    steps: Seq<Step>,
    sinks: Json,
    name: Seq<char>,
    label: Seq<char>,
    slot: ModuleSlot,
) -> bool {
    if sink_index_in(json_items(sinks), name) is Some {
        steps.len() == 0
    } else {
        &&& steps.len() == 1
        &&& steps[0].command matches PactlCommand::LoadNullSink { name: n, description: d } && n@
            == name && d@ == label
        &&& steps[0].effect == Effect::Loaded(slot)
    }
}

/// The text of the capture sink's monitor source.
pub open spec fn capture_monitor() -> Seq<char> {
    CAPTURE_SINK@ + ".monitor"@
}

/// Streams that following moves to the capture sink: chosen (or, when
/// browsers are excluded, any non-browser) streams that are not loopbacks or
/// this helper, were not moved before, and do not play on the capture sink.
pub open spec fn follow_wanted(p: Pulse, capture_idx: u32) -> spec_fn(AudioApp) -> bool {
    |a: AudioApp|
        !is_system_stream(a) && !(exists|k: int|
            0 <= k < p.moved@.len() && (#[trigger] p.moved@[k]).0 == a.index) && a.sink
            != capture_idx && if p.follow_exclude_browser {
            !a.browser
        } else {
            exists|k: int|
                0 <= k < p.follow_keys@.len() && (#[trigger] p.follow_keys@[k]).0@ == a.name@
                    && p.follow_keys@[k].1@ == a.binary@
        }
}

/// Streams that keeping the relay playback isolated moves to the silent
/// sink: streams with the relay's name, media and binary that are not on the
/// silent sink and are not loopbacks or this helper.
pub open spec fn isolated_wanted(p: Pulse, silent_idx: u32) -> spec_fn(AudioApp) -> bool {
    |a: AudioApp|
        match p.isolated_key {
            Some(key) => a.sink != silent_idx && !is_system_stream(a) && a.name@ == key.0@
                && a.media@ == key.1@ && a.binary@ == key.2@,
            None => false,
        }
}

/// The relay page's stream already plays on the silent sink: a browser
/// stream on that sink, not a loopback or this helper, that is new since
/// capture was prepared or looks like Web Audio.
pub open spec fn on_silent(p: Pulse, a: AudioApp, silent_idx: u32) -> bool {
    a.browser && a.sink == silent_idx && !is_system_stream(a) && (!p.snapshot@.contains(a.index)
        || relay_score(a.media@) <= 1)
}

/// A candidate for the relay page's stream: a browser stream elsewhere than
/// on the silent sink, not a loopback or this helper, that is new since
/// capture was prepared or names Meet-123.
pub open spec fn relay_candidate(p: Pulse, a: AudioApp, silent_idx: u32) -> bool {
    a.browser && a.sink != silent_idx && !is_system_stream(a) && (!p.snapshot@.contains(a.index)
        || relay_score(a.media@) == 0)
}

/// `a` ranks before `b` as the relay stream: a better score, or the same
/// score and a newer (larger) index.
pub open spec fn ranks_before(a: AudioApp, b: AudioApp) -> bool {
    relay_score(a.media@) < relay_score(b.media@) || (relay_score(a.media@) == relay_score(
        b.media@,
    ) && a.index > b.index)
}

/// `a` is a relay candidate with the lowest relay score among all candidates
/// of `apps`, and the newest (largest) index among those with that score.
pub open spec fn best_relay(p: Pulse, apps: Seq<AudioApp>, silent_idx: u32, a: AudioApp) -> bool {
    &&& relay_candidate(p, a, silent_idx)
    &&& forall|j: int|
        0 <= j < apps.len() && relay_candidate(p, #[trigger] apps[j], silent_idx) ==> {
            &&& relay_score(a.media@) <= relay_score(apps[j].media@)
            &&& relay_score(a.media@) == relay_score(apps[j].media@) ==> a.index >= apps[j].index
        }
}

/// The stream was moved away before.
pub open spec fn was_moved(p: Pulse, index: u32) -> bool {
    exists|k: int| 0 <= k < p.moved@.len() && (#[trigger] p.moved@[k]).0 == index
}

proof fn lemma_keep_step(apps: Seq<AudioApp>, keep: spec_fn(AudioApp) -> bool, i: int)
    requires
        0 <= i < apps.len(),
    ensures
        keep_apps(apps.take(i + 1), keep) == if keep(apps[i]) {
            keep_apps(apps.take(i), keep).push(apps[i])
        } else {
            keep_apps(apps.take(i), keep)
        },
{
    assert(apps.take(i + 1).drop_last() =~= apps.take(i));
}

impl Pulse {
    /// Whether the listing shows the silent sink; a failed listing (`None`)
    /// counts as no.
    pub fn silent_ready(&self, sinks: Option<&Json>) -> (r: bool)
        ensures
            r == match sinks {
                Some(s) => sink_index_in(json_items(*s), SILENT_SINK@) is Some,
                None => false,
            },
    {
        match sinks {
            Some(s) => crate::audio::sink_exists(s, SILENT_SINK),
            None => false,
        }
    }

    /// The step that creates the silent sink, unless the listing shows it.
    pub fn ensure_silent_sink(&self, sinks: &Json) -> (r: Vec<Step>)
        ensures
            sink_steps(r@, *sinks, SILENT_SINK@, SILENT_LABEL@, ModuleSlot::Silent),
    {
        let mut r: Vec<Step> = Vec::new();
        if !crate::audio::sink_exists(sinks, SILENT_SINK) {
            r.push(
                Step {
                    command: load_null_sink(SILENT_SINK, SILENT_LABEL),
                    effect: Effect::Loaded(ModuleSlot::Silent),
                },
            );
        }
        r
    }

    /// The step that creates the capture sink, unless the listing shows it.
    pub fn ensure_capture_sink(&self, sinks: &Json) -> (r: Vec<Step>)
        ensures
            sink_steps(r@, *sinks, CAPTURE_SINK@, CAPTURE_LABEL@, ModuleSlot::Capture),
    {
        let mut r: Vec<Step> = Vec::new();
        if !crate::audio::sink_exists(sinks, CAPTURE_SINK) {
            r.push(
                Step {
                    command: load_null_sink(CAPTURE_SINK, CAPTURE_LABEL),
                    effect: Effect::Loaded(ModuleSlot::Capture),
                },
            );
        }
        r
    }

    /// Remembers which streams existed when capture was prepared.
    pub fn take_snapshot(&mut self, apps: &Vec<AudioApp>)
        ensures
            final(self).snapshot@ == apps@.map_values(|a: AudioApp| a.index),
            *final(self) == (Pulse { snapshot: final(self).snapshot, ..*old(self) }),
    {
        let mut snap: Vec<u32> = Vec::new();
        let n = apps.len();
        for i in 0..n
            invariant
                n == apps@.len(),
                snap@ == apps@.take(i as int).map_values(|a: AudioApp| a.index),
        {
            snap.push(apps[i].index);
            assert(apps@.take(i + 1).map_values(|a: AudioApp| a.index) =~= apps@.take(
                i as int,
            ).map_values(|a: AudioApp| a.index).push(apps@[i as int].index));
        }
        assert(apps@.take(n as int) =~= apps@);
        self.snapshot = snap;
    }

    /// Decides the routing once the streams and the default output are known.
    /// For a device monitor the controller is ready to engage; for chosen
    /// applications it hands back which streams to move, and changes nothing.
    pub fn prepare(&mut self, req: &PrepareRequest, apps: &Vec<AudioApp>, default_sink: &str) -> (r:
        Option<AppRouting>)
        ensures
            captures_apps(*req) ==> {
                &&& r matches Some(plan)
                &&& plan.selected@ == keep_apps(apps@, wanted(req.app_indices@))
                &&& plan.exclude_browser == (req.exclude_browser && req.app_indices@.len() == 0)
                &&& plan.loopback == req.loopback
                &&& plan.default_sink@ == default_sink@
                &&& *final(self) == *old(self)
            },
            !captures_apps(*req) ==> {
                &&& r is None
                &&& final(self).follow_keys@.len() == 0
                &&& final(self).pending_capture matches Some(t) && t@ == monitor_target(
                    req.source,
                    default_sink@,
                )
                &&& *final(self) == (Pulse {
                    follow_keys: final(self).follow_keys,
                    follow_exclude_browser: false,
                    routing_mode: RoutingMode::Monitor,
                    pending_capture: final(self).pending_capture,
                    playback_isolated: false,
                    ..*old(self)
                })
            },
    {
        if req.app_indices.len() > 0 || req.exclude_browser {
            let ghost keep = wanted(req.app_indices@);
            let mut selected: Vec<AudioApp> = Vec::new();
            let n = apps.len();
            for i in 0..n
                invariant
                    n == apps@.len(),
                    keep == wanted(req.app_indices@),
                    selected@ == keep_apps(apps@.take(i as int), keep),
            {
                proof {
                    lemma_keep_step(apps@, keep, i as int);
                }
                let a = &apps[i];
                let take = if req.app_indices.len() > 0 {
                    contains_index(&req.app_indices, a.index)
                } else {
                    !a.browser && !crate::audio::skip_system_stream(a)
                };
                if take {
                    selected.push(copy_app(a));
                }
            }
            assert(apps@.take(n as int) =~= apps@);
            Some(
                AppRouting {
                    selected,
                    exclude_browser: req.exclude_browser && req.app_indices.len() == 0,
                    loopback: req.loopback,
                    default_sink: String::from_str(default_sink),
                },
            )
        } else {
            self.follow_keys = Vec::new();
            self.follow_exclude_browser = false;
            self.routing_mode = RoutingMode::Monitor;
            let target = match &req.source {
                Some(s) if s.as_str().unicode_len() > 0 => s.clone(),
                _ => {
                    let mut t = String::from_str(default_sink);
                    t.append(".monitor");
                    t
                },
            };
            self.pending_capture = Some(target);
            self.playback_isolated = false;
            None
        }
    }

    /// The step that moves stream `app` to the sink named `sink`.
    pub fn move_app(app: &AudioApp, sink: &str) -> (st: Step)
        ensures
            moves(st, *app, sink@),
    {
        Step {
            command: PactlCommand::MoveSinkInput {
                input: app.index,
                to: SinkRef::Name(String::from_str(sink)),
            },
            effect: Effect::Moved { input: app.index, sink: app.sink },
        }
    }

    /// Starts following the chosen applications and says how to route them:
    /// move each to the capture sink, then, if asked, play the capture sink
    /// into the default output.
    pub fn route_apps(&mut self, plan: &AppRouting) -> (r: Vec<Step>)
        ensures
            final(self).follow_keys@ == plan.selected@.map_values(
                |a: AudioApp| (a.name, a.binary),
            ),
            *final(self) == (Pulse {
                follow_keys: final(self).follow_keys,
                follow_exclude_browser: plan.exclude_browser,
                ..*old(self)
            }),
            r@.len() == plan.selected@.len() + if plan.loopback {
                1int
            } else {
                0int
            },
            moves_all(r@.take(plan.selected@.len() as int), plan.selected@, CAPTURE_SINK@),
            plan.loopback ==> {
                &&& r@.last().command matches PactlCommand::LoadLoopback { source, sink }
                    && source@ == capture_monitor() && sink@ == plan.default_sink@
                &&& r@.last().effect == Effect::Loaded(ModuleSlot::Loopback)
            },
    {
        let mut keys: Vec<(String, String)> = Vec::new();
        let mut steps: Vec<Step> = Vec::new();
        let n = plan.selected.len();
        for i in 0..n
            invariant
                n == plan.selected@.len(),
                keys@ == plan.selected@.take(i as int).map_values(
                    |a: AudioApp| (a.name, a.binary),
                ),
                moves_all(steps@, plan.selected@.take(i as int), CAPTURE_SINK@),
        {
            let a = &plan.selected[i];
            keys.push((a.name.clone(), a.binary.clone()));
            steps.push(Pulse::move_app(a, CAPTURE_SINK));
            assert(plan.selected@.take(i + 1).map_values(|a: AudioApp| (a.name, a.binary))
                =~= plan.selected@.take(i as int).map_values(|a: AudioApp| (a.name, a.binary)).push(
                (plan.selected@[i as int].name, plan.selected@[i as int].binary),
            ));
            assert(plan.selected@.take(i + 1)[i as int] == plan.selected@[i as int]);
        }
        assert(plan.selected@.take(n as int) =~= plan.selected@);
        assert(steps@.take(n as int) =~= steps@);
        if plan.loopback {
            let mut source = String::from_str(CAPTURE_SINK);
            source.append(".monitor");
            steps.push(
                Step {
                    command: PactlCommand::LoadLoopback {
                        source,
                        sink: plan.default_sink.clone(),
                    },
                    effect: Effect::Loaded(ModuleSlot::Loopback),
                },
            );
            assert(steps@.take(n as int) =~= steps@.drop_last());
        }
        self.follow_keys = keys;
        self.follow_exclude_browser = plan.exclude_browser;
        steps
    }

    /// Finishes routing chosen applications: ready to capture the capture
    /// sink's monitor.
    pub fn finish_app_routing(&mut self)
        ensures
            final(self).pending_capture matches Some(t) && t@ == capture_monitor(),
            *final(self) == (Pulse {
                routing_mode: if old(self).follow_exclude_browser {
                    RoutingMode::ExcludeBrowser
                } else {
                    RoutingMode::Apps
                },
                pending_capture: final(self).pending_capture,
                playback_isolated: false,
                ..*old(self)
            }),
    {
        self.routing_mode = if self.follow_exclude_browser {
            RoutingMode::ExcludeBrowser
        } else {
            RoutingMode::Apps
        };
        let mut t = String::from_str(CAPTURE_SINK);
        t.append(".monitor");
        self.pending_capture = Some(t);
        self.playback_isolated = false;
    }
}

fn contains_index(v: &Vec<u32>, x: u32) -> (r: bool)
    ensures
        r == v@.contains(x),
{
    let n = v.len();
    for i in 0..n
        invariant
            n == v@.len(),
            forall|k: int| 0 <= k < i ==> v@[k] != x,
    {
        if v[i] == x {
            return true;
        }
    }
    false
}

/// How long engaging waits for the relay page's playback stream to appear.
pub const ISOLATE_TIMEOUT_MS: u64 = 1500;

/// How long engaging pauses between two looks for the relay's stream.
pub const ISOLATE_POLL_MS: u64 = 50;

/// Whether waiting for the relay's stream has to give up after `elapsed_ms`.
pub fn isolation_timed_out(elapsed_ms: u64) -> (r: bool)
    ensures
        r == (elapsed_ms >= ISOLATE_TIMEOUT_MS),
{
    elapsed_ms >= ISOLATE_TIMEOUT_MS
}

fn or_max_exec(i: Option<u32>) -> (r: u32)
    ensures
        r == or_max(i),
{
    match i {
        Some(v) => v,
        None => u32::MAX,
    }
}

fn ranks_before_exec(a: &AudioApp, b: &AudioApp) -> (r: bool)
    ensures
        r == ranks_before(*a, *b),
{
    let sa = crate::audio::media_relay_score(a.media.as_str());
    let sb = crate::audio::media_relay_score(b.media.as_str());
    sa < sb || (sa == sb && a.index > b.index)
}

impl Pulse {
    fn in_snapshot(&self, index: u32) -> (r: bool)
        ensures
            r == self.snapshot@.contains(index),
    {
        contains_index(&self.snapshot, index)
    }

    /// Whether stream `index` was moved away before.
    pub fn already_moved(&self, index: u32) -> (r: bool)
        ensures
            r == was_moved(*self, index),
    {
        let n = self.moved.len();
        for i in 0..n
            invariant
                n == self.moved@.len(),
                forall|k: int| 0 <= k < i ==> self.moved@[k].0 != index,
        {
            if self.moved[i].0 == index {
                return true;
            }
        }
        false
    }

    /// Whether engaging first has to isolate the relay page's own playback:
    /// only a device monitor would capture it too.
    pub fn needs_isolation(&self) -> (r: bool)
        ensures
            r == (self.routing_mode == RoutingMode::Monitor),
    {
        self.routing_mode == RoutingMode::Monitor
    }

    /// What engaging reports, given whether the relay is isolated.
    pub fn engage_result(&self, isolated: bool) -> (r: EngageResult)
        ensures
            r.ok,
            r.isolated == isolated,
            r.routing_mode@ == mode_name(self.routing_mode),
    {
        EngageResult { ok: true, isolated, routing_mode: self.routing_mode.name() }
    }

    /// The source that engaging captures; an error when nothing was prepared.
    pub fn capture_target(&self) -> (r: Result<String, PulseError>)
        ensures
            match self.pending_capture {
                Some(t) => r == Ok::<String, PulseError>(t),
                None => r == Err::<String, PulseError>(PulseError::NotPrepared),
            },
    {
        match &self.pending_capture {
            Some(t) => Ok(t.clone()),
            None => Err(PulseError::NotPrepared),
        }
    }

    /// Records that capture of `source` has started; the relay counts as
    /// isolated only in monitor mode.
    pub fn engage(&mut self, source: String, isolated: bool) -> (r: EngageResult)
        ensures
            *final(self) == (Pulse {
                capture_source: Some(source),
                playback_isolated: isolated && old(self).routing_mode == RoutingMode::Monitor,
                ..*old(self)
            }),
            r.ok,
            r.isolated == isolated,
            r.routing_mode@ == mode_name(old(self).routing_mode),
    {
        self.playback_isolated = isolated && self.routing_mode == RoutingMode::Monitor;
        self.capture_source = Some(source);
        self.engage_result(isolated)
    }

    /// The first stream that shows the relay page's playback already on the
    /// silent sink (index `silent_idx`, `None` when the sink is missing).
    pub fn relay_on_silent(&self, apps: &Vec<AudioApp>, silent_idx: Option<u32>) -> (r: Option<
        AudioApp,
    >)
        ensures
            match r {
                Some(a) => exists|k: int|
                    0 <= k < apps@.len() && apps@[k] == a && on_silent(
                        *self,
                        a,
                        or_max(silent_idx),
                    ) && forall|j: int|
                        0 <= j < k ==> !on_silent(*self, #[trigger] apps@[j], or_max(silent_idx)),
                None => forall|j: int|
                    0 <= j < apps@.len() ==> !on_silent(
                        *self,
                        #[trigger] apps@[j],
                        or_max(silent_idx),
                    ),
            },
    {
        let silent = or_max_exec(silent_idx);
        let n = apps.len();
        for i in 0..n
            invariant
                n == apps@.len(),
                silent == or_max(silent_idx),
                forall|j: int| 0 <= j < i ==> !on_silent(*self, #[trigger] apps@[j], silent),
        {
            let a = &apps[i];
            if a.browser && a.sink == silent && !crate::audio::skip_system_stream(a) && (
            !self.in_snapshot(a.index) || crate::audio::media_relay_score(a.media.as_str()) <= 1) {
                return Some(copy_app(a));
            }
        }
        None
    }

    /// The likeliest stream of the relay page's playback elsewhere than on the
    /// silent sink: among the candidates, the best score, then the newest
    /// index; the first listed among equals.
    pub fn find_relay_stream(&self, apps: &Vec<AudioApp>, silent_idx: Option<u32>) -> (r: Option<
        AudioApp,
    >)
        ensures
            match r {
                Some(a) => exists|k: int|
                    0 <= k < apps@.len() && apps@[k] == a && relay_candidate(
                        *self,
                        a,
                        or_max(silent_idx),
                    ) && (forall|j: int|
                        0 <= j < k && relay_candidate(*self, #[trigger] apps@[j], or_max(silent_idx))
                            ==> ranks_before(a, apps@[j])) && (forall|j: int|
                        k < j < apps@.len() && relay_candidate(
                            *self,
                            #[trigger] apps@[j],
                            or_max(silent_idx),
                        ) ==> !ranks_before(apps@[j], a)),
                None => forall|j: int|
                    0 <= j < apps@.len() ==> !relay_candidate(
                        *self,
                        #[trigger] apps@[j],
                        or_max(silent_idx),
                    ),
            },
            r matches Some(a) ==> best_relay(*self, apps@, or_max(silent_idx), a),
    {
        let silent = or_max_exec(silent_idx);
        let n = apps.len();
        let mut best: Option<usize> = None;
        for i in 0..n
            invariant
                n == apps@.len(),
                silent == or_max(silent_idx),
                match best {
                    Some(k) => {
                        &&& k < i
                        &&& relay_candidate(*self, apps@[k as int], silent)
                        &&& forall|j: int|
                            0 <= j < k && relay_candidate(*self, #[trigger] apps@[j], silent)
                                ==> ranks_before(apps@[k as int], apps@[j])
                        &&& forall|j: int|
                            k < j < i && relay_candidate(*self, #[trigger] apps@[j], silent)
                                ==> !ranks_before(apps@[j], apps@[k as int])
                    },
                    None => forall|j: int|
                        0 <= j < i ==> !relay_candidate(*self, #[trigger] apps@[j], silent),
                },
        {
            let a = &apps[i];
            let candidate = a.browser && a.sink != silent && !crate::audio::skip_system_stream(a)
                && (!self.in_snapshot(a.index) || crate::audio::media_relay_score(a.media.as_str())
                == 0);
            if candidate {
                match best {
                    None => {
                        best = Some(i);
                    },
                    Some(k) => {
                        if ranks_before_exec(a, &apps[k]) {
                            proof {
                                lemma_ranks_transitive_prefix(apps@, k as int, i as int);
                            }
                            best = Some(i);
                        }
                    },
                }
            }
        }
        match best {
            Some(k) => {
                proof {
                    lemma_relay_choice_is_best(*self, apps@, silent, k as int);
                }
                Some(copy_app(&apps[k]))
            },
            None => None,
        }
    }

    /// Takes `app` as the relay page's playback, now isolated. Says whether
    /// the sink it has to go back to still needs to be recorded (it was not
    /// moved by this helper).
    pub fn adopt_relay(&mut self, app: &AudioApp) -> (r: bool)
        ensures
            final(self).isolated_key == Some((app.name, app.media, app.binary)),
            *final(self) == (Pulse {
                isolated_key: final(self).isolated_key,
                playback_isolated: true,
                ..*old(self)
            }),
            r == !was_moved(*old(self), app.index),
    {
        let r = !self.already_moved(app.index);
        self.isolated_key = Some((app.name.clone(), app.media.clone(), app.binary.clone()));
        self.playback_isolated = true;
        r
    }

    /// Records that `app` has to go back to the default output `default_idx`
    /// (or, when that is unknown, to the sink it plays on).
    pub fn record_return_sink(&mut self, app: &AudioApp, default_idx: Option<u32>)
        ensures
            final(self).moved@ == old(self).moved@.push(
                (
                    app.index,
                    match default_idx {
                        Some(i) => i,
                        None => app.sink,
                    },
                ),
            ),
            *final(self) == (Pulse { moved: final(self).moved, ..*old(self) }),
    {
        let back = match default_idx {
            Some(i) => i,
            None => app.sink,
        };
        self.moved.push((app.index, back));
    }

    /// What following new streams has to do now.
    pub fn follow_once(&self) -> (r: FollowPlan)
        ensures
            r == follow_plan(*self),
    {
        if !self.needs_follow() {
            FollowPlan::Nothing
        } else if self.playback_isolated && self.routing_mode == RoutingMode::Monitor {
            if self.isolated_key.is_some() {
                FollowPlan::Isolated
            } else {
                FollowPlan::Nothing
            }
        } else {
            FollowPlan::Capture
        }
    }

    fn followed(&self, a: &AudioApp) -> (r: bool)
        ensures
            r == (exists|k: int|
                0 <= k < self.follow_keys@.len() && (#[trigger] self.follow_keys@[k]).0@ == a.name@
                    && self.follow_keys@[k].1@ == a.binary@),
    {
        let n = self.follow_keys.len();
        for i in 0..n
            invariant
                n == self.follow_keys@.len(),
                forall|k: int|
                    0 <= k < i ==> !((#[trigger] self.follow_keys@[k]).0@ == a.name@
                        && self.follow_keys@[k].1@ == a.binary@),
        {
            if self.follow_keys[i].0 == a.name && self.follow_keys[i].1 == a.binary {
                return true;
            }
        }
        false
    }

    /// The moves that bring newly started followed streams to the capture
    /// sink (index `capture_idx`, `None` when the sink is missing).
    pub fn follow_capture(&self, apps: &Vec<AudioApp>, capture_idx: Option<u32>) -> (r: Vec<Step>)
        ensures
            moves_all(
                r@,
                keep_apps(apps@, follow_wanted(*self, or_max(capture_idx))),
                CAPTURE_SINK@,
            ),
    {
        let capture = or_max_exec(capture_idx);
        let ghost keep = follow_wanted(*self, capture);
        let mut steps: Vec<Step> = Vec::new();
        let n = apps.len();
        for i in 0..n
            invariant
                n == apps@.len(),
                keep == follow_wanted(*self, capture),
                capture == or_max(capture_idx),
                moves_all(steps@, keep_apps(apps@.take(i as int), keep), CAPTURE_SINK@),
        {
            proof {
                lemma_keep_step(apps@, keep, i as int);
            }
            let a = &apps[i];
            let take = !crate::audio::skip_system_stream(a) && !self.already_moved(a.index)
                && a.sink != capture && if self.follow_exclude_browser {
                !a.browser
            } else {
                self.followed(a)
            };
            if take {
                steps.push(Pulse::move_app(a, CAPTURE_SINK));
            }
        }
        assert(apps@.take(n as int) =~= apps@);
        steps
    }

    /// The moves that bring the relay page's playback back to the silent
    /// sink (index `silent_idx`, `None` when the sink is missing).
    pub fn follow_isolated(&self, apps: &Vec<AudioApp>, silent_idx: Option<u32>) -> (r: Vec<Step>)
        ensures
            moves_all(
                r@,
                keep_apps(apps@, isolated_wanted(*self, or_max(silent_idx))),
                SILENT_SINK@,
            ),
    {
        let silent = or_max_exec(silent_idx);
        let ghost keep = isolated_wanted(*self, silent);
        let mut steps: Vec<Step> = Vec::new();
        let n = apps.len();
        for i in 0..n
            invariant
                n == apps@.len(),
                keep == isolated_wanted(*self, silent),
                silent == or_max(silent_idx),
                moves_all(steps@, keep_apps(apps@.take(i as int), keep), SILENT_SINK@),
        {
            proof {
                lemma_keep_step(apps@, keep, i as int);
            }
            let a = &apps[i];
            let take = match &self.isolated_key {
                Some(key) => a.sink != silent && !crate::audio::skip_system_stream(a) && a.name
                    == key.0 && a.media == key.1 && a.binary == key.2,
                None => false,
            };
            if take {
                steps.push(Pulse::move_app(a, SILENT_SINK));
            }
        }
        assert(apps@.take(n as int) =~= apps@);
        steps
    }
}

proof fn lemma_ranks_transitive_prefix(apps: Seq<AudioApp>, k: int, i: int)
    requires
        0 <= k < i < apps.len(),
        ranks_before(apps[i], apps[k]),
    ensures
        forall|j: int| 0 <= j < apps.len() && ranks_before(apps[k], #[trigger] apps[j]) ==> ranks_before(apps[i], apps[j]),
        forall|j: int| 0 <= j < apps.len() && ranks_before(#[trigger] apps[j], apps[i]) ==> ranks_before(apps[j], apps[k]),
{
}

/// Every stream `keep_apps` keeps is one of `apps` and is accepted by `keep`.
pub proof fn lemma_keep_apps_sound(apps: Seq<AudioApp>, keep: spec_fn(AudioApp) -> bool)
    ensures
        forall|k: int|
            0 <= k < keep_apps(apps, keep).len() ==> keep(#[trigger] keep_apps(apps, keep)[k])
                && apps.contains(keep_apps(apps, keep)[k]),
    decreases apps.len(),
{
    if apps.len() > 0 {
        lemma_keep_apps_sound(apps.drop_last(), keep);
        let rest = keep_apps(apps.drop_last(), keep);
        assert forall|k: int| 0 <= k < rest.len() implies apps.contains(#[trigger] rest[k]) by {
            let j = choose|j: int| 0 <= j < apps.drop_last().len() && apps.drop_last()[j] == rest[k];
            assert(apps[j] == rest[k]);
        }
        assert(apps[apps.len() - 1] == apps.last());
    }
}

/// A stream moved away is sent back by the next restore: what restoring
/// runs after a move was recorded is the moves back of before, then this one,
/// then the removal of the loopback and of the capture sink.
pub proof fn lemma_moved_stream_goes_back(p: Pulse, q: Pulse, input: u32, sink: u32, out: String)
    requires
        recorded(q, p, Effect::Moved { input, sink }, out),
    ensures
        restore_commands(q) == p.moved@.map_values(|m: (u32, u32)| move_back(m)).push(
            PactlCommand::MoveSinkInput { input, to: SinkRef::Index(sink) },
        ) + unload_if(p.loopback_module) + unload_if(p.capture_module),
{
    assert(q.moved@.map_values(|m: (u32, u32)| move_back(m)) =~= p.moved@.map_values(
        |m: (u32, u32)| move_back(m),
    ).push(move_back((input, sink))));
}

/// A module loaded into a slot is removed when the routing is undone (the
/// loopback and the capture sink) or at shutdown (the silent sink).
pub proof fn lemma_loaded_module_is_removed(p: Pulse, q: Pulse, slot: ModuleSlot, out: String)
    requires
        recorded(q, p, Effect::Loaded(slot), out),
    ensures
        (restore_commands(q) + unload_if(q.silent_module)).contains(
            PactlCommand::UnloadModule { id: out },
        ),
        slot != ModuleSlot::Silent ==> restore_commands(q).contains(
            PactlCommand::UnloadModule { id: out },
        ),
{
    let moves = q.moved@.map_values(|m: (u32, u32)| move_back(m));
    let all = restore_commands(q) + unload_if(q.silent_module);
    match slot {
        ModuleSlot::Silent => {
            assert(all[all.len() - 1] == PactlCommand::UnloadModule { id: out });
        },
        ModuleSlot::Capture => {
            let r = restore_commands(q);
            assert(r[r.len() - 1] == PactlCommand::UnloadModule { id: out });
            assert(all[r.len() - 1] == r[r.len() - 1]);
        },
        ModuleSlot::Loopback => {
            let r = restore_commands(q);
            assert(r[moves.len() as int] == PactlCommand::UnloadModule { id: out });
            assert(all[moves.len() as int] == r[moves.len() as int]);
        },
    }
}

/// After a stop there is nothing left to undo and nothing to follow, and
/// engaging again needs a new prepare.
pub proof fn lemma_stop_leaves_nothing(p: Pulse, q: Pulse)
    requires
        stopped(q, p),
    ensures
        restore_commands(q).len() == 0,
        !follows(q),
        q.pending_capture is None,
{
}

/// Following new streams for capture never moves a loopback or this
/// helper's own stream, a stream it moved before, or one already on the
/// capture sink; with browsers excluded it never moves a browser, and
/// otherwise only the chosen applications.
pub proof fn lemma_follow_capture_moves_only_followed(p: Pulse, apps: Seq<AudioApp>, capture_idx: u32)
    ensures
        forall|k: int|
            0 <= k < keep_apps(apps, follow_wanted(p, capture_idx)).len() ==> {
                let a = #[trigger] keep_apps(apps, follow_wanted(p, capture_idx))[k];
                &&& apps.contains(a)
                &&& !is_system_stream(a)
                &&& !was_moved(p, a.index)
                &&& a.sink != capture_idx
                &&& p.follow_exclude_browser ==> !a.browser
                &&& !p.follow_exclude_browser ==> exists|j: int|
                    0 <= j < p.follow_keys@.len() && (#[trigger] p.follow_keys@[j]).0@ == a.name@
                        && p.follow_keys@[j].1@ == a.binary@
            },
{
    lemma_keep_apps_sound(apps, follow_wanted(p, capture_idx));
}

/// Keeping the relay isolated only ever moves streams with the relay's name,
/// media and binary that are not yet on the silent sink, and nothing at all
/// when no relay stream was adopted.
pub proof fn lemma_follow_isolated_moves_only_relay(p: Pulse, apps: Seq<AudioApp>, silent_idx: u32)
    ensures
        p.isolated_key is None ==> keep_apps(apps, isolated_wanted(p, silent_idx)).len() == 0,
        forall|k: int|
            0 <= k < keep_apps(apps, isolated_wanted(p, silent_idx)).len() ==> {
                let a = #[trigger] keep_apps(apps, isolated_wanted(p, silent_idx))[k];
                &&& apps.contains(a)
                &&& a.sink != silent_idx
                &&& p.isolated_key matches Some(key) && a.name@ == key.0@ && a.media@ == key.1@
                    && a.binary@ == key.2@
            },
{
    lemma_keep_apps_sound(apps, isolated_wanted(p, silent_idx));
    if p.isolated_key is None {
        if keep_apps(apps, isolated_wanted(p, silent_idx)).len() > 0 {
            assert(isolated_wanted(p, silent_idx)(keep_apps(apps, isolated_wanted(p, silent_idx))[0]));
        }
    }
}

/// Preparing for chosen applications moves exactly streams that were chosen;
/// with browsers excluded instead, it moves no browser, loopback or stream
/// of this helper.
pub proof fn lemma_prepare_selects_wanted(apps: Seq<AudioApp>, indices: Seq<u32>)
    ensures
        forall|k: int|
            0 <= k < keep_apps(apps, wanted(indices)).len() ==> {
                let a = #[trigger] keep_apps(apps, wanted(indices))[k];
                &&& apps.contains(a)
                &&& indices.len() > 0 ==> indices.contains(a.index)
                &&& indices.len() == 0 ==> !a.browser && !is_system_stream(a)
            },
{
    lemma_keep_apps_sound(apps, wanted(indices));
}

/// While capture runs, following is needed exactly when there is something
/// to follow: chosen applications, every non-browser application, or the
/// isolated relay stream. Outside isolated monitor mode, newly started chosen
/// or non-browser applications are captured; in isolated monitor mode the
/// relay stream is kept on the silent sink; without capture nothing follows.
pub proof fn lemma_following_while_capturing(p: Pulse)
    ensures
        p.capture_source is None ==> !follows(p) && follow_plan(p) == FollowPlan::Nothing,
        p.capture_source is Some && p.follow_exclude_browser ==> follows(p),
        p.capture_source is Some && p.follow_keys@.len() > 0 ==> follows(p),
        p.capture_source is Some && p.playback_isolated ==> follows(p),
        p.capture_source is Some && !p.follow_exclude_browser && p.follow_keys@.len() == 0
            && !p.playback_isolated ==> !follows(p) && follow_plan(p) == FollowPlan::Nothing,
        p.capture_source is Some && (p.follow_exclude_browser || p.follow_keys@.len() > 0)
            && !(p.playback_isolated && p.routing_mode == RoutingMode::Monitor) ==> follow_plan(p)
            == FollowPlan::Capture,
        p.capture_source is Some && p.playback_isolated && p.routing_mode == RoutingMode::Monitor
            && p.isolated_key is Some ==> follow_plan(p) == FollowPlan::Isolated,
{
}

/// The stream that ranks before every earlier candidate and after no later
/// one has the lowest relay score of all candidates, and among candidates
/// with that score the newest index: a stream that names Meet-123 is always
/// preferred to one that does not.
pub proof fn lemma_relay_choice_is_best(p: Pulse, apps: Seq<AudioApp>, silent_idx: u32, k: int)
    requires
        0 <= k < apps.len(),
        relay_candidate(p, apps[k], silent_idx),
        forall|j: int|
            0 <= j < k && relay_candidate(p, #[trigger] apps[j], silent_idx) ==> ranks_before(
                apps[k],
                apps[j],
            ),
        forall|j: int|
            k < j < apps.len() && relay_candidate(p, #[trigger] apps[j], silent_idx)
                ==> !ranks_before(apps[j], apps[k]),
    ensures
        best_relay(p, apps, silent_idx, apps[k]),
{
    assert forall|j: int|
        0 <= j < apps.len() && relay_candidate(p, #[trigger] apps[j], silent_idx) implies {
            &&& relay_score(apps[k].media@) <= relay_score(apps[j].media@)
            &&& relay_score(apps[k].media@) == relay_score(apps[j].media@) ==> apps[k].index
                >= apps[j].index
        } by {
        if j < k {
            assert(ranks_before(apps[k], apps[j]));
        } else if j > k {
            assert(!ranks_before(apps[j], apps[k]));
        }
    }
}

/// In monitor mode the source asked for is captured, and when none (or an
/// empty name) is asked for, the monitor of the default output, which is
/// what the computer currently plays.
pub proof fn lemma_monitor_target(source: String, default_sink: Seq<char>)
    ensures
        source@.len() > 0 ==> monitor_target(Some(source), default_sink) == source@,
        source@.len() == 0 ==> monitor_target(Some(source), default_sink) == default_sink
            + ".monitor"@,
        monitor_target(None, default_sink) == default_sink + ".monitor"@,
{
}

} // verus!
