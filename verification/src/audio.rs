//! Audio streams and devices as `pactl` reports them, and how the helper
//! classifies them.
use vstd::prelude::*;
use crate::json::{
    as_text, get, json_get, json_items, json_text, json_u32, json_u32_of, prop_str,
    prop_text, Json,
};
use crate::pulse::{Pulse, PulseError};
use crate::text::{
    lemma_contains_within, lemma_lower_joined,
    chars_of, contains, contains_str, ends_with_str, has_prefix, has_suffix, lower, lower_chars,
    lower_str, starts_with_str,
};

verus! {

/// A capture source offered to the page: the monitor of an output device.
#[derive(Debug)]
pub struct AudioSource {
    pub name: String,
    pub description: String,
    pub is_default: bool,
}

/// A playback stream (a "sink input") of some application.
#[derive(Debug)]
pub struct AudioApp {
    pub index: u32,
    pub name: String,
    pub media: String,
    pub binary: String,
    pub sink: u32,
    pub browser: bool,
}

/// What engaging the capture reports back to the page.
#[derive(Debug)]
pub struct EngageResult {
    pub ok: bool,
    pub isolated: bool,
    pub routing_mode: String,
}

/// A copy of an application stream.
pub fn copy_app(a: &AudioApp) -> (r: AudioApp)
    ensures
        r == *a,
{
    AudioApp {
        index: a.index,
        name: a.name.clone(),
        media: a.media.clone(),
        binary: a.binary.clone(),
        sink: a.sink,
        browser: a.browser,
    }
}

// ---------------------------------------------------------------------------
// Classification
// ---------------------------------------------------------------------------

/// How likely a playback stream with this media name is the relay page's own
/// audio: 0 when it names Meet-123, 1 for a generic Web Audio stream, 2 otherwise.
pub open spec fn relay_score(media: Seq<char>) -> u8 {
    let m = lower(media);
    if contains(m, "meet-123"@) || contains(m, "meet123"@) {
        0
    } else if contains(m, "audiocontext"@) || contains(m, "web audio"@) {
        1
    } else {
        2
    }
}

/// Name, media name and binary of a stream, joined by single spaces.
pub open spec fn app_blob(app: AudioApp) -> Seq<char> {
    app.name@ + seq![' '] + app.media@ + seq![' '] + app.binary@
}

/// Streams of loopback modules and of this helper itself, which are never
/// moved around.
pub open spec fn is_system_stream(app: AudioApp) -> bool {
    let b = lower(app_blob(app));
    contains(b, "loopback"@) || contains(b, "meet123"@)
}

/// Whether an application with this name and binary is a Chromium-based
/// browser (or this helper).
pub open spec fn browser_named(name: Seq<char>, binary: Seq<char>) -> bool {
    let b = lower(name + seq![' '] + binary);
    ||| contains(b, "chrome"@)
    ||| contains(b, "chromium"@)
    ||| contains(b, "google-chrome"@)
    ||| contains(b, "msedge"@)
    ||| contains(b, "microsoft-edge"@)
    ||| contains(b, "vivaldi"@)
    ||| contains(b, "brave"@)
    ||| contains(b, "meet123"@)
}

/// Scores a media name, see `relay_score`.
pub fn media_relay_score(media: &str) -> (r: u8)
    ensures
        r == relay_score(media@),
{
    let m = lower_str(media);
    if contains_str(&m, "meet-123") || contains_str(&m, "meet123") {
        0
    } else if contains_str(&m, "audiocontext") || contains_str(&m, "web audio") {
        1
    } else {
        2
    }
}

fn push_all(out: &mut Vec<char>, s: &str)
    ensures
        final(out)@ == old(out)@ + s@,
{
    let cs = chars_of(s);
    let n = cs.len();
    for i in 0..n
        invariant
            n == cs@.len(),
            cs@ == s@,
            out@ == old(out)@ + cs@.take(i as int),
    {
        out.push(cs[i]);
        assert(cs@.take(i + 1) =~= cs@.take(i as int).push(cs@[i as int]));
    }
    assert(cs@.take(n as int) =~= cs@);
}

/// Whether the stream belongs to a loopback module or to this helper.
pub fn skip_system_stream(app: &AudioApp) -> (r: bool)
    ensures
        r == is_system_stream(*app),
{
    let mut blob: Vec<char> = Vec::new();
    push_all(&mut blob, app.name.as_str());
    blob.push(' ');
    push_all(&mut blob, app.media.as_str());
    blob.push(' ');
    push_all(&mut blob, app.binary.as_str());
    assert(blob@ =~= app_blob(*app));
    let b = lower_chars(&blob);
    contains_str(&b, "loopback") || contains_str(&b, "meet123")
}

/// Whether an application is a Chromium-based browser (or this helper).
pub fn is_browser(name: &str, binary: &str) -> (r: bool)
    ensures
        r == browser_named(name@, binary@),
{
    let mut blob: Vec<char> = Vec::new();
    push_all(&mut blob, name);
    blob.push(' ');
    push_all(&mut blob, binary);
    assert(blob@ =~= name@ + seq![' '] + binary@);
    let b = lower_chars(&blob);
    contains_str(&b, "chrome") || contains_str(&b, "chromium") || contains_str(&b, "google-chrome")
        || contains_str(&b, "msedge") || contains_str(&b, "microsoft-edge") || contains_str(
        &b,
        "vivaldi",
    ) || contains_str(&b, "brave") || contains_str(&b, "meet123")
}

// ---------------------------------------------------------------------------
// Reading `pactl --format=json` listings
// ---------------------------------------------------------------------------

/// The index of the first sink in `items` that is named `name` and has a
/// readable index.
pub open spec fn sink_index_in(items: Seq<Json>, name: Seq<char>) -> Option<u32>
    decreases items.len(),
{
    if items.len() == 0 {
        None
    } else if json_text(json_get(items[0], "name"@)) == Some(name) && json_u32_of(
        json_get(items[0], "index"@),
    ) is Some {
        json_u32_of(json_get(items[0], "index"@))
    } else {
        sink_index_in(items.drop_first(), name)
    }
}

/// The index of the sink `name` in a `pactl list sinks` listing.
pub fn sink_index(sinks: &Json, name: &str) -> (r: Option<u32>)
    ensures
        r == sink_index_in(json_items(*sinks), name@),
{
    match sinks {
        Json::Array(items) => {
            let n = items.len();
            let mut i: usize = 0;
            assert(items@.skip(0) =~= items@);
            while i < n
                invariant
                    n == items@.len(),
                    i <= n,
                    json_items(*sinks) == items@,
                    sink_index_in(items@, name@) == sink_index_in(items@.skip(i as int), name@),
                decreases n - i,
            {
                assert(items@.skip(i as int).drop_first() =~= items@.skip(i + 1));
                assert(items@.skip(i as int)[0] == items@[i as int]);
                let named = match as_text(get(&items[i], "name")) {
                    Some(s) => crate::text::same_str(s.as_str(), name),
                    None => false,
                };
                if named {
                    let idx = json_u32(get(&items[i], "index"));
                    if idx.is_some() {
                        return idx;
                    }
                }
                i = i + 1;
            }
            assert(items@.skip(n as int) =~= Seq::<Json>::empty());
            None
        },
        _ => None,
    }
}

/// Whether the listing holds a sink named `name` (with a readable index).
pub fn sink_exists(sinks: &Json, name: &str) -> (r: bool)
    ensures
        r == (sink_index_in(json_items(*sinks), name@) is Some),
{
    sink_index(sinks, name).is_some()
}

/// The sink inputs that carry a readable index, in listing order.
pub open spec fn indexed_inputs(items: Seq<Json>) -> Seq<Json>
    decreases items.len(),
{
    if items.len() == 0 {
        Seq::empty()
    } else {
        let rest = indexed_inputs(items.drop_last());
        if json_u32_of(json_get(items.last(), "index"@)) is Some {
            rest.push(items.last())
        } else {
            rest
        }
    }
}

/// The properties object of a sink input, or null.
pub open spec fn props_of(input: Json) -> Json {
    match json_get(input, "properties"@) {
        Some(p) => p,
        None => Json::Null,
    }
}

/// `app` is what the helper reads out of the sink input `input`.
pub open spec fn app_read_from(app: AudioApp, input: Json) -> bool {
    &&& json_u32_of(json_get(input, "index"@)) == Some(app.index)
    &&& app.sink == match json_u32_of(json_get(input, "sink"@)) {
        Some(s) => s,
        None => 0u32,
    }
    &&& app.name@ == prop_text(props_of(input), "application.name"@)
    &&& app.media@ == prop_text(props_of(input), "media.name"@)
    &&& app.binary@ == prop_text(props_of(input), "application.process.binary"@)
    &&& app.browser == browser_named(app.name@, app.binary@)
}

/// `apps` are read, one for one and in order, from the indexed sink inputs
/// of a `pactl list sink-inputs` listing.
pub open spec fn apps_read_from(apps: Seq<AudioApp>, listing: Json) -> bool {
    let inputs = indexed_inputs(json_items(listing));
    &&& apps.len() == inputs.len()
    &&& forall|k: int| 0 <= k < apps.len() ==> app_read_from(#[trigger] apps[k], inputs[k])
}

fn read_app(input: &Json, index: u32) -> (r: AudioApp)
    requires
        json_u32_of(json_get(*input, "index"@)) == Some(index),
    ensures
        app_read_from(r, *input),
{
    let sink = match json_u32(get(input, "sink")) {
        Some(s) => s,
        None => 0,
    };
    let null = Json::Null;
    let props: &Json = match get(input, "properties") {
        Some(p) => p,
        None => &null,
    };
    let name = prop_str(props, "application.name");
    let media = prop_str(props, "media.name");
    let binary = prop_str(props, "application.process.binary");
    let browser = is_browser(name.as_str(), binary.as_str());
    AudioApp { index, name, media, binary, sink, browser }
}

impl Pulse {
    /// The playback streams of a `pactl list sink-inputs` listing; entries
    /// without a readable index are skipped.
    pub fn list_apps(listing: &Json) -> (r: Vec<AudioApp>)
        ensures
            apps_read_from(r@, *listing),
    {
        let mut out: Vec<AudioApp> = Vec::new();
        match listing {
            Json::Array(items) => {
                let n = items.len();
                for i in 0..n
                    invariant
                        n == items@.len(),
                        json_items(*listing) == items@,
                        out@.len() == indexed_inputs(items@.take(i as int)).len(),
                        forall|k: int|
                            0 <= k < out@.len() ==> app_read_from(
                                #[trigger] out@[k],
                                indexed_inputs(items@.take(i as int))[k],
                            ),
                {
                    assert(items@.take(i + 1).drop_last() =~= items@.take(i as int));
                    if let Some(index) = json_u32(get(&items[i], "index")) {
                        let app = read_app(&items[i], index);
                        out.push(app);
                    }
                }
                assert(items@.take(n as int) =~= items@);
            },
            _ => {},
        }
        out
    }

    /// The offered sources of a `pactl list sources` listing, the default one
    /// (named `default_monitor`) first, then by description.
    pub fn list_sources(listing: &Json, default_monitor: &str) -> (r: Vec<AudioSource>)
        ensures
            exists|u: Seq<AudioSource>|
                sources_read_from(u, *listing, default_monitor@) && r@ == sort_sources_spec(u),
    {
        let u = monitor_sources(listing, default_monitor);
        sort_sources(&u)
    }

    /// The default output named by `pactl info`.
    pub fn default_sink(info: &Json) -> (r: Result<String, PulseError>)
        ensures
            match json_text(json_get(*info, "default_sink_name"@)) {
                Some(t) => r matches Ok(s) && s@ == t,
                None => r == Err::<String, PulseError>(PulseError::MissingDefaultSink),
            },
    {
        match as_text(get(info, "default_sink_name")) {
            Some(s) => Ok(s.clone()),
            None => Err(PulseError::MissingDefaultSink),
        }
    }

    /// The monitor source of the default output named by `pactl info`.
    pub fn default_monitor(info: &Json) -> (r: Result<String, PulseError>)
        ensures
            match json_text(json_get(*info, "default_sink_name"@)) {
                Some(t) => r matches Ok(s) && s@ == t + ".monitor"@,
                None => r == Err::<String, PulseError>(PulseError::MissingDefaultSink),
            },
    {
        match Pulse::default_sink(info) {
            Ok(mut s) => {
                s.append(".monitor");
                Ok(s)
            },
            Err(e) => Err(e),
        }
    }
}

/// Lexicographic order of texts by character code, as `Ord` for `String`
/// orders them: -1, 0 or 1.
pub open spec fn text_order(a: Seq<char>, b: Seq<char>) -> int
    decreases a.len(),
{
    if a.len() == 0 {
        if b.len() == 0 {
            0
        } else {
            -1
        }
    } else if b.len() == 0 {
        1
    } else if a[0] < b[0] {
        -1
    } else if b[0] < a[0] {
        1
    } else {
        text_order(a.drop_first(), b.drop_first())
    }
}

/// Compares two texts, see `text_order`.
pub fn order_chars(a: &Vec<char>, b: &Vec<char>) -> (r: i8)
    ensures
        r == text_order(a@, b@),
{
    let mut i: usize = 0;
    assert(a@.skip(0) =~= a@);
    assert(b@.skip(0) =~= b@);
    while i < a.len() && i < b.len()
        invariant
            i <= a@.len(),
            i <= b@.len(),
            text_order(a@, b@) == text_order(a@.skip(i as int), b@.skip(i as int)),
        decreases a@.len() - i,
    {
        assert(a@.skip(i as int).drop_first() =~= a@.skip(i + 1));
        assert(b@.skip(i as int).drop_first() =~= b@.skip(i + 1));
        if a[i] < b[i] {
            return -1;
        }
        if b[i] < a[i] {
            return 1;
        }
        i = i + 1;
    }
    if i == a.len() {
        if i == b.len() {
            0
        } else {
            -1
        }
    } else {
        1
    }
}

/// The order of the source list: the default source first, then by
/// description. `source_le(a, b)` holds when `a` may stand before `b`.
pub open spec fn source_le(a: AudioSource, b: AudioSource) -> bool {
    (a.is_default && !b.is_default) || (a.is_default == b.is_default && text_order(
        a.description@,
        b.description@,
    ) <= 0)
}

/// Inserts `x` into an ordered list after every element that may stand before it.
pub open spec fn insert_source(sorted: Seq<AudioSource>, x: AudioSource) -> Seq<AudioSource>
    decreases sorted.len(),
{
    if sorted.len() == 0 {
        seq![x]
    } else if source_le(sorted.last(), x) {
        sorted.push(x)
    } else {
        insert_source(sorted.drop_last(), x).push(sorted.last())
    }
}

/// The stable sort of `s` by `source_le`.
pub open spec fn sort_sources_spec(s: Seq<AudioSource>) -> Seq<AudioSource>
    decreases s.len(),
{
    if s.len() == 0 {
        Seq::empty()
    } else {
        insert_source(sort_sources_spec(s.drop_last()), s.last())
    }
}

proof fn lemma_insert_at(s: Seq<AudioSource>, x: AudioSource, p: int)
    requires
        0 <= p <= s.len(),
        p == 0 || source_le(s[p - 1], x),
        forall|k: int| p <= k < s.len() ==> !source_le(#[trigger] s[k], x),
    ensures
        insert_source(s, x) == s.insert(p, x),
    decreases s.len(),
{
    if s.len() == 0 {
        assert(s.insert(p, x) =~= seq![x]);
    } else if source_le(s.last(), x) {
        assert(p == s.len());
        assert(s.insert(p, x) =~= s.push(x));
    } else {
        lemma_insert_at(s.drop_last(), x, p);
        assert(s.drop_last().insert(p, x).push(s.last()) =~= s.insert(p, x));
    }
}

fn source_le_exec(a: &AudioSource, b: &AudioSource) -> (r: bool)
    ensures
        r == source_le(*a, *b),
{
    if a.is_default && !b.is_default {
        true
    } else if a.is_default == b.is_default {
        order_chars(&chars_of(a.description.as_str()), &chars_of(b.description.as_str())) <= 0
    } else {
        false
    }
}

/// A copy of a source.
pub fn copy_source(a: &AudioSource) -> (r: AudioSource)
    ensures
        r == *a,
{
    AudioSource { name: a.name.clone(), description: a.description.clone(), is_default: a.is_default }
}

/// Sorts sources, the default first, then by description; sources that
/// compare equal keep their order.
pub fn sort_sources(v: &Vec<AudioSource>) -> (r: Vec<AudioSource>)
    ensures
        r@ == sort_sources_spec(v@),
{
    let mut r: Vec<AudioSource> = Vec::new();
    let n = v.len();
    for i in 0..n
        invariant
            n == v@.len(),
            r@ == sort_sources_spec(v@.take(i as int)),
    {
        let x = copy_source(&v[i]);
        let mut p = r.len();
        while p > 0 && !source_le_exec(&r[p - 1], &x)
            invariant
                p <= r@.len(),
                forall|k: int| p <= k < r@.len() ==> !source_le(#[trigger] r@[k], x),
            decreases p,
        {
            p = p - 1;
        }
        proof {
            lemma_insert_at(r@, x, p as int);
            assert(v@.take(i + 1).drop_last() =~= v@.take(i as int));
        }
        r.insert(p, x);
    }
    assert(v@.take(n as int) =~= v@);
    r
}

/// The name of an entry of a listing, or the empty text.
pub open spec fn entry_name(item: Json) -> Seq<char> {
    match json_text(json_get(item, "name"@)) {
        Some(n) => n,
        None => Seq::empty(),
    }
}

/// A source the page may capture: the monitor of an output device that is
/// not one of this helper's own sinks.
pub open spec fn is_offered_source(item: Json) -> bool {
    has_suffix(entry_name(item), ".monitor"@) && !has_prefix(entry_name(item), "meet123_"@)
}

/// The offered sources of a listing, in listing order.
pub open spec fn offered_sources(items: Seq<Json>) -> Seq<Json>
    decreases items.len(),
{
    if items.len() == 0 {
        Seq::empty()
    } else {
        let rest = offered_sources(items.drop_last());
        if is_offered_source(items.last()) {
            rest.push(items.last())
        } else {
            rest
        }
    }
}

/// `src` is what the helper reads out of the source entry `item`; it is the
/// default one when its name is `default_monitor`.
pub open spec fn source_read_from(src: AudioSource, item: Json, default_monitor: Seq<char>) -> bool {
    &&& src.name@ == entry_name(item)
    &&& src.is_default == (entry_name(item) == default_monitor)
    &&& src.description@ == match json_text(json_get(item, "description"@)) {
        Some(d) => d,
        None => entry_name(item),
    }
}

/// `srcs` are read, one for one and in order, from the offered sources of a
/// `pactl list sources` listing.
pub open spec fn sources_read_from(
    srcs: Seq<AudioSource>,
    listing: Json,
    default_monitor: Seq<char>,
) -> bool {
    let items = offered_sources(json_items(listing));
    &&& srcs.len() == items.len()
    &&& forall|k: int|
        0 <= k < srcs.len() ==> source_read_from(#[trigger] srcs[k], items[k], default_monitor)
}

fn read_source(item: &Json, default_monitor: &str) -> (r: Option<AudioSource>)
    ensures
        match r {
            Some(src) => is_offered_source(*item) && source_read_from(src, *item, default_monitor@),
            None => !is_offered_source(*item),
        },
{
    let name: String = match as_text(get(item, "name")) {
        Some(n) => n.clone(),
        None => String::new(),
    };
    let cs = chars_of(name.as_str());
    if !ends_with_str(&cs, ".monitor") || starts_with_str(&cs, "meet123_") {
        return None;
    }
    let description: String = match as_text(get(item, "description")) {
        Some(d) => d.clone(),
        None => name.clone(),
    };
    let is_default = crate::text::same_str(name.as_str(), default_monitor);
    Some(AudioSource { name, description, is_default })
}

/// The offered sources of a `pactl list sources` listing, in listing order.
pub fn monitor_sources(listing: &Json, default_monitor: &str) -> (r: Vec<AudioSource>)
    ensures
        sources_read_from(r@, *listing, default_monitor@),
{
    let mut out: Vec<AudioSource> = Vec::new();
    match listing {
        Json::Array(items) => {
            let n = items.len();
            for i in 0..n
                invariant
                    n == items@.len(),
                    json_items(*listing) == items@,
                    out@.len() == offered_sources(items@.take(i as int)).len(),
                    forall|k: int|
                        0 <= k < out@.len() ==> source_read_from(
                            #[trigger] out@[k],
                            offered_sources(items@.take(i as int))[k],
                            default_monitor@,
                        ),
            {
                assert(items@.take(i + 1).drop_last() =~= items@.take(i as int));
                if let Some(src) = read_source(&items[i], default_monitor) {
                    out.push(src);
                }
            }
            assert(items@.take(n as int) =~= items@);
        },
        _ => {},
    }
    out
}

proof fn lemma_text_order_flip(a: Seq<char>, b: Seq<char>)
    ensures
        text_order(a, b) == -text_order(b, a),
    decreases a.len(),
{
    if a.len() > 0 && b.len() > 0 && a[0] == b[0] {
        lemma_text_order_flip(a.drop_first(), b.drop_first());
    }
}

proof fn lemma_text_order_chain(a: Seq<char>, b: Seq<char>, c: Seq<char>)
    requires
        text_order(a, b) <= 0,
        text_order(b, c) <= 0,
    ensures
        text_order(a, c) <= 0,
    decreases a.len(),
{
    if a.len() > 0 && b.len() > 0 && c.len() > 0 && a[0] == b[0] && b[0] == c[0] {
        lemma_text_order_chain(a.drop_first(), b.drop_first(), c.drop_first());
    }
}

proof fn lemma_source_le_total(a: AudioSource, b: AudioSource)
    ensures
        source_le(a, b) || source_le(b, a),
{
    lemma_text_order_flip(a.description@, b.description@);
}

proof fn lemma_source_le_chain(a: AudioSource, b: AudioSource, c: AudioSource)
    requires
        source_le(a, b),
        source_le(b, c),
    ensures
        source_le(a, c),
{
    if a.is_default == b.is_default && b.is_default == c.is_default {
        lemma_text_order_chain(a.description@, b.description@, c.description@);
    }
}

/// The sources stand in the order of the list: each may stand before every
/// later one.
pub open spec fn sources_ordered(s: Seq<AudioSource>) -> bool {
    forall|i: int, j: int| 0 <= i < j < s.len() ==> source_le(#[trigger] s[i], #[trigger] s[j])
}

proof fn lemma_insert_source(s: Seq<AudioSource>, x: AudioSource)
    requires
        sources_ordered(s),
    ensures
        sources_ordered(insert_source(s, x)),
        insert_source(s, x).to_multiset() == s.to_multiset().insert(x),
    decreases s.len(),
{
    broadcast use vstd::seq_lib::group_to_multiset_ensures;

    if s.len() == 0 {
        assert(seq![x] =~= Seq::<AudioSource>::empty().push(x));
    } else if source_le(s.last(), x) {
        let t = s.push(x);
        assert forall|i: int, j: int| 0 <= i < j < t.len() implies source_le(
            #[trigger] t[i],
            #[trigger] t[j],
        ) by {
            if j == s.len() {
                if i < s.len() - 1 {
                    lemma_source_le_chain(s[i], s.last(), x);
                }
            }
        }
    } else {
        let init = s.drop_last();
        let last = s.last();
        assert(sources_ordered(init));
        lemma_insert_source(init, x);
        lemma_source_le_total(last, x);
        let u = insert_source(init, x);
        assert(s =~= init.push(last));
        assert forall|k: int| 0 <= k < u.len() implies source_le(#[trigger] u[k], last) by {
            assert(u.to_multiset().count(u[k]) > 0);
            if u[k] != x {
                assert(init.to_multiset().count(u[k]) > 0);
                assert(init.contains(u[k]));
                let j = choose|j: int| 0 <= j < init.len() && init[j] == u[k];
                assert(s[j] == u[k]);
            }
        }
        let t = u.push(last);
        assert forall|i: int, j: int| 0 <= i < j < t.len() implies source_le(
            #[trigger] t[i],
            #[trigger] t[j],
        ) by {
            if j == u.len() {
                assert(t[i] == u[i]);
            } else {
                assert(t[i] == u[i] && t[j] == u[j]);
            }
        }
    }
}

/// What `list_sources` is for: the sorted sources are the same sources, the
/// default one ahead of every other, and otherwise by description.
pub proof fn lemma_sources_sorted(u: Seq<AudioSource>)
    ensures
        sources_ordered(sort_sources_spec(u)),
        sort_sources_spec(u).to_multiset() == u.to_multiset(),
    decreases u.len(),
{
    broadcast use vstd::seq_lib::group_to_multiset_ensures;

    if u.len() > 0 {
        lemma_sources_sorted(u.drop_last());
        lemma_insert_source(sort_sources_spec(u.drop_last()), u.last());
        assert(u =~= u.drop_last().push(u.last()));
    }
}

/// Texts compare as `String::cmp` compares them, by their first difference:
/// a common beginning does not matter; at the first position where they
/// differ, the smaller character comes first; a proper beginning of a text
/// comes before it; and only equal texts compare equal.
pub proof fn lemma_text_order_is_lexicographic(a: Seq<char>, b: Seq<char>, p: Seq<char>)
    ensures
        text_order(p + a, p + b) == text_order(a, b),
        a.len() > 0 && b.len() > 0 && a[0] < b[0] ==> text_order(a, b) == -1,
        a.len() < b.len() && b.take(a.len() as int) == a ==> text_order(a, b) == -1,
        text_order(a, b) == 0 <==> a == b,
    decreases p.len(),
{
    lemma_text_order_zero(a, b);
    lemma_text_order_prefix(a, b);
    if p.len() > 0 {
        lemma_text_order_is_lexicographic(a, b, p.drop_first());
        assert((p + a).drop_first() =~= p.drop_first() + a);
        assert((p + b).drop_first() =~= p.drop_first() + b);
        assert((p + a)[0] == p[0]);
        assert((p + b)[0] == p[0]);
    } else {
        assert(p + a =~= a);
        assert(p + b =~= b);
    }
}

proof fn lemma_text_order_zero(a: Seq<char>, b: Seq<char>)
    ensures
        text_order(a, b) == 0 <==> a == b,
    decreases a.len(),
{
    if a.len() > 0 && b.len() > 0 && a[0] == b[0] {
        lemma_text_order_zero(a.drop_first(), b.drop_first());
        if a.drop_first() == b.drop_first() {
            assert(a =~= seq![a[0]] + a.drop_first());
            assert(b =~= seq![b[0]] + b.drop_first());
        }
    }
    if a == b && a.len() > 0 {
        assert(a.drop_first() == b.drop_first());
    }
    if a.len() == 0 && b.len() == 0 {
        assert(a =~= b);
    }
}

proof fn lemma_text_order_prefix(a: Seq<char>, b: Seq<char>)
    ensures
        a.len() < b.len() && b.take(a.len() as int) == a ==> text_order(a, b) == -1,
    decreases a.len(),
{
    if a.len() > 0 && a.len() < b.len() && b.take(a.len() as int) == a {
        assert(b[0] == b.take(a.len() as int)[0]);
        assert(b.drop_first().take(a.drop_first().len() as int) =~= b.take(a.len() as int).drop_first());
        lemma_text_order_prefix(a.drop_first(), b.drop_first());
    }
}

/// A stream is a loopback or this helper's own as soon as its name, its
/// media name or its binary mentions "loopback" or "meet123", in any ASCII
/// case.
pub proof fn lemma_system_stream_by_any_field(app: AudioApp)
    ensures
        contains(lower(app.name@), "loopback"@) || contains(lower(app.name@), "meet123"@)
            ==> is_system_stream(app),
        contains(lower(app.media@), "loopback"@) || contains(lower(app.media@), "meet123"@)
            ==> is_system_stream(app),
        contains(lower(app.binary@), "loopback"@) || contains(lower(app.binary@), "meet123"@)
            ==> is_system_stream(app),
{
    let sp: Seq<char> = seq![' '];
    let ln = lower(app.name@);
    let lm = lower(app.media@);
    let lb = lower(app.binary@);
    assert(lower(sp) =~= sp);
    assert(lower(app_blob(app)) =~= ln + sp + lm + sp + lb);
    assert(ln + sp + lm + sp + lb =~= Seq::<char>::empty() + ln + (sp + lm + sp + lb));
    assert(ln + sp + lm + sp + lb =~= (ln + sp) + lm + (sp + lb));
    assert(ln + sp + lm + sp + lb =~= (ln + sp + lm + sp) + lb + Seq::<char>::empty());
    if contains(ln, "loopback"@) {
        lemma_contains_within(Seq::<char>::empty(), ln, sp + lm + sp + lb, "loopback"@);
    }
    if contains(ln, "meet123"@) {
        lemma_contains_within(Seq::<char>::empty(), ln, sp + lm + sp + lb, "meet123"@);
    }
    if contains(lm, "loopback"@) {
        lemma_contains_within(ln + sp, lm, sp + lb, "loopback"@);
    }
    if contains(lm, "meet123"@) {
        lemma_contains_within(ln + sp, lm, sp + lb, "meet123"@);
    }
    if contains(lb, "loopback"@) {
        lemma_contains_within(ln + sp + lm + sp, lb, Seq::<char>::empty(), "loopback"@);
    }
    if contains(lb, "meet123"@) {
        lemma_contains_within(ln + sp + lm + sp, lb, Seq::<char>::empty(), "meet123"@);
    }
}

/// A media name that mentions Meet-123 anywhere marks the relay page's own
/// stream: its relay score is the best, 0; every score is 0, 1 or 2.
pub proof fn lemma_relay_score_names_meet(x: Seq<char>, y: Seq<char>)
    ensures
        relay_score(x + "meet-123"@ + y) == 0,
        relay_score(x + "meet123"@ + y) == 0,
        relay_score(x + "Meet-123"@ + y) == 0,
        forall|m: Seq<char>| #[trigger] relay_score(m) <= 2,
{
    reveal_strlit("meet-123");
    reveal_strlit("meet123");
    reveal_strlit("Meet-123");
    assert(lower("meet-123"@) =~= "meet-123"@);
    assert(lower("meet123"@) =~= "meet123"@);
    assert(lower("Meet-123"@) =~= "meet-123"@);
    lemma_lower_joined(x, "meet-123"@, y);
    lemma_lower_joined(x, "meet123"@, y);
    lemma_lower_joined(x, "Meet-123"@, y);
    assert("meet-123"@.subrange(0int, 0int + "meet-123"@.len()) =~= "meet-123"@);
    assert("meet123"@.subrange(0int, 0int + "meet123"@.len()) =~= "meet123"@);
    lemma_contains_within(lower(x), "meet-123"@, lower(y), "meet-123"@);
    lemma_contains_within(lower(x), "meet123"@, lower(y), "meet123"@);
}

/// An application whose name or binary mentions Chrome, Chromium, Edge,
/// Vivaldi or Brave (in any ASCII case) is a browser.
pub proof fn lemma_browser_by_marker(x: Seq<char>, y: Seq<char>, other: Seq<char>)
    ensures
        browser_named(x + "chrome"@ + y, other),
        browser_named(other, x + "chrome"@ + y),
        browser_named(x + "Chromium"@ + y, other),
        browser_named(x + "msedge"@ + y, other),
        browser_named(x + "Vivaldi"@ + y, other),
        browser_named(other, x + "brave"@ + y),
{
    reveal_strlit("chrome");
    reveal_strlit("Chromium");
    reveal_strlit("chromium");
    reveal_strlit("msedge");
    reveal_strlit("Vivaldi");
    reveal_strlit("vivaldi");
    reveal_strlit("brave");
    let sp: Seq<char> = seq![' '];
    assert(lower(sp) =~= sp);
    assert(lower("chrome"@) =~= "chrome"@);
    assert(lower("Chromium"@) =~= "chromium"@);
    assert(lower("msedge"@) =~= "msedge"@);
    assert(lower("Vivaldi"@) =~= "vivaldi"@);
    assert(lower("brave"@) =~= "brave"@);
    assert("chrome"@.subrange(0int, 0int + "chrome"@.len()) =~= "chrome"@);
    assert("chromium"@.subrange(0int, 0int + "chromium"@.len()) =~= "chromium"@);
    assert("msedge"@.subrange(0int, 0int + "msedge"@.len()) =~= "msedge"@);
    assert("vivaldi"@.subrange(0int, 0int + "vivaldi"@.len()) =~= "vivaldi"@);
    assert("brave"@.subrange(0int, 0int + "brave"@.len()) =~= "brave"@);
    let lo = lower(other);
    let lx = lower(x);
    let ly = lower(y);
    // the marker in the name
    assert forall|lit: Seq<char>, low: Seq<char>|
        lower(lit) == low && contains(low, low) implies contains(
            lower((x + lit + y) + sp + other),
            low,
        ) by {
        assert(lower((x + lit + y) + sp + other) =~= lx + low + (ly + sp + lo));
        lemma_contains_within(lx, low, ly + sp + lo, low);
    }
    // the marker in the binary
    assert forall|lit: Seq<char>, low: Seq<char>|
        lower(lit) == low && contains(low, low) implies contains(
            lower(other + sp + (x + lit + y)),
            low,
        ) by {
        assert(lower(other + sp + (x + lit + y)) =~= (lo + sp + lx) + low + ly);
        lemma_contains_within(lo + sp + lx, low, ly, low);
    }
    assert(contains(lower((x + "chrome"@ + y) + sp + other), "chrome"@));
    assert(contains(lower(other + sp + (x + "chrome"@ + y)), "chrome"@));
    assert(contains(lower((x + "Chromium"@ + y) + sp + other), "chromium"@));
    assert(contains(lower((x + "msedge"@ + y) + sp + other), "msedge"@));
    assert(contains(lower((x + "Vivaldi"@ + y) + sp + other), "vivaldi"@));
    assert(contains(lower(other + sp + (x + "brave"@ + y)), "brave"@));
}

} // verus!
