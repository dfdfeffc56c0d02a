//! Which Chromium-based browser opens the relay page, and how.
use vstd::prelude::*;
use crate::text::{chars_of, string_of};

verus! {

/// The browser programs looked for on `PATH`, in the order they are listed.
pub open spec fn candidates() -> Seq<Seq<char>> {
    seq![
        "google-chrome-stable"@,
        "google-chrome"@,
        "chromium"@,
        "chromium-browser"@,
        "microsoft-edge-stable"@,
        "microsoft-edge"@,
        "vivaldi-stable"@,
        "vivaldi"@,
        "brave-browser"@,
        "brave"@,
        "google-chrome-unstable"@,
        "google-chrome-beta"@,
    ]
}

/// The number of browser programs looked for.
pub const CANDIDATE_COUNT: usize = 12;

/// The `i`-th browser program looked for.
pub fn candidate(i: usize) -> (r: &'static str)
    requires
        i < CANDIDATE_COUNT,
    ensures
        r@ == candidates()[i as int],
{
    match i {
        0 => "google-chrome-stable",
        1 => "google-chrome",
        2 => "chromium",
        3 => "chromium-browser",
        4 => "microsoft-edge-stable",
        5 => "microsoft-edge",
        6 => "vivaldi-stable",
        7 => "vivaldi",
        8 => "brave-browser",
        9 => "brave",
        10 => "google-chrome-unstable",
        _ => "google-chrome-beta",
    }
}

/// The names in `names` whose flag in `found` is set, in order; a missing
/// flag counts as unset.
pub open spec fn present(names: Seq<Seq<char>>, found: Seq<bool>) -> Seq<Seq<char>>
    decreases names.len(),
{
    if names.len() == 0 {
        Seq::empty()
    } else {
        let rest = present(names.drop_last(), found);
        let i = names.len() - 1;
        if i < found.len() && found[i] {
            rest.push(names.last())
        } else {
            rest
        }
    }
}

/// The text of an optional string.
pub open spec fn text_of(o: Option<String>) -> Option<Seq<char>> {
    match o {
        Some(s) => Some(s@),
        None => None,
    }
}

/// The texts of a list of strings.
pub open spec fn texts(v: Seq<String>) -> Seq<Seq<char>> {
    v.map_values(|s: String| s@)
}

/// The browsers installed, in the order they are looked for; `found[i]`
/// says whether the `i`-th candidate was found on `PATH`.
pub fn available_browsers(found: &Vec<bool>) -> (r: Vec<String>)
    ensures
        texts(r@) == present(candidates(), found@),
{
    let mut r: Vec<String> = Vec::new();
    for i in 0..CANDIDATE_COUNT
        invariant
            texts(r@) == present(candidates().take(i as int), found@),
    {
        let ghost before = r@;
        if i < found.len() && found[i] {
            r.push(String::from_str(candidate(i)));
            assert(texts(r@) =~= texts(before).push(candidates()[i as int]));
        }
        assert(candidates().take(i + 1).drop_last() =~= candidates().take(i as int));
    }
    assert(candidates().take(12) =~= candidates());
    r
}

/// The browsers chosen when none is named, best first: Chrome and Chromium,
/// then Vivaldi, then Brave, then Edge; Chrome Unstable never.
pub open spec fn preference() -> Seq<Seq<char>> {
    seq![
        "google-chrome-stable"@,
        "google-chrome"@,
        "chromium"@,
        "chromium-browser"@,
        "vivaldi-stable"@,
        "vivaldi"@,
        "brave-browser"@,
        "brave"@,
        "microsoft-edge-stable"@,
        "microsoft-edge"@,
        "google-chrome-beta"@,
    ]
}

/// The number of browsers in the order of preference.
pub const PREFERENCE_COUNT: usize = 11;

fn preferred(i: usize) -> (r: &'static str)
    requires
        i < PREFERENCE_COUNT,
    ensures
        r@ == preference()[i as int],
{
    match i {
        0 => "google-chrome-stable",
        1 => "google-chrome",
        2 => "chromium",
        3 => "chromium-browser",
        4 => "vivaldi-stable",
        5 => "vivaldi",
        6 => "brave-browser",
        7 => "brave",
        8 => "microsoft-edge-stable",
        9 => "microsoft-edge",
        _ => "google-chrome-beta",
    }
}

/// The first browser of `order` that is among `available`.
pub open spec fn first_available(order: Seq<Seq<char>>, available: Seq<Seq<char>>) -> Option<
    Seq<char>,
>
    decreases order.len(),
{
    if order.len() == 0 {
        None
    } else if available.contains(order[0]) {
        Some(order[0])
    } else {
        first_available(order.drop_first(), available)
    }
}

/// The browser that opens the page: the one named by the user (flag or
/// environment) when a non-empty name was given, else the most preferred
/// installed one.
pub open spec fn browser_choice(named: Option<Seq<char>>, available: Seq<Seq<char>>) -> Option<
    Seq<char>,
> {
    match named {
        Some(n) => if n.len() > 0 {
            Some(n)
        } else {
            first_available(preference(), available)
        },
        None => first_available(preference(), available),
    }
}

fn find_text(v: &Vec<String>, t: &str) -> (r: bool)
    ensures
        r == texts(v@).contains(t@),
{
    let n = v.len();
    for i in 0..n
        invariant
            n == v@.len(),
            forall|k: int| 0 <= k < i ==> v@[k]@ != t@,
    {
        if crate::text::same_str(v[i].as_str(), t) {
            assert(texts(v@)[i as int] == t@);
            return true;
        }
    }
    assert forall|k: int| 0 <= k < texts(v@).len() implies texts(v@)[k] != t@ by {
        assert(texts(v@)[k] == v@[k]@);
    }
    false
}

/// The browser to open the page with, see `browser_choice`.
pub fn chosen_browser(named: Option<String>, available: &Vec<String>) -> (r: Option<String>)
    ensures
        r matches Some(s) ==> browser_choice(text_of(named), texts(available@)) == Some(
            s@,
        ),
        r is None ==> browser_choice(text_of(named), texts(available@)) is None,
{
    if let Some(n) = named {
        if n.as_str().unicode_len() > 0 {
            return Some(n);
        }
    }
    let mut i: usize = 0;
    assert(preference().skip(0) =~= preference());
    while i < PREFERENCE_COUNT
        invariant
            i <= PREFERENCE_COUNT,
            browser_choice(text_of(named), texts(available@)) == first_available(
                preference().skip(i as int),
                texts(available@),
            ),
        decreases PREFERENCE_COUNT - i,
    {
        let p = preferred(i);
        assert(preference().skip(i as int)[0] == preference()[i as int]);
        assert(preference().skip(i as int).drop_first() =~= preference().skip(i + 1));
        if find_text(available, p) {
            return Some(String::from_str(p));
        }
        i = i + 1;
    }
    None
}

/// How the relay page is opened.
#[derive(Debug)]
pub enum Launch {
    /// With the desktop's default handler for the address.
    SystemDefault { url: String },
    /// With a browser program in a new window.
    Browser { program: String, args: Vec<String> },
}

/// Opens `url` in a new window of the chosen browser, or with the desktop's
/// default handler when there is no browser to choose.
pub fn open_in_chromium(chosen: Option<String>, url: &str) -> (r: Launch)
    ensures
        match chosen {
            None => r matches Launch::SystemDefault { url: u } && u@ == url@,
            Some(b) => r matches Launch::Browser { program, args } && program == b && texts(args@)
                == seq!["--new-window"@, url@],
        },
{
    match chosen {
        None => Launch::SystemDefault { url: String::from_str(url) },
        Some(b) => {
            let mut args: Vec<String> = Vec::new();
            args.push(String::from_str("--new-window"));
            args.push(String::from_str(url));
            assert(texts(args@) =~= seq!["--new-window"@, url@]);
            Launch::Browser { program: b, args }
        },
    }
}

impl Launch {
    /// What opened the page: the browser program, or `system-default`.
    pub fn label(&self) -> (r: String)
        ensures
            r@ == match self {
                Launch::SystemDefault { .. } => "system-default"@,
                Launch::Browser { program, .. } => program@,
            },
    {
        match self {
            Launch::SystemDefault { .. } => String::from_str("system-default"),
            Launch::Browser { program, .. } => program.clone(),
        }
    }
}

/// The pieces of `s` between `:` separators, as `str::split(':')` yields them.
pub open spec fn split_colon(s: Seq<char>) -> Seq<Seq<char>>
    decreases s.len(),
{
    if s.len() == 0 {
        seq![Seq::empty()]
    } else {
        let rest = split_colon(s.drop_last());
        if s.last() == ':' {
            rest.push(Seq::empty())
        } else {
            rest.update(rest.len() - 1, rest.last().push(s.last()))
        }
    }
}

/// `PathBuf::from(dir).join(bin)` on Unix: an absolute `bin` replaces `dir`,
/// and a `/` is put between them unless `dir` is empty or ends in one.
pub open spec fn join_path(dir: Seq<char>, bin: Seq<char>) -> Seq<char> {
    if bin.len() > 0 && bin[0] == '/' {
        bin
    } else if dir.len() == 0 {
        bin
    } else if dir.last() == '/' {
        dir + bin
    } else {
        dir + seq!['/'] + bin
    }
}

/// Where `which` looks for `bin`: in every directory of the `PATH` value, in order.
pub open spec fn path_candidates(path: Seq<char>, bin: Seq<char>) -> Seq<Seq<char>> {
    split_colon(path).map_values(|d: Seq<char>| join_path(d, bin))
}

fn join_path_exec(dir: &Vec<char>, bin: &Vec<char>) -> (r: Vec<char>)
    ensures
        r@ == join_path(dir@, bin@),
{
    let mut r: Vec<char> = Vec::new();
    if bin.len() > 0 && bin[0] == '/' {
        r = bin.clone();
    } else if dir.len() == 0 {
        r = bin.clone();
    } else {
        r = dir.clone();
        if dir[dir.len() - 1] != '/' {
            r.push('/');
        }
        let ghost prefix = r@;
        let n = bin.len();
        for i in 0..n
            invariant
                n == bin@.len(),
                r@ == prefix + bin@.take(i as int),
        {
            r.push(bin[i]);
            assert(bin@.take(i + 1) =~= bin@.take(i as int).push(bin@[i as int]));
        }
        assert(bin@.take(n as int) =~= bin@);
        assert(r@ =~= join_path(dir@, bin@));
    }
    r
}

/// The paths `which` checks for `bin`, given the value of `PATH`.
pub fn which_candidates(path: &str, bin: &str) -> (r: Vec<String>)
    ensures
        texts(r@) == path_candidates(path@, bin@),
{
    let cs = chars_of(path);
    let b = chars_of(bin);
    let mut dirs: Vec<Vec<char>> = Vec::new();
    let mut cur: Vec<char> = Vec::new();
    let n = cs.len();
    assert(cs@.take(0) =~= Seq::<char>::empty());
    for i in 0..n
        invariant
            n == cs@.len(),
            split_colon(cs@.take(i as int)) == dirs@.map_values(|d: Vec<char>| d@).push(cur@),
    {
        assert(cs@.take(i + 1).drop_last() =~= cs@.take(i as int));
        let c = cs[i];
        if c == ':' {
            let ghost before = dirs@.map_values(|d: Vec<char>| d@).push(cur@);
            let done = cur;
            dirs.push(done);
            cur = Vec::new();
            assert(dirs@.map_values(|d: Vec<char>| d@).push(cur@) =~= before.push(
                Seq::<char>::empty(),
            ));
        } else {
            let ghost before = dirs@.map_values(|d: Vec<char>| d@).push(cur@);
            cur.push(c);
            assert(dirs@.map_values(|d: Vec<char>| d@).push(cur@) =~= before.update(
                before.len() - 1,
                before.last().push(c),
            ));
        }
    }
    assert(cs@.take(n as int) =~= cs@);
    dirs.push(cur);
    let ghost pieces = dirs@.map_values(|d: Vec<char>| d@);
    assert(pieces == split_colon(path@));
    let mut r: Vec<String> = Vec::new();
    let m = dirs.len();
    for k in 0..m
        invariant
            m == dirs@.len(),
            pieces == dirs@.map_values(|d: Vec<char>| d@),
            texts(r@) == pieces.take(k as int).map_values(|d: Seq<char>| join_path(d, b@)),
    {
        let joined = join_path_exec(&dirs[k], &b);
        r.push(string_of(&joined));
        assert(pieces.take(k + 1).map_values(|d: Seq<char>| join_path(d, b@)) =~= pieces.take(
            k as int,
        ).map_values(|d: Seq<char>| join_path(d, b@)).push(join_path(pieces[k as int], b@)));
        assert(texts(r@) =~= texts(r@.drop_last()).push(r@.last()@));
    }
    assert(pieces.take(m as int) =~= pieces);
    r
}

/// The first of `paths` that is a file (`is_file[k]` tells), as `which`
/// reports it; a missing flag counts as no.
pub fn which(paths: &Vec<String>, is_file: &Vec<bool>) -> (r: Option<String>)
    ensures
        match r {
            Some(p) => exists|k: int|
                0 <= k < paths@.len() && k < is_file@.len() && is_file@[k] && paths@[k] == p
                    && forall|j: int| 0 <= j < k && j < is_file@.len() ==> !is_file@[j],
            None => forall|j: int| 0 <= j < paths@.len() && j < is_file@.len() ==> !is_file@[j],
        },
{
    let n = paths.len();
    for i in 0..n
        invariant
            n == paths@.len(),
            forall|j: int| 0 <= j < i && j < is_file@.len() ==> !is_file@[j],
    {
        if i < is_file.len() && is_file[i] {
            return Some(paths[i].clone());
        }
    }
    None
}

proof fn lemma_first_available_from(order: Seq<Seq<char>>, available: Seq<Seq<char>>)
    ensures
        first_available(order, available) matches Some(b) ==> order.contains(b)
            && available.contains(b),
    decreases order.len(),
{
    if order.len() > 0 && !available.contains(order[0]) {
        lemma_first_available_from(order.drop_first(), available);
        if let Some(b) = first_available(order.drop_first(), available) {
            let k = choose|k: int| 0 <= k < order.drop_first().len() && order.drop_first()[k] == b;
            assert(order[k + 1] == b);
        }
    }
}

/// Unless the user names a browser, the one chosen is installed, and it is
/// never Chrome Unstable.
pub proof fn lemma_unstable_never_chosen(available: Seq<Seq<char>>)
    ensures
        browser_choice(None, available) matches Some(b) ==> available.contains(b) && b
            != "google-chrome-unstable"@,
{
    lemma_first_available_from(preference(), available);
    reveal_strlit("google-chrome-unstable");
    reveal_strlit("google-chrome-stable");
    reveal_strlit("google-chrome");
    reveal_strlit("chromium");
    reveal_strlit("chromium-browser");
    reveal_strlit("vivaldi-stable");
    reveal_strlit("vivaldi");
    reveal_strlit("brave-browser");
    reveal_strlit("brave");
    reveal_strlit("microsoft-edge-stable");
    reveal_strlit("microsoft-edge");
    reveal_strlit("google-chrome-beta");
    if let Some(b) = browser_choice(None, available) {
        let k = choose|k: int| 0 <= k < preference().len() && preference()[k] == b;
        assert("google-chrome-unstable"@.len() == 22);
        assert(preference()[k].len() < 22) by {
            assert(preference()[0].len() == 20);
            assert(preference()[1].len() == 13);
            assert(preference()[2].len() == 8);
            assert(preference()[3].len() == 16);
            assert(preference()[4].len() == 14);
            assert(preference()[5].len() == 7);
            assert(preference()[6].len() == 13);
            assert(preference()[7].len() == 5);
            assert(preference()[8].len() == 21);
            assert(preference()[9].len() == 14);
            assert(preference()[10].len() == 18);
        }
    }
}

proof fn lemma_first_available_at(order: Seq<Seq<char>>, available: Seq<Seq<char>>, k: int)
    requires
        0 <= k < order.len(),
        available.contains(order[k]),
        forall|j: int| 0 <= j < k ==> !available.contains(#[trigger] order[j]),
    ensures
        first_available(order, available) == Some(order[k]),
    decreases k,
{
    if k > 0 {
        assert(!available.contains(order[0]));
        assert forall|j: int| 0 <= j < k - 1 implies !available.contains(
            #[trigger] order.drop_first()[j],
        ) by {
            assert(order.drop_first()[j] == order[j + 1]);
        }
        lemma_first_available_at(order.drop_first(), available, k - 1);
    }
}

/// The Chrome and Chromium programs.
pub open spec fn is_chrome(b: Seq<char>) -> bool {
    b == "google-chrome-stable"@ || b == "google-chrome"@ || b == "chromium"@ || b
        == "chromium-browser"@
}

/// The Vivaldi programs.
pub open spec fn is_vivaldi(b: Seq<char>) -> bool {
    b == "vivaldi-stable"@ || b == "vivaldi"@
}

/// The Brave programs.
pub open spec fn is_brave(b: Seq<char>) -> bool {
    b == "brave-browser"@ || b == "brave"@
}

/// The Edge programs.
pub open spec fn is_edge(b: Seq<char>) -> bool {
    b == "microsoft-edge-stable"@ || b == "microsoft-edge"@
}

/// With no browser named, Chrome or Chromium is chosen when one is
/// installed; else Vivaldi; else Brave; else Edge.
pub proof fn lemma_browser_preference(available: Seq<Seq<char>>)
    ensures
        (exists|b: Seq<char>| available.contains(b) && is_chrome(b)) ==> (browser_choice(
            None,
            available,
        ) matches Some(c) && is_chrome(c)),
        !(exists|b: Seq<char>| available.contains(b) && is_chrome(b)) && (exists|b: Seq<char>|
            available.contains(b) && is_vivaldi(b)) ==> (browser_choice(None, available) matches Some(
            c,
        ) && is_vivaldi(c)),
        !(exists|b: Seq<char>| available.contains(b) && (is_chrome(b) || is_vivaldi(b))) && (exists|
            b: Seq<char>,
        | available.contains(b) && is_brave(b)) ==> (browser_choice(None, available) matches Some(
            c,
        ) && is_brave(c)),
        !(exists|b: Seq<char>|
            available.contains(b) && (is_chrome(b) || is_vivaldi(b) || is_brave(b))) && (exists|
            b: Seq<char>,
        | available.contains(b) && is_edge(b)) ==> (browser_choice(None, available) matches Some(
            c,
        ) && is_edge(c)),
{
    let o = preference();
    let av = available;
    assert(is_chrome(o[0]) && is_chrome(o[1]) && is_chrome(o[2]) && is_chrome(o[3]));
    assert(is_vivaldi(o[4]) && is_vivaldi(o[5]));
    assert(is_brave(o[6]) && is_brave(o[7]));
    assert(is_edge(o[8]) && is_edge(o[9]));
    if exists|b: Seq<char>| av.contains(b) && is_chrome(b) {
        if av.contains(o[0]) {
            lemma_first_available_at(o, av, 0);
        } else if av.contains(o[1]) {
            lemma_first_available_at(o, av, 1);
        } else if av.contains(o[2]) {
            lemma_first_available_at(o, av, 2);
        } else {
            let b = choose|b: Seq<char>| av.contains(b) && is_chrome(b);
            assert(av.contains(o[3]));
            lemma_first_available_at(o, av, 3);
        }
    } else {
        assert(!av.contains(o[0]) && !av.contains(o[1]) && !av.contains(o[2]) && !av.contains(
            o[3],
        )) by {
            if av.contains(o[0]) || av.contains(o[1]) || av.contains(o[2]) || av.contains(o[3]) {
                if av.contains(o[0]) {
                    assert(av.contains(o[0]) && is_chrome(o[0]));
                } else if av.contains(o[1]) {
                    assert(av.contains(o[1]) && is_chrome(o[1]));
                } else if av.contains(o[2]) {
                    assert(av.contains(o[2]) && is_chrome(o[2]));
                } else {
                    assert(av.contains(o[3]) && is_chrome(o[3]));
                }
            }
        }
        if exists|b: Seq<char>| av.contains(b) && is_vivaldi(b) {
            if av.contains(o[4]) {
                lemma_first_available_at(o, av, 4);
            } else {
                assert(av.contains(o[5]));
                lemma_first_available_at(o, av, 5);
            }
        } else {
            assert(!av.contains(o[4]) && !av.contains(o[5])) by {
                if av.contains(o[4]) {
                    assert(av.contains(o[4]) && is_vivaldi(o[4]));
                } else if av.contains(o[5]) {
                    assert(av.contains(o[5]) && is_vivaldi(o[5]));
                }
            }
            if exists|b: Seq<char>| av.contains(b) && is_brave(b) {
                if av.contains(o[6]) {
                    lemma_first_available_at(o, av, 6);
                } else {
                    assert(av.contains(o[7]));
                    lemma_first_available_at(o, av, 7);
                }
            } else {
                assert(!av.contains(o[6]) && !av.contains(o[7])) by {
                    if av.contains(o[6]) {
                        assert(av.contains(o[6]) && is_brave(o[6]));
                    } else if av.contains(o[7]) {
                        assert(av.contains(o[7]) && is_brave(o[7]));
                    }
                }
                if exists|b: Seq<char>| av.contains(b) && is_edge(b) {
                    if av.contains(o[8]) {
                        lemma_first_available_at(o, av, 8);
                    } else {
                        assert(av.contains(o[9]));
                        lemma_first_available_at(o, av, 9);
                    }
                }
            }
        }
    }
}

} // verus!
