//! Advice shown on the relay page for the running desktop.
use vstd::prelude::*;
use crate::text::{
    contains, contains_str, eq_ignore_case, lemma_contains_within, lemma_lower_joined, lower,
    lower_str,
};

verus! {

/// Dual monitors: relay on the screen that is not shared.
pub const TIP_DUAL_SCREEN: &'static str = "双屏：中转页放在不共享的那块屏并全屏，捕获另一块屏或窗口，避免把本页采进去。";

/// How to present the relay tab with its audio in Meet.
pub const TIP_PRESENT_TAB: &'static str = "Meet → 立即展示 → 一个标签页 → 勾选共享标签页音频。不要选整屏/窗口来带系统音频。";

/// Meet's motion setting, and what frame rate to expect.
pub const TIP_MOTION: &'static str = "Meet 里打开「优化动态视频」。对端会再编码，通常到不了你设的 120fps。";

/// The picker comes from the desktop's portal.
pub const TIP_PORTAL: &'static str = "画面选择器由当前桌面的 xdg-desktop-portal 提供，本程序不绑定 niri 或 KWin。";

/// niri: dynamic cast target.
pub const TIP_NIRI_CAST: &'static str = "niri 可选：捕获时选 Dynamic Cast Target，再用 niri 快捷键切换窗口/显示器。本程序不会改 config.kdl。";

/// niri: hiding windows from screencasts.
pub const TIP_NIRI_BLOCK: &'static str = "niri 可选：window-rule 使用 block-out-from \"screencast\" 可挡住 Meet/密码窗口。";

/// KDE Plasma.
pub const TIP_KDE: &'static str = "KDE：用系统自带的屏幕/窗口对话框即可，需要 xdg-desktop-portal-kde。本程序不会改 kwinrc。";

/// GNOME.
pub const TIP_GNOME: &'static str = "GNOME：在系统屏幕共享对话框里选择显示器或窗口。";

/// Wayland sessions.
pub const TIP_WAYLAND: &'static str = "Wayland：若浏览器只能看到标签页、看不到整屏，确认 Chrome 走 Wayland（Ozone）且 portal 后端在跑。";

/// The advice for the desktop named `desktop` (`XDG_CURRENT_DESKTOP`) in a
/// session of type `session` (`XDG_SESSION_TYPE`): four general tips, then
/// those for niri, for KDE or Plasma, for GNOME (unless niri), and for Wayland.
pub open spec fn tips_for(desktop: Seq<char>, session: Seq<char>) -> Seq<Seq<char>> {
    let d = lower(desktop);
    seq![TIP_DUAL_SCREEN@, TIP_PRESENT_TAB@, TIP_MOTION@, TIP_PORTAL@] + (if contains(d, "niri"@) {
        seq![TIP_NIRI_CAST@, TIP_NIRI_BLOCK@]
    } else {
        Seq::empty()
    }) + (if contains(d, "kde"@) || contains(d, "plasma"@) {
        seq![TIP_KDE@]
    } else {
        Seq::empty()
    }) + (if contains(d, "gnome"@) && !contains(d, "niri"@) {
        seq![TIP_GNOME@]
    } else {
        Seq::empty()
    }) + (if eq_ignore_case(session, "wayland"@) {
        seq![TIP_WAYLAND@]
    } else {
        Seq::empty()
    })
}

/// The texts of a list of strings.
pub open spec fn texts(v: Seq<String>) -> Seq<Seq<char>> {
    v.map_values(|s: String| s@)
}

fn push_tip(tips: &mut Vec<String>, tip: &str)
    ensures
        texts(final(tips)@) == texts(old(tips)@).push(tip@),
{
    tips.push(String::from_str(tip));
    assert(texts(tips@) =~= texts(old(tips)@).push(tip@));
}

/// The advice for a desktop and session type, see `tips_for`.
pub fn tips(desktop: &str, session: &str) -> (r: Vec<String>)
    ensures
        texts(r@) == tips_for(desktop@, session@),
{
    let mut tips: Vec<String> = Vec::new();
    push_tip(&mut tips, TIP_DUAL_SCREEN);
    push_tip(&mut tips, TIP_PRESENT_TAB);
    push_tip(&mut tips, TIP_MOTION);
    push_tip(&mut tips, TIP_PORTAL);
    let ghost base = texts(tips@);
    assert(base =~= seq![TIP_DUAL_SCREEN@, TIP_PRESENT_TAB@, TIP_MOTION@, TIP_PORTAL@]);
    let d = lower_str(desktop);
    let niri = contains_str(&d, "niri");
    if niri {
        push_tip(&mut tips, TIP_NIRI_CAST);
        push_tip(&mut tips, TIP_NIRI_BLOCK);
    }
    let ghost after_niri = texts(tips@);
    assert(after_niri =~= base + (if niri {
        seq![TIP_NIRI_CAST@, TIP_NIRI_BLOCK@]
    } else {
        Seq::<Seq<char>>::empty()
    }));
    let kde = contains_str(&d, "kde") || contains_str(&d, "plasma");
    if kde {
        push_tip(&mut tips, TIP_KDE);
    }
    let ghost after_kde = texts(tips@);
    assert(after_kde =~= after_niri + (if kde {
        seq![TIP_KDE@]
    } else {
        Seq::<Seq<char>>::empty()
    }));
    let gnome = contains_str(&d, "gnome") && !niri;
    if gnome {
        push_tip(&mut tips, TIP_GNOME);
    }
    let ghost after_gnome = texts(tips@);
    assert(after_gnome =~= after_kde + (if gnome {
        seq![TIP_GNOME@]
    } else {
        Seq::<Seq<char>>::empty()
    }));
    let wayland = crate::text::same_chars(&lower_str(session), &lower_str("wayland"));
    if wayland {
        push_tip(&mut tips, TIP_WAYLAND);
    }
    assert(texts(tips@) =~= after_gnome + (if wayland {
        seq![TIP_WAYLAND@]
    } else {
        Seq::<Seq<char>>::empty()
    }));
    tips
}

/// The four general tips always come first; a desktop whose name mentions
/// niri gets both niri tips and not the GNOME one, one that mentions KDE gets
/// the KDE tip, and a Wayland session (in any case) gets the Wayland tip.
pub proof fn lemma_tips_follow_desktop(x: Seq<char>, y: Seq<char>, desktop: Seq<char>, session: Seq<char>)
    ensures
        tips_for(desktop, session).take(4) == seq![
            TIP_DUAL_SCREEN@,
            TIP_PRESENT_TAB@,
            TIP_MOTION@,
            TIP_PORTAL@,
        ],
        tips_for(x + "niri"@ + y, session).contains(TIP_NIRI_CAST@),
        tips_for(x + "niri"@ + y, session).contains(TIP_NIRI_BLOCK@),
        tips_for(x + "KDE"@ + y, session).contains(TIP_KDE@),
        tips_for(desktop, "Wayland"@).contains(TIP_WAYLAND@),
{
    reveal_strlit("niri");
    reveal_strlit("KDE");
    reveal_strlit("kde");
    reveal_strlit("Wayland");
    reveal_strlit("wayland");
    let base = seq![TIP_DUAL_SCREEN@, TIP_PRESENT_TAB@, TIP_MOTION@, TIP_PORTAL@];
    assert(tips_for(desktop, session).take(4) =~= base);
    assert(lower("niri"@) =~= "niri"@);
    assert(lower("KDE"@) =~= "kde"@);
    assert(lower("Wayland"@) =~= lower("wayland"@));
    assert("niri"@.subrange(0int, 0int + "niri"@.len()) =~= "niri"@);
    assert("kde"@.subrange(0int, 0int + "kde"@.len()) =~= "kde"@);
    lemma_lower_joined(x, "niri"@, y);
    lemma_lower_joined(x, "KDE"@, y);
    lemma_contains_within(lower(x), "niri"@, lower(y), "niri"@);
    lemma_contains_within(lower(x), "kde"@, lower(y), "kde"@);
    let n = tips_for(x + "niri"@ + y, session);
    assert(n[4] == TIP_NIRI_CAST@);
    assert(n[5] == TIP_NIRI_BLOCK@);
    let k = tips_for(x + "KDE"@ + y, session);
    let kd = lower(x + "KDE"@ + y);
    let at = if contains(kd, "niri"@) { 6int } else { 4int };
    assert(k[at] == TIP_KDE@);
    let w = tips_for(desktop, "Wayland"@);
    assert(w[w.len() - 1] == TIP_WAYLAND@);
}

} // verus!
