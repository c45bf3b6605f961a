//! What the preferences, the pictures and the labels come to.
use crate::text::blank;
use crate::text::decimal;
use crate::text::lemma_index_of;
use crate::text::trim;
use crate::ui::avatar::avatar_of;
use crate::ui::avatar::cut_of;
use crate::ui::avatar::frame_of;
use crate::ui::avatar::kept;
use crate::ui::avatar::sent_name;
use crate::ui::avatar::ChosenPicture;
use crate::ui::keeping::spells_color;
use crate::ui::labels::joined;
use crate::ui::labels::known_size;
use crate::ui::labels::rate_text;
use crate::ui::labels::size_text;
use crate::ui::labels::step;
use crate::ui::labels::uptime_text;
use crate::ui::preferences::changed;
use crate::ui::preferences::local_name_of;
use crate::ui::preferences::refresh_of;
use crate::ui::preferences::repository_of;
use crate::ui::preferences::update_text;
use crate::ui::preferences::Change;
use crate::ui::preferences::PageRefresh;
use crate::ui::settings::BaseMode;
use crate::ui::settings::Density;
use crate::ui::settings::SettingsModel;
use crate::ui::update_card::source_chosen;
use crate::ui::updates::UpdateStatus;
use crate::ui::preferences::source_text;
use crate::ui::settings::Palette;
use vstd::prelude::*;

verus! {

/// A preference that is changed has the new value, and nothing else changes.
pub proof fn law_preferences_change_alone(
    m: SettingsModel,
    on: bool,
    text: String,
    percent: i32,
)
    ensures
        changed(m, Change::ReducedMotion(on)) matches Ok(a) && a.reduced_motion == on && a
            == (SettingsModel { reduced_motion: a.reduced_motion, ..m }),
        changed(m, Change::SidebarOpen(on)) matches Ok(a) && a.sidebar_open == on && a
            == (SettingsModel { sidebar_open: a.sidebar_open, ..m }),
        changed(m, Change::Locale(text)) matches Ok(a) && a.locale == text@ && a
            == (SettingsModel { locale: a.locale, ..m }),
        changed(m, Change::AutomaticUpdateCheck(on)) matches Ok(a) && a.updates.automatic_check
            == on && a.updates.repository == m.updates.repository && a.updates.artifact_template
            == m.updates.artifact_template && a == (SettingsModel { updates: a.updates, ..m }),
        changed(m, Change::Zoom(percent)) matches Ok(a) && a == (SettingsModel {
            zoom_percent: a.zoom_percent,
            ..m
        }) && (75 <= percent <= 200 ==> a.zoom_percent == percent) && (percent < 75
            ==> a.zoom_percent == 75) && (percent > 200 ==> a.zoom_percent == 200),
        changed(m, Change::Palette(text)) matches Ok(a) && a == (SettingsModel {
            palette: a.palette,
            ..m
        }),
{
}

/// Colors are taken without the blanks around them, if they are colors; the color of the
/// title bar may be none.
pub proof fn law_colors_are_checked(m: SettingsModel, text: String)
    ensures
        spells_color(trim(text@)) ==> (changed(m, Change::Accent(text)) matches Ok(a) && a.accent
            == trim(text@) && a == (SettingsModel { accent: a.accent, ..m })),
        !spells_color(trim(text@)) ==> changed(m, Change::Accent(text)) is Err,
        spells_color(trim(text@)) || trim(text@).len() == 0 ==> (changed(
            m,
            Change::TitlebarColor(text),
        ) matches Ok(a) && a.titlebar_color == trim(text@) && a == (SettingsModel {
            titlebar_color: a.titlebar_color,
            ..m
        })),
        !spells_color(trim(text@)) && trim(text@).len() > 0 ==> changed(
            m,
            Change::TitlebarColor(text),
        ) is Err,
{
}

/// A mode and a density are chosen by their names, and by no other.
pub proof fn law_modes_and_densities_have_names(m: SettingsModel, text: String)
    ensures
        changed(m, Change::BaseMode(text)) matches Ok(a) ==> {
            &&& a == (SettingsModel { mode: a.mode, ..m })
            &&& a.mode == BaseMode::White <==> text@ == "white"@
            &&& a.mode == BaseMode::Black <==> text@ == "black"@
        },
        text@ == "white"@ || text@ == "black"@ <==> changed(m, Change::BaseMode(text)) is Ok,
        changed(m, Change::Density(text)) matches Ok(a) ==> {
            &&& a == (SettingsModel { density: a.density, ..m })
            &&& a.density == Density::Compact <==> text@ == "compact"@
            &&& a.density == Density::Comfortable <==> text@ == "comfortable"@
        },
        text@ == "compact"@ || text@ == "comfortable"@ <==> changed(m, Change::Density(text)) is Ok,
{
    reveal_strlit("white");
    reveal_strlit("black");
    reveal_strlit("compact");
    reveal_strlit("comfortable");
    assert("white"@[0] == 'w' && "black"@[0] == 'b');
    assert("compact"@.len() == 7 && "comfortable"@.len() == 11);
}

/// A source of updates is an owner and a repository with one slash between them, whatever
/// blanks are around; nothing but blanks is no source.
pub proof fn law_sources_have_one_slash(value: Seq<char>, owner: Seq<char>, name: Seq<char>)
    ensures
        trim(value) == owner + seq!['/'] + name && owner.len() > 0 && name.len() > 0
            && !owner.contains('/') && !name.contains('/') ==> repository_of(value) == Ok::<
            Option<(Seq<char>, Seq<char>)>,
            Seq<char>,
        >(Some((owner, name))),
        trim(value).len() == 0 ==> repository_of(value) == Ok::<
            Option<(Seq<char>, Seq<char>)>,
            Seq<char>,
        >(None),
        trim(value).len() > 0 && !trim(value).contains('/') ==> repository_of(value) is Err,
        repository_of(value) matches Ok(Some((o, r))) ==> trim(value) == o + seq!['/'] + r
            && o.len() > 0 && r.len() > 0 && !o.contains('/') && !r.contains('/'),
{
    let s = trim(value);
    if s == owner + seq!['/'] + name && owner.len() > 0 && name.len() > 0 && !owner.contains('/')
        && !name.contains('/') {
        let n = owner.len() as int;
        assert forall|j: int| 0 <= j < n implies s[j] != '/' by {
            assert(owner.contains(owner[j]));
        }
        assert(s[n] == '/');
        lemma_index_of(s, '/', n);
        assert(s.take(n) =~= owner);
        assert(s.skip(n + 1) =~= name);
    }
    match crate::text::index_of(s, '/') {
        Some(i) => {
            crate::text::lemma_index_found(s, '/', i);
            assert(s.contains(s[i]));
            let o = s.take(i);
            let r = s.skip(i + 1);
            assert(s =~= o + seq!['/'] + r);
            assert(!o.contains('/')) by {
                if o.contains('/') {
                    let k = choose|k: int| 0 <= k < o.len() && o[k] == '/';
                    assert(s[k] == '/');
                }
            }
        },
        None => {},
    }
}

/// A source that is chosen is kept without the blanks around it, and one of blanks alone
/// takes the source away; what is no source changes nothing.
pub proof fn law_chosen_sources_are_kept(
    r: Result<crate::ui::settings::PresentationSettings, String>,
    m: SettingsModel,
    repository: Seq<char>,
    unread: Option<Seq<char>>,
    os: Seq<char>,
    arch: Seq<char>,
)
    requires
        source_chosen(r, m, repository, unread, os, arch),
    ensures
        r matches Ok(next) ==> next@.updates.repository == trim(repository) && next@
            == (SettingsModel { updates: next@.updates, ..m }) && next@.updates.artifact_template
            == m.updates.artifact_template && next@.updates.automatic_check
            == m.updates.automatic_check,
        trim(repository).len() == 0 ==> r is Ok,
        repository_of(repository) is Err ==> r is Err,
{
    if trim(repository).len() == 0 {
        assert(trim(repository) =~= Seq::<char>::empty());
    }
}

/// Each page that shows what may have changed is refreshed where it is opened.
pub proof fn law_pages_are_refreshed(page: Seq<char>)
    ensures
        page == "history"@ ==> refresh_of(page) == PageRefresh::History,
        page == "devices"@ ==> refresh_of(page) == PageRefresh::DiscoverPeers,
        page == "clipboard"@ ==> refresh_of(page) == PageRefresh::FlatpakApplications,
        page == "settings"@ || page == "overview"@ ==> refresh_of(page) == PageRefresh::Service,
{
    reveal_strlit("history");
    reveal_strlit("devices");
    reveal_strlit("clipboard");
    reveal_strlit("settings");
    reveal_strlit("overview");
    assert("history"@[0] == 'h' && "devices"@[0] == 'd' && "clipboard"@[0] == 'c');
    assert("settings"@[0] == 's' && "overview"@[0] == 'o');
}

/// This device is called by the name that the user gave it, else by the name of its host.
pub proof fn law_this_device_has_a_name(
    friendly: Seq<char>,
    host: Option<Seq<char>>,
    said: Result<String, String>,
)
    ensures
        !blank(friendly) ==> local_name_of(friendly, host) == friendly && sent_name(friendly, said)
            == Ok::<Seq<char>, Seq<char>>(friendly),
        blank(friendly) && host is Some ==> Some(local_name_of(friendly, host)) == host,
        blank(friendly) && host is None ==> local_name_of(friendly, host) == "Syntra"@,
        blank(friendly) && (said matches Ok(name)) ==> sent_name(friendly, said) == Ok::<
            Seq<char>,
            Seq<char>,
        >(said->Ok_0@),
        blank(friendly) && said is Err ==> sent_name(friendly, said) is Err,
{
}

/// A picture is cut to the largest square in its middle, and shown with 64 to 256 pixels
/// on a side.
pub proof fn law_pictures_are_cut_to_squares(width: u32, height: u32)
    requires
        width > 0,
        height > 0,
    ensures
        frame_of(width, height) matches Some(f) && {
            &&& f.crop <= width && f.crop <= height && (f.crop == width || f.crop == height)
            &&& f.crop + f.beside == width && f.crop + f.around == height
            &&& 64 <= f.crop <= 256 ==> f.edge == f.crop
            &&& f.crop < 64 ==> f.edge == 64
            &&& f.crop > 256 ==> f.edge == 256
        },
{
}

/// A picture that was cut before is found again, and those of others are not taken for
/// it; the oldest is forgotten where there are too many.
pub proof fn law_cut_pictures_are_found_again(
    entries: Seq<(u64, u64)>,
    source: u64,
    width: u32,
    height: u32,
    rounded: u64,
    other: u64,
)
    requires
        width <= 256,
        height <= 256,
        entries.len() < 64,
        other != source,
    ensures
        cut_of(entries, source) is None ==> cut_of(
            kept(entries, source, width, height, rounded),
            source,
        ) == Some(rounded),
        cut_of(kept(entries, source, width, height, rounded), other) == cut_of(entries, other),
{
    lemma_cut_push(entries, source, rounded, source);
    lemma_cut_push(entries, source, rounded, other);
}

proof fn lemma_cut_push(entries: Seq<(u64, u64)>, source: u64, rounded: u64, wanted: u64)
    ensures
        cut_of(entries.push((source, rounded)), wanted) == (if cut_of(entries, wanted) is Some {
            cut_of(entries, wanted)
        } else if wanted == source {
            Some(rounded)
        } else {
            None
        }),
    decreases entries.len(),
{
    let all = entries.push((source, rounded));
    if entries.len() == 0 {
        assert(all[0] == (source, rounded));
        assert(all.drop_first() =~= Seq::<(u64, u64)>::empty());
        assert(cut_of(all.drop_first(), wanted) is None);
        assert(cut_of(entries, wanted) is None);
    } else {
        assert(all[0] == entries[0]);
        assert(all.drop_first() =~= entries.drop_first().push((source, rounded)));
        lemma_cut_push(entries.drop_first(), source, rounded, wanted);
    }
}

/// A picture of at most 128 pixels on a side is sent as it is, and a larger one shrunk to
/// that; without a chosen picture none is sent.
pub proof fn law_small_pictures_are_sent_as_they_are(
    a: Result<Option<crate::api::PeerAvatar>, Seq<char>>,
    picture: crate::ui::avatar::Picture,
)
    ensures
        avatar_of(a, false, ChosenPicture::Read(picture)) ==> (a matches Ok(None)),
        avatar_of(a, true, ChosenPicture::Read(picture)) && picture.width <= 128 && picture.height
            <= 128 && picture.rgba@.len() == 4 * picture.width * picture.height ==> (
        a matches Ok(Some(sent)) && sent.width == picture.width && sent.height == picture.height
            && sent.rgba@ == picture.rgba@),
        avatar_of(a, true, ChosenPicture::Read(picture)) && (picture.width > 128 || picture.height
            > 128) && (a matches Ok(Some(sent))) ==> a->Ok_0->Some_0.width == 128
            && a->Ok_0->Some_0.height == 128,
        avatar_of(a, true, ChosenPicture::Unreadable) ==> a is Err,
{
    assert(4 * picture.width * picture.height == 4 * (picture.width * picture.height))
        by (nonlinear_arith);
}

proof fn lemma_small_size(bytes: nat)
    requires
        bytes < 0x20_0000_0000_0000,
    ensures
        known_size(bytes) == bytes,
{
    assert(step(bytes, 1) == 1);
    assert(bytes % 1 == 0 && bytes / 1 == bytes);
}

/// A size is shown in bytes below 1024, else in the largest unit of which there is at
/// least one, with one digit behind the point.
pub proof fn law_sizes_have_units(bytes: u64, whole: nat)
    ensures
        bytes < 1024 ==> size_text(bytes) == decimal(bytes as nat) + " "@ + "B"@,
        1 <= whole < 1024 && bytes == whole * 1024 ==> size_text(bytes) == decimal(whole) + "."@
            + seq!['0'] + " "@ + "KiB"@,
        1 <= whole < 1024 && bytes == whole * 1024 * 1024 ==> size_text(bytes) == decimal(whole)
            + "."@ + seq!['0'] + " "@ + "MiB"@,
        1 <= whole < 1024 && bytes == whole * 1024 * 1024 * 1024 ==> size_text(bytes) == decimal(
            whole,
        ) + "."@ + seq!['0'] + " "@ + "GiB"@,
        rate_text(0).len() == 0,
        bytes > 0 ==> rate_text(bytes) == size_text(bytes) + "/s"@,
{
    if bytes < 0x20_0000_0000_0000 {
        lemma_small_size(bytes as nat);
    }
    if 1 <= whole < 1024 {
        assert(10 * (whole * 1024) == (10 * whole) * 1024);
        assert((10 * whole) / 10 == whole && (10 * whole) % 10 == 0);
        lemma_whole(10 * whole, 1024);
        lemma_whole(10 * whole, 1024 * 1024);
        lemma_whole(10 * whole, 1024 * 1024 * 1024);
        assert(crate::text::digit(0) == '0');
    }
}

proof fn lemma_whole(n: nat, d: nat)
    requires
        d > 0,
    ensures
        crate::ui::labels::nearest(n * d, d) == n,
{
    vstd::arithmetic::div_mod::lemma_div_multiples_vanish(n as int, d as int);
    vstd::arithmetic::div_mod::lemma_mod_multiples_basic(n as int, d as int);
    assert(d as int * n as int == n * d) by (nonlinear_arith);
}

/// The time that the service runs is shown in minutes, then in hours and minutes, then in
/// days and hours; seconds do not count.
pub proof fn law_uptimes_are_shown(days: nat, hours: nat, minutes: nat, seconds: nat, total: u64)
    requires
        hours < 24,
        minutes < 60,
        seconds < 60,
        total == ((days * 24 + hours) * 60 + minutes) * 60 + seconds,
    ensures
        days == 0 && hours == 0 ==> uptime_text(total, true) == decimal(minutes) + " min"@,
        days == 0 && hours > 0 && minutes > 0 ==> uptime_text(total, true) == decimal(hours)
            + " h "@ + decimal(minutes) + " min"@,
        days == 0 && hours > 0 && minutes == 0 ==> uptime_text(total, true) == decimal(hours)
            + " h"@,
        days > 0 && hours > 0 ==> uptime_text(total, true) == decimal(days) + " d "@ + decimal(
            hours,
        ) + " h"@,
        days > 0 && hours == 0 ==> uptime_text(total, true) == decimal(days) + " d"@,
        uptime_text(total, false).len() == 0,
{
    let all = (days * 24 + hours) * 60 + minutes;
    assert(total / 60 == all);
    assert(all / 60 == days * 24 + hours && all % 60 == minutes);
    assert((days * 24 + hours) / 24 == days && (days * 24 + hours) % 24 == hours);
}

/// An update that is there is named by its version and its file.
pub proof fn law_updates_are_named(status: UpdateStatus)
    ensures
        status matches UpdateStatus::Available(a) ==> crate::text::begins(
            update_text(status),
            "Syntra "@ + a.version@ + " is available: "@ + a.asset.name@,
        ),
        status matches UpdateStatus::UpToDate { current } ==> update_text(status) == "Syntra "@
            + current@ + " is up to date"@,
{
    match status {
        UpdateStatus::Available(a) => {
            let head = "Syntra "@ + a.version@ + " is available: "@ + a.asset.name@;
            let text = update_text(status);
            assert(text.take(head.len() as int) =~= head);
        },
        _ => {},
    }
}

/// Texts that are joined stand in their order with the separator between them, and one
/// more is added behind it.
pub proof fn law_joined_texts_are_separated(
    parts: Seq<Seq<char>>,
    more: Seq<char>,
    separator: Seq<char>,
)
    ensures
        joined(Seq::empty(), separator) == Seq::<char>::empty(),
        joined(seq![more], separator) == more,
        parts.len() > 0 ==> joined(parts.push(more), separator) == joined(parts, separator)
            + separator + more,
{
    assert(parts.push(more).drop_last() =~= parts);
}

/// A palette is chosen by its name; an unknown name is the first one.
pub proof fn law_palettes_have_names(m: SettingsModel, text: String)
    ensures
        changed(m, Change::Palette(text)) matches Ok(a) && {
            &&& a.palette == Palette::Forest <==> text@ == "forest"@
            &&& a.palette == Palette::Ocean <==> text@ == "ocean"@
            &&& a.palette == Palette::Slate <==> text@ == "slate"@
            &&& a.palette == Palette::Sand <==> text@ == "sand"@
            &&& a.palette == Palette::Graphite <==> text@ == "graphite"@
            &&& a.palette == Palette::Aubergine <==> text@ == "aubergine"@
            &&& a.palette == Palette::Copper <==> text@ == "copper"@
            &&& a.palette == Palette::Rose <==> text@ == "rose"@
            &&& a.palette == Palette::Ice <==> text@ == "ice"@
        },
{
    reveal_strlit("forest");
    reveal_strlit("ocean");
    reveal_strlit("slate");
    reveal_strlit("sand");
    reveal_strlit("graphite");
    reveal_strlit("aubergine");
    reveal_strlit("copper");
    reveal_strlit("rose");
    reveal_strlit("ice");
    assert("forest"@[0] == 'f' && "ocean"@[0] == 'o' && "slate"@[0] == 's' && "slate"@[1] == 'l');
    assert("sand"@[0] == 's' && "sand"@[1] == 'a' && "graphite"@[0] == 'g');
    assert("aubergine"@[0] == 'a' && "copper"@[0] == 'c' && "rose"@[0] == 'r' && "ice"@[0] == 'i');
}

/// What became of a source of updates is said: that it was saved, that there is none, or
/// why it was not saved.
pub proof fn law_what_is_said_of_a_source(repository: Seq<char>, error: String)
    ensures
        trim(repository).len() == 0 ==> source_text(repository, Ok(()))
            == "Update source is not configured"@,
        trim(repository).len() > 0 ==> source_text(repository, Ok(()))
            == "Update source configured for "@ + trim(repository),
        source_text(repository, Err(error)) == "Unable to save update source: "@ + error@,
{
}

} // verus!
