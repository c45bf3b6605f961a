//! What is kept of settings and of the names and pictures of devices.
use crate::text::lower;
use crate::ui::device_identity::config_key;
use crate::ui::device_identity::device_of;
use crate::ui::device_identity::lies_in;
use crate::ui::device_identity::local_pictured;
use crate::ui::device_identity::local_renamed;
use crate::ui::device_identity::migrated;
use crate::ui::device_identity::migrates;
use crate::ui::device_identity::peer_pictured;
use crate::ui::device_identity::peer_renamed;
use crate::ui::device_identity::peer_unpictured;
use crate::ui::device_identity::removal_of;
use crate::ui::device_identity::Lookup;
use crate::ui::settings::devices_from;
use crate::ui::settings::joined;
use crate::ui::settings::settings_from;
use crate::ui::settings::BaseMode;
use crate::ui::settings::Density;
use crate::ui::settings::DeviceModel;
use crate::ui::settings::DevicePresentationWire;
use crate::ui::settings::Palette;
use crate::ui::settings::PresentationSettingsWire;
use crate::ui::settings::SettingsModel;
use crate::wording::law_trimming_takes_whitespace_alone;
use crate::ui::settings::says;
use vstd::prelude::*;

verus! {

/// A color in a file: a mark and six hexadecimal digits.
pub open spec fn spells_color(s: Seq<char>) -> bool {
    &&& s.len() == 7 && s[0] == '#'
    &&& forall|i: int|
        1 <= i < 7 ==> '0' <= #[trigger] s[i] <= '9' || 'a' <= s[i] <= 'f' || 'A' <= s[i] <= 'F'
}

/// What a file says is what is in force: its language, its switches, its zoom between
/// 75 and 200 percent, its colors in small letters where they are colors, and its
/// update source.
pub proof fn law_a_file_is_taken_at_its_word(w: PresentationSettingsWire)
    ensures
        ({
            let m = settings_from(w);
            &&& w.locale matches Some(s) ==> m.locale == s@
            &&& w.reduced_motion matches Some(b) ==> m.reduced_motion == b
            &&& w.sidebar_open matches Some(b) ==> m.sidebar_open == b
            &&& w.zoom_percent matches Some(z) ==> {
                &&& 75 <= z <= 200 ==> m.zoom_percent == z
                &&& z < 75 ==> m.zoom_percent == 75
                &&& z > 200 ==> m.zoom_percent == 200
            }
            &&& w.accent matches Some(s) ==> {
                &&& spells_color(s@) ==> m.accent == lower(s@)
                &&& s@.len() == 0 ==> m.accent.len() == 0
                &&& s@.len() > 0 && !spells_color(s@) ==> m.accent == "#718355"@
            }
            &&& w.titlebar_color matches Some(s) ==> {
                &&& spells_color(s@) ==> m.titlebar_color == lower(s@)
                &&& !spells_color(s@) ==> m.titlebar_color.len() == 0
            }
            &&& w.local_device matches Some(d) ==> {
                &&& d.friendly_name matches Some(s) ==> m.local_device.friendly_name == s@
                &&& d.image_path matches Some(s) ==> m.local_device.image_path == s@
            }
            &&& w.updates matches Some(u) ==> {
                &&& u.repository matches Some(s) ==> m.updates.repository == s@
                &&& u.artifact_template matches Some(s) ==> m.updates.artifact_template == s@
                &&& u.automatic_check matches Some(b) ==> m.updates.automatic_check == b
            }
        }),
{
}

/// What a file leaves out is as it comes: English, dark, in army colors, comfortable,
/// at its natural size, moving, with the sidebar open, and no source of updates.
pub proof fn law_what_a_file_leaves_out(w: PresentationSettingsWire)
    ensures
        ({
            let m = settings_from(w);
            &&& w.locale is None ==> m.locale == "en-US"@
            &&& w.mode is None && w.theme is None ==> m.mode == BaseMode::Black
            &&& w.palette is None ==> m.palette == Palette::Army
            &&& w.accent is None ==> m.accent == "#718355"@
            &&& w.titlebar_color is None ==> m.titlebar_color.len() == 0
            &&& w.density is None ==> m.density == Density::Comfortable
            &&& w.zoom_percent is None ==> m.zoom_percent == 100
            &&& w.reduced_motion is None ==> !m.reduced_motion
            &&& w.sidebar_open is None ==> m.sidebar_open
            &&& w.devices is None ==> m.devices == Map::<Seq<char>, DeviceModel>::empty()
            &&& w.updates is None ==> m.updates.repository.len() == 0
                && !m.updates.automatic_check && m.updates.artifact_template
                == "syntra-{version}-{os}-{arch}.tar.gz"@
        }),
{
    reveal_strlit("black");
    reveal_strlit("white");
    reveal_strlit("light");
    assert(lower("black"@)[0] == 'b');
    assert("white"@[0] == 'w' && "light"@[0] == 'l');
}

/// The names of modes, palettes and densities are read in capitals and small letters;
/// the mode says more than the theme of earlier files, and a name that is unknown is
/// as if there were none.
pub proof fn law_names_in_a_file(w: PresentationSettingsWire)
    ensures
        ({
            let m = settings_from(w);
            &&& w.mode matches Some(s) ==> (m.mode == BaseMode::White <==> lower(s@) == "white"@
                || lower(s@) == "light"@)
            &&& w.mode is None ==> (w.theme matches Some(s) ==> (m.mode == BaseMode::White <==> lower(
                s@,
            ) == "white"@ || lower(s@) == "light"@))
            &&& w.density matches Some(s) ==> (m.density == Density::Compact <==> lower(s@)
                == "compact"@)
            &&& w.palette matches Some(s) ==> {
                &&& m.palette == Palette::Forest <==> lower(s@) == "forest"@
                &&& m.palette == Palette::Ocean <==> lower(s@) == "ocean"@
                &&& m.palette == Palette::Slate <==> lower(s@) == "slate"@
                &&& m.palette == Palette::Sand <==> lower(s@) == "sand"@
                &&& m.palette == Palette::Graphite <==> lower(s@) == "graphite"@
                &&& m.palette == Palette::Aubergine <==> lower(s@) == "aubergine"@
                &&& m.palette == Palette::Copper <==> lower(s@) == "copper"@
                &&& m.palette == Palette::Rose <==> lower(s@) == "rose"@
                &&& m.palette == Palette::Ice <==> lower(s@) == "ice"@
            }
        }),
{
    reveal_strlit("forest");
    reveal_strlit("ocean");
    reveal_strlit("slate");
    reveal_strlit("sand");
    reveal_strlit("graphite");
    reveal_strlit("aubergine");
    reveal_strlit("copper");
    reveal_strlit("rose");
    reveal_strlit("ice");
    assert("forest"@[0] == 'f' && "ocean"@[0] == 'o' && "slate"@[0] == 's' && "slate"@[1] == 'l');
    assert("sand"@[0] == 's' && "sand"@[1] == 'a' && "graphite"@[0] == 'g');
    assert("aubergine"@[0] == 'a' && "copper"@[0] == 'c' && "rose"@[0] == 'r' && "ice"@[0] == 'i');
}

/// Each device of a file is there under its key, as its last entry says, and no other.
pub proof fn law_devices_in_a_file(
    xs: Seq<(String, DevicePresentationWire)>,
    i: int,
    key: Seq<char>,
)
    ensures
        0 <= i < xs.len() && (forall|j: int| i < j < xs.len() ==> (#[trigger] xs[j]).0@ != xs[i].0@)
            ==> {
            let m = devices_from(xs);
            &&& m.contains_key(xs[i].0@)
            &&& xs[i].1.friendly_name matches Some(s) ==> m[xs[i].0@].friendly_name == s@
            &&& xs[i].1.image_path matches Some(s) ==> m[xs[i].0@].image_path == s@
            &&& xs[i].1.friendly_name is None ==> m[xs[i].0@].friendly_name.len() == 0
            &&& xs[i].1.image_path is None ==> m[xs[i].0@].image_path.len() == 0
        },
        (forall|j: int| 0 <= j < xs.len() ==> (#[trigger] xs[j]).0@ != key) ==> !devices_from(
            xs,
        ).contains_key(key),
    decreases xs.len(),
{
    if xs.len() > 0 {
        let front = xs.drop_last();
        law_devices_in_a_file(front, i, key);
        assert(forall|j: int| 0 <= j < front.len() ==> front[j] == xs[j]);
        if forall|j: int| 0 <= j < xs.len() ==> (#[trigger] xs[j]).0@ != key {
            assert(xs[xs.len() - 1].0@ != key);
            assert forall|j: int| 0 <= j < front.len() implies (#[trigger] front[j]).0@ != key by {
                assert(xs[j].0@ != key);
            }
        }
        if 0 <= i < xs.len() - 1 && (forall|j: int|
            i < j < xs.len() ==> (#[trigger] xs[j]).0@ != xs[i].0@) {
            assert(xs[xs.len() - 1].0@ != xs[i].0@);
            assert forall|j: int| i < j < front.len() implies (
            #[trigger] front[j]).0@ != front[i].0@ by {
                assert(xs[j].0@ != xs[i].0@);
            }
        }
    }
}

/// A name that is given to this device or to a peer is the name from then on, and so
/// is a picture; nothing else of the settings changes.
pub proof fn law_names_and_pictures_are_kept(
    m: SettingsModel,
    key: Seq<char>,
    other: Seq<char>,
    text: Seq<char>,
)
    ensures
        ({
            let after = local_renamed(m, text);
            &&& after.local_device.friendly_name == text
            &&& after.local_device.image_path == m.local_device.image_path
            &&& after == SettingsModel { local_device: after.local_device, ..m }
        }),
        ({
            let after = local_pictured(m, text);
            &&& after.local_device.image_path == text
            &&& after.local_device.friendly_name == m.local_device.friendly_name
            &&& after == SettingsModel { local_device: after.local_device, ..m }
        }),
        ({
            let after = peer_renamed(m, key, text);
            &&& after.devices.contains_key(key)
            &&& after.devices[key].friendly_name == text
            &&& m.devices.contains_key(key) ==> after.devices[key].image_path
                == m.devices[key].image_path
            &&& !m.devices.contains_key(key) ==> after.devices[key].image_path.len() == 0
            &&& after.devices.remove(key) == m.devices.remove(key)
            &&& after == SettingsModel { devices: after.devices, ..m }
        }),
        ({
            let after = peer_pictured(m, key, text);
            &&& after.devices.contains_key(key)
            &&& after.devices[key].image_path == text
            &&& m.devices.contains_key(key) ==> after.devices[key].friendly_name
                == m.devices[key].friendly_name
            &&& !m.devices.contains_key(key) ==> after.devices[key].friendly_name.len() == 0
            &&& after.devices.remove(key) == m.devices.remove(key)
            &&& after == SettingsModel { devices: after.devices, ..m }
        }),
        ({
            let after = peer_unpictured(m, key);
            &&& after.devices.contains_key(key) == m.devices.contains_key(key)
            &&& after.devices.contains_key(key) ==> after.devices[key].image_path.len() == 0
                && after.devices[key].friendly_name == m.devices[key].friendly_name
            &&& after.devices.remove(key) == m.devices.remove(key)
            &&& after == SettingsModel { devices: after.devices, ..m }
        }),
        device_of(m, other).friendly_name == (if m.devices.contains_key(other) {
            m.devices[other].friendly_name
        } else {
            Seq::empty()
        }),
{
    assert(peer_renamed(m, key, text).devices.remove(key) =~= m.devices.remove(key));
    assert(peer_pictured(m, key, text).devices.remove(key) =~= m.devices.remove(key));
    assert(peer_unpictured(m, key).devices.remove(key) =~= m.devices.remove(key));
}

/// A device that comes under another key keeps its name and its picture there, unless
/// that key has some already; the old key is gone, and no other device changes.
pub proof fn law_devices_keep_their_names_under_a_new_key(
    m: SettingsModel,
    old_key: Seq<char>,
    new_key: Seq<char>,
    other: Seq<char>,
)
    requires
        m.devices.contains_key(old_key),
        old_key != new_key,
    ensures
        old_key.len() > 0 && new_key.len() > 0 ==> migrates(m, old_key, new_key),
        ({
            let after = migrated(m, old_key, new_key);
            &&& !after.devices.contains_key(old_key)
            &&& after.devices.contains_key(new_key)
            &&& after.devices[new_key] == (if m.devices.contains_key(new_key) {
                m.devices[new_key]
            } else {
                m.devices[old_key]
            })
            &&& other != old_key && other != new_key ==> after.devices.contains_key(other)
                == m.devices.contains_key(other) && after.devices[other] == m.devices[other]
            &&& after == SettingsModel { devices: after.devices, ..m }
        }),
{
}

/// A picture is removed only if it lies in the directory of pictures: at the directory
/// itself, or below it behind a separator.
pub proof fn law_only_own_pictures_are_removed(
    picture: Seq<char>,
    directory: Option<Lookup>,
    found: Lookup,
    separator: char,
)
    ensures
        removal_of(picture, directory, found, separator) matches Ok(Some(path)) ==> {
            &&& picture.len() > 0
            &&& directory matches Some(Lookup::Found(root)) && {
                ||| path == root@
                ||| {
                    &&& root@.len() < path.len() && path.take(root@.len() as int) == root@
                    &&& path[root@.len() as int] == separator || root@[root@.len() - 1] == separator
                }
            }
            &&& found matches Lookup::Found(p) && p@ == path
        },
        picture.len() == 0 ==> removal_of(picture, directory, found, separator) == Ok::<
            Option<Seq<char>>,
            Seq<char>,
        >(None),
        picture.len() > 0 && directory is None ==> removal_of(
            picture,
            directory,
            found,
            separator,
        ) is Err,
{
}

/// What lies below the directory of pictures is removed.
pub proof fn law_own_pictures_are_removed(
    picture: Seq<char>,
    root: String,
    path: String,
    below: Seq<char>,
    separator: char,
)
    requires
        picture.len() > 0,
        path@ == root@ + seq![separator] + below,
    ensures
        removal_of(picture, Some(Lookup::Found(root)), Lookup::Found(path), separator) == Ok::<
            Option<Seq<char>>,
            Seq<char>,
        >(Some(path@)),
{
    assert(path@.take(root@.len() as int) =~= root@);
    assert(path@[root@.len() as int] == separator);
    assert(lies_in(path@, root@, separator));
}

/// The key of a peer is its host name, whatever its case and the blanks around it; a
/// peer without one is known by its addresses, and one without either has no key.
pub proof fn law_host_names_are_keys(hostname: Seq<char>, other: Seq<char>, ips: Seq<Seq<char>>)
    requires
        lower(crate::text::trim(hostname)) == lower(crate::text::trim(other)),
    ensures
        config_key(Some(hostname), ips) == config_key(Some(other), ips),
        crate::text::trim(hostname).len() > 0 ==> config_key(Some(hostname), ips) == "cfg:host:"@
            + lower(crate::text::trim(hostname)),
        config_key(None, Seq::empty()).len() == 0,
        crate::text::trim(hostname).len() == 0 ==> config_key(Some(hostname), ips) == config_key(
            None,
            ips,
        ),
        ips.len() == 1 ==> config_key(None, ips) == "cfg:ip:"@ + ips[0],
{
    let none = Seq::<char>::empty();
    let (i, j) = law_trimming_takes_whitespace_alone(none);
    assert(crate::text::trim(none) =~= none);
    assert(lower(none) =~= none);
    if crate::text::trim(hostname).len() == 0 {
        assert(lower(crate::text::trim(hostname)) =~= none);
    }
    if ips.len() == 1 {
        assert(ips.drop_last() =~= Seq::<Seq<char>>::empty());
        let one = crate::ui::device_identity::sorted_texts(ips);
        assert(crate::ui::device_identity::sorted_texts(ips.drop_last())
            =~= Seq::<Seq<char>>::empty());
        assert(one =~= seq![ips[0]]);
        lemma_joined_one(one);
    }
}

proof fn lemma_joined_one(texts: Seq<Seq<char>>)
    requires
        texts.len() == 1,
    ensures
        crate::ui::labels::joined(texts, ","@) == texts[0],
{
    assert(texts.drop_last() =~= Seq::<Seq<char>>::empty());
    assert(crate::ui::labels::joined(texts, ","@) =~= texts[0]);
}

/// A name is put behind a directory with one separator between them, and the name
/// stands at the end.
pub proof fn law_names_lie_in_their_directory(
    directory: Seq<char>,
    name: Seq<char>,
    separator: char,
)
    requires
        directory.len() > 2,
        name.len() > 0,
        name[0] != separator,
    ensures
        ({
            let path = joined(directory, name, separator);
            let n = directory.len() as int;
            &&& path.take(n) == directory
            &&& crate::text::ends(path, name)
            &&& directory[n - 1] == separator ==> path == directory + name
            &&& directory[n - 1] != separator && directory[n - 1] != '/' ==> path == directory
                + seq![separator] + name
            &&& separator == '/' && directory[n - 1] != '/' ==> path == directory + seq!['/'] + name
        }),
        joined(Seq::empty(), name, separator) == name,
{
    let path = joined(directory, name, separator);
    let n = directory.len() as int;
    assert(directory.push(separator) + name =~= directory + seq![separator] + name);
    assert(path.take(n) =~= directory);
    assert(path.skip(path.len() - name.len()) =~= name);
}

/// What is written of the settings names each of them as it is, and leaves the theme of
/// earlier files out.
pub proof fn law_settings_are_written_whole(w: PresentationSettingsWire, m: SettingsModel)
    requires
        says(w, m),
    ensures
        w.theme is None,
        w.locale is Some && w.locale->Some_0@ == m.locale,
        w.accent is Some && w.accent->Some_0@ == m.accent,
        w.titlebar_color is Some && w.titlebar_color->Some_0@ == m.titlebar_color,
        w.zoom_percent == Some(m.zoom_percent),
        w.reduced_motion == Some(m.reduced_motion),
        w.sidebar_open == Some(m.sidebar_open),
        w.mode is Some && (m.mode == BaseMode::White ==> w.mode->Some_0@ == "white"@) && (m.mode
            == BaseMode::Black ==> w.mode->Some_0@ == "black"@),
        w.density is Some && (m.density == Density::Compact ==> w.density->Some_0@ == "Compact"@)
            && (m.density == Density::Comfortable ==> w.density->Some_0@ == "Comfortable"@),
        w.local_device is Some && w.devices is Some && w.updates is Some && w.palette is Some,
{
}

} // verus!
