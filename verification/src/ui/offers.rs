//! Which update is offered, and from where it comes.
use crate::text::begins;
use crate::text::blank;
use crate::text::byte_len;
use crate::text::holds;
use crate::text::part_at;
use crate::text::replaced;
use crate::ui::updates::asset_fault;
use crate::ui::updates::classified;
use crate::ui::updates::count_named;
use crate::ui::updates::expected_name_of;
use crate::ui::updates::first_named;
use crate::ui::updates::prepared;
use crate::ui::updates::slug_fault;
use crate::ui::updates::tag_version;
use crate::ui::updates::without_v;
use crate::ui::updates::ArtifactNaming;
use crate::ui::updates::GitHubAsset;
use crate::ui::updates::GitHubRelease;
use crate::ui::updates::Precedence;
use crate::ui::updates::Preparation;
use crate::ui::updates::RepositoryConfig;
use crate::ui::updates::UpdateError;
use crate::ui::updates::UpdateFault;
use crate::ui::updates::UpdateStatus;
use crate::wording::law_replacing_leaves_the_rest;
use crate::wording::law_replacing_passes_over;
use crate::wording::law_replacing_puts_the_other_text;
use crate::ui::updates::size_fault;
use crate::ui::updates::takes_in;
use crate::ui::updates::Stage;
use vstd::prelude::*;

verus! {

/// What is counted is there as often as it is counted.
proof fn lemma_named(assets: Seq<GitHubAsset>, name: Seq<char>)
    ensures
        count_named(assets, name) == 0 <==> forall|i: int|
            0 <= i < assets.len() ==> (#[trigger] assets[i]).name@ != name,
        count_named(assets, name) > 0 <==> first_named(assets, name) >= 0,
        -1 <= first_named(assets, name) < assets.len(),
        first_named(assets, name) >= 0 ==> assets[first_named(assets, name)].name@ == name,
        count_named(assets, name) == 1 ==> forall|i: int|
            0 <= i < assets.len() && (#[trigger] assets[i]).name@ == name ==> i == first_named(
                assets,
                name,
            ),
        count_named(assets, name) > 1 ==> exists|i: int, j: int|
            0 <= i < j < assets.len() && (#[trigger] assets[i]).name@ == name && (
            #[trigger] assets[j]).name@ == name,
    decreases assets.len(),
{
    if assets.len() > 0 {
        let front = assets.drop_last();
        lemma_named(front, name);
        let n = assets.len() - 1;
        assert(assets[n] == assets.last());
        if count_named(assets, name) == 0 {
            assert forall|i: int| 0 <= i < assets.len() implies (
            #[trigger] assets[i]).name@ != name by {
                if i < n {
                    assert(front[i] == assets[i]);
                }
            }
        } else if forall|i: int| 0 <= i < assets.len() ==> (#[trigger] assets[i]).name@ != name {
            assert forall|i: int| 0 <= i < front.len() implies (
            #[trigger] front[i]).name@ != name by {
                assert(assets[i] == front[i]);
            }
        }
        if count_named(assets, name) == 1 {
            assert forall|i: int|
                0 <= i < assets.len() && (#[trigger] assets[i]).name@ == name implies i
                == first_named(assets, name) by {
                if i < n {
                    assert(front[i] == assets[i]);
                }
            }
        }
        if count_named(assets, name) > 1 {
            if count_named(front, name) > 1 {
                let (i, j) = choose|i: int, j: int|
                    0 <= i < j < front.len() && (#[trigger] front[i]).name@ == name && (
                    #[trigger] front[j]).name@ == name;
                assert(assets[i] == front[i] && assets[j] == front[j]);
            } else {
                let i = first_named(front, name);
                assert(assets[i] == front[i]);
                assert(assets[n].name@ == name);
            }
        }
    }
}

/// An update that is offered is one file of the release: the only one with the name
/// that is expected, with the address and the size of that same file. The release is
/// no draft, is newer, and the file comes over a safe connection.
pub proof fn law_an_update_is_one_file_of_the_release(
    r: Result<UpdateStatus, UpdateError>,
    current: Seq<char>,
    latest: Seq<char>,
    checked: Result<bool, Seq<char>>,
    order: Precedence,
    naming: ArtifactNaming,
    release: GitHubRelease,
)
    requires
        classified(r, current, latest, checked, order, naming, release),
        r matches Ok(UpdateStatus::Available(_)),
    ensures
        ({
            let offer = r->Ok_0->Available_0;
            let expected = expected_name_of(naming, latest);
            &&& offer.asset.name@ == expected
            &&& offer.version@ == latest
            &&& offer.release_page@ == release.html_url@
            &&& exists|i: int|
                {
                    &&& 0 <= i < release.assets@.len()
                    &&& (#[trigger] release.assets@[i]).name@ == expected
                    &&& release.assets@[i].browser_download_url@ == offer.asset.download_url@
                    &&& release.assets@[i].size == offer.asset.declared_bytes
                }
            &&& forall|i: int|
                0 <= i < release.assets@.len() && (#[trigger] release.assets@[i]).name@ == expected
                    ==> release.assets@[i].browser_download_url@ == offer.asset.download_url@
                    && release.assets@[i].size == offer.asset.declared_bytes
            &&& begins(offer.asset.download_url@, "https://"@)
            &&& order == Precedence::Older && checked == Ok::<bool, Seq<char>>(false)
            &&& !release.draft && !release.prerelease
        }),
{
    let expected = expected_name_of(naming, latest);
    lemma_named(release.assets@, expected);
    let i = first_named(release.assets@, expected);
    assert(release.assets@[i].name@ == expected);
}

/// A newer release with one file of the expected name, at a safe address, is offered.
pub proof fn law_newer_releases_are_offered(
    r: Result<UpdateStatus, UpdateError>,
    current: Seq<char>,
    latest: Seq<char>,
    naming: ArtifactNaming,
    release: GitHubRelease,
    i: int,
)
    requires
        classified(r, current, latest, Ok(false), Precedence::Older, naming, release),
        !release.draft,
        !release.prerelease,
        0 <= i < release.assets@.len(),
        release.assets@[i].name@ == expected_name_of(naming, latest),
        begins(release.assets@[i].browser_download_url@, "https://"@),
        forall|j: int|
            0 <= j < release.assets@.len() && j != i ==> (#[trigger] release.assets@[j]).name@
                != expected_name_of(naming, latest),
    ensures
        r matches Ok(UpdateStatus::Available(offer)) && offer.version@ == latest
            && offer.asset.name@ == release.assets@[i].name@ && offer.asset.download_url@
            == release.assets@[i].browser_download_url@ && offer.asset.declared_bytes
            == release.assets@[i].size && offer.release_page@ == release.html_url@,
{
    let expected = expected_name_of(naming, latest);
    lemma_named(release.assets@, expected);
    if count_named(release.assets@, expected) > 1 {
        let (a, b) = choose|a: int, b: int|
            0 <= a < b < release.assets@.len() && (#[trigger] release.assets@[a]).name@ == expected
                && (#[trigger] release.assets@[b]).name@ == expected;
        assert(a == i && b == i);
    }
    assert(first_named(release.assets@, expected) == i);
}

/// A release that is no newer is not offered, whatever its files: the same one leaves
/// this one up to date, and an older one is behind it.
pub proof fn law_older_releases_are_not_offered(
    r: Result<UpdateStatus, UpdateError>,
    current: Seq<char>,
    latest: Seq<char>,
    order: Precedence,
    naming: ArtifactNaming,
    release: GitHubRelease,
)
    requires
        classified(r, current, latest, Ok(false), order, naming, release),
        !release.draft,
        !release.prerelease,
        order != Precedence::Older,
    ensures
        order == Precedence::Same ==> (r matches Ok(UpdateStatus::UpToDate { current: c }) && c@
            == current),
        order == Precedence::Newer ==> (r matches Ok(
            UpdateStatus::AheadOfLatest { current: c, latest: l },
        ) && c@ == current && l@ == latest),
{
}

/// A draft, a prerelease, and a tag that is no version or that of a prerelease are
/// refused as malformed.
pub proof fn law_unfinished_releases_are_refused(
    r: Result<UpdateStatus, UpdateError>,
    current: Seq<char>,
    latest: Seq<char>,
    checked: Result<bool, Seq<char>>,
    order: Precedence,
    naming: ArtifactNaming,
    release: GitHubRelease,
)
    requires
        classified(r, current, latest, checked, order, naming, release),
        release.draft || release.prerelease || checked is Err || checked->Ok_0,
    ensures
        r is Err,
        r->Err_0@ is MalformedRelease,
{
}

/// A newer release without a file of the expected name is refused by that name, and
/// so is one with several.
pub proof fn law_missing_and_doubled_files_are_refused(
    assets: Seq<GitHubAsset>,
    expected: Seq<char>,
    i: int,
    j: int,
)
    ensures
        (forall|k: int| 0 <= k < assets.len() ==> (#[trigger] assets[k]).name@ != expected)
            ==> asset_fault(assets, expected) == Some(UpdateFault::UnsupportedAsset { expected }),
        0 <= i < j < assets.len() && assets[i].name@ == expected && assets[j].name@ == expected
            ==> (asset_fault(assets, expected) matches Some(
            UpdateFault::AmbiguousAsset { expected: e, count },
        ) && e == expected && count >= 2),
{
    lemma_named(assets, expected);
    if 0 <= i < j < assets.len() && assets[i].name@ == expected && assets[j].name@ == expected {
        if count_named(assets, expected) == 1 {
            assert(i == first_named(assets, expected));
            assert(j == first_named(assets, expected));
        }
        assert(count_named(assets, expected) != 0);
    }
}

proof fn lemma_passes(a: Seq<char>, mark: Seq<char>, s: Seq<char>, from: Seq<char>, to: Seq<char>)
    requires
        from.len() > 1,
        mark.len() > 1,
        from[0] == '{',
        mark[0] == '{',
        from[1] != mark[1],
        !a.contains('{'),
        !mark.drop_first().contains('{'),
    ensures
        replaced(a + mark + s, from, to) == a + mark + replaced(s, from, to),
{
    let tail = mark + s;
    let rest = mark.drop_first();
    law_replacing_leaves_the_rest(a, tail, from, to);
    assert(a + mark + s =~= a + tail);
    if begins(tail, from) {
        assert(tail.take(from.len() as int)[1] == from[1]);
        assert(tail[1] == mark[1]);
    }
    law_replacing_passes_over(tail, from, to);
    assert(tail.drop_first() =~= rest + s);
    law_replacing_leaves_the_rest(rest, s, from, to);
    assert(seq!['{'] + rest =~= mark);
    assert(a + (seq!['{'] + (rest + replaced(s, from, to))) =~= a + mark + replaced(s, from, to));
}

proof fn lemma_puts(a: Seq<char>, s: Seq<char>, from: Seq<char>, to: Seq<char>)
    requires
        from.len() > 1,
        from[0] == '{',
        !a.contains('{'),
    ensures
        replaced(a + from + s, from, to) == a + to + replaced(s, from, to),
{
    law_replacing_leaves_the_rest(a, from + s, from, to);
    law_replacing_puts_the_other_text(s, from, to);
    assert(a + from + s =~= a + (from + s));
    assert(a + (to + replaced(s, from, to)) =~= a + to + replaced(s, from, to));
}

proof fn lemma_no_brace(a: Seq<char>, b: Seq<char>)
    requires
        !a.contains('{'),
        !b.contains('{'),
    ensures
        !(a + b).contains('{'),
{
    if (a + b).contains('{') {
        let i = choose|i: int| 0 <= i < (a + b).len() && (a + b)[i] == '{';
        if i < a.len() {
            assert(a[i] == '{');
        } else {
            assert(b[i - a.len()] == '{');
        }
    }
}

/// The three marks of a template.
proof fn lemma_marks()
    ensures
        ({
            let v = "{version}"@;
            let o = "{os}"@;
            let m = "{arch}"@;
            &&& v.len() > 1 && v[0] == '{' && v[1] == 'v' && !v.drop_first().contains('{')
            &&& o.len() > 1 && o[0] == '{' && o[1] == 'o' && !o.drop_first().contains('{')
            &&& m.len() > 1 && m[0] == '{' && m[1] == 'a' && !m.drop_first().contains('{')
        }),
{
    reveal_strlit("{version}");
    reveal_strlit("{os}");
    reveal_strlit("{arch}");
}

/// A template with the three marks in their places.
pub proof fn lemma_template(
    t: Seq<char>,
    version: Seq<char>,
    os: Seq<char>,
    arch: Seq<char>,
    a: Seq<char>,
    b: Seq<char>,
    c: Seq<char>,
    d: Seq<char>,
)
    requires
        t == a + "{version}"@ + b + "{os}"@ + c + "{arch}"@ + d,
        !a.contains('{'),
        !b.contains('{'),
        !c.contains('{'),
        !d.contains('{'),
        !version.contains('{'),
        !os.contains('{'),
        !arch.contains('{'),
    ensures
        replaced(replaced(replaced(t, "{version}"@, version), "{os}"@, os), "{arch}"@, arch) == a
            + version + b + os + c + arch + d,
{
    lemma_marks();
    let v = "{version}"@;
    let o = "{os}"@;
    let m = "{arch}"@;
    assert(t =~= a + v + (b + o + (c + m + d)));
    lemma_puts(a, b + o + (c + m + d), v, version);
    lemma_passes(b, o, c + m + d, v, version);
    lemma_passes(c, m, d, v, version);
    law_replacing_leaves_the_rest(d, Seq::empty(), v, version);
    let one = replaced(t, v, version);
    let head = a + version + b;
    assert(one =~= head + o + (c + m + d));
    lemma_no_brace(a, version);
    lemma_no_brace(a + version, b);
    lemma_puts(head, c + m + d, o, os);
    lemma_passes(c, m, d, o, os);
    law_replacing_leaves_the_rest(d, Seq::empty(), o, os);
    let two = replaced(one, o, os);
    let more = head + os + c;
    assert(two =~= more + m + d);
    lemma_no_brace(head, os);
    lemma_no_brace(head + os, c);
    lemma_puts(more, d, m, arch);
    law_replacing_leaves_the_rest(d, Seq::empty(), m, arch);
    assert(replaced(two, m, arch) =~= a + version + b + os + c + arch + d);
}

/// The name of the file for a platform is the template with the version, the system
/// and the machine in their places.
pub proof fn law_names_say_version_system_and_machine(
    naming: ArtifactNaming,
    version: Seq<char>,
    a: Seq<char>,
    b: Seq<char>,
    c: Seq<char>,
    d: Seq<char>,
)
    requires
        naming.template@ == a + "{version}"@ + b + "{os}"@ + c + "{arch}"@ + d,
        !a.contains('{'),
        !b.contains('{'),
        !c.contains('{'),
        !d.contains('{'),
        !version.contains('{'),
        !naming.os@.contains('{'),
        !naming.arch@.contains('{'),
    ensures
        expected_name_of(naming, version) == a + version + b + naming.os@ + c + naming.arch@ + d,
{
    lemma_template(naming.template@, version, naming.os@, naming.arch@, a, b, c, d);
}

/// A tag names the version behind its `v`, or as it stands; the version in use may
/// have any number of them in front.
pub proof fn law_a_v_in_front_is_no_version(s: Seq<char>)
    ensures
        tag_version(seq!['v'] + s) == s,
        s.len() > 0 && s[0] != 'v' ==> tag_version(s) == s && without_v(s) == s,
        without_v(seq!['v'] + s) == without_v(s),
        without_v(s).len() > 0 ==> without_v(s)[0] != 'v',
    decreases s.len(),
{
    assert((seq!['v'] + s).drop_first() =~= s);
    if s.len() > 0 && s[0] == 'v' {
        law_a_v_in_front_is_no_version(s.drop_first());
    }
}

/// Without a source updates are not configured. With an owner and a repository that
/// are names on GitHub, names for the files and room for a download, they are, from
/// that source; one without the other is refused.
pub proof fn law_sources_are_configured_whole(
    r: Result<Preparation, UpdateError>,
    config: RepositoryConfig,
    current: Seq<char>,
    checked: Result<bool, Seq<char>>,
    naming: ArtifactNaming,
    max_download_bytes: u64,
)
    requires
        prepared(r, config, current, checked, naming, max_download_bytes),
    ensures
        config.owner is None && config.repository is None ==> (r matches Ok(
            Preparation::Unconfigured,
        )),
        config.owner is Some != config.repository is Some ==> r is Err && (
        r->Err_0@ is InvalidConfiguration),
        r matches Ok(Preparation::Configured(u)) ==> {
            &&& config.owner is Some && config.repository is Some
            &&& u.owner@ == config.owner->Some_0@ && u.repository@ == config.repository->Some_0@
            &&& u.current_version@ == current && u.naming == naming
            &&& u.max_download_bytes == max_download_bytes && max_download_bytes > 0
            &&& slug_fault("owner"@, u.owner@) is None
            &&& slug_fault("repository"@, u.repository@) is None
            &&& checked is Ok
        },
        config.owner is Some && config.repository is Some && checked is Ok && max_download_bytes > 0
            && slug_fault("owner"@, config.owner->Some_0@) is None && slug_fault(
            "repository"@,
            config.repository->Some_0@,
        ) is None && crate::ui::updates::naming_fault(naming) is None ==> (r matches Ok(
            Preparation::Configured(_),
        )),
{
}

/// A name on GitHub has 1 to 100 letters, digits, `-`, `_` and `.`, with no dot at
/// either end.
pub proof fn law_names_on_github(field: Seq<char>, value: Seq<char>)
    ensures
        slug_fault(field, value) is None <==> {
            &&& 0 < value.len() && byte_len(value) <= 100
            &&& value[0] != '.' && value[value.len() - 1] != '.'
            &&& forall|i: int|
                0 <= i < value.len() ==> {
                    let c = #[trigger] value[i];
                    'a' <= c <= 'z' || 'A' <= c <= 'Z' || '0' <= c <= '9' || c == '-' || c == '_'
                        || c == '.'
                }
        },
{
}

/// A template with the three marks in their places is accepted, for every system and
/// machine whose name can stand in a file name.
pub proof fn law_marked_templates_are_accepted(
    template: Seq<char>,
    os: Seq<char>,
    arch: Seq<char>,
    a: Seq<char>,
    b: Seq<char>,
    c: Seq<char>,
    d: Seq<char>,
)
    requires
        template == a + "{version}"@ + b + "{os}"@ + c + "{arch}"@ + d,
        forall|x: char| #[trigger] a.contains(x) ==> x != '{' && x != '}',
        forall|x: char| #[trigger] b.contains(x) ==> x != '{' && x != '}',
        forall|x: char| #[trigger] c.contains(x) ==> x != '{' && x != '}',
        forall|x: char| #[trigger] d.contains(x) ==> x != '{' && x != '}',
        os.len() > 0,
        arch.len() > 0,
        !os.contains('/') && !os.contains('\\'),
        !arch.contains('/') && !arch.contains('\\'),
    ensures
        crate::ui::updates::naming_fault_of(template, os, arch) is None,
{
    lemma_marks();
    let v = "{version}"@;
    let o = "{os}"@;
    let m = "{arch}"@;
    assert(!blank(template)) by {
        let (i, j) = crate::wording::law_trimming_takes_whitespace_alone(template);
        assert(template[a.len() as int] == v[0]);
        assert(!crate::text::whitespace('{'));
    }
    let at_o = (a + v + b).len() as int;
    let at_m = (a + v + b + o + c).len() as int;
    assert(template.subrange(at_o, at_o + o.len()) =~= o);
    assert(part_at(template, o, at_o));
    assert(holds(template, o));
    assert(template.subrange(at_m, at_m + m.len()) =~= m);
    assert(part_at(template, m, at_m));
    assert(holds(template, m));
    reveal_strlit("{version}");
    reveal_strlit("{os}");
    reveal_strlit("{arch}");
    assert(crate::text::index_of(d, '{') is None) by {
        lemma_missing(d, '{');
    }
    let t3 = c + m + d;
    let t2 = b + o + t3;
    let t1 = a + v + t2;
    assert(template =~= t1);
    lemma_braces(c, m, d);
    lemma_braces(b, o, t3);
    lemma_braces(a, v, t2);
}

proof fn lemma_missing(s: Seq<char>, x: char)
    requires
        !s.contains(x),
    ensures
        crate::text::index_of(s, x) is None,
{
    match crate::text::index_of(s, x) {
        Some(i) => {
            crate::text::lemma_index_found(s, x, i);
            assert(s.contains(x));
        },
        None => {},
    }
}

/// A mark is passed over.
proof fn lemma_braces(a: Seq<char>, mark: Seq<char>, s: Seq<char>)
    requires
        forall|x: char| #[trigger] a.contains(x) ==> x != '{' && x != '}',
        mark == "{version}"@ || mark == "{os}"@ || mark == "{arch}"@,
        crate::ui::updates::brace_fault(s) is None,
    ensures
        crate::ui::updates::brace_fault(a + mark + s) is None,
{
    reveal_strlit("{version}");
    reveal_strlit("{os}");
    reveal_strlit("{arch}");
    let all = a + mark + s;
    let open = a.len() as int;
    let n = mark.len() as int;
    assert forall|i: int| 0 <= i < open implies all[i] != '{' by {
        assert(a.contains(a[i]));
    }
    assert(all[open] == mark[0]);
    crate::text::lemma_index_of(all, '{', open);
    let rest = all.skip(open);
    assert(rest =~= mark + s);
    assert(mark[n - 1] == '}');
    assert(forall|i: int| 0 <= i < n - 1 ==> mark[i] != '}');
    assert forall|i: int| 0 <= i < n - 1 implies rest[i] != '}' by {
        assert(rest[i] == mark[i]);
    }
    assert(rest[n - 1] == '}');
    crate::text::lemma_index_of(rest, '}', n - 1);
    assert(rest.take(n) =~= mark);
    assert(rest.skip(n) =~= s);
}

/// A download is taken in as long as it stays within its limit, and all of it counts; what
/// goes over is refused, and nothing of it counts.
pub proof fn law_downloads_stay_within_their_limit(
    before: Stage,
    read: u64,
    r: Result<(), UpdateError>,
    after: Stage,
)
    requires
        takes_in(before, read, r, after),
    ensures
        r is Ok <==> before.total + read <= before.limit,
        r is Ok ==> after.total == before.total + read,
        r is Err ==> after.total == before.total && r->Err_0@ is DownloadTooLarge,
        after.limit == before.limit,
{
}

/// A download of a size that is known beforehand is refused if it is over the limit.
pub proof fn law_known_sizes_are_checked(limit: u64, length: Option<u64>)
    ensures
        size_fault(limit, length) is Some <==> (length matches Some(n) && n > limit),
{
}

/// A template that is accepted says where the system and the machine go, and both are
/// names that can stand in a file name.
pub proof fn law_templates_name_system_and_machine(
    template: Seq<char>,
    os: Seq<char>,
    arch: Seq<char>,
)
    requires
        crate::ui::updates::naming_fault_of(template, os, arch) is None,
    ensures
        holds(template, "{os}"@) && holds(template, "{arch}"@),
        os.len() > 0 && !os.contains('/') && !os.contains('\\'),
        arch.len() > 0 && !arch.contains('/') && !arch.contains('\\'),
        !blank(template),
{
}

} // verus!
