//! Installation from published releases: which file of a release is for this
//! platform, and whether what was downloaded is what was published.
//!
//! A checksum proves only transport integrity: without a digital signature it
//! does not authenticate the publisher or the release contents.
use crate::finding::first_below;
use crate::finding::lemma_first;
use crate::finding::lemma_found;
use crate::text::chars_of;
use crate::text::decimal;
use crate::text::ends;
use crate::text::ends_with;
use crate::text::hex_digit;
use crate::text::lower;
use crate::text::lower_char;
use crate::text::lower_chars;
use crate::text::push_decimal;
use crate::text::replace;
use crate::text::replaced;
use crate::text::same_text;
use crate::text::string_of;
use crate::text::whitespace;
use crate::text::words;
use crate::text::words_of;
use crate::ui::labels::hex_of;
use crate::ui::labels::hex_text;
use crate::ui::offers::lemma_template;
use crate::ui::updates::without_v;
use crate::wording::law_blank_texts_have_no_words;
use crate::wording::law_the_first_word;
use vstd::prelude::*;

verus! {

pub const TEMPLATE: &'static str = "syntra-{version}-{os}-{arch}";

/// A published release.
#[derive(Clone, Debug, PartialEq, Eq)]
pub struct Release {
    pub tag_name: String,
    pub name: String,
    pub html_url: String,
    pub assets: Vec<Asset>,
}

/// A file of a release.
#[derive(Clone, Debug, PartialEq, Eq)]
pub struct Asset {
    pub name: String,
    pub browser_download_url: String,
    pub size: u64,
}

#[derive(Clone, Debug, PartialEq, Eq)]
#[allow(inconsistent_fields)]
pub enum ReleaseError {
    Network(String),
    Http(String),
    Json(String),
    NoMatchingAsset(String),
    ChecksumMismatch { asset: String, expected: String, actual: String },
    BadChecksum(String),
    Unpack(String),
    Destination(String),
    Cancelled,
    Io(String),
}

pub open spec fn release_error_text(e: ReleaseError) -> Seq<char> {
    match e {
        ReleaseError::Network(s) => "no network connection to GitHub: "@ + s@,
        ReleaseError::Http(s) => "GitHub rate limit or HTTP failure: "@ + s@,
        ReleaseError::Json(s) => "GitHub returned malformed release data: "@ + s@,
        ReleaseError::NoMatchingAsset(s) => "no release asset matches "@ + s@,
        ReleaseError::ChecksumMismatch { asset, expected, actual } => "checksum mismatch for "@
            + asset@ + ": expected "@ + expected@ + ", got "@ + actual@,
        ReleaseError::BadChecksum(s) => "checksum file is malformed: "@ + s@,
        ReleaseError::Unpack(s) => "archive unpack failed: "@ + s@,
        ReleaseError::Destination(s) => "installation destination is not writable: "@ + s@,
        ReleaseError::Cancelled => "operation cancelled"@,
        ReleaseError::Io(s) => "download failed: "@ + s@,
    }
}

fn said(front: &str, s: &String) -> (r: String)
    ensures
        r@ == front@ + s@,
{
    let mut r: String = front.to_owned();
    r.push_str(s.as_str());
    r
}

impl ReleaseError {
    /// What is said of the error.
    pub fn to_text(&self) -> (r: String)
        ensures
            r@ == release_error_text(*self),
    {
        match self {
            ReleaseError::Network(s) => said("no network connection to GitHub: ", s),
            ReleaseError::Http(s) => said("GitHub rate limit or HTTP failure: ", s),
            ReleaseError::Json(s) => said("GitHub returned malformed release data: ", s),
            ReleaseError::NoMatchingAsset(s) => said("no release asset matches ", s),
            ReleaseError::ChecksumMismatch { asset, expected, actual } => {
                let mut r: String = "checksum mismatch for ".to_owned();
                r.push_str(asset.as_str());
                r.push_str(": expected ");
                r.push_str(expected.as_str());
                r.push_str(", got ");
                r.push_str(actual.as_str());
                r
            },
            ReleaseError::BadChecksum(s) => said("checksum file is malformed: ", s),
            ReleaseError::Unpack(s) => said("archive unpack failed: ", s),
            ReleaseError::Destination(s) => said("installation destination is not writable: ", s),
            ReleaseError::Cancelled => "operation cancelled".to_owned(),
            ReleaseError::Io(s) => said("download failed: ", s),
        }
    }
}

/// Where the most recent releases are asked for; between one and a hundred.
pub open spec fn recent_url_of(limit: nat) -> Seq<char> {
    "https://api.github.com/repos/DarkPhilosophy/syntra/releases?per_page="@ + decimal(
        if limit < 1 {
            1
        } else if limit > 100 {
            100
        } else {
            limit
        },
    )
}

/// Where the most recent releases are asked for.
pub fn recent_url(limit: usize) -> (s: String)
    ensures
        s@ == recent_url_of(limit as nat),
{
    let n: u64 = if limit < 1 {
        1
    } else if limit > 100 {
        100
    } else {
        limit as u64
    };
    let mut s: String =
        "https://api.github.com/repos/DarkPhilosophy/syntra/releases?per_page=".to_owned();
    push_decimal(&mut s, n);
    s
}

/// The name of an archive, but for its ending.
pub open spec fn stem_of(tag: Seq<char>, os: Seq<char>, arch: Seq<char>) -> Seq<char> {
    replaced(
        replaced(replaced(TEMPLATE@, "{version}"@, without_v(tag)), "{os}"@, os),
        "{arch}"@,
        arch,
    )
}

fn trim_v(s: &str) -> (r: Vec<char>)
    ensures
        r@ == without_v(s@),
{
    let v: Vec<char> = chars_of(s);
    let mut i: usize = 0;
    assert(v@.skip(0) =~= v@);
    while i < v.len() && v[i] == 'v'
        invariant
            i <= v@.len(),
            v@ == s@,
            without_v(v@.skip(i as int)) == without_v(s@),
        decreases v@.len() - i,
    {
        assert(v@.skip(i as int).drop_first() =~= v@.skip(i + 1));
        i = i + 1;
    }
    let mut r: Vec<char> = Vec::new();
    let mut k: usize = i;
    while k < v.len()
        invariant
            i <= k <= v@.len(),
            r@ == v@.subrange(i as int, k as int),
        decreases v@.len() - k,
    {
        r.push(v[k]);
        k = k + 1;
        assert(r@ =~= v@.subrange(i as int, k as int));
    }
    assert(r@ =~= v@.skip(i as int));
    r
}

/// The name of an archive, but for its ending.
pub fn archive_stem(tag: &str, os: &str, arch: &str) -> (s: String)
    ensures
        s@ == stem_of(tag@, os@, arch@),
{
    proof {
        reveal_strlit("{version}");
        reveal_strlit("{os}");
        reveal_strlit("{arch}");
    }
    let version: Vec<char> = trim_v(tag);
    let a: Vec<char> = replace(
        chars_of(TEMPLATE).as_slice(),
        chars_of("{version}").as_slice(),
        version.as_slice(),
    );
    let b: Vec<char> = replace(
        a.as_slice(),
        chars_of("{os}").as_slice(),
        chars_of(os).as_slice(),
    );
    let c: Vec<char> = replace(
        b.as_slice(),
        chars_of("{arch}").as_slice(),
        chars_of(arch).as_slice(),
    );
    string_of(c.as_slice())
}

/// An archive of either format.
pub open spec fn is_archive(name: Seq<char>, stem: Seq<char>) -> bool {
    name == stem + ".tar.gz"@ || name == stem + ".zip"@
}

/// A file that is the archive.
pub open spec fn holds_archive(assets: Seq<Asset>, stem: Seq<char>) -> spec_fn(int) -> bool {
    |i: int| is_archive(assets[i].name@, stem)
}

/// The first file that is the archive.
pub open spec fn archive_in(assets: Seq<Asset>, stem: Seq<char>) -> Option<int> {
    first_below(assets.len() as int, holds_archive(assets, stem))
}

/// A file of a name.
pub open spec fn is_named(assets: Seq<Asset>, name: Seq<char>) -> spec_fn(int) -> bool {
    |i: int| assets[i].name@ == name
}

/// The first file of a name.
pub open spec fn asset_in(assets: Seq<Asset>, name: Seq<char>) -> Option<int> {
    first_below(assets.len() as int, is_named(assets, name))
}

/// The archive of a release for a platform.
pub fn select_archive(release: &Release, os: &str, arch: &str) -> (r: Result<usize, ReleaseError>)
    ensures
        ({
            let stem = stem_of(release.tag_name@, os@, arch@);
            match r {
                Ok(i) => archive_in(release.assets@, stem) == Some(i as int) && i
                    < release.assets@.len(),
                Err(error) => archive_in(release.assets@, stem) is None && (error matches
                    ReleaseError::NoMatchingAsset(s) && s@ == stem),
            }
        }),
{
    let stem: String = archive_stem(release.tag_name.as_str(), os, arch);
    let tar: String = said(stem.as_str(), &".tar.gz".to_owned());
    let zip: String = said(stem.as_str(), &".zip".to_owned());
    let mut i: usize = 0;
    while i < release.assets.len()
        invariant
            i <= release.assets@.len(),
            stem@ == stem_of(release.tag_name@, os@, arch@),
            tar@ == stem@ + ".tar.gz"@,
            zip@ == stem@ + ".zip"@,
            first_below(i as int, holds_archive(release.assets@, stem@)) is None,
        decreases release.assets@.len() - i,
    {
        if same_text(release.assets[i].name.as_str(), tar.as_str()) || same_text(
            release.assets[i].name.as_str(),
            zip.as_str(),
        ) {
            proof {
                lemma_found(
                    i + 1,
                    release.assets@.len() as int,
                    holds_archive(release.assets@, stem@),
                );
            }
            return Ok(i);
        }
        i = i + 1;
    }
    Err(ReleaseError::NoMatchingAsset(stem))
}

/// The checksum that was published beside an archive, if any.
pub fn select_checksum(release: &Release, archive: &str) -> (r: Option<usize>)
    ensures
        match r {
            Some(i) => asset_in(release.assets@, archive@ + ".sha256"@) == Some(i as int) && i
                < release.assets@.len(),
            None => asset_in(release.assets@, archive@ + ".sha256"@) is None,
        },
{
    let mut name: String = archive.to_owned();
    name.push_str(".sha256");
    let mut i: usize = 0;
    while i < release.assets.len()
        invariant
            i <= release.assets@.len(),
            name@ == archive@ + ".sha256"@,
            first_below(i as int, is_named(release.assets@, name@)) is None,
        decreases release.assets@.len() - i,
    {
        if same_text(release.assets[i].name.as_str(), name.as_str()) {
            proof {
                lemma_found(
                    i + 1,
                    release.assets@.len() as int,
                    is_named(release.assets@, name@),
                );
            }
            return Some(i);
        }
        i = i + 1;
    }
    None
}

/// Whether an archive is a compressed tape archive; otherwise it is a zip.
pub fn is_tape_archive(name: &str) -> (r: bool)
    ensures
        r == ends(name@, ".tar.gz"@),
{
    ends_with(chars_of(name).as_slice(), chars_of(".tar.gz").as_slice())
}

// ---------------------------------------------------------------------------
// Checksums
// ---------------------------------------------------------------------------

/// The SHA-256 digest of some bytes, as `sha2` computes it.
pub uninterp spec fn sha256(bytes: Seq<u8>) -> Seq<u8>;

/// `sha2::Sha256`'s `digest`: 32 bytes, which depend on the bytes alone and are
/// left to the name.
#[verifier::external_body]
fn digest_of(bytes: &[u8]) -> (d: Vec<u8>)
    ensures
        d@ == sha256(bytes@),
        d@.len() == 32,
{
    <sha2::Sha256 as sha2::Digest>::digest(bytes).to_vec()
}

/// What a checksum file says of a digest.
pub open spec fn is_verdict(
    r: Result<(), ReleaseError>,
    asset: Seq<char>,
    text: Seq<char>,
    digest: Seq<u8>,
) -> bool {
    let parts = words(text);
    let actual = hex_text(digest);
    match r {
        Ok(_) => parts.len() > 0 && lower(parts[0]) == actual,
        Err(ReleaseError::BadChecksum(reason)) => parts.len() == 0 && reason@
            == "empty checksum"@,
        Err(ReleaseError::ChecksumMismatch { asset: a, expected, actual: found }) => {
            &&& parts.len() > 0
            &&& lower(parts[0]) != actual
            &&& a@ == asset
            &&& expected@ == lower(parts[0])
            &&& found@ == actual
        },
        _ => false,
    }
}

/// A file is accepted if and only if the first word of its checksum file spells its
/// digest, two digits for each byte, in capitals or small letters.
pub proof fn law_digests_decide(
    r: Result<(), ReleaseError>,
    asset: Seq<char>,
    text: Seq<char>,
    digest: Seq<u8>,
    i: int,
    j: int,
)
    requires
        is_verdict(r, asset, text, digest),
        0 <= i < j <= text.len(),
        forall|x: int| 0 <= x < i ==> whitespace(#[trigger] text[x]),
        forall|x: int| i <= x < j ==> !whitespace(#[trigger] text[x]),
        j == text.len() || whitespace(text[j]),
    ensures
        r is Ok <==> {
            &&& j - i == 2 * digest.len()
            &&& forall|k: int|
                0 <= k < digest.len() ==> {
                    &&& lower_char(text[i + 2 * k]) == hex_digit((#[trigger] digest[k] / 16) as nat)
                    &&& lower_char(text[i + 2 * k + 1]) == hex_digit((digest[k] % 16) as nat)
                }
        },
        r matches Err(error) ==> error is ChecksumMismatch,
{
    law_the_first_word(text, i, j);
    let word = text.subrange(i, j);
    lemma_hex_text(digest);
    let hex = hex_text(digest);
    let said = lower(word);
    if r is Ok {
        assert(said == hex);
        assert forall|k: int| 0 <= k < digest.len() implies {
            &&& lower_char(text[i + 2 * k]) == hex_digit((#[trigger] digest[k] / 16) as nat)
            &&& lower_char(text[i + 2 * k + 1]) == hex_digit((digest[k] % 16) as nat)
        } by {
            assert(said[2 * k] == hex[2 * k]);
            assert(said[2 * k + 1] == hex[2 * k + 1]);
        }
    } else if j - i == 2 * digest.len() && forall|k: int|
        0 <= k < digest.len() ==> {
            &&& lower_char(text[i + 2 * k]) == hex_digit((#[trigger] digest[k] / 16) as nat)
            &&& lower_char(text[i + 2 * k + 1]) == hex_digit((digest[k] % 16) as nat)
        } {
        assert forall|x: int| 0 <= x < said.len() implies said[x] == hex[x] by {
            let k = x / 2;
            assert(digest[k] / 16 >= 0);
            assert(hex[2 * k] == hex_digit((digest[k] / 16) as nat));
            assert(hex[2 * k + 1] == hex_digit((digest[k] % 16) as nat));
            assert(x == 2 * k || x == 2 * k + 1);
        }
        assert(said =~= hex);
    }
}

proof fn lemma_hex_text(digest: Seq<u8>)
    ensures
        hex_text(digest).len() == 2 * digest.len(),
        forall|k: int|
            #![trigger digest[k]]
            0 <= k < digest.len() ==> hex_text(digest)[2 * k] == hex_digit((digest[k] / 16) as nat)
                && hex_text(digest)[2 * k + 1] == hex_digit((digest[k] % 16) as nat),
    decreases digest.len(),
{
    if digest.len() > 0 {
        let front = digest.drop_last();
        lemma_hex_text(front);
        assert forall|k: int|
            #![trigger digest[k]]
            0 <= k < digest.len() implies hex_text(digest)[2 * k] == hex_digit(
            (digest[k] / 16) as nat,
        ) && hex_text(digest)[2 * k + 1] == hex_digit((digest[k] % 16) as nat) by {
            if k < front.len() {
                assert(front[k] == digest[k]);
            }
        }
    }
}

/// A checksum file without a word is malformed.
pub proof fn law_empty_checksums_are_refused(
    r: Result<(), ReleaseError>,
    asset: Seq<char>,
    text: Seq<char>,
    digest: Seq<u8>,
)
    requires
        is_verdict(r, asset, text, digest),
        forall|x: int| 0 <= x < text.len() ==> whitespace(#[trigger] text[x]),
    ensures
        r matches Err(error) && error is BadChecksum,
{
    law_blank_texts_have_no_words(text);
}

/// The stem says the version behind the `v` of the tag, the system and the machine.
pub proof fn law_stems_say_version_system_and_machine(tag: Seq<char>, os: Seq<char>, arch: Seq<char>)
    requires
        !without_v(tag).contains('{'),
        !os.contains('{'),
        !arch.contains('{'),
    ensures
        stem_of(tag, os, arch) == "syntra-"@ + without_v(tag) + "-"@ + os + "-"@ + arch,
{
    reveal_strlit("syntra-{version}-{os}-{arch}");
    reveal_strlit("syntra-");
    reveal_strlit("{version}");
    reveal_strlit("-");
    reveal_strlit("{os}");
    reveal_strlit("{arch}");
    let none = Seq::<char>::empty();
    assert(TEMPLATE@ =~= "syntra-"@ + "{version}"@ + "-"@ + "{os}"@ + "-"@ + "{arch}"@ + none);
    lemma_template(
        TEMPLATE@,
        without_v(tag),
        os,
        arch,
        "syntra-"@,
        "-"@,
        "-"@,
        none,
    );
    assert("syntra-"@ + without_v(tag) + "-"@ + os + "-"@ + arch + none =~= "syntra-"@
        + without_v(tag) + "-"@ + os + "-"@ + arch);
}

/// The archive of a release for a platform is the first file whose name is the stem and
/// the ending of an archive; where there is none, none is chosen. Beside it lies its
/// checksum, under its whole name and the ending of one.
pub proof fn law_archives_have_the_name_of_their_platform(
    assets: Seq<Asset>,
    stem: Seq<char>,
    i: int,
)
    requires
        0 <= i < assets.len(),
    ensures
        archive_in(assets, stem) matches Some(k) ==> 0 <= k < assets.len() && (assets[k].name@
            == stem + ".tar.gz"@ || assets[k].name@ == stem + ".zip"@),
        assets[i].name@ == stem + ".tar.gz"@ || assets[i].name@ == stem + ".zip"@ ==> (
        archive_in(assets, stem) matches Some(k) && k <= i),
        asset_in(assets, stem) matches Some(k) ==> 0 <= k < assets.len() && assets[k].name@ == stem,
        assets[i].name@ == stem ==> (asset_in(assets, stem) matches Some(k) && k <= i),
{
    let n = assets.len() as int;
    lemma_first(n, holds_archive(assets, stem));
    lemma_first(n, is_named(assets, stem));
    lemma_first(i + 1, holds_archive(assets, stem));
    lemma_first(i + 1, is_named(assets, stem));
    if holds_archive(assets, stem)(i) {
        lemma_found(i + 1, n, holds_archive(assets, stem));
    }
    if is_named(assets, stem)(i) {
        lemma_found(i + 1, n, is_named(assets, stem));
    }
}

/// Compares a checksum file with the digest of an archive: its first word, in
/// any case of letters, must be the digest in hexadecimal digits.
pub fn compare_checksum(asset: &str, text: &str, digest: &[u8]) -> (r: Result<(), ReleaseError>)
    ensures
        is_verdict(r, asset@, text@, digest@),
{
    let parts: Vec<Vec<char>> = words_of(chars_of(text).as_slice());
    let ghost models = words(text@);
    assert(models.len() == parts@.len());
    if parts.len() == 0 {
        return Err(ReleaseError::BadChecksum("empty checksum".to_owned()));
    }
    assert(models[0] == parts@[0]@);
    let expected: String = string_of(lower_chars(parts[0].as_slice()).as_slice());
    let actual: String = hex_of(digest);
    if !same_text(expected.as_str(), actual.as_str()) {
        return Err(ReleaseError::ChecksumMismatch { asset: asset.to_owned(), expected, actual });
    }
    Ok(())
}

/// Whether a downloaded archive is the one that its checksum file describes.
pub fn verify_archive(asset: &str, archive: &[u8], text: &str) -> (r: Result<(), ReleaseError>)
    ensures
        is_verdict(r, asset@, text@, sha256(archive@)),
{
    let digest: Vec<u8> = digest_of(archive);
    compare_checksum(asset, text, digest.as_slice())
}

} // verus!
