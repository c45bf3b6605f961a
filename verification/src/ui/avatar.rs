//! Pictures of devices: the square that is cut out of one, which cut pictures are
//! remembered, and the picture that is sent to peers.
use crate::api::DeviceProfile;
use crate::api::PeerAvatar;
use crate::history::worker::pixels_fit;
use crate::text::blank;
use crate::text::is_blank;
use crate::ui::settings::PresentationSettings;
use vstd::prelude::*;

verus! {

/// The longest edge of a cut picture.
pub const MAX_AVATAR_EDGE: u32 = 256;

/// The shortest edge of a cut picture: a smaller one is blown up.
pub const MIN_AVATAR_EDGE: u32 = 64;

/// How many cut pictures are remembered.
pub const AVATAR_CACHE_LIMIT: usize = 64;

/// The square in the middle of a picture, and the edge that it is scaled to.
#[derive(Clone, Copy, Debug, PartialEq, Eq, Structural)]
pub struct Frame {
    /// The edge of the square.
    pub crop: u32,
    /// What lies beside it, on both sides together.
    pub beside: u32,
    /// What lies above and below it together.
    pub around: u32,
    /// The edge of the result.
    pub edge: u32,
}

pub open spec fn frame_of(width: u32, height: u32) -> Option<Frame> {
    let crop = if width < height {
        width
    } else {
        height
    };
    if crop == 0 {
        None
    } else {
        Some(
            Frame {
                crop,
                beside: (width - crop) as u32,
                around: (height - crop) as u32,
                edge: if crop < MIN_AVATAR_EDGE {
                    MIN_AVATAR_EDGE
                } else if crop > MAX_AVATAR_EDGE {
                    MAX_AVATAR_EDGE
                } else {
                    crop
                },
            },
        )
    }
}

/// The square that is cut out of a picture; an empty picture has none.
pub fn frame(width: u32, height: u32) -> (f: Option<Frame>)
    ensures
        f == frame_of(width, height),
{
    let crop: u32 = if width < height {
        width
    } else {
        height
    };
    if crop == 0 {
        return None;
    }
    let edge: u32 = if crop < MIN_AVATAR_EDGE {
        MIN_AVATAR_EDGE
    } else if crop > MAX_AVATAR_EDGE {
        MAX_AVATAR_EDGE
    } else {
        crop
    };
    Some(Frame { crop, beside: width - crop, around: height - crop, edge })
}

/// A cut picture is a square whose edge is within its bounds, and the square it
/// shows lies inside the picture.
pub proof fn law_frames_are_bounded(width: u32, height: u32)
    ensures
        frame_of(width, height) is None <==> width == 0 || height == 0,
        frame_of(width, height) matches Some(f) ==> {
            &&& MIN_AVATAR_EDGE <= f.edge <= MAX_AVATAR_EDGE
            &&& f.crop + f.beside == width
            &&& f.crop + f.around == height
            &&& f.beside == 0 || f.around == 0
        },
{
}

/// Which pictures were cut, oldest first: the picture, and what was made of it.
#[derive(Debug)]
pub struct AvatarCache {
    pub entries: Vec<(u64, u64)>,
}

impl View for AvatarCache {
    type V = Seq<(u64, u64)>;

    open spec fn view(&self) -> Seq<(u64, u64)> {
        self.entries@
    }
}

/// What the oldest entry of a picture holds.
pub open spec fn cut_of(entries: Seq<(u64, u64)>, source: u64) -> Option<u64>
    decreases entries.len(),
{
    if entries.len() == 0 {
        None
    } else if entries[0].0 == source {
        Some(entries[0].1)
    } else {
        cut_of(entries.drop_first(), source)
    }
}

/// The entries after a picture was cut: it is remembered unless it is large, and
/// the oldest one leaves where there is no room.
pub open spec fn kept(
    entries: Seq<(u64, u64)>,
    source: u64,
    width: u32,
    height: u32,
    rounded: u64,
) -> Seq<(u64, u64)> {
    if width > MAX_AVATAR_EDGE || height > MAX_AVATAR_EDGE {
        entries
    } else if entries.len() >= AVATAR_CACHE_LIMIT {
        entries.drop_first().push((source, rounded))
    } else {
        entries.push((source, rounded))
    }
}

impl AvatarCache {
    /// Nothing was cut yet.
    pub fn new() -> (c: AvatarCache)
        ensures
            c@ == Seq::<(u64, u64)>::empty(),
    {
        AvatarCache { entries: Vec::new() }
    }

    /// What was made of a picture before.
    pub fn find(&self, source: u64) -> (r: Option<u64>)
        ensures
            r == cut_of(self@, source),
    {
        let mut i: usize = 0;
        assert(self@.skip(0) =~= self@);
        while i < self.entries.len()
            invariant
                i <= self@.len(),
                cut_of(self@, source) == cut_of(self@.skip(i as int), source),
            decreases self@.len() - i,
        {
            if self.entries[i].0 == source {
                return Some(self.entries[i].1);
            }
            assert(self@.skip(i as int).drop_first() =~= self@.skip(i + 1));
            i = i + 1;
        }
        None
    }

    /// Takes in what was made of a picture of the given size.
    pub fn keep(&mut self, source: u64, width: u32, height: u32, rounded: u64)
        ensures
            final(self)@ == kept(old(self)@, source, width, height, rounded),
    {
        if width > MAX_AVATAR_EDGE || height > MAX_AVATAR_EDGE {
            return;
        }
        if self.entries.len() >= AVATAR_CACHE_LIMIT {
            self.entries.remove(0);
            assert(self.entries@ =~= old(self)@.drop_first());
        }
        self.entries.push((source, rounded));
    }
}

/// No more pictures are remembered than there is room for.
pub proof fn law_avatars_are_bounded(
    entries: Seq<(u64, u64)>,
    source: u64,
    width: u32,
    height: u32,
    rounded: u64,
)
    requires
        entries.len() <= AVATAR_CACHE_LIMIT,
    ensures
        kept(entries, source, width, height, rounded).len() <= AVATAR_CACHE_LIMIT,
{
}

/// A small picture that was cut just now is not cut again.
pub proof fn law_small_avatars_are_remembered(
    entries: Seq<(u64, u64)>,
    source: u64,
    width: u32,
    height: u32,
    rounded: u64,
)
    requires
        width <= MAX_AVATAR_EDGE,
        height <= MAX_AVATAR_EDGE,
        cut_of(entries, source) is None,
    ensures
        cut_of(kept(entries, source, width, height, rounded), source) == Some(rounded),
{
    let front = if entries.len() >= AVATAR_CACHE_LIMIT {
        entries.drop_first()
    } else {
        entries
    };
    lemma_found_behind(front, source, rounded);
}

proof fn lemma_found_behind(entries: Seq<(u64, u64)>, source: u64, rounded: u64)
    requires
        cut_of(entries, source) is None,
    ensures
        cut_of(entries.push((source, rounded)), source) == Some(rounded),
    decreases entries.len(),
{
    let all = entries.push((source, rounded));
    if entries.len() == 0 {
        assert(all[0] == (source, rounded));
    } else {
        assert(all[0] == entries[0]);
        assert(all.drop_first() =~= entries.drop_first().push((source, rounded)));
        lemma_found_behind(entries.drop_first(), source, rounded);
    }
}

// ---------------------------------------------------------------------------
// What is sent
// ---------------------------------------------------------------------------

/// The longest edge of a picture that is sent.
pub const MAX_SENT_EDGE: u32 = 128;

/// The most bytes of a picture that is read.
pub const MAX_PICTURE_BYTES: usize = 1_000_000_000;

/// What `image` makes of RGBA pixels that are scaled to a square of an edge.
pub uninterp spec fn shrunk(rgba: Seq<u8>, width: u32, height: u32, edge: u32) -> Seq<u8>;

/// `image::RgbaImage::from_raw`, then `image::imageops::thumbnail` to a square of
/// the given edge. The first gives nothing exactly where the bytes are fewer than
/// four for each pixel, or those of a line cannot be counted; the second has four
/// bytes for each pixel of the square. The colours are left to the name. The bounds keep the sums that `thumbnail`
/// averages with, which have 32 bits, from overflowing.
#[verifier::external_body]
fn shrink(rgba: Vec<u8>, width: u32, height: u32, edge: u32) -> (r: Option<Vec<u8>>)
    requires
        128 <= edge <= 4096,
        rgba@.len() <= MAX_PICTURE_BYTES,
    ensures
        r is Some <==> pixels_fit(width, height, rgba@.len()),
        r matches Some(s) ==> s@ == shrunk(rgba@, width, height, edge) && s@.len() == 4 * edge
            * edge,
{
    let whole = image::RgbaImage::from_raw(width, height, rgba)?;
    Some(image::imageops::thumbnail(&whole, edge, edge).into_raw())
}

/// The picture that is sent of some pixels: they are scaled down where an edge is
/// too long, else sent as they are.
pub open spec fn sends_picture(a: PeerAvatar, width: u32, height: u32, rgba: Seq<u8>) -> bool {
    if width > MAX_SENT_EDGE || height > MAX_SENT_EDGE {
        a.width == MAX_SENT_EDGE && a.height == MAX_SENT_EDGE && a.rgba@ == shrunk(
            rgba,
            width,
            height,
            MAX_SENT_EDGE,
        ) && a.rgba@.len() == 4 * MAX_SENT_EDGE * MAX_SENT_EDGE
    } else {
        a.width == width && a.height == height && a.rgba@ == rgba
    }
}

/// The picture that is sent of some pixels, where there are four bytes for each.
pub fn sent_avatar(width: u32, height: u32, rgba: Vec<u8>) -> (r: Option<PeerAvatar>)
    requires
        rgba@.len() <= MAX_PICTURE_BYTES,
    ensures
        r is Some <==> pixels_fit(width, height, rgba@.len()),
        r matches Some(a) ==> sends_picture(a, width, height, rgba@),
{
    if width > MAX_SENT_EDGE || height > MAX_SENT_EDGE {
        return match shrink(rgba, width, height, MAX_SENT_EDGE) {
            Some(rgba) => Some(PeerAvatar { width: MAX_SENT_EDGE, height: MAX_SENT_EDGE, rgba }),
            None => None,
        };
    }
    assert(width * height <= 128 * 128) by (nonlinear_arith)
        requires
            width <= 128,
            height <= 128,
    ;
    if 4 * (width as usize * height as usize) <= rgba.len() {
        assert(4 * (width * height) == 4 * width * height) by (nonlinear_arith);
        Some(PeerAvatar { width, height, rgba })
    } else {
        assert(4 * (width * height) == 4 * width * height) by (nonlinear_arith);
        None
    }
}

/// A picture as it is read.
#[derive(Debug, PartialEq, Eq)]
pub struct Picture {
    pub width: u32,
    pub height: u32,
    pub rgba: Vec<u8>,
}

/// What was found in the file that the user chose.
#[derive(Debug, PartialEq, Eq)]
pub enum ChosenPicture {
    /// It cannot be loaded; the text says why.
    Unloaded(String),
    /// It was loaded, but has no pixels that can be read.
    Unreadable,
    Read(Picture),
}

/// The name that is sent: what the user called the device, unless that is blank,
/// else the name of the host, or why there is none.
pub open spec fn sent_name(friendly: Seq<char>, host: Result<String, String>) -> Result<
    Seq<char>,
    Seq<char>,
> {
    if !blank(friendly) {
        Ok(friendly)
    } else {
        match host {
            Ok(host) => Ok(host@),
            Err(error) => Err(error@),
        }
    }
}

/// The picture that is sent, where the user chose one, or why it cannot be.
pub open spec fn avatar_of(
    a: Result<Option<PeerAvatar>, Seq<char>>,
    chosen: bool,
    picture: ChosenPicture,
) -> bool {
    if !chosen {
        a matches Ok(None)
    } else {
        match picture {
            ChosenPicture::Unloaded(error) => a matches Err(text) && text
                == "Cannot load saved device avatar: "@ + error@,
            ChosenPicture::Unreadable => a matches Err(text) && text
                == "Cannot read device avatar pixels"@,
            ChosenPicture::Read(p) => if pixels_fit(p.width, p.height, p.rgba@.len()) {
                a matches Ok(Some(sent)) && sends_picture(sent, p.width, p.height, p.rgba@)
            } else {
                a matches Err(text) && text == "Invalid device avatar pixels"@
            },
        }
    }
}

/// How this device would present itself to its peers, before anything is checked:
/// its name comes first, then its picture. `host` is the name of the host, `picture`
/// what was found in the file that the user chose.
pub fn draft_profile(
    settings: &PresentationSettings,
    host: Result<String, String>,
    picture: ChosenPicture,
) -> (r: Result<DeviceProfile, String>)
    requires
        picture matches ChosenPicture::Read(p) ==> p.rgba@.len() <= MAX_PICTURE_BYTES,
    ensures
        ({
            let name = sent_name(settings@.local_device.friendly_name, host);
            let chosen = settings@.local_device.image_path.len() > 0;
            match r {
                Ok(profile) => name == Ok::<Seq<char>, Seq<char>>(profile.display_name@)
                    && avatar_of(Ok(profile.avatar), chosen, picture),
                Err(text) => match name {
                    Err(error) => text@ == error,
                    Ok(_) => avatar_of(Err(text@), chosen, picture),
                },
            }
        }),
{
    let display_name: String = if !is_blank(settings.local_device.friendly_name.as_str()) {
        settings.local_device.friendly_name.clone()
    } else {
        match host {
            Ok(host) => host,
            Err(error) => {
                return Err(error);
            },
        }
    };
    if settings.local_device.image_path.as_str().unicode_len() == 0 {
        return Ok(DeviceProfile { display_name, avatar: None });
    }
    match picture {
        ChosenPicture::Unloaded(error) => {
            let mut text: String = "Cannot load saved device avatar: ".to_owned();
            text.push_str(error.as_str());
            Err(text)
        },
        ChosenPicture::Unreadable => Err("Cannot read device avatar pixels".to_owned()),
        ChosenPicture::Read(picture) => match sent_avatar(picture.width, picture.height, picture.rgba) {
            Some(avatar) => Ok(DeviceProfile { display_name, avatar: Some(avatar) }),
            None => Err("Invalid device avatar pixels".to_owned()),
        },
    }
}

/// How this device presents itself to its peers. `check` is what the rules of the
/// daemon say of the draft, where there is one: what they refuse is not sent.
pub fn local_device_profile(
    draft: Result<DeviceProfile, String>,
    check: Result<(), String>,
) -> (r: Result<DeviceProfile, String>)
    ensures
        r == (match (draft, check) {
            (Ok(_), Err(error)) => Err(error),
            _ => draft,
        }),
{
    match draft {
        Ok(profile) => match check {
            Ok(_) => Ok(profile),
            Err(error) => Err(error),
        },
        Err(error) => Err(error),
    }
}

/// No picture that is sent has an edge that is too long.
pub proof fn law_sent_pictures_are_small(a: PeerAvatar, width: u32, height: u32, rgba: Seq<u8>)
    requires
        sends_picture(a, width, height, rgba),
    ensures
        a.width <= MAX_SENT_EDGE,
        a.height <= MAX_SENT_EDGE,
        rgba.len() == 4 * width * height ==> a.rgba@.len() == 4 * a.width * a.height,
{
}

} // verus!
