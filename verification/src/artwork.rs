use std::sync::mpsc::{Receiver, Sender};

use vstd::prelude::*;

use crate::channels::{send_to_worker, take_ready};
use crate::text::{ends_with, has_prefix, has_suffix, starts_with};

verus! {

/// Base address of RetroAchievements media.
pub const RETROACHIEVEMENTS_MEDIA: &'static str = "https://media.retroachievements.org";

/// Largest library artwork download accepted, in bytes (32 MiB).
pub const MAX_LIBRARY_ARTWORK_BYTES: u64 = 33554432;

/// `ResolveHash` marks known but unsupported revisions by adding this offset to
/// the game ID of the compatible achievement set.
pub const UNSUPPORTED_REVISION_OFFSET: u32 = 1100000000;

/// End (exclusive) of the range of game IDs that carry the offset.
pub const UNSUPPORTED_REVISION_END: u32 = 1200000000;

/// The game ID whose achievement set applies to `game_id`.
pub open spec fn canonical_game_id_spec(game_id: u32) -> u32 {
    if UNSUPPORTED_REVISION_OFFSET < game_id < UNSUPPORTED_REVISION_END {
        (game_id - UNSUPPORTED_REVISION_OFFSET) as u32
    } else {
        game_id
    }
}

/// Unwraps a game ID that `ResolveHash` reported for an unsupported revision to
/// the ID of the compatible set; other IDs are kept.
pub fn canonical_game_id(game_id: u32) -> (id: u32)
    ensures
        id == canonical_game_id_spec(game_id),
{
    if UNSUPPORTED_REVISION_OFFSET < game_id && game_id < UNSUPPORTED_REVISION_END {
        game_id - UNSUPPORTED_REVISION_OFFSET
    } else {
        game_id
    }
}

/// Law: a canonical game ID is its own canonical ID.
pub proof fn lemma_canonical_game_id_idempotent(game_id: u32)
    ensures
        canonical_game_id_spec(canonical_game_id_spec(game_id)) == canonical_game_id_spec(game_id),
{
}

/// One row of a RetroAchievements game list.
#[derive(Debug)]
pub struct GameTitle {
    pub id: u32,
    pub image_icon: String,
    pub image_url: String,
}

/// `s` without its leading slashes.
pub open spec fn without_leading_slashes(s: Seq<char>) -> Seq<char>
    decreases s.len(),
{
    if s.len() > 0 && s[0] == '/' {
        without_leading_slashes(s.drop_first())
    } else {
        s
    }
}

/// The part of `s` after its last slash (all of `s` when it has none).
pub open spec fn after_last_slash(s: Seq<char>) -> Seq<char>
    decreases s.len(),
{
    if s.len() == 0 {
        s
    } else if s.last() == '/' {
        Seq::empty()
    } else {
        after_last_slash(s.drop_last()).push(s.last())
    }
}

/// `s` with every trailing ".png" removed.
pub open spec fn without_png_suffixes(s: Seq<char>) -> Seq<char>
    decreases s.len(),
{
    if s.len() >= 4 && has_suffix(s, ".png"@) {
        without_png_suffixes(s.take(s.len() - 4))
    } else {
        s
    }
}

/// The artwork address for a game: its image URL when it has one (made absolute
/// under the media host), else the image named by its icon path, if any.
pub open spec fn game_artwork_url_spec(image_url: Seq<char>, image_icon: Seq<char>) -> Option<Seq<char>> {
    if image_url.len() > 0 {
        if has_prefix(image_url, "http://"@) || has_prefix(image_url, "https://"@) {
            Some(image_url)
        } else {
            Some(RETROACHIEVEMENTS_MEDIA@ + "/"@ + without_leading_slashes(image_url))
        }
    } else {
        let name = without_png_suffixes(after_last_slash(image_icon));
        if name.len() == 0 {
            None
        } else {
            Some(RETROACHIEVEMENTS_MEDIA@ + "/Images/"@ + name + ".png"@)
        }
    }
}

fn strip_leading_slashes(s: &str) -> (rest: &str)
    ensures
        rest@ == without_leading_slashes(s@),
{
    let n = s.unicode_len();
    let mut i: usize = 0;
    assert(s@.skip(0) =~= s@);
    while i < n && s.get_char(i) == '/'
        invariant
            n == s@.len(),
            i <= n,
            without_leading_slashes(s@) == without_leading_slashes(s@.skip(i as int)),
        decreases n - i,
    {
        assert(s@.skip(i as int).drop_first() =~= s@.skip(i + 1));
        i += 1;
    }
    let rest = s.substring_char(i, n);
    assert(rest@ =~= s@.skip(i as int));
    rest
}

fn last_path_segment(s: &str) -> (segment: &str)
    ensures
        segment@ == after_last_slash(s@),
{
    let n = s.unicode_len();
    let mut i: usize = n;
    assert(s@.take(n as int) =~= s@);
    assert(s@.subrange(n as int, n as int) =~= Seq::<char>::empty());
    assert(s@ + Seq::<char>::empty() =~= s@);
    while i > 0 && s.get_char(i - 1) != '/'
        invariant
            n == s@.len(),
            i <= n,
            after_last_slash(s@) == after_last_slash(s@.take(i as int)) + s@.subrange(i as int, n as int),
        decreases i,
    {
        let ghost t = s@.take(i as int);
        assert(t.drop_last() =~= s@.take(i - 1));
        assert(s@.subrange(i - 1, n as int) =~= seq![t.last()] + s@.subrange(i as int, n as int));
        assert(after_last_slash(t) == after_last_slash(t.drop_last()).push(t.last()));
        assert(after_last_slash(t.drop_last()).push(t.last()) + s@.subrange(i as int, n as int)
            =~= after_last_slash(t.drop_last()) + s@.subrange(i - 1, n as int));
        i -= 1;
    }
    proof {
        let t = s@.take(i as int);
        if i > 0 {
            assert(t.last() == '/');
        }
        assert(after_last_slash(t) =~= Seq::<char>::empty());
    }
    let segment = s.substring_char(i, n);
    assert(segment@ =~= after_last_slash(s@));
    segment
}

fn strip_png_suffixes(s: &str) -> (rest: &str)
    ensures
        rest@ == without_png_suffixes(s@),
{
    let mut current = s;
    while current.unicode_len() >= 4 && ends_with(current, ".png")
        invariant
            without_png_suffixes(s@) == without_png_suffixes(current@),
        decreases current@.len(),
    {
        let n = current.unicode_len();
        current = current.substring_char(0, n - 4);
    }
    current
}

/// The address of a game's artwork, if it names any.
pub fn game_artwork_url(game: &GameTitle) -> (url: Option<String>)
    ensures
        url matches Some(u) ==> game_artwork_url_spec(game.image_url@, game.image_icon@) == Some(u@),
        url is None ==> game_artwork_url_spec(game.image_url@, game.image_icon@) is None,
{
    let image_url = game.image_url.as_str();
    if image_url.unicode_len() > 0 {
        if starts_with(image_url, "http://") || starts_with(image_url, "https://") {
            return Some(game.image_url.clone());
        }
        let mut url = String::from_str(RETROACHIEVEMENTS_MEDIA);
        url.append("/");
        url.append(strip_leading_slashes(image_url));
        return Some(url);
    }
    let name = strip_png_suffixes(last_path_segment(game.image_icon.as_str()));
    if name.unicode_len() == 0 {
        None
    } else {
        let mut url = String::from_str(RETROACHIEVEMENTS_MEDIA);
        url.append("/Images/");
        url.append(name);
        url.append(".png");
        Some(url)
    }
}

/// The artwork address of the first listed game with ID `game_id`.
pub open spec fn artwork_url_for_game_spec(games: Seq<GameTitle>, game_id: u32) -> Option<Seq<char>> {
    if exists|i: int| 0 <= i < games.len() && games[i].id == game_id {
        let i = choose|i: int| 0 <= i < games.len() && games[i].id == game_id && forall|j: int| 0 <= j < i ==> games[j].id != game_id;
        game_artwork_url_spec(games[i].image_url@, games[i].image_icon@)
    } else {
        None
    }
}

/// Picks the first listed game with ID `game_id` and gives its artwork address.
pub fn artwork_url_for_game(games: &Vec<GameTitle>, game_id: u32) -> (url: Option<String>)
    ensures
        url matches Some(u) ==> artwork_url_for_game_spec(games@, game_id) == Some(u@),
        url is None ==> artwork_url_for_game_spec(games@, game_id) is None,
{
    let mut i: usize = 0;
    while i < games.len()
        invariant
            i <= games@.len(),
            forall|j: int| 0 <= j < i ==> games@[j].id != game_id,
        decreases games@.len() - i,
    {
        if games[i].id == game_id {
            let ghost k = choose|k: int| 0 <= k < games@.len() && games@[k].id == game_id && forall|j: int| 0 <= j < k ==> games@[j].id != game_id;
            proof {
                if k < i {
                    assert(games@[k].id != game_id);
                } else if k > i {
                    assert(games@[i as int].id != game_id);
                }
            }
            return game_artwork_url(&games[i]);
        }
        i += 1;
    }
    None
}

/// Whether an artwork download of `len` bytes is small enough to decode.
pub fn artwork_within_limit(len: u64) -> (ok: bool)
    ensures
        ok == (len <= MAX_LIBRARY_ARTWORK_BYTES),
{
    len <= MAX_LIBRARY_ARTWORK_BYTES
}

/// Decoded RGBA artwork or badge.
#[derive(Debug)]
pub struct BadgeImage {
    pub url: String,
    pub size: [usize; 2],
    pub rgba: Vec<u8>,
}

/// Library artwork is scaled, up or down, to fit this many pixels on each side.
pub const ARTWORK_THUMBNAIL_SIZE: u32 = 256;

/// Achievement badges are scaled, up or down, to fit this many pixels on each side.
pub const BADGE_THUMBNAIL_SIZE: u32 = 128;

/// Largest cover image file accepted, in bytes (32 MiB).
pub const MAX_COVER_FILE_BYTES: u64 = 33554432;

/// Largest width and height of a cover image, in pixels.
pub const MAX_COVER_SIDE: u32 = 8192;

/// Most memory the decoder may allocate for a cover image, in bytes (128 MiB).
pub const MAX_COVER_ALLOC: u64 = 134217728;

/// The width and height of the picture that `image::load_from_memory` decodes
/// from `bytes` (the format guessed from the bytes, default limits), or none when
/// they do not decode. This rests on the bytes alone; the pixels do not, as some
/// decoders pick their code at run time by the processor's features, so they
/// get no name.
pub uninterp spec fn decoded_size(bytes: Seq<u8>) -> Option<(nat, nat)>;

/// Whether `(w, h)` is what `thumbnail(max, max)` makes of a picture of `width`
/// by `height` pixels: the longer side becomes `max`, and the other keeps the
/// proportions, rounded to a whole pixel (less than one pixel off) and at least
/// one pixel.
pub open spec fn scaled_to_fit(width: nat, height: nat, max: nat, w: int, h: int) -> bool {
    if width >= height {
        &&& w == max
        &&& 1 <= h <= max
        &&& (h - 1) * width < height * max < (h + 1) * width
    } else {
        &&& h == max
        &&& 1 <= w <= max
        &&& (w - 1) * height < width * max < (w + 1) * height
    }
}

/// Decodes `bytes` with `image::load_from_memory`, scales the picture to the
/// largest size that fits `max` on each side with the same proportions (small
/// pictures are enlarged) with `DynamicImage::thumbnail(max, max)`, and converts
/// it with `to_rgba8`, giving width, height and RGBA pixels. Claims that it
/// succeeds exactly when the bytes decode (`decoded_size`); that the size is what
/// `thumbnail`'s size computation (`resize_dimensions`, in `f64`, whose rounding
/// error is far below half a pixel) makes of the decoded size, and never less
/// than one pixel nor more than `max`; and four bytes per pixel. Which pixels
/// come out, and the error text, are not stated.
#[verifier::external_body]
fn decode_thumbnail(bytes: &[u8], max: u32) -> (image: Result<(usize, usize, Vec<u8>), String>)
    requires
        max >= 1,
    ensures
        (image is Ok) == (decoded_size(bytes@) is Some),
        image is Ok ==> 1 <= image->Ok_0.0 <= max && 1 <= image->Ok_0.1 <= max
            && image->Ok_0.2@.len() == image->Ok_0.0 * image->Ok_0.1 * 4,
        image is Ok && decoded_size(bytes@).unwrap().0 >= 1 && decoded_size(bytes@).unwrap().1 >= 1 ==> scaled_to_fit(
            decoded_size(bytes@).unwrap().0,
            decoded_size(bytes@).unwrap().1,
            max as nat,
            image->Ok_0.0 as int,
            image->Ok_0.1 as int,
        ),
{
    let rgba = image::load_from_memory(bytes).map_err(|error| error.to_string())?.thumbnail(max, max).to_rgba8();
    Ok((rgba.width() as usize, rgba.height() as usize, rgba.into_raw()))
}

/// Decodes `bytes` with `image::ImageReader` (format guessed from the bytes, as
/// `load_from_memory` does), refusing pictures wider or taller than `max_side`
/// pixels or needing more than `max_alloc` bytes (`image::Limits`), and converts
/// the picture with `into_rgba8`. Claims what those stricter limits and the
/// conversion give: bytes that do not decode at all, or a picture over
/// `max_side` a side, fail; a success has the decoded size, within `max_side`,
/// with four bytes per pixel. Whether a picture within `max_side` stays within
/// `max_alloc` depends on each decoder's own buffers and is not stated; nor are
/// the pixels or the error text.
#[verifier::external_body]
fn decode_limited(bytes: &[u8], max_side: u32, max_alloc: u64) -> (image: Result<(usize, usize, Vec<u8>), String>)
    ensures
        decoded_size(bytes@) is None ==> image is Err,
        decoded_size(bytes@) is Some && (decoded_size(bytes@).unwrap().0 > max_side || decoded_size(bytes@).unwrap().1 > max_side)
            ==> image is Err,
        image is Ok ==> decoded_size(bytes@) == Some((image->Ok_0.0 as nat, image->Ok_0.1 as nat))
            && image->Ok_0.0 <= max_side && image->Ok_0.1 <= max_side
            && image->Ok_0.2@.len() == image->Ok_0.0 * image->Ok_0.1 * 4,
{
    let cursor = std::io::Cursor::new(bytes);
    let mut reader = image::ImageReader::new(cursor).with_guessed_format().map_err(|error| error.to_string())?;
    let mut limits = image::Limits::default();
    limits.max_image_width = Some(max_side);
    limits.max_image_height = Some(max_side);
    limits.max_alloc = Some(max_alloc);
    reader.limits(limits);
    let rgba = reader.decode().map_err(|error| error.to_string())?.into_rgba8();
    Ok((rgba.width() as usize, rgba.height() as usize, rgba.into_raw()))
}

/// Whether `image` is the picture `url` decoded to: its width, height and pixels.
pub open spec fn shows_picture(image: BadgeImage, url: Seq<char>, picture: (usize, usize, Seq<u8>)) -> bool {
    &&& image.url@ == url
    &&& image.size@ == seq![picture.0, picture.1]
    &&& image.rgba@ == picture.2
}

/// Builds the image for `url` from what the decoder gave, keeping its error.
pub fn picture_from_decoded(url: String, decoded: Result<(usize, usize, Vec<u8>), String>) -> (image: Result<
    BadgeImage,
    String,
>)
    ensures
        match decoded {
            Ok((width, height, rgba)) => image is Ok && shows_picture(image->Ok_0, url@, (width, height, rgba@)),
            Err(error) => image is Err && image->Err_0@ == error@,
        },
{
    match decoded {
        Ok((width, height, rgba)) => Ok(BadgeImage { url, size: [width, height], rgba }),
        Err(error) => Err(error),
    }
}

/// Whether `image` came from `url` and has a width and height of 1 to `max`
/// pixels with four bytes per pixel.
pub open spec fn fitted_picture(image: BadgeImage, url: Seq<char>, max: int) -> bool {
    &&& image.url@ == url
    &&& 1 <= image.size@[0] <= max
    &&& 1 <= image.size@[1] <= max
    &&& image.rgba@.len() == image.size@[0] * image.size@[1] * 4
}

/// Whether `image` has the size that scaling the picture `bytes` decode to,
/// to fit `max` a side, gives.
pub open spec fn fits_decoded(image: BadgeImage, bytes: Seq<u8>, max: nat) -> bool {
    &&& decoded_size(bytes) is Some
    &&& decoded_size(bytes).unwrap().0 >= 1 && decoded_size(bytes).unwrap().1 >= 1 ==> scaled_to_fit(
        decoded_size(bytes).unwrap().0,
        decoded_size(bytes).unwrap().1,
        max,
        image.size@[0] as int,
        image.size@[1] as int,
    )
}

/// The message for downloaded artwork over the size limit.
pub open spec fn artwork_too_large_text() -> Seq<char> {
    "library artwork is larger than 32 MiB"@
}

/// Turns downloaded library artwork into a picture scaled to fit
/// `ARTWORK_THUMBNAIL_SIZE` pixels a side; downloads over
/// `MAX_LIBRARY_ARTWORK_BYTES` are refused before decoding.
pub fn decode_library_artwork(url: String, bytes: &[u8]) -> (artwork: Result<BadgeImage, String>)
    ensures
        bytes@.len() > MAX_LIBRARY_ARTWORK_BYTES ==> artwork is Err && artwork->Err_0@ == artwork_too_large_text(),
        bytes@.len() <= MAX_LIBRARY_ARTWORK_BYTES ==> (artwork is Ok) == (decoded_size(bytes@) is Some),
        artwork is Ok ==> fitted_picture(artwork->Ok_0, url@, ARTWORK_THUMBNAIL_SIZE as int) && fits_decoded(
            artwork->Ok_0,
            bytes@,
            ARTWORK_THUMBNAIL_SIZE as nat,
        ),
{
    if !artwork_within_limit(bytes.len() as u64) {
        return Err(String::from_str("library artwork is larger than 32 MiB"));
    }
    let decoded = decode_thumbnail(bytes, ARTWORK_THUMBNAIL_SIZE);
    picture_from_decoded(url, decoded)
}

/// Turns a downloaded achievement badge into a picture scaled to fit
/// `BADGE_THUMBNAIL_SIZE` pixels a side, or nothing when it does not decode.
pub fn decode_badge(url: String, bytes: &[u8]) -> (badge: Option<BadgeImage>)
    ensures
        (badge is Some) == (decoded_size(bytes@) is Some),
        badge is Some ==> fitted_picture(badge->0, url@, BADGE_THUMBNAIL_SIZE as int) && fits_decoded(
            badge->0,
            bytes@,
            BADGE_THUMBNAIL_SIZE as nat,
        ),
{
    let decoded = decode_thumbnail(bytes, BADGE_THUMBNAIL_SIZE);
    match picture_from_decoded(url, decoded) {
        Ok(badge) => Some(badge),
        Err(_) => None,
    }
}

/// Whether a cover image file of `len` bytes is small enough to read and decode.
pub fn cover_file_within_limit(len: u64) -> (ok: bool)
    ensures
        ok == (len <= MAX_COVER_FILE_BYTES),
{
    len <= MAX_COVER_FILE_BYTES
}

/// The message for a cover image file over the size limit.
pub open spec fn cover_too_large_text() -> Seq<char> {
    "cover image is larger than 32 MiB"@
}

/// Takes the decoder's result for a cover image as its size and RGBA pixels.
pub fn cover_from_decoded(decoded: Result<(usize, usize, Vec<u8>), String>) -> (cover: Result<([usize; 2], Vec<u8>), String>)
    ensures
        match decoded {
            Ok((width, height, rgba)) => cover is Ok && cover->Ok_0.0@ == seq![width, height] && cover->Ok_0.1@ == rgba@,
            Err(error) => cover is Err && cover->Err_0@ == error@,
        },
{
    match decoded {
        Ok((width, height, rgba)) => Ok(([width, height], rgba)),
        Err(error) => Err(error),
    }
}

/// Decodes the bytes of a cover image file into its size and RGBA pixels.
/// Files over `MAX_COVER_FILE_BYTES` are refused; pictures over
/// `MAX_COVER_SIDE` pixels a side, or needing more than `MAX_COVER_ALLOC` bytes,
/// fail to decode.
pub fn decode_cover(bytes: &[u8]) -> (cover: Result<([usize; 2], Vec<u8>), String>)
    ensures
        bytes@.len() > MAX_COVER_FILE_BYTES ==> cover is Err && cover->Err_0@ == cover_too_large_text(),
        decoded_size(bytes@) is None ==> cover is Err,
        decoded_size(bytes@) is Some && (decoded_size(bytes@).unwrap().0 > MAX_COVER_SIDE || decoded_size(bytes@).unwrap().1
            > MAX_COVER_SIDE) ==> cover is Err,
        cover is Ok ==> decoded_size(bytes@) == Some((cover->Ok_0.0@[0] as nat, cover->Ok_0.0@[1] as nat))
            && cover->Ok_0.0@[0] <= MAX_COVER_SIDE && cover->Ok_0.0@[1] <= MAX_COVER_SIDE
            && cover->Ok_0.1@.len() == cover->Ok_0.0@[0] * cover->Ok_0.0@[1] * 4,
{
    if !cover_file_within_limit(bytes.len() as u64) {
        return Err(String::from_str("cover image is larger than 32 MiB"));
    }
    let decoded = decode_limited(bytes, MAX_COVER_SIDE, MAX_COVER_ALLOC);
    cover_from_decoded(decoded)
}

/// Where an artwork lookup for a ROM file stands, and what to do next.
pub enum ArtworkLookup {
    /// Ask `ResolveHash` for the game ID of this ROM hash.
    ResolveHash(String),
    /// Ask for the game list of this game ID.
    FetchTitles(u32),
    /// Start downloading the artwork at this address.
    Download(String),
    /// Read the body of the download from this address.
    ReadBody(String),
    /// The lookup is over: the artwork, none for an unknown game or a game
    /// without artwork, or why it failed.
    Finished(Result<Option<BadgeImage>, String>),
}

/// What the outside work of a lookup step gave back.
pub enum ArtworkReply {
    /// The game ID that `ResolveHash` reported.
    GameId(u32),
    /// The game list.
    Titles(Vec<GameTitle>),
    /// The announced length of the download, if any.
    Headers(Option<u64>),
    /// The downloaded bytes.
    Body(Vec<u8>),
}

/// Whether `reply` answers the step `lookup`.
pub open spec fn reply_fits(lookup: ArtworkLookup, reply: ArtworkReply) -> bool {
    match lookup {
        ArtworkLookup::ResolveHash(_) => reply is GameId,
        ArtworkLookup::FetchTitles(_) => reply is Titles,
        ArtworkLookup::Download(_) => reply is Headers,
        ArtworkLookup::ReadBody(_) => reply is Body,
        ArtworkLookup::Finished(_) => false,
    }
}

/// The message when a ROM image cannot be hashed.
pub open spec fn unhashable_rom_text() -> Seq<char> {
    "rcheevos could not hash the NES ROM"@
}

/// Starts a lookup from the ROM's RetroAchievements hash, if it has one.
pub fn start_artwork_lookup(hash: Option<String>) -> (lookup: ArtworkLookup)
    ensures
        match hash {
            Some(h) => lookup is ResolveHash && lookup->ResolveHash_0@ == h@,
            None => lookup is Finished && lookup->Finished_0 is Err && lookup->Finished_0->Err_0@
                == unhashable_rom_text(),
        },
{
    match hash {
        Some(h) => ArtworkLookup::ResolveHash(h),
        None => ArtworkLookup::Finished(Err(String::from_str("rcheevos could not hash the NES ROM"))),
    }
}

/// One step of an artwork lookup: the game ID is unwrapped from an unsupported
/// revision's offset and an unknown game (ID 0) ends the lookup with nothing; the
/// game list gives the artwork address of the game, or nothing; a download that
/// announces more than `MAX_LIBRARY_ARTWORK_BYTES` is refused before its body is
/// read; and the body is decoded with `decode_library_artwork`.
pub fn advance_artwork_lookup(lookup: ArtworkLookup, reply: ArtworkReply) -> (next: ArtworkLookup)
    requires
        reply_fits(lookup, reply),
    ensures
        lookup is ResolveHash ==> ({
            let id = canonical_game_id_spec(reply->GameId_0);
            if id == 0 {
                next is Finished && next->Finished_0 is Ok && next->Finished_0->Ok_0 is None
            } else {
                next is FetchTitles && next->FetchTitles_0 == id
            }
        }),
        lookup is FetchTitles ==> match artwork_url_for_game_spec(reply->Titles_0@, lookup->FetchTitles_0) {
            Some(url) => next is Download && next->Download_0@ == url,
            None => next is Finished && next->Finished_0 is Ok && next->Finished_0->Ok_0 is None,
        },
        lookup is Download ==> if reply->Headers_0 is Some && reply->Headers_0->0 > MAX_LIBRARY_ARTWORK_BYTES {
            next is Finished && next->Finished_0 is Err && next->Finished_0->Err_0@ == artwork_too_large_text()
        } else {
            next is ReadBody && next->ReadBody_0@ == lookup->Download_0@
        },
        lookup is ReadBody ==> next is Finished && ({
            let outcome = next->Finished_0;
            &&& reply->Body_0@.len() > MAX_LIBRARY_ARTWORK_BYTES ==> outcome is Err && outcome->Err_0@
                == artwork_too_large_text()
            &&& reply->Body_0@.len() <= MAX_LIBRARY_ARTWORK_BYTES ==> (outcome is Ok) == (decoded_size(reply->Body_0@) is Some)
            &&& outcome is Ok ==> outcome->Ok_0 is Some && fitted_picture(
                outcome->Ok_0->0,
                lookup->ReadBody_0@,
                ARTWORK_THUMBNAIL_SIZE as int,
            ) && fits_decoded(outcome->Ok_0->0, reply->Body_0@, ARTWORK_THUMBNAIL_SIZE as nat)
        }),
{
    match lookup {
        ArtworkLookup::ResolveHash(_) => match reply {
            ArtworkReply::GameId(resolved) => {
                let id = canonical_game_id(resolved);
                if id == 0 {
                    ArtworkLookup::Finished(Ok(None))
                } else {
                    ArtworkLookup::FetchTitles(id)
                }
            },
            _ => ArtworkLookup::Finished(Ok(None)),
        },
        ArtworkLookup::FetchTitles(id) => match reply {
            ArtworkReply::Titles(games) => match artwork_url_for_game(&games, id) {
                Some(url) => ArtworkLookup::Download(url),
                None => ArtworkLookup::Finished(Ok(None)),
            },
            _ => ArtworkLookup::Finished(Ok(None)),
        },
        ArtworkLookup::Download(url) => match reply {
            ArtworkReply::Headers(length) => {
                let refused = match length {
                    Some(len) => !artwork_within_limit(len),
                    None => false,
                };
                if refused {
                    ArtworkLookup::Finished(Err(String::from_str("library artwork is larger than 32 MiB")))
                } else {
                    ArtworkLookup::ReadBody(url)
                }
            },
            _ => ArtworkLookup::Finished(Ok(None)),
        },
        ArtworkLookup::ReadBody(url) => match reply {
            ArtworkReply::Body(bytes) => match decode_library_artwork(url, bytes.as_slice()) {
                Ok(image) => ArtworkLookup::Finished(Ok(Some(image))),
                Err(error) => ArtworkLookup::Finished(Err(error)),
            },
            _ => ArtworkLookup::Finished(Ok(None)),
        },
        ArtworkLookup::Finished(outcome) => ArtworkLookup::Finished(outcome),
    }
}

/// The outcome of one artwork lookup for a ROM file.
pub struct LibraryArtworkResult {
    /// The ROM path as the operating system encodes it.
    pub path: Vec<u8>,
    pub image: Option<BadgeImage>,
}

/// What happened to the loader's lookups, one event per step, for the contracts.
pub enum ArtworkEvent {
    /// `path` was handed to the worker; `delivered` is false when the worker was gone.
    Requested { path: Seq<u8>, delivered: bool },
    /// An answer for `path` was taken.
    Answered { path: Seq<u8> },
}

/// The event of handing `path` to the worker.
pub open spec fn requested(path: Seq<u8>, delivered: bool) -> ArtworkEvent {
    ArtworkEvent::Requested { path, delivered }
}

/// Whether `path` is among the waiting `pending` paths.
pub open spec fn path_pending(pending: Seq<Vec<u8>>, path: Seq<u8>) -> bool {
    exists|i: int| 0 <= i < pending.len() && pending[i]@ == path
}

/// The set of paths held in `pending`.
pub open spec fn pending_set(pending: Seq<Vec<u8>>) -> Set<Seq<u8>> {
    Set::new(|p: Seq<u8>| path_pending(pending, p))
}

/// The paths that wait for an answer after `events`: a delivered request adds its
/// path, an answer removes it, a request that was not delivered changes nothing.
pub open spec fn pending_after(events: Seq<ArtworkEvent>) -> Set<Seq<u8>>
    decreases events.len(),
{
    if events.len() == 0 {
        Set::empty()
    } else {
        let before = pending_after(events.drop_last());
        match events.last() {
            ArtworkEvent::Requested { path, delivered } => if delivered { before.insert(path) } else { before },
            ArtworkEvent::Answered { path } => before.remove(path),
        }
    }
}

/// Whether some request for `path` in `events` was delivered and no answer for
/// `path` came after it.
pub open spec fn delivered_unanswered(events: Seq<ArtworkEvent>, path: Seq<u8>) -> bool {
    exists|i: int|
        0 <= i < events.len() && #[trigger] events[i] == (ArtworkEvent::Requested { path, delivered: true })
            && forall|j: int| i < j < events.len() ==> events[j] != (ArtworkEvent::Answered { path })
}

/// The answer events for `results`, in their order.
pub open spec fn answered_events(results: Seq<LibraryArtworkResult>) -> Seq<ArtworkEvent> {
    results.map_values(|result: LibraryArtworkResult| ArtworkEvent::Answered { path: result.path@ })
}

/// The waiting paths of a loader with the events that led to them.
struct PendingRequests {
    paths: Vec<Vec<u8>>,
    events: Ghost<Seq<ArtworkEvent>>,
}

impl PendingRequests {
    /// No path waits twice, and the waiting paths are those that the events leave.
    spec fn wf(&self) -> bool {
        &&& forall|i: int, j: int| 0 <= i < self.paths@.len() && 0 <= j < self.paths@.len() && i != j
            ==> self.paths@[i]@ != self.paths@[j]@
        &&& pending_set(self.paths@) == pending_after(self.events@)
    }

    fn new() -> (state: Self)
        ensures
            state.wf(),
            state.events@ == Seq::<ArtworkEvent>::empty(),
    {
        let state = PendingRequests { paths: Vec::new(), events: Ghost(Seq::empty()) };
        assert(pending_set(state.paths@) =~= Set::<Seq<u8>>::empty());
        state
    }

    fn position(&self, path: &Vec<u8>) -> (index: Option<usize>)
        ensures
            index matches Some(i) ==> i < self.paths@.len() && self.paths@[i as int]@ == path@,
            index is None ==> !path_pending(self.paths@, path@),
    {
        let mut i: usize = 0;
        while i < self.paths.len()
            invariant
                i <= self.paths@.len(),
                forall|j: int| 0 <= j < i ==> self.paths@[j]@ != path@,
            decreases self.paths@.len() - i,
        {
            if self.paths[i] == *path {
                return Some(i);
            }
            i += 1;
        }
        None
    }

    fn record_request(&mut self, path: Vec<u8>, delivered: bool)
        requires
            old(self).wf(),
            !path_pending(old(self).paths@, path@),
        ensures
            final(self).wf(),
            final(self).events@ == old(self).events@.push(ArtworkEvent::Requested { path: path@, delivered }),
    {
        let ghost before = self.paths@;
        let ghost event = ArtworkEvent::Requested { path: path@, delivered };
        proof {
            assert(self.events@.push(event).drop_last() =~= self.events@);
        }
        self.events = Ghost(self.events@.push(event));
        if delivered {
            self.paths.push(path);
            proof {
                assert forall|i: int, j: int| 0 <= i < self.paths@.len() && 0 <= j < self.paths@.len() && i != j
                    implies self.paths@[i]@ != self.paths@[j]@ by {
                    if i < before.len() && j < before.len() {
                        assert(self.paths@[i] == before[i] && self.paths@[j] == before[j]);
                    } else if i < before.len() {
                        assert(self.paths@[i] == before[i]);
                    } else {
                        assert(self.paths@[j] == before[j]);
                    }
                }
                assert forall|p: Seq<u8>| path_pending(self.paths@, p) == (path_pending(before, p) || p == path@) by {
                    if path_pending(before, p) {
                        let k = choose|k: int| 0 <= k < before.len() && before[k]@ == p;
                        assert(self.paths@[k] == before[k]);
                    }
                    if p == path@ {
                        assert(self.paths@[before.len() as int]@ == p);
                    }
                    if path_pending(self.paths@, p) && p != path@ {
                        let k = choose|k: int| 0 <= k < self.paths@.len() && self.paths@[k]@ == p;
                        assert(k < before.len());
                        assert(before[k] == self.paths@[k]);
                    }
                }
                assert(pending_set(self.paths@) =~= pending_set(before).insert(path@));
            }
        }
    }

    fn record_answer(&mut self, path: &Vec<u8>)
        requires
            old(self).wf(),
        ensures
            final(self).wf(),
            final(self).events@ == old(self).events@.push(ArtworkEvent::Answered { path: path@ }),
            pending_set(final(self).paths@) == pending_set(old(self).paths@).remove(path@),
    {
        let ghost event = ArtworkEvent::Answered { path: path@ };
        proof {
            assert(self.events@.push(event).drop_last() =~= self.events@);
        }
        self.events = Ghost(self.events@.push(event));
        match self.position(path) {
            Some(i) => {
                let ghost before = self.paths@;
                let _removed = self.paths.remove(i);
                proof {
                    assert(self.paths@ =~= before.remove(i as int));
                    assert forall|a: int, b: int| 0 <= a < self.paths@.len() && 0 <= b < self.paths@.len() && a != b
                        implies self.paths@[a]@ != self.paths@[b]@ by {
                        let a0 = if a < i { a } else { a + 1 };
                        let b0 = if b < i { b } else { b + 1 };
                        assert(self.paths@[a] == before[a0] && self.paths@[b] == before[b0]);
                    }
                    assert forall|p: Seq<u8>| path_pending(self.paths@, p) == (path_pending(before, p) && p != path@) by {
                        if path_pending(self.paths@, p) {
                            let k = choose|k: int| 0 <= k < self.paths@.len() && self.paths@[k]@ == p;
                            let k0 = if k < i { k } else { k + 1 };
                            assert(self.paths@[k] == before[k0]);
                        }
                        if path_pending(before, p) && p != path@ {
                            let k = choose|k: int| 0 <= k < before.len() && before[k]@ == p;
                            assert(k != i);
                            let k1 = if k < i { k } else { k - 1 };
                            assert(self.paths@[k1] == before[k]);
                        }
                    }
                    assert(pending_set(self.paths@) =~= pending_set(before).remove(path@));
                }
            },
            None => {
                assert(pending_set(self.paths@) =~= pending_set(self.paths@).remove(path@));
            },
        }
    }
}

/// Requests artwork lookups from a background worker, remembering which ROM
/// paths are still waiting for an answer.
pub struct LibraryArtworkLoader {
    request_tx: Sender<Vec<u8>>,
    result_rx: Receiver<LibraryArtworkResult>,
    pending: PendingRequests,
}

impl LibraryArtworkLoader {
    #[verifier::type_invariant]
    spec fn consistent(&self) -> bool {
        self.pending.wf()
    }

    /// The ROM paths that wait for an answer.
    pub closed spec fn pending_paths(&self) -> Set<Seq<u8>> {
        pending_set(self.pending.paths@)
    }

    /// Every request handed to the worker and every answer taken, in order.
    pub closed spec fn history(&self) -> Seq<ArtworkEvent> {
        self.pending.events@
    }

    /// The channel on which requests go to the worker.
    pub closed spec fn request_channel(&self) -> Sender<Vec<u8>> {
        self.request_tx
    }

    /// The channel from which the worker's answers are read.
    pub closed spec fn result_channel(&self) -> Receiver<LibraryArtworkResult> {
        self.result_rx
    }

    /// A loader that sends requests on `request_tx` and reads answers from
    /// `result_rx`, with nothing pending and nothing handed to the worker yet.
    pub fn with_channels(request_tx: Sender<Vec<u8>>, result_rx: Receiver<LibraryArtworkResult>) -> (loader: Self)
        ensures
            loader.pending_paths() == Set::<Seq<u8>>::empty(),
            loader.history() == Seq::<ArtworkEvent>::empty(),
            loader.request_channel() == request_tx,
            loader.result_channel() == result_rx,
    {
        LibraryArtworkLoader { request_tx, result_rx, pending: PendingRequests::new() }
    }

    /// The message to hand the worker for the ROM at `path`: the path itself, or
    /// none while a request for it is pending, so that no path is looked up twice
    /// at once.
    pub fn lookup_message(&self, path: &Vec<u8>) -> (message: Option<Vec<u8>>)
        ensures
            (message is Some) == !self.pending_paths().contains(path@),
            message is Some ==> message->0@ == path@,
    {
        proof { use_type_invariant(self); }
        if self.pending.position(path).is_some() {
            None
        } else {
            let message = path.clone();
            proof {
                assert(message@ =~= path@);
            }
            Some(message)
        }
    }

    /// Asks the worker for the artwork of the ROM at `path` unless a request for
    /// it is still pending: the `lookup_message` for the path is handed to the
    /// worker on the request channel, and the path then waits, unless the worker
    /// was gone.
    pub fn request(&mut self, path: Vec<u8>)
        ensures
            old(self).pending_paths().contains(path@) ==> final(self).pending_paths() == old(self).pending_paths()
                && final(self).history() == old(self).history(),
            !old(self).pending_paths().contains(path@) ==> exists|delivered: bool|
                final(self).history() == old(self).history().push(#[trigger] requested(path@, delivered))
                && final(self).pending_paths() == if delivered {
                    old(self).pending_paths().insert(path@)
                } else {
                    old(self).pending_paths()
                },
            final(self).pending_paths() == pending_after(final(self).history()),
            final(self).request_channel() == old(self).request_channel(),
            final(self).result_channel() == old(self).result_channel(),
    {
        proof { use_type_invariant(&*self); }
        match self.lookup_message(&path) {
            None => {},
            Some(message) => {
                let delivered = send_to_worker(&self.request_tx, message);
                self.settle_request(path, delivered);
            },
        }
    }

    /// Records the outcome of handing `path`, which was not waiting, to the
    /// worker: a delivered request waits for its answer, one that found the worker
    /// gone does not.
    pub fn settle_request(&mut self, path: Vec<u8>, delivered: bool)
        requires
            !old(self).pending_paths().contains(path@),
        ensures
            final(self).history() == old(self).history().push(requested(path@, delivered)),
            final(self).pending_paths() == if delivered {
                old(self).pending_paths().insert(path@)
            } else {
                old(self).pending_paths()
            },
            final(self).pending_paths() == pending_after(final(self).history()),
            final(self).request_channel() == old(self).request_channel(),
            final(self).result_channel() == old(self).result_channel(),
    {
        proof { use_type_invariant(&*self); }
        let ghost old_events = self.pending.events@;
        let mut state = PendingRequests::new();
        std::mem::swap(&mut state, &mut self.pending);
        state.record_request(path, delivered);
        self.pending = state;
        proof {
            assert(self.history().drop_last() =~= old_events);
        }
    }

    /// Takes the answers that the worker has finished; their paths no longer wait.
    pub fn take_results(&mut self) -> (results: Vec<LibraryArtworkResult>)
        ensures
            final(self).history() == old(self).history() + answered_events(results@),
            forall|p: Seq<u8>| #[trigger] final(self).pending_paths().contains(p) == (old(self).pending_paths().contains(p)
                && forall|i: int| 0 <= i < results@.len() ==> results@[i].path@ != p),
            final(self).pending_paths() == pending_after(final(self).history()),
            final(self).request_channel() == old(self).request_channel(),
            final(self).result_channel() == old(self).result_channel(),
    {
        proof { use_type_invariant(&*self); }
        let results = take_ready(&self.result_rx);
        let mut state = PendingRequests::new();
        std::mem::swap(&mut state, &mut self.pending);
        let ghost start = state;
        let mut i: usize = 0;
        while i < results.len()
            invariant
                i <= results@.len(),
                state.wf(),
                state.events@ == start.events@ + answered_events(results@.take(i as int)),
                forall|p: Seq<u8>| #[trigger] pending_set(state.paths@).contains(p) == (pending_set(start.paths@).contains(p)
                    && forall|j: int| 0 <= j < i ==> results@[j].path@ != p),
            decreases results@.len() - i,
        {
            let ghost before = pending_set(state.paths@);
            state.record_answer(&results[i].path);
            proof {
                assert(answered_events(results@.take(i + 1)) =~= answered_events(results@.take(i as int)).push(
                    ArtworkEvent::Answered { path: results@[i as int].path@ },
                ));
                assert forall|p: Seq<u8>| #[trigger] pending_set(state.paths@).contains(p) == (pending_set(start.paths@).contains(p)
                    && forall|j: int| 0 <= j < i + 1 ==> results@[j].path@ != p) by {
                    assert(before.contains(p) == (pending_set(start.paths@).contains(p) && forall|j: int| 0 <= j < i ==> results@[j].path@ != p));
                    if !(forall|j: int| 0 <= j < i + 1 ==> results@[j].path@ != p) {
                        let j = choose|j: int| 0 <= j < i + 1 && results@[j].path@ == p;
                        if j < i {
                            assert(!before.contains(p));
                        }
                    }
                }
            }
            i += 1;
        }
        proof {
            assert(results@.take(results@.len() as int) =~= results@);
        }
        self.pending = state;
        results
    }

    /// Whether any lookup is still waiting for an answer: exactly when some
    /// delivered request has had no answer since.
    pub fn has_pending(&self) -> (waiting: bool)
        ensures
            waiting == (self.pending_paths() != Set::<Seq<u8>>::empty()),
            waiting == exists|p: Seq<u8>| #[trigger] delivered_unanswered(self.history(), p),
    {
        proof { use_type_invariant(self); }
        let waiting = self.pending.paths.len() > 0;
        proof {
            if waiting {
                let p = self.pending.paths@[0]@;
                assert(self.pending_paths().contains(p));
                lemma_pending_means_delivered_unanswered(self.history(), p);
                assert(delivered_unanswered(self.history(), p));
            } else {
                assert(self.pending_paths() =~= Set::<Seq<u8>>::empty());
                assert forall|p: Seq<u8>| !#[trigger] delivered_unanswered(self.history(), p) by {
                    lemma_pending_means_delivered_unanswered(self.history(), p);
                }
            }
        }
        waiting
    }
}

/// Law: a path waits for artwork exactly while a request for it was delivered
/// and no answer for it has been taken since.
pub proof fn lemma_pending_means_delivered_unanswered(events: Seq<ArtworkEvent>, path: Seq<u8>)
    ensures
        pending_after(events).contains(path) == delivered_unanswered(events, path),
    decreases events.len(),
{
    if events.len() > 0 {
        let earlier = events.drop_last();
        let n = events.len() - 1;
        lemma_pending_means_delivered_unanswered(earlier, path);
        let requested = ArtworkEvent::Requested { path, delivered: true };
        let answered = ArtworkEvent::Answered { path };
        if events.last() == requested {
            assert(events[n] == requested);
        } else if events.last() == answered {
            if delivered_unanswered(events, path) {
                let i = choose|i: int|
                    0 <= i < events.len() && #[trigger] events[i] == requested
                        && forall|j: int| i < j < events.len() ==> events[j] != answered;
                assert(i != n);
                assert(events[n] != answered);
            }
        } else {
            if delivered_unanswered(earlier, path) {
                let i = choose|i: int|
                    0 <= i < earlier.len() && #[trigger] earlier[i] == requested
                        && forall|j: int| i < j < earlier.len() ==> earlier[j] != answered;
                assert(events[i] == requested);
                assert forall|j: int| i < j < events.len() implies events[j] != answered by {
                    if j < n {
                        assert(events[j] == earlier[j]);
                    }
                }
            }
            if delivered_unanswered(events, path) {
                let i = choose|i: int|
                    0 <= i < events.len() && #[trigger] events[i] == requested
                        && forall|j: int| i < j < events.len() ==> events[j] != answered;
                assert(i != n);
                assert(earlier[i] == requested);
                assert forall|j: int| i < j < earlier.len() implies earlier[j] != answered by {
                    assert(events[j] == earlier[j]);
                }
            }
            match events.last() {
                ArtworkEvent::Requested { path: q, delivered } => {
                    assert(!(q == path && delivered));
                },
                ArtworkEvent::Answered { path: q } => {
                    assert(q != path);
                },
            }
        }
    }
}

/// Law: a path stops waiting once an answer for it has been taken.
pub proof fn lemma_answered_path_stops_waiting(
    before: Set<Seq<u8>>,
    after: Set<Seq<u8>>,
    results: Seq<LibraryArtworkResult>,
    k: int,
)
    requires
        0 <= k < results.len(),
        forall|p: Seq<u8>| #[trigger] after.contains(p) == (before.contains(p) && forall|i: int| 0 <= i < results.len()
            ==> results[i].path@ != p),
    ensures
        !after.contains(results[k].path@),
{
}

} // verus!
