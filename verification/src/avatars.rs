//! Avatars: which pictures are accepted, how they are normalized, and how they are stored as text.
use crate::crypto::{self, digest, hex};
use crate::profiles::{ProfileError, AVATAR_SIZE, MAX_AVATAR_INPUT_BYTES, MAX_AVATAR_PIXELS};
use crate::text::same_text;
use crate::urls::{self, url_parts, UrlParts, UrlView};
use vstd::prelude::*;

verus! {

/// What an image file is, by its first bytes.
#[derive(Debug, Clone, Copy, PartialEq, Eq, Structural)]
pub enum ImageKind {
    Jpeg,
    Png,
    WebP,
    Other,
}

/// The kind of image that `image::ImageReader` guesses from the bytes.
pub uninterp spec fn image_kind_of(bytes: Seq<u8>) -> Option<ImageKind>;

/// `image::ImageReader::with_guessed_format` and `format`: the format that the first bytes show,
/// if they show one. A function of the bytes alone.
#[verifier::external_body]
fn image_kind(bytes: &[u8]) -> (kind: Option<ImageKind>)
    ensures
        kind == image_kind_of(bytes@),
{
    image::ImageReader::new(std::io::Cursor::new(bytes))
        .with_guessed_format()
        .ok()
        .and_then(|reader| reader.format())
        .map(|format| match format {
            image::ImageFormat::Jpeg => ImageKind::Jpeg,
            image::ImageFormat::Png => ImageKind::Png,
            image::ImageFormat::WebP => ImageKind::WebP,
            _ => ImageKind::Other,
        })
}

/// The width and height of the image that `image::ImageReader::decode` reads from the bytes.
pub uninterp spec fn decoded_size_of(bytes: Seq<u8>) -> Option<(u32, u32)>;

/// `image::ImageReader::decode` in the guessed format: the image's width and height, or nothing
/// where the bytes cannot be decoded. A function of the bytes alone.
#[verifier::external_body]
fn decoded_size(bytes: &[u8]) -> (size: Option<(u32, u32)>)
    ensures
        size == decoded_size_of(bytes@),
{
    image::ImageReader::new(std::io::Cursor::new(bytes))
        .with_guessed_format()
        .ok()
        .and_then(|reader| reader.decode().ok())
        .map(|picture| (picture.width(), picture.height()))
}

/// Whether a picture is of a kind that avatars are made from.
pub open spec fn accepted_kind(kind: Option<ImageKind>) -> bool {
    kind == Some(ImageKind::Jpeg) || kind == Some(ImageKind::Png) || kind == Some(ImageKind::WebP)
}

/// `image::DynamicImage::resize_to_fill` with the Lanczos filter and `write_to` in PNG: a PNG of
/// exactly the wanted size. JPEG, PNG and WebP pictures decode to colours of 8 or 16 bits, all of
/// which PNG takes, and writing to memory does not fail. The pixels are left open: the filter
/// computes with floating point. Scaling a picture without pixels, or one whose scaled sides
/// exceed 32 bits, goes wrong inside `resize_to_fill`.
#[verifier::external_body]
fn png_thumbnail(bytes: &[u8], size: u32) -> (png: Option<Vec<u8>>)
    requires
        0 < size <= 4096,
        accepted_kind(image_kind_of(bytes@)),
        decoded_size_of(bytes@) matches Some((width, height)) && 0 < width && 0 < height && width
            * size <= u32::MAX && height * size <= u32::MAX,
    ensures
        png is Some,
        png matches Some(png) ==> image_kind_of(png@) == Some(ImageKind::Png) && decoded_size_of(
            png@,
        ) == Some((size, size)),
{
    let picture = image::ImageReader::new(std::io::Cursor::new(bytes))
        .with_guessed_format()
        .ok()
        .and_then(|reader| reader.decode().ok())?;
    let mut png: Vec<u8> = Vec::new();
    picture
        .resize_to_fill(size, size, image::imageops::FilterType::Lanczos3)
        .write_to(&mut std::io::Cursor::new(&mut png), image::ImageFormat::Png)
        .ok()?;
    Some(png)
}

/// The character of the standard Base64 alphabet for a value below 64.
pub open spec fn base64_char(value: int) -> char {
    if value < 26 {
        (65 + value) as u8 as char
    } else if value < 52 {
        (71 + value) as u8 as char
    } else if value < 62 {
        (value - 4) as u8 as char
    } else if value == 62 {
        '+'
    } else {
        '/'
    }
}

/// The 24-bit number of a group of three bytes; bytes past the end count as zero.
pub open spec fn base64_group(bytes: Seq<u8>, group: int) -> int {
    let byte = |at: int|
        if at < bytes.len() {
            bytes[at] as int
        } else {
            0
        };
    byte(3 * group) * 65536 + byte(3 * group + 1) * 256 + byte(3 * group + 2)
}

/// The standard Base64 form of some bytes: four characters for every three bytes, the first six
/// bits first, and a `=` for every byte that the last group lacks.
pub open spec fn base64_of(bytes: Seq<u8>) -> Seq<char> {
    Seq::new(
        4 * ((bytes.len() + 2) / 3),
        |i: int|
            {
                let group = base64_group(bytes, i / 4);
                if i % 4 == 0 {
                    base64_char(group / 262144)
                } else if i % 4 == 1 {
                    base64_char(group / 4096 % 64)
                } else if 3 * (i / 4) + i % 4 > bytes.len() {
                    '='
                } else if i % 4 == 2 {
                    base64_char(group / 64 % 64)
                } else {
                    base64_char(group % 64)
                }
            },
    )
}

/// The bytes that a standard Base64 text stands for; nothing where it is the Base64 form of none.
pub open spec fn base64_bytes(text: Seq<char>) -> Option<Seq<u8>> {
    if exists|bytes: Seq<u8>| #[trigger] base64_of(bytes) == text {
        Some(choose|bytes: Seq<u8>| #[trigger] base64_of(bytes) == text)
    } else {
        None
    }
}

proof fn base64_chars_differ(left: int, right: int)
    requires
        0 <= left < 64,
        0 <= right < 64,
        base64_char(left) == base64_char(right),
    ensures
        left == right,
{
}

proof fn base64_group_bounds(bytes: Seq<u8>, group: int)
    requires
        0 <= group,
    ensures
        0 <= base64_group(bytes, group) < 16777216,
{
}

/// The four characters of a group.
proof fn base64_quad(bytes: Seq<u8>, group: int)
    requires
        0 <= 3 * group < bytes.len(),
    ensures
        4 * group + 3 < base64_of(bytes).len(),
        base64_of(bytes)[4 * group] == base64_char(base64_group(bytes, group) / 262144),
        base64_of(bytes)[4 * group + 1] == base64_char(base64_group(bytes, group) / 4096 % 64),
        base64_of(bytes)[4 * group + 2] == (if 3 * group + 2 > bytes.len() {
            '='
        } else {
            base64_char(base64_group(bytes, group) / 64 % 64)
        }),
        base64_of(bytes)[4 * group + 3] == (if 3 * group + 3 > bytes.len() {
            '='
        } else {
            base64_char(base64_group(bytes, group) % 64)
        }),
{
    let i: int = 4 * group;
    assert(i / 4 == group && (i + 1) / 4 == group && (i + 2) / 4 == group && (i + 3) / 4 == group);
    assert(i % 4 == 0 && (i + 1) % 4 == 1 && (i + 2) % 4 == 2 && (i + 3) % 4 == 3);
}

/// The padding shows how many bytes there are.
proof fn base64_shows_length(left: Seq<u8>, right: Seq<u8>)
    requires
        base64_of(left) == base64_of(right),
        left.len() <= right.len(),
    ensures
        left.len() == right.len(),
{
    assert(base64_of(left).len() == 4 * ((left.len() + 2) / 3));
    assert(base64_of(right).len() == 4 * ((right.len() + 2) / 3));
    if left.len() < right.len() {
        let last: int = (right.len() + 2) / 3 - 1;
        base64_group_bounds(right, last);
        base64_quad(left, last);
        base64_quad(right, last);
    }
}

proof fn same_number(left: int, right: int, sextets: int)
    requires
        0 <= left,
        0 <= right,
        left / 262144 == right / 262144,
        left / 4096 % 64 == right / 4096 % 64,
        sextets >= 3 ==> left / 64 % 64 == right / 64 % 64,
        sextets >= 4 ==> left % 64 == right % 64,
        sextets < 3 ==> left % 65536 == 0 && right % 65536 == 0,
        sextets < 4 ==> left % 256 == 0 && right % 256 == 0,
    ensures
        left == right,
{
    assert(left / 4096 / 64 == left / 262144);
    assert(right / 4096 / 64 == right / 262144);
    assert(left / 4096 == right / 4096);
    if sextets >= 3 {
        assert(left / 64 / 64 == left / 4096);
        assert(right / 64 / 64 == right / 4096);
        assert(left / 64 == right / 64);
    }
}

proof fn same_group(left: Seq<u8>, right: Seq<u8>, group: int)
    requires
        base64_of(left) == base64_of(right),
        left.len() == right.len(),
        0 <= 3 * group < left.len(),
    ensures
        base64_group(left, group) == base64_group(right, group),
{
    let l = base64_group(left, group);
    let r = base64_group(right, group);
    base64_group_bounds(left, group);
    base64_group_bounds(right, group);
    base64_quad(left, group);
    base64_quad(right, group);
    base64_chars_differ(l / 262144, r / 262144);
    base64_chars_differ(l / 4096 % 64, r / 4096 % 64);
    let sextets: int = if 3 * group + 3 <= left.len() {
        base64_chars_differ(l / 64 % 64, r / 64 % 64);
        base64_chars_differ(l % 64, r % 64);
        4
    } else if 3 * group + 2 <= left.len() {
        base64_chars_differ(l / 64 % 64, r / 64 % 64);
        3
    } else {
        2
    };
    same_number(l, r, sextets);
}

/// Different bytes have different Base64 forms.
pub proof fn base64_is_injective(left: Seq<u8>, right: Seq<u8>)
    requires
        base64_of(left) == base64_of(right),
    ensures
        left == right,
{
    if left.len() <= right.len() {
        base64_shows_length(left, right);
    } else {
        base64_shows_length(right, left);
    }
    assert forall|at: int| 0 <= at < left.len() implies left[at] == right[at] by {
        let group = at / 3;
        same_group(left, right, group);
        assert(at == 3 * group || at == 3 * group + 1 || at == 3 * group + 2);
    }
    assert(left =~= right);
}

/// The Base64 form of some bytes stands for these bytes.
pub proof fn written_base64_is_read(bytes: Seq<u8>)
    ensures
        base64_bytes(base64_of(bytes)) == Some(bytes),
{
    let read = choose|read: Seq<u8>| #[trigger] base64_of(read) == base64_of(bytes);
    base64_is_injective(bytes, read);
}

/// `base64::engine::general_purpose::STANDARD.encode`: the padded standard Base64 form.
#[verifier::external_body]
pub(crate) fn encode_base64(bytes: &[u8]) -> (text: String)
    requires
        bytes@.len() <= usize::MAX / 2,
    ensures
        text@ == base64_of(bytes@),
{
    base64::Engine::encode(&base64::engine::general_purpose::STANDARD, bytes)
}

/// `base64::engine::general_purpose::STANDARD.decode`: reads exactly what encoding writes. Other
/// alphabets, missing or excess padding and stray trailing bits are refused.
#[verifier::external_body]
pub(crate) fn decode_base64(text: &str) -> (bytes: Option<Vec<u8>>)
    ensures
        match bytes {
            Some(bytes) => base64_bytes(text@) == Some(bytes@),
            None => base64_bytes(text@) is None,
        },
{
    base64::Engine::decode(&base64::engine::general_purpose::STANDARD, text).ok()
}

/// Whether an address with these parts may serve Google avatars: HTTPS on the allowed host, without
/// credentials.
pub open spec fn allowed_avatar_url(parts: Option<UrlView>) -> bool {
    parts matches Some(parts) && parts.scheme == "https"@ && parts.host == Some(
        "lh3.googleusercontent.com"@,
    ) && parts.username.len() == 0 && parts.password is None
}

/// Checks the parts of an avatar address.
pub fn check_avatar_url(parts: &Option<UrlParts>) -> (checked: Result<(), ProfileError>)
    ensures
        checked == if allowed_avatar_url(urls::opt_url_view(*parts)) {
            Ok::<(), ProfileError>(())
        } else {
            Err(ProfileError::InvalidImageUrl)
        },
{
    match parts {
        None => Err(ProfileError::InvalidImageUrl),
        Some(parts) => {
            let host: bool = match &parts.host {
                Some(host) => same_text(host.as_str(), "lh3.googleusercontent.com"),
                None => false,
            };
            if !same_text(parts.scheme.as_str(), "https") || !host
                || parts.username.as_str().unicode_len() > 0 || parts.password.is_some() {
                return Err(ProfileError::InvalidImageUrl);
            }
            Ok(())
        },
    }
}

/// Whether a picture address may be downloaded.
pub fn check_google_avatar_url(picture_url: &str) -> (checked: Result<(), ProfileError>)
    ensures
        checked == if allowed_avatar_url(urls::url_parts_of(picture_url@)) {
            Ok::<(), ProfileError>(())
        } else {
            Err(ProfileError::InvalidImageUrl)
        },
{
    check_avatar_url(&url_parts(picture_url))
}

/// Whether a picture response with this success and announced length is read.
pub fn accept_avatar_response(success: bool, content_length: Option<u64>) -> (accepted: Result<
    (),
    ProfileError,
>)
    ensures
        accepted == (if !success || (content_length is Some && content_length->0
            > MAX_AVATAR_INPUT_BYTES) {
            Err::<(), ProfileError>(ProfileError::InvalidImage)
        } else {
            Ok(())
        }),
{
    if !success {
        return Err(ProfileError::InvalidImage);
    }
    if let Some(length) = content_length {
        if length > MAX_AVATAR_INPUT_BYTES as u64 {
            return Err(ProfileError::InvalidImage);
        }
    }
    Ok(())
}

/// Adds a chunk to a picture that is read up to its bound; an excessive chunk is not added.
pub fn append_avatar_chunk(bytes: &mut Vec<u8>, chunk: &[u8]) -> (added: Result<(), ProfileError>)
    ensures
        added == (if old(bytes)@.len() + chunk@.len() > MAX_AVATAR_INPUT_BYTES {
            Err::<(), ProfileError>(ProfileError::InvalidImage)
        } else {
            Ok(())
        }),
        final(bytes)@ == (if added is Ok {
            old(bytes)@ + chunk@
        } else {
            old(bytes)@
        }),
{
    if chunk.len() > MAX_AVATAR_INPUT_BYTES || bytes.len() > MAX_AVATAR_INPUT_BYTES - chunk.len() {
        return Err(ProfileError::InvalidImage);
    }
    bytes.extend_from_slice(chunk);
    assert(bytes@ =~= old(bytes)@ + chunk@);
    Ok(())
}

/// A normalized profile image without any source metadata.
#[derive(Debug, Clone, PartialEq, Eq)]
pub struct ProfileImage {
    pub content_type: String,
    pub bytes: Vec<u8>,
    pub content_sha256: String,
    pub width: u32,
    pub height: u32,
}

/// The mathematical content of a [`ProfileImage`].
#[verifier::ext_equal]
pub struct ImageView {
    pub content_type: Seq<char>,
    pub bytes: Seq<u8>,
    pub content_sha256: Seq<char>,
    pub width: u32,
    pub height: u32,
}

impl View for ProfileImage {
    type V = ImageView;

    open spec fn view(&self) -> ImageView {
        ImageView {
            content_type: self.content_type@,
            bytes: self.bytes@,
            content_sha256: self.content_sha256@,
            width: self.width,
            height: self.height,
        }
    }
}

/// What an optional image holds.
pub open spec fn opt_image_view(image: Option<ProfileImage>) -> Option<ImageView> {
    match image {
        Some(image) => Some(image@),
        None => None,
    }
}

/// The profile image made of a thumbnail's PNG bytes.
pub open spec fn image_of_png(png: Seq<u8>) -> ImageView {
    ImageView {
        content_type: "image/png"@,
        bytes: png,
        content_sha256: crypto::hex_of(crypto::sha256_of(png)),
        width: AVATAR_SIZE,
        height: AVATAR_SIZE,
    }
}

/// Makes a profile image of a thumbnail's PNG bytes.
pub fn profile_image(png: Vec<u8>) -> (image: ProfileImage)
    ensures
        image@ == image_of_png(png@),
{
    let content_sha256 = hex(digest(png.as_slice()).as_slice());
    ProfileImage {
        content_type: "image/png".to_owned(),
        bytes: png,
        content_sha256,
        width: AVATAR_SIZE,
        height: AVATAR_SIZE,
    }
}

/// Whether a picture of this length, kind and size is within the safety limits.
pub open spec fn within_limits(
    length: int,
    kind: Option<ImageKind>,
    size: Option<(u32, u32)>,
) -> bool {
    &&& 0 < length <= MAX_AVATAR_INPUT_BYTES
    &&& accepted_kind(kind)
    &&& size matches Some((width, height)) && 0 < width && 0 < height && width * height
        <= MAX_AVATAR_PIXELS
}

/// Checks a picture's length, kind and size.
pub fn check_picture(length: usize, kind: Option<ImageKind>, size: Option<(u32, u32)>) -> (accepted:
    bool)
    ensures
        accepted == within_limits(length as int, kind, size),
{
    if length == 0 || length > MAX_AVATAR_INPUT_BYTES {
        return false;
    }
    match kind {
        Some(ImageKind::Jpeg) => {},
        Some(ImageKind::Png) => {},
        Some(ImageKind::WebP) => {},
        _ => return false,
    }
    match size {
        Some((width, height)) => {
            assert(width * height <= 0xffff_ffff * 0xffff_ffff) by (nonlinear_arith)
                requires
                    0 <= width <= 0xffff_ffff,
                    0 <= height <= 0xffff_ffff,
            ;
            assert(width * height >= 0) by (nonlinear_arith)
                requires
                    0 <= width,
                    0 <= height,
            ;
            0 < width && 0 < height && width as u64 * height as u64 <= MAX_AVATAR_PIXELS
        },
        None => false,
    }
}

/// Validates, bounds, resizes and strips an avatar into a square PNG.
///
/// Pictures outside the limits are refused. Every other becomes a PNG of 128 by 128 with its digest;
/// the pixels are the image library's.
pub fn normalize_avatar(bytes: &[u8]) -> (normalized: Result<ProfileImage, ProfileError>)
    ensures
        normalized is Ok <==> within_limits(
            bytes@.len() as int,
            image_kind_of(bytes@),
            decoded_size_of(bytes@),
        ),
        match normalized {
            Ok(image) => {
                &&& image@ == image_of_png(image@.bytes)
                &&& image_kind_of(image@.bytes) == Some(ImageKind::Png)
                &&& decoded_size_of(image@.bytes) == Some((AVATAR_SIZE, AVATAR_SIZE))
            },
            Err(error) => error == ProfileError::InvalidImage,
        },
{
    if bytes.len() == 0 || bytes.len() > MAX_AVATAR_INPUT_BYTES {
        return Err(ProfileError::InvalidImage);
    }
    if !check_picture(bytes.len(), image_kind(bytes), decoded_size(bytes)) {
        return Err(ProfileError::InvalidImage);
    }
    proof {
        let (width, height) = decoded_size_of(bytes@)->0;
        assert(width <= MAX_AVATAR_PIXELS && height <= MAX_AVATAR_PIXELS) by (nonlinear_arith)
            requires
                0 < width,
                0 < height,
                width * height <= MAX_AVATAR_PIXELS,
        ;
    }
    match png_thumbnail(bytes, AVATAR_SIZE) {
        Some(png) => Ok(profile_image(png)),
        None => Err(ProfileError::InvalidImage),
    }
}

} // verus!
