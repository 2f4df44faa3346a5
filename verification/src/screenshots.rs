//! Screenshots of a feedback report: checked, decoded and encoded anew.

use base64::Engine;
use crate::capped_writer::CappedWriter;
use crate::text::{byte_size, decimal};
use image::{ImageDecoder, ImageEncoder};
use vstd::prelude::*;

verus! {

use crate::text::{byte_len, decimal_text};

pub const SCREENSHOT_CONTENT_TYPE: &'static str = "image/png";

pub const MAX_SCREENSHOTS: usize = 3;

pub const MAX_SCREENSHOT_BYTES: usize = 5_242_880;

pub const MAX_SCREENSHOT_TOTAL_BYTES: usize = 10_485_760;

pub const MAX_SCREENSHOT_SIDE: u32 = 8192;

pub const MAX_SCREENSHOT_PIXELS: u64 = 16_000_000;

/// Eight bytes for each admissible pixel.
pub const MAX_SCREENSHOT_DECODE_ALLOC_BYTES: u64 = 128_000_000;

/// What the largest admissible screenshot takes in base64, and one group more.
pub const MAX_SCREENSHOT_BASE64_BYTES: usize = 6_990_512;

/// A screenshot as it is handed in.
#[derive(Debug)]
pub struct SpineFeedbackScreenshot {
    pub png_base64: String,
}

/// A named part of a feedback report.
#[derive(Debug)]
pub struct FeedbackAttachment {
    pub filename: String,
    pub content_type: Option<String>,
    pub buffer: Vec<u8>,
}

/// What a PNG says of itself before its pixels are read.
#[derive(Clone, Copy, Debug, PartialEq, Eq, Structural)]
pub struct PngHeader {
    pub width: u32,
    pub height: u32,
    /// The bytes that the decoded image takes.
    pub total_bytes: u64,
}

/// Why no pixels came out of a PNG.
#[derive(Clone, Copy, Debug, PartialEq, Eq, Structural)]
pub enum PngFailure {
    Limits,
    Invalid,
}

/// The contents of bytes that may be absent.
pub open spec fn optional_bytes(value: Option<Vec<u8>>) -> Option<Seq<u8>> {
    match value {
        Some(bytes) => Some(bytes@),
        None => None,
    }
}

/// The pixels, or why there are none.
pub open spec fn pixel_bytes(value: Result<Vec<u8>, PngFailure>) -> Result<Seq<u8>, PngFailure> {
    match value {
        Ok(bytes) => Ok(bytes@),
        Err(failure) => Err(failure),
    }
}

/// What the standard base64 alphabet, with padding, makes of a text: the bytes,
/// or nothing where the text is refused.
pub uninterp spec fn base64_bytes(text: Seq<char>) -> Option<Seq<u8>>;

/// Calls `base64::Engine::decode` of `general_purpose::STANDARD`. The outcome
/// depends on the text alone; [`base64_bytes`] names it.
#[verifier::external_body]
fn decode_base64(text: &str) -> (r: Option<Vec<u8>>)
    ensures
        optional_bytes(r) == base64_bytes(text@),
{
    base64::engine::general_purpose::STANDARD.decode(text.as_bytes()).ok()
}

/// Whether bytes begin as every PNG does.
pub open spec fn begins_as_png(input: Seq<u8>) -> bool {
    &&& input.len() >= 8
    &&& input.take(8) == seq![0x89u8, 0x50, 0x4e, 0x47, 0x0d, 0x0a, 0x1a, 0x0a]
}

/// Calls `image::guess_format`, which goes by the first bytes alone. It answers
/// PNG for the eight bytes of the PNG signature and for nothing else.
#[verifier::external_body]
fn guessed_png(input: &[u8]) -> (r: bool)
    ensures
        r == begins_as_png(input@),
{
    image::guess_format(input).ok() == Some(image::ImageFormat::Png)
}

/// What the PNG decoder reads of an image's header under limits on its sides
/// and on the decoder's memory: nothing where it refuses the image.
pub uninterp spec fn png_header(input: Seq<u8>, max_side: u32, max_alloc: u64) -> Option<PngHeader>;

/// Calls `image::ImageReader::into_decoder` for a PNG in memory, under limits
/// on both sides and on memory, and `dimensions` and `total_bytes` of what
/// comes back. The outcome depends on the arguments alone; [`png_header`] names
/// it.
#[verifier::external_body]
fn read_png_header(input: &[u8], max_side: u32, max_alloc: u64) -> (r: Option<PngHeader>)
    ensures
        r == png_header(input@, max_side, max_alloc),
{
    let mut limits = image::Limits::default();
    limits.max_image_width = Some(max_side);
    limits.max_image_height = Some(max_side);
    limits.max_alloc = Some(max_alloc);
    let source = std::io::Cursor::new(input);
    let mut reader = image::ImageReader::with_format(source, image::ImageFormat::Png);
    reader.limits(limits);
    let decoder = reader.into_decoder().ok()?;
    let (width, height) = decoder.dimensions();
    Some(PngHeader { width, height, total_bytes: decoder.total_bytes() })
}

/// The pixels that the PNG decoder reads of an image, four bytes for each, when
/// it was opened under limits and then has less memory left.
pub uninterp spec fn png_pixels(
    input: Seq<u8>,
    max_side: u32,
    max_alloc: u64,
    alloc_left: u64,
) -> Result<Seq<u8>, PngFailure>;

/// Opens a PNG as [`read_png_header`] does, and calls
/// `image::ImageDecoder::set_limits` with the memory that is left,
/// `image::DynamicImage::from_decoder` and `into_rgba8`. The outcome depends on
/// the arguments alone; [`png_pixels`] names it. There are four bytes for each
/// pixel that the header counts.
#[verifier::external_body]
fn read_png_pixels(input: &[u8], max_side: u32, max_alloc: u64, alloc_left: u64) -> (r: Result<
    Vec<u8>,
    PngFailure,
>)
    ensures
        pixel_bytes(r) == png_pixels(input@, max_side, max_alloc, alloc_left),
        r matches Ok(pixels) ==> (png_header(input@, max_side, max_alloc) matches Some(header)
            && pixels@.len() == header.width * header.height * 4),
{
    let mut limits = image::Limits::default();
    limits.max_image_width = Some(max_side);
    limits.max_image_height = Some(max_side);
    limits.max_alloc = Some(max_alloc);
    let source = std::io::Cursor::new(input);
    let mut reader = image::ImageReader::with_format(source, image::ImageFormat::Png);
    reader.limits(limits.clone());
    let mut decoder = reader.into_decoder().map_err(|_| PngFailure::Invalid)?;
    limits.max_alloc = Some(alloc_left);
    decoder.set_limits(limits).map_err(|_| PngFailure::Limits)?;
    let pixels = image::DynamicImage::from_decoder(decoder).map_err(|_| PngFailure::Invalid)?;
    Ok(pixels.into_rgba8().into_raw())
}

/// The PNG that the encoder makes of pixels, or nothing where it fails.
pub uninterp spec fn png_encoding(pixels: Seq<u8>, width: u32, height: u32) -> Option<Seq<u8>>;

/// Calls `image::codecs::png::PngEncoder::write_image` into memory. It panics
/// unless there are four bytes for each pixel. The outcome depends on the
/// arguments alone; [`png_encoding`] names it.
#[verifier::external_body]
fn encode_png(pixels: &[u8], width: u32, height: u32) -> (r: Option<Vec<u8>>)
    requires
        pixels@.len() == width * height * 4,
    ensures
        optional_bytes(r) == png_encoding(pixels@, width, height),
{
    let mut output = Vec::new();
    let encoder = image::codecs::png::PngEncoder::new(&mut output);
    let color = image::ExtendedColorType::Rgba8;
    encoder.write_image(pixels, width, height, color).ok().map(|_| output)
}

/// A complaint about one screenshot; they are counted from one.
pub open spec fn screenshot_complaint(index: nat, complaint: Seq<char>) -> Seq<char> {
    "screenshot "@ + decimal_text(index + 1) + complaint
}

fn complain(index: usize, complaint: &str) -> (r: String)
    requires
        index < usize::MAX,
    ensures
        r@ == screenshot_complaint(index as nat, complaint@),
{
    let mut message = String::from_str("screenshot ");
    message.append(decimal((index + 1) as u64).as_str());
    message.append(complaint);
    message
}

/// What is wrong with an image's sides, if anything.
pub open spec fn dimension_complaint(index: nat, width: u32, height: u32) -> Option<Seq<char>> {
    if width == 0 || height == 0 {
        Some(screenshot_complaint(index, " has zero dimensions"@))
    } else if width > MAX_SCREENSHOT_SIDE || height > MAX_SCREENSHOT_SIDE {
        Some(screenshot_complaint(index, " exceeds 8192 pixels per side"@))
    } else if width * height > MAX_SCREENSHOT_PIXELS {
        Some(screenshot_complaint(index, " exceeds 16000000 pixels"@))
    } else {
        None
    }
}

/// Whether an outcome is what a complaint makes of it.
pub open spec fn refused_with(r: Result<(), String>, complaint: Option<Seq<char>>) -> bool {
    match complaint {
        Some(message) => r matches Err(error) && error@ == message,
        None => r is Ok,
    }
}

/// Refuses an image without pixels or with too many.
pub fn validate_screenshot_dimensions(index: usize, dimensions: (u32, u32)) -> (r: Result<
    (),
    String,
>)
    requires
        index < usize::MAX,
    ensures
        refused_with(r, dimension_complaint(index as nat, dimensions.0, dimensions.1)),
{
    let (width, height) = dimensions;
    if width == 0 || height == 0 {
        return Err(complain(index, " has zero dimensions"));
    }
    if width > MAX_SCREENSHOT_SIDE || height > MAX_SCREENSHOT_SIDE {
        return Err(complain(index, " exceeds 8192 pixels per side"));
    }
    assert(width * height <= 8192 * 8192) by (nonlinear_arith)
        requires
            width <= 8192,
            height <= 8192,
    ;
    let pixels: u64 = width as u64 * height as u64;
    if pixels > MAX_SCREENSHOT_PIXELS {
        return Err(complain(index, " exceeds 16000000 pixels"));
    }
    Ok(())
}

/// Bytes or a complaint, as the contracts speak of them.
pub open spec fn bytes_or_complaint(r: Result<Vec<u8>, String>) -> Result<Seq<u8>, Seq<char>> {
    match r {
        Ok(bytes) => Ok(bytes@),
        Err(message) => Err(message@),
    }
}

/// The decoded bytes of a screenshot, or what is wrong with them.
pub open spec fn admitted_input(index: nat, encoded_bytes: nat, decoded: Option<Seq<u8>>) -> Result<
    Seq<u8>,
    Seq<char>,
> {
    if encoded_bytes > MAX_SCREENSHOT_BASE64_BYTES {
        Err(screenshot_complaint(index, " is too large"@))
    } else {
        match decoded {
            None => Err(screenshot_complaint(index, " is not valid base64"@)),
            Some(input) => if input.len() > MAX_SCREENSHOT_BYTES {
                Err(screenshot_complaint(index, " is too large"@))
            } else if !begins_as_png(input) {
                Err(screenshot_complaint(index, " is not a PNG image"@))
            } else {
                Ok(input)
            },
        }
    }
}

/// Takes the bytes of a decoded screenshot if they can be a PNG.
pub fn admit_input(index: usize, encoded_bytes: usize, decoded: Option<Vec<u8>>) -> (r: Result<
    Vec<u8>,
    String,
>)
    requires
        index < usize::MAX,
    ensures
        bytes_or_complaint(r) == admitted_input(
            index as nat,
            encoded_bytes as nat,
            optional_bytes(decoded),
        ),
{
    if encoded_bytes > MAX_SCREENSHOT_BASE64_BYTES {
        return Err(complain(index, " is too large"));
    }
    match decoded {
        None => Err(complain(index, " is not valid base64")),
        Some(input) => {
            if input.len() > MAX_SCREENSHOT_BYTES {
                return Err(complain(index, " is too large"));
            }
            if !guessed_png(input.as_slice()) {
                return Err(complain(index, " is not a PNG image"));
            }
            Ok(input)
        },
    }
}

/// The memory that an image's pixels leave, or what is wrong with its header.
pub open spec fn admitted_header(index: nat, header: Option<PngHeader>) -> Result<
    (PngHeader, u64),
    Seq<char>,
> {
    match header {
        None => Err(screenshot_complaint(index, " is not a valid PNG image"@)),
        Some(header) => match dimension_complaint(index, header.width, header.height) {
            Some(complaint) => Err(complaint),
            None => if header.total_bytes > MAX_SCREENSHOT_DECODE_ALLOC_BYTES {
                Err(screenshot_complaint(index, " requires too much decode memory"@))
            } else {
                Ok((header, (MAX_SCREENSHOT_DECODE_ALLOC_BYTES - header.total_bytes) as u64))
            },
        },
    }
}

/// Takes an image's header if the image can be decoded within bounds; with it
/// comes the memory that its pixels leave.
pub fn admit_header(index: usize, header: Option<PngHeader>) -> (r: Result<
    (PngHeader, u64),
    String,
>)
    requires
        index < usize::MAX,
    ensures
        match (r, admitted_header(index as nat, header)) {
            (Ok(admitted), Ok(expected)) => admitted == expected,
            (Err(message), Err(complaint)) => message@ == complaint,
            _ => false,
        },
{
    match header {
        None => Err(complain(index, " is not a valid PNG image")),
        Some(header) => {
            match validate_screenshot_dimensions(index, (header.width, header.height)) {
                Err(message) => Err(message),
                Ok(()) => {
                    if header.total_bytes > MAX_SCREENSHOT_DECODE_ALLOC_BYTES {
                        return Err(complain(index, " requires too much decode memory"));
                    }
                    Ok((header, MAX_SCREENSHOT_DECODE_ALLOC_BYTES - header.total_bytes))
                },
            }
        },
    }
}

/// The pixels of an image, or what is wrong with it.
pub open spec fn admitted_pixels(index: nat, pixels: Result<Seq<u8>, PngFailure>) -> Result<
    Seq<u8>,
    Seq<char>,
> {
    match pixels {
        Ok(pixels) => Ok(pixels),
        Err(PngFailure::Limits) => Err(screenshot_complaint(index, " exceeds decode limits"@)),
        Err(PngFailure::Invalid) => Err(screenshot_complaint(index, " is not a valid PNG image"@)),
    }
}

/// Takes the pixels that the decoder read.
pub fn admit_pixels(index: usize, pixels: Result<Vec<u8>, PngFailure>) -> (r: Result<
    Vec<u8>,
    String,
>)
    requires
        index < usize::MAX,
    ensures
        bytes_or_complaint(r) == admitted_pixels(index as nat, pixel_bytes(pixels)),
{
    match pixels {
        Ok(pixels) => Ok(pixels),
        Err(PngFailure::Limits) => Err(complain(index, " exceeds decode limits")),
        Err(PngFailure::Invalid) => Err(complain(index, " is not a valid PNG image")),
    }
}

/// What is said of an encoding that is over a limit.
pub open spec fn encoding_complaint(index: nat, limit: nat) -> Seq<char> {
    "normalized screenshot "@ + decimal_text(index + 1) + " exceeds "@ + decimal_text(limit)
        + " bytes"@
}

/// The encoding of a screenshot, or what is wrong with it.
pub open spec fn admitted_encoding(index: nat, encoding: Option<Seq<u8>>, limit: usize) -> Result<
    Seq<u8>,
    Seq<char>,
> {
    match encoding {
        None => Err(screenshot_complaint(index, " could not be normalized"@)),
        Some(bytes) => if bytes.len() > limit {
            Err(encoding_complaint(index, limit as nat))
        } else {
            Ok(bytes)
        },
    }
}

/// Takes the encoding of a screenshot if it keeps a limit.
pub fn admit_encoding(index: usize, encoding: Option<Vec<u8>>, limit: usize) -> (r: Result<
    Vec<u8>,
    String,
>)
    requires
        index < usize::MAX,
    ensures
        bytes_or_complaint(r) == admitted_encoding(index as nat, optional_bytes(encoding), limit),
{
    match encoding {
        None => Err(complain(index, " could not be normalized")),
        Some(bytes) => {
            let mut output = CappedWriter::new(limit);
            let written = output.write(bytes.as_slice());
            assert(bytes.len() == bytes@.len());
            if output.exceeded() {
                let mut message = String::from_str("normalized screenshot ");
                message.append(decimal((index + 1) as u64).as_str());
                message.append(" exceeds ");
                message.append(decimal(limit as u64).as_str());
                message.append(" bytes");
                return Err(message);
            }
            let kept = output.into_inner();
            assert(kept@ =~= bytes@);
            Ok(kept)
        },
    }
}

/// What becomes of one screenshot: its bytes as a plain RGBA image, or what is
/// wrong with it.
pub open spec fn normalized_screenshot(index: nat, text: Seq<char>) -> Result<Seq<u8>, Seq<char>> {
    match admitted_input(index, byte_len(text), base64_bytes(text)) {
        Err(complaint) => Err(complaint),
        Ok(input) => match admitted_header(
            index,
            png_header(input, MAX_SCREENSHOT_SIDE, MAX_SCREENSHOT_DECODE_ALLOC_BYTES),
        ) {
            Err(complaint) => Err(complaint),
            Ok((header, left)) => match admitted_pixels(
                index,
                png_pixels(input, MAX_SCREENSHOT_SIDE, MAX_SCREENSHOT_DECODE_ALLOC_BYTES, left),
            ) {
                Err(complaint) => Err(complaint),
                Ok(pixels) => admitted_encoding(
                    index,
                    png_encoding(pixels, header.width, header.height),
                    MAX_SCREENSHOT_BYTES,
                ),
            },
        },
    }
}

/// Decodes one screenshot and encodes its pixels anew.
pub fn normalize_screenshot(index: usize, screenshot: &SpineFeedbackScreenshot) -> (r: Result<
    Vec<u8>,
    String,
>)
    requires
        index < usize::MAX,
    ensures
        bytes_or_complaint(r) == normalized_screenshot(index as nat, screenshot.png_base64@),
{
    let text = screenshot.png_base64.as_str();
    let encoded_bytes = byte_size(text);
    if encoded_bytes > MAX_SCREENSHOT_BASE64_BYTES {
        return Err(complain(index, " is too large"));
    }
    let input = match admit_input(index, encoded_bytes, decode_base64(text)) {
        Ok(input) => input,
        Err(message) => {
            return Err(message);
        },
    };
    let header = read_png_header(
        input.as_slice(),
        MAX_SCREENSHOT_SIDE,
        MAX_SCREENSHOT_DECODE_ALLOC_BYTES,
    );
    let (header, left) = match admit_header(index, header) {
        Ok(admitted) => admitted,
        Err(message) => {
            return Err(message);
        },
    };
    let pixels = read_png_pixels(
        input.as_slice(),
        MAX_SCREENSHOT_SIDE,
        MAX_SCREENSHOT_DECODE_ALLOC_BYTES,
        left,
    );
    let pixels = match admit_pixels(index, pixels) {
        Ok(pixels) => pixels,
        Err(message) => {
            return Err(message);
        },
    };
    let encoding = encode_png(pixels.as_slice(), header.width, header.height);
    admit_encoding(index, encoding, MAX_SCREENSHOT_BYTES)
}

/// The name under which a screenshot is attached.
pub open spec fn screenshot_filename(index: int) -> Seq<char> {
    if index == 0 {
        "screenshot-1.png"@
    } else if index == 1 {
        "screenshot-2.png"@
    } else {
        "screenshot-3.png"@
    }
}

/// The bytes of several encodings together.
pub open spec fn total_size(encodings: Seq<Seq<u8>>) -> nat
    decreases encodings.len(),
{
    if encodings.len() == 0 {
        0
    } else {
        total_size(encodings.drop_last()) + encodings.last().len()
    }
}

/// What becomes of screenshots in their order, up to the first complaint.
pub open spec fn normalized_list(screenshots: Seq<SpineFeedbackScreenshot>) -> Result<
    Seq<Seq<u8>>,
    Seq<char>,
>
    decreases screenshots.len(),
{
    if screenshots.len() == 0 {
        Ok(Seq::empty())
    } else {
        match normalized_list(screenshots.drop_last()) {
            Err(complaint) => Err(complaint),
            Ok(encodings) => match normalized_screenshot(
                (screenshots.len() - 1) as nat,
                screenshots.last().png_base64@,
            ) {
                Err(complaint) => Err(complaint),
                Ok(encoding) => if total_size(encodings) + encoding.len()
                    > MAX_SCREENSHOT_TOTAL_BYTES {
                    Err("Spine feedback screenshots exceed 10485760 bytes"@)
                } else {
                    Ok(encodings.push(encoding))
                },
            },
        }
    }
}

/// Whether attachments are screenshots with the given bytes.
pub open spec fn are_screenshots(attachments: Seq<FeedbackAttachment>, encodings: Seq<Seq<u8>>) -> bool {
    &&& attachments.len() == encodings.len()
    &&& forall|i: int|
        0 <= i < attachments.len() ==> {
            &&& (#[trigger] attachments[i]).filename@ == screenshot_filename(i)
            &&& attachments[i].content_type matches Some(kind) && kind@
                == SCREENSHOT_CONTENT_TYPE@
            &&& attachments[i].buffer@ == encodings[i]
        }
}

proof fn lemma_first_complaint(screenshots: Seq<SpineFeedbackScreenshot>, n: int)
    requires
        0 <= n <= screenshots.len(),
        normalized_list(screenshots.take(n)) is Err,
    ensures
        normalized_list(screenshots) == normalized_list(screenshots.take(n)),
    decreases screenshots.len() - n,
{
    if n == screenshots.len() {
        assert(screenshots.take(n) =~= screenshots);
    } else {
        let longer = screenshots.take(n + 1);
        assert(longer.drop_last() =~= screenshots.take(n));
        lemma_first_complaint(screenshots, n + 1);
    }
}

/// The attachments that screenshots become, or the first complaint.
pub fn normalize_screenshots(screenshots: &Vec<SpineFeedbackScreenshot>) -> (r: Result<
    Vec<FeedbackAttachment>,
    String,
>)
    ensures
        if screenshots@.len() > MAX_SCREENSHOTS {
            r matches Err(message) && message@ == "Spine feedback accepts at most 3 screenshots"@
        } else {
            match (r, normalized_list(screenshots@)) {
                (Ok(attachments), Ok(encodings)) => are_screenshots(attachments@, encodings),
                (Err(message), Err(complaint)) => message@ == complaint,
                _ => false,
            }
        },
{
    if screenshots.len() > MAX_SCREENSHOTS {
        return Err(String::from_str("Spine feedback accepts at most 3 screenshots"));
    }
    let mut attachments: Vec<FeedbackAttachment> = Vec::new();
    let mut total_bytes: usize = 0;
    let mut index: usize = 0;
    let ghost mut encodings: Seq<Seq<u8>> = Seq::empty();
    while index < screenshots.len()
        invariant
            index <= screenshots@.len() <= MAX_SCREENSHOTS,
            normalized_list(screenshots@.take(index as int)) == Ok::<Seq<Seq<u8>>, Seq<char>>(
                encodings,
            ),
            total_bytes == total_size(encodings),
            total_bytes <= MAX_SCREENSHOT_TOTAL_BYTES,
            encodings.len() == index,
            are_screenshots(attachments@, encodings),
        decreases screenshots@.len() - index,
    {
        proof {
            let upto = screenshots@.take(index + 1);
            assert(upto.drop_last() =~= screenshots@.take(index as int));
            assert(upto.last() == screenshots@[index as int]);
        }
        match normalize_screenshot(index, &screenshots[index]) {
            Err(message) => {
                proof {
                    lemma_first_complaint(screenshots@, index + 1);
                }
                return Err(message);
            },
            Ok(normalized) => {
                total_bytes = total_bytes + normalized.len();
                if total_bytes > MAX_SCREENSHOT_TOTAL_BYTES {
                    proof {
                        lemma_first_complaint(screenshots@, index + 1);
                    }
                    return Err(String::from_str("Spine feedback screenshots exceed 10485760 bytes"));
                }
                let filename = if index == 0 {
                    "screenshot-1.png"
                } else if index == 1 {
                    "screenshot-2.png"
                } else {
                    "screenshot-3.png"
                };
                proof {
                    assert(encodings.push(normalized@).drop_last() =~= encodings);
                    encodings = encodings.push(normalized@);
                }
                attachments.push(
                    FeedbackAttachment {
                        filename: String::from_str(filename),
                        content_type: Some(String::from_str(SCREENSHOT_CONTENT_TYPE)),
                        buffer: normalized,
                    },
                );
            },
        }
        index = index + 1;
    }
    assert(screenshots@.take(index as int) =~= screenshots@);
    Ok(attachments)
}

/// Each attached screenshot keeps the limit of one, and all together keep the
/// limit of the report.
pub proof fn attached_screenshots_keep_their_limits(screenshots: Seq<SpineFeedbackScreenshot>)
    requires
        normalized_list(screenshots) is Ok,
    ensures
        normalized_list(screenshots)->Ok_0.len() == screenshots.len(),
        total_size(normalized_list(screenshots)->Ok_0) <= MAX_SCREENSHOT_TOTAL_BYTES,
        forall|i: int|
            0 <= i < screenshots.len() ==> (#[trigger] normalized_list(screenshots)->Ok_0[i]).len()
                <= MAX_SCREENSHOT_BYTES,
    decreases screenshots.len(),
{
    if screenshots.len() > 0 {
        let before = normalized_list(screenshots.drop_last())->Ok_0;
        let encodings = normalized_list(screenshots)->Ok_0;
        attached_screenshots_keep_their_limits(screenshots.drop_last());
        assert(encodings.drop_last() =~= before);
    }
}

/// An image is admitted by its sides exactly where it has pixels, at most 8192
/// on each side and at most sixteen million in all; else the complaint says
/// which of these it breaks first.
pub proof fn which_sides_are_admitted(index: nat, width: u32, height: u32)
    ensures
        dimension_complaint(index, width, height) is None <==> 1 <= width <= 8192 && 1 <= height
            <= 8192 && width * height <= 16_000_000,
        width == 0 || height == 0 ==> dimension_complaint(index, width, height) == Some(
            "screenshot "@ + decimal_text(index + 1) + " has zero dimensions"@,
        ),
        width > 0 && height > 0 && (width > 8192 || height > 8192) ==> dimension_complaint(
            index,
            width,
            height,
        ) == Some("screenshot "@ + decimal_text(index + 1) + " exceeds 8192 pixels per side"@),
        1 <= width <= 8192 && 1 <= height <= 8192 && width * height > 16_000_000
            ==> dimension_complaint(index, width, height) == Some(
            "screenshot "@ + decimal_text(index + 1) + " exceeds 16000000 pixels"@,
        ),
{
}

/// The bytes of a screenshot are taken as they are where their text is not too
/// long, they are at most five mebibytes and begin as a PNG; else the complaint
/// says which of these fails first.
pub proof fn which_bytes_are_admitted(index: nat, encoded_bytes: nat, decoded: Option<Seq<u8>>)
    ensures
        admitted_input(index, encoded_bytes, decoded) matches Ok(input) ==> decoded == Some(input)
            && encoded_bytes <= 6_990_512 && input.len() <= 5_242_880 && input.len() >= 8
            && input[0] == 0x89 && input[1] == 0x50 && input[2] == 0x4e && input[3] == 0x47
            && input[4] == 0x0d && input[5] == 0x0a && input[6] == 0x1a && input[7] == 0x0a,
        encoded_bytes > 6_990_512 ==> admitted_input(index, encoded_bytes, decoded) == Err::<
            Seq<u8>,
            Seq<char>,
        >("screenshot "@ + decimal_text(index + 1) + " is too large"@),
        encoded_bytes <= 6_990_512 && decoded is None ==> admitted_input(
            index,
            encoded_bytes,
            decoded,
        ) == Err::<Seq<u8>, Seq<char>>(
            "screenshot "@ + decimal_text(index + 1) + " is not valid base64"@,
        ),
        encoded_bytes <= 6_990_512 ==> (decoded matches Some(input) ==> {
            &&& input.len() > 5_242_880 ==> admitted_input(index, encoded_bytes, decoded) == Err::<
                Seq<u8>,
                Seq<char>,
            >("screenshot "@ + decimal_text(index + 1) + " is too large"@)
            &&& input.len() <= 5_242_880 && (input.len() < 8 || !(input[0] == 0x89 && input[1]
                == 0x50 && input[2] == 0x4e && input[3] == 0x47 && input[4] == 0x0d && input[5]
                == 0x0a && input[6] == 0x1a && input[7] == 0x0a)) ==> admitted_input(
                index,
                encoded_bytes,
                decoded,
            ) == Err::<Seq<u8>, Seq<char>>(
                "screenshot "@ + decimal_text(index + 1) + " is not a PNG image"@,
            )
            &&& input.len() <= 5_242_880 && input.len() >= 8 && input[0] == 0x89 && input[1] == 0x50
                && input[2] == 0x4e && input[3] == 0x47 && input[4] == 0x0d && input[5] == 0x0a
                && input[6] == 0x1a && input[7] == 0x0a ==> admitted_input(
                index,
                encoded_bytes,
                decoded,
            ) is Ok
        }),
{
    if let Some(input) = decoded {
        if input.len() >= 8 {
            let head = input.take(8);
            let signature = seq![0x89u8, 0x50, 0x4e, 0x47, 0x0d, 0x0a, 0x1a, 0x0a];
            assert(head[0] == input[0] && head[1] == input[1] && head[2] == input[2] && head[3]
                == input[3] && head[4] == input[4] && head[5] == input[5] && head[6] == input[6]
                && head[7] == input[7]);
            if input[0] == 0x89 && input[1] == 0x50 && input[2] == 0x4e && input[3] == 0x47
                && input[4] == 0x0d && input[5] == 0x0a && input[6] == 0x1a && input[7] == 0x0a {
                assert(head =~= signature);
            }
        }
    }
}

/// A header is admitted where its sides are and its pixels take no more than 128
/// million bytes; what is left of these is what the decoder may use.
pub proof fn which_headers_are_admitted(index: nat, header: Option<PngHeader>)
    ensures
        header is None ==> admitted_header(index, header) == Err::<(PngHeader, u64), Seq<char>>(
            "screenshot "@ + decimal_text(index + 1) + " is not a valid PNG image"@,
        ),
        header matches Some(h) ==> {
            let sides = dimension_complaint(index, h.width, h.height);
            &&& sides matches Some(complaint) ==> admitted_header(index, header) == Err::<
                (PngHeader, u64),
                Seq<char>,
            >(complaint)
            &&& sides is None && h.total_bytes > 128_000_000 ==> admitted_header(index, header)
                == Err::<(PngHeader, u64), Seq<char>>(
                "screenshot "@ + decimal_text(index + 1) + " requires too much decode memory"@,
            )
            &&& sides is None && h.total_bytes <= 128_000_000 ==> (admitted_header(index, header)
                matches Ok((same, left)) && same == h && left + h.total_bytes == 128_000_000)
        },
{
}

/// Pixels and encodings are taken as they are; what fails is complained of in
/// its own words, an encoding only where it is over its limit.
pub proof fn what_was_made_is_taken_as_it_is(
    index: nat,
    pixels: Result<Seq<u8>, PngFailure>,
    encoding: Option<Seq<u8>>,
    limit: usize,
)
    ensures
        match pixels {
            Ok(bytes) => admitted_pixels(index, pixels) == Ok::<Seq<u8>, Seq<char>>(bytes),
            Err(PngFailure::Limits) => admitted_pixels(index, pixels) == Err::<Seq<u8>, Seq<char>>(
                "screenshot "@ + decimal_text(index + 1) + " exceeds decode limits"@,
            ),
            Err(PngFailure::Invalid) => admitted_pixels(index, pixels) == Err::<
                Seq<u8>,
                Seq<char>,
            >("screenshot "@ + decimal_text(index + 1) + " is not a valid PNG image"@),
        },
        match encoding {
            None => admitted_encoding(index, encoding, limit) == Err::<Seq<u8>, Seq<char>>(
                "screenshot "@ + decimal_text(index + 1) + " could not be normalized"@,
            ),
            Some(bytes) => if bytes.len() <= limit {
                admitted_encoding(index, encoding, limit) == Ok::<Seq<u8>, Seq<char>>(bytes)
            } else {
                admitted_encoding(index, encoding, limit) == Err::<Seq<u8>, Seq<char>>(
                    "normalized screenshot "@ + decimal_text(index + 1) + " exceeds "@
                        + decimal_text(limit as nat) + " bytes"@,
                )
            },
        },
{
}

/// A screenshot that is attached is the new encoding of the pixels that were
/// read of the decoded bytes, under the limits on sides and memory, with the
/// sides of the image.
pub proof fn a_screenshot_is_its_pixels_encoded_anew(index: nat, text: Seq<char>)
    ensures
        normalized_screenshot(index, text) matches Ok(bytes) ==> {
            &&& base64_bytes(text) matches Some(input)
            &&& png_header(input, 8192, 128_000_000) matches Some(header)
            &&& header.total_bytes <= 128_000_000
            &&& png_pixels(
                input,
                8192,
                128_000_000,
                (128_000_000 - header.total_bytes) as u64,
            ) matches Ok(pixels)
            &&& png_encoding(pixels, header.width, header.height) == Some(bytes)
            &&& bytes.len() <= 5_242_880
            &&& 1 <= header.width <= 8192 && 1 <= header.height <= 8192
        },
        admitted_input(index, byte_len(text), base64_bytes(text)) matches Ok(input) ==> (
        admitted_header(index, png_header(input, 8192, 128_000_000)) matches Ok((header, left)) ==> (
        png_pixels(input, 8192, 128_000_000, left) matches Ok(pixels) ==> (png_encoding(
            pixels,
            header.width,
            header.height,
        ) matches Some(bytes) ==> bytes.len() <= 5_242_880 ==> normalized_screenshot(index, text)
            == Ok::<Seq<u8>, Seq<char>>(bytes)))),
{
}

/// The names of attached screenshots count from one.
pub proof fn screenshots_are_numbered(index: int)
    requires
        0 <= index < 3,
    ensures
        screenshot_filename(index) == seq![
            's',
            'c',
            'r',
            'e',
            'e',
            'n',
            's',
            'h',
            'o',
            't',
            '-',
        ] + seq![
            (if index == 0 {
                '1'
            } else if index == 1 {
                '2'
            } else {
                '3'
            }),
        ] + seq!['.', 'p', 'n', 'g'],
{
    reveal_strlit("screenshot-1.png");
    reveal_strlit("screenshot-2.png");
    reveal_strlit("screenshot-3.png");
    let head = seq!['s', 'c', 'r', 'e', 'e', 'n', 's', 'h', 'o', 't', '-'];
    let tail = seq!['.', 'p', 'n', 'g'];
    assert("screenshot-1.png"@ =~= head + seq!['1'] + tail);
    assert("screenshot-2.png"@ =~= head + seq!['2'] + tail);
    assert("screenshot-3.png"@ =~= head + seq!['3'] + tail);
}

/// The sizes of encodings add up, one by one.
pub proof fn sizes_add_up(encodings: Seq<Seq<u8>>, encoding: Seq<u8>)
    ensures
        total_size(Seq::empty()) == 0,
        total_size(encodings.push(encoding)) == total_size(encodings) + encoding.len(),
{
    assert(encodings.push(encoding).drop_last() =~= encodings);
}

/// One more screenshot is attached after the others, under its own number, where
/// it is in order and all together take at most ten mebibytes; the first
/// complaint is the one that is reported.
pub proof fn screenshots_are_attached_one_by_one(
    screenshots: Seq<SpineFeedbackScreenshot>,
    screenshot: SpineFeedbackScreenshot,
)
    ensures
        ({
            let before = normalized_list(screenshots);
            let now = normalized_list(screenshots.push(screenshot));
            let made = normalized_screenshot(screenshots.len(), screenshot.png_base64@);
            &&& before is Err ==> now == before
            &&& before is Ok && made is Err ==> now == Err::<Seq<Seq<u8>>, Seq<char>>(made->Err_0)
            &&& before matches Ok(encodings) ==> (made matches Ok(encoding) ==> if total_size(
                encodings,
            ) + encoding.len() <= 10_485_760 {
                now == Ok::<Seq<Seq<u8>>, Seq<char>>(encodings.push(encoding))
            } else {
                now == Err::<Seq<Seq<u8>>, Seq<char>>(
                    "Spine feedback screenshots exceed 10485760 bytes"@,
                )
            })
        }),
        normalized_list(Seq::empty()) == Ok::<Seq<Seq<u8>>, Seq<char>>(Seq::empty()),
{
    assert(screenshots.push(screenshot).drop_last() =~= screenshots);
}

/// Attached screenshots carry their bytes, as PNG images, in order.
pub proof fn attachments_carry_their_bytes(
    attachments: Seq<FeedbackAttachment>,
    encodings: Seq<Seq<u8>>,
    i: int,
)
    requires
        are_screenshots(attachments, encodings),
    ensures
        attachments.len() == encodings.len(),
        0 <= i < attachments.len() ==> attachments[i].buffer@ == encodings[i]
            && attachments[i].filename@ == screenshot_filename(i) && (attachments[i].content_type
            matches Some(kind) && kind@ == "image/png"@),
{
}

} // verus!
