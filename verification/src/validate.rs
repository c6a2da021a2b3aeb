//! Validators for the fields that are forwarded as they are, or not at all:
//! action keys, the category, the expiry and image parameters.

use crate::message::{ImageParameters, ImageView};
use vstd::prelude::*;

verus! {

/// Most bytes of pixel data that an image may carry: 2 MiB.
pub const MAX_SIZE: usize = 0x20_0000;

/// Greatest width of an image, in pixels.
pub const MAX_WIDTH: i32 = 255;

/// Greatest height of an image, in pixels.
pub const MAX_HEIGHT: i32 = 255;

/// Greatest length of an action key, in bytes.
pub const MAX_ACTION_NAME: usize = 255;

/// Greatest length of a category, in bytes.
pub const MAX_CATEGORY: usize = 64;

/// `b` is an ASCII lower-case letter.
pub open spec fn is_lower(b: u8) -> bool {
    0x61 <= b <= 0x7a
}

/// `b` is an ASCII letter.
pub open spec fn is_letter(b: u8) -> bool {
    is_lower(b) || 0x41 <= b <= 0x5a
}

/// `b` may stand after the first byte of an action key: an ASCII letter or
/// digit, `-`, `.` or `_`.
pub open spec fn is_action_byte(b: u8) -> bool {
    is_letter(b) || 0x30 <= b <= 0x39 || b == 0x2d || b == 0x2e || b == 0x5f
}

/// `b` may stand after the first byte of a category: an ASCII lower-case
/// letter or `.`.
pub open spec fn is_category_byte(b: u8) -> bool {
    is_lower(b) || b == 0x2e
}

/// What is wrong with an action key, by the first check that fails.
#[derive(Clone, Copy, Debug, PartialEq, Eq, Structural)]
pub enum ActionNameFault {
    /// The key is empty.
    Empty,
    /// The key is longer than `MAX_ACTION_NAME` bytes.
    TooLong,
    /// The first byte is not an ASCII letter.
    BadStart,
    /// The byte at `position`, counted from the second byte of the key, is
    /// not allowed; no byte before it is at fault.
    BadByte { position: usize },
}

/// The index of the first byte of `action`, from index `from` on, that an
/// action key may not hold after its first byte; the length of `action`
/// where there is none.
pub open spec fn first_bad_byte(action: Seq<u8>, from: int) -> int
    decreases action.len() - from,
{
    if from >= action.len() || !is_action_byte(action[from]) {
        from
    } else {
        first_bad_byte(action, from + 1)
    }
}

/// The fault of `action`, checked in the order of [`ActionNameFault`].
pub open spec fn action_name_fault(action: Seq<u8>) -> Option<ActionNameFault> {
    if action.len() == 0 {
        Some(ActionNameFault::Empty)
    } else if action.len() > MAX_ACTION_NAME {
        Some(ActionNameFault::TooLong)
    } else if !is_letter(action[0]) {
        Some(ActionNameFault::BadStart)
    } else if first_bad_byte(action, 1) < action.len() {
        Some(ActionNameFault::BadByte { position: (first_bad_byte(action, 1) - 1) as usize })
    } else {
        None
    }
}

/// `action` is an action key: 1 to 255 bytes, the first an ASCII letter,
/// the others ASCII letters, digits, `-`, `.` or `_`. In short, a match of
/// `[A-Za-z][A-Za-z0-9._-]{0,254}`.
pub open spec fn valid_action_name(action: Seq<u8>) -> bool {
    &&& 1 <= action.len() <= MAX_ACTION_NAME
    &&& is_letter(action[0])
    &&& forall|i: int| 1 <= i < action.len() ==> is_action_byte(#[trigger] action[i])
}

/// `category` is a category: 1 to 64 bytes, the first an ASCII lower-case
/// letter, the others lower-case letters or `.`, the last no `.`.
pub open spec fn valid_category(category: Seq<u8>) -> bool {
    &&& 1 <= category.len() <= MAX_CATEGORY
    &&& is_lower(category[0])
    &&& forall|i: int| 1 <= i < category.len() ==> is_category_byte(#[trigger] category[i])
    &&& category[category.len() - 1] != 0x2e
}

/// An expiry is in range from -1 (left to the service) upwards; 0 means
/// that the notification never expires.
pub open spec fn valid_expire_timeout(expire_timeout: i32) -> bool {
    expire_timeout >= -1
}

proof fn lemma_first_bad_byte(action: Seq<u8>, from: int)
    requires
        0 <= from <= action.len(),
    ensures
        from <= first_bad_byte(action, from) <= action.len(),
        forall|j: int|
            from <= j < first_bad_byte(action, from) ==> is_action_byte(#[trigger] action[j]),
        first_bad_byte(action, from) < action.len() ==> !is_action_byte(
            action[first_bad_byte(action, from)],
        ),
    decreases action.len() - from,
{
    if from < action.len() && is_action_byte(action[from]) {
        lemma_first_bad_byte(action, from + 1);
    }
}

/// An action key has a fault exactly when it is not valid.
pub proof fn lemma_action_name_fault(action: Seq<u8>)
    ensures
        action_name_fault(action) is None <==> valid_action_name(action),
{
    if action.len() >= 1 {
        lemma_first_bad_byte(action, 1);
    }
}

/// Finds what is wrong with an action key, if anything.
pub fn check_action_name(action: &[u8]) -> (r: Result<(), ActionNameFault>)
    ensures
        r is Ok <==> valid_action_name(action@),
        r matches Err(fault) ==> action_name_fault(action@) == Some(fault),
{
    if action.len() == 0 {
        return Err(ActionNameFault::Empty);
    }
    if action.len() > MAX_ACTION_NAME {
        return Err(ActionNameFault::TooLong);
    }
    let first: u8 = action[0];
    if !((0x61 <= first && first <= 0x7a) || (0x41 <= first && first <= 0x5a)) {
        return Err(ActionNameFault::BadStart);
    }
    let mut i: usize = 1;
    while i < action.len()
        invariant
            1 <= i <= action.len() <= MAX_ACTION_NAME,
            is_letter(action@[0]),
            forall|j: int| 1 <= j < i ==> is_action_byte(#[trigger] action@[j]),
            first_bad_byte(action@, i as int) == first_bad_byte(action@, 1),
        decreases action.len() - i,
    {
        let b: u8 = action[i];
        let ok = (0x61 <= b && b <= 0x7a) || (0x41 <= b && b <= 0x5a) || (0x30 <= b && b <= 0x39)
            || b == 0x2d || b == 0x2e || b == 0x5f;
        if !ok {
            return Err(ActionNameFault::BadByte { position: i - 1 });
        }
        i += 1;
    }
    Ok(())
}

/// Whether `action` is an action key.
pub fn is_valid_action_name(action: &[u8]) -> (ok: bool)
    ensures
        ok == valid_action_name(action@),
{
    check_action_name(action).is_ok()
}

/// Whether `category` is a category.
pub fn is_valid_category(category: &[u8]) -> (ok: bool)
    ensures
        ok == valid_category(category@),
{
    if category.len() > MAX_CATEGORY {
        return false;
    }
    if category.len() == 0 {
        return false;
    }
    let first: u8 = category[0];
    if !(0x61 <= first && first <= 0x7a) {
        return false;
    }
    let mut i: usize = 1;
    while i < category.len()
        invariant
            1 <= i <= category.len(),
            forall|j: int| 1 <= j < i ==> is_category_byte(#[trigger] category@[j]),
        decreases category.len() - i,
    {
        let b: u8 = category[i];
        if !((0x61 <= b && b <= 0x7a) || b == 0x2e) {
            return false;
        }
        i += 1;
    }
    category[category.len() - 1] != 0x2e
}

/// Whether an expiry is in range.
pub fn is_valid_expire_timeout(expire_timeout: i32) -> (ok: bool)
    ensures
        ok == valid_expire_timeout(expire_timeout),
{
    expire_timeout >= -1
}

/// Why image parameters were refused.
#[derive(Clone, Copy, Debug, PartialEq, Eq, Structural)]
pub enum ImageError {
    WrongBitsPerSample,
    TooMuchData,
    WrongChannels,
    TooSmall,
    TooLarge,
    DataTooShort,
    RowStrideTooSmall,
}

impl ImageError {
    /// The reason in words, as it is reported to the guest.
    pub open spec fn spec_message(self) -> Seq<char> {
        match self {
            ImageError::WrongBitsPerSample => "Wrong number of bits per sample"@,
            ImageError::TooMuchData => "Too much data"@,
            ImageError::WrongChannels => "Wrong number of channels"@,
            ImageError::TooSmall => "Too small width, height, or stride"@,
            ImageError::TooLarge => "Width or height too large"@,
            ImageError::DataTooShort => "Image too large"@,
            ImageError::RowStrideTooSmall => "Row stride too small"@,
        }
    }

    /// The reason in words, as it is reported to the guest.
    pub fn message(&self) -> (m: &'static str)
        ensures
            m@ == self.spec_message(),
    {
        match self {
            ImageError::WrongBitsPerSample => "Wrong number of bits per sample",
            ImageError::TooMuchData => "Too much data",
            ImageError::WrongChannels => "Wrong number of channels",
            ImageError::TooSmall => "Too small width, height, or stride",
            ImageError::TooLarge => "Width or height too large",
            ImageError::DataTooShort => "Image too large",
            ImageError::RowStrideTooSmall => "Row stride too small",
        }
    }
}

/// The number of channels that an image has by its alpha flag.
pub open spec fn channels_for(has_alpha: bool) -> int {
    if has_alpha {
        4
    } else {
        3
    }
}

/// The first check that `image` fails, in the order in which they are
/// made: sample size, amount of data, channel count, least size, greatest
/// size, rows against the data, row stride against the width. The last two
/// divide rather than multiply, rounding down.
pub open spec fn image_fault(image: ImageView) -> Option<ImageError> {
    let channels = channels_for(image.has_alpha);
    if image.bits_per_sample != 8 {
        Some(ImageError::WrongBitsPerSample)
    } else if image.data.len() > MAX_SIZE {
        Some(ImageError::TooMuchData)
    } else if image.channels != channels {
        Some(ImageError::WrongChannels)
    } else if image.width < 1 || image.height < 1 || image.rowstride < channels {
        Some(ImageError::TooSmall)
    } else if image.width > MAX_WIDTH || image.height > MAX_HEIGHT {
        Some(ImageError::TooLarge)
    } else if (image.data.len() as int) / (image.height as int) < image.rowstride {
        Some(ImageError::DataTooShort)
    } else if (image.rowstride as int) / channels < image.width {
        Some(ImageError::RowStrideTooSmall)
    } else {
        None
    }
}

/// Pixels that passed every check and may be handed to the real service as
/// the `image-data` hint.
#[derive(Clone, Debug, PartialEq, Eq)]
pub struct ImageData {
    pub width: i32,
    pub height: i32,
    pub rowstride: i32,
    pub has_alpha: bool,
    pub bits_per_sample: i32,
    pub channels: i32,
    pub data: Vec<u8>,
}

impl View for ImageData {
    type V = ImageView;

    open spec fn view(&self) -> ImageView {
        ImageView {
            width: self.width,
            height: self.height,
            rowstride: self.rowstride,
            has_alpha: self.has_alpha,
            bits_per_sample: self.bits_per_sample,
            channels: self.channels,
            data: self.data@,
        }
    }
}

/// Every accepted image lies within its data: the rows fit into the
/// buffer, the pixels of a row fit into the row stride, and sample size,
/// channel count, width and height are in range.
pub proof fn lemma_accepted_image_fits(image: ImageView)
    requires
        image_fault(image) is None,
    ensures
        image.rowstride * image.height <= image.data.len(),
        image.channels * image.width <= image.rowstride,
        image.channels == 3 || image.channels == 4,
        image.bits_per_sample == 8,
        1 <= image.width <= MAX_WIDTH,
        1 <= image.height <= MAX_HEIGHT,
{
    let len = image.data.len() as int;
    let height = image.height as int;
    let stride = image.rowstride as int;
    let channels = image.channels as int;
    let width = image.width as int;
    assert(stride * height <= len) by (nonlinear_arith)
        requires
            height >= 1,
            stride <= len / height,
            stride >= 0,
    {
        assert(len / height * height <= len);
        assert(stride * height <= len / height * height);
    }
    assert(channels * width <= stride) by (nonlinear_arith)
        requires
            channels >= 1,
            width <= stride / channels,
            width >= 0,
    {
        assert(stride / channels * channels <= stride);
        assert(channels * width <= stride / channels * channels);
    }
}

/// Checks image parameters and hands the pixels back unchanged, or says
/// which check failed first.
pub fn serialize_image(image: ImageParameters) -> (r: Result<ImageData, ImageError>)
    ensures
        match r {
            Ok(sane) => image_fault(image@) is None && sane@ == image@,
            Err(e) => image_fault(image@) == Some(e),
        },
{
    let ImageParameters {
        untrusted_width,
        untrusted_height,
        untrusted_rowstride,
        untrusted_has_alpha,
        untrusted_bits_per_sample,
        untrusted_channels,
        untrusted_data,
    } = image;
    // booleans do not need to be sanitized
    let has_alpha = untrusted_has_alpha;
    if untrusted_bits_per_sample != 8 {
        return Err(ImageError::WrongBitsPerSample);
    }
    let bits_per_sample = untrusted_bits_per_sample;
    if untrusted_data.len() > MAX_SIZE {
        return Err(ImageError::TooMuchData);
    }
    let data = untrusted_data;
    let channels: i32 = if has_alpha {
        4
    } else {
        3
    };
    if untrusted_channels != channels {
        return Err(ImageError::WrongChannels);
    }
    if untrusted_width < 1 || untrusted_height < 1 || untrusted_rowstride < channels {
        return Err(ImageError::TooSmall);
    }
    if untrusted_width > MAX_WIDTH || untrusted_height > MAX_HEIGHT {
        return Err(ImageError::TooLarge);
    }
    if data.len() as i32 / untrusted_height < untrusted_rowstride {
        return Err(ImageError::DataTooShort);
    }
    if untrusted_rowstride / channels < untrusted_width {
        return Err(ImageError::RowStrideTooSmall);
    }
    Ok(
        ImageData {
            width: untrusted_width,
            height: untrusted_height,
            rowstride: untrusted_rowstride,
            has_alpha,
            bits_per_sample,
            channels,
            data,
        },
    )
}

} // verus!
