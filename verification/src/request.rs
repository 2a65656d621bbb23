//! What the two entry points of the bridge put before the model: a text
//! request, or a vision request with the image as the model will see it and
//! the preview that tells the host so.

use crate::error::BridgeError;
use crate::host::{HostCall, HostCallView};
use crate::image_processing::{
    argb8888_to_dynamic_image, can_resample, dynamic_image_to_argb8888,
    lemma_decode_then_encode, packed_pixels, resize_image_to_max_edge, resized_dimensions,
    rgba_bytes, DecodeError, Image, ImageView, ResizeError,
};
use vstd::prelude::*;

verus! {

/// The longest edge, in pixels, of an image that goes to the model.
pub const MAX_IMAGE_LENGTH: u32 = 1024;

/// Who a message is from. The bridge speaks for the user only.
#[derive(Clone, Copy, Debug, PartialEq, Eq)]
pub enum MessageRole {
    User,
}

/// A request of one message: its role, its text, and an image for a vision
/// request.
#[derive(Debug, PartialEq, Eq)]
pub struct ChatRequest {
    pub role: MessageRole,
    pub prompt: String,
    pub image: Option<Image>,
}

/// What a [`ChatRequest`] holds.
pub struct ChatRequestView {
    pub role: MessageRole,
    pub prompt: Seq<char>,
    pub image: Option<ImageView>,
}

impl View for ChatRequest {
    type V = ChatRequestView;

    open spec fn view(&self) -> ChatRequestView {
        ChatRequestView {
            role: self.role,
            prompt: self.prompt@,
            image: match self.image {
                Some(image) => Some(image@),
                None => None,
            },
        }
    }
}

/// A vision request and the preview that goes to the host before the session
/// starts.
#[derive(Debug, PartialEq, Eq)]
pub struct VisionPlan {
    pub request: ChatRequest,
    pub preview: HostCall,
}

/// The request of a text prompt: one message from the user with the prompt,
/// without an image.
pub fn text_request(prompt: String) -> (request: ChatRequest)
    ensures
        request@ == (ChatRequestView { role: MessageRole::User, prompt: prompt@, image: None }),
{
    ChatRequest { role: MessageRole::User, prompt, image: None }
}

/// The request of a prompt about an image, given as packed `0xAARRGGBB`
/// pixels: one message from the user with the prompt and the image. The image is decoded and its longest edge limited to
/// [`MAX_IMAGE_LENGTH`]. The preview is that image packed again, with its
/// dimensions: for an image that needed no scaling, the very pixels that came
/// in. A buffer of the wrong length, an image without pixels and an image
/// that the resampler does not take are refused.
pub fn vision_request(prompt: String, pixels: Vec<i32>, width: u32, height: u32) -> (r: Result<
    VisionPlan,
    BridgeError,
>)
    ensures
        match r {
            Err(e) => {
                if pixels@.len() != width * height {
                    e == BridgeError::Decode(DecodeError::LengthMismatch)
                } else if width == 0 || height == 0 {
                    e == BridgeError::Resize(ResizeError::InvalidDimensions)
                } else {
                    &&& e == BridgeError::Resize(ResizeError::TooLarge)
                    &&& width > MAX_IMAGE_LENGTH || height > MAX_IMAGE_LENGTH
                    &&& !can_resample(width, height, MAX_IMAGE_LENGTH)
                }
            },
            Ok(plan) => {
                &&& pixels@.len() == width * height
                &&& width > 0 && height > 0
                &&& (width <= MAX_IMAGE_LENGTH && height <= MAX_IMAGE_LENGTH) || can_resample(
                    width,
                    height,
                    MAX_IMAGE_LENGTH,
                )
                &&& plan.request@.role == MessageRole::User
                &&& plan.request@.prompt == prompt@
                &&& plan.request@.image matches Some(image)
                &&& image.well_formed()
                &&& (image.width as int, image.height as int) == resized_dimensions(
                    width,
                    height,
                    MAX_IMAGE_LENGTH,
                )
                &&& plan.preview@ == (HostCallView::ProcessImageUpdate {
                    pixels: packed_pixels(image.data),
                    width: image.width,
                    height: image.height,
                })
                &&& (width <= MAX_IMAGE_LENGTH && height <= MAX_IMAGE_LENGTH) ==> {
                    &&& image.data == rgba_bytes(pixels@)
                    &&& plan.preview@ == (HostCallView::ProcessImageUpdate {
                        pixels: pixels@,
                        width,
                        height,
                    })
                }
            },
        },
{
    let decoded: Image = match argb8888_to_dynamic_image(width, height, pixels) {
        Ok(image) => image,
        Err(e) => {
            return Err(BridgeError::Decode(e));
        },
    };
    let image: Image = match resize_image_to_max_edge(decoded, MAX_IMAGE_LENGTH) {
        Ok(image) => image,
        Err(e) => {
            return Err(BridgeError::Resize(e));
        },
    };
    proof {
        lemma_decode_then_encode(pixels@);
    }
    let shown: Image = image.clone();
    let preview_width: u32 = shown.width();
    let preview_height: u32 = shown.height();
    let preview = HostCall::ProcessImageUpdate {
        pixels: dynamic_image_to_argb8888(shown),
        width: preview_width,
        height: preview_height,
    };
    let request = ChatRequest { role: MessageRole::User, prompt, image: Some(image) };
    Ok(VisionPlan { request, preview })
}

} // verus!
