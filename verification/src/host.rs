//! The calls that the bridge makes on the host: what they carry, the host
//! method that takes each, and that method's signature.

use crate::utils::{get_jni_signature, signature_text, MethodType, ReturnMethodType};
use vstd::prelude::*;

verus! {

/// One call on the host's callback surface.
#[derive(Debug, PartialEq, Eq)]
pub enum HostCall {
    /// Erase the text streamed so far.
    ClearOutput,
    /// Append a fragment of text to what is shown.
    ProcessChunk(String),
    /// Replace the image preview by packed `0xAARRGGBB` pixels.
    ProcessImageUpdate { pixels: Vec<i32>, width: u32, height: u32 },
}

/// What a [`HostCall`] carries.
pub enum HostCallView {
    ClearOutput,
    ProcessChunk(Seq<char>),
    ProcessImageUpdate { pixels: Seq<i32>, width: u32, height: u32 },
}

impl View for HostCall {
    type V = HostCallView;

    open spec fn view(&self) -> HostCallView {
        match *self {
            HostCall::ClearOutput => HostCallView::ClearOutput,
            HostCall::ProcessChunk(text) => HostCallView::ProcessChunk(text@),
            HostCall::ProcessImageUpdate { pixels, width, height } => {
                HostCallView::ProcessImageUpdate { pixels: pixels@, width, height }
            },
        }
    }
}

/// What each call of a sequence carries.
pub open spec fn calls_view(calls: Seq<HostCall>) -> Seq<HostCallView> {
    calls.map_values(|c: HostCall| c@)
}

/// The text that the host shows after `calls`, made in order, when it showed
/// `shown` before: a clear erases it, a chunk is appended, an image update
/// leaves it alone.
pub open spec fn shown_after(shown: Seq<char>, calls: Seq<HostCallView>) -> Seq<char>
    decreases calls.len(),
{
    if calls.len() == 0 {
        shown
    } else {
        let before = shown_after(shown, calls.drop_last());
        match calls.last() {
            HostCallView::ClearOutput => Seq::empty(),
            HostCallView::ProcessChunk(text) => before + text,
            HostCallView::ProcessImageUpdate { .. } => before,
        }
    }
}

/// Showing two runs of calls one after the other is showing them as one.
pub proof fn lemma_shown_after_concat(
    shown: Seq<char>,
    first: Seq<HostCallView>,
    second: Seq<HostCallView>,
)
    ensures
        shown_after(shown, first + second) == shown_after(shown_after(shown, first), second),
    decreases second.len(),
{
    if second.len() == 0 {
        assert(first + second =~= first);
    } else {
        assert((first + second).drop_last() =~= first + second.drop_last());
        lemma_shown_after_concat(shown, first, second.drop_last());
    }
}

impl HostCallView {
    /// The name of the host method that takes the call.
    pub open spec fn method_name(self) -> Seq<char> {
        match self {
            HostCallView::ClearOutput => "clear_output"@,
            HostCallView::ProcessChunk(_) => "process_chunk"@,
            HostCallView::ProcessImageUpdate { .. } => "process_image_update"@,
        }
    }

    /// The parameter types of the host method that takes the call.
    pub open spec fn parameter_types(self) -> Seq<MethodType> {
        match self {
            HostCallView::ClearOutput => seq![],
            HostCallView::ProcessChunk(_) => seq![MethodType::String],
            HostCallView::ProcessImageUpdate { .. } => seq![
                MethodType::Arr(Box::new(MethodType::I32)),
                MethodType::I32,
                MethodType::I32,
            ],
        }
    }
}

impl HostCall {
    /// The name of the host method that takes this call.
    pub fn method_name(&self) -> (name: &'static str)
        ensures
            name@ == self@.method_name(),
    {
        match self {
            HostCall::ClearOutput => "clear_output",
            HostCall::ProcessChunk(_) => "process_chunk",
            HostCall::ProcessImageUpdate { .. } => "process_image_update",
        }
    }

    /// The signature of the host method that takes this call. Every host
    /// method returns nothing.
    pub fn jni_signature(&self) -> (s: String)
        ensures
            s@ == signature_text(self@.parameter_types(), ReturnMethodType::Void),
    {
        let mut params: Vec<MethodType> = Vec::new();
        match self {
            HostCall::ClearOutput => {},
            HostCall::ProcessChunk(_) => {
                params.push(MethodType::String);
            },
            HostCall::ProcessImageUpdate { .. } => {
                params.push(MethodType::Arr(Box::new(MethodType::I32)));
                params.push(MethodType::I32);
                params.push(MethodType::I32);
            },
        }
        assert(params@ =~= self@.parameter_types());
        get_jni_signature(params.as_slice(), ReturnMethodType::Void)
    }
}

} // verus!
