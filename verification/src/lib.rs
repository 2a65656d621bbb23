//! Bridge between a host application and an on-device generative model runtime.
//!
//! The crate holds the parts of the bridge that compute: the packed-pixel codec,
//! the edge-limited resizer, the load-once model slot, the streaming session
//! controller and the descriptors of the host callbacks.

use vstd::prelude::*;

pub mod error;
pub mod host;
pub mod image_processing;
pub mod inference;
pub mod loader;
pub mod request;
pub mod stats;
pub mod utils;

verus! {

/// Where the files of a model lie. The locations are handed to the loader as
/// they are.
#[derive(Clone, Debug, PartialEq, Eq)]
pub struct Paths {
    /// The model's configuration.
    pub cfg_path: String,
    /// The generation configuration.
    pub gen_cfg_path: String,
    /// The quantized weights.
    pub uqff_path: String,
    /// The preprocessor's configuration.
    pub pre_proc_path: String,
    /// The processor's configuration.
    pub proc_path: String,
    /// The residual weights.
    pub res_path: String,
    /// The tokenizer.
    pub tok_path: String,
    /// The tokenizer's configuration, which holds the chat template.
    pub tok_cfg_path: String,
    /// The importance matrix.
    pub cimatrix_path: String,
}

} // verus!
