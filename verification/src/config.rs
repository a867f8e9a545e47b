//! Run configuration handed in by the command line and the environment.
//!
//! None of these settings affects the gateway's protocol; they select
//! models, seeds and one-shot diagnostic modes of the surrounding program.
//! The record lives here so the rest of the program shares one shape for
//! it; collecting the values from arguments and environment variables is
//! the driver's business.

use vstd::prelude::*;

verus! {

/// Settings of one program run.
pub struct Args {
    /// Amount of verbosity in printed status messages.
    pub verbose: u8,
    /// If set, every random-number generator uses this seed, for completely
    /// deterministic runs.
    pub random_seed: Option<usize>,
    /// If set, overrides the model used wherever one is spun up.
    pub ollama_model_name: Option<String>,
    /// If set, the program lists connected compute hardware and exits.
    pub list_connected_hardware: bool,
    /// If set, the program prompts the language model once with this string
    /// and exits.
    pub test_llm_prompt: Option<String>,
    /// If set, the program prompts the image model once with this string
    /// and exits.
    pub test_image_prompt: Option<String>,
    /// Path to a custom model file to load for prompting.
    pub llm_onnx_file: Option<String>,
    /// Path to a tokenizer description to use with it.
    pub llm_tokenizer_json_file: Option<String>,
}

impl Default for Args {
    /// Everything off: quiet, no overrides, no one-shot mode.
    fn default() -> (r: Self)
        ensures
            r.verbose == 0,
            r.random_seed is None,
            r.ollama_model_name is None,
            !r.list_connected_hardware,
            r.test_llm_prompt is None,
            r.test_image_prompt is None,
            r.llm_onnx_file is None,
            r.llm_tokenizer_json_file is None,
    {
        Args {
            verbose: 0,
            random_seed: None,
            ollama_model_name: None,
            list_connected_hardware: false,
            test_llm_prompt: None,
            test_image_prompt: None,
            llm_onnx_file: None,
            llm_tokenizer_json_file: None,
        }
    }
}

} // verus!
