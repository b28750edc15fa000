//! Decision logic of a small command-line helper that checks for the CUDA
//! toolkit and llama.cpp, offers to install them, reads their version output,
//! builds llama.cpp command lines and orders cached Hugging Face models.
//! The process, terminal and file-system work lives with the caller.

pub mod text;
pub mod version;
pub mod setup;
pub mod check_cuda_toolkit;
pub mod check_llama_cpp;
pub mod llama_cpp;
pub mod list_picker;
pub mod model_picker;
