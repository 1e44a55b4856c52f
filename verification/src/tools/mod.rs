//! Local tools: file references in the input, content extraction, and the
//! file tools the model may call, all confined to the working directory.

pub mod executor;
pub mod ocr;
pub mod path;
