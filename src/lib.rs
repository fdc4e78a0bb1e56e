//! Substrate of a coverage-guided in-process fuzzer: a seedable random
//! source, corpora, fuzzer state, byte-level and dictionary mutators, the
//! token-file grammar, feedbacks, and the bookkeeping of a shadow-memory
//! allocator for binary-only address sanitization.
pub mod error;
pub mod rands;
pub mod inputs;
pub mod corpus;
pub mod decode;
pub mod tokens;
pub mod token_file;
pub mod observers;
pub mod state;
pub mod mutations;
pub mod token_mutations;
pub mod scheduled;
pub mod allocation_map;
pub mod shadow_pages;
pub mod allocator;
pub mod feedbacks;
pub mod fuzzer;
pub mod stages;
