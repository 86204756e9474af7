//! Packs a repository into one self-describing XML document for language
//! models: exclusion rules, the folder tree, binary detection, decoding,
//! line numbering, document assembly and token counting.

pub mod classify;
pub mod cli;
pub mod content;
pub mod document;
pub mod filelist;
pub mod matcher;
pub mod numbering;
pub mod params;
pub mod repo;
pub mod text;
pub mod tokenizer;
