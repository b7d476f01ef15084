//! The code generators: the `bitstruct!` definition language with its grammar, the storage that a
//! definition stands for and the accessors that it asks for; and the codecs that are derived for
//! enums and newtypes.
pub mod token;
pub mod syntax;
pub mod error;
pub mod pieces;
pub mod definition;
pub mod storage;
pub mod names;
pub mod generics;
pub mod layout;
pub mod struct_plan;
pub mod repr;
pub mod codec_plan;
pub mod template;
pub mod struct_text;
pub mod struct_code;
pub mod codec_text;
pub mod codec_code;
pub mod storage_laws;
pub mod text_laws;
pub mod struct_laws;
pub mod offset_laws;
pub mod codec_laws;
pub mod repr_laws;
pub mod derive_laws;
pub mod grammar_laws;
pub mod name_laws;
pub mod generic_laws;
