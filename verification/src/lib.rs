pub mod text;
pub mod identity;
pub mod digest;
pub mod media;
pub mod json;
pub mod model;
pub mod schema;
pub mod timestamp;
pub mod pattern;
pub mod conformance;
pub mod validate;
pub mod jws;
pub mod analysis;
pub mod trust;
pub mod cli;
pub mod cache;
pub mod render;
pub mod roundtrip;
pub mod jsontext;
pub mod keyed;
pub mod oci;
pub mod pack;
pub mod cosign;
pub mod layout;
pub mod unpack;
pub mod repack;
pub mod push;
pub mod import;
pub mod output;
pub mod relayout;
pub mod canonical;
pub mod ordered;
pub mod reorder;
pub mod parsed;
