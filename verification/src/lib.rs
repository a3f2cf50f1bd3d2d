//! Side-channel metadata for media streams: a key-length-value packet codec,
//! the schema of one example dataset, and the rules by which a stream that
//! carries metadata is split into a payload stream and a metadata stream and
//! joined again.

pub mod dataset;
pub mod flow;
pub mod klv;
pub mod klvtestsrc;
pub mod launch;
pub mod meta;
pub mod metademux;
pub mod metaklv;
pub mod metamux;
pub mod metatrans;
pub mod testtrans;
pub mod text;
