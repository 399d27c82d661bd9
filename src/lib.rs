//! A Monte-Carlo path tracer's verified core: the column partition that shares
//! an image among workers and joins their blocks, the bounce decisions of the
//! path loop, the scene's object list, packed pixels and the PPM encoding of
//! the finished image.
pub mod image;
pub mod pixel;
pub mod scene;
pub mod schedule;
pub mod tracer;
