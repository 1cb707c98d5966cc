//! Discovery and extraction of course descriptions from a university's
//! public course catalogue, with every text transformation stated over
//! character sequences and proved.

pub mod text;
pub mod year;
pub mod slug;
pub mod fixup;
pub mod html;
pub mod extract;
pub mod degree;
