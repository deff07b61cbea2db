//! MPEG-DASH MPD (Media Presentation Description) library: the verified core.
//!
//! Holds the error type, the segment template expander, the ISO 8601 duration
//! grammar, the XPath subset of MPD Patch, the XML element tree that patches are
//! applied to, the parsers that turn XML reader tokens into MPD values, and
//! the writer that turns MPD values into XML writer events. `reread`,
//! `roundtrip`, `event_tokens`, `read_values` and `ignorable` show that what
//! the writer writes is what the reader reads: every attribute of every
//! element, and a whole MPD read from the tokens that a reader reports for
//! its written events, for every MPD that the reader itself can give, white
//! space between tags or not.

pub mod error;
pub mod text;
pub mod template;
pub mod xpath;
pub mod dom;
pub mod types;
pub mod duration;
pub mod writer;
pub mod model;
pub mod reader;
pub mod patch;
pub mod patch_reader;
pub mod xml_io;
pub mod laws;
pub mod reread;
pub mod roundtrip;
pub mod event_tokens;
pub mod read_values;
pub mod ignorable;
pub mod prefix_laws;

pub use error::{Error, ErrorKind};
pub use patch::apply_patch;
pub use patch_reader::parse_patch;
pub use reader::parse;
pub use template::resolve_template;
