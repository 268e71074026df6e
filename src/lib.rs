//! Compiles a line-oriented, tag-annotated markup into an HTML slideshow.

use vstd::prelude::*;

pub mod strings;
pub mod segment;
pub mod element;
pub mod error;
pub mod media;
pub mod tags;
pub mod layout;
pub mod compile;

pub use compile::{compile, media_references, render, Discard, Presentation, SlideParts, HTML};
pub use element::{Element, ElementNature, Organize};
pub use error::CompileError;
pub use layout::{select_layout, Layout, Slide};
pub use media::{file_base64, MediaFile};
pub use segment::{group_by_tag, segment, CleanTag, IsComment, SplitOnTag};
pub use tags::{
    dispatch, footer, heading, image, is_element_ok, logo, mermaid, ordlist, subheading, table,
    text, ulist, video, TagOutcome,
};

verus! {

/// Lines starting with this marker are comments.
pub const COMMENT_MARKER: &'static str = "#";

/// Extension given to the written document.
pub const STD_OUTPUT_FMT: &'static str = "html";

/// Lines starting with this marker open a tag group.
pub const TAG_MARKER: &'static str = ".";

/// Lines starting with this token separate slides.
pub const SEPARATOR: &'static str = "---";

pub const TAG_FOOTER: &'static str = "footer";
pub const TAG_LOGO: &'static str = "logo";
pub const TAG_HEADING: &'static str = "heading";
pub const TAG_SUBHEADING: &'static str = "subheading";
pub const TAG_TABLE: &'static str = "table";
pub const TAG_ULIST: &'static str = "list";
pub const TAG_ORDLIST: &'static str = "ordlist";
pub const TAG_TEXT: &'static str = "text";
pub const TAG_MERMAID: &'static str = "mermaid";
pub const TAG_MERMAIDSCRIPT: &'static str = "mermaidscript";
pub const TAG_VIDEO: &'static str = "video";
pub const TAG_IMAGE: &'static str = "image";
pub const TAG_DRAFT: &'static str = "draft";

} // verus!
