//! Read-only metadata extraction for Matroska files.
//!
//! A Matroska file is a tree of EBML elements. This crate decodes the
//! element headers, materializes the metadata subtrees and folds them into
//! typed records; it never decodes audio or video frames. The input is a
//! byte slice, and every function is specified against a mathematical model
//! of those bytes.
//!
//! The layers, from the bottom up:
//!
//! - [`bigendian`], [`source`], [`vint`], [`primitive`]: bytes, headers and
//!   the bodies of the primitive kinds;
//! - [`kind`], [`element`]: the classifier and the generic element tree;
//! - [`records`], [`parseable`]: the typed records and the sections that
//!   hold them;
//! - [`seek`], [`matroska`]: the SeekHead index and the navigator;
//! - [`laws`]: what is proved of all of it.
//!
//! Where the format leaves a choice, it is made as follows. An element of
//! the reserved "unknown" size is rejected as corrupt. Master elements are
//! followed sixteen deep and SeekHeads through eight links. A duration is
//! the exact product of ticks and scale, rounded to the nearest nanosecond.
//! Numbers stored as floats are handed out as their bits.

pub mod bigendian;
pub mod date;
pub mod element;
pub mod error;
pub mod float;
pub mod ids;
pub mod index;
pub mod kind;
pub mod laws;
pub mod matroska;
pub mod parseable;
pub mod primitive;
pub mod records;
pub mod seek;
pub mod source;
pub mod vint;

pub use date::DateTime;
pub use element::{Element, ElementType};
pub use error::{Corruption, IoError, MatroskaError};
pub use float::FloatBits;
pub use matroska::{get, Matroska};
pub use parseable::Parseable;
pub use records::attachment::Attachment;
pub use records::audio::Audio;
pub use records::chapter::{Chapter, ChapterDisplay, ChapterEdition};
pub use records::info::Info;
pub use records::language::Language;
pub use records::tag::{SimpleTag, Tag, TagValue, Target, TargetTypeValue};
pub use records::track::{Settings, Track, Tracktype};
pub use records::video::{EyeOrder, StereoColors, StereoMode, Video};
pub use source::Source;
