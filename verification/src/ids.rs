//! The element IDs that the metadata readers look for.

use vstd::prelude::*;

verus! {

/// The Segment, which holds everything else.
pub const SEGMENT: u32 = 0x1853_8067;

/// An index of the Segment's sections.
pub const SEEKHEAD: u32 = 0x114D_9B74;

/// One entry of a SeekHead.
pub const SEEK: u32 = 0x4DBB;

/// The ID of the element that a Seek entry leads to.
pub const SEEKID: u32 = 0x53AB;

/// The position of that element, counted from the start of the Segment's body.
pub const SEEKPOSITION: u32 = 0x53AC;

/// The Info section.
pub const INFO: u32 = 0x1549_A966;

/// The Segment's unique ID.
pub const SEGMENTUID: u32 = 0x73A4;

/// The unique ID of the previous Segment.
pub const PREVUID: u32 = 0x3C_B923;

/// The unique ID of the next Segment.
pub const NEXTUID: u32 = 0x3E_B923;

/// The unique ID of a family that the Segment belongs to.
pub const SEGMENTFAMILY: u32 = 0x4444;

/// The file's title.
pub const TITLE: u32 = 0x7BA9;

/// Nanoseconds per tick of the file's timestamps.
pub const TIMECODESCALE: u32 = 0x2A_D7B1;

/// The file's duration in ticks.
pub const DURATION: u32 = 0x4489;

/// The production date.
pub const DATEUTC: u32 = 0x4461;

/// The muxing application or library.
pub const MUXINGAPP: u32 = 0x4D80;

/// The writing application.
pub const WRITINGAPP: u32 = 0x5741;

/// The Tracks section.
pub const TRACKS: u32 = 0x1654_AE6B;

/// One track.
pub const TRACKENTRY: u32 = 0xAE;

/// The number of a track.
pub const TRACKNUMBER: u32 = 0xD7;

/// The unique ID of a track.
pub const TRACKUID: u32 = 0x73C5;

/// The type of a track.
pub const TRACKTYPE: u32 = 0x83;

/// Whether a track is usable.
pub const FLAGENABLED: u32 = 0xB9;

/// Whether a track is active by default.
pub const FLAGDEFAULT: u32 = 0x88;

/// Whether a track must be active.
pub const FLAGFORCED: u32 = 0x55AA;

/// Whether a track suits users with hearing impairments.
pub const FLAGHEARINGIMPAIRED: u32 = 0x55AB;

/// Whether a track suits users with visual impairments.
pub const FLAGVISUALIMPAIRED: u32 = 0x55AC;

/// Whether a track describes the video content in text.
pub const FLAGTEXTDESCRIPTIONS: u32 = 0x55AD;

/// Whether a track is in the content's original language.
pub const FLAGORIGINAL: u32 = 0x55AE;

/// Whether a track holds commentary.
pub const FLAGCOMMENTARY: u32 = 0x55AF;

/// Whether a track may use lacing.
pub const FLAGLACING: u32 = 0x9C;

/// Nanoseconds per frame of a track.
pub const DEFAULTDURATION: u32 = 0x23_E383;

/// The name of a track.
pub const NAME: u32 = 0x536E;

/// The language of a track, as ISO-639.
pub const LANGUAGE: u32 = 0x22_B59C;

/// The language of a track, as an IETF tag.
pub const LANGUAGE_IETF: u32 = 0x22_B59D;

/// The ID of a track's codec.
pub const CODEC_ID: u32 = 0x86;

/// Data that only a track's codec understands.
pub const CODEC_PRIVATE: u32 = 0x63A2;

/// The name of a track's codec.
pub const CODEC_NAME: u32 = 0x25_8688;

/// The video settings of a track.
pub const VIDEO: u32 = 0xE0;

/// Width of the encoded frames in pixels.
pub const PIXELWIDTH: u32 = 0xB0;

/// Height of the encoded frames in pixels.
pub const PIXELHEIGHT: u32 = 0xBA;

/// Width of the frames as displayed.
pub const DISPLAYWIDTH: u32 = 0x54B0;

/// Height of the frames as displayed.
pub const DISPLAYHEIGHT: u32 = 0x54BA;

/// Whether the video is interlaced.
pub const INTERLACED: u32 = 0x9A;

/// The stereo-3D mode of the video.
pub const STEREOMODE: u32 = 0x53B8;

/// The gamma value of the video.
pub const GAMMA: u32 = 0x2F_B523;

/// The audio settings of a track.
pub const AUDIO: u32 = 0xE1;

/// The sampling frequency in Hz.
pub const SAMPLINGFREQUENCY: u32 = 0xB5;

/// The number of channels.
pub const CHANNELS: u32 = 0x9F;

/// Bits per sample.
pub const BITDEPTH: u32 = 0x6264;

/// The Attachments section.
pub const ATTACHMENTS: u32 = 0x1941_A469;

/// One attached file.
pub const ATTACHEDFILE: u32 = 0x61A7;

/// A description of an attached file.
pub const FILEDESCRIPTION: u32 = 0x467E;

/// The name of an attached file.
pub const FILENAME: u32 = 0x466E;

/// The MIME type of an attached file.
pub const FILEMIMETYPE: u32 = 0x4660;

/// The contents of an attached file.
pub const FILEDATA: u32 = 0x465C;

/// The Chapters section.
pub const CHAPTERS: u32 = 0x1043_A770;

/// One edition, a complete set of chapters.
pub const EDITIONENTRY: u32 = 0x45B9;

/// The unique ID of an edition.
pub const EDITIONUID: u32 = 0x45BC;

/// Whether an edition is hidden.
pub const EDITIONFLAGHIDDEN: u32 = 0x45BD;

/// Whether an edition is the default one.
pub const EDITIONFLAGDEFAULT: u32 = 0x45DB;

/// Whether an edition's chapters play in a fixed order.
pub const EDITIONFLAGORDERED: u32 = 0x45DD;

/// One chapter.
pub const CHAPTERATOM: u32 = 0xB6;

/// The unique ID of a chapter.
pub const CHAPTERUID: u32 = 0x73C4;

/// The start of a chapter in nanoseconds.
pub const CHAPTERTIMESTART: u32 = 0x91;

/// The end of a chapter in nanoseconds.
pub const CHAPTERTIMEEND: u32 = 0x92;

/// Whether a chapter is hidden.
pub const CHAPTERFLAGHIDDEN: u32 = 0x98;

/// Whether a chapter is enabled.
pub const CHAPTERFLAGENABLED: u32 = 0x4598;

/// The unique ID of the Segment that a chapter plays.
pub const CHAPTERSEGMENTUID: u32 = 0x6E67;

/// The unique ID of the edition that a chapter plays.
pub const CHAPTERSEGMENTEDITIONUID: u32 = 0x6EBC;

/// The display strings of a chapter.
pub const CHAPTERDISPLAY: u32 = 0x80;

/// The string that names a chapter.
pub const CHAPSTRING: u32 = 0x85;

/// The language of a chapter string, as ISO-639.
pub const CHAPLANGUAGE: u32 = 0x437C;

/// The language of a chapter string, as an IETF tag.
pub const CHAPLANGUAGE_IETF: u32 = 0x437D;

/// The Tags section.
pub const TAGS: u32 = 0x1254_C367;

/// One tag.
pub const TAG: u32 = 0x7373;

/// What a tag applies to.
pub const TARGETS: u32 = 0x63C0;

/// The logical level of a tag's target.
pub const TARGETTYPEVALUE: u32 = 0x68CA;

/// The name of that level.
pub const TARGETTYPE: u32 = 0x63CA;

/// The unique ID of a track that a tag applies to.
pub const TAG_TRACK_UID: u32 = 0x63C5;

/// The unique ID of an edition that a tag applies to.
pub const TAG_EDITION_UID: u32 = 0x63C9;

/// The unique ID of a chapter that a tag applies to.
pub const TAG_CHAPTER_UID: u32 = 0x63C4;

/// The unique ID of an attachment that a tag applies to.
pub const TAG_ATTACHMENT_UID: u32 = 0x63C6;

/// One name and value of a tag.
pub const SIMPLETAG: u32 = 0x67C8;

/// The name of a simple tag.
pub const TAGNAME: u32 = 0x45A3;

/// The language of a simple tag, as ISO-639.
pub const TAGLANGUAGE: u32 = 0x447A;

/// The language of a simple tag, as an IETF tag.
pub const TAGLANGUAGE_IETF: u32 = 0x447B;

/// Whether a simple tag is in the default language.
pub const TAGDEFAULT: u32 = 0x4484;

/// The value of a simple tag, as text.
pub const TAGSTRING: u32 = 0x4487;

/// The value of a simple tag, as bytes.
pub const TAGBINARY: u32 = 0x4485;

} // verus!
