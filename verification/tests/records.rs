use matroska::ids;
use matroska::kind::{classify, Kind};
use matroska::seek::{Seek, Seektable};
use matroska::{
    Attachment, Audio, Chapter, ChapterDisplay, ChapterEdition, Corruption, DateTime, Element,
    ElementType, EyeOrder, FloatBits, Info, IoError, Language, MatroskaError, Settings, SimpleTag,
    Source, StereoColors, StereoMode, Tag, TagValue, Target, TargetTypeValue, Track, Tracktype,
    Video,
};

fn leaf(id: u32, val: ElementType) -> Element {
    Element { id, size: 0, val }
}

fn uint(id: u32, value: u64) -> Element {
    leaf(id, ElementType::UInt(value))
}

fn string(id: u32, value: &str) -> Element {
    leaf(id, ElementType::String(value.to_string()))
}

fn utf8(id: u32, value: &str) -> Element {
    leaf(id, ElementType::UTF8(value.to_string()))
}

fn binary(id: u32, value: &[u8]) -> Element {
    leaf(id, ElementType::Binary(value.to_vec()))
}

fn float(id: u32, value: f64) -> Element {
    leaf(id, ElementType::Float(FloatBits::Double(value.to_bits())))
}

fn master(id: u32, children: Vec<Element>) -> Element {
    leaf(id, ElementType::Master(children))
}

#[test]
fn track_defaults() {
    let track = Track::build_entry(&vec![]);
    assert_eq!(track, Track::new());
    assert_eq!(track.number, 0);
    assert_eq!(track.tracktype, Tracktype::Unknown);
    assert!(track.enabled);
    assert!(track.default);
    assert!(!track.forced);
    assert!(track.interlaced);
    assert_eq!(track.hearing_impaired, None);
    assert_eq!(track.settings, Settings::NoSettings);
    assert_eq!(track.codec_id, "");
}

#[test]
fn track_fields() {
    let track = Track::build_entry(&vec![
        uint(ids::TRACKNUMBER, 3),
        uint(ids::TRACKUID, 77),
        uint(ids::TRACKTYPE, 0x11),
        uint(ids::FLAGENABLED, 0),
        uint(ids::FLAGDEFAULT, 0),
        uint(ids::FLAGFORCED, 1),
        uint(ids::FLAGLACING, 0),
        uint(ids::DEFAULTDURATION, 40_000_000),
        utf8(ids::NAME, "Commentary"),
        string(ids::CODEC_ID, "S_TEXT/UTF8"),
        binary(ids::CODEC_PRIVATE, &[1, 2]),
        utf8(ids::CODEC_NAME, "text"),
        utf8(ids::TRACKNUMBER, "ignored"),
        uint(0x1234, 9),
    ]);
    assert_eq!(track.number, 3);
    assert_eq!(track.uid, 77);
    assert_eq!(track.tracktype, Tracktype::Subtitle);
    assert!(track.is_subtitle() && !track.is_video() && !track.is_audio());
    assert!(!track.enabled);
    assert!(!track.default);
    assert!(track.forced);
    assert!(!track.interlaced);
    assert_eq!(track.default_duration, Some(40_000_000));
    assert_eq!(track.name, Some("Commentary".to_string()));
    assert_eq!(track.codec_id, "S_TEXT/UTF8");
    assert_eq!(track.codec_private, Some(vec![1, 2]));
    assert_eq!(track.codec_name, Some("text".to_string()));
}

#[test]
fn track_flags_as_integers_and_as_bytes() {
    let track = Track::build_entry(&vec![
        uint(ids::FLAGHEARINGIMPAIRED, 1),
        uint(ids::FLAGVISUALIMPAIRED, 0),
        binary(ids::FLAGTEXTDESCRIPTIONS, &[1]),
        binary(ids::FLAGORIGINAL, &[0, 1]),
        binary(ids::FLAGCOMMENTARY, &[]),
    ]);
    assert_eq!(track.hearing_impaired, Some(true));
    assert_eq!(track.visual_impaired, Some(false));
    assert_eq!(track.text_descriptions, Some(true));
    assert_eq!(track.original, Some(false));
    assert_eq!(track.commentary, None);
    let track = Track::build_entry(&vec![
        uint(ids::FLAGCOMMENTARY, 5),
        binary(ids::FLAGCOMMENTARY, &[]),
    ]);
    assert_eq!(track.commentary, None);
}

#[test]
fn tracktype_of_each_number() {
    assert_eq!(Tracktype::new(0x01), Tracktype::Video);
    assert_eq!(Tracktype::new(0x02), Tracktype::Audio);
    assert_eq!(Tracktype::new(0x03), Tracktype::Complex);
    assert_eq!(Tracktype::new(0x10), Tracktype::Logo);
    assert_eq!(Tracktype::new(0x11), Tracktype::Subtitle);
    assert_eq!(Tracktype::new(0x12), Tracktype::Buttons);
    assert_eq!(Tracktype::new(0x20), Tracktype::Control);
    assert_eq!(Tracktype::new(0), Tracktype::Unknown);
    assert_eq!(Tracktype::new(0x21), Tracktype::Unknown);
}

#[test]
fn video_settings() {
    let video = Video::build(&vec![
        uint(ids::PIXELWIDTH, 1920),
        uint(ids::PIXELHEIGHT, 1080),
        uint(ids::DISPLAYWIDTH, 16),
        uint(ids::DISPLAYHEIGHT, 9),
        uint(ids::INTERLACED, 2),
        uint(ids::STEREOMODE, 11),
        float(ids::GAMMA, 2.2),
    ]);
    assert_eq!(video.pixel_width, 1920);
    assert_eq!(video.pixel_height, 1080);
    assert_eq!(video.display_width, Some(16));
    assert_eq!(video.display_height, Some(9));
    assert_eq!(video.interlaced, Some(false));
    assert_eq!(video.stereo, Some(StereoMode::SideBySide(EyeOrder::RightFirst)));
    assert_eq!(video.gamma, Some(FloatBits::Double(2.2f64.to_bits())));
    assert_eq!(Video::build(&vec![uint(ids::INTERLACED, 1)]).interlaced, Some(true));
    assert_eq!(Video::build(&vec![uint(ids::INTERLACED, 0)]).interlaced, None);
    assert_eq!(Video::build(&vec![]), Video::new());
    assert_eq!(Video::new().pixel_width, 0);
}

#[test]
fn stereo_modes() {
    let (left, right) = (EyeOrder::LeftFirst, EyeOrder::RightFirst);
    let expected = [
        StereoMode::Mono,
        StereoMode::SideBySide(left),
        StereoMode::TopBottom(right),
        StereoMode::TopBottom(left),
        StereoMode::Checkboard(right),
        StereoMode::Checkboard(left),
        StereoMode::RowInterleaved(right),
        StereoMode::RowInterleaved(left),
        StereoMode::ColumnInterleaved(right),
        StereoMode::ColumnInterleaved(left),
        StereoMode::Anaglyph(StereoColors::CyanRed),
        StereoMode::SideBySide(right),
        StereoMode::Anaglyph(StereoColors::GreenMagenta),
        StereoMode::Interlaced(left),
        StereoMode::Interlaced(right),
    ];
    for (raw, mode) in expected.iter().enumerate() {
        assert_eq!(StereoMode::from_raw(raw as u64), Some(*mode));
    }
    assert_eq!(StereoMode::from_raw(15), None);
    assert_eq!(StereoMode::Mono.to_text(), "mono");
    assert_eq!(StereoMode::SideBySide(left).to_text(), "side by side (left eye is first)");
    assert_eq!(StereoMode::TopBottom(right).to_text(), "top - bottom (right eye is first)");
    assert_eq!(
        StereoMode::Anaglyph(StereoColors::GreenMagenta).to_text(),
        "anaglyph (green/magenta)"
    );
    assert_eq!(StereoColors::CyanRed.as_str(), "cyan/red");
    assert_eq!(EyeOrder::LeftFirst.as_str(), "left eye is first");
}

#[test]
fn audio_settings() {
    let audio = Audio::build(&vec![
        float(ids::SAMPLINGFREQUENCY, 44100.0),
        uint(ids::CHANNELS, 6),
        uint(ids::BITDEPTH, 24),
    ]);
    assert_eq!(audio.sample_rate, FloatBits::Double(44100.0f64.to_bits()));
    assert_eq!(audio.channels, 6);
    assert_eq!(audio.bit_depth, Some(24));
    let audio = Audio::build(&vec![]);
    assert_eq!(audio, Audio::new());
    assert_eq!(audio.sample_rate, FloatBits::Double(0));
    assert_eq!(audio.channels, 0);
}

#[test]
fn track_settings_from_nested_masters() {
    let track = Track::build_entry(&vec![master(ids::VIDEO, vec![uint(ids::PIXELWIDTH, 4)])]);
    assert_eq!(track.settings, Settings::Video(Video { pixel_width: 4, ..Video::new() }));
    let track = Track::build_entry(&vec![
        master(ids::VIDEO, vec![]),
        master(ids::AUDIO, vec![uint(ids::CHANNELS, 1)]),
    ]);
    assert_eq!(track.settings, Settings::Audio(Audio { channels: 1, ..Audio::new() }));
}

#[test]
fn info_fields() {
    let info = Info::build(&vec![
        binary(ids::SEGMENTUID, &[1; 16]),
        binary(ids::PREVUID, &[2; 16]),
        binary(ids::NEXTUID, &[3; 16]),
        binary(ids::SEGMENTFAMILY, &[4; 16]),
        binary(ids::SEGMENTFAMILY, &[5; 16]),
        utf8(ids::TITLE, "T"),
        leaf(ids::DATEUTC, ElementType::Date(DateTime { secs: 1, nanos: 2 })),
        utf8(ids::MUXINGAPP, "mux"),
        utf8(ids::WRITINGAPP, "write"),
    ]);
    assert_eq!(info.uid, Some(vec![1; 16]));
    assert_eq!(info.prev_uid, Some(vec![2; 16]));
    assert_eq!(info.next_uid, Some(vec![3; 16]));
    assert_eq!(info.family_uids, vec![vec![4; 16], vec![5; 16]]);
    assert_eq!(info.title, Some("T".to_string()));
    assert_eq!(info.duration, None);
    assert_eq!(info.date_utc, Some(DateTime { secs: 1, nanos: 2 }));
    assert_eq!(info.muxing_app, "mux");
    assert_eq!(info.writing_app, "write");
}

#[test]
fn duration_is_computed_after_all_children() {
    let info = Info::build(&vec![float(ids::DURATION, 10.0), uint(ids::TIMECODESCALE, 500)]);
    assert_eq!(info.duration, Some(5000));
    let info = Info::build(&vec![uint(ids::TIMECODESCALE, 500), float(ids::DURATION, 10.0)]);
    assert_eq!(info.duration, Some(5000));
    let info = Info::build(&vec![float(ids::DURATION, 10.0)]);
    assert_eq!(info.duration, Some(10_000_000));
}

#[test]
fn scaling_matches_floating_point() {
    let cases: [(f64, u64); 11] = [
        (1015.0, 1_000_000),
        (0.0, 1_000_000),
        (0.5, 1),
        (0.49999, 1),
        (1.5, 1),
        (2.5, 3),
        (1e-320, 1_000_000),
        (87_654.321, 1_000_000),
        (1e18, 18),
        (1e19, 1),
        (123_456_789.125, 8),
    ];
    for (ticks, scale) in cases {
        let exact = (ticks * scale as f64).round();
        let expected = if exact >= 18_446_744_073_709_551_615.0 { u64::MAX } else { exact as u64 };
        assert_eq!(FloatBits::Double(ticks.to_bits()).scale(scale), expected, "{ticks} * {scale}");
    }
    assert_eq!(FloatBits::Double(1e19f64.to_bits()).scale(2), u64::MAX);
    assert_eq!(FloatBits::Double((-1.0f64).to_bits()).scale(5), 0);
    assert_eq!(FloatBits::Double((-0.0f64).to_bits()).scale(5), 0);
    assert_eq!(FloatBits::Double(f64::NAN.to_bits()).scale(5), 0);
    assert_eq!(FloatBits::Double(f64::INFINITY.to_bits()).scale(5), u64::MAX);
    assert_eq!(FloatBits::Double(f64::NEG_INFINITY.to_bits()).scale(5), 0);
    assert_eq!(FloatBits::Double(f64::MAX.to_bits()).scale(1), u64::MAX);
    assert_eq!(FloatBits::Double(f64::MIN_POSITIVE.to_bits()).scale(u64::MAX), 0);
    assert_eq!(FloatBits::Single(2.5f32.to_bits()).scale(1_000_000), 2_500_000);
    assert_eq!(FloatBits::Single(1015.0f32.to_bits()).scale(1_000_000), 1_015_000_000);
    assert_eq!(FloatBits::Single(f32::NAN.to_bits()).scale(7), 0);
    assert_eq!(FloatBits::Single(f32::INFINITY.to_bits()).scale(7), u64::MAX);
    assert_eq!(FloatBits::Single(1e-45f32.to_bits()).scale(1), 0);
    assert_eq!(FloatBits::Single(f32::MAX.to_bits()).scale(1), u64::MAX);
    assert_eq!(FloatBits::Single(0.75f32.to_bits()).scale(2), 2);
}

#[test]
fn attachment_fields() {
    let attachment = Attachment::build_entry(&vec![
        utf8(ids::FILEDESCRIPTION, "cover"),
        utf8(ids::FILENAME, "cover.jpg"),
        string(ids::FILEMIMETYPE, "image/jpeg"),
        binary(ids::FILEDATA, &[0xFF, 0xD8]),
    ]);
    assert_eq!(attachment.description, Some("cover".to_string()));
    assert_eq!(attachment.name, "cover.jpg");
    assert_eq!(attachment.mime_type, "image/jpeg");
    assert_eq!(attachment.data, vec![0xFF, 0xD8]);
    assert_eq!(Attachment::build_entry(&vec![]), Attachment::new());
}

#[test]
fn chapters() {
    let edition = ChapterEdition::build_entry(&vec![
        uint(ids::EDITIONUID, 5),
        uint(ids::EDITIONFLAGHIDDEN, 1),
        uint(ids::EDITIONFLAGDEFAULT, 1),
        uint(ids::EDITIONFLAGORDERED, 1),
        master(
            ids::CHAPTERATOM,
            vec![
                uint(ids::CHAPTERUID, 9),
                uint(ids::CHAPTERTIMESTART, 1_000),
                uint(ids::CHAPTERTIMEEND, 2_000),
                uint(ids::CHAPTERFLAGHIDDEN, 1),
                uint(ids::CHAPTERFLAGENABLED, 1),
                binary(ids::CHAPTERSEGMENTUID, &[7]),
                uint(ids::CHAPTERSEGMENTEDITIONUID, 8),
                master(
                    ids::CHAPTERDISPLAY,
                    vec![utf8(ids::CHAPSTRING, "Intro"), string(ids::CHAPLANGUAGE, "eng")],
                ),
                master(
                    ids::CHAPTERDISPLAY,
                    vec![
                        string(ids::CHAPLANGUAGE_IETF, "fr-CA"),
                        utf8(ids::CHAPSTRING, "Début"),
                        string(ids::CHAPLANGUAGE, "fre"),
                    ],
                ),
            ],
        ),
        master(ids::CHAPTERATOM, vec![]),
    ]);
    assert_eq!(edition.uid, Some(5));
    assert!(edition.hidden && edition.default && edition.ordered);
    assert_eq!(edition.chapters.len(), 2);
    let chapter = &edition.chapters[0];
    assert_eq!(chapter.uid, 9);
    assert_eq!(chapter.time_start, 1_000);
    assert_eq!(chapter.time_end, Some(2_000));
    assert!(chapter.hidden && chapter.enabled);
    assert_eq!(chapter.segment_uid, Some(vec![7]));
    assert_eq!(chapter.segment_edition_uid, Some(8));
    assert_eq!(chapter.display.len(), 2);
    assert_eq!(chapter.display[0].string, "Intro");
    assert_eq!(chapter.display[0].language, Language::ISO639("eng".to_string()));
    assert_eq!(chapter.display[1].string, "Début");
    assert_eq!(chapter.display[1].language, Language::IETF("fr-CA".to_string()));
    assert_eq!(edition.chapters[1], Chapter::new());
    assert!(!Chapter::new().enabled);
    assert_eq!(ChapterDisplay::new().language, Language::ISO639(String::new()));
    assert_eq!(ChapterEdition::build_entry(&vec![]), ChapterEdition::new());
}

#[test]
fn tags() {
    let tag = Tag::build_entry(&vec![
        master(
            ids::TARGETS,
            vec![
                uint(ids::TARGETTYPEVALUE, 30),
                string(ids::TARGETTYPE, "CHAPTER"),
                uint(ids::TAG_TRACK_UID, 1),
                uint(ids::TAG_TRACK_UID, 2),
                uint(ids::TAG_EDITION_UID, 3),
                uint(ids::TAG_CHAPTER_UID, 4),
                uint(ids::TAG_ATTACHMENT_UID, 5),
            ],
        ),
        master(
            ids::SIMPLETAG,
            vec![
                utf8(ids::TAGNAME, "TITLE"),
                string(ids::TAGLANGUAGE_IETF, "de-AT"),
                string(ids::TAGLANGUAGE, "ger"),
                uint(ids::TAGDEFAULT, 1),
                utf8(ids::TAGSTRING, "Titel"),
            ],
        ),
        master(ids::SIMPLETAG, vec![utf8(ids::TAGNAME, "COVER"), binary(ids::TAGBINARY, &[1])]),
    ]);
    let target = tag.targets.as_ref().unwrap();
    assert_eq!(target.target_type_value, Some(TargetTypeValue::Chapter));
    assert_eq!(target.target_type, Some("CHAPTER".to_string()));
    assert_eq!(target.track_uids, vec![1, 2]);
    assert_eq!(target.edition_uids, vec![3]);
    assert_eq!(target.chapter_uids, vec![4]);
    assert_eq!(target.attachment_uids, vec![5]);
    assert_eq!(tag.simple.len(), 2);
    assert_eq!(tag.simple[0].name, "TITLE");
    assert_eq!(tag.simple[0].language, Some(Language::IETF("de-AT".to_string())));
    assert!(tag.simple[0].default);
    assert_eq!(tag.simple[0].value, Some(TagValue::String("Titel".to_string())));
    assert_eq!(tag.simple[1].value, Some(TagValue::Binary(vec![1])));
    assert_eq!(tag.simple[1].language, None);
    assert_eq!(Tag::build_entry(&vec![]), Tag::new());
    assert_eq!(Target::build_entry(&vec![]), Target::new());
    assert_eq!(SimpleTag::build_entry(&vec![]), SimpleTag::new());
}

#[test]
fn target_type_values() {
    let names = [
        (70, TargetTypeValue::Collection, "collection"),
        (60, TargetTypeValue::Season, "season"),
        (50, TargetTypeValue::Episode, "episode"),
        (40, TargetTypeValue::Part, "part"),
        (30, TargetTypeValue::Chapter, "chapter"),
        (20, TargetTypeValue::Scene, "scene"),
        (10, TargetTypeValue::Shot, "shot"),
        (0, TargetTypeValue::Unknown, "unknown"),
        (71, TargetTypeValue::Unknown, "unknown"),
    ];
    for (raw, value, name) in names {
        assert_eq!(TargetTypeValue::from(raw), value);
        assert_eq!(value.as_str(), name);
    }
}

#[test]
fn language_merging() {
    let iso = Language::ISO639("eng".to_string());
    let ietf = Language::IETF("en".to_string());
    assert!(!iso.is_ietf());
    assert!(ietf.is_ietf());
    assert_eq!(iso.merge_iso639(&"ger".to_string()), Language::ISO639("ger".to_string()));
    assert_eq!(ietf.clone().merge_iso639(&"ger".to_string()), ietf);
    assert_eq!(
        Language::merge_iso639_opt(None, &"ger".to_string()),
        Some(Language::ISO639("ger".to_string()))
    );
}

#[test]
fn classifier() {
    assert_eq!(classify(ids::SEGMENT), Kind::Master);
    assert_eq!(classify(0xFB), Kind::Int);
    assert_eq!(classify(ids::TRACKNUMBER), Kind::UInt);
    assert_eq!(classify(ids::CODEC_ID), Kind::String);
    assert_eq!(classify(ids::TITLE), Kind::UTF8);
    assert_eq!(classify(ids::SEEKID), Kind::Binary);
    assert_eq!(classify(ids::DURATION), Kind::Float);
    assert_eq!(classify(ids::DATEUTC), Kind::Date);
    assert_eq!(classify(0x4DAA), Kind::Binary);
    assert_eq!(classify(0), Kind::Binary);
    assert_eq!(classify(ids::FLAGCOMMENTARY), Kind::Binary);
}

#[test]
fn seek_id_folds_bytes() {
    let seek = Seek::build(&vec![
        binary(ids::SEEKID, &[0x16, 0x54, 0xAE, 0x6B]),
        uint(ids::SEEKPOSITION, 4096),
    ]);
    assert_eq!(seek.id(), ids::TRACKS);
    assert_eq!(seek.position, 4096);
    assert_eq!(seek.id, vec![0x16, 0x54, 0xAE, 0x6B]);
    assert_eq!(Seek::new().id(), 0);
    assert_eq!(Seek { id: vec![0xAE], position: 0 }.id(), 0xAE);
    assert_eq!(Seek { id: vec![1, 2, 3, 4, 5], position: 0 }.id(), 0x0203_0405);
}

#[test]
fn seektable_lookup_adds_the_segment_start() {
    let mut table = Seektable::new(100);
    table.absorb(&vec![
        master(
            ids::SEEK,
            vec![binary(ids::SEEKID, &[0x16, 0x54, 0xAE, 0x6B]), uint(ids::SEEKPOSITION, 5)],
        ),
        master(
            ids::SEEK,
            vec![binary(ids::SEEKID, &[0x15, 0x49, 0xA9, 0x66]), uint(ids::SEEKPOSITION, u64::MAX)],
        ),
        uint(ids::SEEKPOSITION, 7),
    ]);
    assert_eq!(table.get(ids::TRACKS), Ok(Some(105)));
    assert_eq!(table.get(ids::TAGS), Ok(None));
    assert_eq!(
        table.get(ids::INFO),
        Err(MatroskaError::CorruptFile { reason: Corruption::SeekOffsetOverflow })
    );
}

#[test]
fn element_tree_and_sizes() {
    let data = [
        0xAE, 0x8C, // TrackEntry, 12 bytes
        0xD7, 0x81, 0x01, // TrackNumber 1
        0xE0, 0x84, // Video, 4 bytes
        0xB0, 0x82, 0x01, 0x40, // PixelWidth 320
        0x4D, 0xAA, 0x80, // unknown, empty
        0xFF,
    ];
    let mut r = Source::new(&data);
    let element = Element::parse(&mut r).unwrap();
    assert_eq!(r.position(), 14);
    assert_eq!(element.id, 0xAE);
    assert_eq!(element.size, 14);
    let children = match &element.val {
        ElementType::Master(children) => children,
        _ => panic!("not a master"),
    };
    assert_eq!(children.iter().map(|c| c.size).sum::<u64>(), 12);
    assert_eq!(children[0], Element { id: 0xD7, size: 3, val: ElementType::UInt(1) });
    assert_eq!(
        children[1],
        Element {
            id: 0xE0,
            size: 6,
            val: ElementType::Master(vec![Element {
                id: 0xB0,
                size: 4,
                val: ElementType::UInt(320)
            }]),
        }
    );
    assert_eq!(children[2], Element { id: 0x4DAA, size: 3, val: ElementType::Binary(vec![]) });

    let mut r = Source::new(&data[2..]);
    let children = Element::parse_master(&mut r, 12).unwrap();
    assert_eq!(children.len(), 3);
    assert_eq!(r.position(), 12);
    let mut r = Source::new(&data[2..]);
    assert_eq!(
        Element::parse_master(&mut r, 11),
        Err(MatroskaError::CorruptFile { reason: Corruption::ChildOverrun })
    );
    assert_eq!(r.position(), 0);
    let mut r = Source::new(&data[2..]);
    assert_eq!(
        Element::parse_master_expecting(&mut r, 15, Some(0xD7)),
        Err(MatroskaError::Io(IoError::UnexpectedEof))
    );
    let mut r = Source::new(&data[2..]);
    assert_eq!(Element::parse_body(&mut r, 0xAE, 3).unwrap(), ElementType::Master(vec![Element {
        id: 0xD7,
        size: 3,
        val: ElementType::UInt(1)
    }]));
    let mut r = Source::new(&data[2..]);
    assert_eq!(Element::parse_body(&mut r, 0x4DAA, 3).unwrap(), ElementType::Binary(vec![0xD7, 0x81, 0x01]));
}

#[test]
fn error_messages() {
    assert_eq!(MatroskaError::InvalidId.message(), "invalid element ID");
    assert_eq!(MatroskaError::InvalidSize.message(), "invalid element size");
    assert_eq!(MatroskaError::InvalidInt.message(), "invalid integer");
    assert_eq!(MatroskaError::InvalidFloat.message(), "invalid float");
    assert_eq!(MatroskaError::InvalidDate.message(), "invalid date");
    assert_eq!(MatroskaError::InvalidUtf8.message(), "invalid UTF-8 string");
    assert_eq!(
        MatroskaError::CorruptFile { reason: Corruption::SeekHeadCycle }.message(),
        "corrupt file: SeekHead cycle"
    );
    assert_eq!(
        MatroskaError::Io(IoError::UnexpectedEof).message(),
        "failed to fill whole buffer"
    );
    assert_eq!(MatroskaError::Io(IoError::InvalidSeek).cause(), Some(IoError::InvalidSeek));
    assert_eq!(MatroskaError::InvalidDate.cause(), None);
}

#[test]
fn source_seeks_and_skips() {
    let data = [1, 2, 3];
    let mut r = Source::new(&data);
    assert_eq!(r.remaining(), 3);
    assert_eq!(r.peek(), Some(1));
    assert_eq!(r.skip(2), Ok(()));
    assert_eq!(r.peek(), Some(3));
    assert_eq!(r.skip(5), Ok(()));
    assert_eq!(r.position(), 7);
    assert_eq!(r.remaining(), 0);
    assert_eq!(r.peek(), None);
    assert_eq!(r.skip(u64::MAX), Err(MatroskaError::Io(IoError::InvalidSeek)));
    assert_eq!(r.position(), 7);
    r.seek(1);
    assert_eq!(r.window(2), &[2, 3]);
    r.consume(1);
    assert_eq!(r.position(), 2);
}
