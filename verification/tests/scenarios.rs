use matroska::ids;
use matroska::{
    get, Attachment, ChapterEdition, Corruption, FloatBits, Info, IoError, Language, Matroska,
    MatroskaError, Settings, Tag, TagValue, TargetTypeValue, Track, Tracktype,
};

fn id_bytes(id: u32) -> Vec<u8> {
    let all = id.to_be_bytes();
    let skip = all.iter().take_while(|b| **b == 0).count();
    all[skip..].to_vec()
}

fn size_bytes(size: u64) -> Vec<u8> {
    let mut width = 1;
    while width < 8 && size >= (1u64 << (7 * width)) - 1 {
        width += 1;
    }
    let marked = size | (1u64 << (7 * width));
    marked.to_be_bytes()[8 - width..].to_vec()
}

fn el(id: u32, body: &[u8]) -> Vec<u8> {
    let mut out = id_bytes(id);
    out.extend(size_bytes(body.len() as u64));
    out.extend_from_slice(body);
    out
}

fn master(id: u32, children: &[Vec<u8>]) -> Vec<u8> {
    el(id, &children.concat())
}

fn uint(id: u32, value: u64) -> Vec<u8> {
    let all = value.to_be_bytes();
    let skip = all.iter().take_while(|b| **b == 0).count().min(7);
    el(id, &all[skip..])
}

fn text(id: u32, value: &str) -> Vec<u8> {
    el(id, value.as_bytes())
}

fn float64(id: u32, value: f64) -> Vec<u8> {
    el(id, &value.to_bits().to_be_bytes())
}

fn float32(id: u32, value: f32) -> Vec<u8> {
    el(id, &value.to_bits().to_be_bytes())
}

const EBML_HEADER: u32 = 0x1A45_DFA3;
const VOID: u32 = 0xEC;
const CLUSTER: u32 = 0x1F43_B675;

fn ebml_header() -> Vec<u8> {
    master(EBML_HEADER, &[text(0x4282, "matroska")])
}

fn file(segment_children: &[Vec<u8>]) -> Vec<u8> {
    let mut out = ebml_header();
    out.extend(master(ids::SEGMENT, segment_children));
    out
}

fn seek_entry(target: u32, position: u64) -> Vec<u8> {
    master(ids::SEEK, &[el(ids::SEEKID, &id_bytes(target)), uint(ids::SEEKPOSITION, position)])
}

/// A SeekHead of a fixed length for entries whose positions fit in one byte.
fn seek_head(entries: &[(u32, u64)]) -> Vec<u8> {
    let entries: Vec<Vec<u8>> = entries.iter().map(|(id, at)| seek_entry(*id, *at)).collect();
    master(ids::SEEKHEAD, &entries)
}

fn as_f64(bits: FloatBits) -> f64 {
    match bits {
        FloatBits::Single(b) => f64::from(f32::from_bits(b)),
        FloatBits::Double(b) => f64::from_bits(b),
    }
}

fn minimal_info() -> Vec<u8> {
    master(
        ids::INFO,
        &[
            text(ids::TITLE, "Big Buck Bunny"),
            uint(ids::TIMECODESCALE, 1_000_000),
            float64(ids::DURATION, 1015.0),
            text(ids::MUXINGAPP, "m"),
            text(ids::WRITINGAPP, "w"),
        ],
    )
}

fn two_tracks() -> Vec<u8> {
    master(
        ids::TRACKS,
        &[
            master(
                ids::TRACKENTRY,
                &[
                    uint(ids::TRACKNUMBER, 1),
                    uint(ids::TRACKTYPE, 0x01),
                    master(ids::VIDEO, &[uint(ids::PIXELWIDTH, 320), uint(ids::PIXELHEIGHT, 180)]),
                ],
            ),
            master(
                ids::TRACKENTRY,
                &[
                    uint(ids::TRACKNUMBER, 2),
                    uint(ids::TRACKTYPE, 0x02),
                    master(
                        ids::AUDIO,
                        &[uint(ids::CHANNELS, 2), float64(ids::SAMPLINGFREQUENCY, 48000.0)],
                    ),
                ],
            ),
        ],
    )
}

fn date_tags() -> Vec<u8> {
    master(
        ids::TAGS,
        &[master(
            ids::TAG,
            &[
                master(ids::TARGETS, &[uint(ids::TARGETTYPEVALUE, 50)]),
                master(
                    ids::SIMPLETAG,
                    &[text(ids::TAGNAME, "DATE"), text(ids::TAGSTRING, "2012")],
                ),
            ],
        )],
    )
}

#[test]
fn minimal_info_inline() {
    let data = file(&[minimal_info()]);
    let m = Matroska::open(&data).unwrap();
    assert_eq!(m.info.title, Some("Big Buck Bunny".to_string()));
    assert_eq!(m.info.duration, Some(1_015_000_000));
    assert_eq!(m.info.muxing_app, "m");
    assert_eq!(m.info.writing_app, "w");
    assert!(m.tracks.is_empty());
    assert!(m.tags.is_empty());
}

#[test]
fn two_tracks_via_seekhead() {
    let head = seek_head(&[(ids::TRACKS, 0)]);
    let at = head.len() as u64 + 3;
    let head = seek_head(&[(ids::TRACKS, at)]);
    assert_eq!(head.len() as u64 + 3, at);
    let data = file(&[head, el(VOID, &[0]), two_tracks()]);
    let m = Matroska::open(&data).unwrap();
    assert_eq!(m.tracks.len(), 2);
    let video = m.video_tracks();
    assert_eq!(video.len(), 1);
    match &video[0].settings {
        Settings::Video(settings) => {
            assert_eq!(settings.pixel_width, 320);
            assert_eq!(settings.pixel_height, 180);
        }
        _ => panic!("unexpected track settings"),
    }
    let audio = m.audio_tracks();
    assert_eq!(audio.len(), 1);
    match &audio[0].settings {
        Settings::Audio(settings) => {
            assert_eq!(settings.channels, 2);
            assert_eq!(as_f64(settings.sample_rate), 48000.0);
        }
        _ => panic!("unexpected track settings"),
    }
    assert!(m.subtitle_tracks().is_empty());
    assert_eq!(m.info, Info::new());
}

#[test]
fn info() {
    let head = seek_head(&[(ids::INFO, 0), (ids::TRACKS, 0), (ids::TAGS, 0)]);
    let info_at = head.len() as u64;
    let tracks_at = info_at + minimal_info().len() as u64;
    let tags_at = tracks_at + two_tracks().len() as u64 + el(CLUSTER, &[0; 40]).len() as u64;
    let head = seek_head(&[(ids::INFO, info_at), (ids::TRACKS, tracks_at), (ids::TAGS, tags_at)]);
    assert_eq!(head.len() as u64, info_at);
    let data = file(&[head, minimal_info(), two_tracks(), el(CLUSTER, &[0; 40]), date_tags()]);
    let m = Matroska::open(&data).unwrap();
    assert_eq!(m.info.title, Some("Big Buck Bunny".into()));
    assert_eq!(m.info.duration, Some(1015 * 1_000_000));

    assert_eq!(m.tracks.len(), 2);

    let video_track = m.tracks.iter().find(|t| t.tracktype == Tracktype::Video).unwrap();
    match &video_track.settings {
        Settings::Video(settings) => {
            assert_eq!(settings.pixel_width, 320);
            assert_eq!(settings.pixel_height, 180);
        }
        _ => panic!("unexpected track settings"),
    }

    let audio_track = m.tracks.iter().find(|t| t.tracktype == Tracktype::Audio).unwrap();
    match &audio_track.settings {
        Settings::Audio(settings) => {
            assert_eq!(settings.channels, 2);
            assert_eq!(as_f64(settings.sample_rate), 48000.0);
        }
        _ => panic!("unexpected track settings"),
    }

    let year_value = m
        .tags
        .iter()
        .find_map(|t| {
            t.simple.iter().find_map(|t| match t.name.as_str() {
                "DATE" => t.value.clone(),
                _ => None,
            })
        })
        .expect("tag DATE not found");
    match year_value {
        TagValue::String(val) => assert_eq!(val, "2012"),
        _ => panic!("invalid tag value"),
    }
}

fn track_with(children: &[Vec<u8>]) -> Track {
    let data = file(&[master(ids::TRACKS, &[master(ids::TRACKENTRY, children)])]);
    let mut m = Matroska::open(&data).unwrap();
    assert_eq!(m.tracks.len(), 1);
    m.tracks.remove(0)
}

#[test]
fn language_precedence_in_track() {
    let eng = text(ids::LANGUAGE, "eng");
    let ietf = text(ids::LANGUAGE_IETF, "en-US");
    let track = track_with(&[eng.clone(), ietf.clone()]);
    assert_eq!(track.language, Some(Language::IETF("en-US".to_string())));
    let track = track_with(&[ietf, eng.clone()]);
    assert_eq!(track.language, Some(Language::IETF("en-US".to_string())));
    let track = track_with(&[eng]);
    assert_eq!(track.language, Some(Language::ISO639("eng".to_string())));
    let track = track_with(&[]);
    assert_eq!(track.language, None);
}

#[test]
fn tag_lookup() {
    let data = file(&[date_tags()]);
    let m = Matroska::open(&data).unwrap();
    assert_eq!(m.tags[0].simple[0].name, "DATE");
    assert_eq!(m.tags[0].simple[0].value, Some(TagValue::String("2012".to_string())));
    assert_eq!(
        m.tags[0].targets.as_ref().unwrap().target_type_value,
        Some(TargetTypeValue::Episode)
    );
}

#[test]
fn chained_seekhead() {
    let first = seek_head(&[(ids::SEEKHEAD, 0)]);
    let second = seek_head(&[(ids::INFO, 0), (ids::TRACKS, 0)]);
    let info_at = first.len() as u64;
    let tracks_at = info_at + minimal_info().len() as u64;
    let second_at = tracks_at + two_tracks().len() as u64;
    let first = seek_head(&[(ids::SEEKHEAD, second_at)]);
    let second = seek_head(&[(ids::INFO, info_at), (ids::TRACKS, tracks_at)]);
    assert_eq!(first.len() as u64, info_at);
    let data = file(&[first, minimal_info(), two_tracks(), second]);
    let m = Matroska::open(&data).unwrap();
    assert_eq!(m.info.title, Some("Big Buck Bunny".to_string()));
    assert_eq!(m.tracks.len(), 2);
}

#[test]
fn seekhead_cycle_is_corrupt() {
    let first = seek_head(&[(ids::SEEKHEAD, 0)]);
    let second_at = first.len() as u64;
    let first = seek_head(&[(ids::SEEKHEAD, second_at)]);
    let second = seek_head(&[(ids::SEEKHEAD, 0)]);
    let data = file(&[first, second]);
    assert_eq!(
        Matroska::open(&data),
        Err(MatroskaError::CorruptFile { reason: Corruption::SeekHeadCycle })
    );
}

#[test]
fn unknown_element_is_skipped() {
    let data = file(&[el(0x4DAA, &[1, 2, 3, 4]), minimal_info()]);
    let m = Matroska::open(&data).unwrap();
    assert_eq!(m.info.title, Some("Big Buck Bunny".to_string()));
    let data = file(&[master(
        ids::INFO,
        &[el(0x4DAA, &[1, 2, 3, 4]), text(ids::TITLE, "t"), el(0x3F_FFFE, &[])],
    )]);
    let m = Matroska::open(&data).unwrap();
    assert_eq!(m.info.title, Some("t".to_string()));
}

#[test]
fn seekhead_and_sequential_agree() {
    let sections = [minimal_info(), two_tracks(), date_tags()];
    let head = seek_head(&[(ids::INFO, 0), (ids::TRACKS, 0), (ids::TAGS, 0)]);
    let info_at = head.len() as u64;
    let tracks_at = info_at + sections[0].len() as u64;
    let tags_at = tracks_at + sections[1].len() as u64;
    let head = seek_head(&[(ids::INFO, info_at), (ids::TRACKS, tracks_at), (ids::TAGS, tags_at)]);
    let mut with_head = vec![head];
    with_head.extend(sections.iter().cloned());
    let indexed = Matroska::open(&file(&with_head)).unwrap();
    let sequential = Matroska::open(&file(&sections)).unwrap();
    assert_eq!(indexed, sequential);
    assert_eq!(indexed.tracks.len(), 2);
    assert_eq!(indexed.tags.len(), 1);
}

#[test]
fn parsing_twice_gives_equal_values() {
    let data = file(&[minimal_info(), two_tracks(), date_tags()]);
    let copy = data.clone();
    assert_eq!(Matroska::open(&data), Matroska::open(&copy));
}

#[test]
fn child_overrunning_its_parent_is_corrupt() {
    let mut info = id_bytes(ids::INFO);
    info.extend(size_bytes(3));
    info.extend([0x7B, 0xA9, 0x85]);
    info.extend(b"title");
    let data = file(&[info]);
    assert_eq!(
        Matroska::open(&data),
        Err(MatroskaError::CorruptFile { reason: Corruption::ChildOverrun })
    );
    let mut segment = id_bytes(ids::SEGMENT);
    segment.extend(size_bytes(4));
    segment.extend(minimal_info());
    assert_eq!(
        Matroska::open(&segment),
        Err(MatroskaError::CorruptFile { reason: Corruption::ChildOverrun })
    );
}

#[test]
fn truncated_file_is_an_io_error() {
    let data = file(&[minimal_info()]);
    assert_eq!(
        Matroska::open(&data[..data.len() - 1]),
        Err(MatroskaError::Io(IoError::UnexpectedEof))
    );
    assert_eq!(Matroska::open(&ebml_header()), Err(MatroskaError::Io(IoError::UnexpectedEof)));
    assert_eq!(Matroska::open(&[]), Err(MatroskaError::Io(IoError::UnexpectedEof)));
}

#[test]
fn seek_entry_to_a_wrong_element_is_corrupt() {
    let head = seek_head(&[(ids::TRACKS, 0)]);
    let at = head.len() as u64;
    let head = seek_head(&[(ids::TRACKS, at)]);
    let data = file(&[head, minimal_info()]);
    assert_eq!(
        Matroska::open(&data),
        Err(MatroskaError::CorruptFile { reason: Corruption::SeekTargetMismatch })
    );
}

#[test]
fn seek_position_overflow_is_corrupt() {
    let head = seek_head(&[(ids::TRACKS, u64::MAX)]);
    let data = file(&[head]);
    assert_eq!(
        Matroska::open(&data),
        Err(MatroskaError::CorruptFile { reason: Corruption::SeekOffsetOverflow })
    );
}

#[test]
fn nesting_deeper_than_the_limit_is_corrupt() {
    let mut inner = master(ids::CHAPTERATOM, &[]);
    for _ in 0..20 {
        inner = master(ids::CHAPTERATOM, &[inner]);
    }
    let data = file(&[master(ids::CHAPTERS, &[master(ids::EDITIONENTRY, &[inner])])]);
    assert_eq!(
        Matroska::open(&data),
        Err(MatroskaError::CorruptFile { reason: Corruption::NestingTooDeep })
    );
}

#[test]
fn get_finds_a_section_with_and_without_seekhead() {
    let sections = [minimal_info(), two_tracks(), date_tags()];
    let sequential = file(&sections);
    let tracks = get::<Track>(&sequential).unwrap().unwrap();
    assert_eq!(tracks.len(), 2);
    let info = get::<Info>(&sequential).unwrap().unwrap();
    assert_eq!(info.duration, Some(1_015_000_000));
    let tags = Matroska::get::<Tag>(&sequential).unwrap().unwrap();
    assert_eq!(tags.len(), 1);
    assert_eq!(get::<Attachment>(&sequential), Ok(None));
    assert_eq!(get::<ChapterEdition>(&sequential), Ok(None));

    let head = seek_head(&[(ids::TAGS, 0)]);
    let tags_at = (head.len() + sections[0].len() + sections[1].len()) as u64;
    let head = seek_head(&[(ids::TAGS, tags_at)]);
    let mut with_head = vec![head];
    with_head.extend(sections.iter().cloned());
    let indexed = file(&with_head);
    assert_eq!(get::<Tag>(&indexed).unwrap().unwrap(), tags);
    assert_eq!(get::<Track>(&indexed).unwrap().unwrap(), tracks);
}

#[test]
fn later_section_replaces_earlier_one() {
    let first = master(ids::INFO, &[text(ids::TITLE, "first")]);
    let second = master(ids::INFO, &[text(ids::MUXINGAPP, "second")]);
    let m = Matroska::open(&file(&[first, second])).unwrap();
    assert_eq!(m.info.title, None);
    assert_eq!(m.info.muxing_app, "second");
}

#[test]
fn duration_uses_the_default_scale_and_single_floats() {
    let data = file(&[master(ids::INFO, &[float32(ids::DURATION, 2.5)])]);
    let m = Matroska::open(&data).unwrap();
    assert_eq!(m.info.duration, Some(2_500_000));
    let data = file(&[master(
        ids::INFO,
        &[float64(ids::DURATION, 3.0), uint(ids::TIMECODESCALE, 1000)],
    )]);
    let m = Matroska::open(&data).unwrap();
    assert_eq!(m.info.duration, Some(3000));
    let data = file(&[master(ids::INFO, &[uint(ids::TIMECODESCALE, 1000)])]);
    let m = Matroska::open(&data).unwrap();
    assert_eq!(m.info.duration, None);
}
