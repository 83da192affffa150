//! Track entries.

use crate::element::{
    lemma_master_view, views_of, Element, ElementType, ElementView, ValueView,
};
use crate::ids;
use crate::records::audio::Audio;
use crate::records::language::{after_iso639_opt, Language, LanguageView};
use crate::records::video::Video;
use crate::records::{clone_bytes, opt_bytes, opt_text};
use vstd::prelude::*;

verus! {

/// The type of a given track.
#[derive(Debug, PartialEq, Eq, Hash, Copy, Clone, Structural)]
pub enum Tracktype {
    /// A video track.
    Video,
    /// An audio track.
    Audio,
    /// A complex track.
    Complex,
    /// A logo track.
    Logo,
    /// A subtitle track.
    Subtitle,
    /// A buttons track.
    Buttons,
    /// A controls track.
    Control,
    /// An unknown track type.
    Unknown,
}

impl Tracktype {
    /// The track type that the stored number stands for.
    pub open spec fn spec_new(tracktype: u64) -> Tracktype {
        if tracktype == 0x01 {
            Tracktype::Video
        } else if tracktype == 0x02 {
            Tracktype::Audio
        } else if tracktype == 0x03 {
            Tracktype::Complex
        } else if tracktype == 0x10 {
            Tracktype::Logo
        } else if tracktype == 0x11 {
            Tracktype::Subtitle
        } else if tracktype == 0x12 {
            Tracktype::Buttons
        } else if tracktype == 0x20 {
            Tracktype::Control
        } else {
            Tracktype::Unknown
        }
    }

    /// Decodes a stored track type.
    pub fn new(tracktype: u64) -> (t: Tracktype)
        ensures
            t == Self::spec_new(tracktype),
    {
        match tracktype {
            0x01 => Tracktype::Video,
            0x02 => Tracktype::Audio,
            0x03 => Tracktype::Complex,
            0x10 => Tracktype::Logo,
            0x11 => Tracktype::Subtitle,
            0x12 => Tracktype::Buttons,
            0x20 => Tracktype::Control,
            _ => Tracktype::Unknown,
        }
    }
}

/// The settings a track may have.
#[derive(Debug, Clone, Copy, PartialEq, Eq, Hash, Structural)]
pub enum Settings {
    /// No settings (for non audio/video tracks).
    NoSettings,
    /// Video settings.
    Video(Video),
    /// Audio settings.
    Audio(Audio),
}

/// A TrackEntry segment in the Tracks segment container.
#[derive(Debug, Clone, PartialEq, Eq, Hash)]
pub struct Track {
    /// The track number, starting from 1.
    pub number: u64,
    /// The track's UID.
    pub uid: u64,
    /// The track's type.
    pub tracktype: Tracktype,
    /// If the track is usable.
    pub enabled: bool,
    /// If the track should be active if no other preferences found.
    pub default: bool,
    /// If the track *must* be active during playback.
    pub forced: bool,
    /// If the track is suitable for users with hearing impairments.
    pub hearing_impaired: Option<bool>,
    /// If the track is suitable for users with visual impairments.
    pub visual_impaired: Option<bool>,
    /// If the track contains textual descriptions of video content.
    pub text_descriptions: Option<bool>,
    /// If the track is in the content's original language.
    pub original: Option<bool>,
    /// If the track contains commentary.
    pub commentary: Option<bool>,
    /// If the track contains blocks using lacing.
    pub interlaced: bool,
    /// Duration of each frame, in nanoseconds.
    pub default_duration: Option<u64>,
    /// A human-readable track name.
    pub name: Option<String>,
    /// The track's language.
    pub language: Option<Language>,
    /// The track's codec's ID.
    pub codec_id: String,
    /// Private data known only to the codec.
    pub codec_private: Option<Vec<u8>>,
    /// The track's codec's human-readable name.
    pub codec_name: Option<String>,
    /// The track's audio or video settings.
    pub settings: Settings,
}

/// The mathematical value of a [`Track`].
pub struct TrackView {
    pub number: u64,
    pub uid: u64,
    pub tracktype: Tracktype,
    pub enabled: bool,
    pub default: bool,
    pub forced: bool,
    pub hearing_impaired: Option<bool>,
    pub visual_impaired: Option<bool>,
    pub text_descriptions: Option<bool>,
    pub original: Option<bool>,
    pub commentary: Option<bool>,
    pub interlaced: bool,
    pub default_duration: Option<u64>,
    pub name: Option<Seq<char>>,
    pub language: Option<LanguageView>,
    pub codec_id: Seq<char>,
    pub codec_private: Option<Seq<u8>>,
    pub codec_name: Option<Seq<char>>,
    pub settings: Settings,
}

impl DeepView for Track {
    type V = TrackView;

    open spec fn deep_view(&self) -> TrackView {
        TrackView {
            number: self.number,
            uid: self.uid,
            tracktype: self.tracktype,
            enabled: self.enabled,
            default: self.default,
            forced: self.forced,
            hearing_impaired: self.hearing_impaired,
            visual_impaired: self.visual_impaired,
            text_descriptions: self.text_descriptions,
            original: self.original,
            commentary: self.commentary,
            interlaced: self.interlaced,
            default_duration: self.default_duration,
            name: opt_text(self.name),
            language: self.language.deep_view(),
            codec_id: self.codec_id@,
            codec_private: opt_bytes(self.codec_private),
            codec_name: opt_text(self.codec_name),
            settings: self.settings,
        }
    }
}

impl View for Track {
    type V = TrackView;

    open spec fn view(&self) -> TrackView {
        self.deep_view()
    }
}

/// What a flag stored as bytes says: its first byte, if it has one, is
/// zero for "no" and anything else for "yes".
pub open spec fn flag_of_bytes(bytes: Seq<u8>) -> Option<bool> {
    if bytes.len() == 0 {
        None
    } else {
        Some(bytes[0] != 0)
    }
}

/// Reads a flag that is stored as bytes.
pub fn first_flag(bytes: &Vec<u8>) -> (flag: Option<bool>)
    ensures
        flag == flag_of_bytes(bytes@),
{
    if bytes.len() == 0 {
        None
    } else {
        Some(bytes[0] != 0)
    }
}

impl TrackView {
    /// The track that states nothing about itself.
    pub open spec fn new() -> TrackView {
        TrackView {
            number: 0,
            uid: 0,
            tracktype: Tracktype::Unknown,
            enabled: true,
            default: true,
            forced: false,
            hearing_impaired: None,
            visual_impaired: None,
            text_descriptions: None,
            original: None,
            commentary: None,
            interlaced: true,
            default_duration: None,
            name: None,
            language: None,
            codec_id: Seq::empty(),
            codec_private: None,
            codec_name: None,
            settings: Settings::NoSettings,
        }
    }

    /// The track after one more child of the TrackEntry has been taken in.
    ///
    /// The five accessibility flags are taken both as unsigned integers
    /// and as bytes. An ISO-639 language does not replace an IETF tag. A
    /// child with an ID or a kind that is not looked for changes nothing.
    pub open spec fn step(self, e: ElementView) -> TrackView {
        match e.val {
            ValueView::UInt(u) => if e.id == ids::TRACKNUMBER {
                TrackView { number: u, ..self }
            } else if e.id == ids::TRACKUID {
                TrackView { uid: u, ..self }
            } else if e.id == ids::TRACKTYPE {
                TrackView { tracktype: Tracktype::spec_new(u), ..self }
            } else if e.id == ids::FLAGENABLED {
                TrackView { enabled: u != 0, ..self }
            } else if e.id == ids::FLAGDEFAULT {
                TrackView { default: u != 0, ..self }
            } else if e.id == ids::FLAGFORCED {
                TrackView { forced: u != 0, ..self }
            } else if e.id == ids::FLAGHEARINGIMPAIRED {
                TrackView { hearing_impaired: Some(u != 0), ..self }
            } else if e.id == ids::FLAGVISUALIMPAIRED {
                TrackView { visual_impaired: Some(u != 0), ..self }
            } else if e.id == ids::FLAGTEXTDESCRIPTIONS {
                TrackView { text_descriptions: Some(u != 0), ..self }
            } else if e.id == ids::FLAGORIGINAL {
                TrackView { original: Some(u != 0), ..self }
            } else if e.id == ids::FLAGCOMMENTARY {
                TrackView { commentary: Some(u != 0), ..self }
            } else if e.id == ids::FLAGLACING {
                TrackView { interlaced: u != 0, ..self }
            } else if e.id == ids::DEFAULTDURATION {
                TrackView { default_duration: Some(u), ..self }
            } else {
                self
            },
            ValueView::Binary(b) => if e.id == ids::FLAGHEARINGIMPAIRED {
                TrackView { hearing_impaired: flag_of_bytes(b), ..self }
            } else if e.id == ids::FLAGVISUALIMPAIRED {
                TrackView { visual_impaired: flag_of_bytes(b), ..self }
            } else if e.id == ids::FLAGTEXTDESCRIPTIONS {
                TrackView { text_descriptions: flag_of_bytes(b), ..self }
            } else if e.id == ids::FLAGORIGINAL {
                TrackView { original: flag_of_bytes(b), ..self }
            } else if e.id == ids::FLAGCOMMENTARY {
                TrackView { commentary: flag_of_bytes(b), ..self }
            } else if e.id == ids::CODEC_PRIVATE {
                TrackView { codec_private: Some(b), ..self }
            } else {
                self
            },
            ValueView::UTF8(s) => if e.id == ids::NAME {
                TrackView { name: Some(s), ..self }
            } else if e.id == ids::CODEC_NAME {
                TrackView { codec_name: Some(s), ..self }
            } else {
                self
            },
            ValueView::String(s) => if e.id == ids::LANGUAGE {
                TrackView { language: after_iso639_opt(self.language, s), ..self }
            } else if e.id == ids::LANGUAGE_IETF {
                TrackView { language: Some(LanguageView::IETF(s)), ..self }
            } else if e.id == ids::CODEC_ID {
                TrackView { codec_id: s, ..self }
            } else {
                self
            },
            ValueView::Master(children) => if e.id == ids::VIDEO {
                TrackView { settings: Settings::Video(Video::of(children)), ..self }
            } else if e.id == ids::AUDIO {
                TrackView { settings: Settings::Audio(Audio::of(children)), ..self }
            } else {
                self
            },
            _ => self,
        }
    }

    /// The track that the children of a TrackEntry amount to, taken in
    /// from first to last.
    pub open spec fn of(children: Seq<ElementView>) -> TrackView
        decreases children.len(),
    {
        if children.len() == 0 {
            Self::new()
        } else {
            Self::of(children.drop_last()).step(children.last())
        }
    }
}

impl Track {
    /// The track that states nothing about itself.
    pub fn new() -> (track: Track)
        ensures
            track@ == TrackView::new(),
    {
        Track {
            number: 0,
            uid: 0,
            tracktype: Tracktype::Unknown,
            enabled: true,
            default: true,
            forced: false,
            hearing_impaired: None,
            visual_impaired: None,
            text_descriptions: None,
            original: None,
            commentary: None,
            interlaced: true,
            default_duration: None,
            name: None,
            language: None,
            codec_id: String::new(),
            codec_private: None,
            codec_name: None,
            settings: Settings::NoSettings,
        }
    }

    /// Returns `true` if track is video.
    pub fn is_video(&self) -> (b: bool)
        ensures
            b == (self.tracktype == Tracktype::Video),
    {
        matches!(self.tracktype, Tracktype::Video)
    }

    /// Returns `true` if track is audio.
    pub fn is_audio(&self) -> (b: bool)
        ensures
            b == (self.tracktype == Tracktype::Audio),
    {
        matches!(self.tracktype, Tracktype::Audio)
    }

    /// Returns `true` if track is subtitle.
    pub fn is_subtitle(&self) -> (b: bool)
        ensures
            b == (self.tracktype == Tracktype::Subtitle),
    {
        matches!(self.tracktype, Tracktype::Subtitle)
    }

    /// Folds the children of a TrackEntry into a track.
    pub fn build_entry(elements: &Vec<Element>) -> (track: Track)
        ensures
            track@ == TrackView::of(views_of(elements@)),
    {
        let mut track = Track::new();
        let ghost views = views_of(elements@);
        let mut i: usize = 0;
        while i < elements.len()
            invariant
                i <= elements.len(),
                views == views_of(elements@),
                track@ == TrackView::of(views.take(i as int)),
            decreases elements.len() - i,
        {
            proof {
                assert(views.take(i + 1).drop_last() =~= views.take(i as int));
            }
            let e = &elements[i];
            match &e.val {
                ElementType::UInt(u) => {
                    let u = *u;
                    if e.id == ids::TRACKNUMBER {
                        track.number = u;
                    } else if e.id == ids::TRACKUID {
                        track.uid = u;
                    } else if e.id == ids::TRACKTYPE {
                        track.tracktype = Tracktype::new(u);
                    } else if e.id == ids::FLAGENABLED {
                        track.enabled = u != 0;
                    } else if e.id == ids::FLAGDEFAULT {
                        track.default = u != 0;
                    } else if e.id == ids::FLAGFORCED {
                        track.forced = u != 0;
                    } else if e.id == ids::FLAGHEARINGIMPAIRED {
                        track.hearing_impaired = Some(u != 0);
                    } else if e.id == ids::FLAGVISUALIMPAIRED {
                        track.visual_impaired = Some(u != 0);
                    } else if e.id == ids::FLAGTEXTDESCRIPTIONS {
                        track.text_descriptions = Some(u != 0);
                    } else if e.id == ids::FLAGORIGINAL {
                        track.original = Some(u != 0);
                    } else if e.id == ids::FLAGCOMMENTARY {
                        track.commentary = Some(u != 0);
                    } else if e.id == ids::FLAGLACING {
                        track.interlaced = u != 0;
                    } else if e.id == ids::DEFAULTDURATION {
                        track.default_duration = Some(u);
                    }
                },
                ElementType::Binary(b) => {
                    if e.id == ids::FLAGHEARINGIMPAIRED {
                        track.hearing_impaired = first_flag(b);
                    } else if e.id == ids::FLAGVISUALIMPAIRED {
                        track.visual_impaired = first_flag(b);
                    } else if e.id == ids::FLAGTEXTDESCRIPTIONS {
                        track.text_descriptions = first_flag(b);
                    } else if e.id == ids::FLAGORIGINAL {
                        track.original = first_flag(b);
                    } else if e.id == ids::FLAGCOMMENTARY {
                        track.commentary = first_flag(b);
                    } else if e.id == ids::CODEC_PRIVATE {
                        track.codec_private = Some(clone_bytes(b));
                    }
                },
                ElementType::UTF8(s) => {
                    if e.id == ids::NAME {
                        track.name = Some(s.clone());
                    } else if e.id == ids::CODEC_NAME {
                        track.codec_name = Some(s.clone());
                    }
                },
                ElementType::String(s) => {
                    if e.id == ids::LANGUAGE {
                        track.language = Language::merge_iso639_opt(track.language, s);
                    } else if e.id == ids::LANGUAGE_IETF {
                        track.language = Some(Language::IETF(s.clone()));
                    } else if e.id == ids::CODEC_ID {
                        track.codec_id = s.clone();
                    }
                },
                ElementType::Master(children) => {
                    proof {
                        lemma_master_view(*children);
                    }
                    if e.id == ids::VIDEO {
                        track.settings = Settings::Video(Video::build(children));
                    } else if e.id == ids::AUDIO {
                        track.settings = Settings::Audio(Audio::build(children));
                    }
                },
                _ => {},
            }
            i = i + 1;
        }
        proof {
            assert(views.take(i as int) =~= views);
        }
        track
    }
}

} // verus!
