//! A video track's settings.

use crate::element::{views_of, Element, ElementType, ElementView, ValueView};
use crate::float::FloatBits;
use crate::ids;
use vstd::prelude::*;
use vstd::string::StringExecFns;

verus! {

/// Which eye is displayed first.
#[derive(Debug, Copy, Clone, Hash, Eq, PartialEq, Structural)]
pub enum EyeOrder {
    /// Left eye is displayed first.
    LeftFirst,
    /// Right eye is displayed first.
    RightFirst,
}

/// Which colors are used for anaglyph stereo 3D.
#[derive(Debug, Copy, Clone, Hash, Eq, PartialEq, Structural)]
pub enum StereoColors {
    /// Cyan and red.
    CyanRed,
    /// Green and magenta.
    GreenMagenta,
}

/// How a video track may be displayed in stereo mode.
#[derive(Debug, Copy, Clone, PartialEq, Eq, Hash, Structural)]
pub enum StereoMode {
    /// Mono.
    Mono,
    /// Side by side.
    SideBySide(EyeOrder),
    /// Top and bottom.
    TopBottom(EyeOrder),
    /// Checkboard.
    Checkboard(EyeOrder),
    /// Row interleaved.
    RowInterleaved(EyeOrder),
    /// Column interleaved.
    ColumnInterleaved(EyeOrder),
    /// Anaglyph.
    Anaglyph(StereoColors),
    /// Interlaced.
    Interlaced(EyeOrder),
}

impl EyeOrder {
    /// The eye order in words.
    pub open spec fn text(self) -> Seq<char> {
        match self {
            EyeOrder::LeftFirst => "left eye is first"@,
            EyeOrder::RightFirst => "right eye is first"@,
        }
    }

    /// The eye order in words.
    pub fn as_str(&self) -> (text: &'static str)
        ensures
            text@ == self.text(),
    {
        match self {
            EyeOrder::LeftFirst => "left eye is first",
            EyeOrder::RightFirst => "right eye is first",
        }
    }
}

impl StereoColors {
    /// The color pair in words.
    pub open spec fn text(self) -> Seq<char> {
        match self {
            StereoColors::CyanRed => "cyan/red"@,
            StereoColors::GreenMagenta => "green/magenta"@,
        }
    }

    /// The color pair in words.
    pub fn as_str(&self) -> (text: &'static str)
        ensures
            text@ == self.text(),
    {
        match self {
            StereoColors::CyanRed => "cyan/red",
            StereoColors::GreenMagenta => "green/magenta",
        }
    }
}

/// Builds `name`, then `detail` in round brackets.
fn with_detail(name: &str, detail: &str) -> (text: String)
    ensures
        text@ == name@ + " ("@ + detail@ + ")"@,
{
    let mut text = String::from_str(name);
    text.append(" (");
    text.append(detail);
    text.append(")");
    text
}

impl StereoMode {
    /// The stereo mode in words: its name and, in round brackets, the eye
    /// order or the color pair that it comes with.
    pub open spec fn text(self) -> Seq<char> {
        match self {
            StereoMode::Mono => "mono"@,
            StereoMode::SideBySide(o) => "side by side"@ + " ("@ + o.text() + ")"@,
            StereoMode::TopBottom(o) => "top - bottom"@ + " ("@ + o.text() + ")"@,
            StereoMode::Checkboard(o) => "checkboard"@ + " ("@ + o.text() + ")"@,
            StereoMode::RowInterleaved(o) => "row interleaved"@ + " ("@ + o.text() + ")"@,
            StereoMode::ColumnInterleaved(o) => "column interleaved"@ + " ("@ + o.text() + ")"@,
            StereoMode::Anaglyph(c) => "anaglyph"@ + " ("@ + c.text() + ")"@,
            StereoMode::Interlaced(o) => "interlaced"@ + " ("@ + o.text() + ")"@,
        }
    }

    /// The stereo mode in words.
    pub fn to_text(&self) -> (text: String)
        ensures
            text@ == self.text(),
    {
        match self {
            StereoMode::Mono => String::from_str("mono"),
            StereoMode::SideBySide(o) => with_detail("side by side", o.as_str()),
            StereoMode::TopBottom(o) => with_detail("top - bottom", o.as_str()),
            StereoMode::Checkboard(o) => with_detail("checkboard", o.as_str()),
            StereoMode::RowInterleaved(o) => with_detail("row interleaved", o.as_str()),
            StereoMode::ColumnInterleaved(o) => with_detail("column interleaved", o.as_str()),
            StereoMode::Anaglyph(c) => with_detail("anaglyph", c.as_str()),
            StereoMode::Interlaced(o) => with_detail("interlaced", o.as_str()),
        }
    }

    /// The stereo mode that the stored number stands for, if it is one of
    /// the fifteen defined ones.
    pub open spec fn spec_from_raw(raw: u64) -> Option<StereoMode> {
        if raw == 0 {
            Some(StereoMode::Mono)
        } else if raw == 1 {
            Some(StereoMode::SideBySide(EyeOrder::LeftFirst))
        } else if raw == 2 {
            Some(StereoMode::TopBottom(EyeOrder::RightFirst))
        } else if raw == 3 {
            Some(StereoMode::TopBottom(EyeOrder::LeftFirst))
        } else if raw == 4 {
            Some(StereoMode::Checkboard(EyeOrder::RightFirst))
        } else if raw == 5 {
            Some(StereoMode::Checkboard(EyeOrder::LeftFirst))
        } else if raw == 6 {
            Some(StereoMode::RowInterleaved(EyeOrder::RightFirst))
        } else if raw == 7 {
            Some(StereoMode::RowInterleaved(EyeOrder::LeftFirst))
        } else if raw == 8 {
            Some(StereoMode::ColumnInterleaved(EyeOrder::RightFirst))
        } else if raw == 9 {
            Some(StereoMode::ColumnInterleaved(EyeOrder::LeftFirst))
        } else if raw == 10 {
            Some(StereoMode::Anaglyph(StereoColors::CyanRed))
        } else if raw == 11 {
            Some(StereoMode::SideBySide(EyeOrder::RightFirst))
        } else if raw == 12 {
            Some(StereoMode::Anaglyph(StereoColors::GreenMagenta))
        } else if raw == 13 {
            Some(StereoMode::Interlaced(EyeOrder::LeftFirst))
        } else if raw == 14 {
            Some(StereoMode::Interlaced(EyeOrder::RightFirst))
        } else {
            None
        }
    }

    /// Decodes a stored stereo mode.
    pub fn from_raw(raw: u64) -> (mode: Option<StereoMode>)
        ensures
            mode == Self::spec_from_raw(raw),
    {
        match raw {
            0 => Some(StereoMode::Mono),
            1 => Some(StereoMode::SideBySide(EyeOrder::LeftFirst)),
            2 => Some(StereoMode::TopBottom(EyeOrder::RightFirst)),
            3 => Some(StereoMode::TopBottom(EyeOrder::LeftFirst)),
            4 => Some(StereoMode::Checkboard(EyeOrder::RightFirst)),
            5 => Some(StereoMode::Checkboard(EyeOrder::LeftFirst)),
            6 => Some(StereoMode::RowInterleaved(EyeOrder::RightFirst)),
            7 => Some(StereoMode::RowInterleaved(EyeOrder::LeftFirst)),
            8 => Some(StereoMode::ColumnInterleaved(EyeOrder::RightFirst)),
            9 => Some(StereoMode::ColumnInterleaved(EyeOrder::LeftFirst)),
            10 => Some(StereoMode::Anaglyph(StereoColors::CyanRed)),
            11 => Some(StereoMode::SideBySide(EyeOrder::RightFirst)),
            12 => Some(StereoMode::Anaglyph(StereoColors::GreenMagenta)),
            13 => Some(StereoMode::Interlaced(EyeOrder::LeftFirst)),
            14 => Some(StereoMode::Interlaced(EyeOrder::RightFirst)),
            _ => None,
        }
    }
}

/// What a stored interlacing flag says: 1 is interlaced, 2 is progressive,
/// anything else is undetermined.
pub open spec fn spec_interlaced(raw: u64) -> Option<bool> {
    if raw == 1 {
        Some(true)
    } else if raw == 2 {
        Some(false)
    } else {
        None
    }
}

/// A video track's specifications.
#[derive(Debug, Clone, Copy, PartialEq, Eq, Hash, Structural)]
pub struct Video {
    /// Width of encoded video frames in pixels.
    pub pixel_width: u64,
    /// Height of encoded video frames in pixels.
    pub pixel_height: u64,
    /// Width of video frames to display.
    pub display_width: Option<u64>,
    /// Height of video frames to display.
    pub display_height: Option<u64>,
    /// Whether video is interlaced.
    pub interlaced: Option<bool>,
    /// Stereo video mode.
    pub stereo: Option<StereoMode>,
    /// Gamma.
    pub gamma: Option<FloatBits>,
}

impl Video {
    /// The settings of a video track that states none.
    pub open spec fn spec_new() -> Video {
        Video {
            pixel_width: 0,
            pixel_height: 0,
            display_width: None,
            display_height: None,
            interlaced: None,
            stereo: None,
            gamma: None,
        }
    }

    /// The settings after one more child of the Video element has been
    /// taken in. A child with an ID or a kind that is not looked for
    /// changes nothing.
    pub open spec fn step(self, e: ElementView) -> Video {
        match e.val {
            ValueView::UInt(u) => if e.id == ids::PIXELWIDTH {
                Video { pixel_width: u, ..self }
            } else if e.id == ids::PIXELHEIGHT {
                Video { pixel_height: u, ..self }
            } else if e.id == ids::DISPLAYWIDTH {
                Video { display_width: Some(u), ..self }
            } else if e.id == ids::DISPLAYHEIGHT {
                Video { display_height: Some(u), ..self }
            } else if e.id == ids::INTERLACED {
                Video { interlaced: spec_interlaced(u), ..self }
            } else if e.id == ids::STEREOMODE {
                Video { stereo: StereoMode::spec_from_raw(u), ..self }
            } else {
                self
            },
            ValueView::Float(f) => if e.id == ids::GAMMA {
                Video { gamma: Some(f), ..self }
            } else {
                self
            },
            _ => self,
        }
    }

    /// The settings that the children of a Video element amount to, taken
    /// in from first to last.
    pub open spec fn of(children: Seq<ElementView>) -> Video
        decreases children.len(),
    {
        if children.len() == 0 {
            Self::spec_new()
        } else {
            Self::of(children.drop_last()).step(children.last())
        }
    }

    /// The settings of a video track that states none.
    pub fn new() -> (video: Video)
        ensures
            video == Self::spec_new(),
    {
        Video {
            pixel_width: 0,
            pixel_height: 0,
            display_width: None,
            display_height: None,
            interlaced: None,
            stereo: None,
            gamma: None,
        }
    }

    /// Folds the children of a Video element into the settings.
    pub fn build(elements: &Vec<Element>) -> (video: Video)
        ensures
            video == Self::of(views_of(elements@)),
    {
        let mut video = Video::new();
        let ghost views = views_of(elements@);
        let mut i: usize = 0;
        while i < elements.len()
            invariant
                i <= elements.len(),
                views == views_of(elements@),
                video == Self::of(views.take(i as int)),
            decreases elements.len() - i,
        {
            proof {
                assert(views.take(i + 1).drop_last() =~= views.take(i as int));
            }
            let e = &elements[i];
            match &e.val {
                ElementType::UInt(u) => {
                    let u = *u;
                    if e.id == ids::PIXELWIDTH {
                        video.pixel_width = u;
                    } else if e.id == ids::PIXELHEIGHT {
                        video.pixel_height = u;
                    } else if e.id == ids::DISPLAYWIDTH {
                        video.display_width = Some(u);
                    } else if e.id == ids::DISPLAYHEIGHT {
                        video.display_height = Some(u);
                    } else if e.id == ids::INTERLACED {
                        video.interlaced = if u == 1 {
                            Some(true)
                        } else if u == 2 {
                            Some(false)
                        } else {
                            None
                        };
                    } else if e.id == ids::STEREOMODE {
                        video.stereo = StereoMode::from_raw(u);
                    }
                },
                ElementType::Float(f) => {
                    if e.id == ids::GAMMA {
                        video.gamma = Some(*f);
                    }
                },
                _ => {},
            }
            i = i + 1;
        }
        proof {
            assert(views.take(i as int) =~= views);
        }
        video
    }
}

} // verus!
