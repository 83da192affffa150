//! An audio track's settings.

use crate::element::{views_of, Element, ElementType, ElementView, ValueView};
use crate::float::FloatBits;
use crate::ids;
use vstd::prelude::*;

verus! {

/// An audio track's specifications.
#[derive(Debug, Clone, Copy, PartialEq, Eq, Hash, Structural)]
pub struct Audio {
    /// The sample rate in Hz.
    pub sample_rate: FloatBits,
    /// The number of audio channels.
    pub channels: u64,
    /// The bit depth of each sample.
    pub bit_depth: Option<u64>,
}

impl Audio {
    /// The settings of an audio track that states none: a rate of zero
    /// and no channels.
    pub open spec fn spec_new() -> Audio {
        Audio { sample_rate: FloatBits::Double(0), channels: 0, bit_depth: None }
    }

    /// The settings after one more child of the Audio element has been
    /// taken in. A child with an ID or a kind that is not looked for
    /// changes nothing.
    pub open spec fn step(self, e: ElementView) -> Audio {
        match e.val {
            ValueView::Float(f) => if e.id == ids::SAMPLINGFREQUENCY {
                Audio { sample_rate: f, ..self }
            } else {
                self
            },
            ValueView::UInt(u) => if e.id == ids::CHANNELS {
                Audio { channels: u, ..self }
            } else if e.id == ids::BITDEPTH {
                Audio { bit_depth: Some(u), ..self }
            } else {
                self
            },
            _ => self,
        }
    }

    /// The settings that the children of an Audio element amount to, taken
    /// in from first to last.
    pub open spec fn of(children: Seq<ElementView>) -> Audio
        decreases children.len(),
    {
        if children.len() == 0 {
            Self::spec_new()
        } else {
            Self::of(children.drop_last()).step(children.last())
        }
    }

    /// The settings of an audio track that states none.
    pub fn new() -> (audio: Audio)
        ensures
            audio == Self::spec_new(),
    {
        Audio { sample_rate: FloatBits::Double(0), channels: 0, bit_depth: None }
    }

    /// Folds the children of an Audio element into the settings.
    pub fn build(elements: &Vec<Element>) -> (audio: Audio)
        ensures
            audio == Self::of(views_of(elements@)),
    {
        let mut audio = Audio::new();
        let ghost views = views_of(elements@);
        let mut i: usize = 0;
        while i < elements.len()
            invariant
                i <= elements.len(),
                views == views_of(elements@),
                audio == Self::of(views.take(i as int)),
            decreases elements.len() - i,
        {
            proof {
                assert(views.take(i + 1).drop_last() =~= views.take(i as int));
            }
            let e = &elements[i];
            match &e.val {
                ElementType::Float(f) => {
                    if e.id == ids::SAMPLINGFREQUENCY {
                        audio.sample_rate = *f;
                    }
                },
                ElementType::UInt(u) => {
                    if e.id == ids::CHANNELS {
                        audio.channels = *u;
                    } else if e.id == ids::BITDEPTH {
                        audio.bit_depth = Some(*u);
                    }
                },
                _ => {},
            }
            i = i + 1;
        }
        proof {
            assert(views.take(i as int) =~= views);
        }
        audio
    }
}

} // verus!
