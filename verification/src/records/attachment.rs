//! Attached files.

use crate::element::{views_of, Element, ElementType, ElementView, ValueView};
use crate::ids;
use crate::records::{clone_bytes, opt_text};
use vstd::prelude::*;

verus! {

/// An attached file (often used for cover art).
#[derive(Debug, Clone, PartialEq, Eq, Hash)]
pub struct Attachment {
    /// A human-friendly name for the file.
    pub description: Option<String>,
    /// The file's name.
    pub name: String,
    /// The file's MIME type.
    pub mime_type: String,
    /// The file's raw data.
    pub data: Vec<u8>,
}

/// The mathematical value of an [`Attachment`].
pub struct AttachmentView {
    pub description: Option<Seq<char>>,
    pub name: Seq<char>,
    pub mime_type: Seq<char>,
    pub data: Seq<u8>,
}

impl DeepView for Attachment {
    type V = AttachmentView;

    open spec fn deep_view(&self) -> AttachmentView {
        AttachmentView {
            description: opt_text(self.description),
            name: self.name@,
            mime_type: self.mime_type@,
            data: self.data@,
        }
    }
}

impl View for Attachment {
    type V = AttachmentView;

    open spec fn view(&self) -> AttachmentView {
        self.deep_view()
    }
}

impl AttachmentView {
    /// The attachment that states nothing about itself.
    pub open spec fn new() -> AttachmentView {
        AttachmentView {
            description: None,
            name: Seq::empty(),
            mime_type: Seq::empty(),
            data: Seq::empty(),
        }
    }

    /// The attachment after one more child of the AttachedFile has been
    /// taken in. A child with an ID or a kind that is not looked for
    /// changes nothing.
    pub open spec fn step(self, e: ElementView) -> AttachmentView {
        match e.val {
            ValueView::UTF8(s) => if e.id == ids::FILEDESCRIPTION {
                AttachmentView { description: Some(s), ..self }
            } else if e.id == ids::FILENAME {
                AttachmentView { name: s, ..self }
            } else {
                self
            },
            ValueView::String(s) => if e.id == ids::FILEMIMETYPE {
                AttachmentView { mime_type: s, ..self }
            } else {
                self
            },
            ValueView::Binary(b) => if e.id == ids::FILEDATA {
                AttachmentView { data: b, ..self }
            } else {
                self
            },
            _ => self,
        }
    }

    /// The attachment that the children of an AttachedFile amount to,
    /// taken in from first to last.
    pub open spec fn of(children: Seq<ElementView>) -> AttachmentView
        decreases children.len(),
    {
        if children.len() == 0 {
            Self::new()
        } else {
            Self::of(children.drop_last()).step(children.last())
        }
    }
}

impl Attachment {
    /// The attachment that states nothing about itself.
    pub fn new() -> (attachment: Attachment)
        ensures
            attachment@ == AttachmentView::new(),
    {
        Attachment {
            description: None,
            name: String::new(),
            mime_type: String::new(),
            data: Vec::new(),
        }
    }

    /// Folds the children of an AttachedFile into an attachment.
    pub fn build_entry(elements: &Vec<Element>) -> (attachment: Attachment)
        ensures
            attachment@ == AttachmentView::of(views_of(elements@)),
    {
        let mut attachment = Attachment::new();
        let ghost views = views_of(elements@);
        let mut i: usize = 0;
        while i < elements.len()
            invariant
                i <= elements.len(),
                views == views_of(elements@),
                attachment@ == AttachmentView::of(views.take(i as int)),
            decreases elements.len() - i,
        {
            proof {
                assert(views.take(i + 1).drop_last() =~= views.take(i as int));
            }
            let e = &elements[i];
            match &e.val {
                ElementType::UTF8(s) => {
                    if e.id == ids::FILEDESCRIPTION {
                        attachment.description = Some(s.clone());
                    } else if e.id == ids::FILENAME {
                        attachment.name = s.clone();
                    }
                },
                ElementType::String(s) => {
                    if e.id == ids::FILEMIMETYPE {
                        attachment.mime_type = s.clone();
                    }
                },
                ElementType::Binary(b) => {
                    if e.id == ids::FILEDATA {
                        attachment.data = clone_bytes(b);
                    }
                },
                _ => {},
            }
            i = i + 1;
        }
        proof {
            assert(views.take(i as int) =~= views);
        }
        attachment
    }
}

} // verus!
