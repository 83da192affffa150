//! The generic EBML element tree.

use crate::date::DateTime;
use crate::error::{Corruption, MatroskaError};
use crate::float::FloatBits;
use crate::kind::{classify, kind_of, Kind};
use crate::primitive::{
    read_bin, read_date, read_float, read_int, read_string, read_uint, read_utf8, spec_read_bin,
    spec_read_date, spec_read_float, spec_read_int, spec_read_string, spec_read_uint,
};
use crate::source::Source;
use crate::vint::{read_element_id_size, spec_header};
use vstd::prelude::*;

verus! {

/// An EBML tree element.
#[derive(Debug, PartialEq, Eq)]
pub struct Element {
    /// The element's ID, width marker included.
    pub id: u32,
    /// Total size of the element, header included.
    pub size: u64,
    /// The decoded body.
    pub val: ElementType,
}

/// The decoded body of an element, by its declared kind.
#[derive(Debug, PartialEq, Eq)]
pub enum ElementType {
    /// A sequence of child elements.
    Master(Vec<Element>),
    /// A signed integer.
    Int(i64),
    /// An unsigned integer.
    UInt(u64),
    /// A string that the format restricts to ASCII.
    String(String),
    /// A Unicode string.
    UTF8(String),
    /// Opaque bytes.
    Binary(Vec<u8>),
    /// A floating-point number.
    Float(FloatBits),
    /// An absolute timestamp.
    Date(DateTime),
}

/// The mathematical value of an [`Element`].
pub struct ElementView {
    pub id: u32,
    pub size: u64,
    pub val: ValueView,
}

/// The mathematical value of an [`ElementType`].
pub enum ValueView {
    Master(Seq<ElementView>),
    Int(i64),
    UInt(u64),
    String(Seq<char>),
    UTF8(Seq<char>),
    Binary(Seq<u8>),
    Float(FloatBits),
    Date(DateTime),
}

/// The value of an element: its fields, with the body by its value.
pub open spec fn element_view(e: Element) -> ElementView
    decreases e,
{
    ElementView { id: e.id, size: e.size, val: value_view(e.val) }
}

/// The value of a body: strings as characters, bytes as a sequence, and
/// children by their values, in order.
pub open spec fn value_view(v: ElementType) -> ValueView
    decreases v,
{
    match v {
        ElementType::Master(children) => ValueView::Master(
            Seq::new(
                children@.len(),
                |i: int|
                    if 0 <= i < children@.len() {
                        element_view(children@[i])
                    } else {
                        arbitrary()
                    },
            ),
        ),
        ElementType::Int(i) => ValueView::Int(i),
        ElementType::UInt(u) => ValueView::UInt(u),
        ElementType::String(s) => ValueView::String(s@),
        ElementType::UTF8(s) => ValueView::UTF8(s@),
        ElementType::Binary(b) => ValueView::Binary(b@),
        ElementType::Float(f) => ValueView::Float(f),
        ElementType::Date(d) => ValueView::Date(d),
    }
}

impl View for Element {
    type V = ElementView;

    open spec fn view(&self) -> ElementView {
        element_view(*self)
    }
}

impl View for ElementType {
    type V = ValueView;

    open spec fn view(&self) -> ValueView {
        value_view(*self)
    }
}

/// The values of a sequence of elements, in order.
pub open spec fn views_of(elements: Seq<Element>) -> Seq<ElementView> {
    Seq::new(elements.len(), |i: int| elements[i]@)
}

/// The value of a master body is the sequence of its children's values.
pub broadcast proof fn lemma_master_view(children: Vec<Element>)
    ensures
        #[trigger] value_view(ElementType::Master(children)) == ValueView::Master(
            views_of(children@),
        ),
{
    assert(value_view(ElementType::Master(children))->Master_0 =~= views_of(children@));
}

/// How many master elements may be nested inside one another below the
/// point where a parse starts. Real files stay far below this.
pub const MAX_DEPTH: u32 = 16;

/// The sum of the total sizes of `elements`.
pub open spec fn total_size(elements: Seq<ElementView>) -> nat
    decreases elements.len(),
{
    if elements.len() == 0 {
        0
    } else {
        total_size(elements.drop_last()) + elements.last().size as nat
    }
}

/// The body of `size` bytes at `pos`, read as the kind that `id` declares.
/// A master body may hold masters nested up to `depth` deep.
pub open spec fn spec_parse_body(data: Seq<u8>, pos: int, id: u32, size: nat, depth: nat) -> Result<
    ValueView,
    MatroskaError,
>
    decreases size, 1nat,
{
    match kind_of(id) {
        Kind::Master => if depth == 0 {
            Err(MatroskaError::CorruptFile { reason: Corruption::NestingTooDeep })
        } else {
            match spec_parse_master(data, pos, size, (depth - 1) as nat) {
                Ok(children) => Ok(ValueView::Master(children)),
                Err(e) => Err(e),
            }
        },
        Kind::Int => match spec_read_int(data, pos, size) {
            Ok(i) => Ok(ValueView::Int(i)),
            Err(e) => Err(e),
        },
        Kind::UInt => match spec_read_uint(data, pos, size) {
            Ok(u) => Ok(ValueView::UInt(u)),
            Err(e) => Err(e),
        },
        Kind::String => match spec_read_string(data, pos, size) {
            Ok(s) => Ok(ValueView::String(s)),
            Err(e) => Err(e),
        },
        Kind::UTF8 => match spec_read_string(data, pos, size) {
            Ok(s) => Ok(ValueView::UTF8(s)),
            Err(e) => Err(e),
        },
        Kind::Binary => match spec_read_bin(data, pos, size) {
            Ok(b) => Ok(ValueView::Binary(b)),
            Err(e) => Err(e),
        },
        Kind::Float => match spec_read_float(data, pos, size) {
            Ok(f) => Ok(ValueView::Float(f)),
            Err(e) => Err(e),
        },
        Kind::Date => match spec_read_date(data, pos, size) {
            Ok(d) => Ok(ValueView::Date(d)),
            Err(e) => Err(e),
        },
    }
}

/// The children that fill exactly the `size` bytes at `pos`, in file
/// order. A child whose header declares more than what is left of the
/// `size` bytes makes the file corrupt; its body is not looked at.
pub open spec fn spec_parse_master(data: Seq<u8>, pos: int, size: nat, depth: nat) -> Result<
    Seq<ElementView>,
    MatroskaError,
>
    decreases size, 0nat,
{
    if size == 0 {
        Ok(Seq::empty())
    } else {
        match spec_header(data, pos) {
            Err(e) => Err(e),
            Ok((id, body, header_len)) => if header_len + body > size {
                Err(MatroskaError::CorruptFile { reason: Corruption::ChildOverrun })
            } else {
                match spec_parse_body(data, pos + header_len, id, body as nat, depth) {
                    Err(e) => Err(e),
                    Ok(val) => match spec_parse_master(
                        data,
                        pos + header_len + body,
                        (size - header_len - body) as nat,
                        depth,
                    ) {
                        Err(e) => Err(e),
                        Ok(rest) => Ok(
                            seq![ElementView { id, size: (header_len + body) as u64, val }] + rest,
                        ),
                    },
                }
            },
        }
    }
}

/// The element at `pos`: its header, then its body.
pub open spec fn spec_parse(data: Seq<u8>, pos: int, depth: nat) -> Result<
    ElementView,
    MatroskaError,
> {
    match spec_header(data, pos) {
        Err(e) => Err(e),
        Ok((id, body, header_len)) => match spec_parse_body(
            data,
            pos + header_len,
            id,
            body as nat,
            depth,
        ) {
            Err(e) => Err(e),
            Ok(val) => Ok(ElementView { id, size: (header_len + body) as u64, val }),
        },
    }
}

/// Whether `res` is the outcome `expected`, the parsed body taken by its value.
pub open spec fn is_body(res: Result<ElementType, MatroskaError>, expected: Result<ValueView, MatroskaError>) -> bool {
    match res {
        Ok(val) => expected == Ok::<ValueView, MatroskaError>(val@),
        Err(e) => expected == Err::<ValueView, MatroskaError>(e),
    }
}

/// Whether `res` is the outcome `expected`, the parsed elements taken by
/// their values.
pub open spec fn are_elements(
    res: Result<Vec<Element>, MatroskaError>,
    expected: Result<Seq<ElementView>, MatroskaError>,
) -> bool {
    match res {
        Ok(elements) => expected == Ok::<Seq<ElementView>, MatroskaError>(views_of(elements@)),
        Err(e) => expected == Err::<Seq<ElementView>, MatroskaError>(e),
    }
}

/// Whether `res` is the outcome `expected`, the parsed element taken by
/// its value.
pub open spec fn is_element(res: Result<Element, MatroskaError>, expected: Result<ElementView, MatroskaError>) -> bool {
    match res {
        Ok(element) => expected == Ok::<ElementView, MatroskaError>(element@),
        Err(e) => expected == Err::<ElementView, MatroskaError>(e),
    }
}

/// The total size of a sequence with one more element at its end.
pub proof fn lemma_total_size_push(elements: Seq<ElementView>, last: ElementView)
    ensures
        total_size(elements.push(last)) == total_size(elements) + last.size,
{
    assert(elements.push(last).drop_last() =~= elements);
}

fn parse_body_nested(r: &mut Source, id: u32, size: u64, depth: u32) -> (res: Result<
    ElementType,
    MatroskaError,
>)
    ensures
        is_body(res, spec_parse_body(old(r).data@, old(r).pos as int, id, size as nat, depth as nat)),
        final(r).data == old(r).data,
        final(r).pos == old(r).pos + (if res is Ok { size } else { 0 }),
    decreases depth, 0nat,
{
    broadcast use lemma_master_view;

    match classify(id) {
        Kind::Master => {
            if depth == 0 {
                return Err(MatroskaError::CorruptFile { reason: Corruption::NestingTooDeep });
            }
            match parse_master_nested(r, size, depth - 1) {
                Ok(children) => Ok(ElementType::Master(children)),
                Err(e) => Err(e),
            }
        },
        Kind::Int => match read_int(r, size) {
            Ok(i) => Ok(ElementType::Int(i)),
            Err(e) => Err(e),
        },
        Kind::UInt => match read_uint(r, size) {
            Ok(u) => Ok(ElementType::UInt(u)),
            Err(e) => Err(e),
        },
        Kind::String => match read_string(r, size) {
            Ok(s) => Ok(ElementType::String(s)),
            Err(e) => Err(e),
        },
        Kind::UTF8 => match read_utf8(r, size) {
            Ok(s) => Ok(ElementType::UTF8(s)),
            Err(e) => Err(e),
        },
        Kind::Binary => match read_bin(r, size) {
            Ok(b) => Ok(ElementType::Binary(b)),
            Err(e) => Err(e),
        },
        Kind::Float => match read_float(r, size) {
            Ok(f) => Ok(ElementType::Float(f)),
            Err(e) => Err(e),
        },
        Kind::Date => match read_date(r, size) {
            Ok(d) => Ok(ElementType::Date(d)),
            Err(e) => Err(e),
        },
    }
}

fn parse_master_nested(r: &mut Source, size: u64, depth: u32) -> (res: Result<
    Vec<Element>,
    MatroskaError,
>)
    ensures
        are_elements(
            res,
            spec_parse_master(old(r).data@, old(r).pos as int, size as nat, depth as nat),
        ),
        res matches Ok(elements) ==> total_size(views_of(elements@)) == size,
        final(r).data == old(r).data,
        final(r).pos == old(r).pos + (if res is Ok { size } else { 0 }),
    decreases depth, 1nat,
{
    let start = r.position();
    let mut elements: Vec<Element> = Vec::new();
    let mut budget = size;
    proof {
        assert(views_of(elements@) =~= Seq::<ElementView>::empty());
    }
    while budget > 0
        invariant
            r.data == old(r).data,
            start == old(r).pos,
            budget <= size,
            r.pos == start + (size - budget),
            total_size(views_of(elements@)) + budget == size,
            spec_parse_master(old(r).data@, start as int, size as nat, depth as nat) == (
            match spec_parse_master(r.data@, r.pos as int, budget as nat, depth as nat) {
                Ok(rest) => Ok::<Seq<ElementView>, MatroskaError>(views_of(elements@) + rest),
                Err(e) => Err::<Seq<ElementView>, MatroskaError>(e),
            }),
        decreases budget,
    {
        let (id, body, header_len) = match read_element_id_size(r) {
            Ok(header) => header,
            Err(e) => {
                r.seek(start);
                return Err(e);
            },
        };
        if header_len > budget || body > budget - header_len {
            r.seek(start);
            return Err(MatroskaError::CorruptFile { reason: Corruption::ChildOverrun });
        }
        let val = match parse_body_nested(r, id, body, depth) {
            Ok(val) => val,
            Err(e) => {
                r.seek(start);
                return Err(e);
            },
        };
        let element = Element { id, size: header_len + body, val };
        proof {
            let before = views_of(elements@);
            assert(views_of(elements@.push(element)) =~= before.push(element@));
            lemma_total_size_push(before, element@);
            let rest = spec_parse_master(
                r.data@,
                r.pos as int,
                (budget - header_len - body) as nat,
                depth as nat,
            );
            if rest is Ok {
                assert(before + (seq![element@] + rest->Ok_0) =~= before.push(element@)
                    + rest->Ok_0);
            }
        }
        elements.push(element);
        budget = budget - header_len - body;
    }
    proof {
        assert(views_of(elements@) + Seq::<ElementView>::empty() =~= views_of(elements@));
    }
    Ok(elements)
}

impl Element {
    /// Reads one element: its header, then its body by the kind that its
    /// ID declares.
    ///
    /// On success the source stands right behind the element. On failure
    /// it stays where it was.
    pub fn parse(r: &mut Source) -> (res: Result<Element, MatroskaError>)
        ensures
            is_element(res, spec_parse(old(r).data@, old(r).pos as int, MAX_DEPTH as nat)),
            final(r).data == old(r).data,
            final(r).pos == old(r).pos + (match res {
                Ok(element) => element.size,
                Err(_) => 0,
            }),
    {
        let start = r.position();
        let (id, size, header_len) = match read_element_id_size(r) {
            Ok(header) => header,
            Err(e) => {
                return Err(e);
            },
        };
        match parse_body_nested(r, id, size, MAX_DEPTH) {
            Ok(val) => Ok(Element { id, size: header_len + size, val }),
            Err(e) => {
                r.seek(start);
                Err(e)
            },
        }
    }

    /// Reads a body of `size` bytes as the kind that `id` declares.
    ///
    /// On success the source stands right behind the body. On failure it
    /// stays where it was.
    pub fn parse_body(r: &mut Source, id: u32, size: u64) -> (res: Result<
        ElementType,
        MatroskaError,
    >)
        ensures
            is_body(
                res,
                spec_parse_body(
                    old(r).data@,
                    old(r).pos as int,
                    id,
                    size as nat,
                    MAX_DEPTH as nat,
                ),
            ),
            final(r).data == old(r).data,
            final(r).pos == old(r).pos + (if res is Ok { size } else { 0 }),
    {
        parse_body_nested(r, id, size, MAX_DEPTH)
    }

    /// Reads the children of a master element whose body is `size` bytes.
    ///
    /// The children's total sizes add up to exactly `size`. On success the
    /// source stands right behind the body. On failure it stays where it
    /// was.
    pub fn parse_master(r: &mut Source, size: u64) -> (res: Result<Vec<Element>, MatroskaError>)
        ensures
            are_elements(
                res,
                spec_parse_master(old(r).data@, old(r).pos as int, size as nat, MAX_DEPTH as nat),
            ),
            res matches Ok(elements) ==> total_size(views_of(elements@)) == size,
            final(r).data == old(r).data,
            final(r).pos == old(r).pos + (if res is Ok { size } else { 0 }),
    {
        parse_master_nested(r, size, MAX_DEPTH)
    }

    /// Reads the children of a master element as [`Element::parse_master`]
    /// does. `expected_child_id` names the child that the caller is after;
    /// it has no effect on the result.
    pub fn parse_master_expecting(
        r: &mut Source,
        size: u64,
        expected_child_id: Option<u32>,
    ) -> (res: Result<Vec<Element>, MatroskaError>)
        ensures
            are_elements(
                res,
                spec_parse_master(old(r).data@, old(r).pos as int, size as nat, MAX_DEPTH as nat),
            ),
            res matches Ok(elements) ==> total_size(views_of(elements@)) == size,
            final(r).data == old(r).data,
            final(r).pos == old(r).pos + (if res is Ok { size } else { 0 }),
    {
        parse_master_nested(r, size, MAX_DEPTH)
    }
}

} // verus!
