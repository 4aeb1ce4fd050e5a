//! The protoform: the structure that delineation gives a text.
//!
//! A protoform is a bare head, a head joined to a body by a separator, or a
//! list of protoforms inside an enclosure. A head is a symbol, possibly
//! qualified by angled arguments. The reader asks structural questions of
//! protoforms only; it never looks at characters.

use vstd::prelude::*;

verus! {

/// The glyph that joins a head to its body: `.`, `!` or `:`.
#[derive(Clone, Copy, Debug, PartialEq, Eq, Structural)]
pub enum Separator {
    Period,
    Exclamation,
    Colon,
}

/// The delimiters around an enclosed list.
#[derive(Clone, Copy, Debug, PartialEq, Eq, Structural)]
pub enum Enclosure {
    /// `{ … }`
    Braced,
    /// `[ … ]`
    Bracketed,
    /// `< … >`
    Angled,
    /// `( … )`
    Parenthesized,
}

/// A symbol, or a symbol qualified by angled arguments (`Name<A B>`).
#[derive(Debug)]
pub enum Head {
    Bare(String),
    Qualified(String, Vec<Protoform>),
}

/// One delineated structure.
#[derive(Debug)]
pub enum Protoform {
    Bare(Head),
    Headed(Head, Separator, Box<Protoform>),
    Enclosed(Enclosure, Vec<Protoform>),
}

/// The protoforms a text delineates into, in order.
#[derive(Debug)]
pub struct Delineation {
    pub protoforms: Vec<Protoform>,
}

// ---------------------------------------------------------------------------
// The mathematical model: symbols as character sequences, lists as sequences
// ---------------------------------------------------------------------------

pub enum HeadModel {
    Bare(Seq<char>),
    Qualified(Seq<char>, Seq<ProtoformModel>),
}

pub enum ProtoformModel {
    Bare(HeadModel),
    Headed(HeadModel, Separator, Box<ProtoformModel>),
    Enclosed(Enclosure, Seq<ProtoformModel>),
}

pub open spec fn head_model(h: Head) -> HeadModel
    decreases h, 0int,
{
    match h {
        Head::Bare(s) => HeadModel::Bare(s@),
        Head::Qualified(s, v) => HeadModel::Qualified(s@, protoform_models(v@)),
    }
}

pub open spec fn protoform_model(p: Protoform) -> ProtoformModel
    decreases p, 0int,
{
    match p {
        Protoform::Bare(h) => ProtoformModel::Bare(head_model(h)),
        Protoform::Headed(h, s, b) => ProtoformModel::Headed(
            head_model(h),
            s,
            Box::new(protoform_model(*b)),
        ),
        Protoform::Enclosed(e, v) => ProtoformModel::Enclosed(e, protoform_models(v@)),
    }
}

pub open spec fn protoform_models(s: Seq<Protoform>) -> Seq<ProtoformModel>
    decreases s, 1int,
{
    if s.len() == 0 {
        Seq::empty()
    } else {
        protoform_models(s.drop_last()).push(protoform_model(s.last()))
    }
}

impl View for Head {
    type V = HeadModel;

    open spec fn view(&self) -> HeadModel {
        head_model(*self)
    }
}

impl View for Protoform {
    type V = ProtoformModel;

    open spec fn view(&self) -> ProtoformModel {
        protoform_model(*self)
    }
}

impl View for Delineation {
    type V = Seq<ProtoformModel>;

    open spec fn view(&self) -> Seq<ProtoformModel> {
        protoform_models(self.protoforms@)
    }
}

/// The model of a list has one model per element, in order.
pub proof fn lemma_protoform_models(s: Seq<Protoform>)
    ensures
        protoform_models(s).len() == s.len(),
        forall|i: int|
            0 <= i < s.len() ==> #[trigger] protoform_models(s)[i] == protoform_model(s[i]),
    decreases s.len(),
{
    if s.len() > 0 {
        lemma_protoform_models(s.drop_last());
    }
}

} // verus!
