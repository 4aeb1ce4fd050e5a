//! The declaration model: what an ethos file declares.
//!
//! A file is one of four variants (types, kinds, signal, sema), each a list of
//! sections. Every executable type has a mathematical model in which texts are
//! character sequences and lists are sequences.

use vstd::prelude::*;
use crate::fault::Form;
use crate::protoform::Separator;

verus! {

// ---------------------------------------------------------------------------
// Executable declarations
// ---------------------------------------------------------------------------

/// The unit of declaration: one file, one Rust module.
#[derive(Debug)]
pub enum File {
    Types(Types),
    Kinds(Kinds),
    Signal(Signal),
    Sema(Sema),
}

/// A types file: imports, type declarations, and associations.
#[derive(Debug)]
pub struct Types {
    pub imports: Vec<Import>,
    pub types: Vec<TypeDeclaration>,
    pub associations: Vec<Association>,
}

/// A kinds file: imports and kind declarations.
#[derive(Debug)]
pub struct Kinds {
    pub imports: Vec<Import>,
    pub kinds: Vec<KindDeclaration>,
}

/// A signal file: imports, request variants, response variants, and types.
#[derive(Debug)]
pub struct Signal {
    pub imports: Vec<Import>,
    pub requests: Vec<Variant>,
    pub responses: Vec<Variant>,
    pub types: Vec<TypeDeclaration>,
}

/// A sema file: imports and storage/record types.
#[derive(Debug)]
pub struct Sema {
    pub imports: Vec<Import>,
    pub types: Vec<TypeDeclaration>,
}

#[derive(Debug)]
pub enum Import {
    /// `source:Name`
    Single(String, String),
    /// `source:[ A B ]`
    Multiple(String, Vec<String>),
    /// `source:Name.Emitted`: the source's `Emitted`, known in the file as `Name`.
    Renamed(String, String, String),
}

#[derive(Debug)]
pub enum TypeExpression {
    Named(String),
    Applied(String, Vec<TypeExpression>),
    SelfType,
}

#[derive(Debug)]
pub enum Variant {
    Unit(String),
    Typed(String, TypeExpression),
    InlineStruct(String, Vec<TypeExpression>),
    InlineEnum(String, Vec<Variant>),
}

#[derive(Debug)]
pub enum TypeDeclaration {
    Struct(String, Vec<TypeExpression>),
    Enum(String, Vec<Variant>),
    Alias(String, TypeExpression),
}

/// How a capability takes its receiver: `.` shared, `!` mutable, `:` none.
#[derive(Clone, Copy, Debug, PartialEq, Eq, Structural)]
pub enum Receiver {
    Shared,
    Mutable,
    Static,
}

#[derive(Debug)]
pub struct Capability {
    pub name: String,
    pub receiver: Receiver,
    pub inputs: Vec<TypeExpression>,
    pub yield_type: TypeExpression,
}

#[derive(Debug)]
pub struct AssociatedType {
    pub name: String,
    pub constraints: Vec<String>,
}

#[derive(Debug)]
pub struct AssociatedConstant {
    pub name: String,
    pub ty: TypeExpression,
}

#[derive(Debug)]
pub struct KindConstraint {
    pub bounds: Vec<String>,
}

#[derive(Debug)]
pub enum KindDeclaration {
    Simple {
        name: String,
        constraints: Vec<KindConstraint>,
        capabilities: Vec<Capability>,
    },
    Complex {
        name: String,
        constraints: Vec<KindConstraint>,
        superkinds: Vec<String>,
        associated_types: Vec<AssociatedType>,
        associated_constants: Vec<AssociatedConstant>,
        capabilities: Vec<Capability>,
    },
}

#[derive(Debug)]
pub struct Association {
    pub ty: String,
    pub kinds: Vec<String>,
}

/// What went wrong, with what was found wrong.
#[derive(Debug, PartialEq, Eq)]
pub enum Problem {
    /// A root that is none of the four, or not one protoform.
    Root,
    /// A file that could not be printed as Rust.
    Generation,
    /// This name declared a second time.
    Duplicate(String),
    /// This name, which nothing in scope declares.
    Undeclared(String),
    /// A count that is not the one asked: a name that takes the first count
    /// of arguments given the second, a list of the wrong length (asked,
    /// found), or a declaration with more parameters (the second) than
    /// letters (the first).
    Arity(i64, i64),
    /// A section that must not be empty.
    Empty,
    /// This name: a kind where a type belongs, or a type where a kind belongs.
    Role(String),
    /// A head joined to its body by this separator where another belongs.
    Separator(Separator),
    /// This text, which is no name (or no source path).
    Name(String),
    /// A capability that yields nothing.
    Yield,
    /// Something else where this form belongs.
    Expected(Form),
    /// A structure nested deeper than the reader goes.
    Depth,
    /// An alias that reaches this name, its own, through aliases and containers alone.
    Cycle(String),
}

/// A problem with its texts as character sequences.
pub enum ProblemModel {
    Root,
    Generation,
    Duplicate(Seq<char>),
    Undeclared(Seq<char>),
    Arity(i64, i64),
    Empty,
    Role(Seq<char>),
    Separator(Separator),
    Name(Seq<char>),
    Yield,
    Expected(Form),
    Depth,
    Cycle(Seq<char>),
}

impl View for Problem {
    type V = ProblemModel;

    open spec fn view(&self) -> ProblemModel {
        match self {
            Problem::Root => ProblemModel::Root,
            Problem::Generation => ProblemModel::Generation,
            Problem::Duplicate(n) => ProblemModel::Duplicate(n@),
            Problem::Undeclared(n) => ProblemModel::Undeclared(n@),
            Problem::Arity(k, n) => ProblemModel::Arity(*k, *n),
            Problem::Empty => ProblemModel::Empty,
            Problem::Role(n) => ProblemModel::Role(n@),
            Problem::Separator(s) => ProblemModel::Separator(*s),
            Problem::Name(n) => ProblemModel::Name(n@),
            Problem::Yield => ProblemModel::Yield,
            Problem::Expected(f) => ProblemModel::Expected(*f),
            Problem::Depth => ProblemModel::Depth,
            Problem::Cycle(n) => ProblemModel::Cycle(n@),
        }
    }
}

/// A fault: the problem, at the path of the structure at fault.
#[derive(Debug)]
pub struct Fault {
    pub path: Vec<i64>,
    pub problem: Problem,
}

// ---------------------------------------------------------------------------
// Models
// ---------------------------------------------------------------------------

pub enum ImportModel {
    Single(Seq<char>, Seq<char>),
    Multiple(Seq<char>, Seq<Seq<char>>),
    Renamed(Seq<char>, Seq<char>, Seq<char>),
}

pub enum TypeExpressionModel {
    Named(Seq<char>),
    Applied(Seq<char>, Seq<TypeExpressionModel>),
    SelfType,
}

pub enum VariantModel {
    Unit(Seq<char>),
    Typed(Seq<char>, TypeExpressionModel),
    InlineStruct(Seq<char>, Seq<TypeExpressionModel>),
    InlineEnum(Seq<char>, Seq<VariantModel>),
}

pub enum TypeDeclarationModel {
    Struct(Seq<char>, Seq<TypeExpressionModel>),
    Enum(Seq<char>, Seq<VariantModel>),
    Alias(Seq<char>, TypeExpressionModel),
}

pub struct CapabilityModel {
    pub name: Seq<char>,
    pub receiver: Receiver,
    pub inputs: Seq<TypeExpressionModel>,
    pub yield_type: TypeExpressionModel,
}

pub struct AssociatedTypeModel {
    pub name: Seq<char>,
    pub constraints: Seq<Seq<char>>,
}

pub struct AssociatedConstantModel {
    pub name: Seq<char>,
    pub ty: TypeExpressionModel,
}

pub enum KindDeclarationModel {
    Simple {
        name: Seq<char>,
        constraints: Seq<Seq<Seq<char>>>,
        capabilities: Seq<CapabilityModel>,
    },
    Complex {
        name: Seq<char>,
        constraints: Seq<Seq<Seq<char>>>,
        superkinds: Seq<Seq<char>>,
        associated_types: Seq<AssociatedTypeModel>,
        associated_constants: Seq<AssociatedConstantModel>,
        capabilities: Seq<CapabilityModel>,
    },
}

pub struct AssociationModel {
    pub ty: Seq<char>,
    pub kinds: Seq<Seq<char>>,
}

pub enum FileModel {
    Types {
        imports: Seq<ImportModel>,
        types: Seq<TypeDeclarationModel>,
        associations: Seq<AssociationModel>,
    },
    Kinds { imports: Seq<ImportModel>, kinds: Seq<KindDeclarationModel> },
    Signal {
        imports: Seq<ImportModel>,
        requests: Seq<VariantModel>,
        responses: Seq<VariantModel>,
        types: Seq<TypeDeclarationModel>,
    },
    Sema { imports: Seq<ImportModel>, types: Seq<TypeDeclarationModel> },
}

pub open spec fn texts(s: Seq<String>) -> Seq<Seq<char>> {
    s.map_values(|t: String| t@)
}

pub open spec fn type_expression_model(t: TypeExpression) -> TypeExpressionModel
    decreases t, 0int,
{
    match t {
        TypeExpression::Named(n) => TypeExpressionModel::Named(n@),
        TypeExpression::Applied(c, a) => TypeExpressionModel::Applied(
            c@,
            type_expression_models(a@),
        ),
        TypeExpression::SelfType => TypeExpressionModel::SelfType,
    }
}

pub open spec fn type_expression_models(s: Seq<TypeExpression>) -> Seq<TypeExpressionModel>
    decreases s, 1int,
{
    if s.len() == 0 {
        Seq::empty()
    } else {
        type_expression_models(s.drop_last()).push(type_expression_model(s.last()))
    }
}

pub open spec fn variant_model(v: Variant) -> VariantModel
    decreases v, 0int,
{
    match v {
        Variant::Unit(n) => VariantModel::Unit(n@),
        Variant::Typed(n, t) => VariantModel::Typed(n@, type_expression_model(t)),
        Variant::InlineStruct(n, f) => VariantModel::InlineStruct(n@, type_expression_models(f@)),
        Variant::InlineEnum(n, vs) => VariantModel::InlineEnum(n@, variant_models(vs@)),
    }
}

pub open spec fn variant_models(s: Seq<Variant>) -> Seq<VariantModel>
    decreases s, 1int,
{
    if s.len() == 0 {
        Seq::empty()
    } else {
        variant_models(s.drop_last()).push(variant_model(s.last()))
    }
}

pub proof fn lemma_type_expression_models(s: Seq<TypeExpression>)
    ensures
        type_expression_models(s).len() == s.len(),
        forall|i: int|
            0 <= i < s.len() ==> #[trigger] type_expression_models(s)[i]
                == type_expression_model(s[i]),
    decreases s.len(),
{
    if s.len() > 0 {
        lemma_type_expression_models(s.drop_last());
    }
}

pub proof fn lemma_variant_models(s: Seq<Variant>)
    ensures
        variant_models(s).len() == s.len(),
        forall|i: int| 0 <= i < s.len() ==> #[trigger] variant_models(s)[i] == variant_model(s[i]),
    decreases s.len(),
{
    if s.len() > 0 {
        lemma_variant_models(s.drop_last());
    }
}

impl View for Import {
    type V = ImportModel;

    open spec fn view(&self) -> ImportModel {
        match self {
            Import::Single(s, n) => ImportModel::Single(s@, n@),
            Import::Multiple(s, ns) => ImportModel::Multiple(s@, texts(ns@)),
            Import::Renamed(s, n, e) => ImportModel::Renamed(s@, n@, e@),
        }
    }
}

impl View for TypeExpression {
    type V = TypeExpressionModel;

    open spec fn view(&self) -> TypeExpressionModel {
        type_expression_model(*self)
    }
}

impl View for Variant {
    type V = VariantModel;

    open spec fn view(&self) -> VariantModel {
        variant_model(*self)
    }
}

impl View for TypeDeclaration {
    type V = TypeDeclarationModel;

    open spec fn view(&self) -> TypeDeclarationModel {
        match self {
            TypeDeclaration::Struct(n, f) => TypeDeclarationModel::Struct(
                n@,
                type_expression_models(f@),
            ),
            TypeDeclaration::Enum(n, v) => TypeDeclarationModel::Enum(n@, variant_models(v@)),
            TypeDeclaration::Alias(n, t) => TypeDeclarationModel::Alias(n@, t@),
        }
    }
}

impl View for Capability {
    type V = CapabilityModel;

    open spec fn view(&self) -> CapabilityModel {
        CapabilityModel {
            name: self.name@,
            receiver: self.receiver,
            inputs: type_expression_models(self.inputs@),
            yield_type: self.yield_type@,
        }
    }
}

impl View for AssociatedType {
    type V = AssociatedTypeModel;

    open spec fn view(&self) -> AssociatedTypeModel {
        AssociatedTypeModel { name: self.name@, constraints: texts(self.constraints@) }
    }
}

impl View for AssociatedConstant {
    type V = AssociatedConstantModel;

    open spec fn view(&self) -> AssociatedConstantModel {
        AssociatedConstantModel { name: self.name@, ty: self.ty@ }
    }
}

impl View for KindConstraint {
    type V = Seq<Seq<char>>;

    open spec fn view(&self) -> Seq<Seq<char>> {
        texts(self.bounds@)
    }
}

pub open spec fn kind_constraint_models(s: Seq<KindConstraint>) -> Seq<Seq<Seq<char>>> {
    s.map_values(|k: KindConstraint| k@)
}

pub open spec fn capability_models(s: Seq<Capability>) -> Seq<CapabilityModel> {
    s.map_values(|c: Capability| c@)
}

impl View for KindDeclaration {
    type V = KindDeclarationModel;

    open spec fn view(&self) -> KindDeclarationModel {
        match self {
            KindDeclaration::Simple { name, constraints, capabilities } =>
                KindDeclarationModel::Simple {
                name: name@,
                constraints: kind_constraint_models(constraints@),
                capabilities: capability_models(capabilities@),
            },
            KindDeclaration::Complex {
                name,
                constraints,
                superkinds,
                associated_types,
                associated_constants,
                capabilities,
            } => KindDeclarationModel::Complex {
                name: name@,
                constraints: kind_constraint_models(constraints@),
                superkinds: texts(superkinds@),
                associated_types: associated_types@.map_values(|a: AssociatedType| a@),
                associated_constants: associated_constants@.map_values(
                    |a: AssociatedConstant| a@,
                ),
                capabilities: capability_models(capabilities@),
            },
        }
    }
}

impl View for Association {
    type V = AssociationModel;

    open spec fn view(&self) -> AssociationModel {
        AssociationModel { ty: self.ty@, kinds: texts(self.kinds@) }
    }
}

pub open spec fn import_models(s: Seq<Import>) -> Seq<ImportModel> {
    s.map_values(|i: Import| i@)
}

pub open spec fn declaration_models(s: Seq<TypeDeclaration>) -> Seq<TypeDeclarationModel> {
    s.map_values(|d: TypeDeclaration| d@)
}

impl View for File {
    type V = FileModel;

    open spec fn view(&self) -> FileModel {
        match self {
            File::Types(t) => FileModel::Types {
                imports: import_models(t.imports@),
                types: declaration_models(t.types@),
                associations: t.associations@.map_values(|a: Association| a@),
            },
            File::Kinds(k) => FileModel::Kinds {
                imports: import_models(k.imports@),
                kinds: k.kinds@.map_values(|d: KindDeclaration| d@),
            },
            File::Signal(s) => FileModel::Signal {
                imports: import_models(s.imports@),
                requests: variant_models(s.requests@),
                responses: variant_models(s.responses@),
                types: declaration_models(s.types@),
            },
            File::Sema(s) => FileModel::Sema {
                imports: import_models(s.imports@),
                types: declaration_models(s.types@),
            },
        }
    }
}

} // verus!
