//! Checking: a conceived file validated whole.
//!
//! Every name a file declares must be declared once: its imports and
//! declarations together (with the names its variant implies), the variants
//! of each enum, the requests and the responses of a signal, the members of
//! each kind. Every name a type position holds must resolve: to a parameter
//! or associated type of the kind around it, to a declaration, an import, an
//! implied name or an intrinsic, and take as many arguments as that name
//! does. Every name a kind position holds must be an import, a kind of the
//! file, or `Sized`; a kind where a type belongs, or a type where a kind
//! belongs, is in the wrong role. An alias must not reach its own name
//! through aliases and containers alone. Each fault is at the path of the structure at fault in
//! the delineated source: the root structure, its body, then the section,
//! the element, and so on inward.

use vstd::prelude::*;
use crate::concept::{
    capability_models, declaration_models, kind_constraint_models, KindConstraint, import_models, lemma_type_expression_models,
    lemma_variant_models, texts, type_expression_models, variant_model, variant_models,
    AssociatedConstant, AssociatedConstantModel, AssociatedType, AssociatedTypeModel, Association,
    AssociationModel, Capability, CapabilityModel, Fault, File, FileModel, Import, ImportModel,
    KindDeclaration, KindDeclarationModel, Kinds, Problem, ProblemModel, Sema, Signal, Types, TypeDeclaration, TypeDeclarationModel,
    TypeExpression, TypeExpressionModel, Variant, VariantModel,
};
use crate::emission::{container_arity, letter, scalar_name};
use crate::canonical::push_char;
use crate::naming::{is_name, is_source, name_ok, source_ok};
use crate::text::{copy_text, same_text};

verus! {

// ===========================================================================
// Outcomes and paths
// ===========================================================================

/// A check's outcome: success, or the path at fault and the problem.
pub type Checked = Result<(), (Seq<i64>, ProblemModel)>;

/// An outcome with its fault (if any) placed under `p`.
pub open spec fn placed(p: i64, r: Checked) -> Checked {
    match r {
        Ok(()) => Ok(()),
        Err((q, problem)) => Err((seq![p] + q, problem)),
    }
}

/// The first outcome's fault, else the second outcome.
pub open spec fn followed(a: Checked, b: Checked) -> Checked {
    match a {
        Err(e) => Err(e),
        Ok(()) => b,
    }
}

/// A fault at the structure checked itself.
pub open spec fn here(problem: ProblemModel) -> Checked {
    Err((Seq::empty(), problem))
}

/// The outcome an executable check returned.
pub open spec fn outcome(r: Result<(), Fault>) -> Checked {
    match r {
        Ok(()) => Ok(()),
        Err(f) => Err((f.path@, f.problem@)),
    }
}

// ===========================================================================
// Declared names
// ===========================================================================

/// The names of a list, each at `[section, index]`.
pub open spec fn named_entries(names: Seq<Seq<char>>, section: i64) -> Seq<(Seq<char>, Seq<i64>)> {
    Seq::new(names.len(), |k: int| (names[k], seq![section, k as i64]))
}

/// The names one import brings, each at its path under `[section, index]`.
pub open spec fn import_entry(m: ImportModel, section: i64, index: int) -> Seq<
    (Seq<char>, Seq<i64>),
> {
    match m {
        ImportModel::Single(_, n) => seq![(n, seq![section, index as i64, 0i64])],
        ImportModel::Renamed(_, n, _) => seq![(n, seq![section, index as i64, 0i64])],
        ImportModel::Multiple(_, ns) => Seq::new(
            ns.len(),
            |j: int| (ns[j], seq![section, index as i64, 0i64, j as i64]),
        ),
    }
}

/// The names the imports bring, in order.
pub open spec fn import_entries(ms: Seq<ImportModel>, section: i64) -> Seq<(Seq<char>, Seq<i64>)>
    decreases ms.len(),
{
    if ms.len() == 0 {
        Seq::empty()
    } else {
        import_entries(ms.drop_last(), section) + import_entry(
            ms.last(),
            section,
            ms.len() - 1,
        )
    }
}

pub open spec fn entry_names(es: Seq<(Seq<char>, Seq<i64>)>) -> Seq<Seq<char>> {
    es.map_values(|e: (Seq<char>, Seq<i64>)| e.0)
}

/// Whether the `i`-th name occurred before it.
pub open spec fn repeated_at(es: Seq<(Seq<char>, Seq<i64>)>, i: int) -> bool {
    exists|j: int| 0 <= j < i && (#[trigger] es[j]).0 == es[i].0
}

/// Whether the `i`-th entry is at fault: no name, or a name that occurred
/// before it.
pub open spec fn flawed_at(es: Seq<(Seq<char>, Seq<i64>)>, i: int) -> bool {
    !name_ok(es[i].0) || repeated_at(es, i)
}

/// The first entry from `i` on that is at fault.
pub open spec fn first_flaw(es: Seq<(Seq<char>, Seq<i64>)>, i: int) -> Option<int>
    decreases es.len() - i,
{
    if 0 <= i < es.len() {
        if flawed_at(es, i) {
            Some(i)
        } else {
            first_flaw(es, i + 1)
        }
    } else {
        None
    }
}

/// Every entry a name, none twice: the first entry at fault is refused at
/// its path, as no name, or as the second occurrence of its name.
pub open spec fn distinct(es: Seq<(Seq<char>, Seq<i64>)>) -> Checked {
    match first_flaw(es, 0) {
        Some(i) => if !name_ok(es[i].0) {
            Err((es[i].1, ProblemModel::Name(es[i].0)))
        } else {
            Err((es[i].1, ProblemModel::Duplicate(es[i].0)))
        },
        None => Ok(()),
    }
}

pub open spec fn declaration_name(d: TypeDeclarationModel) -> Seq<char> {
    match d {
        TypeDeclarationModel::Struct(n, _) => n,
        TypeDeclarationModel::Enum(n, _) => n,
        TypeDeclarationModel::Alias(n, _) => n,
    }
}

pub open spec fn declaration_names(ds: Seq<TypeDeclarationModel>) -> Seq<Seq<char>> {
    ds.map_values(|d: TypeDeclarationModel| declaration_name(d))
}

pub open spec fn variant_name(v: VariantModel) -> Seq<char> {
    match v {
        VariantModel::Unit(n) => n,
        VariantModel::Typed(n, _) => n,
        VariantModel::InlineStruct(n, _) => n,
        VariantModel::InlineEnum(n, _) => n,
    }
}

pub open spec fn variant_names(vs: Seq<VariantModel>) -> Seq<Seq<char>> {
    vs.map_values(|v: VariantModel| variant_name(v))
}

pub open spec fn kind_name(k: KindDeclarationModel) -> Seq<char> {
    match k {
        KindDeclarationModel::Simple { name, .. } => name,
        KindDeclarationModel::Complex { name, .. } => name,
    }
}

pub open spec fn kind_names(ks: Seq<KindDeclarationModel>) -> Seq<Seq<char>> {
    ks.map_values(|k: KindDeclarationModel| kind_name(k))
}

pub open spec fn capability_names(cs: Seq<CapabilityModel>) -> Seq<Seq<char>> {
    cs.map_values(|c: CapabilityModel| c.name)
}

pub open spec fn associated_type_names(ts: Seq<AssociatedTypeModel>) -> Seq<Seq<char>> {
    ts.map_values(|t: AssociatedTypeModel| t.name)
}

pub open spec fn associated_constant_names(cs: Seq<AssociatedConstantModel>) -> Seq<Seq<char>> {
    cs.map_values(|c: AssociatedConstantModel| c.name)
}

// ===========================================================================
// Resolution
// ===========================================================================

/// What a position can refer to.
pub struct ScopeModel {
    /// The type parameters and associated types of the kind around it.
    pub parameters: Seq<Seq<char>>,
    /// The file's type declarations.
    pub declared: Seq<Seq<char>>,
    /// The names the imports bring.
    pub imported: Seq<Seq<char>>,
    /// The names the file's variant implies.
    pub implied: Seq<Seq<char>>,
    /// The file's kind declarations.
    pub kinds: Seq<Seq<char>>,
}

/// How many arguments a name in a type position takes: `None` when it
/// resolves to nothing, `Some(None)` when its source decides (an import).
pub open spec fn type_arity(sc: ScopeModel, n: Seq<char>) -> Option<Option<nat>> {
    if sc.parameters.contains(n) || sc.declared.contains(n) {
        Some(Some(0))
    } else if sc.imported.contains(n) {
        Some(None)
    } else if sc.implied.contains(n) || scalar_name(n) || n == "Meaning"@ {
        Some(Some(0))
    } else {
        match container_arity(n) {
            Some(a) => Some(Some(a)),
            None => None,
        }
    }
}

/// Whether a name stands for a kind: one of the file's, or `Sized`.
pub open spec fn kind_named(sc: ScopeModel, n: Seq<char>) -> bool {
    sc.kinds.contains(n) || n == "Sized"@
}

/// A name in a type position, applied to `count` arguments: it must be a
/// name, resolve, be no kind, and take as many arguments as it is given.
pub open spec fn name_check(sc: ScopeModel, n: Seq<char>, count: nat) -> Checked {
    if !name_ok(n) {
        here(ProblemModel::Name(n))
    } else {
        match type_arity(sc, n) {
            None => if kind_named(sc, n) {
                here(ProblemModel::Role(n))
            } else {
                here(ProblemModel::Undeclared(n))
            },
            Some(Some(a)) => if a == count {
                Ok(())
            } else {
                here(ProblemModel::Arity(a as i64, count as i64))
            },
            Some(None) => Ok(()),
        }
    }
}

/// A type expression: its name, then each argument under its index.
pub open spec fn type_check(sc: ScopeModel, t: TypeExpressionModel) -> Checked
    decreases t, 0int,
{
    match t {
        TypeExpressionModel::Named(n) => name_check(sc, n, 0),
        TypeExpressionModel::Applied(c, args) => followed(
            name_check(sc, c, args.len()),
            types_check(sc, args, 0),
        ),
        TypeExpressionModel::SelfType => Ok(()),
    }
}

/// Type expressions from `i` on, each under its index.
pub open spec fn types_check(sc: ScopeModel, ts: Seq<TypeExpressionModel>, i: int) -> Checked
    decreases ts, ts.len() - i,
{
    if 0 <= i < ts.len() {
        followed(placed(i as i64, type_check(sc, ts[i])), types_check(sc, ts, i + 1))
    } else {
        Ok(())
    }
}

/// A name in a kind position: a type there is in the wrong role.
pub open spec fn kind_reference_check(sc: ScopeModel, n: Seq<char>) -> Checked {
    if !name_ok(n) {
        here(ProblemModel::Name(n))
    } else if sc.imported.contains(n) || kind_named(sc, n) {
        Ok(())
    } else if type_arity(sc, n) is Some {
        here(ProblemModel::Role(n))
    } else {
        here(ProblemModel::Undeclared(n))
    }
}

/// Kind names from `i` on, each under its index.
pub open spec fn kind_references_check(sc: ScopeModel, ns: Seq<Seq<char>>, i: int) -> Checked
    decreases ns.len() - i,
{
    if 0 <= i < ns.len() {
        followed(placed(i as i64, kind_reference_check(sc, ns[i])), kind_references_check(sc, ns, i + 1))
    } else {
        Ok(())
    }
}

// ===========================================================================
// Declarations
// ===========================================================================

/// A variant: its payload under `0`; an inline enum's variants named once each.
pub open spec fn variant_check(sc: ScopeModel, v: VariantModel) -> Checked
    decreases v, 0int,
{
    match v {
        VariantModel::Unit(_) => Ok(()),
        VariantModel::Typed(_, t) => placed(0, type_check(sc, t)),
        VariantModel::InlineStruct(_, ts) => placed(0, types_check(sc, ts, 0)),
        VariantModel::InlineEnum(_, vs) => followed(
            distinct(named_entries(variant_names(vs), 0)),
            placed(0, variants_check(sc, vs, 0)),
        ),
    }
}

/// Variants from `i` on, each under its index.
pub open spec fn variants_check(sc: ScopeModel, vs: Seq<VariantModel>, i: int) -> Checked
    decreases vs, vs.len() - i,
{
    if 0 <= i < vs.len() {
        followed(placed(i as i64, variant_check(sc, vs[i])), variants_check(sc, vs, i + 1))
    } else {
        Ok(())
    }
}

/// The first declaration named `n`, from `i` on.
pub open spec fn declaration_named(ds: Seq<TypeDeclarationModel>, n: Seq<char>, i: int) -> Option<
    TypeDeclarationModel,
>
    decreases ds.len() - i,
{
    if 0 <= i < ds.len() {
        if declaration_name(ds[i]) == n {
            Some(ds[i])
        } else {
            declaration_named(ds, n, i + 1)
        }
    } else {
        None
    }
}

/// Whether a type expression reaches the name `target` through aliases and
/// containers alone: it names `target`; or it names an alias whose aliased
/// type does; or its constructor is an import or a container and one of its
/// arguments does. At most `fuel` aliases are unfolded on the way; with one
/// for each declaration, every alias on a shortest way is.
pub open spec fn type_cycles(
    sc: ScopeModel,
    ds: Seq<TypeDeclarationModel>,
    t: TypeExpressionModel,
    target: Seq<char>,
    fuel: nat,
) -> bool
    decreases fuel, t, 0int,
{
    match t {
        TypeExpressionModel::Named(n) => if n == target {
            true
        } else if sc.declared.contains(n) {
            fuel > 0 && match declaration_named(ds, n, 0) {
                Some(TypeDeclarationModel::Alias(_, a)) => type_cycles(
                    sc,
                    ds,
                    a,
                    target,
                    (fuel - 1) as nat,
                ),
                _ => false,
            }
        } else {
            false
        },
        TypeExpressionModel::Applied(c, args) => if c == target {
            true
        } else if sc.declared.contains(c) {
            fuel > 0 && match declaration_named(ds, c, 0) {
                Some(TypeDeclarationModel::Alias(_, a)) => type_cycles(
                    sc,
                    ds,
                    a,
                    target,
                    (fuel - 1) as nat,
                ),
                _ => false,
            }
        } else if sc.imported.contains(c) || container_arity(c) is Some {
            types_cycle(sc, ds, args, target, fuel, 0)
        } else {
            false
        },
        TypeExpressionModel::SelfType => false,
    }
}

/// Whether one of the type expressions from `i` on reaches `target` (see
/// [`type_cycles`]).
pub open spec fn types_cycle(
    sc: ScopeModel,
    ds: Seq<TypeDeclarationModel>,
    ts: Seq<TypeExpressionModel>,
    target: Seq<char>,
    fuel: nat,
    i: int,
) -> bool
    decreases fuel, ts, ts.len() - i,
{
    if 0 <= i < ts.len() {
        type_cycles(sc, ds, ts[i], target, fuel) || types_cycle(sc, ds, ts, target, fuel, i + 1)
    } else {
        false
    }
}

/// A type declaration among the declarations `ds`: its body under `0`; an
/// alias that reaches its own name faults there too.
pub open spec fn declaration_check(
    sc: ScopeModel,
    ds: Seq<TypeDeclarationModel>,
    d: TypeDeclarationModel,
) -> Checked {
    match d {
        TypeDeclarationModel::Struct(_, ts) => placed(0, types_check(sc, ts, 0)),
        TypeDeclarationModel::Enum(_, vs) => followed(
            distinct(named_entries(variant_names(vs), 0)),
            placed(0, variants_check(sc, vs, 0)),
        ),
        TypeDeclarationModel::Alias(n, t) => followed(
            placed(0, type_check(sc, t)),
            if type_cycles(sc, ds, t, n, ds.len()) {
                placed(0, here(ProblemModel::Cycle(n)))
            } else {
                Ok(())
            },
        ),
    }
}

/// Declarations from `i` on, each under `[section, index]`.
pub open spec fn declarations_check(
    sc: ScopeModel,
    ds: Seq<TypeDeclarationModel>,
    section: i64,
    i: int,
) -> Checked
    decreases ds.len() - i,
{
    if 0 <= i < ds.len() {
        followed(
            placed(section, placed(i as i64, declaration_check(sc, ds, ds[i]))),
            declarations_check(sc, ds, section, i + 1),
        )
    } else {
        Ok(())
    }
}

/// Variant lists of a signal from `i` on, each under `[section, index]`.
pub open spec fn section_variants_check(
    sc: ScopeModel,
    vs: Seq<VariantModel>,
    section: i64,
) -> Checked {
    placed(section, variants_check(sc, vs, 0))
}

/// An association: its type must resolve, its kinds each under `[0, index]`.
pub open spec fn association_check(sc: ScopeModel, a: AssociationModel) -> Checked {
    if !name_ok(a.ty) {
        here(ProblemModel::Name(a.ty))
    } else if type_arity(sc, a.ty) is None {
        here(ProblemModel::Undeclared(a.ty))
    } else {
        placed(0, kind_references_check(sc, a.kinds, 0))
    }
}

pub open spec fn associations_check(sc: ScopeModel, as_: Seq<AssociationModel>, i: int) -> Checked
    decreases as_.len() - i,
{
    if 0 <= i < as_.len() {
        followed(
            placed(2, placed(i as i64, association_check(sc, as_[i]))),
            associations_check(sc, as_, i + 1),
        )
    } else {
        Ok(())
    }
}

// ===========================================================================
// Kinds
// ===========================================================================

/// The letters that name `n` type parameters, `A` first.
pub open spec fn letters(n: nat) -> Seq<Seq<char>> {
    Seq::new(n, |i: int| letter(i))
}

/// A capability: with no inputs its yield is under `[0, 0]`; otherwise its
/// inputs are under `[0, 0, index]` and its yield under `[0, 1, 0]`.
pub open spec fn capability_check(sc: ScopeModel, c: CapabilityModel) -> Checked {
    if c.inputs.len() == 0 {
        placed(0, placed(0, type_check(sc, c.yield_type)))
    } else {
        followed(
            placed(0, placed(0, types_check(sc, c.inputs, 0))),
            placed(0, placed(1, placed(0, type_check(sc, c.yield_type)))),
        )
    }
}

pub open spec fn capabilities_check(sc: ScopeModel, cs: Seq<CapabilityModel>, section: i64, i: int) -> Checked
    decreases cs.len() - i,
{
    if 0 <= i < cs.len() {
        followed(
            placed(section, placed(i as i64, capability_check(sc, cs[i]))),
            capabilities_check(sc, cs, section, i + 1),
        )
    } else {
        Ok(())
    }
}

/// The constraints of a kind's parameters, each bound under `[parameter, index]`.
pub open spec fn constraints_check(sc: ScopeModel, cs: Seq<Seq<Seq<char>>>, i: int) -> Checked
    decreases cs.len() - i,
{
    if 0 <= i < cs.len() {
        followed(placed(i as i64, kind_references_check(sc, cs[i], 0)), constraints_check(sc, cs, i + 1))
    } else {
        Ok(())
    }
}

pub open spec fn associated_types_check(sc: ScopeModel, ts: Seq<AssociatedTypeModel>, i: int) -> Checked
    decreases ts.len() - i,
{
    if 0 <= i < ts.len() {
        followed(
            placed(i as i64, kind_references_check(sc, ts[i].constraints, 0)),
            associated_types_check(sc, ts, i + 1),
        )
    } else {
        Ok(())
    }
}

pub open spec fn associated_constants_check(
    sc: ScopeModel,
    cs: Seq<AssociatedConstantModel>,
    i: int,
) -> Checked
    decreases cs.len() - i,
{
    if 0 <= i < cs.len() {
        followed(
            placed(i as i64, placed(0, type_check(sc, cs[i].ty))),
            associated_constants_check(sc, cs, i + 1),
        )
    } else {
        Ok(())
    }
}

/// The scope inside a kind: its parameters and associated types added.
pub open spec fn kind_scope(sc: ScopeModel, k: KindDeclarationModel) -> ScopeModel {
    match k {
        KindDeclarationModel::Simple { constraints, .. } => ScopeModel {
            parameters: letters(constraints.len()),
            ..sc
        },
        KindDeclarationModel::Complex { constraints, associated_types, .. } => ScopeModel {
            parameters: letters(constraints.len()) + associated_type_names(associated_types),
            ..sc
        },
    }
}

/// A kind declaration: at most 26 parameters, each constraint resolved;
/// then its members named once each and checked.
pub open spec fn kind_check(sc: ScopeModel, k: KindDeclarationModel) -> Checked {
    let inner = kind_scope(sc, k);
    match k {
        KindDeclarationModel::Simple { constraints, capabilities, .. } => if constraints.len()
            > 26 {
            here(ProblemModel::Arity(26, constraints.len() as i64))
        } else {
            followed(
                constraints_check(sc, constraints, 0),
                followed(
                    distinct(named_entries(capability_names(capabilities), 0)),
                    capabilities_check(inner, capabilities, 0, 0),
                ),
            )
        },
        KindDeclarationModel::Complex {
            constraints,
            superkinds,
            associated_types,
            associated_constants,
            capabilities,
            ..
        } => if constraints.len() > 26 {
            here(ProblemModel::Arity(26, constraints.len() as i64))
        } else {
            followed(
                constraints_check(sc, constraints, 0),
                followed(
                    distinct(named_entries(associated_type_names(associated_types), 1)),
                    followed(
                        distinct(named_entries(associated_constant_names(associated_constants), 2)),
                        followed(
                            distinct(named_entries(capability_names(capabilities), 3)),
                            followed(
                                placed(0, placed(0, kind_references_check(inner, superkinds, 0))),
                                followed(
                                    placed(0, placed(1, associated_types_check(inner, associated_types, 0))),
                                    followed(
                                        placed(
                                            0,
                                            placed(2, associated_constants_check(inner, associated_constants, 0)),
                                        ),
                                        placed(0, capabilities_check(inner, capabilities, 3, 0)),
                                    ),
                                ),
                            ),
                        ),
                    ),
                ),
            )
        },
    }
}

pub open spec fn kinds_check(sc: ScopeModel, ks: Seq<KindDeclarationModel>, i: int) -> Checked
    decreases ks.len() - i,
{
    if 0 <= i < ks.len() {
        followed(placed(1, placed(i as i64, kind_check(sc, ks[i]))), kinds_check(sc, ks, i + 1))
    } else {
        Ok(())
    }
}

// ===========================================================================
// Files
// ===========================================================================

/// The names a signal implies, each at the section it stands for.
pub open spec fn signal_implied() -> Seq<(Seq<char>, Seq<i64>)> {
    seq![("Request"@, seq![1i64]), ("Response"@, seq![2i64])]
}

/// The scope of a file's top level.
pub open spec fn file_scope(f: FileModel) -> ScopeModel {
    match f {
        FileModel::Types { imports, types, .. } => ScopeModel {
            parameters: Seq::empty(),
            declared: declaration_names(types),
            imported: entry_names(import_entries(imports, 0)),
            implied: Seq::empty(),
            kinds: Seq::empty(),
        },
        FileModel::Kinds { imports, kinds } => ScopeModel {
            parameters: Seq::empty(),
            declared: Seq::empty(),
            imported: entry_names(import_entries(imports, 0)),
            implied: Seq::empty(),
            kinds: kind_names(kinds),
        },
        FileModel::Signal { imports, types, .. } => ScopeModel {
            parameters: Seq::empty(),
            declared: declaration_names(types),
            imported: entry_names(import_entries(imports, 0)),
            implied: entry_names(signal_implied()),
            kinds: Seq::empty(),
        },
        FileModel::Sema { imports, types } => ScopeModel {
            parameters: Seq::empty(),
            declared: declaration_names(types),
            imported: entry_names(import_entries(imports, 0)),
            implied: Seq::empty(),
            kinds: Seq::empty(),
        },
    }
}

/// The source an import names.
pub open spec fn import_source_text(m: ImportModel) -> Seq<char> {
    match m {
        ImportModel::Single(s, _) => s,
        ImportModel::Multiple(s, _) => s,
        ImportModel::Renamed(s, _, _) => s,
    }
}

/// The sources of the imports from `i` on, each a path, each at `[0, index]`;
/// the name a renaming import emits must be a name, at `[0, index, 0, 0]`.
pub open spec fn sources_check(ms: Seq<ImportModel>, i: int) -> Checked
    decreases ms.len() - i,
{
    if 0 <= i < ms.len() {
        if !source_ok(import_source_text(ms[i])) {
            Err((seq![0i64, i as i64], ProblemModel::Name(import_source_text(ms[i]))))
        } else {
            match ms[i] {
                ImportModel::Renamed(_, _, e) => if !name_ok(e) {
                    Err((seq![0i64, i as i64, 0i64, 0i64], ProblemModel::Name(e)))
                } else {
                    sources_check(ms, i + 1)
                },
                _ => sources_check(ms, i + 1),
            }
        }
    } else {
        Ok(())
    }
}

pub open spec fn file_imports(f: FileModel) -> Seq<ImportModel> {
    match f {
        FileModel::Types { imports, .. } => imports,
        FileModel::Kinds { imports, .. } => imports,
        FileModel::Signal { imports, .. } => imports,
        FileModel::Sema { imports, .. } => imports,
    }
}

/// A file's body checked: its import sources, then its names once each,
/// then every part in order.
pub open spec fn body_check(f: FileModel) -> Checked {
    followed(sources_check(file_imports(f), 0), parts_check(f))
}

/// A file's parts checked: its names once each, then every part in order.
pub open spec fn parts_check(f: FileModel) -> Checked {
    let sc = file_scope(f);
    match f {
        FileModel::Types { imports, types, associations } => followed(
            distinct(import_entries(imports, 0) + named_entries(declaration_names(types), 1)),
            followed(declarations_check(sc, types, 1, 0), associations_check(sc, associations, 0)),
        ),
        FileModel::Kinds { imports, kinds } => followed(
            distinct(import_entries(imports, 0) + named_entries(kind_names(kinds), 1)),
            kinds_check(sc, kinds, 0),
        ),
        FileModel::Signal { imports, requests, responses, types } => if requests.len() == 0 {
            Err((seq![1i64], ProblemModel::Empty))
        } else if responses.len() == 0 {
            Err((seq![2i64], ProblemModel::Empty))
        } else {
            followed(
                distinct(
                    signal_implied() + import_entries(imports, 0) + named_entries(
                        declaration_names(types),
                        3,
                    ),
                ),
                followed(
                    distinct(named_entries(variant_names(requests), 1)),
                    followed(
                        distinct(named_entries(variant_names(responses), 2)),
                        followed(
                            section_variants_check(sc, requests, 1),
                            followed(
                                section_variants_check(sc, responses, 2),
                                declarations_check(sc, types, 3, 0),
                            ),
                        ),
                    ),
                ),
            )
        },
        FileModel::Sema { imports, types } => followed(
            distinct(import_entries(imports, 0) + named_entries(declaration_names(types), 1)),
            declarations_check(sc, types, 1, 0),
        ),
    }
}

/// The check of a whole file, with its faults placed under its body (`0`).
pub open spec fn file_check(f: FileModel) -> Checked {
    placed(0, body_check(f))
}

/// When no entry from `i` on is at fault, every entry from `i` on is a name
/// that no earlier entry holds.
proof fn lemma_no_flaw_from(es: Seq<(Seq<char>, Seq<i64>)>, i: int)
    requires
        0 <= i,
        first_flaw(es, i) is None,
    ensures
        forall|k: int| i <= k < es.len() ==> !#[trigger] flawed_at(es, k),
    decreases es.len() - i,
{
    if i < es.len() {
        lemma_no_flaw_from(es, i + 1);
    }
}

/// Names that pass the once-each check are pairwise different.
proof fn lemma_distinct_names(names: Seq<Seq<char>>, section: i64)
    requires
        distinct(named_entries(names, section)) is Ok,
    ensures
        forall|a: int, b: int| 0 <= a < b < names.len() ==> #[trigger] names[a] != #[trigger] names[b],
{
    let es = named_entries(names, section);
    lemma_no_flaw_from(es, 0);
    assert forall|a: int, b: int| 0 <= a < b < names.len() implies #[trigger] names[a]
        != #[trigger] names[b] by {
        assert(!flawed_at(es, b));
        if names[a] == names[b] {
            assert(es[a].0 == es[b].0);
            assert(repeated_at(es, b));
        }
    }
}

/// A signal file that checks names each of its requests once and each of its
/// responses once: two requests, or two responses, never share a name.
pub proof fn lemma_checked_signal_variants_distinct(f: FileModel)
    requires
        file_check(f) is Ok,
    ensures
        match f {
            FileModel::Signal { requests, responses, .. } => {
                &&& forall|a: int, b: int|
                    0 <= a < b < requests.len() ==> #[trigger] variant_name(requests[a])
                        != #[trigger] variant_name(requests[b])
                &&& forall|a: int, b: int|
                    0 <= a < b < responses.len() ==> #[trigger] variant_name(responses[a])
                        != #[trigger] variant_name(responses[b])
            },
            _ => true,
        },
{
    match f {
        FileModel::Signal { imports, requests, responses, types } => {
            assert(body_check(f) is Ok);
            assert(parts_check(f) is Ok);
            let rq = variant_names(requests);
            let rs = variant_names(responses);
            assert(distinct(named_entries(rq, 1)) is Ok);
            assert(distinct(named_entries(rs, 2)) is Ok);
            lemma_distinct_names(rq, 1);
            lemma_distinct_names(rs, 2);
            assert forall|a: int, b: int| 0 <= a < b < requests.len() implies #[trigger] variant_name(
                requests[a],
            ) != #[trigger] variant_name(requests[b]) by {
                assert(rq[a] == variant_name(requests[a]) && rq[b] == variant_name(requests[b]));
            }
            assert forall|a: int, b: int| 0 <= a < b < responses.len() implies #[trigger] variant_name(
                responses[a],
            ) != #[trigger] variant_name(responses[b]) by {
                assert(rs[a] == variant_name(responses[a]) && rs[b] == variant_name(responses[b]));
            }
        },
        _ => {},
    }
}

// ===========================================================================
// Executable checking: paths and names
// ===========================================================================

/// A fault at the structure checked itself.
fn fault_here(problem: Problem) -> (r: Result<(), Fault>)
    ensures
        outcome(r) == here(problem@),
{
    Err(Fault { path: Vec::new(), problem })
}

/// An outcome with its fault (if any) placed under `front`.
fn place(front: i64, r: Result<(), Fault>) -> (out: Result<(), Fault>)
    ensures
        outcome(out) == placed(front, outcome(r)),
{
    match r {
        Ok(()) => Ok(()),
        Err(f) => {
            let mut path: Vec<i64> = Vec::new();
            path.push(front);
            let mut i: usize = 0;
            while i < f.path.len()
                invariant
                    i <= f.path@.len(),
                    path@ == seq![front] + f.path@.take(i as int),
                decreases f.path@.len() - i,
            {
                proof {
                    assert(seq![front] + f.path@.take(i + 1) =~= (seq![front] + f.path@.take(
                        i as int,
                    )).push(f.path@[i as int]));
                }
                path.push(f.path[i]);
                i += 1;
            }
            proof {
                assert(f.path@.take(f.path@.len() as int) =~= f.path@);
            }
            Err(Fault { path, problem: f.problem })
        },
    }
}

/// A copy of a path.
fn copy_path(p: &Vec<i64>) -> (r: Vec<i64>)
    ensures
        r@ == p@,
{
    let mut out: Vec<i64> = Vec::new();
    let mut i: usize = 0;
    while i < p.len()
        invariant
            i <= p@.len(),
            out@ == p@.take(i as int),
        decreases p@.len() - i,
    {
        proof {
            assert(p@.take(i + 1) =~= p@.take(i as int).push(p@[i as int]));
        }
        out.push(p[i]);
        i += 1;
    }
    proof {
        assert(p@.take(p@.len() as int) =~= p@);
    }
    out
}

/// A declared name and where it was declared.
struct Entry {
    name: String,
    path: Vec<i64>,
}

spec fn entry_models(es: Seq<Entry>) -> Seq<(Seq<char>, Seq<i64>)> {
    es.map_values(|e: Entry| (e.name@, e.path@))
}

/// Append the names of a list, each at `[section, index]`.
fn push_named(out: &mut Vec<Entry>, names: &Vec<String>, section: i64)
    ensures
        entry_models(final(out)@) == entry_models(old(out)@) + named_entries(
            texts(names@),
            section,
        ),
{
    let ghost start = entry_models(out@);
    let ghost all = named_entries(texts(names@), section);
    let mut k: usize = 0;
    while k < names.len()
        invariant
            k <= names@.len(),
            all == named_entries(texts(names@), section),
            entry_models(out@) == start + all.take(k as int),
        decreases names@.len() - k,
    {
        let mut path: Vec<i64> = Vec::new();
        path.push(section);
        path.push(k as i64);
        proof {
            assert(path@ =~= seq![section, k as i64]);
        }
        let e = Entry { name: copy_text(&names[k]), path };
        let ghost prev = out@;
        let ghost em = (e.name@, e.path@);
        out.push(e);
        proof {
            assert(all[k as int] == em);
            assert(entry_models(out@) =~= entry_models(prev).push(em));
            assert(all.take(k + 1) =~= all.take(k as int).push(all[k as int]));
            assert(entry_models(out@) =~= start + all.take(k + 1));
        }
        k += 1;
    }
    proof {
        assert(all.take(names@.len() as int) =~= all);
    }
}

proof fn lemma_import_entries_step(ms: Seq<ImportModel>, section: i64, i: int)
    requires
        0 <= i < ms.len(),
    ensures
        import_entries(ms.take(i + 1), section) == import_entries(ms.take(i), section)
            + import_entry(ms[i], section, i),
{
    assert(ms.take(i + 1).drop_last() =~= ms.take(i));
}

/// Append the names the imports bring.
fn push_imports(out: &mut Vec<Entry>, imports: &Vec<Import>, section: i64)
    ensures
        entry_models(final(out)@) == entry_models(old(out)@) + import_entries(
            import_models(imports@),
            section,
        ),
{
    let ghost start = entry_models(out@);
    let ghost ms = import_models(imports@);
    let mut i: usize = 0;
    proof {
        assert(ms.take(0) =~= Seq::<ImportModel>::empty());
    }
    while i < imports.len()
        invariant
            i <= imports@.len(),
            ms == import_models(imports@),
            entry_models(out@) == start + import_entries(ms.take(i as int), section),
        decreases imports@.len() - i,
    {
        proof {
            lemma_import_entries_step(ms, section, i as int);
        }
        let ghost before = entry_models(out@);
        match &imports[i] {
            Import::Single(_, n) | Import::Renamed(_, n, _) => {
                let mut path: Vec<i64> = Vec::new();
                path.push(section);
                path.push(i as i64);
                path.push(0);
                proof {
                    assert(path@ =~= seq![section, i as i64, 0i64]);
                }
                let e = Entry { name: copy_text(n), path };
                let ghost em = (e.name@, e.path@);
                out.push(e);
                proof {
                    assert(entry_models(out@) =~= before.push(em));
                    assert(entry_models(out@) =~= before + import_entry(ms[i as int], section, i as int));
                }
            },
            Import::Multiple(_, ns) => {
                let ghost one = import_entry(ms[i as int], section, i as int);
                let mut j: usize = 0;
                while j < ns.len()
                    invariant
                        j <= ns@.len(),
                        ms == import_models(imports@),
                        ms[i as int] == ImportModel::Multiple(imports@[i as int]->Multiple_0@, texts(ns@)),
                        one == import_entry(ms[i as int], section, i as int),
                        entry_models(out@) == before + one.take(j as int),
                    decreases ns@.len() - j,
                {
                    let mut path: Vec<i64> = Vec::new();
                    path.push(section);
                    path.push(i as i64);
                    path.push(0);
                    path.push(j as i64);
                    proof {
                        assert(path@ =~= seq![section, i as i64, 0i64, j as i64]);
                    }
                    let e = Entry { name: copy_text(&ns[j]), path };
                    let ghost prev = out@;
                    let ghost em = (e.name@, e.path@);
                    out.push(e);
                    proof {
                        assert(one[j as int] == em);
                        assert(entry_models(out@) =~= entry_models(prev).push(em));
                        assert(one.take(j + 1) =~= one.take(j as int).push(one[j as int]));
                        assert(entry_models(out@) =~= before + one.take(j + 1));
                    }
                    j += 1;
                }
                proof {
                    assert(one.take(ns@.len() as int) =~= one);
                }
            },
        }
        proof {
            assert(entry_models(out@) =~= start + import_entries(ms.take(i + 1), section));
        }
        i += 1;
    }
    proof {
        assert(ms.take(imports@.len() as int) =~= ms);
    }
}

/// Every entry a name, none twice (see [`distinct`]).
fn check_distinct(es: &Vec<Entry>) -> (r: Result<(), Fault>)
    ensures
        outcome(r) == distinct(entry_models(es@)),
{
    let ghost m = entry_models(es@);
    let mut i: usize = 0;
    while i < es.len()
        invariant
            i <= es@.len(),
            m == entry_models(es@),
            first_flaw(m, 0) == first_flaw(m, i as int),
        decreases es@.len() - i,
    {
        if !is_name(&es[i].name) {
            return Err(
                Fault { path: copy_path(&es[i].path), problem: Problem::Name(copy_text(&es[i].name)) },
            );
        }
        let mut j: usize = 0;
        let mut found = false;
        while j < i && !found
            invariant
                j <= i < es@.len(),
                m == entry_models(es@),
                found ==> repeated_at(m, i as int),
                !found ==> forall|k: int| 0 <= k < j ==> (#[trigger] m[k]).0 != m[i as int].0,
            decreases i - j,
        {
            if es[j].name == es[i].name {
                found = true;
                proof {
                    assert(m[j as int].0 == m[i as int].0);
                }
            }
            j += 1;
        }
        if found {
            return Err(
                Fault {
                    path: copy_path(&es[i].path),
                    problem: Problem::Duplicate(copy_text(&es[i].name)),
                },
            );
        }
        i += 1;
    }
    Ok(())
}

// ===========================================================================
// Executable checking: names of lists
// ===========================================================================

fn declaration_names_of(ds: &Vec<TypeDeclaration>) -> (r: Vec<String>)
    ensures
        texts(r@) == declaration_names(declaration_models(ds@)),
{
    let ghost all = declaration_names(declaration_models(ds@));
    let mut out: Vec<String> = Vec::new();
    let mut i: usize = 0;
    while i < ds.len()
        invariant
            i <= ds@.len(),
            all == declaration_names(declaration_models(ds@)),
            texts(out@) == all.take(i as int),
        decreases ds@.len() - i,
    {
        let n = match &ds[i] {
            TypeDeclaration::Struct(n, _) => copy_text(n),
            TypeDeclaration::Enum(n, _) => copy_text(n),
            TypeDeclaration::Alias(n, _) => copy_text(n),
        };
        let pushed = n;
        let ghost prev = out@;
        let ghost pv = pushed@;
        out.push(pushed);
        proof {
            assert(texts(out@) =~= texts(prev).push(pv));
            assert(all.take(i + 1) =~= all.take(i as int).push(all[i as int]));
            assert(texts(out@) =~= all.take(i + 1));
        }
        i += 1;
    }
    proof {
        assert(all.take(ds@.len() as int) =~= all);
    }
    out
}

fn variant_names_of(vs: &Vec<Variant>) -> (r: Vec<String>)
    ensures
        texts(r@) == variant_names(variant_models(vs@)),
{
    proof {
        lemma_variant_models(vs@);
    }
    let ghost all = variant_names(variant_models(vs@));
    let mut out: Vec<String> = Vec::new();
    let mut i: usize = 0;
    while i < vs.len()
        invariant
            i <= vs@.len(),
            all == variant_names(variant_models(vs@)),
            variant_models(vs@).len() == vs@.len(),
            forall|k: int| 0 <= k < vs@.len() ==> #[trigger] variant_models(vs@)[k] == variant_model(vs@[k]),
            texts(out@) == all.take(i as int),
        decreases vs@.len() - i,
    {
        let n = match &vs[i] {
            Variant::Unit(n) => copy_text(n),
            Variant::Typed(n, _) => copy_text(n),
            Variant::InlineStruct(n, _) => copy_text(n),
            Variant::InlineEnum(n, _) => copy_text(n),
        };
        let ghost prev = out@;
        let ghost pv = n@;
        out.push(n);
        proof {
            assert(variant_models(vs@)[i as int] == variant_model(vs@[i as int]));
            assert(all[i as int] == pv);
            assert(texts(out@) =~= texts(prev).push(pv));
            assert(all.take(i + 1) =~= all.take(i as int).push(all[i as int]));
            assert(texts(out@) =~= all.take(i + 1));
        }
        i += 1;
    }
    proof {
        assert(all.take(vs@.len() as int) =~= all);
    }
    out
}

fn capability_names_of(cs: &Vec<Capability>) -> (r: Vec<String>)
    ensures
        texts(r@) == capability_names(capability_models(cs@)),
{
    let ghost all = capability_names(capability_models(cs@));
    let mut out: Vec<String> = Vec::new();
    let mut i: usize = 0;
    while i < cs.len()
        invariant
            i <= cs@.len(),
            all == capability_names(capability_models(cs@)),
            texts(out@) == all.take(i as int),
        decreases cs@.len() - i,
    {
        let pushed = copy_text(&cs[i].name);
        let ghost prev = out@;
        let ghost pv = pushed@;
        out.push(pushed);
        proof {
            assert(texts(out@) =~= texts(prev).push(pv));
            assert(all.take(i + 1) =~= all.take(i as int).push(all[i as int]));
            assert(texts(out@) =~= all.take(i + 1));
        }
        i += 1;
    }
    proof {
        assert(all.take(cs@.len() as int) =~= all);
    }
    out
}

spec fn associated_type_models(s: Seq<AssociatedType>) -> Seq<AssociatedTypeModel> {
    s.map_values(|a: AssociatedType| a@)
}

spec fn associated_constant_models(s: Seq<AssociatedConstant>) -> Seq<AssociatedConstantModel> {
    s.map_values(|a: AssociatedConstant| a@)
}

spec fn kind_models(s: Seq<KindDeclaration>) -> Seq<KindDeclarationModel> {
    s.map_values(|k: KindDeclaration| k@)
}

spec fn association_models(s: Seq<Association>) -> Seq<AssociationModel> {
    s.map_values(|a: Association| a@)
}

fn associated_type_names_of(ts: &Vec<AssociatedType>) -> (r: Vec<String>)
    ensures
        texts(r@) == associated_type_names(associated_type_models(ts@)),
{
    let ghost all = associated_type_names(associated_type_models(ts@));
    let mut out: Vec<String> = Vec::new();
    let mut i: usize = 0;
    while i < ts.len()
        invariant
            i <= ts@.len(),
            all == associated_type_names(associated_type_models(ts@)),
            texts(out@) == all.take(i as int),
        decreases ts@.len() - i,
    {
        let pushed = copy_text(&ts[i].name);
        let ghost prev = out@;
        let ghost pv = pushed@;
        out.push(pushed);
        proof {
            assert(texts(out@) =~= texts(prev).push(pv));
            assert(all.take(i + 1) =~= all.take(i as int).push(all[i as int]));
            assert(texts(out@) =~= all.take(i + 1));
        }
        i += 1;
    }
    proof {
        assert(all.take(ts@.len() as int) =~= all);
    }
    out
}

fn associated_constant_names_of(cs: &Vec<AssociatedConstant>) -> (r: Vec<String>)
    ensures
        texts(r@) == associated_constant_names(associated_constant_models(cs@)),
{
    let ghost all = associated_constant_names(associated_constant_models(cs@));
    let mut out: Vec<String> = Vec::new();
    let mut i: usize = 0;
    while i < cs.len()
        invariant
            i <= cs@.len(),
            all == associated_constant_names(associated_constant_models(cs@)),
            texts(out@) == all.take(i as int),
        decreases cs@.len() - i,
    {
        let pushed = copy_text(&cs[i].name);
        let ghost prev = out@;
        let ghost pv = pushed@;
        out.push(pushed);
        proof {
            assert(texts(out@) =~= texts(prev).push(pv));
            assert(all.take(i + 1) =~= all.take(i as int).push(all[i as int]));
            assert(texts(out@) =~= all.take(i + 1));
        }
        i += 1;
    }
    proof {
        assert(all.take(cs@.len() as int) =~= all);
    }
    out
}

fn kind_names_of(ks: &Vec<KindDeclaration>) -> (r: Vec<String>)
    ensures
        texts(r@) == kind_names(kind_models(ks@)),
{
    let ghost all = kind_names(kind_models(ks@));
    let mut out: Vec<String> = Vec::new();
    let mut i: usize = 0;
    while i < ks.len()
        invariant
            i <= ks@.len(),
            all == kind_names(kind_models(ks@)),
            texts(out@) == all.take(i as int),
        decreases ks@.len() - i,
    {
        let n = match &ks[i] {
            KindDeclaration::Simple { name, .. } => copy_text(name),
            KindDeclaration::Complex { name, .. } => copy_text(name),
        };
        let pushed = n;
        let ghost prev = out@;
        let ghost pv = pushed@;
        out.push(pushed);
        proof {
            assert(texts(out@) =~= texts(prev).push(pv));
            assert(all.take(i + 1) =~= all.take(i as int).push(all[i as int]));
            assert(texts(out@) =~= all.take(i + 1));
        }
        i += 1;
    }
    proof {
        assert(all.take(ks@.len() as int) =~= all);
    }
    out
}

/// Whether one of the texts is `n`.
fn has(v: &Vec<String>, n: &String) -> (r: bool)
    ensures
        r == texts(v@).contains(n@),
{
    let mut i: usize = 0;
    while i < v.len()
        invariant
            i <= v@.len(),
            forall|k: int| 0 <= k < i ==> #[trigger] texts(v@)[k] != n@,
        decreases v@.len() - i,
    {
        if v[i] == *n {
            proof {
                assert(texts(v@)[i as int] == n@);
            }
            return true;
        }
        i += 1;
    }
    false
}

/// Append the names of `names` to `out`.
fn push_texts(out: &mut Vec<String>, names: &Vec<String>)
    ensures
        texts(final(out)@) == texts(old(out)@) + texts(names@),
{
    let ghost start = texts(out@);
    let mut i: usize = 0;
    while i < names.len()
        invariant
            i <= names@.len(),
            texts(out@) == start + texts(names@).take(i as int),
        decreases names@.len() - i,
    {
        let pushed = copy_text(&names[i]);
        let ghost prev = out@;
        let ghost pv = pushed@;
        out.push(pushed);
        proof {
            assert(texts(out@) =~= texts(prev).push(pv));
            assert(texts(names@).take(i + 1) =~= texts(names@).take(i as int).push(texts(names@)[i as int]));
            assert(texts(out@) =~= start + texts(names@).take(i + 1));
        }
        i += 1;
    }
    proof {
        assert(texts(names@).take(names@.len() as int) =~= texts(names@));
    }
}

/// The names of a list of entries.
fn names_of_entries(es: &Vec<Entry>) -> (r: Vec<String>)
    ensures
        texts(r@) == entry_names(entry_models(es@)),
{
    let ghost all = entry_names(entry_models(es@));
    let mut out: Vec<String> = Vec::new();
    let mut i: usize = 0;
    while i < es.len()
        invariant
            i <= es@.len(),
            all == entry_names(entry_models(es@)),
            texts(out@) == all.take(i as int),
        decreases es@.len() - i,
    {
        let pushed = copy_text(&es[i].name);
        let ghost prev = out@;
        let ghost pv = pushed@;
        out.push(pushed);
        proof {
            assert(texts(out@) =~= texts(prev).push(pv));
            assert(all.take(i + 1) =~= all.take(i as int).push(all[i as int]));
            assert(texts(out@) =~= all.take(i + 1));
        }
        i += 1;
    }
    proof {
        assert(all.take(es@.len() as int) =~= all);
    }
    out
}

// ===========================================================================
// Executable checking: references
// ===========================================================================

/// What a position can refer to.
struct Scope {
    parameters: Vec<String>,
    declared: Vec<String>,
    imported: Vec<String>,
    implied: Vec<String>,
    kinds: Vec<String>,
}

spec fn scope_model(sc: &Scope) -> ScopeModel {
    ScopeModel {
        parameters: texts(sc.parameters@),
        declared: texts(sc.declared@),
        imported: texts(sc.imported@),
        implied: texts(sc.implied@),
        kinds: texts(sc.kinds@),
    }
}

/// A name in a type position, applied to `count` arguments.
fn check_name(sc: &Scope, n: &String, count: usize) -> (r: Result<(), Fault>)
    ensures
        outcome(r) == name_check(scope_model(sc), n@, count as nat),
{
    if !is_name(n) {
        return fault_here(Problem::Name(copy_text(n)));
    }
    let takes: usize;
    if has(&sc.parameters, n) || has(&sc.declared, n) {
        takes = 0;
    } else if has(&sc.imported, n) {
        return Ok(());
    } else if has(&sc.implied, n) || same_text(n, "Text") || same_text(n, "Integer") || same_text(
        n,
        "Decimal",
    ) || same_text(n, "Boolean") || same_text(n, "Symbol") || same_text(n, "Meaning") {
        takes = 0;
    } else if same_text(n, "Vector") || same_text(n, "Option") || same_text(n, "Box") {
        takes = 1;
    } else if same_text(n, "Result") {
        takes = 2;
    } else if has(&sc.kinds, n) || same_text(n, "Sized") {
        return fault_here(Problem::Role(copy_text(n)));
    } else {
        return fault_here(Problem::Undeclared(copy_text(n)));
    }
    if takes == count {
        Ok(())
    } else {
        fault_here(Problem::Arity(takes as i64, count as i64))
    }
}

/// A type expression: its name, then each argument under its index.
fn check_type(sc: &Scope, t: &TypeExpression) -> (r: Result<(), Fault>)
    ensures
        outcome(r) == type_check(scope_model(sc), t@),
    decreases t, 0int,
{
    proof {
        reveal_with_fuel(crate::concept::type_expression_model, 2);
    }
    match t {
        TypeExpression::Named(n) => check_name(sc, n, 0),
        TypeExpression::SelfType => Ok(()),
        TypeExpression::Applied(c, args) => {
            proof {
                lemma_type_expression_models(args@);
            }
            let r = check_name(sc, c, args.len());
            if r.is_err() {
                return r;
            }
            check_types(sc, args)
        },
    }
}

/// Type expressions, each under its index.
fn check_types(sc: &Scope, ts: &Vec<TypeExpression>) -> (r: Result<(), Fault>)
    ensures
        outcome(r) == types_check(scope_model(sc), type_expression_models(ts@), 0),
    decreases ts@, 1int,
{
    let ghost sm = scope_model(sc);
    let ghost m = type_expression_models(ts@);
    proof {
        lemma_type_expression_models(ts@);
    }
    let mut i: usize = 0;
    while i < ts.len()
        invariant
            i <= ts@.len(),
            sm == scope_model(sc),
            m == type_expression_models(ts@),
            m.len() == ts@.len(),
            forall|k: int| 0 <= k < m.len() ==> #[trigger] m[k] == ts@[k]@,
            types_check(sm, m, 0) == types_check(sm, m, i as int),
        decreases ts@.len() - i,
    {
        proof {
            assert(decreases_to!(ts@ => ts@[i as int]));
            assert(m[i as int] == ts@[i as int]@);
        }
        let r = place(i as i64, check_type(sc, &ts[i]));
        if r.is_err() {
            return r;
        }
        i += 1;
    }
    Ok(())
}

/// A name in a kind position.
fn check_kind_reference(sc: &Scope, n: &String) -> (r: Result<(), Fault>)
    ensures
        outcome(r) == kind_reference_check(scope_model(sc), n@),
{
    if !is_name(n) {
        fault_here(Problem::Name(copy_text(n)))
    } else if has(&sc.imported, n) || has(&sc.kinds, n) || same_text(n, "Sized") {
        Ok(())
    } else if resolves(sc, n) {
        fault_here(Problem::Role(copy_text(n)))
    } else {
        fault_here(Problem::Undeclared(copy_text(n)))
    }
}

/// Kind names, each under its index.
fn check_kind_references(sc: &Scope, ns: &Vec<String>) -> (r: Result<(), Fault>)
    ensures
        outcome(r) == kind_references_check(scope_model(sc), texts(ns@), 0),
{
    let ghost sm = scope_model(sc);
    let mut i: usize = 0;
    while i < ns.len()
        invariant
            i <= ns@.len(),
            sm == scope_model(sc),
            kind_references_check(sm, texts(ns@), 0) == kind_references_check(sm, texts(ns@), i as int),
        decreases ns@.len() - i,
    {
        let r = place(i as i64, check_kind_reference(sc, &ns[i]));
        if r.is_err() {
            return r;
        }
        i += 1;
    }
    Ok(())
}

/// Whether a name in a type position resolves to anything.
fn resolves(sc: &Scope, n: &String) -> (r: bool)
    ensures
        r == (type_arity(scope_model(sc), n@) is Some),
{
    has(&sc.parameters, n) || has(&sc.declared, n) || has(&sc.imported, n) || has(&sc.implied, n)
        || same_text(n, "Text") || same_text(n, "Integer") || same_text(n, "Decimal") || same_text(
        n,
        "Boolean",
    ) || same_text(n, "Symbol") || same_text(n, "Meaning") || same_text(n, "Vector") || same_text(
        n,
        "Option",
    ) || same_text(n, "Box") || same_text(n, "Result")
}

// ===========================================================================
// Executable checking: declarations
// ===========================================================================

/// A list of names checked to hold no name twice, each at `[section, index]`.
fn check_named(names: &Vec<String>, section: i64) -> (r: Result<(), Fault>)
    ensures
        outcome(r) == distinct(named_entries(texts(names@), section)),
{
    let mut es: Vec<Entry> = Vec::new();
    push_named(&mut es, names, section);
    proof {
        assert(entry_models(es@) =~= named_entries(texts(names@), section));
    }
    check_distinct(&es)
}

/// A variant: its payload under `0`; an inline enum's variants named once each.
fn check_variant(sc: &Scope, v: &Variant) -> (r: Result<(), Fault>)
    ensures
        outcome(r) == variant_check(scope_model(sc), v@),
    decreases v, 0int,
{
    proof {
        reveal_with_fuel(crate::concept::variant_model, 2);
    }
    match v {
        Variant::Unit(_) => Ok(()),
        Variant::Typed(_, t) => place(0, check_type(sc, t)),
        Variant::InlineStruct(_, ts) => place(0, check_types(sc, ts)),
        Variant::InlineEnum(_, vs) => {
            let names = variant_names_of(vs);
            let d = check_named(&names, 0);
            if d.is_err() {
                return d;
            }
            place(0, check_variants(sc, vs))
        },
    }
}

/// Variants, each under its index.
fn check_variants(sc: &Scope, vs: &Vec<Variant>) -> (r: Result<(), Fault>)
    ensures
        outcome(r) == variants_check(scope_model(sc), variant_models(vs@), 0),
    decreases vs@, 1int,
{
    let ghost sm = scope_model(sc);
    let ghost m = variant_models(vs@);
    proof {
        lemma_variant_models(vs@);
    }
    let mut i: usize = 0;
    while i < vs.len()
        invariant
            i <= vs@.len(),
            sm == scope_model(sc),
            m == variant_models(vs@),
            m.len() == vs@.len(),
            forall|k: int| 0 <= k < m.len() ==> #[trigger] m[k] == vs@[k]@,
            variants_check(sm, m, 0) == variants_check(sm, m, i as int),
        decreases vs@.len() - i,
    {
        proof {
            assert(decreases_to!(vs@ => vs@[i as int]));
            assert(m[i as int] == vs@[i as int]@);
        }
        let r = place(i as i64, check_variant(sc, &vs[i]));
        if r.is_err() {
            return r;
        }
        i += 1;
    }
    Ok(())
}

/// A type declaration: its body under `0`.
/// The index of the first declaration named `n`, if one is.
fn declaration_index(ds: &Vec<TypeDeclaration>, n: &String) -> (r: Option<usize>)
    ensures
        match r {
            Some(i) => i < ds@.len() && declaration_named(declaration_models(ds@), n@, 0) == Some(
                declaration_models(ds@)[i as int],
            ),
            None => declaration_named(declaration_models(ds@), n@, 0) is None,
        },
{
    let ghost m = declaration_models(ds@);
    let mut i: usize = 0;
    while i < ds.len()
        invariant
            i <= ds@.len(),
            m == declaration_models(ds@),
            declaration_named(m, n@, 0) == declaration_named(m, n@, i as int),
        decreases ds@.len() - i,
    {
        let name = match &ds[i] {
            TypeDeclaration::Struct(dn, _) => dn,
            TypeDeclaration::Enum(dn, _) => dn,
            TypeDeclaration::Alias(dn, _) => dn,
        };
        proof {
            assert(m[i as int] == ds@[i as int]@);
            assert(declaration_name(m[i as int]) == name@);
        }
        if *name == *n {
            return Some(i);
        }
        i += 1;
    }
    None
}

/// Whether a type expression reaches `target` through aliases and
/// containers alone (see [`type_cycles`]).
fn type_reaches(
    sc: &Scope,
    ds: &Vec<TypeDeclaration>,
    t: &TypeExpression,
    target: &String,
    fuel: usize,
) -> (r: bool)
    ensures
        r == type_cycles(scope_model(sc), declaration_models(ds@), t@, target@, fuel as nat),
    decreases fuel, t, 0int,
{
    proof {
        reveal_with_fuel(crate::concept::type_expression_model, 2);
    }
    let head = match t {
        TypeExpression::Named(n) => n,
        TypeExpression::Applied(c, _) => c,
        TypeExpression::SelfType => {
            return false;
        },
    };
    if *head == *target {
        return true;
    }
    if has(&sc.declared, head) {
        if fuel == 0 {
            return false;
        }
        return match declaration_index(ds, head) {
            Some(i) => {
                proof {
                    assert(declaration_models(ds@)[i as int] == ds@[i as int]@);
                }
                match &ds[i] {
                    TypeDeclaration::Alias(_, a) => type_reaches(sc, ds, a, target, fuel - 1),
                    _ => false,
                }
            },
            None => false,
        };
    }
    match t {
        TypeExpression::Applied(c, args) => {
            proof {
                lemma_type_expression_models(args@);
            }
            if has(&sc.imported, c) || same_text(c, "Vector") || same_text(c, "Option")
                || same_text(c, "Box") || same_text(c, "Result") {
                types_reach(sc, ds, args, target, fuel)
            } else {
                false
            }
        },
        _ => false,
    }
}

/// Whether one of the type expressions reaches `target` (see [`types_cycle`]).
fn types_reach(
    sc: &Scope,
    ds: &Vec<TypeDeclaration>,
    ts: &Vec<TypeExpression>,
    target: &String,
    fuel: usize,
) -> (r: bool)
    ensures
        r == types_cycle(
            scope_model(sc),
            declaration_models(ds@),
            type_expression_models(ts@),
            target@,
            fuel as nat,
            0,
        ),
    decreases fuel, ts@, 1int,
{
    let ghost sm = scope_model(sc);
    let ghost dm = declaration_models(ds@);
    let ghost m = type_expression_models(ts@);
    proof {
        lemma_type_expression_models(ts@);
    }
    let mut i: usize = 0;
    while i < ts.len()
        invariant
            i <= ts@.len(),
            sm == scope_model(sc),
            dm == declaration_models(ds@),
            m == type_expression_models(ts@),
            m.len() == ts@.len(),
            forall|k: int| 0 <= k < m.len() ==> #[trigger] m[k] == ts@[k]@,
            types_cycle(sm, dm, m, target@, fuel as nat, 0) == types_cycle(
                sm,
                dm,
                m,
                target@,
                fuel as nat,
                i as int,
            ),
        decreases ts@.len() - i,
    {
        proof {
            assert(decreases_to!(ts@ => ts@[i as int]));
            assert(m[i as int] == ts@[i as int]@);
        }
        if type_reaches(sc, ds, &ts[i], target, fuel) {
            return true;
        }
        i += 1;
    }
    false
}

fn check_declaration(sc: &Scope, ds: &Vec<TypeDeclaration>, d: &TypeDeclaration) -> (r: Result<
    (),
    Fault,
>)
    ensures
        outcome(r) == declaration_check(scope_model(sc), declaration_models(ds@), d@),
{
    match d {
        TypeDeclaration::Struct(_, ts) => place(0, check_types(sc, ts)),
        TypeDeclaration::Enum(_, vs) => {
            let names = variant_names_of(vs);
            let r = check_named(&names, 0);
            if r.is_err() {
                return r;
            }
            place(0, check_variants(sc, vs))
        },
        TypeDeclaration::Alias(n, t) => {
            let r = place(0, check_type(sc, t));
            if r.is_err() {
                return r;
            }
            if type_reaches(sc, ds, t, n, ds.len()) {
                place(0, fault_here(Problem::Cycle(copy_text(n))))
            } else {
                Ok(())
            }
        },
    }
}

/// Declarations, each under `[section, index]`.
fn check_declarations(sc: &Scope, ds: &Vec<TypeDeclaration>, section: i64) -> (r: Result<(), Fault>)
    ensures
        outcome(r) == declarations_check(scope_model(sc), declaration_models(ds@), section, 0),
{
    let ghost sm = scope_model(sc);
    let ghost m = declaration_models(ds@);
    let mut i: usize = 0;
    while i < ds.len()
        invariant
            i <= ds@.len(),
            sm == scope_model(sc),
            m == declaration_models(ds@),
            declarations_check(sm, m, section, 0) == declarations_check(sm, m, section, i as int),
        decreases ds@.len() - i,
    {
        let r = place(section, place(i as i64, check_declaration(sc, ds, &ds[i])));
        if r.is_err() {
            return r;
        }
        i += 1;
    }
    Ok(())
}

/// Associations, each under `[2, index]`.
fn check_associations(sc: &Scope, as_: &Vec<Association>) -> (r: Result<(), Fault>)
    ensures
        outcome(r) == associations_check(scope_model(sc), association_models(as_@), 0),
{
    let ghost sm = scope_model(sc);
    let ghost m = association_models(as_@);
    let mut i: usize = 0;
    while i < as_.len()
        invariant
            i <= as_@.len(),
            sm == scope_model(sc),
            m == association_models(as_@),
            associations_check(sm, m, 0) == associations_check(sm, m, i as int),
        decreases as_@.len() - i,
    {
        let a = &as_[i];
        let one = if !is_name(&a.ty) {
            fault_here(Problem::Name(copy_text(&a.ty)))
        } else if !resolves(sc, &a.ty) {
            fault_here(Problem::Undeclared(copy_text(&a.ty)))
        } else {
            place(0, check_kind_references(sc, &a.kinds))
        };
        let r = place(2, place(i as i64, one));
        if r.is_err() {
            return r;
        }
        i += 1;
    }
    Ok(())
}

// ===========================================================================
// Executable checking: kinds
// ===========================================================================

/// The letters that name `n` type parameters.
fn letters_of(n: usize) -> (r: Vec<String>)
    requires
        n <= 26,
    ensures
        texts(r@) == letters(n as nat),
{
    let mut out: Vec<String> = Vec::new();
    let mut i: usize = 0;
    while i < n
        invariant
            i <= n <= 26,
            texts(out@) == letters(n as nat).take(i as int),
        decreases n - i,
    {
        let mut t = String::new();
        push_char(&mut t, ((65 + i) as u8) as char);
        let ghost prev = out@;
        let ghost pv = t@;
        out.push(t);
        proof {
            assert(pv =~= letter(i as int));
            assert(texts(out@) =~= texts(prev).push(pv));
            assert(letters(n as nat).take(i + 1) =~= letters(n as nat).take(i as int).push(
                letter(i as int),
            ));
        }
        i += 1;
    }
    proof {
        assert(letters(n as nat).take(n as int) =~= letters(n as nat));
    }
    out
}

/// A copy of the scope with other parameters.
fn with_parameters(sc: &Scope, parameters: Vec<String>) -> (r: Scope)
    ensures
        scope_model(&r) == (ScopeModel { parameters: texts(parameters@), ..scope_model(sc) }),
{
    let mut declared: Vec<String> = Vec::new();
    push_texts(&mut declared, &sc.declared);
    let mut imported: Vec<String> = Vec::new();
    push_texts(&mut imported, &sc.imported);
    let mut implied: Vec<String> = Vec::new();
    push_texts(&mut implied, &sc.implied);
    let mut kinds: Vec<String> = Vec::new();
    push_texts(&mut kinds, &sc.kinds);
    proof {
        assert(texts(declared@) =~= texts(sc.declared@));
        assert(texts(imported@) =~= texts(sc.imported@));
        assert(texts(implied@) =~= texts(sc.implied@));
        assert(texts(kinds@) =~= texts(sc.kinds@));
    }
    Scope { parameters, declared, imported, implied, kinds }
}

/// A capability: its inputs and its yield.
fn check_capability(sc: &Scope, c: &Capability) -> (r: Result<(), Fault>)
    ensures
        outcome(r) == capability_check(scope_model(sc), c@),
{
    proof {
        lemma_type_expression_models(c.inputs@);
    }
    if c.inputs.len() == 0 {
        place(0, place(0, check_type(sc, &c.yield_type)))
    } else {
        let r = place(0, place(0, check_types(sc, &c.inputs)));
        if r.is_err() {
            return r;
        }
        place(0, place(1, place(0, check_type(sc, &c.yield_type))))
    }
}

/// Capabilities, each under `[section, index]`.
fn check_capabilities(sc: &Scope, cs: &Vec<Capability>, section: i64) -> (r: Result<(), Fault>)
    ensures
        outcome(r) == capabilities_check(scope_model(sc), capability_models(cs@), section, 0),
{
    let ghost sm = scope_model(sc);
    let ghost m = capability_models(cs@);
    let mut i: usize = 0;
    while i < cs.len()
        invariant
            i <= cs@.len(),
            sm == scope_model(sc),
            m == capability_models(cs@),
            capabilities_check(sm, m, section, 0) == capabilities_check(sm, m, section, i as int),
        decreases cs@.len() - i,
    {
        let r = place(section, place(i as i64, check_capability(sc, &cs[i])));
        if r.is_err() {
            return r;
        }
        i += 1;
    }
    Ok(())
}

/// The parameters' constraints, each bound under `[parameter, index]`.
fn check_constraints(sc: &Scope, cs: &Vec<KindConstraint>) -> (r: Result<(), Fault>)
    ensures
        outcome(r) == constraints_check(scope_model(sc), kind_constraint_models(cs@), 0),
{
    let ghost sm = scope_model(sc);
    let ghost m = kind_constraint_models(cs@);
    let mut i: usize = 0;
    while i < cs.len()
        invariant
            i <= cs@.len(),
            sm == scope_model(sc),
            m == kind_constraint_models(cs@),
            constraints_check(sm, m, 0) == constraints_check(sm, m, i as int),
        decreases cs@.len() - i,
    {
        let r = place(i as i64, check_kind_references(sc, &cs[i].bounds));
        if r.is_err() {
            return r;
        }
        i += 1;
    }
    Ok(())
}

/// Associated types, each bound under `[type, index]`.
fn check_associated_types(sc: &Scope, ts: &Vec<AssociatedType>) -> (r: Result<(), Fault>)
    ensures
        outcome(r) == associated_types_check(scope_model(sc), associated_type_models(ts@), 0),
{
    let ghost sm = scope_model(sc);
    let ghost m = associated_type_models(ts@);
    let mut i: usize = 0;
    while i < ts.len()
        invariant
            i <= ts@.len(),
            sm == scope_model(sc),
            m == associated_type_models(ts@),
            associated_types_check(sm, m, 0) == associated_types_check(sm, m, i as int),
        decreases ts@.len() - i,
    {
        let r = place(i as i64, check_kind_references(sc, &ts[i].constraints));
        if r.is_err() {
            return r;
        }
        i += 1;
    }
    Ok(())
}

/// Associated constants, each type under `[constant, 0]`.
fn check_associated_constants(sc: &Scope, cs: &Vec<AssociatedConstant>) -> (r: Result<(), Fault>)
    ensures
        outcome(r) == associated_constants_check(
            scope_model(sc),
            associated_constant_models(cs@),
            0,
        ),
{
    let ghost sm = scope_model(sc);
    let ghost m = associated_constant_models(cs@);
    let mut i: usize = 0;
    while i < cs.len()
        invariant
            i <= cs@.len(),
            sm == scope_model(sc),
            m == associated_constant_models(cs@),
            associated_constants_check(sm, m, 0) == associated_constants_check(sm, m, i as int),
        decreases cs@.len() - i,
    {
        let r = place(i as i64, place(0, check_type(sc, &cs[i].ty)));
        if r.is_err() {
            return r;
        }
        i += 1;
    }
    Ok(())
}

/// A kind declaration (see [`kind_check`]).
fn check_kind(sc: &Scope, k: &KindDeclaration) -> (r: Result<(), Fault>)
    ensures
        outcome(r) == kind_check(scope_model(sc), k@),
{
    match k {
        KindDeclaration::Simple { constraints, capabilities, .. } => {
            if constraints.len() > 26 {
                return fault_here(Problem::Arity(26, constraints.len() as i64));
            }
            let r = check_constraints(sc, constraints);
            if r.is_err() {
                return r;
            }
            let names = capability_names_of(capabilities);
            let r = check_named(&names, 0);
            if r.is_err() {
                return r;
            }
            let inner = with_parameters(sc, letters_of(constraints.len()));
            check_capabilities(&inner, capabilities, 0)
        },
        KindDeclaration::Complex {
            constraints,
            superkinds,
            associated_types,
            associated_constants,
            capabilities,
            ..
        } => {
            if constraints.len() > 26 {
                return fault_here(Problem::Arity(26, constraints.len() as i64));
            }
            let r = check_constraints(sc, constraints);
            if r.is_err() {
                return r;
            }
            let type_names = associated_type_names_of(associated_types);
            let r = check_named(&type_names, 1);
            if r.is_err() {
                return r;
            }
            let constant_names = associated_constant_names_of(associated_constants);
            let r = check_named(&constant_names, 2);
            if r.is_err() {
                return r;
            }
            let names = capability_names_of(capabilities);
            let r = check_named(&names, 3);
            if r.is_err() {
                return r;
            }
            let mut parameters = letters_of(constraints.len());
            push_texts(&mut parameters, &type_names);
            let inner = with_parameters(sc, parameters);
            let r = place(0, place(0, check_kind_references(&inner, superkinds)));
            if r.is_err() {
                return r;
            }
            let r = place(0, place(1, check_associated_types(&inner, associated_types)));
            if r.is_err() {
                return r;
            }
            let r = place(0, place(2, check_associated_constants(&inner, associated_constants)));
            if r.is_err() {
                return r;
            }
            place(0, check_capabilities(&inner, capabilities, 3))
        },
    }
}

/// Kind declarations, each under `[1, index]`.
fn check_kinds(sc: &Scope, ks: &Vec<KindDeclaration>) -> (r: Result<(), Fault>)
    ensures
        outcome(r) == kinds_check(scope_model(sc), kind_models(ks@), 0),
{
    let ghost sm = scope_model(sc);
    let ghost m = kind_models(ks@);
    let mut i: usize = 0;
    while i < ks.len()
        invariant
            i <= ks@.len(),
            sm == scope_model(sc),
            m == kind_models(ks@),
            kinds_check(sm, m, 0) == kinds_check(sm, m, i as int),
        decreases ks@.len() - i,
    {
        let r = place(1, place(i as i64, check_kind(sc, &ks[i])));
        if r.is_err() {
            return r;
        }
        i += 1;
    }
    Ok(())
}

// ===========================================================================
// Executable checking: files
// ===========================================================================

fn no_texts() -> (r: Vec<String>)
    ensures
        texts(r@) == Seq::<Seq<char>>::empty(),
{
    let r: Vec<String> = Vec::new();
    proof {
        assert(texts(r@) =~= Seq::<Seq<char>>::empty());
    }
    r
}

fn check_types_file(t: &Types) -> (r: Result<(), Fault>)
    ensures
        outcome(r) == parts_check(
            FileModel::Types {
                imports: import_models(t.imports@),
                types: declaration_models(t.types@),
                associations: association_models(t.associations@),
            },
        ),
{
    let declared = declaration_names_of(&t.types);
    let mut es: Vec<Entry> = Vec::new();
    push_imports(&mut es, &t.imports, 0);
    let imported = names_of_entries(&es);
    push_named(&mut es, &declared, 1);
    proof {
        assert(entry_models(es@) =~= import_entries(import_models(t.imports@), 0) + named_entries(
            declaration_names(declaration_models(t.types@)),
            1,
        ));
    }
    let r = check_distinct(&es);
    if r.is_err() {
        return r;
    }
    let sc = Scope {
        parameters: no_texts(),
        declared,
        imported,
        implied: no_texts(),
        kinds: no_texts(),
    };
    let r = check_declarations(&sc, &t.types, 1);
    if r.is_err() {
        return r;
    }
    check_associations(&sc, &t.associations)
}

fn check_kinds_file(k: &Kinds) -> (r: Result<(), Fault>)
    ensures
        outcome(r) == parts_check(
            FileModel::Kinds { imports: import_models(k.imports@), kinds: kind_models(k.kinds@) },
        ),
{
    let names = kind_names_of(&k.kinds);
    let mut es: Vec<Entry> = Vec::new();
    push_imports(&mut es, &k.imports, 0);
    let imported = names_of_entries(&es);
    push_named(&mut es, &names, 1);
    proof {
        assert(entry_models(es@) =~= import_entries(import_models(k.imports@), 0) + named_entries(
            kind_names(kind_models(k.kinds@)),
            1,
        ));
    }
    let r = check_distinct(&es);
    if r.is_err() {
        return r;
    }
    let sc = Scope {
        parameters: no_texts(),
        declared: no_texts(),
        imported,
        implied: no_texts(),
        kinds: names,
    };
    check_kinds(&sc, &k.kinds)
}

fn check_signal_file(s: &Signal) -> (r: Result<(), Fault>)
    ensures
        outcome(r) == parts_check(
            FileModel::Signal {
                imports: import_models(s.imports@),
                requests: variant_models(s.requests@),
                responses: variant_models(s.responses@),
                types: declaration_models(s.types@),
            },
        ),
{
    proof {
        lemma_variant_models(s.requests@);
        lemma_variant_models(s.responses@);
    }
    if s.requests.len() == 0 {
        let mut path: Vec<i64> = Vec::new();
        path.push(1);
        proof {
            assert(path@ =~= seq![1i64]);
        }
        return Err(Fault { path, problem: Problem::Empty });
    }
    if s.responses.len() == 0 {
        let mut path: Vec<i64> = Vec::new();
        path.push(2);
        proof {
            assert(path@ =~= seq![2i64]);
        }
        return Err(Fault { path, problem: Problem::Empty });
    }
    let declared = declaration_names_of(&s.types);
    let mut implied: Vec<String> = Vec::new();
    implied.push(String::from_str("Request"));
    implied.push(String::from_str("Response"));
    let mut es: Vec<Entry> = Vec::new();
    let mut first: Vec<i64> = Vec::new();
    first.push(1);
    es.push(Entry { name: String::from_str("Request"), path: first });
    let mut second: Vec<i64> = Vec::new();
    second.push(2);
    es.push(Entry { name: String::from_str("Response"), path: second });
    proof {
        assert(entry_models(es@) =~= signal_implied());
        assert(texts(implied@) =~= entry_names(signal_implied()));
    }
    let mut imports: Vec<Entry> = Vec::new();
    push_imports(&mut imports, &s.imports, 0);
    let imported = names_of_entries(&imports);
    push_imports(&mut es, &s.imports, 0);
    push_named(&mut es, &declared, 3);
    proof {
        assert(entry_models(es@) =~= signal_implied() + import_entries(import_models(s.imports@), 0)
            + named_entries(declaration_names(declaration_models(s.types@)), 3));
    }
    let r = check_distinct(&es);
    if r.is_err() {
        return r;
    }
    let request_names = variant_names_of(&s.requests);
    let r = check_named(&request_names, 1);
    if r.is_err() {
        return r;
    }
    let response_names = variant_names_of(&s.responses);
    let r = check_named(&response_names, 2);
    if r.is_err() {
        return r;
    }
    let sc = Scope { parameters: no_texts(), declared, imported, implied, kinds: no_texts() };
    let r = place(1, check_variants(&sc, &s.requests));
    if r.is_err() {
        return r;
    }
    let r = place(2, check_variants(&sc, &s.responses));
    if r.is_err() {
        return r;
    }
    check_declarations(&sc, &s.types, 3)
}

fn check_sema_file(s: &Sema) -> (r: Result<(), Fault>)
    ensures
        outcome(r) == parts_check(
            FileModel::Sema { imports: import_models(s.imports@), types: declaration_models(s.types@) },
        ),
{
    let declared = declaration_names_of(&s.types);
    let mut es: Vec<Entry> = Vec::new();
    push_imports(&mut es, &s.imports, 0);
    let imported = names_of_entries(&es);
    push_named(&mut es, &declared, 1);
    proof {
        assert(entry_models(es@) =~= import_entries(import_models(s.imports@), 0) + named_entries(
            declaration_names(declaration_models(s.types@)),
            1,
        ));
    }
    let r = check_distinct(&es);
    if r.is_err() {
        return r;
    }
    let sc = Scope {
        parameters: no_texts(),
        declared,
        imported,
        implied: no_texts(),
        kinds: no_texts(),
    };
    check_declarations(&sc, &s.types, 1)
}

/// The sources of the imports, each a path, and the names renaming imports
/// emit (see [`sources_check`]).
fn check_sources(imports: &Vec<Import>) -> (r: Result<(), Fault>)
    ensures
        outcome(r) == sources_check(import_models(imports@), 0),
{
    let ghost ms = import_models(imports@);
    let mut i: usize = 0;
    while i < imports.len()
        invariant
            i <= imports@.len(),
            ms == import_models(imports@),
            sources_check(ms, 0) == sources_check(ms, i as int),
        decreases imports@.len() - i,
    {
        let source = match &imports[i] {
            Import::Single(s, _) => s,
            Import::Multiple(s, _) => s,
            Import::Renamed(s, _, _) => s,
        };
        if !is_source(source) {
            let mut path: Vec<i64> = Vec::new();
            path.push(0);
            path.push(i as i64);
            proof {
                assert(path@ =~= seq![0i64, i as i64]);
            }
            return Err(Fault { path, problem: Problem::Name(copy_text(source)) });
        }
        if let Import::Renamed(_, _, emitted) = &imports[i] {
            if !is_name(emitted) {
                let mut path: Vec<i64> = Vec::new();
                path.push(0);
                path.push(i as i64);
                path.push(0);
                path.push(0);
                proof {
                    assert(path@ =~= seq![0i64, i as i64, 0i64, 0i64]);
                }
                return Err(Fault { path, problem: Problem::Name(copy_text(emitted)) });
            }
        }
        i += 1;
    }
    Ok(())
}

/// Check a conceived file whole (see [`file_check`]).
pub fn check(file: &File) -> (r: Result<(), Fault>)
    ensures
        outcome(r) == file_check(file@),
{
    let imports = match file {
        File::Types(t) => &t.imports,
        File::Kinds(k) => &k.imports,
        File::Signal(s) => &s.imports,
        File::Sema(s) => &s.imports,
    };
    let sources = check_sources(imports);
    if sources.is_err() {
        return place(0, sources);
    }
    let parts = match file {
        File::Types(t) => {
            proof {
                assert(association_models(t.associations@) =~= t.associations@.map_values(
                    |a: Association| a@,
                ));
            }
            check_types_file(t)
        },
        File::Kinds(k) => {
            proof {
                assert(kind_models(k.kinds@) =~= k.kinds@.map_values(|d: KindDeclaration| d@));
            }
            check_kinds_file(k)
        },
        File::Signal(s) => check_signal_file(s),
        File::Sema(s) => check_sema_file(s),
    };
    place(0, parts)
}

} // verus!
