//! The reader, executable: each function reads what its namesake in
//! `reading` specifies.

use vstd::prelude::*;
use crate::protoform::{
    Delineation, Enclosure, Head, Protoform, Separator, lemma_protoform_models, protoform_model,
    protoform_models,
};
use crate::concept::{
    AssociatedConstant, AssociatedType, Association, Capability, Fault, File, Import,
    KindConstraint, KindDeclaration, Kinds, Problem, ProblemModel, Receiver, Sema, Signal, TypeDeclaration,
    TypeExpression, Types, Variant, capability_models, declaration_models, import_models,
    kind_constraint_models, lemma_type_expression_models, lemma_variant_models, texts,
    type_expression_models, variant_models,
};
use crate::reading::{
    Fail,
    bare_symbol, bare_symbols, declaration_at, declarations_from, enclosed, expression_at,
    expression_with_following, expressions_from, following, head_qualifiers, headed, prepend,
    read_association, read_associated_constant, read_associated_type, read_associations,
    read_bare_list, read_capability, read_each, read_file, read_import, read_imports, read_kind,
    read_kind_constraint, read_kinds, read_sections, read_type_declarations, read_variant_list,
    receiver_of, read_yield, root_reading, single_expression, step, variant_at, variants_from, import_reader,
    association_reader, kind_constraint_reader, capability_reader, associated_type_reader,
    associated_constant_reader, kind_reader,
};
use crate::fault::Form;
use crate::conception::prefixed;
use crate::text::{copy_text, same_text};

verus! {

// ---------------------------------------------------------------------------
// Outcomes: an executable result against its specified reading
// ---------------------------------------------------------------------------

/// A fault carrying the problem at the empty path.
pub open spec fn faults_with(f: Fault, p: ProblemModel) -> bool {
    f.problem@ == p && f.path@ == Seq::<i64>::empty()
}

/// A fault at the path and with the problem of a specified failure.
pub open spec fn fails_as(f: Fault, e: Fail) -> bool {
    f.path@ == e.0 && f.problem@ == e.1
}

/// An executable result agrees with a specified one, through a model.
pub open spec fn agrees<T, M>(
    r: Result<T, Fault>,
    s: Result<M, Fail>,
    model: spec_fn(T) -> M,
) -> bool {
    match (r, s) {
        (Ok(x), Ok(m)) => model(x) == m,
        (Err(f), Err(e)) => fails_as(f, e),
        _ => false,
    }
}

/// The fault of the part at index `i`, placed under `i`.
fn at(i: usize, f: Fault) -> (g: Fault)
    ensures
        g.path@ == seq![i as i64] + f.path@,
        g.problem == f.problem,
{
    Fault { path: prefixed(i as i64, f.path), problem: f.problem }
}

fn fault(problem: Problem) -> (f: Fault)
    ensures
        faults_with(f, problem@),
        fails_as(f, (Seq::empty(), problem@)),
{
    Fault { path: Vec::new(), problem }
}

// ---------------------------------------------------------------------------
// Anatomy
// ---------------------------------------------------------------------------

fn pf_headed(pf: &Protoform) -> (r: Option<(&String, Separator, &Protoform)>)
    ensures
        match r {
            Some((head, sep, body)) => headed(pf@) == Some((head@, sep, body@)),
            None => headed(pf@) is None,
        },
{
    proof {
        reveal_with_fuel(crate::protoform::protoform_model, 2);
    }
    match pf {
        Protoform::Headed(head, s, b) => match head {
            Head::Bare(h) => Some((h, *s, &**b)),
            Head::Qualified(h, _) => Some((h, *s, &**b)),
        },
        _ => None,
    }
}

fn pf_head_qualifiers(pf: &Protoform) -> (r: Option<&Vec<Protoform>>)
    ensures
        match r {
            Some(q) => head_qualifiers(pf@) == Some(protoform_models(q@)),
            None => head_qualifiers(pf@) is None,
        },
{
    proof {
        reveal_with_fuel(crate::protoform::protoform_model, 2);
    }
    match pf {
        Protoform::Headed(head, _, _) => match head {
            Head::Qualified(_, q) => Some(q),
            Head::Bare(_) => None,
        },
        _ => None,
    }
}

fn pf_bare_symbol(pf: &Protoform) -> (r: Option<&String>)
    ensures
        match r {
            Some(s) => bare_symbol(pf@) == Some(s@),
            None => bare_symbol(pf@) is None,
        },
{
    proof {
        reveal_with_fuel(crate::protoform::protoform_model, 2);
    }
    match pf {
        Protoform::Bare(head) => match head {
            Head::Bare(s) => Some(s),
            Head::Qualified(_, _) => None,
        },
        _ => None,
    }
}

fn pf_enclosed(pf: &Protoform, e: Enclosure) -> (r: Option<&Vec<Protoform>>)
    ensures
        match r {
            Some(c) => enclosed(pf@, e) == Some(protoform_models(c@)),
            None => enclosed(pf@, e) is None,
        },
{
    match pf {
        Protoform::Enclosed(f, c) => if *f == e {
            Some(c)
        } else {
            None
        },
        _ => None,
    }
}

/// The bare symbols of a list, copied; none if one of them is not bare.
fn pf_bare_symbols(pfs: &Vec<Protoform>) -> (r: Option<Vec<String>>)
    ensures
        match r {
            Some(v) => bare_symbols(protoform_models(pfs@)) == Some(texts(v@)),
            None => bare_symbols(protoform_models(pfs@)) is None,
        },
{
    let ghost m = protoform_models(pfs@);
    proof {
        lemma_protoform_models(pfs@);
    }
    let mut out: Vec<String> = Vec::new();
    let mut i: usize = 0;
    while i < pfs.len()
        invariant
            i <= pfs.len(),
            m == protoform_models(pfs@),
            m.len() == pfs@.len(),
            forall|j: int| 0 <= j < pfs@.len() ==> #[trigger] m[j] == protoform_model(pfs@[j]),
            bare_symbols(m.take(i as int)) == Some(texts(out@)),
        decreases pfs.len() - i,
    {
        assert(m.take(i as int + 1).drop_last() =~= m.take(i as int));
        match pf_bare_symbol(&pfs[i]) {
            Some(s) => {
                out.push(copy_text(s));
                assert(texts(out@) =~= texts(out@.drop_last()).push(s@));
            },
            None => {
                proof {
                    lemma_bare_symbols_prefix_none(m, i as int + 1);
                    assert(m.take(pfs@.len() as int) =~= m);
                }
                return None;
            },
        }
        i = i + 1;
    }
    assert(m.take(pfs@.len() as int) =~= m);
    Some(out)
}

/// Once a prefix holds a symbol that is not bare, so does every longer prefix.
proof fn lemma_bare_symbols_prefix_none(m: Seq<crate::protoform::ProtoformModel>, k: int)
    requires
        0 < k <= m.len(),
        bare_symbols(m.take(k)) is None,
    ensures
        bare_symbols(m.take(m.len() as int)) is None,
    decreases m.len() - k,
{
    if k < m.len() {
        assert(m.take(k + 1).drop_last() =~= m.take(k));
        lemma_bare_symbols_prefix_none(m, k + 1);
    }
}

/// Once a prefix faults, every longer prefix faults the same way.
pub proof fn lemma_read_each_prefix_err<T>(
    m: Seq<crate::protoform::ProtoformModel>,
    read: spec_fn(crate::protoform::ProtoformModel) -> Result<T, Fail>,
    k: int,
    p: Fail,
)
    requires
        0 < k <= m.len(),
        read_each(m.take(k), read) == Err::<Seq<T>, Fail>(p),
    ensures
        read_each(m, read) == Err::<Seq<T>, Fail>(p),
    decreases m.len() - k,
{
    if k < m.len() {
        assert(m.take(k + 1).drop_last() =~= m.take(k));
        lemma_read_each_prefix_err(m, read, k + 1, p);
    } else {
        assert(m.take(k) =~= m);
    }
}

// ---------------------------------------------------------------------------
// Type expressions
// ---------------------------------------------------------------------------

fn read_expression_at(pfs: &Vec<Protoform>, i: usize) -> (r: Result<(TypeExpression, bool), Fault>)
    requires
        i < pfs@.len(),
    ensures
        agrees(
            r,
            expression_at(protoform_models(pfs@), i as int),
            |x: (TypeExpression, bool)| (x.0@, x.1),
        ),
        r matches Ok((_, true)) ==> i + 1 < pfs@.len(),
    decreases pfs@, 0int,
{
    proof {
        lemma_protoform_models(pfs@);
        reveal_with_fuel(crate::protoform::protoform_model, 2);
    }
    let ghost m = protoform_models(pfs@);
    match &pfs[i] {
        Protoform::Bare(Head::Qualified(c, args)) => {
            proof {
                assert(decreases_to!(pfs@ => pfs@[i as int]));
            }
            let a = read_expressions(args)?;
            Ok((TypeExpression::Applied(copy_text(c), a), false))
        },
        Protoform::Bare(Head::Bare(n)) => {
            if same_text(n, "Self") {
                Ok((TypeExpression::SelfType, false))
            } else if i < pfs.len() - 1 {
                match &pfs[i + 1] {
                    Protoform::Enclosed(Enclosure::Angled, ch) => {
                        proof {
                            assert(decreases_to!(pfs@ => pfs@[i + 1]));
                        }
                        let a = read_expressions(ch)?;
                        Ok((TypeExpression::Applied(copy_text(n), a), true))
                    },
                    _ => Ok((TypeExpression::Named(copy_text(n)), false)),
                }
            } else {
                Ok((TypeExpression::Named(copy_text(n)), false))
            }
        },
        _ => Err(fault(Problem::Expected(Form::Reference))),
    }
}

/// The type expressions of a list.
fn read_expressions(pfs: &Vec<Protoform>) -> (r: Result<Vec<TypeExpression>, Fault>)
    ensures
        agrees(
            r,
            expressions_from(protoform_models(pfs@), 0),
            |v: Vec<TypeExpression>| type_expression_models(v@),
        ),
    decreases pfs@, 1int,
{
    let ghost m = protoform_models(pfs@);
    let mut out: Vec<TypeExpression> = Vec::new();
    let mut index: usize = 0;
    proof {
        lemma_protoform_models(pfs@);
        assert(type_expression_models(out@) =~= Seq::<crate::concept::TypeExpressionModel>::empty());
        assert(prepend(type_expression_models(out@), expressions_from(m, 0)) == expressions_from(
            m,
            0,
        )) by {
            match expressions_from(m, 0) {
                Ok(x) => assert(Seq::<crate::concept::TypeExpressionModel>::empty() + x =~= x),
                Err(_) => {},
            }
        }
    }
    while index < pfs.len()
        invariant
            index <= pfs@.len(),
            m == protoform_models(pfs@),
            m.len() == pfs@.len(),
            expressions_from(m, 0) == prepend(
                type_expression_models(out@),
                expressions_from(m, index as int),
            ),
        decreases pfs@.len() + 2 - index,
    {
        let (x, consumed) = match read_expression_at(pfs, index) {
            Ok(pair) => pair,
            Err(e) => {
                proof {
                    assert(expressions_from(m, index as int) == Err::<
                        Seq<crate::concept::TypeExpressionModel>,
                        Fail,
                    >((seq![index as i64] + e.path@, e.problem@)));
                }
                return Err(at(index, e));
            },
        };
        let ghost before = out@;
        out.push(x);
        proof {
            lemma_type_expression_models(out@);
            lemma_type_expression_models(before);
            assert(type_expression_models(out@) =~= type_expression_models(before).push(x@));
            let next = index as int + step(consumed);
            match expressions_from(m, next) {
                Ok(rest) => {
                    assert(type_expression_models(before) + (seq![x@] + rest) =~= type_expression_models(out@) + rest);
                },
                Err(_) => {},
            }
        }
        index = if consumed {
            index + 2
        } else {
            index + 1
        };
    }
    proof {
        assert(type_expression_models(out@) + Seq::<crate::concept::TypeExpressionModel>::empty() =~= type_expression_models(out@));
    }
    Ok(out)
}


/// One type expression read from `pf`, with the protoform that follows it.
fn read_expression_with_following(pf: &Protoform, next: Option<&Protoform>) -> (r: Result<
    (TypeExpression, bool),
    Fault,
>)
    ensures
        agrees(
            r,
            expression_with_following(
                pf@,
                match next {
                    Some(n) => Some(n@),
                    None => None,
                },
            ),
            |x: (TypeExpression, bool)| (x.0@, x.1),
        ),
{
    proof {
        reveal_with_fuel(crate::protoform::protoform_model, 2);
    }
    match pf {
        Protoform::Bare(head) => match head {
            Head::Qualified(c, args) => {
                let a = read_expressions(args)?;
                Ok((TypeExpression::Applied(copy_text(c), a), false))
            },
            Head::Bare(n) => {
                if same_text(n, "Self") {
                    Ok((TypeExpression::SelfType, false))
                } else {
                    match next {
                        Some(f) => match pf_enclosed(f, Enclosure::Angled) {
                            Some(ch) => {
                                let a = read_expressions(ch)?;
                                Ok((TypeExpression::Applied(copy_text(n), a), true))
                            },
                            None => Ok((TypeExpression::Named(copy_text(n)), false)),
                        },
                        None => Ok((TypeExpression::Named(copy_text(n)), false)),
                    }
                }
            },
        },
        _ => Err(fault(Problem::Expected(Form::Reference))),
    }
}

/// A list holding exactly one type expression.
fn read_single_expression(pfs: &Vec<Protoform>) -> (r: Result<TypeExpression, Fault>)
    ensures
        agrees(r, single_expression(protoform_models(pfs@)), |t: TypeExpression| t@),
{
    proof {
        lemma_protoform_models(pfs@);
    }
    if pfs.len() == 0 {
        return Err(fault(Problem::Expected(Form::Reference)));
    }
    let (x, consumed) = read_expression_at(pfs, 0)?;
    let taken: usize = if consumed {
        2
    } else {
        1
    };
    if pfs.len() != taken {
        return Err(fault(Problem::Expected(Form::Reference)));
    }
    Ok(x)
}

// ---------------------------------------------------------------------------
// Variants
// ---------------------------------------------------------------------------

fn read_variant_at(pfs: &Vec<Protoform>, i: usize) -> (r: Result<(Variant, bool), Fault>)
    requires
        i < pfs@.len(),
    ensures
        agrees(r, variant_at(protoform_models(pfs@), i as int), |x: (Variant, bool)| (x.0@, x.1)),
        r matches Ok((_, true)) ==> i + 1 < pfs@.len(),
    decreases pfs@, 0int,
{
    proof {
        lemma_protoform_models(pfs@);
        reveal_with_fuel(crate::protoform::protoform_model, 2);
    }
    let ghost m = protoform_models(pfs@);
    let next: Option<&Protoform> = if i < pfs.len() - 1 {
        Some(&pfs[i + 1])
    } else {
        None
    };
    assert(match next {
        Some(n) => Some(n@),
        None => None,
    } == following(m, i as int));
    match &pfs[i] {
        Protoform::Headed(head, sep, body) => {
            let name: &String = match head {
                Head::Bare(h) => h,
                Head::Qualified(h, _) => h,
            };
            if *sep != Separator::Period {
                return Err(fault(Problem::Separator(*sep)));
            }
            match pf_enclosed(body, Enclosure::Braced) {
                Some(fields) => {
                    let f = match read_expressions(fields) {
                        Ok(f) => f,
                        Err(e) => {
                            return Err(at(0, e));
                        },
                    };
                    return Ok((Variant::InlineStruct(copy_text(name), f), false));
                },
                None => {},
            }
            match &**body {
                Protoform::Enclosed(e, inner) => {
                    if *e == Enclosure::Bracketed {
                        proof {
                            assert(decreases_to!(pfs@ => pfs@[i as int]));
                        }
                        let v = match read_variants(inner) {
                            Ok(v) => v,
                            Err(e) => {
                                return Err(at(0, e));
                            },
                        };
                        return Ok((Variant::InlineEnum(copy_text(name), v), false));
                    }
                },
                _ => {},
            }
            let (t, consumed) = match read_expression_with_following(body, next) {
                Ok(x) => x,
                Err(e) => {
                    return Err(at(0, e));
                },
            };
            Ok((Variant::Typed(copy_text(name), t), consumed))
        },
        other => match pf_bare_symbol(other) {
            Some(n) => Ok((Variant::Unit(copy_text(n)), false)),
            None => Err(fault(Problem::Expected(Form::Variant))),
        },
    }
}

/// The variants of a list.
fn read_variants(pfs: &Vec<Protoform>) -> (r: Result<Vec<Variant>, Fault>)
    ensures
        agrees(r, variants_from(protoform_models(pfs@), 0), |v: Vec<Variant>| variant_models(v@)),
    decreases pfs@, 1int,
{
    let ghost m = protoform_models(pfs@);
    let mut out: Vec<Variant> = Vec::new();
    let mut index: usize = 0;
    proof {
        lemma_protoform_models(pfs@);
        assert(variant_models(out@) =~= Seq::<crate::concept::VariantModel>::empty());
        match variants_from(m, 0) {
            Ok(x) => assert(Seq::<crate::concept::VariantModel>::empty() + x =~= x),
            Err(_) => {},
        }
    }
    while index < pfs.len()
        invariant
            index <= pfs@.len(),
            m == protoform_models(pfs@),
            m.len() == pfs@.len(),
            variants_from(m, 0) == prepend(variant_models(out@), variants_from(m, index as int)),
        decreases pfs@.len() + 2 - index,
    {
        let (x, consumed) = match read_variant_at(pfs, index) {
            Ok(pair) => pair,
            Err(e) => {
                proof {
                    assert(variants_from(m, index as int) == Err::<
                        Seq<crate::concept::VariantModel>,
                        Fail,
                    >((seq![index as i64] + e.path@, e.problem@)));
                }
                return Err(at(index, e));
            },
        };
        let ghost before = out@;
        out.push(x);
        proof {
            lemma_variant_models(out@);
            lemma_variant_models(before);
            assert(variant_models(out@) =~= variant_models(before).push(x@));
            let next = index as int + step(consumed);
            match variants_from(m, next) {
                Ok(rest) => {
                    assert(variant_models(before) + (seq![x@] + rest) =~= variant_models(out@)
                        + rest);
                },
                Err(_) => {},
            }
        }
        index = if consumed {
            index + 2
        } else {
            index + 1
        };
    }
    proof {
        assert(variant_models(out@) + Seq::<crate::concept::VariantModel>::empty()
            =~= variant_models(out@));
    }
    Ok(out)
}

/// The variants of a bracketed section.
fn read_variant_section(pf: &Protoform) -> (r: Result<Vec<Variant>, Fault>)
    ensures
        agrees(r, read_variant_list(pf@), |v: Vec<Variant>| variant_models(v@)),
{
    match pf_enclosed(pf, Enclosure::Bracketed) {
        Some(c) => read_variants(c),
        None => Err(fault(Problem::Expected(Form::Declaration))),
    }
}


// ---------------------------------------------------------------------------
// Type declarations
// ---------------------------------------------------------------------------

fn read_declaration_at(pfs: &Vec<Protoform>, i: usize) -> (r: Result<(TypeDeclaration, bool), Fault>)
    requires
        i < pfs@.len(),
    ensures
        agrees(
            r,
            declaration_at(protoform_models(pfs@), i as int),
            |x: (TypeDeclaration, bool)| (x.0@, x.1),
        ),
        r matches Ok((_, true)) ==> i + 1 < pfs@.len(),
{
    proof {
        lemma_protoform_models(pfs@);
        reveal_with_fuel(crate::protoform::protoform_model, 2);
    }
    let ghost m = protoform_models(pfs@);
    let next: Option<&Protoform> = if i < pfs.len() - 1 {
        Some(&pfs[i + 1])
    } else {
        None
    };
    assert(match next {
        Some(n) => Some(n@),
        None => None,
    } == following(m, i as int));
    let pf = &pfs[i];
    let (name, sep, body) = match pf_headed(pf) {
        Some(t) => t,
        None => {
            return Err(fault(Problem::Expected(Form::Declaration)));
        },
    };
    if sep != Separator::Period {
        return Err(fault(Problem::Separator(sep)));
    }
    match pf_enclosed(body, Enclosure::Braced) {
        Some(fields) => {
            let f = match read_expressions(fields) {
                Ok(f) => f,
                Err(e) => {
                    return Err(at(0, e));
                },
            };
            return Ok((TypeDeclaration::Struct(copy_text(name), f), false));
        },
        None => {},
    }
    match pf_enclosed(body, Enclosure::Bracketed) {
        Some(vs) => {
            let v = match read_variants(vs) {
                Ok(v) => v,
                Err(e) => {
                    return Err(at(0, e));
                },
            };
            return Ok((TypeDeclaration::Enum(copy_text(name), v), false));
        },
        None => {},
    }
    let (t, consumed) = match read_expression_with_following(body, next) {
        Ok(x) => x,
        Err(e) => {
            return Err(at(0, e));
        },
    };
    Ok((TypeDeclaration::Alias(copy_text(name), t), consumed))
}

/// The type declarations of a list.
fn read_declarations(pfs: &Vec<Protoform>) -> (r: Result<Vec<TypeDeclaration>, Fault>)
    ensures
        agrees(
            r,
            declarations_from(protoform_models(pfs@), 0),
            |v: Vec<TypeDeclaration>| declaration_models(v@),
        ),
{
    let ghost m = protoform_models(pfs@);
    let mut out: Vec<TypeDeclaration> = Vec::new();
    let mut index: usize = 0;
    proof {
        lemma_protoform_models(pfs@);
        assert(declaration_models(out@) =~= Seq::<crate::concept::TypeDeclarationModel>::empty());
        match declarations_from(m, 0) {
            Ok(x) => assert(Seq::<crate::concept::TypeDeclarationModel>::empty() + x =~= x),
            Err(_) => {},
        }
    }
    while index < pfs.len()
        invariant
            index <= pfs@.len(),
            m == protoform_models(pfs@),
            m.len() == pfs@.len(),
            declarations_from(m, 0) == prepend(
                declaration_models(out@),
                declarations_from(m, index as int),
            ),
        decreases pfs@.len() + 2 - index,
    {
        let (x, consumed) = match read_declaration_at(pfs, index) {
            Ok(pair) => pair,
            Err(e) => {
                proof {
                    assert(declarations_from(m, index as int) == Err::<
                        Seq<crate::concept::TypeDeclarationModel>,
                        Fail,
                    >((seq![index as i64] + e.path@, e.problem@)));
                }
                return Err(at(index, e));
            },
        };
        let ghost before = out@;
        out.push(x);
        proof {
            assert(declaration_models(out@) =~= declaration_models(before).push(x@));
            let next = index as int + step(consumed);
            match declarations_from(m, next) {
                Ok(rest) => {
                    assert(declaration_models(before) + (seq![x@] + rest) =~= declaration_models(
                        out@,
                    ) + rest);
                },
                Err(_) => {},
            }
        }
        index = if consumed {
            index + 2
        } else {
            index + 1
        };
    }
    proof {
        assert(declaration_models(out@) + Seq::<crate::concept::TypeDeclarationModel>::empty()
            =~= declaration_models(out@));
    }
    Ok(out)
}

/// The type declarations of a bracketed section.
fn read_declaration_section(pf: &Protoform) -> (r: Result<Vec<TypeDeclaration>, Fault>)
    ensures
        agrees(
            r,
            read_type_declarations(pf@),
            |v: Vec<TypeDeclaration>| declaration_models(v@),
        ),
{
    match pf_enclosed(pf, Enclosure::Bracketed) {
        Some(c) => read_declarations(c),
        None => Err(fault(Problem::Expected(Form::Declaration))),
    }
}

// ---------------------------------------------------------------------------
// Lists read element by element
// ---------------------------------------------------------------------------

/// Reading one more element of a list: it extends the reading, or faults the list.
proof fn lemma_read_each_step<T>(
    m: Seq<crate::protoform::ProtoformModel>,
    read: spec_fn(crate::protoform::ProtoformModel) -> Result<T, Fail>,
    i: int,
    v: Seq<T>,
)
    requires
        0 <= i < m.len(),
        read_each(m.take(i), read) == Ok::<Seq<T>, Fail>(v),
    ensures
        read(m[i]) is Ok ==> read_each(m.take(i + 1), read) == Ok::<Seq<T>, Fail>(
            v.push(read(m[i])->Ok_0),
        ),
        read(m[i]) is Err ==> read_each(m, read) == Err::<Seq<T>, Fail>(
            (seq![i as i64] + read(m[i])->Err_0.0, read(m[i])->Err_0.1),
        ),
{
    assert(m.take(i + 1).drop_last() =~= m.take(i));
    assert(m.take(i + 1).last() == m[i]);
    if read(m[i]) is Err {
        lemma_read_each_prefix_err(
            m,
            read,
            i + 1,
            (seq![i as i64] + read(m[i])->Err_0.0, read(m[i])->Err_0.1),
        );
    }
}

// ---------------------------------------------------------------------------
// Imports
// ---------------------------------------------------------------------------

fn read_one_import(pf: &Protoform) -> (r: Result<Import, Fault>)
    ensures
        agrees(r, read_import(pf@), |x: Import| x@),
{
    proof {
        reveal_with_fuel(crate::protoform::protoform_model, 3);
    }
    let (source, sep, body) = match pf_headed(pf) {
        Some(t) => t,
        None => {
            return Err(fault(Problem::Expected(Form::Import)));
        },
    };
    if sep != Separator::Colon {
        return Err(fault(Problem::Separator(sep)));
    }
    match pf_enclosed(body, Enclosure::Bracketed) {
        Some(names) => match pf_bare_symbols(names) {
            Some(n) => Ok(Import::Multiple(copy_text(source), n)),
            None => Err(at(0, fault(Problem::Expected(Form::Import)))),
        },
        None => match pf_bare_symbol(body) {
            Some(n) => Ok(Import::Single(copy_text(source), copy_text(n))),
            None => match body {
                Protoform::Headed(Head::Bare(n), Separator::Period, e) => match pf_bare_symbol(e) {
                    Some(emitted) => Ok(
                        Import::Renamed(copy_text(source), copy_text(n), copy_text(emitted)),
                    ),
                    None => Err(at(0, fault(Problem::Expected(Form::Import)))),
                },
                _ => Err(at(0, fault(Problem::Expected(Form::Import)))),
            },
        },
    }
}

fn read_import_section(pf: &Protoform) -> (r: Result<Vec<Import>, Fault>)
    ensures
        agrees(r, read_imports(pf@), |v: Vec<Import>| import_models(v@)),
{
    let pfs = match pf_enclosed(pf, Enclosure::Bracketed) {
        Some(c) => c,
        None => {
            return Err(fault(Problem::Expected(Form::Import)));
        },
    };
    let ghost m = protoform_models(pfs@);
    proof {
        lemma_protoform_models(pfs@);
    }
    let mut out: Vec<Import> = Vec::new();
    let mut i: usize = 0;
    assert(m.take(0) =~= Seq::<crate::protoform::ProtoformModel>::empty());
    assert(import_models(out@) =~= Seq::<crate::concept::ImportModel>::empty());
    while i < pfs.len()
        invariant
            i <= pfs@.len(),
            m == protoform_models(pfs@),
            m.len() == pfs@.len(),
            forall|j: int| 0 <= j < pfs@.len() ==> #[trigger] m[j] == protoform_model(pfs@[j]),
            read_imports(pf@) == read_each(m, import_reader()),
            read_each(m.take(i as int), import_reader()) == Ok::<
                Seq<crate::concept::ImportModel>,
                Fail,
            >(import_models(out@)),
        decreases pfs@.len() - i,
    {
        proof {
            lemma_read_each_step(m, import_reader(), i as int, import_models(out@));
            assert(import_reader()(m[i as int]) == read_import(pfs@[i as int]@));
        }
        let x = match read_one_import(&pfs[i]) {
            Ok(x) => x,
            Err(e) => {
                return Err(at(i, e));
            },
        };
        let ghost before = out@;
        out.push(x);
        assert(import_models(out@) =~= import_models(before).push(x@));
        i = i + 1;
    }
    assert(m.take(pfs@.len() as int) =~= m);
    Ok(out)
}

// ---------------------------------------------------------------------------
// Associations
// ---------------------------------------------------------------------------

fn read_one_association(pf: &Protoform) -> (r: Result<Association, Fault>)
    ensures
        agrees(r, read_association(pf@), |x: Association| x@),
{
    let (ty, sep, body) = match pf_headed(pf) {
        Some(t) => t,
        None => {
            return Err(fault(Problem::Expected(Form::Association)));
        },
    };
    if sep != Separator::Period {
        return Err(fault(Problem::Separator(sep)));
    }
    match pf_enclosed(body, Enclosure::Bracketed) {
        None => Err(at(0, fault(Problem::Expected(Form::Association)))),
        Some(k) => match pf_bare_symbols(k) {
            Some(kinds) => Ok(Association { ty: copy_text(ty), kinds }),
            None => Err(at(0, fault(Problem::Expected(Form::Association)))),
        },
    }
}

fn read_association_section(pf: &Protoform) -> (r: Result<Vec<Association>, Fault>)
    ensures
        agrees(r, read_associations(pf@), |v: Vec<Association>| v@.map_values(|a: Association| a@)),
{
    let pfs = match pf_enclosed(pf, Enclosure::Bracketed) {
        Some(c) => c,
        None => {
            return Err(fault(Problem::Expected(Form::Association)));
        },
    };
    let ghost m = protoform_models(pfs@);
    proof {
        lemma_protoform_models(pfs@);
    }
    let mut out: Vec<Association> = Vec::new();
    let mut i: usize = 0;
    assert(m.take(0) =~= Seq::<crate::protoform::ProtoformModel>::empty());
    assert(out@.map_values(|a: Association| a@) =~= Seq::<crate::concept::AssociationModel>::empty());
    while i < pfs.len()
        invariant
            i <= pfs@.len(),
            m == protoform_models(pfs@),
            m.len() == pfs@.len(),
            forall|j: int| 0 <= j < pfs@.len() ==> #[trigger] m[j] == protoform_model(pfs@[j]),
            read_associations(pf@) == read_each(m, association_reader()),
            read_each(m.take(i as int), association_reader()) == Ok::<
                Seq<crate::concept::AssociationModel>,
                Fail,
            >(out@.map_values(|a: Association| a@)),
        decreases pfs@.len() - i,
    {
        proof {
            lemma_read_each_step(m, association_reader(), i as int, out@.map_values(|a: Association| a@));
            assert(association_reader()(m[i as int]) == read_association(pfs@[i as int]@));
        }
        let x = match read_one_association(&pfs[i]) {
            Ok(x) => x,
            Err(e) => {
                return Err(at(i, e));
            },
        };
        let ghost before = out@;
        out.push(x);
        assert(out@.map_values(|a: Association| a@) =~= before.map_values(|a: Association| a@).push(x@));
        i = i + 1;
    }
    assert(m.take(pfs@.len() as int) =~= m);
    Ok(out)
}


// ---------------------------------------------------------------------------
// Kinds
// ---------------------------------------------------------------------------

fn read_one_kind_constraint(pf: &Protoform) -> (r: Result<KindConstraint, Fault>)
    ensures
        agrees(r, read_kind_constraint(pf@), |k: KindConstraint| k@),
{
    match pf_enclosed(pf, Enclosure::Bracketed) {
        Some(c) => match pf_bare_symbols(c) {
            Some(bounds) => Ok(KindConstraint { bounds }),
            None => Err(fault(Problem::Expected(Form::Kind))),
        },
        None => match pf_bare_symbol(pf) {
            Some(b) => {
                let mut bounds: Vec<String> = Vec::new();
                bounds.push(copy_text(b));
                assert(texts(bounds@) =~= seq![b@]);
                Ok(KindConstraint { bounds })
            },
            None => Err(fault(Problem::Expected(Form::Kind))),
        },
    }
}

fn read_one_associated_type(pf: &Protoform) -> (r: Result<AssociatedType, Fault>)
    ensures
        agrees(r, read_associated_type(pf@), |a: AssociatedType| a@),
{
    proof {
        reveal_with_fuel(crate::protoform::protoform_model, 2);
    }
    match pf {
        Protoform::Bare(head) => match head {
            Head::Qualified(name, quals) => match pf_bare_symbols(quals) {
                Some(constraints) => Ok(AssociatedType { name: copy_text(name), constraints }),
                None => Err(fault(Problem::Expected(Form::Kind))),
            },
            Head::Bare(name) => {
                let constraints: Vec<String> = Vec::new();
                assert(texts(constraints@) =~= Seq::<Seq<char>>::empty());
                Ok(AssociatedType { name: copy_text(name), constraints })
            },
        },
        _ => Err(fault(Problem::Expected(Form::Kind))),
    }
}

fn read_one_associated_constant(pf: &Protoform) -> (r: Result<AssociatedConstant, Fault>)
    ensures
        agrees(r, read_associated_constant(pf@), |a: AssociatedConstant| a@),
{
    let (name, sep, body) = match pf_headed(pf) {
        Some(t) => t,
        None => {
            return Err(fault(Problem::Expected(Form::Constant)));
        },
    };
    if sep != Separator::Period {
        return Err(fault(Problem::Separator(sep)));
    }
    let (ty, _consumed) = match read_expression_with_following(body, None) {
        Ok(x) => x,
        Err(e) => {
            return Err(at(0, e));
        },
    };
    Ok(AssociatedConstant { name: copy_text(name), ty })
}

fn read_one_capability(pf: &Protoform) -> (r: Result<Capability, Fault>)
    ensures
        agrees(r, read_capability(pf@), |c: Capability| c@),
{
    proof {
        reveal_with_fuel(crate::protoform::protoform_model, 2);
    }
    let (name, sep, body) = match pf_headed(pf) {
        Some(t) => t,
        None => {
            return Err(fault(Problem::Expected(Form::Capability)));
        },
    };
    let receiver = match sep {
        Separator::Period => Receiver::Shared,
        Separator::Exclamation => Receiver::Mutable,
        Separator::Colon => Receiver::Static,
    };
    match pf_enclosed(body, Enclosure::Bracketed) {
        Some(c) => {
            let yield_type = match read_yield_list(c) {
                Ok(t) => t,
                Err(e) => {
                    return Err(at(0, e));
                },
            };
            let inputs: Vec<TypeExpression> = Vec::new();
            assert(type_expression_models(inputs@) =~= Seq::<crate::concept::TypeExpressionModel>::empty());
            return Ok(Capability { name: copy_text(name), receiver, inputs, yield_type });
        },
        None => {},
    }
    match pf_enclosed(body, Enclosure::Braced) {
        Some(c) => {
            proof {
                lemma_protoform_models(c@);
            }
            if c.len() != 2 {
                return Err(at(0, fault(Problem::Arity(2, c.len() as i64))));
            }
            let ic = match pf_enclosed(&c[0], Enclosure::Bracketed) {
                Some(ic) => ic,
                None => {
                    return Err(at(0, at(0, fault(Problem::Expected(Form::Capability)))));
                },
            };
            let inputs = match read_expressions(ic) {
                Ok(v) => v,
                Err(e) => {
                    return Err(at(0, at(0, e)));
                },
            };
            let yc = match pf_enclosed(&c[1], Enclosure::Bracketed) {
                Some(yc) => yc,
                None => {
                    return Err(at(0, at(1, fault(Problem::Expected(Form::Capability)))));
                },
            };
            let yield_type = match read_yield_list(yc) {
                Ok(t) => t,
                Err(e) => {
                    return Err(at(0, at(1, e)));
                },
            };
            Ok(Capability { name: copy_text(name), receiver, inputs, yield_type })
        },
        None => Err(at(0, fault(Problem::Expected(Form::Capability)))),
    }
}

/// What a capability yields (see [`read_yield`]).
fn read_yield_list(c: &Vec<Protoform>) -> (r: Result<TypeExpression, Fault>)
    ensures
        agrees(r, read_yield(protoform_models(c@)), |t: TypeExpression| t@),
{
    proof {
        lemma_protoform_models(c@);
    }
    if c.len() == 0 {
        return Err(fault(Problem::Yield));
    }
    let mut v = read_expressions(c)?;
    proof {
        lemma_type_expression_models(v@);
    }
    if v.len() != 1 {
        return Err(fault(Problem::Arity(1, v.len() as i64)));
    }
    let x = v.remove(0);
    Ok(x)
}

fn read_kind_constraint_list(pfs: &Vec<Protoform>) -> (r: Result<Vec<KindConstraint>, Fault>)
    ensures
        agrees(r, read_each(protoform_models(pfs@), kind_constraint_reader()), |v: Vec<KindConstraint>| kind_constraint_models(v@)),
{
    let ghost m = protoform_models(pfs@);
    proof {
        lemma_protoform_models(pfs@);
    }
    let mut out: Vec<KindConstraint> = Vec::new();
    let mut i: usize = 0;
    assert(m.take(0) =~= Seq::<crate::protoform::ProtoformModel>::empty());
    assert(kind_constraint_models(out@) =~= Seq::<Seq<Seq<char>>>::empty());
    while i < pfs.len()
        invariant
            i <= pfs@.len(),
            m == protoform_models(pfs@),
            m.len() == pfs@.len(),
            forall|j: int| 0 <= j < pfs@.len() ==> #[trigger] m[j] == protoform_model(pfs@[j]),
            read_each(m.take(i as int), kind_constraint_reader()) == Ok::<Seq<Seq<Seq<char>>>, Fail>(
                kind_constraint_models(out@),
            ),
        decreases pfs@.len() - i,
    {
        proof {
            lemma_read_each_step(m, kind_constraint_reader(), i as int, kind_constraint_models(out@));
            assert(kind_constraint_reader()(m[i as int]) == read_kind_constraint(pfs@[i as int]@));
        }
        let x = match read_one_kind_constraint(&pfs[i]) {
            Ok(x) => x,
            Err(e) => {
                return Err(at(i, e));
            },
        };
        let ghost before = out@;
        out.push(x);
        assert(kind_constraint_models(out@) =~= kind_constraint_models(before).push(x@));
        i = i + 1;
    }
    assert(m.take(pfs@.len() as int) =~= m);
    Ok(out)
}

fn read_capability_list(pfs: &Vec<Protoform>) -> (r: Result<Vec<Capability>, Fault>)
    ensures
        agrees(r, read_each(protoform_models(pfs@), capability_reader()), |v: Vec<Capability>| capability_models(v@)),
{
    let ghost m = protoform_models(pfs@);
    proof {
        lemma_protoform_models(pfs@);
    }
    let mut out: Vec<Capability> = Vec::new();
    let mut i: usize = 0;
    assert(m.take(0) =~= Seq::<crate::protoform::ProtoformModel>::empty());
    assert(capability_models(out@) =~= Seq::<crate::concept::CapabilityModel>::empty());
    while i < pfs.len()
        invariant
            i <= pfs@.len(),
            m == protoform_models(pfs@),
            m.len() == pfs@.len(),
            forall|j: int| 0 <= j < pfs@.len() ==> #[trigger] m[j] == protoform_model(pfs@[j]),
            read_each(m.take(i as int), capability_reader()) == Ok::<Seq<crate::concept::CapabilityModel>, Fail>(
                capability_models(out@),
            ),
        decreases pfs@.len() - i,
    {
        proof {
            lemma_read_each_step(m, capability_reader(), i as int, capability_models(out@));
            assert(capability_reader()(m[i as int]) == read_capability(pfs@[i as int]@));
        }
        let x = match read_one_capability(&pfs[i]) {
            Ok(x) => x,
            Err(e) => {
                return Err(at(i, e));
            },
        };
        let ghost before = out@;
        out.push(x);
        assert(capability_models(out@) =~= capability_models(before).push(x@));
        i = i + 1;
    }
    assert(m.take(pfs@.len() as int) =~= m);
    Ok(out)
}

fn read_associated_type_list(pfs: &Vec<Protoform>) -> (r: Result<Vec<AssociatedType>, Fault>)
    ensures
        agrees(r, read_each(protoform_models(pfs@), associated_type_reader()), |v: Vec<AssociatedType>| v@.map_values(|a: AssociatedType| a@)),
{
    let ghost m = protoform_models(pfs@);
    proof {
        lemma_protoform_models(pfs@);
    }
    let mut out: Vec<AssociatedType> = Vec::new();
    let mut i: usize = 0;
    assert(m.take(0) =~= Seq::<crate::protoform::ProtoformModel>::empty());
    assert(out@.map_values(|a: AssociatedType| a@) =~= Seq::<crate::concept::AssociatedTypeModel>::empty());
    while i < pfs.len()
        invariant
            i <= pfs@.len(),
            m == protoform_models(pfs@),
            m.len() == pfs@.len(),
            forall|j: int| 0 <= j < pfs@.len() ==> #[trigger] m[j] == protoform_model(pfs@[j]),
            read_each(m.take(i as int), associated_type_reader()) == Ok::<Seq<crate::concept::AssociatedTypeModel>, Fail>(
                out@.map_values(|a: AssociatedType| a@),
            ),
        decreases pfs@.len() - i,
    {
        proof {
            lemma_read_each_step(m, associated_type_reader(), i as int, out@.map_values(|a: AssociatedType| a@));
            assert(associated_type_reader()(m[i as int]) == read_associated_type(pfs@[i as int]@));
        }
        let x = match read_one_associated_type(&pfs[i]) {
            Ok(x) => x,
            Err(e) => {
                return Err(at(i, e));
            },
        };
        let ghost before = out@;
        out.push(x);
        assert(out@.map_values(|a: AssociatedType| a@) =~= before.map_values(|a: AssociatedType| a@).push(x@));
        i = i + 1;
    }
    assert(m.take(pfs@.len() as int) =~= m);
    Ok(out)
}

fn read_associated_constant_list(pfs: &Vec<Protoform>) -> (r: Result<Vec<AssociatedConstant>, Fault>)
    ensures
        agrees(r, read_each(protoform_models(pfs@), associated_constant_reader()), |v: Vec<AssociatedConstant>| v@.map_values(|a: AssociatedConstant| a@)),
{
    let ghost m = protoform_models(pfs@);
    proof {
        lemma_protoform_models(pfs@);
    }
    let mut out: Vec<AssociatedConstant> = Vec::new();
    let mut i: usize = 0;
    assert(m.take(0) =~= Seq::<crate::protoform::ProtoformModel>::empty());
    assert(out@.map_values(|a: AssociatedConstant| a@) =~= Seq::<crate::concept::AssociatedConstantModel>::empty());
    while i < pfs.len()
        invariant
            i <= pfs@.len(),
            m == protoform_models(pfs@),
            m.len() == pfs@.len(),
            forall|j: int| 0 <= j < pfs@.len() ==> #[trigger] m[j] == protoform_model(pfs@[j]),
            read_each(m.take(i as int), associated_constant_reader()) == Ok::<Seq<crate::concept::AssociatedConstantModel>, Fail>(
                out@.map_values(|a: AssociatedConstant| a@),
            ),
        decreases pfs@.len() - i,
    {
        proof {
            lemma_read_each_step(m, associated_constant_reader(), i as int, out@.map_values(|a: AssociatedConstant| a@));
            assert(associated_constant_reader()(m[i as int]) == read_associated_constant(pfs@[i as int]@));
        }
        let x = match read_one_associated_constant(&pfs[i]) {
            Ok(x) => x,
            Err(e) => {
                return Err(at(i, e));
            },
        };
        let ghost before = out@;
        out.push(x);
        assert(out@.map_values(|a: AssociatedConstant| a@) =~= before.map_values(|a: AssociatedConstant| a@).push(x@));
        i = i + 1;
    }
    assert(m.take(pfs@.len() as int) =~= m);
    Ok(out)
}


fn read_bare_name_list(pf: &Protoform) -> (r: Result<Vec<String>, Fault>)
    ensures
        agrees(r, read_bare_list(pf@), |v: Vec<String>| texts(v@)),
{
    match pf_enclosed(pf, Enclosure::Bracketed) {
        None => Err(fault(Problem::Expected(Form::Constraint))),
        Some(c) => match pf_bare_symbols(c) {
            Some(b) => Ok(b),
            None => Err(fault(Problem::Expected(Form::Constraint))),
        },
    }
}

fn read_one_kind(pf: &Protoform) -> (r: Result<KindDeclaration, Fault>)
    ensures
        agrees(r, read_kind(pf@), |k: KindDeclaration| k@),
{
    proof {
        reveal_with_fuel(crate::protoform::protoform_model, 2);
    }
    let (name, sep, body) = match pf_headed(pf) {
        Some(t) => t,
        None => {
            return Err(fault(Problem::Expected(Form::Kind)));
        },
    };
    if sep != Separator::Period {
        return Err(fault(Problem::Separator(sep)));
    }
    let constraints = match pf_head_qualifiers(pf) {
        Some(q) => read_kind_constraint_list(q)?,
        None => {
            let v: Vec<KindConstraint> = Vec::new();
            assert(kind_constraint_models(v@) =~= Seq::<Seq<Seq<char>>>::empty());
            v
        },
    };
    match pf_enclosed(body, Enclosure::Bracketed) {
        Some(c) => {
            let capabilities = match read_capability_list(c) {
                Ok(v) => v,
                Err(e) => {
                    return Err(at(0, e));
                },
            };
            return Ok(KindDeclaration::Simple { name: copy_text(name), constraints, capabilities });
        },
        None => {},
    }
    let c = match pf_enclosed(body, Enclosure::Braced) {
        Some(c) => c,
        None => {
            return Err(at(0, fault(Problem::Expected(Form::Kind))));
        },
    };
    proof {
        lemma_protoform_models(c@);
    }
    if c.len() != 4 {
        return Err(at(0, fault(Problem::Arity(4, c.len() as i64))));
    }
    let superkinds = match read_bare_name_list(&c[0]) {
        Ok(v) => v,
        Err(e) => {
            return Err(at(0, at(0, e)));
        },
    };
    let tc = match pf_enclosed(&c[1], Enclosure::Bracketed) {
        Some(tc) => tc,
        None => {
            return Err(at(0, at(1, fault(Problem::Expected(Form::Kind)))));
        },
    };
    let associated_types = match read_associated_type_list(tc) {
        Ok(v) => v,
        Err(e) => {
            return Err(at(0, at(1, e)));
        },
    };
    let kc = match pf_enclosed(&c[2], Enclosure::Bracketed) {
        Some(kc) => kc,
        None => {
            return Err(at(0, at(2, fault(Problem::Expected(Form::Constant)))));
        },
    };
    let associated_constants = match read_associated_constant_list(kc) {
        Ok(v) => v,
        Err(e) => {
            return Err(at(0, at(2, e)));
        },
    };
    let cc = match pf_enclosed(&c[3], Enclosure::Bracketed) {
        Some(cc) => cc,
        None => {
            return Err(at(0, at(3, fault(Problem::Expected(Form::Capability)))));
        },
    };
    let capabilities = match read_capability_list(cc) {
        Ok(v) => v,
        Err(e) => {
            return Err(at(0, at(3, e)));
        },
    };
    Ok(
        KindDeclaration::Complex {
            name: copy_text(name),
            constraints,
            superkinds,
            associated_types,
            associated_constants,
            capabilities,
        },
    )
}

fn read_kind_list(pfs: &Vec<Protoform>) -> (r: Result<Vec<KindDeclaration>, Fault>)
    ensures
        agrees(r, read_each(protoform_models(pfs@), kind_reader()), |v: Vec<KindDeclaration>| v@.map_values(|k: KindDeclaration| k@)),
{
    let ghost m = protoform_models(pfs@);
    proof {
        lemma_protoform_models(pfs@);
    }
    let mut out: Vec<KindDeclaration> = Vec::new();
    let mut i: usize = 0;
    assert(m.take(0) =~= Seq::<crate::protoform::ProtoformModel>::empty());
    assert(out@.map_values(|k: KindDeclaration| k@) =~= Seq::<crate::concept::KindDeclarationModel>::empty());
    while i < pfs.len()
        invariant
            i <= pfs@.len(),
            m == protoform_models(pfs@),
            m.len() == pfs@.len(),
            forall|j: int| 0 <= j < pfs@.len() ==> #[trigger] m[j] == protoform_model(pfs@[j]),
            read_each(m.take(i as int), kind_reader()) == Ok::<Seq<crate::concept::KindDeclarationModel>, Fail>(
                out@.map_values(|k: KindDeclaration| k@),
            ),
        decreases pfs@.len() - i,
    {
        proof {
            lemma_read_each_step(m, kind_reader(), i as int, out@.map_values(|k: KindDeclaration| k@));
            assert(kind_reader()(m[i as int]) == read_kind(pfs@[i as int]@));
        }
        let x = match read_one_kind(&pfs[i]) {
            Ok(x) => x,
            Err(e) => {
                return Err(at(i, e));
            },
        };
        let ghost before = out@;
        out.push(x);
        assert(out@.map_values(|k: KindDeclaration| k@) =~= before.map_values(|k: KindDeclaration| k@).push(x@));
        i = i + 1;
    }
    assert(m.take(pfs@.len() as int) =~= m);
    Ok(out)
}

fn read_kind_section(pf: &Protoform) -> (r: Result<Vec<KindDeclaration>, Fault>)
    ensures
        agrees(r, read_kinds(pf@), |v: Vec<KindDeclaration>| v@.map_values(|k: KindDeclaration| k@)),
{
    match pf_enclosed(pf, Enclosure::Bracketed) {
        Some(c) => read_kind_list(c),
        None => Err(fault(Problem::Expected(Form::Kind))),
    }
}

// ---------------------------------------------------------------------------
// Files
// ---------------------------------------------------------------------------

fn read_file_sections(head: &String, s: &Vec<Protoform>) -> (r: Result<File, Fault>)
    ensures
        agrees(r, read_sections(head@, protoform_models(s@)), |f: File| f@),
{
    proof {
        lemma_protoform_models(s@);
    }
    if same_text(head, "Types") {
        if s.len() != 3 {
            return Err(fault(Problem::Arity(3, s.len() as i64)));
        }
        let imports = match read_import_section(&s[0]) {
            Ok(v) => v,
            Err(e) => {
                return Err(at(0, e));
            },
        };
        let types = match read_declaration_section(&s[1]) {
            Ok(v) => v,
            Err(e) => {
                return Err(at(1, e));
            },
        };
        let associations = match read_association_section(&s[2]) {
            Ok(v) => v,
            Err(e) => {
                return Err(at(2, e));
            },
        };
        Ok(File::Types(Types { imports, types, associations }))
    } else if same_text(head, "Kinds") {
        if s.len() != 2 {
            return Err(fault(Problem::Arity(2, s.len() as i64)));
        }
        let imports = match read_import_section(&s[0]) {
            Ok(v) => v,
            Err(e) => {
                return Err(at(0, e));
            },
        };
        let kinds = match read_kind_section(&s[1]) {
            Ok(v) => v,
            Err(e) => {
                return Err(at(1, e));
            },
        };
        Ok(File::Kinds(Kinds { imports, kinds }))
    } else if same_text(head, "Signal") {
        if s.len() != 4 {
            return Err(fault(Problem::Arity(4, s.len() as i64)));
        }
        let imports = match read_import_section(&s[0]) {
            Ok(v) => v,
            Err(e) => {
                return Err(at(0, e));
            },
        };
        let requests = match read_variant_section(&s[1]) {
            Ok(v) => v,
            Err(e) => {
                return Err(at(1, e));
            },
        };
        let responses = match read_variant_section(&s[2]) {
            Ok(v) => v,
            Err(e) => {
                return Err(at(2, e));
            },
        };
        let types = match read_declaration_section(&s[3]) {
            Ok(v) => v,
            Err(e) => {
                return Err(at(3, e));
            },
        };
        Ok(File::Signal(Signal { imports, requests, responses, types }))
    } else if same_text(head, "Sema") {
        if s.len() != 2 {
            return Err(fault(Problem::Arity(2, s.len() as i64)));
        }
        let imports = match read_import_section(&s[0]) {
            Ok(v) => v,
            Err(e) => {
                return Err(at(0, e));
            },
        };
        let types = match read_declaration_section(&s[1]) {
            Ok(v) => v,
            Err(e) => {
                return Err(at(1, e));
            },
        };
        Ok(File::Sema(Sema { imports, types }))
    } else {
        Err(fault(Problem::Root))
    }
}

/// Read the file one protoform carries (see [`root_reading`]).
pub fn read_root(pf: &Protoform) -> (r: Result<File, Fault>)
    ensures
        match root_reading(pf@) {
            Ok(m) => r matches Ok(f) && f@ == m,
            Err((path, problem)) => r matches Err(f) && f.path@ == path && f.problem@ == problem,
        },
{
    proof {
        reveal_with_fuel(crate::protoform::protoform_model, 2);
    }
    match pf {
        Protoform::Headed(Head::Bare(head), sep, body) => {
            if *sep != Separator::Period {
                return Err(fault(Problem::Separator(*sep)));
            }
            if !(same_text(head, "Types") || same_text(head, "Kinds") || same_text(head, "Signal")
                || same_text(head, "Sema")) {
                return Err(fault(Problem::Root));
            }
            let mut at_body: Vec<i64> = Vec::new();
            at_body.push(0);
            proof {
                assert(at_body@ =~= seq![0i64]);
            }
            match pf_enclosed(body, Enclosure::Braced) {
                None => Err(Fault { path: at_body, problem: Problem::Expected(Form::File) }),
                Some(sections) => match read_file_sections(head, sections) {
                    Ok(f) => Ok(f),
                    Err(f) => Err(at(0, f)),
                },
            }
        },
        _ => Err(fault(Problem::Root)),
    }
}

} // verus!
