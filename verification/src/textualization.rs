//! Textualizing an Interface: the blocks, with their shapes, heads and
//! scalar bodies, that are handed to the printer in document order.

use vstd::prelude::*;
use crate::emission::dec;
use crate::fixture::{
    validation,
    Block, Channel, EnumVariantElement, Import, Interface, InterfaceFault, Shape, TypeElement,
    Version,
};
use crate::generation::{decimal, put, put_text};
use crate::realization::{
    input_model, output_model, refusal_model, stream_model, texts_of, type_model, variant_model,
    TypeModel, VariantModel,
};
use crate::text::copy_text;

verus! {

/// A block with no head and no children.
pub open spec fn scalar_block(b: Block, shape: Shape, body: Seq<char>) -> bool {
    b.shape == shape && b.head is None && b.body@ == body && b.children@.len() == 0
}

/// A block with a head, a scalar body and no children.
pub open spec fn headed_scalar(b: Block, shape: Shape, head: Seq<char>, body: Seq<char>) -> bool {
    &&& b.shape == shape
    &&& (b.head matches Some(h) && h@ == head)
    &&& b.body@ == body
    &&& b.children@.len() == 0
}

/// A container's own fields: shape, head, an empty body.
pub open spec fn container(b: Block, shape: Shape, head: Option<Seq<char>>) -> bool {
    &&& b.shape == shape
    &&& match head {
        Some(n) => b.head matches Some(h) && h@ == n,
        None => b.head is None,
    }
    &&& b.body@.len() == 0
}

/// The bare values of a list, one block each.
pub open spec fn bare_list(bs: Seq<Block>, values: Seq<Seq<char>>) -> bool {
    &&& bs.len() == values.len()
    &&& forall|j: int| 0 <= j < bs.len() ==> scalar_block(#[trigger] bs[j], Shape::Bare, values[j])
}

/// `a.b`.
pub open spec fn dotted(a: Seq<char>, b: Seq<char>) -> Seq<char> {
    a + "."@ + b
}

/// The header's scalar: `major minor patch`.
pub open spec fn version_text(v: (u16, u16, u16)) -> Seq<char> {
    dec(v.0 as nat) + " "@ + dec(v.1 as nat) + " "@ + dec(v.2 as nat)
}

fn leaf(shape: Shape, body: String) -> (r: Block)
    ensures
        scalar_block(r, shape, body@),
{
    Block { shape, head: None, body, children: Vec::new() }
}

fn bare(body: String) -> (r: Block)
    ensures
        scalar_block(r, Shape::Bare, body@),
{
    leaf(Shape::Bare, body)
}

fn dotted_text(a: &String, b: &String) -> (r: String)
    ensures
        r@ == dotted(a@, b@),
{
    let mut out = copy_text(a);
    put(&mut out, ".");
    put_text(&mut out, b);
    out
}

/// The header block: `Interface.{major minor patch}`.
pub fn write_header(v: &Version) -> (r: Block)
    ensures
        headed_scalar(
            r,
            Shape::DottedBraced,
            "Interface"@,
            version_text((v.major, v.minor, v.patch)),
        ),
{
    let mut body = decimal(v.major as usize);
    put(&mut body, " ");
    put_text(&mut body, &decimal(v.minor as usize));
    put(&mut body, " ");
    put_text(&mut body, &decimal(v.patch as usize));
    Block {
        shape: Shape::DottedBraced,
        head: Some(String::from_str("Interface")),
        body,
        children: Vec::new(),
    }
}

/// The channel's scalar: `Name contract_id wire_revision`.
pub open spec fn channel_text(c: (Seq<char>, u32, u16)) -> Seq<char> {
    c.0 + " "@ + dec(c.1 as nat) + " "@ + dec(c.2 as nat)
}

/// The channel block: `Channel.{Name contract_id wire_revision}`; a zero
/// contract id or wire revision is refused.
pub fn write_channel(c: &Channel) -> (r: Result<Block, InterfaceFault>)
    ensures
        c.contract_id == 0 || c.wire_revision == 0 ==> r == Err::<Block, InterfaceFault>(
            InterfaceFault::Binding,
        ),
        c.contract_id != 0 && c.wire_revision != 0 ==> (r matches Ok(b) && headed_scalar(
            b,
            Shape::DottedBraced,
            "Channel"@,
            channel_text((c.name@, c.contract_id, c.wire_revision)),
        )),
{
    if c.contract_id == 0 || c.wire_revision == 0 {
        return Err(InterfaceFault::Binding);
    }
    let mut body = copy_text(&c.name);
    put(&mut body, " ");
    put_text(&mut body, &decimal(c.contract_id as usize));
    put(&mut body, " ");
    put_text(&mut body, &decimal(c.wire_revision as usize));
    Ok(
        Block {
            shape: Shape::DottedBraced,
            head: Some(String::from_str("Channel")),
            body,
            children: Vec::new(),
        },
    )
}

fn bare_blocks(values: &Vec<String>) -> (r: Vec<Block>)
    ensures
        bare_list(r@, texts_of(values@)),
{
    let mut out: Vec<Block> = Vec::new();
    let mut i: usize = 0;
    while i < values.len()
        invariant
            i <= values@.len(),
            out@.len() == i,
            forall|j: int|
                0 <= j < i ==> scalar_block(#[trigger] out@[j], Shape::Bare, values@[j]@),
        decreases values@.len() - i,
    {
        out.push(bare(copy_text(&values[i])));
        i += 1;
    }
    out
}

/// An import block: `path.[ Symbol … ]`.
pub open spec fn import_block(b: Block, i: (Seq<char>, Seq<Seq<char>>)) -> bool {
    container(b, Shape::DottedSquareBracketed, Some(i.0)) && bare_list(b.children@, i.1)
}

/// Textualize an import.
pub fn textualize_import(i: &Import) -> (r: Block)
    ensures
        import_block(r, (i.path@, texts_of(i.symbols@))),
{
    Block {
        shape: Shape::DottedSquareBracketed,
        head: Some(copy_text(&i.path)),
        body: String::new(),
        children: bare_blocks(&i.symbols),
    }
}

/// An operation element block: bare `Operation.Payload`.
pub fn textualize_operation(operation: &String, payload: &String) -> (r: Block)
    ensures
        scalar_block(r, Shape::Bare, dotted(operation@, payload@)),
{
    bare(dotted_text(operation, payload))
}

/// An enum body element's scalar.
pub open spec fn variant_text(v: VariantModel) -> Seq<char> {
    match v {
        VariantModel::Data(variant, payload) => dotted(variant, payload),
        VariantModel::Unit(variant) => variant,
    }
}

/// Textualize an enum body element.
pub fn textualize_variant(v: &EnumVariantElement) -> (r: Block)
    ensures
        scalar_block(r, Shape::Bare, variant_text(variant_model(*v))),
{
    match v {
        EnumVariantElement::Data { variant, payload } => bare(dotted_text(variant, payload)),
        EnumVariantElement::Unit { variant } => bare(copy_text(variant)),
    }
}

/// A declaration block: a typedef is bare `Name.Target`, a struct
/// `Name.{ fields }`, an enum `Name.[ variants ]`.
pub open spec fn type_block(b: Block, t: TypeModel) -> bool {
    match t {
        TypeModel::Typedef(name, target) => scalar_block(b, Shape::Bare, dotted(name, target)),
        TypeModel::Struct(name, fields) => container(b, Shape::DottedBraced, Some(name))
            && bare_list(b.children@, fields),
        TypeModel::Enum(name, variants) => container(b, Shape::DottedSquareBracketed, Some(name))
            && b.children@.len() == variants.len() && forall|j: int|
            0 <= j < variants.len() ==> scalar_block(
                #[trigger] b.children@[j],
                Shape::Bare,
                variant_text(variants[j]),
            ),
    }
}

/// Textualize a declaration.
pub fn textualize_type(t: &TypeElement) -> (r: Block)
    ensures
        type_block(r, type_model(*t)),
{
    match t {
        TypeElement::Typedef(d) => bare(dotted_text(&d.name, &d.target)),
        TypeElement::Struct(d) => Block {
            shape: Shape::DottedBraced,
            head: Some(copy_text(&d.name)),
            body: String::new(),
            children: bare_blocks(&d.fields),
        },
        TypeElement::Enum(d) => {
            let mut children: Vec<Block> = Vec::new();
            let mut i: usize = 0;
            while i < d.variants.len()
                invariant
                    i <= d.variants@.len(),
                    children@.len() == i,
                    forall|j: int|
                        0 <= j < i ==> scalar_block(
                            #[trigger] children@[j],
                            Shape::Bare,
                            variant_text(variant_model(d.variants@[j])),
                        ),
                decreases d.variants@.len() - i,
            {
                children.push(textualize_variant(&d.variants[i]));
                i += 1;
            }
            Block {
                shape: Shape::DottedSquareBracketed,
                head: Some(copy_text(&d.name)),
                body: String::new(),
                children,
            }
        },
    }
}

/// A section of operation elements: `[ Operation.Payload … ]`.
pub open spec fn operations_block(b: Block, ops: Seq<(Seq<char>, Seq<char>)>) -> bool {
    &&& container(b, Shape::SquareBracketed, None)
    &&& b.children@.len() == ops.len()
    &&& forall|j: int|
        0 <= j < ops.len() ==> scalar_block(
            #[trigger] b.children@[j],
            Shape::Bare,
            dotted(ops[j].0, ops[j].1),
        )
}

fn section_block(children: Vec<Block>) -> (r: Block)
    ensures
        container(r, Shape::SquareBracketed, None),
        r.children == children,
{
    Block { shape: Shape::SquareBracketed, head: None, body: String::new(), children }
}

/// The Types section: `[ declaration … ]`.
pub open spec fn types_block(b: Block, ts: Seq<TypeModel>) -> bool {
    &&& container(b, Shape::SquareBracketed, None)
    &&& b.children@.len() == ts.len()
    &&& forall|j: int| 0 <= j < ts.len() ==> type_block(#[trigger] b.children@[j], ts[j])
}

/// The import section: `[ import … ]`.
pub open spec fn imports_block(b: Block, is: Seq<(Seq<char>, Seq<Seq<char>>)>) -> bool {
    &&& container(b, Shape::SquareBracketed, None)
    &&& b.children@.len() == is.len()
    &&& forall|j: int| 0 <= j < is.len() ==> import_block(#[trigger] b.children@[j], is[j])
}

/// The blocks of a whole Interface: the header, the channel where there is
/// one, the import section, and the braced five sections.
pub open spec fn document_blocks(bs: Seq<Block>, i: Interface) -> bool {
    let rest = match i.channel {
        Some(c) => bs.len() == 4 && headed_scalar(
            bs[1],
            Shape::DottedBraced,
            "Channel"@,
            channel_text((c.name@, c.contract_id, c.wire_revision)),
        ),
        None => bs.len() == 3,
    };
    let k = if i.channel is Some {
        2int
    } else {
        1int
    };
    &&& rest
    &&& headed_scalar(
        bs[0],
        Shape::DottedBraced,
        "Interface"@,
        version_text((i.version.major, i.version.minor, i.version.patch)),
    )
    &&& imports_block(bs[k], i.imports.0@.map_values(|m: Import| (m.path@, texts_of(m.symbols@))))
    &&& container(bs[k + 1], Shape::Braced, None)
    &&& bs[k + 1].children@.len() == 5
    &&& operations_block(
        bs[k + 1].children@[0],
        i.inputs.0@.map_values(|e: crate::fixture::InputElement| input_model(e)),
    )
    &&& operations_block(
        bs[k + 1].children@[1],
        i.outputs.0@.map_values(|e: crate::fixture::OutputElement| output_model(e)),
    )
    &&& operations_block(
        bs[k + 1].children@[2],
        i.refusals.0@.map_values(|e: crate::fixture::RefusalElement| refusal_model(e)),
    )
    &&& operations_block(
        bs[k + 1].children@[3],
        i.streams.0@.map_values(|e: crate::fixture::StreamElement| stream_model(e)),
    )
    &&& types_block(
        bs[k + 1].children@[4],
        i.types.0@.map_values(|t: TypeElement| type_model(t)),
    )
}


/// Textualize the Input section.
pub fn textualize_inputs(elements: &Vec<crate::fixture::InputElement>) -> (r: Block)
    ensures
        operations_block(r, elements@.map_values(|e: crate::fixture::InputElement| input_model(e))),
{
    let mut children: Vec<Block> = Vec::new();
    let mut i: usize = 0;
    while i < elements.len()
        invariant
            i <= elements@.len(),
            children@.len() == i,
            forall|j: int|
                0 <= j < i ==> scalar_block(
                    #[trigger] children@[j],
                    Shape::Bare,
                    dotted(elements@[j].operation@, elements@[j].payload@),
                ),
        decreases elements@.len() - i,
    {
        children.push(textualize_operation(&elements[i].operation, &elements[i].payload));
        i += 1;
    }
    section_block(children)
}

/// Textualize the Output section.
pub fn textualize_outputs(elements: &Vec<crate::fixture::OutputElement>) -> (r: Block)
    ensures
        operations_block(r, elements@.map_values(|e: crate::fixture::OutputElement| output_model(e))),
{
    let mut children: Vec<Block> = Vec::new();
    let mut i: usize = 0;
    while i < elements.len()
        invariant
            i <= elements@.len(),
            children@.len() == i,
            forall|j: int|
                0 <= j < i ==> scalar_block(
                    #[trigger] children@[j],
                    Shape::Bare,
                    dotted(elements@[j].operation@, elements@[j].payload@),
                ),
        decreases elements@.len() - i,
    {
        children.push(textualize_operation(&elements[i].operation, &elements[i].payload));
        i += 1;
    }
    section_block(children)
}

/// Textualize the Refusal section.
pub fn textualize_refusals(elements: &Vec<crate::fixture::RefusalElement>) -> (r: Block)
    ensures
        operations_block(r, elements@.map_values(|e: crate::fixture::RefusalElement| refusal_model(e))),
{
    let mut children: Vec<Block> = Vec::new();
    let mut i: usize = 0;
    while i < elements.len()
        invariant
            i <= elements@.len(),
            children@.len() == i,
            forall|j: int|
                0 <= j < i ==> scalar_block(
                    #[trigger] children@[j],
                    Shape::Bare,
                    dotted(elements@[j].operation@, elements@[j].payload@),
                ),
        decreases elements@.len() - i,
    {
        children.push(textualize_operation(&elements[i].operation, &elements[i].payload));
        i += 1;
    }
    section_block(children)
}

/// Textualize the Stream section.
pub fn textualize_streams(elements: &Vec<crate::fixture::StreamElement>) -> (r: Block)
    ensures
        operations_block(r, elements@.map_values(|e: crate::fixture::StreamElement| stream_model(e))),
{
    let mut children: Vec<Block> = Vec::new();
    let mut i: usize = 0;
    while i < elements.len()
        invariant
            i <= elements@.len(),
            children@.len() == i,
            forall|j: int|
                0 <= j < i ==> scalar_block(
                    #[trigger] children@[j],
                    Shape::Bare,
                    dotted(elements@[j].operation@, elements@[j].payload@),
                ),
        decreases elements@.len() - i,
    {
        children.push(textualize_operation(&elements[i].operation, &elements[i].payload));
        i += 1;
    }
    section_block(children)
}

/// Textualize the Types section.
pub fn textualize_types(types: &Vec<TypeElement>) -> (r: Block)
    ensures
        types_block(r, types@.map_values(|t: TypeElement| type_model(t))),
{
    let mut children: Vec<Block> = Vec::new();
    let mut i: usize = 0;
    while i < types.len()
        invariant
            i <= types@.len(),
            children@.len() == i,
            forall|j: int| 0 <= j < i ==> type_block(#[trigger] children@[j], type_model(types@[j])),
        decreases types@.len() - i,
    {
        children.push(textualize_type(&types[i]));
        i += 1;
    }
    section_block(children)
}

/// Textualize the import section.
pub fn textualize_imports(imports: &Vec<Import>) -> (r: Block)
    ensures
        imports_block(r, imports@.map_values(|m: Import| (m.path@, texts_of(m.symbols@)))),
{
    let mut children: Vec<Block> = Vec::new();
    let mut i: usize = 0;
    while i < imports.len()
        invariant
            i <= imports@.len(),
            children@.len() == i,
            forall|j: int|
                0 <= j < i ==> import_block(
                    #[trigger] children@[j],
                    (imports@[j].path@, texts_of(imports@[j].symbols@)),
                ),
        decreases imports@.len() - i,
    {
        children.push(textualize_import(&imports[i]));
        i += 1;
    }
    section_block(children)
}

/// Textualize a whole Interface once it passes its whole check; a channel
/// with a zero binding is refused.
pub fn textualize_document(i: &Interface) -> (r: Result<Vec<Block>, InterfaceFault>)
    ensures
        validation(*i) matches Err(e) ==> r == Err::<Vec<Block>, InterfaceFault>(e),
        validation(*i) is Ok && (i.channel matches Some(c) && (c.contract_id == 0
            || c.wire_revision == 0)) ==> r == Err::<Vec<Block>, InterfaceFault>(
            InterfaceFault::Binding,
        ),
        validation(*i) is Ok && !(i.channel matches Some(c) && (c.contract_id == 0
            || c.wire_revision == 0)) ==> (r matches Ok(bs) && document_blocks(bs@, *i)),
{
    match i.validate() {
        Ok(()) => {},
        Err(e) => {
            return Err(e);
        },
    }
    let mut out: Vec<Block> = Vec::new();
    out.push(write_header(&i.version));
    match &i.channel {
        Some(c) => match write_channel(c) {
            Ok(b) => {
                out.push(b);
            },
            Err(e) => {
                return Err(e);
            },
        },
        None => {},
    }
    out.push(textualize_imports(&i.imports.0));
    let mut sections: Vec<Block> = Vec::new();
    sections.push(textualize_inputs(&i.inputs.0));
    sections.push(textualize_outputs(&i.outputs.0));
    sections.push(textualize_refusals(&i.refusals.0));
    sections.push(textualize_streams(&i.streams.0));
    sections.push(textualize_types(&i.types.0));
    out.push(Block { shape: Shape::Braced, head: None, body: String::new(), children: sections });
    Ok(out)
}

} // verus!
