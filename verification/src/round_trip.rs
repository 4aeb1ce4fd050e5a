//! What textualization writes, realization reads back.
//!
//! Every element, declaration, import and section block that an Interface
//! is textualized into is realized as the part it came from, and the
//! numbers of the header and the channel binding read back as written.

use vstd::prelude::*;
use crate::emission::dec;
use crate::fixture::{
    ascii_alphanumeric, symbol_ok, type_reference_check, type_selection, vector_inner, Block,
    InterfaceFault,
    Shape,
};
use crate::realization::{
    after_once, all_digits, bare_symbol, before_once, digits_value, head_symbol, is_digit,
    lemma_once_index, occurs_once, occurs_once_at, operations_of, symbols_of, unsigned_digits,
    unsigned_value, has_char, variant_of, variants_of, VariantModel,
};
use crate::fixture::{Channel, Import, Interface, TypeSelection};
use crate::realization::{
    channel_of, header_of, imports_section, interface_model, realization, root_walk, texts_of,
    dotted_braced, section_at, values_of, version_number, version_numbers,
    InterfaceModel, RootModel,
};
use crate::textualization::{channel_text, document_blocks, imports_block, version_text};
use crate::realization::{
    import_of, imports_of, operations_section, sections_fault, sections_of, type_of, types_of,
    SectionsModel, TypeModel,
};
use crate::textualization::{
    bare_list, container, dotted, import_block, operations_block, scalar_block, type_block,
    types_block, variant_text,
};

verus! {

// ===========================================================================
// Symbols, dots and digits
// ===========================================================================

/// A symbol holds no character but letters, digits and underscores.
pub proof fn lemma_symbol_lacks(s: Seq<char>, c: char)
    requires
        symbol_ok(s),
        !ascii_alphanumeric(c),
        c != '_',
    ensures
        !has_char(s, c),
{
    if has_char(s, c) {
        let k = choose|k: int| 0 <= k < s.len() && s[k] == c;
        assert(ascii_alphanumeric(s[k]) || s[k] == '_');
    }
}

/// A checked type reference holds no `.`.
pub proof fn lemma_type_reference_lacks_dot(s: Seq<char>)
    requires
        type_reference_check(s) is Ok,
    ensures
        !has_char(s, '.'),
    decreases s.len(),
{
    match vector_inner(s) {
        Some(inner) => {
            lemma_type_reference_lacks_dot(inner);
            reveal_strlit("Vector<");
            if has_char(s, '.') {
                let k = choose|k: int| 0 <= k < s.len() && s[k] == '.';
                if 7 <= k < s.len() - 1 {
                    assert(inner[k - 7] == s[k]);
                } else if k < 7 {
                    assert(s.subrange(0, 7)[k] == s[k]);
                }
            }
        },
        None => {
            lemma_symbol_lacks(s, '.');
        },
    }
}

/// `a.b`, with no dot in either, splits at its one dot into `a` and `b`.
pub proof fn lemma_dotted_split(a: Seq<char>, b: Seq<char>)
    requires
        !has_char(a, '.'),
        !has_char(b, '.'),
    ensures
        occurs_once(dotted(a, b), '.'),
        before_once(dotted(a, b), '.') == a,
        after_once(dotted(a, b), '.') == b,
{
    reveal_strlit(".");
    let s = dotted(a, b);
    let k = a.len() as int;
    assert(s[k] == '.');
    assert forall|j: int| 0 <= j < s.len() && j != k implies s[j] != '.' by {
        if j < k {
            assert(s[j] == a[j]);
        } else {
            assert(s[j] == b[j - k - 1]);
        }
    }
    assert(occurs_once_at(s, '.', k));
    lemma_once_index(s, '.', k);
    assert(s.subrange(0, k) =~= a);
    assert(s.subrange(k + 1, s.len() as int) =~= b);
}

/// The decimal digits of a number are digits, and their value is the number.
pub proof fn lemma_dec_digits(n: nat)
    ensures
        dec(n).len() > 0,
        all_digits(dec(n)),
        digits_value(dec(n)) == n,
        dec(n)[0] != '+',
    decreases n,
{
    if n < 10 {
        let c = ((48 + n) as u8) as char;
        assert(dec(n) == seq![c]);
        assert(dec(n).drop_last() =~= Seq::<char>::empty());
        assert((c as nat) == 48 + n);
        assert(dec(n).last() == c);
        assert(digits_value(dec(n)) == digits_value(dec(n).drop_last()) * 10 + ((c as nat) - 48) as nat);
    } else {
        lemma_dec_digits(n / 10);
        let c = ((48 + n % 10) as u8) as char;
        assert((c as nat) == 48 + n % 10);
        assert(dec(n).drop_last() =~= dec(n / 10));
        assert(dec(n)[0] == dec(n / 10)[0]);
        assert(dec(n).last() == c);
        assert(digits_value(dec(n)) == digits_value(dec(n / 10)) * 10 + ((c as nat) - 48) as nat);
        assert((n / 10) * 10 + n % 10 == n) by (nonlinear_arith);
    }
}

/// A number written in decimal reads back as itself, where it fits.
pub proof fn lemma_dec_reads_back(n: nat, max: nat)
    requires
        n <= max,
    ensures
        unsigned_value(dec(n), max) == Some(n),
{
    lemma_dec_digits(n);
    assert(unsigned_digits(dec(n)) == dec(n));
}

// ===========================================================================
// Elements and lists
// ===========================================================================

/// An operation element block reads back as its operation and payload.
pub proof fn lemma_operation_reads_back(b: Block, operation: Seq<char>, payload: Seq<char>)
    requires
        scalar_block(b, Shape::Bare, dotted(operation, payload)),
        symbol_ok(operation),
        symbol_ok(payload),
    ensures
        head_symbol(b) == Ok::<(Seq<char>, Seq<char>), InterfaceFault>((operation, payload)),
{
    lemma_symbol_lacks(operation, '.');
    lemma_symbol_lacks(payload, '.');
    lemma_dotted_split(operation, payload);
}

/// Operation element blocks read back as their operations, in order.
pub proof fn lemma_operations_read_back(bs: Seq<Block>, ops: Seq<(Seq<char>, Seq<char>)>)
    requires
        bs.len() == ops.len(),
        forall|j: int|
            0 <= j < bs.len() ==> scalar_block(
                #[trigger] bs[j],
                Shape::Bare,
                dotted(ops[j].0, ops[j].1),
            ),
        forall|j: int| 0 <= j < ops.len() ==> symbol_ok(#[trigger] ops[j].0) && symbol_ok(ops[j].1),
    ensures
        operations_of(bs) == Ok::<Seq<(Seq<char>, Seq<char>)>, InterfaceFault>(ops),
    decreases bs.len(),
{
    if bs.len() > 0 {
        let n = bs.len() - 1;
        lemma_operations_read_back(bs.drop_last(), ops.drop_last());
        assert(symbol_ok(ops[n].0));
        lemma_operation_reads_back(bs[n], ops[n].0, ops[n].1);
        assert(ops.drop_last().push(ops[n]) =~= ops);
    } else {
        assert(ops =~= Seq::empty());
    }
}

/// Bare symbol blocks read back as their symbols, in order.
pub proof fn lemma_symbols_read_back(bs: Seq<Block>, values: Seq<Seq<char>>)
    requires
        bare_list(bs, values),
        forall|j: int| 0 <= j < values.len() ==> symbol_ok(#[trigger] values[j]),
    ensures
        symbols_of(bs) == Ok::<Seq<Seq<char>>, InterfaceFault>(values),
    decreases bs.len(),
{
    if bs.len() > 0 {
        let n = bs.len() - 1;
        assert(bare_list(bs.drop_last(), values.drop_last())) by {
            assert forall|j: int| 0 <= j < bs.drop_last().len() implies scalar_block(
                #[trigger] bs.drop_last()[j],
                Shape::Bare,
                values.drop_last()[j],
            ) by {
                assert(scalar_block(bs[j], Shape::Bare, values[j]));
            }
        }
        lemma_symbols_read_back(bs.drop_last(), values.drop_last());
        assert(scalar_block(bs[n], Shape::Bare, values[n]));
        assert(symbol_ok(values[n]));
        assert(bare_symbol(bs[n]) == Ok::<Seq<char>, InterfaceFault>(values[n]));
        assert(values.drop_last().push(values[n]) =~= values);
    } else {
        assert(values =~= Seq::empty());
    }
}

/// The symbols of an enum body element are symbols.
pub open spec fn variant_ok(v: VariantModel) -> bool {
    match v {
        VariantModel::Data(variant, payload) => symbol_ok(variant) && symbol_ok(payload),
        VariantModel::Unit(variant) => symbol_ok(variant),
    }
}

/// An enum body element block reads back as the element.
pub proof fn lemma_variant_reads_back(b: Block, v: VariantModel)
    requires
        scalar_block(b, Shape::Bare, variant_text(v)),
        variant_ok(v),
    ensures
        variant_of(b) == Ok::<VariantModel, InterfaceFault>(v),
{
    match v {
        VariantModel::Data(variant, payload) => {
            lemma_operation_reads_back(b, variant, payload);
            reveal_strlit(".");
            assert(dotted(variant, payload)[variant.len() as int] == '.');
        },
        VariantModel::Unit(variant) => {
            lemma_symbol_lacks(variant, '.');
        },
    }
}

/// Enum body element blocks read back as the elements, in order.
pub proof fn lemma_variants_read_back(bs: Seq<Block>, vs: Seq<VariantModel>)
    requires
        bs.len() == vs.len(),
        forall|j: int| 0 <= j < bs.len() ==> scalar_block(#[trigger] bs[j], Shape::Bare, variant_text(vs[j])),
        forall|j: int| 0 <= j < vs.len() ==> variant_ok(#[trigger] vs[j]),
    ensures
        variants_of(bs) == Ok::<Seq<VariantModel>, InterfaceFault>(vs),
    decreases bs.len(),
{
    if bs.len() > 0 {
        let n = bs.len() - 1;
        lemma_variants_read_back(bs.drop_last(), vs.drop_last());
        assert(scalar_block(bs[n], Shape::Bare, variant_text(vs[n])));
        assert(variant_ok(vs[n]));
        lemma_variant_reads_back(bs[n], vs[n]);
        assert(vs.drop_last().push(vs[n]) =~= vs);
    } else {
        assert(vs =~= Seq::empty());
    }
}

// ===========================================================================
// Declarations, imports and sections
// ===========================================================================

/// The texts of a declaration are those realization accepts: symbols, and
/// a checked type reference for a typedef's target.
pub open spec fn type_ok(t: TypeModel) -> bool {
    match t {
        TypeModel::Typedef(name, target) => symbol_ok(name) && type_reference_check(target) is Ok,
        TypeModel::Struct(name, fields) => symbol_ok(name) && forall|j: int|
            0 <= j < fields.len() ==> symbol_ok(#[trigger] fields[j]),
        TypeModel::Enum(name, variants) => symbol_ok(name) && forall|j: int|
            0 <= j < variants.len() ==> variant_ok(#[trigger] variants[j]),
    }
}

/// A declaration block reads back as the declaration.
pub proof fn lemma_type_reads_back(b: Block, t: TypeModel)
    requires
        type_block(b, t),
        type_ok(t),
    ensures
        type_of(b) == Ok::<TypeModel, InterfaceFault>(t),
{
    match t {
        TypeModel::Typedef(name, target) => {
            lemma_symbol_lacks(name, '.');
            lemma_type_reference_lacks_dot(target);
            lemma_dotted_split(name, target);
        },
        TypeModel::Struct(name, fields) => {
            lemma_symbols_read_back(b.children@, fields);
        },
        TypeModel::Enum(name, variants) => {
            lemma_variants_read_back(b.children@, variants);
        },
    }
}

/// Declaration blocks read back as the declarations, in order.
pub proof fn lemma_types_read_back(bs: Seq<Block>, ts: Seq<TypeModel>)
    requires
        bs.len() == ts.len(),
        forall|j: int| 0 <= j < bs.len() ==> type_block(#[trigger] bs[j], ts[j]),
        forall|j: int| 0 <= j < ts.len() ==> type_ok(#[trigger] ts[j]),
    ensures
        types_of(bs) == Ok::<Seq<TypeModel>, InterfaceFault>(ts),
    decreases bs.len(),
{
    if bs.len() > 0 {
        let n = bs.len() - 1;
        lemma_types_read_back(bs.drop_last(), ts.drop_last());
        assert(type_block(bs[n], ts[n]));
        assert(type_ok(ts[n]));
        lemma_type_reads_back(bs[n], ts[n]);
        assert(ts.drop_last().push(ts[n]) =~= ts);
    } else {
        assert(ts =~= Seq::empty());
    }
}

/// The symbols an import takes are symbols.
pub open spec fn import_ok(i: (Seq<char>, Seq<Seq<char>>)) -> bool {
    forall|j: int| 0 <= j < i.1.len() ==> symbol_ok(#[trigger] i.1[j])
}

/// Import blocks read back as the imports, in order.
pub proof fn lemma_imports_read_back(bs: Seq<Block>, is: Seq<(Seq<char>, Seq<Seq<char>>)>)
    requires
        bs.len() == is.len(),
        forall|j: int| 0 <= j < bs.len() ==> import_block(#[trigger] bs[j], is[j]),
        forall|j: int| 0 <= j < is.len() ==> import_ok(#[trigger] is[j]),
    ensures
        imports_of(bs) == Ok::<Seq<(Seq<char>, Seq<Seq<char>>)>, InterfaceFault>(is),
    decreases bs.len(),
{
    if bs.len() > 0 {
        let n = bs.len() - 1;
        lemma_imports_read_back(bs.drop_last(), is.drop_last());
        assert(import_block(bs[n], is[n]));
        assert(import_ok(is[n]));
        lemma_symbols_read_back(bs[n].children@, is[n].1);
        assert(import_of(bs[n]) == Ok::<(Seq<char>, Seq<Seq<char>>), InterfaceFault>(is[n]));
        assert(is.drop_last().push(is[n]) =~= is);
    } else {
        assert(is =~= Seq::empty());
    }
}

/// The operations of a section are symbols on both sides of their dot.
pub open spec fn operations_ok(ops: Seq<(Seq<char>, Seq<char>)>) -> bool {
    forall|j: int| 0 <= j < ops.len() ==> symbol_ok(#[trigger] ops[j].0) && symbol_ok(ops[j].1)
}

/// The texts of five sections are those realization accepts.
pub open spec fn sections_ok(m: SectionsModel) -> bool {
    &&& operations_ok(m.inputs)
    &&& operations_ok(m.outputs)
    &&& operations_ok(m.refusals)
    &&& operations_ok(m.streams)
    &&& forall|j: int| 0 <= j < m.types.len() ==> type_ok(#[trigger] m.types[j])
}

/// An operations section block reads back as its operations.
pub proof fn lemma_operations_section_reads_back(b: Block, ops: Seq<(Seq<char>, Seq<char>)>)
    requires
        operations_block(b, ops),
        operations_ok(ops),
    ensures
        operations_section(b) == Ok::<Seq<(Seq<char>, Seq<char>)>, InterfaceFault>(ops),
{
    lemma_operations_read_back(b.children@, ops);
}

/// The braced sections block reads back as the five sections.
pub proof fn lemma_sections_read_back(b: Block, m: SectionsModel)
    requires
        container(b, Shape::Braced, None),
        b.children@.len() == 5,
        operations_block(b.children@[0], m.inputs),
        operations_block(b.children@[1], m.outputs),
        operations_block(b.children@[2], m.refusals),
        operations_block(b.children@[3], m.streams),
        types_block(b.children@[4], m.types),
        sections_ok(m),
    ensures
        sections_of(b) == Ok::<SectionsModel, InterfaceFault>(m),
{
    let bs = b.children@;
    lemma_operations_section_reads_back(bs[0], m.inputs);
    lemma_operations_section_reads_back(bs[1], m.outputs);
    lemma_operations_section_reads_back(bs[2], m.refusals);
    lemma_operations_section_reads_back(bs[3], m.streams);
    lemma_types_read_back(bs[4].children@, m.types);
    reveal_with_fuel(sections_fault, 6);
    assert(sections_fault(bs, 5) is Ok);
}

// ===========================================================================
// The whole Interface
// ===========================================================================

/// The texts of an Interface are those realization accepts: symbols where
/// it reads symbols, a checked type reference for each typedef, and a
/// nonzero channel binding.
pub open spec fn realizable(i: Interface) -> bool {
    realizable_model(interface_model(i))
}

/// The texts of an Interface model are those realization accepts.
pub open spec fn realizable_model(m: InterfaceModel) -> bool {
    &&& sections_ok(m.sections)
    &&& forall|j: int| 0 <= j < m.imports.len() ==> import_ok(#[trigger] m.imports[j])
    &&& match m.channel {
        Some(c) => symbol_ok(c.0) && c.1 != 0 && c.2 != 0,
        None => true,
    }
}

/// A `head.{ … }` block whose children are the given words, bare.
pub open spec fn worded(b: Block, head: Seq<char>, words: Seq<Seq<char>>) -> bool {
    container(b, Shape::DottedBraced, Some(head)) && bare_list(b.children@, words)
}

/// The words of a version header.
pub open spec fn version_words(i: Interface) -> Seq<Seq<char>> {
    seq![dec(i.version.major as nat), dec(i.version.minor as nat), dec(i.version.patch as nat)]
}

/// The words of a channel binding.
pub open spec fn channel_words(c: Channel) -> Seq<Seq<char>> {
    seq![c.name@, dec(c.contract_id as nat), dec(c.wire_revision as nat)]
}

/// A version header's scalar is its words, a space between each two.
pub proof fn lemma_version_text_is_its_words(i: Interface)
    ensures
        version_text((i.version.major, i.version.minor, i.version.patch)) == version_words(i)[0]
            + " "@ + version_words(i)[1] + " "@ + version_words(i)[2],
{
}

/// A channel binding's scalar is its words, a space between each two.
pub proof fn lemma_channel_text_is_its_words(c: Channel)
    ensures
        channel_text((c.name@, c.contract_id, c.wire_revision)) == channel_words(c)[0] + " "@
            + channel_words(c)[1] + " "@ + channel_words(c)[2],
{
}

proof fn lemma_three_words(bs: Seq<Block>, words: Seq<Seq<char>>)
    requires
        bare_list(bs, words),
        words.len() == 3,
    ensures
        bs.len() == 3,
        scalar_block(bs[0], Shape::Bare, words[0]),
        scalar_block(bs[1], Shape::Bare, words[1]),
        scalar_block(bs[2], Shape::Bare, words[2]),
        bs.drop_last().drop_last().drop_last() =~= Seq::<Block>::empty(),
        bs.drop_last().drop_last().last() == bs[0],
        bs.drop_last().last() == bs[1],
        bs.last() == bs[2],
{
}

proof fn lemma_header_reads_back(b: Block, i: Interface)
    requires
        worded(b, "Interface"@, version_words(i)),
    ensures
        header_of(b) == Ok::<(u16, u16, u16), InterfaceFault>(
            (i.version.major, i.version.minor, i.version.patch),
        ),
{
    let bs = b.children@;
    lemma_three_words(bs, version_words(i));
    lemma_dec_reads_back(i.version.major as nat, 65535);
    lemma_dec_reads_back(i.version.minor as nat, 65535);
    lemma_dec_reads_back(i.version.patch as nat, 65535);
    let s1 = bs.drop_last();
    let s0 = s1.drop_last();
    assert(version_number(bs[0]) == Ok::<u16, InterfaceFault>(i.version.major));
    assert(version_number(bs[1]) == Ok::<u16, InterfaceFault>(i.version.minor));
    assert(version_number(bs[2]) == Ok::<u16, InterfaceFault>(i.version.patch));
    assert(version_numbers(s0.drop_last()) == Ok::<Seq<u16>, InterfaceFault>(Seq::empty()));
    assert(version_numbers(s0) == Ok::<Seq<u16>, InterfaceFault>(seq![i.version.major]));
    assert(seq![i.version.major].push(i.version.minor) =~= seq![i.version.major, i.version.minor]);
    assert(seq![i.version.major, i.version.minor].push(i.version.patch) =~= seq![
        i.version.major,
        i.version.minor,
        i.version.patch,
    ]);
    assert(version_numbers(s1) == Ok::<Seq<u16>, InterfaceFault>(
        seq![i.version.major, i.version.minor],
    ));
    assert(version_numbers(bs) == Ok::<Seq<u16>, InterfaceFault>(
        seq![i.version.major, i.version.minor, i.version.patch],
    ));
}

proof fn lemma_channel_reads_back(b: Block, c: Channel)
    requires
        worded(b, "Channel"@, channel_words(c)),
        symbol_ok(c.name@),
        c.contract_id != 0,
        c.wire_revision != 0,
    ensures
        channel_of(b) == Ok::<(Seq<char>, u32, u16), InterfaceFault>(
            (c.name@, c.contract_id, c.wire_revision),
        ),
{
    let bs = b.children@;
    lemma_three_words(bs, channel_words(c));
    lemma_dec_reads_back(c.contract_id as nat, 4294967295);
    lemma_dec_reads_back(c.wire_revision as nat, 65535);
    let w = channel_words(c);
    let s1 = bs.drop_last();
    let s0 = s1.drop_last();
    assert(values_of(s0.drop_last()) == Ok::<Seq<Seq<char>>, InterfaceFault>(Seq::empty()));
    assert(values_of(s0) == Ok::<Seq<Seq<char>>, InterfaceFault>(seq![w[0]]));
    assert(seq![w[0]].push(w[1]) =~= seq![w[0], w[1]]);
    assert(seq![w[0], w[1]].push(w[2]) =~= seq![w[0], w[1], w[2]]);
    assert(values_of(s1) == Ok::<Seq<Seq<char>>, InterfaceFault>(seq![w[0], w[1]]));
    assert(values_of(bs) == Ok::<Seq<Seq<char>>, InterfaceFault>(seq![w[0], w[1], w[2]]));
    assert(seq![w[0], w[1], w[2]] =~= w);
}

/// Textualizing an Interface whose texts realization accepts gives blocks
/// that realize back as that Interface, once the header's and the channel
/// binding's scalars are read as the words they are made of.
pub proof fn lemma_textualized_interface_reads_back(i: Interface, bs: Seq<Block>, read: Seq<Block>)
    requires
        document_blocks(bs, i),
        realizable(i),
        read.len() == bs.len(),
        worded(read[0], "Interface"@, version_words(i)),
        i.channel matches Some(c) ==> worded(read[1], "Channel"@, channel_words(c)),
        forall|j: int|
            (if i.channel is Some {
                2int
            } else {
                1int
            }) <= j < bs.len() ==> read[j] == bs[j],
    ensures
        realization(read) == Ok::<InterfaceModel, InterfaceFault>(interface_model(i)),
{
    let m = interface_model(i);
    let k: int = if i.channel is Some {
        2
    } else {
        1
    };
    lemma_header_reads_back(read[0], i);
    let imports = i.imports.0@.map_values(|x: Import| (x.path@, texts_of(x.symbols@)));
    assert(imports =~= m.imports);
    lemma_imports_read_back(bs[k].children@, m.imports);
    assert(read[k] == bs[k]);
    assert(read[k + 1] == bs[k + 1]);
    lemma_sections_read_back(bs[k + 1], m.sections);
    match i.channel {
        Some(c) => {
            lemma_channel_reads_back(read[1], c);
            reveal_with_fuel(root_walk, 5);
            assert(root_walk(read, 4) == Ok::<RootModel, InterfaceFault>(
                RootModel {
                    version: Some((i.version.major, i.version.minor, i.version.patch)),
                    channel: m.channel,
                    imports: Some(m.imports),
                    sections: Some(m.sections),
                },
            ));
        },
        None => {
            reveal_with_fuel(root_walk, 4);
            assert(root_walk(read, 3) == Ok::<RootModel, InterfaceFault>(
                RootModel {
                    version: Some((i.version.major, i.version.minor, i.version.patch)),
                    channel: None,
                    imports: Some(m.imports),
                    sections: Some(m.sections),
                },
            ));
        },
    }
}


// ===========================================================================
// What realization gives is realizable
// ===========================================================================

proof fn lemma_operations_ok(bs: Seq<Block>)
    requires
        operations_of(bs) is Ok,
    ensures
        operations_ok(operations_of(bs)->Ok_0),
    decreases bs.len(),
{
    if bs.len() > 0 {
        lemma_operations_ok(bs.drop_last());
        let v = operations_of(bs.drop_last())->Ok_0;
        let p = head_symbol(bs.last())->Ok_0;
        assert(operations_of(bs)->Ok_0 == v.push(p));
        assert forall|j: int| 0 <= j < v.push(p).len() implies symbol_ok(
            #[trigger] v.push(p)[j].0,
        ) && symbol_ok(v.push(p)[j].1) by {
            if j < v.len() {
                assert(v.push(p)[j] == v[j]);
            }
        }
    }
}

proof fn lemma_symbols_ok(bs: Seq<Block>)
    requires
        symbols_of(bs) is Ok,
    ensures
        forall|j: int|
            0 <= j < symbols_of(bs)->Ok_0.len() ==> symbol_ok(#[trigger] symbols_of(bs)->Ok_0[j]),
    decreases bs.len(),
{
    if bs.len() > 0 {
        lemma_symbols_ok(bs.drop_last());
        let v = symbols_of(bs.drop_last())->Ok_0;
        let p = bare_symbol(bs.last())->Ok_0;
        assert(symbols_of(bs)->Ok_0 == v.push(p));
        assert forall|j: int| 0 <= j < v.push(p).len() implies symbol_ok(#[trigger] v.push(p)[j]) by {
            if j < v.len() {
                assert(v.push(p)[j] == v[j]);
            }
        }
    }
}

proof fn lemma_variants_ok(bs: Seq<Block>)
    requires
        variants_of(bs) is Ok,
    ensures
        forall|j: int|
            0 <= j < variants_of(bs)->Ok_0.len() ==> variant_ok(#[trigger] variants_of(bs)->Ok_0[j]),
    decreases bs.len(),
{
    if bs.len() > 0 {
        lemma_variants_ok(bs.drop_last());
        let v = variants_of(bs.drop_last())->Ok_0;
        let p = variant_of(bs.last())->Ok_0;
        assert(variants_of(bs)->Ok_0 == v.push(p));
        assert(variant_ok(p));
        assert forall|j: int| 0 <= j < v.push(p).len() implies variant_ok(#[trigger] v.push(p)[j]) by {
            if j < v.len() {
                assert(v.push(p)[j] == v[j]);
            }
        }
    }
}

proof fn lemma_type_ok(b: Block)
    requires
        type_of(b) is Ok,
    ensures
        type_ok(type_of(b)->Ok_0),
{
    match type_selection(b.shape, b.head is Some) {
        Some(TypeSelection::Struct) => {
            lemma_symbols_ok(b.children@);
        },
        Some(TypeSelection::Enum) => {
            lemma_variants_ok(b.children@);
        },
        _ => {},
    }
}

proof fn lemma_types_ok(bs: Seq<Block>)
    requires
        types_of(bs) is Ok,
    ensures
        forall|j: int| 0 <= j < types_of(bs)->Ok_0.len() ==> type_ok(#[trigger] types_of(bs)->Ok_0[j]),
    decreases bs.len(),
{
    if bs.len() > 0 {
        lemma_types_ok(bs.drop_last());
        let v = types_of(bs.drop_last())->Ok_0;
        let p = type_of(bs.last())->Ok_0;
        assert(types_of(bs)->Ok_0 == v.push(p));
        lemma_type_ok(bs.last());
        assert forall|j: int| 0 <= j < v.push(p).len() implies type_ok(#[trigger] v.push(p)[j]) by {
            if j < v.len() {
                assert(v.push(p)[j] == v[j]);
            }
        }
    }
}

proof fn lemma_imports_ok(bs: Seq<Block>)
    requires
        imports_of(bs) is Ok,
    ensures
        forall|j: int|
            0 <= j < imports_of(bs)->Ok_0.len() ==> import_ok(#[trigger] imports_of(bs)->Ok_0[j]),
    decreases bs.len(),
{
    if bs.len() > 0 {
        lemma_imports_ok(bs.drop_last());
        let v = imports_of(bs.drop_last())->Ok_0;
        let p = import_of(bs.last())->Ok_0;
        assert(imports_of(bs)->Ok_0 == v.push(p));
        lemma_symbols_ok(bs.last().children@);
        assert(import_ok(p));
        assert forall|j: int| 0 <= j < v.push(p).len() implies import_ok(#[trigger] v.push(p)[j]) by {
            if j < v.len() {
                assert(v.push(p)[j] == v[j]);
            }
        }
    }
}

proof fn lemma_sections_ok(b: Block)
    requires
        sections_of(b) is Ok,
    ensures
        sections_ok(sections_of(b)->Ok_0),
{
    let bs = b.children@;
    reveal_with_fuel(sections_fault, 6);
    assert(section_at(bs[0], 0) is Ok);
    assert(section_at(bs[1], 1) is Ok);
    assert(section_at(bs[2], 2) is Ok);
    assert(section_at(bs[3], 3) is Ok);
    assert(section_at(bs[4], 4) is Ok);
    lemma_operations_ok(bs[0].children@);
    lemma_operations_ok(bs[1].children@);
    lemma_operations_ok(bs[2].children@);
    lemma_operations_ok(bs[3].children@);
    lemma_types_ok(bs[4].children@);
}

/// What the root blocks read so far have given is realizable.
pub open spec fn root_ok(st: RootModel) -> bool {
    &&& (st.sections matches Some(s) ==> sections_ok(s))
    &&& (st.imports matches Some(is) ==> forall|j: int|
        0 <= j < is.len() ==> import_ok(#[trigger] is[j]))
    &&& (st.channel matches Some(c) ==> symbol_ok(c.0) && c.1 != 0 && c.2 != 0)
}

proof fn lemma_root_ok(bs: Seq<Block>, n: int)
    requires
        root_walk(bs, n) is Ok,
    ensures
        root_ok(root_walk(bs, n)->Ok_0),
    decreases n,
{
    if n > 0 {
        lemma_root_ok(bs, n - 1);
        let st = root_walk(bs, n - 1)->Ok_0;
        let b = bs[n - 1];
        if st.version is None {
        } else if st.imports is None && st.channel is None && dotted_braced(b, "Channel"@) {
        } else if st.imports is None {
            lemma_imports_ok(b.children@);
        } else if st.sections is None {
            lemma_sections_ok(b);
        }
    }
}

/// Whatever realization gives is realizable.
pub proof fn lemma_realized_is_realizable(bs: Seq<Block>)
    requires
        realization(bs) is Ok,
    ensures
        realizable_model(realization(bs)->Ok_0),
{
    lemma_root_ok(bs, bs.len() as int);
}

/// An Interface realized from blocks, once textualized, realizes back as
/// itself: realization and textualization are inverse, the header's and
/// the channel binding's scalars read as the words they are made of.
pub proof fn lemma_realized_interface_round_trips(
    blocks: Seq<Block>,
    i: Interface,
    bs: Seq<Block>,
    read: Seq<Block>,
)
    requires
        realization(blocks) == Ok::<InterfaceModel, InterfaceFault>(interface_model(i)),
        document_blocks(bs, i),
        read.len() == bs.len(),
        worded(read[0], "Interface"@, version_words(i)),
        i.channel matches Some(c) ==> worded(read[1], "Channel"@, channel_words(c)),
        forall|j: int|
            (if i.channel is Some {
                2int
            } else {
                1int
            }) <= j < bs.len() ==> read[j] == bs[j],
    ensures
        realization(read) == realization(blocks),
{
    lemma_realized_is_realizable(blocks);
    lemma_textualized_interface_reads_back(i, bs, read);
}

} // verus!
