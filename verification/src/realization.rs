//! Realizing an Interface from its delineated blocks.
//!
//! The root blocks are, in order: the `Interface.{major minor patch}`
//! header, an optional `Channel.{Name contract revision}` binding, the
//! import section, and the braced five sections. Each section has its own
//! element reading; the first fault met, in block order, is the answer.

use vstd::prelude::*;
use crate::canonical::chars_of;
use crate::fixture::{
    declaration_check, declarations_check, declared_names, input_operations, input_payloads,
    output_operations, output_payloads, refusal_operations, refusal_payloads, stream_operations,
    stream_payloads, validation, select_bare, select_section, select_sections, symbol, symbol_ok, text_of_range,
    type_reference, type_reference_check, type_selection, Block, Channel, EnumVariantElement,
    Import, Imports, InputElement, Inputs, Interface, InterfaceFault, NamedEnum, NamedStruct,
    NamedTypedef, OutputElement, Outputs, RefusalElement, Refusals, Shape, StreamElement, Streams,
    TypeElement, TypeSelection, Types, Version,
};
use crate::text::copy_text;

verus! {

// ===========================================================================
// Texts with one separator
// ===========================================================================

/// `c` occurs in `s` at `k` and nowhere else.
pub open spec fn occurs_once_at(s: Seq<char>, c: char, k: int) -> bool {
    &&& 0 <= k < s.len()
    &&& s[k] == c
    &&& forall|j: int| 0 <= j < s.len() && j != k ==> s[j] != c
}

/// `c` occurs in `s` exactly once.
pub open spec fn occurs_once(s: Seq<char>, c: char) -> bool {
    exists|k: int| occurs_once_at(s, c, k)
}

/// Where the one `c` of `s` stands.
pub open spec fn once_index(s: Seq<char>, c: char) -> int {
    choose|k: int| occurs_once_at(s, c, k)
}

/// The text before the one `c`.
pub open spec fn before_once(s: Seq<char>, c: char) -> Seq<char> {
    s.subrange(0, once_index(s, c))
}

/// The text after the one `c`.
pub open spec fn after_once(s: Seq<char>, c: char) -> Seq<char> {
    s.subrange(once_index(s, c) + 1, s.len() as int)
}

pub proof fn lemma_once_index(s: Seq<char>, c: char, k: int)
    requires
        occurs_once_at(s, c, k),
    ensures
        occurs_once(s, c),
        once_index(s, c) == k,
{
    assert(occurs_once(s, c));
    let j = once_index(s, c);
    if j != k {
        assert(s[j] == c);
    }
}

/// Where the only `c` of a text stands; none where it occurs never or twice.
fn single_index(s: &Vec<char>, c: char) -> (r: Option<usize>)
    ensures
        r matches Some(k) ==> occurs_once_at(s@, c, k as int) && once_index(s@, c) == k,
        r is None ==> !occurs_once(s@, c),
{
    let mut found: Option<usize> = None;
    let mut i: usize = 0;
    while i < s.len()
        invariant
            i <= s@.len(),
            found is None ==> forall|j: int| 0 <= j < i ==> s@[j] != c,
            found matches Some(k) ==> k < i && s@[k as int] == c && forall|j: int|
                0 <= j < i && j != k ==> s@[j] != c,
        decreases s@.len() - i,
    {
        if s[i] == c {
            match found {
                Some(k) => {
                    proof {
                        if occurs_once(s@, c) {
                            let m = choose|m: int| occurs_once_at(s@, c, m);
                            if m != k as int {
                                assert(s@[k as int] == c);
                            } else {
                                assert(s@[i as int] == c);
                            }
                        }
                    }
                    return None;
                },
                None => {
                    found = Some(i);
                },
            }
        }
        i += 1;
    }
    match found {
        Some(k) => {
            proof {
                lemma_once_index(s@, c, k as int);
            }
            Some(k)
        },
        None => {
            proof {
                if occurs_once(s@, c) {
                    let m = choose|m: int| occurs_once_at(s@, c, m);
                    assert(s@[m] == c);
                }
            }
            None
        },
    }
}

// ===========================================================================
// Unsigned decimal numbers
// ===========================================================================

pub open spec fn is_digit(c: char) -> bool {
    '0' <= c <= '9'
}

pub open spec fn all_digits(s: Seq<char>) -> bool {
    forall|i: int| 0 <= i < s.len() ==> is_digit(#[trigger] s[i])
}

/// The value of a run of decimal digits.
pub open spec fn digits_value(s: Seq<char>) -> nat
    decreases s.len(),
{
    if s.len() == 0 {
        0
    } else {
        digits_value(s.drop_last()) * 10 + ((s.last() as nat) - 48) as nat
    }
}

/// The digits of an unsigned number's text: a leading `+` is allowed.
pub open spec fn unsigned_digits(s: Seq<char>) -> Seq<char> {
    if s.len() > 0 && s[0] == '+' {
        s.subrange(1, s.len() as int)
    } else {
        s
    }
}

/// The unsigned number a text spells, if it is at most `max`: an optional
/// `+`, then one or more decimal digits.
pub open spec fn unsigned_value(s: Seq<char>, max: nat) -> Option<nat> {
    let d = unsigned_digits(s);
    if d.len() > 0 && all_digits(d) && digits_value(d) <= max {
        Some(digits_value(d))
    } else {
        None
    }
}

proof fn lemma_digits_prefix_le(d: Seq<char>, i: int)
    requires
        0 <= i <= d.len(),
        all_digits(d),
    ensures
        digits_value(d.take(i)) <= digits_value(d),
    decreases d.len() - i,
{
    if i < d.len() {
        lemma_digits_prefix_le(d, i + 1);
        let t = d.take(i + 1);
        assert(t.drop_last() =~= d.take(i));
        assert(is_digit(d[i]));
    } else {
        assert(d.take(i) =~= d);
    }
}

/// Read an unsigned number of at most `max`.
fn parse_unsigned(text: &String, max: u32) -> (r: Option<u32>)
    ensures
        match unsigned_value(text@, max as nat) {
            Some(v) => r == Some(v as u32),
            None => r is None,
        },
{
    let s = chars_of(text.as_str());
    let start: usize = if s.len() > 0 && s[0] == '+' {
        1
    } else {
        0
    };
    let ghost d = unsigned_digits(s@);
    proof {
        assert(d =~= s@.subrange(start as int, s@.len() as int));
    }
    if start >= s.len() {
        return None;
    }
    let mut acc: u64 = 0;
    let mut i: usize = start;
    while i < s.len()
        invariant
            s@ == text@,
            d == unsigned_digits(text@),
            d == s@.subrange(start as int, s@.len() as int),
            start <= i <= s@.len(),
            acc == digits_value(d.take(i - start)),
            acc <= max,
            all_digits(d.take(i - start)),
        decreases s@.len() - i,
    {
        let c = s[i];
        if !('0' <= c && c <= '9') {
            proof {
                assert(d[i - start] == c);
            }
            return None;
        }
        let next: u64 = acc * 10 + ((c as u32) - 48) as u64;
        proof {
            let t = d.take(i - start + 1);
            assert(t.drop_last() =~= d.take(i - start));
            assert(t.last() == c);
            assert(all_digits(t));
        }
        if next > max as u64 {
            proof {
                if all_digits(d) {
                    lemma_digits_prefix_le(d, i - start + 1);
                }
            }
            return None;
        }
        acc = next;
        i += 1;
    }
    proof {
        assert(d.take(i - start) =~= d);
    }
    Some(acc as u32)
}

// ===========================================================================
// Models of what is realized
// ===========================================================================

/// An enum body element as texts.
pub enum VariantModel {
    Data(Seq<char>, Seq<char>),
    Unit(Seq<char>),
}

/// A type declaration as texts.
pub enum TypeModel {
    Typedef(Seq<char>, Seq<char>),
    Struct(Seq<char>, Seq<Seq<char>>),
    Enum(Seq<char>, Seq<VariantModel>),
}

/// The five sections as texts.
pub struct SectionsModel {
    pub inputs: Seq<(Seq<char>, Seq<char>)>,
    pub outputs: Seq<(Seq<char>, Seq<char>)>,
    pub refusals: Seq<(Seq<char>, Seq<char>)>,
    pub streams: Seq<(Seq<char>, Seq<char>)>,
    pub types: Seq<TypeModel>,
}

/// A whole Interface as numbers and texts.
pub struct InterfaceModel {
    pub version: (u16, u16, u16),
    pub channel: Option<(Seq<char>, u32, u16)>,
    pub imports: Seq<(Seq<char>, Seq<Seq<char>>)>,
    pub sections: SectionsModel,
}

pub open spec fn texts_of(v: Seq<String>) -> Seq<Seq<char>> {
    v.map_values(|s: String| s@)
}

pub open spec fn variant_model(v: EnumVariantElement) -> VariantModel {
    match v {
        EnumVariantElement::Data { variant, payload } => VariantModel::Data(variant@, payload@),
        EnumVariantElement::Unit { variant } => VariantModel::Unit(variant@),
    }
}

pub open spec fn type_model(t: TypeElement) -> TypeModel {
    match t {
        TypeElement::Typedef(d) => TypeModel::Typedef(d.name@, d.target@),
        TypeElement::Struct(d) => TypeModel::Struct(d.name@, texts_of(d.fields@)),
        TypeElement::Enum(d) => TypeModel::Enum(
            d.name@,
            d.variants@.map_values(|v: EnumVariantElement| variant_model(v)),
        ),
    }
}

pub open spec fn input_model(e: InputElement) -> (Seq<char>, Seq<char>) {
    (e.operation@, e.payload@)
}

pub open spec fn output_model(e: OutputElement) -> (Seq<char>, Seq<char>) {
    (e.operation@, e.payload@)
}

pub open spec fn refusal_model(e: RefusalElement) -> (Seq<char>, Seq<char>) {
    (e.operation@, e.payload@)
}

pub open spec fn stream_model(e: StreamElement) -> (Seq<char>, Seq<char>) {
    (e.operation@, e.payload@)
}

pub open spec fn import_model(i: Import) -> (Seq<char>, Seq<Seq<char>>) {
    (i.path@, texts_of(i.symbols@))
}

pub open spec fn interface_model(i: Interface) -> InterfaceModel {
    InterfaceModel {
        version: (i.version.major, i.version.minor, i.version.patch),
        channel: match i.channel {
            Some(c) => Some((c.name@, c.contract_id, c.wire_revision)),
            None => None,
        },
        imports: i.imports.0@.map_values(|m: Import| import_model(m)),
        sections: SectionsModel {
            inputs: i.inputs.0@.map_values(|e: InputElement| input_model(e)),
            outputs: i.outputs.0@.map_values(|e: OutputElement| output_model(e)),
            refusals: i.refusals.0@.map_values(|e: RefusalElement| refusal_model(e)),
            streams: i.streams.0@.map_values(|e: StreamElement| stream_model(e)),
            types: i.types.0@.map_values(|t: TypeElement| type_model(t)),
        },
    }
}

// ===========================================================================
// Bare values and symbols
// ===========================================================================

pub open spec fn is_bare(b: Block) -> bool {
    b.shape == Shape::Bare && b.head is None
}

/// A bare value's text.
pub open spec fn bare_value(b: Block) -> Result<Seq<char>, InterfaceFault> {
    if is_bare(b) {
        Ok(b.body@)
    } else {
        Err(InterfaceFault::Shape)
    }
}

/// A bare value that is a symbol.
pub open spec fn bare_symbol(b: Block) -> Result<Seq<char>, InterfaceFault> {
    if !is_bare(b) {
        Err(InterfaceFault::Shape)
    } else if symbol_ok(b.body@) {
        Ok(b.body@)
    } else {
        Err(InterfaceFault::Symbol)
    }
}

/// A bare `Head.Symbol` value: exactly one dot, a symbol on each side.
pub open spec fn head_symbol(b: Block) -> Result<(Seq<char>, Seq<char>), InterfaceFault> {
    if !is_bare(b) {
        Err(InterfaceFault::Shape)
    } else if !occurs_once(b.body@, '.') {
        Err(InterfaceFault::Member)
    } else if symbol_ok(before_once(b.body@, '.')) && symbol_ok(after_once(b.body@, '.')) {
        Ok((before_once(b.body@, '.'), after_once(b.body@, '.')))
    } else {
        Err(InterfaceFault::Symbol)
    }
}

fn is_bare_block(b: &Block) -> (r: bool)
    ensures
        r == is_bare(*b),
{
    select_bare(b.shape, b.head.as_ref()).is_some()
}

/// Read a bare symbol.
pub fn read_bare_symbol(b: &Block) -> (r: Result<String, InterfaceFault>)
    ensures
        match bare_symbol(*b) {
            Ok(s) => r matches Ok(t) && t@ == s,
            Err(e) => r == Err::<String, InterfaceFault>(e),
        },
{
    if !is_bare_block(b) {
        return Err(InterfaceFault::Shape);
    }
    symbol(&b.body)
}

/// Read a bare `Head.Symbol` value.
pub fn read_head_symbol(b: &Block) -> (r: Result<(String, String), InterfaceFault>)
    ensures
        match head_symbol(*b) {
            Ok(p) => r matches Ok(t) && t.0@ == p.0 && t.1@ == p.1,
            Err(e) => r == Err::<(String, String), InterfaceFault>(e),
        },
{
    if !is_bare_block(b) {
        return Err(InterfaceFault::Shape);
    }
    let s = chars_of(b.body.as_str());
    let k = match single_index(&s, '.') {
        Some(k) => k,
        None => {
            return Err(InterfaceFault::Member);
        },
    };
    let head = text_of_range(&s, 0, k);
    let tail = text_of_range(&s, k + 1, s.len());
    let head = match symbol(&head) {
        Ok(h) => h,
        Err(e) => {
            return Err(e);
        },
    };
    let tail = match symbol(&tail) {
        Ok(t) => t,
        Err(e) => {
            return Err(e);
        },
    };
    Ok((head, tail))
}

// ===========================================================================
// Lists of elements
// ===========================================================================

pub open spec fn pairs_model(v: Seq<(String, String)>) -> Seq<(Seq<char>, Seq<char>)> {
    v.map_values(|p: (String, String)| (p.0@, p.1@))
}

/// The operations of a section's blocks, `Operation.Payload` each.
pub open spec fn operations_of(bs: Seq<Block>) -> Result<Seq<(Seq<char>, Seq<char>)>, InterfaceFault>
    decreases bs.len(),
{
    if bs.len() == 0 {
        Ok(Seq::empty())
    } else {
        match operations_of(bs.drop_last()) {
            Err(e) => Err(e),
            Ok(v) => match head_symbol(bs.last()) {
                Err(e) => Err(e),
                Ok(p) => Ok(v.push(p)),
            },
        }
    }
}

/// The bare symbols of a list's blocks.
pub open spec fn symbols_of(bs: Seq<Block>) -> Result<Seq<Seq<char>>, InterfaceFault>
    decreases bs.len(),
{
    if bs.len() == 0 {
        Ok(Seq::empty())
    } else {
        match symbols_of(bs.drop_last()) {
            Err(e) => Err(e),
            Ok(v) => match bare_symbol(bs.last()) {
                Err(e) => Err(e),
                Ok(p) => Ok(v.push(p)),
            },
        }
    }
}

/// Read the operations of a section's blocks.
fn read_operations(bs: &Vec<Block>) -> (r: Result<Vec<(String, String)>, InterfaceFault>)
    ensures
        match operations_of(bs@) {
            Ok(m) => r matches Ok(v) && pairs_model(v@) == m,
            Err(e) => r == Err::<Vec<(String, String)>, InterfaceFault>(e),
        },
{
    let mut out: Vec<(String, String)> = Vec::new();
    let mut i: usize = 0;
    proof {
        assert(pairs_model(out@) =~= Seq::empty());
    }
    while i < bs.len()
        invariant
            i <= bs@.len(),
            operations_of(bs@.take(i as int)) == Ok::<Seq<(Seq<char>, Seq<char>)>, InterfaceFault>(
                pairs_model(out@),
            ),
        decreases bs@.len() - i,
    {
        proof {
            assert(bs@.take(i + 1).drop_last() =~= bs@.take(i as int));
            assert(bs@.take(i + 1).last() == bs@[i as int]);
        }
        match read_head_symbol(&bs[i]) {
            Ok(p) => {
                let ghost before = out@;
                out.push(p);
                proof {
                    assert(pairs_model(out@) =~= pairs_model(before).push((p.0@, p.1@)));
                }
            },
            Err(e) => {
                proof {
                    lemma_operations_fault_stays(bs@, i as int + 1);
                }
                return Err(e);
            },
        }
        i += 1;
    }
    proof {
        assert(bs@.take(i as int) =~= bs@);
    }
    Ok(out)
}

/// A fault met among the first blocks is the answer for them all.
proof fn lemma_operations_fault_stays(bs: Seq<Block>, n: int)
    requires
        0 <= n <= bs.len(),
        operations_of(bs.take(n)) is Err,
    ensures
        operations_of(bs) == operations_of(bs.take(n)),
    decreases bs.len() - n,
{
    if n < bs.len() {
        assert(bs.take(n + 1).drop_last() =~= bs.take(n));
        lemma_operations_fault_stays(bs, n + 1);
    } else {
        assert(bs.take(n) =~= bs);
    }
}

/// A fault met among the first blocks is the answer for them all.
proof fn lemma_symbols_fault_stays(bs: Seq<Block>, n: int)
    requires
        0 <= n <= bs.len(),
        symbols_of(bs.take(n)) is Err,
    ensures
        symbols_of(bs) == symbols_of(bs.take(n)),
    decreases bs.len() - n,
{
    if n < bs.len() {
        assert(bs.take(n + 1).drop_last() =~= bs.take(n));
        lemma_symbols_fault_stays(bs, n + 1);
    } else {
        assert(bs.take(n) =~= bs);
    }
}

/// Read the bare symbols of a list's blocks.
fn read_symbols(bs: &Vec<Block>) -> (r: Result<Vec<String>, InterfaceFault>)
    ensures
        match symbols_of(bs@) {
            Ok(m) => r matches Ok(v) && texts_of(v@) == m,
            Err(e) => r == Err::<Vec<String>, InterfaceFault>(e),
        },
{
    let mut out: Vec<String> = Vec::new();
    let mut i: usize = 0;
    proof {
        assert(texts_of(out@) =~= Seq::empty());
    }
    while i < bs.len()
        invariant
            i <= bs@.len(),
            symbols_of(bs@.take(i as int)) == Ok::<Seq<Seq<char>>, InterfaceFault>(texts_of(out@)),
        decreases bs@.len() - i,
    {
        proof {
            assert(bs@.take(i + 1).drop_last() =~= bs@.take(i as int));
            assert(bs@.take(i + 1).last() == bs@[i as int]);
        }
        match read_bare_symbol(&bs[i]) {
            Ok(p) => {
                let ghost before = out@;
                out.push(p);
                proof {
                    assert(texts_of(out@) =~= texts_of(before).push(p@));
                }
            },
            Err(e) => {
                proof {
                    lemma_symbols_fault_stays(bs@, i as int + 1);
                }
                return Err(e);
            },
        }
        i += 1;
    }
    proof {
        assert(bs@.take(i as int) =~= bs@);
    }
    Ok(out)
}

// ===========================================================================
// Elements
// ===========================================================================

/// Whether `c` occurs in `s`.
pub open spec fn has_char(s: Seq<char>, c: char) -> bool {
    exists|k: int| 0 <= k < s.len() && s[k] == c
}

fn contains_char(s: &Vec<char>, c: char) -> (r: bool)
    ensures
        r == has_char(s@, c),
{
    let mut i: usize = 0;
    while i < s.len()
        invariant
            i <= s@.len(),
            forall|j: int| 0 <= j < i ==> s@[j] != c,
        decreases s@.len() - i,
    {
        if s[i] == c {
            return true;
        }
        i += 1;
    }
    false
}

/// An enum body element: `Variant.Payload` carries data, `Variant` does not.
pub open spec fn variant_of(b: Block) -> Result<VariantModel, InterfaceFault> {
    if !is_bare(b) {
        Err(InterfaceFault::Shape)
    } else if has_char(b.body@, '.') {
        match head_symbol(b) {
            Err(e) => Err(e),
            Ok(p) => Ok(VariantModel::Data(p.0, p.1)),
        }
    } else {
        match bare_symbol(b) {
            Err(e) => Err(e),
            Ok(s) => Ok(VariantModel::Unit(s)),
        }
    }
}

/// Read an enum body element.
pub fn read_variant(b: &Block) -> (r: Result<EnumVariantElement, InterfaceFault>)
    ensures
        match variant_of(*b) {
            Ok(m) => r matches Ok(v) && variant_model(v) == m,
            Err(e) => r == Err::<EnumVariantElement, InterfaceFault>(e),
        },
{
    if !is_bare_block(b) {
        return Err(InterfaceFault::Shape);
    }
    let s = chars_of(b.body.as_str());
    if contains_char(&s, '.') {
        match read_head_symbol(b) {
            Ok((variant, payload)) => Ok(EnumVariantElement::Data { variant, payload }),
            Err(e) => Err(e),
        }
    } else {
        match read_bare_symbol(b) {
            Ok(variant) => Ok(EnumVariantElement::Unit { variant }),
            Err(e) => Err(e),
        }
    }
}

/// One bare number of a version header.
pub open spec fn version_number(b: Block) -> Result<u16, InterfaceFault> {
    if !is_bare(b) {
        Err(InterfaceFault::Shape)
    } else {
        match unsigned_value(b.body@, 65535) {
            None => Err(InterfaceFault::Version),
            Some(v) => Ok(v as u16),
        }
    }
}

fn read_version_number(b: &Block) -> (r: Result<u16, InterfaceFault>)
    ensures
        r == version_number(*b),
{
    if !is_bare_block(b) {
        return Err(InterfaceFault::Shape);
    }
    match parse_unsigned(&b.body, 65535) {
        None => Err(InterfaceFault::Version),
        Some(v) => Ok(v as u16),
    }
}

/// One bare value.
fn read_bare_value(b: &Block) -> (r: Result<String, InterfaceFault>)
    ensures
        match bare_value(*b) {
            Ok(s) => r matches Ok(t) && t@ == s,
            Err(e) => r == Err::<String, InterfaceFault>(e),
        },
{
    if !is_bare_block(b) {
        return Err(InterfaceFault::Shape);
    }
    Ok(copy_text(&b.body))
}

pub open spec fn variants_of(bs: Seq<Block>) -> Result<Seq<VariantModel>, InterfaceFault>
    decreases bs.len(),
{
    if bs.len() == 0 {
        Ok(Seq::empty())
    } else {
        match variants_of(bs.drop_last()) {
            Err(e) => Err(e),
            Ok(v) => match variant_of(bs.last()) {
                Err(e) => Err(e),
                Ok(p) => Ok(v.push(p)),
            },
        }
    }
}

proof fn lemma_variants_of_fault_stays(bs: Seq<Block>, n: int)
    requires
        0 <= n <= bs.len(),
        variants_of(bs.take(n)) is Err,
    ensures
        variants_of(bs) == variants_of(bs.take(n)),
    decreases bs.len() - n,
{
    if n < bs.len() {
        assert(bs.take(n + 1).drop_last() =~= bs.take(n));
        lemma_variants_of_fault_stays(bs, n + 1);
    } else {
        assert(bs.take(n) =~= bs);
    }
}

fn read_variants(bs: &Vec<Block>) -> (r: Result<Vec<EnumVariantElement>, InterfaceFault>)
    ensures
        match variants_of(bs@) {
            Ok(m) => r matches Ok(v) && v@.map_values(|x: EnumVariantElement| variant_model(x)) == m,
            Err(e) => r == Err::<Vec<EnumVariantElement>, InterfaceFault>(e),
        },
{
    let mut out: Vec<EnumVariantElement> = Vec::new();
    let mut i: usize = 0;
    proof {
        assert(out@.map_values(|x: EnumVariantElement| variant_model(x)) =~= Seq::empty());
    }
    while i < bs.len()
        invariant
            i <= bs@.len(),
            variants_of(bs@.take(i as int)) == Ok::<Seq<VariantModel>, InterfaceFault>(out@.map_values(|x: EnumVariantElement| variant_model(x))),
        decreases bs@.len() - i,
    {
        proof {
            assert(bs@.take(i + 1).drop_last() =~= bs@.take(i as int));
            assert(bs@.take(i + 1).last() == bs@[i as int]);
        }
        match read_variant(&bs[i]) {
            Ok(p) => {
                let ghost before = out@;
                out.push(p);
                proof {
                    assert(out@.map_values(|x: EnumVariantElement| variant_model(x)) =~= before.map_values(|x: EnumVariantElement| variant_model(x)).push(variant_model(p)));
                }
            },
            Err(e) => {
                proof {
                    lemma_variants_of_fault_stays(bs@, i as int + 1);
                }
                return Err(e);
            },
        }
        i += 1;
    }
    proof {
        assert(bs@.take(i as int) =~= bs@);
    }
    Ok(out)
}

pub open spec fn version_numbers(bs: Seq<Block>) -> Result<Seq<u16>, InterfaceFault>
    decreases bs.len(),
{
    if bs.len() == 0 {
        Ok(Seq::empty())
    } else {
        match version_numbers(bs.drop_last()) {
            Err(e) => Err(e),
            Ok(v) => match version_number(bs.last()) {
                Err(e) => Err(e),
                Ok(p) => Ok(v.push(p)),
            },
        }
    }
}

proof fn lemma_version_numbers_fault_stays(bs: Seq<Block>, n: int)
    requires
        0 <= n <= bs.len(),
        version_numbers(bs.take(n)) is Err,
    ensures
        version_numbers(bs) == version_numbers(bs.take(n)),
    decreases bs.len() - n,
{
    if n < bs.len() {
        assert(bs.take(n + 1).drop_last() =~= bs.take(n));
        lemma_version_numbers_fault_stays(bs, n + 1);
    } else {
        assert(bs.take(n) =~= bs);
    }
}

fn read_version_numbers(bs: &Vec<Block>) -> (r: Result<Vec<u16>, InterfaceFault>)
    ensures
        match version_numbers(bs@) {
            Ok(m) => r matches Ok(v) && v@ == m,
            Err(e) => r == Err::<Vec<u16>, InterfaceFault>(e),
        },
{
    let mut out: Vec<u16> = Vec::new();
    let mut i: usize = 0;
    proof {
        assert(out@ =~= Seq::empty());
    }
    while i < bs.len()
        invariant
            i <= bs@.len(),
            version_numbers(bs@.take(i as int)) == Ok::<Seq<u16>, InterfaceFault>(out@),
        decreases bs@.len() - i,
    {
        proof {
            assert(bs@.take(i + 1).drop_last() =~= bs@.take(i as int));
            assert(bs@.take(i + 1).last() == bs@[i as int]);
        }
        match read_version_number(&bs[i]) {
            Ok(p) => {
                let ghost before = out@;
                out.push(p);
                proof {
                    assert(out@ =~= before.push(p));
                }
            },
            Err(e) => {
                proof {
                    lemma_version_numbers_fault_stays(bs@, i as int + 1);
                }
                return Err(e);
            },
        }
        i += 1;
    }
    proof {
        assert(bs@.take(i as int) =~= bs@);
    }
    Ok(out)
}

pub open spec fn values_of(bs: Seq<Block>) -> Result<Seq<Seq<char>>, InterfaceFault>
    decreases bs.len(),
{
    if bs.len() == 0 {
        Ok(Seq::empty())
    } else {
        match values_of(bs.drop_last()) {
            Err(e) => Err(e),
            Ok(v) => match bare_value(bs.last()) {
                Err(e) => Err(e),
                Ok(p) => Ok(v.push(p)),
            },
        }
    }
}

proof fn lemma_values_of_fault_stays(bs: Seq<Block>, n: int)
    requires
        0 <= n <= bs.len(),
        values_of(bs.take(n)) is Err,
    ensures
        values_of(bs) == values_of(bs.take(n)),
    decreases bs.len() - n,
{
    if n < bs.len() {
        assert(bs.take(n + 1).drop_last() =~= bs.take(n));
        lemma_values_of_fault_stays(bs, n + 1);
    } else {
        assert(bs.take(n) =~= bs);
    }
}

fn read_values(bs: &Vec<Block>) -> (r: Result<Vec<String>, InterfaceFault>)
    ensures
        match values_of(bs@) {
            Ok(m) => r matches Ok(v) && texts_of(v@) == m,
            Err(e) => r == Err::<Vec<String>, InterfaceFault>(e),
        },
{
    let mut out: Vec<String> = Vec::new();
    let mut i: usize = 0;
    proof {
        assert(texts_of(out@) =~= Seq::empty());
    }
    while i < bs.len()
        invariant
            i <= bs@.len(),
            values_of(bs@.take(i as int)) == Ok::<Seq<Seq<char>>, InterfaceFault>(texts_of(out@)),
        decreases bs@.len() - i,
    {
        proof {
            assert(bs@.take(i + 1).drop_last() =~= bs@.take(i as int));
            assert(bs@.take(i + 1).last() == bs@[i as int]);
        }
        match read_bare_value(&bs[i]) {
            Ok(p) => {
                let ghost before = out@;
                out.push(p);
                proof {
                    assert(texts_of(out@) =~= texts_of(before).push(p@));
                }
            },
            Err(e) => {
                proof {
                    lemma_values_of_fault_stays(bs@, i as int + 1);
                }
                return Err(e);
            },
        }
        i += 1;
    }
    proof {
        assert(bs@.take(i as int) =~= bs@);
    }
    Ok(out)
}

// ===========================================================================
// Type declarations and imports
// ===========================================================================

/// The head of a block, where it has one.
pub open spec fn head_text(b: Block) -> Seq<char> {
    match b.head {
        Some(h) => h@,
        None => Seq::empty(),
    }
}

/// A Types-section block: `Name.Target` is a typedef, `Name.{ fields }` a
/// struct, `Name.[ variants ]` an enum.
pub open spec fn type_of(b: Block) -> Result<TypeModel, InterfaceFault> {
    match type_selection(b.shape, b.head is Some) {
        None => Err(InterfaceFault::Shape),
        Some(TypeSelection::Typedef) => if !occurs_once(b.body@, '.') {
            Err(InterfaceFault::Member)
        } else if !symbol_ok(before_once(b.body@, '.')) {
            Err(InterfaceFault::Symbol)
        } else {
            match type_reference_check(after_once(b.body@, '.')) {
                Err(e) => Err(e),
                Ok(_) => Ok(TypeModel::Typedef(before_once(b.body@, '.'), after_once(b.body@, '.'))),
            }
        },
        Some(TypeSelection::Struct) => if !symbol_ok(head_text(b)) {
            Err(InterfaceFault::Symbol)
        } else {
            match symbols_of(b.children@) {
                Err(e) => Err(e),
                Ok(fields) => Ok(TypeModel::Struct(head_text(b), fields)),
            }
        },
        Some(TypeSelection::Enum) => if !symbol_ok(head_text(b)) {
            Err(InterfaceFault::Symbol)
        } else {
            match variants_of(b.children@) {
                Err(e) => Err(e),
                Ok(variants) => Ok(TypeModel::Enum(head_text(b), variants)),
            }
        },
    }
}

/// Read a Types-section block.
pub fn read_type(b: &Block) -> (r: Result<TypeElement, InterfaceFault>)
    ensures
        match type_of(*b) {
            Ok(m) => r matches Ok(t) && type_model(t) == m,
            Err(e) => r == Err::<TypeElement, InterfaceFault>(e),
        },
{
    match TypeElement::select(b.shape, b.head.as_ref()) {
        None => Err(InterfaceFault::Shape),
        Some(TypeSelection::Typedef) => {
            let s = chars_of(b.body.as_str());
            let k = match single_index(&s, '.') {
                Some(k) => k,
                None => {
                    return Err(InterfaceFault::Member);
                },
            };
            let name = text_of_range(&s, 0, k);
            let target = text_of_range(&s, k + 1, s.len());
            let name = match symbol(&name) {
                Ok(n) => n,
                Err(e) => {
                    return Err(e);
                },
            };
            let target = match type_reference(&target) {
                Ok(t) => t,
                Err(e) => {
                    return Err(e);
                },
            };
            Ok(TypeElement::Typedef(NamedTypedef { name, target }))
        },
        Some(TypeSelection::Struct) => {
            let head = match &b.head {
                Some(h) => h,
                None => {
                    return Err(InterfaceFault::Head);
                },
            };
            let name = match symbol(head) {
                Ok(n) => n,
                Err(e) => {
                    return Err(e);
                },
            };
            match read_symbols(&b.children) {
                Ok(fields) => Ok(TypeElement::Struct(NamedStruct { name, fields })),
                Err(e) => Err(e),
            }
        },
        Some(TypeSelection::Enum) => {
            let head = match &b.head {
                Some(h) => h,
                None => {
                    return Err(InterfaceFault::Head);
                },
            };
            let name = match symbol(head) {
                Ok(n) => n,
                Err(e) => {
                    return Err(e);
                },
            };
            match read_variants(&b.children) {
                Ok(variants) => Ok(TypeElement::Enum(NamedEnum { name, variants })),
                Err(e) => Err(e),
            }
        },
    }
}

/// An import: `path.[ Symbol … ]`.
pub open spec fn import_of(b: Block) -> Result<(Seq<char>, Seq<Seq<char>>), InterfaceFault> {
    if !(b.shape == Shape::DottedSquareBracketed && b.head is Some) {
        Err(InterfaceFault::Shape)
    } else {
        match symbols_of(b.children@) {
            Err(e) => Err(e),
            Ok(symbols) => Ok((head_text(b), symbols)),
        }
    }
}

/// Read an import.
pub fn read_import(b: &Block) -> (r: Result<Import, InterfaceFault>)
    ensures
        match import_of(*b) {
            Ok(m) => r matches Ok(i) && import_model(i) == m,
            Err(e) => r == Err::<Import, InterfaceFault>(e),
        },
{
    if Import::select(b.shape, b.head.as_ref()).is_none() {
        return Err(InterfaceFault::Shape);
    }
    let path = match &b.head {
        Some(h) => copy_text(h),
        None => {
            return Err(InterfaceFault::Head);
        },
    };
    match read_symbols(&b.children) {
        Ok(symbols) => Ok(Import { path, symbols }),
        Err(e) => Err(e),
    }
}

pub open spec fn types_of(bs: Seq<Block>) -> Result<Seq<TypeModel>, InterfaceFault>
    decreases bs.len(),
{
    if bs.len() == 0 {
        Ok(Seq::empty())
    } else {
        match types_of(bs.drop_last()) {
            Err(e) => Err(e),
            Ok(v) => match type_of(bs.last()) {
                Err(e) => Err(e),
                Ok(p) => Ok(v.push(p)),
            },
        }
    }
}

proof fn lemma_types_of_fault_stays(bs: Seq<Block>, n: int)
    requires
        0 <= n <= bs.len(),
        types_of(bs.take(n)) is Err,
    ensures
        types_of(bs) == types_of(bs.take(n)),
    decreases bs.len() - n,
{
    if n < bs.len() {
        assert(bs.take(n + 1).drop_last() =~= bs.take(n));
        lemma_types_of_fault_stays(bs, n + 1);
    } else {
        assert(bs.take(n) =~= bs);
    }
}

fn read_types(bs: &Vec<Block>) -> (r: Result<Vec<TypeElement>, InterfaceFault>)
    ensures
        match types_of(bs@) {
            Ok(m) => r matches Ok(v) && v@.map_values(|x: TypeElement| type_model(x)) == m,
            Err(e) => r == Err::<Vec<TypeElement>, InterfaceFault>(e),
        },
{
    let mut out: Vec<TypeElement> = Vec::new();
    let mut i: usize = 0;
    proof {
        assert(out@.map_values(|x: TypeElement| type_model(x)) =~= Seq::empty());
    }
    while i < bs.len()
        invariant
            i <= bs@.len(),
            types_of(bs@.take(i as int)) == Ok::<Seq<TypeModel>, InterfaceFault>(out@.map_values(|x: TypeElement| type_model(x))),
        decreases bs@.len() - i,
    {
        proof {
            assert(bs@.take(i + 1).drop_last() =~= bs@.take(i as int));
            assert(bs@.take(i + 1).last() == bs@[i as int]);
        }
        match read_type(&bs[i]) {
            Ok(p) => {
                let ghost before = out@;
                out.push(p);
                proof {
                    assert(out@.map_values(|x: TypeElement| type_model(x)) =~= before.map_values(|x: TypeElement| type_model(x)).push(type_model(p)));
                }
            },
            Err(e) => {
                proof {
                    lemma_types_of_fault_stays(bs@, i as int + 1);
                }
                return Err(e);
            },
        }
        i += 1;
    }
    proof {
        assert(bs@.take(i as int) =~= bs@);
    }
    Ok(out)
}

pub open spec fn imports_of(bs: Seq<Block>) -> Result<Seq<(Seq<char>, Seq<Seq<char>>)>, InterfaceFault>
    decreases bs.len(),
{
    if bs.len() == 0 {
        Ok(Seq::empty())
    } else {
        match imports_of(bs.drop_last()) {
            Err(e) => Err(e),
            Ok(v) => match import_of(bs.last()) {
                Err(e) => Err(e),
                Ok(p) => Ok(v.push(p)),
            },
        }
    }
}

proof fn lemma_imports_of_fault_stays(bs: Seq<Block>, n: int)
    requires
        0 <= n <= bs.len(),
        imports_of(bs.take(n)) is Err,
    ensures
        imports_of(bs) == imports_of(bs.take(n)),
    decreases bs.len() - n,
{
    if n < bs.len() {
        assert(bs.take(n + 1).drop_last() =~= bs.take(n));
        lemma_imports_of_fault_stays(bs, n + 1);
    } else {
        assert(bs.take(n) =~= bs);
    }
}

fn read_imports(bs: &Vec<Block>) -> (r: Result<Vec<Import>, InterfaceFault>)
    ensures
        match imports_of(bs@) {
            Ok(m) => r matches Ok(v) && v@.map_values(|x: Import| import_model(x)) == m,
            Err(e) => r == Err::<Vec<Import>, InterfaceFault>(e),
        },
{
    let mut out: Vec<Import> = Vec::new();
    let mut i: usize = 0;
    proof {
        assert(out@.map_values(|x: Import| import_model(x)) =~= Seq::empty());
    }
    while i < bs.len()
        invariant
            i <= bs@.len(),
            imports_of(bs@.take(i as int)) == Ok::<Seq<(Seq<char>, Seq<Seq<char>>)>, InterfaceFault>(out@.map_values(|x: Import| import_model(x))),
        decreases bs@.len() - i,
    {
        proof {
            assert(bs@.take(i + 1).drop_last() =~= bs@.take(i as int));
            assert(bs@.take(i + 1).last() == bs@[i as int]);
        }
        match read_import(&bs[i]) {
            Ok(p) => {
                let ghost before = out@;
                out.push(p);
                proof {
                    assert(out@.map_values(|x: Import| import_model(x)) =~= before.map_values(|x: Import| import_model(x)).push(import_model(p)));
                }
            },
            Err(e) => {
                proof {
                    lemma_imports_of_fault_stays(bs@, i as int + 1);
                }
                return Err(e);
            },
        }
        i += 1;
    }
    proof {
        assert(bs@.take(i as int) =~= bs@);
    }
    Ok(out)
}


/// Inputs from the pairs read for them.
fn inputs_from(pairs: &Vec<(String, String)>) -> (r: Inputs)
    ensures
        r.0@.map_values(|e: InputElement| input_model(e)) == pairs_model(pairs@),
{
    let mut out: Vec<InputElement> = Vec::new();
    let mut i: usize = 0;
    while i < pairs.len()
        invariant
            i <= pairs@.len(),
            out@.map_values(|e: InputElement| input_model(e)) == pairs_model(pairs@.take(i as int)),
        decreases pairs@.len() - i,
    {
        let ghost before = out@;
        out.push(InputElement { operation: copy_text(&pairs[i].0), payload: copy_text(&pairs[i].1) });
        proof {
            assert(pairs@.take(i + 1) =~= pairs@.take(i as int).push(pairs@[i as int]));
            assert(out@.map_values(|e: InputElement| input_model(e)) =~= before.map_values(
                |e: InputElement| input_model(e),
            ).push((pairs@[i as int].0@, pairs@[i as int].1@)));
            assert(pairs_model(pairs@.take(i + 1)) =~= pairs_model(pairs@.take(i as int)).push(
                (pairs@[i as int].0@, pairs@[i as int].1@),
            ));
        }
        i += 1;
    }
    proof {
        assert(pairs@.take(i as int) =~= pairs@);
    }
    Inputs(out)
}

/// Outputs from the pairs read for them.
fn outputs_from(pairs: &Vec<(String, String)>) -> (r: Outputs)
    ensures
        r.0@.map_values(|e: OutputElement| output_model(e)) == pairs_model(pairs@),
{
    let mut out: Vec<OutputElement> = Vec::new();
    let mut i: usize = 0;
    while i < pairs.len()
        invariant
            i <= pairs@.len(),
            out@.map_values(|e: OutputElement| output_model(e)) == pairs_model(pairs@.take(i as int)),
        decreases pairs@.len() - i,
    {
        let ghost before = out@;
        out.push(OutputElement { operation: copy_text(&pairs[i].0), payload: copy_text(&pairs[i].1) });
        proof {
            assert(pairs@.take(i + 1) =~= pairs@.take(i as int).push(pairs@[i as int]));
            assert(out@.map_values(|e: OutputElement| output_model(e)) =~= before.map_values(
                |e: OutputElement| output_model(e),
            ).push((pairs@[i as int].0@, pairs@[i as int].1@)));
            assert(pairs_model(pairs@.take(i + 1)) =~= pairs_model(pairs@.take(i as int)).push(
                (pairs@[i as int].0@, pairs@[i as int].1@),
            ));
        }
        i += 1;
    }
    proof {
        assert(pairs@.take(i as int) =~= pairs@);
    }
    Outputs(out)
}

/// Refusals from the pairs read for them.
fn refusals_from(pairs: &Vec<(String, String)>) -> (r: Refusals)
    ensures
        r.0@.map_values(|e: RefusalElement| refusal_model(e)) == pairs_model(pairs@),
{
    let mut out: Vec<RefusalElement> = Vec::new();
    let mut i: usize = 0;
    while i < pairs.len()
        invariant
            i <= pairs@.len(),
            out@.map_values(|e: RefusalElement| refusal_model(e)) == pairs_model(pairs@.take(i as int)),
        decreases pairs@.len() - i,
    {
        let ghost before = out@;
        out.push(RefusalElement { operation: copy_text(&pairs[i].0), payload: copy_text(&pairs[i].1) });
        proof {
            assert(pairs@.take(i + 1) =~= pairs@.take(i as int).push(pairs@[i as int]));
            assert(out@.map_values(|e: RefusalElement| refusal_model(e)) =~= before.map_values(
                |e: RefusalElement| refusal_model(e),
            ).push((pairs@[i as int].0@, pairs@[i as int].1@)));
            assert(pairs_model(pairs@.take(i + 1)) =~= pairs_model(pairs@.take(i as int)).push(
                (pairs@[i as int].0@, pairs@[i as int].1@),
            ));
        }
        i += 1;
    }
    proof {
        assert(pairs@.take(i as int) =~= pairs@);
    }
    Refusals(out)
}

/// Streams from the pairs read for them.
fn streams_from(pairs: &Vec<(String, String)>) -> (r: Streams)
    ensures
        r.0@.map_values(|e: StreamElement| stream_model(e)) == pairs_model(pairs@),
{
    let mut out: Vec<StreamElement> = Vec::new();
    let mut i: usize = 0;
    while i < pairs.len()
        invariant
            i <= pairs@.len(),
            out@.map_values(|e: StreamElement| stream_model(e)) == pairs_model(pairs@.take(i as int)),
        decreases pairs@.len() - i,
    {
        let ghost before = out@;
        out.push(StreamElement { operation: copy_text(&pairs[i].0), payload: copy_text(&pairs[i].1) });
        proof {
            assert(pairs@.take(i + 1) =~= pairs@.take(i as int).push(pairs@[i as int]));
            assert(out@.map_values(|e: StreamElement| stream_model(e)) =~= before.map_values(
                |e: StreamElement| stream_model(e),
            ).push((pairs@[i as int].0@, pairs@[i as int].1@)));
            assert(pairs_model(pairs@.take(i + 1)) =~= pairs_model(pairs@.take(i as int)).push(
                (pairs@[i as int].0@, pairs@[i as int].1@),
            ));
        }
        i += 1;
    }
    proof {
        assert(pairs@.take(i as int) =~= pairs@);
    }
    Streams(out)
}

// ===========================================================================
// The header, the channel, and the sections
// ===========================================================================

/// The block is `name.{ … }`.
pub open spec fn dotted_braced(b: Block, name: Seq<char>) -> bool {
    b.shape == Shape::DottedBraced && b.head is Some && head_text(b) == name
}

/// The version header: `Interface.{major minor patch}`.
pub open spec fn header_of(b: Block) -> Result<(u16, u16, u16), InterfaceFault> {
    if !dotted_braced(b, "Interface"@) {
        Err(InterfaceFault::Shape)
    } else {
        match version_numbers(b.children@) {
            Err(e) => Err(e),
            Ok(vs) => if vs.len() < 3 {
                Err(InterfaceFault::MissingPosition)
            } else if vs.len() > 3 {
                Err(InterfaceFault::ExtraPosition)
            } else {
                Ok((vs[0], vs[1], vs[2]))
            },
        }
    }
}

/// Read the version header.
pub fn read_header(b: &Block) -> (r: Result<Version, InterfaceFault>)
    ensures
        match header_of(*b) {
            Ok(v) => r matches Ok(x) && (x.major, x.minor, x.patch) == v,
            Err(e) => r == Err::<Version, InterfaceFault>(e),
        },
{
    if Interface::select(b.shape, b.head.as_ref()).is_none() {
        return Err(InterfaceFault::Shape);
    }
    let values = match read_version_numbers(&b.children) {
        Ok(v) => v,
        Err(e) => {
            return Err(e);
        },
    };
    if values.len() != 3 {
        return Err(
            if values.len() < 3 {
                InterfaceFault::MissingPosition
            } else {
                InterfaceFault::ExtraPosition
            },
        );
    }
    Ok(Version { major: values[0], minor: values[1], patch: values[2] })
}

/// The channel binding: `Channel.{Name contract_id wire_revision}`, both
/// numbers nonzero.
pub open spec fn channel_of(b: Block) -> Result<(Seq<char>, u32, u16), InterfaceFault> {
    if !dotted_braced(b, "Channel"@) {
        Err(InterfaceFault::Shape)
    } else {
        match values_of(b.children@) {
            Err(e) => Err(e),
            Ok(vs) => if vs.len() < 3 {
                Err(InterfaceFault::MissingPosition)
            } else if vs.len() > 3 {
                Err(InterfaceFault::ExtraPosition)
            } else if !symbol_ok(vs[0]) {
                Err(InterfaceFault::Symbol)
            } else {
                match (unsigned_value(vs[1], 4294967295), unsigned_value(vs[2], 65535)) {
                    (Some(c), Some(w)) => if c == 0 || w == 0 {
                        Err(InterfaceFault::Binding)
                    } else {
                        Ok((vs[0], c as u32, w as u16))
                    },
                    _ => Err(InterfaceFault::Binding),
                }
            },
        }
    }
}

/// Read the channel binding.
pub fn read_channel(b: &Block) -> (r: Result<Channel, InterfaceFault>)
    ensures
        match channel_of(*b) {
            Ok(c) => r matches Ok(x) && (x.name@, x.contract_id, x.wire_revision) == c,
            Err(e) => r == Err::<Channel, InterfaceFault>(e),
        },
{
    if Channel::select(b.shape, b.head.as_ref()).is_none() {
        return Err(InterfaceFault::Shape);
    }
    let values = match read_values(&b.children) {
        Ok(v) => v,
        Err(e) => {
            return Err(e);
        },
    };
    if values.len() != 3 {
        return Err(
            if values.len() < 3 {
                InterfaceFault::MissingPosition
            } else {
                InterfaceFault::ExtraPosition
            },
        );
    }
    proof {
        assert(texts_of(values@)[0] == values@[0]@);
        assert(texts_of(values@)[1] == values@[1]@);
        assert(texts_of(values@)[2] == values@[2]@);
    }
    let name = match symbol(&values[0]) {
        Ok(n) => n,
        Err(e) => {
            return Err(e);
        },
    };
    let contract_id = match parse_unsigned(&values[1], 4294967295) {
        Some(v) => v,
        None => {
            return Err(InterfaceFault::Binding);
        },
    };
    let wire_revision = match parse_unsigned(&values[2], 65535) {
        Some(v) => v as u16,
        None => {
            return Err(InterfaceFault::Binding);
        },
    };
    if contract_id == 0 || wire_revision == 0 {
        return Err(InterfaceFault::Binding);
    }
    Ok(Channel { name, contract_id, wire_revision })
}

pub open spec fn is_section(b: Block) -> bool {
    b.shape == Shape::SquareBracketed && b.head is None
}

/// An operations section: `[ Operation.Payload … ]`.
pub open spec fn operations_section(b: Block) -> Result<Seq<(Seq<char>, Seq<char>)>, InterfaceFault> {
    if !is_section(b) {
        Err(InterfaceFault::Shape)
    } else {
        operations_of(b.children@)
    }
}

/// The Types section: `[ declaration … ]`.
pub open spec fn types_section(b: Block) -> Result<Seq<TypeModel>, InterfaceFault> {
    if !is_section(b) {
        Err(InterfaceFault::Shape)
    } else {
        types_of(b.children@)
    }
}

/// The import section: `[ import … ]`.
pub open spec fn imports_section(b: Block) -> Result<Seq<(Seq<char>, Seq<Seq<char>>)>, InterfaceFault> {
    if !is_section(b) {
        Err(InterfaceFault::Shape)
    } else {
        imports_of(b.children@)
    }
}

fn read_operations_section(b: &Block) -> (r: Result<Vec<(String, String)>, InterfaceFault>)
    ensures
        match operations_section(*b) {
            Ok(m) => r matches Ok(v) && pairs_model(v@) == m,
            Err(e) => r == Err::<Vec<(String, String)>, InterfaceFault>(e),
        },
{
    if select_section(b.shape, b.head.as_ref()).is_none() {
        return Err(InterfaceFault::Shape);
    }
    read_operations(&b.children)
}

fn read_types_section(b: &Block) -> (r: Result<Types, InterfaceFault>)
    ensures
        match types_section(*b) {
            Ok(m) => r matches Ok(t) && t.0@.map_values(|x: TypeElement| type_model(x)) == m,
            Err(e) => r == Err::<Types, InterfaceFault>(e),
        },
{
    if select_section(b.shape, b.head.as_ref()).is_none() {
        return Err(InterfaceFault::Shape);
    }
    match read_types(&b.children) {
        Ok(v) => Ok(Types(v)),
        Err(e) => Err(e),
    }
}

/// Read the import section.
pub fn read_imports_section(b: &Block) -> (r: Result<Imports, InterfaceFault>)
    ensures
        match imports_section(*b) {
            Ok(m) => r matches Ok(t) && t.0@.map_values(|x: Import| import_model(x)) == m,
            Err(e) => r == Err::<Imports, InterfaceFault>(e),
        },
{
    if select_section(b.shape, b.head.as_ref()).is_none() {
        return Err(InterfaceFault::Shape);
    }
    match read_imports(&b.children) {
        Ok(v) => Ok(Imports(v)),
        Err(e) => Err(e),
    }
}


// ===========================================================================
// The five sections
// ===========================================================================

/// What reading child `i` of the sections block answers: the first four
/// are operation sections, the fifth the Types section, and no more may
/// follow.
pub open spec fn section_at(b: Block, i: int) -> Result<(), InterfaceFault> {
    if i >= 5 {
        Err(InterfaceFault::ExtraPosition)
    } else if i == 4 {
        match types_section(b) {
            Err(e) => Err(e),
            Ok(_) => Ok(()),
        }
    } else {
        match operations_section(b) {
            Err(e) => Err(e),
            Ok(_) => Ok(()),
        }
    }
}

/// The first fault among the first `n` children of the sections block.
pub open spec fn sections_fault(bs: Seq<Block>, n: int) -> Result<(), InterfaceFault>
    decreases n,
{
    if n <= 0 {
        Ok(())
    } else {
        match sections_fault(bs, n - 1) {
            Err(e) => Err(e),
            Ok(_) => section_at(bs[n - 1], n - 1),
        }
    }
}

/// The braced five sections: inputs, outputs, refusals, streams, types.
pub open spec fn sections_of(b: Block) -> Result<SectionsModel, InterfaceFault> {
    if !(b.shape == Shape::Braced && b.head is None) {
        Err(InterfaceFault::Shape)
    } else {
        let bs = b.children@;
        match sections_fault(bs, bs.len() as int) {
            Err(e) => Err(e),
            Ok(_) => if bs.len() != 5 {
                Err(InterfaceFault::MissingPosition)
            } else {
                Ok(
                    SectionsModel {
                        inputs: operations_section(bs[0])->Ok_0,
                        outputs: operations_section(bs[1])->Ok_0,
                        refusals: operations_section(bs[2])->Ok_0,
                        streams: operations_section(bs[3])->Ok_0,
                        types: types_section(bs[4])->Ok_0,
                    },
                )
            },
        }
    }
}

proof fn lemma_sections_fault_stays(bs: Seq<Block>, k: int, n: int)
    requires
        0 <= k <= n,
        sections_fault(bs, k) is Err,
    ensures
        sections_fault(bs, n) == sections_fault(bs, k),
    decreases n - k,
{
    if k < n {
        lemma_sections_fault_stays(bs, k, n - 1);
    }
}

/// The five sections as read.
pub struct Sections {
    pub inputs: Inputs,
    pub outputs: Outputs,
    pub refusals: Refusals,
    pub streams: Streams,
    pub types: Types,
}

pub open spec fn sections_model(s: Sections) -> SectionsModel {
    SectionsModel {
        inputs: s.inputs.0@.map_values(|e: InputElement| input_model(e)),
        outputs: s.outputs.0@.map_values(|e: OutputElement| output_model(e)),
        refusals: s.refusals.0@.map_values(|e: RefusalElement| refusal_model(e)),
        streams: s.streams.0@.map_values(|e: StreamElement| stream_model(e)),
        types: s.types.0@.map_values(|t: TypeElement| type_model(t)),
    }
}

/// Read the braced five sections.
pub fn read_sections(b: &Block) -> (r: Result<Sections, InterfaceFault>)
    ensures
        match sections_of(*b) {
            Ok(m) => r matches Ok(s) && sections_model(s) == m,
            Err(e) => r == Err::<Sections, InterfaceFault>(e),
        },
{
    if select_sections(b.shape, b.head.as_ref()).is_none() {
        return Err(InterfaceFault::Shape);
    }
    let cs = &b.children;
    let ghost bs = cs@;
    let n = cs.len();
    proof {
        reveal_with_fuel(sections_fault, 6);
    }
    if n == 0 {
        return Err(InterfaceFault::MissingPosition);
    }
    let inputs = match read_operations_section(&cs[0]) {
        Ok(v) => inputs_from(&v),
        Err(e) => {
            proof {
                lemma_sections_fault_stays(bs, 1, n as int);
            }
            return Err(e);
        },
    };
    if n == 1 {
        return Err(InterfaceFault::MissingPosition);
    }
    let outputs = match read_operations_section(&cs[1]) {
        Ok(v) => outputs_from(&v),
        Err(e) => {
            proof {
                lemma_sections_fault_stays(bs, 2, n as int);
            }
            return Err(e);
        },
    };
    if n == 2 {
        return Err(InterfaceFault::MissingPosition);
    }
    let refusals = match read_operations_section(&cs[2]) {
        Ok(v) => refusals_from(&v),
        Err(e) => {
            proof {
                lemma_sections_fault_stays(bs, 3, n as int);
            }
            return Err(e);
        },
    };
    if n == 3 {
        return Err(InterfaceFault::MissingPosition);
    }
    let streams = match read_operations_section(&cs[3]) {
        Ok(v) => streams_from(&v),
        Err(e) => {
            proof {
                lemma_sections_fault_stays(bs, 4, n as int);
            }
            return Err(e);
        },
    };
    if n == 4 {
        return Err(InterfaceFault::MissingPosition);
    }
    let types = match read_types_section(&cs[4]) {
        Ok(t) => t,
        Err(e) => {
            proof {
                lemma_sections_fault_stays(bs, 5, n as int);
            }
            return Err(e);
        },
    };
    if n > 5 {
        proof {
            lemma_sections_fault_stays(bs, 6, n as int);
        }
        return Err(InterfaceFault::ExtraPosition);
    }
    Ok(Sections { inputs, outputs, refusals, streams, types })
}


// ===========================================================================
// The root blocks
// ===========================================================================

/// What the root blocks read so far have given.
pub struct RootModel {
    pub version: Option<(u16, u16, u16)>,
    pub channel: Option<(Seq<char>, u32, u16)>,
    pub imports: Option<Seq<(Seq<char>, Seq<Seq<char>>)>>,
    pub sections: Option<SectionsModel>,
}

pub open spec fn empty_root() -> RootModel {
    RootModel { version: None, channel: None, imports: None, sections: None }
}

/// One root block read in turn: the header first; then a channel binding,
/// if one comes before the imports; then the imports; then the sections;
/// nothing after them.
pub open spec fn root_step(st: RootModel, b: Block) -> Result<RootModel, InterfaceFault> {
    if st.version is None {
        match header_of(b) {
            Err(e) => Err(e),
            Ok(v) => Ok(RootModel { version: Some(v), ..st }),
        }
    } else if st.imports is None && st.channel is None && dotted_braced(b, "Channel"@) {
        match channel_of(b) {
            Err(e) => Err(e),
            Ok(c) => Ok(RootModel { channel: Some(c), ..st }),
        }
    } else if st.imports is None {
        match imports_section(b) {
            Err(e) => Err(e),
            Ok(i) => Ok(RootModel { imports: Some(i), ..st }),
        }
    } else if st.sections is None {
        match sections_of(b) {
            Err(e) => Err(e),
            Ok(s) => Ok(RootModel { sections: Some(s), ..st }),
        }
    } else {
        Err(InterfaceFault::ExtraPosition)
    }
}

/// The first `n` root blocks read in turn.
pub open spec fn root_walk(bs: Seq<Block>, n: int) -> Result<RootModel, InterfaceFault>
    decreases n,
{
    if n <= 0 {
        Ok(empty_root())
    } else {
        match root_walk(bs, n - 1) {
            Err(e) => Err(e),
            Ok(st) => root_step(st, bs[n - 1]),
        }
    }
}

/// The Interface the root blocks gave, once every required part came.
pub open spec fn finish(st: RootModel) -> Result<InterfaceModel, InterfaceFault> {
    match (st.version, st.imports, st.sections) {
        (Some(v), Some(i), Some(s)) => Ok(
            InterfaceModel { version: v, channel: st.channel, imports: i, sections: s },
        ),
        _ => Err(InterfaceFault::MissingPosition),
    }
}

/// The Interface that a sequence of root blocks realizes.
pub open spec fn realization(bs: Seq<Block>) -> Result<InterfaceModel, InterfaceFault> {
    match root_walk(bs, bs.len() as int) {
        Err(e) => Err(e),
        Ok(st) => finish(st),
    }
}

proof fn lemma_root_fault_stays(bs: Seq<Block>, k: int, n: int)
    requires
        0 <= k <= n,
        root_walk(bs, k) is Err,
    ensures
        root_walk(bs, n) == root_walk(bs, k),
    decreases n - k,
{
    if k < n {
        lemma_root_fault_stays(bs, k, n - 1);
    }
}

pub open spec fn root_model(
    version: Option<Version>,
    channel: Option<Channel>,
    imports: Option<Imports>,
    sections: Option<Sections>,
) -> RootModel {
    RootModel {
        version: match version {
            Some(v) => Some((v.major, v.minor, v.patch)),
            None => None,
        },
        channel: match channel {
            Some(c) => Some((c.name@, c.contract_id, c.wire_revision)),
            None => None,
        },
        imports: match imports {
            Some(i) => Some(i.0@.map_values(|x: Import| import_model(x))),
            None => None,
        },
        sections: match sections {
            Some(s) => Some(sections_model(s)),
            None => None,
        },
    }
}

/// One declaration checked: it depends on the declaration's texts alone.
proof fn lemma_declaration_check_by_model(a: TypeElement, b: TypeElement, names: Seq<Seq<char>>)
    requires
        type_model(a) == type_model(b),
    ensures
        declaration_check(a, names) == declaration_check(b, names),
{
    match (a, b) {
        (TypeElement::Struct(x), TypeElement::Struct(y)) => {
            assert(texts_of(x.fields@) == texts_of(y.fields@));
            assert(x.fields@.len() == y.fields@.len());
            assert forall|j: int| 0 <= j < x.fields@.len() implies #[trigger] x.fields@[j]@
                == y.fields@[j]@ by {
                assert(texts_of(x.fields@)[j] == texts_of(y.fields@)[j]);
            }
            assert(crate::concept::texts(x.fields@) =~= crate::concept::texts(y.fields@));
            if exists|j: int|
                0 <= j < x.fields@.len() && !crate::fixture::knows_type(
                    names,
                    #[trigger] x.fields@[j]@,
                ) {
                let j = choose|j: int|
                    0 <= j < x.fields@.len() && !crate::fixture::knows_type(
                        names,
                        #[trigger] x.fields@[j]@,
                    );
                assert(y.fields@[j]@ == x.fields@[j]@);
            }
            if exists|j: int|
                0 <= j < y.fields@.len() && !crate::fixture::knows_type(
                    names,
                    #[trigger] y.fields@[j]@,
                ) {
                let j = choose|j: int|
                    0 <= j < y.fields@.len() && !crate::fixture::knows_type(
                        names,
                        #[trigger] y.fields@[j]@,
                    );
                assert(y.fields@[j]@ == x.fields@[j]@);
            }
        },
        (TypeElement::Enum(x), TypeElement::Enum(y)) => {
            let mx = x.variants@.map_values(|v: EnumVariantElement| variant_model(v));
            let my = y.variants@.map_values(|v: EnumVariantElement| variant_model(v));
            assert(mx == my);
            assert(x.variants@.len() == y.variants@.len());
            assert forall|j: int| 0 <= j < x.variants@.len() implies variant_model(
                #[trigger] x.variants@[j],
            ) == variant_model(y.variants@[j]) by {
                assert(mx[j] == my[j]);
            }
            assert(crate::fixture::variant_element_names(x.variants@)
                =~= crate::fixture::variant_element_names(y.variants@));
            assert((exists|j: int|
                0 <= j < x.variants@.len() && (#[trigger] x.variants@[j] matches EnumVariantElement::Data {
                    payload,
                    ..
                } && !crate::fixture::knows_type(names, payload@))) == (exists|j: int|
                0 <= j < y.variants@.len() && (#[trigger] y.variants@[j] matches EnumVariantElement::Data {
                    payload,
                    ..
                } && !crate::fixture::knows_type(names, payload@)))) by {
                if exists|j: int|
                    0 <= j < x.variants@.len() && (#[trigger] x.variants@[j] matches EnumVariantElement::Data {
                        payload,
                        ..
                    } && !crate::fixture::knows_type(names, payload@)) {
                    let j = choose|j: int|
                        0 <= j < x.variants@.len() && (#[trigger] x.variants@[j] matches EnumVariantElement::Data {
                            payload,
                            ..
                        } && !crate::fixture::knows_type(names, payload@));
                    assert(variant_model(x.variants@[j]) == variant_model(y.variants@[j]));
                }
                if exists|j: int|
                    0 <= j < y.variants@.len() && (#[trigger] y.variants@[j] matches EnumVariantElement::Data {
                        payload,
                        ..
                    } && !crate::fixture::knows_type(names, payload@)) {
                    let j = choose|j: int|
                        0 <= j < y.variants@.len() && (#[trigger] y.variants@[j] matches EnumVariantElement::Data {
                            payload,
                            ..
                        } && !crate::fixture::knows_type(names, payload@));
                    assert(variant_model(x.variants@[j]) == variant_model(y.variants@[j]));
                }
            }
        },
        _ => {},
    }
}

proof fn lemma_declarations_check_by_model(
    a: Seq<TypeElement>,
    b: Seq<TypeElement>,
    names: Seq<Seq<char>>,
    i: int,
)
    requires
        a.len() == b.len(),
        forall|k: int| 0 <= k < a.len() ==> type_model(#[trigger] a[k]) == type_model(b[k]),
    ensures
        declarations_check(a, names, i) == declarations_check(b, names, i),
    decreases a.len() - i,
{
    if 0 <= i < a.len() {
        lemma_declaration_check_by_model(a[i], b[i], names);
        lemma_declarations_check_by_model(a, b, names, i + 1);
    }
}

/// Whether an Interface passes its check depends on its model alone.
pub proof fn lemma_validation_by_model(a: Interface, b: Interface)
    requires
        interface_model(a) == interface_model(b),
    ensures
        validation(a) == validation(b),
{
    let ma = interface_model(a);
    let mb = interface_model(b);
    let ta = a.types.0@;
    let tb = b.types.0@;
    assert(ma.sections.types.len() == ta.len());
    assert(mb.sections.types.len() == tb.len());
    assert forall|k: int| 0 <= k < ta.len() implies type_model(#[trigger] ta[k]) == type_model(
        tb[k],
    ) by {
        assert(ma.sections.types[k] == type_model(ta[k]));
        assert(mb.sections.types[k] == type_model(tb[k]));
    }
    assert(declared_names(a) =~= declared_names(b)) by {
        assert forall|k: int| 0 <= k < ta.len() implies #[trigger] declared_names(a)[k]
            == declared_names(b)[k] by {
            assert(type_model(ta[k]) == type_model(tb[k]));
        }
    }
    let (ia, ib) = (a.inputs.0@, b.inputs.0@);
    assert(ma.sections.inputs.len() == ia.len() && mb.sections.inputs.len() == ib.len());
    assert forall|k: int| 0 <= k < ia.len() implies input_model(#[trigger] ia[k]) == input_model(
        ib[k],
    ) by {
        assert(ma.sections.inputs[k] == input_model(ia[k]));
        assert(mb.sections.inputs[k] == input_model(ib[k]));
    }
    assert(input_operations(ia) =~= input_operations(ib));
    assert(input_payloads(ia) =~= input_payloads(ib));
    let (oa, ob) = (a.outputs.0@, b.outputs.0@);
    assert(ma.sections.outputs.len() == oa.len() && mb.sections.outputs.len() == ob.len());
    assert forall|k: int| 0 <= k < oa.len() implies output_model(#[trigger] oa[k])
        == output_model(ob[k]) by {
        assert(ma.sections.outputs[k] == output_model(oa[k]));
        assert(mb.sections.outputs[k] == output_model(ob[k]));
    }
    assert(output_operations(oa) =~= output_operations(ob));
    assert(output_payloads(oa) =~= output_payloads(ob));
    let (ra, rb) = (a.refusals.0@, b.refusals.0@);
    assert(ma.sections.refusals.len() == ra.len() && mb.sections.refusals.len() == rb.len());
    assert forall|k: int| 0 <= k < ra.len() implies refusal_model(#[trigger] ra[k])
        == refusal_model(rb[k]) by {
        assert(ma.sections.refusals[k] == refusal_model(ra[k]));
        assert(mb.sections.refusals[k] == refusal_model(rb[k]));
    }
    assert(refusal_operations(ra) =~= refusal_operations(rb));
    assert(refusal_payloads(ra) =~= refusal_payloads(rb));
    let (sa, sb) = (a.streams.0@, b.streams.0@);
    assert(ma.sections.streams.len() == sa.len() && mb.sections.streams.len() == sb.len());
    assert forall|k: int| 0 <= k < sa.len() implies stream_model(#[trigger] sa[k])
        == stream_model(sb[k]) by {
        assert(ma.sections.streams[k] == stream_model(sa[k]));
        assert(mb.sections.streams[k] == stream_model(sb[k]));
    }
    assert(stream_operations(sa) =~= stream_operations(sb));
    assert(stream_payloads(sa) =~= stream_payloads(sb));
    lemma_declarations_check_by_model(ta, tb, declared_names(a), 0);
}

/// The check of the Interfaces that realize a model (all agree, see
/// [`lemma_validation_by_model`]).
pub open spec fn model_validation(m: InterfaceModel) -> Result<(), InterfaceFault> {
    validation(choose|i: Interface| interface_model(i) == m)
}

/// Realize an Interface from its root blocks, then check it whole.
pub fn realize_interface(blocks: &Vec<Block>) -> (r: Result<Interface, InterfaceFault>)
    ensures
        match realization(blocks@) {
            Ok(m) => match model_validation(m) {
                Ok(()) => r matches Ok(i) && interface_model(i) == m,
                Err(e) => r == Err::<Interface, InterfaceFault>(e),
            },
            Err(e) => r == Err::<Interface, InterfaceFault>(e),
        },
{
    match realize_blocks(blocks) {
        Err(e) => Err(e),
        Ok(i) => {
            let checked = i.validate();
            proof {
                let m = interface_model(i);
                let j = choose|j: Interface| interface_model(j) == m;
                lemma_validation_by_model(i, j);
            }
            match checked {
                Ok(()) => Ok(i),
                Err(e) => Err(e),
            }
        },
    }
}

/// The Interface that the root blocks give, before its whole check.
fn realize_blocks(blocks: &Vec<Block>) -> (r: Result<Interface, InterfaceFault>)
    ensures
        match realization(blocks@) {
            Ok(m) => r matches Ok(i) && interface_model(i) == m,
            Err(e) => r == Err::<Interface, InterfaceFault>(e),
        },
{
    let mut version: Option<Version> = None;
    let mut channel: Option<Channel> = None;
    let mut imports: Option<Imports> = None;
    let mut sections: Option<Sections> = None;
    let mut i: usize = 0;
    while i < blocks.len()
        invariant
            i <= blocks@.len(),
            root_walk(blocks@, i as int) == Ok::<RootModel, InterfaceFault>(
                root_model(version, channel, imports, sections),
            ),
        decreases blocks@.len() - i,
    {
        let b = &blocks[i];
        let ghost st = root_model(version, channel, imports, sections);
        if version.is_none() {
            match read_header(b) {
                Ok(v) => {
                    version = Some(v);
                },
                Err(e) => {
                    proof {
                        lemma_root_fault_stays(blocks@, i + 1, blocks@.len() as int);
                    }
                    return Err(e);
                },
            }
        } else if imports.is_none() && channel.is_none() && Channel::select(
            b.shape,
            b.head.as_ref(),
        ).is_some() {
            match read_channel(b) {
                Ok(c) => {
                    channel = Some(c);
                },
                Err(e) => {
                    proof {
                        lemma_root_fault_stays(blocks@, i + 1, blocks@.len() as int);
                    }
                    return Err(e);
                },
            }
        } else if imports.is_none() {
            match read_imports_section(b) {
                Ok(m) => {
                    imports = Some(m);
                },
                Err(e) => {
                    proof {
                        lemma_root_fault_stays(blocks@, i + 1, blocks@.len() as int);
                    }
                    return Err(e);
                },
            }
        } else if sections.is_none() {
            match read_sections(b) {
                Ok(s) => {
                    sections = Some(s);
                },
                Err(e) => {
                    proof {
                        lemma_root_fault_stays(blocks@, i + 1, blocks@.len() as int);
                    }
                    return Err(e);
                },
            }
        } else {
            proof {
                lemma_root_fault_stays(blocks@, i + 1, blocks@.len() as int);
            }
            return Err(InterfaceFault::ExtraPosition);
        }
        i += 1;
    }
    match (version, imports, sections) {
        (Some(version), Some(imports), Some(sections)) => Ok(
            Interface {
                version,
                channel,
                imports,
                inputs: sections.inputs,
                outputs: sections.outputs,
                refusals: sections.refusals,
                streams: sections.streams,
                types: sections.types,
            },
        ),
        _ => Err(InterfaceFault::MissingPosition),
    }
}

} // verus!
