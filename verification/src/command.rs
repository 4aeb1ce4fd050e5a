//! The generator's command line: the one `Generate.{ file out-dir }` datom
//! it accepts, the texts of its paths, where it writes, and what it answers.

use vstd::prelude::*;
use crate::emission::dec;
use crate::generation::{decimal, put, put_text};
use crate::nexus::{join_path, joined_path};
use crate::protoform::{
    head_model, lemma_protoform_models, protoform_model, protoform_models, Delineation, Enclosure, Head, HeadModel, Protoform, ProtoformModel,
    Separator,
};
use crate::text::{copy_text, same_text};

verus! {

/// The glyph of a separator.
pub open spec fn glyph(sep: Separator) -> char {
    match sep {
        Separator::Period => '.',
        Separator::Exclamation => '!',
        Separator::Colon => ':',
    }
}

/// The glyph of a separator.
pub fn sep_glyph(sep: &Separator) -> (r: char)
    ensures
        r == glyph(*sep),
{
    match sep {
        Separator::Period => '.',
        Separator::Exclamation => '!',
        Separator::Colon => ':',
    }
}

pub open spec fn head_symbol_text(h: HeadModel) -> Seq<char> {
    match h {
        HeadModel::Bare(s) => s,
        HeadModel::Qualified(s, _) => s,
    }
}

/// The text a path argument delineated from: a symbol, or heads joined by
/// their separators; an enclosed list gives nothing.
pub open spec fn rejoined(p: ProtoformModel) -> Seq<char>
    decreases p,
{
    match p {
        ProtoformModel::Bare(h) => head_symbol_text(h),
        ProtoformModel::Headed(h, sep, body) => head_symbol_text(h) + seq![glyph(sep)] + rejoined(
            *body,
        ),
        ProtoformModel::Enclosed(_, _) => Seq::empty(),
    }
}

fn head_text(h: &Head) -> (r: String)
    ensures
        r@ == head_symbol_text(h@),
{
    match h {
        Head::Bare(s) => copy_text(s),
        Head::Qualified(s, _) => copy_text(s),
    }
}

/// Rejoin the text a path argument was delineated from.
pub fn rejoin_text(pf: &Protoform) -> (r: String)
    ensures
        r@ == rejoined(pf@),
    decreases pf,
{
    match pf {
        Protoform::Bare(h) => head_text(h),
        Protoform::Headed(h, sep, body) => {
            let mut out = head_text(h);
            crate::canonical::push_char(&mut out, sep_glyph(sep));
            put_text(&mut out, &rejoin_text(body));
            out
        },
        Protoform::Enclosed(_, _) => String::new(),
    }
}

pub open spec fn fault_text(reason: Seq<char>) -> Seq<char> {
    "GenerationFault.{ \u{201C}"@ + reason + "\u{201D} }"@
}

/// What a command that is not `Generate.{ file out-dir }` is answered.
pub open spec fn command_of(d: Seq<ProtoformModel>) -> Result<(Seq<char>, Seq<char>), Seq<char>> {
    if d.len() != 1 {
        Err(fault_text("expected one datom value"@))
    } else {
        match d[0] {
            ProtoformModel::Headed(HeadModel::Bare(head), sep, body) => if head != "Generate"@
                || sep != Separator::Period {
                Err(fault_text("unknown command: "@ + head))
            } else {
                match *body {
                    ProtoformModel::Enclosed(Enclosure::Braced, children) => if children.len() < 2 {
                        Err(fault_text("expected Generate.{ file-path out-dir }"@))
                    } else {
                        Ok((rejoined(children[0]), rejoined(children[1])))
                    },
                    _ => Err(fault_text("expected braced body"@)),
                }
            },
            _ => Err(fault_text("expected Generate.{ path out-dir }"@)),
        }
    }
}

fn fault(reason: &str) -> (r: String)
    ensures
        r@ == fault_text(reason@),
{
    let mut out = String::from_str("GenerationFault.{ \u{201C}");
    put(&mut out, reason);
    put(&mut out, "\u{201D} }");
    out
}

/// The file and the output directory of a `Generate.{ file out-dir }`
/// command, or the fault text it is answered.
pub fn generate_command(d: &Delineation) -> (r: Result<(String, String), String>)
    ensures
        match command_of(d@) {
            Ok((file, dir)) => r matches Ok(p) && p.0@ == file && p.1@ == dir,
            Err(message) => r matches Err(m) && m@ == message,
        },
{
    proof {
        lemma_protoform_models(d.protoforms@);
    }
    if d.protoforms.len() != 1 {
        return Err(fault("expected one datom value"));
    }
    match &d.protoforms[0] {
        Protoform::Headed(Head::Bare(head), sep, body) => {
            proof {
                assert(d.protoforms@[0] == Protoform::Headed(Head::Bare(*head), *sep, *body));
                assert(head_model(Head::Bare(*head)) == HeadModel::Bare(head@));
                assert(protoform_model(d.protoforms@[0]) == ProtoformModel::Headed(
                    head_model(Head::Bare(*head)),
                    *sep,
                    Box::new(protoform_model(**body)),
                ));
                assert(d@[0] == ProtoformModel::Headed(
                    HeadModel::Bare(head@),
                    *sep,
                    Box::new(protoform_model(**body)),
                ));
            }
            if !same_text(head, "Generate") || *sep != Separator::Period {
                let mut reason = String::from_str("unknown command: ");
                put_text(&mut reason, head);
                return Err(fault(reason.as_str()));
            }
            match &**body {
                Protoform::Enclosed(Enclosure::Braced, children) => {
                    proof {
                        lemma_protoform_models(children@);
                        assert(protoform_model(**body) == ProtoformModel::Enclosed(
                            Enclosure::Braced,
                            protoform_models(children@),
                        ));
                    }
                    if children.len() < 2 {
                        return Err(fault("expected Generate.{ file-path out-dir }"));
                    }
                    Ok((rejoin_text(&children[0]), rejoin_text(&children[1])))
                },
                _ => {
                    proof {
                        assert(!(protoform_model(**body) is Enclosed) || !(protoform_model(
                            **body,
                        )->Enclosed_0 == Enclosure::Braced));
                    }
                    Err(fault("expected braced body"))
                },
            }
        },
        _ => {
            proof {
                match d.protoforms@[0] {
                    Protoform::Headed(h, _, _) => {
                        assert(h is Qualified);
                        assert(head_model(h) is Qualified);
                    },
                    _ => {},
                }
            }
            Err(fault("expected Generate.{ path out-dir }"))
        },
    }
}

/// What a command line with flags, or with more than one value, is answered.
pub fn usage_fault() -> (r: String)
    ensures
        r@ == fault_text("ethos-zero accepts one datom value and no flags"@),
{
    fault("ethos-zero accepts one datom value and no flags")
}

/// Where a text failed to delineate.
pub open spec fn delineation_reason_text(start: nat, end: nat) -> Seq<char> {
    "delineation fault at "@ + dec(start) + ".."@ + dec(end)
}

/// The reason a text that does not delineate is refused: where it failed.
pub fn delineation_reason(start: usize, end: usize) -> (r: String)
    ensures
        r@ == delineation_reason_text(start as nat, end as nat),
{
    let mut reason = String::from_str("delineation fault at ");
    put_text(&mut reason, &decimal(start));
    put(&mut reason, "..");
    put_text(&mut reason, &decimal(end));
    reason
}

/// What a command that does not delineate is answered: where it failed.
pub fn delineation_fault(start: usize, end: usize) -> (r: String)
    ensures
        r@ == fault_text(delineation_reason_text(start as nat, end as nat)),
{
    let reason = delineation_reason(start, end);
    fault(reason.as_str())
}

pub open spec fn quoted(s: Seq<char>) -> Seq<char> {
    "\u{201C}"@ + s + "\u{201D}"@
}

/// What a failure on a file is answered: the file, then the reason.
pub open spec fn file_fault_text(subject: Seq<char>, reason: Seq<char>) -> Seq<char> {
    "GenerationFault.{ "@ + quoted(subject) + " "@ + quoted(reason) + " }"@
}

/// The answer to a failure on a file.
pub fn file_fault(subject: &String, reason: &String) -> (r: String)
    ensures
        r@ == file_fault_text(subject@, reason@),
{
    let mut out = String::from_str("GenerationFault.{ ");
    put(&mut out, "\u{201C}");
    put_text(&mut out, subject);
    put(&mut out, "\u{201D}");
    put(&mut out, " ");
    put(&mut out, "\u{201C}");
    put_text(&mut out, reason);
    put(&mut out, "\u{201D}");
    put(&mut out, " }");
    proof {
        assert(out@ =~= file_fault_text(subject@, reason@));
    }
    out
}

/// The answer to a generation: the path it wrote.
pub fn generated_message(out_path: &String) -> (r: String)
    ensures
        r@ == "Generated.[ "@ + out_path@ + " ]"@,
{
    let mut out = String::from_str("Generated.[ ");
    put_text(&mut out, out_path);
    put(&mut out, " ]");
    out
}

// ===========================================================================
// Where the generated file goes
// ===========================================================================

/// `std::path::Path::file_stem` of a path, read as text, empty where the
/// path has no file name.
pub uninterp spec fn file_stem_of(path: Seq<char>) -> Seq<char>;

/// Whether a character sequence holds `c`.
pub open spec fn holds(s: Seq<char>, c: char) -> bool {
    exists|i: int| 0 <= i < s.len() && s[i] == c
}

/// A path whose last component is a plain name: it is not empty, does not
/// end in `/`, and its part after the last `/` is neither `.` nor `..`.
pub open spec fn plain_last_component(path: Seq<char>, name: Seq<char>) -> bool {
    &&& path.len() > 0
    &&& path.last() != '/'
    &&& name.len() > 0
    &&& !holds(name, '/')
    &&& (path == name || exists|k: int|
        0 <= k < path.len() && path[k] == '/' && path.subrange(k + 1, path.len() as int) == name)
    &&& name != "."@
    &&& name != ".."@
}

/// The stem of a file name: the whole name where it holds no `.` after its
/// first character, else the part before the last `.`.
pub open spec fn stem_of_name(name: Seq<char>, k: int) -> bool {
    ||| (k == name.len() && forall|i: int| 1 <= i < name.len() ==> name[i] != '.')
    ||| (1 <= k < name.len() && name[k] == '.' && forall|i: int| k < i < name.len() ==> name[i]
        != '.')
}

/// Calls `std::path::Path::file_stem` on the path. The documentation gives
/// the stem of a file name: the whole name where it has no `.` past its
/// first character, else the part before its last `.`; this is stated for
/// paths whose last component is a plain name, and left unstated for the
/// rest (trailing separators, `.` and `..` components), where only its name
/// is given.
#[verifier::external_body]
fn path_stem(path: &String) -> (r: String)
    ensures
        r@ == file_stem_of(path@),
        forall|name: Seq<char>, k: int|
            plain_last_component(path@, name) && stem_of_name(name, k) ==> r@ == name.subrange(
                0,
                k,
            ),
{
    std::path::Path::new(path.as_str()).file_stem().unwrap_or_default().to_string_lossy().to_string()
}

/// The file a generation writes: the source's stem with `.rs`, in the
/// output directory.
pub fn output_path(file_path: &String, out_dir: &String) -> (r: String)
    ensures
        r@ == joined_path(out_dir@, file_stem_of(file_path@) + ".rs"@),
{
    let mut name = path_stem(file_path);
    put(&mut name, ".rs");
    join_path(out_dir, name.as_str())
}

/// The protoform a path delineates into: its first segment's symbol joined
/// by that segment's separator to the rest of the path, down to the last
/// symbol, which stands bare.
pub open spec fn path_pf(segments: Seq<(Seq<char>, Separator)>, last: Seq<char>) -> ProtoformModel
    decreases segments.len(),
{
    if segments.len() == 0 {
        ProtoformModel::Bare(HeadModel::Bare(last))
    } else {
        ProtoformModel::Headed(
            HeadModel::Bare(segments[0].0),
            segments[0].1,
            Box::new(path_pf(segments.drop_first(), last)),
        )
    }
}

/// The text of such a path: every segment's symbol followed by its
/// separator's character, then the last symbol.
pub open spec fn path_text(segments: Seq<(Seq<char>, Separator)>, last: Seq<char>) -> Seq<char> {
    segments.map_values(
        |g: (Seq<char>, Separator)|
            g.0 + seq![
                match g.1 {
                    Separator::Period => '.',
                    Separator::Exclamation => '!',
                    Separator::Colon => ':',
                },
            ],
    ).flatten() + last
}

/// Rejoining undoes delineating a path, at every depth: the text a path
/// argument is read back as is the whole path it was written as.
pub proof fn lemma_rejoined_path(segments: Seq<(Seq<char>, Separator)>, last: Seq<char>)
    ensures
        rejoined(path_pf(segments, last)) == path_text(segments, last),
    decreases segments.len(),
{
    if segments.len() > 0 {
        lemma_rejoined_path(segments.drop_first(), last);
        let f = |g: (Seq<char>, Separator)|
            g.0 + seq![
                match g.1 {
                    Separator::Period => '.',
                    Separator::Exclamation => '!',
                    Separator::Colon => ':',
                },
            ];
        let m = segments.map_values(f);
        assert(m.drop_first() =~= segments.drop_first().map_values(f));
        assert(m.first() == f(segments[0]));
        assert(m.flatten() == m.first() + m.drop_first().flatten());
        assert(seq![glyph(segments[0].1)] == seq![
            match segments[0].1 {
                Separator::Period => '.',
                Separator::Exclamation => '!',
                Separator::Colon => ':',
            },
        ]);
        assert(path_text(segments, last) =~= segments[0].0 + seq![glyph(segments[0].1)]
            + path_text(segments.drop_first(), last));
    } else {
        assert(segments.map_values(
            |g: (Seq<char>, Separator)|
                g.0 + seq![
                    match g.1 {
                        Separator::Period => '.',
                        Separator::Exclamation => '!',
                        Separator::Colon => ':',
                    },
                ],
        ).flatten() =~= Seq::<char>::empty());
        assert(path_text(segments, last) =~= last);
    }
}

/// A `Generate.{ file out-dir }` command whose two arguments are paths is
/// answered with those two paths, each whole.
pub proof fn lemma_generate_command_paths(
    file: Seq<(Seq<char>, Separator)>,
    file_last: Seq<char>,
    dir: Seq<(Seq<char>, Separator)>,
    dir_last: Seq<char>,
)
    ensures
        command_of(
            seq![
                ProtoformModel::Headed(
                    HeadModel::Bare("Generate"@),
                    Separator::Period,
                    Box::new(
                        ProtoformModel::Enclosed(
                            Enclosure::Braced,
                            seq![path_pf(file, file_last), path_pf(dir, dir_last)],
                        ),
                    ),
                ),
            ],
        ) == Ok::<(Seq<char>, Seq<char>), Seq<char>>(
            (path_text(file, file_last), path_text(dir, dir_last)),
        ),
{
    lemma_rejoined_path(file, file_last);
    lemma_rejoined_path(dir, dir_last);
}

} // verus!

