//! The ordinary edge client's text: the one inline Datomic request it reads
//! and the line it prints for a reply.

use vstd::prelude::*;
use crate::canonical::chars_of;
use crate::fixture::text_of_range;
use crate::generation::{decimal, put, put_text};
use crate::emission::dec;
use crate::signal::{FileLocation, GenerationRequest, Reply, Request};

verus! {

pub open spec fn observe_assemblies() -> Seq<char> {
    "Observe.Assemblies"@
}

pub open spec fn generate_head() -> Seq<char> {
    "Generate.{"@
}

/// A Generate request's braces: it starts with `Generate.{` and ends in `}`.
pub open spec fn generate_shaped(s: Seq<char>) -> bool {
    s.len() >= 10 && s.subrange(0, 10) == generate_head() && s.len() >= 1 && s[s.len() - 1]
        == '}' && s.len() >= 11
}

/// The fields text between a Generate request's braces.
pub open spec fn generate_inner(s: Seq<char>) -> Seq<char> {
    s.subrange(10, s.len() - 1)
}

pub open spec fn has_no_space(s: Seq<char>) -> bool {
    forall|i: int| 0 <= i < s.len() ==> s[i] != ' '
}

/// The text holds exactly one space.
pub open spec fn one_space(s: Seq<char>) -> bool {
    exists|k: int|
        0 <= k < s.len() && #[trigger] s[k] == ' ' && has_no_space(s.subrange(0, k)) && has_no_space(
            s.subrange(k + 1, s.len() as int),
        )
}

/// The text is `a`, one space, then `b`, and neither holds a space.
pub open spec fn splits_once(s: Seq<char>, a: Seq<char>, b: Seq<char>) -> bool {
    s == a + seq![' '] + b && has_no_space(a) && has_no_space(b)
}

pub open spec fn fields_refusal() -> Seq<char> {
    "Generate needs source and relative path"@
}

pub open spec fn request_refusal() -> Seq<char> {
    "expected one Datomic ordinary request"@
}

fn equals_literal(s: &Vec<char>, literal: &str) -> (r: bool)
    ensures
        r == (s@ == literal@),
{
    let t = chars_of(literal);
    if s.len() != t.len() {
        return false;
    }
    let mut i: usize = 0;
    while i < s.len()
        invariant
            s@.len() == t@.len(),
            t@ == literal@,
            i <= s@.len(),
            forall|j: int| 0 <= j < i ==> s@[j] == t@[j],
        decreases s@.len() - i,
    {
        if s[i] != t[i] {
            return false;
        }
        i += 1;
    }
    assert(s@ =~= t@);
    true
}

/// The request an inline Datomic text spells: `Observe.Assemblies`, or
/// `Generate.{source relative_path}` with exactly two fields.
pub fn request(input: &str) -> (r: Result<Request, &'static str>)
    ensures
        input@ == observe_assemblies() ==> r matches Ok(Request::ObserveAssemblies),
        input@ != observe_assemblies() && generate_shaped(input@) && one_space(
            generate_inner(input@),
        ) ==> (r matches Ok(Request::Generate(g)) && splits_once(
            generate_inner(input@),
            g.file.source_name@,
            g.file.relative_path@,
        )),
        input@ != observe_assemblies() && generate_shaped(input@) && !one_space(
            generate_inner(input@),
        ) ==> (r matches Err(e) && e@ == fields_refusal()),
        input@ != observe_assemblies() && !generate_shaped(input@) ==> (r matches Err(e) && e@
            == request_refusal()),
{
    let s = chars_of(input);
    if equals_literal(&s, "Observe.Assemblies") {
        return Ok(Request::ObserveAssemblies);
    }
    let head = chars_of("Generate.{");
    let mut shaped = s.len() >= 11 && s[s.len() - 1] == '}';
    if shaped {
        let mut i: usize = 0;
        while i < 10
            invariant
                head@ == generate_head(),
                s@ == input@,
                s@.len() >= 11,
                i <= 10,
                shaped == (forall|j: int| 0 <= j < i ==> s@[j] == head@[j]),
            decreases 10 - i,
        {
            proof {
                reveal_strlit("Generate.{");
            }
            shaped = shaped && s[i] == head[i];
            i += 1;
        }
        proof {
            reveal_strlit("Generate.{");
            if shaped {
                assert(s@.subrange(0, 10) =~= generate_head());
            } else {
                let j = choose|j: int| 0 <= j < 10 && s@[j] != head@[j];
                assert(s@.subrange(0, 10)[j] != generate_head()[j]);
            }
        }
    }
    if !shaped {
        return Err("expected one Datomic ordinary request");
    }
    let end = s.len() - 1;
    let mut spaces: usize = 0;
    let mut at: usize = 10;
    let mut i: usize = 10;
    while i < end
        invariant
            s@ == input@,
            10 <= i <= end == s@.len() - 1,
            spaces <= 2,
            spaces == 0 ==> forall|j: int| 10 <= j < i ==> s@[j] != ' ',
            spaces == 1 ==> 10 <= at < i && s@[at as int] == ' ' && forall|j: int|
                10 <= j < i && j != at ==> s@[j] != ' ',
            spaces == 2 ==> exists|a: int, b: int|
                10 <= a < b < i && s@[a] == ' ' && s@[b] == ' ',
        decreases end - i,
    {
        if s[i] == ' ' {
            if spaces == 0 {
                at = i;
                spaces = 1;
            } else if spaces == 1 {
                assert(s@[at as int] == ' ' && s@[i as int] == ' ');
                spaces = 2;
            }
        }
        i += 1;
    }
    let ghost inner = generate_inner(input@);
    if spaces != 1 {
        proof {
            if one_space(inner) {
                let k = choose|k: int|
                    0 <= k < inner.len() && #[trigger] inner[k] == ' ' && has_no_space(
                        inner.subrange(0, k),
                    ) && has_no_space(inner.subrange(k + 1, inner.len() as int));
                if spaces == 0 {
                    assert(s@[k + 10] == inner[k]);
                } else {
                    let (a, b) = choose|a: int, b: int|
                        10 <= a < b < i && s@[a] == ' ' && s@[b] == ' ';
                    assert(inner[a - 10] == ' ');
                    assert(inner[b - 10] == ' ');
                    if a - 10 < k {
                        assert(inner.subrange(0, k)[a - 10] == ' ');
                    } else if a - 10 > k {
                        assert(inner.subrange(k + 1, inner.len() as int)[a - 10 - k - 1] == ' ');
                    } else {
                        assert(inner.subrange(k + 1, inner.len() as int)[b - 10 - k - 1] == ' ');
                    }
                }
            }
        }
        return Err("Generate needs source and relative path");
    }
    let source_name = text_of_range(&s, 10, at);
    let relative_path = text_of_range(&s, at + 1, end);
    proof {
        let k = at - 10;
        assert(inner[k] == ' ');
        assert forall|j: int| 0 <= j < k implies source_name@[j] != ' ' by {
            assert(source_name@[j] == s@[j + 10]);
        }
        assert forall|j: int| 0 <= j < relative_path@.len() implies relative_path@[j] != ' ' by {
            assert(relative_path@[j] == s@[at + 1 + j]);
        }
        assert(source_name@ =~= inner.subrange(0, k));
        assert(relative_path@ =~= inner.subrange(k + 1, inner.len() as int));
        assert(inner =~= source_name@ + seq![' '] + relative_path@);
    }
    Ok(
        Request::Generate(
            GenerationRequest { file: FileLocation { source_name, relative_path } },
        ),
    )
}

/// The line printed for a reply.
pub open spec fn rendered(reply: Reply) -> Seq<char> {
    match reply {
        Reply::Generated(g) => "Generated.{"@ + g.file.source_name@ + " "@ + g.artifact@ + "}"@,
        Reply::Observed(assemblies) => "Observed.Assemblies.["@ + dec(assemblies@.len()) + "]"@,
        Reply::GenerationRejected(_) => "GenerationRejected"@,
    }
}

/// Render a reply as the client prints it.
pub fn render(reply: &Reply) -> (r: String)
    ensures
        r@ == rendered(*reply),
{
    match reply {
        Reply::Generated(g) => {
            let mut out = String::from_str("Generated.{");
            put_text(&mut out, &g.file.source_name);
            put(&mut out, " ");
            put_text(&mut out, &g.artifact);
            put(&mut out, "}");
            out
        },
        Reply::Observed(assemblies) => {
            let mut out = String::from_str("Observed.Assemblies.[");
            put_text(&mut out, &decimal(assemblies.len()));
            put(&mut out, "]");
            out
        },
        Reply::GenerationRejected(_) => String::from_str("GenerationRejected"),
    }
}

} // verus!
