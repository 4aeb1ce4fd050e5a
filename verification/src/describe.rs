//! How a reading fault is told: its problem, then the path at fault.

use vstd::prelude::*;
use crate::canonical::push_char;
use crate::concept::{Fault, Problem, ProblemModel};
use crate::fault::form_symbol;
use crate::protoform::Separator;
use crate::emission::dec;
use crate::generation::{put, put_text};

verus! {

/// The glyph of a separator.
pub open spec fn separator_glyph(s: Separator) -> Seq<char> {
    match s {
        Separator::Period => "."@,
        Separator::Exclamation => "!"@,
        Separator::Colon => ":"@,
    }
}

/// The problem, told: its name, then what was found wrong in brackets.
pub open spec fn problem_name(p: ProblemModel) -> Seq<char> {
    match p {
        ProblemModel::Root => "Root"@,
        ProblemModel::Generation => "Generation"@,
        ProblemModel::Duplicate(n) => "Duplicate("@ + n + ")"@,
        ProblemModel::Undeclared(n) => "Undeclared("@ + n + ")"@,
        ProblemModel::Arity(k, n) => "Arity("@ + signed_text(k as int) + ", "@ + signed_text(
            n as int,
        ) + ")"@,
        ProblemModel::Empty => "Empty"@,
        ProblemModel::Role(n) => "Role("@ + n + ")"@,
        ProblemModel::Separator(s) => "Separator("@ + separator_glyph(s) + ")"@,
        ProblemModel::Name(n) => "Name("@ + n + ")"@,
        ProblemModel::Yield => "Yield"@,
        ProblemModel::Expected(f) => "Expected("@ + form_symbol(f) + ")"@,
        ProblemModel::Depth => "Depth"@,
        ProblemModel::Cycle(n) => "Cycle("@ + n + ")"@,
    }
}

/// A signed number in decimal, with a leading `-` where it is negative.
pub open spec fn signed_text(n: int) -> Seq<char> {
    if n < 0 {
        seq!['-'] + dec((-n) as nat)
    } else {
        dec(n as nat)
    }
}

/// The numbers of a path, `, ` between each two.
pub open spec fn joined_numbers(s: Seq<i64>) -> Seq<char>
    decreases s.len(),
{
    if s.len() == 0 {
        Seq::empty()
    } else if s.len() == 1 {
        signed_text(s[0] as int)
    } else {
        joined_numbers(s.drop_last()) + ", "@ + signed_text(s.last() as int)
    }
}

/// A fault told as `Problem at [path]`, the problem with what was found
/// wrong: `Undeclared(Bogus) at [0, 1]`.
pub open spec fn fault_text(f: Fault) -> Seq<char> {
    problem_name(f.problem@) + " at ["@ + joined_numbers(f.path@) + "]"@
}

fn put_digits(out: &mut String, n: u64)
    ensures
        final(out)@ == old(out)@ + dec(n as nat),
    decreases n,
{
    if n < 10 {
        push_char(out, ((48 + n) as u8) as char);
    } else {
        put_digits(out, n / 10);
        push_char(out, ((48 + n % 10) as u8) as char);
    }
}

fn put_signed(out: &mut String, n: i64)
    ensures
        final(out)@ == old(out)@ + signed_text(n as int),
{
    if n < 0 {
        push_char(out, '-');
        let magnitude: u64 = if n == i64::MIN {
            9223372036854775808u64
        } else {
            (-n) as u64
        };
        put_digits(out, magnitude);
        proof {
            assert(old(out)@ + signed_text(n as int) =~= old(out)@.push('-') + dec(
                magnitude as nat,
            ));
        }
    } else {
        put_digits(out, n as u64);
    }
}

impl Fault {
    /// The fault as `Problem at [path]`.
    pub fn describe(&self) -> (r: String)
        ensures
            r@ == fault_text(*self),
    {
        let mut out = String::new();
        match &self.problem {
            Problem::Root => put(&mut out, "Root"),
            Problem::Generation => put(&mut out, "Generation"),
            Problem::Duplicate(n) => {
                put(&mut out, "Duplicate(");
                put_text(&mut out, n);
                put(&mut out, ")");
            },
            Problem::Undeclared(n) => {
                put(&mut out, "Undeclared(");
                put_text(&mut out, n);
                put(&mut out, ")");
            },
            Problem::Arity(k, n) => {
                put(&mut out, "Arity(");
                put_signed(&mut out, *k);
                put(&mut out, ", ");
                put_signed(&mut out, *n);
                put(&mut out, ")");
            },
            Problem::Empty => put(&mut out, "Empty"),
            Problem::Role(n) => {
                put(&mut out, "Role(");
                put_text(&mut out, n);
                put(&mut out, ")");
            },
            Problem::Separator(sep) => {
                put(&mut out, "Separator(");
                match sep {
                    Separator::Period => put(&mut out, "."),
                    Separator::Exclamation => put(&mut out, "!"),
                    Separator::Colon => put(&mut out, ":"),
                }
                put(&mut out, ")");
            },
            Problem::Name(n) => {
                put(&mut out, "Name(");
                put_text(&mut out, n);
                put(&mut out, ")");
            },
            Problem::Yield => put(&mut out, "Yield"),
            Problem::Expected(f) => {
                put(&mut out, "Expected(");
                let symbol = f.conceive();
                put_text(&mut out, &symbol);
                put(&mut out, ")");
            },
            Problem::Depth => put(&mut out, "Depth"),
            Problem::Cycle(n) => {
                put(&mut out, "Cycle(");
                put_text(&mut out, n);
                put(&mut out, ")");
            },
        }
        proof {
            assert(out@ =~= problem_name(self.problem@));
        }
        put(&mut out, " at [");
        let ghost head = out@;
        let mut i: usize = 0;
        while i < self.path.len()
            invariant
                i <= self.path@.len(),
                out@ == head + joined_numbers(self.path@.take(i as int)),
            decreases self.path@.len() - i,
        {
            proof {
                assert(self.path@.take(i + 1).drop_last() =~= self.path@.take(i as int));
                assert(self.path@.take(i + 1).last() == self.path@[i as int]);
            }
            if i > 0 {
                put(&mut out, ", ");
            }
            put_signed(&mut out, self.path[i]);
            proof {
                if i == 0 {
                    assert(self.path@.take(0) =~= Seq::<i64>::empty());
                }
            }
            i += 1;
        }
        proof {
            assert(self.path@.take(i as int) =~= self.path@);
        }
        put(&mut out, "]");
        out
    }
}

} // verus!
