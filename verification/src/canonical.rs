//! Canonicalization: sweet ethos text → the canonical braced form.
//!
//! Sweet form names the file's root as a bare word and lists the sections as
//! its siblings; canonical form is `Root.{ sections }`. The conversion
//! inserts `.{` right after the head and appends the closing brace on a line
//! of its own, and records where it inserted (the seam), so that positions in
//! the canonical text map back to the source. Text that is already canonical,
//! or that holds no word to open, is returned unchanged.

use vstd::prelude::*;

verus! {

// ===========================================================================
// Specification
// ===========================================================================

/// The ASCII characters that have the Unicode `White_Space` property.
pub open spec fn ascii_space(c: char) -> bool {
    let n = c as u32;
    (9 <= n <= 13) || n == 32
}

/// The Unicode `White_Space` property.
pub open spec fn white_space(c: char) -> bool {
    let n = c as u32;
    ||| ascii_space(c)
    ||| n == 0x85
    ||| n == 0xa0
    ||| n == 0x1680
    ||| (0x2000 <= n <= 0x200a)
    ||| n == 0x2028
    ||| n == 0x2029
    ||| n == 0x202f
    ||| n == 0x205f
    ||| n == 0x3000
}

/// The characters that open or close a structure.
pub open spec fn delimiter(c: char) -> bool {
    let n = c as u32;
    ||| c == '{'
    ||| c == '}'
    ||| c == '['
    ||| c == ']'
    ||| c == '<'
    ||| c == '>'
    ||| n == 0x201c
    ||| n == 0x201d
    ||| c == '('
    ||| c == ')'
}

/// The characters that end the first word.
pub open spec fn word_break(c: char) -> bool {
    white_space(c) || delimiter(c) || c == ';' || c == '.'
}

/// Where the content of `s` begins, reading from `i`: ASCII whitespace is
/// skipped, and a `;` comment is skipped to the end of its line.
pub open spec fn content_from(s: Seq<char>, i: int, in_comment: bool) -> int
    decreases s.len() - i,
{
    if 0 <= i < s.len() {
        if in_comment {
            content_from(s, i + 1, s[i] != '\n')
        } else if ascii_space(s[i]) {
            content_from(s, i + 1, false)
        } else if s[i] == ';' {
            content_from(s, i + 1, true)
        } else {
            i
        }
    } else {
        i
    }
}

/// The first position from `i` on whose character ends a word, or the end.
pub open spec fn word_end(s: Seq<char>, i: int) -> int
    decreases s.len() - i,
{
    if 0 <= i < s.len() && !word_break(s[i]) {
        word_end(s, i + 1)
    } else {
        i
    }
}

/// The first position from `i` on whose character is not white space, or the end.
pub open spec fn space_end(s: Seq<char>, i: int) -> int
    decreases s.len() - i,
{
    if 0 <= i < s.len() && white_space(s[i]) {
        space_end(s, i + 1)
    } else {
        i
    }
}

/// Where the head of a sweet text ends, when the text opens one.
///
/// The first word after leading whitespace and comments is the head. A text
/// opens it when there is such a word and the first thing after it (past
/// white space) is not a `.`: a text whose first word is already followed
/// by a `.` is in the braced form.
pub open spec fn opens_head(s: Seq<char>) -> bool {
    let p = content_from(s, 0, false);
    let e = word_end(s, p);
    let k = space_end(s, e);
    &&& p < s.len()
    &&& e != p
    &&& !(k < s.len() && s[k] == '.')
}

/// The position just past the head (meaningful when [`opens_head`] holds).
pub open spec fn head_end(s: Seq<char>) -> int {
    word_end(s, content_from(s, 0, false))
}

/// The canonical text of `s`.
///
/// When `s` opens a head, `.{` is inserted right after the head and a
/// closing brace is appended on a line of its own, so that a trailing
/// comment cannot swallow it: `Head.{ rest` + newline + `}`. What precedes
/// the head (whitespace, comments) is kept. Otherwise `s` is its own
/// canonical text.
pub open spec fn canonical_text(s: Seq<char>) -> Seq<char> {
    if opens_head(s) {
        let e = head_end(s);
        s.subrange(0, e) + seq!['.', '{'] + s.subrange(e, s.len() as int) + seq!['\n', '}']
    } else {
        s
    }
}

/// The length in bytes of the UTF-8 encoding of `s`.
pub open spec fn byte_len(s: Seq<char>) -> nat {
    vstd::utf8::encode_utf8(s).len()
}

/// The seam of the canonical text of `s`: the byte extent of the inserted
/// `.{`, or `(0, 0)` when nothing was inserted.
pub open spec fn canonical_seam(s: Seq<char>) -> (int, int) {
    if opens_head(s) {
        let b = byte_len(s.subrange(0, head_end(s)));
        (b as int, b as int + 2)
    } else {
        (0, 0)
    }
}

/// A byte position of the canonical text, mapped back to the source text
/// across the seam `(start, end)`: a position up to the seam stays, one
/// inside it goes to its start, and one past it moves back by the seam's
/// width, but never beyond the end of the source (the closing line is as
/// wide as the seam).
pub open spec fn shifted(start: int, end: int, text_len: int, position: int) -> int {
    let inserted = end - start;
    let source_end = text_len - 2 * inserted;
    if position <= start {
        position
    } else if position < end {
        start
    } else if position - inserted <= source_end {
        position - inserted
    } else {
        source_end
    }
}

// ===========================================================================
// Properties of the scans
// ===========================================================================

proof fn lemma_content_from(s: Seq<char>, i: int, in_comment: bool)
    requires
        0 <= i <= s.len(),
    ensures
        i <= content_from(s, i, in_comment) <= s.len(),
        content_from(s, i, in_comment) < s.len() ==> {
            let q = content_from(s, i, in_comment);
            !ascii_space(s[q]) && s[q] != ';'
        },
    decreases s.len() - i,
{
    if i < s.len() {
        if in_comment {
            lemma_content_from(s, i + 1, s[i] != '\n');
        } else if ascii_space(s[i]) || s[i] == ';' {
            lemma_content_from(s, i + 1, s[i] == ';');
        }
    }
}

proof fn lemma_word_end(s: Seq<char>, i: int)
    requires
        0 <= i <= s.len(),
    ensures
        i <= word_end(s, i) <= s.len(),
        forall|j: int| i <= j < word_end(s, i) ==> !word_break(#[trigger] s[j]),
        word_end(s, i) < s.len() ==> word_break(s[word_end(s, i)]),
    decreases s.len() - i,
{
    if i < s.len() && !word_break(s[i]) {
        lemma_word_end(s, i + 1);
    }
}

/// A position before which no character from `i` on ends a word, and at
/// which one does (or the text ends), is where the word ends.
proof fn lemma_word_end_at(s: Seq<char>, i: int, q: int)
    requires
        0 <= i <= q <= s.len(),
        forall|j: int| i <= j < q ==> !word_break(#[trigger] s[j]),
        q == s.len() || word_break(s[q]),
    ensures
        word_end(s, i) == q,
    decreases q - i,
{
    if i < q {
        lemma_word_end_at(s, i + 1, q);
    }
}

proof fn lemma_space_end(s: Seq<char>, i: int)
    requires
        0 <= i <= s.len(),
    ensures
        i <= space_end(s, i) <= s.len(),
        forall|j: int| i <= j < space_end(s, i) ==> white_space(#[trigger] s[j]),
        space_end(s, i) < s.len() ==> !white_space(s[space_end(s, i)]),
    decreases s.len() - i,
{
    if i < s.len() && white_space(s[i]) {
        lemma_space_end(s, i + 1);
    }
}

/// Two texts that agree up to where the content of one begins (that
/// position included) have their content begin at the same place.
proof fn lemma_content_from_agree(s: Seq<char>, r: Seq<char>, i: int, in_comment: bool)
    requires
        0 <= i <= s.len(),
        content_from(s, i, in_comment) < s.len(),
        content_from(s, i, in_comment) < r.len(),
        forall|j: int| i <= j <= content_from(s, i, in_comment) ==> r[j] == s[j],
    ensures
        content_from(r, i, in_comment) == content_from(s, i, in_comment),
    decreases s.len() - i,
{
    lemma_content_from(s, i, in_comment);
    let q = content_from(s, i, in_comment);
    if i < q {
        assert(r[i] == s[i]);
        let next = if in_comment {
            s[i] != '\n'
        } else {
            s[i] == ';'
        };
        assert(content_from(s, i, in_comment) == content_from(s, i + 1, next));
        assert(content_from(r, i, in_comment) == content_from(r, i + 1, next));
        lemma_content_from(s, i + 1, next);
        lemma_content_from_agree(s, r, i + 1, next);
    } else {
        assert(r[i] == s[i]);
        if in_comment {
            lemma_content_from(s, i + 1, s[i] != '\n');
        }
    }
}

/// Canonical text is its own canonical text: canonicalizing twice is
/// canonicalizing once.
pub proof fn lemma_canonical_text_idempotent(s: Seq<char>)
    ensures
        canonical_text(canonical_text(s)) == canonical_text(s),
{
    if opens_head(s) {
        let r = canonical_text(s);
        let p = content_from(s, 0, false);
        let e = head_end(s);
        lemma_content_from(s, 0, false);
        lemma_word_end(s, p);
        assert(r.len() == s.len() + 4);
        assert forall|j: int| 0 <= j < e implies r[j] == s[j] by {}
        assert(r[e] == '.');
        lemma_content_from_agree(s, r, 0, false);
        assert(content_from(r, 0, false) == p);
        assert forall|j: int| p <= j < e implies !word_break(#[trigger] r[j]) by {
            assert(r[j] == s[j]);
        }
        lemma_word_end_at(r, p, e);
        assert(space_end(r, e) == e);
        assert(!opens_head(r));
    }
}

// ===========================================================================
// Executable canonicalization
// ===========================================================================

/// Whether `c` has the Unicode `White_Space` property.
pub fn is_white_space(c: char) -> (r: bool)
    ensures
        r == white_space(c),
{
    let n = c as u32;
    (9 <= n && n <= 13) || n == 32 || n == 0x85 || n == 0xa0 || n == 0x1680 || (0x2000 <= n && n
        <= 0x200a) || n == 0x2028 || n == 0x2029 || n == 0x202f || n == 0x205f || n == 0x3000
}

/// Whether `c` opens or closes a structure.
pub fn is_delimiter_char(c: char) -> (r: bool)
    ensures
        r == delimiter(c),
{
    let n = c as u32;
    c == '{' || c == '}' || c == '[' || c == ']' || c == '<' || c == '>' || n == 0x201c || n
        == 0x201d || c == '(' || c == ')'
}

/// The characters of a text, in order.
pub(crate) fn chars_of(s: &str) -> (r: Vec<char>)
    ensures
        r@ == s@,
{
    let mut out: Vec<char> = Vec::new();
    for c in it: s.chars()
        invariant
            out@ == it.seq().take(it.index() as int),
            it.seq() == s@,
    {
        out.push(c);
    }
    out
}

/// Where the content of a text begins: past ASCII whitespace and `;` comments.
fn skip_leading_ws_comments(s: &Vec<char>) -> (r: usize)
    ensures
        r == content_from(s@, 0, false),
{
    let mut i: usize = 0;
    let mut in_comment = false;
    while i < s.len()
        invariant
            i <= s@.len(),
            content_from(s@, 0, false) == content_from(s@, i as int, in_comment),
        decreases s@.len() - i,
    {
        let c = s[i];
        let n = c as u32;
        if in_comment {
            in_comment = c != '\n';
        } else if (9 <= n && n <= 13) || n == 32 {
            in_comment = false;
        } else if c == ';' {
            in_comment = true;
        } else {
            return i;
        }
        i += 1;
    }
    i
}

/// The first position from `i` on whose character ends a word, or the end.
fn find_word_end(s: &Vec<char>, i: usize) -> (r: usize)
    requires
        i <= s@.len(),
    ensures
        r == word_end(s@, i as int),
{
    let mut j = i;
    while j < s.len() && !(is_white_space(s[j]) || is_delimiter_char(s[j]) || s[j] == ';' || s[j]
        == '.')
        invariant
            i <= j <= s@.len(),
            word_end(s@, i as int) == word_end(s@, j as int),
        decreases s@.len() - j,
    {
        j += 1;
    }
    j
}

/// The first position from `i` on whose character is not white space, or the end.
fn find_space_end(s: &Vec<char>, i: usize) -> (r: usize)
    requires
        i <= s@.len(),
    ensures
        r == space_end(s@, i as int),
{
    let mut j = i;
    while j < s.len() && is_white_space(s[j])
        invariant
            i <= j <= s@.len(),
            space_end(s@, i as int) == space_end(s@, j as int),
        decreases s@.len() - j,
    {
        j += 1;
    }
    j
}

/// Calls `String::push`: the character is appended at the end of the text,
/// as its documentation says.
#[verifier::external_body]
pub(crate) fn push_char(s: &mut String, c: char)
    ensures
        final(s)@ == old(s)@.push(c),
{
    s.push(c);
}

/// Append the characters of `s` from `from` up to `to`.
fn push_range(out: &mut String, s: &Vec<char>, from: usize, to: usize)
    requires
        from <= to <= s@.len(),
    ensures
        final(out)@ == old(out)@ + s@.subrange(from as int, to as int),
{
    let ghost start = out@;
    let mut j = from;
    while j < to
        invariant
            from <= j <= to <= s@.len(),
            out@ == start + s@.subrange(from as int, j as int),
        decreases to - j,
    {
        push_char(out, s[j]);
        proof {
            assert(s@.subrange(from as int, j + 1) =~= s@.subrange(from as int, j as int).push(
                s@[j as int],
            ));
        }
        j += 1;
    }
}

/// UTF-8 encoding distributes over concatenation.
proof fn lemma_encode_concat(a: Seq<char>, b: Seq<char>)
    ensures
        vstd::utf8::encode_utf8(a + b) == vstd::utf8::encode_utf8(a) + vstd::utf8::encode_utf8(b),
    decreases a.len(),
{
    if a.len() == 0 {
        assert(a + b =~= b);
        assert(vstd::utf8::encode_utf8(a) =~= Seq::<u8>::empty());
        assert(Seq::<u8>::empty() + vstd::utf8::encode_utf8(b) =~= vstd::utf8::encode_utf8(b));
    } else {
        lemma_encode_concat(a.drop_first(), b);
        assert((a + b).drop_first() =~= a.drop_first() + b);
        assert((a + b)[0] == a[0]);
        let x = vstd::utf8::encode_scalar(a[0] as u32);
        let y = vstd::utf8::encode_utf8(a.drop_first());
        let z = vstd::utf8::encode_utf8(b);
        assert(x + (y + z) =~= (x + y) + z);
    }
}

/// Splitting a text splits its byte length.
proof fn lemma_byte_len_split(s: Seq<char>, j: int, e: int)
    requires
        0 <= j <= e <= s.len(),
    ensures
        byte_len(s.subrange(0, e)) == byte_len(s.subrange(0, j)) + byte_len(s.subrange(j, e)),
{
    assert(s.subrange(0, e) =~= s.subrange(0, j) + s.subrange(j, e));
    lemma_encode_concat(s.subrange(0, j), s.subrange(j, e));
}

/// The byte length of a single character's encoding.
proof fn lemma_byte_len_one(c: char)
    ensures
        byte_len(seq![c]) == vstd::utf8::encode_scalar(c as u32).len(),
{
    let t = seq![c];
    assert(t.drop_first() =~= Seq::<char>::empty());
    assert(vstd::utf8::encode_utf8(t.drop_first()) =~= Seq::<u8>::empty());
    assert(vstd::utf8::encode_scalar(c as u32) + Seq::<u8>::empty() =~= vstd::utf8::encode_scalar(
        c as u32,
    ));
}

/// The number of bytes of the UTF-8 encoding of `c`.
fn utf8_width(c: char) -> (w: usize)
    ensures
        w == vstd::utf8::encode_scalar(c as u32).len(),
        1 <= w <= 4,
{
    let n = c as u32;
    if n <= 0x7f {
        1
    } else if n <= 0x7ff {
        2
    } else if n <= 0xffff {
        3
    } else {
        4
    }
}

/// The byte length of the characters of `s` before position `e`.
fn prefix_bytes(s: &Vec<char>, e: usize, total: usize) -> (b: usize)
    requires
        e <= s@.len(),
        total == byte_len(s@),
    ensures
        b == byte_len(s@.subrange(0, e as int)),
{
    let mut acc: usize = 0;
    let mut j: usize = 0;
    proof {
        assert(s@.subrange(0, 0) =~= Seq::<char>::empty());
        assert(s@.subrange(0, s@.len() as int) =~= s@);
        lemma_byte_len_split(s@, e as int, s@.len() as int);
    }
    while j < e
        invariant
            j <= e <= s@.len(),
            acc == byte_len(s@.subrange(0, j as int)),
            byte_len(s@.subrange(0, e as int)) <= total,
        decreases e - j,
    {
        let w = utf8_width(s[j]);
        proof {
            lemma_byte_len_split(s@, j as int, (j + 1) as int);
            assert(s@.subrange(j as int, (j + 1) as int) =~= seq![s@[j as int]]);
            lemma_byte_len_one(s@[j as int]);
            lemma_byte_len_split(s@, (j + 1) as int, e as int);
        }
        acc = acc + w;
        j = j + 1;
    }
    acc
}

/// A canonical text, with the seam where `.{` was inserted.
#[derive(Debug)]
pub struct Canonical {
    /// The braced text.
    pub text: String,
    /// The byte extent of the inserted `.{` in `text`; `(0, 0)` when the
    /// text was already in the braced form.
    pub seam: (usize, usize),
}

impl Canonical {
    /// A seam that opens no wider than its text allows: the seam's width
    /// is inserted twice (`.{`, and the closing line).
    pub open spec fn well_formed(&self) -> bool {
        &&& self.seam.0 <= self.seam.1
        &&& 2 * (self.seam.1 - self.seam.0) <= byte_len(self.text@)
    }

    /// A byte position of the canonical text mapped back to the source text
    /// (see [`shifted`]).
    pub fn shift(&self, position: usize) -> (r: usize)
        requires
            self.well_formed(),
        ensures
            r == shifted(
                self.seam.0 as int,
                self.seam.1 as int,
                byte_len(self.text@) as int,
                position as int,
            ),
    {
        let (start, end) = self.seam;
        let inserted = end - start;
        let text_len = self.text.as_str().as_bytes().len();
        let source_end = text_len - 2 * inserted;
        if position <= start {
            position
        } else if position < end {
            start
        } else if position - inserted <= source_end {
            position - inserted
        } else {
            source_end
        }
    }

    /// A byte extent of the canonical text mapped back to the source text,
    /// each end by [`Canonical::shift`].
    pub fn resituate(&self, extent: (usize, usize)) -> (r: (usize, usize))
        requires
            self.well_formed(),
        ensures
            r.0 == shifted(
                self.seam.0 as int,
                self.seam.1 as int,
                byte_len(self.text@) as int,
                extent.0 as int,
            ),
            r.1 == shifted(
                self.seam.0 as int,
                self.seam.1 as int,
                byte_len(self.text@) as int,
                extent.1 as int,
            ),
    {
        (self.shift(extent.0), self.shift(extent.1))
    }
}

/// The canonical text of a source, with its seam.
fn canonicalize_sweet(source: &str) -> (r: Canonical)
    ensures
        r.text@ == canonical_text(source@),
        r.seam.0 == canonical_seam(source@).0,
        r.seam.1 == canonical_seam(source@).1,
        r.well_formed(),
{
    let s = chars_of(source);
    let p = skip_leading_ws_comments(&s);
    proof {
        lemma_content_from(s@, 0, false);
    }
    if p >= s.len() {
        return Canonical { text: source.to_owned(), seam: (0, 0) };
    }
    let e = find_word_end(&s, p);
    if e == p {
        return Canonical { text: source.to_owned(), seam: (0, 0) };
    }
    proof {
        lemma_word_end(s@, p as int);
    }
    let k = find_space_end(&s, e);
    proof {
        lemma_space_end(s@, e as int);
    }
    if k < s.len() && s[k] == '.' {
        return Canonical { text: source.to_owned(), seam: (0, 0) };
    }
    let total = source.as_bytes().len();
    let b = prefix_bytes(&s, e, total);
    let mut out = String::new();
    push_range(&mut out, &s, 0, e);
    push_char(&mut out, '.');
    push_char(&mut out, '{');
    push_range(&mut out, &s, e, s.len());
    push_char(&mut out, '\n');
    push_char(&mut out, '}');
    let out_len = out.as_str().as_bytes().len();
    proof {
        let x = s@.subrange(0, e as int);
        let y = s@.subrange(e as int, s@.len() as int);
        assert(out@ =~= canonical_text(source@));
        assert(out@ =~= x + seq!['.'] + seq!['{'] + y + seq!['\n'] + seq!['}']);
        lemma_encode_concat(x + seq!['.'] + seq!['{'] + y + seq!['\n'], seq!['}']);
        lemma_encode_concat(x + seq!['.'] + seq!['{'] + y, seq!['\n']);
        lemma_encode_concat(x + seq!['.'] + seq!['{'], y);
        lemma_encode_concat(x + seq!['.'], seq!['{']);
        lemma_encode_concat(x, seq!['.']);
        lemma_byte_len_one('.');
        lemma_byte_len_one('{');
        lemma_byte_len_one('\n');
        lemma_byte_len_one('}');
        assert(out_len == byte_len(out@));
        assert(byte_len(out@) == b + 4 + byte_len(y));
    }
    Canonical { text: out, seam: (b, b + 2) }
}

/// Sweet ethos text → canonical braced form.
pub trait Canonicalizing {
    fn canonicalize(&self) -> Canonical;
}

impl Canonicalizing for str {
    /// The canonical text of this text (see [`canonical_text`]), with its
    /// seam (see [`canonical_seam`]).
    fn canonicalize(&self) -> (r: Canonical)
        ensures
            r.text@ == canonical_text(self@),
            r.seam.0 == canonical_seam(self@).0,
            r.seam.1 == canonical_seam(self@).1,
            r.well_formed(),
    {
        canonicalize_sweet(self)
    }
}

} // verus!
