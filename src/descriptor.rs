//! Validation of a bundle's descriptor file: a `---` block holding `name:` and
//! optionally `description:`.
use vstd::prelude::*;
use crate::text::{
    find_char, has_prefix, lemma_next_char_bounds, next_char, starts_with, str_eq, trim,
    trim_end_char, trim_matching, trim_start_char, trim_ws,
};

verus! {

/// Why a descriptor file was rejected.
#[derive(PartialEq, Eq, Structural, Clone, Copy, Debug)]
pub enum DescriptorError {
    ReadFailed,
    InvalidFrontmatter,
    MissingName,
}

impl DescriptorError {
    /// The reason code shown to callers.
    pub fn reason(&self) -> (r: &'static str)
        ensures
            r@ == reason_code(*self),
    {
        proof {
            reveal_strlit("read_failed");
            reveal_strlit("invalid_frontmatter");
            reveal_strlit("missing_name");
        }
        match self {
            DescriptorError::ReadFailed => "read_failed",
            DescriptorError::InvalidFrontmatter => "invalid_frontmatter",
            DescriptorError::MissingName => "missing_name",
        }
    }
}

pub open spec fn reason_code(e: DescriptorError) -> Seq<char> {
    match e {
        DescriptorError::ReadFailed => "read_failed"@,
        DescriptorError::InvalidFrontmatter => "invalid_frontmatter"@,
        DescriptorError::MissingName => "missing_name"@,
    }
}

pub open spec fn dashes() -> Seq<char> {
    seq!['-', '-', '-']
}

pub open spec fn name_key() -> Seq<char> {
    seq!['n', 'a', 'm', 'e', ':']
}

pub open spec fn description_key() -> Seq<char> {
    seq!['d', 'e', 's', 'c', 'r', 'i', 'p', 't', 'i', 'o', 'n', ':']
}

/// The lines of `text` from position `pos` on, split at `\n`.
pub open spec fn lines_from(text: Seq<char>, pos: int) -> Seq<Seq<char>>
    decreases text.len() - pos,
{
    let e = next_char(text, '\n', pos);
    if pos < 0 || e >= text.len() || e < pos {
        seq![text.subrange(pos, text.len() as int)]
    } else {
        seq![text.subrange(pos, e)] + lines_from(text, e + 1)
    }
}

pub open spec fn lines_of(text: Seq<char>) -> Seq<Seq<char>> {
    lines_from(text, 0)
}

/// A field's value: the rest of the line, trimmed, without surrounding quotes.
pub open spec fn field_value(rest: Seq<char>) -> Seq<char> {
    trim_end_char(trim_start_char(trim_ws(rest), '"'), '"')
}

pub open spec fn after(s: Seq<char>, p: Seq<char>) -> Seq<char> {
    s.subrange(p.len() as int, s.len() as int)
}

pub open spec fn next_name(l: Seq<char>, name: Option<Seq<char>>) -> Option<Seq<char>> {
    if has_prefix(l, name_key()) {
        Some(field_value(after(l, name_key())))
    } else {
        name
    }
}

pub open spec fn next_desc(l: Seq<char>, desc: Option<Seq<char>>) -> Option<Seq<char>> {
    if !has_prefix(l, name_key()) && has_prefix(l, description_key()) {
        Some(field_value(after(l, description_key())))
    } else {
        desc
    }
}

/// Reads the header lines from index `i` up to the closing `---`: the last `name:` and
/// `description:` seen, or `None` when no closing line follows.
pub open spec fn scan_header(
    ls: Seq<Seq<char>>,
    i: int,
    name: Option<Seq<char>>,
    desc: Option<Seq<char>>,
) -> Option<(Option<Seq<char>>, Option<Seq<char>>)>
    decreases ls.len() - i,
{
    if i < 0 || i >= ls.len() {
        None
    } else if trim_ws(ls[i]) == dashes() {
        Some((name, desc))
    } else {
        let l = trim_ws(ls[i]);
        scan_header(ls, i + 1, next_name(l, name), next_desc(l, desc))
    }
}

/// The result of validating descriptor text.
pub open spec fn parse_descriptor(text: Seq<char>) -> Result<
    (Seq<char>, Option<Seq<char>>),
    DescriptorError,
> {
    let ls = lines_of(text);
    if trim_ws(ls[0]) != dashes() {
        Err(DescriptorError::InvalidFrontmatter)
    } else {
        match scan_header(ls, 1, None, None) {
            None => Err(DescriptorError::InvalidFrontmatter),
            Some((None, _)) => Err(DescriptorError::MissingName),
            Some((Some(n), d)) => Ok((n, d)),
        }
    }
}

pub open spec fn descriptor_view(r: Result<(String, Option<String>), DescriptorError>) -> Result<
    (Seq<char>, Option<Seq<char>>),
    DescriptorError,
> {
    match r {
        Ok((n, d)) => Ok((n@, crate::source::opt_view(d))),
        Err(e) => Err(e),
    }
}

proof fn lemma_lines_from_shape(text: Seq<char>, pos: int)
    requires
        0 <= pos <= text.len(),
    ensures
        lines_from(text, pos).len() >= 1,
        lines_from(text, pos)[0] == text.subrange(pos, next_char(text, '\n', pos)),
        next_char(text, '\n', pos) < text.len() ==> lines_from(text, pos).drop_first()
            == lines_from(text, next_char(text, '\n', pos) + 1),
        next_char(text, '\n', pos) >= text.len() ==> lines_from(text, pos).len() == 1,
{
    lemma_next_char_bounds(text, '\n', pos);
    let e = next_char(text, '\n', pos);
    if e < text.len() {
        assert((seq![text.subrange(pos, e)] + lines_from(text, e + 1)).drop_first()
            =~= lines_from(text, e + 1));
    }
}

fn lit_dashes() -> (r: &'static str)
    ensures
        r@ == dashes(),
{
    proof {
        reveal_strlit("---");
        assert("---"@ =~= dashes());
    }
    "---"
}

fn lit_name_key() -> (r: &'static str)
    ensures
        r@ == name_key(),
{
    proof {
        reveal_strlit("name:");
        assert("name:"@ =~= name_key());
    }
    "name:"
}

fn lit_description_key() -> (r: &'static str)
    ensures
        r@ == description_key(),
{
    proof {
        reveal_strlit("description:");
        assert("description:"@ =~= description_key());
    }
    "description:"
}

fn field_value_of(l: &str, key_len: usize) -> (r: String)
    requires
        key_len <= l@.len(),
    ensures
        r@ == field_value(l@.subrange(key_len as int, l@.len() as int)),
{
    let n = l.unicode_len();
    String::from_str(trim_matching(trim(l.substring_char(key_len, n)), '"'))
}

/// Validates descriptor text: the first line must be `---`, a later line `---` must close
/// the header, and the header must hold `name:`. Returns the name and the description.
pub fn parse_skill_md_with_reason(text: &str) -> (r: Result<(String, Option<String>), DescriptorError>)
    ensures
        descriptor_view(r) == parse_descriptor(text@),
{
    let ghost ls = lines_of(text@);
    let n = text.unicode_len();
    let e0 = find_char(text, '\n', 0);
    proof {
        lemma_lines_from_shape(text@, 0);
        lemma_next_char_bounds(text@, '\n', 0);
    }
    let first = trim(text.substring_char(0, e0));
    if !str_eq(first, lit_dashes()) {
        return Err(DescriptorError::InvalidFrontmatter);
    }
    if e0 >= n {
        assert(scan_header(ls, 1, None, None) == None::<(Option<Seq<char>>, Option<Seq<char>>)>);
        return Err(DescriptorError::InvalidFrontmatter);
    }
    let mut pos: usize = e0 + 1;
    let ghost mut k: int = 1;
    let mut name: Option<String> = None;
    let mut desc: Option<String> = None;
    assert(ls.subrange(1, ls.len() as int) =~= ls.drop_first());
    loop
        invariant
            n == text@.len(),
            0 < pos <= n,
            1 <= k <= ls.len(),
            ls == lines_of(text@),
            trim_ws(ls[0]) == dashes(),
            lines_from(text@, pos as int) == ls.subrange(k, ls.len() as int),
            scan_header(ls, k, crate::source::opt_view(name), crate::source::opt_view(desc))
                == scan_header(ls, 1, None, None),
        decreases n - pos,
    {
        let e = find_char(text, '\n', pos);
        proof {
            lemma_lines_from_shape(text@, pos as int);
            lemma_next_char_bounds(text@, '\n', pos as int);
            assert(ls[k] == ls.subrange(k, ls.len() as int)[0]);
        }
        let l = trim(text.substring_char(pos, e));
        if str_eq(l, lit_dashes()) {
            return match name {
                Some(nm) => Ok((nm, desc)),
                None => Err(DescriptorError::MissingName),
            };
        }
        let ghost old_name = crate::source::opt_view(name);
        let ghost old_desc = crate::source::opt_view(desc);
        if starts_with(l, lit_name_key()) {
            name = Some(field_value_of(l, 5));
        } else if starts_with(l, lit_description_key()) {
            desc = Some(field_value_of(l, 12));
        }
        if e >= n {
            proof {
                assert(ls.len() == k + 1) by {
                    assert(ls.subrange(k, ls.len() as int).len() == 1);
                }
                assert(scan_header(ls, k, old_name, old_desc) == scan_header(
                    ls,
                    k + 1,
                    crate::source::opt_view(name),
                    crate::source::opt_view(desc),
                ));
            }
            return Err(DescriptorError::InvalidFrontmatter);
        }
        proof {
            assert(ls.subrange(k + 1, ls.len() as int) =~= ls.subrange(
                k,
                ls.len() as int,
            ).drop_first());
            k = k + 1;
        }
        pos = e + 1;
    }
}

proof fn lemma_scan_unclosed(
    ls: Seq<Seq<char>>,
    i: int,
    name: Option<Seq<char>>,
    desc: Option<Seq<char>>,
)
    requires
        0 <= i,
        forall|j: int| i <= j < ls.len() ==> trim_ws(#[trigger] ls[j]) != dashes(),
    ensures
        scan_header(ls, i, name, desc) is None,
    decreases ls.len() - i,
{
    if i < ls.len() {
        let l = trim_ws(ls[i]);
        lemma_scan_unclosed(ls, i + 1, next_name(l, name), next_desc(l, desc));
    }
}

proof fn lemma_scan_nameless(ls: Seq<Seq<char>>, i: int, desc: Option<Seq<char>>, k: int)
    requires
        0 <= i <= k < ls.len(),
        trim_ws(ls[k]) == dashes(),
        forall|j: int|
            i <= j < k ==> trim_ws(#[trigger] ls[j]) != dashes() && !has_prefix(
                trim_ws(ls[j]),
                name_key(),
            ),
    ensures
        scan_header(ls, i, None, desc) matches Some((None, _)),
    decreases k - i,
{
    if i < k {
        lemma_scan_nameless(ls, i + 1, next_desc(trim_ws(ls[i]), desc), k);
    }
}

/// A descriptor whose header is never closed by a second `---` line is rejected as
/// invalid front matter.
pub proof fn law_unclosed_descriptor_is_invalid(text: Seq<char>)
    requires
        forall|j: int| 1 <= j < lines_of(text).len() ==> trim_ws(#[trigger] lines_of(text)[j]) != dashes(),
    ensures
        parse_descriptor(text) == Err::<(Seq<char>, Option<Seq<char>>), _>(
            DescriptorError::InvalidFrontmatter,
        ),
{
    lemma_scan_unclosed(lines_of(text), 1, None, None);
}

/// A descriptor with both `---` markers but no `name:` line between them is rejected as
/// missing its name.
pub proof fn law_nameless_descriptor_is_missing_name(text: Seq<char>, close: int)
    requires
        trim_ws(lines_of(text)[0]) == dashes(),
        1 <= close < lines_of(text).len(),
        trim_ws(lines_of(text)[close]) == dashes(),
        forall|j: int|
            1 <= j < close ==> trim_ws(#[trigger] lines_of(text)[j]) != dashes() && !has_prefix(
                trim_ws(lines_of(text)[j]),
                name_key(),
            ),
    ensures
        parse_descriptor(text) == Err::<(Seq<char>, Option<Seq<char>>), _>(
            DescriptorError::MissingName,
        ),
{
    lemma_scan_nameless(lines_of(text), 1, None, close);
}

/// The name and description of valid descriptor text, `None` when it is rejected.
pub fn parse_skill_md(text: &str) -> (r: Option<(String, Option<String>)>)
    ensures
        match parse_descriptor(text@) {
            Ok((n, d)) => r matches Some((rn, rd)) && rn@ == n && crate::source::opt_view(rd) == d,
            Err(_) => r is None,
        },
{
    match parse_skill_md_with_reason(text) {
        Ok(v) => Some(v),
        Err(_) => None,
    }
}

} // verus!
