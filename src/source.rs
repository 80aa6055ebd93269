//! Source resolver: turns a user-supplied reference into a fetchable git source.
use vstd::prelude::*;
use crate::text::{
    contains_char, ends_with, find_char, has_prefix, has_suffix, last_segment, last_segment_of,
    lemma_next_char_bounds, next_char, starts_with, str_eq, strip_suffix, trim, trim_end_char,
    trim_end_matching, trim_ws,
};

verus! {

/// A reference resolved into clone URL, optional branch and optional subpath.
pub struct ParsedGitSource {
    pub clone_url: String,
    pub branch: Option<String>,
    pub subpath: Option<String>,
}

/// The mathematical value of a parsed reference.
pub struct SourceModel {
    pub clone_url: Seq<char>,
    pub branch: Option<Seq<char>>,
    pub subpath: Option<Seq<char>>,
}

pub open spec fn opt_view(o: Option<String>) -> Option<Seq<char>> {
    match o {
        Some(s) => Some(s@),
        None => None,
    }
}

impl View for ParsedGitSource {
    type V = SourceModel;

    open spec fn view(&self) -> SourceModel {
        SourceModel {
            clone_url: self.clone_url@,
            branch: opt_view(self.branch),
            subpath: opt_view(self.subpath),
        }
    }
}

pub open spec fn gh_https() -> Seq<char> {
    seq!['h', 't', 't', 'p', 's', ':', '/', '/', 'g', 'i', 't', 'h', 'u', 'b', '.', 'c', 'o', 'm', '/']
}

pub open spec fn gh_http() -> Seq<char> {
    seq!['h', 't', 't', 'p', ':', '/', '/', 'g', 'i', 't', 'h', 'u', 'b', '.', 'c', 'o', 'm', '/']
}

pub open spec fn gh_bare() -> Seq<char> {
    seq!['g', 'i', 't', 'h', 'u', 'b', '.', 'c', 'o', 'm', '/']
}

pub open spec fn https_scheme() -> Seq<char> {
    seq!['h', 't', 't', 'p', 's', ':', '/', '/']
}

pub open spec fn dot_git() -> Seq<char> {
    seq!['.', 'g', 'i', 't']
}

pub open spec fn word_tree() -> Seq<char> {
    seq!['t', 'r', 'e', 'e']
}

pub open spec fn word_blob() -> Seq<char> {
    seq!['b', 'l', 'o', 'b']
}

pub open spec fn is_safe_char(c: char) -> bool {
    ('a' <= c && c <= 'z') || ('A' <= c && c <= 'Z') || ('0' <= c && c <= '9') || c == '-' || c
        == '_' || c == '.'
}

/// Every character is a letter, digit, `-`, `_` or `.`.
pub open spec fn all_safe(s: Seq<char>) -> bool {
    forall|i: int| 0 <= i < s.len() ==> is_safe_char(#[trigger] s[i])
}

pub open spec fn is_dot_segment(s: Seq<char>) -> bool {
    s == seq!['.'] || s == seq!['.', '.']
}

/// Whether `s` reads as GitHub `owner/repo` shorthand: no scheme markers, no `@` or `:`,
/// two safe segments, and, when more follows, a `tree` or `blob` segment next.
pub open spec fn looks_like_shorthand(s: Seq<char>) -> bool {
    let b0 = next_char(s, '/', 0);
    let b1 = next_char(s, '/', b0 + 1);
    let owner = s.subrange(0, b0);
    let repo = s.subrange(b0 + 1, b1);
    let kind = s.subrange(b1 + 1, next_char(s, '/', b1 + 1));
    &&& s.len() > 0
    &&& s[0] != '/' && s[0] != '~' && s[0] != '.'
    &&& !s.contains('@') && !s.contains(':')
    &&& b0 < s.len()
    &&& owner.len() > 0 && repo.len() > 0
    &&& !is_dot_segment(owner) && !is_dot_segment(repo)
    &&& all_safe(owner) && all_safe(repo)
    &&& (b1 < s.len() ==> kind == word_tree() || kind == word_blob())
}

/// The reference rewritten to a full `https://github.com/` URL where it is GitHub-shaped.
pub open spec fn normalize_ref(t: Seq<char>) -> Seq<char> {
    if has_prefix(t, gh_https()) {
        t
    } else if has_prefix(t, gh_http()) {
        gh_https() + t.subrange(gh_http().len() as int, t.len() as int)
    } else if has_prefix(t, gh_bare()) {
        https_scheme() + t
    } else if looks_like_shorthand(t) {
        gh_https() + t
    } else {
        t
    }
}

pub open spec fn canonical_clone_url(owner: Seq<char>, repo: Seq<char>) -> Seq<char> {
    gh_https() + owner + seq!['/'] + repo + dot_git()
}

/// What a GitHub URL (after the `https://github.com/` prefix, as `rest`) resolves to.
pub open spec fn parse_github_rest(t: Seq<char>, rest: Seq<char>) -> SourceModel {
    let b0 = next_char(rest, '/', 0);
    let b1 = next_char(rest, '/', b0 + 1);
    let b2 = next_char(rest, '/', b1 + 1);
    let b3 = next_char(rest, '/', b2 + 1);
    let kind = rest.subrange(b1 + 1, b2);
    let url = canonical_clone_url(
        rest.subrange(0, b0),
        strip_suffix(rest.subrange(b0 + 1, b1), dot_git()),
    );
    if b0 >= rest.len() {
        SourceModel { clone_url: t, branch: None, subpath: None }
    } else if b2 < rest.len() && (kind == word_tree() || kind == word_blob()) {
        SourceModel {
            clone_url: url,
            branch: Some(rest.subrange(b2 + 1, b3)),
            subpath: if b3 < rest.len() {
                Some(rest.subrange(b3 + 1, rest.len() as int))
            } else {
                None
            },
        }
    } else {
        SourceModel { clone_url: url, branch: None, subpath: None }
    }
}

/// The resolution of a reference.
pub open spec fn parse_ref(input: Seq<char>) -> SourceModel {
    let t = trim_end_char(normalize_ref(trim_end_char(trim_ws(input), '/')), '/');
    if has_prefix(t, gh_https()) {
        parse_github_rest(t, t.subrange(gh_https().len() as int, t.len() as int))
    } else {
        SourceModel { clone_url: t, branch: None, subpath: None }
    }
}

fn is_safe_segment(s: &str) -> (r: bool)
    ensures
        r == all_safe(s@),
{
    let n = s.unicode_len();
    let mut i: usize = 0;
    while i < n
        invariant
            n == s@.len(),
            i <= n,
            forall|k: int| 0 <= k < i ==> is_safe_char(#[trigger] s@[k]),
        decreases n - i,
    {
        let c = s.get_char(i);
        if !(('a' <= c && c <= 'z') || ('A' <= c && c <= 'Z') || ('0' <= c && c <= '9') || c
            == '-' || c == '_' || c == '.') {
            return false;
        }
        i = i + 1;
    }
    true
}

fn is_dot_or_dotdot(s: &str) -> (r: bool)
    ensures
        r == is_dot_segment(s@),
{
    proof {
        reveal_strlit(".");
        reveal_strlit("..");
        assert("."@ =~= seq!['.']);
        assert(".."@ =~= seq!['.', '.']);
    }
    str_eq(s, ".") || str_eq(s, "..")
}

fn is_tree_or_blob(s: &str) -> (r: bool)
    ensures
        r == (s@ == word_tree() || s@ == word_blob()),
{
    proof {
        reveal_strlit("tree");
        reveal_strlit("blob");
        assert("tree"@ =~= word_tree());
        assert("blob"@ =~= word_blob());
    }
    str_eq(s, "tree") || str_eq(s, "blob")
}

/// Whether `input` is GitHub `owner/repo` shorthand (optionally followed by a `tree` or
/// `blob` path), as opposed to a local path or another kind of remote.
pub fn looks_like_github_shorthand(input: &str) -> (r: bool)
    ensures
        r == looks_like_shorthand(input@),
{
    let n = input.unicode_len();
    if n == 0 {
        return false;
    }
    let c0 = input.get_char(0);
    if c0 == '/' || c0 == '~' || c0 == '.' {
        return false;
    }
    if contains_char(input, '@') || contains_char(input, ':') {
        return false;
    }
    let b0 = find_char(input, '/', 0);
    proof {
        lemma_next_char_bounds(input@, '/', 0);
    }
    if b0 >= n {
        return false;
    }
    let b1 = find_char(input, '/', b0 + 1);
    proof {
        lemma_next_char_bounds(input@, '/', b0 + 1);
    }
    let owner = input.substring_char(0, b0);
    let repo = input.substring_char(b0 + 1, b1);
    if owner.unicode_len() == 0 || repo.unicode_len() == 0 {
        return false;
    }
    if is_dot_or_dotdot(owner) || is_dot_or_dotdot(repo) {
        return false;
    }
    if !is_safe_segment(owner) || !is_safe_segment(repo) {
        return false;
    }
    if b1 < n {
        let b2 = find_char(input, '/', b1 + 1);
        proof {
            lemma_next_char_bounds(input@, '/', b1 + 1);
        }
        is_tree_or_blob(input.substring_char(b1 + 1, b2))
    } else {
        true
    }
}

fn lit_gh_https() -> (r: &'static str)
    ensures
        r@ == gh_https(),
{
    proof {
        reveal_strlit("https://github.com/");
        assert("https://github.com/"@ =~= gh_https());
    }
    "https://github.com/"
}

fn lit_gh_http() -> (r: &'static str)
    ensures
        r@ == gh_http(),
{
    proof {
        reveal_strlit("http://github.com/");
        assert("http://github.com/"@ =~= gh_http());
    }
    "http://github.com/"
}

fn lit_gh_bare() -> (r: &'static str)
    ensures
        r@ == gh_bare(),
{
    proof {
        reveal_strlit("github.com/");
        assert("github.com/"@ =~= gh_bare());
    }
    "github.com/"
}

fn lit_https_scheme() -> (r: &'static str)
    ensures
        r@ == https_scheme(),
{
    proof {
        reveal_strlit("https://");
        assert("https://"@ =~= https_scheme());
    }
    "https://"
}

fn lit_dot_git() -> (r: &'static str)
    ensures
        r@ == dot_git(),
{
    proof {
        reveal_strlit(".git");
        assert(".git"@ =~= dot_git());
    }
    ".git"
}

fn lit_slash() -> (r: &'static str)
    ensures
        r@ == seq!['/'],
{
    proof {
        reveal_strlit("/");
        assert("/"@ =~= seq!['/']);
    }
    "/"
}

/// `s` without one trailing `.git`.
fn strip_dot_git<'a>(s: &'a str) -> (r: &'a str)
    ensures
        r@ == strip_suffix(s@, dot_git()),
{
    let n = s.unicode_len();
    if ends_with(s, lit_dot_git()) {
        s.substring_char(0, n - 4)
    } else {
        assert(s@.subrange(0, n as int) =~= s@);
        s.substring_char(0, n)
    }
}

fn parse_github_rest_exec(t: &str, rest: &str) -> (r: ParsedGitSource)
    ensures
        r@ == parse_github_rest(t@, rest@),
{
    let n = rest.unicode_len();
    let b0 = find_char(rest, '/', 0);
    proof {
        lemma_next_char_bounds(rest@, '/', 0);
    }
    if b0 >= n {
        return ParsedGitSource { clone_url: String::from_str(t), branch: None, subpath: None };
    }
    let b1 = find_char(rest, '/', b0 + 1);
    proof {
        lemma_next_char_bounds(rest@, '/', b0 + 1);
    }
    let owner = rest.substring_char(0, b0);
    let repo = strip_dot_git(rest.substring_char(b0 + 1, b1));
    let clone_url = String::from_str(lit_gh_https()).concat(owner).concat(lit_slash()).concat(
        repo,
    ).concat(lit_dot_git());
    if b1 < n {
        let b2 = find_char(rest, '/', b1 + 1);
        proof {
            lemma_next_char_bounds(rest@, '/', b1 + 1);
        }
        if b2 < n && is_tree_or_blob(rest.substring_char(b1 + 1, b2)) {
            let b3 = find_char(rest, '/', b2 + 1);
            proof {
                lemma_next_char_bounds(rest@, '/', b2 + 1);
            }
            let branch = Some(String::from_str(rest.substring_char(b2 + 1, b3)));
            let subpath = if b3 < n {
                Some(String::from_str(rest.substring_char(b3 + 1, n)))
            } else {
                None
            };
            return ParsedGitSource { clone_url, branch, subpath };
        }
    } else {
        assert(next_char(rest@, '/', b1 + 1) == n);
    }
    ParsedGitSource { clone_url, branch: None, subpath: None }
}

/// Resolves a reference: full GitHub URLs (`https`, `http`, bare `github.com/`), `owner/repo`
/// shorthand and `tree`/`blob` folder URLs become a canonical `https://github.com/o/r.git`
/// clone URL with optional branch and subpath; anything else passes through trimmed.
pub fn parse_github_url(input: &str) -> (r: ParsedGitSource)
    ensures
        r@ == parse_ref(input@),
{
    let t1 = trim_end_matching(trim(input), '/');
    let n1 = t1.unicode_len();
    let normalized: String = if starts_with(t1, lit_gh_https()) {
        String::from_str(t1)
    } else if starts_with(t1, lit_gh_http()) {
        String::from_str(lit_gh_https()).concat(t1.substring_char(18, n1))
    } else if starts_with(t1, lit_gh_bare()) {
        String::from_str(lit_https_scheme()).concat(t1)
    } else if looks_like_github_shorthand(t1) {
        String::from_str(lit_gh_https()).concat(t1)
    } else {
        String::from_str(t1)
    };
    let t = trim_end_matching(normalized.as_str(), '/');
    if !starts_with(t, lit_gh_https()) {
        return ParsedGitSource { clone_url: String::from_str(t), branch: None, subpath: None };
    }
    let n = t.unicode_len();
    parse_github_rest_exec(t, t.substring_char(19, n))
}

pub open spec fn default_skill_name() -> Seq<char> {
    seq!['s', 'k', 'i', 'l', 'l']
}

/// The repository name of a clone URL: its last `/` segment without `.git`, or `skill`.
pub open spec fn repo_name(url: Seq<char>) -> Seq<char> {
    let name = strip_suffix(last_segment(url, '/'), dot_git());
    if name.len() == 0 {
        default_skill_name()
    } else {
        name
    }
}

/// The name a skill gets from a repository URL when none is given.
pub fn derive_name_from_repo_url(repo_url: &str) -> (r: String)
    ensures
        r@ == repo_name(repo_url@),
{
    let name = strip_dot_git(last_segment_of(repo_url, '/'));
    if name.unicode_len() == 0 {
        proof {
            reveal_strlit("skill");
            assert("skill"@ =~= default_skill_name());
        }
        String::from_str("skill")
    } else {
        String::from_str(name)
    }
}

/// The display name of a skill installed from `parsed` when the caller gives none: the last
/// segment of the subpath, else the repository name.
pub open spec fn git_install_name(parsed: SourceModel, name: Option<Seq<char>>) -> Seq<char> {
    match name {
        Some(n) => n,
        None => match parsed.subpath {
            Some(sub) => last_segment(sub, '/'),
            None => repo_name(parsed.clone_url),
        },
    }
}

pub fn install_name_for(parsed: &ParsedGitSource, name: Option<String>) -> (r: String)
    ensures
        r@ == git_install_name(parsed@, opt_view(name)),
{
    match name {
        Some(n) => n,
        None => match &parsed.subpath {
            Some(sub) => String::from_str(last_segment_of(sub.as_str(), '/')),
            None => derive_name_from_repo_url(parsed.clone_url.as_str()),
        },
    }
}

pub open spec fn is_path_char(c: char) -> bool {
    is_safe_char(c) || c == '/'
}

pub open spec fn all_path_chars(s: Seq<char>) -> bool {
    forall|i: int| 0 <= i < s.len() ==> is_path_char(#[trigger] s[i])
}

/// The `/tree/<branch>` or `/blob/<branch>` part of a folder URL, with an optional path.
pub open spec fn folder_tail(kind: Seq<char>, branch: Seq<char>, path: Option<Seq<char>>) -> Seq<
    char,
> {
    seq!['/'] + kind + seq!['/'] + branch + match path {
        Some(p) => seq!['/'] + p,
        None => Seq::empty(),
    }
}

pub open spec fn repo_segment(repo: Seq<char>, git_suffix: bool) -> Seq<char> {
    if git_suffix {
        repo + dot_git()
    } else {
        repo
    }
}

/// `owner/repo[.git][/tree|blob/<branch>[/<path>]]`.
pub open spec fn github_body(
    owner: Seq<char>,
    repo: Seq<char>,
    git_suffix: bool,
    folder: Option<(Seq<char>, Seq<char>, Option<Seq<char>>)>,
) -> Seq<char> {
    owner + seq!['/'] + repo_segment(repo, git_suffix) + match folder {
        Some((k, b, p)) => folder_tail(k, b, p),
        None => Seq::empty(),
    }
}

/// A GitHub owner name: letters, digits, `-` and `_`.
pub open spec fn valid_owner(owner: Seq<char>) -> bool {
    owner.len() > 0 && all_safe(owner) && !owner.contains('.')
}

/// A repository name, given without its `.git` suffix.
pub open spec fn valid_repo(repo: Seq<char>) -> bool {
    repo.len() > 0 && all_safe(repo) && !is_dot_segment(repo) && !has_suffix(repo, dot_git())
}

/// A `tree`/`blob` part: a one-segment branch and, if any, a path not ending in `/`.
pub open spec fn valid_folder(folder: Option<(Seq<char>, Seq<char>, Option<Seq<char>>)>) -> bool {
    match folder {
        Some((k, b, p)) => (k == word_tree() || k == word_blob()) && b.len() > 0 && all_safe(b)
            && match p {
            Some(p) => p.len() > 0 && all_path_chars(p) && p.last() != '/',
            None => true,
        },
        None => true,
    }
}

pub open spec fn expected_source(
    owner: Seq<char>,
    repo: Seq<char>,
    folder: Option<(Seq<char>, Seq<char>, Option<Seq<char>>)>,
) -> SourceModel {
    SourceModel {
        clone_url: canonical_clone_url(owner, repo),
        branch: match folder {
            Some((_, b, _)) => Some(b),
            None => None,
        },
        subpath: match folder {
            Some((_, _, p)) => p,
            None => None,
        },
    }
}

proof fn lemma_next_shift(x: Seq<char>, y: Seq<char>, j: int)
    requires
        0 <= j,
    ensures
        next_char(x + y, '/', x.len() + j) == x.len() + next_char(y, '/', j),
    decreases y.len() - j,
{
    if j < y.len() {
        assert((x + y)[x.len() + j] == y[j]);
        if y[j] != '/' {
            lemma_next_shift(x, y, j + 1);
        }
    }
}

proof fn lemma_next_skip(x: Seq<char>, y: Seq<char>, from: int)
    requires
        0 <= from <= x.len(),
        forall|i: int| from <= i < x.len() ==> x[i] != '/',
    ensures
        next_char(x + y, '/', from) == next_char(x + y, '/', x.len() as int),
    decreases x.len() - from,
{
    if from < x.len() {
        assert((x + y)[from] == x[from]);
        lemma_next_skip(x, y, from + 1);
    }
}

/// Where the next `/` after a slash-free prefix `x` is found in `x + y`.
proof fn lemma_next_after(x: Seq<char>, y: Seq<char>)
    requires
        forall|i: int| 0 <= i < x.len() ==> x[i] != '/',
    ensures
        next_char(x + y, '/', 0) == x.len() + next_char(y, '/', 0),
{
    lemma_next_skip(x, y, 0);
    lemma_next_shift(x, y, 0);
}

proof fn lemma_safe_no_slash(s: Seq<char>)
    requires
        all_safe(s),
    ensures
        forall|i: int| 0 <= i < s.len() ==> s[i] != '/' && s[i] != ':' && s[i] != '@' && s[i] != '~',
{
    assert forall|i: int| 0 <= i < s.len() implies s[i] != '/' && s[i] != ':' && s[i] != '@'
        && s[i] != '~' by {
        assert(is_safe_char(s[i]));
    }
}

proof fn lemma_repo_segment(repo: Seq<char>, g: bool)
    requires
        valid_repo(repo),
    ensures
        all_safe(repo_segment(repo, g)),
        repo_segment(repo, g).len() > 0,
        !is_dot_segment(repo_segment(repo, g)),
        strip_suffix(repo_segment(repo, g), dot_git()) == repo,
{
    let rs = repo_segment(repo, g);
    if g {
        assert(rs.subrange(rs.len() - 4, rs.len() as int) =~= dot_git());
        assert(rs.subrange(0, rs.len() - 4) =~= repo);
        assert forall|i: int| 0 <= i < rs.len() implies is_safe_char(#[trigger] rs[i]) by {
            if i < repo.len() {
                assert(rs[i] == repo[i]);
            } else {
                assert(rs[i] == dot_git()[i - repo.len()]);
            }
        }
        assert(rs.len() >= 5);
    }
}

proof fn lemma_body_heads(o: Seq<char>, rs: Seq<char>, tl: Seq<char>)
    requires
        forall|i: int| 0 <= i < o.len() ==> o[i] != '/',
        forall|i: int| 0 <= i < rs.len() ==> rs[i] != '/',
        tl.len() > 0 ==> tl[0] == '/',
    ensures
        next_char(o + seq!['/'] + rs + tl, '/', 0) == o.len(),
        (o + seq!['/'] + rs + tl).subrange(0, o.len() as int) == o,
        next_char(o + seq!['/'] + rs + tl, '/', o.len() as int + 1) == o.len() as int + 1 + rs.len(),
        (o + seq!['/'] + rs + tl).subrange(o.len() as int + 1, o.len() as int + 1 + rs.len()) == rs,
{
    let sl = seq!['/'];
    let body = o + sl + rs + tl;
    assert(body =~= o + (sl + rs + tl));
    lemma_next_after(o, sl + rs + tl);
    assert(body.subrange(0, o.len() as int) =~= o);
    assert(body =~= (o + sl) + (rs + tl));
    lemma_next_shift(o + sl, rs + tl, 0);
    lemma_next_after(rs, tl);
    assert(next_char(tl, '/', 0) == 0) by {
        if tl.len() > 0 {
            assert(tl[0] == '/');
        }
    }
    assert(body.subrange(o.len() as int + 1, o.len() as int + 1 + rs.len()) =~= rs);
}

proof fn lemma_folder_positions(w: Seq<char>, k: Seq<char>, b: Seq<char>, pt: Seq<char>)
    requires
        k.len() == 4,
        forall|i: int| 0 <= i < k.len() ==> k[i] != '/',
        forall|i: int| 0 <= i < b.len() ==> b[i] != '/',
        pt.len() > 0 ==> pt[0] == '/',
    ensures
        next_char(w + folder_join(k, b, pt), '/', w.len() as int + 1) == w.len() as int + 5,
        (w + folder_join(k, b, pt)).subrange(w.len() as int + 1, w.len() as int + 5) == k,
        next_char(w + folder_join(k, b, pt), '/', w.len() as int + 6) == w.len() as int + 6 + b.len(),
        (w + folder_join(k, b, pt)).subrange(w.len() as int + 6, w.len() as int + 6 + b.len()) == b,
{
    let sl = seq!['/'];
    let body = w + folder_join(k, b, pt);
    assert(body =~= (w + sl) + (k + (sl + b + pt)));
    lemma_next_shift(w + sl, k + (sl + b + pt), 0);
    lemma_next_after(k, sl + b + pt);
    assert(body.subrange(w.len() as int + 1, w.len() as int + 5) =~= k);
    assert(body =~= (w + sl + k + sl) + (b + pt));
    lemma_next_shift(w + sl + k + sl, b + pt, 0);
    lemma_next_after(b, pt);
    assert(next_char(pt, '/', 0) == 0) by {
        if pt.len() > 0 {
            assert(pt[0] == '/');
        }
    }
    assert(body.subrange(w.len() as int + 6, w.len() as int + 6 + b.len()) =~= b);
}

pub open spec fn folder_join(k: Seq<char>, b: Seq<char>, pt: Seq<char>) -> Seq<char> {
    seq!['/'] + k + seq!['/'] + b + pt
}

pub open spec fn path_tail(p: Option<Seq<char>>) -> Seq<char> {
    match p {
        Some(p) => seq!['/'] + p,
        None => Seq::empty(),
    }
}

pub open spec fn body_tail(folder: Option<(Seq<char>, Seq<char>, Option<Seq<char>>)>) -> Seq<char> {
    match folder {
        Some((k, b, p)) => folder_tail(k, b, p),
        None => Seq::empty(),
    }
}

/// How a GitHub body (what follows `https://github.com/`) resolves.
#[verifier::rlimit(40)]
proof fn lemma_parse_body(
    t: Seq<char>,
    o: Seq<char>,
    r: Seq<char>,
    g: bool,
    folder: Option<(Seq<char>, Seq<char>, Option<Seq<char>>)>,
)
    requires
        valid_owner(o),
        valid_repo(r),
        valid_folder(folder),
    ensures
        parse_github_rest(t, github_body(o, r, g, folder)) == expected_source(o, r, folder),
{
    let rs = repo_segment(r, g);
    lemma_repo_segment(r, g);
    lemma_safe_no_slash(o);
    lemma_safe_no_slash(rs);
    let tl = body_tail(folder);
    let body = github_body(o, r, g, folder);
    assert(body == o + seq!['/'] + rs + tl);
    assert(tl.len() > 0 ==> tl[0] == '/');
    lemma_body_heads(o, rs, tl);
    let b1 = o.len() + 1 + rs.len();
    match folder {
        None => {
            assert(body.len() == b1);
        },
        Some((k, b, p)) => {
            lemma_safe_no_slash(b);
            assert(k[0] != '/' && k[1] != '/' && k[2] != '/' && k[3] != '/');
            let w = o + seq!['/'] + rs;
            let pt = path_tail(p);
            assert(tl =~= folder_join(k, b, pt));
            assert(body =~= w + folder_join(k, b, pt));
            assert(pt.len() > 0 ==> pt[0] == '/');
            lemma_folder_positions(w, k, b, pt);
            let b3 = w.len() as int + 6 + b.len();
            match p {
                Some(pp) => {
                    assert(body.subrange(b3 + 1, body.len() as int) =~= pp);
                },
                None => {
                    assert(b3 == body.len());
                },
            }
        },
    }
}

proof fn lemma_safe_not_ws(c: char)
    requires
        is_safe_char(c),
    ensures
        !crate::text::is_ws(c),
        c != '/',
{
}

proof fn lemma_trim_ws_id(s: Seq<char>)
    requires
        s.len() > 0,
        !crate::text::is_ws(s[0]),
        !crate::text::is_ws(s.last()),
    ensures
        trim_ws(s) == s,
{
}

proof fn lemma_trim_slash_id(s: Seq<char>)
    requires
        s.len() > 0,
        s.last() != '/',
    ensures
        trim_end_char(s, '/') == s,
{
}

proof fn lemma_path_chars_concat(a: Seq<char>, b: Seq<char>)
    requires
        all_path_chars(a),
        all_path_chars(b),
    ensures
        all_path_chars(a + b),
{
    assert forall|i: int| 0 <= i < (a + b).len() implies is_path_char(#[trigger] (a + b)[i]) by {
        if i < a.len() {
            assert((a + b)[i] == a[i]);
        } else {
            assert((a + b)[i] == b[i - a.len()]);
        }
    }
}

proof fn lemma_safe_is_path(s: Seq<char>)
    requires
        all_safe(s),
    ensures
        all_path_chars(s),
{
    assert forall|i: int| 0 <= i < s.len() implies is_path_char(#[trigger] s[i]) by {
        assert(is_safe_char(s[i]));
    }
}

/// The characters of a GitHub body: path characters only, starting with the owner and
/// ending in a safe character.
proof fn lemma_body_shape(o: Seq<char>, r: Seq<char>, g: bool, folder: Option<(Seq<char>, Seq<char>, Option<Seq<char>>)>)
    requires
        valid_owner(o),
        valid_repo(r),
        valid_folder(folder),
    ensures
        github_body(o, r, g, folder).len() > 0,
        github_body(o, r, g, folder)[0] == o[0],
        all_path_chars(github_body(o, r, g, folder)),
        is_safe_char(github_body(o, r, g, folder).last()),
{
    let rs = repo_segment(r, g);
    lemma_repo_segment(r, g);
    let sl = seq!['/'];
    let tl = body_tail(folder);
    let body = github_body(o, r, g, folder);
    assert(body == o + sl + rs + tl);
    lemma_safe_is_path(o);
    lemma_safe_is_path(rs);
    assert(all_path_chars(sl));
    lemma_path_chars_concat(o, sl);
    lemma_path_chars_concat(o + sl, rs);
    assert((o + sl + rs)[0] == o[0]);
    match folder {
        None => {
            assert(body =~= o + sl + rs);
            assert(body.last() == rs.last());
            assert(is_safe_char(rs[rs.len() - 1]));
        },
        Some((k, b, p)) => {
            assert(all_safe(k));
            lemma_safe_is_path(k);
            lemma_safe_is_path(b);
            lemma_path_chars_concat(sl, k);
            lemma_path_chars_concat(sl + k, sl);
            lemma_path_chars_concat(sl + k + sl, b);
            let pt = path_tail(p);
            match p {
                Some(pp) => {
                    lemma_path_chars_concat(sl, pp);
                    assert(pt.last() == pp.last());
                    assert(is_path_char(pp[pp.len() - 1]));
                },
                None => {
                    assert(is_safe_char(b[b.len() - 1]));
                },
            }
            assert(all_path_chars(pt));
            lemma_path_chars_concat(sl + k + sl + b, pt);
            assert(tl =~= sl + k + sl + b + pt);
            lemma_path_chars_concat(o + sl + rs, tl);
            assert(body.last() == tl.last());
            assert((sl + k + sl + b + pt).last() == if p is Some { pt.last() } else { b.last() });
        },
    }
}

proof fn lemma_no_char(s: Seq<char>, c: char)
    requires
        all_path_chars(s),
        !is_path_char(c),
    ensures
        !s.contains(c),
{
    if s.contains(c) {
        let i = choose|i: int| 0 <= i < s.len() && s[i] == c;
        assert(is_path_char(s[i]));
    }
}

/// A GitHub body is recognised as `owner/repo` shorthand.
proof fn lemma_body_is_shorthand(o: Seq<char>, r: Seq<char>, g: bool, folder: Option<(Seq<char>, Seq<char>, Option<Seq<char>>)>)
    requires
        valid_owner(o),
        valid_repo(r),
        valid_folder(folder),
    ensures
        looks_like_shorthand(github_body(o, r, g, folder)),
{
    let rs = repo_segment(r, g);
    lemma_repo_segment(r, g);
    lemma_safe_no_slash(o);
    lemma_safe_no_slash(rs);
    lemma_body_shape(o, r, g, folder);
    let body = github_body(o, r, g, folder);
    let tl = body_tail(folder);
    assert(body == o + seq!['/'] + rs + tl);
    assert(tl.len() > 0 ==> tl[0] == '/');
    lemma_body_heads(o, rs, tl);
    lemma_no_char(body, '@');
    lemma_no_char(body, ':');
    assert(is_safe_char(o[0]));
    assert(o[0] != '.') by {
        if o[0] == '.' {
            assert(o.contains('.'));
        }
    }
    if is_dot_segment(o) {
        assert(o[0] == '.');
    }
    match folder {
        Some((k, b, p)) => {
            lemma_safe_no_slash(b);
            assert(k[0] != '/' && k[1] != '/' && k[2] != '/' && k[3] != '/');
            let w = o + seq!['/'] + rs;
            let pt = path_tail(p);
            assert(body =~= w + folder_join(k, b, pt));
            assert(pt.len() > 0 ==> pt[0] == '/');
            lemma_folder_positions(w, k, b, pt);
        },
        None => {},
    }
}

proof fn lemma_not_https_prefix(s: Seq<char>)
    requires
        all_path_chars(s),
    ensures
        !has_prefix(s, gh_https()),
        !has_prefix(s, gh_http()),
{
    if has_prefix(s, gh_https()) {
        assert(s[5] == s.subrange(0, 19)[5]);
        assert(is_path_char(s[5]));
    }
    if has_prefix(s, gh_http()) {
        assert(s[4] == s.subrange(0, 18)[4]);
        assert(is_path_char(s[4]));
    }
}

proof fn lemma_not_bare_prefix(o: Seq<char>, rest: Seq<char>)
    requires
        valid_owner(o),
    ensures
        !has_prefix(o + seq!['/'] + rest, gh_bare()),
{
    let s = o + seq!['/'] + rest;
    if has_prefix(s, gh_bare()) {
        let pre = s.subrange(0, 11);
        if o.len() >= 7 {
            assert(s[6] == o[6]);
            assert(pre[6] == '.');
            assert(o.contains('.'));
        } else {
            let n = o.len() as int;
            assert(s[n] == '/');
            assert(pre[n] == s[n]);
            assert(gh_bare()[0] != '/' && gh_bare()[1] != '/' && gh_bare()[2] != '/' && gh_bare()[3]
                != '/' && gh_bare()[4] != '/' && gh_bare()[5] != '/' && gh_bare()[6] != '/');
        }
    }
}

/// `prefix` followed by `body`, and a trailing `/` when `slash` holds.
pub open spec fn github_reference(prefix: Seq<char>, body: Seq<char>, slash: bool) -> Seq<char> {
    prefix + body + if slash {
        seq!['/']
    } else {
        Seq::empty()
    }
}

/// The prefixes a GitHub reference may carry: full `https` URL, `http` URL, bare host, none.
pub open spec fn github_prefix(form: int) -> Seq<char> {
    if form == 0 {
        gh_https()
    } else if form == 1 {
        gh_http()
    } else if form == 2 {
        gh_bare()
    } else {
        Seq::empty()
    }
}

/// Every GitHub-shaped reference to `owner/repo` (full `https` or `http` URL, bare
/// `github.com/` host, or shorthand; with or without `.git`; plain, or a `tree`/`blob`
/// folder URL; with or without a trailing slash) resolves to the canonical clone URL
/// `https://github.com/owner/repo.git`, with the folder's branch and path.
#[verifier::rlimit(60)]
pub proof fn law_github_shapes_resolve_alike(
    form: int,
    owner: Seq<char>,
    repo: Seq<char>,
    git_suffix: bool,
    folder: Option<(Seq<char>, Seq<char>, Option<Seq<char>>)>,
    slash: bool,
)
    requires
        0 <= form <= 3,
        valid_owner(owner),
        valid_repo(repo),
        valid_folder(folder),
    ensures
        parse_ref(github_reference(github_prefix(form), github_body(owner, repo, git_suffix, folder), slash))
            == expected_source(owner, repo, folder),
        parse_ref(github_reference(github_prefix(form), github_body(owner, repo, git_suffix, folder), slash)).clone_url
            == canonical_clone_url(owner, repo),
{
    let body = github_body(owner, repo, git_suffix, folder);
    let prefix = github_prefix(form);
    let input = github_reference(prefix, body, slash);
    let pb = prefix + body;
    lemma_body_shape(owner, repo, git_suffix, folder);
    lemma_safe_not_ws(body.last());
    lemma_safe_not_ws(owner[0]);
    assert(pb.last() == body.last());
    // Whitespace trimming keeps the input; slash trimming leaves prefix and body.
    assert(input.len() > 0 && !crate::text::is_ws(input[0])) by {
        if form == 3 {
            assert(input[0] == body[0]);
        } else {
            assert(input[0] == prefix[0]);
        }
    }
    assert(!crate::text::is_ws(input.last()));
    lemma_trim_ws_id(input);
    if slash {
        assert(input.drop_last() =~= pb);
    } else {
        assert(input =~= pb);
    }
    lemma_trim_slash_id(pb);
    assert(trim_end_char(trim_ws(input), '/') == pb);
    // Normalisation turns each form into the full `https` URL.
    let full = gh_https() + body;
    if form == 0 {
        assert(pb.subrange(0, 19) =~= gh_https());
        assert(normalize_ref(pb) == full);
    } else if form == 1 {
        assert(pb[4] == ':');
        assert(pb.subrange(0, 19)[4] != gh_https()[4]);
        assert(pb.subrange(0, 18) =~= gh_http());
        assert(pb.subrange(18, pb.len() as int) =~= body);
        assert(normalize_ref(pb) == full);
    } else if form == 2 {
        assert(pb[0] == 'g');
        assert(!has_prefix(pb, gh_https())) by {
            if has_prefix(pb, gh_https()) {
                assert(pb.subrange(0, 19)[0] == pb[0]);
            }
        }
        assert(!has_prefix(pb, gh_http())) by {
            if has_prefix(pb, gh_http()) {
                assert(pb.subrange(0, 18)[0] == pb[0]);
            }
        }
        assert(pb.subrange(0, 11) =~= gh_bare());
        assert(https_scheme() + pb =~= full);
        assert(normalize_ref(pb) == full);
    } else {
        assert(pb =~= body);
        lemma_not_https_prefix(body);
        lemma_not_bare_prefix(owner, repo_segment(repo, git_suffix) + body_tail(folder));
        assert(body =~= owner + seq!['/'] + (repo_segment(repo, git_suffix) + body_tail(folder)));
        lemma_body_is_shorthand(owner, repo, git_suffix, folder);
        assert(normalize_ref(pb) == full);
    }
    assert(full.last() == body.last());
    lemma_trim_slash_id(full);
    assert(full.subrange(0, 19) =~= gh_https());
    assert(full.subrange(19, full.len() as int) =~= body);
    lemma_parse_body(full, owner, repo, git_suffix, folder);
}

/// `owner/repo/tree/<branch>/<path>` resolves to the canonical clone URL, the branch and
/// the path.
pub proof fn law_shorthand_folder_url(
    owner: Seq<char>,
    repo: Seq<char>,
    branch: Seq<char>,
    path: Seq<char>,
)
    requires
        valid_owner(owner),
        valid_repo(repo),
        valid_folder(Some((word_tree(), branch, Some(path)))),
    ensures
        parse_ref(owner + seq!['/'] + repo + seq!['/', 't', 'r', 'e', 'e', '/'] + branch + seq!['/'] + path)
            == (SourceModel {
            clone_url: canonical_clone_url(owner, repo),
            branch: Some(branch),
            subpath: Some(path),
        }),
{
    let folder = Some((word_tree(), branch, Some(path)));
    law_github_shapes_resolve_alike(3, owner, repo, false, folder, false);
    let body = github_body(owner, repo, false, folder);
    let sl = seq!['/'];
    let tree_part = seq!['/', 't', 'r', 'e', 'e', '/'];
    assert(folder_tail(word_tree(), branch, Some(path)) =~= tree_part + branch + (sl + path));
    assert(body == owner + sl + repo + folder_tail(word_tree(), branch, Some(path)));
    assert(body =~= owner + sl + repo + tree_part + branch + sl + path);
    assert(github_reference(github_prefix(3), body, false) =~= body);
}

} // verus!
