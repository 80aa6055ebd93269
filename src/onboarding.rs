//! Discovery scanner: filters the skills found in tool directories, groups them by name and
//! flags groups whose members disagree in content.
use vstd::prelude::*;
use crate::source::opt_view;

verus! {

/// Whether `path` lies under `base`, component by component (`Path::starts_with`).
pub uninterp spec fn path_prefix_of(path: Seq<char>, base: Seq<char>) -> bool;

/// The path rebuilt from its components (redundant separators and `.` dropped).
pub uninterp spec fn path_normal_form(path: Seq<char>) -> Seq<char>;

/// Unicode lower case of a string (`str::to_lowercase`).
pub uninterp spec fn lower_of(s: Seq<char>) -> Seq<char>;

/// Relies on `std::path::Path::starts_with`: the answer depends on the two paths alone.
#[verifier::external_body]
pub(crate) fn is_under(path: &str, base: &str) -> (r: bool)
    ensures
        r == path_prefix_of(path@, base@),
{
    std::path::Path::new(path).starts_with(std::path::Path::new(base))
}

/// Relies on `std::path::Path::components`, collected back into a path and rendered with
/// `to_string_lossy`: the result depends on the path alone.
#[verifier::external_body]
fn normalized_path(path: &str) -> (r: String)
    ensures
        r@ == path_normal_form(path@),
{
    let p: std::path::PathBuf = std::path::Path::new(path).components().collect();
    p.to_string_lossy().to_string()
}

/// Relies on `str::to_lowercase`: the result depends on the characters alone.
#[verifier::external_body]
fn lowercase(s: &str) -> (r: String)
    ensures
        r@ == lower_of(s@),
{
    s.to_lowercase()
}

pub open spec fn ascii_lower_char(c: char) -> char {
    if 'A' <= c && c <= 'Z' {
        ((c as u8) + 32u8) as char
    } else {
        c
    }
}

pub open spec fn ascii_lower(s: Seq<char>) -> Seq<char> {
    s.map_values(|c: char| ascii_lower_char(c))
}

/// `s` with ASCII capitals turned into lower case, everything else kept.
pub fn to_ascii_lower(s: &str) -> (r: String)
    ensures
        r@ == ascii_lower(s@),
{
    let n = s.unicode_len();
    let mut out = String::new();
    let mut i: usize = 0;
    while i < n
        invariant
            n == s@.len(),
            i <= n,
            out@ == ascii_lower(s@.subrange(0, i as int)),
        decreases n - i,
    {
        let c = s.get_char(i);
        let piece = if 'A' <= c && c <= 'Z' {
            lower_piece(c)
        } else {
            s.substring_char(i, i + 1)
        };
        out.append(piece);
        assert(ascii_lower(s@.subrange(0, i + 1)) =~= ascii_lower(s@.subrange(0, i as int))
            + seq![ascii_lower_char(c)]);
        i = i + 1;
    }
    assert(s@.subrange(0, n as int) =~= s@);
    out
}

fn lower_piece(c: char) -> (r: &'static str)
    requires
        'A' <= c && c <= 'Z',
    ensures
        r@ == seq![ascii_lower_char(c)],
{
    let alphabet = "abcdefghijklmnopqrstuvwxyz";
    proof {
        reveal_strlit("abcdefghijklmnopqrstuvwxyz");
    }
    let k = (c as u8 - 65u8) as usize;
    let r = alphabet.substring_char(k, k + 1);
    assert(r@ =~= seq![ascii_lower_char(c)]) by {
        assert(r@[0] == alphabet@[k as int]);
    }
    r
}

/// The key under which a `(tool, path)` target is recognised as already managed. Paths are
/// compared by components, and without regard to case where the file system ignores it.
pub open spec fn target_key(tool: Seq<char>, path: Seq<char>, fold_case: bool) -> Seq<char> {
    ascii_lower(tool) + seq!['\n'] + if fold_case {
        lower_of(path_normal_form(path))
    } else {
        path_normal_form(path)
    }
}

/// A path as used in a managed-target key.
pub fn normalize_path_for_key(path: &str, fold_case: bool) -> (r: String)
    ensures
        r@ == if fold_case {
            lower_of(path_normal_form(path@))
        } else {
            path_normal_form(path@)
        },
{
    let s = normalized_path(path);
    if fold_case {
        lowercase(s.as_str())
    } else {
        s
    }
}

/// The key of a `(tool, path)` target: lower-case tool key, a newline, the normalised path.
pub fn managed_target_key(tool: &str, path: &str, fold_case: bool) -> (r: String)
    ensures
        r@ == target_key(tool@, path@, fold_case),
{
    let t = to_ascii_lower(tool);
    proof {
        reveal_strlit("\n");
        assert("\n"@ =~= seq!['\n']);
    }
    t.concat("\n").concat(normalize_path_for_key(path, fold_case).as_str())
}

fn clone_opt(o: &Option<String>) -> (r: Option<String>)
    ensures
        opt_view(r) == opt_view(*o),
{
    match o {
        Some(s) => Some(s.clone()),
        None => None,
    }
}

/// Whether `v` holds a string with the same characters as `s`.
pub fn contains_str(v: &Vec<String>, s: &str) -> (r: bool)
    ensures
        r == strings_view(v@).contains(s@),
{
    let mut i: usize = 0;
    while i < v.len()
        invariant
            i <= v.len(),
            forall|k: int| 0 <= k < i ==> v@[k]@ != s@,
        decreases v.len() - i,
    {
        if crate::text::str_eq(v[i].as_str(), s) {
            assert(strings_view(v@)[i as int] == s@);
            return true;
        }
        i = i + 1;
    }
    assert forall|k: int| 0 <= k < v@.len() implies strings_view(v@)[k] != s@ by {}
    false
}

pub open spec fn strings_view(v: Seq<String>) -> Seq<Seq<char>> {
    v.map_values(|s: String| s@)
}

/// A skill directory found in a tool's skills directory.
pub struct DetectedSkill {
    pub tool: String,
    pub name: String,
    pub path: String,
    pub is_link: bool,
    pub link_target: Option<String>,
}

pub struct DetectedView {
    pub tool: Seq<char>,
    pub name: Seq<char>,
    pub path: Seq<char>,
    pub is_link: bool,
    pub link_target: Option<Seq<char>>,
}

impl View for DetectedSkill {
    type V = DetectedView;

    open spec fn view(&self) -> DetectedView {
        DetectedView {
            tool: self.tool@,
            name: self.name@,
            path: self.path@,
            is_link: self.is_link,
            link_target: opt_view(self.link_target),
        }
    }
}

/// One tool's copy of a skill offered for onboarding.
pub struct OnboardingVariant {
    pub tool: String,
    pub name: String,
    pub path: String,
    pub fingerprint: Option<String>,
    pub is_link: bool,
    pub link_target: Option<String>,
}

pub struct VariantView {
    pub tool: Seq<char>,
    pub name: Seq<char>,
    pub path: Seq<char>,
    pub fingerprint: Option<Seq<char>>,
    pub is_link: bool,
    pub link_target: Option<Seq<char>>,
}

impl View for OnboardingVariant {
    type V = VariantView;

    open spec fn view(&self) -> VariantView {
        VariantView {
            tool: self.tool@,
            name: self.name@,
            path: self.path@,
            fingerprint: opt_view(self.fingerprint),
            is_link: self.is_link,
            link_target: opt_view(self.link_target),
        }
    }
}

/// All variants found under one name.
pub struct OnboardingGroup {
    pub name: String,
    pub variants: Vec<OnboardingVariant>,
    pub has_conflict: bool,
}

/// The result of a discovery scan.
pub struct OnboardingPlan {
    pub total_tools_scanned: usize,
    pub total_skills_found: usize,
    pub groups: Vec<OnboardingGroup>,
}

pub open spec fn detected_views(v: Seq<DetectedSkill>) -> Seq<DetectedView> {
    v.map_values(|d: DetectedSkill| d@)
}

pub open spec fn variant_views(v: Seq<OnboardingVariant>) -> Seq<VariantView> {
    v.map_values(|x: OnboardingVariant| x@)
}

/// Whether a detected skill survives filtering: it is not inside the canonical root (by its
/// path or its link target) and its `(tool, path)` key is not an already-managed target.
pub open spec fn keeps(
    d: DetectedView,
    root: Option<Seq<char>>,
    managed: Option<Seq<Seq<char>>>,
    fold_case: bool,
) -> bool {
    &&& (root matches Some(r) ==> !path_prefix_of(d.path, r) && !(d.link_target matches Some(
        t,
    ) && path_prefix_of(t, r)))
    &&& (managed matches Some(m) ==> !m.contains(target_key(d.tool, d.path, fold_case)))
}

/// The detected skills that survive filtering, in their order.
pub open spec fn kept(
    ds: Seq<DetectedView>,
    root: Option<Seq<char>>,
    managed: Option<Seq<Seq<char>>>,
    fold_case: bool,
) -> Seq<DetectedView>
    decreases ds.len(),
{
    if ds.len() == 0 {
        Seq::empty()
    } else {
        let rest = kept(ds.drop_last(), root, managed, fold_case);
        if keeps(ds.last(), root, managed, fold_case) {
            rest.push(ds.last())
        } else {
            rest
        }
    }
}

pub open spec fn opt_strings_view(o: Option<Vec<String>>) -> Option<Seq<Seq<char>>> {
    match o {
        Some(v) => Some(strings_view(v@)),
        None => None,
    }
}

fn keeps_exec(
    d: &DetectedSkill,
    exclude_root: &Option<String>,
    exclude_managed_targets: &Option<Vec<String>>,
    fold_case: bool,
) -> (r: bool)
    ensures
        r == keeps(d@, opt_view(*exclude_root), opt_strings_view(*exclude_managed_targets), fold_case),
{
    if let Some(root) = exclude_root {
        if is_under(d.path.as_str(), root.as_str()) {
            return false;
        }
        if let Some(target) = &d.link_target {
            if is_under(target.as_str(), root.as_str()) {
                return false;
            }
        }
    }
    if let Some(exclude) = exclude_managed_targets {
        let key = managed_target_key(d.tool.as_str(), d.path.as_str(), fold_case);
        if contains_str(exclude, key.as_str()) {
            return false;
        }
    }
    true
}

/// Drops the skills that live under the canonical root (the library's own propagated copies)
/// and those whose `(tool, path)` is already a managed target; the rest keep their order.
pub fn filter_detected(
    detected: Vec<DetectedSkill>,
    exclude_root: Option<String>,
    exclude_managed_targets: Option<Vec<String>>,
    fold_case: bool,
) -> (r: Vec<DetectedSkill>)
    ensures
        detected_views(r@) == kept(
            detected_views(detected@),
            opt_view(exclude_root),
            opt_strings_view(exclude_managed_targets),
            fold_case,
        ),
{
    let ghost ds = detected_views(detected@);
    let ghost root = opt_view(exclude_root);
    let ghost managed = opt_strings_view(exclude_managed_targets);
    assert(detected_views(detected@) =~= ds.subrange(0, ds.len() as int));
    let mut out: Vec<DetectedSkill> = Vec::new();
    let mut rest = detected;
    let n = rest.len();
    let mut i: usize = 0;
    while i < n
        invariant
            n == ds.len(),
            i <= n,
            root == opt_view(exclude_root),
            managed == opt_strings_view(exclude_managed_targets),
            rest@.len() == n - i,
            detected_views(rest@) == ds.subrange(i as int, n as int),
            detected_views(out@) == kept(ds.subrange(0, i as int), root, managed, fold_case),
        decreases n - i,
    {
        let ghost before = rest@;
        let d = rest.remove(0);
        assert(d@ == detected_views(before)[0]);
        assert(detected_views(before)[0] == ds.subrange(i as int, n as int)[0]);
        assert(d@ == ds[i as int]);
        assert forall|k: int| 0 <= k < rest@.len() implies detected_views(rest@)[k] == ds.subrange(i + 1, n as int)[k] by {
            assert(rest@[k] == before[k + 1]);
            assert(detected_views(before)[k + 1] == ds.subrange(i as int, n as int)[k + 1]);
        }
        assert(detected_views(rest@) =~= ds.subrange(i + 1, n as int));
        assert(ds.subrange(0, i + 1).drop_last() =~= ds.subrange(0, i as int));
        assert(ds.subrange(0, i + 1).last() == ds[i as int]);
        assert(kept(ds.subrange(0, i + 1), root, managed, fold_case) == if keeps(ds[i as int], root, managed, fold_case) {
            kept(ds.subrange(0, i as int), root, managed, fold_case).push(ds[i as int])
        } else {
            kept(ds.subrange(0, i as int), root, managed, fold_case)
        });
        let keep = keeps_exec(&d, &exclude_root, &exclude_managed_targets, fold_case);
        assert(keep == keeps(ds[i as int], root, managed, fold_case));
        if keep {
            let ghost prev = out@;
            out.push(d);
            assert(detected_views(out@) =~= detected_views(prev).push(ds[i as int]));
            assert(detected_views(out@) =~= kept(ds.subrange(0, i as int), root, managed, fold_case).push(ds[i as int]));
        }
        i = i + 1;
    }
    assert(ds.subrange(0, n as int) =~= ds);
    out
}

pub open spec fn variant_of(d: DetectedView, fp: Option<Seq<char>>) -> VariantView {
    VariantView {
        tool: d.tool,
        name: d.name,
        path: d.path,
        fingerprint: fp,
        is_link: d.is_link,
        link_target: d.link_target,
    }
}

pub open spec fn opt_views(v: Seq<Option<String>>) -> Seq<Option<Seq<char>>> {
    v.map_values(|o: Option<String>| opt_view(o))
}

/// The surviving skills as variants, with their fingerprints, leaving out every skill whose
/// name is already managed.
pub open spec fn offered(
    ds: Seq<DetectedView>,
    fps: Seq<Option<Seq<char>>>,
    managed_names: Option<Seq<Seq<char>>>,
) -> Seq<VariantView>
    decreases ds.len(),
{
    if ds.len() == 0 || fps.len() != ds.len() {
        Seq::empty()
    } else {
        let rest = offered(ds.drop_last(), fps.drop_last(), managed_names);
        if managed_names matches Some(m) && m.contains(ds.last().name) {
            rest
        } else {
            rest.push(variant_of(ds.last(), fps.last()))
        }
    }
}

/// The variants named `name`, in their order.
pub open spec fn members(vs: Seq<VariantView>, name: Seq<char>) -> Seq<VariantView>
    decreases vs.len(),
{
    if vs.len() == 0 {
        Seq::empty()
    } else {
        let rest = members(vs.drop_last(), name);
        if vs.last().name == name {
            rest.push(vs.last())
        } else {
            rest
        }
    }
}

/// The fingerprinted variants take more than one distinct fingerprint (variants whose
/// fingerprint failed take no part).
pub open spec fn conflicting(vs: Seq<VariantView>) -> bool {
    exists|i: int, j: int|
        0 <= i < vs.len() && 0 <= j < vs.len() && #[trigger] vs[i].fingerprint is Some
            && #[trigger] vs[j].fingerprint is Some && vs[i].fingerprint != vs[j].fingerprint
}

/// What a plan built from the surviving variants `sv` must be: one group per distinct name,
/// holding exactly the variants of that name, flagged when they conflict.
pub open spec fn plan_matches(plan: OnboardingPlan, tools_scanned: usize, sv: Seq<VariantView>) -> bool {
    let gs = plan.groups@;
    &&& plan.total_tools_scanned == tools_scanned
    &&& plan.total_skills_found == sv.len()
    &&& forall|k: int|
        0 <= k < gs.len() ==> {
            &&& variant_views(#[trigger] gs[k].variants@) == members(sv, gs[k].name@)
            &&& members(sv, gs[k].name@).len() > 0
            &&& gs[k].has_conflict == conflicting(members(sv, gs[k].name@))
        }
    &&& forall|k1: int, k2: int|
        0 <= k1 < gs.len() && 0 <= k2 < gs.len() && k1 != k2 ==> #[trigger] gs[k1].name@
            != #[trigger] gs[k2].name@
    &&& forall|i: int| 0 <= i < sv.len() ==> has_group(gs, #[trigger] sv[i].name)
}

/// Some group is named `name`.
pub open spec fn has_group(gs: Seq<OnboardingGroup>, name: Seq<char>) -> bool {
    exists|k: int| 0 <= k < gs.len() && #[trigger] gs[k].name@ == name
}

fn fingerprints_differ(vs: &Vec<OnboardingVariant>) -> (r: bool)
    ensures
        r == conflicting(variant_views(vs@)),
{
    let ghost w = variant_views(vs@);
    let mut first: Option<usize> = None;
    let mut i: usize = 0;
    while i < vs.len()
        invariant
            i <= vs.len(),
            w == variant_views(vs@),
            first is None ==> forall|k: int| 0 <= k < i ==> (#[trigger] w[k]).fingerprint is None,
            first matches Some(f) ==> f < i && w[f as int].fingerprint is Some && forall|k: int|
                0 <= k < i && (#[trigger] w[k]).fingerprint is Some ==> w[k].fingerprint
                    == w[f as int].fingerprint,
        decreases vs.len() - i,
    {
        if let Some(fp) = &vs[i].fingerprint {
            assert(w[i as int].fingerprint == Some(fp@));
            match first {
                None => {
                    first = Some(i);
                },
                Some(f) => {
                    if let Some(fp0) = &vs[f].fingerprint {
                        assert(w[f as int].fingerprint == Some(fp0@));
                        if !crate::text::str_eq(fp.as_str(), fp0.as_str()) {
                            assert(w[i as int].fingerprint != w[f as int].fingerprint);
                            return true;
                        }
                    }
                },
            }
        }
        i = i + 1;
    }
    false
}

fn variant_from(d: &DetectedSkill, fp: &Option<String>) -> (r: OnboardingVariant)
    ensures
        r@ == variant_of(d@, opt_view(*fp)),
{
    OnboardingVariant {
        tool: d.tool.clone(),
        name: d.name.clone(),
        path: d.path.clone(),
        fingerprint: clone_opt(fp),
        is_link: d.is_link,
        link_target: clone_opt(&d.link_target),
    }
}

fn copy_variant(v: &OnboardingVariant) -> (r: OnboardingVariant)
    ensures
        r@ == v@,
{
    OnboardingVariant {
        tool: v.tool.clone(),
        name: v.name.clone(),
        path: v.path.clone(),
        fingerprint: clone_opt(&v.fingerprint),
        is_link: v.is_link,
        link_target: clone_opt(&v.link_target),
    }
}

fn offered_variants(
    detected: &Vec<DetectedSkill>,
    fingerprints: &Vec<Option<String>>,
    exclude_managed_names: &Option<Vec<String>>,
) -> (r: Vec<OnboardingVariant>)
    requires
        fingerprints.len() == detected.len(),
    ensures
        variant_views(r@) == offered(
            detected_views(detected@),
            opt_views(fingerprints@),
            opt_strings_view(*exclude_managed_names),
        ),
{
    let ghost ds = detected_views(detected@);
    let ghost fs = opt_views(fingerprints@);
    let ghost m = opt_strings_view(*exclude_managed_names);
    let mut out: Vec<OnboardingVariant> = Vec::new();
    let mut i: usize = 0;
    while i < detected.len()
        invariant
            i <= detected.len(),
            fingerprints.len() == detected.len(),
            ds == detected_views(detected@),
            fs == opt_views(fingerprints@),
            m == opt_strings_view(*exclude_managed_names),
            variant_views(out@) == offered(ds.subrange(0, i as int), fs.subrange(0, i as int), m),
        decreases detected.len() - i,
    {
        let d = &detected[i];
        assert(ds.subrange(0, i + 1).drop_last() =~= ds.subrange(0, i as int));
        assert(fs.subrange(0, i + 1).drop_last() =~= fs.subrange(0, i as int));
        assert(ds.subrange(0, i + 1).last() == d@);
        assert(fs.subrange(0, i + 1).last() == opt_view(fingerprints@[i as int]));
        let skip = match exclude_managed_names {
            Some(names) => contains_str(names, d.name.as_str()),
            None => false,
        };
        if !skip {
            let ghost prev = out@;
            out.push(variant_from(d, &fingerprints[i]));
            assert(variant_views(out@) =~= variant_views(prev).push(
                variant_of(d@, opt_view(fingerprints@[i as int])),
            ));
        }
        i = i + 1;
    }
    assert(ds.subrange(0, i as int) =~= ds);
    assert(fs.subrange(0, i as int) =~= fs);
    out
}

fn members_of(sv: &Vec<OnboardingVariant>, name: &str) -> (r: Vec<OnboardingVariant>)
    ensures
        variant_views(r@) == members(variant_views(sv@), name@),
{
    let ghost w = variant_views(sv@);
    let mut out: Vec<OnboardingVariant> = Vec::new();
    let mut j: usize = 0;
    while j < sv.len()
        invariant
            j <= sv.len(),
            w == variant_views(sv@),
            variant_views(out@) == members(w.subrange(0, j as int), name@),
        decreases sv.len() - j,
    {
        assert(w.subrange(0, j + 1).drop_last() =~= w.subrange(0, j as int));
        assert(w.subrange(0, j + 1).last() == sv@[j as int]@);
        if crate::text::str_eq(sv[j].name.as_str(), name) {
            let ghost prev = out@;
            out.push(copy_variant(&sv[j]));
            assert(variant_views(out@) =~= variant_views(prev).push(sv@[j as int]@));
        }
        j = j + 1;
    }
    assert(w.subrange(0, j as int) =~= w);
    out
}

proof fn lemma_members_contains(vs: Seq<VariantView>, name: Seq<char>, i: int)
    requires
        0 <= i < vs.len(),
        vs[i].name == name,
    ensures
        members(vs, name).len() > 0,
    decreases vs.len(),
{
    if i < vs.len() - 1 {
        lemma_members_contains(vs.drop_last(), name, i);
    }
}

/// Groups the surviving skills by name. `fingerprints[i]` is the content fingerprint of
/// `detected[i]` (`None` where it could not be computed); skills whose name is already
/// managed are left out. Groups come in the order in which their names first appear.
pub fn plan_from_scan(
    tools_scanned: usize,
    detected: Vec<DetectedSkill>,
    fingerprints: Vec<Option<String>>,
    exclude_managed_names: Option<Vec<String>>,
) -> (r: OnboardingPlan)
    requires
        fingerprints.len() == detected.len(),
    ensures
        plan_matches(
            r,
            tools_scanned,
            offered(
                detected_views(detected@),
                opt_views(fingerprints@),
                opt_strings_view(exclude_managed_names),
            ),
        ),
{
    let sv = offered_variants(&detected, &fingerprints, &exclude_managed_names);
    let ghost w = variant_views(sv@);
    let mut names: Vec<String> = Vec::new();
    let mut i: usize = 0;
    while i < sv.len()
        invariant
            i <= sv.len(),
            w == variant_views(sv@),
            forall|k1: int, k2: int|
                0 <= k1 < names.len() && 0 <= k2 < names.len() && k1 != k2 ==> #[trigger] names@[k1]@
                    != #[trigger] names@[k2]@,
            forall|j: int| 0 <= j < i ==> strings_view(names@).contains(#[trigger] w[j].name),
            forall|k: int| 0 <= k < names.len() ==> members(w, #[trigger] names@[k]@).len() > 0,
        decreases sv.len() - i,
    {
        if !contains_str(&names, sv[i].name.as_str()) {
            let ghost prev = names@;
            names.push(sv[i].name.clone());
            proof {
                let nm = w[i as int].name;
                assert(names@[prev.len() as int]@ == nm);
                assert forall|q: int| 0 <= q < prev.len() implies #[trigger] names@[q]@ != nm by {
                    assert(names@[q] == prev[q]);
                    assert(strings_view(prev)[q] == prev[q]@);
                }
                assert forall|k1: int, k2: int|
                    0 <= k1 < names.len() && 0 <= k2 < names.len() && k1 != k2 implies #[trigger] names@[k1]@
                        != #[trigger] names@[k2]@ by {
                    if k1 < prev.len() && k2 < prev.len() {
                        assert(names@[k1] == prev[k1]);
                        assert(names@[k2] == prev[k2]);
                    }
                }
                lemma_members_contains(w, nm, i as int);
                assert forall|q: int| 0 <= q < names.len() implies members(w, #[trigger] names@[q]@).len() > 0 by {
                    if q < prev.len() {
                        assert(names@[q] == prev[q]);
                    }
                }
                assert forall|j: int| 0 <= j < i + 1 implies strings_view(names@).contains(#[trigger] w[j].name) by {
                    if j < i {
                        let q = choose|q: int| 0 <= q < prev.len() && strings_view(prev)[q] == w[j].name;
                        assert(names@[q] == prev[q]);
                        assert(strings_view(names@)[q] == w[j].name);
                    } else {
                        assert(strings_view(names@)[prev.len() as int] == w[j].name);
                    }
                }
            }
        }
        i = i + 1;
    }
    let ghost nv = strings_view(names@);
    assert forall|q: int| 0 <= q < nv.len() implies members(w, #[trigger] nv[q]).len() > 0 by {
        assert(names@[q]@ == nv[q]);
    }
    assert forall|k1: int, k2: int| 0 <= k1 < nv.len() && 0 <= k2 < nv.len() && k1 != k2 implies #[trigger] nv[k1] != #[trigger] nv[k2] by {
        assert(names@[k1]@ != names@[k2]@);
    }
    let mut groups: Vec<OnboardingGroup> = Vec::new();
    let mut k: usize = 0;
    while k < names.len()
        invariant
            k <= names.len(),
            w == variant_views(sv@),
            groups.len() == k,
            nv == strings_view(names@),
            forall|k1: int, k2: int|
                0 <= k1 < nv.len() && 0 <= k2 < nv.len() && k1 != k2 ==> #[trigger] nv[k1] != #[trigger] nv[k2],
            forall|q: int| 0 <= q < nv.len() ==> members(w, #[trigger] nv[q]).len() > 0,
            forall|q: int| 0 <= q < k ==> (#[trigger] groups@[q]).name@ == nv[q],
            forall|q: int|
                0 <= q < k ==> {
                    &&& variant_views(#[trigger] groups@[q].variants@) == members(w, groups@[q].name@)
                    &&& members(w, groups@[q].name@).len() > 0
                    &&& groups@[q].has_conflict == conflicting(members(w, groups@[q].name@))
                },
        decreases names.len() - k,
    {
        let variants = members_of(&sv, names[k].as_str());
        let has_conflict = fingerprints_differ(&variants);
        proof {
            assert(nv[k as int] == names@[k as int]@);
            assert(members(w, nv[k as int]).len() > 0);
        }
        groups.push(OnboardingGroup { name: names[k].clone(), variants, has_conflict });
        k = k + 1;
    }
    let plan = OnboardingPlan { total_tools_scanned: tools_scanned, total_skills_found: sv.len(), groups };
    assert forall|j: int| 0 <= j < w.len() implies has_group(plan.groups@, #[trigger] w[j].name) by {
        assert(nv.contains(w[j].name));
        let q = choose|q: int| 0 <= q < nv.len() && nv[q] == w[j].name;
        assert(plan.groups@[q].name@ == w[j].name);
    }
    assert(plan.total_skills_found == w.len());
    assert forall|k1: int, k2: int|
        0 <= k1 < plan.groups@.len() && 0 <= k2 < plan.groups@.len() && k1 != k2 implies #[trigger] plan.groups@[k1].name@
            != #[trigger] plan.groups@[k2].name@ by {
        assert(nv[k1] != nv[k2]);
    }
    assert(w == offered(detected_views(detected@), opt_views(fingerprints@), opt_strings_view(exclude_managed_names)));
    assert(plan.total_tools_scanned == tools_scanned);
    assert(forall|q: int|
        0 <= q < plan.groups@.len() ==> {
            &&& variant_views(#[trigger] plan.groups@[q].variants@) == members(w, plan.groups@[q].name@)
            &&& members(w, plan.groups@[q].name@).len() > 0
            &&& plan.groups@[q].has_conflict == conflicting(members(w, plan.groups@[q].name@))
        });
    plan
}

proof fn lemma_members_nonempty(vs: Seq<VariantView>, name: Seq<char>) -> (i: int)
    requires
        members(vs, name).len() > 0,
    ensures
        0 <= i < vs.len() && vs[i].name == name,
    decreases vs.len(),
{
    if vs.last().name == name {
        vs.len() - 1
    } else {
        lemma_members_nonempty(vs.drop_last(), name)
    }
}

/// In a plan, a group carries a name exactly when some surviving skill has that name: a
/// name whose every variant was filtered out has no group.
pub proof fn law_group_exists_iff_variant(
    plan: OnboardingPlan,
    tools_scanned: usize,
    sv: Seq<VariantView>,
    name: Seq<char>,
)
    requires
        plan_matches(plan, tools_scanned, sv),
    ensures
        has_group(plan.groups@, name) <==> exists|i: int| 0 <= i < sv.len() && #[trigger] sv[i].name == name,
{
    if has_group(plan.groups@, name) {
        let k = choose|k: int| 0 <= k < plan.groups@.len() && #[trigger] plan.groups@[k].name@ == name;
        assert(variant_views(plan.groups@[k].variants@) == members(sv, plan.groups@[k].name@));
        let i = lemma_members_nonempty(sv, plan.groups@[k].name@);
        assert(sv[i].name == name);
    }
    if exists|i: int| 0 <= i < sv.len() && #[trigger] sv[i].name == name {
        let i = choose|i: int| 0 <= i < sv.len() && #[trigger] sv[i].name == name;
        assert(has_group(plan.groups@, sv[i].name));
    }
}

/// Two skills found under the same name form one group of two variants, which conflicts
/// exactly when their fingerprints differ.
pub proof fn law_same_name_forms_one_group(
    plan: OnboardingPlan,
    tools_scanned: usize,
    a: DetectedView,
    b: DetectedView,
    fa: Seq<char>,
    fb: Seq<char>,
)
    requires
        a.name == b.name,
        plan_matches(plan, tools_scanned, offered(seq![a, b], seq![Some(fa), Some(fb)], None)),
    ensures
        plan.groups@.len() == 1,
        plan.groups@[0].name@ == a.name,
        plan.groups@[0].variants@.len() == 2,
        plan.groups@[0].has_conflict == (fa != fb),
{
    let ds = seq![a, b];
    let fs = seq![Some(fa), Some(fb)];
    let va = variant_of(a, Some(fa));
    let vb = variant_of(b, Some(fb));
    assert(ds.drop_last() =~= seq![a]);
    assert(fs.drop_last() =~= seq![Some(fa)]);
    assert(seq![a].drop_last() =~= Seq::<DetectedView>::empty());
    assert(seq![Some(fa)].drop_last() =~= Seq::<Option<Seq<char>>>::empty());
    let sv = offered(ds, fs, None);
    assert(offered(seq![a].drop_last(), seq![Some(fa)].drop_last(), None) =~= Seq::<VariantView>::empty());
    assert(seq![a].last() == a);
    assert(seq![Some(fa)].last() == Some(fa));
    assert(offered(seq![a], seq![Some(fa)], None) =~= Seq::<VariantView>::empty().push(va));
    assert(offered(seq![a], seq![Some(fa)], None) =~= seq![va]);
    assert(sv =~= seq![va, vb]);
    let gs = plan.groups@;
    assert(seq![va, vb].drop_last() =~= seq![va]);
    assert(seq![va].drop_last() =~= Seq::<VariantView>::empty());
    assert(members(seq![va].drop_last(), a.name) =~= Seq::<VariantView>::empty());
    assert(seq![va].last() == va);
    assert(members(seq![va], a.name) =~= seq![va]);
    assert(members(sv, a.name) =~= seq![va, vb]);
    assert forall|k: int| 0 <= k < gs.len() implies #[trigger] gs[k].name@ == a.name by {
        assert(variant_views(gs[k].variants@) == members(sv, gs[k].name@));
        let i = lemma_members_nonempty(sv, gs[k].name@);
    }
    assert(has_group(gs, sv[0].name));
    if gs.len() > 1 {
        assert(gs[0].name@ == a.name && gs[1].name@ == a.name);
    }
    assert(variant_views(gs[0].variants@) == members(sv, gs[0].name@));
    assert(variant_views(gs[0].variants@).len() == 2);
    let m = members(sv, a.name);
    if fa != fb {
        assert(m[0].fingerprint is Some && m[1].fingerprint is Some);
        assert(m[0].fingerprint != m[1].fingerprint);
    } else {
        assert(forall|i: int| 0 <= i < m.len() ==> #[trigger] m[i].fingerprint == Some(fa));
    }
}

/// The detected skills whose target key is not `key`.
pub open spec fn without_key(ds: Seq<DetectedView>, key: Seq<char>, fold_case: bool) -> Seq<DetectedView>
    decreases ds.len(),
{
    if ds.len() == 0 {
        Seq::empty()
    } else {
        let rest = without_key(ds.drop_last(), key, fold_case);
        if target_key(ds.last().tool, ds.last().path, fold_case) != key {
            rest.push(ds.last())
        } else {
            rest
        }
    }
}

proof fn lemma_push_contains(m: Seq<Seq<char>>, key: Seq<char>, x: Seq<char>)
    ensures
        m.push(key).contains(x) <==> (m.contains(x) || x == key),
{
    if m.contains(x) {
        let i = choose|i: int| 0 <= i < m.len() && m[i] == x;
        assert(m.push(key)[i] == x);
    }
    if x == key {
        assert(m.push(key)[m.len() as int] == x);
    }
    if m.push(key).contains(x) {
        let i = choose|i: int| 0 <= i < m.push(key).len() && m.push(key)[i] == x;
        if i < m.len() {
            assert(m[i] == x);
        }
    }
}

/// Adding an already-managed `(tool, path)` key to the exclusions removes exactly the
/// skills with that key from what filtering keeps, and nothing else.
pub proof fn law_excluding_target_removes_its_variant(
    ds: Seq<DetectedView>,
    root: Option<Seq<char>>,
    managed: Seq<Seq<char>>,
    fold_case: bool,
    key: Seq<char>,
)
    ensures
        kept(ds, root, Some(managed.push(key)), fold_case) == without_key(
            kept(ds, root, Some(managed), fold_case),
            key,
            fold_case,
        ),
    decreases ds.len(),
{
    if ds.len() > 0 {
        law_excluding_target_removes_its_variant(ds.drop_last(), root, managed, fold_case, key);
        let d = ds.last();
        lemma_push_contains(managed, key, target_key(d.tool, d.path, fold_case));
        let rest = kept(ds.drop_last(), root, Some(managed), fold_case);
        if keeps(d, root, Some(managed), fold_case) {
            assert(rest.push(d).drop_last() =~= rest);
        }
    }
}

} // verus!
