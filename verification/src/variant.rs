//! Variant selection: the rule that picks exactly one physical candidate
//! among several package-manager-specific forms of one logical file,
//! decides the destination name, and suppresses renderings that are all
//! whitespace.
//!
//! A template file is recognized by its trailing render marker (`.tera`).
//! A candidate group shares a logical name and differs in an optional
//! trailing variant tag, as in `package.json.npm.tera`: the candidate whose
//! tag equals the active package manager is preferred, the `base` candidate
//! is the fallback when no tag matches, and a group with neither produces
//! no output. The root manifest group applies only at the project root, and
//! the pnpm workspace file is materialized only under the pnpm manager.
//! The destination of a chosen candidate is its logical name: the variant
//! tag and the render marker are stripped.

use vstd::prelude::*;

use crate::text::{
    after_last, all_whitespace, ends_with_str, is_prefix_of, is_suffix_of, starts_with_str,
    str_eq, strip_all_suffix, strip_all_suffix_str, after_last_char, is_blank,
    lemma_after_last_found,
};

verus! {

/// The render-marker suffix `.tera` that marks a template file.
pub open spec fn tera_suffix() -> Seq<char> {
    seq!['.', 't', 'e', 'r', 'a']
}

/// The root manifest group prefix `package.json.`.
pub open spec fn manifest_prefix() -> Seq<char> {
    seq!['p', 'a', 'c', 'k', 'a', 'g', 'e', '.', 'j', 's', 'o', 'n', '.']
}

/// The canonical root manifest name `package.json`: the distinguished
/// logical name whose group applies only at the project root.
pub open spec fn manifest_name() -> Seq<char> {
    seq!['p', 'a', 'c', 'k', 'a', 'g', 'e', '.', 'j', 's', 'o', 'n']
}

/// The pnpm workspace template name `pnpm-workspace.yaml.tera`.
pub open spec fn pnpm_file_name() -> Seq<char> {
    seq![
        'p', 'n', 'p', 'm', '-', 'w', 'o', 'r', 'k', 's', 'p', 'a', 'c', 'e', '.', 'y', 'a',
        'm', 'l', '.', 't', 'e', 'r', 'a',
    ]
}

/// The distinguished logical name of the pnpm workspace file,
/// `pnpm-workspace.yaml`: materialized only under the pnpm manager.
pub open spec fn pnpm_file_dest() -> Seq<char> {
    seq![
        'p', 'n', 'p', 'm', '-', 'w', 'o', 'r', 'k', 's', 'p', 'a', 'c', 'e', '.', 'y', 'a',
        'm', 'l',
    ]
}

/// The `pnpm` package manager name.
pub open spec fn pnpm_name() -> Seq<char> {
    seq!['p', 'n', 'p', 'm']
}

/// The fallback variant tag `base`.
pub open spec fn base_variant() -> Seq<char> {
    seq!['b', 'a', 's', 'e']
}

/// The `npm` variant tag.
pub open spec fn npm_name() -> Seq<char> {
    seq!['n', 'p', 'm']
}

/// The `yarn` variant tag.
pub open spec fn yarn_name() -> Seq<char> {
    seq!['y', 'a', 'r', 'n']
}

/// The `bun` variant tag.
pub open spec fn bun_name() -> Seq<char> {
    seq!['b', 'u', 'n']
}

/// The five variant tags a candidate can carry.
pub open spec fn known_variant(v: Seq<char>) -> bool {
    v == npm_name() || v == yarn_name() || v == pnpm_name() || v == bun_name() || v
        == base_variant()
}

/// The package managers the generator supports.
pub open spec fn supported_pm(pm: Seq<char>) -> bool {
    known_variant(pm) && pm != base_variant()
}

/// A file name names a template: its last path component carries the render
/// marker as an extension (there is a non-empty stem before `.tera`).
pub open spec fn is_template_name(s: Seq<char>) -> bool {
    &&& is_suffix_of(tera_suffix(), s)
    &&& s.len() > tera_suffix().len()
    &&& s[s.len() - tera_suffix().len() - 1] != '/'
}

/// The core of a template name: the name with the render marker stripped.
pub open spec fn template_core(s: Seq<char>) -> Seq<char> {
    s.subrange(0, s.len() - tera_suffix().len())
}

/// The trailing variant tag of a core, when its last dot-separated segment
/// is one of the known tags.
pub open spec fn trailing_tag(core: Seq<char>) -> Option<Seq<char>> {
    let tag = after_last(core, '.');
    if tag.len() < core.len() && known_variant(tag) {
        Some(tag)
    } else {
        None
    }
}

/// The logical output name of a template: the core with the trailing
/// variant tag (if any) stripped. This is the candidate's destination.
pub open spec fn logical_of(name: Seq<char>) -> Seq<char> {
    let core = template_core(name);
    match trailing_tag(core) {
        Some(tag) => core.subrange(0, core.len() - tag.len() - 1),
        None => core,
    }
}

/// Whether the listing holds a candidate of the group `logical` carrying
/// the tag `tag`.
pub open spec fn group_has(names: Seq<Seq<char>>, logical: Seq<char>, tag: Seq<char>) -> bool {
    exists|i: int|
        0 <= i < names.len() && is_template_name(#[trigger] names[i]) && logical_of(names[i])
            == logical && trailing_tag(template_core(names[i])) == Some(tag)
}

/// Whether the selector chooses this candidate of the listing: the pnpm
/// workspace file only under pnpm, the root manifest group only at the
/// root; a tagged candidate when its tag is the active manager, or when it
/// is `base` and the group holds no candidate for the manager; an untagged
/// template always.
pub open spec fn selected(
    name: Seq<char>,
    names: Seq<Seq<char>>,
    is_root: bool,
    pm: Seq<char>,
) -> bool {
    &&& is_template_name(name)
    &&& (logical_of(name) == pnpm_file_dest() ==> pm == pnpm_name())
    &&& (logical_of(name) == manifest_name() ==> is_root)
    &&& match trailing_tag(template_core(name)) {
        Some(tag) => tag == pm || (tag == base_variant() && !group_has(
            names,
            logical_of(name),
            pm,
        )),
        None => true,
    }
}

/// The destination of a chosen candidate's rendering, or `None` when the
/// rendering is all whitespace and the output is suppressed.
pub open spec fn template_output(name: Seq<char>, rendered: Seq<char>) -> Option<Seq<char>> {
    if all_whitespace(rendered) {
        None
    } else {
        Some(logical_of(name))
    }
}

/// The destination a template actually gets, combining group selection and
/// rendering suppression.
pub open spec fn template_written(
    name: Seq<char>,
    names: Seq<Seq<char>>,
    is_root: bool,
    pm: Seq<char>,
    rendered: Seq<char>,
) -> Option<Seq<char>> {
    if selected(name, names, is_root, pm) {
        template_output(name, rendered)
    } else {
        None
    }
}

/// The variant segment read off a lone name: the piece after the last `.`
/// once every trailing render marker is removed.
pub open spec fn pm_variant(s: Seq<char>) -> Seq<char> {
    after_last(strip_all_suffix(s, tera_suffix()), '.')
}

/// Whether a non-template file is copied: a root manifest candidate that
/// carries the marker without being a template, and matches neither the
/// active manager nor `base`, is skipped even on the copy path.
pub open spec fn copies_file(name: Seq<char>, is_root: bool, pm: Seq<char>) -> bool {
    if is_root && is_prefix_of(manifest_prefix(), name) && is_suffix_of(tera_suffix(), name) {
        pm_variant(name) == pm || pm_variant(name) == base_variant()
    } else {
        true
    }
}

/// Recognizes a template file name.
pub fn is_template_file(name: &str) -> (r: bool)
    ensures
        r == is_template_name(name@),
{
    proof {
        reveal_strlit(".tera");
        assert(".tera"@ =~= tera_suffix());
    }
    let len = name.unicode_len();
    if len < 6 {
        return false;
    }
    if !ends_with_str(name, ".tera") {
        return false;
    }
    name.get_char(len - 6) != '/'
}

/// The core of a template name: the name with the render marker stripped.
pub fn template_core_of(name: &str) -> (r: String)
    requires
        is_template_name(name@),
    ensures
        r@ == template_core(name@),
{
    let len = name.unicode_len();
    name.substring_char(0, len - 5).to_owned()
}

/// Recognizes the five variant tags.
pub fn is_known_tag(s: &str) -> (r: bool)
    ensures
        r == known_variant(s@),
{
    proof {
        reveal_strlit("npm");
        reveal_strlit("yarn");
        reveal_strlit("pnpm");
        reveal_strlit("bun");
        reveal_strlit("base");
        assert("npm"@ =~= npm_name());
        assert("yarn"@ =~= yarn_name());
        assert("pnpm"@ =~= pnpm_name());
        assert("bun"@ =~= bun_name());
        assert("base"@ =~= base_variant());
    }
    str_eq(s, "npm") || str_eq(s, "yarn") || str_eq(s, "pnpm") || str_eq(s, "bun") || str_eq(
        s,
        "base",
    )
}

/// The logical output name of a template: core minus any trailing known
/// variant tag.
pub fn logical_name_of(name: &str) -> (r: String)
    requires
        is_template_name(name@),
    ensures
        r@ == logical_of(name@),
{
    let len = name.unicode_len();
    let core = name.substring_char(0, len - 5);
    let tag = after_last_char(core, '.');
    let taglen = tag.unicode_len();
    let corelen = core.unicode_len();
    if taglen < corelen && is_known_tag(tag.as_str()) {
        core.substring_char(0, corelen - taglen - 1).to_owned()
    } else {
        core.to_owned()
    }
}

/// The variant segment read off a lone name.
pub fn variant_of(name: &str) -> (r: String)
    ensures
        r@ == pm_variant(name@),
{
    proof {
        reveal_strlit(".tera");
        assert(".tera"@ =~= tera_suffix());
    }
    let stripped = strip_all_suffix_str(name, ".tera");
    after_last_char(stripped.as_str(), '.')
}

/// Whether the listing holds a candidate of the group `logical` carrying
/// the tag `tag`.
fn group_has_tag(names: &Vec<String>, logical: &str, tag: &str) -> (r: bool)
    ensures
        r == group_has(names.deep_view(), logical@, tag@),
{
    let n = names.len();
    let mut i: usize = 0;
    while i < n
        invariant
            n == names@.len(),
            i <= n,
            forall|j: int|
                0 <= j < i ==> !(is_template_name(#[trigger] names.deep_view()[j]) && logical_of(
                    names.deep_view()[j],
                ) == logical@ && trailing_tag(template_core(names.deep_view()[j])) == Some(tag@)),
        decreases n - i,
    {
        let cand = names[i].as_str();
        proof {
            assert(names.deep_view()[i as int] == names@[i as int]@);
        }
        if is_template_file(cand) {
            let cand_logical = logical_name_of(cand);
            let candlen = cand.unicode_len();
            let core = cand.substring_char(0, candlen - 5);
            let cand_tag = after_last_char(core, '.');
            if cand_tag.unicode_len() < core.unicode_len() && is_known_tag(cand_tag.as_str())
                && str_eq(cand_logical.as_str(), logical) && str_eq(cand_tag.as_str(), tag) {
                proof {
                    assert(is_template_name(names.deep_view()[i as int]) && logical_of(
                        names.deep_view()[i as int],
                    ) == logical@ && trailing_tag(template_core(names.deep_view()[i as int]))
                        == Some(tag@));
                }
                return true;
            }
        }
        i += 1;
    }
    false
}

/// Decides whether the selector chooses this candidate of the listing.
pub fn select_candidate(name: &str, names: &Vec<String>, is_root: bool, pm: &str) -> (r: bool)
    requires
        is_template_name(name@),
    ensures
        r == selected(name@, names.deep_view(), is_root, pm@),
{
    proof {
        reveal_strlit("pnpm-workspace.yaml");
        assert("pnpm-workspace.yaml"@ =~= pnpm_file_dest());
        reveal_strlit("package.json");
        assert("package.json"@ =~= manifest_name());
        reveal_strlit("pnpm");
        assert("pnpm"@ =~= pnpm_name());
        reveal_strlit("base");
        assert("base"@ =~= base_variant());
    }
    let logical = logical_name_of(name);
    if str_eq(logical.as_str(), "pnpm-workspace.yaml") && !str_eq(pm, "pnpm") {
        return false;
    }
    if str_eq(logical.as_str(), "package.json") && !is_root {
        return false;
    }
    let len = name.unicode_len();
    let core = name.substring_char(0, len - 5);
    let tag = after_last_char(core, '.');
    if tag.unicode_len() < core.unicode_len() && is_known_tag(tag.as_str()) {
        if str_eq(tag.as_str(), pm) {
            return true;
        }
        if str_eq(tag.as_str(), "base") {
            return !group_has_tag(names, logical.as_str(), pm);
        }
        return false;
    }
    true
}

/// The view of an optional destination name.
pub open spec fn opt_dest_view(o: Option<String>) -> Option<Seq<char>> {
    match o {
        Some(s) => Some(s@),
        None => None,
    }
}

/// Decides what a chosen candidate's rendering produces: the logical
/// destination name, or nothing when the rendering is all whitespace.
pub fn rendered_output(name: &str, rendered: &str) -> (r: Option<String>)
    requires
        is_template_name(name@),
    ensures
        opt_dest_view(r) == template_output(name@, rendered@),
{
    if is_blank(rendered) {
        return None;
    }
    Some(logical_name_of(name))
}

/// Decides whether a non-template file is copied.
pub fn should_copy(name: &str, is_root: bool, pm: &str) -> (r: bool)
    ensures
        r == copies_file(name@, is_root, pm@),
{
    proof {
        reveal_strlit("package.json.");
        assert("package.json."@ =~= manifest_prefix());
        reveal_strlit(".tera");
        assert(".tera"@ =~= tera_suffix());
        reveal_strlit("base");
        assert("base"@ =~= base_variant());
    }
    if is_root && starts_with_str(name, "package.json.") && ends_with_str(name, ".tera") {
        let v = variant_of(name);
        return str_eq(v.as_str(), pm) || str_eq(v.as_str(), "base");
    }
    true
}

/// A candidate of the group `logical` carrying the variant tag `t`.
pub open spec fn group_member(logical: Seq<char>, t: Seq<char>) -> Seq<char> {
    logical + seq!['.'] + t + tera_suffix()
}

/// The full name of a root manifest candidate with variant tag `v`.
pub open spec fn manifest_template_name(v: Seq<char>) -> Seq<char> {
    manifest_prefix() + v + tera_suffix()
}

/// A known tag holds neither a dot nor a slash.
proof fn lemma_tag_chars(t: Seq<char>)
    requires
        known_variant(t),
    ensures
        !t.contains('.'),
        !t.contains('/'),
        t.len() > 0,
        t[t.len() - 1] != '/',
{
    if t.contains('.') {
        let i = choose|i: int| 0 <= i < t.len() && t[i] == '.';
        assert(t[i] != '.');
    }
    if t.contains('/') {
        let i = choose|i: int| 0 <= i < t.len() && t[i] == '/';
        assert(t[i] != '/');
    }
}

/// Shape facts about a candidate of group `logical` with a known tag: it
/// is a template, its tag is read back, and its logical name is `logical`.
pub proof fn lemma_group_member_parts(logical: Seq<char>, t: Seq<char>)
    requires
        known_variant(t),
    ensures
        is_template_name(group_member(logical, t)),
        template_core(group_member(logical, t)) == logical + seq!['.'] + t,
        trailing_tag(template_core(group_member(logical, t))) == Some(t),
        logical_of(group_member(logical, t)) == logical,
{
    lemma_tag_chars(t);
    let n = group_member(logical, t);
    let core = logical + seq!['.'] + t;
    assert(n.subrange(n.len() - 5, n.len() as int) =~= tera_suffix());
    assert(n[n.len() - 6] == t[t.len() - 1]);
    assert(n.subrange(0, n.len() - 5) =~= core);
    // the last dot of the core sits just before the tag
    assert(core[logical.len() as int] == '.');
    assert forall|j: int| logical.len() < j < core.len() implies core[j] != '.' by {
        assert(core[j] == t[j - logical.len() - 1]);
        if t[j - logical.len() - 1] == '.' {
            assert(t.contains('.'));
        }
    }
    lemma_after_last_found(core, '.', logical.len() as int);
    assert(core.subrange(logical.len() + 1 as int, core.len() as int) =~= t);
    assert(after_last(core, '.') == t);
    assert(core.subrange(0, core.len() - t.len() - 1) =~= logical);
}

/// Shape facts about a root manifest candidate with a known tag.
pub proof fn lemma_known_variant_parts(v: Seq<char>)
    requires
        known_variant(v),
    ensures
        is_template_name(manifest_template_name(v)),
        logical_of(manifest_template_name(v)) == manifest_name(),
        trailing_tag(template_core(manifest_template_name(v))) == Some(v),
        !manifest_template_name(v).contains('/'),
        manifest_template_name(v).len() == v.len() + 18,
{
    lemma_tag_chars(v);
    assert(manifest_template_name(v) =~= group_member(manifest_name(), v));
    lemma_group_member_parts(manifest_name(), v);
    let n = manifest_template_name(v);
    assert forall|i: int| 0 <= i < n.len() implies n[i] != '/' by {
        if i < 13 {
            assert(n[i] == manifest_prefix()[i]);
        } else if i < 13 + v.len() {
            assert(n[i] == v[i - 13]);
            if v[i - 13] == '/' {
                assert(v.contains('/'));
            }
        } else {
            assert(n[i] == tera_suffix()[i - 13 - v.len()]);
        }
    }
    if n.contains('/') {
        let i = choose|i: int| 0 <= i < n.len() && n[i] == '/';
        assert(n[i] != '/');
    }
}

/// What the selector does with a root manifest candidate: the manager's
/// candidate is always chosen; `base` is chosen exactly when the group
/// holds no candidate for the manager; every other tag is skipped; and a
/// chosen candidate with a rendering that is not all whitespace lands at
/// the canonical manifest name.
pub proof fn lemma_manifest_selection(
    v: Seq<char>,
    pm: Seq<char>,
    names: Seq<Seq<char>>,
    rendered: Seq<char>,
)
    requires
        known_variant(v),
        supported_pm(pm),
    ensures
        template_written(manifest_template_name(v), names, true, pm, rendered) == if (v == pm || (v
            == base_variant() && !group_has(names, manifest_name(), pm))) && !all_whitespace(
            rendered,
        ) {
            Some(manifest_name())
        } else {
            None::<Seq<char>>
        },
{
    lemma_known_variant_parts(v);
    // the manifest name is not the pnpm workspace file name
    assert(manifest_name().len() == 12 && pnpm_file_dest().len() == 19);
}

/// A candidate listed as `manifest_template_name(pm)` makes the group hold
/// the manager's variant.
pub proof fn lemma_group_has_witness(names: Seq<Seq<char>>, pm: Seq<char>, i: int)
    requires
        known_variant(pm),
        0 <= i < names.len(),
        names[i] == manifest_template_name(pm),
    ensures
        group_has(names, manifest_name(), pm),
{
    lemma_known_variant_parts(pm);
    assert(is_template_name(names[i]) && logical_of(names[i]) == manifest_name() && trailing_tag(
        template_core(names[i]),
    ) == Some(pm));
}

/// A tagged candidate matching neither the active manager nor `base` is
/// never selected, whatever the group, the workspace kind and the
/// rendering.
pub proof fn lemma_unmatched_variant_skipped(
    logical: Seq<char>,
    t: Seq<char>,
    names: Seq<Seq<char>>,
    is_root: bool,
    pm: Seq<char>,
    rendered: Seq<char>,
)
    requires
        known_variant(t),
        t != pm,
        t != base_variant(),
    ensures
        !selected(group_member(logical, t), names, is_root, pm),
        template_written(group_member(logical, t), names, is_root, pm, rendered) is None,
{
    lemma_group_member_parts(logical, t);
}

/// `base` yields to a present manager variant: when the listing holds the
/// group's candidate for the active manager, the `base` candidate is never
/// selected.
pub proof fn lemma_base_yields_to_match(
    logical: Seq<char>,
    names: Seq<Seq<char>>,
    i: int,
    is_root: bool,
    pm: Seq<char>,
    rendered: Seq<char>,
)
    requires
        supported_pm(pm),
        0 <= i < names.len(),
        names[i] == group_member(logical, pm),
    ensures
        !selected(group_member(logical, base_variant()), names, is_root, pm),
        template_written(group_member(logical, base_variant()), names, is_root, pm, rendered)
            is None,
{
    lemma_group_member_parts(logical, pm);
    lemma_group_member_parts(logical, base_variant());
    assert(is_template_name(names[i]) && logical_of(names[i]) == logical && trailing_tag(
        template_core(names[i]),
    ) == Some(pm));
    assert(group_has(names, logical, pm));
}

/// `base` is the fallback: when the group holds no candidate for the
/// active manager, and the group's logical name triggers no distinguished
/// rule, the `base` candidate is selected and a rendering that is not all
/// whitespace lands at the logical name.
pub proof fn lemma_base_fallback(
    logical: Seq<char>,
    names: Seq<Seq<char>>,
    is_root: bool,
    pm: Seq<char>,
    rendered: Seq<char>,
)
    requires
        supported_pm(pm),
        !group_has(names, logical, pm),
        logical == pnpm_file_dest() ==> pm == pnpm_name(),
        logical == manifest_name() ==> is_root,
        !all_whitespace(rendered),
    ensures
        selected(group_member(logical, base_variant()), names, is_root, pm),
        template_written(group_member(logical, base_variant()), names, is_root, pm, rendered)
            == Some(logical),
{
    lemma_group_member_parts(logical, base_variant());
}

/// Variant exclusivity for a `{npm, pnpm, base}` candidate group under the
/// pnpm manager: the `npm` and `base` candidates never reach the output,
/// and the `pnpm` candidate lands at the group's logical name whenever its
/// rendering is not all whitespace.
pub proof fn lemma_variant_exclusivity(
    logical: Seq<char>,
    names: Seq<Seq<char>>,
    i: int,
    is_root: bool,
    rendered_npm: Seq<char>,
    rendered_pnpm: Seq<char>,
    rendered_base: Seq<char>,
)
    requires
        0 <= i < names.len(),
        names[i] == group_member(logical, pnpm_name()),
        logical == manifest_name() ==> is_root,
        !all_whitespace(rendered_pnpm),
    ensures
        template_written(group_member(logical, npm_name()), names, is_root, pnpm_name(),
            rendered_npm) is None,
        template_written(group_member(logical, base_variant()), names, is_root, pnpm_name(),
            rendered_base) is None,
        template_written(group_member(logical, pnpm_name()), names, is_root, pnpm_name(),
            rendered_pnpm) == Some(logical),
{
    lemma_unmatched_variant_skipped(logical, npm_name(), names, is_root, pnpm_name(),
        rendered_npm);
    lemma_base_yields_to_match(logical, names, i, is_root, pnpm_name(), rendered_base);
    lemma_group_member_parts(logical, pnpm_name());
}

/// The pnpm workspace file appears in the output exactly when the active
/// package manager is pnpm (given that its rendering is not all
/// whitespace), whatever the listing and the workspace kind.
pub proof fn lemma_pnpm_only(
    names: Seq<Seq<char>>,
    is_root: bool,
    pm: Seq<char>,
    rendered: Seq<char>,
)
    requires
        !all_whitespace(rendered),
    ensures
        template_written(pnpm_file_name(), names, is_root, pm, rendered) is Some <==> pm
            == pnpm_name(),
        pm == pnpm_name() ==> template_written(pnpm_file_name(), names, is_root, pm, rendered)
            == Some(pnpm_file_dest()),
{
    let n = pnpm_file_name();
    let core = pnpm_file_dest();
    assert(is_suffix_of(tera_suffix(), n)) by {
        assert(n.subrange(n.len() - 5, n.len() as int) =~= tera_suffix());
    }
    assert(n.subrange(0, n.len() - 5) =~= core);
    // the core's last segment is `yaml`, which is no known tag
    assert(core[14] == '.');
    assert forall|j: int| 14 < j < core.len() implies core[j] != '.' by {}
    lemma_after_last_found(core, '.', 14);
    let tag = after_last(core, '.');
    assert(tag =~= seq!['y', 'a', 'm', 'l']);
    assert(!known_variant(tag)) by {
        assert(tag[0] == 'y' && tag[2] == 'm' && tag.len() == 4);
    }
    assert(logical_of(n) == core);
    assert(core.len() == 19 && manifest_name().len() == 12);
}

/// A rendering that is all whitespace never produces a file, whatever the
/// template, the listing, the workspace kind and the package manager.
pub proof fn lemma_blank_render_suppressed(
    name: Seq<char>,
    names: Seq<Seq<char>>,
    is_root: bool,
    pm: Seq<char>,
    rendered: Seq<char>,
)
    requires
        all_whitespace(rendered),
    ensures
        template_written(name, names, is_root, pm, rendered) is None,
{
}

} // verus!
