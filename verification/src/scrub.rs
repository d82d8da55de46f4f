//! The content edits of a service removal: dropping the service's entry
//! from the root manifest's `workspaces` array, and stripping import lines
//! that reference the service from source files. Pattern matching and JSON
//! serialization are the `regex` and `serde_json` crates', their results
//! named; which patterns are applied, and the manifest filtering, are
//! verified here.

use vstd::prelude::*;

use crate::text::{concat_str, ends_with_str, is_suffix_of, joined};
use crate::FatalError;

verus! {

/// What removing every match of `pattern` from `text` leaves. The result
/// is a function of the pattern and the text alone.
pub uninterp spec fn regex_strip(pattern: Seq<char>, text: Seq<char>) -> Seq<char>;

/// Whether `pattern` is a valid pattern the engine compiles. A function of
/// the pattern alone.
pub uninterp spec fn regex_ok(pattern: Seq<char>) -> bool;

/// Relies on `regex::Regex::new` and `regex::Regex::replace_all`: removes
/// every match of `pattern` (replacing it with nothing); exactly the
/// invalid patterns become an error.
#[verifier::external_body]
fn regex_remove_all(pattern: &str, text: &str) -> (r: Result<String, String>)
    ensures
        r is Ok <==> regex_ok(pattern@),
        r matches Ok(s) ==> s@ == regex_strip(pattern@, text@),
{
    match regex::Regex::new(pattern) {
        Ok(re) => Ok(re.replace_all(text, "").to_string()),
        Err(e) => Err(e.to_string()),
    }
}

/// The pattern matching whole `import ... from "@v1/<service>"` lines.
pub open spec fn import_pattern(service: Seq<char>) -> Seq<char> {
    "(?m)^\\s*import.*from [\"']@v1/"@ + service + "[\"'].*$"@
}

/// The pattern matching whole `use ... @v1/<service>` lines.
pub open spec fn use_pattern(service: Seq<char>) -> Seq<char> {
    "(?m)^\\s*use.*@v1/"@ + service + ".*$"@
}

/// Strips every import line and every use line that references the removed
/// service from one file's content: first the import lines, then the use
/// lines, each by its pattern. Succeeds exactly when both patterns
/// compile.
pub fn strip_service_references(content: &str, service_name: &str) -> (r: Result<
    String,
    FatalError,
>)
    ensures
        r is Ok <==> regex_ok(import_pattern(service_name@)) && regex_ok(
            use_pattern(service_name@),
        ),
        r matches Ok(s) ==> s@ == regex_strip(
            use_pattern(service_name@),
            regex_strip(import_pattern(service_name@), content@),
        ),
        r matches Err(e) ==> e is Config,
{
    let p1 = concat_str(
        concat_str("(?m)^\\s*import.*from [\"']@v1/", service_name).as_str(),
        "[\"'].*$",
    );
    let p2 = concat_str(concat_str("(?m)^\\s*use.*@v1/", service_name).as_str(), ".*$");
    let step1 = match regex_remove_all(p1.as_str(), content) {
        Ok(s) => s,
        Err(m) => return Err(FatalError::Config(m)),
    };
    match regex_remove_all(p2.as_str(), step1.as_str()) {
        Ok(s) => Ok(s),
        Err(m) => Err(FatalError::Config(m)),
    }
}

/// Whether cleanup scans a file for service references: exactly the
/// TypeScript and JavaScript sources.
pub open spec fn script_file_name(s: Seq<char>) -> bool {
    ||| is_suffix_of(".ts"@, s)
    ||| is_suffix_of(".tsx"@, s)
    ||| is_suffix_of(".js"@, s)
    ||| is_suffix_of(".jsx"@, s)
}

/// Recognizes the files cleanup scans for service references.
pub fn is_script_file(name: &str) -> (r: bool)
    ensures
        r == script_file_name(name@),
{
    ends_with_str(name, ".ts") || ends_with_str(name, ".tsx") || ends_with_str(name, ".js")
        || ends_with_str(name, ".jsx")
}

/// What parsing the manifest text and reading its `workspaces` array
/// yields: `None` when the text is not one valid JSON document,
/// `Some(None)` when it parses but holds no array of strings under
/// `workspaces`, and `Some(Some(ws))` with the array's strings otherwise.
/// A function of the text alone.
pub uninterp spec fn manifest_workspaces_of(text: Seq<char>) -> Option<Option<Seq<Seq<char>>>>;

/// What replacing the manifest's `workspaces` array with `entries` and
/// pretty-printing yields. A function of the text and the entries alone.
pub uninterp spec fn with_workspaces_of(text: Seq<char>, entries: Seq<Seq<char>>) -> Seq<char>;

/// The view of the optional extracted array.
pub open spec fn opt_entries_view(o: Option<Vec<String>>) -> Option<Seq<Seq<char>>> {
    match o {
        Some(v) => Some(v.deep_view()),
        None => None,
    }
}

/// Relies on `serde_json::from_str::<Value>`, `Value::get`,
/// `Value::as_array` and `Value::as_str`: the manifest's `workspaces`
/// array when it is an array of strings, `None` for a manifest without
/// one; text that is not valid JSON becomes an error carrying the parser's
/// message.
#[verifier::external_body]
fn json_manifest_workspaces(text: &str) -> (r: Result<Option<Vec<String>>, String>)
    ensures
        r is Ok <==> manifest_workspaces_of(text@) is Some,
        r matches Ok(o) ==> Some(opt_entries_view(o)) == manifest_workspaces_of(text@),
{
    let v: serde_json::Value = serde_json::from_str(text).map_err(|e| e.to_string())?;
    match v.get("workspaces").and_then(|w| w.as_array()) {
        Some(arr) => Ok(
            arr.iter().map(|x| x.as_str().map(|s| s.to_string())).collect::<Option<Vec<String>>>(),
        ),
        None => Ok(None),
    }
}

/// Relies on `serde_json::from_str::<Value>`, `Value::get_mut` and
/// `serde_json::to_string_pretty`: the manifest text with its `workspaces`
/// array replaced by `entries`; text that does not parse or serialize
/// becomes an error.
#[verifier::external_body]
fn json_with_workspaces(text: &str, entries: Vec<String>) -> (r: Result<String, String>)
    ensures
        r matches Ok(s) ==> s@ == with_workspaces_of(text@, entries.deep_view()),
{
    let mut v: serde_json::Value = serde_json::from_str(text).map_err(|e| e.to_string())?;
    let arr: Vec<serde_json::Value> = entries.into_iter().map(serde_json::Value::String).collect();
    if let Some(slot) = v.get_mut("workspaces") {
        *slot = serde_json::Value::Array(arr);
    }
    serde_json::to_string_pretty(&v).map_err(|e| e.to_string())
}

/// The workspace entries with every occurrence of `gone` removed, order
/// kept.
pub open spec fn entries_without(s: Seq<Seq<char>>, gone: Seq<char>) -> Seq<Seq<char>>
    decreases s.len(),
{
    if s.len() == 0 {
        s
    } else {
        let rest = entries_without(s.drop_first(), gone);
        if s.first() == gone {
            rest
        } else {
            seq![s.first()] + rest
        }
    }
}

/// Removes the removed service's `packages/<name>` entry from the root
/// manifest's workspace list, keeping the order of the others.
pub fn workspace_entries_without(entries: Vec<String>, service_name: &str) -> (r: Vec<String>)
    ensures
        r.deep_view() == entries_without(entries.deep_view(), joined("packages"@, service_name@)),
{
    let gone = crate::text::path_join("packages", service_name);
    let ghost all = entries.deep_view();
    let ghost target = joined("packages"@, service_name@);
    let n = entries.len();
    let mut entries = entries;
    let mut r: Vec<String> = Vec::new();
    proof {
        assert(all.subrange(0, n as int) =~= all);
        assert(r.deep_view() =~= Seq::<Seq<char>>::empty());
        assert(Seq::<Seq<char>>::empty() + entries_without(all, target) =~= entries_without(
            all,
            target,
        ));
    }
    let mut i: usize = 0;
    while i < n
        invariant
            n == all.len(),
            i <= n,
            gone@ == target,
            entries.deep_view() =~= all.subrange(i as int, n as int),
            entries@.len() == n - i,
            entries_without(all, target) == r.deep_view() + entries_without(
                all.subrange(i as int, n as int),
                target,
            ),
        decreases n - i,
    {
        let ghost tail = all.subrange(i as int, n as int);
        let e = entries.remove(0);
        proof {
            assert(tail.first() == all[i as int]);
            assert(e@ == tail.first());
            assert(entries.deep_view() =~= tail.drop_first());
            assert(tail.drop_first() =~= all.subrange(i + 1 as int, n as int));
        }
        if !crate::text::str_eq(e.as_str(), gone.as_str()) {
            let ghost before = r.deep_view();
            r.push(e);
            proof {
                assert(r.deep_view() =~= before + seq![tail.first()]);
                assert(before + seq![tail.first()] + entries_without(tail.drop_first(), target)
                    =~= before + (seq![tail.first()] + entries_without(
                    tail.drop_first(),
                    target,
                )));
            }
        }
        i += 1;
    }
    proof {
        assert(all.subrange(n as int, n as int) =~= Seq::<Seq<char>>::empty());
        assert(r.deep_view() =~= entries_without(all, target));
    }
    r
}

/// Rewrites the root manifest after a service removal: parses it, filters
/// the `workspaces` array, and serializes the result. `Ok(None)` means the
/// manifest holds no workspace list of strings and is left as it is;
/// `Ok(Some(s))` is the serialization of the manifest with exactly the
/// removed service's entry dropped; text that is not valid JSON is an
/// error.
pub fn update_root_package_json(content: &str, service_name: &str) -> (r: Result<
    Option<String>,
    FatalError,
>)
    ensures
        r matches Err(e) ==> e is Config,
        manifest_workspaces_of(content@) is None ==> r is Err,
        r matches Ok(o) ==> match (o, manifest_workspaces_of(content@)) {
            (None, Some(inner)) => inner is None,
            (Some(s), Some(inner)) => match inner {
                Some(ws) => s@ == with_workspaces_of(
                    content@,
                    entries_without(ws, joined("packages"@, service_name@)),
                ),
                None => false,
            },
            _ => false,
        },
{
    let found = match json_manifest_workspaces(content) {
        Ok(found) => found,
        Err(m) => return Err(FatalError::Config(m)),
    };
    match found {
        None => Ok(None),
        Some(entries) => {
            let filtered = workspace_entries_without(entries, service_name);
            match json_with_workspaces(content, filtered) {
                Ok(s) => Ok(Some(s)),
                Err(m) => Err(FatalError::Config(m)),
            }
        },
    }
}

} // verus!
