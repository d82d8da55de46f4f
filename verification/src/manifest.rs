//! The consumed project manifest: a JSON object with a `name` and a
//! `packageManager` field (the part of its value before `@` names the
//! manager), the choice of package manager, and project-name validation.

use vstd::prelude::*;

use crate::text::concat_str;
use crate::FatalError;

verus! {

/// The two manifest fields the generator consumes.
#[derive(Debug)]
pub struct PackageJson {
    /// The project's name.
    pub name: String,
    /// The package manager's name, with any `@version` part removed.
    pub package_manager: String,
}

/// The characters of `s` before the first occurrence of `c`, or all of `s`
/// when `c` does not occur (the first piece of a split at `c`).
pub open spec fn before_first(s: Seq<char>, c: char) -> Seq<char>
    decreases s.len(),
{
    if s.len() == 0 {
        s
    } else if s.first() == c {
        Seq::empty()
    } else {
        seq![s.first()] + before_first(s.drop_first(), c)
    }
}

/// The characters of `s` before the first occurrence of `c`.
pub fn before_first_char(s: &str, c: char) -> (r: String)
    ensures
        r@ == before_first(s@, c),
{
    let slen = s.unicode_len();
    let mut i: usize = 0;
    while i < slen
        invariant
            slen == s@.len(),
            i <= slen,
            forall|j: int| 0 <= j < i ==> s@[j] != c,
        decreases slen - i,
    {
        if s.get_char(i) == c {
            let head = s.substring_char(0, i);
            proof {
                lemma_before_first_found(s@, c, i as int);
            }
            return head.to_owned();
        }
        i += 1;
    }
    proof {
        lemma_before_first_absent(s@, c);
    }
    s.to_owned()
}

/// If `c` occurs nowhere in `s`, the first split piece is `s` itself.
proof fn lemma_before_first_absent(s: Seq<char>, c: char)
    requires
        forall|j: int| 0 <= j < s.len() ==> s[j] != c,
    ensures
        before_first(s, c) == s,
    decreases s.len(),
{
    if s.len() > 0 {
        assert forall|j: int| 0 <= j < s.drop_first().len() implies s.drop_first()[j] != c by {
            assert(s.drop_first()[j] == s[j + 1]);
        }
        lemma_before_first_absent(s.drop_first(), c);
        assert(before_first(s, c) =~= s);
    }
}

/// If the first occurrence of `c` in `s` is at `k`, the first split piece
/// is everything before position `k`.
proof fn lemma_before_first_found(s: Seq<char>, c: char, k: int)
    requires
        0 <= k < s.len(),
        s[k] == c,
        forall|j: int| 0 <= j < k ==> s[j] != c,
    ensures
        before_first(s, c) == s.subrange(0, k),
    decreases s.len(),
{
    if k == 0 {
        assert(before_first(s, c) =~= s.subrange(0, 0));
    } else {
        assert forall|j: int| 0 <= j < k - 1 implies s.drop_first()[j] != c by {
            assert(s.drop_first()[j] == s[j + 1]);
        }
        assert(s.drop_first()[k - 1] == s[k]);
        lemma_before_first_found(s.drop_first(), c, k - 1);
        assert(s.drop_first().subrange(0, k - 1) =~= s.subrange(1, k));
        assert(before_first(s, c) =~= s.subrange(0, k));
    }
}

/// What parsing the manifest text as JSON and reading its `name` and
/// `packageManager` fields yields: `None` when the text is not one valid
/// JSON document, otherwise the two fields' string values where present.
/// The result is a function of the text alone.
pub uninterp spec fn manifest_fields_of(text: Seq<char>) -> Option<
    (Option<Seq<char>>, Option<Seq<char>>),
>;

/// The view of one optional extracted field.
pub open spec fn opt_field_view(o: Option<String>) -> Option<Seq<char>> {
    match o {
        Some(s) => Some(s@),
        None => None,
    }
}

/// Relies on `serde_json::from_str::<Value>`, `Value::get` and
/// `Value::as_str`: parses the text as one JSON document and reads the
/// string values of its `name` and `packageManager` fields; text that is
/// not valid JSON becomes an error carrying the parser's message.
#[verifier::external_body]
fn json_manifest_fields(text: &str) -> (r: Result<(Option<String>, Option<String>), String>)
    ensures
        r is Ok <==> manifest_fields_of(text@) is Some,
        r matches Ok(fields) ==> Some((opt_field_view(fields.0), opt_field_view(fields.1)))
            == manifest_fields_of(text@),
{
    let v: serde_json::Value = serde_json::from_str(text).map_err(|e| e.to_string())?;
    Ok(
        (
            v.get("name").and_then(|x| x.as_str()).map(|s| s.to_string()),
            v.get("packageManager").and_then(|x| x.as_str()).map(|s| s.to_string()),
        ),
    )
}

/// Assembles the consumed manifest from its two extracted fields: both must
/// be present as strings, and only the part of `packageManager` before `@`
/// is significant.
pub fn package_json_from_fields(name: Option<String>, package_manager: Option<String>) -> (r:
    Result<PackageJson, FatalError>)
    ensures
        r is Ok <==> (name is Some && package_manager is Some),
        match r {
            Ok(p) => match (name, package_manager) {
                (Some(n), Some(m)) => p.name@ == n@ && p.package_manager@ == before_first(
                    m@,
                    '@',
                ),
                _ => false,
            },
            Err(e) => match e {
                FatalError::Config(msg) => if name is None {
                    msg@ == "name not found in package.json"@
                } else {
                    msg@ == "packageManager not found in package.json"@
                },
                _ => false,
            },
        },
{
    let n = match name {
        Some(n) => n,
        None => return Err(FatalError::Config("name not found in package.json".to_owned())),
    };
    let m = match package_manager {
        Some(m) => m,
        None => return Err(
            FatalError::Config("packageManager not found in package.json".to_owned()),
        ),
    };
    let base = before_first_char(m.as_str(), '@');
    Ok(PackageJson { name: n, package_manager: base })
}

/// Reads the consumed fields out of a manifest text: parses it as JSON,
/// extracts `name` and `packageManager`, and strips the version part of
/// the latter. Text that is not valid JSON, and a missing or non-string
/// field, are configuration errors, each with its own message.
pub fn get_package_json(text: &str) -> (r: Result<PackageJson, FatalError>)
    ensures
        r is Ok <==> manifest_fields_of(text@) matches Some((Some(n), Some(m))),
        r matches Ok(p) ==> match manifest_fields_of(text@) {
            Some((Some(n), Some(m))) => p.name@ == n && p.package_manager@ == before_first(
                m,
                '@',
            ),
            _ => false,
        },
        r matches Err(e) ==> e is Config && match manifest_fields_of(text@) {
            Some((None, _)) => e.text() == "name not found in package.json"@,
            Some((Some(n), None)) => e.text() == "packageManager not found in package.json"@,
            _ => true,
        },
{
    let fields = match json_manifest_fields(text) {
        Ok(fields) => fields,
        Err(m) => return Err(FatalError::Config(m)),
    };
    package_json_from_fields(fields.0, fields.1)
}

/// The package manager to use: the one the caller already resolved, or the
/// one chosen interactively when none was given.
pub fn confirm_package_manager(package_manager: Option<&str>, interactive_choice: &str) -> (r:
    String)
    ensures
        package_manager matches Some(pm) ==> r@ == pm@,
        package_manager is None ==> r@ == interactive_choice@,
{
    match package_manager {
        Some(pm) => pm.to_owned(),
        None => interactive_choice.to_owned(),
    }
}

/// An ASCII letter.
pub open spec fn is_ascii_alpha(c: char) -> bool {
    (97 <= c as u32 && c as u32 <= 122) || (65 <= c as u32 && c as u32 <= 90)
}

/// A character a project name may contain: a letter, a digit, a dash or an
/// underscore.
pub open spec fn is_name_char(c: char) -> bool {
    is_ascii_alpha(c) || (48 <= c as u32 && c as u32 <= 57) || c == '-' || c == '_'
}

/// A valid project name: non-empty, at most twenty characters, starting
/// with a letter, holding only letters, digits, dashes and underscores.
pub open spec fn valid_project_name(s: Seq<char>) -> bool {
    &&& s.len() > 0
    &&& is_ascii_alpha(s[0])
    &&& (forall|i: int| 0 <= i < s.len() ==> is_name_char(#[trigger] s[i]))
    &&& s.len() <= 20
}

/// Validates a project name, reporting the first rule it breaks: emptiness,
/// a leading non-letter, a forbidden character, or excessive length.
pub fn is_valid_project_name(name: &str) -> (r: Result<(), String>)
    ensures
        r is Ok <==> valid_project_name(name@),
{
    let len = name.unicode_len();
    if len == 0 {
        return Err("Project name cannot be empty".to_owned());
    }
    let c0 = name.get_char(0);
    let u0 = c0 as u32;
    if !((97 <= u0 && u0 <= 122) || (65 <= u0 && u0 <= 90)) {
        return Err("Project name must start with a letter".to_owned());
    }
    let mut i: usize = 0;
    while i < len
        invariant
            len == name@.len(),
            i <= len,
            forall|j: int| 0 <= j < i ==> is_name_char(#[trigger] name@[j]),
        decreases len - i,
    {
        let c = name.get_char(i);
        let u = c as u32;
        if !((97 <= u && u <= 122) || (65 <= u && u <= 90) || (48 <= u && u <= 57) || c == '-'
            || c == '_') {
            return Err(
                "Project name can only contain letters, numbers, dashes, and underscores".to_owned(),
            );
        }
        i += 1;
    }
    if len > 20 {
        return Err("Project name is too long (maximum 20 characters)".to_owned());
    }
    Ok(())
}

} // verus!
