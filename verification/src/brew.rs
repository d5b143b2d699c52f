//! The gateway data model and output parsers for the external package
//! manager. The subprocess invocations themselves live outside the library;
//! what stands here is everything that turns their captured output into typed
//! results: the line-based parsers for plain listings, and the decoders for
//! the JSON answers of the `list --json` and `info --json` queries.

use vstd::prelude::*;

use crate::json::{
    doc_of, elements_of, json_as_array, json_as_str, json_clone, json_get, json_parse,
    json_parses, member_of, null_doc, object_doc, text_of,
};
use crate::strutil::{
    contains_string, first_token, sort_dedup, spec_first_token, spec_lines, spec_trim, split_lines,
    strictly_sorted, trim_str,
};

verus! {

/// One installed version record of a formula.
#[derive(Clone)]
pub struct InstalledInfo {
    pub version: String,
}

impl View for InstalledInfo {
    type V = Seq<char>;

    open spec fn view(&self) -> Seq<char> {
        self.version@
    }
}

impl DeepView for InstalledInfo {
    type V = Seq<char>;

    open spec fn deep_view(&self) -> Seq<char> {
        self.version@
    }
}

/// What the library knows of one formula, in mathematical terms: every text
/// as a character sequence, the opaque versions document carried as it came.
#[verifier::ext_equal]
pub struct FormulaInfoView {
    pub name: Seq<char>,
    pub full_name: Option<Seq<char>>,
    pub desc: Option<Seq<char>>,
    pub homepage: Option<Seq<char>>,
    pub license: Option<Seq<char>>,
    pub dependencies: Seq<Seq<char>>,
    pub installed: Seq<Seq<char>>,
    pub versions: Option<serde_json::Value>,
    pub caveats: Option<Seq<char>>,
}

/// A package summary: name, optional descriptive fields, dependency names and
/// installed-version records.
#[derive(Clone)]
pub struct FormulaInfo {
    pub name: String,
    pub full_name: Option<String>,
    pub desc: Option<String>,
    pub homepage: Option<String>,
    pub license: Option<String>,
    pub dependencies: Vec<String>,
    pub installed: Vec<InstalledInfo>,
    pub versions: Option<serde_json::Value>,
    pub caveats: Option<String>,
}

impl View for FormulaInfo {
    type V = FormulaInfoView;

    open spec fn view(&self) -> FormulaInfoView {
        FormulaInfoView {
            name: self.name@,
            full_name: self.full_name.deep_view(),
            desc: self.desc.deep_view(),
            homepage: self.homepage.deep_view(),
            license: self.license.deep_view(),
            dependencies: self.dependencies.deep_view(),
            installed: self.installed.deep_view(),
            versions: self.versions,
            caveats: self.caveats.deep_view(),
        }
    }
}

impl DeepView for FormulaInfo {
    type V = FormulaInfoView;

    open spec fn deep_view(&self) -> FormulaInfoView {
        self.view()
    }
}

/// The summary that carries a name and nothing else, as the plain listing
/// yields it.
pub open spec fn name_only_view(name: Seq<char>) -> FormulaInfoView {
    FormulaInfoView {
        name: name,
        full_name: None,
        desc: None,
        homepage: None,
        license: None,
        dependencies: Seq::empty(),
        installed: Seq::empty(),
        versions: None,
        caveats: None,
    }
}

impl FormulaInfo {
    /// A summary with only the name populated.
    pub fn from_name(name: String) -> (r: FormulaInfo)
        ensures
            r@ == name_only_view(name@),
    {
        let r = FormulaInfo {
            name,
            full_name: None,
            desc: None,
            homepage: None,
            license: None,
            dependencies: Vec::new(),
            installed: Vec::new(),
            versions: None,
            caveats: None,
        };
        proof {
            assert(r@ =~~= name_only_view(r.name@));
        }
        r
    }
}

impl Default for FormulaInfo {
    fn default() -> (r: FormulaInfo)
        ensures
            r@ == name_only_view(Seq::<char>::empty()),
    {
        FormulaInfo::from_name(String::new())
    }
}

/// Why a gateway call failed: the tool could not be run or exited non-zero,
/// its structured output was malformed, or a lookup matched nothing.
#[derive(Debug)]
pub enum BrewError {
    ToolInvocation(String),
    Decode(String),
    NotFound,
}

impl BrewError {
    /// A short account of the failure for the log pane.
    pub fn message(&self) -> (r: String)
        ensures
            self is ToolInvocation ==> r@ == self->ToolInvocation_0@,
            self is Decode ==> r@ == self->Decode_0@,
            self is NotFound ==> r@ == "no info"@,
    {
        match self {
            BrewError::ToolInvocation(m) => m.clone(),
            BrewError::Decode(m) => m.clone(),
            BrewError::NotFound => "no info".to_owned(),
        }
    }
}

/// Marker for the external tool's gateway. The subprocess calls stand outside
/// the library; the parsers below turn their captured output into values.
#[derive(Clone)]
pub struct Brew {}

impl Brew {
    pub fn new() -> (r: Self)
        ensures
            r == (Brew {  }),
    {
        Brew {  }
    }
}

/// The summaries the plain listing yields: one name-only summary per line
/// that is not blank.
pub open spec fn installed_from_lines(lines: Seq<Seq<char>>) -> Seq<FormulaInfoView>
    decreases lines.len(),
{
    if lines.len() == 0 {
        Seq::empty()
    } else if spec_trim(lines.last()).len() > 0 {
        installed_from_lines(lines.drop_last()) + seq![name_only_view(lines.last())]
    } else {
        installed_from_lines(lines.drop_last())
    }
}

/// Parse the plain `list` output: every non-blank line is a package name,
/// kept as the line stands.
pub fn parse_installed_names(s: &str) -> (r: Vec<FormulaInfo>)
    ensures
        r.deep_view() == installed_from_lines(spec_lines(s@)),
{
    let lines = split_lines(s);
    let mut r: Vec<FormulaInfo> = Vec::new();
    let mut i: usize = 0;
    proof {
        assert(installed_from_lines(lines.deep_view().take(0)) =~~= r.deep_view());
    }
    while i < lines.len()
        invariant
            i <= lines.len(),
            lines.deep_view() == spec_lines(s@),
            r.deep_view() == installed_from_lines(lines.deep_view().take(i as int)),
        decreases lines.len() - i,
    {
        let line = lines[i].clone();
        let t = trim_str(line.as_str());
        let ghost r0 = r.deep_view();
        if !t.as_str().is_empty() {
            r.push(FormulaInfo::from_name(line));
            proof {
                assert(r.deep_view() =~~= r0 + seq![
                    name_only_view(lines.deep_view()[i as int]),
                ]);
            }
        }
        proof {
            let dv = lines.deep_view();
            assert(dv.take(i + 1).drop_last() =~~= dv.take(i as int));
            assert(dv.take(i + 1).last() == dv[i as int]);
            assert(r.deep_view() =~~= installed_from_lines(dv.take(i + 1)));
        }
        i += 1;
    }
    proof {
        assert(lines.deep_view().take(lines.len() as int) =~~= lines.deep_view());
    }
    r
}

/// Parse `search` output: one result per line, kept verbatim in the tool's
/// order.
pub fn parse_search_output(s: &str) -> (r: Vec<String>)
    ensures
        r.deep_view() == spec_lines(s@),
{
    split_lines(s)
}

/// The trimmed non-blank lines, in order.
pub open spec fn available_from_lines(lines: Seq<Seq<char>>) -> Seq<Seq<char>>
    decreases lines.len(),
{
    if lines.len() == 0 {
        Seq::empty()
    } else if spec_trim(lines.last()).len() > 0 {
        available_from_lines(lines.drop_last()) + seq![spec_trim(lines.last())]
    } else {
        available_from_lines(lines.drop_last())
    }
}

/// Parse the catch-all `search` output into the universe of installable
/// names: trimmed non-blank lines, sorted by code point and deduplicated, so
/// the list is stable however the tool orders its answer.
pub fn parse_available_output(s: &str) -> (r: Vec<String>)
    ensures
        strictly_sorted(r.deep_view()),
        forall|x: Seq<char>|
            contains_string(r.deep_view(), x) == contains_string(
                available_from_lines(spec_lines(s@)),
                x,
            ),
{
    let lines = split_lines(s);
    let mut v: Vec<String> = Vec::new();
    let mut i: usize = 0;
    proof {
        assert(available_from_lines(lines.deep_view().take(0)) =~~= v.deep_view());
    }
    while i < lines.len()
        invariant
            i <= lines.len(),
            lines.deep_view() == spec_lines(s@),
            v.deep_view() == available_from_lines(lines.deep_view().take(i as int)),
        decreases lines.len() - i,
    {
        let t = trim_str(lines[i].as_str());
        let ghost v0 = v.deep_view();
        if !t.as_str().is_empty() {
            let ghost tv = t@;
            v.push(t);
            proof {
                assert(v.deep_view() =~~= v0 + seq![tv]);
            }
        }
        proof {
            let dv = lines.deep_view();
            assert(dv.take(i + 1).drop_last() =~~= dv.take(i as int));
            assert(dv.take(i + 1).last() == dv[i as int]);
            assert(v.deep_view() =~~= available_from_lines(dv.take(i + 1)));
        }
        i += 1;
    }
    proof {
        assert(lines.deep_view().take(lines.len() as int) =~~= lines.deep_view());
    }
    sort_dedup(&v)
}

/// The first whitespace-delimited token of each non-blank line: the tool
/// appends version-comparison text after each outdated package's name.
pub open spec fn outdated_from_lines(lines: Seq<Seq<char>>) -> Seq<Seq<char>>
    decreases lines.len(),
{
    if lines.len() == 0 {
        Seq::empty()
    } else if spec_trim(lines.last()).len() > 0 {
        outdated_from_lines(lines.drop_last()) + seq![
            spec_first_token(spec_trim(lines.last())),
        ]
    } else {
        outdated_from_lines(lines.drop_last())
    }
}

/// Parse `outdated` output: the name at the head of each non-blank line.
pub fn parse_outdated_output(s: &str) -> (r: Vec<String>)
    ensures
        r.deep_view() == outdated_from_lines(spec_lines(s@)),
{
    let lines = split_lines(s);
    let mut r: Vec<String> = Vec::new();
    let mut i: usize = 0;
    proof {
        assert(outdated_from_lines(lines.deep_view().take(0)) =~~= r.deep_view());
    }
    while i < lines.len()
        invariant
            i <= lines.len(),
            lines.deep_view() == spec_lines(s@),
            r.deep_view() == outdated_from_lines(lines.deep_view().take(i as int)),
        decreases lines.len() - i,
    {
        let t = trim_str(lines[i].as_str());
        let ghost r0 = r.deep_view();
        if !t.as_str().is_empty() {
            let tok = first_token(t.as_str());
            let ghost tokv = tok@;
            r.push(tok);
            proof {
                assert(r.deep_view() =~~= r0 + seq![tokv]);
            }
        }
        proof {
            let dv = lines.deep_view();
            assert(dv.take(i + 1).drop_last() =~~= dv.take(i as int));
            assert(dv.take(i + 1).last() == dv[i as int]);
            assert(r.deep_view() =~~= outdated_from_lines(dv.take(i + 1)));
        }
        i += 1;
    }
    proof {
        assert(lines.deep_view().take(lines.len() as int) =~~= lines.deep_view());
    }
    r
}

fn decode_error(msg: &str) -> (r: BrewError)
    ensures
        r == BrewError::Decode(r->Decode_0),
        r is Decode,
{
    BrewError::Decode(msg.to_owned())
}

/// The spec-level reading of an optional string member: absent or null reads
/// as nothing, a string as its text; any other member has no reading.
pub open spec fn spec_opt_string(v: serde_json::Value, key: Seq<char>) -> Option<
    Option<Seq<char>>,
> {
    match member_of(v, key) {
        None => Some(None),
        Some(x) => if null_doc(x) {
            Some(None)
        } else {
            match text_of(x) {
                Some(t) => Some(Some(t)),
                None => None,
            }
        },
    }
}

/// The texts of a sequence of string values, in order; no reading when one of
/// them is not a string.
pub open spec fn spec_texts(elems: Seq<serde_json::Value>) -> Option<Seq<Seq<char>>>
    decreases elems.len(),
{
    if elems.len() == 0 {
        Some(Seq::empty())
    } else {
        match spec_texts(elems.drop_last()) {
            None => None,
            Some(pre) => match text_of(elems.last()) {
                Some(t) => Some(pre.push(t)),
                None => None,
            },
        }
    }
}

/// The reading of an array value as a list of strings.
pub open spec fn spec_array_texts(x: serde_json::Value) -> Option<Seq<Seq<char>>> {
    match elements_of(x) {
        None => None,
        Some(elems) => spec_texts(elems),
    }
}

/// The reading of a string-list member: absent reads as empty; present it
/// must be an array of strings.
pub open spec fn spec_string_list(v: serde_json::Value, key: Seq<char>) -> Option<Seq<Seq<char>>> {
    match member_of(v, key) {
        None => Some(Seq::empty()),
        Some(x) => spec_array_texts(x),
    }
}

/// The reading of one installed-version record: an object whose optional
/// `version` member is a string, the empty string when absent.
pub open spec fn spec_installed_entry(e: serde_json::Value) -> Option<Seq<char>> {
    if !object_doc(e) {
        None
    } else {
        match member_of(e, "version"@) {
            None => Some(Seq::empty()),
            Some(x) => text_of(x),
        }
    }
}

/// The version strings of a sequence of installed records, in order.
pub open spec fn spec_installed_list(elems: Seq<serde_json::Value>) -> Option<Seq<Seq<char>>>
    decreases elems.len(),
{
    if elems.len() == 0 {
        Some(Seq::empty())
    } else {
        match spec_installed_list(elems.drop_last()) {
            None => None,
            Some(pre) => match spec_installed_entry(elems.last()) {
                Some(t) => Some(pre.push(t)),
                None => None,
            },
        }
    }
}

/// The reading of an array value as a list of installed records.
pub open spec fn spec_array_installed(x: serde_json::Value) -> Option<Seq<Seq<char>>> {
    match elements_of(x) {
        None => None,
        Some(elems) => spec_installed_list(elems),
    }
}

/// The reading of the installed member: absent reads as empty.
pub open spec fn spec_installed(v: serde_json::Value) -> Option<Seq<Seq<char>>> {
    match member_of(v, "installed"@) {
        None => Some(Seq::empty()),
        Some(x) => spec_array_installed(x),
    }
}

/// The versions member, carried opaquely: absent or null reads as nothing.
pub open spec fn spec_versions(v: serde_json::Value) -> Option<serde_json::Value> {
    match member_of(v, "versions"@) {
        None => None,
        Some(x) => if null_doc(x) {
            None
        } else {
            Some(x)
        },
    }
}

/// The reading of one formula object: a required string `name`; optional
/// strings `full_name`, `desc`, `homepage`, `license` and `caveats`;
/// dependency and installed lists defaulting to empty; the versions blob kept
/// opaque. No reading when any field is malformed.
pub open spec fn spec_formula(v: serde_json::Value) -> Option<FormulaInfoView> {
    match member_of(v, "name"@) {
        None => None,
        Some(x) => match text_of(x) {
            None => None,
            Some(name) => match (
                spec_opt_string(v, "full_name"@),
                spec_opt_string(v, "desc"@),
                spec_opt_string(v, "homepage"@),
                spec_opt_string(v, "license"@),
                spec_string_list(v, "dependencies"@),
                spec_installed(v),
                spec_opt_string(v, "caveats"@),
            ) {
                (
                    Some(full_name),
                    Some(desc),
                    Some(homepage),
                    Some(license),
                    Some(dependencies),
                    Some(installed),
                    Some(caveats),
                ) => Some(
                    FormulaInfoView {
                        name,
                        full_name,
                        desc,
                        homepage,
                        license,
                        dependencies,
                        installed,
                        versions: spec_versions(v),
                        caveats,
                    },
                ),
                _ => None,
            },
        },
    }
}

/// The readings of a sequence of formula objects, in order.
pub open spec fn spec_formulae(elems: Seq<serde_json::Value>) -> Option<Seq<FormulaInfoView>>
    decreases elems.len(),
{
    if elems.len() == 0 {
        Some(Seq::empty())
    } else {
        match spec_formulae(elems.drop_last()) {
            None => None,
            Some(pre) => match spec_formula(elems.last()) {
                Some(f) => Some(pre.push(f)),
                None => None,
            },
        }
    }
}

/// The reading of a whole envelope document `{ "formulae": [ ... ] }`.
pub open spec fn spec_envelope(v: serde_json::Value) -> Option<Seq<FormulaInfoView>> {
    match member_of(v, "formulae"@) {
        None => None,
        Some(x) => match elements_of(x) {
            None => None,
            Some(elems) => spec_formulae(elems),
        },
    }
}

/// A failed element reading fails the whole text list.
proof fn lemma_spec_texts_fail(elems: Seq<serde_json::Value>, i: int)
    requires
        0 <= i < elems.len(),
        text_of(elems[i]) is None,
    ensures
        spec_texts(elems) is None,
    decreases elems.len(),
{
    if i < elems.len() - 1 {
        lemma_spec_texts_fail(elems.drop_last(), i);
    }
}

/// A failed record reading fails the whole installed list.
proof fn lemma_spec_installed_fail(elems: Seq<serde_json::Value>, i: int)
    requires
        0 <= i < elems.len(),
        spec_installed_entry(elems[i]) is None,
    ensures
        spec_installed_list(elems) is None,
    decreases elems.len(),
{
    if i < elems.len() - 1 {
        lemma_spec_installed_fail(elems.drop_last(), i);
    }
}

/// A failed formula reading fails the whole envelope list.
proof fn lemma_spec_formulae_fail(elems: Seq<serde_json::Value>, i: int)
    requires
        0 <= i < elems.len(),
        spec_formula(elems[i]) is None,
    ensures
        spec_formulae(elems) is None,
    decreases elems.len(),
{
    if i < elems.len() - 1 {
        lemma_spec_formulae_fail(elems.drop_last(), i);
    }
}

/// An optional string member, as `spec_opt_string` reads it.
fn decode_opt_string(v: &serde_json::Value, key: &str) -> (r: Result<Option<String>, BrewError>)
    ensures
        match spec_opt_string(*v, key@) {
            Some(o) => r matches Ok(ro) && ro.deep_view() == o,
            None => r matches Err(e) && e is Decode,
        },
{
    match json_get(v, key) {
        None => Ok(None),
        Some(x) => {
            if x.is_null() {
                Ok(None)
            } else {
                match json_as_str(x) {
                    Some(s) => Ok(Some(s)),
                    None => Err(decode_error("field is not a string")),
                }
            }
        },
    }
}

/// An array of strings, as `spec_array_texts` reads it.
fn decode_string_array(x: &serde_json::Value) -> (r: Result<Vec<String>, BrewError>)
    ensures
        match spec_array_texts(*x) {
            Some(ts) => r matches Ok(l) && l.deep_view() == ts,
            None => r matches Err(e) && e is Decode,
        },
{
    match json_as_array(x) {
        None => Err(decode_error("field is not an array")),
        Some(arr) => {
            let mut r: Vec<String> = Vec::new();
            let mut i: usize = 0;
            proof {
                assert(spec_texts(arr@.take(0)) =~~= Some(r.deep_view()));
            }
            while i < arr.len()
                invariant
                    i <= arr@.len(),
                    elements_of(*x) == Some(arr@),
                    spec_texts(arr@.take(i as int)) == Some(r.deep_view()),
                decreases arr.len() - i,
            {
                let ghost r0 = r.deep_view();
                match json_as_str(&arr[i]) {
                    Some(s) => {
                        let ghost sv = s@;
                        r.push(s);
                        proof {
                            assert(arr@.take(i + 1).drop_last() =~~= arr@.take(i as int));
                            assert(arr@.take(i + 1).last() == arr@[i as int]);
                            assert(r.deep_view() =~~= r0.push(sv));
                            assert(spec_texts(arr@.take(i + 1)) == Some(r.deep_view()));
                        }
                    },
                    None => {
                        proof {
                            lemma_spec_texts_fail(arr@, i as int);
                        }
                        return Err(decode_error("element is not a string"));
                    },
                }
                i += 1;
            }
            proof {
                assert(arr@.take(arr@.len() as int) =~~= arr@);
            }
            Ok(r)
        },
    }
}

/// An array of installed-version records, as `spec_array_installed` reads it:
/// each element an object, its missing version reading as the empty string.
fn decode_installed_array(x: &serde_json::Value) -> (r: Result<Vec<InstalledInfo>, BrewError>)
    ensures
        match spec_array_installed(*x) {
            Some(vs) => r matches Ok(l) && l.deep_view() == vs,
            None => r matches Err(e) && e is Decode,
        },
{
    match json_as_array(x) {
        None => Err(decode_error("installed is not an array")),
        Some(arr) => {
            let mut r: Vec<InstalledInfo> = Vec::new();
            let mut i: usize = 0;
            proof {
                assert(spec_installed_list(arr@.take(0)) =~~= Some(r.deep_view()));
            }
            while i < arr.len()
                invariant
                    i <= arr@.len(),
                    elements_of(*x) == Some(arr@),
                    spec_installed_list(arr@.take(i as int)) == Some(r.deep_view()),
                decreases arr.len() - i,
            {
                let ghost r0 = r.deep_view();
                let e = &arr[i];
                if !e.is_object() {
                    proof {
                        lemma_spec_installed_fail(arr@, i as int);
                    }
                    return Err(decode_error("installed entry is not an object"));
                }
                match json_get(e, "version") {
                    None => {
                        r.push(InstalledInfo { version: String::new() });
                        proof {
                            assert(r.deep_view() =~~= r0.push(Seq::<char>::empty()));
                        }
                    },
                    Some(w) => match json_as_str(w) {
                        Some(s) => {
                            let ghost sv = s@;
                            r.push(InstalledInfo { version: s });
                            proof {
                                assert(r.deep_view() =~~= r0.push(sv));
                            }
                        },
                        None => {
                            proof {
                                lemma_spec_installed_fail(arr@, i as int);
                            }
                            return Err(decode_error("version is not a string"));
                        },
                    },
                }
                proof {
                    assert(arr@.take(i + 1).drop_last() =~~= arr@.take(i as int));
                    assert(arr@.take(i + 1).last() == arr@[i as int]);
                    assert(spec_installed_list(arr@.take(i + 1)) == Some(r.deep_view()));
                }
                i += 1;
            }
            proof {
                assert(arr@.take(arr@.len() as int) =~~= arr@);
            }
            Ok(r)
        },
    }
}

/// One formula object, as `spec_formula` reads it.
fn decode_formula(v: &serde_json::Value) -> (r: Result<FormulaInfo, BrewError>)
    ensures
        match spec_formula(*v) {
            Some(fv) => r matches Ok(f) && f@ == fv,
            None => r matches Err(e) && e is Decode,
        },
{
    let name = match json_get(v, "name") {
        None => {
            return Err(decode_error("name missing"));
        },
        Some(x) => match json_as_str(x) {
            Some(s) => s,
            None => {
                return Err(decode_error("name is not a string"));
            },
        },
    };
    let full_name = match decode_opt_string(v, "full_name") {
        Ok(o) => o,
        Err(e) => {
            return Err(e);
        },
    };
    let desc = match decode_opt_string(v, "desc") {
        Ok(o) => o,
        Err(e) => {
            return Err(e);
        },
    };
    let homepage = match decode_opt_string(v, "homepage") {
        Ok(o) => o,
        Err(e) => {
            return Err(e);
        },
    };
    let license = match decode_opt_string(v, "license") {
        Ok(o) => o,
        Err(e) => {
            return Err(e);
        },
    };
    let dependencies = match json_get(v, "dependencies") {
        None => Vec::new(),
        Some(x) => match decode_string_array(x) {
            Ok(l) => l,
            Err(e) => {
                return Err(e);
            },
        },
    };
    let installed = match json_get(v, "installed") {
        None => Vec::new(),
        Some(x) => match decode_installed_array(x) {
            Ok(l) => l,
            Err(e) => {
                return Err(e);
            },
        },
    };
    let versions = match json_get(v, "versions") {
        None => None,
        Some(x) => {
            if x.is_null() {
                None
            } else {
                Some(json_clone(x))
            }
        },
    };
    let caveats = match decode_opt_string(v, "caveats") {
        Ok(o) => o,
        Err(e) => {
            return Err(e);
        },
    };
    let f = FormulaInfo {
        name,
        full_name,
        desc,
        homepage,
        license,
        dependencies,
        installed,
        versions,
        caveats,
    };
    proof {
        assert(spec_formula(*v) is Some);
        assert(f@ =~~= spec_formula(*v)->Some_0);
    }
    Ok(f)
}

/// The formulae of an envelope document, as `spec_envelope` reads them.
fn decode_envelope(v: &serde_json::Value) -> (r: Result<Vec<FormulaInfo>, BrewError>)
    ensures
        match spec_envelope(*v) {
            Some(fs) => r matches Ok(l) && l.deep_view() == fs,
            None => r matches Err(e) && e is Decode,
        },
{
    let arr = match json_get(v, "formulae") {
        None => {
            return Err(decode_error("formulae missing"));
        },
        Some(x) => match json_as_array(x) {
            None => {
                return Err(decode_error("formulae is not an array"));
            },
            Some(a) => a,
        },
    };
    let mut r: Vec<FormulaInfo> = Vec::new();
    let mut i: usize = 0;
    proof {
        assert(spec_formulae(arr@.take(0)) =~~= Some(r.deep_view()));
    }
    while i < arr.len()
        invariant
            i <= arr@.len(),
            spec_envelope(*v) == spec_formulae(arr@),
            spec_formulae(arr@.take(i as int)) == Some(r.deep_view()),
        decreases arr.len() - i,
    {
        let ghost r0 = r.deep_view();
        match decode_formula(&arr[i]) {
            Ok(f) => {
                let ghost fv = f@;
                r.push(f);
                proof {
                    assert(arr@.take(i + 1).drop_last() =~~= arr@.take(i as int));
                    assert(arr@.take(i + 1).last() == arr@[i as int]);
                    assert(r.deep_view() =~~= r0.push(fv));
                    assert(spec_formulae(arr@.take(i + 1)) == Some(r.deep_view()));
                }
            },
            Err(e) => {
                proof {
                    lemma_spec_formulae_fail(arr@, i as int);
                }
                return Err(e);
            },
        }
        i += 1;
    }
    proof {
        assert(arr@.take(arr@.len() as int) =~~= arr@);
    }
    Ok(r)
}

/// Decode the JSON form of the `list` output: an envelope object whose
/// `formulae` array holds one object per formula. The result is `Ok` with
/// exactly the formulae the envelope reads to, and a decode failure exactly
/// otherwise — text that is not well-formed JSON included.
pub fn decode_formulae_list(s: &str) -> (r: Result<Vec<FormulaInfo>, BrewError>)
    ensures
        !json_parses(s@) ==> (r matches Err(e) && e is Decode),
        json_parses(s@) ==> match spec_envelope(doc_of(s@)) {
            Some(fs) => r matches Ok(l) && l.deep_view() == fs,
            None => r matches Err(e) && e is Decode,
        },
        r is Err ==> r->Err_0 is Decode,
{
    let doc = match json_parse(s) {
        Ok(v) => v,
        Err(m) => {
            return Err(BrewError::Decode(m));
        },
    };
    decode_envelope(&doc)
}

/// Decode the JSON answer of an `info` query: `Ok` with the first formula the
/// envelope reads to; `NotFound` exactly when the envelope reads to an empty
/// array; a decode failure exactly otherwise — text that is not well-formed
/// JSON included.
pub fn decode_formula_info(s: &str) -> (r: Result<FormulaInfo, BrewError>)
    ensures
        !json_parses(s@) ==> (r matches Err(e) && e is Decode),
        json_parses(s@) ==> match spec_envelope(doc_of(s@)) {
            Some(fs) => if fs.len() == 0 {
                r matches Err(e) && e is NotFound
            } else {
                r matches Ok(f) && f@ == fs[0]
            },
            None => r matches Err(e) && e is Decode,
        },
        r is Err ==> (r->Err_0 is Decode || r->Err_0 is NotFound),
{
    let doc = match json_parse(s) {
        Ok(v) => v,
        Err(m) => {
            return Err(BrewError::Decode(m));
        },
    };
    let mut list = match decode_envelope(&doc) {
        Ok(l) => l,
        Err(e) => {
            return Err(e);
        },
    };
    if list.len() == 0 {
        Err(BrewError::NotFound)
    } else {
        let first = list.remove(0);
        proof {
            assert(first@ == spec_envelope(doc_of(s@))->Some_0[0]);
        }
        Ok(first)
    }
}

/// Whether the plain listing answered usefully: an empty answer demands the
/// structured fallback query.
pub fn plain_listing_empty(list: &Vec<FormulaInfo>) -> (r: bool)
    ensures
        r == (list.deep_view().len() == 0),
{
    list.len() == 0
}

} // verus!
