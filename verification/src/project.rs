//! The decisions of a scaffolding session: whether a project name is
//! acceptable, which service crates a selection stands for, and the
//! rendering of each embedded template file.

use vstd::prelude::*;
use crate::base64::{b64_decoded, base64_decode};
use crate::scaffold::{prune_services, pruned, service_crate, str_views, substitute, substituted};
use crate::template_files::{get_template_files, template_paths, template_sources};
use crate::text::{
    all_white_space, chars_to_string, lemma_trim_empty, str_to_chars, trim, trim_chars,
};

verus! {

// ── Regular expressions ────────────────────────────────────────────────

#[verifier::external_type_specification]
#[verifier::external_body]
pub struct ExRegex(regex::Regex);

/// Whether `regex::Regex::new` accepts the pattern.
pub uninterp spec fn regex_compiles(pattern: Seq<char>) -> bool;

/// Whether `regex::Regex::is_match` finds a match of the pattern in the text.
pub uninterp spec fn regex_matches(pattern: Seq<char>, text: Seq<char>) -> bool;

/// `regex::Regex::new`. Whether it succeeds depends on the pattern alone;
/// the contract names that outcome and claims nothing about it.
#[verifier::external_body]
fn regex_new(pattern: &str) -> (r: Option<regex::Regex>)
    ensures
        r is Some <==> regex_compiles(pattern@),
{
    regex::Regex::new(pattern).ok()
}

/// A compiled regular expression together with the pattern it was compiled from.
pub struct CompiledRegex {
    source: String,
    re: regex::Regex,
}

impl CompiledRegex {
    /// The pattern this expression was compiled from.
    pub closed spec fn pattern(&self) -> Seq<char> {
        self.source@
    }

    /// Compiles `pattern`; `None` when the regex crate rejects it.
    pub fn new(pattern: &str) -> (r: Option<CompiledRegex>)
        ensures
            r is Some <==> regex_compiles(pattern@),
            r matches Some(c) ==> c.pattern() == pattern@,
    {
        match regex_new(pattern) {
            Some(re) => Some(CompiledRegex { source: chars_to_string(&str_to_chars(pattern)), re }),
            None => None,
        }
    }
}

/// `regex::Regex::is_match` on the compiled expression. A `CompiledRegex` is
/// only built by `CompiledRegex::new`, which compiles `source` into `re`, so
/// the answer is the match of the recorded pattern in `text`; the contract
/// names it and claims nothing more about it.
#[verifier::external_body]
fn regex_is_match(re: &CompiledRegex, text: &str) -> (r: bool)
    ensures
        r == regex_matches(re.pattern(), text@),
{
    re.re.is_match(text)
}

// ── Project names ──────────────────────────────────────────────────────

/// Pattern for project names: a word character, then up to 29 word
/// characters or hyphens.
pub open spec fn project_name_pattern() -> Seq<char> {
    "^[\\w][\\w\\-]{0,29}$"@
}

/// Compiles the project name pattern.
pub fn project_name_regex() -> (r: Option<CompiledRegex>)
    ensures
        r is Some <==> regex_compiles(project_name_pattern()),
        r matches Some(c) ==> c.pattern() == project_name_pattern(),
{
    CompiledRegex::new("^[\\w][\\w\\-]{0,29}$")
}

/// The verdict on a proposed project name (before the folder check).
#[derive(PartialEq, Eq, Structural, Debug, Clone, Copy)]
pub enum NameCheck {
    /// Nothing but white space.
    Empty,
    /// Not 1-30 letters, digits, hyphens or underscores.
    Invalid,
    /// Acceptable.
    Valid,
}

/// Empty names are refused first, then names the pattern does not match.
pub open spec fn name_check(name: Seq<char>, pattern_matches: bool) -> NameCheck {
    if trim(name).len() == 0 {
        NameCheck::Empty
    } else if !pattern_matches {
        NameCheck::Invalid
    } else {
        NameCheck::Valid
    }
}

/// The verdicts over all names: a name is empty exactly when it is all white
/// space; otherwise a name the pattern matches is valid and one it does not
/// match is invalid. Nothing else about the name decides.
pub proof fn lemma_name_check_verdicts(name: Seq<char>, pattern_matches: bool)
    ensures
        (name_check(name, pattern_matches) == NameCheck::Empty) == all_white_space(name),
        (name_check(name, true) == NameCheck::Valid) == !all_white_space(name),
        (name_check(name, false) == NameCheck::Invalid) == !all_white_space(name),
        name_check(name, false) != NameCheck::Valid,
        name_check(name, true) != NameCheck::Invalid,
{
    lemma_trim_empty(name);
}

/// Judges a name given whether the project name pattern matches it.
pub fn classify_project_name(name: &str, pattern_matches: bool) -> (r: NameCheck)
    ensures
        r == name_check(name@, pattern_matches),
{
    let trimmed = trim_chars(&str_to_chars(name));
    if trimmed.len() == 0 {
        NameCheck::Empty
    } else if !pattern_matches {
        NameCheck::Invalid
    } else {
        NameCheck::Valid
    }
}

/// Judges a name against a compiled pattern.
pub fn check_project_name(name: &str, pattern: &CompiledRegex) -> (r: NameCheck)
    ensures
        r == name_check(name@, regex_matches(pattern.pattern(), name@)),
{
    let matched = regex_is_match(pattern, name);
    classify_project_name(name, matched)
}

// ── Service selection ──────────────────────────────────────────────────

/// The labels offered for the optional services, in order.
pub fn service_labels() -> (r: Vec<&'static str>)
    ensures
        str_views(r@) == seq!["S3"@, "SES"@, "SNS"@],
{
    let r = vec!["S3", "SES", "SNS"];
    assert(str_views(r@) == seq!["S3"@, "SES"@, "SNS"@]);
    r
}

/// Why a selection is refused.
#[derive(PartialEq, Eq, Structural, Debug, Clone, Copy)]
pub enum SelectionError {
    /// No service was chosen.
    NothingSelected,
}

impl SelectionError {
    /// The error message.
    pub fn message(&self) -> (r: &'static str)
        ensures
            r@ == "Please select at least one service."@,
    {
        "Please select at least one service."
    }
}

fn service_crate_str(i: usize) -> (r: &'static str)
    requires
        i < 3,
    ensures
        r@ == service_crate(i as int),
{
    if i == 0 {
        "iciaws_s3"
    } else if i == 1 {
        "iciaws_ses"
    } else {
        "iciaws_sns"
    }
}

/// The crate names of the chosen services, by their positions in `service_labels`.
pub fn services_from_selection(selected: &[usize]) -> (r: Result<Vec<&'static str>, SelectionError>)
    requires
        forall|i: int| 0 <= i < selected@.len() ==> selected@[i] < 3,
    ensures
        selected@.len() == 0 <==> r is Err,
        r matches Ok(v) ==> str_views(v@) == selected@.map_values(|i: usize| service_crate(i as int)),
{
    if selected.len() == 0 {
        return Err(SelectionError::NothingSelected);
    }
    let ghost want = selected@.map_values(|i: usize| service_crate(i as int));
    let mut out: Vec<&'static str> = Vec::new();
    for k in 0..selected.len()
        invariant
            forall|i: int| 0 <= i < selected@.len() ==> selected@[i] < 3,
            want == selected@.map_values(|i: usize| service_crate(i as int)),
            str_views(out@) == want.take(k as int),
    {
        let name = service_crate_str(selected[k]);
        let ghost before = out@;
        out.push(name);
        assert(str_views(out@) == str_views(before).push(name@));
        assert(want.take(k + 1) == want.take(k as int).push(want[k as int]));
    }
    assert(want.take(selected.len() as int) == want);
    Ok(out)
}

// ── Rendering ──────────────────────────────────────────────────────────

/// `String::from_utf8`: succeeds exactly on valid UTF-8, and then holds the
/// characters that the bytes encode (vstd's `valid_utf8` and `decode_utf8`).
#[verifier::external_body]
fn string_from_utf8(bytes: Vec<u8>) -> (r: Option<String>)
    ensures
        r is Some <==> vstd::utf8::valid_utf8(bytes@),
        r matches Some(s) ==> s@ == vstd::utf8::decode_utf8(bytes@),
{
    String::from_utf8(bytes).ok()
}

/// The bytes a base64 template entry stands for.
pub open spec fn template_bytes(b64: Seq<char>) -> Seq<u8> {
    b64_decoded(vstd::utf8::encode_utf8(b64))
}

/// The text of a template entry, when its bytes are valid UTF-8.
pub open spec fn template_text(b64: Seq<char>) -> Option<Seq<char>> {
    if vstd::utf8::valid_utf8(template_bytes(b64)) {
        Some(vstd::utf8::decode_utf8(template_bytes(b64)))
    } else {
        None
    }
}

/// A template file as written into a new project: decoded, placeholders
/// substituted, and lines of services left out removed.
pub open spec fn rendered(
    b64: Seq<char>,
    name: Seq<char>,
    description: Seq<char>,
    services: Seq<Seq<char>>,
) -> Option<Seq<char>> {
    match template_text(b64) {
        Some(t) => Some(pruned(substituted(t, name, description), services)),
        None => None,
    }
}

/// Decodes one embedded template file; `None` when it is not UTF-8 text.
pub fn decode_template_file(b64: &str) -> (r: Option<String>)
    ensures
        opt_chars(r) == template_text(b64@),
{
    let bytes = base64_decode(b64);
    string_from_utf8(bytes)
}

/// The view of an optional string.
pub open spec fn opt_chars(s: Option<String>) -> Option<Seq<char>> {
    match s {
        Some(x) => Some(x@),
        None => None,
    }
}

/// Renders one embedded template file for a new project.
pub fn render_template_file(
    b64: &str,
    project_name: &str,
    description: &str,
    services: &[&str],
) -> (r: Option<String>)
    ensures
        opt_chars(r) == rendered(b64@, project_name@, description@, str_views(services@)),
{
    match decode_template_file(b64) {
        Some(content) => {
            let processed = substitute(content.as_str(), project_name, description);
            Some(prune_services(processed.as_str(), services))
        },
        None => None,
    }
}

/// One rendered entry: same path, and the rendered text of the file.
pub open spec fn entry_rendered(
    file: (&str, String),
    entry: (String, String),
    name: Seq<char>,
    description: Seq<char>,
    services: Seq<Seq<char>>,
) -> bool {
    &&& entry.0@ == file.0@
    &&& Some(entry.1@) == rendered(file.1@, name, description, services)
}

/// Renders every embedded template file, keeping each relative path;
/// `None` when some file is not UTF-8 text.
pub fn render_template(
    files: &[(&str, String)],
    project_name: &str,
    description: &str,
    services: &[&str],
) -> (r: Option<Vec<(String, String)>>)
    ensures
        r is None <==> exists|i: int|
            0 <= i < files@.len() && #[trigger] template_text(files@[i].1@) is None,
        r matches Some(out) ==> out@.len() == files@.len() && forall|i: int|
            0 <= i < files@.len() ==> entry_rendered(
                files@[i],
                #[trigger] out@[i],
                project_name@,
                description@,
                str_views(services@),
            ),
{
    let ghost sv = str_views(services@);
    let mut out: Vec<(String, String)> = Vec::new();
    for i in 0..files.len()
        invariant
            sv == str_views(services@),
            out@.len() == i,
            forall|j: int|
                0 <= j < i ==> entry_rendered(
                    files@[j],
                    #[trigger] out@[j],
                    project_name@,
                    description@,
                    sv,
                ),
    {
        let path = files[i].0;
        let b64 = files[i].1.as_str();
        match render_template_file(b64, project_name, description, services) {
            Some(text) => {
                let entry = (chars_to_string(&str_to_chars(path)), text);
                assert(entry_rendered(files@[i as int], entry, project_name@, description@, sv));
                out.push(entry);
            },
            None => {
                assert(template_text(files@[i as int].1@) is None);
                return None;
            },
        }
    }
    assert forall|i: int| 0 <= i < files@.len() implies !(#[trigger] template_text(
        files@[i].1@,
    ) is None) by {
        assert(entry_rendered(files@[i], out@[i], project_name@, description@, sv));
    }
    Some(out)
}

/// Renders the embedded template for a new project. Every embedded file is
/// UTF-8 text, so rendering always succeeds: each entry keeps its path and
/// holds the file's text with placeholders substituted and the lines of
/// services left out removed.
pub fn render_embedded_template(project_name: &str, description: &str, services: &[&str]) -> (r: Vec<
    (String, String),
>)
    ensures
        r@.len() == template_paths().len(),
        forall|i: int|
            0 <= i < r@.len() ==> (#[trigger] r@[i]).0@ == template_paths()[i] && r@[i].1@
                == pruned(
                substituted(template_sources()[i], project_name@, description@),
                str_views(services@),
            ),
{
    let files = get_template_files();
    let ghost fv = files@;
    assert(forall|i: int| 0 <= i < fv.len() ==> fv[i].0@ == template_paths()[i]) by {
        assert forall|i: int| 0 <= i < fv.len() implies fv[i].0@ == template_paths()[i] by {
            assert(crate::template_files::entry_paths(fv)[i] == fv[i].0@);
        }
    }
    match render_template(&files, project_name, description, services) {
        Some(out) => {
            assert forall|i: int| 0 <= i < out@.len() implies (#[trigger] out@[i]).0@
                == template_paths()[i] && out@[i].1@ == pruned(
                substituted(template_sources()[i], project_name@, description@),
                str_views(services@),
            ) by {
                assert(entry_rendered(
                    fv[i],
                    out@[i],
                    project_name@,
                    description@,
                    str_views(services@),
                ));
                assert(template_text(fv[i].1@) == Some(template_sources()[i]));
            }
            out
        },
        None => {
            proof {
                let i = choose|i: int| 0 <= i < fv.len() && #[trigger] template_text(fv[i].1@) is None;
                assert(template_text(fv[i].1@) == Some(template_sources()[i]));
            }
            Vec::new()
        },
    }
}

} // verus!
