//! Template processing: placeholder substitution and pruning of the
//! lines that belong to services left out of a project.

use vstd::prelude::*;
use crate::text::{
    disjoint_chars, lemma_filter_all, lemma_lines_of_join, lemma_lines_plain, lemma_replace_absent,
    lemma_replace_avoids, no_empty_lines, plain_line, chars_eq, chars_to_string, extend_chars, has_substring, has_substring_exec, join, join_chars,
    lines_of, occurs_at, occurs_at_exec, replace_all, replace_all_exec, split_lines, starts_with, str_to_chars,
    sub_chars, trim, trim_chars, views,
};

verus! {

// ── Substitution ───────────────────────────────────────────────────────

/// Placeholder for the project name in older template files.
pub open spec fn name_placeholder() -> Seq<char> {
    "$NAME$"@
}

/// Placeholder for the project name.
pub open spec fn project_name_placeholder() -> Seq<char> {
    "__PROJECT_NAME__"@
}

/// Placeholder for the project description.
pub open spec fn description_placeholder() -> Seq<char> {
    "__DESCRIPTION__"@
}

/// `content` with every placeholder replaced: first `$NAME$`, then
/// `__PROJECT_NAME__` (both by the project name), then `__DESCRIPTION__`.
pub open spec fn substituted(content: Seq<char>, name: Seq<char>, description: Seq<char>) -> Seq<char> {
    replace_all(
        replace_all(
            replace_all(content, name_placeholder(), name),
            project_name_placeholder(),
            name,
        ),
        description_placeholder(),
        description,
    )
}

/// Replace all known placeholders in file content.
pub fn substitute(content: &str, project_name: &str, description: &str) -> (r: String)
    ensures
        r@ == substituted(content@, project_name@, description@),
{
    proof {
        reveal_strlit("$NAME$");
        reveal_strlit("__PROJECT_NAME__");
        reveal_strlit("__DESCRIPTION__");
    }
    let text = str_to_chars(content);
    let name = str_to_chars(project_name);
    let desc = str_to_chars(description);
    let p1 = str_to_chars("$NAME$");
    let p2 = str_to_chars("__PROJECT_NAME__");
    let p3 = str_to_chars("__DESCRIPTION__");
    let step1 = replace_all_exec(&text, &p1, &name);
    let step2 = replace_all_exec(&step1, &p2, &name);
    let step3 = replace_all_exec(&step2, &p3, &desc);
    chars_to_string(&step3)
}

/// Content without any placeholder comes out of `substitute` unchanged.
pub proof fn lemma_substitute_without_placeholders(
    content: Seq<char>,
    name: Seq<char>,
    description: Seq<char>,
)
    requires
        !has_substring(content, name_placeholder()),
        !has_substring(content, project_name_placeholder()),
        !has_substring(content, description_placeholder()),
    ensures
        substituted(content, name, description) == content,
{
    reveal_strlit("$NAME$");
    reveal_strlit("__PROJECT_NAME__");
    reveal_strlit("__DESCRIPTION__");
    lemma_replace_absent(content, name_placeholder(), name);
    lemma_replace_absent(content, project_name_placeholder(), name);
    lemma_replace_absent(content, description_placeholder(), description);
}

/// `r` shares no character with any placeholder.
pub open spec fn avoids_placeholders(r: Seq<char>) -> bool {
    &&& disjoint_chars(r, name_placeholder())
    &&& disjoint_chars(r, project_name_placeholder())
    &&& disjoint_chars(r, description_placeholder())
}

/// After substitution no placeholder is left, when the project name and the
/// description are not empty and use none of the placeholders' characters.
pub proof fn lemma_substitute_leaves_no_placeholder(
    content: Seq<char>,
    name: Seq<char>,
    description: Seq<char>,
)
    requires
        name.len() > 0,
        description.len() > 0,
        avoids_placeholders(name),
        avoids_placeholders(description),
    ensures
        !has_substring(substituted(content, name, description), name_placeholder()),
        !has_substring(substituted(content, name, description), project_name_placeholder()),
        !has_substring(substituted(content, name, description), description_placeholder()),
{
    reveal_strlit("$NAME$");
    reveal_strlit("__PROJECT_NAME__");
    reveal_strlit("__DESCRIPTION__");
    let p1 = name_placeholder();
    let p2 = project_name_placeholder();
    let p3 = description_placeholder();
    let s1 = replace_all(content, p1, name);
    let s2 = replace_all(s1, p2, name);
    lemma_replace_avoids(content, p1, name, p1);
    lemma_replace_avoids(s1, p2, name, p2);
    lemma_replace_avoids(s1, p2, name, p1);
    lemma_replace_avoids(s2, p3, description, p3);
    lemma_replace_avoids(s2, p3, description, p2);
    lemma_replace_avoids(s2, p3, description, p1);
}

// ── Service pruning ────────────────────────────────────────────────────

/// Number of optional services a project can include.
pub open spec fn num_services() -> int {
    3
}

/// Crate name of optional service `k` (S3, SES, SNS).
pub open spec fn service_crate(k: int) -> Seq<char> {
    if k == 0 {
        "iciaws_s3"@
    } else if k == 1 {
        "iciaws_ses"@
    } else {
        "iciaws_sns"@
    }
}

/// Name under which service `k` is registered as an addon.
pub open spec fn service_addon(k: int) -> Seq<char> {
    if k == 0 {
        "s3"@
    } else if k == 1 {
        "ses"@
    } else {
        "sns"@
    }
}

/// Function that creates the client of service `k`.
pub open spec fn service_client_fn(k: int) -> Seq<char> {
    if k == 0 {
        "get_s3_client"@
    } else if k == 1 {
        "get_ses_client"@
    } else {
        "get_sns_client"@
    }
}

/// `a` between double quotes.
pub open spec fn quoted(a: Seq<char>) -> Seq<char> {
    seq!['"'] + a + seq!['"']
}

/// A line belongs to service `k`: it is its dependency line in Cargo.toml
/// (the trimmed line starts with the crate name), or it uses an item of the
/// crate (`<crate>::`), calls the client function, names the addon in quotes,
/// or refers to a path `<crate>/`.
pub open spec fn mentions_service(line: Seq<char>, k: int) -> bool {
    ||| starts_with(trim(line), service_crate(k))
    ||| has_substring(line, service_crate(k) + seq![':', ':'])
    ||| has_substring(line, service_client_fn(k))
    ||| has_substring(line, quoted(service_addon(k)))
    ||| has_substring(line, service_crate(k).push('/'))
}

/// The character views of a list of string slices.
pub open spec fn str_views(v: Seq<&str>) -> Seq<Seq<char>> {
    v.map_values(|s: &str| s@)
}

/// Service `k` is among the selected crate names.
pub open spec fn is_selected(selected: Seq<Seq<char>>, k: int) -> bool {
    selected.contains(service_crate(k))
}

/// A line stays unless it belongs to a service that was not selected.
pub open spec fn keep_line(line: Seq<char>, selected: Seq<Seq<char>>) -> bool {
    forall|k: int| 0 <= k < num_services() ==> is_selected(selected, k) || !mentions_service(line, k)
}

/// The lines of `content` that stay, joined with `'\n'`.
pub open spec fn pruned(content: Seq<char>, selected: Seq<Seq<char>>) -> Seq<char> {
    join(lines_of(content).filter(|l: Seq<char>| keep_line(l, selected)), seq!['\n'])
}

/// What a line is checked against for one service.
struct ServiceRule {
    crate_name: Vec<char>,
    crate_use: Vec<char>,
    client_fn: Vec<char>,
    quoted_addon: Vec<char>,
    crate_path: Vec<char>,
    selected: bool,
}

impl ServiceRule {
    spec fn describes(&self, k: int, selected: Seq<Seq<char>>) -> bool {
        &&& self.crate_name@ == service_crate(k)
        &&& self.crate_use@ == service_crate(k) + seq![':', ':']
        &&& self.client_fn@ == service_client_fn(k)
        &&& self.quoted_addon@ == quoted(service_addon(k))
        &&& self.crate_path@ == service_crate(k).push('/')
        &&& self.selected == is_selected(selected, k)
    }
}

/// Whether `name` is among the selected crate names.
fn selection_contains(selected: &[&str], name: &Vec<char>) -> (r: bool)
    ensures
        r == str_views(selected@).contains(name@),
{
    let ghost sv = str_views(selected@);
    for i in 0..selected.len()
        invariant
            sv == str_views(selected@),
            forall|j: int| 0 <= j < i ==> sv[j] != name@,
    {
        let candidate = str_to_chars(selected[i]);
        if chars_eq(&candidate, name) {
            assert(sv[i as int] == name@);
            return true;
        }
    }
    false
}

fn make_rule(crate_str: &str, addon_str: &str, fn_str: &str, selected: &[&str]) -> (r: ServiceRule)
    ensures
        r.crate_name@ == crate_str@,
        r.crate_use@ == crate_str@ + seq![':', ':'],
        r.client_fn@ == fn_str@,
        r.quoted_addon@ == quoted(addon_str@),
        r.crate_path@ == crate_str@.push('/'),
        r.selected == str_views(selected@).contains(crate_str@),
{
    let crate_name = str_to_chars(crate_str);
    let client_fn = str_to_chars(fn_str);
    let mut quoted_addon: Vec<char> = Vec::new();
    quoted_addon.push('"');
    extend_chars(&mut quoted_addon, &str_to_chars(addon_str));
    quoted_addon.push('"');
    assert(quoted_addon@ == quoted(addon_str@));
    let mut crate_use = str_to_chars(crate_str);
    crate_use.push(':');
    crate_use.push(':');
    assert(crate_use@ == crate_str@ + seq![':', ':']);
    let mut crate_path = str_to_chars(crate_str);
    crate_path.push('/');
    let is_sel = selection_contains(selected, &crate_name);
    ServiceRule { crate_name, crate_use, client_fn, quoted_addon, crate_path, selected: is_sel }
}

fn service_rule(k: usize, selected: &[&str]) -> (r: ServiceRule)
    requires
        k < 3,
    ensures
        r.describes(k as int, str_views(selected@)),
{
    if k == 0 {
        make_rule("iciaws_s3", "s3", "get_s3_client", selected)
    } else if k == 1 {
        make_rule("iciaws_ses", "ses", "get_ses_client", selected)
    } else {
        make_rule("iciaws_sns", "sns", "get_sns_client", selected)
    }
}

fn line_mentions(line: &Vec<char>, rule: &ServiceRule) -> (r: bool)
    ensures
        forall|k: int, sel: Seq<Seq<char>>|
            rule.describes(k, sel) ==> r == mentions_service(line@, k),
{
    let trimmed = trim_chars(line);
    occurs_at_exec(&trimmed, &rule.crate_name, 0) || has_substring_exec(line, &rule.crate_use)
        || has_substring_exec(line, &rule.client_fn)
        || has_substring_exec(line, &rule.quoted_addon) || has_substring_exec(
        line,
        &rule.crate_path,
    )
}

/// Remove lines from content that correspond to unselected services.
/// Handles Cargo.toml dependency lines and src/main.rs use/init/addon lines:
/// a line is removed when it mentions a service that is not selected.
pub fn prune_services(content: &str, selected: &[&str]) -> (r: String)
    ensures
        r@ == pruned(content@, str_views(selected@)),
{
    let ghost sel = str_views(selected@);
    let ghost keep = |l: Seq<char>| keep_line(l, sel);
    let rule0 = service_rule(0, selected);
    let rule1 = service_rule(1, selected);
    let rule2 = service_rule(2, selected);
    let text = str_to_chars(content);
    let lines = split_lines(&text);
    let mut kept: Vec<Vec<char>> = Vec::new();
    for i in 0..lines.len()
        invariant
            rule0.describes(0, sel),
            rule1.describes(1, sel),
            rule2.describes(2, sel),
            keep == (|l: Seq<char>| keep_line(l, sel)),
            views(kept@) == views(lines@).take(i as int).filter(keep),
    {
        let line = &lines[i];
        let ok0 = rule0.selected || !line_mentions(line, &rule0);
        let ok1 = rule1.selected || !line_mentions(line, &rule1);
        let ok2 = rule2.selected || !line_mentions(line, &rule2);
        let stays = ok0 && ok1 && ok2;
        assert(stays == keep_line(line@, sel)) by {
            if !ok0 {
                assert(!(is_selected(sel, 0) || !mentions_service(line@, 0)));
            } else if !ok1 {
                assert(!(is_selected(sel, 1) || !mentions_service(line@, 1)));
            } else if !ok2 {
                assert(!(is_selected(sel, 2) || !mentions_service(line@, 2)));
            } else {
                assert forall|k: int| 0 <= k < num_services() implies is_selected(sel, k)
                    || !mentions_service(line@, k) by {
                    if k == 0 {
                    } else if k == 1 {
                    } else {
                    }
                }
            }
        }
        let ghost prefix = views(lines@).take(i as int);
        let ghost next = views(lines@).take(i + 1);
        assert(next.drop_last() == prefix);
        assert(next.last() == line@);
        proof {
            reveal(Seq::filter);
        }
        if stays {
            let ghost before = kept@;
            let copy = sub_chars(line, 0, line.len());
            assert(copy@ == line@);
            kept.push(copy);
            assert(kept@ == before.push(copy));
            assert(views(kept@) == views(before).push(line@));
        }
    }
    assert(views(lines@).take(lines.len() as int) == views(lines@));
    let mut newline: Vec<char> = Vec::new();
    newline.push('\n');
    let joined = join_chars(&kept, &newline);
    assert(newline@ == seq!['\n']);
    chars_to_string(&joined)
}

/// All services selected.
pub open spec fn all_selected(selected: Seq<Seq<char>>) -> bool {
    forall|k: int| 0 <= k < num_services() ==> is_selected(selected, k)
}

/// With every service selected, pruning removes no line: the result is the
/// lines of the content joined with `'\n'`.
pub proof fn lemma_prune_all_selected(content: Seq<char>, selected: Seq<Seq<char>>)
    requires
        all_selected(selected),
    ensures
        pruned(content, selected) == join(lines_of(content), seq!['\n']),
{
    let ls = lines_of(content);
    lemma_filter_all(ls, |l: Seq<char>| keep_line(l, selected));
}

/// Every line that pruning keeps mentions no service that was left out.
pub proof fn lemma_pruned_lines_clean(content: Seq<char>, selected: Seq<Seq<char>>, i: int, k: int)
    requires
        0 <= i < lines_of(content).filter(|l: Seq<char>| keep_line(l, selected)).len(),
        0 <= k < num_services(),
        !is_selected(selected, k),
    ensures
        !mentions_service(lines_of(content).filter(|l: Seq<char>| keep_line(l, selected))[i], k),
{
    let keep = |l: Seq<char>| keep_line(l, selected);
    lines_of(content).lemma_filter_pred(keep, i);
}

/// Pruning twice is pruning once, for text without `'\r'` and without
/// empty lines.
pub proof fn lemma_prune_idempotent(content: Seq<char>, selected: Seq<Seq<char>>)
    requires
        no_empty_lines(content),
    ensures
        pruned(pruned(content, selected), selected) == pruned(content, selected),
{
    let keep = |l: Seq<char>| keep_line(l, selected);
    let ls = lines_of(content);
    let kept = ls.filter(keep);
    lemma_lines_plain(content);
    assert forall|i: int| 0 <= i < kept.len() implies plain_line(#[trigger] kept[i]) by {
        ls.lemma_filter_contains_rev(keep, kept[i]);
        let j = choose|j: int| 0 <= j < ls.len() && ls[j] == kept[i];
        assert(plain_line(ls[j]));
    }
    lemma_lines_of_join(kept);
    assert forall|i: int| 0 <= i < kept.len() implies keep(#[trigger] kept[i]) by {
        ls.lemma_filter_pred(keep, i);
    }
    lemma_filter_all(kept, keep);
}

/// The markers of one service, written out: the crate, its client
/// function and its quoted addon name.
pub open spec fn free_of_service(line: Seq<char>, krate: Seq<char>, client_fn: Seq<char>, addon: Seq<char>) -> bool {
    &&& !starts_with(trim(line), krate)
    &&& !has_substring(line, krate + "::"@)
    &&& !has_substring(line, client_fn)
    &&& !has_substring(line, addon)
    &&& !has_substring(line, krate + "/"@)
}

proof fn lemma_kept_line_free(l: Seq<char>, selected: Seq<Seq<char>>, k: int)
    requires
        keep_line(l, selected),
        0 <= k < num_services(),
        !is_selected(selected, k),
    ensures
        !mentions_service(l, k),
{
}

/// Pruning drops every line that belongs to a service left out of the
/// selection: with `iciaws_s3` not selected, no kept line is the S3
/// dependency line, uses `iciaws_s3::` or `iciaws_s3/`, calls
/// `get_s3_client`, or names the addon `"s3"`; likewise for SES and SNS.
pub proof fn lemma_prune_drops_unselected(content: Seq<char>, selected: Seq<Seq<char>>, i: int)
    requires
        0 <= i < lines_of(content).filter(|l: Seq<char>| keep_line(l, selected)).len(),
    ensures
        !selected.contains("iciaws_s3"@) ==> free_of_service(
            lines_of(content).filter(|l: Seq<char>| keep_line(l, selected))[i],
            "iciaws_s3"@,
            "get_s3_client"@,
            "\"s3\""@,
        ),
        !selected.contains("iciaws_ses"@) ==> free_of_service(
            lines_of(content).filter(|l: Seq<char>| keep_line(l, selected))[i],
            "iciaws_ses"@,
            "get_ses_client"@,
            "\"ses\""@,
        ),
        !selected.contains("iciaws_sns"@) ==> free_of_service(
            lines_of(content).filter(|l: Seq<char>| keep_line(l, selected))[i],
            "iciaws_sns"@,
            "get_sns_client"@,
            "\"sns\""@,
        ),
        pruned(content, selected) == join(
            lines_of(content).filter(|l: Seq<char>| keep_line(l, selected)),
            seq!['\n'],
        ),
{
    let keep = |l: Seq<char>| keep_line(l, selected);
    let kept = lines_of(content).filter(keep);
    lines_of(content).lemma_filter_pred(keep, i);
    let l = kept[i];
    reveal_strlit("iciaws_s3");
    reveal_strlit("iciaws_ses");
    reveal_strlit("iciaws_sns");
    reveal_strlit("s3");
    reveal_strlit("ses");
    reveal_strlit("sns");
    reveal_strlit("\"s3\"");
    reveal_strlit("\"ses\"");
    reveal_strlit("\"sns\"");
    reveal_strlit("::");
    reveal_strlit("/");
    assert(quoted(service_addon(0)) == "\"s3\""@);
    assert(quoted(service_addon(1)) == "\"ses\""@);
    assert(quoted(service_addon(2)) == "\"sns\""@);
    assert(service_crate(0).push('/') == "iciaws_s3"@ + "/"@);
    assert(service_crate(1).push('/') == "iciaws_ses"@ + "/"@);
    assert(service_crate(2).push('/') == "iciaws_sns"@ + "/"@);
    assert(seq![':', ':'] == "::"@);
    if !selected.contains("iciaws_s3"@) {
        lemma_kept_line_free(l, selected, 0);
    }
    if !selected.contains("iciaws_ses"@) {
        lemma_kept_line_free(l, selected, 1);
    }
    if !selected.contains("iciaws_sns"@) {
        lemma_kept_line_free(l, selected, 2);
    }
}

/// The description placeholder alone becomes exactly the description, for
/// every project name and description.
pub proof fn lemma_substitute_description_alone(name: Seq<char>, description: Seq<char>)
    ensures
        substituted("__DESCRIPTION__"@, name, description) == description,
{
    let c = "__DESCRIPTION__"@;
    reveal_strlit("__DESCRIPTION__");
    reveal_strlit("$NAME$");
    reveal_strlit("__PROJECT_NAME__");
    assert(!has_substring(c, name_placeholder())) by {
        assert forall|i: int| !occurs_at(c, name_placeholder(), i) by {
            if occurs_at(c, name_placeholder(), i) {
                assert(c.subrange(i, i + 6)[0] == '$');
            }
        }
    }
    assert(!has_substring(c, project_name_placeholder())) by {
        assert forall|i: int| !occurs_at(c, project_name_placeholder(), i) by {}
    }
    lemma_replace_absent(c, name_placeholder(), name);
    lemma_replace_absent(c, project_name_placeholder(), name);
    assert(starts_with(c, description_placeholder())) by {
        assert(c.subrange(0, 15) == c);
    }
    assert(c.skip(15).len() == 0);
    assert(replace_all(c.skip(15), description_placeholder(), description) == c.skip(15));
    assert(replace_all(c, description_placeholder(), description) == description + c.skip(15));
    assert(description + c.skip(15) == description);
}

/// Each name placeholder alone becomes exactly the project name, when the
/// name holds no later placeholder.
pub proof fn lemma_substitute_name_alone(name: Seq<char>, description: Seq<char>)
    requires
        !has_substring(name, "__PROJECT_NAME__"@),
        !has_substring(name, "__DESCRIPTION__"@),
    ensures
        substituted("$NAME$"@, name, description) == name,
        !has_substring(name, "$NAME$"@) ==> substituted("__PROJECT_NAME__"@, name, description)
            == name,
{
    reveal_strlit("__DESCRIPTION__");
    reveal_strlit("$NAME$");
    reveal_strlit("__PROJECT_NAME__");
    let c1 = "$NAME$"@;
    assert(starts_with(c1, name_placeholder())) by {
        assert(c1.subrange(0, 6) == c1);
    }
    assert(c1.skip(6).len() == 0);
    assert(replace_all(c1.skip(6), name_placeholder(), name) == c1.skip(6));
    assert(replace_all(c1, name_placeholder(), name) == name + c1.skip(6));
    assert(name + c1.skip(6) == name);
    lemma_replace_absent(name, project_name_placeholder(), name);
    lemma_replace_absent(name, description_placeholder(), description);
    let c2 = "__PROJECT_NAME__"@;
    assert(!has_substring(c2, name_placeholder())) by {
        assert forall|i: int| !occurs_at(c2, name_placeholder(), i) by {
            if occurs_at(c2, name_placeholder(), i) {
                assert(c2.subrange(i, i + 6)[0] == '$');
            }
        }
    }
    lemma_replace_absent(c2, name_placeholder(), name);
    assert(starts_with(c2, project_name_placeholder())) by {
        assert(c2.subrange(0, 16) == c2);
    }
    assert(c2.skip(16).len() == 0);
    assert(replace_all(c2.skip(16), project_name_placeholder(), name) == c2.skip(16));
    assert(replace_all(c2, project_name_placeholder(), name) == name + c2.skip(16));
    assert(name + c2.skip(16) == name);
}

} // verus!
