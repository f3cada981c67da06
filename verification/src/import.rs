//! Imported station lists: where a list is read from, and how the outcomes
//! of reading every list combine into stations and error messages.

use vstd::prelude::*;
use crate::station::{all_tagged, clone_list, mark_stations, views, Import, Station, StationView};
use crate::text::chars_of;

verus! {

broadcast use vstd::seq_lib::group_seq_properties;

/// Where an imported list is read from.
pub enum SourceLocation {
    /// An `http://` or `https://` address.
    Web(String),
    /// A path on the local file system.
    File(String),
}

/// Whether `p` starts with a tilde that home-directory expansion replaces:
/// `~` alone or `~/...`.
pub open spec fn expandable_tilde(p: Seq<char>) -> bool {
    p.len() > 0 && p[0] == '~' && (p.len() == 1 || p[1] == '/')
}

/// Whether `r` ends with `tail`.
pub open spec fn ends_with(r: Seq<char>, tail: Seq<char>) -> bool {
    tail.len() <= r.len() && r.skip(r.len() - tail.len()) == tail
}

/// What home-directory expansion may make of `p`: a path without a leading
/// tilde, or with `~` followed by something other than a separator, is left
/// as it is; otherwise the tilde is replaced by some directory, or the path is
/// left as it is when no home directory is known.
pub open spec fn expansion_of(p: Seq<char>, r: Seq<char>) -> bool {
    &&& !(p.len() > 0 && p[0] == '~') ==> r == p
    &&& (p.len() > 1 && p[0] == '~' && p[1] != '/' && p[1] != '\\') ==> r == p
    &&& r == p || ends_with(r, p.drop_first())
}

/// `shellexpand::tilde`: a leading `~` followed by the end of the path or by
/// a separator is replaced by the home directory when one is known; any
/// other path is returned unchanged. The home directory comes from the
/// environment, so what replaces the tilde is not stated.
#[verifier::external_body]
fn shell_expand_tilde(path: &str) -> (r: String)
    ensures
        expansion_of(path@, r@),
{
    shellexpand::tilde(path).into_owned()
}

/// Expands a leading `~` of a path to the home directory.
pub fn expand_path(path: &str) -> (r: String)
    ensures
        expansion_of(path@, r@),
{
    shell_expand_tilde(path)
}

/// Whether `s` starts with `http://` or `https://`.
pub open spec fn is_web_address(s: Seq<char>) -> bool {
    "http://"@.is_prefix_of(s) || "https://"@.is_prefix_of(s)
}

fn has_prefix(v: &Vec<char>, p: &Vec<char>) -> (r: bool)
    ensures
        r == p@.is_prefix_of(v@),
{
    if p.len() > v.len() {
        return false;
    }
    let mut i: usize = 0;
    while i < p.len()
        invariant
            p@.len() <= v@.len(),
            i <= p@.len(),
            forall|j: int| 0 <= j < i ==> v@[j] == p@[j],
        decreases p.len() - i,
    {
        if v[i] != p[i] {
            return false;
        }
        i = i + 1;
    }
    assert(v@.subrange(0, p@.len() as int) =~= p@);
    true
}

/// Classifies an already expanded source: a web address or a file path.
pub fn classify_source(expanded: String) -> (r: SourceLocation)
    ensures
        is_web_address(expanded@) ==> r == SourceLocation::Web(expanded),
        !is_web_address(expanded@) ==> r == SourceLocation::File(expanded),
{
    let v = chars_of(expanded.as_str());
    let http = chars_of("http://");
    let https = chars_of("https://");
    if has_prefix(&v, &http) || has_prefix(&v, &https) {
        SourceLocation::Web(expanded)
    } else {
        SourceLocation::File(expanded)
    }
}

/// Where the list named by an import's URL is read from: the URL with its
/// leading tilde expanded, as a web address when it starts with `http://`
/// or `https://`, else as a file path.
pub fn resolve_source(source: &str) -> (r: SourceLocation)
    ensures
        match r {
            SourceLocation::Web(u) => expansion_of(source@, u@) && is_web_address(u@),
            SourceLocation::File(p) => expansion_of(source@, p@) && !is_web_address(p@),
        },
{
    let expanded = expand_path(source);
    classify_source(expanded)
}

/// The message for an import that could not be read.
pub open spec fn import_error_text(name: Seq<char>, detail: Seq<char>) -> Seq<char> {
    "Failed to import '"@ + name + "': "@ + detail
}

/// The message for an import that could not be read.
pub fn import_error_message(name: &str, detail: &str) -> (r: String)
    ensures
        r@ == import_error_text(name@, detail@),
{
    let mut r = String::from_str("Failed to import '");
    r.append(name);
    r.append("': ");
    r.append(detail);
    r
}

/// The stations read from the first `n` imports, each marked with the
/// import's name.
pub open spec fn imported_stations(imports: Seq<Import>, results: Seq<Result<Vec<Station>, String>>, n: int) -> Seq<StationView>
    decreases n,
{
    if n <= 0 {
        Seq::empty()
    } else {
        let prev = imported_stations(imports, results, n - 1);
        match results[n - 1] {
            Ok(list) => prev + all_tagged(views(list@), true, imports[n - 1].name@),
            Err(_) => prev,
        }
    }
}

/// The error messages of the first `n` imports, one per import that failed.
pub open spec fn import_errors(imports: Seq<Import>, results: Seq<Result<Vec<Station>, String>>, n: int) -> Seq<Seq<char>>
    decreases n,
{
    if n <= 0 {
        Seq::empty()
    } else {
        let prev = import_errors(imports, results, n - 1);
        match results[n - 1] {
            Ok(_) => prev,
            Err(e) => prev.push(import_error_text(imports[n - 1].name@, e@)),
        }
    }
}

/// The texts of a sequence of strings.
pub open spec fn texts(s: Seq<String>) -> Seq<Seq<char>> {
    s.map_values(|x: String| x@)
}

/// Combines the outcomes of reading every import, in the imports' order:
/// the stations of each list that could be read, marked as imported from
/// it, and a message for each list that could not.
pub fn gather_imports(imports: &Vec<Import>, results: Vec<Result<Vec<Station>, String>>) -> (r: (Vec<Station>, Vec<String>))
    requires
        imports@.len() == results@.len(),
    ensures
        views(r.0@) == imported_stations(imports@, results@, results@.len() as int),
        texts(r.1@) == import_errors(imports@, results@, results@.len() as int),
{
    let mut stations: Vec<Station> = Vec::new();
    let mut errors: Vec<String> = Vec::new();
    let mut i: usize = 0;
    while i < results.len()
        invariant
            i <= results@.len(),
            imports@.len() == results@.len(),
            views(stations@) == imported_stations(imports@, results@, i as int),
            texts(errors@) == import_errors(imports@, results@, i as int),
        decreases results.len() - i,
    {
        match &results[i] {
            Ok(list) => {
                let mut list = clone_list(list);
                mark_stations(&mut list, true, imports[i].name.as_str());
                let mut j: usize = 0;
                let ghost start = views(stations@);
                while j < list.len()
                    invariant
                        j <= list@.len(),
                        views(stations@) == start + views(list@).take(j as int),
                    decreases list.len() - j,
                {
                    let ghost before = views(stations@);
                    stations.push(list[j].clone());
                    assert(views(stations@) =~= before.push(list@[j as int]@));
                    assert(views(list@).take(j + 1) =~= views(list@).take(j as int).push(list@[j as int]@));
                    j = j + 1;
                }
                assert(views(list@).take(j as int) =~= views(list@));
            },
            Err(e) => {
                let msg = import_error_message(imports[i].name.as_str(), e.as_str());
                let ghost before = texts(errors@);
                errors.push(msg);
                assert(texts(errors@) =~= before.push(msg@));
            },
        }
        i = i + 1;
    }
    (stations, errors)
}

/// Whether an outcome is a failure.
pub open spec fn failed(r: Result<Vec<Station>, String>) -> bool {
    r is Err
}

/// Each failed import gives exactly one message, in the imports' order, and
/// no message is ever dropped: there are as many messages as failures among
/// the first `n` outcomes, the messages of the first `m` imports begin those
/// of the first `n`, and a failure of import `j` with error `e` adds, right
/// after the messages before it, the message naming import `j` and `e`.
pub proof fn law_one_message_per_failure(
    imports: Seq<Import>,
    results: Seq<Result<Vec<Station>, String>>,
    m: int,
    n: int,
)
    requires
        0 <= m <= n <= results.len(),
        imports.len() == results.len(),
    ensures
        import_errors(imports, results, n).len() == results.take(n).filter(|r: Result<Vec<Station>, String>| failed(r)).len(),
        import_errors(imports, results, m).is_prefix_of(import_errors(imports, results, n)),
        forall|j: int|
            0 <= j < n && #[trigger] failed(results[j]) ==> import_errors(imports, results, n)[import_errors(
                imports,
                results,
                j,
            ).len() as int] == import_error_text(imports[j].name@, results[j]->Err_0@),
    decreases n,
{
    reveal(Seq::filter);
    if n > 0 {
        assert(results.take(n).drop_last() =~= results.take(n - 1));
        assert(results.take(n).last() == results[n - 1]);
        if m < n {
            law_one_message_per_failure(imports, results, m, n - 1);
        } else {
            law_one_message_per_failure(imports, results, m - 1, n - 1);
        }
        let prev = import_errors(imports, results, n - 1);
        let all = import_errors(imports, results, n);
        assert(prev.is_prefix_of(all));
        assert forall|j: int| 0 <= j < n && #[trigger] failed(results[j]) implies all[import_errors(
            imports,
            results,
            j,
        ).len() as int] == import_error_text(imports[j].name@, results[j]->Err_0@) by {
            if j < n - 1 {
                law_one_message_per_failure(imports, results, j + 1, n - 1);
                assert(import_errors(imports, results, j + 1).len() == import_errors(imports, results, j).len() + 1);
            }
        }
        if m == n {
            assert(all.is_prefix_of(all)) by {
                assert(all.subrange(0, all.len() as int) =~= all);
            }
        } else {
            law_one_message_per_failure(imports, results, m, n - 1);
            assert(import_errors(imports, results, m).is_prefix_of(all)) by {
                let a = import_errors(imports, results, m);
                assert(a.is_prefix_of(prev));
                assert forall|k: int| 0 <= k < a.len() implies a[k] == all[k] by {
                    assert(prev[k] == all[k]);
                }
            }
        }
    } else {
        assert(results.take(0).filter(|r: Result<Vec<Station>, String>| failed(r)) =~= Seq::<Result<Vec<Station>, String>>::empty());
    }
}

} // verus!
