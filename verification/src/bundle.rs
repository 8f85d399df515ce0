//! The list of files that a build bundles beside its archives: the names the
//! project declares, together with the well-known files that are present,
//! each name once and in the order of `order`.

use vstd::prelude::*;
use crate::order::{compare_names, lemma_name_transitive, name_before, strictly_increasing,
    Position};

verus! {

/// How many well-known files a build looks for.
pub const DEFAULT_NAME_COUNT: usize = 5;

/// The well-known files, in the order in which a build looks for them.
pub open spec fn default_names() -> Seq<Seq<char>> {
    seq!["mod.cpp"@, "meta.cpp"@, "LICENSE"@, "logo_ca.paa"@, "logo_co.paa"@]
}

/// `name` is bundled: the project declares it, or it is a well-known file
/// that is among the `existing` ones.
pub open spec fn is_bundled(
    name: Seq<char>,
    declared: Seq<Seq<char>>,
    existing: Set<Seq<char>>,
) -> bool {
    declared.contains(name) || (default_names().contains(name) && existing.contains(name))
}

/// `list` is the file list of a project that declares `declared` when the
/// files `existing` are present: it holds exactly the bundled names, sorted
/// and without repetition.
pub open spec fn is_file_list(
    list: Seq<Seq<char>>,
    declared: Seq<Seq<char>>,
    existing: Set<Seq<char>>,
) -> bool {
    &&& strictly_increasing(list)
    &&& forall|name: Seq<char>| #[trigger]
        list.contains(name) <==> is_bundled(name, declared, existing)
}

/// The `index`-th well-known file name.
pub fn default_name(index: usize) -> (name: &'static str)
    requires
        index < DEFAULT_NAME_COUNT,
    ensures
        name@ == default_names()[index as int],
{
    if index == 0 {
        "mod.cpp"
    } else if index == 1 {
        "meta.cpp"
    } else if index == 2 {
        "LICENSE"
    } else if index == 3 {
        "logo_ca.paa"
    } else {
        "logo_co.paa"
    }
}

/// Whether `name` is one of `list`.
pub fn contains_name(list: &Vec<String>, name: &str) -> (found: bool)
    ensures
        found == list.deep_view().contains(name@),
{
    let mut i: usize = 0;
    while i < list.len()
        invariant
            i <= list.len(),
            forall|k: int| 0 <= k < i ==> list.deep_view()[k] != name@,
        decreases list.len() - i,
    {
        if compare_names(list[i].as_str(), name) == Position::Same {
            assert(list.deep_view()[i as int] == name@);
            return true;
        }
        i += 1;
    }
    false
}

/// Puts `name` into a sorted list at its place, unless the list holds it
/// already.
pub fn insert_name(list: &mut Vec<String>, name: String)
    requires
        strictly_increasing(old(list).deep_view()),
    ensures
        strictly_increasing(final(list).deep_view()),
        forall|other: Seq<char>| #[trigger]
            final(list).deep_view().contains(other) <==> (old(list).deep_view().contains(other)
                || other == name@),
{
    let ghost before = list.deep_view();
    let ghost added = name@;
    let n = list.len();
    let mut i: usize = 0;
    while i < n
        invariant
            i <= n,
            n == list.len(),
            list.deep_view() == before,
            before == old(list).deep_view(),
            name@ == added,
            strictly_increasing(before),
            forall|k: int| 0 <= k < i ==> name_before(before[k], added),
        decreases n - i,
    {
        let place = compare_names(list[i].as_str(), name.as_str());
        if place == Position::Same {
            assert(before[i as int] == added);
            return ;
        }
        if place == Position::After {
            list.insert(i, name);
            proof {
                let after = list.deep_view();
                assert(after =~= before.insert(i as int, added));
                assert forall|p: int, q: int| 0 <= p < q < after.len() implies name_before(
                    after[p],
                    after[q],
                ) by {
                    if q == i {
                    } else if p == i {
                        if q - 1 > i {
                            lemma_name_transitive(added, before[i as int], before[q - 1]);
                        }
                    } else {
                        let low = if p < i { p } else { p - 1 };
                        let high = if q < i { q } else { q - 1 };
                        assert(name_before(before[low], before[high]));
                    }
                }
                assert forall|other: Seq<char>| #[trigger]
                    after.contains(other) <==> (before.contains(other) || other == added) by {
                    if after.contains(other) {
                        let k = choose|k: int| 0 <= k < after.len() && after[k] == other;
                        if k < i {
                            assert(before[k] == other);
                        } else if k > i {
                            assert(before[k - 1] == other);
                        }
                    }
                    if before.contains(other) {
                        let k = choose|k: int| 0 <= k < before.len() && before[k] == other;
                        if k < i {
                            assert(after[k] == other);
                        } else {
                            assert(after[k + 1] == other);
                        }
                    }
                    if other == added {
                        assert(after[i as int] == other);
                    }
                }
            }
            return ;
        }
        i += 1;
    }
    list.push(name);
    proof {
        let after = list.deep_view();
        assert(after =~= before.push(added));
        assert forall|other: Seq<char>| #[trigger]
            after.contains(other) <==> (before.contains(other) || other == added) by {
            if after.contains(other) {
                let k = choose|k: int| 0 <= k < after.len() && after[k] == other;
                if k < n {
                    assert(before[k] == other);
                }
            }
            if before.contains(other) {
                let k = choose|k: int| 0 <= k < before.len() && before[k] == other;
                assert(after[k] == other);
            }
            if other == added {
                assert(after[n as int] == other);
            }
        }
    }
}

/// The names of `names`, sorted and each once.
pub fn sort_and_dedup(names: Vec<String>) -> (list: Vec<String>)
    ensures
        strictly_increasing(list.deep_view()),
        forall|name: Seq<char>| #[trigger]
            list.deep_view().contains(name) <==> names.deep_view().contains(name),
{
    let ghost all = names.deep_view();
    let mut rest = names;
    let mut list: Vec<String> = Vec::new();
    while rest.len() > 0
        invariant
            strictly_increasing(list.deep_view()),
            forall|name: Seq<char>|
                #![trigger list.deep_view().contains(name)]
                #![trigger all.contains(name)]
                all.contains(name) <==> (rest.deep_view().contains(name)
                    || list.deep_view().contains(name)),
        decreases rest.len(),
    {
        let ghost waiting = rest.deep_view();
        let ghost held = list.deep_view();
        let name = rest.pop().unwrap();
        assert(waiting =~= rest.deep_view().push(name@));
        insert_name(&mut list, name);
        proof {
            assert forall|other: Seq<char>|
                #![trigger list.deep_view().contains(other)]
                #![trigger all.contains(other)]
                all.contains(other) <==> (rest.deep_view().contains(other)
                    || list.deep_view().contains(other)) by {
                lemma_contains_push(rest.deep_view(), name@, other);
                assert(all.contains(other) <==> (waiting.contains(other) || held.contains(
                    other,
                )));
            }
        }
    }
    assert(rest.deep_view().len() == 0);
    list
}

/// The file list of a project that declares `declared`, given the names of
/// the files that are present: to the declared names each well-known file is
/// added that is not among them and is present, and the names are then
/// sorted and each kept once.
pub fn resolve_files(declared: &Vec<String>, existing: &Vec<String>) -> (list: Vec<String>)
    ensures
        is_file_list(list.deep_view(), declared.deep_view(), existing.deep_view().to_set()),
{
    let ghost wanted = declared.deep_view();
    let ghost present = existing.deep_view().to_set();
    let mut files = declared.clone();
    assert(files.deep_view() =~= wanted);
    let mut i: usize = 0;
    while i < DEFAULT_NAME_COUNT
        invariant
            i <= DEFAULT_NAME_COUNT,
            present == existing.deep_view().to_set(),
            forall|name: Seq<char>| #[trigger]
                files.deep_view().contains(name) <==> (wanted.contains(name) || (
                default_names().take(i as int).contains(name) && present.contains(name))),
        decreases DEFAULT_NAME_COUNT - i,
    {
        let ghost held = files.deep_view();
        let ghost seen = default_names().take(i as int);
        let candidate = default_name(i);
        assert(default_names().take(i + 1) =~= seen.push(candidate@));
        if !contains_name(&files, candidate) {
            if contains_name(existing, candidate) {
                files.push(candidate.to_string());
                assert(files.deep_view() =~= held.push(candidate@));
            }
        }
        proof {
            assert forall|name: Seq<char>| #[trigger]
                files.deep_view().contains(name) <==> (wanted.contains(name) || (
                default_names().take(i + 1).contains(name) && present.contains(name))) by {
                lemma_contains_push(seen, candidate@, name);
                lemma_contains_push(held, candidate@, name);
                assert(held.contains(name) <==> (wanted.contains(name) || (seen.contains(name)
                    && present.contains(name))));
            }
        }
        i += 1;
    }
    assert(default_names().take(i as int) =~= default_names());
    sort_and_dedup(files)
}

/// A sequence with one more item at its end holds that item and what it
/// held before.
pub proof fn lemma_contains_push<A>(s: Seq<A>, last: A, item: A)
    ensures
        s.push(last).contains(item) <==> (s.contains(item) || item == last),
{
    if s.push(last).contains(item) {
        let k = choose|k: int| 0 <= k < s.push(last).len() && s.push(last)[k] == item;
        if k < s.len() {
            assert(s[k] == item);
        }
    }
    if s.contains(item) {
        let k = choose|k: int| 0 <= k < s.len() && s[k] == item;
        assert(s.push(last)[k] == item);
    }
    if item == last {
        assert(s.push(last)[s.len() as int] == item);
    }
}

} // verus!
