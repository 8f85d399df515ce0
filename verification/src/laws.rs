//! What holds of every document that is loaded and of every file list.

use vstd::prelude::*;
use crate::bundle::{default_names, is_file_list};
use crate::error::Error;
use crate::order::{lemma_name_irreflexive, lemma_name_transitive, name_before,
    strictly_increasing};
use crate::project::{is_load_result, Configuration, Document};

verus! {

/// A document with a prefix loads, and the configuration holds each value
/// that the document declares.
pub proof fn lemma_load_keeps_declared_values(
    document: Document,
    result: Result<Configuration, Error>,
)
    requires
        is_load_result(Ok(document), result),
        document.prefix is Some,
        document.prefix->Some_0@.len() > 0,
    ensures
        result is Ok,
        result->Ok_0@.name == document.name@,
        result->Ok_0@.prefix == document.prefix->Some_0@,
        match document.mainprefix {
            Some(mainprefix) => result->Ok_0@.mainprefix == Some(mainprefix@),
            None => result->Ok_0@.mainprefix is None,
        },
        document.version matches Some(version) ==> result->Ok_0@.version == version@,
        document.headers matches Some(headers) ==> result->Ok_0@.headers == headers@,
        document.files matches Some(files) ==> result->Ok_0@.files == files.deep_view(),
        document.hemtt matches Some(hemtt) ==> result->Ok_0@.hemtt == hemtt@,
        document.signing matches Some(signing) ==> result->Ok_0@.signing == signing@,
{
}

/// A configuration that was loaded holds, for each key that its document
/// leaves out, the default: no main prefix, no headers, no declared files,
/// and sections without settings.
pub proof fn lemma_load_fills_defaults(document: Document, result: Result<Configuration, Error>)
    requires
        is_load_result(Ok(document), result),
        result is Ok,
    ensures
        document.mainprefix is None ==> result->Ok_0@.mainprefix is None,
        document.version is None ==> result->Ok_0@.version.len() == 0,
        document.headers is None ==> result->Ok_0@.headers == Map::<String, String>::empty(),
        document.files is None ==> result->Ok_0@.files.len() == 0,
        document.hemtt is None ==> result->Ok_0@.hemtt.len() == 0,
        document.signing is None ==> result->Ok_0@.signing.len() == 0,
{
}

/// A document whose prefix is left out or empty is refused for that, with
/// the diagnostic of a missing prefix, and for nothing else.
pub proof fn lemma_load_refuses_missing_prefix(
    document: Document,
    result: Result<Configuration, Error>,
)
    requires
        is_load_result(Ok(document), result),
        document.prefix matches Some(prefix) ==> prefix@.len() == 0,
    ensures
        result is Err,
        result->Err_0 is Validation,
        result->Err_0.diagnostic() == crate::project::prefix_missing(),
{
}

/// A document that could not be read fails to load with the error of
/// reading itself: no rule is applied to it.
pub proof fn lemma_load_hands_on_read_error(error: Error, result: Result<Configuration, Error>)
    requires
        is_load_result(Err(error), result),
    ensures
        result == Err::<Configuration, Error>(error),
        error is Parse ==> result->Err_0 is Parse,
        error is Io ==> result->Err_0 is Io,
{
}

/// A loaded configuration has a prefix.
pub proof fn lemma_loaded_has_prefix(
    read: Result<Document, Error>,
    result: Result<Configuration, Error>,
)
    requires
        is_load_result(read, result),
        result is Ok,
    ensures
        result->Ok_0@.prefix.len() > 0,
{
}

/// The declared names and the present files determine the file list: two
/// lists for the same names and files are the same list.
pub proof fn lemma_file_list_determined(
    first: Seq<Seq<char>>,
    second: Seq<Seq<char>>,
    declared: Seq<Seq<char>>,
    existing: Set<Seq<char>>,
)
    requires
        is_file_list(first, declared, existing),
        is_file_list(second, declared, existing),
    ensures
        first == second,
{
    assert forall|name: Seq<char>| first.contains(name) <==> second.contains(name) by {}
    lemma_same_names_same_list(first, second);
}

/// Two sorted lists without repetition that hold the same names are equal.
pub proof fn lemma_same_names_same_list(first: Seq<Seq<char>>, second: Seq<Seq<char>>)
    requires
        strictly_increasing(first),
        strictly_increasing(second),
        forall|name: Seq<char>| first.contains(name) <==> second.contains(name),
    ensures
        first == second,
    decreases first.len(),
{
    if first.len() == 0 {
        if second.len() > 0 {
            assert(second.contains(second[0]));
        }
        assert(first =~= second);
    } else {
        assert(first.contains(first[0]));
        assert(second.contains(first[0]));
        let k = choose|k: int| 0 <= k < second.len() && second[k] == first[0];
        assert(second.contains(second[0]));
        let m = choose|m: int| 0 <= m < first.len() && first[m] == second[0];
        if k > 0 {
            // second[0] stands before first[0], yet it is one of `first`
            assert(name_before(second[0], second[k]));
            if m > 0 {
                assert(name_before(first[0], first[m]));
                lemma_name_transitive(first[0], second[0], first[0]);
            }
            lemma_name_irreflexive(first[0]);
        }
        assert(second[0] == first[0]);
        let rest_first = first.drop_first();
        let rest_second = second.drop_first();
        assert forall|name: Seq<char>| rest_first.contains(name) <==> rest_second.contains(
            name,
        ) by {
            lemma_rest_holds_the_others(first, name);
            lemma_rest_holds_the_others(second, name);
        }
        assert(strictly_increasing(rest_first)) by {
            assert forall|i: int, j: int| 0 <= i < j < rest_first.len() implies name_before(
                rest_first[i],
                rest_first[j],
            ) by {
                assert(name_before(first[i + 1], first[j + 1]));
            }
        }
        assert(strictly_increasing(rest_second)) by {
            assert forall|i: int, j: int| 0 <= i < j < rest_second.len() implies name_before(
                rest_second[i],
                rest_second[j],
            ) by {
                assert(name_before(second[i + 1], second[j + 1]));
            }
        }
        lemma_same_names_same_list(rest_first, rest_second);
        assert(first =~= seq![first[0]] + rest_first);
        assert(second =~= seq![second[0]] + rest_second);
    }
}

/// What follows the first name of a sorted list without repetition holds
/// the names of the list but the first.
pub proof fn lemma_rest_holds_the_others(list: Seq<Seq<char>>, name: Seq<char>)
    requires
        strictly_increasing(list),
        list.len() > 0,
    ensures
        list.drop_first().contains(name) <==> (list.contains(name) && name != list[0]),
{
    let rest = list.drop_first();
    if rest.contains(name) {
        let k = choose|k: int| 0 <= k < rest.len() && rest[k] == name;
        assert(list[k + 1] == name);
        assert(name_before(list[0], list[k + 1]));
        lemma_name_irreflexive(name);
    }
    if list.contains(name) && name != list[0] {
        let k = choose|k: int| 0 <= k < list.len() && list[k] == name;
        assert(rest[k - 1] == name);
    }
}

/// A file list holds no name twice.
pub proof fn lemma_file_list_no_duplicates(
    list: Seq<Seq<char>>,
    declared: Seq<Seq<char>>,
    existing: Set<Seq<char>>,
)
    requires
        is_file_list(list, declared, existing),
    ensures
        list.no_duplicates(),
{
    assert forall|i: int, j: int| 0 <= i < list.len() && 0 <= j < list.len() && i != j implies list[i]
        != list[j] by {
        if i < j {
            assert(name_before(list[i], list[j]));
        } else {
            assert(name_before(list[j], list[i]));
        }
        lemma_name_irreflexive(list[i]);
    }
}

/// A well-known file that the project declares is bundled whether it is
/// present or not: the file list does not depend on its presence.
pub proof fn lemma_declared_name_needs_no_probe(
    list: Seq<Seq<char>>,
    declared: Seq<Seq<char>>,
    existing: Set<Seq<char>>,
    name: Seq<char>,
)
    requires
        is_file_list(list, declared, existing),
        declared.contains(name),
    ensures
        is_file_list(list, declared, existing.insert(name)),
        is_file_list(list, declared, existing.remove(name)),
{
}

/// With nothing declared and none of the well-known files present, the file
/// list is empty.
pub proof fn lemma_nothing_to_bundle(list: Seq<Seq<char>>, existing: Set<Seq<char>>)
    requires
        is_file_list(list, Seq::empty(), existing),
        forall|name: Seq<char>| default_names().contains(name) ==> !existing.contains(name),
    ensures
        list.len() == 0,
{
    if list.len() > 0 {
        assert(list.contains(list[0]));
    }
}

} // verus!
