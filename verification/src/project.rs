//! A project's configuration: what a document declares, the values a
//! configuration holds for what the document leaves out, the rule a loaded
//! configuration satisfies, and the files a build bundles.

use std::collections::HashMap;
use vstd::prelude::*;
use crate::bundle::{contains_name, default_name, default_names, is_file_list,
    lemma_contains_push, resolve_files, sort_and_dedup, DEFAULT_NAME_COUNT};
use crate::error::Error;
use crate::hemtt::Features;
use crate::order::strictly_increasing;
use crate::signing;
use crate::version;

verus! {

/// What a configuration document declares, before any rule is applied. A
/// key that the document leaves out is `None`.
#[derive(Debug, Clone)]
pub struct Document {
    /// The name of the project.
    pub name: String,
    /// Prefix for the project.
    pub prefix: Option<String>,
    /// Main prefix for the project.
    pub mainprefix: Option<String>,
    /// How the version of the project is found.
    pub version: Option<version::Options>,
    /// Headers to be added to built archives.
    pub headers: Option<HashMap<String, String>>,
    /// Files to be bundled beside the archives; a name may be a pattern.
    pub files: Option<Vec<String>>,
    /// Features of the build tool.
    pub hemtt: Option<Features>,
    /// How archives are signed.
    pub signing: Option<signing::Options>,
}

/// The values of a configuration.
pub struct ConfigurationView {
    pub name: Seq<char>,
    pub prefix: Seq<char>,
    pub mainprefix: Option<Seq<char>>,
    pub version: Seq<(Seq<char>, Seq<char>)>,
    pub headers: Map<String, String>,
    pub files: Seq<Seq<char>>,
    pub hemtt: Seq<(Seq<char>, Seq<char>)>,
    pub signing: Seq<(Seq<char>, Seq<char>)>,
}

/// The diagnostic of a configuration without a prefix.
pub open spec fn prefix_missing() -> Seq<char> {
    "prefix cannot be empty"@
}

impl Document {
    /// The values of the configuration that this document describes: each
    /// declared value as it is, and for each key that is left out the empty
    /// text, map or list, or the default of its section.
    pub open spec fn described(self) -> ConfigurationView {
        ConfigurationView {
            name: self.name@,
            prefix: match self.prefix {
                Some(prefix) => prefix@,
                None => Seq::empty(),
            },
            mainprefix: match self.mainprefix {
                Some(mainprefix) => Some(mainprefix@),
                None => None,
            },
            version: match self.version {
                Some(version) => version@,
                None => Seq::empty(),
            },
            headers: match self.headers {
                Some(headers) => headers@,
                None => Map::empty(),
            },
            files: match self.files {
                Some(files) => files.deep_view(),
                None => Seq::empty(),
            },
            hemtt: match self.hemtt {
                Some(hemtt) => hemtt@,
                None => Seq::empty(),
            },
            signing: match self.signing {
                Some(signing) => signing@,
                None => Seq::empty(),
            },
        }
    }
}

impl ConfigurationView {
    /// The rule of a loaded configuration: it has a prefix.
    pub open spec fn is_valid(self) -> bool {
        self.prefix.len() > 0
    }
}

/// The configuration of one project.
#[derive(Debug, Clone)]
pub struct Configuration {
    /// The name of the project
    name: String,
    /// Prefix for the project
    prefix: String,
    /// Main prefix for the project
    mainprefix: Option<String>,
    /// Version of the project
    version: version::Options,
    /// Headers to be added to built archives
    headers: HashMap<String, String>,
    /// Files to be bundled beside the archives, supports patterns
    files: Vec<String>,
    /// Features of the build tool
    hemtt: Features,
    /// How archives are signed
    signing: signing::Options,
}

impl View for Configuration {
    type V = ConfigurationView;

    closed spec fn view(&self) -> ConfigurationView {
        ConfigurationView {
            name: self.name@,
            prefix: self.prefix@,
            mainprefix: match self.mainprefix {
                Some(mainprefix) => Some(mainprefix@),
                None => None,
            },
            version: self.version@,
            headers: self.headers@,
            files: self.files.deep_view(),
            hemtt: self.hemtt@,
            signing: self.signing@,
        }
    }
}

/// `result` is what loading hands back when reading the document came to
/// `read`: the error of reading as it is; else, for a document with a
/// prefix, a configuration with the values that the document describes; else
/// the refusal of a configuration without a prefix.
pub open spec fn is_load_result(
    read: Result<Document, Error>,
    result: Result<Configuration, Error>,
) -> bool {
    match read {
        Err(error) => result == Err::<Configuration, Error>(error),
        Ok(document) => if document.described().is_valid() {
            result matches Ok(configuration) && configuration@ == document.described()
        } else {
            result matches Err(Error::Validation(text)) && text@ == prefix_missing()
        },
    }
}

/// Whether a file of this name is present, seen from the directory in which
/// the build runs. The answer is that of `std::path::Path::exists`: it
/// depends on the disk at the moment of the call, so nothing is claimed of
/// it.
#[verifier::external_body]
fn path_exists(name: &str) -> (present: bool) {
    std::path::Path::new(name).exists()
}

impl Configuration {
    /// The configuration that `document` describes, with no rule applied.
    pub fn from_document(document: Document) -> (configuration: Configuration)
        ensures
            configuration@ == document.described(),
    {
        let prefix = match document.prefix {
            Some(prefix) => prefix,
            None => String::new(),
        };
        let version = match document.version {
            Some(version) => version,
            None => version::Options::default(),
        };
        let headers = match document.headers {
            Some(headers) => headers,
            None => HashMap::new(),
        };
        let files = match document.files {
            Some(files) => files,
            None => Vec::new(),
        };
        let hemtt = match document.hemtt {
            Some(hemtt) => hemtt,
            None => Features::default(),
        };
        let signing = match document.signing {
            Some(signing) => signing,
            None => signing::Options::default(),
        };
        let configuration = Configuration {
            name: document.name,
            prefix,
            mainprefix: document.mainprefix,
            version,
            headers,
            files,
            hemtt,
            signing,
        };
        assert(configuration@.files =~= document.described().files);
        configuration
    }

    /// Applies the rule of a loaded configuration: one with a prefix is
    /// handed back as it is, one without is refused.
    pub fn validate(self) -> (result: Result<Configuration, Error>)
        ensures
            self@.is_valid() ==> result == Ok::<Configuration, Error>(self),
            !self@.is_valid() ==> (result matches Err(Error::Validation(text)) && text@
                == prefix_missing()),
    {
        if self.prefix.as_str().is_empty() {
            Err(Error::Validation("prefix cannot be empty".to_string()))
        } else {
            Ok(self)
        }
    }

    /// Finishes loading, given what reading the document came to: an error
    /// of reading is handed on and no rule is applied; a document that was
    /// read becomes a configuration if it has a prefix, and is refused if it
    /// has none.
    pub fn load(read: Result<Document, Error>) -> (result: Result<Configuration, Error>)
        ensures
            is_load_result(read, result),
    {
        match read {
            Err(error) => Err(error),
            Ok(document) => Configuration::from_document(document).validate(),
        }
    }

    /// The name of the project.
    #[must_use]
    pub fn name(&self) -> (name: &str)
        ensures
            name@ == self@.name,
    {
        self.name.as_str()
    }

    /// How the version of the project is found.
    #[must_use]
    pub fn version(&self) -> (version: &version::Options)
        ensures
            version@ == self@.version,
    {
        &self.version
    }

    /// Prefix for the project.
    #[must_use]
    pub fn prefix(&self) -> (prefix: &str)
        ensures
            prefix@ == self@.prefix,
    {
        self.prefix.as_str()
    }

    /// Main prefix for the project, if it has one.
    #[must_use]
    pub fn mainprefix(&self) -> (mainprefix: Option<&String>)
        ensures
            match mainprefix {
                Some(text) => self@.mainprefix == Some(text@),
                None => self@.mainprefix is None,
            },
    {
        self.mainprefix.as_ref()
    }

    /// Headers to be added to built archives.
    #[must_use]
    pub fn headers(&self) -> (headers: &HashMap<String, String>)
        ensures
            headers@ == self@.headers,
    {
        &self.headers
    }

    /// The files that the project declares, in the order in which it lists
    /// them.
    #[must_use]
    pub fn declared_files(&self) -> (files: &Vec<String>)
        ensures
            files.deep_view() == self@.files,
    {
        &self.files
    }

    /// The files that a build bundles: the declared ones and the well-known
    /// files that are present in the directory of the build, sorted and each
    /// once. A well-known file that is declared is not looked for.
    ///
    /// Which files are present is not known before the call, so the list is
    /// the file list for some set of present files; whatever that set is,
    /// the list is sorted without repetition, holds every declared name, and
    /// holds nothing but declared and well-known names.
    #[must_use]
    pub fn files(&self) -> (list: Vec<String>)
        ensures
            exists|existing: Set<Seq<char>>| is_file_list(list.deep_view(), self@.files, existing),
            strictly_increasing(list.deep_view()),
            forall|name: Seq<char>|
                self@.files.contains(name) ==> #[trigger] list.deep_view().contains(name),
            forall|name: Seq<char>| #[trigger]
                list.deep_view().contains(name) ==> self@.files.contains(name)
                    || default_names().contains(name),
    {
        let ghost declared = self@.files;
        let ghost mut found: Set<Seq<char>> = Set::empty();
        let mut files = self.files.clone();
        assert(files.deep_view() =~= declared);
        let mut i: usize = 0;
        while i < DEFAULT_NAME_COUNT
            invariant
                i <= DEFAULT_NAME_COUNT,
                forall|name: Seq<char>| found.contains(name) ==> files.deep_view().contains(name),
                forall|name: Seq<char>| #[trigger]
                    files.deep_view().contains(name) <==> (declared.contains(name) || (
                    default_names().take(i as int).contains(name) && found.contains(name))),
            decreases DEFAULT_NAME_COUNT - i,
        {
            let ghost held = files.deep_view();
            let ghost seen = default_names().take(i as int);
            let ghost found_before = found;
            let candidate = default_name(i);
            assert(default_names().take(i + 1) =~= seen.push(candidate@));
            if !contains_name(&files, candidate) {
                if path_exists(candidate) {
                    files.push(candidate.to_string());
                    proof {
                        found = found.insert(candidate@);
                        assert(files.deep_view() =~= held.push(candidate@));
                    }
                }
            }
            proof {
                assert forall|name: Seq<char>| #[trigger]
                    files.deep_view().contains(name) <==> (declared.contains(name) || (
                    default_names().take(i + 1).contains(name) && found.contains(name))) by {
                    lemma_contains_push(seen, candidate@, name);
                    lemma_contains_push(held, candidate@, name);
                    assert(held.contains(name) <==> (declared.contains(name) || (seen.contains(
                        name,
                    ) && found_before.contains(name))));
                }
                assert forall|name: Seq<char>| found.contains(name) implies files.deep_view().contains(
                    name,
                ) by {
                    lemma_contains_push(held, candidate@, name);
                }
            }
            i += 1;
        }
        assert(default_names().take(i as int) =~= default_names());
        let list = sort_and_dedup(files);
        assert(is_file_list(list.deep_view(), declared, found));
        list
    }

    /// The files that a build bundles when the files named in `existing`
    /// are the ones present: the declared ones and the well-known files
    /// among `existing`, sorted and each once.
    #[must_use]
    pub fn files_among(&self, existing: &Vec<String>) -> (list: Vec<String>)
        ensures
            is_file_list(list.deep_view(), self@.files, existing.deep_view().to_set()),
    {
        resolve_files(&self.files, existing)
    }

    /// Features of the build tool.
    #[must_use]
    pub fn hemtt(&self) -> (hemtt: &Features)
        ensures
            hemtt@ == self@.hemtt,
    {
        &self.hemtt
    }

    /// How archives are signed.
    #[must_use]
    pub fn signing(&self) -> (signing: &signing::Options)
        ensures
            signing@ == self@.signing,
    {
        &self.signing
    }
}

} // verus!
