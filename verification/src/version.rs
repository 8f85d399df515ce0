//! How a project's version is found.

use vstd::prelude::*;

verus! {

/// The versioning settings of a project, kept as the project wrote them:
/// each key with the text of its value.
#[derive(Debug, Clone, PartialEq, Eq)]
pub struct Options {
    settings: Vec<(String, String)>,
}

impl View for Options {
    type V = Seq<(Seq<char>, Seq<char>)>;

    closed spec fn view(&self) -> Seq<(Seq<char>, Seq<char>)> {
        self.settings.deep_view()
    }
}

impl Options {
    /// Versioning settings made of the given keys and values.
    pub fn new(settings: Vec<(String, String)>) -> (options: Options)
        ensures
            options@ == settings.deep_view(),
    {
        Options { settings }
    }

    /// The keys and values, in the order in which they were given.
    pub fn settings(&self) -> (settings: &Vec<(String, String)>)
        ensures
            settings.deep_view() == self@,
    {
        &self.settings
    }
}

impl Default for Options {
    /// A project that says nothing about its version has no settings.
    fn default() -> (options: Options)
        ensures
            options@ == Seq::<(Seq<char>, Seq<char>)>::empty(),
    {
        let options = Options { settings: Vec::new() };
        assert(options@ =~= Seq::<(Seq<char>, Seq<char>)>::empty());
        options
    }
}

} // verus!
