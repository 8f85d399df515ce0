//! The features of the build tool that a project switches on or off.

use vstd::prelude::*;

verus! {

/// The feature toggles of a project, kept as the project wrote them: each
/// key with the text of its value.
#[derive(Debug, Clone, PartialEq, Eq)]
pub struct Features {
    toggles: Vec<(String, String)>,
}

impl View for Features {
    type V = Seq<(Seq<char>, Seq<char>)>;

    closed spec fn view(&self) -> Seq<(Seq<char>, Seq<char>)> {
        self.toggles.deep_view()
    }
}

impl Features {
    /// Feature toggles made of the given keys and values.
    pub fn new(toggles: Vec<(String, String)>) -> (features: Features)
        ensures
            features@ == toggles.deep_view(),
    {
        Features { toggles }
    }

    /// The keys and values, in the order in which they were given.
    pub fn toggles(&self) -> (toggles: &Vec<(String, String)>)
        ensures
            toggles.deep_view() == self@,
    {
        &self.toggles
    }
}

impl Default for Features {
    /// A project that names no feature leaves every toggle as the tool
    /// ships it.
    fn default() -> (features: Features)
        ensures
            features@ == Seq::<(Seq<char>, Seq<char>)>::empty(),
    {
        let features = Features { toggles: Vec::new() };
        assert(features@ =~= Seq::<(Seq<char>, Seq<char>)>::empty());
        features
    }
}

} // verus!
