//! The loader of scene files in JSON.

use vstd::prelude::*;

verus! {

/// Reads a scene from the JSON file that it names.
pub struct JSONSceneLoader {
    filename: String,
}

impl View for JSONSceneLoader {
    type V = Seq<char>;

    /// The name of the file that the loader reads.
    closed spec fn view(&self) -> Seq<char> {
        self.filename@
    }
}

impl JSONSceneLoader {
    /// A loader for the file `filename`.
    pub fn new(filename: &str) -> (r: JSONSceneLoader)
        ensures
            r@ == filename@,
    {
        JSONSceneLoader { filename: filename.to_owned() }
    }

    /// The name of the file that the loader reads.
    pub fn filename(&self) -> (r: &str)
        ensures
            r@ == self@,
    {
        self.filename.as_str()
    }
}

} // verus!
