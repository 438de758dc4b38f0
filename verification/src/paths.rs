//! Directories as the runtime's logic sees them: a base and the names joined to it.

use vstd::prelude::*;

verus! {

/// A directory or file: the first part is a base path, each further part is joined to what
/// stands before it.
#[derive(Debug)]
pub struct DirPath {
    pub parts: Vec<String>,
}

/// The views of a list of texts.
pub open spec fn texts(v: Seq<String>) -> Seq<Seq<char>> {
    Seq::new(v.len(), |i: int| v[i]@)
}

/// A copy of a list of texts.
pub fn copy_texts(v: &Vec<String>) -> (r: Vec<String>)
    ensures
        r@ == v@,
{
    let mut r: Vec<String> = Vec::new();
    for i in 0..v.len()
        invariant
            r@ == v@.take(i as int),
    {
        r.push(v[i].clone());
        assert(v@.take(i + 1) =~= v@.take(i as int).push(v@[i as int]));
    }
    assert(v@.take(v@.len() as int) =~= v@);
    r
}

impl View for DirPath {
    type V = Seq<Seq<char>>;

    open spec fn view(&self) -> Seq<Seq<char>> {
        texts(self.parts@)
    }
}

impl DirPath {
    /// The path that is the base alone.
    pub fn root(base: String) -> (r: DirPath)
        ensures
            r@ == seq![base@],
    {
        let mut parts: Vec<String> = Vec::new();
        parts.push(base);
        let r = DirPath { parts };
        assert(r@ =~= seq![base@]);
        r
    }

    /// A copy of this path.
    pub fn copy(&self) -> (r: DirPath)
        ensures
            r@ == self@,
    {
        DirPath { parts: copy_texts(&self.parts) }
    }

    /// This path with one more part.
    pub fn join(&self, part: &str) -> (r: DirPath)
        ensures
            r@ == self@.push(part@),
    {
        let mut r = self.copy();
        r.parts.push(part.to_owned());
        assert(r@ =~= self@.push(part@));
        r
    }
}

} // verus!
