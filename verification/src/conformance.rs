//! The conformance classes the server declares.

use vstd::prelude::*;

verus! {

/// The list of URIs naming the conformance classes the server implements.
#[derive(Debug, Clone, PartialEq, Eq)]
pub struct Conformance {
    /// The conformance class URIs.
    pub conforms_to: Vec<String>,
}

impl Conformance {
    /// A conformance document with the given classes.
    pub fn new(conforms_to: Vec<String>) -> (r: Conformance)
        ensures
            r.conforms_to == conforms_to,
    {
        Conformance { conforms_to }
    }

    /// The default conformance document, declaring the core class alone.
    pub fn default() -> (r: Conformance)
        ensures
            r.conforms_to@.len() == 1,
            r.conforms_to@[0]@ == "https://api.stacspec.org/v1.0.0/core"@,
    {
        let mut conforms_to: Vec<String> = Vec::new();
        conforms_to.push("https://api.stacspec.org/v1.0.0/core".to_owned());
        Conformance { conforms_to }
    }

    /// Adds one conformance class.
    pub fn add_conformance(&mut self, spec: String)
        ensures
            final(self).conforms_to@ == old(self).conforms_to@.push(spec),
    {
        self.conforms_to.push(spec);
    }

    /// Adds several conformance classes, in order.
    pub fn add_conformances(&mut self, specs: Vec<String>)
        ensures
            final(self).conforms_to@ == old(self).conforms_to@ + specs@,
    {
        let n = specs.len();
        let mut i: usize = 0;
        let mut rest = specs;
        proof {
            assert(self.conforms_to@ + rest@.take(0) =~= self.conforms_to@);
        }
        while i < n
            invariant
                i <= n,
                n == rest@.len(),
                self.conforms_to@ == old(self).conforms_to@ + rest@.take(i as int),
            decreases n - i,
        {
            let s = rest[i].clone();
            proof {
                assert(rest@.take(i + 1) =~= rest@.take(i as int).push(rest@[i as int]));
                assert((old(self).conforms_to@ + rest@.take(i as int)).push(rest@[i as int]) =~= old(
                    self,
                ).conforms_to@ + rest@.take(i + 1));
            }
            self.conforms_to.push(s);
            i = i + 1;
        }
        proof {
            assert(rest@.take(n as int) =~= rest@);
        }
    }
}

/// The conformance classes a catalog document gets when it names none.
pub fn default_conforms_to() -> (r: Vec<String>)
    ensures
        r@.len() == 1,
        r@[0]@ == "https://api.stacspec.org/v1.0.0/core"@,
{
    let mut v: Vec<String> = Vec::new();
    v.push("https://api.stacspec.org/v1.0.0/core".to_owned());
    v
}

} // verus!
