//! Service discovery: the set of features the server advertised, kept for
//! other components to consult (the bookmarks component reads it to pick
//! its wire encoding).

use vstd::prelude::*;

verus! {

/// Feature bookkeeping from service discovery.
pub struct Disco {
    pub features: Vec<String>,
}

impl Disco {
    /// The advertised features, in the order they were recorded.
    pub open spec fn features_model(&self) -> Seq<Seq<char>> {
        self.features@.map(|i: int, f: String| f@)
    }

    /// A discovery component that knows no feature yet.
    pub fn new() -> (r: Disco)
        ensures
            r.features_model() == Seq::<Seq<char>>::empty(),
    {
        let r = Disco { features: Vec::new() };
        proof {
            assert(r.features_model() =~= Seq::<Seq<char>>::empty());
        }
        r
    }

    /// Record one advertised feature.
    pub fn add_feature(&mut self, feature: String)
        ensures
            final(self).features_model() == old(self).features_model().push(feature@),
    {
        let ghost prev = self.features_model();
        self.features.push(feature);
        proof {
            assert(self.features_model() =~= prev.push(self.features@.last()@));
        }
    }

    /// Whether the given feature was advertised.
    pub fn has_feature(&self, feature: &String) -> (r: bool)
        ensures
            r == self.features_model().contains(feature@),
    {
        let mut i: usize = 0;
        while i < self.features.len()
            invariant
                i <= self.features@.len(),
                forall|j: int| 0 <= j < i ==> self.features_model()[j] != feature@,
            decreases self.features@.len() - i,
        {
            if self.features[i] == *feature {
                proof {
                    assert(self.features_model()[i as int] == feature@);
                }
                return true;
            }
            i = i + 1;
        }
        false
    }
}

} // verus!
