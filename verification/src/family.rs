//! Font families as owned values.

use vstd::prelude::*;

verus! {

/// A font family: a named one, or one of the generic families.
#[derive(Debug, Hash)]
pub enum FamilyOwned {
    Name(String),
    Serif,
    SansSerif,
    Cursive,
    Fantasy,
    Monospace,
}

/// The mathematical value of a [`FamilyOwned`].
pub enum FamilyView {
    Name(Seq<char>),
    Serif,
    SansSerif,
    Cursive,
    Fantasy,
    Monospace,
}

impl View for FamilyOwned {
    type V = FamilyView;

    open spec fn view(&self) -> FamilyView {
        match self {
            FamilyOwned::Name(name) => FamilyView::Name(name@),
            FamilyOwned::Serif => FamilyView::Serif,
            FamilyOwned::SansSerif => FamilyView::SansSerif,
            FamilyOwned::Cursive => FamilyView::Cursive,
            FamilyOwned::Fantasy => FamilyView::Fantasy,
            FamilyOwned::Monospace => FamilyView::Monospace,
        }
    }
}

impl PartialEq for FamilyOwned {
    fn eq(&self, other: &Self) -> (b: bool) {
        self.same(other)
    }
}

impl vstd::std_specs::cmp::PartialEqSpecImpl for FamilyOwned {
    open spec fn obeys_eq_spec() -> bool {
        true
    }

    open spec fn eq_spec(&self, other: &Self) -> bool {
        self@ == other@
    }
}

impl Eq for FamilyOwned {

}

impl Clone for FamilyOwned {
    fn clone(&self) -> (res: FamilyOwned)
        ensures
            res@ == self@,
    {
        match self {
            FamilyOwned::Name(name) => FamilyOwned::Name(name.clone()),
            FamilyOwned::Serif => FamilyOwned::Serif,
            FamilyOwned::SansSerif => FamilyOwned::SansSerif,
            FamilyOwned::Cursive => FamilyOwned::Cursive,
            FamilyOwned::Fantasy => FamilyOwned::Fantasy,
            FamilyOwned::Monospace => FamilyOwned::Monospace,
        }
    }
}

impl FamilyOwned {
    /// Decides whether two families have the same value.
    pub fn same(&self, other: &FamilyOwned) -> (b: bool)
        ensures
            b == (self@ == other@),
    {
        match (self, other) {
            (FamilyOwned::Name(a), FamilyOwned::Name(b)) => {
                let eq = *a == *b;
                proof {
                    if a@ != b@ {
                        assert(self@ != other@);
                    }
                }
                eq
            },
            (FamilyOwned::Serif, FamilyOwned::Serif) => true,
            (FamilyOwned::SansSerif, FamilyOwned::SansSerif) => true,
            (FamilyOwned::Cursive, FamilyOwned::Cursive) => true,
            (FamilyOwned::Fantasy, FamilyOwned::Fantasy) => true,
            (FamilyOwned::Monospace, FamilyOwned::Monospace) => true,
            _ => false,
        }
    }
}

/// The values of a list of families, in order.
pub open spec fn family_views(families: Seq<FamilyOwned>) -> Seq<FamilyView> {
    families.map_values(|f: FamilyOwned| f@)
}

/// Decides whether two lists of families hold the same values in the same order.
pub fn same_families(a: &[FamilyOwned], b: &[FamilyOwned]) -> (eq: bool)
    ensures
        eq == (family_views(a@) == family_views(b@)),
{
    if a.len() != b.len() {
        proof {
            assert(family_views(a@).len() != family_views(b@).len());
        }
        return false;
    }
    let mut i: usize = 0;
    while i < a.len()
        invariant
            a.len() == b.len(),
            i <= a.len(),
            forall|j: int| 0 <= j < i ==> a@[j]@ == b@[j]@,
        decreases a.len() - i,
    {
        if !a[i].same(&b[i]) {
            proof {
                assert(family_views(a@)[i as int] == a@[i as int]@);
                assert(family_views(b@)[i as int] == b@[i as int]@);
            }
            return false;
        }
        i += 1;
    }
    proof {
        assert(family_views(a@) =~= family_views(b@));
    }
    true
}

/// Copies a list of families.
pub fn clone_families(families: &[FamilyOwned]) -> (res: Vec<FamilyOwned>)
    ensures
        family_views(res@) == family_views(families@),
{
    let mut res: Vec<FamilyOwned> = Vec::new();
    let mut i: usize = 0;
    while i < families.len()
        invariant
            i <= families.len(),
            res.len() == i,
            forall|j: int| 0 <= j < i ==> res@[j]@ == families@[j]@,
        decreases families.len() - i,
    {
        res.push(families[i].clone());
        i += 1;
    }
    proof {
        assert(family_views(res@) =~= family_views(families@));
    }
    res
}

} // verus!
