//! The order in which font families are tried for a piece of text.

use vstd::prelude::*;
use crate::attrs::{Attrs, AttrsView};
use crate::family::{family_views, FamilyOwned, FamilyView};

verus! {

/// The families named by `names`.
pub open spec fn named(names: Seq<String>) -> Seq<FamilyView> {
    names.map_values(|name: String| FamilyView::Name(name@))
}

/// The families named by the lists of `lists` from list `list_i` on, and
/// in that list from name `name_i` on.
pub open spec fn script_families_from(lists: Seq<Vec<String>>, list_i: int, name_i: int) -> Seq<
    FamilyView,
>
    decreases lists.len() - list_i,
{
    if list_i < 0 || name_i < 0 || list_i >= lists.len() {
        Seq::empty()
    } else {
        named(lists[list_i]@.skip(name_i)) + script_families_from(lists, list_i + 1, 0)
    }
}

/// The order of the families to try: the families asked for; then, script
/// by script of the text, the families preferred for the script; then the
/// common families; and last the families that are otherwise kept out.
pub open spec fn fallback_order(
    default_families: Seq<FamilyOwned>,
    script_families: Seq<Vec<String>>,
    common: Seq<String>,
    forbidden: Seq<String>,
) -> Seq<FamilyView> {
    family_views(default_families) + script_families_from(script_families, 0, 0) + named(common)
        + named(forbidden)
}

/// Why a fallback was needed for a piece of text.
#[derive(Debug)]
pub enum Missing {
    /// No family of whatever list gave a font.
    Everything,
    /// Only a family that is otherwise kept out gave a font.
    Preset,
    /// No family preferred for the scripts gave a font; the common family
    /// named here did.
    Script(String),
    /// Nothing is amiss.
    Nothing,
}

/// The mathematical value of [`Missing`].
pub enum MissingView {
    Everything,
    Preset,
    Script(Seq<char>),
    Nothing,
}

impl View for Missing {
    type V = MissingView;

    open spec fn view(&self) -> MissingView {
        match self {
            Missing::Everything => MissingView::Everything,
            Missing::Preset => MissingView::Preset,
            Missing::Script(name) => MissingView::Script(name@),
            Missing::Nothing => MissingView::Nothing,
        }
    }
}

/// The mathematical value of a [`FontFallbackIter`].
pub struct FallbackView {
    pub attrs: AttrsView,
    pub default_families: Seq<FamilyOwned>,
    pub script_families: Seq<Vec<String>>,
    pub common: Seq<String>,
    pub forbidden: Seq<String>,
    pub default_i: int,
    pub script_i: (int, int),
    pub common_i: int,
    pub other_i: int,
    pub end: bool,
}

impl FallbackView {
    /// The families still to try, in order.
    pub open spec fn remaining(self) -> Seq<FamilyView> {
        family_views(self.default_families.skip(self.default_i)) + script_families_from(
            self.script_families,
            self.script_i.0,
            self.script_i.1,
        ) + named(self.common.skip(self.common_i)) + named(self.forbidden.skip(self.other_i))
    }

    /// The invariant: every index lies within its list, and a list is
    /// entered only when the lists in front of it are used up.
    pub open spec fn wf(self) -> bool {
        &&& 0 <= self.default_i <= self.default_families.len()
        &&& 0 <= self.script_i.0 <= self.script_families.len()
        &&& 0 <= self.script_i.1
        &&& self.script_i.0 < self.script_families.len() ==> self.script_i.1
            <= self.script_families[self.script_i.0]@.len()
        &&& self.script_i.0 == self.script_families.len() ==> self.script_i.1 == 0
        &&& 0 <= self.common_i <= self.common.len()
        &&& 0 <= self.other_i <= self.forbidden.len()
        &&& self.script_i != (0int, 0int) ==> self.default_i == self.default_families.len()
        &&& self.common_i > 0 ==> self.default_i == self.default_families.len() && self.script_i.0
            == self.script_families.len()
        &&& self.other_i > 0 ==> self.default_i == self.default_families.len() && self.script_i.0
            == self.script_families.len() && self.common_i == self.common.len()
        &&& self.end ==> self.remaining().len() == 0
    }

    /// What was amiss when the last family was handed out.
    pub open spec fn missing(self) -> MissingView {
        if self.end {
            MissingView::Everything
        } else if self.other_i > 0 {
            MissingView::Preset
        } else if self.script_families.len() > 0 && self.common_i > 0 {
            MissingView::Script(self.common[self.common_i - 1]@)
        } else {
            MissingView::Nothing
        }
    }
}

/// Hands out, one by one and in order, the families to try for a piece of
/// text. The caller looks each family up and stops at the first that gives
/// a font.
pub struct FontFallbackIter<'a> {
    default_families: &'a [FamilyOwned],
    attrs: Attrs<'a>,
    default_i: usize,
    script_families: Vec<Vec<String>>,
    script_i: (usize, usize),
    common: Vec<String>,
    common_i: usize,
    forbidden: Vec<String>,
    other_i: usize,
    end: bool,
}

impl<'a> View for FontFallbackIter<'a> {
    type V = FallbackView;

    closed spec fn view(&self) -> FallbackView {
        FallbackView {
            attrs: self.attrs@,
            default_families: self.default_families@,
            script_families: self.script_families@,
            common: self.common@,
            forbidden: self.forbidden@,
            default_i: self.default_i as int,
            script_i: (self.script_i.0 as int, self.script_i.1 as int),
            common_i: self.common_i as int,
            other_i: self.other_i as int,
            end: self.end,
        }
    }
}

impl<'a> FontFallbackIter<'a> {
    /// The fallback for text with the attributes `attrs`: first the
    /// families `default_families`; then, for each script of the text, the
    /// families of one list of `script_families`; then the families
    /// `common`; then the families `forbidden`.
    pub fn new(
        attrs: Attrs<'a>,
        default_families: &'a [FamilyOwned],
        script_families: Vec<Vec<String>>,
        common: Vec<String>,
        forbidden: Vec<String>,
    ) -> (iter: FontFallbackIter<'a>)
        ensures
            iter@.wf(),
            iter@.attrs == attrs@,
            !iter@.end,
            iter@.remaining() == fallback_order(
                default_families@,
                script_families@,
                common@,
                forbidden@,
            ),
            iter@.missing() == MissingView::Nothing,
    {
        let iter = FontFallbackIter {
            attrs,
            default_families,
            default_i: 0,
            script_families,
            script_i: (0, 0),
            common,
            common_i: 0,
            forbidden,
            other_i: 0,
            end: false,
        };
        proof {
            assert(default_families@.skip(0) =~= default_families@);
            assert(common@.skip(0) =~= common@);
            assert(forbidden@.skip(0) =~= forbidden@);
        }
        iter
    }

    /// The attributes that a font has to match.
    pub fn attrs(&self) -> (attrs: Attrs<'a>)
        ensures
            attrs@ == self@.attrs,
    {
        self.attrs
    }

    /// The next family to try, if one is left.
    pub fn next_family(&mut self) -> (family: Option<FamilyOwned>)
        requires
            old(self)@.wf(),
        ensures
            final(self)@.wf(),
            match family {
                Some(family) => old(self)@.remaining() == seq![family@] + final(self)@.remaining(),
                None => old(self)@.remaining().len() == 0 && final(self)@.end,
            },
    {
        if self.default_i < self.default_families.len() {
            let family = self.default_families[self.default_i].clone();
            proof {
                let rest = self.default_families@.skip(self.default_i as int);
                assert(family_views(rest) =~= seq![family@] + family_views(
                    self.default_families@.skip(self.default_i + 1),
                ));
            }
            self.default_i += 1;
            return Some(family);
        }
        proof {
            assert(family_views(self.default_families@.skip(self.default_i as int)).len() == 0);
        }
        while self.script_i.0 < self.script_families.len()
            invariant
                self@.wf(),
                self.default_i == self.default_families.len(),
                self@.remaining() == old(self)@.remaining(),
                self.end == old(self).end,
                self.common_i == old(self).common_i,
                self.other_i == old(self).other_i,
            decreases self.script_families.len() - self.script_i.0,
        {
            let list = &self.script_families[self.script_i.0];
            if self.script_i.1 < list.len() {
                let name = list[self.script_i.1].clone();
                proof {
                    let rest = list@.skip(self.script_i.1 as int);
                    assert(named(rest) =~= seq![FamilyView::Name(name@)] + named(
                        list@.skip(self.script_i.1 + 1),
                    ));
                }
                self.script_i.1 += 1;
                return Some(FamilyOwned::Name(name));
            }
            proof {
                assert(named(list@.skip(self.script_i.1 as int)).len() == 0);
            }
            self.script_i.0 += 1;
            self.script_i.1 = 0;
        }
        proof {
            assert(script_families_from(
                self.script_families@,
                self.script_i.0 as int,
                self.script_i.1 as int,
            ).len() == 0);
        }
        if self.common_i < self.common.len() {
            let name = self.common[self.common_i].clone();
            proof {
                let rest = self.common@.skip(self.common_i as int);
                assert(named(rest) =~= seq![FamilyView::Name(name@)] + named(
                    self.common@.skip(self.common_i + 1),
                ));
            }
            self.common_i += 1;
            return Some(FamilyOwned::Name(name));
        }
        proof {
            assert(named(self.common@.skip(self.common_i as int)).len() == 0);
        }
        if self.other_i < self.forbidden.len() {
            let name = self.forbidden[self.other_i].clone();
            proof {
                let rest = self.forbidden@.skip(self.other_i as int);
                assert(named(rest) =~= seq![FamilyView::Name(name@)] + named(
                    self.forbidden@.skip(self.other_i + 1),
                ));
            }
            self.other_i += 1;
            return Some(FamilyOwned::Name(name));
        }
        proof {
            assert(named(self.forbidden@.skip(self.other_i as int)).len() == 0);
        }
        self.end = true;
        None
    }

    /// Tells what was amiss when the family handed out last gave the font
    /// for a word: nothing, if it was a family asked for or one preferred
    /// for a script.
    pub fn check_missing(&self) -> (missing: Missing)
        requires
            self@.wf(),
        ensures
            missing@ == self@.missing(),
    {
        if self.end {
            Missing::Everything
        } else if self.other_i > 0 {
            Missing::Preset
        } else if self.script_families.len() > 0 && self.common_i > 0 {
            Missing::Script(self.common[self.common_i - 1].clone())
        } else {
            Missing::Nothing
        }
    }
}

} // verus!
