//! A list to choose from, in which each line has an id.

use crate::args;
use crate::scan;
use crate::strings;
use crate::text;
use vstd::prelude::*;

verus! {

broadcast use strings::lemma_texts_push;

/// A list to choose from. One line is always chosen, where there is any.
#[derive(Debug)]
pub struct IdDropDown {
    pub ids: Vec<String>,
    pub labels: Vec<String>,
    pub selected: usize,
}

/// Whether a text is the one given.
pub open spec fn is_text(x: Seq<char>) -> spec_fn(Seq<char>) -> bool {
    |t: Seq<char>| t == x
}

/// The place of an id. What is not among the ids stands for the first.
pub open spec fn place(ids: Seq<Seq<char>>, id: Option<Seq<char>>) -> int {
    match id {
        Some(x) => match scan::first_where(ids, is_text(x)) {
            Some(i) => i,
            None => 0,
        },
        None => 0,
    }
}

/// The id at a place.
pub open spec fn id_at(ids: Seq<Seq<char>>, i: int) -> Option<Seq<char>> {
    if 0 <= i < ids.len() {
        Some(ids[i])
    } else {
        None
    }
}

/// The id that is chosen where one is asked for.
pub open spec fn chosen(ids: Seq<Seq<char>>, id: Option<Seq<char>>) -> Option<Seq<char>> {
    id_at(ids, place(ids, id))
}

fn place_of(ids: &Vec<String>, id: Option<&str>) -> (r: usize)
    ensures
        r == place(strings::texts(ids@), strings::opt_str(id)),
        r == 0 || r < ids@.len(),
{
    match id {
        Some(x) => {
            let ghost all = strings::texts(ids@);
            let ghost f = is_text(x@);
            proof {
                scan::lemma_first_where(all, f);
            }
            let mut i: usize = 0;
            while i < ids.len()
                invariant
                    i <= ids@.len(),
                    all == strings::texts(ids@),
                    f == is_text(x@),
                    id == Some(x),
                    forall|j: int| 0 <= j < i ==> !f(#[trigger] all[j]),
                    match scan::first_where(all, f) {
                        Some(k) => 0 <= k < all.len() && f(all[k]) && (forall|j: int|
                            0 <= j < k ==> !f(#[trigger] all[j])),
                        None => forall|j: int| 0 <= j < all.len() ==> !f(#[trigger] all[j]),
                    },
                decreases ids.len() - i,
            {
                assert(all[i as int] == ids@[i as int]@);
                if text::equal(&ids[i], x) {
                    assert(f(all[i as int]));
                    return i;
                }
                i += 1;
            }
            0
        },
        None => 0,
    }
}

impl IdDropDown {
    /// A list with the line of an id chosen.
    pub fn new(ids: Vec<String>, labels: Vec<String>, active: Option<&str>) -> (r: IdDropDown)
        ensures
            r.ids == ids,
            r.labels == labels,
            r.selected == place(strings::texts(ids@), strings::opt_str(active)),
            r.active() == chosen(strings::texts(ids@), strings::opt_str(active)),
    {
        let selected: usize = place_of(&ids, active);
        IdDropDown { ids, labels, selected }
    }

    /// The id of the line that is chosen.
    pub open spec fn active(self) -> Option<Seq<char>> {
        id_at(strings::texts(self.ids@), self.selected as int)
    }

    /// The id of the line that is chosen.
    pub fn active_id(&self) -> (r: Option<String>)
        ensures
            strings::opt(r) == self.active(),
    {
        if self.selected < self.ids.len() {
            assert(strings::texts(self.ids@)[self.selected as int] == self.ids@[
                self.selected as int
            ]@);
            Some(self.ids[self.selected].clone())
        } else {
            None
        }
    }

    /// Chooses the line of an id, the first where there is none such.
    pub fn set_active_id(&mut self, id: Option<&str>)
        ensures
            final(self).ids == old(self).ids,
            final(self).labels == old(self).labels,
            final(self).selected == place(strings::texts(old(self).ids@), strings::opt_str(id)),
    {
        self.selected = place_of(&self.ids, id);
    }
}

/// A list whose lines show their ids.
pub fn combo(ids: Vec<String>, active: Option<&str>) -> (r: IdDropDown)
    ensures
        r.ids == ids,
        strings::texts(r.labels@) == strings::texts(ids@),
        r.active() == chosen(strings::texts(ids@), strings::opt_str(active)),
{
    let labels = text::copy_list(&ids);
    IdDropDown::new(ids, labels, active)
}

/// Ids with an empty one before them.
pub open spec fn with_default(ids: Seq<Seq<char>>) -> Seq<Seq<char>> {
    seq![""@] + ids
}

/// A list whose first line stands for the backend's own choice and has an empty id.
pub fn combo_default(ids: &Vec<String>, active: Option<&str>) -> (r: IdDropDown)
    ensures
        strings::texts(r.ids@) == with_default(strings::texts(ids@)),
        strings::texts(r.labels@) == seq!["(default)"@] + strings::texts(ids@),
        r.active() == chosen(with_default(strings::texts(ids@)), strings::opt_str(active)),
{
    let mut all = args::list1("");
    args::extend(&mut all, ids);
    let mut labels = args::list1("(default)");
    args::extend(&mut labels, ids);
    IdDropDown::new(all, labels, active)
}

/// An id that is among the ids is the one chosen; where another is asked for, the first is.
pub proof fn law_known_id_is_chosen(ids: Seq<Seq<char>>, id: Seq<char>)
    ensures
        ids.contains(id) ==> chosen(ids, Some(id)) == Some(id),
        !ids.contains(id) && ids.len() > 0 ==> chosen(ids, Some(id)) == Some(ids[0]),
{
    let f = is_text(id);
    scan::lemma_first_where(ids, f);
    if ids.contains(id) {
        let i = choose|i: int| 0 <= i < ids.len() && ids[i] == id;
        assert(f(ids[i]));
    } else if let Some(k) = scan::first_where(ids, f) {
        assert(ids.contains(ids[k]));
    }
}

/// What is chosen from ids that there are is one of them.
pub proof fn law_choice_is_offered(ids: Seq<Seq<char>>, id: Option<Seq<char>>)
    requires
        ids.len() > 0,
    ensures
        chosen(ids, id) matches Some(x) && ids.contains(x),
{
    if let Some(x) = id {
        scan::lemma_first_where(ids, is_text(x));
    }
}

} // verus!
