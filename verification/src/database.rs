//! The catalog of known add-ons.
//!
//! An add-on is known by its name, and the catalog holds each add-on once.

use vstd::prelude::*;

use crate::addon::{Addon, AddonView};
use crate::util::{reversed, same_text};

verus! {

/// The catalog of known add-ons.
#[derive(Debug)]
pub struct Database {
    /// The add-ons, in the order they were listed. No two have the same name.
    pub addons: Vec<Addon>,
}

/// The mathematical value of each add-on.
pub open spec fn addons_view(addons: Seq<Addon>) -> Seq<AddonView> {
    addons.map_values(|addon: Addon| addon@)
}

/// `index` is where the add-on called `name` stands.
pub open spec fn is_named_at(addons: Seq<AddonView>, name: Seq<char>, index: int) -> bool {
    0 <= index < addons.len() && addons[index].name == name
}

/// Some add-on is called `name`.
pub open spec fn has_name(addons: Seq<AddonView>, name: Seq<char>) -> bool {
    exists|i: int| is_named_at(addons, name, i)
}

/// The add-ons without those that repeat the name of an earlier one.
pub open spec fn first_of_each_name(addons: Seq<AddonView>) -> Seq<AddonView>
    decreases addons.len(),
{
    if addons.len() == 0 {
        addons
    } else if has_name(first_of_each_name(addons.drop_last()), addons.last().name) {
        first_of_each_name(addons.drop_last())
    } else {
        first_of_each_name(addons.drop_last()).push(addons.last())
    }
}

/// No name occurs twice.
pub open spec fn distinct_names(addons: Seq<AddonView>) -> bool {
    forall|i: int, j: int| 0 <= i < j < addons.len() ==> addons[i].name != addons[j].name
}

impl Database {
    /// No two add-ons have the same name.
    pub open spec fn well_formed(&self) -> bool {
        distinct_names(addons_view(self.addons@))
    }

    /// Looks an add-on up by its name.
    pub fn find(&self, name: &str) -> (found: Option<&Addon>)
        ensures
            match found {
                Some(addon) => addon@.name == name@ && addons_view(self.addons@).contains(addon@),
                None => !has_name(addons_view(self.addons@), name@),
            },
    {
        let mut index: usize = 0;
        while index < self.addons.len()
            invariant
                0 <= index <= self.addons.len(),
                forall|j: int| 0 <= j < index ==> addons_view(self.addons@)[j].name != name@,
            decreases self.addons.len() - index,
        {
            let addon = &self.addons[index];
            proof {
                assert(addons_view(self.addons@)[index as int] == addon@);
            }
            if same_text(addon.name(), name) {
                return Some(addon);
            }
            index += 1;
        }
        proof {
            assert forall|i: int| !is_named_at(addons_view(self.addons@), name@, i) by {
                if 0 <= i < self.addons@.len() {
                    assert(addons_view(self.addons@)[i].name != name@);
                }
            }
        }
        None
    }

    /// Makes the catalog out of the add-ons that were stored, of which the
    /// first of each name counts.
    pub fn load(stored: Vec<Addon>) -> (database: Database)
        ensures
            database.well_formed(),
            addons_view(database.addons@) == first_of_each_name(addons_view(stored@)),
    {
        let ghost stated = addons_view(stored@);
        let total = stored.len();
        let mut rest = reversed(stored);
        let mut database = Database { addons: Vec::new() };
        let mut done: usize = 0;
        proof {
            assert(stated.take(0) =~= Seq::<AddonView>::empty());
            assert(addons_view(database.addons@) =~= first_of_each_name(stated.take(0)));
        }
        while done < total
            invariant
                0 <= done <= total,
                total == stated.len(),
                rest@.len() == total - done,
                forall|j: int| 0 <= j < rest@.len() ==> (#[trigger] rest@[j])@ == stated[total - 1 - j],
                addons_view(database.addons@) == first_of_each_name(stated.take(done as int)),
                database.well_formed(),
            decreases total - done,
        {
            let addon = rest.pop().unwrap();
            proof {
                assert(stated.take(done + 1).drop_last() =~= stated.take(done as int));
                assert(stated.take(done + 1).last() == addon@);
            }
            let known = database.find(addon.name()).is_some();
            if !known {
                let ghost before = addons_view(database.addons@);
                database.addons.push(addon);
                proof {
                    assert(addons_view(database.addons@) =~= before.push(addon@));
                    assert forall|i: int, j: int|
                        0 <= i < j < before.len() + 1 implies before.push(addon@)[i].name
                        != before.push(addon@)[j].name by {
                        if j == before.len() {
                            assert(!is_named_at(before, addon@.name, i));
                        }
                    }
                }
            } else {
                proof {
                    database.lemma_held_name(addon@.name);
                }
            }
            done += 1;
        }
        proof {
            assert(stated.take(total as int) =~= stated);
        }
        database
    }

    /// Where an add-on of the catalog has the name, some position holds it.
    proof fn lemma_held_name(&self, name: Seq<char>)
        requires
            exists|addon: AddonView|
                addon.name == name && addons_view(self.addons@).contains(addon),
        ensures
            has_name(addons_view(self.addons@), name),
    {
        let addon = choose|addon: AddonView|
            addon.name == name && addons_view(self.addons@).contains(addon);
        let index = choose|i: int|
            0 <= i < addons_view(self.addons@).len() && addons_view(self.addons@)[i] == addon;
        assert(is_named_at(addons_view(self.addons@), name, index));
    }
}

} // verus!
