//! The lamp groups an effect can be limited to, by index.
use vstd::prelude::*;

use std::collections::BTreeMap;
use vstd::std_specs::btree::spec_keys_iter;
use vstd::std_specs::iter::IteratorSpec;

use crate::text::{chars_equal, chars_of};

verus! {

/// A named group of lamps, as the installation's drawing names it.
#[derive(Clone, Debug)]
pub struct Group(pub String);

/// The groups of a scene, by index.
#[derive(Clone, Debug)]
pub struct Groups(pub BTreeMap<usize, Group>);

/// Whether a group of the same name is listed.
pub open spec fn group_listed(existing: Seq<Group>, group: Group) -> bool {
    exists|j: int| 0 <= j < existing.len() && #[trigger] existing[j].0@ == group.0@
}

/// The groups of `groups` whose names are listed in `existing`.
pub open spec fn listed_groups(groups: Map<usize, Group>, existing: Seq<Group>) -> Map<usize, Group> {
    groups.restrict(Set::new(|k: usize| groups.contains_key(k) && group_listed(existing, groups[k])))
}

fn group_in(existing: &Vec<Group>, group: &Group) -> (r: bool)
    ensures
        r == group_listed(existing@, *group),
{
    let name = chars_of(group.0.as_str());
    let mut j: usize = 0;
    while j < existing.len()
        invariant
            j <= existing@.len(),
            name@ == group.0@,
            forall|m: int| 0 <= m < j ==> #[trigger] existing@[m].0@ != group.0@,
        decreases existing@.len() - j,
    {
        let other = chars_of(existing[j].0.as_str());
        if chars_equal(other.as_slice(), name.as_slice()) {
            assert(existing@[j as int].0@ == group.0@);
            return true;
        }
        j = j + 1;
    }
    false
}

impl Groups {
    /// The groups `groups`.
    pub fn new(groups: BTreeMap<usize, Group>) -> (r: Self)
        ensures
            r.0@ == groups@,
    {
        Groups(groups)
    }

    /// The group at `index`, if any.
    pub fn get(&self, index: usize) -> (r: Option<&Group>)
        ensures
            r == (if self.0@.contains_key(index) {
                Some(&self.0@[index])
            } else {
                None
            }),
    {
        self.0.get(&index)
    }

    /// Whether there is no group.
    pub fn is_empty(&self) -> (r: bool)
        ensures
            r == (self.0@.dom().len() == 0),
    {
        self.0.is_empty()
    }

    /// Drop the groups whose names are not among `existing`, the groups the
    /// installation's drawing has.
    pub fn remove_nonexistant_groups(&mut self, existing: &Vec<Group>)
        ensures
            final(self).0@ == listed_groups(old(self).0@, existing@),
    {
        let ghost before = self.0@;
        let keys = self.keys_of();
        let mut i: usize = 0;
        while i < keys.len()
            invariant
                i <= keys@.len(),
                keys@.to_set() == before.dom(),
                keys@.no_duplicates(),
                self.0@ == before.restrict(
                    Set::new(
                        |k: usize|
                            before.contains_key(k) && (!keys@.take(i as int).contains(k)
                                || group_listed(existing@, before[k])),
                    ),
                ),
            decreases keys@.len() - i,
        {
            let key = keys[i];
            proof {
                assert(keys@.contains(key));
                assert(keys@.to_set().contains(key));
                assert(!keys@.take(i as int).contains(key)) by {
                    if keys@.take(i as int).contains(key) {
                        let m = choose|m: int| 0 <= m < i && keys@.take(i as int)[m] == key;
                        assert(keys@[m] == keys@[i as int]);
                    }
                }
            }
            let ghost prev = self.0@;
            proof {
                assert(prev.contains_key(key));
                assert(prev[key] == before[key]);
            }
            let keep = match self.0.get(&key) {
                Some(group) => group_in(existing, group),
                None => true,
            };
            assert(keep == group_listed(existing@, before[key]));
            if !keep {
                let _ = self.0.remove(&key);
                assert(self.0@ == prev.remove(key));
            }
            proof {
                let t0 = keys@.take(i as int);
                let t1 = keys@.take(i as int + 1);
                assert(t1 =~= t0.push(key));
                assert forall|k: usize| #[trigger] t1.contains(k) <==> (t0.contains(k) || k == key) by {
                    if t1.contains(k) && k != key {
                        let m = choose|m: int| 0 <= m < t1.len() && t1[m] == k;
                        assert(t0[m] == k);
                    }
                    if t0.contains(k) {
                        let m = choose|m: int| 0 <= m < t0.len() && t0[m] == k;
                        assert(t1[m] == k);
                    }
                    if k == key {
                        assert(t1[i as int] == k);
                    }
                }
                assert(self.0@ =~= before.restrict(
                    Set::new(
                        |k: usize|
                            before.contains_key(k) && (!keys@.take(i as int + 1).contains(k)
                                || group_listed(existing@, before[k])),
                    ),
                ));
            }
            i = i + 1;
        }
        proof {
            assert(keys@.take(keys@.len() as int) =~= keys@);
            assert(self.0@ =~= listed_groups(before, existing@));
        }
    }

    fn keys_of(&self) -> (r: Vec<usize>)
        ensures
            r@.to_set() == self.0@.dom(),
            r@.no_duplicates(),
    {
        let ghost all = spec_keys_iter(&self.0).remaining();
        let mut out: Vec<usize> = Vec::new();
        for k in it: self.0.keys()
            invariant
                it.seq() == all,
                out@ == all.take(it.index()).map_values(|k: &usize| *k),
        {
            out.push(*k);
            proof {
                assert(out@ =~= all.take(it.index() + 1).map_values(|k: &usize| *k));
            }
        }
        proof {
            assert(out@ =~= all.map_values(|k: &usize| *k));
            assert(all.unref() =~= all.map_values(|k: &usize| *k));
        }
        out
    }
}

/// The position of the first group named like `group`, or 0 when none is.
pub open spec fn group_position(groups: Seq<Group>, group: Group) -> int
    decreases groups.len(),
{
    if groups.len() == 0 {
        0
    } else if groups[0].0@ == group.0@ {
        0
    } else if group_listed(groups.drop_first(), group) {
        1 + group_position(groups.drop_first(), group)
    } else {
        0
    }
}

/// The colours groups are shown in, by position, as (red, green, blue).
pub open spec fn group_palette(i: int) -> (u8, u8, u8) {
    if i == 0 {
        (175, 213, 129)
    } else if i == 1 {
        (177, 152, 221)
    } else if i == 2 {
        (140, 181, 255)
    } else if i == 3 {
        (217, 176, 140)
    } else if i == 4 {
        (217, 148, 140)
    } else if i == 5 {
        (113, 208, 132)
    } else if i == 6 {
        (213, 129, 192)
    } else if i == 7 {
        (163, 218, 224)
    } else if i == 8 {
        (222, 233, 190)
    } else {
        (255, 255, 255)
    }
}

fn palette_entry(i: usize) -> (r: (u8, u8, u8))
    requires
        i < 10,
    ensures
        r == group_palette(i as int),
{
    if i == 0 {
        (175, 213, 129)
    } else if i == 1 {
        (177, 152, 221)
    } else if i == 2 {
        (140, 181, 255)
    } else if i == 3 {
        (217, 176, 140)
    } else if i == 4 {
        (217, 148, 140)
    } else if i == 5 {
        (113, 208, 132)
    } else if i == 6 {
        (213, 129, 192)
    } else if i == 7 {
        (163, 218, 224)
    } else if i == 8 {
        (222, 233, 190)
    } else {
        (255, 255, 255)
    }
}

proof fn lemma_group_position_found(groups: Seq<Group>, group: Group, i: int)
    requires
        0 <= i < groups.len(),
        groups[i].0@ == group.0@,
        forall|j: int| 0 <= j < i ==> groups[j].0@ != group.0@,
    ensures
        group_position(groups, group) == i,
    decreases i,
{
    if i > 0 {
        let t = groups.drop_first();
        assert(t[i - 1] == groups[i]);
        assert(group_listed(t, group));
        assert forall|j: int| 0 <= j < i - 1 implies t[j].0@ != group.0@ by {
            assert(t[j] == groups[j + 1]);
        }
        lemma_group_position_found(t, group, i - 1);
    }
}

proof fn lemma_group_position_absent(groups: Seq<Group>, group: Group)
    requires
        forall|j: int| 0 <= j < groups.len() ==> groups[j].0@ != group.0@,
    ensures
        group_position(groups, group) == 0,
{
    if groups.len() > 0 {
        assert(!group_listed(groups.drop_first(), group)) by {
            if group_listed(groups.drop_first(), group) {
                let j = choose|j: int|
                    0 <= j < groups.drop_first().len() && #[trigger] groups.drop_first()[j].0@ == group.0@;
                assert(groups[j + 1] == groups.drop_first()[j]);
            }
        }
    }
}

/// The colour a group is shown in: by the position of its name among the
/// groups of the drawing (the first when it is not among them), cycling
/// through ten colours.
pub fn group_color(groups: &Vec<Group>, group: &Group) -> (r: (u8, u8, u8))
    ensures
        r == group_palette(group_position(groups@, *group) % 10),
{
    let name = chars_of(group.0.as_str());
    let mut i: usize = 0;
    while i < groups.len()
        invariant
            i <= groups@.len(),
            name@ == group.0@,
            forall|j: int| 0 <= j < i ==> groups@[j].0@ != group.0@,
        decreases groups@.len() - i,
    {
        let other = chars_of(groups[i].0.as_str());
        if chars_equal(other.as_slice(), name.as_slice()) {
            proof {
                lemma_group_position_found(groups@, *group, i as int);
            }
            return palette_entry(i % 10);
        }
        i = i + 1;
    }
    proof {
        lemma_group_position_absent(groups@, *group);
    }
    palette_entry(0)
}

} // verus!
