//! A location node in the world graph: its description, its outgoing paths,
//! the unclaimed items lying in it, and its local triggers.

use vstd::prelude::*;
use crate::item::Item;
use crate::kv::{kv_map, kv_unique, kv_get};
use crate::path::Path;
use crate::strutil::str_eq;
use crate::trigger::Trigger;

verus! {

/// Filtering with a predicate that holds of every element keeps the
/// sequence as it is.
proof fn lemma_filter_keeps_all(s: Seq<Seq<char>>, pred: spec_fn(Seq<char>) -> bool)
    requires
        forall|i: int| 0 <= i < s.len() ==> pred(#[trigger] s[i]),
    ensures
        s.filter(pred) == s,
    decreases s.len(),
{
    reveal(Seq::filter);
    if s.len() == 0 {
        assert(s.filter(pred) =~= s);
    } else {
        lemma_filter_keeps_all(s.drop_last(), pred);
        assert(s.drop_last().filter(pred).push(s.last()) =~= s);
    }
}

#[derive(Clone, Debug)]
pub struct Stage {
    /// Shown on entry and on every prompt iteration.
    pub description: String,
    pub paths: Vec<(String, Path)>,
    /// Unclaimed objects present in the location, in display order.
    pub items: Vec<String>,
    pub triggers: Vec<(String, Trigger)>,
}

impl Stage {
    /// Path and trigger names are unique: the lists denote maps.
    pub open spec fn wf(&self) -> bool {
        kv_unique(self.paths@) && kv_unique(self.triggers@)
    }

    pub open spec fn paths_map(&self) -> Map<Seq<char>, Path> {
        kv_map(self.paths@)
    }

    pub open spec fn triggers_map(&self) -> Map<Seq<char>, Trigger> {
        kv_map(self.triggers@)
    }

    /// The stage's item list rendered for the player, or nothing if the
    /// stage holds no items.
    pub fn search(&self) -> (r: Option<String>)
        ensures
            match r {
                Some(t) => self.items@.len() > 0 && t@ == crate::item::items_text(self.items.deep_view()),
                None => self.items@.len() == 0,
            },
    {
        Item::items_to_text(&self.items)
    }

    /// Remove and return every item in the stage; nothing if it holds none.
    pub fn take_all(&mut self) -> (r: Option<Vec<String>>)
        ensures
            final(self).description == old(self).description,
            final(self).paths == old(self).paths,
            final(self).triggers == old(self).triggers,
            match r {
                Some(v) => old(self).items@.len() > 0 && v@ == old(self).items@
                    && final(self).items@.len() == 0,
                None => old(self).items@.len() == 0 && final(self).items == old(self).items,
            },
    {
        if self.items.len() > 0 {
            let items_cpy = self.items.clone();
            self.items.clear();
            proof {
                assert forall|i: int| 0 <= i < items_cpy@.len()
                    implies items_cpy@[i] == old(self).items@[i] by {}
                assert(items_cpy@ =~= old(self).items@);
            }
            Some(items_cpy)
        } else {
            None
        }
    }

    /// Remove every occurrence of `item_name` from the stage's items,
    /// returning the name back if it was present.
    pub fn take(&mut self, item_name: String) -> (r: Option<String>)
        ensures
            final(self).description == old(self).description,
            final(self).paths == old(self).paths,
            final(self).triggers == old(self).triggers,
            final(self).items.deep_view() == old(self).items.deep_view().filter(
                |w: Seq<char>| w != item_name@,
            ),
            match r {
                Some(n) => old(self).items.deep_view().contains(item_name@) && n == item_name,
                None => !old(self).items.deep_view().contains(item_name@)
                    && final(self).items == old(self).items,
            },
    {
        let ghost pred = |w: Seq<char>| w != item_name@;
        let mut found = false;
        let mut kept: Vec<String> = Vec::new();
        let mut i: usize = 0;
        proof {
            reveal(Seq::filter);
            assert(old(self).items.deep_view().take(0) =~= Seq::<Seq<char>>::empty());
            assert(kept.deep_view() =~= Seq::<Seq<char>>::empty());
        }
        while i < self.items.len()
            invariant
                pred == (|w: Seq<char>| w != item_name@),
                self.items == old(self).items,
                0 <= i <= self.items@.len(),
                kept.deep_view() == old(self).items.deep_view().take(i as int).filter(pred),
                found <==> exists|j: int| 0 <= j < i && (#[trigger] self.items.deep_view()[j]) == item_name@,
            decreases self.items@.len() - i,
        {
            let ghost pre = kept.deep_view();
            let ghost prev_vec = kept@;
            let ghost taken = self.items.deep_view().take(i as int);
            let ghost elem = self.items.deep_view()[i as int];
            proof {
                assert(self.items.deep_view().take(i + 1) =~= taken.push(elem));
                taken.lemma_filter_push(elem, pred);
            }
            if str_eq(self.items[i].as_str(), item_name.as_str()) {
                found = true;
                proof {
                    assert(!pred(elem));
                }
            } else {
                let entry = self.items[i].clone();
                proof {
                    assert(entry@ == elem);
                    assert(pred(elem));
                }
                kept.push(entry);
                proof {
                    crate::strutil::lemma_deep_view_push(kept, prev_vec, pre, elem);
                }
            }
            i += 1;
        }
        proof {
            assert(self.items.deep_view().take(self.items@.len() as int) =~= self.items.deep_view());
        }
        if found {
            self.items = kept;
            Some(item_name)
        } else {
            proof {
                lemma_filter_keeps_all(self.items.deep_view(), pred);
            }
            None
        }
    }

    /// Look a path up by name in this stage.
    pub fn get_path(&self, path_ident: &String) -> (r: Option<&Path>)
        requires
            self.wf(),
        ensures
            match r {
                Some(p) => self.paths_map().contains_key(path_ident@)
                    && *p == self.paths_map()[path_ident@],
                None => !self.paths_map().contains_key(path_ident@),
            },
    {
        kv_get(&self.paths, path_ident.as_str())
    }
}

} // verus!
