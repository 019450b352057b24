//! The world state machine and the session rules: stages, paths, locks and
//! hides, world flags, triggers, and the verbs that read and mutate them.

use vstd::prelude::*;
use crate::input::Input;
use crate::item::{Item, get_article, spec_article, items_text};
use crate::kv::{kv_map, kv_unique, kv_get, kv_find, kv_unique_check, lemma_kv_contains, lemma_kv_index, lemma_kv_update};
use crate::path::Path;
use crate::stage::Stage;
use crate::strutil::str_eq;
use crate::trigger::{TriggerAction, apply_action};

verus! {

/// The save slot used when the document names none.
pub fn default_savename() -> (r: String)
    ensures
        r@ == "default"@,
{
    String::from_str("default")
}

/// Why a path refused traversal. The hidden check precedes the locked check.
#[derive(Clone, Copy, PartialEq, Eq, Debug, Structural)]
pub enum TraversalErrorKind {
    Locked,
    Hidden,
}

/// What the session must do after an intent is applied: carry on, leave the
/// process, or perform the world's save or load against its save slot.
#[derive(Clone, Copy, PartialEq, Eq, Debug, Structural)]
pub enum Effect {
    Proceed,
    Exit,
    Save,
    Load,
}

/// No two of the names are equal.
pub open spec fn distinct_names(s: Seq<Seq<char>>) -> bool {
    forall|i: int, j: int| 0 <= i < j < s.len() ==> s[i] != s[j]
}

/// A new name not yet present keeps a list of names distinct.
proof fn lemma_distinct_push(s: Seq<Seq<char>>, x: Seq<char>)
    requires
        distinct_names(s),
        !s.contains(x),
    ensures
        distinct_names(s.push(x)),
{
    assert forall|p: int, q: int| 0 <= p < q < s.push(x).len()
        implies s.push(x)[p] != s.push(x)[q] by {
        if q == s.len() {
            assert(s.contains(s[p])) by {
                assert(s[p] == s[p]);
            }
        }
    }
}

/// Filtering keeps names distinct.
proof fn lemma_filter_distinct(s: Seq<Seq<char>>, pred: spec_fn(Seq<char>) -> bool)
    requires
        distinct_names(s),
    ensures
        distinct_names(s.filter(pred)),
    decreases s.len(),
{
    reveal(Seq::filter);
    if s.len() > 0 {
        assert(distinct_names(s.drop_last())) by {
            assert(forall|i: int| 0 <= i < s.len() - 1 ==> s.drop_last()[i] == s[i]);
        }
        lemma_filter_distinct(s.drop_last(), pred);
        if pred(s.last()) {
            let f = s.drop_last().filter(pred);
            if f.contains(s.last()) {
                s.drop_last().lemma_filter_contains_rev(pred, s.last());
                let i = choose|i: int| 0 <= i < s.drop_last().len() && s.drop_last()[i] == s.last();
                assert(s[i] == s[s.len() - 1]);
                assert(false);
            }
            assert forall|i: int, j: int| 0 <= i < j < f.push(s.last()).len()
                implies f.push(s.last())[i] != f.push(s.last())[j] by {
                if j < f.len() {
                } else {
                    assert(f.contains(f[i])) by {
                        assert(f[i] == f[i]);
                    }
                }
            }
        }
    }
}

/// Whether a name occurs in a list of names.
fn contains_name(v: &Vec<String>, x: &str) -> (r: bool)
    ensures
        r == v.deep_view().contains(x@),
{
    let mut i: usize = 0;
    while i < v.len()
        invariant
            0 <= i <= v@.len(),
            forall|j: int| 0 <= j < i ==> v.deep_view()[j] != x@,
        decreases v@.len() - i,
    {
        if str_eq(v[i].as_str(), x) {
            proof {
                assert(v.deep_view()[i as int] == x@);
            }
            return true;
        }
        i += 1;
    }
    false
}

/// Whether all names in the list are distinct.
fn distinct_names_check(v: &Vec<String>) -> (r: bool)
    ensures
        r == distinct_names(v.deep_view()),
{
    let mut i: usize = 0;
    while i < v.len()
        invariant
            0 <= i <= v@.len(),
            forall|p: int, q: int| 0 <= p < q < i ==> v.deep_view()[p] != v.deep_view()[q],
        decreases v@.len() - i,
    {
        let mut j: usize = 0;
        while j < i
            invariant
                0 <= j <= i < v@.len(),
                forall|p: int, q: int| 0 <= p < q < i ==> v.deep_view()[p] != v.deep_view()[q],
                forall|p: int| 0 <= p < j ==> v.deep_view()[p] != v.deep_view()[i as int],
            decreases i - j,
        {
            if str_eq(v[j].as_str(), v[i].as_str()) {
                proof {
                    assert(v.deep_view()[j as int] == v.deep_view()[i as int]);
                }
                return false;
            }
            j += 1;
        }
        i += 1;
    }
    true
}

/// Remove every occurrence of a name from a list of names.
fn remove_name(v: &mut Vec<String>, name: &str)
    ensures
        final(v).deep_view() == old(v).deep_view().filter(|w: Seq<char>| w != name@),
{
    let ghost pred = |w: Seq<char>| w != name@;
    let mut kept: Vec<String> = Vec::new();
    let mut i: usize = 0;
    proof {
        reveal(Seq::filter);
        assert(old(v).deep_view().take(0) =~= Seq::<Seq<char>>::empty());
        assert(kept.deep_view() =~= Seq::<Seq<char>>::empty());
    }
    while i < v.len()
        invariant
            pred == (|w: Seq<char>| w != name@),
            v == old(v),
            0 <= i <= v@.len(),
            kept.deep_view() == old(v).deep_view().take(i as int).filter(pred),
        decreases v@.len() - i,
    {
        let ghost pre = kept.deep_view();
        let ghost prev_vec = kept@;
        let ghost taken = v.deep_view().take(i as int);
        let ghost elem = v.deep_view()[i as int];
        proof {
            assert(v.deep_view().take(i + 1) =~= taken.push(elem));
            taken.lemma_filter_push(elem, pred);
        }
        if !str_eq(v[i].as_str(), name) {
            let entry = v[i].clone();
            proof {
                assert(entry@ == elem);
                assert(pred(elem));
            }
            kept.push(entry);
            proof {
                crate::strutil::lemma_deep_view_push(kept, prev_vec, pre, elem);
            }
        } else {
            proof {
                assert(!pred(elem));
            }
        }
        i += 1;
    }
    proof {
        assert(v.deep_view().take(v@.len() as int) =~= v.deep_view());
    }
    *v = kept;
}

/// Whether a path is hidden: it names a flag under `hidden_unless` and that
/// flag is not in the world's flag set.
pub open spec fn path_hidden(flags: Set<Seq<char>>, p: Path) -> bool {
    match p.hidden_unless {
        Some(f) => !flags.contains(f@),
        None => false,
    }
}

/// Whether a path is locked: it names an item under `locked_by` and the
/// player does not carry it.
pub open spec fn path_locked(inv: Seq<Seq<char>>, p: Path) -> bool {
    match p.locked_by {
        Some(i) => !inv.contains(i@),
        None => false,
    }
}

/// The traversal verdict for a path: hidden first, then locked, else the
/// destination. A path with neither constraint is always traversable.
pub open spec fn spec_traverse(flags: Set<Seq<char>>, inv: Seq<Seq<char>>, p: Path) -> Result<
    Seq<char>,
    TraversalErrorKind,
> {
    if path_hidden(flags, p) {
        Err(TraversalErrorKind::Hidden)
    } else if path_locked(inv, p) {
        Err(TraversalErrorKind::Locked)
    } else {
        Ok(p.destination@)
    }
}

/// A path with both constraints unmet reports Hidden, never Locked: the
/// hidden check precedes the locked check.
pub proof fn lemma_hidden_before_locked(flags: Set<Seq<char>>, inv: Seq<Seq<char>>, p: Path)
    requires
        path_hidden(flags, p),
        path_locked(inv, p),
    ensures
        spec_traverse(flags, inv, p) == Err::<Seq<char>, TraversalErrorKind>(TraversalErrorKind::Hidden),
{
}

/// The flag set after entering a stage: its reserved "on enter" trigger
/// fires if it has one.
pub open spec fn enter_flags(stage: Stage, flags: Set<Seq<char>>) -> Set<Seq<char>> {
    if stage.triggers_map().contains_key("on enter"@) {
        let t = stage.triggers_map()["on enter"@];
        apply_action(flags, t.action, t.flag@)
    } else {
        flags
    }
}

/// The whole world: the entity graph, the flag store, the player's
/// inventory, where the player stands, and the remembered save slot.
pub struct Game {
    name: String,
    description: String,
    inventory: Vec<(String, Item)>,
    player_inventory: Vec<String>,
    stages: Vec<(String, Stage)>,
    flags: Vec<String>,
    current_stage: String,
    savename: String,
}

/// Validity of a world: catalog keys, stage keys, flags and carried items
/// are distinct; every stage's own tables are well formed; the current stage
/// and every path destination name an existing stage.
pub open spec fn world_ok(
    inventory: Seq<(String, Item)>,
    player_inventory: Seq<Seq<char>>,
    stages: Seq<(String, Stage)>,
    flags: Seq<Seq<char>>,
    current_stage: Seq<char>,
) -> bool {
    &&& kv_unique(stages)
    &&& kv_unique(inventory)
    &&& distinct_names(flags)
    &&& distinct_names(player_inventory)
    &&& forall|i: int| 0 <= i < stages.len() ==> (#[trigger] stages[i]).1.wf()
    &&& kv_map(stages).contains_key(current_stage)
    &&& forall|i: int, j: int|
        0 <= i < stages.len() && 0 <= j < stages[i].1.paths@.len()
            ==> kv_map(stages).contains_key((#[trigger] stages[i].1.paths@[j]).1.destination@)
}

impl Game {
    pub closed spec fn spec_name(&self) -> Seq<char> {
        self.name@
    }

    pub closed spec fn spec_description(&self) -> Seq<char> {
        self.description@
    }

    /// The catalog of describable things, as a map.
    pub closed spec fn inventory_map(&self) -> Map<Seq<char>, Item> {
        kv_map(self.inventory@)
    }

    /// The names the player carries, in display order.
    pub closed spec fn player_inv(&self) -> Seq<Seq<char>> {
        self.player_inventory.deep_view()
    }

    /// The world's stages, as a map.
    pub closed spec fn stages_map(&self) -> Map<Seq<char>, Stage> {
        kv_map(self.stages@)
    }

    /// The world-wide flag store.
    pub closed spec fn flags_set(&self) -> Set<Seq<char>> {
        self.flags.deep_view().to_set()
    }

    /// The name of the stage the player stands in.
    pub closed spec fn cur(&self) -> Seq<char> {
        self.current_stage@
    }

    pub closed spec fn spec_savename(&self) -> Seq<char> {
        self.savename@
    }

    /// The stage the player stands in.
    pub open spec fn cur_stage(&self) -> Stage {
        self.stages_map()[self.cur()]
    }

    /// The world's structural invariant; constructors establish it and every
    /// verb preserves it.
    pub closed spec fn wf(&self) -> bool {
        world_ok(
            self.inventory@,
            self.player_inventory.deep_view(),
            self.stages@,
            self.flags.deep_view(),
            self.current_stage@,
        )
    }

    /// A well-formed world never carries duplicate entries in the player's
    /// inventory; every verb preserves well-formedness, so no take sequence
    /// can duplicate an entry.
    pub proof fn lemma_player_inventory_distinct(&self)
        requires
            self.wf(),
        ensures
            distinct_names(self.player_inv()),
    {
    }

    /// The stage at a key of the stage map is well formed, and all its paths
    /// lead to existing stages.
    pub proof fn lemma_stage_at_key(&self, key: Seq<char>)
        requires
            self.wf(),
            self.stages_map().contains_key(key),
        ensures
            self.stages_map()[key].wf(),
            forall|pk: Seq<char>| #[trigger] self.stages_map()[key].paths_map().contains_key(pk)
                ==> self.stages_map().contains_key(
                    self.stages_map()[key].paths_map()[pk].destination@,
                ),
    {
        lemma_kv_contains(self.stages@, key);
        let i = choose|i: int| 0 <= i < self.stages@.len() && (#[trigger] self.stages@[i]).0@ == key;
        lemma_kv_index(self.stages@, i);
        let st = self.stages@[i].1;
        assert forall|pk: Seq<char>| #[trigger] st.paths_map().contains_key(pk)
            implies self.stages_map().contains_key(st.paths_map()[pk].destination@) by {
            lemma_kv_contains(st.paths@, pk);
            let j = choose|j: int| 0 <= j < st.paths@.len() && (#[trigger] st.paths@[j]).0@ == pk;
            lemma_kv_index(st.paths@, j);
        }
    }

    /// The stage the player stands in, by reference.
    pub fn current_stage(&self) -> (r: &Stage)
        requires
            self.wf(),
        ensures
            *r == self.cur_stage(),
    {
        match kv_get(&self.stages, self.current_stage.as_str()) {
            Some(s) => s,
            None => vstd::pervasive::unreached(),
        }
    }

    /// Whether a flag is set.
    pub fn is_flag_set(&self, flag_name: &String) -> (r: bool)
        ensures
            r == self.flags_set().contains(flag_name@),
    {
        let r = contains_name(&self.flags, flag_name.as_str());
        proof {
            if self.flags.deep_view().contains(flag_name@) {
                assert(self.flags_set().contains(flag_name@));
            } else {
                assert(!self.flags_set().contains(flag_name@));
            }
        }
        r
    }

    /// Insert a flag into the flag store.
    pub fn set_flag(&mut self, flag_name: &String)
        requires
            old(self).wf(),
        ensures
            final(self).wf(),
            same_but_flags(*old(self), *final(self)),
            final(self).flags_set() == old(self).flags_set().insert(flag_name@),
    {
        if !self.is_flag_set(flag_name) {
            let ghost prev = self.flags.deep_view();
            let ghost prev_vec = self.flags@;
            let entry = flag_name.clone();
            proof {
                assert(entry@ == flag_name@);
            }
            self.flags.push(entry);
            proof {
                crate::strutil::lemma_deep_view_push(self.flags, prev_vec, prev, flag_name@);
                assert(prev.push(flag_name@) =~= prev + seq![flag_name@]);
                Seq::lemma_to_set_insert_commutes(prev, flag_name@);
                assert(final(self).flags_set() =~= old(self).flags_set().insert(flag_name@));
                lemma_distinct_push(prev, flag_name@);
            }
        } else {
            proof {
                assert(old(self).flags_set().insert(flag_name@) =~= old(self).flags_set());
            }
        }
    }

    /// Remove a flag from the flag store.
    pub fn unset_flag(&mut self, flag_name: &String)
        requires
            old(self).wf(),
        ensures
            final(self).wf(),
            same_but_flags(*old(self), *final(self)),
            final(self).flags_set() == old(self).flags_set().remove(flag_name@),
    {
        let ghost prev = self.flags.deep_view();
        let ghost pred = |w: Seq<char>| w != flag_name@;
        remove_name(&mut self.flags, flag_name.as_str());
        proof {
            let filtered = prev.filter(pred);
            lemma_filter_distinct(prev, pred);
            assert forall|y: Seq<char>| #[trigger] filtered.to_set().contains(y)
                implies prev.to_set().remove(flag_name@).contains(y) by {
                prev.lemma_filter_contains_rev(pred, y);
            }
            assert forall|y: Seq<char>| #[trigger] prev.to_set().remove(flag_name@).contains(y)
                implies filtered.to_set().contains(y) by {
                let i = choose|i: int| 0 <= i < prev.len() && prev[i] == y;
                prev.lemma_filter_contains(pred, i);
            }
            assert(filtered.to_set() =~= prev.to_set().remove(flag_name@));
        }
    }

    /// Flip a flag's membership in the flag store.
    pub fn toggle_flag(&mut self, flag_name: &String)
        requires
            old(self).wf(),
        ensures
            final(self).wf(),
            same_but_flags(*old(self), *final(self)),
            final(self).flags_set() == apply_action(
                old(self).flags_set(),
                TriggerAction::Toggle,
                flag_name@,
            ),
    {
        if self.is_flag_set(flag_name) {
            self.unset_flag(flag_name);
        } else {
            self.set_flag(flag_name);
        }
    }

    /// Whether a path out of the current world state is hidden.
    pub fn is_path_hidden(&self, path: &Path) -> (r: bool)
        ensures
            r == path_hidden(self.flags_set(), *path),
    {
        match &path.hidden_unless {
            Some(flag) => !self.is_flag_set(flag),
            None => false,
        }
    }

    /// Whether a path is locked against the player's inventory.
    pub fn is_path_locked(&self, path: &Path) -> (r: bool)
        ensures
            r == path_locked(self.player_inv(), *path),
    {
        match &path.locked_by {
            Some(locking_item_name) => !contains_name(&self.player_inventory, locking_item_name.as_str()),
            None => false,
        }
    }

    /// The traversal verdict for a path: hidden first, then locked, else the
    /// destination stage's name.
    pub fn is_path_traversable(&self, path: &Path) -> (r: Result<String, TraversalErrorKind>)
        ensures
            ({
                let v = spec_traverse(self.flags_set(), self.player_inv(), *path);
                match r {
                    Ok(d) => v == Ok::<Seq<char>, TraversalErrorKind>(d@),
                    Err(k) => v == Err::<Seq<char>, TraversalErrorKind>(k),
                }
            }),
    {
        if self.is_path_hidden(path) {
            Err(TraversalErrorKind::Hidden)
        } else if self.is_path_locked(path) {
            Err(TraversalErrorKind::Locked)
        } else {
            Ok(path.destination.clone())
        }
    }
}

/// The two worlds agree on everything but the flag store and the player's
/// position.
pub open spec fn same_world_core(a: Game, b: Game) -> bool {
    &&& b.spec_name() == a.spec_name()
    &&& b.spec_description() == a.spec_description()
    &&& b.inventory_map() == a.inventory_map()
    &&& b.player_inv() == a.player_inv()
    &&& b.stages_map() == a.stages_map()
    &&& b.spec_savename() == a.spec_savename()
}

/// The two worlds agree on everything but the flag store.
pub open spec fn same_but_flags(a: Game, b: Game) -> bool {
    same_world_core(a, b) && b.cur() == a.cur()
}

pub open spec fn msg_dont_understand(name: Seq<char>) -> Seq<char> {
    "Didn't understand \""@ + name + "\""@
}

/// What a hidden path tells the player: its own text, or the generic
/// fallback. The fallback is deliberately the same one locked paths use.
pub open spec fn hidden_message(p: Path) -> Seq<char> {
    match p.hidden_text {
        Some(t) => t@,
        None => "Locked!"@,
    }
}

/// What a locked path tells the player: its own text, or the generic
/// fallback.
pub open spec fn locked_message(p: Path) -> Seq<char> {
    match p.locked_text {
        Some(t) => t@,
        None => "Locked!"@,
    }
}

/// The outcome of the Go verb: an unknown path name is player feedback and
/// changes nothing; a hidden or locked path reports its message and changes
/// nothing; a traversable path moves the player and fires the destination's
/// "on enter" trigger, with no text of its own.
pub open spec fn go_dir_post(pre: Game, post: Game, name: Seq<char>, out: Seq<char>) -> bool {
    let st = pre.cur_stage();
    if !st.paths_map().contains_key(name) {
        post == pre && out == msg_dont_understand(name)
    } else {
        let p = st.paths_map()[name];
        if path_hidden(pre.flags_set(), p) {
            post == pre && out == hidden_message(p)
        } else if path_locked(pre.player_inv(), p) {
            post == pre && out == locked_message(p)
        } else {
            &&& same_world_core(pre, post)
            &&& post.cur() == p.destination@
            &&& post.flags_set() == enter_flags(pre.stages_map()[p.destination@], pre.flags_set())
            &&& out == Seq::<char>::empty()
        }
    }
}

/// The outcome of the Look verb: a path's detailed description takes
/// priority, then a catalog item's description, then generic feedback.
pub open spec fn look_post(g: Game, name: Seq<char>, out: Seq<char>) -> bool {
    let st = g.cur_stage();
    if st.paths_map().contains_key(name) {
        out == "\n"@ + st.paths_map()[name].detailed_description@
    } else if g.inventory_map().contains_key(name) {
        out == "\n"@ + g.inventory_map()[name].description@
    } else {
        out == "\nYou look around, but see no \""@ + name + "\"."@
    }
}

/// The stage items the player does not already carry.
pub open spec fn found_items(g: Game) -> Seq<Seq<char>> {
    g.cur_stage().items.deep_view().filter(|w: Seq<char>| !g.player_inv().contains(w))
}

/// The outcome of the Search verb.
pub open spec fn search_post(g: Game, out: Seq<char>) -> bool {
    if found_items(g).len() == 0 {
        out == "\nYou search the area, but find nothing."@
    } else {
        out == "\nYou found "@ + items_text(found_items(g))
    }
}

impl Game {
    /// Fire the named trigger of the current stage if it has one, mutating
    /// its flag; report whether one was found.
    pub fn run_trigger(&mut self, trigger_name: &str) -> (found: bool)
        requires
            old(self).wf(),
        ensures
            final(self).wf(),
            same_but_flags(*old(self), *final(self)),
            ({
                let st = old(self).cur_stage();
                if st.triggers_map().contains_key(trigger_name@) {
                    found && final(self).flags_set() == apply_action(
                        old(self).flags_set(),
                        st.triggers_map()[trigger_name@].action,
                        st.triggers_map()[trigger_name@].flag@,
                    )
                } else {
                    !found && *final(self) == *old(self)
                }
            }),
    {
        proof {
            self.lemma_stage_at_key(self.cur());
        }
        let trig: Option<(String, TriggerAction)> = {
            let st = self.current_stage();
            match kv_get(&st.triggers, trigger_name) {
                Some(t) => Some((t.flag.clone(), t.action)),
                None => None,
            }
        };
        match trig {
            Some((flag, action)) => {
                match action {
                    TriggerAction::Toggle => self.toggle_flag(&flag),
                    TriggerAction::SetFlag => self.set_flag(&flag),
                }
                true
            },
            None => false,
        }
    }

    /// Put the player in the named stage, then fire its reserved "on enter"
    /// trigger if it has one.
    pub fn move_to_stage(&mut self, stage_name: String)
        requires
            old(self).wf(),
            old(self).stages_map().contains_key(stage_name@),
        ensures
            final(self).wf(),
            same_world_core(*old(self), *final(self)),
            final(self).cur() == stage_name@,
            final(self).flags_set() == enter_flags(
                old(self).stages_map()[stage_name@],
                old(self).flags_set(),
            ),
    {
        self.current_stage = stage_name;
        let _found = self.run_trigger("on enter");
    }

    /// The Go verb.
    pub fn go_dir(&mut self, path_name: String) -> (out: String)
        requires
            old(self).wf(),
        ensures
            final(self).wf(),
            go_dir_post(*old(self), *final(self), path_name@, out@),
    {
        proof {
            self.lemma_stage_at_key(self.cur());
        }
        let verdict: Option<(Result<String, TraversalErrorKind>, Option<String>, Option<String>)> = {
            let st = self.current_stage();
            match st.get_path(&path_name) {
                Some(path) => {
                    let ht = match &path.hidden_text {
                        Some(t) => Some(t.clone()),
                        None => None,
                    };
                    let lt = match &path.locked_text {
                        Some(t) => Some(t.clone()),
                        None => None,
                    };
                    Some((self.is_path_traversable(path), ht, lt))
                },
                None => None,
            }
        };
        match verdict {
            None => {
                let mut s = String::from_str("Didn't understand \"");
                s.append(path_name.as_str());
                s.append("\"");
                s
            },
            Some((Ok(destination), _, _)) => {
                self.move_to_stage(destination);
                String::new()
            },
            Some((Err(kind), ht, lt)) => {
                match kind {
                    TraversalErrorKind::Hidden => match ht {
                        Some(t) => t,
                        None => String::from_str("Locked!"),
                    },
                    TraversalErrorKind::Locked => match lt {
                        Some(t) => t,
                        None => String::from_str("Locked!"),
                    },
                }
            },
        }
    }

    /// The Look verb.
    pub fn look(&self, thing_name: String) -> (out: String)
        requires
            self.wf(),
        ensures
            look_post(*self, thing_name@, out@),
    {
        proof {
            self.lemma_stage_at_key(self.cur());
        }
        let st = self.current_stage();
        match st.get_path(&thing_name) {
            Some(path) => {
                let mut s = String::from_str("\n");
                s.append(path.detailed_description.as_str());
                s
            },
            None => {
                match kv_get(&self.inventory, thing_name.as_str()) {
                    Some(item) => {
                        let mut s = String::from_str("\n");
                        s.append(item.description.as_str());
                        s
                    },
                    None => {
                        let mut s = String::from_str("\nYou look around, but see no \"");
                        s.append(thing_name.as_str());
                        s.append("\".");
                        s
                    },
                }
            },
        }
    }

    /// The Search verb: the stage items the player does not already carry,
    /// rendered for the player.
    pub fn search(&self) -> (out: String)
        requires
            self.wf(),
        ensures
            search_post(*self, out@),
    {
        proof {
            self.lemma_stage_at_key(self.cur());
            reveal(Seq::filter);
        }
        let ghost pred = |w: Seq<char>| !self.player_inv().contains(w);
        let st = self.current_stage();
        let mut found: Vec<String> = Vec::new();
        let mut i: usize = 0;
        proof {
            assert(st.items.deep_view().take(0) =~= Seq::<Seq<char>>::empty());
            assert(found.deep_view() =~= Seq::<Seq<char>>::empty());
        }
        while i < st.items.len()
            invariant
                pred == (|w: Seq<char>| !self.player_inv().contains(w)),
                *st == self.cur_stage(),
                self.wf(),
                0 <= i <= st.items@.len(),
                found.deep_view() == st.items.deep_view().take(i as int).filter(pred),
            decreases st.items@.len() - i,
        {
            let ghost pre = found.deep_view();
            let ghost prev_vec = found@;
            let ghost taken = st.items.deep_view().take(i as int);
            let ghost elem = st.items.deep_view()[i as int];
            proof {
                assert(st.items.deep_view().take(i + 1) =~= taken.push(elem));
                taken.lemma_filter_push(elem, pred);
            }
            if !contains_name(&self.player_inventory, st.items[i].as_str()) {
                let entry = st.items[i].clone();
                proof {
                    assert(entry@ == elem);
                    assert(pred(elem));
                }
                found.push(entry);
                proof {
                    crate::strutil::lemma_deep_view_push(found, prev_vec, pre, elem);
                }
            } else {
                proof {
                    assert(!pred(elem));
                }
            }
            i += 1;
        }
        proof {
            assert(st.items.deep_view().take(st.items@.len() as int) =~= st.items.deep_view());
        }
        match Item::items_to_text(&found) {
            Some(txt) => {
                let mut s = String::from_str("\nYou found ");
                s.append(txt.as_str());
                s
            },
            None => String::from_str("\nYou search the area, but find nothing."),
        }
    }
}

pub open spec fn msg_no_take(thing: Seq<char>) -> Seq<char> {
    "\nYou look around, but there's no "@ + thing + " to take."@
}

/// The distinct message for an item whose name is still in the stage but
/// which the player already carries.
pub open spec fn msg_already_took(thing: Seq<char>) -> Seq<char> {
    "\nYou look around, but there's no "@ + thing
        + " to take. You panic, you know you saw "@ + spec_article(thing) + " "@ + thing
        + " here a minute ago! Your panic subsides as you remember: you already took it."@
}

pub open spec fn msg_take_one(thing: Seq<char>) -> Seq<char> {
    "\nYou take the "@ + thing + "."@
}

pub open spec fn msg_take_all(items: Seq<Seq<char>>) -> Seq<char> {
    "\nYou take "@ + items_text(items) + "."@
}

/// The player inventory after appending, in order, each item name it does
/// not already hold: taking never duplicates an entry.
pub open spec fn add_new(inv: Seq<Seq<char>>, items: Seq<Seq<char>>) -> Seq<Seq<char>>
    decreases items.len(),
{
    if items.len() == 0 {
        inv
    } else {
        add_new(
            if inv.contains(items[0]) {
                inv
            } else {
                inv.push(items[0])
            },
            items.skip(1),
        )
    }
}

/// Only the current stage's item list changed, to `items_view`; its other
/// fields and every other stage are as before.
pub open spec fn stage_items_updated(pre: Game, post: Game, items_view: Seq<Seq<char>>) -> bool {
    &&& post.cur() == pre.cur()
    &&& post.stages_map() == pre.stages_map().insert(pre.cur(), post.cur_stage())
    &&& post.cur_stage().description == pre.cur_stage().description
    &&& post.cur_stage().paths == pre.cur_stage().paths
    &&& post.cur_stage().triggers == pre.cur_stage().triggers
    &&& post.cur_stage().items.deep_view() == items_view
}

/// The outcome of the Take verb. "all" empties the stage into the player's
/// inventory; a single name moves that item; a name the player already
/// carries gives the distinct "already took it" message and changes nothing;
/// a name not present gives the neutral failure and changes nothing.
pub open spec fn take_post(pre: Game, post: Game, thing: Seq<char>, out: Seq<char>) -> bool {
    let st = pre.cur_stage();
    if thing == "all"@ {
        if st.items@.len() == 0 {
            post == pre && out == msg_no_take(thing)
        } else {
            &&& stage_items_updated(pre, post, Seq::<Seq<char>>::empty())
            &&& post.player_inv() == add_new(pre.player_inv(), st.items.deep_view())
            &&& post.flags_set() == pre.flags_set()
            &&& post.inventory_map() == pre.inventory_map()
            &&& post.spec_name() == pre.spec_name()
            &&& post.spec_description() == pre.spec_description()
            &&& post.spec_savename() == pre.spec_savename()
            &&& out == msg_take_all(st.items.deep_view())
        }
    } else {
        if !st.items.deep_view().contains(thing) {
            post == pre && out == msg_no_take(thing)
        } else if pre.player_inv().contains(thing) {
            post == pre && out == msg_already_took(thing)
        } else {
            &&& stage_items_updated(pre, post, st.items.deep_view().filter(|w: Seq<char>| w != thing))
            &&& post.player_inv() == pre.player_inv().push(thing)
            &&& post.flags_set() == pre.flags_set()
            &&& post.inventory_map() == pre.inventory_map()
            &&& post.spec_name() == pre.spec_name()
            &&& post.spec_description() == pre.spec_description()
            &&& post.spec_savename() == pre.spec_savename()
            &&& out == msg_take_one(thing)
        }
    }
}

impl Game {
    /// The index of the current stage in the stage table.
    fn cur_stage_index(&self) -> (idx: usize)
        requires
            self.wf(),
        ensures
            idx < self.stages@.len(),
            self.stages@[idx as int].0@ == self.cur(),
            self.stages@[idx as int].1 == self.cur_stage(),
    {
        match kv_find(&self.stages, self.current_stage.as_str()) {
            Some(i) => i,
            None => vstd::pervasive::unreached(),
        }
    }

    /// The Take verb.
    pub fn take(&mut self, thing: String) -> (out: String)
        requires
            old(self).wf(),
        ensures
            final(self).wf(),
            take_post(*old(self), *final(self), thing@, out@),
    {
        proof {
            self.lemma_stage_at_key(self.cur());
        }
        if str_eq(thing.as_str(), "all") {
            let stage_is_empty = {
                let st = self.current_stage();
                st.items.len() == 0
            };
            if stage_is_empty {
                let mut s = String::from_str("\nYou look around, but there's no ");
                s.append(thing.as_str());
                s.append(" to take.");
                proof {
                    assert(s@ =~= msg_no_take(thing@));
                }
                return s;
            }
            let idx = self.cur_stage_index();
            let taken_opt = self.stages[idx].1.take_all();
            proof {
                lemma_kv_update(old(self).stages@, idx as int, self.stages@[idx as int].1);
                assert(self.stages@ == old(self).stages@.update(
                    idx as int,
                    (old(self).stages@[idx as int].0, self.stages@[idx as int].1),
                ));
            }
            match taken_opt {
                None => vstd::pervasive::unreached(),
                Some(items_vec) => {
                    let ghost items_view = old(self).cur_stage().items.deep_view();
                    let ghost mid = *self;
                    proof {
                        assert(items_vec.deep_view() =~= items_view);
                        assert(self.cur_stage().items.deep_view() =~= Seq::<Seq<char>>::empty());
                        assert(stage_items_updated(*old(self), *self, Seq::<Seq<char>>::empty()));
                        assert(self.wf()) by {
                            assert forall|i: int| 0 <= i < self.stages@.len()
                                implies (#[trigger] self.stages@[i]).1.wf() by {
                                if i != idx {
                                    assert(self.stages@[i] == old(self).stages@[i]);
                                }
                            }
                            assert forall|i: int, j: int|
                                0 <= i < self.stages@.len() && 0 <= j < self.stages@[i].1.paths@.len()
                                implies kv_map(self.stages@).contains_key(
                                    (#[trigger] self.stages@[i].1.paths@[j]).1.destination@,
                                ) by {
                                if i != idx {
                                    assert(self.stages@[i] == old(self).stages@[i]);
                                }
                                assert(kv_map(self.stages@) == kv_map(old(self).stages@).insert(
                                    old(self).cur(),
                                    self.stages@[idx as int].1,
                                ));
                            }
                        }
                    }
                    let mut i: usize = 0;
                    proof {
                        assert(items_view.skip(0) =~= items_view);
                    }
                    while i < items_vec.len()
                        invariant
                            mid.wf(),
                            items_vec.deep_view() == items_view,
                            0 <= i <= items_vec@.len(),
                            self.name == mid.name,
                            self.description == mid.description,
                            self.inventory == mid.inventory,
                            self.stages == mid.stages,
                            self.flags == mid.flags,
                            self.current_stage == mid.current_stage,
                            self.savename == mid.savename,
                            distinct_names(self.player_inventory.deep_view()),
                            add_new(mid.player_inv(), items_view) == add_new(
                                self.player_inventory.deep_view(),
                                items_view.skip(i as int),
                            ),
                        decreases items_vec@.len() - i,
                    {
                        let ghost cur_inv = self.player_inventory.deep_view();
                        let ghost elem = items_view[i as int];
                        proof {
                            assert(items_view.skip(i as int)[0] == elem);
                            assert(items_view.skip(i as int).skip(1) =~= items_view.skip(i + 1));
                        }
                        if !contains_name(&self.player_inventory, items_vec[i].as_str()) {
                            let ghost prev_vec = self.player_inventory@;
                            let entry = items_vec[i].clone();
                            proof {
                                assert(entry@ == elem);
                            }
                            self.player_inventory.push(entry);
                            proof {
                                crate::strutil::lemma_deep_view_push(
                                    self.player_inventory,
                                    prev_vec,
                                    cur_inv,
                                    elem,
                                );
                                lemma_distinct_push(cur_inv, elem);
                            }
                        }
                        i += 1;
                    }
                    proof {
                        assert(items_view.skip(items_view.len() as int).len() == 0);
                        assert(self.player_inv() == add_new(mid.player_inv(), items_view));
                        assert(mid.player_inv() == old(self).player_inv());
                    }
                    let txt = match Item::items_to_text(&items_vec) {
                        Some(t) => t,
                        None => vstd::pervasive::unreached(),
                    };
                    let mut s = String::from_str("\nYou take ");
                    s.append(txt.as_str());
                    s.append(".");
                    proof {
                        assert(s@ =~= msg_take_all(items_view));
                    }
                    s
                },
            }
        } else {
            let in_stage = {
                let st = self.current_stage();
                contains_name(&st.items, thing.as_str())
            };
            if in_stage {
                if contains_name(&self.player_inventory, thing.as_str()) {
                    let a = get_article(&thing);
                    let mut s = String::from_str("\nYou look around, but there's no ");
                    s.append(thing.as_str());
                    s.append(" to take. You panic, you know you saw ");
                    s.append(a.as_str());
                    s.append(" ");
                    s.append(thing.as_str());
                    s.append(" here a minute ago! Your panic subsides as you remember: you already took it.");
                    proof {
                        assert(s@ =~= msg_already_took(thing@));
                    }
                    s
                } else {
                    let idx = self.cur_stage_index();
                    let taken = self.stages[idx].1.take(thing.clone());
                    proof {
                        lemma_kv_update(old(self).stages@, idx as int, self.stages@[idx as int].1);
                        assert(self.stages@ == old(self).stages@.update(
                            idx as int,
                            (old(self).stages@[idx as int].0, self.stages@[idx as int].1),
                        ));
                        assert(stage_items_updated(
                            *old(self),
                            *self,
                            old(self).cur_stage().items.deep_view().filter(
                                |w: Seq<char>| w != thing@,
                            ),
                        ));
                    }
                    let ghost cur_inv = self.player_inventory.deep_view();
                    let ghost prev_vec = self.player_inventory@;
                    let entry = thing.clone();
                    proof {
                        assert(entry@ == thing@);
                    }
                    self.player_inventory.push(entry);
                    proof {
                        crate::strutil::lemma_deep_view_push(
                            self.player_inventory,
                            prev_vec,
                            cur_inv,
                            thing@,
                        );
                        lemma_distinct_push(cur_inv, thing@);
                        assert(self.wf()) by {
                            assert forall|i: int| 0 <= i < self.stages@.len()
                                implies (#[trigger] self.stages@[i]).1.wf() by {
                                if i != idx {
                                    assert(self.stages@[i] == old(self).stages@[i]);
                                }
                            }
                            assert forall|i: int, j: int|
                                0 <= i < self.stages@.len() && 0 <= j < self.stages@[i].1.paths@.len()
                                implies kv_map(self.stages@).contains_key(
                                    (#[trigger] self.stages@[i].1.paths@[j]).1.destination@,
                                ) by {
                                if i != idx {
                                    assert(self.stages@[i] == old(self).stages@[i]);
                                }
                                assert(kv_map(self.stages@) == kv_map(old(self).stages@).insert(
                                    old(self).cur(),
                                    self.stages@[idx as int].1,
                                ));
                            }
                        }
                    }
                    let mut s = String::from_str("\nYou take the ");
                    s.append(thing.as_str());
                    s.append(".");
                    proof {
                        assert(s@ =~= msg_take_one(thing@));
                    }
                    s
                }
            } else {
                let mut s = String::from_str("\nYou look around, but there's no ");
                s.append(thing.as_str());
                s.append(" to take.");
                proof {
                    assert(s@ =~= msg_no_take(thing@));
                }
                s
            }
        }
    }
}

pub open spec fn msg_cant_do() -> Seq<char> {
    "\nOh no, you can't do that."@
}

pub open spec fn use_trace(object: Seq<char>) -> Seq<char> {
    "use object \""@ + object + "\""@
}

pub open spec fn use_with_trace(item: Seq<char>, object: Seq<char>) -> Seq<char> {
    "use item \""@ + item + "\" with object \""@ + object + "\""@
}

pub open spec fn msg_dont_have(item: Seq<char>) -> Seq<char> {
    "\nYou pat your pockets, but realise you don't have "@ + spec_article(item) + " "@ + item
        + " to use."@
}

/// The outcome of the Use verb: the trigger named `use <object>` in the
/// current stage fires if it exists, else nothing changes and the player is
/// told so.
pub open spec fn use_post(pre: Game, post: Game, object: Seq<char>, out: Seq<char>) -> bool {
    let st = pre.cur_stage();
    let key = "use "@ + object;
    if st.triggers_map().contains_key(key) {
        &&& same_but_flags(pre, post)
        &&& post.flags_set() == apply_action(
            pre.flags_set(),
            st.triggers_map()[key].action,
            st.triggers_map()[key].flag@,
        )
        &&& out == use_trace(object)
    } else {
        post == pre && out == use_trace(object) + msg_cant_do()
    }
}

/// The outcome of the UseWith verb: the player must carry the item, else
/// nothing changes; then the trigger named `use <item> on <object>` fires if
/// the current stage has it.
pub open spec fn use_with_post(
    pre: Game,
    post: Game,
    item: Seq<char>,
    object: Seq<char>,
    out: Seq<char>,
) -> bool {
    let st = pre.cur_stage();
    let key = "use "@ + item + " on "@ + object;
    if !pre.player_inv().contains(item) {
        post == pre && out == use_with_trace(item, object) + msg_dont_have(item)
    } else if st.triggers_map().contains_key(key) {
        &&& same_but_flags(pre, post)
        &&& post.flags_set() == apply_action(
            pre.flags_set(),
            st.triggers_map()[key].action,
            st.triggers_map()[key].flag@,
        )
        &&& out == use_with_trace(item, object)
    } else {
        post == pre && out == use_with_trace(item, object) + msg_cant_do()
    }
}

/// The world after a Save or Load intent: only the remembered save slot may
/// change, and it does exactly when the intent names one.
pub open spec fn savename_post(pre: Game, post: Game, slot: Option<Seq<char>>) -> bool {
    &&& post.spec_name() == pre.spec_name()
    &&& post.spec_description() == pre.spec_description()
    &&& post.inventory_map() == pre.inventory_map()
    &&& post.player_inv() == pre.player_inv()
    &&& post.stages_map() == pre.stages_map()
    &&& post.flags_set() == pre.flags_set()
    &&& post.cur() == pre.cur()
    &&& post.spec_savename() == (match slot {
        Some(s) => s,
        None => pre.spec_savename(),
    })
}

/// The outcome of applying one intent to the world, and what the session
/// must do next. Every mutation of the world goes through here or through
/// the verbs this relation is built from.
pub open spec fn process_post(
    pre: Game,
    post: Game,
    intent: crate::input::Intent,
    out: Seq<char>,
    eff: Effect,
) -> bool {
    match intent {
        crate::input::Intent::Go(p) => go_dir_post(pre, post, p, out) && eff == Effect::Proceed,
        crate::input::Intent::Look(p) => post == pre && look_post(pre, p, out) && eff == Effect::Proceed,
        crate::input::Intent::Search => post == pre && search_post(pre, out) && eff == Effect::Proceed,
        crate::input::Intent::Take(p) => take_post(pre, post, p, out) && eff == Effect::Proceed,
        crate::input::Intent::Use(o) => use_post(pre, post, o, out) && eff == Effect::Proceed,
        crate::input::Intent::UseWith(i, o) => use_with_post(pre, post, i, o, out) && eff == Effect::Proceed,
        crate::input::Intent::NoOp => post == pre && out == Seq::<char>::empty() && eff == Effect::Proceed,
        crate::input::Intent::Exit => post == pre && out == Seq::<char>::empty() && eff == Effect::Exit,
        crate::input::Intent::Save(m) => savename_post(pre, post, m) && out == Seq::<char>::empty()
            && eff == Effect::Save,
        crate::input::Intent::Load(m) => savename_post(pre, post, m) && out == Seq::<char>::empty()
            && eff == Effect::Load,
    }
}

impl Game {
    /// The Use verb.
    pub fn use_object(&mut self, object: String) -> (out: String)
        requires
            old(self).wf(),
        ensures
            final(self).wf(),
            use_post(*old(self), *final(self), object@, out@),
    {
        let mut key = String::from_str("use ");
        key.append(object.as_str());
        let found = self.run_trigger(key.as_str());
        let mut s = String::from_str("use object \"");
        s.append(object.as_str());
        s.append("\"");
        proof {
            assert(s@ =~= use_trace(object@));
        }
        if !found {
            s.append("\nOh no, you can't do that.");
            proof {
                assert(s@ =~= use_trace(object@) + msg_cant_do());
            }
        }
        s
    }

    /// The UseWith verb.
    pub fn use_item_with_object(&mut self, item: String, object: String) -> (out: String)
        requires
            old(self).wf(),
        ensures
            final(self).wf(),
            use_with_post(*old(self), *final(self), item@, object@, out@),
    {
        let mut s = String::from_str("use item \"");
        s.append(item.as_str());
        s.append("\" with object \"");
        s.append(object.as_str());
        s.append("\"");
        proof {
            assert(s@ =~= use_with_trace(item@, object@));
        }
        if contains_name(&self.player_inventory, item.as_str()) {
            let mut key = String::from_str("use ");
            key.append(item.as_str());
            key.append(" on ");
            key.append(object.as_str());
            proof {
                assert(key@ =~= "use "@ + item@ + " on "@ + object@);
            }
            let found = self.run_trigger(key.as_str());
            if !found {
                s.append("\nOh no, you can't do that.");
                proof {
                    assert(s@ =~= use_with_trace(item@, object@) + msg_cant_do());
                }
            }
            s
        } else {
            let a = get_article(&item);
            s.append("\nYou pat your pockets, but realise you don't have ");
            s.append(a.as_str());
            s.append(" ");
            s.append(item.as_str());
            s.append(" to use.");
            proof {
                assert(s@ =~= use_with_trace(item@, object@) + msg_dont_have(item@));
            }
            s
        }
    }

    /// Remember a newly named save slot; a bare save or load keeps the last.
    pub fn update_savename(&mut self, maybe_savename: Option<String>)
        requires
            old(self).wf(),
        ensures
            final(self).wf(),
            savename_post(*old(self), *final(self), maybe_savename.deep_view()),
    {
        if let Some(savename) = maybe_savename {
            self.savename = savename;
        }
    }

    /// Apply one intent to the world: the text to show the player and what
    /// the session must do next. Save, Load and Exit are decided here; the
    /// session performs them.
    pub fn process_input(&mut self, input: Input) -> (r: (String, Effect))
        requires
            old(self).wf(),
        ensures
            final(self).wf(),
            process_post(*old(self), *final(self), input@, r.0@, r.1),
    {
        match input {
            Input::Go(p) => (self.go_dir(p), Effect::Proceed),
            Input::Look(p) => (self.look(p), Effect::Proceed),
            Input::Search => (self.search(), Effect::Proceed),
            Input::Take(p) => (self.take(p), Effect::Proceed),
            Input::Use(object) => (self.use_object(object), Effect::Proceed),
            Input::UseWith(item, object) => (self.use_item_with_object(item, object), Effect::Proceed),
            Input::NoOp => (String::new(), Effect::Proceed),
            Input::Exit => (String::new(), Effect::Exit),
            Input::Save(maybe_savename) => {
                self.update_savename(maybe_savename);
                (String::new(), Effect::Save)
            },
            Input::Load(maybe_savename) => {
                self.update_savename(maybe_savename);
                (String::new(), Effect::Load)
            },
        }
    }
}

/// The stage-summary fragment for the first `k` paths: each path not
/// currently hidden contributes a space and its short description.
pub open spec fn paths_summary(flags: Set<Seq<char>>, ps: Seq<(String, Path)>, k: int) -> Seq<char>
    decreases k,
{
    if k <= 0 {
        Seq::empty()
    } else {
        paths_summary(flags, ps, k - 1) + (if !path_hidden(flags, ps[k - 1].1) {
            " "@ + ps[k - 1].1.description@
        } else {
            Seq::<char>::empty()
        })
    }
}

/// The stage-summary fragment for the first `k` triggers: each visible
/// trigger contributes a space and its description.
pub open spec fn triggers_summary(ts: Seq<(String, crate::trigger::Trigger)>, k: int) -> Seq<char>
    decreases k,
{
    if k <= 0 {
        Seq::empty()
    } else {
        triggers_summary(ts, k - 1) + (if ts[k - 1].1.visible {
            " "@ + ts[k - 1].1.description@
        } else {
            Seq::<char>::empty()
        })
    }
}

/// The full stage summary: the description, the visible paths, the visible
/// triggers, and a closing line break.
pub open spec fn display_text(flags: Set<Seq<char>>, stage: Stage) -> Seq<char> {
    "\n"@ + stage.description@ + paths_summary(flags, stage.paths@, stage.paths@.len() as int)
        + triggers_summary(stage.triggers@, stage.triggers@.len() as int) + "\n"@
}

/// The first failing validity condition of a world document, as the message
/// the constructor reports.
pub open spec fn world_err_msg(
    inventory: Seq<(String, Item)>,
    player_inventory: Seq<Seq<char>>,
    stages: Seq<(String, Stage)>,
    flags: Seq<Seq<char>>,
    current_stage: Seq<char>,
) -> Seq<char> {
    if !kv_unique(stages) {
        "duplicate stage name"@
    } else if !kv_unique(inventory) {
        "duplicate item name"@
    } else if !distinct_names(flags) {
        "duplicate flag"@
    } else if !distinct_names(player_inventory) {
        "duplicate player inventory entry"@
    } else if !(forall|i: int| 0 <= i < stages.len() ==> (#[trigger] stages[i]).1.wf()) {
        "duplicate path or trigger name"@
    } else if !kv_map(stages).contains_key(current_stage) {
        "undefined stage"@
    } else {
        "undefined path destination"@
    }
}

impl Game {
    /// Render the summary of a stage against the current flag state.
    pub fn display(&self, stage: &Stage) -> (out: String)
        ensures
            out@ == display_text(self.flags_set(), *stage),
    {
        let mut s = String::from_str("\n");
        s.append(stage.description.as_str());
        let mut i: usize = 0;
        while i < stage.paths.len()
            invariant
                0 <= i <= stage.paths@.len(),
                s@ == "\n"@ + stage.description@ + paths_summary(
                    self.flags_set(),
                    stage.paths@,
                    i as int,
                ),
            decreases stage.paths@.len() - i,
        {
            if !self.is_path_hidden(&stage.paths[i].1) {
                s.append(" ");
                s.append(stage.paths[i].1.description.as_str());
            }
            proof {
                assert(s@ =~= "\n"@ + stage.description@ + paths_summary(
                    self.flags_set(),
                    stage.paths@,
                    i + 1,
                ));
            }
            i += 1;
        }
        let ghost head = s@;
        let mut j: usize = 0;
        while j < stage.triggers.len()
            invariant
                0 <= j <= stage.triggers@.len(),
                s@ == head + triggers_summary(stage.triggers@, j as int),
            decreases stage.triggers@.len() - j,
        {
            if stage.triggers[j].1.visible {
                s.append(" ");
                s.append(stage.triggers[j].1.description.as_str());
            }
            proof {
                assert(s@ =~= head + triggers_summary(stage.triggers@, j + 1));
            }
            j += 1;
        }
        s.append("\n");
        proof {
            assert(s@ =~= display_text(self.flags_set(), *stage));
        }
        s
    }

    /// Build a world from document-derived parts, validating at this
    /// boundary every cross-reference the runtime relies on: it returns the
    /// world exactly when the parts are valid, and the first failing
    /// condition's message otherwise.
    pub fn new(
        name: String,
        description: String,
        inventory: Vec<(String, Item)>,
        player_inventory: Vec<String>,
        stages: Vec<(String, Stage)>,
        flags: Vec<String>,
        current_stage: String,
        savename: String,
    ) -> (r: Result<Game, String>)
        ensures
            match r {
                Ok(g) => {
                    &&& world_ok(
                        inventory@,
                        player_inventory.deep_view(),
                        stages@,
                        flags.deep_view(),
                        current_stage@,
                    )
                    &&& g.wf()
                    &&& g.spec_name() == name@
                    &&& g.spec_description() == description@
                    &&& g.inventory_map() == kv_map(inventory@)
                    &&& g.player_inv() == player_inventory.deep_view()
                    &&& g.stages_map() == kv_map(stages@)
                    &&& g.flags_set() == flags.deep_view().to_set()
                    &&& g.cur() == current_stage@
                    &&& g.spec_savename() == savename@
                },
                Err(e) => {
                    &&& !world_ok(
                        inventory@,
                        player_inventory.deep_view(),
                        stages@,
                        flags.deep_view(),
                        current_stage@,
                    )
                    &&& e@ == world_err_msg(
                        inventory@,
                        player_inventory.deep_view(),
                        stages@,
                        flags.deep_view(),
                        current_stage@,
                    )
                },
            },
    {
        if !kv_unique_check(&stages) {
            return Err(String::from_str("duplicate stage name"));
        }
        if !kv_unique_check(&inventory) {
            return Err(String::from_str("duplicate item name"));
        }
        if !distinct_names_check(&flags) {
            return Err(String::from_str("duplicate flag"));
        }
        if !distinct_names_check(&player_inventory) {
            return Err(String::from_str("duplicate player inventory entry"));
        }
        let mut i: usize = 0;
        while i < stages.len()
            invariant
                kv_unique(stages@),
                kv_unique(inventory@),
                distinct_names(flags.deep_view()),
                distinct_names(player_inventory.deep_view()),
                0 <= i <= stages@.len(),
                forall|p: int| 0 <= p < i ==> (#[trigger] stages@[p]).1.wf(),
            decreases stages@.len() - i,
        {
            let stage_ok = {
                let st = &stages[i].1;
                let paths_ok = kv_unique_check(&st.paths);
                let triggers_ok = kv_unique_check(&st.triggers);
                paths_ok && triggers_ok
            };
            if !stage_ok {
                proof {
                    assert(!(forall|p: int| 0 <= p < stages@.len() ==> (#[trigger] stages@[p]).1.wf()))
                        by {
                        let ii = i as int;
                        assert(0 <= ii < stages@.len() && !((stages@[ii]).1.wf()));
                    }
                }
                return Err(String::from_str("duplicate path or trigger name"));
            }
            i += 1;
        }
        if kv_find(&stages, current_stage.as_str()).is_none() {
            return Err(String::from_str("undefined stage"));
        }
        let mut i: usize = 0;
        while i < stages.len()
            invariant
                kv_unique(stages@),
                kv_unique(inventory@),
                distinct_names(flags.deep_view()),
                distinct_names(player_inventory.deep_view()),
                kv_map(stages@).contains_key(current_stage@),
                forall|p: int| 0 <= p < stages@.len() ==> (#[trigger] stages@[p]).1.wf(),
                0 <= i <= stages@.len(),
                forall|p: int, q: int|
                    0 <= p < i && 0 <= q < stages@[p].1.paths@.len()
                        ==> kv_map(stages@).contains_key(
                            (#[trigger] stages@[p].1.paths@[q]).1.destination@,
                        ),
            decreases stages@.len() - i,
        {
            let mut j: usize = 0;
            let n_paths = stages[i].1.paths.len();
            while j < n_paths
                invariant
                    kv_unique(stages@),
                    kv_unique(inventory@),
                    distinct_names(flags.deep_view()),
                    distinct_names(player_inventory.deep_view()),
                    kv_map(stages@).contains_key(current_stage@),
                    forall|p: int| 0 <= p < stages@.len() ==> (#[trigger] stages@[p]).1.wf(),
                    0 <= i < stages@.len(),
                    n_paths == stages@[i as int].1.paths@.len(),
                    0 <= j <= n_paths,
                    forall|q: int| 0 <= q < j ==> kv_map(stages@).contains_key(
                        (#[trigger] stages@[i as int].1.paths@[q]).1.destination@,
                    ),
                decreases n_paths - j,
            {
                let dest_ok = {
                    let dest = &stages[i].1.paths[j].1.destination;
                    kv_find(&stages, dest.as_str()).is_some()
                };
                if !dest_ok {
                    proof {
                        assert(!kv_map(stages@).contains_key(
                            stages@[i as int].1.paths@[j as int].1.destination@,
                        ));
                    }
                    return Err(String::from_str("undefined path destination"));
                }
                j += 1;
            }
            i += 1;
        }
        Ok(Game { name, description, inventory, player_inventory, stages, flags, current_stage, savename })
    }

    /// The world's title.
    pub fn name(&self) -> (r: &String)
        ensures
            r@ == self.spec_name(),
    {
        &self.name
    }

    /// The world's opening description.
    pub fn description(&self) -> (r: &String)
        ensures
            r@ == self.spec_description(),
    {
        &self.description
    }

    /// The catalog of describable things.
    pub fn inventory(&self) -> (r: &Vec<(String, Item)>)
        ensures
            kv_map(r@) == self.inventory_map(),
    {
        &self.inventory
    }

    /// The names the player carries, in display order.
    pub fn player_inventory(&self) -> (r: &Vec<String>)
        ensures
            r.deep_view() == self.player_inv(),
    {
        &self.player_inventory
    }

    /// The stage table.
    pub fn stages(&self) -> (r: &Vec<(String, Stage)>)
        ensures
            kv_map(r@) == self.stages_map(),
    {
        &self.stages
    }

    /// The flags currently set.
    pub fn flags(&self) -> (r: &Vec<String>)
        ensures
            r.deep_view().to_set() == self.flags_set(),
    {
        &self.flags
    }

    /// The name of the stage the player stands in.
    pub fn current_stage_name(&self) -> (r: &String)
        ensures
            r@ == self.cur(),
    {
        &self.current_stage
    }

    /// The remembered save slot.
    pub fn savename(&self) -> (r: &String)
        ensures
            r@ == self.spec_savename(),
    {
        &self.savename
    }
}

} // verus!
