//! The table of aliases that a node knows.

use vstd::prelude::*;
use crate::protocol::{alias_views, Alias, AliasView};
use crate::text::Text;

verus! {

/// `table` with all entries of `list` put into it, one after the other. A later
/// entry takes the place of an earlier one with the same key.
pub open spec fn put_all(table: Map<Text, Text>, list: Seq<AliasView>) -> Map<Text, Text>
    decreases list.len(),
{
    if list.len() == 0 {
        table
    } else {
        put_all(table, list.drop_last()).insert(list.last().peer, list.last().alias)
    }
}

/// `table` without the entries in which `value` stands for the key.
pub open spec fn without_value(table: Map<Text, Text>, value: Text) -> Map<Text, Text> {
    Map::new(|k: Text| table.contains_key(k) && table[k] != value, |k: Text| table[k])
}

/// No two entries of `list` have the same key.
pub open spec fn distinct_keys(list: Seq<AliasView>) -> bool {
    forall|i: int, j: int|
        0 <= i < j < list.len() ==> (#[trigger] list[i]).peer != (#[trigger] list[j]).peer
}

/// `list` holds each entry of `table` once, in some order, and nothing else.
pub open spec fn lists(list: Seq<AliasView>, table: Map<Text, Text>) -> bool {
    distinct_keys(list) && put_all(Map::empty(), list) == table
}

/// A list with distinct keys holds exactly the pairs of the table it makes.
pub proof fn lemma_table_pairs(list: Seq<AliasView>)
    requires
        distinct_keys(list),
    ensures
        forall|k: Text, v: Text|
            #![trigger list.contains(AliasView { peer: k, alias: v })]
            list.contains(AliasView { peer: k, alias: v }) <==> (put_all(
                Map::empty(),
                list,
            ).contains_key(k) && put_all(Map::empty(), list)[k] == v),
    decreases list.len(),
{
    let table = put_all(Map::<Text, Text>::empty(), list);
    if list.len() > 0 {
        let start = list.drop_last();
        let last = list.last();
        lemma_table_pairs(start);
        assert forall|k: Text, v: Text|
            #![trigger list.contains(AliasView { peer: k, alias: v })]
            list.contains(AliasView { peer: k, alias: v }) <==> (table.contains_key(k) && table[k]
                == v) by {
            let pair = AliasView { peer: k, alias: v };
            if list.contains(pair) {
                let i = choose|i: int| 0 <= i < list.len() && list[i] == pair;
                if i < start.len() {
                    assert(start[i] == pair);
                    assert(start.contains(pair));
                    assert(list[i].peer != list[list.len() - 1].peer);
                }
            }
            if table.contains_key(k) && table[k] == v {
                if k == last.peer {
                    assert(last =~= pair);
                    assert(list[list.len() - 1] == pair);
                } else {
                    assert(start.contains(pair));
                    let i = choose|i: int| 0 <= i < start.len() && start[i] == pair;
                    assert(list[i] == pair);
                }
            }
        }
    }
}

/// Which peer an alias stands for: at most one for each alias.
#[derive(Debug)]
pub struct AliasTable {
    entries: Vec<Alias>,
}

impl View for AliasTable {
    type V = Map<Text, Text>;

    closed spec fn view(&self) -> Map<Text, Text> {
        put_all(Map::empty(), alias_views(self.entries@))
    }
}

/// Whether `text` is the key of `entry` or, where `by_value` says so, what stands
/// for the key.
spec fn names(entry: AliasView, text: Text, by_value: bool) -> bool {
    if by_value {
        entry.alias == text
    } else {
        entry.peer == text
    }
}

/// The entries of `list` that `text` does not name.
fn other_entries(list: &Vec<Alias>, text: &String, by_value: bool) -> (kept: Vec<Alias>)
    requires
        distinct_keys(alias_views(list@)),
    ensures
        distinct_keys(alias_views(kept@)),
        put_all(Map::empty(), alias_views(kept@)) == if by_value {
            without_value(put_all(Map::empty(), alias_views(list@)), text@)
        } else {
            put_all(Map::empty(), alias_views(list@)).remove(text@)
        },
{
    let ghost all = alias_views(list@);
    let mut kept: Vec<Alias> = Vec::new();
    let mut i: usize = 0;
    while i < list.len()
        invariant
            i <= list.len(),
            all == alias_views(list@),
            distinct_keys(all),
            distinct_keys(alias_views(kept@)),
            forall|x: AliasView| #[trigger]
                alias_views(kept@).contains(x) <==> !names(x, text@, by_value) && all.take(
                    i as int,
                ).contains(x),
        decreases list.len() - i,
    {
        let ghost done = all.take(i as int);
        let ghost more = all.take(i + 1);
        assert(more =~= done.push(all[i as int]));
        assert(all[i as int] == list@[i as int]@);
        assert(more[i as int] == all[i as int]);
        assert forall|x: AliasView| more.contains(x) <==> (done.contains(x) || x == all[i as int]) by {
            if done.contains(x) {
                let j = choose|j: int| 0 <= j < done.len() && done[j] == x;
                assert(more[j] == x);
            }
        }
        let named: bool = if by_value {
            list[i].alias == *text
        } else {
            list[i].peer == *text
        };
        if !named {
            let entry: Alias = Alias { peer: list[i].peer.clone(), alias: list[i].alias.clone() };
            let ghost before = alias_views(kept@);
            kept.push(entry);
            let ghost after = alias_views(kept@);
            proof {
                assert(entry@ =~= all[i as int]);
                assert(after =~= before.push(entry@));
                assert(after[before.len() as int] == entry@);
                assert forall|a: int, b: int| 0 <= a < b < after.len() implies (
                #[trigger] after[a]).peer != (#[trigger] after[b]).peer by {
                    assert(before.contains(before[a]));
                    assert(after[a] == before[a]);
                    if b < before.len() {
                        assert(after[b] == before[b]);
                    } else {
                        assert(done.contains(before[a]));
                        let j = choose|j: int| 0 <= j < done.len() && done[j] == before[a];
                        assert(all[j] == before[a]);
                        assert(all[j].peer != all[i as int].peer);
                    }
                }
                assert forall|x: AliasView| #[trigger]
                    after.contains(x) <==> !names(x, text@, by_value) && more.contains(x) by {
                    assert(more.contains(x) <==> (done.contains(x) || x == all[i as int]));
                    if before.contains(x) {
                        let j = choose|j: int| 0 <= j < before.len() && before[j] == x;
                        assert(after[j] == x);
                    }
                }
            }
        } else {
            proof {
                assert forall|x: AliasView| #[trigger]
                    alias_views(kept@).contains(x) <==> !names(x, text@, by_value) && more.contains(
                    x,
                ) by {
                    assert(more.contains(x) <==> (done.contains(x) || x == all[i as int]));
                }
            }
        }
        i += 1;
    }
    proof {
        assert(all.take(all.len() as int) =~= all);
        let rest = alias_views(kept@);
        let table = put_all(Map::<Text, Text>::empty(), all);
        let left = put_all(Map::<Text, Text>::empty(), rest);
        let goal = if by_value {
            without_value(table, text@)
        } else {
            table.remove(text@)
        };
        lemma_table_pairs(all);
        lemma_table_pairs(rest);
        assert forall|k: Text| #[trigger] left.contains_key(k) <==> goal.contains_key(k) by {
            assert(left.contains_key(k) ==> rest.contains(AliasView { peer: k, alias: left[k] }));
            assert(table.contains_key(k) ==> all.contains(AliasView { peer: k, alias: table[k] }));
            assert(left.contains_key(k) ==> all.contains(AliasView { peer: k, alias: left[k] }));
            assert(goal.contains_key(k) ==> rest.contains(AliasView { peer: k, alias: table[k] }));
        }
        assert forall|k: Text| left.contains_key(k) implies #[trigger] left[k] == goal[k] by {
            assert(rest.contains(AliasView { peer: k, alias: left[k] }));
            assert(all.contains(AliasView { peer: k, alias: left[k] }));
        }
        assert(left =~= goal);
    }
    kept
}

impl AliasTable {
    #[verifier::type_invariant]
    spec fn well_formed(self) -> bool {
        distinct_keys(alias_views(self.entries@))
    }

    /// A table without entries.
    pub fn new() -> (table: AliasTable)
        ensures
            table@ == Map::<Text, Text>::empty(),
    {
        AliasTable { entries: Vec::new() }
    }

    /// What stands in the table for `key`.
    pub fn get(&self, key: &String) -> (value: Option<String>)
        ensures
            match value {
                Some(v) => self@.contains_key(key@) && self@[key@] == v@,
                None => !self@.contains_key(key@),
            },
    {
        proof {
            use_type_invariant(self);
            lemma_table_pairs(alias_views(self.entries@));
        }
        let ghost all = alias_views(self.entries@);
        let mut i: usize = 0;
        while i < self.entries.len()
            invariant
                i <= self.entries.len(),
                all == alias_views(self.entries@),
                self@ == put_all(Map::empty(), all),
                forall|k: Text, v: Text|
                    #![trigger all.contains(AliasView { peer: k, alias: v })]
                    all.contains(AliasView { peer: k, alias: v }) <==> (self@.contains_key(k)
                        && self@[k] == v),
                forall|j: int| 0 <= j < i ==> (#[trigger] all[j]).peer != key@,
            decreases self.entries.len() - i,
        {
            assert(all[i as int] == self.entries@[i as int]@);
            if self.entries[i].peer == *key {
                let value: String = self.entries[i].alias.clone();
                assert(all[i as int] =~= AliasView { peer: key@, alias: value@ });
                assert(all.contains(AliasView { peer: key@, alias: value@ }));
                return Some(value);
            }
            i += 1;
        }
        assert(!self@.contains_key(key@)) by {
            if self@.contains_key(key@) {
                assert(all.contains(AliasView { peer: key@, alias: self@[key@] }));
            }
        }
        None
    }

    /// Whether something stands in the table for `key`.
    pub fn contains_key(&self, key: &String) -> (found: bool)
        ensures
            found == self@.contains_key(key@),
    {
        self.get(key).is_some()
    }

    /// Lets `value` stand for `key`, in place of what stood for it before.
    pub fn insert(&mut self, key: String, value: String)
        ensures
            final(self)@ == old(self)@.insert(key@, value@),
    {
        proof {
            use_type_invariant(&*self);
        }
        let mut entries: Vec<Alias> = other_entries(&self.entries, &key, false);
        let ghost others = alias_views(entries@);
        let ghost table = self@;
        let entry: Alias = Alias { peer: key, alias: value };
        entries.push(entry);
        proof {
            let all = alias_views(entries@);
            assert(all =~= others.push(entry@));
            assert(all.drop_last() =~= others);
            assert(all.last() == entry@);
            lemma_table_pairs(others);
            assert forall|a: int, b: int| 0 <= a < b < all.len() implies (
            #[trigger] all[a]).peer != (#[trigger] all[b]).peer by {
                assert(all[a] == others[a]);
                assert(others.contains(others[a]));
                assert(others[a] =~= AliasView { peer: others[a].peer, alias: others[a].alias });
                assert(put_all(Map::empty(), others).contains_key(others[a].peer));
                if b < others.len() {
                    assert(all[b] == others[b]);
                }
            }
            assert(put_all(Map::empty(), all) =~= table.insert(key@, value@));
        }
        self.entries = entries;
    }

    /// Takes out every entry in which `value` stands for the key.
    pub fn remove_value(&mut self, value: &String)
        ensures
            final(self)@ == without_value(old(self)@, value@),
    {
        proof {
            use_type_invariant(&*self);
        }
        let entries: Vec<Alias> = other_entries(&self.entries, value, true);
        self.entries = entries;
    }

    /// All entries of the table, in some order.
    pub fn entries(&self) -> (list: Vec<Alias>)
        ensures
            lists(alias_views(list@), self@),
    {
        proof {
            use_type_invariant(self);
        }
        let ghost all = alias_views(self.entries@);
        let mut list: Vec<Alias> = Vec::new();
        let mut i: usize = 0;
        while i < self.entries.len()
            invariant
                i <= self.entries.len(),
                all == alias_views(self.entries@),
                alias_views(list@) == all.take(i as int),
            decreases self.entries.len() - i,
        {
            let entry: Alias = Alias {
                peer: self.entries[i].peer.clone(),
                alias: self.entries[i].alias.clone(),
            };
            proof {
                assert(entry@ =~= all[i as int]);
                assert(alias_views(list@.push(entry)) =~= alias_views(list@).push(entry@));
                assert(all.take(i + 1) =~= all.take(i as int).push(all[i as int]));
            }
            list.push(entry);
            i += 1;
        }
        assert(all.take(all.len() as int) =~= all);
        list
    }
}

} // verus!
