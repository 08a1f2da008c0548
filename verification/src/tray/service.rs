//! The tray service reducer.
//!
//! Folds the multiplexer's messages into the item map.  The map is keyed by
//! item name and ordered by name — not by registration order — so icon
//! positions stay stable across unrelated registration churn.  In
//! specifications the map is a `Map<Seq<char>, SNItem>` built by inserting
//! the entries left to right.

use vstd::prelude::*;

use crate::fdo_icons::FdIcon;
use crate::text::{lemma_lex_connected, lemma_lex_irrefl, lemma_lex_trans, seq_lex_lt, str_lex_lt};
use crate::tray::eventstream::{MenuLayout, SNItem, SNItemEvent, TrayEvent};

verus! {

/// The map an item sequence denotes: later entries win.
pub open spec fn names_map(s: Seq<SNItem>) -> Map<Seq<char>, SNItem>
    decreases s.len(),
{
    if s.len() == 0 {
        Map::empty()
    } else {
        names_map(s.drop_last()).insert(s.last().name@, s.last())
    }
}

/// No two items share a name.
pub open spec fn unique_names(s: Seq<SNItem>) -> bool {
    forall|i: int, j: int|
        0 <= i < j < s.len() ==> (#[trigger] s[i].name)@ != (#[trigger] s[j].name)@
}

/// Strictly ascending names.
pub open spec fn sorted_names(s: Seq<SNItem>) -> bool {
    forall|i: int, j: int|
        0 <= i < j < s.len() ==> seq_lex_lt((#[trigger] s[i].name)@, (#[trigger] s[j].name)@)
}

pub proof fn lemma_sorted_names_unique(s: Seq<SNItem>)
    requires
        sorted_names(s),
    ensures
        unique_names(s),
{
    assert forall|i: int, j: int|
        0 <= i < j < s.len() implies (#[trigger] s[i].name)@ != (#[trigger] s[j].name)@ by {
        if s[i].name@ == s[j].name@ {
            lemma_lex_irrefl(s[i].name@);
        }
    }
}

/// What `names_map` holds: each item is present under its name, and every
/// name in the map comes from an item.
pub proof fn lemma_names_map(s: Seq<SNItem>)
    requires
        unique_names(s),
    ensures
        forall|i: int|
            0 <= i < s.len() ==> names_map(s).contains_key((#[trigger] s[i].name)@) && names_map(
                s,
            )[s[i].name@] == s[i],
        forall|k: Seq<char>| #[trigger]
            names_map(s).contains_key(k) ==> exists|i: int| 0 <= i < s.len() && s[i].name@ == k,
    decreases s.len(),
{
    if s.len() > 0 {
        let front = s.drop_last();
        assert(unique_names(front)) by {
            assert(forall|i: int| 0 <= i < front.len() ==> front[i] == s[i]);
        }
        lemma_names_map(front);
        assert forall|i: int| 0 <= i < s.len() implies names_map(s).contains_key(
            (#[trigger] s[i].name)@,
        ) && names_map(s)[s[i].name@] == s[i] by {
            if i < s.len() - 1 {
                assert(front[i] == s[i]);
                assert(s[i].name@ != s.last().name@);
            }
        }
        assert forall|k: Seq<char>| #[trigger] names_map(s).contains_key(k) implies exists|i: int|
            0 <= i < s.len() && s[i].name@ == k by {
            if k == s.last().name@ {
                assert(s[s.len() - 1].name@ == k);
            } else {
                assert(names_map(front).contains_key(k));
                let i = choose|i: int| 0 <= i < front.len() && front[i].name@ == k;
                assert(s[i] == front[i]);
            }
        }
    }
}

/// Replacing the item at `i` by one with the same name updates the map there.
pub proof fn lemma_names_map_update(s: Seq<SNItem>, i: int, x: SNItem)
    requires
        unique_names(s),
        0 <= i < s.len(),
        x.name@ == s[i].name@,
    ensures
        names_map(s.update(i, x)) =~= names_map(s).insert(x.name@, x),
        unique_names(s.update(i, x)),
    decreases s.len(),
{
    let s2 = s.update(i, x);
    assert(unique_names(s2)) by {
        assert(forall|j: int| 0 <= j < s.len() && j != i ==> s2[j] == s[j]);
    }
    let front = s.drop_last();
    assert(unique_names(front)) by {
        assert(forall|j: int| 0 <= j < front.len() ==> front[j] == s[j]);
    }
    if i == s.len() - 1 {
        assert(s2.drop_last() =~= front);
        assert(s2.last() == x);
    } else {
        lemma_names_map_update(front, i, x);
        assert(s2.drop_last() =~= front.update(i, x));
        assert(s2.last() == s.last());
        assert(s.last().name@ != s[i].name@);
    }
}

/// Inserting an item with a fresh name at any position inserts it into the
/// map.
pub proof fn lemma_names_map_insert(s: Seq<SNItem>, i: int, x: SNItem)
    requires
        unique_names(s),
        0 <= i <= s.len(),
        forall|j: int| 0 <= j < s.len() ==> (#[trigger] s[j].name)@ != x.name@,
    ensures
        names_map(s.insert(i, x)) =~= names_map(s).insert(x.name@, x),
        unique_names(s.insert(i, x)),
{
    let s2 = s.insert(i, x);
    assert(forall|j: int| 0 <= j < i ==> s2[j] == s[j]);
    assert(s2[i] == x);
    assert(forall|j: int| i < j < s2.len() ==> s2[j] == s[j - 1]);
    assert(unique_names(s2)) by {
        assert forall|p: int, q: int|
            0 <= p < q < s2.len() implies (#[trigger] s2[p].name)@ != (
        #[trigger] s2[q].name)@ by {
            if p != i && q != i {
                let p0 = if p < i {
                    p
                } else {
                    p - 1
                };
                let q0 = if q < i {
                    q
                } else {
                    q - 1
                };
                assert(s2[p] == s[p0] && s2[q] == s[q0]);
            }
        }
    }
    lemma_names_map(s);
    lemma_names_map(s2);
    assert forall|k: Seq<char>| names_map(s2).contains_key(k) implies names_map(s).insert(
        x.name@,
        x,
    ).contains_key(k) && names_map(s2)[k] == names_map(s).insert(x.name@, x)[k] by {
        let j = choose|j: int| 0 <= j < s2.len() && s2[j].name@ == k;
        if j == i {
            assert(names_map(s2)[k] == x);
        } else {
            let j0 = if j < i {
                j
            } else {
                j - 1
            };
            assert(s2[j] == s[j0]);
            assert(names_map(s)[k] == s[j0]);
        }
    }
    assert forall|k: Seq<char>| names_map(s).insert(x.name@, x).contains_key(k) implies names_map(
        s2,
    ).contains_key(k) by {
        if k == x.name@ {
            assert(s2[i].name@ == k);
        } else {
            let j = choose|j: int| 0 <= j < s.len() && s[j].name@ == k;
            let j2 = if j < i {
                j
            } else {
                j + 1
            };
            assert(s2[j2] == s[j]);
        }
    }
}

/// Removing the item at `i` removes its name from the map.
pub proof fn lemma_names_map_remove(s: Seq<SNItem>, i: int)
    requires
        unique_names(s),
        0 <= i < s.len(),
    ensures
        names_map(s.remove(i)) =~= names_map(s).remove(s[i].name@),
        unique_names(s.remove(i)),
{
    let s2 = s.remove(i);
    assert(forall|j: int| 0 <= j < i ==> s2[j] == s[j]);
    assert(forall|j: int| i <= j < s2.len() ==> s2[j] == s[j + 1]);
    assert(unique_names(s2)) by {
        assert forall|p: int, q: int|
            0 <= p < q < s2.len() implies (#[trigger] s2[p].name)@ != (
        #[trigger] s2[q].name)@ by {
            let p0 = if p < i {
                p
            } else {
                p + 1
            };
            let q0 = if q < i {
                q
            } else {
                q + 1
            };
            assert(s2[p] == s[p0] && s2[q] == s[q0]);
        }
    }
    lemma_names_map(s);
    lemma_names_map(s2);
    assert forall|k: Seq<char>| names_map(s2).contains_key(k) implies names_map(s).remove(
        s[i].name@,
    ).contains_key(k) && names_map(s2)[k] == names_map(s).remove(s[i].name@)[k] by {
        let j = choose|j: int| 0 <= j < s2.len() && s2[j].name@ == k;
        let j0 = if j < i {
            j
        } else {
            j + 1
        };
        assert(s2[j] == s[j0]);
        assert(names_map(s)[k] == s[j0]);
        assert(j0 != i);
    }
    assert forall|k: Seq<char>| names_map(s).remove(s[i].name@).contains_key(k) implies names_map(
        s2,
    ).contains_key(k) by {
        let j = choose|j: int| 0 <= j < s.len() && s[j].name@ == k;
        assert(j != i);
        let j2 = if j < i {
            j
        } else {
            j - 1
        };
        assert(s2[j2] == s[j]);
    }
}

/// Index of the item with this name, if one is there.
fn find_name(v: &Vec<SNItem>, name: &String) -> (r: Option<usize>)
    ensures
        match r {
            Some(i) => i < v@.len() && v@[i as int].name@ == name@,
            None => forall|j: int| 0 <= j < v@.len() ==> (#[trigger] v@[j].name)@ != name@,
        },
{
    let mut i: usize = 0;
    while i < v.len()
        invariant
            i <= v@.len(),
            forall|j: int| 0 <= j < i ==> (#[trigger] v@[j].name)@ != name@,
        decreases v@.len() - i,
    {
        if v[i].name == *name {
            return Some(i);
        }
        i = i + 1;
    }
    None
}

/// Inserts `x`, replacing the item with the same name if one is there; the
/// order stays strictly ascending by name.
fn upsert_item(v: &mut Vec<SNItem>, x: SNItem)
    requires
        sorted_names(old(v)@),
    ensures
        sorted_names(final(v)@),
        names_map(final(v)@) == names_map(old(v)@).insert(x.name@, x),
{
    let ghost s = v@;
    proof {
        lemma_sorted_names_unique(s);
    }
    let mut i: usize = 0;
    while i < v.len() && str_lex_lt(v[i].name.as_str(), x.name.as_str())
        invariant
            v@ == s,
            i <= s.len(),
            forall|j: int| 0 <= j < i ==> seq_lex_lt((#[trigger] s[j].name)@, x.name@),
        decreases v@.len() - i,
    {
        i = i + 1;
    }
    let replace = if i < v.len() {
        v[i].name == x.name
    } else {
        false
    };
    if replace {
        v.remove(i);
        proof {
            assert(v@ =~= s.remove(i as int));
        }
        v.insert(i, x);
        proof {
            assert(v@ =~= s.update(i as int, x));
            lemma_names_map_update(s, i as int, x);
            assert(sorted_names(v@)) by {
                assert forall|p: int, q: int|
                    0 <= p < q < v@.len() implies seq_lex_lt(
                    (#[trigger] v@[p].name)@,
                    (#[trigger] v@[q].name)@,
                ) by {
                    assert(v@[p].name@ == s[p].name@ && v@[q].name@ == s[q].name@);
                }
            }
        }
    } else {
        proof {
            assert forall|j: int| 0 <= j < s.len() implies (#[trigger] s[j].name)@ != x.name@ by {
                if j < i && s[j].name@ == x.name@ {
                    assert(seq_lex_lt(s[j].name@, x.name@));
                    lemma_lex_irrefl(x.name@);
                }
                if j >= i && s[j].name@ == x.name@ {
                    assert(i < s.len());
                    assert(s[i as int].name@ != x.name@);
                    assert(j > i);
                    // s[i] < s[j] == x, yet the scan stopped at i
                    assert(seq_lex_lt(s[i as int].name@, s[j].name@));
                    assert(!seq_lex_lt(s[i as int].name@, x.name@));
                    assert(false);
                }
            }
            if i < s.len() {
                lemma_lex_connected(s[i as int].name@, x.name@);
                assert(seq_lex_lt(x.name@, s[i as int].name@));
            }
        }
        v.insert(i, x);
        proof {
            lemma_names_map_insert(s, i as int, x);
            assert(sorted_names(v@)) by {
                assert forall|p: int, q: int|
                    0 <= p < q < v@.len() implies seq_lex_lt(
                    (#[trigger] v@[p].name)@,
                    (#[trigger] v@[q].name)@,
                ) by {
                    if p != i && q != i {
                        let p0 = if p < i {
                            p
                        } else {
                            p - 1
                        };
                        let q0 = if q < i {
                            q
                        } else {
                            q - 1
                        };
                        assert(v@[p] == s[p0] && v@[q] == s[q0]);
                    } else if p == i {
                        assert(v@[q] == s[q - 1]);
                        if q - 1 > i {
                            assert(seq_lex_lt(s[i as int].name@, s[q - 1].name@));
                            lemma_lex_trans(x.name@, s[i as int].name@, s[q - 1].name@);
                        }
                        assert(seq_lex_lt(x.name@, s[q - 1].name@));
                    } else {
                        assert(v@[p] == s[p]);
                        assert(seq_lex_lt(s[p].name@, x.name@));
                    }
                }
            }
        }
    }
}

/// Removes the item with this name, if one is there.
fn remove_name(v: &mut Vec<SNItem>, name: &String)
    requires
        sorted_names(old(v)@),
    ensures
        sorted_names(final(v)@),
        names_map(final(v)@) == names_map(old(v)@).remove(name@),
{
    let ghost s = v@;
    proof {
        lemma_sorted_names_unique(s);
    }
    match find_name(v, name) {
        Some(i) => {
            v.remove(i);
            proof {
                lemma_names_map_remove(s, i as int);
                assert(sorted_names(v@)) by {
                    assert(forall|j: int| 0 <= j < i ==> v@[j] == s[j]);
                    assert(forall|j: int| i <= j < v@.len() ==> v@[j] == s[j + 1]);
                }
            }
        },
        None => {
            proof {
                lemma_names_map(s);
                assert(names_map(s) =~= names_map(s).remove(name@));
            }
        },
    }
}

/// The name-keyed, name-ordered item map.
#[derive(Debug)]
pub struct TrayItems(pub(crate) Vec<SNItem>);

impl View for TrayItems {
    type V = Map<Seq<char>, SNItem>;

    closed spec fn view(&self) -> Map<Seq<char>, SNItem> {
        names_map(self.0@)
    }
}

impl TrayItems {
    pub closed spec fn seq(&self) -> Seq<SNItem> {
        self.0@
    }

    pub closed spec fn wf(&self) -> bool {
        sorted_names(self.0@)
    }

    /// No items yet.
    pub fn new() -> (r: TrayItems)
        ensures
            r.wf(),
            r@ == Map::<Seq<char>, SNItem>::empty(),
            r.seq().len() == 0,
    {
        TrayItems(Vec::new())
    }

    /// Builds the map from a list of items: exactly the listed items, later
    /// duplicates winning, ordered by name.
    pub fn from_vec(items: Vec<SNItem>) -> (r: TrayItems)
        ensures
            r.wf(),
            r@ == names_map(items@),
    {
        let mut v: Vec<SNItem> = Vec::new();
        let mut items = items;
        let ghost all = items@;
        let ghost done: int = 0;
        while items.len() > 0
            invariant
                0 <= done <= all.len(),
                items@ =~= all.subrange(done, all.len() as int),
                sorted_names(v@),
                names_map(v@) == names_map(all.subrange(0, done)),
            decreases items@.len(),
        {
            let x = items.remove(0);
            proof {
                assert(x == all[done]);
                assert(all.subrange(0, done + 1) =~= all.subrange(0, done).push(x));
                assert(all.subrange(0, done + 1).drop_last() =~= all.subrange(0, done));
            }
            upsert_item(&mut v, x);
            proof {
                done = done + 1;
            }
            proof {
                assert(items@ =~= all.subrange(done, all.len() as int));
            }
        }
        proof {
            assert(all.subrange(0, done) =~= all);
        }
        TrayItems(v)
    }

    pub fn len(&self) -> (r: usize)
        ensures
            r == self.seq().len(),
    {
        self.0.len()
    }

    /// The items, ordered by name; the map view is built from exactly them.
    pub fn as_vec(&self) -> (r: &Vec<SNItem>)
        ensures
            r@ == self.seq(),
            names_map(r@) == self@,
            self.wf() ==> sorted_names(r@),
    {
        &self.0
    }

    /// Looks an item up by name.
    pub fn get(&self, name: &String) -> (r: Option<&SNItem>)
        requires
            self.wf(),
        ensures
            match r {
                Some(item) => self@.contains_key(name@) && *item == self@[name@],
                None => !self@.contains_key(name@),
            },
    {
        proof {
            lemma_sorted_names_unique(self.0@);
            lemma_names_map(self.0@);
        }
        match find_name(&self.0, name) {
            Some(i) => Some(&self.0[i]),
            None => {
                proof {
                    if self@.contains_key(name@) {
                        let j = choose|j: int|
                            0 <= j < self.0@.len() && self.0@[j].name@ == name@;
                    }
                }
                None
            },
        }
    }
}

/// What the tray service consumes: the multiplexer's events, flattened.
#[derive(Debug)]
pub enum Message {
    Registered(Box<SNItem>),
    IconChanged(String, FdIcon),
    MenuLayoutChanged(String, MenuLayout),
    Unregistered(String),
    UpdateItems(TrayItems),
}

pub open spec fn item_with_icon(it: SNItem, icon: FdIcon) -> SNItem {
    SNItem {
        name: it.name,
        title: it.title,
        tool_tip: it.tool_tip,
        icon: Some(icon),
        menu: it.menu,
    }
}

pub open spec fn item_with_menu(it: SNItem, menu: MenuLayout) -> SNItem {
    SNItem { name: it.name, title: it.title, tool_tip: it.tool_tip, icon: it.icon, menu }
}

/// The reducer's transition table: insert or replace on registration, remove
/// on unregistration, patch one field on a change, replace wholesale on a
/// snapshot; changes for unknown names are no-ops.
pub open spec fn tray_apply(m: Map<Seq<char>, SNItem>, message: Message) -> Map<Seq<char>, SNItem> {
    match message {
        Message::Registered(item) => m.insert(item.name@, *item),
        Message::Unregistered(name) => m.remove(name@),
        Message::IconChanged(name, icon) => if m.contains_key(name@) {
            m.insert(name@, item_with_icon(m[name@], icon))
        } else {
            m
        },
        Message::MenuLayoutChanged(name, menu) => if m.contains_key(name@) {
            m.insert(name@, item_with_menu(m[name@], menu))
        } else {
            m
        },
        Message::UpdateItems(items) => items@,
    }
}

impl Message {
    /// Flattens one multiplexer event into a service message: registrations,
    /// removals and item changes pass through; the initial snapshot becomes
    /// an item-map replacement.
    pub fn from_tray(ev: TrayEvent) -> (r: Message)
        ensures
            match ev {
                TrayEvent::ItemRegistered(item) => r == Message::Registered(item),
                TrayEvent::ItemUnregistered(name) => r == Message::Unregistered(name),
                TrayEvent::SNItem(e) => match *e {
                    SNItemEvent::IconChanged(n, icon) => r == Message::IconChanged(n, icon),
                    SNItemEvent::MenuLayoutChanged(n, menu) => r == Message::MenuLayoutChanged(
                        n,
                        menu,
                    ),
                },
                TrayEvent::RegisteredItems(items) => r matches Message::UpdateItems(t) && t.wf()
                    && t@ == names_map(items@),
            },
    {
        match ev {
            TrayEvent::ItemRegistered(item) => Message::Registered(item),
            TrayEvent::ItemUnregistered(name) => Message::Unregistered(name),
            TrayEvent::SNItem(e) => match *e {
                SNItemEvent::IconChanged(n, icon) => Message::IconChanged(n, icon),
                SNItemEvent::MenuLayoutChanged(n, menu) => Message::MenuLayoutChanged(n, menu),
            },
            TrayEvent::RegisteredItems(items) => Message::UpdateItems(TrayItems::from_vec(items)),
        }
    }
}

/// The tray service: the current item map.
#[derive(Debug)]
pub struct TrayService {
    pub items: TrayItems,
}

impl TrayService {
    pub open spec fn wf(&self) -> bool {
        self.items.wf()
    }

    /// Starts with no items.
    pub fn new() -> (r: TrayService)
        ensures
            r.wf(),
            r.items@ == Map::<Seq<char>, SNItem>::empty(),
    {
        TrayService { items: TrayItems::new() }
    }

    /// Folds one message into the item map, as the transition table says.
    pub fn update(&mut self, message: Message)
        requires
            old(self).wf(),
            message matches Message::UpdateItems(items) ==> items.wf(),
        ensures
            final(self).wf(),
            final(self).items@ == tray_apply(old(self).items@, message),
    {
        match message {
            Message::Registered(item) => {
                upsert_item(&mut self.items.0, *item);
            },
            Message::Unregistered(name) => {
                remove_name(&mut self.items.0, &name);
            },
            Message::IconChanged(name, icon) => {
                let ghost s = self.items.0@;
                proof {
                    lemma_sorted_names_unique(s);
                    lemma_names_map(s);
                }
                match find_name(&self.items.0, &name) {
                    Some(i) => {
                        let mut it = self.items.0.remove(i);
                        it.icon = Some(icon);
                        self.items.0.insert(i, it);
                        proof {
                            assert(self.items.0@ =~= s.update(i as int, it));
                            lemma_names_map_update(s, i as int, it);
                            assert(sorted_names(self.items.0@)) by {
                                assert(forall|j: int|
                                    0 <= j < s.len() ==> self.items.0@[j].name@ == s[j].name@);
                            }
                            assert(it == item_with_icon(names_map(s)[name@], icon));
                        }
                    },
                    None => {
                        proof {
                            if names_map(s).contains_key(name@) {
                                let j = choose|j: int|
                                    0 <= j < s.len() && s[j].name@ == name@;
                            }
                        }
                    },
                }
            },
            Message::MenuLayoutChanged(name, menu) => {
                let ghost s = self.items.0@;
                proof {
                    lemma_sorted_names_unique(s);
                    lemma_names_map(s);
                }
                match find_name(&self.items.0, &name) {
                    Some(i) => {
                        let mut it = self.items.0.remove(i);
                        it.menu = menu;
                        self.items.0.insert(i, it);
                        proof {
                            assert(self.items.0@ =~= s.update(i as int, it));
                            lemma_names_map_update(s, i as int, it);
                            assert(sorted_names(self.items.0@)) by {
                                assert(forall|j: int|
                                    0 <= j < s.len() ==> self.items.0@[j].name@ == s[j].name@);
                            }
                        }
                    },
                    None => {
                        proof {
                            if names_map(s).contains_key(name@) {
                                let j = choose|j: int|
                                    0 <= j < s.len() && s[j].name@ == name@;
                            }
                        }
                    },
                }
            },
            Message::UpdateItems(items) => {
                self.items = items;
            },
        }
    }
}

} // verus!
