//! The tray registry's event machinery.
//!
//! Tray items live on the desktop bus; their sessions (proxies, signal
//! subscriptions) are outside the library.  What stands here is the shape of
//! the items and their events, the service-name split, the icon fallback
//! rule, and the registry multiplexer: a state machine over the connection
//! whose fan-in set of merged per-item streams grows as items register,
//! without restarting the streams already merged.

use vstd::prelude::*;

use crate::fdo_icons::FdIcon;
use crate::text::{push_char, str_chars, string_views};

verus! {

/// A menu tree fetched from a remote item, replaced wholesale on every
/// layout-changed notification.
#[derive(Debug)]
pub struct MenuLayout {
    pub id: i32,
    pub label: String,
    pub children: Vec<MenuLayout>,
}

impl MenuLayout {
    /// The empty menu root.
    pub fn empty() -> (r: MenuLayout)
        ensures
            r.id == 0,
            r.label@.len() == 0,
            r.children@.len() == 0,
    {
        MenuLayout { id: 0, label: String::new(), children: Vec::new() }
    }
}

/// One tray item, as the registry tracks it.  The live bus handles of its
/// session stay with the session owner outside the library.
#[derive(Debug)]
pub struct SNItem {
    pub name: String,
    pub title: String,
    pub tool_tip: Option<(Option<FdIcon>, String, String)>,
    pub icon: Option<FdIcon>,
    pub menu: MenuLayout,
}

/// What one item's merged sub-streams can report.
#[derive(Debug)]
pub enum SNItemEvent {
    IconChanged(String, FdIcon),
    MenuLayoutChanged(String, MenuLayout),
}

/// What the registry's outer stream emits.
#[derive(Debug)]
pub enum TrayEvent {
    ItemRegistered(Box<SNItem>),
    ItemUnregistered(String),
    SNItem(Box<SNItemEvent>),
    RegisteredItems(Vec<SNItem>),
}

/// Index of the first '/' of a sequence, if any.
pub open spec fn find_slash(s: Seq<char>) -> Option<int>
    decreases s.len(),
{
    if s.len() == 0 {
        None
    } else if s[0] == '/' {
        Some(0)
    } else {
        match find_slash(s.drop_first()) {
            Some(i) => Some(i + 1),
            None => None,
        }
    }
}

/// `find_slash` names the first slash: the character there is '/', and none
/// before it is.
pub proof fn lemma_find_slash(s: Seq<char>)
    ensures
        match find_slash(s) {
            Some(i) => 0 <= i < s.len() && s[i] == '/' && forall|j: int|
                0 <= j < i ==> s[j] != '/',
            None => forall|j: int| 0 <= j < s.len() ==> s[j] != '/',
        },
    decreases s.len(),
{
    if s.len() > 0 && s[0] != '/' {
        lemma_find_slash(s.drop_first());
        let t = s.drop_first();
        assert(forall|j: int| 0 <= j < t.len() ==> t[j] == s[j + 1]);
        match find_slash(s) {
            Some(i) => {
                assert(find_slash(t) == Some(i - 1));
                assert forall|j: int| 0 <= j < i implies s[j] != '/' by {
                    if j > 0 {
                        assert(t[j - 1] != '/');
                    }
                }
            },
            None => {
                assert forall|j: int| 0 <= j < s.len() implies s[j] != '/' by {
                    if j > 0 {
                        assert(t[j - 1] != '/');
                    }
                }
            },
        }
    }
}

/// Splits a tray item's bus address into destination and object path: the
/// part before the first '/' and the part from it on, or the whole name with
/// the well-known default path when no path is embedded.
pub fn split_service_name(name: &str) -> (r: (String, String))
    ensures
        match find_slash(name@) {
            Some(i) => r.0@ == name@.subrange(0, i) && r.1@ == name@.skip(i),
            None => r.0@ == name@ && r.1@ == "/StatusNotifierItem"@,
        },
{
    proof {
        lemma_find_slash(name@);
    }
    let chars = str_chars(name);
    let mut i: usize = 0;
    while i < chars.len()
        invariant
            i <= chars@.len(),
            chars@ == name@,
            forall|j: int| 0 <= j < i ==> chars@[j] != '/',
        decreases chars@.len() - i,
    {
        if chars[i] == '/' {
            proof {
                lemma_find_slash(name@);
                match find_slash(name@) {
                    Some(k) => {
                        assert(k == i) by {
                            if k < i {
                                assert(name@[k] != '/');
                            }
                            if k > i {
                                assert(name@[i as int] != '/');
                            }
                        }
                    },
                    None => {
                        assert(name@[i as int] != '/');
                    },
                }
            }
            let mut dest = String::new();
            let mut j: usize = 0;
            while j < i
                invariant
                    j <= i <= chars@.len(),
                    chars@ == name@,
                    dest@ == name@.subrange(0, j as int),
                decreases i - j,
            {
                push_char(&mut dest, chars[j]);
                proof {
                    assert(dest@ =~= name@.subrange(0, j + 1));
                }
                j = j + 1;
            }
            let mut path = String::new();
            let mut j: usize = i;
            while j < chars.len()
                invariant
                    i <= j <= chars@.len(),
                    chars@ == name@,
                    path@ == name@.subrange(i as int, j as int),
                decreases chars@.len() - j,
            {
                push_char(&mut path, chars[j]);
                proof {
                    assert(path@ =~= name@.subrange(i as int, j + 1));
                }
                j = j + 1;
            }
            proof {
                assert(path@ =~= name@.skip(i as int));
            }
            return (dest, path);
        }
        i = i + 1;
    }
    proof {
        lemma_find_slash(name@);
        match find_slash(name@) {
            Some(k) => {
                assert(name@[k] != '/');
            },
            None => (),
        }
    }
    (name.to_owned(), "/StatusNotifierItem".to_owned())
}

/// The icon fallback rule: a raw pixmap wins; otherwise the icon resolved
/// from the item's icon name.
pub fn icon_fallback(pixmap: Option<FdIcon>, named: Option<FdIcon>) -> (r: Option<FdIcon>)
    ensures
        r == if pixmap is Some {
            pixmap
        } else {
            named
        },
{
    match pixmap {
        Some(icon) => Some(icon),
        None => named,
    }
}

/// The names of a list of items.
pub open spec fn item_names(items: Seq<SNItem>) -> Seq<Seq<char>> {
    items.map_values(|it: SNItem| it.name@)
}

/// How one pulled event changes the fan-in set: a registration splices the
/// new item's stream in; everything else leaves the set alone.  An
/// unregistered item's stream is not removed: it ends on its own when the
/// remote connection drops, and simply stops producing.
pub open spec fn spec_merged_after(merged: Seq<Seq<char>>, ev: TrayEvent) -> Seq<Seq<char>> {
    match ev {
        TrayEvent::ItemRegistered(item) => merged.push(item.name@),
        _ => merged,
    }
}

/// The registry multiplexer's connection state.  `Active` carries the names
/// of the items whose event streams are merged into the fan-in; the driver
/// holds the streams themselves.  `Error` is terminal: the outer stream ends.
#[derive(Debug)]
pub enum StreamState {
    Init,
    Active { merged: Vec<String> },
    Error,
}

impl StreamState {
    /// Before any connection was made.
    pub fn start() -> (r: StreamState)
        ensures
            r is Init,
    {
        StreamState::Init
    }

    /// Establishing the connection, registering as the tray watcher,
    /// enumerating items or opening the registration stream failed: the
    /// machine is dead, and the stream ends after the error is surfaced.
    pub fn on_setup_failed(self) -> (r: StreamState)
        requires
            self is Init,
        ensures
            r is Error,
    {
        StreamState::Error
    }

    /// Setup succeeded with the enumerated items: every item's stream is in
    /// the fan-in, and the one synthetic snapshot event goes out.
    pub fn on_setup(self, items: Vec<SNItem>) -> (r: (StreamState, TrayEvent))
        requires
            self is Init,
        ensures
            r.0 matches StreamState::Active { merged } && string_views(merged@) == item_names(
                items@,
            ),
            r.1 == TrayEvent::RegisteredItems(items),
    {
        let mut merged: Vec<String> = Vec::new();
        let mut i: usize = 0;
        proof {
            assert(string_views(merged@) =~= item_names(items@.subrange(0, 0)));
        }
        while i < items.len()
            invariant
                i <= items@.len(),
                string_views(merged@) == item_names(items@.subrange(0, i as int)),
            decreases items@.len() - i,
        {
            let ghost pre = merged@;
            merged.push(items[i].name.clone());
            proof {
                assert(items@.subrange(0, i + 1).drop_last() =~= items@.subrange(0, i as int));
                assert(string_views(merged@) =~= string_views(pre).push(items@[i as int].name@));
                assert(item_names(items@.subrange(0, i + 1)) =~= item_names(
                    items@.subrange(0, i as int),
                ).push(items@[i as int].name@));
            }
            i = i + 1;
        }
        proof {
            assert(items@.subrange(0, items@.len() as int) =~= items@);
        }
        (StreamState::Active { merged }, TrayEvent::RegisteredItems(items))
    }

    /// One event pulled from the combined stream while active.  A
    /// registration grows the fan-in by the new item's stream — the streams
    /// already merged keep running untouched — and every event is passed on
    /// unchanged.
    pub fn on_event(self, ev: TrayEvent) -> (r: (StreamState, TrayEvent))
        requires
            self matches StreamState::Active { .. },
        ensures
            match (self, r.0) {
                (
                    StreamState::Active { merged: before },
                    StreamState::Active { merged: after },
                ) => string_views(after@) == spec_merged_after(string_views(before@), ev),
                _ => false,
            },
            r.1 == ev,
    {
        match self {
            StreamState::Active { mut merged } => {
                let ghost before = merged@;
                match &ev {
                    TrayEvent::ItemRegistered(item) => {
                        merged.push(item.name.clone());
                        proof {
                            assert(string_views(merged@) =~= string_views(before).push(
                                item.name@,
                            ));
                        }
                    },
                    _ => (),
                }
                (StreamState::Active { merged }, ev)
            },
            StreamState::Init => {
                proof {
                    assert(false);
                }
                (StreamState::Error, ev)
            },
            StreamState::Error => {
                proof {
                    assert(false);
                }
                (StreamState::Error, ev)
            },
        }
    }
}

/// Law: registering an item grows the fan-in without a restart.  After the
/// registration of `item`, the stream of every item already merged is still
/// in the fan-in, at its old position, so no event of theirs is lost; the new
/// item's stream joins at the end, so its later notifications appear in the
/// merged stream.
pub proof fn lemma_fanin_growth(merged: Seq<Seq<char>>, item: Box<SNItem>, j: int)
    requires
        0 <= j < merged.len(),
    ensures
        spec_merged_after(merged, TrayEvent::ItemRegistered(item)).len() == merged.len() + 1,
        spec_merged_after(merged, TrayEvent::ItemRegistered(item))[j] == merged[j],
        spec_merged_after(merged, TrayEvent::ItemRegistered(item))[merged.len() as int]
            == item.name@,
{
}

} // verus!
