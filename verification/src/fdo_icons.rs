//! Icon-name matching.
//!
//! Tray items name their icons loosely; the desktop's icon themes name files
//! strictly.  The heuristics here bridge the two: normalize a name to its
//! lowercase alphanumeric core, collect system icon names whose cores overlap
//! with it, and fall back to the longest-prefix match over the normalized
//! system names.  The system icon name table comes from the caller: reading
//! the icon directories is I/O and stays outside the library, as does the
//! theme lookup itself, which depends on what is installed on disk.

use vstd::prelude::*;

use crate::text::{contains_seq, push_char, str_chars, string_views, vec_contains};

verus! {

/// A resolved icon: the path of an SVG file, the path of a raster image, or
/// a raw ARGB pixmap an item pushed over the bus.
#[derive(Debug, Clone)]
pub enum FdIcon {
    Image(String),
    Svg(String),
    Pixmap { width: i32, height: i32, bytes: Vec<u8> },
}

/// What str::to_lowercase returns for given characters.
pub uninterp spec fn lower_of(s: Seq<char>) -> Seq<char>;

/// Relies on str::to_lowercase: the result depends on the characters alone,
/// and an empty string stays empty.
#[verifier::external_body]
pub fn lowercase(s: &str) -> (r: String)
    ensures
        r@ == lower_of(s@),
        s@.len() == 0 ==> r@.len() == 0,
{
    s.to_lowercase()
}

/// Relies on freedesktop_icons::lookup: searches the icon themes installed on
/// disk, so nothing is promised of the result.
#[verifier::external_body]
fn lookup_icon_path(icon_name: &str, theme: Option<&str>) -> (r: Option<String>)
{
    let builder = freedesktop_icons::lookup(icon_name).with_cache();
    let builder = match theme {
        Some(t) => builder.with_theme(t),
        None => builder,
    };
    builder.find().and_then(|p| p.into_os_string().into_string().ok())
}

/// ASCII letters and digits.
pub open spec fn is_ascii_alnum(c: char) -> bool {
    ('0' as u32) <= (c as u32) <= ('9' as u32) || ('a' as u32) <= (c as u32) <= ('z' as u32) || (
    'A' as u32) <= (c as u32) <= ('Z' as u32)
}

fn ascii_alnum(c: char) -> (r: bool)
    ensures
        r == is_ascii_alnum(c),
{
    let u = c as u32;
    (('0' as u32) <= u && u <= ('9' as u32)) || (('a' as u32) <= u && u <= ('z' as u32)) || ((
    'A' as u32) <= u && u <= ('Z' as u32))
}

/// The ASCII-alphanumeric characters of a sequence, in order.
pub open spec fn keep_alnum(s: Seq<char>) -> Seq<char>
    decreases s.len(),
{
    if s.len() == 0 {
        Seq::empty()
    } else {
        let front = keep_alnum(s.drop_last());
        if is_ascii_alnum(s.last()) {
            front.push(s.last())
        } else {
            front
        }
    }
}

/// The normalized core of an icon name: lowercased, keeping letters and
/// digits only.
pub open spec fn spec_normalize(s: Seq<char>) -> Seq<char> {
    keep_alnum(lower_of(s))
}

/// Normalizes an icon name to its comparable core.
pub fn normalize_icon_name(name: &str) -> (r: String)
    ensures
        r@ == spec_normalize(name@),
{
    let low = lowercase(name);
    let chars = str_chars(low.as_str());
    let mut r = String::new();
    let mut i: usize = 0;
    proof {
        assert(chars@.subrange(0, 0) =~= Seq::<char>::empty());
    }
    while i < chars.len()
        invariant
            i <= chars@.len(),
            chars@ == lower_of(name@),
            r@ == keep_alnum(chars@.subrange(0, i as int)),
        decreases chars@.len() - i,
    {
        proof {
            assert(chars@.subrange(0, i + 1).drop_last() =~= chars@.subrange(0, i as int));
            assert(chars@.subrange(0, i + 1).last() == chars@[i as int]);
        }
        if ascii_alnum(chars[i]) {
            push_char(&mut r, chars[i]);
        }
        i = i + 1;
    }
    proof {
        assert(chars@.subrange(0, chars@.len() as int) =~= chars@);
    }
    r
}

/// The system names similar to core `n`, in table order, capped at `room`:
/// a name is similar when its core differs from `n` but one contains the
/// other.
pub open spec fn similar_list(names: Seq<Seq<char>>, n: Seq<char>, room: nat) -> Seq<Seq<char>>
    decreases names.len(),
{
    if names.len() == 0 || room == 0 {
        Seq::empty()
    } else {
        let cn = spec_normalize(names[0]);
        if cn != n && (contains_seq(cn, n) || contains_seq(n, cn)) {
            seq![names[0]] + similar_list(names.drop_first(), n, (room - 1) as nat)
        } else {
            similar_list(names.drop_first(), n, room)
        }
    }
}

/// Collects up to five system icon names whose normalized core overlaps the
/// given name's; none when the table is empty or nothing matches.
pub fn similar_icon_names(names: &Vec<String>, icon_name: &str) -> (r: Option<Vec<String>>)
    ensures
        match r {
            Some(v) => string_views(v@) == similar_list(
                string_views(names@),
                spec_normalize(icon_name@),
                5,
            ) && v@.len() > 0,
            None => names@.len() == 0 || similar_list(
                string_views(names@),
                spec_normalize(icon_name@),
                5,
            ) == Seq::<Seq<char>>::empty(),
        },
{
    if names.len() == 0 {
        return None;
    }
    let ghost all = string_views(names@);
    let ghost nspec = spec_normalize(icon_name@);
    let n = normalize_icon_name(icon_name);
    let nv = str_chars(n.as_str());
    let mut matches: Vec<String> = Vec::new();
    let mut i: usize = 0;
    proof {
        assert(all.skip(0) =~= all);
        assert(string_views(matches@) =~= Seq::<Seq<char>>::empty());
    }
    while i < names.len() && matches.len() < 5
        invariant
            i <= names@.len(),
            matches@.len() <= 5,
            all == string_views(names@),
            nspec == spec_normalize(icon_name@),
            n@ == nspec,
            nv@ == n@,
            similar_list(all, nspec, 5) == string_views(matches@) + similar_list(
                all.skip(i as int),
                nspec,
                (5 - matches@.len()) as nat,
            ),
        decreases names@.len() - i,
    {
        let ghost rem = all.skip(i as int);
        let ghost room = (5 - matches@.len()) as nat;
        proof {
            assert(rem[0] == all[i as int]);
            assert(all[i as int] == names@[i as int]@);
            assert(rem.drop_first() =~= all.skip(i + 1));
        }
        let cn = normalize_icon_name(names[i].as_str());
        let cnv = str_chars(cn.as_str());
        let is_similar = !(cn == n) && (vec_contains(&cnv, &nv) || vec_contains(&nv, &cnv));
        if is_similar {
            let ghost pre = matches@;
            matches.push(names[i].clone());
            proof {
                assert(names@[i as int]@ == matches@.last()@);
                assert(string_views(matches@) =~= string_views(pre).push(names@[i as int]@));
                assert(similar_list(rem, nspec, room) == seq![names@[i as int]@] + similar_list(
                    rem.drop_first(),
                    nspec,
                    (room - 1) as nat,
                ));
                assert(string_views(pre) + (seq![names@[i as int]@] + similar_list(
                    all.skip(i + 1),
                    nspec,
                    (room - 1) as nat,
                )) =~= string_views(matches@) + similar_list(
                    all.skip(i + 1),
                    nspec,
                    (room - 1) as nat,
                ));
            }
        } else {
            proof {
                assert(similar_list(rem, nspec, room) == similar_list(
                    all.skip(i + 1),
                    nspec,
                    room,
                ));
            }
        }
        i = i + 1;
    }
    proof {
        if matches@.len() < 5 {
            assert(all.skip(i as int) =~= Seq::<Seq<char>>::empty());
        }
        assert(similar_list(all.skip(i as int), nspec, (5 - matches@.len()) as nat)
            == Seq::<Seq<char>>::empty());
        assert(similar_list(all, nspec, 5) =~= string_views(matches@));
    }
    if matches.len() == 0 {
        None
    } else {
        Some(matches)
    }
}

/// The views of a table of (name, normalized name) entries.
pub open spec fn pair_views(es: Seq<(String, String)>) -> Seq<(Seq<char>, Seq<char>)> {
    es.map_values(|e: (String, String)| (e.0@, e.1@))
}

/// The entries whose normalized name has character `c` at position `idx`.
pub open spec fn prefix_step(
    cands: Seq<(Seq<char>, Seq<char>)>,
    c: char,
    idx: int,
) -> Seq<(Seq<char>, Seq<char>)>
    decreases cands.len(),
{
    if cands.len() == 0 {
        Seq::empty()
    } else {
        let rest = prefix_step(cands.drop_first(), c, idx);
        if 0 <= idx < cands[0].1.len() && cands[0].1[idx] == c {
            seq![cands[0]] + rest
        } else {
            rest
        }
    }
}

/// The longest-prefix scan: narrow the candidates by each character of the
/// core in turn; a single survivor wins at once, no survivor loses, and when
/// the core runs out the first remaining entry wins.
pub open spec fn prefix_scan(
    cands: Seq<(Seq<char>, Seq<char>)>,
    n: Seq<char>,
    idx: int,
) -> Option<Seq<char>>
    decreases n.len() - idx,
{
    if idx < 0 || idx >= n.len() {
        if cands.len() == 0 {
            None
        } else {
            Some(cands[0].0)
        }
    } else {
        let cands2 = prefix_step(cands, n[idx], idx);
        if cands2.len() == 1 {
            Some(cands2[0].0)
        } else if cands2.len() == 0 {
            None
        } else {
            prefix_scan(cands2, n, idx + 1)
        }
    }
}

/// One narrowing round over the surviving entries.
fn prefix_filter(cands: &Vec<(String, String)>, c: char, idx: usize) -> (r: Vec<(String, String)>)
    ensures
        pair_views(r@) == prefix_step(pair_views(cands@), c, idx as int),
{
    let ghost all = pair_views(cands@);
    let mut out: Vec<(String, String)> = Vec::new();
    let mut i: usize = 0;
    proof {
        assert(all.skip(0) =~= all);
        assert(pair_views(out@) =~= Seq::<(Seq<char>, Seq<char>)>::empty());
        assert(prefix_step(all, c, idx as int) =~= pair_views(out@) + prefix_step(
            all.skip(0),
            c,
            idx as int,
        ));
    }
    while i < cands.len()
        invariant
            i <= cands@.len(),
            all == pair_views(cands@),
            prefix_step(all, c, idx as int) == pair_views(out@) + prefix_step(
                all.skip(i as int),
                c,
                idx as int,
            ),
        decreases cands@.len() - i,
    {
        let ghost rem = all.skip(i as int);
        proof {
            assert(rem[0] == all[i as int]);
            assert(all[i as int] == (cands@[i as int].0@, cands@[i as int].1@));
            assert(rem.drop_first() =~= all.skip(i + 1));
        }
        let norm = str_chars(cands[i].1.as_str());
        let keep = idx < norm.len() && norm[idx] == c;
        if keep {
            let ghost pre = out@;
            out.push((cands[i].0.clone(), cands[i].1.clone()));
            proof {
                assert(pair_views(out@) =~= pair_views(pre).push(all[i as int]));
                assert(pair_views(pre) + (seq![all[i as int]] + prefix_step(
                    all.skip(i + 1),
                    c,
                    idx as int,
                )) =~= pair_views(out@) + prefix_step(all.skip(i + 1), c, idx as int));
            }
        }
        i = i + 1;
    }
    proof {
        assert(all.skip(i as int) =~= Seq::<(Seq<char>, Seq<char>)>::empty());
        assert(pair_views(out@) =~= prefix_step(all, c, idx as int));
    }
    out
}

/// The longest-prefix match of an icon name over the (name, normalized name)
/// table.
pub fn prefix_match_icon(entries: &Vec<(String, String)>, icon_name: &str) -> (r: Option<String>)
    ensures
        match r {
            Some(s) => prefix_scan(pair_views(entries@), spec_normalize(icon_name@), 0) == Some(
                s@,
            ),
            None => prefix_scan(pair_views(entries@), spec_normalize(icon_name@), 0) is None,
        },
{
    let ghost nspec = spec_normalize(icon_name@);
    let n = normalize_icon_name(icon_name);
    let nv = str_chars(n.as_str());
    let mut cands: Vec<(String, String)> = Vec::new();
    let mut i: usize = 0;
    while i < entries.len()
        invariant
            i <= entries@.len(),
            cands@.len() == i,
            forall|j: int| 0 <= j < i ==> pair_views(cands@)[j] == pair_views(entries@)[j],
        decreases entries@.len() - i,
    {
        cands.push((entries[i].0.clone(), entries[i].1.clone()));
        i = i + 1;
    }
    proof {
        assert(pair_views(cands@) =~= pair_views(entries@));
    }
    let mut idx: usize = 0;
    while idx < nv.len()
        invariant
            idx <= nv@.len(),
            nv@ == n@,
            n@ == nspec,
            nspec == spec_normalize(icon_name@),
            prefix_scan(pair_views(entries@), nspec, 0) == prefix_scan(
                pair_views(cands@),
                nspec,
                idx as int,
            ),
        decreases nv@.len() - idx,
    {
        let filtered = prefix_filter(&cands, nv[idx], idx);
        proof {
            assert(nv@[idx as int] == nspec[idx as int]);
            assert(pair_views(filtered@) == prefix_step(
                pair_views(cands@),
                nspec[idx as int],
                idx as int,
            ));
            assert(pair_views(filtered@).len() == filtered@.len());
        }
        if filtered.len() == 1 {
            proof {
                assert(pair_views(filtered@)[0] == (filtered@[0].0@, filtered@[0].1@));
                assert(prefix_scan(pair_views(cands@), nspec, idx as int) == Some(
                    filtered@[0].0@,
                ));
            }
            return Some(filtered[0].0.clone());
        }
        if filtered.len() == 0 {
            proof {
                assert(prefix_scan(pair_views(cands@), nspec, idx as int) is None);
            }
            return None;
        }
        cands = filtered;
        idx = idx + 1;
    }
    if cands.len() == 0 {
        None
    } else {
        proof {
            assert(pair_views(cands@)[0] == (cands@[0].0@, cands@[0].1@));
        }
        Some(cands[0].0.clone())
    }
}

/// Looks a name up in the preferred theme, then in any theme.
fn find_icon_path(icon_name: &str) -> Option<String> {
    match lookup_icon_path(icon_name, Some("Papirus-Dark")) {
        Some(p) => Some(p),
        None => lookup_icon_path(icon_name, None),
    }
}

/// A path names an SVG file when it ends in ".svg".
pub open spec fn is_svg_path(s: Seq<char>) -> bool {
    s.len() >= 4 && s.skip(s.len() - 4) == ".svg"@
}

/// Wraps a found icon file path: SVG paths make SVG icons, the rest raster
/// images.
pub fn fd_icon_from_path(path: String) -> (r: FdIcon)
    ensures
        r == if is_svg_path(path@) {
            FdIcon::Svg(path)
        } else {
            FdIcon::Image(path)
        },
{
    let chars = str_chars(path.as_str());
    proof {
        reveal_strlit(".svg");
    }
    let is_svg = if chars.len() >= 4 {
        let base = chars.len() - 4;
        let m = chars[base] == '.' && chars[base + 1] == 's' && chars[base + 2] == 'v'
            && chars[base + 3] == 'g';
        proof {
            let sk = path@.skip(path@.len() - 4);
            if m {
                assert(sk =~= ".svg"@);
            } else {
                assert(sk.len() == 4);
                if chars@[base as int] != '.' {
                    assert(sk[0] != (".svg"@)[0]);
                } else if chars@[base + 1] != 's' {
                    assert(sk[1] != (".svg"@)[1]);
                } else if chars@[base + 2] != 'v' {
                    assert(sk[2] != (".svg"@)[2]);
                } else {
                    assert(sk[3] != (".svg"@)[3]);
                }
                assert(sk != ".svg"@);
            }
        }
        m
    } else {
        false
    };
    if is_svg {
        FdIcon::Svg(path)
    } else {
        FdIcon::Image(path)
    }
}

/// A similar name whose icon the themes actually hold.
pub fn find_similar_icon_path(names: &Vec<String>, icon_name: &str) -> (r: Option<String>)
    ensures
        r is Some ==> names@.len() > 0,
{
    match similar_icon_names(names, icon_name) {
        Some(candidates) => {
            proof {
                if names@.len() == 0 {
                    assert(string_views(names@) =~= Seq::<Seq<char>>::empty());
                }
            }
            let mut i: usize = 0;
            while i < candidates.len()
                invariant
                    names@.len() > 0,
                decreases candidates@.len() - i,
            {
                match find_icon_path(candidates[i].as_str()) {
                    Some(p) => {
                        return Some(p);
                    },
                    None => (),
                }
                i = i + 1;
            }
            None
        },
        None => None,
    }
}

/// A prefix-matched name whose icon the themes actually hold.
pub fn find_prefix_icon_path(entries: &Vec<(String, String)>, icon_name: &str) -> Option<String> {
    match prefix_match_icon(entries, icon_name) {
        Some(name) => find_icon_path(name.as_str()),
        None => None,
    }
}

/// Resolves an icon name to an icon: the direct theme lookup first, then a
/// similar system name, then the longest-prefix match.  `names` is the system
/// icon name table and `entries` its (name, normalized name) form, both
/// collected by the caller.
pub fn find(names: &Vec<String>, entries: &Vec<(String, String)>, icon_name: &str) -> (r: Option<
    FdIcon,
>)
    ensures
        match r {
            Some(icon) => match icon {
                FdIcon::Svg(p) => is_svg_path(p@),
                FdIcon::Image(p) => !is_svg_path(p@),
                FdIcon::Pixmap { .. } => false,
            },
            None => true,
        },
{
    let path = match find_icon_path(icon_name) {
        Some(p) => Some(p),
        None => match find_similar_icon_path(names, icon_name) {
            Some(p) => Some(p),
            None => find_prefix_icon_path(entries, icon_name),
        },
    };
    match path {
        Some(p) => Some(fd_icon_from_path(p)),
        None => None,
    }
}

} // verus!
