//! The model behind the space navigator column: the cached subspaces of each
//! space, which subspaces are expanded, the selection, and the flattened
//! tree of entries that the column draws.
use vstd::prelude::*;
use crate::text::{append_decimal, decimal};

verus! {

/// What the navigator knows of one subspace: its room id, its display name
/// and how many children it has.
pub struct SubspaceDisplayInfo {
    pub room_id: String,
    pub display_name: String,
    pub children_count: u64,
}

/// The view of a `SubspaceDisplayInfo`.
pub struct InfoView {
    pub room_id: Seq<char>,
    pub display_name: Seq<char>,
    pub children_count: u64,
}

impl View for SubspaceDisplayInfo {
    type V = InfoView;

    open spec fn view(&self) -> InfoView {
        InfoView {
            room_id: self.room_id@,
            display_name: self.display_name@,
            children_count: self.children_count,
        }
    }
}

/// One row of the flattened tree: a subspace and its depth below the top space.
pub struct NavigatorTreeEntry {
    pub room_id: String,
    pub display_name: String,
    pub children_count: u64,
    pub level: usize,
}

/// The view of a `NavigatorTreeEntry`.
pub struct EntryView {
    pub room_id: Seq<char>,
    pub display_name: Seq<char>,
    pub children_count: u64,
    pub level: nat,
}

impl View for NavigatorTreeEntry {
    type V = EntryView;

    open spec fn view(&self) -> EntryView {
        EntryView {
            room_id: self.room_id@,
            display_name: self.display_name@,
            children_count: self.children_count,
            level: self.level as nat,
        }
    }
}

/// The cached subspaces of one space.
pub struct CacheEntry {
    pub space_id: String,
    pub infos: Vec<SubspaceDisplayInfo>,
}

/// The view of a `CacheEntry`.
pub struct CacheEntryView {
    pub space_id: Seq<char>,
    pub infos: Seq<InfoView>,
}

impl View for CacheEntry {
    type V = CacheEntryView;

    open spec fn view(&self) -> CacheEntryView {
        CacheEntryView { space_id: self.space_id@, infos: infos_view(self.infos@) }
    }
}

/// The views of a sequence of subspace infos.
pub open spec fn infos_view(v: Seq<SubspaceDisplayInfo>) -> Seq<InfoView> {
    v.map_values(|i: SubspaceDisplayInfo| i@)
}

/// The views of a sequence of tree entries.
pub open spec fn entries_view(v: Seq<NavigatorTreeEntry>) -> Seq<EntryView> {
    v.map_values(|e: NavigatorTreeEntry| e@)
}

/// The views of the cache entries.
pub open spec fn cache_view(v: Seq<CacheEntry>) -> Seq<CacheEntryView> {
    v.map_values(|e: CacheEntry| e@)
}

/// The set of room ids held in `v`.
pub open spec fn key_set(v: Seq<String>) -> Set<Seq<char>> {
    Set::new(|k: Seq<char>| exists|i: int| 0 <= i < v.len() && v[i]@ == k)
}

/// No room id occurs twice in `v`.
pub open spec fn keys_unique(v: Seq<String>) -> bool {
    forall|i: int, j: int| 0 <= i < j < v.len() ==> v[i]@ != v[j]@
}

/// No space has two entries in `cache`.
pub open spec fn ids_unique(cache: Seq<CacheEntryView>) -> bool {
    forall|i: int, j: int| 0 <= i < j < cache.len() ==> cache[i].space_id != cache[j].space_id
}

/// The cached subspaces of `id` (the first cache entry for it).
pub open spec fn cache_get(cache: Seq<CacheEntryView>, id: Seq<char>) -> Option<Seq<InfoView>>
    decreases cache.len(),
{
    if cache.len() == 0 {
        None
    } else if cache[0].space_id == id {
        Some(cache[0].infos)
    } else {
        cache_get(cache.drop_first(), id)
    }
}

/// The cache after storing `infos` as the subspaces of `id`: the entry for
/// `id` is replaced, or a new one added at the end.
pub open spec fn cache_insert(cache: Seq<CacheEntryView>, id: Seq<char>, infos: Seq<InfoView>) -> Seq<
    CacheEntryView,
>
    decreases cache.len(),
{
    if cache.len() == 0 {
        seq![CacheEntryView { space_id: id, infos }]
    } else if cache[0].space_id == id {
        cache.update(0, CacheEntryView { space_id: id, infos })
    } else {
        seq![cache[0]] + cache_insert(cache.drop_first(), id, infos)
    }
}

/// How many cache entries are for spaces that are not in `path`.
pub open spec fn unvisited(cache: Seq<CacheEntryView>, path: Seq<Seq<char>>) -> nat
    decreases cache.len(),
{
    if cache.len() == 0 {
        0
    } else {
        unvisited(cache.drop_first(), path) + if path.contains(cache[0].space_id) {
            0nat
        } else {
            1nat
        }
    }
}

/// Adding a cached space that is not yet on the path leaves fewer unvisited entries.
pub proof fn lemma_unvisited_push(cache: Seq<CacheEntryView>, path: Seq<Seq<char>>, id: Seq<char>)
    ensures
        unvisited(cache, path.push(id)) <= unvisited(cache, path),
        cache_get(cache, id) is Some && !path.contains(id) ==> unvisited(cache, path.push(id))
            < unvisited(cache, path),
    decreases cache.len(),
{
    if cache.len() > 0 {
        lemma_unvisited_push(cache.drop_first(), path, id);
        assert(path.push(id).contains(cache[0].space_id) <==> (path.contains(cache[0].space_id)
            || cache[0].space_id == id)) by {
            if path.push(id).contains(cache[0].space_id) {
                let k = choose|k: int|
                    0 <= k < path.push(id).len() && path.push(id)[k] == cache[0].space_id;
                if k < path.len() {
                    assert(path[k] == cache[0].space_id);
                }
            }
            if path.contains(cache[0].space_id) {
                let k = choose|k: int| 0 <= k < path.len() && path[k] == cache[0].space_id;
                assert(path.push(id)[k] == cache[0].space_id);
            }
            if cache[0].space_id == id {
                assert(path.push(id)[path.len() as int] == id);
            }
        }
    }
}

/// There are never more unvisited entries than cache entries.
pub proof fn lemma_unvisited_bound(cache: Seq<CacheEntryView>, path: Seq<Seq<char>>)
    ensures
        unvisited(cache, path) <= cache.len(),
    decreases cache.len(),
{
    if cache.len() > 0 {
        lemma_unvisited_bound(cache.drop_first(), path);
    }
}

/// The row for subspace `info` at depth `level`.
pub open spec fn entry_of(info: InfoView, level: nat) -> EntryView {
    EntryView {
        room_id: info.room_id,
        display_name: info.display_name,
        children_count: info.children_count,
        level,
    }
}

/// The rows for the subspaces `infos` at depth `level`, each followed by the
/// rows below it where it is expanded, with `path` the spaces above them.
/// `None` where an expanded subspace is reached again below itself, so that
/// the tree would never end.
pub open spec fn flat_list(
    cache: Seq<CacheEntryView>,
    expanded: Set<Seq<char>>,
    infos: Seq<InfoView>,
    level: nat,
    path: Seq<Seq<char>>,
) -> Option<Seq<EntryView>>
    decreases unvisited(cache, path), infos.len(),
{
    if infos.len() == 0 {
        Some(seq![])
    } else {
        match flat_list(cache, expanded, infos.drop_last(), level, path) {
            None => None,
            Some(prefix) => {
                let info = infos.last();
                let rows = prefix.push(entry_of(info, level));
                if !expanded.contains(info.room_id) {
                    Some(rows)
                } else if path.contains(info.room_id) {
                    None
                } else {
                    match cache_get(cache, info.room_id) {
                        None => Some(rows),
                        Some(children) => {
                            proof {
                                lemma_unvisited_push(cache, path, info.room_id);
                            }
                            match flat_list(
                                cache,
                                expanded,
                                children,
                                level + 1,
                                path.push(info.room_id),
                            ) {
                                None => None,
                                Some(below) => Some(rows + below),
                            }
                        },
                    }
                }
            },
        }
    }
}

/// The flattened tree below the top space `top`: `None` where it never ends.
pub open spec fn spec_tree(
    cache: Seq<CacheEntryView>,
    expanded: Set<Seq<char>>,
    top: Option<Seq<char>>,
) -> Option<Seq<EntryView>> {
    match top {
        None => Some(seq![]),
        Some(t) => match cache_get(cache, t) {
            None => Some(seq![]),
            Some(infos) => flat_list(cache, expanded, infos, 0, seq![t]),
        },
    }
}

/// Once a prefix of the subspaces has no finite tree, neither has the whole.
proof fn lemma_flat_list_none_extends(
    cache: Seq<CacheEntryView>,
    expanded: Set<Seq<char>>,
    infos: Seq<InfoView>,
    level: nat,
    path: Seq<Seq<char>>,
    i: int,
)
    requires
        0 <= i <= infos.len(),
        flat_list(cache, expanded, infos.take(i), level, path) is None,
    ensures
        flat_list(cache, expanded, infos, level, path) is None,
    decreases infos.len() - i,
{
    if i < infos.len() {
        assert(infos.take(i + 1).drop_last() =~= infos.take(i));
        lemma_flat_list_none_extends(cache, expanded, infos, level, path, i + 1);
    } else {
        assert(infos.take(i) =~= infos);
    }
}

/// Raised where the expanded subspaces contain a space below itself, so that
/// the tree never ends.
struct SpaceCycle;

/// Actions the navigator emits to the rest of the app.
pub enum SpaceNavigatorAction {
    /// A subspace was selected; `None` means the top-level space itself.
    SubspaceSelected { subspace_id: Option<String> },
    /// No action (the default).
    NoAction,
}

/// Which expand marker an entry shows.
#[derive(PartialEq, Eq, Structural, Clone, Copy, Debug)]
pub enum ExpandIcon {
    /// The subspace has no children: no marker.
    NoChildren,
    /// Expanded: the marker points down.
    Expanded,
    /// Collapsed: the marker points right.
    Collapsed,
}

/// How one entry of the tree is drawn.
pub struct EntryPresentation {
    pub icon: ExpandIcon,
    pub info_text: String,
    pub selected: bool,
}

/// The text under an entry's name: `1 child`, `N children`, or nothing.
pub open spec fn children_text(n: u64) -> Seq<char> {
    if n == 1 {
        "1 child"@
    } else if n > 1 {
        decimal(n as nat) + " children"@
    } else {
        seq![]
    }
}

/// The model of the space navigator.
pub struct SpaceNavigator {
    visible: bool,
    current_top_space: Option<String>,
    current_top_space_name: String,
    tree_entries: Vec<NavigatorTreeEntry>,
    expanded_subspaces: Vec<String>,
    selected_subspace: Option<String>,
    subspace_cache: Vec<CacheEntry>,
}

/// The abstract state of the navigator.
pub struct NavigatorView {
    pub visible: bool,
    pub top: Option<Seq<char>>,
    pub top_name: Seq<char>,
    pub entries: Seq<EntryView>,
    pub expanded: Set<Seq<char>>,
    pub selected: Option<Seq<char>>,
    pub cache: Seq<CacheEntryView>,
}

/// The view of an optional string.
pub open spec fn opt_view(o: Option<String>) -> Option<Seq<char>> {
    match o {
        Some(s) => Some(s@),
        None => None,
    }
}

impl View for SpaceNavigator {
    type V = NavigatorView;

    closed spec fn view(&self) -> NavigatorView {
        NavigatorView {
            visible: self.visible,
            top: opt_view(self.current_top_space),
            top_name: self.current_top_space_name@,
            entries: entries_view(self.tree_entries@),
            expanded: key_set(self.expanded_subspaces@),
            selected: opt_view(self.selected_subspace),
            cache: cache_view(self.subspace_cache@),
        }
    }
}

/// Whether the top space has any cached subspaces.
pub open spec fn spec_has_subspaces(v: NavigatorView) -> bool {
    match v.top {
        None => false,
        Some(t) => match cache_get(v.cache, t) {
            Some(infos) => infos.len() > 0,
            None => false,
        },
    }
}

/// The expanded set after a click on `id`: expanded where it was collapsed,
/// collapsed where it was expanded.
pub open spec fn toggled(expanded: Set<Seq<char>>, id: Seq<char>) -> Set<Seq<char>> {
    if expanded.contains(id) {
        expanded.remove(id)
    } else {
        expanded.insert(id)
    }
}

/// Whether children for `space_id` concern the navigator: a top space is
/// shown, and `space_id` is it, is cached, or is expanded.
pub open spec fn concerns(v: NavigatorView, space_id: Seq<char>) -> bool {
    match v.top {
        None => false,
        Some(t) => t == space_id || cache_get(v.cache, space_id) is Some || v.expanded.contains(
            space_id,
        ),
    }
}

/// While a top space is shown, children for the top space itself, for a
/// space already cached, or for an expanded space are taken; without a top
/// space none are.
pub proof fn law_updates_taken(v: NavigatorView, id: Seq<char>)
    ensures
        v.top == Some(id) ==> concerns(v, id),
        v.top is Some && cache_get(v.cache, id) is Some ==> concerns(v, id),
        v.top is Some && v.expanded.contains(id) ==> concerns(v, id),
        v.top is None ==> !concerns(v, id),
{
}

/// Whether `key_set(v)` holds `k`.
fn contains_key(v: &Vec<String>, k: &String) -> (b: bool)
    ensures
        b == key_set(v@).contains(k@),
{
    let mut i: usize = 0;
    while i < v.len()
        invariant
            i <= v@.len(),
            forall|j: int| 0 <= j < i ==> v@[j]@ != k@,
        decreases v@.len() - i,
    {
        if v[i].eq(k) {
            assert(key_set(v@).contains(k@));
            return true;
        }
        i = i + 1;
    }
    false
}

/// `v` without every occurrence of `k`.
fn remove_key(v: &Vec<String>, k: &String) -> (r: Vec<String>)
    ensures
        key_set(r@) == key_set(v@).remove(k@),
        keys_unique(v@) ==> keys_unique(r@),
{
    let mut r: Vec<String> = Vec::new();
    let mut i: usize = 0;
    while i < v.len()
        invariant
            i <= v@.len(),
            forall|x: Seq<char>|
                key_set(r@).contains(x) <==> (x != k@ && exists|j: int|
                    0 <= j < i && v@[j]@ == x),
            keys_unique(v@) ==> keys_unique(r@),
        decreases v@.len() - i,
    {
        let ghost old_r = r@;
        if !v[i].eq(k) {
            r.push(v[i].clone());
            proof {
                if keys_unique(v@) {
                    assert forall|a: int, b: int| 0 <= a < b < r@.len() implies r@[a]@ != r@[b]@ by {
                        if b == old_r.len() {
                            assert(r@[a] == old_r[a]);
                            assert(key_set(old_r).contains(old_r[a]@));
                            let j = choose|j: int| 0 <= j < i && v@[j]@ == old_r[a]@;
                            assert(v@[j]@ != v@[i as int]@);
                        } else {
                            assert(r@[a] == old_r[a] && r@[b] == old_r[b]);
                        }
                    }
                }
            }
        }
        assert forall|x: Seq<char>|
            key_set(r@).contains(x) <==> (x != k@ && exists|j: int|
                0 <= j < i + 1 && v@[j]@ == x) by {
            if key_set(r@).contains(x) {
                let a = choose|a: int| 0 <= a < r@.len() && r@[a]@ == x;
                if a < old_r.len() {
                    assert(old_r[a] == r@[a]);
                    assert(key_set(old_r).contains(x));
                } else {
                    assert(r@[a]@ == v@[i as int]@);
                }
            }
            if x != k@ && exists|j: int| 0 <= j < i + 1 && v@[j]@ == x {
                let j = choose|j: int| 0 <= j < i + 1 && v@[j]@ == x;
                if j < i {
                    assert(key_set(old_r).contains(x));
                    let a = choose|a: int| 0 <= a < old_r.len() && old_r[a]@ == x;
                    assert(r@[a] == old_r[a]);
                } else {
                    assert(r@[old_r.len() as int]@ == x);
                }
            }
        }
        i = i + 1;
    }
    assert(key_set(r@) =~= key_set(v@).remove(k@));
    r
}

/// Copies a list of subspace infos.
fn clone_infos(v: &Vec<SubspaceDisplayInfo>) -> (r: Vec<SubspaceDisplayInfo>)
    ensures
        infos_view(r@) == infos_view(v@),
{
    let mut r: Vec<SubspaceDisplayInfo> = Vec::new();
    let mut i: usize = 0;
    while i < v.len()
        invariant
            i <= v@.len(),
            infos_view(r@) == infos_view(v@.take(i as int)),
        decreases v@.len() - i,
    {
        let info = &v[i];
        let ghost old_r = r@;
        let c = SubspaceDisplayInfo {
            room_id: info.room_id.clone(),
            display_name: info.display_name.clone(),
            children_count: info.children_count,
        };
        assert(c@ == v@[i as int]@);
        r.push(c);
        assert(r@ == old_r.push(c));
        assert(v@.take(i + 1) =~= v@.take(i as int).push(v@[i as int]));
        assert(infos_view(r@) =~= infos_view(old_r).push(c@));
        assert(infos_view(v@.take(i + 1)) =~= infos_view(v@.take(i as int)).push(v@[i as int]@));
        i = i + 1;
    }
    assert(v@.take(v@.len() as int) =~= v@);
    r
}

/// The index of the cache entry for `id`.
fn cache_find(cache: &Vec<CacheEntry>, id: &String) -> (r: Option<usize>)
    ensures
        match r {
            Some(i) => i < cache@.len() && cache_get(cache_view(cache@), id@) == Some(
                cache_view(cache@)[i as int].infos,
            ) && cache_view(cache@)[i as int].space_id == id@ && forall|j: int|
                0 <= j < i ==> cache_view(cache@)[j].space_id != id@,
            None => cache_get(cache_view(cache@), id@) is None && forall|j: int|
                0 <= j < cache@.len() ==> cache_view(cache@)[j].space_id != id@,
        },
{
    let ghost cv = cache_view(cache@);
    let mut i: usize = 0;
    assert(cv.skip(0) =~= cv);
    while i < cache.len()
        invariant
            i <= cache@.len(),
            cv == cache_view(cache@),
            cache_get(cv, id@) == cache_get(cv.skip(i as int), id@),
            forall|j: int| 0 <= j < i ==> cv[j].space_id != id@,
        decreases cache@.len() - i,
    {
        assert(cv.skip(i as int)[0] == cv[i as int]);
        assert(cv.skip(i as int).drop_first() =~= cv.skip(i + 1));
        if cache[i].space_id.eq(id) {
            return Some(i);
        }
        i = i + 1;
    }
    assert(cv.skip(i as int) =~= Seq::<CacheEntryView>::empty());
    None
}

/// Storing `infos` for `id` gives `id` exactly those subspaces and leaves
/// every other space's cached subspaces as they were.
pub proof fn law_cache_insert_get(
    cache: Seq<CacheEntryView>,
    id: Seq<char>,
    infos: Seq<InfoView>,
    other: Seq<char>,
)
    ensures
        cache_get(cache_insert(cache, id, infos), id) == Some(infos),
        other != id ==> cache_get(cache_insert(cache, id, infos), other) == cache_get(
            cache,
            other,
        ),
    decreases cache.len(),
{
    if cache.len() > 0 {
        if cache[0].space_id == id {
            assert(cache.update(0, CacheEntryView { space_id: id, infos }).drop_first()
                =~= cache.drop_first());
            assert(cache.update(0, CacheEntryView { space_id: id, infos })[0].space_id == id);
            assert(cache_insert(cache, id, infos) == cache.update(
                0,
                CacheEntryView { space_id: id, infos },
            ));
            if other != id {
                let up = cache.update(0, CacheEntryView { space_id: id, infos });
                assert(cache_get(up, other) == cache_get(up.drop_first(), other));
                assert(cache_get(cache, other) == cache_get(cache.drop_first(), other));
            }
        } else {
            law_cache_insert_get(cache.drop_first(), id, infos, other);
            assert((seq![cache[0]] + cache_insert(cache.drop_first(), id, infos)).drop_first()
                =~= cache_insert(cache.drop_first(), id, infos));
            assert((seq![cache[0]] + cache_insert(cache.drop_first(), id, infos))[0] == cache[0]);
            let ins = seq![cache[0]] + cache_insert(cache.drop_first(), id, infos);
            assert(cache_insert(cache, id, infos) == ins);
            if other != id {
                if cache[0].space_id == other {
                    assert(cache_get(ins, other) == Some(cache[0].infos));
                } else {
                    assert(cache_get(ins, other) == cache_get(ins.drop_first(), other));
                    assert(cache_get(cache, other) == cache_get(cache.drop_first(), other));
                }
            }
        }
    } else {
        let one = seq![CacheEntryView { space_id: id, infos }];
        assert(one.drop_first() =~= Seq::<CacheEntryView>::empty());
        assert(cache_insert(cache, id, infos) == one);
        assert(one[0].space_id == id);
        if other != id {
            assert(cache_get(one, other) == cache_get(one.drop_first(), other));
        }
    }
}

/// Stores `infos` as the cached subspaces of `id`.
fn cache_store(cache: &mut Vec<CacheEntry>, id: String, infos: Vec<SubspaceDisplayInfo>)
    ensures
        cache_view(final(cache)@) == cache_insert(cache_view(old(cache)@), id@, infos_view(infos@)),
        ids_unique(cache_view(old(cache)@)) ==> ids_unique(cache_view(final(cache)@)),
{
    let ghost old_cv = cache_view(cache@);
    let found = cache_find(cache, &id);
    let ghost iv = infos_view(infos@);
    match found {
        Some(i) => {
            proof {
                lemma_cache_insert_at(old_cv, id@, iv, i as int);
            }
            let ghost sid = id@;
            cache.set(i, CacheEntry { space_id: id, infos });
            assert(cache_view(cache@) =~= old_cv.update(
                i as int,
                CacheEntryView { space_id: sid, infos: iv },
            ));
        },
        None => {
            proof {
                lemma_cache_insert_new(old_cv, id@, iv);
            }
            let ghost sid = id@;
            cache.push(CacheEntry { space_id: id, infos });
            assert(cache_view(cache@) =~= old_cv.push(CacheEntryView { space_id: sid, infos: iv }));
        },
    }
}

/// Where `id` is first cached at `i`, inserting replaces entry `i`.
proof fn lemma_cache_insert_at(cache: Seq<CacheEntryView>, id: Seq<char>, infos: Seq<InfoView>, i: int)
    requires
        0 <= i < cache.len(),
        cache_get(cache, id) == Some(cache[i].infos),
        cache[i].space_id == id,
        forall|j: int| 0 <= j < i ==> cache[j].space_id != id,
    ensures
        cache_insert(cache, id, infos) == cache.update(i, CacheEntryView { space_id: id, infos }),
    decreases cache.len(),
{
    if i > 0 {
        assert forall|j: int| 0 <= j < i - 1 implies cache.drop_first()[j].space_id != id by {
            assert(cache.drop_first()[j] == cache[j + 1]);
        }
        lemma_cache_insert_at(cache.drop_first(), id, infos, i - 1);
        assert(seq![cache[0]] + cache.drop_first().update(
            i - 1,
            CacheEntryView { space_id: id, infos },
        ) =~= cache.update(i, CacheEntryView { space_id: id, infos }));
    }
}

/// Where `id` is not cached, inserting adds an entry at the end.
proof fn lemma_cache_insert_new(cache: Seq<CacheEntryView>, id: Seq<char>, infos: Seq<InfoView>)
    requires
        cache_get(cache, id) is None,
    ensures
        cache_insert(cache, id, infos) == cache.push(CacheEntryView { space_id: id, infos }),
    decreases cache.len(),
{
    if cache.len() > 0 {
        lemma_cache_insert_new(cache.drop_first(), id, infos);
        assert(seq![cache[0]] + cache.drop_first().push(CacheEntryView { space_id: id, infos })
            =~= cache.push(CacheEntryView { space_id: id, infos }));
    }
}

/// Whether `path` holds `k`, with `path` taken as a sequence of room ids.
fn path_contains(path: &Vec<String>, k: &String) -> (b: bool)
    ensures
        b == path@.map_values(|s: String| s@).contains(k@),
{
    let ghost pv = path@.map_values(|s: String| s@);
    let mut i: usize = 0;
    while i < path.len()
        invariant
            i <= path@.len(),
            pv == path@.map_values(|s: String| s@),
            forall|j: int| 0 <= j < i ==> pv[j] != k@,
        decreases path@.len() - i,
    {
        if path[i].eq(k) {
            assert(pv[i as int] == k@);
            return true;
        }
        i = i + 1;
    }
    false
}

/// Appends to `tree` the rows for `infos` at depth `level` with `path` above
/// them; `Err` where the tree never ends.
fn build_tree_recursive(
    cache: &Vec<CacheEntry>,
    expanded: &Vec<String>,
    tree: &mut Vec<NavigatorTreeEntry>,
    infos: &Vec<SubspaceDisplayInfo>,
    level: usize,
    path: &mut Vec<String>,
) -> (r: Result<(), SpaceCycle>)
    requires
        level + unvisited(cache_view(cache@), old(path)@.map_values(|s: String| s@))
            <= cache@.len(),
    ensures
        final(path)@.map_values(|s: String| s@) == old(path)@.map_values(|s: String| s@),
        match r {
            Ok(()) => old(tree)@.len() <= final(tree)@.len() && flat_list(
                cache_view(cache@),
                key_set(expanded@),
                infos_view(infos@),
                level as nat,
                old(path)@.map_values(|s: String| s@),
            ) == Some(entries_view(final(tree)@).skip(old(tree)@.len() as int))
                && entries_view(final(tree)@).take(old(tree)@.len() as int) == entries_view(
                old(tree)@,
            ),
            Err(_) => flat_list(
                cache_view(cache@),
                key_set(expanded@),
                infos_view(infos@),
                level as nat,
                old(path)@.map_values(|s: String| s@),
            ) is None,
        },
    decreases unvisited(cache_view(cache@), old(path)@.map_values(|s: String| s@)),
{
    let ghost cv = cache_view(cache@);
    let ghost ex = key_set(expanded@);
    let ghost iv = infos_view(infos@);
    let ghost pv = path@.map_values(|s: String| s@);
    let ghost base = entries_view(tree@);
    let mut i: usize = 0;
    assert(iv.take(0) =~= Seq::<InfoView>::empty());
    assert(entries_view(tree@).skip(base.len() as int) =~= Seq::<EntryView>::empty());
    assert(entries_view(tree@).take(base.len() as int) =~= base);
    let cache_len = cache.len();
    while i < infos.len()
        invariant
            i <= infos@.len(),
            cv == cache_view(cache@),
            ex == key_set(expanded@),
            iv == infos_view(infos@),
            pv == path@.map_values(|s: String| s@),
            pv == old(path)@.map_values(|s: String| s@),
            base == entries_view(old(tree)@),
            level + unvisited(cv, pv) <= cache@.len(),
            base.len() <= entries_view(tree@).len(),
            cache@.len() <= usize::MAX,
            entries_view(tree@).take(base.len() as int) == base,
            flat_list(cv, ex, iv.take(i as int), level as nat, pv) == Some(
                entries_view(tree@).skip(base.len() as int),
            ),
        decreases infos@.len() - i,
    {
        let info = &infos[i];
        let ghost before = entries_view(tree@);
        let ghost acc = before.skip(base.len() as int);
        proof {
            assert(iv.take(i + 1).drop_last() =~= iv.take(i as int));
            assert(iv.take(i + 1).last() == info@);
        }
        tree.push(
            NavigatorTreeEntry {
                room_id: info.room_id.clone(),
                display_name: info.display_name.clone(),
                children_count: info.children_count,
                level,
            },
        );
        let ghost with_entry = entries_view(tree@);
        assert(with_entry =~= before.push(entry_of(info@, level as nat)));
        assert(with_entry.skip(base.len() as int) =~= acc.push(entry_of(info@, level as nat)));
        assert(with_entry.take(base.len() as int) =~= base);
        if contains_key(expanded, &info.room_id) {
            if path_contains(path, &info.room_id) {
                proof {
                    assert(ex.contains(info.room_id@));
                    assert(pv.contains(info.room_id@));
                    assert(flat_list(cv, ex, iv.take(i as int), level as nat, pv) is Some);
                    assert(flat_list(cv, ex, iv.take(i + 1), level as nat, pv) is None);
                    lemma_flat_list_none_extends(cv, ex, iv, level as nat, pv, i + 1);
                }
                return Err(SpaceCycle);
            }
            let found = cache_find(cache, &info.room_id);
            match found {
                None => {},
                Some(ci) => {
                    proof {
                        lemma_unvisited_push(cv, pv, info.room_id@);
                        assert(cache_get(cv, info.room_id@) is Some);
                        assert(!pv.contains(info.room_id@));
                        assert(level + 1 <= cache@.len());
                        assert(cache@.len() == cache.len());
                        assert(path@.push(info.room_id).map_values(|s: String| s@) =~= pv.push(
                            info.room_id@,
                        ));
                    }
                    path.push(info.room_id.clone());
                    let res = build_tree_recursive(
                        cache,
                        expanded,
                        tree,
                        &cache[ci].infos,
                        level + 1,
                        path,
                    );
                    let ghost popped = path@;
                    path.pop();
                    proof {
                        assert(popped.map_values(|s: String| s@) == pv.push(info.room_id@));
                        assert(path@ =~= popped.subrange(0, popped.len() - 1));
                        assert forall|j: int| 0 <= j < pv.len() implies path@[j]@ == pv[j] by {
                            assert(popped.map_values(|s: String| s@)[j] == pv.push(
                                info.room_id@,
                            )[j]);
                        }
                        assert(path@.map_values(|s: String| s@) =~= pv);
                    }
                    match res {
                        Err(e) => {
                            proof {
                                lemma_flat_list_none_extends(cv, ex, iv, level as nat, pv, i + 1);
                            }
                            return Err(e);
                        },
                        Ok(()) => {
                            proof {
                                let below = entries_view(tree@).skip(with_entry.len() as int);
                                assert(entries_view(tree@).take(with_entry.len() as int)
                                    == with_entry);
                                assert(entries_view(tree@) =~= with_entry + below);
                                assert(entries_view(tree@).skip(base.len() as int) =~= acc.push(
                                    entry_of(info@, level as nat),
                                ) + below);
                                assert(entries_view(tree@).take(base.len() as int) =~= base);
                            }
                        },
                    }
                },
            }
        }
        i = i + 1;
    }
    assert(iv.take(i as int) =~= iv);
    Ok(())
}

/// `v` with `k` removed where it holds it, and added at the end where not.
fn toggled_keys(v: &Vec<String>, k: &String) -> (r: Vec<String>)
    ensures
        key_set(r@) == toggled(key_set(v@), k@),
        keys_unique(v@) ==> keys_unique(r@),
{
    let present = contains_key(v, k);
    let mut r = remove_key(v, k);
    if !present {
        let ghost old_r = r@;
        r.push(k.clone());
        proof {
            assert forall|x: Seq<char>|
                key_set(r@).contains(x) <==> key_set(old_r).insert(k@).contains(x) by {
                if key_set(r@).contains(x) {
                    let a = choose|a: int| 0 <= a < r@.len() && r@[a]@ == x;
                    if a < old_r.len() {
                        assert(old_r[a] == r@[a]);
                    }
                }
                if key_set(old_r).contains(x) {
                    let a = choose|a: int| 0 <= a < old_r.len() && old_r[a]@ == x;
                    assert(r@[a] == old_r[a]);
                }
                if x == k@ {
                    assert(r@[old_r.len() as int]@ == x);
                }
            }
            assert(key_set(r@) =~= toggled(key_set(v@), k@));
            if keys_unique(v@) {
                assert forall|a: int, b: int| 0 <= a < b < r@.len() implies r@[a]@ != r@[b]@ by {
                    assert(r@[a] == old_r[a]);
                    if b == old_r.len() {
                        assert(key_set(old_r).contains(old_r[a]@));
                    } else {
                        assert(r@[b] == old_r[b]);
                    }
                }
            }
        }
    }
    r
}

/// Copies the cache.
fn clone_cache(cache: &Vec<CacheEntry>) -> (r: Vec<CacheEntry>)
    ensures
        cache_view(r@) == cache_view(cache@),
{
    let mut r: Vec<CacheEntry> = Vec::new();
    let mut i: usize = 0;
    while i < cache.len()
        invariant
            i <= cache@.len(),
            cache_view(r@) == cache_view(cache@.take(i as int)),
        decreases cache@.len() - i,
    {
        let e = &cache[i];
        let ghost old_r = r@;
        let c = CacheEntry { space_id: e.space_id.clone(), infos: clone_infos(&e.infos) };
        assert(c@ == cache@[i as int]@);
        r.push(c);
        assert(cache_view(r@) =~= cache_view(old_r).push(c@));
        assert(cache@.take(i + 1) =~= cache@.take(i as int).push(cache@[i as int]));
        assert(cache_view(cache@.take(i + 1)) =~= cache_view(cache@.take(i as int)).push(
            cache@[i as int]@,
        ));
        i = i + 1;
    }
    assert(cache@.take(cache@.len() as int) =~= cache@);
    r
}

/// The flattened tree below `top` from `cache` and `expanded`; `Err` where
/// it never ends.
fn tree_of(cache: &Vec<CacheEntry>, expanded: &Vec<String>, top: &Option<String>) -> (r: Result<
    Vec<NavigatorTreeEntry>,
    SpaceCycle,
>)
    ensures
        match r {
            Ok(t) => spec_tree(cache_view(cache@), key_set(expanded@), opt_view(*top)) == Some(
                entries_view(t@),
            ),
            Err(_) => spec_tree(cache_view(cache@), key_set(expanded@), opt_view(*top)) is None,
        },
{
    let mut tree: Vec<NavigatorTreeEntry> = Vec::new();
    assert(entries_view(tree@) =~= Seq::<EntryView>::empty());
    let t = match top {
        None => {
            return Ok(tree);
        },
        Some(t) => t,
    };
    let ci = match cache_find(cache, t) {
        None => {
            return Ok(tree);
        },
        Some(ci) => ci,
    };
    let mut path: Vec<String> = Vec::new();
    path.push(t.clone());
    proof {
        assert(path@.map_values(|s: String| s@) =~= seq![t@]);
        lemma_unvisited_bound(cache_view(cache@), seq![t@]);
    }
    let res = build_tree_recursive(cache, expanded, &mut tree, &cache[ci].infos, 0, &mut path);
    assert(entries_view(tree@).skip(0) =~= entries_view(tree@));
    match res {
        Ok(()) => Ok(tree),
        Err(e) => Err(e),
    }
}

/// Whether the navigator's shown state agrees with its content: shown
/// exactly when a top space is selected and it has cached subspaces.
pub open spec fn visibility_consistent(v: NavigatorView) -> bool {
    v.visible == spec_has_subspaces(v)
}

impl SpaceNavigator {
    /// No room id is expanded twice, and no space is cached twice.
    #[verifier::type_invariant]
    spec fn well_formed(self) -> bool {
        keys_unique(self.expanded_subspaces@) && ids_unique(cache_view(self.subspace_cache@))
    }

    /// A navigator with no space selected: hidden, empty.
    pub fn new() -> (n: SpaceNavigator)
        ensures
            n@ == (NavigatorView {
                visible: false,
                top: None,
                top_name: Seq::<char>::empty(),
                entries: Seq::<EntryView>::empty(),
                expanded: Set::<Seq<char>>::empty(),
                selected: None,
                cache: Seq::<CacheEntryView>::empty(),
            }),
            visibility_consistent(n@),
    {
        let n = SpaceNavigator {
            visible: false,
            current_top_space: None,
            current_top_space_name: String::new(),
            tree_entries: Vec::new(),
            expanded_subspaces: Vec::new(),
            selected_subspace: None,
            subspace_cache: Vec::new(),
        };
        assert(n@.expanded =~= Set::<Seq<char>>::empty());
        assert(n@.entries =~= Seq::<EntryView>::empty());
        assert(n@.cache =~= Seq::<CacheEntryView>::empty());
        n
    }

    /// Rebuilds the flattened tree from the top space, the cache and the
    /// expanded set. The tree must be finite: no expanded subspace may lie
    /// below itself.
    pub fn rebuild_tree(&mut self)
        requires
            spec_tree(old(self)@.cache, old(self)@.expanded, old(self)@.top) is Some,
        ensures
            final(self)@ == (NavigatorView { entries: final(self)@.entries, ..old(self)@ }),
            spec_tree(old(self)@.cache, old(self)@.expanded, old(self)@.top) == Some(
                final(self)@.entries,
            ),
    {
        proof {
            use_type_invariant(&*self);
        }
        match tree_of(&self.subspace_cache, &self.expanded_subspaces, &self.current_top_space) {
            Ok(t) => {
                self.tree_entries = t;
            },
            Err(_) => {},
        }
    }

    /// Whether the top space has any cached subspaces.
    pub fn has_subspaces(&self) -> (b: bool)
        ensures
            b == spec_has_subspaces(self@),
    {
        match &self.current_top_space {
            None => false,
            Some(t) => match cache_find(&self.subspace_cache, t) {
                None => false,
                Some(ci) => self.subspace_cache[ci].infos.len() > 0,
            },
        }
    }

    /// Shows the navigator exactly when a top space is selected and it has subspaces.
    pub fn update_visibility(&mut self)
        ensures
            final(self)@ == (NavigatorView {
                visible: spec_has_subspaces(old(self)@),
                ..old(self)@
            }),
            visibility_consistent(final(self)@),
    {
        proof {
            use_type_invariant(&*self);
        }
        let show = self.current_top_space.is_some() && self.has_subspaces();
        self.visible = show;
    }

    /// Whether children for `space_id` concern the navigator.
    fn concerns_space(&self, space_id: &String) -> (b: bool)
        ensures
            b == concerns(self@, space_id@),
    {
        match &self.current_top_space {
            None => false,
            Some(t) => t.eq(space_id) || cache_find(&self.subspace_cache, space_id).is_some()
                || contains_key(&self.expanded_subspaces, space_id),
        }
    }

    /// Whether a click on the entry for `room_id` leaves a finite tree: the
    /// condition under which `handle_navigator_entry_click` may be called.
    pub fn click_keeps_tree_finite(&self, room_id: &String) -> (b: bool)
        ensures
            b == (spec_tree(self@.cache, toggled(self@.expanded, room_id@), self@.top) is Some),
    {
        let expanded = toggled_keys(&self.expanded_subspaces, room_id);
        match tree_of(&self.subspace_cache, &expanded, &self.current_top_space) {
            Ok(_) => true,
            Err(_) => false,
        }
    }

    /// Whether taking `infos` as the subspaces of `space_id` leaves a finite
    /// tree: the condition under which `handle_updated_children` may be
    /// called.
    pub fn update_keeps_tree_finite(&self, space_id: &String, infos: &Vec<SubspaceDisplayInfo>) -> (b:
        bool)
        ensures
            b == (concerns(self@, space_id@) ==> spec_tree(
                cache_insert(self@.cache, space_id@, infos_view(infos@)),
                self@.expanded,
                self@.top,
            ) is Some),
    {
        if !self.concerns_space(space_id) {
            return true;
        }
        let mut cache = clone_cache(&self.subspace_cache);
        cache_store(&mut cache, space_id.clone(), clone_infos(infos));
        match tree_of(&cache, &self.expanded_subspaces, &self.current_top_space) {
            Ok(_) => true,
            Err(_) => false,
        }
    }

    /// A click on the tree entry for `room_id`: toggles whether it is
    /// expanded, selects it, and rebuilds the tree. The result says whether
    /// its subspaces must be loaded (it was just expanded and is not cached);
    /// the action to emit is always `SubspaceSelected(Some(room_id))`. The
    /// tree after the click must be finite (see `click_keeps_tree_finite`).
    pub fn handle_navigator_entry_click(&mut self, room_id: &String) -> (load: bool)
        requires
            spec_tree(old(self)@.cache, toggled(old(self)@.expanded, room_id@), old(self)@.top) is Some,
        ensures
            final(self)@.expanded == toggled(old(self)@.expanded, room_id@),
            final(self)@.selected == Some(room_id@),
            final(self)@.top == old(self)@.top,
            final(self)@.top_name == old(self)@.top_name,
            final(self)@.cache == old(self)@.cache,
            final(self)@.visible == old(self)@.visible,
            load == (!old(self)@.expanded.contains(room_id@) && cache_get(
                old(self)@.cache,
                room_id@,
            ) is None),
            spec_tree(old(self)@.cache, final(self)@.expanded, old(self)@.top) == Some(
                final(self)@.entries,
            ),
            visibility_consistent(old(self)@) ==> visibility_consistent(final(self)@),
    {
        proof {
            use_type_invariant(&*self);
        }
        let load = !contains_key(&self.expanded_subspaces, room_id) && cache_find(
            &self.subspace_cache,
            room_id,
        ).is_none();
        self.expanded_subspaces = toggled_keys(&self.expanded_subspaces, room_id);
        self.selected_subspace = Some(room_id.clone());
        self.rebuild_tree();
        load
    }

    /// A tap on the top-space entry: selects the top-level space itself; the
    /// action to emit is `SubspaceSelected(None)`.
    pub fn select_top_space(&mut self)
        ensures
            final(self)@ == (NavigatorView { selected: None, ..old(self)@ }),
            visibility_consistent(old(self)@) ==> visibility_consistent(final(self)@),
    {
        proof {
            use_type_invariant(&*self);
        }
        self.selected_subspace = None;
    }

    /// The space tab for `space_id` (named `name`) was selected. Where it is
    /// another space than the current one, the navigator switches to it with
    /// nothing expanded or selected, then rebuilds the tree and its
    /// visibility; where it is the current one, nothing changes.
    pub fn handle_space_tab_selected(&mut self, space_id: &String, name: &String)
        ensures
            old(self)@.top == Some(space_id@) ==> final(self)@ == old(self)@,
            old(self)@.top != Some(space_id@) ==> {
                &&& final(self)@.top == Some(space_id@)
                &&& final(self)@.top_name == name@
                &&& final(self)@.expanded == Set::<Seq<char>>::empty()
                &&& final(self)@.selected is None
                &&& final(self)@.cache == old(self)@.cache
                &&& spec_tree(old(self)@.cache, Set::<Seq<char>>::empty(), Some(space_id@)) == Some(
                    final(self)@.entries,
                )
                &&& final(self)@.visible == spec_has_subspaces(final(self)@)
            },
            visibility_consistent(old(self)@) ==> visibility_consistent(final(self)@),
    {
        proof {
            use_type_invariant(&*self);
        }
        let same = match &self.current_top_space {
            Some(t) => t.eq(space_id),
            None => false,
        };
        if same {
            return ;
        }
        self.current_top_space = Some(space_id.clone());
        self.current_top_space_name = name.clone();
        self.expanded_subspaces = Vec::new();
        assert(key_set(self.expanded_subspaces@) =~= Set::<Seq<char>>::empty());
        self.selected_subspace = None;
        proof {
            law_collapsed_tree_is_top_level(cache_view(self.subspace_cache@), space_id@);
        }
        self.rebuild_tree();
        self.update_visibility();
    }

    /// A tab other than a space was selected: the navigator forgets its top
    /// space, expansion, selection and tree, and hides. The cache stays.
    pub fn handle_other_tab_selected(&mut self)
        ensures
            final(self)@ == (NavigatorView {
                visible: false,
                top: None,
                top_name: Seq::<char>::empty(),
                entries: Seq::<EntryView>::empty(),
                expanded: Set::<Seq<char>>::empty(),
                selected: None,
                cache: old(self)@.cache,
            }),
            visibility_consistent(final(self)@),
    {
        proof {
            use_type_invariant(&*self);
        }
        self.current_top_space = None;
        self.current_top_space_name = String::new();
        self.expanded_subspaces = Vec::new();
        self.selected_subspace = None;
        self.tree_entries = Vec::new();
        self.visible = false;
        assert(key_set(self.expanded_subspaces@) =~= Set::<Seq<char>>::empty());
        assert(entries_view(self.tree_entries@) =~= Seq::<EntryView>::empty());
    }

    /// New subspaces `infos` arrived for `space_id`. Where they concern the
    /// navigator (see `concerns`) they are cached, and the tree and the
    /// visibility are rebuilt; the result says whether they were taken. The
    /// tree with them must be finite (see `update_keeps_tree_finite`).
    pub fn handle_updated_children(&mut self, space_id: String, infos: Vec<SubspaceDisplayInfo>) -> (taken:
        bool)
        requires
            concerns(old(self)@, space_id@) ==> spec_tree(
                cache_insert(old(self)@.cache, space_id@, infos_view(infos@)),
                old(self)@.expanded,
                old(self)@.top,
            ) is Some,
        ensures
            taken == concerns(old(self)@, space_id@),
            !taken ==> final(self)@ == old(self)@,
            taken ==> {
                let cache = cache_insert(old(self)@.cache, space_id@, infos_view(infos@));
                &&& final(self)@.cache == cache
                &&& final(self)@.top == old(self)@.top
                &&& final(self)@.top_name == old(self)@.top_name
                &&& final(self)@.expanded == old(self)@.expanded
                &&& final(self)@.selected == old(self)@.selected
                &&& spec_tree(cache, old(self)@.expanded, old(self)@.top) == Some(
                    final(self)@.entries,
                )
                &&& final(self)@.visible == spec_has_subspaces(final(self)@)
            },
            visibility_consistent(old(self)@) ==> visibility_consistent(final(self)@),
    {
        proof {
            use_type_invariant(&*self);
        }
        if !self.concerns_space(&space_id) {
            return false;
        }
        let mut cache: Vec<CacheEntry> = Vec::new();
        std::mem::swap(&mut cache, &mut self.subspace_cache);
        cache_store(&mut cache, space_id, infos);
        self.subspace_cache = cache;
        self.rebuild_tree();
        self.update_visibility();
        true
    }

    /// How the entry at `index` of the tree is drawn: its expand marker (none
    /// without children, known from its count or the cache), the text about
    /// its children, and whether it is the selected subspace.
    pub fn entry_presentation(&self, index: usize) -> (p: EntryPresentation)
        requires
            index < self@.entries.len(),
        ensures
            ({
                let e = self@.entries[index as int];
                let has_children = e.children_count > 0 || match cache_get(
                    self@.cache,
                    e.room_id,
                ) {
                    Some(infos) => infos.len() > 0,
                    None => false,
                };
                &&& p.icon == if !has_children {
                    ExpandIcon::NoChildren
                } else if self@.expanded.contains(e.room_id) {
                    ExpandIcon::Expanded
                } else {
                    ExpandIcon::Collapsed
                }
                &&& p.info_text@ == children_text(e.children_count)
                &&& p.selected == (self@.selected == Some(e.room_id))
            }),
    {
        let entry = &self.tree_entries[index];
        let cached = match cache_find(&self.subspace_cache, &entry.room_id) {
            None => false,
            Some(ci) => self.subspace_cache[ci].infos.len() > 0,
        };
        let has_children = entry.children_count > 0 || cached;
        let icon = if !has_children {
            ExpandIcon::NoChildren
        } else if contains_key(&self.expanded_subspaces, &entry.room_id) {
            ExpandIcon::Expanded
        } else {
            ExpandIcon::Collapsed
        };
        let info_text = children_text_of(entry.children_count);
        let selected = match &self.selected_subspace {
            Some(s) => s.eq(&entry.room_id),
            None => false,
        };
        EntryPresentation { icon, info_text, selected }
    }

    /// Whether the top-space entry is drawn as selected: no subspace is.
    pub fn is_top_selected(&self) -> (b: bool)
        ensures
            b == (self@.selected is None),
    {
        self.selected_subspace.is_none()
    }

    /// Whether the navigator is shown.
    pub fn is_visible(&self) -> (b: bool)
        ensures
            b == self@.visible,
    {
        self.visible
    }

    /// The rows of the flattened tree.
    pub fn tree_entries(&self) -> (t: &Vec<NavigatorTreeEntry>)
        ensures
            entries_view(t@) == self@.entries,
    {
        &self.tree_entries
    }

    /// The display name of the top space.
    pub fn top_space_name(&self) -> (s: &String)
        ensures
            s@ == self@.top_name,
    {
        &self.current_top_space_name
    }
}

impl Default for SpaceNavigator {
    /// The same as `SpaceNavigator::new`.
    fn default() -> (n: SpaceNavigator)
        ensures
            n@ == (NavigatorView {
                visible: false,
                top: None,
                top_name: Seq::<char>::empty(),
                entries: Seq::<EntryView>::empty(),
                expanded: Set::<Seq<char>>::empty(),
                selected: None,
                cache: Seq::<CacheEntryView>::empty(),
            }),
    {
        SpaceNavigator::new()
    }
}

/// The text about an entry's children.
pub fn children_text_of(n: u64) -> (s: String)
    ensures
        s@ == children_text(n),
{
    let mut s = String::new();
    if n == 1 {
        s.append("1 child");
    } else if n > 1 {
        append_decimal(&mut s, n);
        s.append(" children");
    }
    assert(s@ =~= children_text(n));
    s
}

/// The rows of `rows` at depth `level`, in order.
pub open spec fn rows_at(rows: Seq<EntryView>, level: nat) -> Seq<EntryView>
    decreases rows.len(),
{
    if rows.len() == 0 {
        seq![]
    } else {
        let p = rows_at(rows.drop_last(), level);
        if rows.last().level == level {
            p.push(rows.last())
        } else {
            p
        }
    }
}

/// Taking the rows at one depth distributes over concatenation.
proof fn lemma_rows_at_concat(a: Seq<EntryView>, b: Seq<EntryView>, level: nat)
    ensures
        rows_at(a + b, level) == rows_at(a, level) + rows_at(b, level),
    decreases b.len(),
{
    if b.len() == 0 {
        assert(a + b =~= a);
        assert(rows_at(a, level) + rows_at(b, level) =~= rows_at(a, level));
    } else {
        assert((a + b).drop_last() =~= a + b.drop_last());
        assert((a + b).last() == b.last());
        lemma_rows_at_concat(a, b.drop_last(), level);
        if b.last().level == level {
            assert(rows_at(a, level) + rows_at(b.drop_last(), level).push(b.last()) =~= (rows_at(
                a,
                level,
            ) + rows_at(b.drop_last(), level)).push(b.last()));
        }
    }
}

/// Rows all deeper than `level` have none at `level`.
proof fn lemma_rows_at_deeper(rows: Seq<EntryView>, level: nat)
    requires
        forall|i: int| 0 <= i < rows.len() ==> rows[i].level > level,
    ensures
        rows_at(rows, level) == Seq::<EntryView>::empty(),
    decreases rows.len(),
{
    if rows.len() > 0 {
        lemma_rows_at_deeper(rows.drop_last(), level);
    }
}

/// Every row below subspaces at depth `level` is at least that deep.
proof fn lemma_flat_list_levels(
    cache: Seq<CacheEntryView>,
    expanded: Set<Seq<char>>,
    infos: Seq<InfoView>,
    level: nat,
    path: Seq<Seq<char>>,
)
    requires
        flat_list(cache, expanded, infos, level, path) is Some,
    ensures
        forall|i: int|
            0 <= i < flat_list(cache, expanded, infos, level, path)->0.len() ==> flat_list(
                cache,
                expanded,
                infos,
                level,
                path,
            )->0[i].level >= level,
    decreases unvisited(cache, path), infos.len(),
{
    if infos.len() > 0 {
        let info = infos.last();
        lemma_flat_list_levels(cache, expanded, infos.drop_last(), level, path);
        let prefix = flat_list(cache, expanded, infos.drop_last(), level, path)->0;
        let rows = prefix.push(entry_of(info, level));
        if expanded.contains(info.room_id) && !path.contains(info.room_id) {
            match cache_get(cache, info.room_id) {
                Some(children) => {
                    lemma_unvisited_push(cache, path, info.room_id);
                    lemma_flat_list_levels(
                        cache,
                        expanded,
                        children,
                        level + 1,
                        path.push(info.room_id),
                    );
                    let below = flat_list(
                        cache,
                        expanded,
                        children,
                        level + 1,
                        path.push(info.room_id),
                    )->0;
                    assert forall|i: int| 0 <= i < (rows + below).len() implies (rows
                        + below)[i].level >= level by {
                        if i >= rows.len() {
                            assert((rows + below)[i] == below[i - rows.len()]);
                        } else if i < prefix.len() {
                            assert((rows + below)[i] == prefix[i]);
                        }
                    }
                },
                None => {
                    assert forall|i: int| 0 <= i < rows.len() implies rows[i].level >= level by {
                        if i < prefix.len() {
                            assert(rows[i] == prefix[i]);
                        }
                    }
                },
            }
        } else {
            assert forall|i: int| 0 <= i < rows.len() implies rows[i].level >= level by {
                if i < prefix.len() {
                    assert(rows[i] == prefix[i]);
                }
            }
        }
    }
}

/// The rows at depth `level` below subspaces at that depth are those
/// subspaces themselves, in order.
proof fn lemma_flat_list_rows_at(
    cache: Seq<CacheEntryView>,
    expanded: Set<Seq<char>>,
    infos: Seq<InfoView>,
    level: nat,
    path: Seq<Seq<char>>,
)
    requires
        flat_list(cache, expanded, infos, level, path) is Some,
    ensures
        rows_at(flat_list(cache, expanded, infos, level, path)->0, level) == infos.map_values(
            |i: InfoView| entry_of(i, level),
        ),
    decreases infos.len(),
{
    if infos.len() == 0 {
        assert(infos.map_values(|i: InfoView| entry_of(i, level)) =~= Seq::<EntryView>::empty());
    } else {
        let info = infos.last();
        lemma_flat_list_rows_at(cache, expanded, infos.drop_last(), level, path);
        let prefix = flat_list(cache, expanded, infos.drop_last(), level, path)->0;
        let rows = prefix.push(entry_of(info, level));
        assert(rows.drop_last() =~= prefix);
        assert(rows_at(rows, level) == rows_at(prefix, level).push(entry_of(info, level)));
        assert(infos.map_values(|i: InfoView| entry_of(i, level)) =~= infos.drop_last().map_values(
            |i: InfoView| entry_of(i, level),
        ).push(entry_of(info, level)));
        if expanded.contains(info.room_id) && !path.contains(info.room_id) {
            match cache_get(cache, info.room_id) {
                Some(children) => {
                    lemma_unvisited_push(cache, path, info.room_id);
                    lemma_flat_list_levels(
                        cache,
                        expanded,
                        children,
                        level + 1,
                        path.push(info.room_id),
                    );
                    let below = flat_list(
                        cache,
                        expanded,
                        children,
                        level + 1,
                        path.push(info.room_id),
                    )->0;
                    lemma_rows_at_deeper(below, level);
                    lemma_rows_at_concat(rows, below, level);
                    assert(rows_at(rows, level) + rows_at(below, level) =~= rows_at(rows, level));
                },
                None => {},
            }
        }
    }
}

/// Whatever is expanded, the rows at depth 0 are exactly the top space's
/// cached subspaces, in their cached order.
pub proof fn law_top_level_rows(cache: Seq<CacheEntryView>, expanded: Set<Seq<char>>, top: Seq<char>)
    requires
        spec_tree(cache, expanded, Some(top)) is Some,
    ensures
        rows_at(spec_tree(cache, expanded, Some(top))->0, 0) == match cache_get(cache, top) {
            Some(infos) => infos.map_values(|i: InfoView| entry_of(i, 0)),
            None => Seq::<EntryView>::empty(),
        },
{
    match cache_get(cache, top) {
        Some(infos) => {
            lemma_flat_list_rows_at(cache, expanded, infos, 0, seq![top]);
        },
        None => {},
    }
}

/// Each row deeper than the row before it is one level deeper, and the row
/// before it is an expanded subspace: children only show under expanded
/// subspaces.
pub open spec fn nested_under_expanded(rows: Seq<EntryView>, expanded: Set<Seq<char>>) -> bool {
    forall|i: int, j: int|
        #![trigger rows[i], rows[j]]
        0 <= i && j == i + 1 && j < rows.len() && rows[j].level > rows[i].level ==> expanded.contains(
            rows[i].room_id,
        ) && rows[j].level == rows[i].level + 1
}

/// The shape of the rows below subspaces at depth `level`: the first is at
/// that depth, none is shallower, and children only show under expanded
/// subspaces.
proof fn lemma_flat_list_shape(
    cache: Seq<CacheEntryView>,
    expanded: Set<Seq<char>>,
    infos: Seq<InfoView>,
    level: nat,
    path: Seq<Seq<char>>,
)
    requires
        flat_list(cache, expanded, infos, level, path) is Some,
    ensures
        ({
            let rows = flat_list(cache, expanded, infos, level, path)->0;
            &&& rows.len() > 0 ==> rows[0].level == level
            &&& forall|i: int| 0 <= i < rows.len() ==> rows[i].level >= level
            &&& nested_under_expanded(rows, expanded)
        }),
    decreases unvisited(cache, path), infos.len(),
{
    if infos.len() > 0 {
        let info = infos.last();
        lemma_flat_list_shape(cache, expanded, infos.drop_last(), level, path);
        let prefix = flat_list(cache, expanded, infos.drop_last(), level, path)->0;
        let e = entry_of(info, level);
        let rows = prefix.push(e);
        assert forall|i: int, j: int|
            #![trigger rows[i], rows[j]]
            0 <= i && j == i + 1 && j < rows.len() && rows[j].level > rows[i].level implies expanded.contains(
                rows[i].room_id,
            ) && rows[j].level == rows[i].level + 1 by {
            if j < prefix.len() {
                assert(rows[i] == prefix[i] && rows[j] == prefix[j]);
            } else {
                assert(rows[i] == prefix[i]);
                assert(rows[j] == e);
            }
        }
        assert forall|i: int| 0 <= i < rows.len() implies rows[i].level >= level by {
            if i < prefix.len() {
                assert(rows[i] == prefix[i]);
            }
        }
        if prefix.len() > 0 {
            assert(rows[0] == prefix[0]);
        }
        if expanded.contains(info.room_id) && !path.contains(info.room_id) {
            match cache_get(cache, info.room_id) {
                Some(children) => {
                    lemma_unvisited_push(cache, path, info.room_id);
                    lemma_flat_list_shape(
                        cache,
                        expanded,
                        children,
                        level + 1,
                        path.push(info.room_id),
                    );
                    let below = flat_list(
                        cache,
                        expanded,
                        children,
                        level + 1,
                        path.push(info.room_id),
                    )->0;
                    let all = rows + below;
                    assert forall|i: int, j: int|
                        #![trigger all[i], all[j]]
                        0 <= i && j == i + 1 && j < all.len() && all[j].level > all[i].level implies expanded.contains(
                            all[i].room_id,
                        ) && all[j].level == all[i].level + 1 by {
                        if j < rows.len() {
                            assert(all[i] == rows[i] && all[j] == rows[j]);
                        } else if i == rows.len() - 1 {
                            assert(all[i] == e);
                            assert(all[j] == below[0]);
                        } else {
                            assert(all[i] == below[i - rows.len()]);
                            assert(all[j] == below[j - rows.len()]);
                        }
                    }
                    assert forall|i: int| 0 <= i < all.len() implies all[i].level >= level by {
                        if i < rows.len() {
                            assert(all[i] == rows[i]);
                        } else {
                            assert(all[i] == below[i - rows.len()]);
                        }
                    }
                    assert(all[0] == rows[0]);
                },
                None => {},
            }
        }
    }
}

/// Children show only under expanded subspaces, one level deeper, and the
/// tree starts at depth 0.
pub proof fn law_children_under_expanded(
    cache: Seq<CacheEntryView>,
    expanded: Set<Seq<char>>,
    top: Seq<char>,
)
    requires
        spec_tree(cache, expanded, Some(top)) is Some,
    ensures
        nested_under_expanded(spec_tree(cache, expanded, Some(top))->0, expanded),
        spec_tree(cache, expanded, Some(top))->0.len() > 0 ==> spec_tree(
            cache,
            expanded,
            Some(top),
        )->0[0].level == 0,
{
    match cache_get(cache, top) {
        Some(infos) => {
            lemma_flat_list_shape(cache, expanded, infos, 0, seq![top]);
        },
        None => {},
    }
}

/// Clicking the same entry twice leaves the expanded set as it was.
pub proof fn law_click_twice_restores_expanded(expanded: Set<Seq<char>>, id: Seq<char>)
    ensures
        toggled(toggled(expanded, id), id) == expanded,
{
    assert(toggled(toggled(expanded, id), id) =~= expanded);
}

/// With nothing expanded, the tree is the top space's cached subspaces,
/// each at depth 0, in their cached order.
pub proof fn law_collapsed_tree_is_top_level(cache: Seq<CacheEntryView>, top: Seq<char>)
    ensures
        spec_tree(cache, Set::<Seq<char>>::empty(), Some(top)) == Some(
            match cache_get(cache, top) {
                Some(infos) => infos.map_values(|i: InfoView| entry_of(i, 0)),
                None => Seq::<EntryView>::empty(),
            },
        ),
{
    match cache_get(cache, top) {
        Some(infos) => {
            lemma_flat_list_collapsed(cache, infos, 0, seq![top]);
        },
        None => {},
    }
}

/// Without expanded subspaces, `flat_list` gives one row per subspace.
proof fn lemma_flat_list_collapsed(
    cache: Seq<CacheEntryView>,
    infos: Seq<InfoView>,
    level: nat,
    path: Seq<Seq<char>>,
)
    ensures
        flat_list(cache, Set::<Seq<char>>::empty(), infos, level, path) == Some(
            infos.map_values(|i: InfoView| entry_of(i, level)),
        ),
    decreases infos.len(),
{
    if infos.len() > 0 {
        lemma_flat_list_collapsed(cache, infos.drop_last(), level, path);
        assert(infos.map_values(|i: InfoView| entry_of(i, level)) =~= infos.drop_last().map_values(
            |i: InfoView| entry_of(i, level),
        ).push(entry_of(infos.last(), level)));
    } else {
        assert(infos.map_values(|i: InfoView| entry_of(i, level)) =~= Seq::<EntryView>::empty());
    }
}

/// A finite flattening of `infos` begins with the flattening of any first
/// part of them.
proof fn lemma_flat_list_prefix(
    cache: Seq<CacheEntryView>,
    expanded: Set<Seq<char>>,
    infos: Seq<InfoView>,
    level: nat,
    path: Seq<Seq<char>>,
    j: int,
)
    requires
        0 <= j <= infos.len(),
        flat_list(cache, expanded, infos, level, path) is Some,
    ensures
        flat_list(cache, expanded, infos.take(j), level, path) is Some,
        flat_list(cache, expanded, infos.take(j), level, path)->0.len() <= flat_list(
            cache,
            expanded,
            infos,
            level,
            path,
        )->0.len(),
        flat_list(cache, expanded, infos, level, path)->0.take(
            flat_list(cache, expanded, infos.take(j), level, path)->0.len() as int,
        ) == flat_list(cache, expanded, infos.take(j), level, path)->0,
    decreases infos.len(),
{
    if j == infos.len() {
        assert(infos.take(j) =~= infos);
    } else {
        let rest = infos.drop_last();
        assert(rest.take(j) =~= infos.take(j));
        lemma_flat_list_prefix(cache, expanded, rest, level, path, j);
        let whole = flat_list(cache, expanded, infos, level, path)->0;
        let part = flat_list(cache, expanded, rest, level, path)->0;
        let pre = flat_list(cache, expanded, infos.take(j), level, path)->0;
        assert(whole.take(part.len() as int) =~= part);
        assert(whole.take(pre.len() as int) =~= part.take(pre.len() as int));
    }
}

/// At every depth, in a finite tree, the row of an expanded subspace with
/// cached children is followed directly by the rows of those children, one
/// level deeper: the flattening of its children below it.
pub proof fn law_expanded_children_follow(
    cache: Seq<CacheEntryView>,
    expanded: Set<Seq<char>>,
    infos: Seq<InfoView>,
    level: nat,
    path: Seq<Seq<char>>,
    i: int,
)
    requires
        0 <= i < infos.len(),
        flat_list(cache, expanded, infos, level, path) is Some,
        expanded.contains(infos[i].room_id),
        cache_get(cache, infos[i].room_id) is Some,
    ensures
        ({
            let rows = flat_list(cache, expanded, infos, level, path)->0;
            let k = flat_list(cache, expanded, infos.take(i), level, path)->0.len() as int;
            let children = cache_get(cache, infos[i].room_id)->0;
            let below = flat_list(cache, expanded, children, level + 1, path.push(infos[i].room_id));
            &&& !path.contains(infos[i].room_id)
            &&& below is Some
            &&& k + 1 + below->0.len() <= rows.len()
            &&& rows[k] == entry_of(infos[i], level)
            &&& rows.subrange(k + 1, k + 1 + below->0.len() as int) == below->0
        }),
{
    lemma_flat_list_prefix(cache, expanded, infos, level, path, i + 1);
    lemma_flat_list_prefix(cache, expanded, infos, level, path, i);
    let upto = infos.take(i + 1);
    assert(upto.drop_last() =~= infos.take(i));
    assert(upto.last() == infos[i]);
    let pre = flat_list(cache, expanded, infos.take(i), level, path)->0;
    let rows = flat_list(cache, expanded, infos, level, path)->0;
    let id = infos[i].room_id;
    let children = cache_get(cache, id)->0;
    let below = flat_list(cache, expanded, children, level + 1, path.push(id));
    assert(flat_list(cache, expanded, upto, level, path) is Some);
    assert(!path.contains(id));
    assert(below is Some);
    let got = pre.push(entry_of(infos[i], level)) + below->0;
    assert(flat_list(cache, expanded, upto, level, path)->0 == got);
    assert(rows.take(got.len() as int) == got);
    assert(rows[pre.len() as int] == rows.take(got.len() as int)[pre.len() as int]);
    let b = below->0;
    let k = pre.len() as int;
    assert forall|t: int| 0 <= t < b.len() implies rows.subrange(k + 1, k + 1 + b.len())[t]
        == b[t] by {
        assert(rows.subrange(k + 1, k + 1 + b.len())[t] == rows[k + 1 + t]);
        assert(rows[k + 1 + t] == rows.take(got.len() as int)[k + 1 + t]);
        assert(got[k + 1 + t] == b[t]);
    }
    assert(rows.subrange(k + 1, k + 1 + b.len()) =~= b);
}

} // verus!
