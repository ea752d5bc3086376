//! Which navigation groups and pages are visible given the enabled modules,
//! and how the current selection is kept on something visible.

use vstd::prelude::*;
use crate::text::{chars_eq, chars_of};

verus! {

/// A page: its id and the module it needs, if any.
pub struct NavigationPage {
    pub id: String,
    pub required_module: Option<String>,
}

/// A group of pages in the sidebar.
pub struct NavigationGroup {
    pub id: String,
    pub pages: Vec<String>,
}

/// The pages and groups of the navigation, and the group selected when no
/// group is visible.
pub struct NavigationRegistry {
    pub pages: Vec<NavigationPage>,
    pub groups: Vec<NavigationGroup>,
    pub default_group_id: String,
}

pub struct PageView {
    pub id: Seq<char>,
    pub required: Option<Seq<char>>,
}

pub struct GroupView {
    pub id: Seq<char>,
    pub pages: Seq<Seq<char>>,
}

impl View for NavigationPage {
    type V = PageView;

    open spec fn view(&self) -> PageView {
        PageView {
            id: self.id@,
            required: match &self.required_module {
                Some(m) => Some(m@),
                None => None,
            },
        }
    }
}

impl View for NavigationGroup {
    type V = GroupView;

    open spec fn view(&self) -> GroupView {
        GroupView { id: self.id@, pages: crate::commands::string_views(self.pages@) }
    }
}

/// The pages of a registry.
pub open spec fn page_views(r: &NavigationRegistry) -> Seq<PageView> {
    r.pages@.map_values(|p: NavigationPage| p@)
}

/// The groups of a registry.
pub open spec fn group_views(r: &NavigationRegistry) -> Seq<GroupView> {
    r.groups@.map_values(|g: NavigationGroup| g@)
}

/// The module rows `(name, enabled)`.
pub open spec fn row_views(rows: Seq<(String, bool)>) -> Seq<(Seq<char>, bool)> {
    rows.map_values(|r: (String, bool)| (r.0@, r.1))
}

/// Whether the first row named `name` is enabled (false when there is none).
pub open spec fn module_enabled(rows: Seq<(Seq<char>, bool)>, name: Seq<char>) -> bool
    decreases rows.len(),
{
    if rows.len() == 0 {
        false
    } else if rows[0].0 == name {
        rows[0].1
    } else {
        module_enabled(rows.drop_first(), name)
    }
}

/// The first page with id `id`, if any.
pub open spec fn find_page(pages: Seq<PageView>, id: Seq<char>) -> Option<PageView>
    decreases pages.len(),
{
    if pages.len() == 0 {
        None
    } else if pages[0].id == id {
        Some(pages[0])
    } else {
        find_page(pages.drop_first(), id)
    }
}

/// A page is visible when it exists and the module it needs, if any, is enabled.
pub open spec fn page_visible(pages: Seq<PageView>, rows: Seq<(Seq<char>, bool)>, id: Seq<char>) -> bool {
    match find_page(pages, id) {
        None => false,
        Some(p) => match p.required {
            Some(m) => module_enabled(rows, m),
            None => true,
        },
    }
}

/// A group is visible when one of its pages is.
pub open spec fn group_visible(pages: Seq<PageView>, rows: Seq<(Seq<char>, bool)>, g: GroupView) -> bool {
    exists|k: int| 0 <= k < g.pages.len() && page_visible(pages, rows, #[trigger] g.pages[k])
}

/// The visible groups, in order.
pub open spec fn visible_groups_spec(
    pages: Seq<PageView>,
    rows: Seq<(Seq<char>, bool)>,
    groups: Seq<GroupView>,
) -> Seq<GroupView>
    decreases groups.len(),
{
    if groups.len() == 0 {
        Seq::empty()
    } else {
        visible_groups_spec(pages, rows, groups.drop_last()) + if group_visible(pages, rows, groups.last()) {
            seq![groups.last()]
        } else {
            Seq::empty()
        }
    }
}

/// Whether the module `name` is enabled in `rows`.
pub fn is_module_enabled(rows: &Vec<(String, bool)>, name: &str) -> (r: bool)
    ensures
        r == module_enabled(row_views(rows@), name@),
{
    let n = chars_of(name);
    let ghost all = row_views(rows@);
    let mut i: usize = 0;
    assert(all.skip(0) =~= all);
    while i < rows.len()
        invariant
            i <= rows@.len(),
            n@ == name@,
            all == row_views(rows@),
            module_enabled(all, name@) == module_enabled(all.skip(i as int), name@),
        decreases rows.len() - i,
    {
        let row_name = chars_of(rows[i].0.as_str());
        assert(all.skip(i as int)[0] == (rows@[i as int].0@, rows@[i as int].1));
        assert(all.skip(i as int).drop_first() =~= all.skip(i + 1));
        if chars_eq(&row_name, &n) {
            return rows[i].1;
        }
        i = i + 1;
    }
    false
}

/// The index of the first page with id `id`, if any.
fn page_index(reg: &NavigationRegistry, id: &Vec<char>) -> (r: Option<usize>)
    ensures
        match r {
            Some(i) => i < reg.pages@.len() && find_page(page_views(reg), id@) == Some(
                reg.pages@[i as int]@,
            ),
            None => find_page(page_views(reg), id@) is None,
        },
{
    let ghost all = page_views(reg);
    let mut i: usize = 0;
    assert(all.skip(0) =~= all);
    while i < reg.pages.len()
        invariant
            i <= reg.pages@.len(),
            all == page_views(reg),
            find_page(all, id@) == find_page(all.skip(i as int), id@),
        decreases reg.pages.len() - i,
    {
        let pid = chars_of(reg.pages[i].id.as_str());
        assert(all.skip(i as int)[0] == reg.pages@[i as int]@);
        assert(all.skip(i as int).drop_first() =~= all.skip(i + 1));
        if chars_eq(&pid, id) {
            return Some(i);
        }
        i = i + 1;
    }
    None
}

/// Whether the page `page_id` is visible: it exists and the module it
/// needs, if any, is enabled.
pub fn is_page_visible(reg: &NavigationRegistry, rows: &Vec<(String, bool)>, page_id: &str) -> (r: bool)
    ensures
        r == page_visible(page_views(reg), row_views(rows@), page_id@),
{
    let id = chars_of(page_id);
    match page_index(reg, &id) {
        None => false,
        Some(i) => match &reg.pages[i].required_module {
            Some(m) => is_module_enabled(rows, m.as_str()),
            None => true,
        },
    }
}

fn group_is_visible(reg: &NavigationRegistry, rows: &Vec<(String, bool)>, gi: usize) -> (r: bool)
    requires
        gi < reg.groups@.len(),
    ensures
        r == group_visible(page_views(reg), row_views(rows@), reg.groups@[gi as int]@),
{
    let g = &reg.groups[gi];
    let ghost gv = g@;
    let mut k: usize = 0;
    while k < g.pages.len()
        invariant
            k <= g.pages@.len(),
            gv == g@,
            gv == reg.groups@[gi as int]@,
            forall|j: int| 0 <= j < k ==> !page_visible(page_views(reg), row_views(rows@), #[trigger] gv.pages[j]),
        decreases g.pages.len() - k,
    {
        assert(gv.pages[k as int] == g.pages@[k as int]@);
        if is_page_visible(reg, rows, g.pages[k].as_str()) {
            assert(page_visible(page_views(reg), row_views(rows@), gv.pages[k as int]));
            return true;
        }
        k = k + 1;
    }
    false
}

/// The indices of the visible groups, in order.
pub fn visible_groups(reg: &NavigationRegistry, rows: &Vec<(String, bool)>) -> (r: Vec<usize>)
    ensures
        forall|k: int| 0 <= k < r@.len() ==> r@[k] < reg.groups@.len(),
        r@.map_values(|i: usize| reg.groups@[i as int]@) == visible_groups_spec(
            page_views(reg),
            row_views(rows@),
            group_views(reg),
        ),
{
    let ghost gs = group_views(reg);
    let mut out: Vec<usize> = Vec::new();
    let mut i: usize = 0;
    assert(gs.take(0) =~= Seq::<GroupView>::empty());
    assert(out@.map_values(|i: usize| reg.groups@[i as int]@) =~= Seq::<GroupView>::empty());
    while i < reg.groups.len()
        invariant
            i <= reg.groups@.len(),
            gs == group_views(reg),
            forall|k: int| 0 <= k < out@.len() ==> out@[k] < reg.groups@.len(),
            out@.map_values(|i: usize| reg.groups@[i as int]@) == visible_groups_spec(
                page_views(reg),
                row_views(rows@),
                gs.take(i as int),
            ),
        decreases reg.groups.len() - i,
    {
        assert(gs.take(i + 1).drop_last() =~= gs.take(i as int));
        assert(gs.take(i + 1).last() == reg.groups@[i as int]@);
        let ghost before = out@.map_values(|i: usize| reg.groups@[i as int]@);
        if group_is_visible(reg, rows, i) {
            out.push(i);
            assert(out@.map_values(|i: usize| reg.groups@[i as int]@) =~= before.push(
                reg.groups@[i as int]@,
            ));
        }
        i = i + 1;
    }
    assert(gs.take(i as int) =~= gs);
    out
}


/// The selected group and page.
pub struct NavSelection {
    pub active_group_id: String,
    pub active_page_id: String,
}

/// The first group of `gs` with id `id`, if any.
pub open spec fn find_group(gs: Seq<GroupView>, id: Seq<char>) -> Option<GroupView>
    decreases gs.len(),
{
    if gs.len() == 0 {
        None
    } else if gs[0].id == id {
        Some(gs[0])
    } else {
        find_group(gs.drop_first(), id)
    }
}

/// The first visible page of `ids`, if any.
pub open spec fn first_visible(pages: Seq<PageView>, rows: Seq<(Seq<char>, bool)>, ids: Seq<Seq<char>>) -> Option<
    Seq<char>,
>
    decreases ids.len(),
{
    if ids.len() == 0 {
        None
    } else if page_visible(pages, rows, ids[0]) {
        Some(ids[0])
    } else {
        first_visible(pages, rows, ids.drop_first())
    }
}

/// The selection after making it point at something visible: a group that
/// is not visible is replaced by the first visible group (or the default
/// group when none is visible); a page that is not visible is replaced by
/// the first visible page of the selected group (or of the first visible
/// group), when there is one.
pub open spec fn ensure_spec(
    pages: Seq<PageView>,
    rows: Seq<(Seq<char>, bool)>,
    groups: Seq<GroupView>,
    default_group: Seq<char>,
    group: Seq<char>,
    page: Seq<char>,
) -> (Seq<char>, Seq<char>) {
    let vg = visible_groups_spec(pages, rows, groups);
    let g1 = if find_group(vg, group) is Some {
        group
    } else if vg.len() > 0 {
        vg[0].id
    } else {
        default_group
    };
    let active = match find_group(vg, g1) {
        Some(g) => Some(g),
        None => if vg.len() > 0 {
            Some(vg[0])
        } else {
            None
        },
    };
    let p1 = if page_visible(pages, rows, page) {
        page
    } else {
        match active {
            Some(g) => match first_visible(pages, rows, g.pages) {
                Some(p) => p,
                None => page,
            },
            None => page,
        }
    };
    (g1, p1)
}

fn find_group_index(reg: &NavigationRegistry, vis: &Vec<usize>, id: &Vec<char>) -> (r: Option<usize>)
    requires
        forall|k: int| 0 <= k < vis@.len() ==> vis@[k] < reg.groups@.len(),
    ensures
        match r {
            Some(j) => j < vis@.len() && find_group(
                vis@.map_values(|i: usize| reg.groups@[i as int]@),
                id@,
            ) == Some(reg.groups@[vis@[j as int] as int]@),
            None => find_group(vis@.map_values(|i: usize| reg.groups@[i as int]@), id@) is None,
        },
{
    let ghost all = vis@.map_values(|i: usize| reg.groups@[i as int]@);
    let mut j: usize = 0;
    assert(all.skip(0) =~= all);
    while j < vis.len()
        invariant
            j <= vis@.len(),
            forall|k: int| 0 <= k < vis@.len() ==> vis@[k] < reg.groups@.len(),
            all == vis@.map_values(|i: usize| reg.groups@[i as int]@),
            find_group(all, id@) == find_group(all.skip(j as int), id@),
        decreases vis.len() - j,
    {
        let gid = chars_of(reg.groups[vis[j]].id.as_str());
        assert(all.skip(j as int)[0] == reg.groups@[vis@[j as int] as int]@);
        assert(all.skip(j as int).drop_first() =~= all.skip(j + 1));
        if chars_eq(&gid, id) {
            return Some(j);
        }
        j = j + 1;
    }
    None
}

fn first_visible_page(reg: &NavigationRegistry, rows: &Vec<(String, bool)>, gi: usize) -> (r: Option<
    String,
>)
    requires
        gi < reg.groups@.len(),
    ensures
        match first_visible(page_views(reg), row_views(rows@), reg.groups@[gi as int]@.pages) {
            Some(p) => r is Some && r->0@ == p,
            None => r is None,
        },
{
    let g = &reg.groups[gi];
    let ghost ids = g@.pages;
    let mut k: usize = 0;
    assert(ids.skip(0) =~= ids);
    while k < g.pages.len()
        invariant
            k <= g.pages@.len(),
            ids == g@.pages,
            g@ == reg.groups@[gi as int]@,
            first_visible(page_views(reg), row_views(rows@), ids) == first_visible(
                page_views(reg),
                row_views(rows@),
                ids.skip(k as int),
            ),
        decreases g.pages.len() - k,
    {
        assert(ids.skip(k as int)[0] == g.pages@[k as int]@);
        assert(ids.skip(k as int).drop_first() =~= ids.skip(k + 1));
        if is_page_visible(reg, rows, g.pages[k].as_str()) {
            return Some(g.pages[k].clone());
        }
        k = k + 1;
    }
    None
}

/// Keeps the selection on a visible group and page (see [`ensure_spec`]).
pub fn ensure_valid_navigation_selection(
    sel: &mut NavSelection,
    reg: &NavigationRegistry,
    rows: &Vec<(String, bool)>,
)
    ensures
        (final(sel).active_group_id@, final(sel).active_page_id@) == ensure_spec(
            page_views(reg),
            row_views(rows@),
            group_views(reg),
            reg.default_group_id@,
            old(sel).active_group_id@,
            old(sel).active_page_id@,
        ),
{
    let vis = visible_groups(reg, rows);
    let ghost vg = visible_groups_spec(page_views(reg), row_views(rows@), group_views(reg));
    assert(vis@.map_values(|i: usize| reg.groups@[i as int]@) == vg);
    let group = chars_of(sel.active_group_id.as_str());
    if find_group_index(reg, &vis, &group).is_none() {
        if vis.len() > 0 {
            assert(vg[0] == reg.groups@[vis@[0] as int]@);
            sel.active_group_id = reg.groups[vis[0]].id.clone();
        } else {
            sel.active_group_id = reg.default_group_id.clone();
        }
    }
    let group1 = chars_of(sel.active_group_id.as_str());
    let active: Option<usize> = match find_group_index(reg, &vis, &group1) {
        Some(j) => Some(vis[j]),
        None => if vis.len() > 0 {
            assert(vg[0] == reg.groups@[vis@[0] as int]@);
            Some(vis[0])
        } else {
            None
        },
    };
    if !is_page_visible(reg, rows, sel.active_page_id.as_str()) {
        match active {
            Some(gi) => match first_visible_page(reg, rows, gi) {
                Some(p) => {
                    sel.active_page_id = p;
                },
                None => {},
            },
            None => {},
        }
    }
}

proof fn lemma_visible_groups_members(
    pages: Seq<PageView>,
    rows: Seq<(Seq<char>, bool)>,
    groups: Seq<GroupView>,
)
    ensures
        forall|k: int|
            0 <= k < visible_groups_spec(pages, rows, groups).len() ==> group_visible(
                pages,
                rows,
                #[trigger] visible_groups_spec(pages, rows, groups)[k],
            ),
    decreases groups.len(),
{
    if groups.len() > 0 {
        lemma_visible_groups_members(pages, rows, groups.drop_last());
        let a = visible_groups_spec(pages, rows, groups.drop_last());
        let b: Seq<GroupView> = if group_visible(pages, rows, groups.last()) {
            seq![groups.last()]
        } else {
            Seq::empty()
        };
        assert forall|k: int| 0 <= k < (a + b).len() implies group_visible(pages, rows, #[trigger] (a + b)[k]) by {
            if k < a.len() {
                assert((a + b)[k] == a[k]);
            } else {
                assert((a + b)[k] == b[k - a.len()]);
            }
        }
    }
}

proof fn lemma_find_group(gs: Seq<GroupView>, id: Seq<char>)
    ensures
        find_group(gs, id) matches Some(g) ==> g.id == id && exists|k: int| 0 <= k < gs.len() && gs[k] == g,
        find_group(gs, id) is None <==> forall|k: int| 0 <= k < gs.len() ==> gs[k].id != id,
    decreases gs.len(),
{
    if gs.len() > 0 {
        lemma_find_group(gs.drop_first(), id);
        if gs[0].id != id {
            if let Some(g) = find_group(gs, id) {
                let k = choose|k: int| 0 <= k < gs.drop_first().len() && gs.drop_first()[k] == g;
                assert(gs[k + 1] == g);
            }
            if find_group(gs, id) is None {
                assert forall|k: int| 0 <= k < gs.len() implies gs[k].id != id by {
                    if k > 0 {
                        assert(gs[k] == gs.drop_first()[k - 1]);
                    }
                }
            } else {
                assert(!forall|k: int| 0 <= k < gs.drop_first().len() ==> gs.drop_first()[k].id != id);
                let k = choose|k: int| 0 <= k < gs.drop_first().len() && !(gs.drop_first()[k].id != id);
                assert(gs[k + 1] == gs.drop_first()[k]);
            }
        } else {
            assert(gs[0] == find_group(gs, id)->0);
        }
    }
}

proof fn lemma_first_visible(pages: Seq<PageView>, rows: Seq<(Seq<char>, bool)>, ids: Seq<Seq<char>>)
    ensures
        first_visible(pages, rows, ids) matches Some(p) ==> page_visible(pages, rows, p),
        (exists|k: int| 0 <= k < ids.len() && page_visible(pages, rows, #[trigger] ids[k])) ==> first_visible(
            pages,
            rows,
            ids,
        ) is Some,
    decreases ids.len(),
{
    if ids.len() > 0 {
        lemma_first_visible(pages, rows, ids.drop_first());
        if !page_visible(pages, rows, ids[0]) {
            if exists|k: int| 0 <= k < ids.len() && page_visible(pages, rows, #[trigger] ids[k]) {
                let k = choose|k: int| 0 <= k < ids.len() && page_visible(pages, rows, #[trigger] ids[k]);
                assert(k > 0);
                assert(ids.drop_first()[k - 1] == ids[k]);
            }
        }
    }
}

/// When some group is visible, the kept selection names a visible group
/// and a visible page.
pub proof fn law_selection_is_visible(
    pages: Seq<PageView>,
    rows: Seq<(Seq<char>, bool)>,
    groups: Seq<GroupView>,
    default_group: Seq<char>,
    group: Seq<char>,
    page: Seq<char>,
)
    requires
        visible_groups_spec(pages, rows, groups).len() > 0,
    ensures
        ({
            let (g1, p1) = ensure_spec(pages, rows, groups, default_group, group, page);
            let vg = visible_groups_spec(pages, rows, groups);
            &&& exists|k: int| 0 <= k < vg.len() && vg[k].id == g1
            &&& page_visible(pages, rows, p1)
        }),
{
    let vg = visible_groups_spec(pages, rows, groups);
    lemma_visible_groups_members(pages, rows, groups);
    lemma_find_group(vg, group);
    let (g1, p1) = ensure_spec(pages, rows, groups, default_group, group, page);
    lemma_find_group(vg, g1);
    if find_group(vg, group) is None {
        assert(vg[0].id == g1);
    }
    assert(find_group(vg, g1) is Some);
    let g = find_group(vg, g1)->0;
    let k = choose|k: int| 0 <= k < vg.len() && vg[k] == g;
    assert(group_visible(pages, rows, vg[k]));
    lemma_first_visible(pages, rows, g.pages);
}

/// Keeping the selection visible a second time changes nothing.
pub proof fn law_selection_fix_idempotent(
    pages: Seq<PageView>,
    rows: Seq<(Seq<char>, bool)>,
    groups: Seq<GroupView>,
    default_group: Seq<char>,
    group: Seq<char>,
    page: Seq<char>,
)
    requires
        visible_groups_spec(pages, rows, groups).len() > 0,
    ensures
        ({
            let (g1, p1) = ensure_spec(pages, rows, groups, default_group, group, page);
            ensure_spec(pages, rows, groups, default_group, g1, p1) == (g1, p1)
        }),
{
    let vg = visible_groups_spec(pages, rows, groups);
    law_selection_is_visible(pages, rows, groups, default_group, group, page);
    let (g1, p1) = ensure_spec(pages, rows, groups, default_group, group, page);
    lemma_find_group(vg, g1);
}


/// The index of the first page with id `page_id`, if any.
pub fn page_by_id(reg: &NavigationRegistry, page_id: &str) -> (r: Option<usize>)
    ensures
        match r {
            Some(i) => i < reg.pages@.len() && find_page(page_views(reg), page_id@) == Some(
                reg.pages@[i as int]@,
            ),
            None => find_page(page_views(reg), page_id@) is None,
        },
{
    page_index(reg, &chars_of(page_id))
}

/// The index of the first group with id `group_id`, or of the first group
/// when there is none with that id.
pub fn group_by_id(reg: &NavigationRegistry, group_id: &str) -> (r: usize)
    requires
        reg.groups@.len() > 0,
    ensures
        r < reg.groups@.len(),
        match find_group(group_views(reg), group_id@) {
            Some(g) => reg.groups@[r as int]@ == g,
            None => r == 0,
        },
{
    let id = chars_of(group_id);
    let ghost all = group_views(reg);
    let mut i: usize = 0;
    assert(all.skip(0) =~= all);
    while i < reg.groups.len()
        invariant
            i <= reg.groups@.len(),
            all == group_views(reg),
            id@ == group_id@,
            find_group(all, group_id@) == find_group(all.skip(i as int), group_id@),
        decreases reg.groups.len() - i,
    {
        let gid = chars_of(reg.groups[i].id.as_str());
        assert(all.skip(i as int)[0] == reg.groups@[i as int]@);
        assert(all.skip(i as int).drop_first() =~= all.skip(i + 1));
        if chars_eq(&gid, &id) {
            return i;
        }
        i = i + 1;
    }
    0
}

/// The index of the selected page when it is visible.
pub fn active_page_if_visible(sel: &NavSelection, reg: &NavigationRegistry, rows: &Vec<(String, bool)>) -> (r:
    Option<usize>)
    ensures
        page_visible(page_views(reg), row_views(rows@), sel.active_page_id@) ==> (r matches Some(i)
            && i < reg.pages@.len() && find_page(page_views(reg), sel.active_page_id@) == Some(
            reg.pages@[i as int]@,
        )),
        !page_visible(page_views(reg), row_views(rows@), sel.active_page_id@) ==> r is None,
{
    if is_page_visible(reg, rows, sel.active_page_id.as_str()) {
        page_by_id(reg, sel.active_page_id.as_str())
    } else {
        None
    }
}

/// Selects the group `group_id` from the sidebar, and its first page when
/// the registry lists that group with at least one page.
pub fn select_group(sel: &mut NavSelection, reg: &NavigationRegistry, group_id: &str)
    ensures
        final(sel).active_group_id@ == group_id@,
        match find_group(group_views(reg), group_id@) {
            Some(g) => if g.pages.len() > 0 {
                final(sel).active_page_id@ == g.pages[0]
            } else {
                final(sel).active_page_id@ == old(sel).active_page_id@
            },
            None => final(sel).active_page_id@ == old(sel).active_page_id@,
        },
{
    sel.active_group_id = group_id.to_owned();
    if reg.groups.len() == 0 {
        return;
    }
    let gi = group_by_id(reg, group_id);
    let id = chars_of(reg.groups[gi].id.as_str());
    let wanted = chars_of(group_id);
    if chars_eq(&id, &wanted) {
        if reg.groups[gi].pages.len() > 0 {
            assert(reg.groups@[gi as int]@.pages[0] == reg.groups@[gi as int].pages@[0]@);
            sel.active_page_id = reg.groups[gi].pages[0].clone();
        }
    } else {
        proof {
            let r = find_group(group_views(reg), group_id@);
            lemma_find_group(group_views(reg), group_id@);
            if r is Some {
                assert(r->0.id == group_id@);
            }
        }
    }
}

/// Selects a page from the sidebar or the top bar; returns whether the
/// module rows must be reloaded (the modules page shows them).
pub fn select_global_page(sel: &mut NavSelection, page_id: &str) -> (reload: bool)
    ensures
        final(sel).active_page_id@ == page_id@,
        final(sel).active_group_id@ == old(sel).active_group_id@,
        reload == (page_id@ == "global.modules"@),
{
    sel.active_page_id = page_id.to_owned();
    crate::text::chars_eq_str(&chars_of(page_id), "global.modules")
}

/// Whether one of the pages with ids `ids`, at any position, is visible.
pub open spec fn some_page_visible(pages: Seq<PageView>, rows: Seq<(Seq<char>, bool)>, ids: Seq<Seq<char>>) -> bool {
    exists|k: int| 0 <= k < ids.len() && #[trigger] page_visible(pages, rows, ids[k])
}

/// Every listed visible group is one of the groups and has a visible page.
proof fn lemma_listed_groups_have_a_visible_page(
    pages: Seq<PageView>,
    rows: Seq<(Seq<char>, bool)>,
    groups: Seq<GroupView>,
    j: int,
)
    requires
        0 <= j < visible_groups_spec(pages, rows, groups).len(),
    ensures
        groups.contains(visible_groups_spec(pages, rows, groups)[j]),
        some_page_visible(pages, rows, visible_groups_spec(pages, rows, groups)[j].pages),
    decreases groups.len(),
{
    let init = groups.drop_last();
    let a = visible_groups_spec(pages, rows, init);
    let v = visible_groups_spec(pages, rows, groups);
    assert(v == a + if group_visible(pages, rows, groups.last()) {
        seq![groups.last()]
    } else {
        Seq::<GroupView>::empty()
    });
    if j < a.len() {
        lemma_listed_groups_have_a_visible_page(pages, rows, init, j);
        assert(v[j] == a[j]);
        let m = choose|m: int| 0 <= m < init.len() && init[m] == a[j];
        assert(groups[m] == init[m]);
    } else {
        assert(v[j] == groups.last());
        assert(groups[groups.len() - 1] == groups.last());
        assert(group_visible(pages, rows, groups.last()));
        let k = choose|k: int|
            0 <= k < groups.last().pages.len() && page_visible(pages, rows, #[trigger] groups.last().pages[k]);
        assert(page_visible(pages, rows, v[j].pages[k]));
    }
}

/// A group with a visible page at any position is listed as visible.
proof fn lemma_group_with_visible_page_listed(
    pages: Seq<PageView>,
    rows: Seq<(Seq<char>, bool)>,
    groups: Seq<GroupView>,
    i: int,
    k: int,
)
    requires
        0 <= i < groups.len(),
        0 <= k < groups[i].pages.len(),
        page_visible(pages, rows, groups[i].pages[k]),
    ensures
        visible_groups_spec(pages, rows, groups).contains(groups[i]),
    decreases groups.len(),
{
    let init = groups.drop_last();
    let a = visible_groups_spec(pages, rows, init);
    let v = visible_groups_spec(pages, rows, groups);
    assert(v == a + if group_visible(pages, rows, groups.last()) {
        seq![groups.last()]
    } else {
        Seq::<GroupView>::empty()
    });
    if i < groups.len() - 1 {
        assert(groups[i] == init[i]);
        lemma_group_with_visible_page_listed(pages, rows, init, i, k);
        let m = choose|m: int| 0 <= m < a.len() && a[m] == init[i];
        assert(v[m] == a[m]);
    } else {
        assert(groups[i] == groups.last());
        assert(group_visible(pages, rows, groups.last()));
        assert(v[a.len() as int] == groups.last());
    }
}

/// The visible groups are the groups that have at least one visible page,
/// whichever of their pages it is: every listed group is one of the
/// registry's groups and has a visible page, and a group with a visible
/// page at any position is listed.
pub proof fn law_visible_groups_have_a_visible_page(
    pages: Seq<PageView>,
    rows: Seq<(Seq<char>, bool)>,
    groups: Seq<GroupView>,
)
    ensures
        forall|j: int|
            0 <= j < visible_groups_spec(pages, rows, groups).len() ==> groups.contains(
                #[trigger] visible_groups_spec(pages, rows, groups)[j],
            ),
        forall|j: int|
            0 <= j < visible_groups_spec(pages, rows, groups).len() ==> some_page_visible(
                pages,
                rows,
                #[trigger] visible_groups_spec(pages, rows, groups)[j].pages,
            ),
        forall|i: int, k: int|
            0 <= i < groups.len() && 0 <= k < groups[i].pages.len() && #[trigger] page_visible(
                pages,
                rows,
                groups[i].pages[k],
            ) ==> visible_groups_spec(pages, rows, groups).contains(groups[i]),
{
    let v = visible_groups_spec(pages, rows, groups);
    assert forall|j: int| 0 <= j < v.len() implies groups.contains(#[trigger] v[j]) by {
        lemma_listed_groups_have_a_visible_page(pages, rows, groups, j);
    }
    assert forall|j: int| 0 <= j < v.len() implies some_page_visible(pages, rows, #[trigger] v[j].pages) by {
        lemma_listed_groups_have_a_visible_page(pages, rows, groups, j);
    }
    assert forall|i: int, k: int|
        0 <= i < groups.len() && 0 <= k < groups[i].pages.len() && #[trigger] page_visible(
            pages,
            rows,
            groups[i].pages[k],
        ) implies v.contains(groups[i]) by {
        lemma_group_with_visible_page_listed(pages, rows, groups, i, k);
    }
}

} // verus!
