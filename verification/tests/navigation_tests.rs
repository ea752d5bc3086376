use arcadia::navigation::{
    active_page_if_visible, ensure_valid_navigation_selection, group_by_id, is_module_enabled,
    is_page_visible, page_by_id, select_global_page, select_group, visible_groups, NavSelection,
    NavigationGroup, NavigationPage, NavigationRegistry,
};

fn page(id: &str, m: Option<&str>) -> NavigationPage {
    NavigationPage { id: id.to_string(), required_module: m.map(|s| s.to_string()) }
}

fn group(id: &str, pages: &[&str]) -> NavigationGroup {
    NavigationGroup { id: id.to_string(), pages: pages.iter().map(|s| s.to_string()).collect() }
}

fn registry() -> NavigationRegistry {
    NavigationRegistry {
        pages: vec![
            page("home.overview", None),
            page("utility.shell", Some("shell")),
            page("network.nodes", Some("lan")),
            page("global.modules", None),
        ],
        groups: vec![
            group("home", &["home.overview"]),
            group("utility", &["utility.shell"]),
            group("network", &["network.nodes"]),
        ],
        default_group_id: "home".to_string(),
    }
}

fn rows(shell: bool, lan: bool) -> Vec<(String, bool)> {
    vec![("shell".to_string(), shell), ("lan".to_string(), lan)]
}

fn sel(g: &str, p: &str) -> NavSelection {
    NavSelection { active_group_id: g.to_string(), active_page_id: p.to_string() }
}

#[test]
fn visibility() {
    let reg = registry();
    let r = rows(true, false);
    assert!(is_module_enabled(&r, "shell"));
    assert!(!is_module_enabled(&r, "lan"));
    assert!(!is_module_enabled(&r, "net"));
    assert!(is_page_visible(&reg, &r, "home.overview"));
    assert!(is_page_visible(&reg, &r, "utility.shell"));
    assert!(!is_page_visible(&reg, &r, "network.nodes"));
    assert!(!is_page_visible(&reg, &r, "missing"));
    assert_eq!(visible_groups(&reg, &r), vec![0, 1]);
    assert_eq!(page_by_id(&reg, "global.modules"), Some(3));
    assert_eq!(group_by_id(&reg, "network"), 2);
    assert_eq!(group_by_id(&reg, "nope"), 0);
}

#[test]
fn selection_moves_to_visible() {
    let reg = registry();
    let r = rows(true, false);
    let mut s = sel("network", "network.nodes");
    ensure_valid_navigation_selection(&mut s, &reg, &r);
    assert_eq!(s.active_group_id, "home");
    assert_eq!(s.active_page_id, "home.overview");
    let before = (s.active_group_id.clone(), s.active_page_id.clone());
    ensure_valid_navigation_selection(&mut s, &reg, &r);
    assert_eq!((s.active_group_id.clone(), s.active_page_id.clone()), before);
    let mut s = sel("utility", "network.nodes");
    ensure_valid_navigation_selection(&mut s, &reg, &r);
    assert_eq!(s.active_group_id, "utility");
    assert_eq!(s.active_page_id, "utility.shell");
    assert_eq!(active_page_if_visible(&s, &reg, &r), Some(1));
}

#[test]
fn selection_without_visible_groups() {
    let mut reg = registry();
    reg.groups = vec![group("network", &["network.nodes"])];
    let r = rows(false, false);
    let mut s = sel("network", "network.nodes");
    ensure_valid_navigation_selection(&mut s, &reg, &r);
    assert_eq!(s.active_group_id, "home");
    assert_eq!(s.active_page_id, "network.nodes");
    assert!(active_page_if_visible(&s, &reg, &r).is_none());
}

#[test]
fn sidebar_clicks() {
    let reg = registry();
    let mut s = sel("home", "home.overview");
    select_group(&mut s, &reg, "utility");
    assert_eq!(s.active_group_id, "utility");
    assert_eq!(s.active_page_id, "utility.shell");
    select_group(&mut s, &reg, "ghost");
    assert_eq!(s.active_group_id, "ghost");
    assert_eq!(s.active_page_id, "utility.shell");
    assert!(select_global_page(&mut s, "global.modules"));
    assert_eq!(s.active_page_id, "global.modules");
    assert!(!select_global_page(&mut s, "global.logs"));
}
