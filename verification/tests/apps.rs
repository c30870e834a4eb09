use antiknob::apps::{sort_apps, AppInfo};

fn app(name: &str) -> AppInfo {
    AppInfo { name: name.to_string(), bundle_id: None, path: format!("/Applications/{name}.app") }
}

#[test]
fn apps_are_listed_by_name_ignoring_case() {
    let sorted = sort_apps(vec![app("Zebra"), app("alpha"), app("NoId"), app("Beta")]);
    let names: Vec<&str> = sorted.iter().map(|a| a.name.as_str()).collect();
    assert_eq!(names, vec!["alpha", "Beta", "NoId", "Zebra"]);
    assert!(sort_apps(vec![]).is_empty());
}

#[test]
fn a_name_sorts_after_its_prefix() {
    let sorted = sort_apps(vec![app("Notes Pro"), app("notes")]);
    assert_eq!(sorted[0].name, "notes");
}

#[test]
fn apps_with_the_same_name_keep_their_scan_order() {
    let first = AppInfo { name: "Mail".to_string(), bundle_id: None, path: "/System/Applications/Mail.app".to_string() };
    let second = AppInfo { name: "mail".to_string(), bundle_id: None, path: "/Applications/mail.app".to_string() };
    let sorted = sort_apps(vec![app("Zoom"), first.clone(), second.clone(), app("Calendar")]);
    assert_eq!(sorted[0].name, "Calendar");
    assert_eq!(sorted[1], first);
    assert_eq!(sorted[2], second);
    let sorted = sort_apps(vec![second.clone(), first.clone()]);
    assert_eq!(sorted, vec![second, first]);
}
