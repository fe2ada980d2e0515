use recent_projects::freshness::{create_project, max_timestamp, Project};
use recent_projects::report::{format_project, project_line};
use recent_projects::scan::all_projects;
use recent_projects::select::select;
use recent_projects::tree::{should_exclude, to_timestamp, FileTime, Node, ScanError, MAX_DEPTH, MAX_PROJECTS};
use recent_projects::walker::{add_projects, is_project_dir, to_project};

fn file(name: &str, secs: u64) -> Node {
    Node::File { name: name.to_string(), modified: Some(FileTime::SinceEpoch(secs)) }
}

fn dir(name: &str, path: &str, children: Vec<Node>) -> Node {
    Node::Dir { name: name.to_string(), path: Some(path.to_string()), children: Some(children) }
}

fn git() -> Node {
    dir(".git", "/unused/.git", vec![file("HEAD", 1)])
}

fn summary(projects: &[Project]) -> Vec<(String, u64)> {
    projects.iter().map(|p| (p.path.clone(), p.modified)).collect()
}

#[test]
fn newest_project_comes_first() {
    let root = vec![
        dir("a", "/p/a", vec![git(), file("x", 100), file("y", 40)]),
        dir("b", "/p/b", vec![file("z", 200), git()]),
    ];
    let projects = all_projects(&Some(root)).unwrap();
    assert_eq!(summary(&projects), vec![("/p/b".to_string(), 200), ("/p/a".to_string(), 100)]);
}

#[test]
fn excluded_directory_does_not_count() {
    let listing = vec![
        dir("node_modules", "/p/a/node_modules", vec![file("big", 9999)]),
        file("tracked", 50),
    ];
    assert_eq!(max_timestamp(&listing), Ok(50));
    let project = create_project("/p/a", &listing).unwrap();
    assert_eq!((project.path.as_str(), project.modified), ("/p/a", 50));
}

#[test]
fn freshness_has_no_depth_bound() {
    let deep = dir("d1", "/p/a/d1", vec![dir("d2", "/p/a/d1/d2", vec![dir(
        "d3",
        "/p/a/d1/d2/d3",
        vec![dir("d4", "/p/a/d1/d2/d3/d4", vec![file("late", 300)])],
    )])]);
    let root = vec![dir("a", "/p/a", vec![git(), file("early", 20), deep])];
    let projects = all_projects(&Some(root)).unwrap();
    assert_eq!(summary(&projects), vec![("/p/a".to_string(), 300)]);
}

#[test]
fn empty_or_excluded_only_listing_is_zero() {
    assert_eq!(max_timestamp(&vec![]), Ok(0));
    let listing = vec![
        dir("target", "/p/a/target", vec![file("o", 7)]),
        dir("node_modules", "/p/a/node_modules", vec![file("m", 8)]),
    ];
    assert_eq!(max_timestamp(&listing), Ok(0));
}

#[test]
fn freshness_is_maximum_over_subtree() {
    let listing = vec![
        file("a", 5),
        dir("src", "/p/src", vec![file("b", 70), dir("inner", "/p/src/inner", vec![file("c", 90)])]),
        file("d", 60),
    ];
    assert_eq!(max_timestamp(&listing), Ok(90));
}

#[test]
fn excluded_directory_is_not_read() {
    let broken = Node::Dir { name: "target".to_string(), path: Some("/p/target".to_string()), children: None };
    assert_eq!(max_timestamp(&vec![broken, file("a", 3)]), Ok(3));
}

#[test]
fn unreadable_entries_fail_freshness() {
    assert_eq!(max_timestamp(&vec![file("a", 3), Node::Broken]), Err(ScanError::Unreadable));
    assert_eq!(max_timestamp(&vec![Node::Unknown { name: "u".to_string() }]), Err(ScanError::Unreadable));
    let no_time = Node::File { name: "f".to_string(), modified: None };
    assert_eq!(max_timestamp(&vec![no_time]), Err(ScanError::Unreadable));
    let unlisted = Node::Dir { name: "src".to_string(), path: Some("/p/src".to_string()), children: None };
    assert_eq!(max_timestamp(&vec![unlisted]), Err(ScanError::Unreadable));
    assert!(create_project("/p", &vec![Node::Broken]).is_err());
}

#[test]
fn time_before_epoch_is_zero() {
    assert_eq!(to_timestamp(FileTime::BeforeEpoch), 0);
    assert_eq!(to_timestamp(FileTime::SinceEpoch(1234)), 1234);
    let listing = vec![Node::File { name: "old".to_string(), modified: Some(FileTime::BeforeEpoch) }];
    assert_eq!(max_timestamp(&listing), Ok(0));
}

#[test]
fn exclusion_is_exact() {
    assert!(should_exclude("node_modules"));
    assert!(should_exclude("target"));
    assert!(!should_exclude("Target"));
    assert!(!should_exclude("targets"));
    assert!(!should_exclude(""));
}

#[test]
fn git_child_of_any_kind_marks_project() {
    let as_file = dir("a", "/p/a", vec![file("readme", 1), file(".git", 2)]);
    assert_eq!(is_project_dir(&as_file), Ok(true));
    let as_dir = dir("b", "/p/b", vec![git()]);
    assert_eq!(is_project_dir(&as_dir), Ok(true));
    let as_unknown = dir("c", "/p/c", vec![Node::Unknown { name: ".git".to_string() }]);
    assert_eq!(is_project_dir(&as_unknown), Ok(true));
    let plain = dir("d", "/p/d", vec![file(".gitignore", 1), file("git", 1)]);
    assert_eq!(is_project_dir(&plain), Ok(false));
}

#[test]
fn project_detection_reads_up_to_the_marker() {
    let after = dir("a", "/p/a", vec![file(".git", 1), Node::Broken]);
    assert_eq!(is_project_dir(&after), Ok(true));
    let before = dir("b", "/p/b", vec![Node::Broken, file(".git", 1)]);
    assert_eq!(is_project_dir(&before), Err(ScanError::Unreadable));
    let unlisted = Node::Dir { name: "c".to_string(), path: Some("/p/c".to_string()), children: None };
    assert_eq!(is_project_dir(&unlisted), Err(ScanError::Unreadable));
    let odd_path = Node::Dir { name: "d".to_string(), path: None, children: None };
    assert_eq!(is_project_dir(&odd_path), Ok(false));
}

#[test]
fn to_project_uses_the_path_and_freshness() {
    let entry = dir("a", "/p/a", vec![git(), file("x", 77)]);
    let project = to_project(&entry).unwrap().unwrap();
    assert_eq!((project.path.as_str(), project.modified), ("/p/a", 77));
    let odd_path = Node::Dir { name: "d".to_string(), path: None, children: None };
    assert!(to_project(&odd_path).unwrap().is_none());
}

fn nest(levels: usize, leaf: Node) -> Node {
    let mut node = leaf;
    for level in (0..levels).rev() {
        node = dir(&format!("n{}", level), &format!("/p/n{}", level), vec![node]);
    }
    node
}

#[test]
fn projects_beyond_depth_are_not_found() {
    let at_limit = nest(MAX_DEPTH as usize, dir("proj", "/p/proj", vec![git(), file("x", 5)]));
    let mut projects = Vec::new();
    assert_eq!(add_projects(&mut projects, &vec![at_limit], 0), Ok(()));
    assert_eq!(summary(&projects), vec![("/p/proj".to_string(), 5)]);

    let too_deep = nest(MAX_DEPTH as usize + 1, dir("proj", "/p/proj", vec![git(), file("x", 5)]));
    let mut projects = Vec::new();
    assert_eq!(add_projects(&mut projects, &vec![too_deep], 0), Ok(()));
    assert!(projects.is_empty());
}

#[test]
fn unreadable_below_depth_limit_is_ignored() {
    let hidden = nest(MAX_DEPTH as usize + 2, Node::Broken);
    let mut projects = Vec::new();
    assert_eq!(add_projects(&mut projects, &vec![hidden], 0), Ok(()));
    assert!(projects.is_empty());
}

#[test]
fn nested_project_is_not_reported() {
    let inner = dir("inner", "/p/outer/inner", vec![git(), file("i", 500)]);
    let outer = dir("outer", "/p/outer", vec![git(), file("o", 10), inner]);
    let mut projects = Vec::new();
    assert_eq!(add_projects(&mut projects, &vec![outer], 0), Ok(()));
    assert_eq!(summary(&projects), vec![("/p/outer".to_string(), 500)]);
}

#[test]
fn walk_appends_in_listing_order() {
    let mut projects = vec![Project { path: "/earlier".to_string(), modified: 1 }];
    let listing = vec![
        file("loose", 9),
        dir("a", "/p/a", vec![git(), file("x", 3)]),
        dir("group", "/p/group", vec![dir("b", "/p/group/b", vec![git(), file("y", 4)])]),
    ];
    assert_eq!(add_projects(&mut projects, &listing, 0), Ok(()));
    assert_eq!(
        summary(&projects),
        vec![("/earlier".to_string(), 1), ("/p/a".to_string(), 3), ("/p/group/b".to_string(), 4)]
    );
}

#[test]
fn walk_failure_is_an_error() {
    let mut projects = Vec::new();
    assert_eq!(add_projects(&mut projects, &vec![Node::Broken], 0), Err(ScanError::Unreadable));
    let bad_project = dir("a", "/p/a", vec![git(), Node::File { name: "f".to_string(), modified: None }]);
    assert_eq!(add_projects(&mut projects, &vec![bad_project], 0), Err(ScanError::Unreadable));
    assert!(all_projects(&None).is_err());
}

#[test]
fn selection_keeps_the_newest_twenty() {
    let projects: Vec<Project> =
        (0..30u64).map(|i| Project { path: format!("/p/{}", i), modified: (i * 7) % 30 }).collect();
    let chosen = select(projects);
    assert_eq!(chosen.len(), MAX_PROJECTS);
    let times: Vec<u64> = chosen.iter().map(|p| p.modified).collect();
    let expected: Vec<u64> = (10..30u64).rev().collect();
    assert_eq!(times, expected);
}

#[test]
fn selection_of_few_keeps_all() {
    let projects = vec![
        Project { path: "/p/a".to_string(), modified: 3 },
        Project { path: "/p/b".to_string(), modified: 9 },
        Project { path: "/p/c".to_string(), modified: 5 },
    ];
    assert_eq!(
        summary(&select(projects)),
        vec![("/p/b".to_string(), 9), ("/p/c".to_string(), 5), ("/p/a".to_string(), 3)]
    );
    assert!(select(Vec::new()).is_empty());
}

#[test]
fn report_line_joins_time_and_path() {
    assert_eq!(project_line("2024-01-02 03:04:05", "/p/a"), "2024-01-02 03:04:05 /p/a");
    let project = Project { path: "/p/a".to_string(), modified: 86400 * 365 };
    let line = format_project(&project).unwrap();
    assert!(line.ends_with(" /p/a"));
    assert_eq!(line.len(), "1971-01-01 00:00:00 /p/a".len());
    assert!(line.starts_with("19"));
    let last = Project { path: "/p/z".to_string(), modified: 253_402_300_799 };
    let line = format_project(&last).unwrap();
    assert!(line.len() >= 19 + " /p/z".len());
    assert!(line.ends_with(" /p/z"));
    let beyond = Project { path: "/p/a".to_string(), modified: i64::MAX as u64 + 1 };
    assert!(format_project(&beyond).is_none());
    let far = Project { path: "/p/a".to_string(), modified: u64::MAX };
    assert!(format_project(&far).is_none());
}
