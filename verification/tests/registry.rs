use blindspot::installer::{Archived, Compression, FileOp, Installer};
use blindspot::package::{Package, Release, Timestamp};
use blindspot::registry::{Admission, Reverted, Worker, BSPM};

const NOW: Timestamp = Timestamp { secs: 1_700_000_000, nanos: 0 };
const THEN: Timestamp = Timestamp { secs: 1_600_000_000, nanos: 0 };

fn package(name: &str, url: &str) -> Package {
    Package {
        name: name.to_string(),
        installer: Installer {
            url: url.to_string(),
            path: format!("/bin/{}", name),
            compression: None,
            archive: None,
            backup: None,
        },
        release: Some(Release::Dated(THEN)),
        last_update: None,
        github: None,
    }
}

fn same(a: &Package, b: &Package) -> bool {
    a.name == b.name
        && a.installer == b.installer
        && a.release == b.release
        && a.last_update == b.last_update
        && a.github == b.github
}

fn names(registry: &BSPM) -> Vec<String> {
    registry.packages().iter().map(|p| p.name.clone()).collect()
}

fn assert_names_unique(registry: &BSPM) {
    let mut seen = names(registry);
    seen.sort();
    let count = seen.len();
    seen.dedup();
    assert_eq!(seen.len(), count);
}

fn registry() -> BSPM {
    BSPM::new(vec![
        package("x", "https://host/x"),
        package("y", "https://host/y/v1"),
        package("z", "https://host/z"),
    ])
}

#[test]
fn default_registry_is_empty() {
    let registry = BSPM::default();
    assert!(registry.is_empty());
    assert!(registry.packages().is_empty());
    assert!(registry.list().is_empty());
    assert!(registry.update(&vec![]).is_empty());
}

#[test]
fn loading_keeps_the_first_package_of_each_name() {
    let registry = BSPM::new(vec![
        package("x", "https://host/x1"),
        package("y", "https://host/y"),
        package("x", "https://host/x2"),
        package("x", "https://host/x3"),
        package("y", "https://host/y2"),
    ]);
    assert_eq!(names(&registry), vec!["x", "y"]);
    assert_eq!(registry.packages()[0].installer.url, "https://host/x1");
    assert_eq!(registry.packages()[1].installer.url, "https://host/y");
    assert_names_unique(&registry);
    assert!(!registry.is_empty());
}

#[test]
fn request_for_a_new_name_is_admitted() {
    let registry = registry();
    let admission = registry.install(
        "fd".to_string(),
        "sharkdp/fd".to_string(),
        false,
        Some(Compression::Gzip),
        Some(Archived::Tar),
        "/usr/local/bin",
    );
    match admission {
        Admission::Fresh(p) => {
            assert_eq!(p.name, "fd");
            assert_eq!(
                p.installer,
                Installer {
                    url: "sharkdp/fd".to_string(),
                    path: "/usr/local/bin/fd".to_string(),
                    compression: Some(Compression::Gzip),
                    archive: Some(Archived::Tar),
                    backup: None,
                }
            );
            assert_eq!(p.release, None);
            assert_eq!(p.last_update, None);
            assert_eq!(p.github, None);
        }
        other => panic!("not admitted: {:?}", other),
    }
    assert_eq!(names(&registry), vec!["x", "y", "z"]);
}

#[test]
fn request_for_an_installed_name_needs_consent_or_force() {
    let registry = registry();
    let asked = registry.install("y".to_string(), "https://host/y2".to_string(), false, None, None, "/bin");
    assert!(matches!(asked, Admission::Confirm(p) if p.installer.url == "https://host/y2"));
    let forced = registry.install("y".to_string(), "https://host/y2".to_string(), true, None, None, "/bin");
    assert!(matches!(forced, Admission::Replace(p) if p.installer.path == "/bin/y"));
    let fresh = registry.install("w".to_string(), "https://host/w".to_string(), true, None, None, "/bin");
    assert!(matches!(fresh, Admission::Fresh(_)));
    assert!(BSPM::confirms("y"));
    assert!(!BSPM::confirms("Y"));
    assert!(!BSPM::confirms("yes"));
    assert!(!BSPM::confirms(" y"));
    assert!(!BSPM::confirms(""));
    assert!(!BSPM::confirms("n"));
}

#[test]
fn added_package_replaces_the_one_of_its_name() {
    let mut registry = registry();
    registry.add(package("w", "https://host/w"));
    assert_eq!(names(&registry), vec!["x", "y", "z", "w"]);
    registry.add(package("y", "https://host/y/v2"));
    assert_eq!(names(&registry), vec!["x", "z", "w", "y"]);
    assert_eq!(registry.packages()[3].installer.url, "https://host/y/v2");
    assert_names_unique(&registry);
}

#[test]
fn delete_removes_the_package_and_its_files() {
    let mut registry = registry();
    let mut with_backup = package("w", "https://host/w");
    with_backup.installer.backup = Some("/data/w".to_string());
    registry.add(with_backup);
    assert_eq!(
        registry.delete("w"),
        Some(vec![
            FileOp::Remove { path: "/data/w".to_string() },
            FileOp::Remove { path: "/bin/w".to_string() },
        ])
    );
    assert_eq!(registry.delete("y"), Some(vec![FileOp::Remove { path: "/bin/y".to_string() }]));
    assert_eq!(names(&registry), vec!["x", "z"]);
    assert_eq!(registry.delete("y"), None);
    assert_eq!(registry.delete("nothing"), None);
    assert_eq!(names(&registry), vec!["x", "z"]);
    assert_names_unique(&registry);
}

#[test]
fn revert_spends_the_backup_of_the_package() {
    let mut registry = registry();
    let mut with_backup = package("w", "https://host/w");
    with_backup.installer.backup = Some("/data/w".to_string());
    registry.add(with_backup);
    assert_eq!(registry.revert("nothing"), Reverted::NotInstalled);
    assert_eq!(registry.revert("x"), Reverted::NoBackup);
    assert_eq!(
        registry.revert("w"),
        Reverted::Restore(FileOp::Move { from: "/data/w".to_string(), to: "/bin/w".to_string() })
    );
    assert_eq!(registry.packages()[3].installer.backup, None);
    assert_eq!(registry.revert("w"), Reverted::NoBackup);
    assert_eq!(names(&registry), vec!["x", "y", "z", "w"]);
    assert!(same(&registry.packages()[0], &package("x", "https://host/x")));
}

#[test]
fn update_starts_a_worker_for_each_wanted_package() {
    let registry = registry();
    let all = registry.update(&vec![]);
    assert_eq!(all.len(), 3);
    for (worker, package) in all.iter().zip(registry.packages()) {
        assert!(matches!(worker, Worker::Running(p) if same(p, package)));
    }
    let some = registry.update(&vec!["z".to_string(), "nothing".to_string(), "x".to_string()]);
    assert!(matches!(&some[0], Worker::Running(p) if p.name == "x"));
    assert!(matches!(&some[1], Worker::Skipped));
    assert!(matches!(&some[2], Worker::Running(p) if p.name == "z"));
    let none = registry.update(&vec!["nothing".to_string()]);
    assert!(none.iter().all(|w| matches!(w, Worker::Skipped)));
}

#[test]
fn bulk_update_keeps_what_failed_and_takes_what_succeeded() {
    let x = package("X", "https://host/x");
    let mut y = package("Y", "https://host/y/v1");
    y.github = Some("o/r".to_string());
    y.release = Some(Release::Version("v1".to_string()));
    let mut registry = BSPM::new(vec![x.clone(), y.clone()]);

    let mut workers = registry.update(&vec![]);
    assert_eq!(workers.len(), 2);
    let mut updated = y.clone();
    updated.installer.url = "https://host/y/v2".to_string();
    updated.release = Some(Release::Version("v2".to_string()));
    updated.last_update = Some(NOW);
    workers[0] = Worker::Failed;
    workers[1] = Worker::Succeeded(updated.clone());

    let failures = registry.merge(&workers);
    assert_eq!(failures, 1);
    assert_eq!(registry.packages().len(), 2);
    let kept = registry.packages().iter().find(|p| p.name == "X").unwrap();
    assert!(same(kept, &x));
    let taken = registry.packages().iter().find(|p| p.name == "Y").unwrap();
    assert!(same(taken, &updated));
    assert_names_unique(&registry);
}

#[test]
fn merge_ignores_workers_without_result() {
    let mut registry = registry();
    let before: Vec<Package> = registry.packages().clone();
    let stranger = package("nothing", "https://host/nothing");
    let failures = registry.merge(&vec![
        Worker::Skipped,
        Worker::Running(package("x", "https://host/other")),
        Worker::Failed,
        Worker::Failed,
        Worker::Succeeded(stranger),
    ]);
    assert_eq!(failures, 2);
    assert_eq!(registry.packages().len(), 3);
    for (a, b) in registry.packages().iter().zip(&before) {
        assert!(same(a, b));
    }
    assert_eq!(registry.merge(&vec![]), 0);
}

#[test]
fn merged_package_comes_last() {
    let mut registry = registry();
    let failures = registry.merge(&vec![
        Worker::Succeeded(package("x", "https://host/x2")),
        Worker::Skipped,
        Worker::Succeeded(package("x", "https://host/x3")),
    ]);
    assert_eq!(failures, 0);
    assert_eq!(names(&registry), vec!["y", "z", "x"]);
    assert_eq!(registry.packages()[2].installer.url, "https://host/x3");
    assert_names_unique(&registry);
}

#[test]
fn list_shows_name_and_origin() {
    let mut fd = package("fd", "https://host/fd.tar.gz");
    fd.github = Some("sharkdp/fd".to_string());
    let registry = BSPM::new(vec![package("x", "https://host/x"), fd]);
    assert_eq!(
        registry.list(),
        vec!["\x1b[1mx\x1b[m https://host/x".to_string(), "\x1b[1mfd\x1b[m sharkdp/fd".to_string()]
    );
}

#[test]
fn admission_goes_by_name_and_force() {
    let registry = registry();
    let known = package("y", "https://host/other");
    let unknown = package("w", "https://host/w");
    assert!(matches!(registry.admission(unknown.clone(), false), Admission::Fresh(p) if same(&p, &unknown)));
    assert!(matches!(registry.admission(unknown.clone(), true), Admission::Fresh(p) if same(&p, &unknown)));
    assert!(matches!(registry.admission(known.clone(), true), Admission::Replace(p) if same(&p, &known)));
    assert!(matches!(registry.admission(known.clone(), false), Admission::Confirm(p) if same(&p, &known)));
    assert!(matches!(BSPM::default().admission(known.clone(), false), Admission::Fresh(_)));
}
