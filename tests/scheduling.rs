use archlinux_inputs_fsck::fsck::{security_advisories, Finding, Target};
use archlinux_inputs_fsck::makepkg::makepkg_args;
use archlinux_inputs_fsck::osv::{Group, Package, Packages, ScanResult, Source};
use archlinux_inputs_fsck::report::decimal_string;
use archlinux_inputs_fsck::scheduler::{build_queue, concurrency_limit, is_package_dir, Action, Scheduler};

#[test]
fn ten_targets_with_limit_three() {
    let targets: Vec<Target> = (0..10).map(|i| Target::BuildPath(format!("/p{}", i))).collect();
    let mut s = Scheduler::new(targets, 3);
    let mut running: Vec<Target> = Vec::new();
    let mut started = Vec::new();
    let mut reported = 0;
    let mut max_running = 0;
    loop {
        match s.next_action() {
            Action::Spawn(t) => {
                started.push(t.clone());
                running.push(t);
                max_running = max_running.max(running.len());
                assert_eq!(s.running(), running.len());
            }
            Action::Wait => {
                // complete the oldest
                running.remove(0);
                s.task_finished();
                reported += 1;
            }
            Action::Done => break,
        }
    }
    assert_eq!(max_running, 3);
    assert_eq!(reported, 10);
    assert_eq!(s.finished(), 10);
    let expected: Vec<Target> = (0..10).map(|i| Target::BuildPath(format!("/p{}", i))).collect();
    assert_eq!(started, expected);
}

#[test]
fn zero_limit_is_refused() {
    assert_eq!(concurrency_limit(Some(0), 4), None);
    assert_eq!(concurrency_limit(None, 0), None);
}

#[test]
fn empty_queue_is_done() {
    let mut s = Scheduler::new(vec![], 4);
    assert!(matches!(s.next_action(), Action::Done));
}

#[test]
fn concurrency_defaults_to_twice_parallelism() {
    assert_eq!(concurrency_limit(None, 4), Some(8));
    assert_eq!(concurrency_limit(Some(3), 4), Some(3));
    assert_eq!(concurrency_limit(Some(1), 0), Some(1));
}

#[test]
fn queue_order_and_git_dir() {
    let q = build_queue(
        vec![Target::BuildPath("/s/a/trunk".to_string())],
        &vec!["pkg".to_string()],
        &vec!["/explicit".to_string()],
    );
    assert_eq!(
        q,
        vec![
            Target::BuildPath("/s/a/trunk".to_string()),
            Target::ArchBuildSystem("pkg".to_string()),
            Target::BuildPath("/explicit".to_string()),
        ]
    );
    assert!(!is_package_dir(".git"));
    assert!(is_package_dir("linux"));
}

#[test]
fn decimal_rendering() {
    assert_eq!(decimal_string(0), "0");
    assert_eq!(decimal_string(7), "7");
    assert_eq!(decimal_string(10), "10");
    assert_eq!(decimal_string(1234567890), "1234567890");
}

fn packages(name: &str, ids: &[&[&str]]) -> Packages {
    Packages {
        package: Package { name: name.to_string(), version: Some("1.0".to_string()), ecosystem: "crates.io".to_string() },
        vulnerabilities: vec![],
        groups: Some(ids.iter().map(|g| Group { ids: g.iter().map(|s| s.to_string()).collect() }).collect()),
    }
}

#[test]
fn advisories_one_per_package() {
    let results = vec![
        ScanResult {
            source: Source { path: "/w/Cargo.lock".to_string(), kind: "lockfile".to_string() },
            packages: vec![packages("a", &[&["RUSTSEC-1", "GHSA-2"], &["RUSTSEC-3"]]), packages("b", &[])],
        },
        ScanResult {
            source: Source { path: "/w/x/go.sum".to_string(), kind: "lockfile".to_string() },
            packages: vec![packages("c", &[&["GO-4"]])],
        },
    ];
    let f = security_advisories(results, &vec!["Cargo.lock".to_string(), "x/go.sum".to_string()]);
    assert_eq!(f.len(), 3);
    assert_eq!(f[0].name(), "security-advisory");
    assert_eq!(
        f[0].message(),
        "Security advisory exists in dependency \"a\" \"1.0\" referenced by checked out source code at \"Cargo.lock\": \
         https://osv.dev/vulnerability/RUSTSEC-1, https://osv.dev/vulnerability/GHSA-2, https://osv.dev/vulnerability/RUSTSEC-3"
    );
    assert_eq!(
        f[1].message(),
        "Security advisory exists in dependency \"b\" \"1.0\" referenced by checked out source code at \"Cargo.lock\": "
    );
    assert_eq!(
        f[2].message(),
        "Security advisory exists in dependency \"c\" \"1.0\" referenced by checked out source code at \"x/go.sum\": \
         https://osv.dev/vulnerability/GO-4"
    );
    match &f[2] {
        Finding::SecurityAdvisory { source, packages } => {
            assert_eq!(source, "x/go.sum");
            assert_eq!(packages.package.name, "c");
        }
        other => panic!("unexpected {:?}", other),
    }
}

#[test]
fn advisory_without_version_shows_a_dash() {
    let mut p = packages("n", &[]);
    p.package.version = None;
    let results = vec![ScanResult {
        source: Source { path: "/w/p".to_string(), kind: "lockfile".to_string() },
        packages: vec![p],
    }];
    let f = security_advisories(results, &vec!["p".to_string()]);
    assert_eq!(
        f[0].message(),
        "Security advisory exists in dependency \"n\" \"-\" referenced by checked out source code at \"p\": "
    );
}

#[test]
fn makepkg_flags_depend_on_prepare() {
    assert_eq!(makepkg_args(true), vec!["--skippgpcheck", "--nobuild"]);
    assert_eq!(makepkg_args(false), vec!["--nodeps", "--noprepare", "--skippgpcheck", "--nobuild"]);
}
