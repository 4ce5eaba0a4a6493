use hcomms_staging::assets::{AssetDir, AssetFile};
use hcomms_staging::plan::{collect, Step};
use hcomms_staging::platform::{Group, Platform};
use hcomms_staging::staging::{needs_write, Action, Phase, Reply, Staging};
use std::collections::{BTreeMap, BTreeSet};

struct Disk {
    files: BTreeMap<String, Vec<u8>>,
    dirs: BTreeSet<String>,
    search_path: Option<String>,
    read_only: BTreeSet<String>,
}

impl Disk {
    fn empty() -> Disk {
        Disk {
            files: BTreeMap::new(),
            dirs: BTreeSet::new(),
            search_path: None,
            read_only: BTreeSet::new(),
        }
    }

    fn perform(&mut self, action: &Action) -> Reply {
        match action {
            Action::CheckDir { path } => Reply::Exists(self.dirs.contains(path)),
            Action::CreateDir { path } => {
                if self.read_only.contains(path) {
                    Reply::Done(false)
                } else {
                    self.dirs.insert(path.clone());
                    Reply::Done(true)
                }
            }
            Action::Inspect { path } => Reply::Size(self.files.get(path).map(|f| f.len() as u64)),
            Action::WriteFile { path, contents, .. } => {
                if self.read_only.contains(path) {
                    Reply::Done(false)
                } else {
                    self.files.insert(path.clone(), contents.clone());
                    Reply::Done(true)
                }
            }
            Action::SetSearchPath { value } => {
                self.search_path = Some(value.clone());
                Reply::Done(true)
            }
            Action::Finish => Reply::Done(true),
        }
    }
}

fn carry_out(mut staging: Staging, disk: &mut Disk) -> (Vec<Action>, Phase) {
    let mut taken = Vec::new();
    let mut action = staging.pending();
    let mut rounds = 0;
    while action != Action::Finish {
        rounds += 1;
        assert!(rounds <= 2 * staging.step_count() + 3);
        let reply = disk.perform(&action);
        taken.push(action);
        action = staging.advance(reply);
    }
    (taken, staging.phase())
}

fn writes(actions: &[Action]) -> Vec<String> {
    let mut paths = Vec::new();
    for action in actions {
        if let Action::WriteFile { path, .. } = action {
            paths.push(path.clone());
        }
    }
    paths
}

fn file(path: &str, len: usize) -> AssetFile {
    AssetFile { path: path.to_string(), contents: vec![7u8; len] }
}

fn site(index_len: usize) -> AssetDir {
    AssetDir {
        path: String::new(),
        files: vec![file("index.html", index_len)],
        dirs: vec![AssetDir {
            path: "css".to_string(),
            files: vec![file("css/app.css", 50)],
            dirs: vec![],
        }],
    }
}

fn documents(table: &AssetDir) -> Staging {
    Staging::new(Platform::Linux, Group::Documents, None, "/home/me", None, table)
}

#[test]
fn write_is_needed_where_nothing_is_there() {
    assert!(needs_write(100, None));
    assert!(needs_write(0, None));
}

#[test]
fn write_is_needed_where_the_length_differs() {
    assert!(needs_write(100, Some(90)));
    assert!(needs_write(90, Some(100)));
    assert!(needs_write(0, Some(1)));
    assert!(needs_write(1, Some(0)));
}

#[test]
fn write_is_not_needed_where_the_length_is_the_same() {
    assert!(!needs_write(100, Some(100)));
    assert!(!needs_write(0, Some(0)));
}

#[test]
fn steps_take_files_before_directories_and_paths_from_the_root() {
    let table = AssetDir {
        path: String::new(),
        files: vec![file("a.txt", 1), file("b.txt", 2)],
        dirs: vec![
            AssetDir {
                path: "x".to_string(),
                files: vec![file("x/c.txt", 3)],
                dirs: vec![AssetDir {
                    path: "x/y".to_string(),
                    files: vec![file("x/y/d.txt", 4)],
                    dirs: vec![],
                }],
            },
            AssetDir { path: "z".to_string(), files: vec![], dirs: vec![] },
        ],
    };
    let mut steps = Vec::new();
    collect(Platform::Linux, "/r", &table, &mut steps);
    let expected = vec![
        Step::File {
            path: "/r/a.txt".to_string(),
            source: "a.txt".to_string(),
            contents: vec![7u8; 1],
        },
        Step::File {
            path: "/r/b.txt".to_string(),
            source: "b.txt".to_string(),
            contents: vec![7u8; 2],
        },
        Step::Dir { path: "/r/x".to_string() },
        Step::File {
            path: "/r/x/c.txt".to_string(),
            source: "x/c.txt".to_string(),
            contents: vec![7u8; 3],
        },
        Step::Dir { path: "/r/x/y".to_string() },
        Step::File {
            path: "/r/x/y/d.txt".to_string(),
            source: "x/y/d.txt".to_string(),
            contents: vec![7u8; 4],
        },
        Step::Dir { path: "/r/z".to_string() },
    ];
    assert_eq!(steps, expected);
}

#[test]
fn steps_are_appended_to_what_is_there() {
    let mut steps = vec![Step::Dir { path: "kept".to_string() }];
    collect(Platform::Windows, "C:\\r", &site(100), &mut steps);
    let expected = vec![
        Step::Dir { path: "kept".to_string() },
        Step::File {
            path: "C:\\r\\index.html".to_string(),
            source: "index.html".to_string(),
            contents: vec![7u8; 100],
        },
        Step::Dir { path: "C:\\r\\css".to_string() },
        Step::File {
            path: "C:\\r\\css/app.css".to_string(),
            source: "css/app.css".to_string(),
            contents: vec![7u8; 50],
        },
    ];
    assert_eq!(steps, expected);
}

#[test]
fn empty_bundle_has_no_steps() {
    let table = AssetDir { path: String::new(), files: vec![], dirs: vec![] };
    let mut steps = Vec::new();
    collect(Platform::Linux, "/r", &table, &mut steps);
    assert!(steps.is_empty());
    let mut disk = Disk::empty();
    let (taken, phase) = carry_out(documents(&table), &mut disk);
    assert_eq!(
        taken,
        vec![
            Action::CheckDir { path: "/tmp/hcomms_www/".to_string() },
            Action::CreateDir { path: "/tmp/hcomms_www/".to_string() },
        ]
    );
    assert_eq!(phase, Phase::Finished);
}

#[test]
fn staging_begins_by_looking_for_its_directory() {
    let staging = documents(&site(100));
    assert_eq!(staging.root(), "/tmp/hcomms_www/");
    assert_eq!(staging.phase(), Phase::CheckingRoot);
    assert_eq!(staging.step_count(), 3);
    assert_eq!(staging.pending(), Action::CheckDir { path: "/tmp/hcomms_www/".to_string() });
}

#[test]
fn first_run_on_an_empty_directory_writes_every_file() {
    let mut disk = Disk::empty();
    let (taken, phase) = carry_out(documents(&site(100)), &mut disk);
    assert_eq!(phase, Phase::Finished);
    assert_eq!(
        taken,
        vec![
            Action::CheckDir { path: "/tmp/hcomms_www/".to_string() },
            Action::CreateDir { path: "/tmp/hcomms_www/".to_string() },
            Action::Inspect { path: "/tmp/hcomms_www/index.html".to_string() },
            Action::WriteFile {
                path: "/tmp/hcomms_www/index.html".to_string(),
                source: "index.html".to_string(),
                contents: vec![7u8; 100],
            },
            Action::CreateDir { path: "/tmp/hcomms_www/css".to_string() },
            Action::Inspect { path: "/tmp/hcomms_www/css/app.css".to_string() },
            Action::WriteFile {
                path: "/tmp/hcomms_www/css/app.css".to_string(),
                source: "css/app.css".to_string(),
                contents: vec![7u8; 50],
            },
        ]
    );
    assert_eq!(disk.files.len(), 2);
    assert_eq!(disk.files["/tmp/hcomms_www/index.html"].len(), 100);
    assert_eq!(disk.files["/tmp/hcomms_www/css/app.css"].len(), 50);
    assert!(disk.dirs.contains("/tmp/hcomms_www/"));
    assert!(disk.dirs.contains("/tmp/hcomms_www/css"));
    assert_eq!(disk.search_path, None);
}

#[test]
fn second_run_writes_nothing() {
    let mut disk = Disk::empty();
    carry_out(documents(&site(100)), &mut disk);
    let before = disk.files.clone();
    let (taken, phase) = carry_out(documents(&site(100)), &mut disk);
    assert_eq!(phase, Phase::Finished);
    assert!(writes(&taken).is_empty());
    assert_eq!(
        taken,
        vec![
            Action::CheckDir { path: "/tmp/hcomms_www/".to_string() },
            Action::Inspect { path: "/tmp/hcomms_www/index.html".to_string() },
            Action::CreateDir { path: "/tmp/hcomms_www/css".to_string() },
            Action::Inspect { path: "/tmp/hcomms_www/css/app.css".to_string() },
        ]
    );
    assert_eq!(disk.files, before);
}

#[test]
fn third_run_with_a_shorter_index_writes_the_index_only() {
    let mut disk = Disk::empty();
    carry_out(documents(&site(100)), &mut disk);
    carry_out(documents(&site(100)), &mut disk);
    let (taken, phase) = carry_out(documents(&site(90)), &mut disk);
    assert_eq!(phase, Phase::Finished);
    assert_eq!(writes(&taken), vec!["/tmp/hcomms_www/index.html".to_string()]);
    assert_eq!(disk.files["/tmp/hcomms_www/index.html"].len(), 90);
    assert_eq!(disk.files["/tmp/hcomms_www/css/app.css"].len(), 50);
}

#[test]
fn stale_file_is_overwritten_with_the_contents_of_its_entry() {
    let mut disk = Disk::empty();
    disk.dirs.insert("/tmp/hcomms_www/".to_string());
    disk.files.insert("/tmp/hcomms_www/index.html".to_string(), vec![1u8; 101]);
    disk.files.insert("/tmp/hcomms_www/css/app.css".to_string(), vec![1u8; 50]);
    let (taken, _) = carry_out(documents(&site(100)), &mut disk);
    assert_eq!(writes(&taken), vec!["/tmp/hcomms_www/index.html".to_string()]);
    assert_eq!(disk.files["/tmp/hcomms_www/index.html"], vec![7u8; 100]);
    assert_eq!(disk.files["/tmp/hcomms_www/css/app.css"], vec![1u8; 50]);
}

#[test]
fn other_contents_of_the_same_length_are_left_alone() {
    let mut disk = Disk::empty();
    disk.dirs.insert("/tmp/hcomms_www/".to_string());
    disk.files.insert("/tmp/hcomms_www/index.html".to_string(), vec![1u8; 100]);
    disk.files.insert("/tmp/hcomms_www/css/app.css".to_string(), vec![1u8; 50]);
    let (taken, _) = carry_out(documents(&site(100)), &mut disk);
    assert!(writes(&taken).is_empty());
    assert_eq!(disk.files["/tmp/hcomms_www/index.html"], vec![1u8; 100]);
}

#[test]
fn files_that_left_the_bundle_stay_on_disk() {
    let mut disk = Disk::empty();
    disk.files.insert("/tmp/hcomms_www/old.html".to_string(), vec![1u8; 3]);
    carry_out(documents(&site(100)), &mut disk);
    assert_eq!(disk.files["/tmp/hcomms_www/old.html"], vec![1u8; 3]);
    assert_eq!(disk.files.len(), 3);
}

#[test]
fn empty_file_is_written_where_it_is_missing_and_kept_where_it_is_there() {
    let table = AssetDir { path: String::new(), files: vec![file("empty", 0)], dirs: vec![] };
    let mut disk = Disk::empty();
    let (taken, _) = carry_out(documents(&table), &mut disk);
    assert_eq!(writes(&taken), vec!["/tmp/hcomms_www/empty".to_string()]);
    let (taken, _) = carry_out(documents(&table), &mut disk);
    assert!(writes(&taken).is_empty());
}

#[test]
fn every_subdirectory_is_created_with_or_without_files() {
    let table = AssetDir {
        path: String::new(),
        files: vec![],
        dirs: vec![
            AssetDir {
                path: "a".to_string(),
                files: vec![],
                dirs: vec![AssetDir { path: "a/b".to_string(), files: vec![], dirs: vec![] }],
            },
            AssetDir { path: "c".to_string(), files: vec![file("c/f", 1)], dirs: vec![] },
        ],
    };
    let mut disk = Disk::empty();
    let (_, phase) = carry_out(documents(&table), &mut disk);
    assert_eq!(phase, Phase::Finished);
    let expected: BTreeSet<String> = [
        "/tmp/hcomms_www/",
        "/tmp/hcomms_www/a",
        "/tmp/hcomms_www/a/b",
        "/tmp/hcomms_www/c",
    ]
    .iter()
    .map(|s| s.to_string())
    .collect();
    assert_eq!(disk.dirs, expected);
    assert_eq!(disk.files.len(), 1);
    assert!(disk.files.contains_key("/tmp/hcomms_www/c/f"));
}

#[test]
fn subdirectories_are_created_again_on_every_run() {
    let mut disk = Disk::empty();
    carry_out(documents(&site(100)), &mut disk);
    let (taken, _) = carry_out(documents(&site(100)), &mut disk);
    assert!(taken.contains(&Action::CreateDir { path: "/tmp/hcomms_www/css".to_string() }));
    assert!(!taken.contains(&Action::CreateDir { path: "/tmp/hcomms_www/".to_string() }));
}

#[test]
fn staging_goes_on_where_its_directory_cannot_be_created() {
    let mut disk = Disk::empty();
    disk.read_only.insert("/tmp/hcomms_libsciter/".to_string());
    disk.read_only.insert("/tmp/hcomms_libsciter/index.html".to_string());
    disk.read_only.insert("/tmp/hcomms_libsciter/css".to_string());
    disk.read_only.insert("/tmp/hcomms_libsciter/css/app.css".to_string());
    let staging = Staging::new(
        Platform::Linux,
        Group::Library,
        None,
        "/home/me",
        Some("/usr/bin".to_string()),
        &site(100),
    );
    let (taken, phase) = carry_out(staging, &mut disk);
    assert_eq!(phase, Phase::Finished);
    assert_eq!(
        taken,
        vec![
            Action::CheckDir { path: "/tmp/hcomms_libsciter/".to_string() },
            Action::CreateDir { path: "/tmp/hcomms_libsciter/".to_string() },
            Action::Inspect { path: "/tmp/hcomms_libsciter/index.html".to_string() },
            Action::WriteFile {
                path: "/tmp/hcomms_libsciter/index.html".to_string(),
                source: "index.html".to_string(),
                contents: vec![7u8; 100],
            },
            Action::CreateDir { path: "/tmp/hcomms_libsciter/css".to_string() },
            Action::Inspect { path: "/tmp/hcomms_libsciter/css/app.css".to_string() },
            Action::WriteFile {
                path: "/tmp/hcomms_libsciter/css/app.css".to_string(),
                source: "css/app.css".to_string(),
                contents: vec![7u8; 50],
            },
            Action::SetSearchPath { value: "/usr/bin:/tmp/hcomms_libsciter/".to_string() },
        ]
    );
    assert!(disk.files.is_empty());
    assert!(disk.dirs.is_empty());
    assert_eq!(disk.search_path, Some("/usr/bin:/tmp/hcomms_libsciter/".to_string()));
}

#[test]
fn failed_write_does_not_stop_the_files_that_follow() {
    let table = AssetDir {
        path: String::new(),
        files: vec![file("a", 1), file("b", 2), file("c", 3)],
        dirs: vec![],
    };
    let mut disk = Disk::empty();
    disk.read_only.insert("/tmp/hcomms_www/a".to_string());
    disk.read_only.insert("/tmp/hcomms_www/b".to_string());
    let (taken, phase) = carry_out(documents(&table), &mut disk);
    assert_eq!(phase, Phase::Finished);
    assert_eq!(
        writes(&taken),
        vec![
            "/tmp/hcomms_www/a".to_string(),
            "/tmp/hcomms_www/b".to_string(),
            "/tmp/hcomms_www/c".to_string(),
        ]
    );
    assert_eq!(disk.files.len(), 1);
    assert_eq!(disk.files["/tmp/hcomms_www/c"].len(), 3);
}

#[test]
fn failed_subdirectory_does_not_stop_the_steps_that_follow() {
    let mut disk = Disk::empty();
    disk.read_only.insert("/tmp/hcomms_www/css".to_string());
    let (taken, phase) = carry_out(documents(&site(100)), &mut disk);
    assert_eq!(phase, Phase::Finished);
    assert_eq!(
        writes(&taken),
        vec!["/tmp/hcomms_www/index.html".to_string(), "/tmp/hcomms_www/css/app.css".to_string()]
    );
}

#[test]
fn library_bundle_is_put_on_the_search_path_last() {
    let mut disk = Disk::empty();
    disk.search_path = Some("A;B".to_string());
    let staging = Staging::new(
        Platform::Windows,
        Group::Library,
        Some("C:\\Temp".to_string()),
        "C:\\work",
        Some("A;B".to_string()),
        &AssetDir { path: String::new(), files: vec![file("sciter.dll", 10)], dirs: vec![] },
    );
    let (taken, phase) = carry_out(staging, &mut disk);
    assert_eq!(phase, Phase::Finished);
    assert_eq!(
        taken,
        vec![
            Action::CheckDir { path: "C:\\Temp\\hcomms_libsciter".to_string() },
            Action::CreateDir { path: "C:\\Temp\\hcomms_libsciter".to_string() },
            Action::Inspect { path: "C:\\Temp\\hcomms_libsciter\\sciter.dll".to_string() },
            Action::WriteFile {
                path: "C:\\Temp\\hcomms_libsciter\\sciter.dll".to_string(),
                source: "sciter.dll".to_string(),
                contents: vec![7u8; 10],
            },
            Action::SetSearchPath { value: "A;B;C:\\Temp\\hcomms_libsciter".to_string() },
        ]
    );
    assert_eq!(disk.search_path, Some("A;B;C:\\Temp\\hcomms_libsciter".to_string()));
}

#[test]
fn library_bundle_on_linux_and_macos() {
    let table = AssetDir { path: String::new(), files: vec![], dirs: vec![] };
    let mut disk = Disk::empty();
    let staging =
        Staging::new(Platform::Linux, Group::Library, None, "/", Some("/usr/bin".to_string()), &table);
    carry_out(staging, &mut disk);
    assert_eq!(disk.search_path, Some("/usr/bin:/tmp/hcomms_libsciter/".to_string()));
    let staging =
        Staging::new(Platform::MacOs, Group::Library, Some("/T".to_string()), "/", None, &table);
    carry_out(staging, &mut disk);
    assert_eq!(disk.search_path, Some(":/T/hcomms_libsciter".to_string()));
    let staging =
        Staging::new(Platform::Windows, Group::Library, None, "C:\\w", Some("A".to_string()), &table);
    carry_out(staging, &mut disk);
    assert_eq!(disk.search_path, Some("A;C:\\w\\hcomms_libsciter".to_string()));
}

#[test]
fn documents_leave_the_search_path_alone() {
    let mut disk = Disk::empty();
    disk.search_path = Some("A;B".to_string());
    let staging = Staging::new(
        Platform::Windows,
        Group::Documents,
        None,
        "C:\\work",
        Some("A;B".to_string()),
        &site(100),
    );
    let (taken, _) = carry_out(staging, &mut disk);
    for action in &taken {
        assert!(!matches!(action, Action::SetSearchPath { .. }));
    }
    assert_eq!(disk.search_path, Some("A;B".to_string()));
}

#[test]
fn reply_of_another_kind_changes_nothing() {
    let mut staging = documents(&site(100));
    let check = Action::CheckDir { path: "/tmp/hcomms_www/".to_string() };
    assert_eq!(staging.advance(Reply::Done(true)), check);
    assert_eq!(staging.advance(Reply::Size(Some(3))), check);
    assert_eq!(staging.phase(), Phase::CheckingRoot);
    let inspect = Action::Inspect { path: "/tmp/hcomms_www/index.html".to_string() };
    assert_eq!(staging.advance(Reply::Exists(true)), inspect);
    assert_eq!(staging.phase(), Phase::Inspecting(0));
    assert_eq!(staging.advance(Reply::Exists(true)), inspect);
    assert_eq!(staging.advance(Reply::Done(false)), inspect);
    assert_eq!(staging.phase(), Phase::Inspecting(0));
    let write = staging.advance(Reply::Size(None));
    assert!(matches!(write, Action::WriteFile { .. }));
    assert_eq!(staging.phase(), Phase::Writing(0));
    assert_eq!(staging.advance(Reply::Size(None)), write);
    assert_eq!(staging.advance(Reply::Exists(false)), write);
    assert_eq!(staging.phase(), Phase::Writing(0));
}

#[test]
fn finished_staging_stays_finished() {
    let table = AssetDir { path: String::new(), files: vec![], dirs: vec![] };
    let mut staging = documents(&table);
    assert_eq!(staging.advance(Reply::Exists(true)), Action::Finish);
    assert_eq!(staging.phase(), Phase::Finished);
    assert_eq!(staging.advance(Reply::Exists(false)), Action::Finish);
    assert_eq!(staging.advance(Reply::Done(false)), Action::Finish);
    assert_eq!(staging.advance(Reply::Size(None)), Action::Finish);
    assert_eq!(staging.phase(), Phase::Finished);
    assert_eq!(staging.pending(), Action::Finish);
}

#[test]
fn failed_staging_directory_is_passed_over() {
    let mut staging = documents(&site(100));
    staging.advance(Reply::Exists(false));
    assert_eq!(staging.phase(), Phase::CreatingRoot);
    assert_eq!(
        staging.advance(Reply::Done(false)),
        Action::Inspect { path: "/tmp/hcomms_www/index.html".to_string() }
    );
    assert_eq!(staging.phase(), Phase::Inspecting(0));
}

#[test]
fn existing_directory_is_not_created() {
    let mut staging = documents(&site(100));
    let next = staging.advance(Reply::Exists(true));
    assert_eq!(next, Action::Inspect { path: "/tmp/hcomms_www/index.html".to_string() });
}

#[test]
fn pending_names_the_same_action_until_it_is_answered() {
    let mut staging = documents(&site(100));
    assert_eq!(staging.pending(), staging.pending());
    let next = staging.advance(Reply::Exists(false));
    assert_eq!(next, Action::CreateDir { path: "/tmp/hcomms_www/".to_string() });
    assert_eq!(staging.pending(), next);
}
