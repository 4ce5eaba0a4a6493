use hcomms_staging::assets::{AssetDir, AssetFile};
use hcomms_staging::embedded::{mirror, mirror_file, MAX_DEPTH};
use hcomms_staging::launch::{load_sciter_lib, load_sciter_www};
use hcomms_staging::platform::Platform;
use hcomms_staging::staging::{Action, Phase, Reply};
use include_dir::{Dir, File};

const CSS: Dir<'static> = Dir {
    path: "css",
    files: &[File { path: "css/app.css", contents: b"body { margin: 0 }" }],
    dirs: &[Dir { path: "css/themes", files: &[], dirs: &[] }],
};

const WWW: Dir<'static> = Dir {
    path: "",
    files: &[
        File { path: "index.html", contents: b"<html></html>" },
        File { path: "app.js", contents: b"" },
    ],
    dirs: &[CSS],
};

fn www_table() -> AssetDir {
    AssetDir {
        path: String::new(),
        files: vec![
            AssetFile { path: "index.html".to_string(), contents: b"<html></html>".to_vec() },
            AssetFile { path: "app.js".to_string(), contents: Vec::new() },
        ],
        dirs: vec![AssetDir {
            path: "css".to_string(),
            files: vec![AssetFile {
                path: "css/app.css".to_string(),
                contents: b"body { margin: 0 }".to_vec(),
            }],
            dirs: vec![AssetDir { path: "css/themes".to_string(), files: vec![], dirs: vec![] }],
        }],
    }
}

#[test]
fn embedded_file_is_read_with_path_and_bytes() {
    let file = File { path: "css/app.css", contents: &[1, 2, 3] };
    let entry = mirror_file(&file);
    assert_eq!(entry, AssetFile { path: "css/app.css".to_string(), contents: vec![1, 2, 3] });
}

#[test]
fn embedded_directory_is_read_whole() {
    assert_eq!(mirror(&WWW, MAX_DEPTH), www_table());
}

#[test]
fn embedded_directory_is_read_as_deep_as_asked() {
    let flat = mirror(&WWW, 0);
    assert_eq!(flat.files, www_table().files);
    assert!(flat.dirs.is_empty());
    let one = mirror(&WWW, 1);
    assert_eq!(one.dirs.len(), 1);
    assert_eq!(one.dirs[0].path, "css");
    assert_eq!(one.dirs[0].files, www_table().dirs[0].files);
    assert!(one.dirs[0].dirs.is_empty());
    assert_eq!(mirror(&WWW, 2), www_table());
    assert_eq!(mirror(&WWW, 3), www_table());
}

#[test]
fn embedded_documents_are_staged_file_by_file() {
    let mut staging = load_sciter_www(Platform::MacOs, Some("/T".to_string()), "/Users/me", &WWW);
    assert_eq!(staging.root(), "/T/hcomms_www");
    assert_eq!(staging.step_count(), 5);
    let mut taken = vec![staging.pending()];
    taken.push(staging.advance(Reply::Exists(true)));
    taken.push(staging.advance(Reply::Size(None)));
    taken.push(staging.advance(Reply::Done(true)));
    taken.push(staging.advance(Reply::Size(Some(0))));
    taken.push(staging.advance(Reply::Done(true)));
    taken.push(staging.advance(Reply::Size(Some(17))));
    taken.push(staging.advance(Reply::Done(true)));
    taken.push(staging.advance(Reply::Done(true)));
    assert_eq!(
        taken,
        vec![
            Action::CheckDir { path: "/T/hcomms_www".to_string() },
            Action::Inspect { path: "/T/hcomms_www/index.html".to_string() },
            Action::WriteFile {
                path: "/T/hcomms_www/index.html".to_string(),
                source: "index.html".to_string(),
                contents: b"<html></html>".to_vec(),
            },
            Action::Inspect { path: "/T/hcomms_www/app.js".to_string() },
            Action::CreateDir { path: "/T/hcomms_www/css".to_string() },
            Action::Inspect { path: "/T/hcomms_www/css/app.css".to_string() },
            Action::WriteFile {
                path: "/T/hcomms_www/css/app.css".to_string(),
                source: "css/app.css".to_string(),
                contents: b"body { margin: 0 }".to_vec(),
            },
            Action::CreateDir { path: "/T/hcomms_www/css/themes".to_string() },
            Action::Finish,
        ]
    );
    assert_eq!(staging.phase(), Phase::Finished);
}

#[test]
fn embedded_library_is_staged_and_put_on_the_search_path() {
    let lib = Dir {
        path: "",
        files: &[File { path: "libsciter-gtk.so", contents: &[0x7f, b'E', b'L', b'F'] }],
        dirs: &[],
    };
    let mut staging = load_sciter_lib(Platform::Linux, None, "/home/me", Some("/usr/bin".to_string()), &lib);
    assert_eq!(staging.root(), "/tmp/hcomms_libsciter/");
    let mut taken = vec![staging.pending()];
    taken.push(staging.advance(Reply::Exists(false)));
    taken.push(staging.advance(Reply::Done(true)));
    taken.push(staging.advance(Reply::Size(Some(4))));
    taken.push(staging.advance(Reply::Done(true)));
    assert_eq!(
        taken,
        vec![
            Action::CheckDir { path: "/tmp/hcomms_libsciter/".to_string() },
            Action::CreateDir { path: "/tmp/hcomms_libsciter/".to_string() },
            Action::Inspect { path: "/tmp/hcomms_libsciter/libsciter-gtk.so".to_string() },
            Action::SetSearchPath { value: "/usr/bin:/tmp/hcomms_libsciter/".to_string() },
            Action::Finish,
        ]
    );
    assert_eq!(staging.phase(), Phase::Finished);
}

#[test]
fn embedded_documents_without_tmpdir_are_staged_in_the_working_directory() {
    let staging = load_sciter_www(Platform::MacOs, None, "/Users/me/app", &WWW);
    assert_eq!(staging.root(), "/Users/me/app/hcomms_www");
    assert_eq!(
        staging.pending(),
        Action::CheckDir { path: "/Users/me/app/hcomms_www".to_string() }
    );
}

#[test]
fn embedded_library_is_put_on_the_search_path_whatever_failed() {
    let lib = Dir { path: "", files: &[File { path: "sciter.dll", contents: &[1] }], dirs: &[] };
    let mut staging = load_sciter_lib(Platform::Windows, None, "C:\\work", Some("A".to_string()), &lib);
    assert_eq!(staging.root(), "C:\\work\\hcomms_libsciter");
    assert_eq!(
        staging.advance(Reply::Exists(false)),
        Action::CreateDir { path: "C:\\work\\hcomms_libsciter".to_string() }
    );
    assert_eq!(
        staging.advance(Reply::Done(false)),
        Action::Inspect { path: "C:\\work\\hcomms_libsciter\\sciter.dll".to_string() }
    );
    assert_eq!(
        staging.advance(Reply::Size(None)),
        Action::WriteFile {
            path: "C:\\work\\hcomms_libsciter\\sciter.dll".to_string(),
            source: "sciter.dll".to_string(),
            contents: vec![1],
        }
    );
    assert_eq!(
        staging.advance(Reply::Done(false)),
        Action::SetSearchPath { value: "A;C:\\work\\hcomms_libsciter".to_string() }
    );
    assert_eq!(staging.advance(Reply::Done(true)), Action::Finish);
    assert_eq!(staging.phase(), Phase::Finished);
}
