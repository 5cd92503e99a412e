//! Resolution-policy behaviour: joining, root confinement, default files
//! and alternate extensions, against a real (temporary) directory tree.

use linkcheck::path::FsPath;
use linkcheck::validation::{resolve_link, IoErrorKind, Options, Reason};
use std::path::{Path, PathBuf};

fn fs_path(p: &Path) -> FsPath {
    FsPath::from_str(p.to_str().unwrap())
}

fn fs_path_str(s: &str) -> FsPath {
    FsPath::from_str(s)
}

fn touch(filename: &str, directories: &[&PathBuf]) {
    for dir in directories {
        fs_err::create_dir_all(dir).unwrap();
        let item = dir.join(filename);
        fs_err::write(&item, b"").unwrap();
    }
}

#[test]
fn resolve_mod_relative_to_validation_dir() {
    let temp = tempfile::tempdir().unwrap();
    let temp = dunce::canonicalize(temp.path()).unwrap();
    touch("mod.rs", &[&temp]);
    let current_dir = fs_path(&temp);
    let link = fs_path_str("mod.rs");
    let options = Options::default();

    let got = resolve_link(&current_dir, &link, &options).unwrap();

    assert_eq!(got, fs_path(&temp.join("mod.rs")));
}

#[test]
fn detect_possible_directory_traversal_attacks() {
    let temp = tempfile::tempdir().unwrap();
    let temp = dunce::canonicalize(temp.path()).unwrap();
    let foo = temp.join("foo");
    let bar = foo.join("bar");
    let baz = bar.join("baz");
    let options = Options::default()
        .with_root_directory(&fs_path(&temp))
        .unwrap();
    touch(
        options.default_file().as_str(),
        &[&temp, &foo, &bar, &baz],
    );
    let current_dir = fs_path(&baz);
    let resolve = |link: &str| -> Result<FsPath, Reason> {
        resolve_link(&current_dir, &fs_path_str(link), &options)
    };

    // checking up to the root directory is okay
    assert_eq!(
        resolve(".").unwrap(),
        fs_path(&baz.join(options.default_file().as_str()))
    );
    assert_eq!(
        resolve("..").unwrap(),
        fs_path(&bar.join(options.default_file().as_str()))
    );
    assert_eq!(
        resolve("../..").unwrap(),
        fs_path(&foo.join(options.default_file().as_str()))
    );
    assert_eq!(
        resolve("../../..").unwrap(),
        fs_path(&temp.join(options.default_file().as_str()))
    );
    // but a directory traversal attack isn't
    let bad_path =
        "../../../../../../../../../../../../../../../../../etc/passwd";
    let traverses_parent_dir = resolve(bad_path).unwrap_err();
    assert!(
        matches!(traverses_parent_dir, Reason::TraversesParentDirectories),
        "{:?} should have traversed the parent directory",
        traverses_parent_dir
    );
}

#[test]
fn links_with_a_leading_slash_are_relative_to_the_root() {
    let temp = tempfile::tempdir().unwrap();
    let temp = dunce::canonicalize(temp.path()).unwrap();
    let foo = temp.join("foo");
    let bar = temp.join("bar");
    let options = Options::default()
        .with_root_directory(&fs_path(&temp))
        .unwrap();
    touch(options.default_file().as_str(), &[&temp, &foo, &bar]);
    let link = fs_path_str("/bar");

    let got = resolve_link(&fs_path(&foo), &link, &options).unwrap();

    assert_eq!(got, fs_path(&bar.join(options.default_file().as_str())));
}

#[test]
fn link_to_a_file_we_know_doesnt_exist() {
    let temp = tempfile::tempdir().unwrap();
    let temp = dunce::canonicalize(temp.path()).unwrap();
    let options = Options::default()
        .with_root_directory(&fs_path(&temp))
        .unwrap();
    let link = fs_path_str("./bar");

    let err = resolve_link(&fs_path(&temp), &link, &options).unwrap_err();

    assert!(err.file_not_found());
}

#[test]
fn absolute_link_with_no_root_set_is_an_error() {
    let temp = tempfile::tempdir().unwrap();
    let temp = dunce::canonicalize(temp.path()).unwrap();
    let options = Options::default();
    let link = fs_path_str("/bar");

    let err = resolve_link(&fs_path(&temp), &link, &options).unwrap_err();

    assert!(matches!(err, Reason::TraversesParentDirectories));
}

#[test]
fn a_link_that_is_allowed_to_traverse_the_root_dir() {
    let temp = tempfile::tempdir().unwrap();
    let temp = dunce::canonicalize(temp.path()).unwrap();
    let foo = temp.join("foo");
    let bar = temp.join("bar");
    touch("index.html", &[&temp, &foo, &bar]);
    let options = Options::default()
        .with_root_directory(&fs_path(&foo))
        .unwrap()
        .set_links_may_traverse_the_root_directory(true);
    let link = fs_path_str("../bar/index.html");

    let got = resolve_link(&fs_path(&foo), &link, &options).unwrap();

    assert_eq!(got, fs_path(&bar.join("index.html")));
}

#[test]
fn markdown_files_can_be_used_as_html() {
    let temp = tempfile::tempdir().unwrap();
    let temp = dunce::canonicalize(temp.path()).unwrap();
    touch("index.html", &[&temp]);
    let link = fs_path_str("index.md");
    let options = Options::default()
        .set_alternate_extensions(Options::default_alternate_extensions());

    let got = resolve_link(&fs_path(&temp), &link, &options).unwrap();

    assert_eq!(got, fs_path(&temp.join("index.html")));
}

#[test]
fn join_paths() {
    let temp = tempfile::tempdir().unwrap();
    let temp = dunce::canonicalize(temp.path()).unwrap();
    let foo = temp.join("foo");
    let bar = foo.join("bar");
    let baz = bar.join("baz");
    let baz_index = baz.join("index.html");
    touch("index.html", &[&temp, &foo, &bar, &baz]);
    let options = Options::default()
        .with_root_directory(&fs_path(&temp))
        .unwrap();

    let inputs: Vec<(&str, &PathBuf, PathBuf)> = vec![
        ("/foo", &temp, foo.clone()),
        ("foo", &temp, foo.clone()),
        ("foo/bar", &temp, bar.clone()),
        ("foo/bar/baz", &temp, baz.clone()),
        ("/foo/bar/baz/index.html", &temp, baz_index.clone()),
        ("bar/baz", &foo, baz.clone()),
        ("baz", &bar, baz.clone()),
        ("index.html", &baz, baz_index.clone()),
    ];

    for (link, base, should_be) in inputs {
        let got = options.join(&fs_path(base), &fs_path_str(link)).unwrap();
        assert_eq!(got, fs_path(&should_be));
    }
}

#[test]
fn absolute_links_resolve_like_relative_links_from_the_root() {
    let temp = tempfile::tempdir().unwrap();
    let temp = dunce::canonicalize(temp.path()).unwrap();
    let deep = temp.join("a").join("b");
    touch("x", &[&temp, &deep]);
    let options = Options::default()
        .with_root_directory(&fs_path(&temp))
        .unwrap();

    // whatever the current directory, "/x" lands where "x" from the root does
    for current in [&temp, &deep] {
        let via_absolute =
            resolve_link(&fs_path(current), &fs_path_str("/x"), &options).unwrap();
        let via_relative =
            resolve_link(&fs_path(&temp), &fs_path_str("x"), &options).unwrap();
        assert_eq!(via_absolute, via_relative);
        assert_eq!(via_absolute, fs_path(&temp.join("x")));
    }
}

#[test]
fn alternate_extensions_compare_case_insensitively() {
    let temp = tempfile::tempdir().unwrap();
    let temp = dunce::canonicalize(temp.path()).unwrap();
    touch("page.html", &[&temp]);
    let options = Options::default()
        .set_alternate_extensions(Options::default_alternate_extensions());

    let got = resolve_link(&fs_path(&temp), &fs_path_str("page.MD"), &options).unwrap();

    assert_eq!(got, fs_path(&temp.join("page.html")));
}

#[test]
fn directories_resolve_to_a_configurable_default_file() {
    let temp = tempfile::tempdir().unwrap();
    let temp = dunce::canonicalize(temp.path()).unwrap();
    touch("main.txt", &[&temp]);
    let options = Options::default().set_default_file(String::from("main.txt"));

    let got = resolve_link(&fs_path(&temp), &fs_path_str("."), &options).unwrap();

    assert_eq!(got, fs_path(&temp.join("main.txt")));
}

#[test]
fn lexical_normalisation_when_not_following_symlinks() {
    let current = fs_path_str("/nonexistent-root-for-checks/a/b");
    let options = Options::default().set_follow_symlinks(false);

    let got = resolve_link(&current, &fs_path_str("../c/./d.txt"), &options).unwrap();

    assert_eq!(got, fs_path_str("/nonexistent-root-for-checks/a/c/d.txt"));
}

#[test]
fn permission_denied_is_not_file_not_found() {
    assert!(!Reason::Io(IoErrorKind::PermissionDenied).file_not_found());
    assert!(Reason::Io(IoErrorKind::NotFound).file_not_found());
}
