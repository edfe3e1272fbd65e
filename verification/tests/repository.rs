use std::io::{Read, Write};

use flate2::read::ZlibDecoder;
use flate2::write::ZlibEncoder;
use flate2::Compression;

use grit::config::declared_version;
use grit::error::GritError;
use grit::object::{GitObject, GitObjectType};
use grit::path::{join_path, join_paths, PathKind};
use grit::repo::{dir_at, file_at, Candidate, GitRepository};

const DEFAULT_CONFIG: &str = "[core]\nbare=false\nrepositoryformatversion=0\nfilemode=false\n";
const HELLO_KEY: &str = "ce013625030ba8dba906f756967f9e9ca394464a";

fn compress(raw: &[u8]) -> Vec<u8> {
    let mut zlib = ZlibEncoder::new(Vec::new(), Compression::default());
    zlib.write_all(raw).unwrap();
    zlib.finish().unwrap()
}

fn decompress(stream: &[u8]) -> Vec<u8> {
    let mut raw = Vec::new();
    ZlibDecoder::new(stream).read_to_end(&mut raw).unwrap();
    raw
}

fn open(worktree: &str) -> GitRepository {
    GitRepository::new(worktree, PathKind::Directory, Some(DEFAULT_CONFIG)).unwrap()
}

fn candidate(worktree: &str, gitdir: PathKind, config: Option<&str>) -> Candidate {
    Candidate { worktree: worktree.to_string(), gitdir, config: config.map(String::from) }
}

#[test]
fn parts_are_joined_by_one_slash() {
    assert_eq!(join_path("/a/b", ".git"), "/a/b/.git");
    assert_eq!(join_path("/", ".git"), "/.git");
    assert_eq!(join_path("", ".git"), ".git");
    assert_eq!(join_path("a/", "b"), "a/b");
    assert_eq!(join_path(".", ".git"), "./.git");
    assert_eq!(join_paths("/w/.git", &["refs", "heads"]), "/w/.git/refs/heads");
    assert_eq!(join_paths("/w/.git", &[]), "/w/.git");
}

#[test]
fn fresh_repository_is_planned() {
    let (repo, plan) =
        GitRepository::create("/tmp/proj", PathKind::Missing, PathKind::Missing, 0).unwrap();
    assert_eq!(repo.worktree(), "/tmp/proj");
    assert_eq!(repo.gitdir(), "/tmp/proj/.git");
    assert_eq!(repo.format_version(), 0);
    assert_eq!(plan.worktree.as_deref(), Some("/tmp/proj"));
    assert_eq!(plan.branches, "/tmp/proj/.git/branches");
    assert_eq!(plan.objects, "/tmp/proj/.git/objects");
    assert_eq!(plan.heads, "/tmp/proj/.git/refs/heads");
    assert_eq!(plan.tags, "/tmp/proj/.git/refs/tags");
    assert_eq!(plan.config_path, "/tmp/proj/.git/config");
    assert_eq!(plan.config, DEFAULT_CONFIG.as_bytes().to_vec());
    assert_eq!(plan.description_path, "/tmp/proj/.git/description");
    assert_eq!(
        plan.description,
        "Unnamed repository; edit this file 'description' to name the repository.\n"
    );
    assert_eq!(plan.head_path, "/tmp/proj/.git/HEAD");
    assert_eq!(plan.head, "ref: refs/heads/master\n");
}

#[test]
fn existing_work_tree_is_not_made_again() {
    let (_, plan) =
        GitRepository::create("proj", PathKind::Directory, PathKind::Missing, 0).unwrap();
    assert_eq!(plan.worktree, None);
    let (repo, plan) =
        GitRepository::create("proj", PathKind::Directory, PathKind::Directory, 0).unwrap();
    assert_eq!(plan.worktree, None);
    assert_eq!(repo.gitdir(), "proj/.git");
}

#[test]
fn work_tree_must_be_a_directory() {
    match GitRepository::create("proj", PathKind::File, PathKind::Missing, 0) {
        Err(GritError::NotADirectory(path)) => assert_eq!(path, "proj"),
        other => panic!("unexpected {:?}", other.map(|_| ())),
    }
    assert!(matches!(
        GitRepository::create("proj", PathKind::Other, PathKind::Directory, 0),
        Err(GritError::NotADirectory(_))
    ));
}

#[test]
fn control_directory_must_be_an_empty_directory() {
    match GitRepository::create("proj", PathKind::Directory, PathKind::File, 0) {
        Err(GritError::NotADirectory(path)) => assert_eq!(path, "proj/.git"),
        other => panic!("unexpected {:?}", other.map(|_| ())),
    }
    match GitRepository::create("proj", PathKind::Directory, PathKind::Directory, 3) {
        Err(GritError::InvalidGitRepo(text)) => assert_eq!(text, "git directory is not empty"),
        other => panic!("unexpected {:?}", other.map(|_| ())),
    }
}

#[test]
fn written_configuration_opens_again() {
    let (_, plan) =
        GitRepository::create("/tmp/proj", PathKind::Missing, PathKind::Missing, 0).unwrap();
    let text = String::from_utf8(plan.config).unwrap();
    let repo = GitRepository::new("/tmp/proj", PathKind::Directory, Some(&text)).unwrap();
    assert_eq!(repo.worktree(), "/tmp/proj");
    assert_eq!(repo.gitdir(), "/tmp/proj/.git");
    assert_eq!(repo.format_version(), 0);
}

#[test]
fn default_configuration_declares_version_zero() {
    assert_eq!(declared_version(&GitRepository::default_config()), 0);
    let config = GitRepository::default_config();
    assert_eq!(config.get_from(Some("core"), "bare"), Some("false"));
    assert_eq!(config.get_from(Some("core"), "filemode"), Some("false"));
    assert_eq!(config.get_from(Some("core"), "repositoryformatversion"), Some("0"));
}

#[test]
fn opening_needs_a_control_directory() {
    for kind in [PathKind::Missing, PathKind::File, PathKind::Other] {
        assert!(matches!(
            GitRepository::new("/a", kind, Some(DEFAULT_CONFIG)),
            Err(GritError::GitRepoNotFound)
        ));
    }
}

#[test]
fn opening_needs_a_configuration() {
    match GitRepository::new("/a", PathKind::Directory, None) {
        Err(GritError::InvalidGitRepo(text)) => {
            assert_eq!(text, "missing or unreadable configuration file")
        }
        other => panic!("unexpected {:?}", other),
    }
    match GitRepository::new("/a", PathKind::Directory, Some("[core\nbare")) {
        Err(GritError::InvalidGitRepo(text)) => {
            assert_eq!(text, "missing or unreadable configuration file")
        }
        other => panic!("unexpected {:?}", other),
    }
}

#[test]
fn other_format_versions_are_refused() {
    match GitRepository::new("/a", PathKind::Directory, Some("[core]\nrepositoryformatversion=1\n")) {
        Err(GritError::InvalidGitRepo(text)) => {
            assert_eq!(text, "unsupported repositoryformatversion 1")
        }
        other => panic!("unexpected {:?}", other),
    }
    match GitRepository::new("/a", PathKind::Directory, Some("[core]\nrepositoryformatversion=-7\n")) {
        Err(GritError::InvalidGitRepo(text)) => {
            assert_eq!(text, "unsupported repositoryformatversion -7")
        }
        other => panic!("unexpected {:?}", other),
    }
    for text in ["[core]\nbare=false\n", "", "[core]\nrepositoryformatversion=zero\n", "[other]\nrepositoryformatversion=0\n"] {
        match GitRepository::new("/a", PathKind::Directory, Some(text)) {
            Err(GritError::InvalidGitRepo(text)) => {
                assert_eq!(text, "unsupported repositoryformatversion -1")
            }
            other => panic!("unexpected {:?}", other),
        }
    }
    assert!(GitRepository::new("/a", PathKind::Directory, Some("[core]\nrepositoryformatversion=+0\n")).is_ok());
}

#[test]
fn unchecked_handle_takes_what_it_gets() {
    let repo = GitRepository::new_unchecked("/a", None);
    assert_eq!(repo.gitdir(), "/a/.git");
    assert_eq!(repo.format_version(), -1);
    let repo = GitRepository::new_unchecked("/a", Some("[core]\nrepositoryformatversion=5\n"));
    assert_eq!(repo.format_version(), 5);
    let repo = GitRepository::new_unchecked("", Some("[core"));
    assert_eq!(repo.worktree(), "");
    assert_eq!(repo.gitdir(), ".git");
    assert_eq!(repo.format_version(), -1);
}

#[test]
fn nearest_repository_is_found() {
    let candidates = vec![
        candidate("/a/b/c", PathKind::Missing, None),
        candidate("/a/b", PathKind::Directory, Some(DEFAULT_CONFIG)),
        candidate("/a", PathKind::Directory, Some(DEFAULT_CONFIG)),
        candidate("/", PathKind::Missing, None),
    ];
    let repo = GitRepository::find(&candidates).unwrap();
    assert_eq!(repo.worktree(), "/a/b");
    assert_eq!(repo.gitdir(), "/a/b/.git");
}

#[test]
fn no_repository_is_not_found() {
    let candidates = vec![
        candidate("/a/b", PathKind::Missing, None),
        candidate("/a", PathKind::File, Some(DEFAULT_CONFIG)),
        candidate("/", PathKind::Missing, None),
    ];
    assert!(matches!(GitRepository::find(&candidates), Err(GritError::GitRepoNotFound)));
    assert!(matches!(GitRepository::find(&Vec::new()), Err(GritError::GitRepoNotFound)));
}

#[test]
fn malformed_nearest_repository_shadows_the_rest() {
    let candidates = vec![
        candidate("/a/b", PathKind::Directory, None),
        candidate("/a", PathKind::Directory, Some(DEFAULT_CONFIG)),
    ];
    match GitRepository::find(&candidates) {
        Err(GritError::InvalidGitRepo(text)) => {
            assert_eq!(text, "missing or unreadable configuration file")
        }
        other => panic!("unexpected {:?}", other),
    }
    let candidates = vec![
        candidate("/a/b", PathKind::Directory, Some("[core]\nrepositoryformatversion=2\n")),
        candidate("/a", PathKind::Directory, Some(DEFAULT_CONFIG)),
    ];
    assert!(matches!(GitRepository::find(&candidates), Err(GritError::InvalidGitRepo(_))));
}

#[test]
fn objects_are_fanned_out() {
    let repo = open("/tmp/proj");
    assert_eq!(
        repo.object_path(HELLO_KEY).unwrap(),
        "/tmp/proj/.git/objects/ce/013625030ba8dba906f756967f9e9ca394464a"
    );
    match repo.object_path("not-hex!!") {
        Err(GritError::InvalidHash(key)) => assert_eq!(key, "not-hex!!"),
        other => panic!("unexpected {:?}", other),
    }
    assert!(matches!(repo.object_path("ab"), Err(GritError::InvalidHash(_))));
    assert!(GitRepository::is_hash(HELLO_KEY));
    assert!(!GitRepository::is_hash("ab"));
}

#[test]
fn locations_stand_below_the_control_directory() {
    let repo = open("/w");
    assert_eq!(repo.path(&["config"]), "/w/.git/config");
    assert_eq!(repo.path(&["refs", "tags"]), "/w/.git/refs/tags");
    assert_eq!(repo.file(&["HEAD"], PathKind::File).unwrap(), "/w/.git/HEAD");
    assert_eq!(repo.file(&["HEAD"], PathKind::Missing).unwrap(), "/w/.git/HEAD");
    match repo.file(&["HEAD"], PathKind::Directory) {
        Err(GritError::NotAFile(path)) => assert_eq!(path, "/w/.git/HEAD"),
        other => panic!("unexpected {:?}", other),
    }
    assert_eq!(repo.dir(&["objects"], PathKind::Directory).unwrap(), "/w/.git/objects");
    assert_eq!(repo.dir(&["objects"], PathKind::Missing).unwrap(), "/w/.git/objects");
    match repo.dir(&["objects"], PathKind::File) {
        Err(GritError::NotADirectory(path)) => assert_eq!(path, "/w/.git/objects"),
        other => panic!("unexpected {:?}", other),
    }
    assert!(matches!(file_at("x".to_string(), PathKind::Other), Err(GritError::NotAFile(_))));
    assert!(matches!(dir_at("x".to_string(), PathKind::Other), Err(GritError::NotADirectory(_))));
    assert_eq!(file_at("x".to_string(), PathKind::File).unwrap(), "x");
    assert_eq!(dir_at("x".to_string(), PathKind::Directory).unwrap(), "x");
}

#[test]
fn hello_blob_is_stored_and_read_back() {
    let (repo, _) =
        GitRepository::create("/tmp/proj", PathKind::Missing, PathKind::Missing, 0).unwrap();
    let object = GitObject::create(GitObjectType::Blob, b"hello\n");
    let (key, file) = repo.write(&object, PathKind::Missing).unwrap();
    assert_eq!(key, HELLO_KEY);
    let file = file.unwrap();
    assert_eq!(file.dir, "/tmp/proj/.git/objects/ce");
    assert_eq!(file.path, "/tmp/proj/.git/objects/ce/013625030ba8dba906f756967f9e9ca394464a");
    assert_ne!(file.bytes, b"blob 6\0hello\n".to_vec());
    assert_eq!(decompress(&file.bytes), b"blob 6\0hello\n".to_vec());
    let back = repo.read(&key, PathKind::File, &file.bytes).unwrap();
    assert_eq!(back.serialize(), b"hello\n".to_vec());
    assert_eq!(back.object_type(), GitObjectType::Blob);
    assert_eq!(back.hash(), key);
}

#[test]
fn every_kind_is_stored_and_read_back() {
    let repo = open("/w");
    let kinds = [
        GitObjectType::Blob,
        GitObjectType::Commit,
        GitObjectType::Tag,
        GitObjectType::Tree,
    ];
    let big = vec![0u8; 70000];
    let payloads: [&[u8]; 3] = [b"", b"some \0 bytes", &big];
    for kind in kinds {
        for payload in payloads {
            let object = GitObject::create(kind, payload);
            let (key, file) = repo.write(&object, PathKind::Missing).unwrap();
            let file = file.unwrap();
            assert_eq!(file.path, repo.object_path(&key).unwrap());
            let back = repo.read(&key, PathKind::File, &file.bytes).unwrap();
            assert_eq!(back.object_type(), kind);
            assert_eq!(back.serialize(), payload.to_vec());
        }
    }
}

#[test]
fn stored_object_is_not_written_again() {
    let repo = open("/w");
    let object = GitObject::create(GitObjectType::Blob, b"hello\n");
    let (first, file) = repo.write(&object, PathKind::Missing).unwrap();
    assert!(file.is_some());
    let (second, file) = repo.write(&object, PathKind::File).unwrap();
    assert!(file.is_none());
    assert_eq!(first, second);
    assert_eq!(second, HELLO_KEY);
}

#[test]
fn object_file_must_be_a_file() {
    let repo = open("/w");
    let object = GitObject::create(GitObjectType::Blob, b"hello\n");
    match repo.write(&object, PathKind::Directory) {
        Err(GritError::NotAFile(path)) => {
            assert_eq!(path, "/w/.git/objects/ce/013625030ba8dba906f756967f9e9ca394464a")
        }
        other => panic!("unexpected {:?}", other),
    }
    match repo.read(HELLO_KEY, PathKind::Directory, b"") {
        Err(GritError::NotAFile(path)) => {
            assert_eq!(path, "/w/.git/objects/ce/013625030ba8dba906f756967f9e9ca394464a")
        }
        other => panic!("unexpected {:?}", other),
    }
}

#[test]
fn malformed_keys_are_refused_before_anything_is_read() {
    let repo = open("/w");
    let stored = compress(b"blob 6\0hello\n");
    for key in ["not-hex!!", "ab", "", "CE013625030BA8DBA906F756967F9E9CA394464A"] {
        match repo.read(key, PathKind::File, &stored) {
            Err(GritError::InvalidHash(refused)) => assert_eq!(refused, key),
            other => panic!("unexpected {:?}", other),
        }
    }
}

#[test]
fn absent_object_is_not_found() {
    let repo = open("/w");
    match repo.read(HELLO_KEY, PathKind::Missing, b"") {
        Err(GritError::ObjectNotFound(key)) => assert_eq!(key, HELLO_KEY),
        other => panic!("unexpected {:?}", other),
    }
}

#[test]
fn bytes_that_are_no_stream_are_a_failure_of_the_system() {
    let repo = open("/w");
    match repo.read(HELLO_KEY, PathKind::File, b"blob 6\0hello\n") {
        Err(GritError::IOError(e)) => assert!(!GritError::IOError(e).to_string().is_empty()),
        other => panic!("unexpected {:?}", other),
    }
}

#[test]
fn malformed_stored_objects_are_refused() {
    let repo = open("/w");
    assert!(matches!(
        repo.read(HELLO_KEY, PathKind::File, &compress(b"blob 6hello\n")),
        Err(GritError::InvalidHeader(_))
    ));
    match repo.read(HELLO_KEY, PathKind::File, &compress(b"blob 7\0hello\n")) {
        Err(GritError::InvalidHeader(text)) => assert_eq!(text, "header size 7 != data size 6"),
        other => panic!("unexpected {:?}", other),
    }
    assert!(matches!(
        repo.read(HELLO_KEY, PathKind::File, &compress(b"blub 6\0hello\n")),
        Err(GritError::InvalidObjectType(_))
    ));
    assert!(matches!(
        repo.read(HELLO_KEY, PathKind::File, &compress(b"blob x\0hello\n")),
        Err(GritError::InvalidHeader(_))
    ));
}

#[test]
fn failures_are_worded() {
    assert_eq!(
        GritError::GitRepoNotFound.to_string(),
        "not a git repository (or any parent up to mount point /)"
    );
    assert_eq!(
        GritError::InvalidGitRepo("x".to_string()).to_string(),
        "Invalid git repository: x"
    );
    assert_eq!(GritError::InvalidHash("zz".to_string()).to_string(), "Invalid object name: zz");
    assert_eq!(
        GritError::InvalidHeader("space not found".to_string()).to_string(),
        "Invalid object header: space not found"
    );
    assert_eq!(
        GritError::InvalidObjectType("blub".to_string()).to_string(),
        "Invalid object type: blub"
    );
    assert_eq!(GritError::NotADirectory("/a".to_string()).to_string(), "/a is not a directory");
    assert_eq!(GritError::NotAFile("/a".to_string()).to_string(), "/a is not a regular file");
    assert_eq!(GritError::ObjectNotFound("ab".to_string()).to_string(), "Object not found: ab");
    let io = std::io::Error::new(std::io::ErrorKind::Other, "disk on fire");
    assert_eq!(GritError::from(io).to_string(), "disk on fire");
}

#[test]
fn read_configuration_is_accepted_by_its_version() {
    let config = ini::Ini::load_from_str(DEFAULT_CONFIG).unwrap();
    let repo = GitRepository::with_config("/w", config).unwrap();
    assert_eq!(repo.worktree(), "/w");
    assert_eq!(repo.gitdir(), "/w/.git");
    let config = ini::Ini::load_from_str("[core]\nrepositoryformatversion = 12\n").unwrap();
    assert_eq!(declared_version(&config), 12);
    match GitRepository::with_config("/w", config) {
        Err(GritError::InvalidGitRepo(text)) => {
            assert_eq!(text, "unsupported repositoryformatversion 12")
        }
        other => panic!("unexpected {:?}", other),
    }
    let config = ini::Ini::load_from_str("[core]\nrepositoryformatversion = 99999999999\n").unwrap();
    assert_eq!(declared_version(&config), -1);
}

#[test]
fn plan_follows_the_written_configuration() {
    let plan = GitRepository::init_plan("w", false, Ok(b"[core]\n".to_vec())).unwrap();
    assert_eq!(plan.worktree, None);
    assert_eq!(plan.config, b"[core]\n".to_vec());
    assert_eq!(plan.config_path, "w/.git/config");
    assert_eq!(plan.heads, "w/.git/refs/heads");
    let plan = GitRepository::init_plan("w", true, Ok(Vec::new())).unwrap();
    assert_eq!(plan.worktree.as_deref(), Some("w"));
    let failed = std::io::Error::new(std::io::ErrorKind::Other, "full");
    assert!(matches!(
        GitRepository::init_plan("w", true, Err(failed)),
        Err(GritError::IOError(_))
    ));
}

#[test]
fn loose_file_holds_the_compressed_bytes() {
    let repo = open("/w");
    let (key, file) = repo.loose_file(HELLO_KEY.to_string(), Ok(vec![1, 2, 3])).unwrap();
    let file = file.unwrap();
    assert_eq!(key, HELLO_KEY);
    assert_eq!(file.dir, "/w/.git/objects/ce");
    assert_eq!(file.path, "/w/.git/objects/ce/013625030ba8dba906f756967f9e9ca394464a");
    assert_eq!(file.bytes, vec![1, 2, 3]);
    let failed = std::io::Error::new(std::io::ErrorKind::Other, "full");
    assert!(matches!(
        repo.loose_file(HELLO_KEY.to_string(), Err(failed)),
        Err(GritError::IOError(_))
    ));
}

#[test]
fn key_is_its_fan_out_and_its_rest() {
    let object = GitObject::create(GitObjectType::Commit, b"tree\n");
    let key = object.hash();
    let repo = open("/w");
    let path = repo.object_path(&key).unwrap();
    assert_eq!(path, format!("/w/.git/objects/{}/{}", &key[..2], &key[2..]));
    assert_eq!(format!("{}{}", &key[..2], &key[2..]), key);
}

#[test]
fn fresh_inputs_always_give_a_plan() {
    for (found, gitdir_found) in [
        (PathKind::Missing, PathKind::Missing),
        (PathKind::Missing, PathKind::File),
        (PathKind::Directory, PathKind::Missing),
        (PathKind::Directory, PathKind::Directory),
    ] {
        let (repo, plan) = GitRepository::create("/x/y/z", found, gitdir_found, 0).unwrap();
        assert_eq!(repo.worktree(), "/x/y/z");
        assert_eq!(repo.gitdir(), "/x/y/z/.git");
        assert_eq!(repo.format_version(), 0);
        assert_eq!(plan.worktree.is_some(), found == PathKind::Missing);
        assert_eq!(plan.config, DEFAULT_CONFIG.as_bytes().to_vec());
    }
}

#[test]
fn handed_out_file_holds_the_stream_of_the_framed_object() {
    let repo = open("/w");
    let object = GitObject::create(GitObjectType::Blob, b"hello\n");
    let (_, file) = repo.write(&object, PathKind::Missing).unwrap();
    assert_eq!(file.unwrap().bytes, compress(b"blob 6\0hello\n"));
}
