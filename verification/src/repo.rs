//! The repository: where objects are kept, how one is found, made, read
//! from and written to.

use crate::config::{
    declared_version, default_values, format_version, ini_new, ini_parse, ini_parsed, ini_set,
    ini_text, ini_values, ini_write, lemma_default_version, no_values, push_signed, signed_text,
};
use crate::error::GritError;
use crate::object::{
    fault_text, header_of, lemma_missing_null_rejected, lemma_parse_framed,
    lemma_parse_inverts_loose, loose_of, parse_spec, GitObject, GitObjectType, Malformed,
};
use crate::path::{join, join_all, join_path, join_paths, PathKind};
use crate::utils::{is_hash, is_key, key_of, KEY_LEN};
use crate::zlib::{deflate, inflate, zlib_deflated, zlib_inflated};
use ini::Ini;
use vstd::prelude::*;
use vstd::string::*;

verus! {

/// A repository: a work tree, the control directory below it, and the
/// configuration read from there.
#[derive(Debug)]
pub struct GitRepository {
    gitdir: String,
    worktree: String,
    config: Ini,
}

/// A directory that may hold a repository, with what was found there.
#[derive(Debug)]
pub struct Candidate {
    /// The directory.
    pub worktree: String,
    /// What stands at `.git` below it.
    pub gitdir: PathKind,
    /// The text of the configuration file, where it could be read.
    pub config: Option<String>,
}

/// What has to be made on disk for a fresh repository, in this order.
#[derive(Debug)]
pub struct InitPlan {
    /// The work tree, where it has to be made with its ancestors.
    pub worktree: Option<String>,
    /// The directory `branches`.
    pub branches: String,
    /// The directory `objects`.
    pub objects: String,
    /// The directory `refs/heads`.
    pub heads: String,
    /// The directory `refs/tags`.
    pub tags: String,
    /// The file `config`.
    pub config_path: String,
    /// What `config` holds.
    pub config: Vec<u8>,
    /// The file `description`.
    pub description_path: String,
    /// What `description` holds.
    pub description: String,
    /// The file `HEAD`.
    pub head_path: String,
    /// What `HEAD` holds.
    pub head: String,
}

/// An object file that has to be written.
#[derive(Debug)]
pub struct LooseFile {
    /// The fan-out directory, to be made where it is missing.
    pub dir: String,
    /// The file.
    pub path: String,
    /// What the file holds: the compressed framed object.
    pub bytes: Vec<u8>,
}

/// The control directory of a work tree.
pub open spec fn gitdir_of(worktree: Seq<char>) -> Seq<char> {
    join(worktree, ".git"@)
}

/// The fan-out directory of a key below a control directory.
pub open spec fn fan_out_of(gitdir: Seq<char>, key: Seq<char>) -> Seq<char> {
    join(join(gitdir, "objects"@), key.subrange(0, 2))
}

/// The file of a key below a control directory.
pub open spec fn object_path_of(gitdir: Seq<char>, key: Seq<char>) -> Seq<char> {
    join(fan_out_of(gitdir, key), key.subrange(2, key.len() as int))
}

/// The first candidate whose `.git` is a directory, or the number of
/// candidates where none is.
pub open spec fn nearest(candidates: Seq<Candidate>) -> int
    decreases candidates.len(),
{
    if candidates.len() == 0 || candidates[0].gitdir == PathKind::Directory {
        0
    } else {
        1 + nearest(candidates.drop_first())
    }
}

/// What finding gives: nothing where no candidate has a control
/// directory, else what the nearest one that has opens as.
pub open spec fn find_gives(candidates: Seq<Candidate>, repo: Result<GitRepository, GritError>) -> bool {
    let n = nearest(candidates);
    if n >= candidates.len() {
        repo matches Err(GritError::GitRepoNotFound)
    } else {
        opened(candidates[n].worktree@, PathKind::Directory, text_of(candidates[n].config), repo)
    }
}

/// The text of a configuration file, where there is one.
pub open spec fn text_of(config: Option<String>) -> Option<Seq<char>> {
    match config {
        Some(text) => Some(text@),
        None => None,
    }
}

/// What a work tree with settings `values` opens as: an invalid
/// repository where the format version is not 0, else the repository with
/// those settings.
pub open spec fn accepted(
    worktree: Seq<char>,
    values: Map<(Seq<char>, Seq<char>), Seq<char>>,
    repo: Result<GitRepository, GritError>,
) -> bool {
    if format_version(values) != 0 {
        repo matches Err(GritError::InvalidGitRepo(text)) && text@
            == "unsupported repositoryformatversion "@ + signed_text(format_version(values))
    } else {
        repo matches Ok(r) && r.wf() && r.spec_worktree() == worktree && r.settings() == values
    }
}

/// What opening a work tree gives: nothing where `.git` is no directory;
/// an invalid repository where the configuration is absent or cannot be
/// read; else what its settings are accepted as.
pub open spec fn opened(
    worktree: Seq<char>,
    gitdir: PathKind,
    config: Option<Seq<char>>,
    repo: Result<GitRepository, GritError>,
) -> bool {
    if gitdir != PathKind::Directory {
        repo matches Err(GritError::GitRepoNotFound)
    } else if config is None || ini_parsed(config->0) is None {
        repo matches Err(GritError::InvalidGitRepo(text)) && text@
            == "missing or unreadable configuration file"@
    } else {
        accepted(worktree, ini_parsed(config->0)->0, repo)
    }
}

/// What making a repository gives, by what was found at the work tree and
/// at `.git` below it.
pub open spec fn created(
    worktree: Seq<char>,
    found: PathKind,
    gitdir_found: PathKind,
    gitdir_entries: usize,
    made: Result<(GitRepository, InitPlan), GritError>,
) -> bool {
    if found != PathKind::Missing && found != PathKind::Directory {
        made matches Err(GritError::NotADirectory(path)) && path@ == worktree
    } else if found == PathKind::Directory && gitdir_found != PathKind::Missing && gitdir_found
        != PathKind::Directory {
        made matches Err(GritError::NotADirectory(path)) && path@ == gitdir_of(worktree)
    } else if found == PathKind::Directory && gitdir_found == PathKind::Directory
        && gitdir_entries != 0 {
        made matches Err(GritError::InvalidGitRepo(text)) && text@
            == "git directory is not empty"@
    } else {
        made matches Ok((repo, plan)) && {
            &&& repo.wf()
            &&& repo.spec_worktree() == worktree
            &&& repo.settings() == default_values()
            &&& plan.lays_out(worktree, found == PathKind::Missing)
            &&& plan.config@ == ini_text(repo.spec_config())
        }
    }
}

/// What reading gives. A malformed key is refused first; then a missing
/// file, and anything that is no regular file; then bytes that the decoder
/// does not accept; then bytes that frame no object. Otherwise the object
/// that the bytes frame is returned.
pub open spec fn read_gives(
    gitdir: Seq<char>,
    key: Seq<char>,
    found: PathKind,
    stored: Seq<u8>,
    object: Result<GitObject, GritError>,
) -> bool {
    if !is_key(key) {
        object matches Err(GritError::InvalidHash(k)) && k@ == key
    } else if found == PathKind::Missing {
        object matches Err(GritError::ObjectNotFound(k)) && k@ == key
    } else if found != PathKind::File {
        object matches Err(GritError::NotAFile(p)) && p@ == object_path_of(gitdir, key)
    } else {
        match zlib_inflated(stored) {
            None => object matches Err(GritError::IOError(_)),
            Some(raw) => match parse_spec(raw) {
                Ok((kind, payload)) => object matches Ok(o) && o.kind() == kind && o.payload()
                    == payload,
                Err(Malformed::UnknownKind) => object matches Err(
                    GritError::InvalidObjectType(text),
                ) && text@ == fault_text(raw, Malformed::UnknownKind),
                Err(fault) => object matches Err(GritError::InvalidHeader(text)) && text@
                    == fault_text(raw, fault),
            },
        }
    }
}

/// What storing an object of kind `kind` and payload `payload` gives. The
/// key is that of the framed object whatever was found. A regular file
/// means that nothing is written; anything else that is there is refused;
/// where nothing is there, the file to write holds the compressed framed
/// object, which the decoder reads back as the framed object, and the only
/// failure is that of the encoder.
pub open spec fn write_gives(
    gitdir: Seq<char>,
    kind: GitObjectType,
    payload: Seq<u8>,
    found: PathKind,
    stored: Result<(String, Option<LooseFile>), GritError>,
) -> bool {
    let raw = loose_of(kind, payload);
    let key = key_of(raw);
    match found {
        PathKind::File => stored matches Ok((k, None)) && k@ == key && is_key(k@),
        PathKind::Missing => match zlib_deflated(raw) {
            Some(z) => stored matches Ok((k, Some(file))) && {
                &&& k@ == key
                &&& is_key(k@)
                &&& file.dir@ == fan_out_of(gitdir, key)
                &&& file.path@ == object_path_of(gitdir, key)
                &&& file.bytes@ == z
                &&& zlib_inflated(z) == Some(raw)
            },
            None => stored matches Err(GritError::IOError(_)),
        },
        _ => stored matches Err(GritError::NotAFile(p)) && p@ == object_path_of(gitdir, key),
    }
}

impl InitPlan {
    /// The plan makes the skeleton of a repository below `worktree`, and
    /// the work tree itself where `missing` says that it is not there.
    pub open spec fn lays_out(&self, worktree: Seq<char>, missing: bool) -> bool {
        let gitdir = gitdir_of(worktree);
        &&& text_of(self.worktree) == if missing {
            Some(worktree)
        } else {
            None
        }
        &&& self.branches@ == join(gitdir, "branches"@)
        &&& self.objects@ == join(gitdir, "objects"@)
        &&& self.heads@ == join(join(gitdir, "refs"@), "heads"@)
        &&& self.tags@ == join(join(gitdir, "refs"@), "tags"@)
        &&& self.config_path@ == join(gitdir, "config"@)
        &&& self.description_path@ == join(gitdir, "description"@)
        &&& self.description@
            == "Unnamed repository; edit this file 'description' to name the repository.\n"@
        &&& self.head_path@ == join(gitdir, "HEAD"@)
        &&& self.head@ == "ref: refs/heads/master\n"@
    }
}

/// Refuses what is neither missing nor a regular file.
pub fn file_at(path: String, found: PathKind) -> (file: Result<String, GritError>)
    ensures
        match found {
            PathKind::Missing | PathKind::File => file matches Ok(p) && p@ == path@,
            _ => file matches Err(GritError::NotAFile(p)) && p@ == path@,
        },
{
    match found {
        PathKind::Missing | PathKind::File => Ok(path),
        _ => Err(GritError::NotAFile(path)),
    }
}

/// Refuses what is neither missing nor a directory.
pub fn dir_at(path: String, found: PathKind) -> (dir: Result<String, GritError>)
    ensures
        match found {
            PathKind::Missing | PathKind::Directory => dir matches Ok(p) && p@ == path@,
            _ => dir matches Err(GritError::NotADirectory(p)) && p@ == path@,
        },
{
    match found {
        PathKind::Missing | PathKind::Directory => Ok(path),
        _ => Err(GritError::NotADirectory(path)),
    }
}

impl GitRepository {
    /// The work tree.
    pub closed spec fn spec_worktree(&self) -> Seq<char> {
        self.worktree@
    }

    /// The control directory.
    pub closed spec fn spec_gitdir(&self) -> Seq<char> {
        self.gitdir@
    }

    /// The configuration.
    pub closed spec fn spec_config(&self) -> Ini {
        self.config
    }

    /// The settings that the configuration holds.
    pub open spec fn settings(&self) -> Map<(Seq<char>, Seq<char>), Seq<char>> {
        ini_values(self.spec_config())
    }

    /// The control directory is `.git` below the work tree.
    pub open spec fn wf(&self) -> bool {
        self.spec_gitdir() == gitdir_of(self.spec_worktree())
    }

    /// The work tree.
    pub fn worktree(&self) -> (path: &str)
        ensures
            path@ == self.spec_worktree(),
    {
        self.worktree.as_str()
    }

    /// The control directory.
    pub fn gitdir(&self) -> (path: &str)
        ensures
            path@ == self.spec_gitdir(),
    {
        self.gitdir.as_str()
    }

    /// The format version that the configuration declares, or -1.
    pub fn format_version(&self) -> (version: i32)
        ensures
            version == format_version(self.settings()),
    {
        declared_version(&self.config)
    }

    /// Whether `hash` is a well-formed key.
    pub fn is_hash(hash: &str) -> (ok: bool)
        ensures
            ok == is_key(hash@),
    {
        is_hash(hash)
    }

    /// The location of `parts` below the control directory.
    pub fn path(&self, parts: &[&str]) -> (path: String)
        ensures
            path@ == join_all(self.spec_gitdir(), parts@),
    {
        join_paths(self.gitdir.as_str(), parts)
    }

    /// The location of `parts` below the control directory, for a file:
    /// refused where something other than a regular file was found there.
    pub fn file(&self, parts: &[&str], found: PathKind) -> (file: Result<String, GritError>)
        ensures
            match found {
                PathKind::Missing | PathKind::File => file matches Ok(p) && p@ == join_all(
                    self.spec_gitdir(),
                    parts@,
                ),
                _ => file matches Err(GritError::NotAFile(p)) && p@ == join_all(
                    self.spec_gitdir(),
                    parts@,
                ),
            },
    {
        file_at(self.path(parts), found)
    }

    /// The location of `parts` below the control directory, for a
    /// directory: refused where something other than a directory was found
    /// there.
    pub fn dir(&self, parts: &[&str], found: PathKind) -> (dir: Result<String, GritError>)
        ensures
            match found {
                PathKind::Missing | PathKind::Directory => dir matches Ok(p) && p@ == join_all(
                    self.spec_gitdir(),
                    parts@,
                ),
                _ => dir matches Err(GritError::NotADirectory(p)) && p@ == join_all(
                    self.spec_gitdir(),
                    parts@,
                ),
            },
    {
        dir_at(self.path(parts), found)
    }

    /// A handle on `worktree` with the configuration read from `config`,
    /// or an empty one where there is no text or it cannot be read. Nothing
    /// is checked.
    pub fn new_unchecked(worktree: &str, config: Option<&str>) -> (repo: GitRepository)
        ensures
            repo.wf(),
            repo.spec_worktree() == worktree@,
            repo.settings() == match config {
                Some(text) => match ini_parsed(text@) {
                    Some(values) => values,
                    None => no_values(),
                },
                None => no_values(),
            },
    {
        let gitdir = join_path(worktree, ".git");
        let config = match config {
            Some(text) => match ini_parse(text) {
                Ok(config) => config,
                Err(_) => ini_new(),
            },
            None => ini_new(),
        };
        GitRepository { gitdir, worktree: String::from_str(worktree), config }
    }

    /// Opens the repository of `worktree`, given what stands at `.git`
    /// below it and the text of its configuration file.
    pub fn new(worktree: &str, gitdir: PathKind, config: Option<&str>) -> (repo: Result<
        GitRepository,
        GritError,
    >)
        ensures
            opened(
                worktree@,
                gitdir,
                match config {
                    Some(text) => Some(text@),
                    None => None,
                },
                repo,
            ),
    {
        if gitdir != PathKind::Directory {
            return Err(GritError::GitRepoNotFound);
        }
        let read = match config {
            Some(text) => ini_parse(text).ok(),
            None => None,
        };
        match read {
            Some(config) => GitRepository::with_config(worktree, config),
            None => Err(
                GritError::InvalidGitRepo(
                    String::from_str("missing or unreadable configuration file"),
                ),
            ),
        }
    }

    /// Opens the repository of `worktree` with the configuration read
    /// there: only format version 0 is accepted.
    pub fn with_config(worktree: &str, config: Ini) -> (repo: Result<GitRepository, GritError>)
        ensures
            accepted(worktree@, ini_values(config), repo),
    {
        let version = declared_version(&config);
        if version != 0 {
            let mut message = String::from_str("unsupported repositoryformatversion ");
            push_signed(&mut message, version);
            return Err(GritError::InvalidGitRepo(message));
        }
        Ok(
            GitRepository {
                gitdir: join_path(worktree, ".git"),
                worktree: String::from_str(worktree),
                config,
            },
        )
    }

    /// The configuration that a fresh repository gets.
    pub fn default_config() -> (config: Ini)
        ensures
            ini_values(config) == default_values(),
    {
        let mut config = ini_new();
        ini_set(&mut config, "core", "bare", "false");
        ini_set(&mut config, "core", "repositoryformatversion", "0");
        ini_set(&mut config, "core", "filemode", "false");
        config
    }

    /// The plan for a fresh repository below `worktree`, given the text
    /// that its configuration was written as, or the failure to write it.
    pub fn init_plan(worktree: &str, missing: bool, written: Result<Vec<u8>, std::io::Error>) -> (plan:
        Result<InitPlan, GritError>)
        ensures
            match written {
                Ok(text) => plan matches Ok(p) && p.lays_out(worktree@, missing) && p.config@
                    == text@,
                Err(_) => plan matches Err(GritError::IOError(_)),
            },
    {
        let text = match written {
            Ok(text) => text,
            Err(e) => {
                return Err(GritError::IOError(e));
            },
        };
        let gitdir = join_path(worktree, ".git");
        let refs = join_path(gitdir.as_str(), "refs");
        Ok(
            InitPlan {
                worktree: if missing {
                    Some(String::from_str(worktree))
                } else {
                    None
                },
                branches: join_path(gitdir.as_str(), "branches"),
                objects: join_path(gitdir.as_str(), "objects"),
                heads: join_path(refs.as_str(), "heads"),
                tags: join_path(refs.as_str(), "tags"),
                config_path: join_path(gitdir.as_str(), "config"),
                config: text,
                description_path: join_path(gitdir.as_str(), "description"),
                description: String::from_str(
                    "Unnamed repository; edit this file 'description' to name the repository.\n",
                ),
                head_path: join_path(gitdir.as_str(), "HEAD"),
                head: String::from_str("ref: refs/heads/master\n"),
            },
        )
    }

    /// What storing gives where nothing stands at the file of `key`, given
    /// the compressed framed object, or the failure to compress it.
    pub fn loose_file(&self, key: String, compressed: Result<Vec<u8>, std::io::Error>) -> (stored:
        Result<(String, Option<LooseFile>), GritError>)
        requires
            is_key(key@),
        ensures
            match compressed {
                Ok(bytes) => stored matches Ok((k, Some(file))) && k@ == key@ && file.dir@
                    == fan_out_of(self.spec_gitdir(), key@) && file.path@ == object_path_of(
                    self.spec_gitdir(),
                    key@,
                ) && file.bytes@ == bytes@,
                Err(_) => stored matches Err(GritError::IOError(_)),
            },
    {
        let bytes = match compressed {
            Ok(bytes) => bytes,
            Err(e) => {
                return Err(GritError::IOError(e));
            },
        };
        let dir = self.fan_out(key.as_str());
        let path = join_path(dir.as_str(), key.as_str().substring_char(2, KEY_LEN));
        Ok((key, Some(LooseFile { dir, path, bytes })))
    }

    /// Finds the repository that governs a location. `candidates` are the
    /// location and its ancestors, the deepest first. The first whose
    /// `.git` is a directory decides: it is opened, and where that fails
    /// the failure is final, whatever stands further up.
    pub fn find(candidates: &Vec<Candidate>) -> (repo: Result<GitRepository, GritError>)
        ensures
            find_gives(candidates@, repo),
    {
        let mut i: usize = 0;
        while i < candidates.len() && candidates[i].gitdir != PathKind::Directory
            invariant
                i <= candidates.len(),
                forall|j: int| 0 <= j < i ==> candidates@[j].gitdir != PathKind::Directory,
            decreases candidates.len() - i,
        {
            i += 1;
        }
        proof {
            lemma_nearest(candidates@, i as int);
        }
        if i >= candidates.len() {
            return Err(GritError::GitRepoNotFound);
        }
        let found = &candidates[i];
        match &found.config {
            Some(text) => GitRepository::new(
                found.worktree.as_str(),
                PathKind::Directory,
                Some(text.as_str()),
            ),
            None => GitRepository::new(found.worktree.as_str(), PathKind::Directory, None),
        }
    }

    /// Plans a fresh repository at `worktree`, given what was found there
    /// (`found`), at `.git` below it (`gitdir_found`) and how many entries
    /// that directory holds. The work tree may be missing; `.git` may be
    /// missing or an empty directory. The handle carries the default
    /// configuration, which the plan writes.
    pub fn create(
        worktree: &str,
        found: PathKind,
        gitdir_found: PathKind,
        gitdir_entries: usize,
    ) -> (made: Result<(GitRepository, InitPlan), GritError>)
        ensures
            created(worktree@, found, gitdir_found, gitdir_entries, made),
    {
        let gitdir = join_path(worktree, ".git");
        match found {
            PathKind::Missing => {},
            PathKind::Directory => {
                match gitdir_found {
                    PathKind::Missing => {},
                    PathKind::Directory => {
                        if gitdir_entries != 0 {
                            return Err(
                                GritError::InvalidGitRepo(
                                    String::from_str("git directory is not empty"),
                                ),
                            );
                        }
                    },
                    _ => {
                        return Err(GritError::NotADirectory(gitdir));
                    },
                }
            },
            _ => {
                return Err(GritError::NotADirectory(String::from_str(worktree)));
            },
        }
        let config = GitRepository::default_config();
        let plan = match GitRepository::init_plan(
            worktree,
            found == PathKind::Missing,
            ini_write(&config),
        ) {
            Ok(plan) => plan,
            Err(e) => {
                return Err(e);
            },
        };
        Ok((GitRepository { gitdir, worktree: String::from_str(worktree), config }, plan))
    }

    /// The file in which the object of key `sha` is kept, for a key that
    /// is well formed.
    pub fn object_path(&self, sha: &str) -> (path: Result<String, GritError>)
        ensures
            match path {
                Ok(p) => is_key(sha@) && p@ == object_path_of(self.spec_gitdir(), sha@),
                Err(e) => !is_key(sha@) && (e matches GritError::InvalidHash(key) && key@ == sha@),
            },
    {
        if !is_hash(sha) {
            return Err(GritError::InvalidHash(String::from_str(sha)));
        }
        let fan_out = self.fan_out(sha);
        Ok(join_path(fan_out.as_str(), sha.substring_char(2, KEY_LEN)))
    }

    /// Reads the object of key `sha`, given what was found at its file
    /// (`found`) and, for a regular file, the bytes in it (`stored`). The
    /// key is checked before anything else; the bytes are decompressed and
    /// must frame an object.
    pub fn read(&self, sha: &str, found: PathKind, stored: &[u8]) -> (object: Result<
        GitObject,
        GritError,
    >)
        ensures
            read_gives(self.spec_gitdir(), sha@, found, stored@, object),
    {
        let path = match self.object_path(sha) {
            Ok(path) => path,
            Err(e) => {
                return Err(e);
            },
        };
        match found {
            PathKind::Missing => Err(GritError::ObjectNotFound(String::from_str(sha))),
            PathKind::File => match inflate(stored) {
                Ok(raw) => GitObject::parse(raw.as_slice()),
                Err(e) => Err(GritError::IOError(e)),
            },
            _ => Err(GritError::NotAFile(path)),
        }
    }

    /// Stores `object`, given what was found at the file of its key. The
    /// key is returned. Where a regular file is there already, nothing is
    /// to be written; where nothing is there, the file to write is handed
    /// out: the framed object, compressed.
    pub fn write(&self, object: &GitObject, found: PathKind) -> (stored: Result<
        (String, Option<LooseFile>),
        GritError,
    >)
        ensures
            write_gives(self.spec_gitdir(), object.kind(), object.payload(), found, stored),
    {
        let mut raw = object.header();
        let mut data = object.serialize();
        let key = crate::utils::hash(raw.as_slice(), data.as_slice());
        match found {
            PathKind::File => Ok((key, None)),
            PathKind::Missing => {
                raw.append(&mut data);
                self.loose_file(key, deflate(raw.as_slice()))
            },
            _ => {
                let dir = self.fan_out(key.as_str());
                Err(
                    GritError::NotAFile(
                        join_path(dir.as_str(), key.as_str().substring_char(2, KEY_LEN)),
                    ),
                )
            },
        }
    }

    fn fan_out(&self, sha: &str) -> (dir: String)
        requires
            is_key(sha@),
        ensures
            dir@ == fan_out_of(self.spec_gitdir(), sha@),
    {
        let objects = join_path(self.gitdir.as_str(), "objects");
        join_path(objects.as_str(), sha.substring_char(0, 2))
    }
}

/// `nearest` is the place before which no candidate has a control
/// directory and at which one has, or the candidates end.
pub proof fn lemma_nearest(candidates: Seq<Candidate>, i: int)
    requires
        0 <= i <= candidates.len(),
        forall|j: int| 0 <= j < i ==> candidates[j].gitdir != PathKind::Directory,
        i == candidates.len() || candidates[i].gitdir == PathKind::Directory,
    ensures
        nearest(candidates) == i,
    decreases candidates.len(),
{
    if candidates.len() == 0 || candidates[0].gitdir == PathKind::Directory {
    } else {
        let rest = candidates.drop_first();
        assert forall|j: int| 0 <= j < i - 1 implies rest[j].gitdir != PathKind::Directory by {
            assert(rest[j] == candidates[j + 1]);
        }
        lemma_nearest(rest, i - 1);
    }
}

/// What was written is what is read: where `write` found nothing and
/// handed out a file, `read` of the returned key on the bytes of that file
/// returns an object of the same kind with exactly the same payload.
pub proof fn lemma_read_after_write(
    gitdir: Seq<char>,
    kind: GitObjectType,
    payload: Seq<u8>,
    written: Result<(String, Option<LooseFile>), GritError>,
    object: Result<GitObject, GritError>,
)
    requires
        payload.len() <= usize::MAX,
        write_gives(gitdir, kind, payload, PathKind::Missing, written),
        written matches Ok((k, Some(file))) && read_gives(
            gitdir,
            k@,
            PathKind::File,
            file.bytes@,
            object,
        ),
    ensures
        object matches Ok(o) && o.kind() == kind && o.payload() == payload,
{
    lemma_parse_inverts_loose(kind, payload);
}

/// A key is its first two characters followed by the rest, and its file
/// is `objects`, the first two characters and the rest, each below the one
/// before and parted by one `/`.
pub proof fn lemma_fan_out(gitdir: Seq<char>, key: Seq<char>)
    requires
        is_key(key),
    ensures
        key.subrange(0, 2) + key.subrange(2, key.len() as int) == key,
        object_path_of(gitdir, key) == join(gitdir, "objects"@) + seq!['/'] + key.subrange(0, 2)
            + seq!['/'] + key.subrange(2, key.len() as int),
{
    reveal_strlit("objects");
    assert(key.subrange(0, 2) + key.subrange(2, key.len() as int) =~= key);
    let objects = join(gitdir, "objects"@);
    assert(objects.last() == 's');
    let dir = join(objects, key.subrange(0, 2));
    assert(dir =~= objects + seq!['/'] + key.subrange(0, 2));
    assert(dir.last() == key[1]);
    assert(crate::utils::is_hex_digit(key[1]));
}

/// Stored bytes that are malformed are never read as an object: where the
/// decoder hands out bytes without a zero byte, or a header followed by a
/// payload of another length than it declares, `read` fails with
/// `InvalidHeader`.
pub proof fn lemma_read_rejects_malformed(
    gitdir: Seq<char>,
    key: Seq<char>,
    stored: Seq<u8>,
    raw: Seq<u8>,
    kind: GitObjectType,
    len: nat,
    object: Result<GitObject, GritError>,
)
    requires
        is_key(key),
        zlib_inflated(stored) == Some(raw),
        len <= usize::MAX,
        (forall|i: int| 0 <= i < raw.len() ==> raw[i] != 0) || (exists|body: Seq<u8>|
            raw == #[trigger] (header_of(kind, len) + body) && body.len() != len),
        read_gives(gitdir, key, PathKind::File, stored, object),
    ensures
        object matches Err(GritError::InvalidHeader(_)),
{
    if forall|i: int| 0 <= i < raw.len() ==> raw[i] != 0 {
        lemma_missing_null_rejected(raw);
    } else {
        let body = choose|body: Seq<u8>|
            raw == #[trigger] (header_of(kind, len) + body) && body.len() != len;
        lemma_parse_framed(kind, len, body);
    }
}

/// The nearest repository wins: where candidate `i` is the first with a
/// control directory and its configuration declares format version 0, it
/// is the one that is found, whatever stands further up.
pub proof fn lemma_find_nearest(
    candidates: Seq<Candidate>,
    i: int,
    repo: Result<GitRepository, GritError>,
)
    requires
        0 <= i < candidates.len(),
        forall|j: int| 0 <= j < i ==> candidates[j].gitdir != PathKind::Directory,
        candidates[i].gitdir == PathKind::Directory,
        candidates[i].config matches Some(text) && ini_parsed(text@) matches Some(values)
            && format_version(values) == 0,
        find_gives(candidates, repo),
    ensures
        repo matches Ok(r) && r.spec_worktree() == candidates[i].worktree@ && r.wf(),
{
    lemma_nearest(candidates, i);
}

/// Storing twice stores once: after a first call that found nothing and
/// handed out the file, a second call that finds the file hands out
/// nothing, and both return one key.
pub proof fn lemma_second_write_is_idle(
    gitdir: Seq<char>,
    kind: GitObjectType,
    payload: Seq<u8>,
    first: Result<(String, Option<LooseFile>), GritError>,
    second: Result<(String, Option<LooseFile>), GritError>,
)
    requires
        first is Ok,
        write_gives(gitdir, kind, payload, PathKind::Missing, first),
        write_gives(gitdir, kind, payload, PathKind::File, second),
    ensures
        first matches Ok((k1, Some(_))) && second matches Ok((k2, None)) && k1@ == k2@,
{
}

/// A fresh repository is a valid one: the settings that `create` gives
/// are accepted when the repository is opened.
pub proof fn lemma_default_accepted(worktree: Seq<char>, repo: Result<GitRepository, GritError>)
    requires
        accepted(worktree, default_values(), repo),
    ensures
        repo matches Ok(r) && r.spec_worktree() == worktree && r.settings() == default_values(),
{
    lemma_default_version();
}

} // verus!
