use crate::json::{array_at, json_of_bytes, parse_json, JsonValue};
use crate::schema::{
    lemma_level_unique, lemma_project_unique, level_json, level_same, project_json, project_same, Level,
    Project,
};
use vstd::prelude::*;
use vstd::string::StringExecFns;

verus! {

/// Why a load failed.
#[derive(Clone, Debug, PartialEq, Eq)]
pub enum LoadError {
    /// No file of this path is in the table.
    ResourceNotFound { path: String },
    /// The file is not JSON, or not a document of the schema; the message says where.
    Decode { message: String },
    /// The level stub at `index` (of uid `uid`) has no external path.
    MissingExternalPath { index: usize, uid: i64 },
}

/// Relies on str::rsplit_once: splits `s` at its last `/`, `None` where it has none.
#[verifier::external_body]
fn split_last_slash(s: &str) -> (r: Option<(String, String)>)
    ensures
        r is None <==> !s@.contains('/'),
        r matches Some((d, f)) ==> s@ == d@ + seq!['/'] + f@ && !f@.contains('/'),
{
    s.rsplit_once('/').map(|(d, f)| (d.to_owned(), f.to_owned()))
}

/// The index of the last `/` in `s`, or -1.
pub open spec fn last_slash(s: Seq<char>) -> int
    decreases s.len(),
{
    if s.len() == 0 {
        -1
    } else if s.last() == '/' {
        s.len() - 1
    } else {
        last_slash(s.drop_last())
    }
}

/// The directory that contains the file at `location`: all before its last `/`,
/// or `.` for a bare file name.
pub open spec fn directory(location: Seq<char>) -> Seq<char> {
    if last_slash(location) < 0 {
        seq!['.']
    } else {
        location.subrange(0, last_slash(location))
    }
}

/// The path of `rel`, relative to the directory that contains `location`.
pub open spec fn resolved(location: Seq<char>, rel: Seq<char>) -> Seq<char> {
    directory(location) + seq!['/'] + rel
}

proof fn lemma_last_slash(d: Seq<char>, f: Seq<char>)
    requires
        !f.contains('/'),
    ensures
        last_slash(d + seq!['/'] + f) == d.len(),
    decreases f.len(),
{
    let s = d + seq!['/'] + f;
    if f.len() > 0 {
        assert(f.last() != '/') by {
            assert(f[f.len() - 1] == f.last());
        }
        assert(s.drop_last() =~= d + seq!['/'] + f.drop_last());
        assert(!f.drop_last().contains('/')) by {
            if f.drop_last().contains('/') {
                let k = choose|k: int| 0 <= k < f.drop_last().len() && f.drop_last()[k] == '/';
                assert(f[k] == '/');
            }
        }
        lemma_last_slash(d, f.drop_last());
    }
}

proof fn lemma_no_slash(s: Seq<char>)
    requires
        !s.contains('/'),
    ensures
        last_slash(s) == -1,
    decreases s.len(),
{
    if s.len() > 0 {
        assert(s.last() == s[s.len() - 1]);
        assert(!s.drop_last().contains('/')) by {
            if s.drop_last().contains('/') {
                let k = choose|k: int| 0 <= k < s.drop_last().len() && s.drop_last()[k] == '/';
                assert(s[k] == '/');
            }
        }
        lemma_no_slash(s.drop_last());
    }
}

/// The directory that contains the file at `location`.
pub fn directory_of(location: &str) -> (r: String)
    ensures
        r@ == directory(location@),
{
    match split_last_slash(location) {
        Some((d, f)) => {
            proof {
                lemma_last_slash(d@, f@);
                assert(location@.subrange(0, d@.len() as int) =~= d@);
            }
            d
        },
        None => {
            proof {
                lemma_no_slash(location@);
                reveal_strlit(".");
                assert("."@ =~= seq!['.']);
            }
            ".".to_owned()
        },
    }
}

/// The path of the file `rel`, taken relative to the directory that contains the file
/// at `location`: `/a/b/project.json` and `levels/one.json` give `/a/b/levels/one.json`.
pub fn resolve_path(location: &str, rel: &str) -> (r: String)
    ensures
        r@ == resolved(location@, rel@),
{
    let d = directory_of(location);
    proof {
        reveal_strlit("/");
        assert("/"@ =~= seq!['/']);
    }
    d.concat("/").concat(rel)
}

/// Two projects that a file holds agree on their flag and on their stubs' paths.
proof fn lemma_project_file_agrees(files: Seq<(String, Vec<u8>)>, path: Seq<char>, a: Project, b: Project)
    requires
        project_file(files, path, a),
        project_file(files, path, b),
    ensures
        a.external_levels == b.external_levels,
        a.levels@.len() == b.levels@.len(),
        forall|i: int| 0 <= i < a.levels@.len() ==>
            (#[trigger] a.levels@[i]).external_rel_path == b.levels@[i].external_rel_path,
{
    let j = match json_of_bytes(file_contents(files, path).unwrap()) {
        Ok(j) => j,
        Err(_) => JsonValue::Null,
    };
    let items = array_at(j, "levels"@).unwrap();
    assert forall|i: int| 0 <= i < a.levels@.len() implies
        (#[trigger] a.levels@[i]).external_rel_path == b.levels@[i].external_rel_path by {
        assert(level_json(items[i], a.levels@[i]));
        assert(level_json(items[i], b.levels@[i]));
    }
}

/// A project whose file does not set the external-levels flag loads, with its level
/// list as the file holds it: the loaded project is the one the file holds.
pub proof fn lemma_inline_levels_kept(
    files: Seq<(String, Vec<u8>)>,
    location: Seq<char>,
    q: Project,
    r: Result<Project, LoadError>,
)
    requires
        project_file(files, location, q),
        !q.external_levels,
        full_outcome(files, location, r),
    ensures
        r matches Ok(p) && project_file(files, location, p),
{
    match r {
        Ok(p) => {
            let p0 = choose|p0: Project| #[trigger] project_file(files, location, p0) && if p0.external_levels {
                levels_resolved(files, location, p0, p)
            } else {
                p == p0
            };
            lemma_project_file_agrees(files, location, q, p0);
        },
        Err(e) => {
            if !project_outcome(files, location, Err(e)) {
                let p0 = choose|p0: Project| #[trigger] project_file(files, location, p0)
                    && p0.external_levels && resolve_error(files, location, p0.levels@, e);
                lemma_project_file_agrees(files, location, q, p0);
            }
        },
    }
}

/// A project whose file sets the external-levels flag, and each of whose stubs names
/// a file that holds a level (`ls[i]` for stub `i`), loads: the result has one level
/// per stub, in the stubs' order, each the level that the stub's file holds.
pub proof fn lemma_external_levels_loaded(
    files: Seq<(String, Vec<u8>)>,
    location: Seq<char>,
    q: Project,
    ls: Seq<Level>,
    r: Result<Project, LoadError>,
)
    requires
        project_file(files, location, q),
        q.external_levels,
        stubs_have_paths(q.levels@),
        ls.len() == q.levels@.len(),
        forall|i: int| 0 <= i < q.levels@.len() ==>
            level_file(files, stub_file(location, #[trigger] q.levels@[i]), ls[i]),
        full_outcome(files, location, r),
    ensures
        r matches Ok(p) && p.levels@.len() == q.levels@.len() && forall|i: int| 0 <= i < q.levels@.len() ==>
            level_file(files, stub_file(location, q.levels@[i]), #[trigger] p.levels@[i]),
{
    match r {
        Ok(p) => {
            let p0 = choose|p0: Project| #[trigger] project_file(files, location, p0) && if p0.external_levels {
                levels_resolved(files, location, p0, p)
            } else {
                p == p0
            };
            lemma_project_file_agrees(files, location, q, p0);
            assert forall|i: int| 0 <= i < q.levels@.len() implies
                level_file(files, stub_file(location, q.levels@[i]), #[trigger] p.levels@[i]) by {
                assert(q.levels@[i].external_rel_path == p0.levels@[i].external_rel_path);
            }
        },
        Err(e) => {
            if !project_outcome(files, location, Err(e)) {
                let p0 = choose|p0: Project| #[trigger] project_file(files, location, p0)
                    && p0.external_levels && resolve_error(files, location, p0.levels@, e);
                lemma_project_file_agrees(files, location, q, p0);
                match e {
                    LoadError::MissingExternalPath { index, uid } => {
                        assert(q.levels@[index as int].external_rel_path is Some);
                    },
                    _ => {
                        let i = choose|i: int| 0 <= i < p0.levels@.len() && loads_before(files, location, p0.levels@, i)
                            && level_outcome(files, stub_file(location, #[trigger] p0.levels@[i]), Err(e));
                        assert(q.levels@[i].external_rel_path == p0.levels@[i].external_rel_path);
                        assert(level_file(files, stub_file(location, q.levels@[i]), ls[i]));
                    },
                }
            }
        },
    }
}

/// The message of a `Decode` error for a JSON document that does not fit the schema.
pub open spec fn schema_mismatch() -> Seq<char> {
    "the document does not fit the LDtk schema"@
}

fn schema_mismatch_message() -> (r: String)
    ensures
        r@ == schema_mismatch(),
{
    "the document does not fit the LDtk schema".to_owned()
}

/// The contents of the first file named `path` in `files`, from index `i` on.
pub open spec fn file_from(files: Seq<(String, Vec<u8>)>, path: Seq<char>, i: int) -> Option<Seq<u8>>
    decreases files.len() - i,
{
    if i < 0 || i >= files.len() {
        None
    } else if files[i].0@ == path {
        Some(files[i].1@)
    } else {
        file_from(files, path, i + 1)
    }
}

/// The contents of the file named `path` in the table `files` (the first entry of
/// that name).
pub open spec fn file_contents(files: Seq<(String, Vec<u8>)>, path: Seq<char>) -> Option<Seq<u8>> {
    file_from(files, path, 0)
}

/// The file `path` holds a JSON document that is the form of the level `l`.
pub open spec fn level_file(files: Seq<(String, Vec<u8>)>, path: Seq<char>, l: Level) -> bool {
    match file_contents(files, path) {
        Some(b) => match json_of_bytes(b) {
            Ok(j) => level_json(j, l),
            Err(_) => false,
        },
        None => false,
    }
}

/// The file `path` holds a JSON document that is the form of the project `p`.
pub open spec fn project_file(files: Seq<(String, Vec<u8>)>, path: Seq<char>, p: Project) -> bool {
    match file_contents(files, path) {
        Some(b) => match json_of_bytes(b) {
            Ok(j) => project_json(j, p),
            Err(_) => false,
        },
        None => false,
    }
}

/// What reading the level file `path` may give: the level it holds, or the error that
/// says why there is none.
pub open spec fn level_outcome(files: Seq<(String, Vec<u8>)>, path: Seq<char>, r: Result<Level, LoadError>) -> bool {
    match r {
        Ok(l) => level_file(files, path, l),
        Err(LoadError::ResourceNotFound { path: p }) => file_contents(files, path) is None && p@ == path,
        Err(LoadError::Decode { message }) => match file_contents(files, path) {
            Some(b) => match json_of_bytes(b) {
                Ok(j) => (forall|l: Level| !level_json(j, l)) && message@ == schema_mismatch(),
                Err(m) => message == m,
            },
            None => false,
        },
        Err(LoadError::MissingExternalPath { .. }) => false,
    }
}

/// What reading the project file `path` may give, without resolving external levels.
pub open spec fn project_outcome(files: Seq<(String, Vec<u8>)>, path: Seq<char>, r: Result<Project, LoadError>) -> bool {
    match r {
        Ok(p) => project_file(files, path, p),
        Err(LoadError::ResourceNotFound { path: p }) => file_contents(files, path) is None && p@ == path,
        Err(LoadError::Decode { message }) => match file_contents(files, path) {
            Some(b) => match json_of_bytes(b) {
                Ok(j) => (forall|p: Project| !project_json(j, p)) && message@ == schema_mismatch(),
                Err(m) => message == m,
            },
            None => false,
        },
        Err(LoadError::MissingExternalPath { .. }) => false,
    }
}

/// Two errors are of the same kind and carry the same text or numbers.
pub open spec fn error_same(a: LoadError, b: LoadError) -> bool {
    match (a, b) {
        (LoadError::ResourceNotFound { path: p }, LoadError::ResourceNotFound { path: q }) => p@ == q@,
        (LoadError::Decode { message: m }, LoadError::Decode { message: n }) => m@ == n@,
        (
            LoadError::MissingExternalPath { index: i, uid: u },
            LoadError::MissingExternalPath { index: k, uid: v },
        ) => i == k && u == v,
        _ => false,
    }
}

/// Two reads of the same project file from the same table give the same outcome: two
/// projects of the same content, or the same error.
pub proof fn lemma_project_load_repeats(
    files: Seq<(String, Vec<u8>)>,
    path: Seq<char>,
    r1: Result<Project, LoadError>,
    r2: Result<Project, LoadError>,
)
    requires
        project_outcome(files, path, r1),
        project_outcome(files, path, r2),
    ensures
        match (r1, r2) {
            (Ok(a), Ok(b)) => project_same(a, b),
            (Err(a), Err(b)) => error_same(a, b),
            _ => false,
        },
{
    match (r1, r2) {
        (Ok(a), Ok(b)) => {
            let j = match json_of_bytes(file_contents(files, path).unwrap()) {
                Ok(j) => j,
                Err(_) => JsonValue::Null,
            };
            lemma_project_unique(j, a, b);
        },
        _ => {},
    }
}

/// Two reads of the same level file from the same table give the same outcome: two
/// levels of the same content, or the same error.
pub proof fn lemma_level_load_repeats(
    files: Seq<(String, Vec<u8>)>,
    path: Seq<char>,
    r1: Result<Level, LoadError>,
    r2: Result<Level, LoadError>,
)
    requires
        level_outcome(files, path, r1),
        level_outcome(files, path, r2),
    ensures
        match (r1, r2) {
            (Ok(a), Ok(b)) => level_same(a, b),
            (Err(a), Err(b)) => error_same(a, b),
            _ => false,
        },
{
    match (r1, r2) {
        (Ok(a), Ok(b)) => {
            let j = match json_of_bytes(file_contents(files, path).unwrap()) {
                Ok(j) => j,
                Err(_) => JsonValue::Null,
            };
            lemma_level_unique(j, a, b);
        },
        _ => {},
    }
}

/// Every level stub names its file.
pub open spec fn stubs_have_paths(levels: Seq<Level>) -> bool {
    forall|i: int| 0 <= i < levels.len() ==> (#[trigger] levels[i]).external_rel_path is Some
}

/// Where the file of the level stub `stub` is, for the project at `location`.
pub open spec fn stub_file(location: Seq<char>, stub: Level) -> Seq<char> {
    resolved(location, stub.external_rel_path.unwrap()@)
}

/// `full` is `stubs` with its level list replaced, in order, by the levels that the
/// stubs' files hold.
pub open spec fn levels_resolved(files: Seq<(String, Vec<u8>)>, location: Seq<char>, stubs: Project, full: Project) -> bool {
    &&& full.json_version == stubs.json_version
    &&& full.default_grid_size == stubs.default_grid_size
    &&& full.external_levels == stubs.external_levels
    &&& full.defs == stubs.defs
    &&& stubs_have_paths(stubs.levels@)
    &&& full.levels@.len() == stubs.levels@.len()
    &&& forall|i: int| 0 <= i < stubs.levels@.len() ==>
        level_file(files, stub_file(location, stubs.levels@[i]), #[trigger] full.levels@[i])
}

/// The file that the stub `stub` names holds a level.
pub open spec fn stub_loads(files: Seq<(String, Vec<u8>)>, location: Seq<char>, stub: Level) -> bool {
    exists|l: Level| level_file(files, stub_file(location, stub), l)
}

/// The stubs before index `i` all name files that hold levels.
pub open spec fn loads_before(files: Seq<(String, Vec<u8>)>, location: Seq<char>, stubs: Seq<Level>, i: int) -> bool {
    forall|k: int| 0 <= k < i ==> #[trigger] stub_loads(files, location, stubs[k])
}

/// The error `e` is the one that resolving the external levels of `stubs` ends with:
/// the first stub without a path; or, where every stub has one, the first stub, in
/// order, whose file is missing or does not hold a level.
pub open spec fn resolve_error(files: Seq<(String, Vec<u8>)>, location: Seq<char>, stubs: Seq<Level>, e: LoadError) -> bool {
    match e {
        LoadError::MissingExternalPath { index, uid } => {
            &&& index < stubs.len()
            &&& stubs[index as int].external_rel_path is None
            &&& stubs[index as int].uid == uid
            &&& forall|k: int| 0 <= k < index ==> (#[trigger] stubs[k]).external_rel_path is Some
        },
        _ => stubs_have_paths(stubs) && exists|i: int|
            0 <= i < stubs.len() && loads_before(files, location, stubs, i)
                && level_outcome(files, stub_file(location, #[trigger] stubs[i]), Err(e)),
    }
}

/// What a full load of the project file `path` may give: the project, with its
/// external levels resolved where its flag is set, or the error that says why not.
pub open spec fn full_outcome(files: Seq<(String, Vec<u8>)>, path: Seq<char>, r: Result<Project, LoadError>) -> bool {
    match r {
        Ok(p) => exists|p0: Project| #[trigger] project_file(files, path, p0) && if p0.external_levels {
            levels_resolved(files, path, p0, p)
        } else {
            p == p0
        },
        Err(e) => project_outcome(files, path, Err(e)) || exists|p0: Project| #[trigger] project_file(files, path, p0)
            && p0.external_levels && resolve_error(files, path, p0.levels@, e),
    }
}

/// The contents of the file named `path`, the first such entry of `files`.
fn find_file<'a>(files: &'a Vec<(String, Vec<u8>)>, path: &str) -> (r: Option<&'a Vec<u8>>)
    ensures
        r is None <==> file_contents(files@, path@) is None,
        r matches Some(b) ==> file_contents(files@, path@) == Some(b@),
{
    let k = path.to_owned();
    let mut i: usize = 0;
    while i < files.len()
        invariant
            i <= files.len(),
            k@ == path@,
            file_from(files@, path@, 0) == file_from(files@, path@, i as int),
        decreases files.len() - i,
    {
        if files[i].0 == k {
            assert(file_from(files@, path@, i as int) == Some(files@[i as int].1@));
            return Some(&files[i].1);
        }
        i = i + 1;
    }
    None
}

impl Level {
    /// Reads the level file `location` from the table `files`.
    pub fn new(location: &str, files: &Vec<(String, Vec<u8>)>) -> (r: Result<Level, LoadError>)
        ensures
            level_outcome(files@, location@, r),
    {
        let bytes = match find_file(files, location) {
            Some(b) => b,
            None => {
                return Err(LoadError::ResourceNotFound { path: location.to_owned() });
            },
        };
        let j = match parse_json(bytes.as_slice()) {
            Ok(j) => j,
            Err(message) => {
                return Err(LoadError::Decode { message });
            },
        };
        match Level::from_json(&j) {
            Ok(l) => Ok(l),
            Err(_) => Err(LoadError::Decode { message: schema_mismatch_message() }),
        }
    }
}

impl Project {
    /// Reads the project file `location` from the table `files`, leaving external
    /// levels as stubs.
    pub fn load_project(location: &str, files: &Vec<(String, Vec<u8>)>) -> (r: Result<Project, LoadError>)
        ensures
            project_outcome(files@, location@, r),
    {
        let bytes = match find_file(files, location) {
            Some(b) => b,
            None => {
                return Err(LoadError::ResourceNotFound { path: location.to_owned() });
            },
        };
        let j = match parse_json(bytes.as_slice()) {
            Ok(j) => j,
            Err(message) => {
                return Err(LoadError::Decode { message });
            },
        };
        match Project::from_json(&j) {
            Ok(p) => Ok(p),
            Err(_) => Err(LoadError::Decode { message: schema_mismatch_message() }),
        }
    }

    /// Replaces the level stubs by the levels that their files hold, read from `files`
    /// at paths relative to the directory of the project file `location`. Does nothing
    /// where the project does not store its levels externally. On an error the project
    /// is left as it was.
    pub fn load_external_levels(&mut self, location: &str, files: &Vec<(String, Vec<u8>)>) -> (r: Result<(), LoadError>)
        ensures
            !old(self).external_levels ==> r is Ok && *final(self) == *old(self),
            old(self).external_levels ==> match r {
                Ok(()) => levels_resolved(files@, location@, *old(self), *final(self)),
                Err(e) => resolve_error(files@, location@, old(self).levels@, e),
            },
            r is Err ==> *final(self) == *old(self),
    {
        if !self.external_levels {
            return Ok(());
        }
        let mut paths: Vec<String> = Vec::new();
        let mut i: usize = 0;
        while i < self.levels.len()
            invariant
                i <= self.levels@.len(),
                self.external_levels,
                paths@.len() == i,
                forall|k: int| 0 <= k < i ==> (#[trigger] self.levels@[k]).external_rel_path == Some(paths@[k]),
            decreases self.levels.len() - i,
        {
            match &self.levels[i].external_rel_path {
                Some(rel) => {
                    paths.push(rel.clone());
                },
                None => {
                    return Err(LoadError::MissingExternalPath { index: i, uid: self.levels[i].uid });
                },
            }
            i = i + 1;
        }
        let mut levels: Vec<Level> = Vec::new();
        let mut n: usize = 0;
        while n < paths.len()
            invariant
                n <= paths@.len(),
                self.external_levels,
                paths@.len() == self.levels@.len(),
                levels@.len() == n,
                forall|k: int| 0 <= k < paths@.len() ==> (#[trigger] self.levels@[k]).external_rel_path == Some(paths@[k]),
                forall|k: int| 0 <= k < n ==>
                    level_file(files@, stub_file(location@, self.levels@[k]), #[trigger] levels@[k]),
            decreases paths.len() - n,
        {
            let full = resolve_path(location, paths[n].as_str());
            assert(full@ == stub_file(location@, self.levels@[n as int]));
            match Level::new(full.as_str(), files) {
                Ok(l) => {
                    levels.push(l);
                },
                Err(e) => {
                    proof {
                        assert forall|k: int| 0 <= k < n implies #[trigger] stub_loads(files@, location@, self.levels@[k]) by {
                            assert(level_file(files@, stub_file(location@, self.levels@[k]), levels@[k]));
                        }
                        assert(loads_before(files@, location@, self.levels@, n as int));
                    }
                    return Err(e);
                },
            }
            n = n + 1;
        }
        self.clear_levels();
        self.levels = levels;
        Ok(())
    }

    /// Reads the project file `location` from `files` and, where the project stores
    /// its levels externally, replaces the stubs by the levels their files hold.
    pub fn new(location: &str, files: &Vec<(String, Vec<u8>)>) -> (r: Result<Project, LoadError>)
        ensures
            full_outcome(files@, location@, r),
    {
        let mut p = Project::load_project(location, files)?;
        let ghost p0 = p;
        match p.load_external_levels(location, files) {
            Ok(()) => {
                assert(project_file(files@, location@, p0));
                Ok(p)
            },
            Err(e) => {
                assert(project_file(files@, location@, p0));
                Err(e)
            },
        }
    }

    /// Empties the level list.
    pub fn clear_levels(&mut self)
        ensures
            final(self).levels@.len() == 0,
            final(self).json_version == old(self).json_version,
            final(self).default_grid_size == old(self).default_grid_size,
            final(self).external_levels == old(self).external_levels,
            final(self).defs == old(self).defs,
    {
        self.levels = Vec::new();
    }

    /// The first level whose uid is `uid`.
    pub fn get_level(&self, uid: i64) -> (r: Option<&Level>)
        ensures
            r is None <==> forall|i: int| 0 <= i < self.levels@.len() ==> (#[trigger] self.levels@[i]).uid != uid,
            r matches Some(l) ==> exists|i: int| 0 <= i < self.levels@.len() && self.levels@[i] == *l
                && l.uid == uid && forall|k: int| 0 <= k < i ==> (#[trigger] self.levels@[k]).uid != uid,
    {
        let mut i: usize = 0;
        while i < self.levels.len()
            invariant
                i <= self.levels@.len(),
                forall|k: int| 0 <= k < i ==> (#[trigger] self.levels@[k]).uid != uid,
            decreases self.levels.len() - i,
        {
            if self.levels[i].uid == uid {
                return Some(&self.levels[i]);
            }
            i = i + 1;
        }
        None
    }
}

/// The project's former name, kept for callers that still use it.
pub struct LdtkJson;

impl LdtkJson {
    /// Loads a project exactly as `Project::new` does.
    pub fn new(location: String, files: &Vec<(String, Vec<u8>)>) -> (r: Result<Project, LoadError>)
        ensures
            full_outcome(files@, location@, r),
    {
        Project::new(location.as_str(), files)
    }
}

} // verus!
