//! Where the file backend keeps its files.
//!
//! Each session is one file, `<base>/sessions/<id>.json`. A session is
//! written to `<base>/sessions/<id>.tmp` first and then renamed over its
//! file, so that a reader sees the old session or the new one and never part
//! of one. Reading and writing are the host's part; which name is whose is
//! decided here.

use vstd::prelude::*;

verus! {

/// The layout of the file backend under a base directory.
#[derive(Debug, Clone, PartialEq, Eq)]
pub struct FileBackend {
    base_dir: String,
}

/// The largest index below `hi` at which `s` holds a dot, `-1` if none.
pub open spec fn last_dot(s: Seq<char>, hi: int) -> int
    decreases hi,
{
    if 0 < hi <= s.len() && s[hi - 1] != '.' {
        last_dot(s, hi - 1)
    } else {
        hi - 1
    }
}

/// The file name has the extension `json`: what follows its last dot is
/// `json`, and that dot is not its first character.
pub open spec fn is_session_name(name: Seq<char>) -> bool {
    let d = last_dot(name, name.len() as int);
    d > 0 && name.skip(d + 1) == "json"@
}

/// The directory that holds the session files under `base`.
pub open spec fn sessions_dir_of(base: Seq<char>) -> Seq<char> {
    base + "/sessions"@
}

/// The name of the file of the session `id`.
pub open spec fn session_file_name_of(id: Seq<char>) -> Seq<char> {
    id + ".json"@
}

/// The file of the session `id` under `base`.
pub open spec fn session_path_of(base: Seq<char>, id: Seq<char>) -> Seq<char> {
    base + "/sessions/"@ + id + ".json"@
}

/// The file that a session is written to before it is renamed over its own.
pub open spec fn temp_path_of(base: Seq<char>, id: Seq<char>) -> Seq<char> {
    base + "/sessions/"@ + id + ".tmp"@
}

/// `last_dot` finds a dot, and no dot follows it below `hi`.
pub proof fn lemma_last_dot(s: Seq<char>, hi: int)
    requires
        0 <= hi <= s.len(),
    ensures
        -1 <= last_dot(s, hi) < hi,
        last_dot(s, hi) >= 0 ==> s[last_dot(s, hi)] == '.',
        forall|j: int| last_dot(s, hi) < j < hi ==> #[trigger] s[j] != '.',
    decreases hi,
{
    if 0 < hi && s[hi - 1] != '.' {
        lemma_last_dot(s, hi - 1);
    }
}

/// A file left behind by an interrupted write is never taken for a session:
/// no name that ends in `.tmp` has the extension `json`.
pub proof fn lemma_temp_files_are_not_listed(id: Seq<char>)
    ensures
        !is_session_name(id + ".tmp"@),
{
    reveal_strlit(".tmp");
    reveal_strlit("json");
    let name = id + ".tmp"@;
    let n = name.len() as int;
    lemma_last_dot(name, n);
    let d = last_dot(name, n);
    assert(name[n - 4] == '.');
    assert(name[n - 3] == 't');
    assert(name[n - 2] == 'm');
    assert(name[n - 1] == 'p');
    assert(d >= n - 4);
    assert(d == n - 4);
    assert(name.skip(d + 1).len() == 3);
    assert("json"@.len() == 4);
}

/// The file that a session is put in is taken for a session: a name made of
/// an id and `.json` has the extension `json`, unless the id is empty.
pub proof fn lemma_session_files_are_listed(id: Seq<char>)
    requires
        id.len() > 0,
    ensures
        is_session_name(id + ".json"@),
{
    reveal_strlit(".json");
    reveal_strlit("json");
    let name = id + ".json"@;
    let n = name.len() as int;
    lemma_last_dot(name, n);
    let d = last_dot(name, n);
    assert(name[n - 5] == '.');
    assert(name[n - 4] == 'j');
    assert(name[n - 3] == 's');
    assert(name[n - 2] == 'o');
    assert(name[n - 1] == 'n');
    assert(d >= n - 5);
    assert(d == n - 5);
    assert(name.skip(d + 1) =~= "json"@);
}

impl FileBackend {
    /// The layout under `base_dir`.
    pub fn new(base_dir: &str) -> (r: Self)
        ensures
            r.base()@ == base_dir@,
    {
        FileBackend { base_dir: base_dir.to_owned() }
    }

    /// The base directory.
    pub closed spec fn base(&self) -> String {
        self.base_dir
    }

    /// The base directory.
    pub fn base_dir(&self) -> (r: &str)
        ensures
            r@ == self.base()@,
    {
        self.base_dir.as_str()
    }

    /// The directory that holds the session files.
    pub fn sessions_dir(&self) -> (r: String)
        ensures
            r@ == sessions_dir_of(self.base()@),
    {
        crate::text::concat(self.base_dir.as_str(), "/sessions")
    }

    /// The name of a session's file within the sessions directory.
    pub fn session_file_name(session_id: &str) -> (r: String)
        ensures
            r@ == session_file_name_of(session_id@),
    {
        crate::text::concat(session_id, ".json")
    }

    /// The path of a session's file.
    pub fn session_path(&self, session_id: &str) -> (r: String)
        ensures
            r@ == session_path_of(self.base()@, session_id@),
    {
        let mut out = String::new();
        out.append(self.base_dir.as_str());
        out.append("/sessions/");
        out.append(session_id);
        out.append(".json");
        assert(out@ =~= session_path_of(self.base()@, session_id@));
        out
    }

    /// The path that a session is written to before the rename.
    pub fn temp_path(&self, session_id: &str) -> (r: String)
        ensures
            r@ == temp_path_of(self.base()@, session_id@),
    {
        let mut out = String::new();
        out.append(self.base_dir.as_str());
        out.append("/sessions/");
        out.append(session_id);
        out.append(".tmp");
        assert(out@ =~= temp_path_of(self.base()@, session_id@));
        out
    }

    /// Whether a file name in the sessions directory is that of a session.
    pub fn is_session_file(name: &str) -> (r: bool)
        ensures
            r == is_session_name(name@),
    {
        let v = crate::text::chars_of(name);
        let mut hi: usize = v.len();
        while hi > 0 && v[hi - 1] != '.'
            invariant
                hi <= v.len(),
                last_dot(v@, v@.len() as int) == last_dot(v@, hi as int),
            decreases hi,
        {
            hi -= 1;
        }
        if hi <= 1 {
            return false;
        }
        assert(v@.skip(hi as int).skip(0) == v@.skip(hi as int));
        let json = crate::text::chars_of("json");
        let n = v.len();
        if n - hi != json.len() {
            return false;
        }
        let r = crate::text::matches_at(&v, hi, &json);
        assert(v@.skip(hi as int).subrange(0, json.len() as int) == v@.skip(hi as int));
        r
    }
}

} // verus!
