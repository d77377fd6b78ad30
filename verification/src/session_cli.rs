//! Session management: session ids, session files and their listing.
//!
//! Sessions are JSONL files named `<id>.jsonl` in the sessions directory:
//! `$OPI_SESSIONS_DIR` when set, else `~/.local/share/opi/sessions`, else
//! `.opi/sessions`.
use vstd::prelude::*;

use crate::paths::path_join;
use crate::text::{
    chars_of, contains, contains_char, contains_str, extend_str, join, join_chars, rfind_char,
    rfind_char_in, string_of, subvec, views,
};

verus! {

/// Errors from session operations.
#[derive(Debug)]
pub enum SessionCliError {
    /// No session with this id (or the id is unsafe).
    NotFound(String),
    /// The sessions directory could not be read.
    Io(String),
    /// A session file could not be read.
    Corrupt(String),
}

/// A session, for display.
#[derive(Debug)]
pub struct SessionInfo {
    pub id: String,
    pub timestamp: String,
    pub cwd: String,
    pub parent_session: Option<String>,
}

/// `id` may stand in a file name: not empty, no separator, no `..`.
pub open spec fn safe_session_id(id: Seq<char>) -> bool {
    id.len() > 0 && !contains(id, seq!['/']) && !contains(id, seq!['\\']) && !contains(
        id,
        seq!['.', '.'],
    )
}

/// Check that `id` is safe to use as a file name component.
pub fn validate_session_id(id: &str) -> (r: Result<(), SessionCliError>)
    ensures
        safe_session_id(id@) ==> r is Ok,
        !safe_session_id(id@) ==> (r matches Err(SessionCliError::NotFound(x)) && x@ == id@),
{
    let c = chars_of(id);
    proof {
        reveal_strlit("..");
        assert(".."@ =~= seq!['.', '.']);
    }
    if c.len() == 0 || contains_char(&c, '/') || contains_char(&c, '\\') || contains_str(&c, "..") {
        return Err(SessionCliError::NotFound(string_of(&c)));
    }
    Ok(())
}

/// The file of session `id` in directory `dir`.
pub open spec fn session_file_spec(dir: Seq<char>, id: Seq<char>) -> Seq<char> {
    path_join(dir, id + ".jsonl"@)
}

/// The file of session `id` in `dir`, for a safe id.
pub fn session_file(dir: &str, id: &str) -> (r: Result<String, SessionCliError>)
    ensures
        safe_session_id(id@) ==> (r matches Ok(p) && p@ == session_file_spec(dir@, id@)),
        !safe_session_id(id@) ==> (r matches Err(SessionCliError::NotFound(x)) && x@ == id@),
{
    validate_session_id(id)?;
    let mut name = chars_of(id);
    extend_str(&mut name, ".jsonl");
    let n = string_of(&name);
    Ok(crate::paths::join_path(dir, n.as_str()))
}

/// The extension of a file name (`Path::extension`): what follows its last
/// `.`, unless that `.` starts the name or the name is `..`.
pub open spec fn extension_of(name: Seq<char>) -> Option<Seq<char>> {
    if name == seq!['.', '.'] {
        None
    } else {
        match rfind_char(name, '.') {
            None => None,
            Some(i) => if i == 0 {
                None
            } else {
                Some(name.skip(i + 1))
            },
        }
    }
}

/// A found last index lies inside the sequence.
proof fn lemma_rfind_bound(s: Seq<char>, c: char)
    ensures
        rfind_char(s, c) matches Some(i) ==> 0 <= i < s.len(),
    decreases s.len(),
{
    if s.len() > 0 && s.last() != c {
        lemma_rfind_bound(s.drop_last(), c);
    }
}

/// The extension of a file name.
pub fn extension_of_name(name: &[char]) -> (r: Option<Vec<char>>)
    ensures
        match extension_of(name@) {
            Some(e) => r matches Some(x) && x@ == e,
            None => r is None,
        },
{
    if name.len() == 2 && name[0] == '.' && name[1] == '.' {
        assert(name@ =~= seq!['.', '.']);
        return None;
    }
    assert(name@ != seq!['.', '.']);
    proof {
        lemma_rfind_bound(name@, '.');
    }
    match rfind_char_in(name, '.') {
        None => None,
        Some(i) => {
            if i == 0 {
                None
            } else {
                let ext = subvec(name, i + 1, name.len());
                assert(name@.subrange(i + 1, name@.len() as int) =~= name@.skip(i + 1));
                Some(ext)
            }
        },
    }
}

/// A directory entry named `name` is a session file: its extension is
/// `jsonl`.
pub fn is_session_file_name(name: &str) -> (r: bool)
    ensures
        r == (extension_of(name@) == Some("jsonl"@)),
{
    match extension_of_name(&chars_of(name)) {
        None => false,
        Some(ext) => crate::text::str_eq(string_of(&ext).as_str(), "jsonl"),
    }
}

/// The sessions directory: the override when given, else
/// `<home>/.local/share/opi/sessions`, else `.opi/sessions`.
pub open spec fn session_dir_spec(override_dir: Option<Seq<char>>, home: Option<Seq<char>>) -> Seq<
    char,
> {
    match override_dir {
        Some(d) => d,
        None => match home {
            Some(h) => path_join(
                path_join(path_join(path_join(h, ".local"@), "share"@), "opi"@),
                "sessions"@,
            ),
            None => path_join(".opi"@, "sessions"@),
        },
    }
}

/// The sessions directory, given `$OPI_SESSIONS_DIR` and `$HOME`.
pub fn session_dir_from(override_dir: Option<String>, home: Option<String>) -> (r: String)
    ensures
        r@ == session_dir_spec(
            match override_dir {
                Some(d) => Some(d@),
                None => None,
            },
            match home {
                Some(h) => Some(h@),
                None => None,
            },
        ),
{
    match override_dir {
        Some(d) => d,
        None => match home {
            Some(h) => {
                let a = crate::paths::join_path(h.as_str(), ".local");
                let b = crate::paths::join_path(a.as_str(), "share");
                let c = crate::paths::join_path(b.as_str(), "opi");
                crate::paths::join_path(c.as_str(), "sessions")
            },
            None => crate::paths::join_path(".opi", "sessions"),
        },
    }
}

/// The display line of a session: `id  timestamp  cwd`, then
/// `  (parent: <id>)` when it has a parent.
pub open spec fn session_line(s: SessionInfo) -> Seq<char> {
    s.id@ + "  "@ + s.timestamp@ + "  "@ + s.cwd@ + match s.parent_session {
        Some(p) => "  (parent: "@ + p@ + ")"@,
        None => Seq::empty(),
    }
}

/// Format sessions for display, one line each.
pub fn format_sessions(sessions: &[SessionInfo]) -> (r: String)
    ensures
        r@ == join(Seq::new(sessions@.len(), |i: int| session_line(sessions@[i])), "\n"@),
{
    let ghost lines = Seq::new(sessions@.len(), |i: int| session_line(sessions@[i]));
    let mut parts: Vec<Vec<char>> = Vec::new();
    let mut i: usize = 0;
    while i < sessions.len()
        invariant
            i <= sessions@.len(),
            lines == Seq::new(sessions@.len(), |i: int| session_line(sessions@[i])),
            views(parts@) == lines.take(i as int),
            parts@.len() == i,
        decreases sessions.len() - i,
    {
        let s = &sessions[i];
        let mut line = chars_of(s.id.as_str());
        extend_str(&mut line, "  ");
        extend_str(&mut line, s.timestamp.as_str());
        extend_str(&mut line, "  ");
        extend_str(&mut line, s.cwd.as_str());
        match &s.parent_session {
            Some(p) => {
                extend_str(&mut line, "  (parent: ");
                extend_str(&mut line, p.as_str());
                extend_str(&mut line, ")");
            },
            None => {
                assert(line@ =~= line@ + Seq::<char>::empty());
            },
        }
        assert(line@ =~= session_line(sessions@[i as int]));
        let ghost prev = parts@;
        parts.push(line);
        assert forall|j: int| 0 <= j < i implies #[trigger] parts@[j]@ == lines[j] by {
            assert(parts@[j] == prev[j]);
            assert(views(prev)[j] == lines.take(i as int)[j]);
        }
        assert(views(parts@) =~= lines.take(i + 1));
        i += 1;
    }
    assert(lines.take(sessions@.len() as int) =~= lines);
    string_of(&join_chars(&parts, "\n"))
}

} // verus!
