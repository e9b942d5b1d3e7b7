//! The configuration of a viewing session, fixed once it is made.

use vstd::prelude::*;

use crate::links::{find_last, last_index_of, lemma_last_index_bound};
use crate::render::ReloadMode;

verus! {

/// The directory that holds the file at `p`: everything before its last
/// separator, `/` when that separator opens the path, and the empty
/// (current) directory when there is none.
pub open spec fn containing_dir(p: Seq<char>) -> Seq<char> {
    let i = last_index_of(p, '/');
    if i < 0 {
        Seq::empty()
    } else if i == 0 {
        seq!['/']
    } else {
        p.subrange(0, i)
    }
}

/// The file shown, the directory that relative links resolve against, and
/// the reload mode: a fixed interval in seconds, or push when there is none.
pub struct Session {
    file_path: String,
    root_dir: String,
    refresh_interval: Option<u64>,
}

impl Session {
    pub closed spec fn spec_file_path(&self) -> Seq<char> {
        self.file_path@
    }

    pub closed spec fn spec_root_dir(&self) -> Seq<char> {
        self.root_dir@
    }

    pub closed spec fn spec_refresh_interval(&self) -> Option<u64> {
        self.refresh_interval
    }

    /// A session for the file at `file_path`; its root directory is the
    /// directory that holds the file.
    pub fn new(file_path: String, refresh_interval: Option<u64>) -> (r: Session)
        ensures
            r.spec_file_path() == file_path@,
            r.spec_root_dir() == containing_dir(file_path@),
            r.spec_refresh_interval() == refresh_interval,
    {
        let n = file_path.as_str().unicode_len();
        proof {
            lemma_last_index_bound(file_path@, '/');
        }
        let root_dir = match find_last(file_path.as_str(), '/') {
            None => String::new(),
            Some(i) => {
                if i == 0 {
                    proof {
                        reveal_strlit("/");
                    }
                    String::from_str("/")
                } else {
                    String::from_str(file_path.as_str().substring_char(0, i))
                }
            },
        };
        assert(n == file_path@.len());
        assert(root_dir@ =~= containing_dir(file_path@));
        Session { file_path, root_dir, refresh_interval }
    }

    /// The file shown.
    pub fn file_path(&self) -> (r: &str)
        ensures
            r@ == self.spec_file_path(),
    {
        self.file_path.as_str()
    }

    /// The directory that relative links and requested paths resolve against.
    pub fn root_dir(&self) -> (r: &str)
        ensures
            r@ == self.spec_root_dir(),
    {
        self.root_dir.as_str()
    }

    /// How the page of the shown file reloads: on a timer when an interval
    /// is set, through the push connection otherwise.
    pub fn reload_mode(&self) -> (r: ReloadMode)
        ensures
            r == (match self.spec_refresh_interval() {
                Some(n) => ReloadMode::Timer(n),
                None => ReloadMode::Push,
            }),
    {
        match self.refresh_interval {
            Some(n) => ReloadMode::Timer(n),
            None => ReloadMode::Push,
        }
    }

    /// The fixed reload interval in seconds, if the page reloads on a timer.
    pub fn refresh_interval(&self) -> (r: Option<u64>)
        ensures
            r == self.spec_refresh_interval(),
    {
        self.refresh_interval
    }
}

} // verus!
