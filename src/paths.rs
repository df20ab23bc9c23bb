//! Where the cache keeps its files.
use vstd::prelude::*;

verus! {

/// The file that holds the hash snapshot.
pub const HASHES_FILE: &'static str = "hashes.data";

/// The file that holds the dictionary.
pub const WORDS_FILE: &'static str = "words.data";

/// The file that holds the puzzle bank.
pub const PUZZLES_FILE: &'static str = "puzzles.data";

/// The path of the file `name` in the directory `dir`, joined by a `'/'`
/// unless `dir` is empty or already ends with one.
pub open spec fn file_in(dir: Seq<char>, name: Seq<char>) -> Seq<char> {
    if dir.len() == 0 || dir.last() == '/' {
        dir + name
    } else {
        dir + seq!['/'] + name
    }
}

/// The cache directory of the application and the files kept in it.
pub struct Paths {
    cache_dir: String,
}

impl View for Paths {
    type V = Seq<char>;

    closed spec fn view(&self) -> Seq<char> {
        self.cache_dir@
    }
}

fn join(dir: &str, name: &str) -> (path: String)
    ensures
        path@ == file_in(dir@, name@),
{
    let mut path = dir.to_owned();
    if !dir.is_empty() && dir.get_char(dir.unicode_len() - 1) != '/' {
        path.push('/');
    }
    path.append(name);
    path
}

impl Paths {
    /// The paths under the cache directory `cache_dir`.
    pub fn new(cache_dir: String) -> (p: Self)
        ensures
            p@ == cache_dir@,
    {
        Paths { cache_dir }
    }

    /// The cache directory.
    pub fn cache_dir(&self) -> (dir: &str)
        ensures
            dir@ == self@,
    {
        self.cache_dir.as_str()
    }

    /// The file of the hash snapshot.
    pub fn hashes(&self) -> (path: String)
        ensures
            path@ == file_in(self@, HASHES_FILE@),
    {
        join(self.cache_dir.as_str(), HASHES_FILE)
    }

    /// The file of the dictionary.
    pub fn words(&self) -> (path: String)
        ensures
            path@ == file_in(self@, WORDS_FILE@),
    {
        join(self.cache_dir.as_str(), WORDS_FILE)
    }

    /// The file of the puzzle bank.
    pub fn puzzles(&self) -> (path: String)
        ensures
            path@ == file_in(self@, PUZZLES_FILE@),
    {
        join(self.cache_dir.as_str(), PUZZLES_FILE)
    }
}

} // verus!
