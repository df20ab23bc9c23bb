//! The word set and the ordered puzzle index built from synchronised text.
use vstd::prelude::*;
use vstd::hash_set::StringHashSet;
use crate::text::{lines_of, record_id, split_lines, parse_record_id};

verus! {

/// What `str::to_lowercase` makes of a string.
pub uninterp spec fn lower_of(s: Seq<char>) -> Seq<char>;

/// Relies on `str::to_lowercase`: the lowercase form of a string depends on
/// its characters alone.
#[verifier::external_body]
fn lowercase(s: &str) -> (r: String)
    ensures
        r@ == lower_of(s@),
{
    s.to_lowercase()
}

/// The dictionary that a text lists, one word per line, in lowercase.
pub open spec fn words_of(text: Seq<char>) -> Set<Seq<char>> {
    lines_of(text).map_values(|line: Seq<char>| lower_of(line)).to_set()
}

/// The puzzles of a list of records, keyed by their id. A record whose id
/// does not read as a `u32` is skipped; of two records with one id, the
/// later one stays.
pub open spec fn puzzle_index(records: Seq<Seq<char>>) -> Map<u32, Seq<char>>
    decreases records.len(),
{
    if records.len() == 0 {
        Map::empty()
    } else {
        let earlier = puzzle_index(records.drop_last());
        match record_id(records.last()) {
            Some(id) => earlier.insert(id, records.last()),
            None => earlier,
        }
    }
}

/// The puzzle bank that a text lists, one record per line.
pub open spec fn puzzles_of(text: Seq<char>) -> Map<u32, Seq<char>> {
    puzzle_index(lines_of(text))
}

/// The least key of `m` that is at least `from`, if there is one.
#[verifier::opaque]
pub open spec fn first_key_from(m: Map<u32, Seq<char>>, from: int) -> Option<u32> {
    if exists|k: u32| m.contains_key(k) && k >= from {
        Some(
            choose|k: u32|
                m.contains_key(k) && k >= from && forall|j: u32|
                    m.contains_key(j) && j >= from ==> k <= j,
        )
    } else {
        None
    }
}

/// The puzzle stored under the least key at or after `from`, if any.
pub open spec fn puzzle_from(m: Map<u32, Seq<char>>, from: int) -> Option<Seq<char>> {
    match first_key_from(m, from) {
        Some(k) => Some(m[k]),
        None => None,
    }
}

/// The abstract content of the cache.
pub struct CacheView {
    pub words: Set<Seq<char>>,
    pub puzzles: Map<u32, Seq<char>>,
}

/// The synchronised content, ready for lookups: the dictionary as a set of
/// lowercase words and the puzzle bank ordered by id.
pub struct CachedData {
    words: StringHashSet,
    puzzles: Vec<(u32, String)>,
    index: Ghost<Map<u32, Seq<char>>>,
}

/// The puzzle asked for and the one after it.
#[derive(Debug)]
pub struct PuzzleBufferedResponse {
    pub puzzle: Option<String>,
    pub next_puzzle: Option<String>,
}

pub open spec fn sorted_by_id(entries: Seq<(u32, String)>) -> bool {
    forall|i: int, j: int| 0 <= i < j < entries.len() ==> entries[i].0 < entries[j].0
}

/// `entries` holds exactly the pairs of `m`, ordered by key.
pub open spec fn indexes(entries: Seq<(u32, String)>, m: Map<u32, Seq<char>>) -> bool {
    &&& sorted_by_id(entries)
    &&& forall|i: int|
        0 <= i < entries.len() ==> m.contains_key(#[trigger] entries[i].0) && m[entries[i].0]
            == entries[i].1@
    &&& forall|k: u32|
        m.contains_key(k) ==> exists|i: int| 0 <= i < entries.len() && #[trigger] entries[i].0 == k
}

impl View for CachedData {
    type V = CacheView;

    closed spec fn view(&self) -> CacheView {
        CacheView { words: self.words@, puzzles: self.index@ }
    }
}

/// The first position whose id is at least `id`.
fn lower_bound(entries: &Vec<(u32, String)>, id: u32) -> (p: usize)
    requires
        sorted_by_id(entries@),
    ensures
        p <= entries.len(),
        forall|i: int| 0 <= i < p ==> entries@[i].0 < id,
        forall|i: int| p <= i < entries.len() ==> entries@[i].0 >= id,
{
    let mut lo: usize = 0;
    let mut hi: usize = entries.len();
    while lo < hi
        invariant
            lo <= hi <= entries.len(),
            sorted_by_id(entries@),
            forall|i: int| 0 <= i < lo ==> entries@[i].0 < id,
            forall|i: int| hi <= i < entries.len() ==> entries@[i].0 >= id,
        decreases hi - lo,
    {
        let mid = lo + (hi - lo) / 2;
        if entries[mid].0 < id {
            lo = mid + 1;
        } else {
            hi = mid;
        }
    }
    lo
}

/// Stores `record` under `id`, replacing what was stored there.
fn insert_entry(
    entries: &mut Vec<(u32, String)>,
    m: Ghost<Map<u32, Seq<char>>>,
    id: u32,
    record: String,
)
    requires
        indexes(old(entries)@, m@),
    ensures
        indexes(final(entries)@, m@.insert(id, record@)),
{
    let ghost rec = record@;
    let p = lower_bound(entries, id);
    let ghost before = entries@;
    let ghost after = m@.insert(id, rec);
    if p < entries.len() && entries[p].0 == id {
        entries.set(p, (id, record));
        assert forall|k: u32| after.contains_key(k) implies exists|i: int|
            0 <= i < entries@.len() && #[trigger] entries@[i].0 == k by {
            if k != id {
                let i = choose|i: int| 0 <= i < before.len() && #[trigger] before[i].0 == k;
                assert(entries@[i].0 == k);
            } else {
                assert(entries@[p as int].0 == k);
            }
        }
    } else {
        entries.insert(p, (id, record));
        assert forall|i: int| 0 <= i < entries@.len() implies after.contains_key(
            #[trigger] entries@[i].0,
        ) && after[entries@[i].0] == entries@[i].1@ by {
            if i < p {
                assert(entries@[i] == before[i]);
            } else if i > p {
                assert(entries@[i] == before[i - 1]);
            }
        }
        assert forall|k: u32| after.contains_key(k) implies exists|i: int|
            0 <= i < entries@.len() && #[trigger] entries@[i].0 == k by {
            if k != id {
                let i = choose|i: int| 0 <= i < before.len() && #[trigger] before[i].0 == k;
                if i < p {
                    assert(entries@[i].0 == k);
                } else {
                    assert(entries@[i + 1].0 == k);
                }
            } else {
                assert(entries@[p as int].0 == k);
            }
        }
    }
}

/// In entries ordered by key, the least key at or after `from` is the one
/// at the first position whose key is at least `from`.
proof fn lemma_first_key(entries: Seq<(u32, String)>, m: Map<u32, Seq<char>>, from: int, p: int)
    requires
        indexes(entries, m),
        0 <= p <= entries.len(),
        forall|i: int| 0 <= i < p ==> entries[i].0 < from,
        forall|i: int| p <= i < entries.len() ==> entries[i].0 >= from,
    ensures
        first_key_from(m, from) == if p < entries.len() {
            Some(entries[p].0)
        } else {
            None::<u32>
        },
{
    reveal(first_key_from);
    if p < entries.len() {
        let k = entries[p].0;
        assert(m.contains_key(k) && k >= from);
        assert forall|j: u32| m.contains_key(j) && j >= from implies k <= j by {
            let i = choose|i: int| 0 <= i < entries.len() && #[trigger] entries[i].0 == j;
            if i != p {
                assert(p < i);
            }
        }
        let c = choose|c: u32|
            m.contains_key(c) && c >= from && forall|j: u32| m.contains_key(j) && j >= from ==> c <= j;
        assert(c <= k && k <= c);
    } else {
        assert forall|k: u32| m.contains_key(k) implies k < from by {
            let i = choose|i: int| 0 <= i < entries.len() && #[trigger] entries[i].0 == k;
        }
    }
}

/// The key that follows the one at position `p` is the one at `p + 1`.
proof fn lemma_next_key(entries: Seq<(u32, String)>, m: Map<u32, Seq<char>>, p: int)
    requires
        indexes(entries, m),
        0 <= p < entries.len(),
    ensures
        first_key_from(m, entries[p].0 + 1) == if p + 1 < entries.len() {
            Some(entries[p + 1].0)
        } else {
            None::<u32>
        },
{
    assert forall|i: int| 0 <= i < p + 1 implies entries[i].0 < entries[p].0 + 1 by {
        if i < p {
            assert(entries[i].0 < entries[p].0);
        }
    }
    assert forall|i: int| p + 1 <= i < entries.len() implies entries[i].0 >= entries[p].0 + 1 by {
        assert(entries[p].0 < entries[i].0);
    }
    lemma_first_key(entries, m, entries[p].0 + 1, p + 1);
}

impl CachedData {
    #[verifier::type_invariant]
    spec fn well_formed(self) -> bool {
        indexes(self.puzzles@, self.index@)
    }

    /// Builds the cache from the text of the dictionary, one word per line,
    /// and the text of the puzzle bank, one `id|...` record per line.
    pub fn new(owned_words: String, owned_puzzles: String) -> (r: Self)
        ensures
            r@.words == words_of(owned_words@),
            r@.puzzles == puzzles_of(owned_puzzles@),
    {
        let word_lines = split_lines(owned_words.as_str());
        let mut words = StringHashSet::new();
        let ghost folded = lines_of(owned_words@).map_values(|line: Seq<char>| lower_of(line));
        for i in 0..word_lines.len()
            invariant
                crate::text::views_of(word_lines@) == lines_of(owned_words@),
                folded == lines_of(owned_words@).map_values(|line: Seq<char>| lower_of(line)),
                words@ == folded.take(i as int).to_set(),
        {
            let word = lowercase(word_lines[i].as_str());
            assert(word_lines@[i as int]@ == lines_of(owned_words@)[i as int]);
            words.insert(word);
            assert(folded.take(i + 1) == folded.take(i as int).push(folded[i as int]));
            proof {
                folded.take(i as int).lemma_push_to_set_commute(folded[i as int]);
            }
        }
        assert(folded.take(word_lines.len() as int) == folded);

        let records = split_lines(owned_puzzles.as_str());
        let ghost lines = lines_of(owned_puzzles@);
        let mut puzzles: Vec<(u32, String)> = Vec::new();
        let mut index: Ghost<Map<u32, Seq<char>>> = Ghost(Map::empty());
        let mut i: usize = 0;
        while i < records.len()
            invariant
                crate::text::views_of(records@) == lines,
                i <= records.len(),
                index@ == puzzle_index(lines.take(i as int)),
                indexes(puzzles@, index@),
            decreases records.len() - i,
        {
            let record = records[i].clone();
            assert(records@[i as int]@ == lines[i as int]);
            assert(lines.take(i + 1).drop_last() == lines.take(i as int));
            match parse_record_id(record.as_str()) {
                Some(id) => {
                    insert_entry(&mut puzzles, index, id, record);
                    index = Ghost(index@.insert(id, lines[i as int]));
                },
                None => {},
            }
            i = i + 1;
        }
        assert(lines.take(records.len() as int) == lines);
        CachedData { words, puzzles, index }
    }

    /// Whether the dictionary holds `folded`, a word already in lowercase.
    pub fn contains_folded(&self, folded: &str) -> (found: bool)
        ensures
            found == self@.words.contains(folded@),
    {
        self.words.contains(folded)
    }

    /// Whether the dictionary holds `word`, whatever its case.
    pub fn find_word(&self, word: &str) -> (found: bool)
        ensures
            found == self@.words.contains(lower_of(word@)),
    {
        let folded = lowercase(word);
        self.contains_folded(folded.as_str())
    }

    /// The puzzle with the least id at or after `id`, and the puzzle with
    /// the next id after that one.
    pub fn load_puzzle_buffered(&self, id: u32) -> (r: PuzzleBufferedResponse)
        ensures
            r.puzzle.deep_view() == puzzle_from(self@.puzzles, id as int),
            r.next_puzzle.deep_view() == match first_key_from(self@.puzzles, id as int) {
                Some(k) => puzzle_from(self@.puzzles, k + 1),
                None => None,
            },
    {
        proof {
            use_type_invariant(self);
        }
        let ghost m = self.index@;
        let p = lower_bound(&self.puzzles, id);
        proof {
            lemma_first_key(self.puzzles@, m, id as int, p as int);
        }
        if p == self.puzzles.len() {
            return PuzzleBufferedResponse { puzzle: None, next_puzzle: None };
        }
        let first = self.puzzles[p].1.clone();
        proof {
            lemma_next_key(self.puzzles@, m, p as int);
        }
        if p + 1 == self.puzzles.len() {
            return PuzzleBufferedResponse { puzzle: Some(first), next_puzzle: None };
        }
        let next = self.puzzles[p + 1].1.clone();
        PuzzleBufferedResponse { puzzle: Some(first), next_puzzle: Some(next) }
    }
}

} // verus!
