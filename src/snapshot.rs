//! The persisted record of the last confirmed hash of each resource.
use vstd::prelude::*;
use crate::text::field_scan;

verus! {

/// The last confirmed hash of each tracked resource, in their declared
/// order: the dictionary, then the puzzle bank.
#[derive(Debug)]
pub struct HashSnapshot {
    pub words: String,
    pub puzzles: String,
}

impl View for HashSnapshot {
    type V = (Seq<char>, Seq<char>);

    open spec fn view(&self) -> (Seq<char>, Seq<char>) {
        (self.words@, self.puzzles@)
    }
}

/// The text of a snapshot: the two hashes joined by a comma.
pub open spec fn snapshot_text(words: Seq<char>, puzzles: Seq<char>) -> Seq<char> {
    words + seq![','] + puzzles
}

/// What a snapshot text holds: the text before its first comma and the
/// text after it; nothing when it has no comma.
pub open spec fn snapshot_of(text: Seq<char>) -> Option<(Seq<char>, Seq<char>)> {
    let (first, ended) = field_scan(text, ',');
    if ended {
        Some((first, text.skip(first.len() + 1 as int)))
    } else {
        None
    }
}

impl HashSnapshot {
    /// The text to persist for this snapshot.
    pub fn to_text(&self) -> (text: String)
        ensures
            text@ == snapshot_text(self.words@, self.puzzles@),
    {
        let mut text = self.words.clone();
        text.push(',');
        text.append(self.puzzles.as_str());
        text
    }
}

/// Reads a persisted snapshot. An empty or malformed text gives `None`: it
/// holds no prior knowledge.
pub fn parse_hash_snapshot(text: &str) -> (r: Option<HashSnapshot>)
    ensures
        match snapshot_of(text@) {
            Some(pair) => r matches Some(s) && s@ == pair,
            None => r is None,
        },
{
    let mut first = String::new();
    let mut rest = String::new();
    let mut ended = false;
    for c in it: text.chars()
        invariant
            it.seq() == text@,
            field_scan(text@.take(it.index() as int), ',') == (first@, ended),
            ended ==> first@.len() < it.index() && rest@ == text@.take(it.index() as int).skip(
                first@.len() + 1 as int,
            ),
            !ended ==> first@.len() == it.index() && rest@.len() == 0,
    {
        let ghost prefix = text@.take(it.index() as int);
        let ghost next = text@.take(it.index() + 1);
        assert(next.drop_last() == prefix);
        assert(next.last() == c);
        if ended {
            rest.push(c);
            assert(next.skip(first@.len() + 1 as int) == prefix.skip(first@.len() + 1 as int).push(c));
        } else if c == ',' {
            ended = true;
            assert(next.skip(first@.len() + 1 as int).len() == 0);
        } else {
            first.push(c);
        }
    }
    assert(text@.take(text@.len() as int) == text@);
    if ended {
        Some(HashSnapshot { words: first, puzzles: rest })
    } else {
        None
    }
}

/// A written snapshot reads back as the hashes it was written from, as long
/// as the dictionary hash holds no comma.
pub proof fn lemma_snapshot_round_trip(words: Seq<char>, puzzles: Seq<char>)
    requires
        !words.contains(','),
    ensures
        snapshot_of(snapshot_text(words, puzzles)) == Some((words, puzzles)),
{
    lemma_scan_stops_at_first(words, puzzles);
    assert(snapshot_text(words, puzzles).skip(words.len() + 1 as int) == puzzles);
}

/// A text without a comma, such as a snapshot cut off before the end of its
/// first hash, holds no snapshot.
pub proof fn lemma_no_comma_no_snapshot(text: Seq<char>)
    requires
        !text.contains(','),
    ensures
        snapshot_of(text) is None,
{
    lemma_scan_without_separator(text);
}

proof fn lemma_scan_without_separator(s: Seq<char>)
    requires
        !s.contains(','),
    ensures
        field_scan(s, ',') == (s, false),
    decreases s.len(),
{
    if s.len() > 0 {
        assert(!s.drop_last().contains(',')) by {
            if s.drop_last().contains(',') {
                let i = choose|i: int| 0 <= i < s.drop_last().len() && s.drop_last()[i] == ',';
                assert(s[i] == ',');
            }
        }
        lemma_scan_without_separator(s.drop_last());
        assert(s.last() != ',') by {
            assert(s[s.len() - 1] == s.last());
        }
        assert(s.drop_last().push(s.last()) == s);
    }
}

proof fn lemma_scan_stops_at_first(words: Seq<char>, rest: Seq<char>)
    requires
        !words.contains(','),
    ensures
        field_scan(words + seq![','] + rest, ',') == (words, true),
    decreases rest.len(),
{
    if rest.len() == 0 {
        lemma_scan_without_separator(words);
        assert((words + seq![','] + rest).drop_last() == words);
    } else {
        lemma_scan_stops_at_first(words, rest.drop_last());
        assert((words + seq![','] + rest).drop_last() == words + seq![','] + rest.drop_last());
    }
}

} // verus!
