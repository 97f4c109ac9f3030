//! The catalog of known item identifiers: a set of strings, filled once from
//! a text with one identifier per line and only read afterwards.

use vstd::prelude::*;
use vstd::hash_map::StringHashMap;
use crate::text::{chars_of, lemma_split_step, split};

verus! {

/// A line without the carriage return that may end it.
pub open spec fn without_return(line: Seq<char>) -> Seq<char> {
    if line.len() > 0 && line.last() == '\r' {
        line.drop_last()
    } else {
        line
    }
}

/// Each of the given lines without its trailing carriage return.
pub open spec fn without_returns(lines: Seq<Seq<char>>) -> Seq<Seq<char>> {
    lines.map_values(|line: Seq<char>| without_return(line))
}

/// The lines of a text.
///
/// A line ends at a line feed; a carriage return just before that line feed
/// belongs to the line ending. What follows the last line feed is a line of
/// its own, taken as it stands, unless nothing follows.
pub open spec fn lines_of(text: Seq<char>) -> Seq<Seq<char>> {
    let pieces = split(text, '\n');
    let ended = without_returns(pieces.drop_last());
    if pieces.last().len() == 0 {
        ended
    } else {
        ended.push(pieces.last())
    }
}

/// The set of known item identifiers.
pub struct Catalog {
    ids: StringHashMap<()>,
}

impl View for Catalog {
    type V = Set<Seq<char>>;

    closed spec fn view(&self) -> Set<Seq<char>> {
        self.ids@.dom()
    }
}

impl Catalog {
    /// Reads a catalog from a text that lists one identifier per line.
    /// Listing an identifier twice is the same as listing it once.
    pub fn from_lines(text: &str) -> (catalog: Catalog)
        ensures
            catalog@ == lines_of(text@).to_set(),
    {
        let chars = chars_of(text);
        let n = chars.len();
        let mut ids: StringHashMap<()> = StringHashMap::new();
        let mut start: usize = 0;
        let mut i: usize = 0;
        proof {
            assert(chars@.take(0) =~= Seq::<char>::empty());
            assert(split(chars@.take(0), '\n') =~= seq![Seq::<char>::empty()]);
            assert(split(chars@.take(0), '\n').drop_last() =~= Seq::<Seq<char>>::empty());
            assert(chars@.subrange(0, 0) =~= Seq::<char>::empty());
            assert(without_returns(Seq::<Seq<char>>::empty()).to_set() =~= ids@.dom());
        }
        while i < n
            invariant
                n == chars.len(),
                chars@ == text@,
                start <= i <= n,
                split(chars@.take(i as int), '\n').len() >= 1,
                split(chars@.take(i as int), '\n').last() == chars@.subrange(
                    start as int,
                    i as int,
                ),
                ids@.dom() == without_returns(
                    split(chars@.take(i as int), '\n').drop_last(),
                ).to_set(),
            decreases n - i,
        {
            let ghost pieces = split(chars@.take(i as int), '\n');
            proof {
                lemma_split_step(chars@, '\n', i as int);
            }
            if chars[i] == '\n' {
                let end = if start < i && chars[i - 1] == '\r' {
                    i - 1
                } else {
                    i
                };
                let line = text.substring_char(start, end);
                proof {
                    let whole = chars@.subrange(start as int, i as int);
                    assert(line@ =~= without_return(whole));
                    assert(pieces.push(Seq::<char>::empty()).drop_last() =~= pieces);
                    assert(pieces.drop_last().push(pieces.last()) =~= pieces);
                    assert(without_returns(pieces) =~= without_returns(pieces.drop_last()).push(
                        without_return(whole),
                    ));
                    without_returns(pieces.drop_last()).lemma_push_to_set_commute(line@);
                    assert(chars@.subrange(i + 1, i + 1) =~= Seq::<char>::empty());
                }
                ids.insert(line.to_owned(), ());
                assert(ids@.dom() =~= without_returns(pieces).to_set());
                start = i + 1;
            } else {
                proof {
                    let grown = pieces.last().push(chars@[i as int]);
                    assert(pieces.drop_last().push(grown).drop_last() =~= pieces.drop_last());
                    assert(grown =~= chars@.subrange(start as int, i + 1));
                }
            }
            i += 1;
        }
        proof {
            assert(chars@.take(n as int) =~= chars@);
        }
        if start < n {
            let line = text.substring_char(start, n);
            proof {
                let ended = without_returns(split(chars@, '\n').drop_last());
                ended.lemma_push_to_set_commute(line@);
            }
            ids.insert(line.to_owned(), ());
            assert(ids@.dom() =~= lines_of(text@).to_set());
        }
        Catalog { ids }
    }

    /// Tells whether `id` is a known identifier.
    pub fn contains(&self, id: &str) -> (known: bool)
        ensures
            known == self@.contains(id@),
    {
        self.ids.contains_key(id)
    }
}

} // verus!
