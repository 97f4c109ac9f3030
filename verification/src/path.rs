//! The parts of a `/`-separated path that an item view is built from: the
//! file name, its extension and its stem.
//!
//! A path is read as its pieces between slashes. Empty pieces and pieces that
//! are a single dot name nothing, so `a//b/./` ends in the name `b`. A path
//! whose last naming piece is `..` has no file name.

use vstd::prelude::*;
use crate::text::{chars_of, lemma_split_around_separator, lemma_split_step, lemma_split_whole, split};

verus! {

/// A piece of a path names something unless it is empty or a single dot.
pub open spec fn counts_as_name(piece: Seq<char>) -> bool {
    piece.len() > 0 && piece != seq!['.']
}

/// Those of the given pieces that name something, in order.
pub open spec fn candidates_among(pieces: Seq<Seq<char>>) -> Seq<Seq<char>> {
    pieces.filter(|piece: Seq<char>| counts_as_name(piece))
}

/// The final component of the path: its last naming piece, unless there is
/// none or it is `..`.
pub open spec fn file_name_of(path: Seq<char>) -> Option<Seq<char>> {
    let candidates = candidates_among(split(path, '/'));
    if candidates.len() == 0 || candidates.last() == seq!['.', '.'] {
        None
    } else {
        Some(candidates.last())
    }
}

/// The extension carried by a file name: what follows its last dot, provided
/// something stands before that dot.
pub open spec fn extension_in(name: Seq<char>) -> Option<Seq<char>> {
    let parts = split(name, '.');
    if parts.len() < 2 || parts.last().len() + 1 == name.len() {
        None
    } else {
        Some(parts.last())
    }
}

/// The extension of the path's file name, if it has both.
pub open spec fn extension_of(path: Seq<char>) -> Option<Seq<char>> {
    match file_name_of(path) {
        Some(name) => extension_in(name),
        None => None,
    }
}

/// The file name without its extension and the dot before it.
pub open spec fn file_stem_of(path: Seq<char>) -> Option<Seq<char>> {
    match file_name_of(path) {
        Some(name) => match extension_in(name) {
            Some(ext) => Some(name.take(name.len() - ext.len() - 1)),
            None => Some(name),
        },
        None => None,
    }
}

/// A text that can stand as the final component of a path as it is: not
/// empty, free of slashes, and neither `.` nor `..`.
pub open spec fn is_plain_name(name: Seq<char>) -> bool {
    &&& name.len() > 0
    &&& !name.contains('/')
    &&& name != seq!['.']
    &&& name != seq!['.', '.']
}

/// Adding one more piece to a list either adds a candidate or changes nothing.
proof fn lemma_candidates_push(pieces: Seq<Seq<char>>, piece: Seq<char>)
    ensures
        candidates_among(pieces.push(piece)) == if counts_as_name(piece) {
            candidates_among(pieces).push(piece)
        } else {
            candidates_among(pieces)
        },
{
    pieces.lemma_filter_push(piece, |piece: Seq<char>| counts_as_name(piece));
}

/// Tells whether `chars[from..to]` names something.
fn range_counts_as_name(chars: &Vec<char>, from: usize, to: usize) -> (counts: bool)
    requires
        from <= to <= chars.len(),
    ensures
        counts == counts_as_name(chars@.subrange(from as int, to as int)),
{
    let ghost piece = chars@.subrange(from as int, to as int);
    if to == from {
        false
    } else if to - from == 1 && chars[from] == '.' {
        assert(piece =~= seq!['.']);
        false
    } else {
        assert(piece != seq!['.']) by {
            if piece == seq!['.'] {
                assert(piece.len() == 1);
                assert(piece[0] == '.');
            }
        }
        true
    }
}

/// Finds where the file name lies among the characters of a path.
fn name_bounds(chars: &Vec<char>) -> (bounds: Option<(usize, usize)>)
    ensures
        match bounds {
            Some((from, to)) => from < to <= chars.len() && file_name_of(chars@) == Some(
                chars@.subrange(from as int, to as int),
            ),
            None => file_name_of(chars@) is None,
        },
{
    let n = chars.len();
    let mut start: usize = 0;
    let mut found: Option<(usize, usize)> = None;
    let mut i: usize = 0;
    proof {
        assert(chars@.take(0) =~= Seq::<char>::empty());
        assert(split(chars@.take(0), '/') =~= seq![Seq::<char>::empty()]);
        assert(split(chars@.take(0), '/').drop_last() =~= Seq::<Seq<char>>::empty());
        assert(chars@.subrange(0, 0) =~= Seq::<char>::empty());
        reveal(Seq::filter);
    }
    while i < n
        invariant
            n == chars.len(),
            start <= i <= n,
            split(chars@.take(i as int), '/').len() >= 1,
            split(chars@.take(i as int), '/').last() == chars@.subrange(start as int, i as int),
            match found {
                Some((a, b)) => {
                    &&& a < b <= i
                    &&& candidates_among(split(chars@.take(i as int), '/').drop_last()).len() > 0
                    &&& candidates_among(split(chars@.take(i as int), '/').drop_last()).last()
                        == chars@.subrange(a as int, b as int)
                },
                None => candidates_among(split(chars@.take(i as int), '/').drop_last()).len() == 0,
            },
        decreases n - i,
    {
        let ghost pieces = split(chars@.take(i as int), '/');
        proof {
            lemma_split_step(chars@, '/', i as int);
        }
        if chars[i] == '/' {
            let counts = range_counts_as_name(chars, start, i);
            proof {
                lemma_candidates_push(pieces.drop_last(), pieces.last());
                assert(pieces.drop_last().push(pieces.last()) =~= pieces);
                assert(pieces.push(Seq::<char>::empty()).drop_last() =~= pieces);
                assert(chars@.subrange(i + 1, i + 1) =~= Seq::<char>::empty());
            }
            if counts {
                found = Some((start, i));
            }
            start = i + 1;
        } else {
            proof {
                let grown = pieces.last().push(chars@[i as int]);
                assert(pieces.drop_last().push(grown).drop_last() =~= pieces.drop_last());
                assert(grown =~= chars@.subrange(start as int, i + 1));
            }
        }
        i += 1;
    }
    let ghost pieces = split(chars@, '/');
    proof {
        assert(chars@.take(n as int) =~= chars@);
        lemma_candidates_push(pieces.drop_last(), pieces.last());
        assert(pieces.drop_last().push(pieces.last()) =~= pieces);
    }
    if range_counts_as_name(chars, start, n) {
        found = Some((start, n));
    }
    match found {
        None => None,
        Some((a, b)) => {
            let ghost name = chars@.subrange(a as int, b as int);
            if b - a == 2 && chars[a] == '.' && chars[a + 1] == '.' {
                assert(name =~= seq!['.', '.']);
                None
            } else {
                assert(name != seq!['.', '.']) by {
                    if name == seq!['.', '.'] {
                        assert(name.len() == 2);
                        assert(name[0] == '.' && name[1] == '.');
                    }
                }
                Some((a, b))
            }
        },
    }
}

/// Finds the last dot of `chars[from..to]`, if it holds one.
fn last_dot(chars: &Vec<char>, from: usize, to: usize) -> (dot: Option<usize>)
    requires
        from <= to <= chars.len(),
    ensures
        match dot {
            Some(d) => {
                &&& from <= d < to
                &&& split(chars@.subrange(from as int, to as int), '.').len() >= 2
                &&& split(chars@.subrange(from as int, to as int), '.').last() == chars@.subrange(
                    d + 1,
                    to as int,
                )
            },
            None => split(chars@.subrange(from as int, to as int), '.').len() == 1,
        },
{
    let ghost name = chars@.subrange(from as int, to as int);
    let mut dot: Option<usize> = None;
    let mut i: usize = from;
    proof {
        assert(name.take(0) =~= Seq::<char>::empty());
        assert(split(name.take(0), '.') =~= seq![Seq::<char>::empty()]);
        assert(chars@.subrange(from as int, from as int) =~= Seq::<char>::empty());
    }
    while i < to
        invariant
            from <= i <= to <= chars.len(),
            name == chars@.subrange(from as int, to as int),
            match dot {
                Some(d) => {
                    &&& from <= d < i
                    &&& split(name.take(i - from), '.').len() >= 2
                    &&& split(name.take(i - from), '.').last() == chars@.subrange(d + 1, i as int)
                },
                None => {
                    &&& split(name.take(i - from), '.').len() == 1
                    &&& split(name.take(i - from), '.').last() == chars@.subrange(
                        from as int,
                        i as int,
                    )
                },
            },
        decreases to - i,
    {
        proof {
            lemma_split_step(name, '.', i - from);
            assert(name[i - from] == chars@[i as int]);
        }
        let ghost pieces = split(name.take(i - from), '.');
        if chars[i] == '.' {
            proof {
                assert(chars@.subrange(i + 1, i + 1) =~= Seq::<char>::empty());
            }
            dot = Some(i);
        } else {
            proof {
                let grown = pieces.last().push(chars@[i as int]);
                match dot {
                    Some(d) => {
                        assert(grown =~= chars@.subrange(d + 1, i + 1));
                    },
                    None => {
                        assert(grown =~= chars@.subrange(from as int, i + 1));
                    },
                }
            }
        }
        i += 1;
    }
    proof {
        assert(name.take(to - from) =~= name);
    }
    dot
}

/// Finds where the extension of the name `chars[from..to]` begins.
fn extension_start(chars: &Vec<char>, from: usize, to: usize) -> (begin: Option<usize>)
    requires
        from < to <= chars.len(),
    ensures
        match begin {
            Some(b) => from + 2 <= b <= to && extension_in(
                chars@.subrange(from as int, to as int),
            ) == Some(chars@.subrange(b as int, to as int)),
            None => extension_in(chars@.subrange(from as int, to as int)) is None,
        },
{
    match last_dot(chars, from, to) {
        Some(d) => if d == from {
            None
        } else {
            Some(d + 1)
        },
        None => None,
    }
}

/// The final component of `path`, as a slice of it.
pub fn file_name<'a>(path: &'a str) -> (name: Option<&'a str>)
    ensures
        match name {
            Some(n) => file_name_of(path@) == Some(n@),
            None => file_name_of(path@) is None,
        },
{
    let chars = chars_of(path);
    match name_bounds(&chars) {
        Some((from, to)) => Some(path.substring_char(from, to)),
        None => None,
    }
}

/// The extension of `path`, as a slice of it.
pub fn extension<'a>(path: &'a str) -> (ext: Option<&'a str>)
    ensures
        match ext {
            Some(e) => extension_of(path@) == Some(e@),
            None => extension_of(path@) is None,
        },
{
    let chars = chars_of(path);
    match name_bounds(&chars) {
        Some((from, to)) => {
            assert(chars@.subrange(from as int, to as int).subrange(0, to - from)
                =~= chars@.subrange(from as int, to as int));
            match extension_start(&chars, from, to) {
                Some(begin) => Some(path.substring_char(begin, to)),
                None => None,
            }
        },
        None => None,
    }
}

/// The file name of `path` without its extension, as a slice of it.
pub fn file_stem<'a>(path: &'a str) -> (stem: Option<&'a str>)
    ensures
        match stem {
            Some(s) => file_stem_of(path@) == Some(s@),
            None => file_stem_of(path@) is None,
        },
{
    let chars = chars_of(path);
    match name_bounds(&chars) {
        Some((from, to)) => {
            let ghost name = chars@.subrange(from as int, to as int);
            match extension_start(&chars, from, to) {
                Some(begin) => {
                    assert(name.take(name.len() - (to - begin) - 1) =~= chars@.subrange(
                        from as int,
                        begin - 1,
                    ));
                    Some(path.substring_char(from, begin - 1))
                },
                None => Some(path.substring_char(from, to)),
            }
        },
        None => None,
    }
}

/// A plain name is the file name of the path that ends in it, whatever
/// directories stand before it, and of the path that consists of it alone.
pub proof fn lemma_file_name_of_plain_name(dir: Seq<char>, name: Seq<char>)
    requires
        is_plain_name(name),
    ensures
        file_name_of(name) == Some(name),
        file_name_of(dir + seq!['/'] + name) == Some(name),
{
    lemma_split_whole(name, '/');
    lemma_split_around_separator(dir, name, '/');
    let alone = Seq::<Seq<char>>::empty();
    assert(alone.push(name) =~= seq![name]);
    assert(split(dir, '/').push(name) =~= split(dir, '/') + seq![name]);
    lemma_candidates_push(alone, name);
    lemma_candidates_push(split(dir, '/'), name);
}

/// A name made of a stem, a dot and a dotless extension has that extension,
/// provided the stem is not empty.
pub proof fn lemma_extension_in_dotted_name(stem: Seq<char>, ext: Seq<char>)
    requires
        stem.len() > 0,
        !ext.contains('.'),
    ensures
        extension_in(stem + seq!['.'] + ext) == Some(ext),
        (stem + seq!['.'] + ext).take(stem.len() as int) == stem,
{
    lemma_split_whole(ext, '.');
    lemma_split_around_separator(stem, ext, '.');
    crate::text::lemma_split_nonempty(stem, '.');
    assert((stem + seq!['.'] + ext).take(stem.len() as int) =~= stem);
}

/// A name without a dot has no extension, and neither has one whose only dot
/// comes first.
pub proof fn lemma_extension_in_dotless_name(name: Seq<char>)
    requires
        !name.contains('.'),
    ensures
        extension_in(name) is None,
        extension_in(seq!['.'] + name) is None,
{
    lemma_split_whole(name, '.');
    lemma_split_around_separator(Seq::<char>::empty(), name, '.');
    assert(Seq::<char>::empty() + seq!['.'] + name =~= seq!['.'] + name);
    assert(split(Seq::<char>::empty(), '.') =~= seq![Seq::<char>::empty()]);
}

/// The parts of a path that ends in `stem.ext`: the file name is `stem.ext`,
/// the extension `ext` and the stem `stem`, whatever directories stand before.
/// The stem must not be empty, and the name not be `..`.
pub proof fn lemma_parts_of_dotted_path(dir: Seq<char>, stem: Seq<char>, ext: Seq<char>)
    requires
        stem.len() > 0,
        !stem.contains('/'),
        !ext.contains('/'),
        !ext.contains('.'),
        stem + seq!['.'] + ext != seq!['.', '.'],
    ensures
        file_name_of(dir + seq!['/'] + (stem + seq!['.'] + ext)) == Some(stem + seq!['.'] + ext),
        extension_of(dir + seq!['/'] + (stem + seq!['.'] + ext)) == Some(ext),
        file_stem_of(dir + seq!['/'] + (stem + seq!['.'] + ext)) == Some(stem),
        file_name_of(stem + seq!['.'] + ext) == Some(stem + seq!['.'] + ext),
        extension_of(stem + seq!['.'] + ext) == Some(ext),
        file_stem_of(stem + seq!['.'] + ext) == Some(stem),
{
    let name = stem + seq!['.'] + ext;
    assert(!name.contains('/')) by {
        if name.contains('/') {
            let k = choose|k: int| 0 <= k < name.len() && name[k] == '/';
            if k < stem.len() {
                assert(stem[k] == '/');
            } else if k > stem.len() {
                assert(ext[k - stem.len() - 1] == '/');
            }
        }
    }
    assert(name != seq!['.']) by {
        assert(name.len() >= 2);
        assert(seq!['.'].len() == 1);
    }
    lemma_file_name_of_plain_name(dir, name);
    lemma_extension_in_dotted_name(stem, ext);
}

} // verus!
