//! Stored paths of archive entries, and the test that keeps them inside the
//! destination.
//!
//! A stored path is cut at every `/` and `\`. The pieces that are empty or
//! `.` name nothing and are dropped; what is left are the components that are
//! created below the destination, one directory level each.

use vstd::prelude::*;
use vstd::std_specs::iter::IteratorSpec;

use crate::error::Error;

verus! {

/// The characters that part one level of a stored path from the next.
pub open spec fn is_separator(c: char) -> bool {
    c == '/' || c == '\\'
}

/// The pieces between the separators of `name`, the empty ones too, in order.
pub open spec fn split(name: Seq<char>) -> Seq<Seq<char>>
    decreases name.len(),
{
    if name.len() == 0 {
        seq![Seq::<char>::empty()]
    } else {
        let before = split(name.drop_last());
        if is_separator(name.last()) {
            before.push(Seq::<char>::empty())
        } else {
            before.drop_last().push(before.last().push(name.last()))
        }
    }
}

/// A piece that names a directory level: neither empty nor `.`.
pub open spec fn is_named(piece: Seq<char>) -> bool {
    piece.len() > 0 && piece != seq!['.']
}

/// A piece that names the parent directory: `..`.
pub open spec fn is_parent(piece: Seq<char>) -> bool {
    piece == seq!['.', '.']
}

/// The pieces that name something, in order.
pub open spec fn named(pieces: Seq<Seq<char>>) -> Seq<Seq<char>>
    decreases pieces.len(),
{
    if pieces.len() == 0 {
        pieces
    } else if is_named(pieces.last()) {
        named(pieces.drop_last()).push(pieces.last())
    } else {
        named(pieces.drop_last())
    }
}

/// The components of a stored path.
pub open spec fn components(name: Seq<char>) -> Seq<Seq<char>> {
    named(split(name))
}

/// The stored path starts at a root.
pub open spec fn is_rooted(name: Seq<char>) -> bool {
    name.len() > 0 && is_separator(name[0])
}

/// The stored path starts with a drive letter and a colon.
pub open spec fn has_drive(name: Seq<char>) -> bool {
    &&& name.len() >= 2
    &&& name[1] == ':'
    &&& ('a' <= name[0] <= 'z' || 'A' <= name[0] <= 'Z')
}

/// One of the pieces of the stored path is `..`.
pub open spec fn has_parent(name: Seq<char>) -> bool {
    exists|k: int| 0 <= k < split(name).len() && is_parent(#[trigger] split(name)[k])
}

/// The stored path is absolute or steps to a parent directory, so that
/// joined to a destination it could name something outside of it.
pub open spec fn escapes(name: Seq<char>) -> bool {
    is_rooted(name) || has_drive(name) || has_parent(name)
}

/// The stored path marks a directory: it ends in a separator.
pub open spec fn marks_directory(name: Seq<char>) -> bool {
    name.len() > 0 && is_separator(name.last())
}

/// The characters of each string.
pub open spec fn path_view(path: Seq<String>) -> Seq<Seq<char>> {
    path.map_values(|piece: String| piece@)
}

/// A stored path always has at least one piece.
pub proof fn lemma_split_nonempty(name: Seq<char>)
    ensures
        split(name).len() >= 1,
    decreases name.len(),
{
    if name.len() > 0 {
        lemma_split_nonempty(name.drop_last());
    }
}

/// Every component of a stored path is one of its pieces, names something,
/// and so holds at least one character and is not `.`.
pub proof fn lemma_components_are_pieces(pieces: Seq<Seq<char>>, k: int)
    requires
        0 <= k < named(pieces).len(),
    ensures
        is_named(named(pieces)[k]),
        pieces.contains(named(pieces)[k]),
    decreases pieces.len(),
{
    if pieces.len() > 0 {
        let before = named(pieces.drop_last());
        if k < before.len() {
            lemma_components_are_pieces(pieces.drop_last(), k);
            let j = choose|j: int|
                0 <= j < pieces.drop_last().len() && pieces.drop_last()[j] == before[k];
            assert(pieces[j] == before[k]);
        } else {
            assert(pieces[pieces.len() - 1] == pieces.last());
        }
    }
}

/// No piece of a stored path holds a separator.
pub proof fn lemma_pieces_hold_no_separator(name: Seq<char>, k: int, i: int)
    requires
        0 <= k < split(name).len(),
        0 <= i < split(name)[k].len(),
    ensures
        !is_separator(split(name)[k][i]),
    decreases name.len(),
{
    if name.len() > 0 {
        let before = split(name.drop_last());
        lemma_split_nonempty(name.drop_last());
        if is_separator(name.last()) {
            if k < before.len() {
                lemma_pieces_hold_no_separator(name.drop_last(), k, i);
            }
        } else {
            if k < before.len() - 1 {
                lemma_pieces_hold_no_separator(name.drop_last(), k, i);
            } else if i < before.last().len() {
                lemma_pieces_hold_no_separator(name.drop_last(), k, i);
            }
        }
    }
}

/// `.` and `..` by their characters.
proof fn lemma_dots(piece: Seq<char>)
    ensures
        piece == seq!['.'] <==> piece.len() == 1 && piece[0] == '.',
        is_parent(piece) <==> piece.len() == 2 && piece[0] == '.' && piece[1] == '.',
{
    let one = seq!['.'];
    let two = seq!['.', '.'];
    assert(one.len() == 1 && one[0] == '.');
    assert(two.len() == 2 && two[0] == '.' && two[1] == '.');
    if piece.len() == 1 && piece[0] == '.' {
        assert(piece =~= one);
    }
    if piece.len() == 2 && piece[0] == '.' && piece[1] == '.' {
        assert(piece =~= two);
    }
}

/// Closing the current piece of a scan: what is known of the pieces of a
/// longer text, once the pieces of the text before it are known.
proof fn lemma_split_step(text: Seq<char>)
    requires
        text.len() > 0,
    ensures
        split(text.drop_last()).len() >= 1,
        is_separator(text.last()) ==> split(text) == split(text.drop_last()).push(
            Seq::<char>::empty(),
        ),
        !is_separator(text.last()) ==> split(text) == split(text.drop_last()).drop_last().push(
            split(text.drop_last()).last().push(text.last()),
        ),
{
    lemma_split_nonempty(text.drop_last());
}

/// Reads a stored path into its components.
///
/// Fails with `PathTraversalAttempt` exactly where the stored path is
/// absolute, starts with a drive letter, or holds a `..` piece.
pub fn entry_path(name: &str) -> (result: Result<Vec<String>, Error>)
    ensures
        match result {
            Ok(path) => !escapes(name@) && path_view(path@) == components(name@),
            Err(e) => e == Error::PathTraversalAttempt && escapes(name@),
        },
{
    let total = name.unicode_len();
    if total > 0 {
        let first = name.get_char(0);
        if first == '/' || first == '\\' {
            return Err(Error::PathTraversalAttempt);
        }
        if total > 1 && name.get_char(1) == ':' && (('a' <= first && first <= 'z') || ('A'
            <= first && first <= 'Z')) {
            return Err(Error::PathTraversalAttempt);
        }
    }
    let mut done: Vec<String> = Vec::new();
    let mut start: usize = 0;
    let mut position: usize = 0;
    let mut only_dots = true;
    proof {
        assert(name@.take(0) =~= Seq::<char>::empty());
        assert(split(name@.take(0)).last() =~= name@.subrange(0, 0));
        assert(split(name@.take(0)).drop_last() =~= Seq::<Seq<char>>::empty());
        assert(path_view(done@) =~= named(split(name@.take(0)).drop_last()));
    }
    for c in it: name.chars()
        invariant
            it.seq() == name@,
            position == it.index(),
            total == name@.len(),
            !is_rooted(name@),
            !has_drive(name@),
            0 <= start <= position,
            split(name@.take(position as int)).len() >= 1,
            split(name@.take(position as int)).last() == name@.subrange(
                start as int,
                position as int,
            ),
            path_view(done@) == named(split(name@.take(position as int)).drop_last()),
            forall|k: int|
                0 <= k < split(name@.take(position as int)).len() - 1 ==> !is_parent(
                    #[trigger] split(name@.take(position as int))[k],
                ),
            only_dots <==> forall|k: int| start <= k < position ==> name@[k] == '.',
    {
        let ghost before = name@.take(position as int);
        let ghost after = name@.take(position + 1);
        let ghost piece = name@.subrange(start as int, position as int);
        proof {
            assert(c == name@[position as int]);
            assert(after.drop_last() =~= before);
            assert(after.last() == c);
            lemma_split_step(after);
        }
        if c == '/' || c == '\\' {
            let length = position - start;
            if only_dots && length == 2 {
                proof {
                    lemma_dots(piece);
                    lemma_parent_in_prefix(name@, position as int, split(before).len() - 1);
                }
                return Err(Error::PathTraversalAttempt);
            }
            proof {
                if is_parent(piece) {
                    lemma_dots(piece);
                    assert forall|k: int| start <= k < position implies name@[k] == '.' by {
                        assert(piece[k - start] == name@[k]);
                    }
                }
                assert(split(after).drop_last() =~= split(before));
                assert(split(before).last() == piece);
            }
            if length > 0 && !(only_dots && length == 1) {
                let text = name.substring_char(start, position);
                done.push(text.to_owned());
                proof {
                    lemma_dots(piece);
                    assert(is_named(piece));
                    assert(path_view(done@) =~= named(split(before).drop_last()).push(piece));
                }
            } else {
                proof {
                    lemma_dots(piece);
                    assert(!is_named(piece));
                }
            }
            start = position + 1;
            only_dots = true;
            proof {
                assert(split(after).last() =~= name@.subrange(start as int, position + 1));
            }
        } else {
            proof {
                assert(split(after).last() =~= name@.subrange(start as int, position + 1));
                assert(split(after).drop_last() =~= split(before).drop_last());
            }
            only_dots = only_dots && c == '.';
        }
        position += 1;
    }
    let ghost piece = name@.subrange(start as int, position as int);
    proof {
        assert(name@.take(position as int) =~= name@);
    }
    let length = position - start;
    if only_dots && length == 2 {
        proof {
            lemma_dots(piece);
            assert(is_parent(split(name@)[split(name@).len() - 1]));
        }
        return Err(Error::PathTraversalAttempt);
    }
    proof {
        if is_parent(piece) {
            lemma_dots(piece);
            assert forall|k: int| start <= k < position implies name@[k] == '.' by {
                assert(piece[k - start] == name@[k]);
            }
        }
        assert(split(name@).last() == split(name@)[split(name@).len() - 1]);
        assert(!has_parent(name@));
    }
    if length > 0 && !(only_dots && length == 1) {
        let text = name.substring_char(start, position);
        done.push(text.to_owned());
        proof {
            lemma_dots(piece);
            assert(is_named(piece));
            assert(path_view(done@) =~= named(split(name@).drop_last()).push(piece));
        }
    } else {
        proof {
            lemma_dots(piece);
            assert(!is_named(piece));
        }
    }
    Ok(done)
}

/// A `..` piece of a part of a stored path that a separator closes is a
/// `..` piece of the whole.
proof fn lemma_parent_in_prefix(name: Seq<char>, position: int, k: int)
    requires
        0 <= position < name.len(),
        is_separator(name[position]),
        0 <= k < split(name.take(position)).len(),
        is_parent(split(name.take(position))[k]),
    ensures
        has_parent(name),
{
    let closed = name.take(position + 1);
    assert(closed.drop_last() =~= name.take(position));
    lemma_split_step(closed);
    assert(split(closed)[k] == split(name.take(position))[k]);
    lemma_closed_pieces_stay(name, position + 1, name.len() as int, k);
    assert(name.take(name.len() as int) =~= name);
}

/// The pieces that a separator has closed do not change when the text grows.
proof fn lemma_closed_pieces_stay(name: Seq<char>, short: int, long: int, k: int)
    requires
        0 <= short <= long <= name.len(),
        0 <= k < split(name.take(short)).len() - 1,
    ensures
        split(name.take(long)).len() >= split(name.take(short)).len(),
        split(name.take(long))[k] == split(name.take(short))[k],
    decreases long - short,
{
    if short < long {
        lemma_closed_pieces_stay(name, short, long - 1, k);
        let text = name.take(long);
        assert(text.drop_last() =~= name.take(long - 1));
        lemma_split_step(text);
    }
}

/// The components of a stored path that does not escape are fit to be
/// created below the destination: each holds at least one character, is
/// neither `.` nor `..`, and holds no separator, so that each names exactly
/// one level below the one before it.
pub proof fn law_components_stay_inside(name: Seq<char>, k: int)
    requires
        !escapes(name),
        0 <= k < components(name).len(),
    ensures
        components(name)[k].len() > 0,
        components(name)[k] != seq!['.'],
        !is_parent(components(name)[k]),
        forall|i: int|
            0 <= i < components(name)[k].len() ==> !is_separator(#[trigger] components(name)[k][i]),
{
    let piece = components(name)[k];
    lemma_components_are_pieces(split(name), k);
    let j = choose|j: int| 0 <= j < split(name).len() && split(name)[j] == piece;
    assert(!is_parent(split(name)[j]));
    assert forall|i: int| 0 <= i < piece.len() implies !is_separator(#[trigger] piece[i]) by {
        lemma_pieces_hold_no_separator(name, j, i);
    }
}

/// A stored path that begins with `..` and a separator escapes, whatever
/// follows: `../../etc/passwd` is of this kind.
pub proof fn law_leading_parent_escapes(name: Seq<char>)
    requires
        name.len() >= 3,
        name[0] == '.',
        name[1] == '.',
        is_separator(name[2]),
    ensures
        escapes(name),
{
    let none = name.take(0);
    let one = name.take(1);
    let two = name.take(2);
    let three = name.take(3);
    assert(one.drop_last() =~= none);
    assert(two.drop_last() =~= one);
    assert(three.drop_last() =~= two);
    lemma_split_step(one);
    lemma_split_step(two);
    lemma_split_step(three);
    assert(split(none) =~= seq![Seq::<char>::empty()]);
    assert(split(one)[0] =~= seq!['.']);
    assert(split(two)[0] =~= seq!['.', '.']);
    assert(split(three)[0] == split(two)[0]);
    lemma_closed_pieces_stay(name, 3, name.len() as int, 0);
    assert(name.take(name.len() as int) =~= name);
    assert(is_parent(split(name)[0]));
}

} // verus!
