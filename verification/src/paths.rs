//! Paths, read component by component.
//!
//! A path is UTF-8 text with `/` between its components, as on the systems that terminal multiplexers
//! run on: a backslash is a character like any other, and there are no drives. Two texts are the same
//! path where their components are the same: repeated separators, separators at the end and `.` behind
//! the start say nothing.

use vstd::prelude::*;
use crate::text;

verus! {

/// What stands between the separators of a path, the empty pieces included.
pub open spec fn pieces(path: Seq<char>) -> Seq<Seq<char>>
    decreases path.len(),
{
    if path.len() == 0 {
        seq![Seq::empty()]
    } else {
        let before = pieces(path.drop_last());
        if path.last() == '/' {
            before.push(Seq::empty())
        } else {
            before.drop_last().push(before.last().push(path.last()))
        }
    }
}

/// The pieces that count: the empty ones do not, and `.` only as the first.
pub open spec fn counting(pieces: Seq<Seq<char>>) -> Seq<Seq<char>>
    decreases pieces.len(),
{
    if pieces.len() == 0 {
        Seq::empty()
    } else if pieces.last().len() == 0 || (pieces.last() == "."@ && pieces.len() > 1) {
        counting(pieces.drop_last())
    } else {
        counting(pieces.drop_last()).push(pieces.last())
    }
}

/// The root, where the path begins at it.
pub open spec fn root(path: Seq<char>) -> Seq<Seq<char>> {
    if path.len() > 0 && path[0] == '/' {
        seq!["/"@]
    } else {
        Seq::empty()
    }
}

/// The components of a path: the root as `/`, then the pieces that count.
pub open spec fn components(path: Seq<char>) -> Seq<Seq<char>> {
    root(path) + counting(pieces(path))
}

/// Whether two texts are the same path.
pub open spec fn same_path(a: Seq<char>, b: Seq<char>) -> bool {
    components(a) == components(b)
}

/// The last component of a path, where it is a name: nothing for the root, `.` and `..`.
pub open spec fn file_name(path: Seq<char>) -> Seq<char> {
    let parts = components(path);
    if parts.len() == 0 || parts.last() == "/"@ || parts.last() == "."@ || parts.last() == ".."@ {
        Seq::empty()
    } else {
        parts.last()
    }
}

/// What each of the texts reads.
pub open spec fn readings(texts: Seq<String>) -> Seq<Seq<char>> {
    Seq::new(texts.len(), |i: int| texts[i]@)
}

/// What stands between the separators of a path.
fn split(path: &Vec<char>) -> (r: Vec<String>)
    ensures
        readings(r@) == pieces(path@),
{
    let mut r: Vec<String> = Vec::new();
    let mut current: String = String::new();
    let mut i: usize = 0;
    proof {
        assert(readings(r@).push(current@) =~= pieces(path@.take(0)));
    }
    while i < path.len()
        invariant
            i <= path@.len(),
            readings(r@).push(current@) == pieces(path@.take(i as int)),
        decreases path@.len() - i,
    {
        let c = path[i];
        let ghost done = readings(r@);
        let ghost piece = current@;
        proof {
            assert(path@.take(i + 1).drop_last() == path@.take(i as int));
            assert(path@.take(i + 1).last() == c);
        }
        if c == '/' {
            r.push(current);
            current = String::new();
            proof {
                assert(readings(r@) =~= done.push(piece));
                assert(current@ =~= Seq::empty());
            }
        } else {
            current.push(c);
            assert(done.push(piece).drop_last() =~= done);
        }
        i = i + 1;
    }
    assert(path@.take(i as int) == path@);
    let ghost done = readings(r@);
    let ghost piece = current@;
    r.push(current);
    assert(readings(r@) =~= done.push(piece));
    r
}

/// The components of a path.
pub fn components_of(path: &str) -> (r: Vec<String>)
    ensures
        readings(r@) == components(path@),
{
    let chars = text::to_chars(path);
    let split = split(&chars);
    let mut r: Vec<String> = Vec::new();
    if chars.len() > 0 && chars[0] == '/' {
        r.push("/".to_owned());
    }
    let ghost all = pieces(path@);
    let mut i: usize = 0;
    proof {
        assert(readings(r@) =~= root(path@));
        assert(all.take(0) =~= Seq::empty());
        assert(root(path@) + counting(all.take(0)) =~= root(path@));
    }
    while i < split.len()
        invariant
            i <= split@.len(),
            readings(split@) == all,
            readings(r@) == root(path@) + counting(all.take(i as int)),
        decreases split@.len() - i,
    {
        let ghost done = readings(r@);
        let piece = &split[i];
        proof {
            assert(all.len() == split@.len());
            assert(all[i as int] == piece@);
            assert(all.take(i + 1).drop_last() == all.take(i as int));
            assert(all.take(i + 1).last() == piece@);
        }
        if !piece.as_str().is_empty() && !(i > 0 && text::same_text(piece.as_str(), ".")) {
            r.push(piece.clone());
            proof {
                assert(readings(r@) =~= done.push(piece@));
                assert(root(path@) + counting(all.take(i + 1)) =~= (root(path@) + counting(
                    all.take(i as int),
                )).push(piece@));
            }
        }
        i = i + 1;
    }
    assert(all.len() == split@.len());
    assert(all.take(i as int) == all);
    r
}

/// Whether two texts are the same path.
pub fn is_same_path(a: &str, b: &str) -> (r: bool)
    ensures
        r == same_path(a@, b@),
{
    let x = components_of(a);
    let y = components_of(b);
    proof {
        assert(components(a@).len() == x@.len());
        assert(components(b@).len() == y@.len());
    }
    if x.len() != y.len() {
        return false;
    }
    let mut i: usize = 0;
    while i < x.len()
        invariant
            i <= x@.len(),
            x@.len() == y@.len(),
            readings(x@) == components(a@),
            readings(y@) == components(b@),
            forall|j: int| 0 <= j < i ==> (#[trigger] x@[j])@ == y@[j]@,
        decreases x@.len() - i,
    {
        if x[i] != y[i] {
            proof {
                assert(readings(x@)[i as int] == x@[i as int]@);
                assert(readings(y@)[i as int] == y@[i as int]@);
            }
            return false;
        }
        i = i + 1;
    }
    assert(readings(x@) =~= readings(y@));
    true
}

/// The last component of a path, where it is a name.
pub fn file_name_of(path: &str) -> (r: String)
    ensures
        r@ == file_name(path@),
{
    let parts = components_of(path);
    proof {
        assert(components(path@).len() == parts@.len());
    }
    if parts.len() == 0 {
        return String::new();
    }
    let last = parts[parts.len() - 1].clone();
    assert(readings(parts@).last() == last@);
    if text::same_text(last.as_str(), "/") || text::same_text(last.as_str(), ".")
        || text::same_text(last.as_str(), "..") {
        return String::new();
    }
    last
}

proof fn lemma_pieces(path: Seq<char>)
    ensures
        pieces(path).len() > 0,
    decreases path.len(),
{
    if path.len() > 0 {
        lemma_pieces(path.drop_last());
    }
}

/// A separator at the end of a path says nothing, and neither does a `.` behind it.
pub proof fn law_trailing_separators_say_nothing(path: Seq<char>)
    requires
        path.len() > 0,
    ensures
        same_path(path.push('/'), path),
        same_path(path.push('/').push('.'), path),
        file_name(path.push('/')) == file_name(path),
{
    let a = path.push('/');
    let b = a.push('.');
    assert(a.drop_last() == path);
    assert(b.drop_last() == a);
    lemma_pieces(path);
    let p = pieces(path);
    let pa = pieces(a);
    assert(pa == p.push(Seq::empty()));
    assert(pa.drop_last() == p);
    assert(counting(pa) == counting(p));
    let pb = pieces(b);
    reveal_strlit(".");
    assert(Seq::<char>::empty().push('.') =~= "."@);
    assert(pb == p.push("."@)) by {
        assert(pa.drop_last() == p);
    }
    assert(pb.drop_last() == p);
    assert(counting(pb) == counting(p));
}

/// The components of a path, from its last piece on: an empty piece and a `.` add nothing, every other
/// one adds itself; alone, a piece is its own only component, and behind the root there is the root.
pub proof fn law_pieces_are_components(path: Seq<char>, piece: Seq<char>)
    requires
        !piece.contains('/'),
    ensures
        components(piece) == (if piece.len() == 0 {
            Seq::empty()
        } else {
            seq![piece]
        }),
        components(seq!['/'] + piece) == (if piece.len() == 0 || piece == "."@ {
            seq!["/"@]
        } else {
            seq!["/"@, piece]
        }),
        path.len() > 0 ==> components(path.push('/') + piece) == (if piece.len() == 0 || piece
            == "."@ {
            components(path)
        } else {
            components(path).push(piece)
        }),
{
    lemma_last_piece(Seq::empty(), piece);
    assert(Seq::<char>::empty() + piece == piece);
    assert(pieces(Seq::empty()).drop_last() =~= Seq::<Seq<char>>::empty());
    assert(pieces(piece) =~= seq![piece]);
    assert(seq![piece].drop_last() =~= Seq::<Seq<char>>::empty());
    assert(counting(Seq::<Seq<char>>::empty()) =~= Seq::<Seq<char>>::empty());
    if piece.len() > 0 {
        assert(piece.contains(piece[0]));
        assert(counting(seq![piece]) =~= seq![piece]);
    } else {
        assert(counting(seq![piece]) =~= Seq::<Seq<char>>::empty());
    }
    assert(root(piece) =~= Seq::<Seq<char>>::empty());
    assert(components(piece) =~= (if piece.len() == 0 {
        Seq::empty()
    } else {
        seq![piece]
    }));
    lemma_behind_separator(Seq::empty(), piece);
    assert(Seq::<char>::empty().push('/') =~= seq!['/']);
    assert(counting(pieces(Seq::empty())) =~= Seq::empty()) by {
        assert(pieces(Seq::empty()).drop_last() =~= Seq::<Seq<char>>::empty());
    }
    assert(components(seq!['/'] + piece) =~= (if piece.len() == 0 || piece == "."@ {
        seq!["/"@]
    } else {
        seq!["/"@, piece]
    }));
    if path.len() > 0 {
        lemma_behind_separator(path, piece);
        assert((path.push('/') + piece)[0] == path[0]);
        assert(components(path.push('/') + piece) =~= (if piece.len() == 0 || piece == "."@ {
            components(path)
        } else {
            components(path).push(piece)
        }));
    }
}

/// Characters that are no separators go to the last piece.
proof fn lemma_last_piece(path: Seq<char>, piece: Seq<char>)
    requires
        !piece.contains('/'),
    ensures
        pieces(path + piece) == pieces(path).drop_last().push(pieces(path).last() + piece),
    decreases piece.len(),
{
    lemma_pieces(path);
    let whole = path + piece;
    if piece.len() == 0 {
        assert(whole =~= path);
        assert(pieces(path).last() + piece =~= pieces(path).last());
        assert(pieces(path).drop_last().push(pieces(path).last()) =~= pieces(path));
    } else {
        let front = piece.drop_last();
        assert(!front.contains('/')) by {
            if front.contains('/') {
                let i = choose|i: int| 0 <= i < front.len() && front[i] == '/';
                assert(piece[i] == '/');
            }
        }
        assert(piece.contains(piece.last()));
        lemma_last_piece(path, front);
        assert(whole.drop_last() =~= path + front);
        assert(whole.last() == piece.last());
        assert((pieces(path).last() + front).push(piece.last()) =~= pieces(path).last() + piece);
        let before = pieces(path + front);
        assert(before.drop_last() =~= pieces(path).drop_last());
    }
}

proof fn lemma_behind_separator(path: Seq<char>, piece: Seq<char>)
    requires
        !piece.contains('/'),
    ensures
        counting(pieces(path.push('/') + piece)) == (if piece.len() == 0 || piece == "."@ {
            counting(pieces(path))
        } else {
            counting(pieces(path)).push(piece)
        }),
{
    let a = path.push('/');
    assert(a.drop_last() =~= path);
    lemma_pieces(path);
    assert(pieces(a) == pieces(path).push(Seq::empty()));
    lemma_last_piece(a, piece);
    assert(pieces(a).drop_last() =~= pieces(path));
    assert(Seq::<char>::empty() + piece =~= piece);
    assert(pieces(a + piece) =~= pieces(path).push(piece));
    assert(pieces(path).push(piece).drop_last() =~= pieces(path));
}

/// The last piece of a path names its directory, unless it is `..`; an empty one and `.` leave the
/// name to what stands before them, and the root has none.
pub proof fn law_last_piece_is_the_name(path: Seq<char>, piece: Seq<char>)
    requires
        path.len() > 0,
        !piece.contains('/'),
    ensures
        file_name(Seq::empty()).len() == 0,
        file_name(seq!['/']).len() == 0,
        piece.len() == 0 || piece == "."@ ==> file_name(path.push('/') + piece) == file_name(path),
        piece == ".."@ ==> file_name(path.push('/') + piece).len() == 0,
        piece.len() > 0 && piece != "."@ && piece != ".."@ ==> file_name(path.push('/') + piece)
            == piece && file_name(seq!['/'] + piece) == piece && file_name(piece) == piece,
{
    law_pieces_are_components(path, piece);
    law_pieces_are_components(path, Seq::empty());
    assert(seq!['/'] + Seq::<char>::empty() =~= seq!['/']);
    reveal_strlit("/");
    reveal_strlit(".");
    reveal_strlit("..");
    if piece == "/"@ {
        assert(piece[0] == '/');
    }
}

/// Two texts are the same path exactly where their components are the same, one by one.
pub proof fn law_same_paths_have_the_same_components(a: Seq<char>, b: Seq<char>)
    ensures
        same_path(a, b) <==> components(a).len() == components(b).len() && forall|i: int|
            0 <= i < components(a).len() ==> (#[trigger] components(a)[i]) == components(b)[i],
{
    if components(a).len() == components(b).len() && forall|i: int|
        0 <= i < components(a).len() ==> (#[trigger] components(a)[i]) == components(b)[i] {
        assert(components(a) =~= components(b));
    }
}

} // verus!
