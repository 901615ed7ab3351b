use vstd::prelude::*;

verus! {

/// The piece `.`.
pub open spec fn is_dot(seg: Seq<u8>) -> bool {
    seg == seq![46u8]
}

/// The piece `..`.
pub open spec fn is_dot_dot(seg: Seq<u8>) -> bool {
    seg == seq![46u8, 46u8]
}

/// Adds one piece of a split path to the segments kept so far: an empty piece
/// or `.` is skipped, `..` drops the last kept segment (if any), anything else
/// is kept.
pub open spec fn push_piece(segs: Seq<Seq<u8>>, piece: Seq<u8>) -> Seq<Seq<u8>> {
    if piece.len() == 0 || is_dot(piece) {
        segs
    } else if is_dot_dot(piece) {
        if segs.len() == 0 {
            segs
        } else {
            segs.drop_last()
        }
    } else {
        segs.push(piece)
    }
}

/// Scanning `path` from the left: the segments kept from the pieces already
/// closed by a `/`, and the piece still open.
pub open spec fn scan(path: Seq<u8>) -> (Seq<Seq<u8>>, Seq<u8>)
    decreases path.len(),
{
    if path.len() == 0 {
        (Seq::empty(), Seq::empty())
    } else {
        let (segs, piece) = scan(path.drop_last());
        if path.last() == 47u8 {
            (push_piece(segs, piece), Seq::empty())
        } else {
            (segs, piece.push(path.last()))
        }
    }
}

/// The normalised segments of `path`: the pieces between `/` separators, with
/// empty and `.` pieces removed and each `..` cancelling the segment before it.
pub open spec fn segments_spec(path: Seq<u8>) -> Seq<Seq<u8>> {
    push_piece(scan(path).0, scan(path).1)
}

/// The byte strings that a vector of segments holds.
pub open spec fn views(v: Seq<Vec<u8>>) -> Seq<Seq<u8>> {
    v.map_values(|s: Vec<u8>| s@)
}

fn push_piece_exec(segs: &mut Vec<Vec<u8>>, piece: Vec<u8>)
    ensures
        views(final(segs)@) == push_piece(views(old(segs)@), piece@),
{
    let n = piece.len();
    if n == 0 || (n == 1 && piece[0] == 46u8) {
        assert(n == 1 ==> piece@ =~= seq![46u8]);
        return;
    }
    assert(piece@ =~= seq![46u8] ==> n == 1);
    if n == 2 && piece[0] == 46u8 && piece[1] == 46u8 {
        assert(piece@ =~= seq![46u8, 46u8]);
        if segs.len() > 0 {
            segs.pop();
            assert(views(segs@) =~= views(old(segs)@).drop_last());
        }
        return;
    }
    assert(piece@ =~= seq![46u8, 46u8] ==> n == 2 && piece@[0] == 46u8 && piece@[1] == 46u8);
    segs.push(piece);
    assert(views(segs@) =~= views(old(segs)@).push(piece@));
}

/// Splits `path` on `/` and normalises it: empty and `.` segments are
/// dropped and `..` removes the segment before it.
pub fn segments(path: &[u8]) -> (r: Vec<Vec<u8>>)
    ensures
        views(r@) == segments_spec(path@),
{
    let mut segs: Vec<Vec<u8>> = Vec::new();
    let mut piece: Vec<u8> = Vec::new();
    let mut i: usize = 0;
    assert(views(segs@) =~= Seq::<Seq<u8>>::empty());
    while i < path.len()
        invariant
            0 <= i <= path@.len(),
            (views(segs@), piece@) == scan(path@.subrange(0, i as int)),
        decreases path@.len() - i,
    {
        let b = path[i];
        assert(path@.subrange(0, i + 1).drop_last() =~= path@.subrange(0, i as int));
        if b == 47u8 {
            push_piece_exec(&mut segs, piece);
            piece = Vec::new();
        } else {
            piece.push(b);
        }
        i = i + 1;
    }
    assert(path@.subrange(0, path@.len() as int) =~= path@);
    push_piece_exec(&mut segs, piece);
    segs
}

} // verus!
