//! The messages attached to token transfers to the relay: fields separated by commas.
use vstd::prelude::*;
use vstd::string::*;

verus! {

/// The pieces of `s` between the occurrences of `c`, as `str::split` gives them.
pub open spec fn split_on(s: Seq<char>, c: char) -> Seq<Seq<char>>
    decreases s.len(),
{
    if s.len() == 0 {
        seq![Seq::empty()]
    } else {
        let p = split_on(s.drop_last(), c);
        if s.last() == c {
            p.push(Seq::empty())
        } else {
            p.update(p.len() - 1, p.last().push(s.last()))
        }
    }
}

/// Splitting always gives at least one piece.
pub proof fn lemma_split_nonempty(s: Seq<char>, c: char)
    ensures
        split_on(s, c).len() >= 1,
    decreases s.len(),
{
    if s.len() > 0 {
        lemma_split_nonempty(s.drop_last(), c);
    }
}

/// The pieces `p` joined, with `c` between each two.
pub open spec fn join_with(p: Seq<Seq<char>>, c: char) -> Seq<char>
    decreases p.len(),
{
    if p.len() <= 1 {
        if p.len() == 1 {
            p[0]
        } else {
            Seq::empty()
        }
    } else {
        join_with(p.drop_last(), c).push(c) + p.last()
    }
}

/// Splitting a text at `c` and joining the pieces with `c` gives the text back, and no piece
/// holds `c`.
pub proof fn law_split_then_join(s: Seq<char>, c: char)
    ensures
        join_with(split_on(s, c), c) == s,
        forall|i: int, j: int| 0 <= i < split_on(s, c).len() && 0 <= j < split_on(s, c)[i].len() ==> split_on(s, c)[i][j] != c,
    decreases s.len(),
{
    if s.len() > 0 {
        let d = s.drop_last();
        law_split_then_join(d, c);
        lemma_split_nonempty(d, c);
        let p = split_on(d, c);
        let q = split_on(s, c);
        if s.last() == c {
            assert(q.drop_last() =~= p);
            assert(join_with(q, c) =~= join_with(p, c).push(c));
            assert(s =~= d.push(c));
        } else {
            if p.len() == 1 {
                assert(join_with(q, c) =~= p[0].push(s.last()));
            } else {
                assert(q.drop_last() =~= p.drop_last());
                assert(join_with(q, c) =~= join_with(p, c).push(s.last()));
            }
            assert(s =~= d.push(s.last()));
            assert forall|i: int, j: int| 0 <= i < q.len() && 0 <= j < q[i].len() implies q[i][j] != c by {
                if i == q.len() - 1 && j == q[i].len() - 1 {
                } else if i == q.len() - 1 {
                    assert(q[i][j] == p[i][j]);
                }
            }
        }
    }
}

/// The fields of a message: the pieces between its commas.
pub open spec fn message_fields(msg: Seq<char>) -> Seq<Seq<char>> {
    split_on(msg, ',')
}

/// Splits a message at its commas.
pub fn split_message(msg: &String) -> (r: Vec<String>)
    ensures
        r@.map_values(|p: String| p@) == message_fields(msg@),
{
    let s = msg.as_str();
    let n = s.unicode_len();
    let mut pieces: Vec<String> = Vec::new();
    let mut start: usize = 0;
    let mut i: usize = 0;
    assert(msg@.subrange(0, 0) =~= Seq::<char>::empty());
    while i < n
        invariant
            n == s@.len(),
            s@ == msg@,
            start <= i <= n,
            split_on(s@.subrange(0, i as int), ',') == pieces@.map_values(|p: String| p@).push(
                s@.subrange(start as int, i as int),
            ),
        decreases n - i,
    {
        let ghost before = pieces@.map_values(|p: String| p@);
        proof {
            let t = s@.subrange(0, i + 1);
            assert(t.drop_last() =~= s@.subrange(0, i as int));
            assert(t.last() == s@[i as int]);
        }
        if s.get_char(i) == ',' {
            let piece = String::from_str(s.substring_char(start, i));
            pieces.push(piece);
            assert(pieces@.map_values(|p: String| p@) =~= before.push(s@.subrange(start as int, i as int)));
            start = i + 1;
            proof {
                assert(s@.subrange(start as int, i + 1) =~= Seq::<char>::empty());
            }
        } else {
            proof {
                assert(s@.subrange(start as int, i + 1) =~= s@.subrange(start as int, i as int).push(s@[i as int]));
                let p = before.push(s@.subrange(start as int, i as int));
                assert(p.update(p.len() - 1, p.last().push(s@[i as int])) =~= before.push(
                    s@.subrange(start as int, i + 1),
                ));
            }
        }
        i = i + 1;
    }
    let ghost before = pieces@.map_values(|p: String| p@);
    let last = String::from_str(s.substring_char(start, n));
    pieces.push(last);
    assert(s@.subrange(0, n as int) =~= s@);
    assert(pieces@.map_values(|p: String| p@) =~= before.push(s@.subrange(start as int, n as int)));
    pieces
}

/// Whether two texts are the same.
pub fn text_eq(a: &str, b: &str) -> (r: bool)
    ensures
        r == (a@ == b@),
{
    let n = a.unicode_len();
    if n != b.unicode_len() {
        return false;
    }
    let mut i: usize = 0;
    while i < n
        invariant
            n == a@.len(),
            n == b@.len(),
            i <= n,
            forall|j: int| 0 <= j < i ==> a@[j] == b@[j],
        decreases n - i,
    {
        if a.get_char(i) != b.get_char(i) {
            return false;
        }
        i = i + 1;
    }
    assert(a@ =~= b@);
    true
}

} // verus!
