//! Lexical normalisation of file paths, as the controller applies it to
//! coefficient file names that cannot be canonicalised on disk.
use crate::text::{chars_of, split_char, split_on_char, string_of};
use vstd::prelude::*;

verus! {

/// The stack of normal components after reading `pieces` (the `/`-separated
/// pieces of a path) onto `stack`: empty pieces and `.` are skipped, `..`
/// drops the last normal component if there is one, anything else is pushed.
pub open spec fn fold_pieces(stack: Seq<Seq<char>>, pieces: Seq<Seq<char>>) -> Seq<Seq<char>>
    decreases pieces.len(),
{
    if pieces.len() == 0 {
        stack
    } else {
        let x = pieces[0];
        let next = if x == Seq::<char>::empty() || x == "."@ {
            stack
        } else if x == ".."@ {
            if stack.len() > 0 {
                stack.drop_last()
            } else {
                stack
            }
        } else {
            stack.push(x)
        };
        fold_pieces(next, pieces.drop_first())
    }
}

/// Components joined with `/`.
pub open spec fn join_slash(s: Seq<Seq<char>>) -> Seq<char>
    decreases s.len(),
{
    if s.len() == 0 {
        Seq::empty()
    } else if s.len() == 1 {
        s[0]
    } else {
        join_slash(s.drop_last()) + seq!['/'] + s.last()
    }
}

/// `path` with `.` and `..` resolved without looking at the file system:
/// a leading `/` is kept, repeated separators collapse, and `..` above the
/// first component is dropped.
pub open spec fn normalized(path: Seq<char>) -> Seq<char> {
    let rest = join_slash(fold_pieces(Seq::empty(), split_char(path, '/')));
    if path.len() > 0 && path[0] == '/' {
        seq!['/'] + rest
    } else {
        rest
    }
}

fn is_piece(p: &Vec<char>, s: &str) -> (b: bool)
    ensures
        b == (p@ == s@),
{
    let t = chars_of(s);
    if p.len() != t.len() {
        return false;
    }
    let mut i: usize = 0;
    while i < p.len()
        invariant
            t@ == s@,
            p.len() == t.len(),
            i <= p.len(),
            forall|k: int| 0 <= k < i ==> p@[k] == t@[k],
        decreases p.len() - i,
    {
        if p[i] != t[i] {
            assert(p@[i as int] != t@[i as int]);
            return false;
        }
        i = i + 1;
    }
    assert(p@ =~= t@);
    true
}

fn join_pieces(s: &Vec<Vec<char>>) -> (r: Vec<char>)
    ensures
        r@ == join_slash(s.deep_view()),
{
    let mut r: Vec<char> = Vec::new();
    let mut i: usize = 0;
    let ghost all = s.deep_view();
    while i < s.len()
        invariant
            i <= s.len(),
            all == s.deep_view(),
            all.len() == s.len(),
            forall|k: int| 0 <= k < s.len() ==> #[trigger] all[k] == s@[k]@,
            r@ == join_slash(all.take(i as int)),
        decreases s.len() - i,
    {
        let ghost before = r@;
        if i > 0 {
            r.push('/');
        }
        let mut j: usize = 0;
        let ghost mid = r@;
        while j < s[i].len()
            invariant
                i < s.len(),
                j <= s@[i as int].len(),
                r@ == mid + s@[i as int]@.take(j as int),
            decreases s@[i as int].len() - j,
        {
            r.push(s[i][j]);
            assert(s@[i as int]@.take(j + 1) =~= s@[i as int]@.take(j as int).push(s@[i as int]@[j as int]));
            j = j + 1;
        }
        proof {
            assert(s@[i as int]@.take(j as int) =~= s@[i as int]@);
            let t = all.take(i + 1);
            assert(t.drop_last() =~= all.take(i as int));
            assert(t.last() == all[i as int]);
            if i == 0 {
                assert(mid =~= Seq::<char>::empty());
                assert(r@ =~= t[0]);
            } else {
                assert(r@ =~= before + seq!['/'] + all[i as int]);
            }
        }
        i = i + 1;
    }
    assert(all.take(s.len() as int) =~= all);
    r
}

/// Resolve `.` and `..` components of `path` without requiring it to exist.
pub fn normalize_path(path: &str) -> (r: String)
    ensures
        r@ == normalized(path@),
{
    let cs = chars_of(path);
    let parts = split_on_char(cs.as_slice(), '/');
    let ghost ps = split_char(path@, '/');
    let mut stack: Vec<Vec<char>> = Vec::new();
    let mut i: usize = 0;
    assert(ps.skip(0) =~= ps);
    assert(stack.deep_view() =~= Seq::<Seq<char>>::empty());
    while i < parts.len()
        invariant
            ps == split_char(path@, '/'),
            parts.deep_view() == ps,
            parts@.len() == ps.len(),
            i <= parts.len(),
            fold_pieces(stack.deep_view(), ps.skip(i as int)) == fold_pieces(Seq::empty(), ps),
        decreases parts.len() - i,
    {
        let ghost sv = stack.deep_view();
        assert(ps.skip(i as int)[0] == ps[i as int]);
        assert(ps.skip(i as int).drop_first() =~= ps.skip(i + 1));
        assert(parts.deep_view()[i as int] == parts@[i as int]@);
        let piece = &parts[i];
        if piece.len() == 0 || is_piece(piece, ".") {
            assert(piece@.len() == 0 ==> piece@ =~= Seq::<char>::empty());
        } else if is_piece(piece, "..") {
            assert(piece@ != Seq::<char>::empty());
            if stack.len() > 0 {
                stack.pop();
                assert(stack.deep_view() =~= sv.drop_last());
            }
        } else {
            assert(piece@ != Seq::<char>::empty());
            stack.push(piece.clone());
            assert(stack.deep_view() =~= sv.push(ps[i as int]));
        }
        i = i + 1;
    }
    assert(ps.skip(parts.len() as int) =~= Seq::<Seq<char>>::empty());
    let joined = join_pieces(&stack);
    if cs.len() > 0 && cs[0] == '/' {
        let mut out = vec!['/'];
        let mut k: usize = 0;
        while k < joined.len()
            invariant
                k <= joined.len(),
                out@ == seq!['/'] + joined@.take(k as int),
            decreases joined.len() - k,
        {
            out.push(joined[k]);
            assert(joined@.take(k + 1) =~= joined@.take(k as int).push(joined@[k as int]));
            k = k + 1;
        }
        assert(joined@.take(joined.len() as int) =~= joined@);
        string_of(out.as_slice())
    } else {
        string_of(joined.as_slice())
    }
}

} // verus!
