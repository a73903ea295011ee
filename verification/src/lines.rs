//! Splitting text into lines (`str::lines`) and into whitespace-separated
//! fields (`str::split_whitespace`).

use vstd::prelude::*;

use crate::unicode::{is_whitespace, is_whitespace_spec};

verus! {

pub open spec fn views(pieces: Seq<Vec<char>>) -> Seq<Seq<char>> {
    pieces.map_values(|piece: Vec<char>| piece@)
}

/// The fields completed so far and the field being read, after `s`.
pub open spec fn fields_scan(s: Seq<char>) -> (Seq<Seq<char>>, Seq<char>)
    decreases s.len(),
{
    if s.len() == 0 {
        (Seq::empty(), Seq::empty())
    } else {
        let (done, current) = fields_scan(s.drop_last());
        if is_whitespace_spec(s.last()) {
            if current.len() > 0 {
                (done.push(current), Seq::empty())
            } else {
                (done, Seq::empty())
            }
        } else {
            (done, current.push(s.last()))
        }
    }
}

/// The maximal runs of non-whitespace characters of `s`, in order.
pub open spec fn fields_spec(s: Seq<char>) -> Seq<Seq<char>> {
    let (done, current) = fields_scan(s);
    if current.len() > 0 {
        done.push(current)
    } else {
        done
    }
}

/// A line without its `\r\n` or `\n` terminator.
pub open spec fn strip_cr(line: Seq<char>) -> Seq<char> {
    if line.len() > 0 && line.last() == '\r' {
        line.drop_last()
    } else {
        line
    }
}

/// The lines completed so far and the line being read, after `s`.
pub open spec fn lines_scan(s: Seq<char>) -> (Seq<Seq<char>>, Seq<char>)
    decreases s.len(),
{
    if s.len() == 0 {
        (Seq::empty(), Seq::empty())
    } else {
        let (done, current) = lines_scan(s.drop_last());
        if s.last() == '\n' {
            (done.push(strip_cr(current)), Seq::empty())
        } else {
            (done, current.push(s.last()))
        }
    }
}

/// The lines of `s`: split at each `\n` (dropping a `\r` just before it),
/// with no empty line after a final `\n`.
pub open spec fn lines_spec(s: Seq<char>) -> Seq<Seq<char>> {
    let (done, current) = lines_scan(s);
    if current.len() > 0 {
        done.push(current)
    } else {
        done
    }
}

fn take_piece(current: &mut Vec<char>) -> (piece: Vec<char>)
    ensures
        piece@ == old(current)@,
        final(current)@ == Seq::<char>::empty(),
{
    let mut piece: Vec<char> = Vec::new();
    std::mem::swap(&mut piece, current);
    piece
}

/// `s.split_whitespace()`, collected.
pub fn split_fields(s: &[char]) -> (fields: Vec<Vec<char>>)
    ensures
        views(fields@) == fields_spec(s@),
{
    let mut done: Vec<Vec<char>> = Vec::new();
    let mut current: Vec<char> = Vec::new();
    let mut index: usize = 0;
    while index < s.len()
        invariant
            index <= s@.len(),
            (views(done@), current@) == fields_scan(s@.take(index as int)),
        decreases s@.len() - index,
    {
        let c = s[index];
        proof {
            assert(s@.take(index + 1).drop_last() =~= s@.take(index as int));
        }
        let ghost before = views(done@);
        if is_whitespace(c) {
            if current.len() > 0 {
                let piece = take_piece(&mut current);
                done.push(piece);
                assert(views(done@) =~= before.push(piece@));
            }
        } else {
            current.push(c);
        }
        index += 1;
    }
    assert(s@.take(s@.len() as int) =~= s@);
    if current.len() > 0 {
        let ghost before = views(done@);
        done.push(current);
        assert(views(done@) =~= before.push(current@));
    }
    done
}

/// `s.lines()`, collected.
pub fn split_lines(s: &[char]) -> (lines: Vec<Vec<char>>)
    ensures
        views(lines@) == lines_spec(s@),
{
    let mut done: Vec<Vec<char>> = Vec::new();
    let mut current: Vec<char> = Vec::new();
    let mut index: usize = 0;
    while index < s.len()
        invariant
            index <= s@.len(),
            (views(done@), current@) == lines_scan(s@.take(index as int)),
        decreases s@.len() - index,
    {
        let c = s[index];
        proof {
            assert(s@.take(index + 1).drop_last() =~= s@.take(index as int));
        }
        let ghost before = views(done@);
        if c == '\n' {
            let mut piece = take_piece(&mut current);
            let ghost unstripped = piece@;
            if piece.len() > 0 && piece[piece.len() - 1] == '\r' {
                piece.pop();
            }
            assert(piece@ =~= strip_cr(unstripped));
            done.push(piece);
            assert(views(done@) =~= before.push(piece@));
        } else {
            current.push(c);
        }
        index += 1;
    }
    assert(s@.take(s@.len() as int) =~= s@);
    if current.len() > 0 {
        let ghost before = views(done@);
        done.push(current);
        assert(views(done@) =~= before.push(current@));
    }
    done
}

/// Whether `s` begins with `prefix`.
pub fn starts_with(s: &[char], prefix: &[char]) -> (starts: bool)
    ensures
        starts == (prefix@.len() <= s@.len() && s@.take(prefix@.len() as int) == prefix@),
{
    if prefix.len() > s.len() {
        return false;
    }
    let mut index: usize = 0;
    while index < prefix.len()
        invariant
            index <= prefix@.len() <= s@.len(),
            forall|i: int| 0 <= i < index ==> s@[i] == prefix@[i],
        decreases prefix@.len() - index,
    {
        if s[index] != prefix[index] {
            assert(s@.take(prefix@.len() as int)[index as int] != prefix@[index as int]);
            return false;
        }
        index += 1;
    }
    assert(s@.take(prefix@.len() as int) =~= prefix@);
    true
}

/// Whether `a` and `b` hold the same characters.
pub fn chars_eq(a: &[char], b: &[char]) -> (equal: bool)
    ensures
        equal == (a@ == b@),
{
    if a.len() != b.len() {
        return false;
    }
    let mut index: usize = 0;
    while index < a.len()
        invariant
            index <= a@.len() == b@.len(),
            forall|i: int| 0 <= i < index ==> a@[i] == b@[i],
        decreases a@.len() - index,
    {
        if a[index] != b[index] {
            return false;
        }
        index += 1;
    }
    assert(a@ =~= b@);
    true
}

} // verus!
