//! The pure parts of tab completion: finding the word being completed,
//! deciding whether it is the line's first word (a command name), and
//! matching candidate names by prefix.
//!
//! Reading the line, listing the search-path directories and presenting
//! the candidates are the interpreter's business.

use crate::tokenize::{is_shell_space, shell_space, whitespace_split, ws_step};
use vstd::prelude::*;
use vstd::string::StrSliceExecFns;

verus! {

/// The word being completed: the suffix of `line[..pos]` after the last
/// whitespace character, together with the position where it starts.
pub fn extract_word(line: &str, pos: usize) -> (r: (usize, String))
    requires
        pos <= line@.len(),
    ensures
        r.0 <= pos,
        r.1@ == line@.subrange(r.0 as int, pos as int),
        forall|j: int| r.0 <= j < pos ==> !is_shell_space(#[trigger] line@[j]),
        r.0 > 0 ==> is_shell_space(line@[r.0 - 1]),
{
    let mut start: usize = 0;
    let mut j: usize = 0;
    while j < pos
        invariant
            j <= pos <= line@.len(),
            start <= j,
            forall|k: int| start <= k < j ==> !is_shell_space(#[trigger] line@[k]),
            start > 0 ==> is_shell_space(line@[start - 1]),
        decreases pos - j,
    {
        if shell_space(line.get_char(j)) {
            start = j + 1;
        }
        j = j + 1;
    }
    let word = line.substring_char(start, pos).to_owned();
    (start, word)
}

/// Whether the cursor at `pos` is still on the line's first word (the
/// command name): the prefix before it holds at most one whitespace-
/// separated word.
pub fn completing_first_word(line: &str, pos: usize) -> (r: bool)
    requires
        pos <= line@.len(),
    ensures
        r == (whitespace_split(line@.take(pos as int)).len() <= 1),
{
    let ghost full = line@.take(pos as int);
    let mut count: usize = 0;
    let mut in_word = false;
    let mut j: usize = 0;
    let ghost mut cur: Seq<char> = Seq::empty();
    let ghost mut acc: Seq<Seq<char>> = Seq::empty();
    proof {
        assert(full.skip(0) =~= full);
    }
    while j < pos
        invariant
            j <= pos <= line@.len(),
            full == line@.take(pos as int),
            ws_step(full.skip(j as int), cur, acc) == whitespace_split(full),
            count == acc.len(),
            in_word == (cur.len() > 0),
            count <= j,
        decreases pos - j,
    {
        let ghost pre = full.skip(j as int);
        let ghost cur0 = cur;
        let ghost acc0 = acc;
        let c = line.get_char(j);
        assert(pre[0] == c);
        if shell_space(c) {
            if in_word {
                count = count + 1;
                in_word = false;
                proof {
                    acc = acc0.push(cur0);
                    cur = Seq::empty();
                }
            }
        } else {
            in_word = true;
            proof {
                cur = cur0.push(c);
            }
        }
        proof {
            assert(pre.skip(1) =~= full.skip(j + 1));
        }
        j = j + 1;
    }
    proof {
        assert(full.skip(pos as int) =~= Seq::<char>::empty());
    }
    if in_word {
        count == 0
    } else {
        count <= 1
    }
}

/// `p` is a prefix of `s`, decided character by character.
pub fn starts_with_word(s: &str, p: &str) -> (r: bool)
    ensures
        r == p@.is_prefix_of(s@),
{
    let np = p.unicode_len();
    let ns = s.unicode_len();
    if np > ns {
        return false;
    }
    let mut i: usize = 0;
    while i < np
        invariant
            np == p@.len(),
            ns == s@.len(),
            np <= ns,
            i <= np,
            forall|k: int| 0 <= k < i ==> p@[k] == s@[k],
        decreases np - i,
    {
        if p.get_char(i) != s.get_char(i) {
            assert(!p@.is_prefix_of(s@)) by {
                if p@.is_prefix_of(s@) {
                    assert(p@ == s@.subrange(0, np as int));
                    assert(p@[i as int] == s@.subrange(0, np as int)[i as int]);
                    assert(false);
                }
            }
            return false;
        }
        i = i + 1;
    }
    proof {
        assert(p@ =~= s@.subrange(0, np as int));
    }
    true
}

/// The candidates that start with `word`, kept in their original order.
pub open spec fn prefix_matches_spec(cands: Seq<Seq<char>>, word: Seq<char>) -> Seq<Seq<char>>
    decreases cands.len(),
{
    if cands.len() == 0 {
        Seq::empty()
    } else {
        let rest = prefix_matches_spec(cands.drop_last(), word);
        if word.is_prefix_of(cands.last()) {
            rest.push(cands.last())
        } else {
            rest
        }
    }
}

/// Keeps the candidates that start with `word`, in order.
pub fn filter_prefix(candidates: &Vec<String>, word: &str) -> (out: Vec<String>)
    ensures
        out.deep_view() == prefix_matches_spec(candidates.deep_view(), word@),
{
    let ghost dv = candidates.deep_view();
    let mut out: Vec<String> = Vec::new();
    let mut i: usize = 0;
    proof {
        assert(dv.take(0) =~= Seq::<Seq<char>>::empty());
        assert(out.deep_view() =~= prefix_matches_spec(dv.take(0), word@));
    }
    while i < candidates.len()
        invariant
            i <= candidates@.len(),
            dv == candidates.deep_view(),
            out.deep_view() == prefix_matches_spec(dv.take(i as int), word@),
        decreases candidates@.len() - i,
    {
        let ghost out0 = out.deep_view();
        let ghost stepped = dv.take(i + 1);
        proof {
            assert(stepped.drop_last() =~= dv.take(i as int));
            assert(stepped.last() == dv[i as int]);
        }
        if starts_with_word(candidates[i].as_str(), word) {
            out.push(candidates[i].clone());
            proof {
                assert(out.deep_view() =~= out0.push(dv[i as int]));
            }
        }
        i = i + 1;
    }
    proof {
        assert(dv.take(candidates@.len() as int) =~= dv);
    }
    out
}

} // verus!
