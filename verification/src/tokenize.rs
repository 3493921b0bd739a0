//! Turns one raw input line into an ordered sequence of shell words,
//! resolving quoting and escaping and splitting out redirection operators.
//!
//! The tokenizer is a three-state machine (`Normal`, inside single quotes,
//! inside double quotes).  Its complete behaviour is captured by the
//! recursive specification [`tok_step`]; the executable [`tokenize`] is
//! proved to return exactly that sequence of words.

use crate::strutil::chars_to_string;
use vstd::prelude::*;
use vstd::string::StrSliceExecFns;

verus! {

/// The characters the tokenizer treats as word separators: the Unicode
/// `White_Space` set.
pub open spec fn is_shell_space(c: char) -> bool {
    let u = c as u32;
    (9 <= u && u <= 13) || u == 32 || u == 0x85 || u == 0xA0 || u == 0x1680 || (0x2000 <= u && u
        <= 0x200A) || u == 0x2028 || u == 0x2029 || u == 0x202F || u == 0x205F || u == 0x3000
}

/// Decides [`is_shell_space`].
pub fn shell_space(c: char) -> (r: bool)
    ensures
        r == is_shell_space(c),
{
    let u = c as u32;
    (9 <= u && u <= 13) || u == 32 || u == 0x85 || u == 0xA0 || u == 0x1680 || (0x2000 <= u && u
        <= 0x200A) || u == 0x2028 || u == 0x2029 || u == 0x202F || u == 0x205F || u == 0x3000
}

/// An ASCII decimal digit, as found in the file-descriptor prefix of a
/// redirection operator such as `2>`.
pub open spec fn is_ascii_digit_char(c: char) -> bool {
    48 <= c as u32 && c as u32 <= 57
}

/// Decides [`is_ascii_digit_char`].
pub fn ascii_digit(c: char) -> (r: bool)
    ensures
        r == is_ascii_digit_char(c),
{
    let u = c as u32;
    48 <= u && u <= 57
}

/// One run of the tokenizer state machine over the remaining input `s`,
/// with `in_single`/`in_double` the quoting state, `cur` the pending
/// partial word and `acc` the words already emitted.  Evaluated per
/// character:
///
/// - a backslash outside single quotes takes the following character
///   verbatim (a trailing backslash is dropped);
/// - a single quote outside double quotes toggles the single-quote state
///   and is not kept; a double quote outside single quotes likewise;
/// - `>` in the `Normal` state emits a redirection operator token: a
///   pending final ASCII digit is peeled off as a file-descriptor prefix,
///   any remaining pending word is flushed first, and an immediately
///   following `>` turns the operator into its append form;
/// - whitespace in the `Normal` state flushes the pending word;
/// - anything else extends the pending word.
///
/// At the end of the input a non-empty pending word is flushed; an open
/// quote at that point is simply left open, not an error.
pub open spec fn tok_step(
    s: Seq<char>,
    in_single: bool,
    in_double: bool,
    cur: Seq<char>,
    acc: Seq<Seq<char>>,
) -> Seq<Seq<char>>
    decreases s.len(),
{
    if s.len() == 0 {
        if cur.len() == 0 {
            acc
        } else {
            acc.push(cur)
        }
    } else {
        let c = s[0];
        if c == '\\' && !in_single {
            if s.len() >= 2 {
                tok_step(s.skip(2), in_single, in_double, cur.push(s[1]), acc)
            } else {
                tok_step(s.skip(1), in_single, in_double, cur, acc)
            }
        } else if c == '\'' && !in_double {
            tok_step(s.skip(1), !in_single, in_double, cur, acc)
        } else if c == '"' && !in_single {
            tok_step(s.skip(1), in_single, !in_double, cur, acc)
        } else if c == '>' && !in_single && !in_double {
            let peeled = cur.len() > 0 && is_ascii_digit_char(cur.last());
            let word = if peeled {
                cur.drop_last()
            } else {
                cur
            };
            let opfd = if peeled {
                seq![cur.last()]
            } else {
                Seq::<char>::empty()
            };
            let acc1 = if word.len() > 0 {
                acc.push(word)
            } else {
                acc
            };
            if s.len() >= 2 && s[1] == '>' {
                tok_step(s.skip(2), in_single, in_double, Seq::empty(), acc1.push(opfd.push('>').push('>')))
            } else {
                tok_step(s.skip(1), in_single, in_double, Seq::empty(), acc1.push(opfd.push('>')))
            }
        } else if is_shell_space(c) && !in_single && !in_double {
            if cur.len() == 0 {
                tok_step(s.skip(1), in_single, in_double, cur, acc)
            } else {
                tok_step(s.skip(1), in_single, in_double, Seq::empty(), acc.push(cur))
            }
        } else {
            tok_step(s.skip(1), in_single, in_double, cur.push(c), acc)
        }
    }
}

/// The words of one input line, in order.
pub open spec fn tokenize_spec(s: Seq<char>) -> Seq<Seq<char>> {
    tok_step(s, false, false, Seq::empty(), Seq::empty())
}

/// Tokenizes shell input into a vector of words, honoring quotes, escapes
/// and redirection operators.
pub fn tokenize(input: &str) -> (tokens: Vec<String>)
    ensures
        tokens.deep_view() == tokenize_spec(input@),
{
    let n = input.unicode_len();
    let mut tokens: Vec<String> = Vec::new();
    let mut cur: Vec<char> = Vec::new();
    let mut in_single = false;
    let mut in_double = false;
    let mut i: usize = 0;
    proof {
        assert(input@.skip(0) =~= input@);
        assert(tokens.deep_view() =~= Seq::<Seq<char>>::empty());
    }
    while i < n
        invariant
            n == input@.len(),
            i <= n,
            tok_step(input@.skip(i as int), in_single, in_double, cur@, tokens.deep_view())
                == tokenize_spec(input@),
        decreases n - i,
    {
        let ghost pre = input@.skip(i as int);
        let ghost sq0 = in_single;
        let ghost dq0 = in_double;
        let ghost cur0 = cur@;
        let ghost dv0 = tokens.deep_view();
        let c = input.get_char(i);
        assert(pre[0] == c);
        if c == '\\' && !in_single {
            if i + 1 < n {
                let nx = input.get_char(i + 1);
                cur.push(nx);
                proof {
                    assert(pre[1] == nx);
                    assert(pre.skip(2) =~= input@.skip(i + 2));
                    assert(tok_step(pre, sq0, dq0, cur0, dv0) == tok_step(
                        input@.skip(i + 2),
                        in_single,
                        in_double,
                        cur@,
                        tokens.deep_view(),
                    ));
                }
                i = i + 2;
            } else {
                proof {
                    assert(pre.skip(1) =~= input@.skip(i + 1));
                    assert(tok_step(pre, sq0, dq0, cur0, dv0) == tok_step(
                        input@.skip(i + 1),
                        in_single,
                        in_double,
                        cur@,
                        tokens.deep_view(),
                    ));
                }
                i = i + 1;
            }
        } else if c == '\'' && !in_double {
            in_single = !in_single;
            proof {
                assert(pre.skip(1) =~= input@.skip(i + 1));
                assert(tok_step(pre, sq0, dq0, cur0, dv0) == tok_step(
                    input@.skip(i + 1),
                    in_single,
                    in_double,
                    cur@,
                    tokens.deep_view(),
                ));
            }
            i = i + 1;
        } else if c == '"' && !in_single {
            in_double = !in_double;
            proof {
                assert(pre.skip(1) =~= input@.skip(i + 1));
                assert(tok_step(pre, sq0, dq0, cur0, dv0) == tok_step(
                    input@.skip(i + 1),
                    in_single,
                    in_double,
                    cur@,
                    tokens.deep_view(),
                ));
            }
            i = i + 1;
        } else if c == '>' && !in_single && !in_double {
            let mut op: Vec<char> = Vec::new();
            let peeled = cur.len() > 0 && ascii_digit(cur[cur.len() - 1]);
            if peeled {
                let d = cur[cur.len() - 1];
                cur.pop();
                op.push(d);
                proof {
                    assert(cur@ =~= cur0.drop_last());
                    assert(op@ =~= seq![cur0.last()]);
                }
            }
            let ghost word = if peeled { cur0.drop_last() } else { cur0 };
            let ghost opfd = if peeled { seq![cur0.last()] } else { Seq::<char>::empty() };
            let ghost acc1 = if word.len() > 0 { dv0.push(word) } else { dv0 };
            proof {
                assert(cur@ == word);
                assert(op@ == opfd);
            }
            if cur.len() > 0 {
                let w = chars_to_string(&cur);
                tokens.push(w);
                cur.clear();
                proof {
                    assert(tokens.deep_view() =~= acc1);
                }
            }
            proof {
                assert(cur@ =~= Seq::<char>::empty());
            }
            op.push('>');
            if i + 1 < n && input.get_char(i + 1) == '>' {
                op.push('>');
                let t = chars_to_string(&op);
                tokens.push(t);
                proof {
                    assert(pre[1] == '>');
                    assert(pre.skip(2) =~= input@.skip(i + 2));
                    assert(tokens.deep_view() =~= acc1.push(opfd.push('>').push('>')));
                    assert(tok_step(pre, sq0, dq0, cur0, dv0) == tok_step(
                        input@.skip(i + 2),
                        in_single,
                        in_double,
                        cur@,
                        tokens.deep_view(),
                    ));
                }
                i = i + 2;
            } else {
                let t = chars_to_string(&op);
                tokens.push(t);
                proof {
                    assert(pre.skip(1) =~= input@.skip(i + 1));
                    assert(tokens.deep_view() =~= acc1.push(opfd.push('>')));
                    assert(tok_step(pre, sq0, dq0, cur0, dv0) == tok_step(
                        input@.skip(i + 1),
                        in_single,
                        in_double,
                        cur@,
                        tokens.deep_view(),
                    ));
                }
                i = i + 1;
            }
        } else if shell_space(c) && !in_single && !in_double {
            if cur.len() > 0 {
                let w = chars_to_string(&cur);
                tokens.push(w);
                cur.clear();
                proof {
                    assert(tokens.deep_view() =~= dv0.push(cur0));
                }
            }
            proof {
                assert(pre.skip(1) =~= input@.skip(i + 1));
                assert(tok_step(pre, sq0, dq0, cur0, dv0) == tok_step(
                    input@.skip(i + 1),
                    in_single,
                    in_double,
                    cur@,
                    tokens.deep_view(),
                ));
            }
            i = i + 1;
        } else {
            cur.push(c);
            proof {
                assert(pre.skip(1) =~= input@.skip(i + 1));
                assert(tok_step(pre, sq0, dq0, cur0, dv0) == tok_step(
                    input@.skip(i + 1),
                    in_single,
                    in_double,
                    cur@,
                    tokens.deep_view(),
                ));
            }
            i = i + 1;
        }
    }
    proof {
        assert(input@.skip(n as int) =~= Seq::<char>::empty());
    }
    if cur.len() > 0 {
        let ghost dv0 = tokens.deep_view();
        let w = chars_to_string(&cur);
        tokens.push(w);
        proof {
            assert(tokens.deep_view() =~= dv0.push(cur@));
        }
    }
    tokens
}

/// Splitting on whitespace runs: `cur` is the pending word and `acc` the
/// words already emitted.
pub open spec fn ws_step(s: Seq<char>, cur: Seq<char>, acc: Seq<Seq<char>>) -> Seq<Seq<char>>
    decreases s.len(),
{
    if s.len() == 0 {
        if cur.len() == 0 {
            acc
        } else {
            acc.push(cur)
        }
    } else if is_shell_space(s[0]) {
        if cur.len() == 0 {
            ws_step(s.skip(1), cur, acc)
        } else {
            ws_step(s.skip(1), Seq::empty(), acc.push(cur))
        }
    } else {
        ws_step(s.skip(1), cur.push(s[0]), acc)
    }
}

/// The maximal runs of non-whitespace characters of `s`, in order.
pub open spec fn whitespace_split(s: Seq<char>) -> Seq<Seq<char>> {
    ws_step(s, Seq::empty(), Seq::empty())
}

/// An input line with no quote characters, no backslashes and no `>`: on
/// such a line the tokenizer never leaves its `Normal` state.
pub open spec fn plain_chars(s: Seq<char>) -> bool {
    forall|i: int|
        0 <= i < s.len() ==> s[i] != '\\' && s[i] != '\'' && s[i] != '"' && s[i] != '>'
}

proof fn lemma_tok_step_plain(s: Seq<char>, cur: Seq<char>, acc: Seq<Seq<char>>)
    requires
        plain_chars(s),
    ensures
        tok_step(s, false, false, cur, acc) == ws_step(s, cur, acc),
    decreases s.len(),
{
    if s.len() > 0 {
        assert(plain_chars(s.skip(1))) by {
            assert(forall|i: int|
                0 <= i < s.skip(1).len() ==> s.skip(1)[i] == s[i + 1]);
        }
        let c = s[0];
        if is_shell_space(c) {
            if cur.len() == 0 {
                lemma_tok_step_plain(s.skip(1), cur, acc);
            } else {
                lemma_tok_step_plain(s.skip(1), Seq::empty(), acc.push(cur));
            }
        } else {
            lemma_tok_step_plain(s.skip(1), cur.push(c), acc);
        }
    }
}

/// On any input with no quote characters, no backslashes and no `>`,
/// tokenizing is exactly splitting the input on whitespace runs.
pub proof fn lemma_tokenize_plain_is_whitespace_split(s: Seq<char>)
    requires
        plain_chars(s),
    ensures
        tokenize_spec(s) == whitespace_split(s),
{
    lemma_tok_step_plain(s, Seq::empty(), Seq::empty());
}

} // verus!
