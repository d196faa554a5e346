//! Whitespace tokenization of move lists.
//!
//! A puzzle's solution is stored as one string of move tokens separated by
//! whitespace; the rating and target-time formulas depend on the number of
//! tokens, and serving a puzzle hands the tokens out one by one.

use vstd::prelude::*;

verus! {

/// Whitespace characters that separate move tokens.
pub open spec fn is_ws(c: char) -> bool {
    c == ' ' || c == '\t' || c == '\n' || c == '\r' || c == '\u{b}' || c == '\u{c}'
}

/// The tokens of `s` from position `i` on, given that `cur` holds the
/// (possibly empty) partial token gathered just before position `i`.
pub open spec fn tokens_from(s: Seq<char>, i: int, cur: Seq<char>) -> Seq<Seq<char>>
    decreases s.len() - i,
{
    if i < 0 || i >= s.len() {
        if cur.len() > 0 {
            seq![cur]
        } else {
            Seq::empty()
        }
    } else if is_ws(s[i]) {
        if cur.len() > 0 {
            seq![cur] + tokens_from(s, i + 1, Seq::empty())
        } else {
            tokens_from(s, i + 1, Seq::empty())
        }
    } else {
        tokens_from(s, i + 1, cur.push(s[i]))
    }
}

/// The maximal whitespace-free runs of `s`, in order.
pub open spec fn tokens_of(s: Seq<char>) -> Seq<Seq<char>> {
    tokens_from(s, 0, Seq::empty())
}

/// There are never more tokens than characters.
pub proof fn lemma_tokens_from_len(s: Seq<char>, i: int, cur: Seq<char>)
    requires
        0 <= i <= s.len(),
    ensures
        tokens_from(s, i, cur).len() <= (s.len() - i) + if cur.len() > 0 {
            1int
        } else {
            0int
        },
    decreases s.len() - i,
{
    if i < s.len() {
        if is_ws(s[i]) {
            lemma_tokens_from_len(s, i + 1, Seq::empty());
        } else {
            lemma_tokens_from_len(s, i + 1, cur.push(s[i]));
        }
    }
}

/// There are never more tokens than characters.
pub proof fn lemma_tokens_of_len(s: Seq<char>)
    ensures
        tokens_of(s).len() <= s.len(),
{
    lemma_tokens_from_len(s, 0, Seq::empty());
}

/// Splits `s` into its whitespace-separated tokens.
pub fn split_tokens(s: &str) -> (r: Vec<String>)
    ensures
        r@.map_values(|t: String| t@) == tokens_of(s@),
{
    let n = s.unicode_len();
    let mut r: Vec<String> = Vec::new();
    let mut i: usize = 0;
    let mut start: usize = 0;
    let mut in_token: bool = false;
    while i < n
        invariant
            n == s@.len(),
            i <= n,
            in_token ==> start < i,
            tokens_of(s@) == r@.map_values(|t: String| t@) + tokens_from(
                s@,
                i as int,
                if in_token {
                    s@.subrange(start as int, i as int)
                } else {
                    Seq::<char>::empty()
                },
            ),
        decreases n - i,
    {
        let ghost cur: Seq<char> = if in_token {
            s@.subrange(start as int, i as int)
        } else {
            Seq::<char>::empty()
        };
        let c = s.get_char(i);
        if c == ' ' || c == '\t' || c == '\n' || c == '\r' || c == '\u{b}' || c == '\u{c}' {
            if in_token {
                let tok = s.substring_char(start, i).to_owned();
                proof {
                    assert(tokens_from(s@, i as int, cur) == seq![cur] + tokens_from(
                        s@,
                        i + 1,
                        Seq::<char>::empty(),
                    ));
                    assert(r@.push(tok).map_values(|t: String| t@) =~= r@.map_values(
                        |t: String| t@,
                    ).push(tok@));
                    assert(r@.map_values(|t: String| t@).push(cur) + tokens_from(
                        s@,
                        i + 1,
                        Seq::<char>::empty(),
                    ) =~= r@.map_values(|t: String| t@) + (seq![cur] + tokens_from(
                        s@,
                        i + 1,
                        Seq::<char>::empty(),
                    )));
                }
                r.push(tok);
                in_token = false;
            }
        } else {
            if !in_token {
                start = i;
                in_token = true;
                proof {
                    assert(s@.subrange(i as int, i + 1) =~= Seq::<char>::empty().push(s@[i as int]));
                }
            } else {
                proof {
                    assert(s@.subrange(start as int, i + 1) =~= cur.push(s@[i as int]));
                }
            }
        }
        i = i + 1;
    }
    if in_token {
        let tok = s.substring_char(start, n).to_owned();
        proof {
            let cur = s@.subrange(start as int, n as int);
            assert(tokens_from(s@, n as int, cur) == seq![cur]);
            assert(r@.push(tok).map_values(|t: String| t@) =~= r@.map_values(|t: String| t@).push(
                tok@,
            ));
            assert(r@.map_values(|t: String| t@).push(cur) =~= r@.map_values(|t: String| t@)
                + seq![cur]);
        }
        r.push(tok);
    }
    proof {
        assert(r@.map_values(|t: String| t@) + Seq::<Seq<char>>::empty() =~= r@.map_values(
            |t: String| t@,
        ));
    }
    r
}

} // verus!
