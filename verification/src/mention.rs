//! Completing an `@mention` in a chat composer.
//!
//! Positions are character offsets, which is what the composer's caret is.
use vstd::prelude::*;

use crate::strs::{self, begins, chars_of, string_of_range};

verus! {

/// A mention token in progress: where its `@` sits, and what has been typed
/// after it.
#[derive(Debug, Clone, PartialEq, Eq)]
pub struct Query {
    /// Character index of the `@`.
    pub at: usize,
    /// The prefix typed after the `@`, which may be empty.
    pub prefix: String,
}

/// Whether the mention token that the caret at `cur` sits in has its `@` at
/// position `at`: the `@` begins the text or follows white space, and there is
/// neither white space nor another `@` between it and the caret.
pub open spec fn token_at(s: Seq<char>, cur: int, at: int) -> bool {
    &&& 0 <= at < cur <= s.len()
    &&& s[at] == '@'
    &&& at == 0 || strs::white_space(s[at - 1])
    &&& forall|k: int| at < k < cur ==> #[trigger] s[k] != '@' && !strs::white_space(s[k])
}

pub open spec fn clamp(cursor: int, len: int) -> int {
    if cursor < len {
        cursor
    } else {
        len
    }
}

/// Find the mention token the caret is sitting in, if any.
///
/// A token starts at an `@` that begins the text or follows white space, so
/// `user@host` is an address rather than a mention.
pub fn query_at(text: &str, cursor: usize) -> (r: Option<Query>)
    ensures
        ({
            let cur = clamp(cursor as int, text@.len() as int);
            match r {
                Some(q) => token_at(text@, cur, q.at as int) && q.prefix@ == text@.subrange(
                    q.at + 1,
                    cur,
                ),
                None => forall|at: int| !token_at(text@, cur, at),
            }
        }),
{
    let chars = chars_of(text);
    let cur: usize = if cursor < chars.len() {
        cursor
    } else {
        chars.len()
    };
    let mut i: usize = cur;
    while i > 0
        invariant
            i <= cur <= chars@.len(),
            cur == clamp(cursor as int, chars@.len() as int),
            chars@ == text@,
            forall|k: int| i <= k < cur ==> #[trigger] chars@[k] != '@' && !strs::white_space(
                chars@[k],
            ),
        decreases i,
    {
        let c = chars[i - 1];
        if c == '@' {
            // It must start the text or follow white space.
            if i >= 2 && !chars[i - 2].is_whitespace() {
                assert forall|at: int| !token_at(text@, cur as int, at) by {
                    if token_at(text@, cur as int, at) {
                        assert(chars@[i - 1] == '@');
                        assert(at == i - 1);
                    }
                }
                return None;
            }
            let prefix = string_of_range(&chars, i, cur);
            return Some(Query { at: i - 1, prefix });
        }
        if c.is_whitespace() {
            assert forall|at: int| !token_at(text@, cur as int, at) by {
                if token_at(text@, cur as int, at) {
                    assert(strs::white_space(chars@[i - 1]));
                    assert(at != i - 1);
                }
            }
            return None;
        }
        i = i - 1;
    }
    assert forall|at: int| !token_at(text@, cur as int, at) by {
        if token_at(text@, cur as int, at) {
            assert(chars@[at] == '@');
        }
    }
    None
}

/// Whether a name is selected by a prefix, letters compared in lowercase.
pub open spec fn selected_by(name: Seq<char>, prefix: Seq<char>) -> bool {
    strs::starts_with(strs::lowercase(name), strs::lowercase(prefix))
}

/// The names of the first `n` that a prefix selects, in order.
pub open spec fn selected(pool: Seq<String>, prefix: Seq<char>, n: int) -> Seq<Seq<char>>
    decreases n,
{
    if n <= 0 {
        Seq::empty()
    } else if selected_by(pool[n - 1]@, prefix) {
        selected(pool, prefix, n - 1).push(pool[n - 1]@)
    } else {
        selected(pool, prefix, n - 1)
    }
}

/// The texts of borrowed strings.
pub open spec fn str_texts(v: Seq<&str>) -> Seq<Seq<char>> {
    Seq::new(v.len(), |i: int| v[i]@)
}

/// The candidates in `pool` that a mention `prefix` selects, order preserved.
/// An empty prefix offers everyone.
pub fn matches<'a>(pool: &'a Vec<String>, prefix: &str) -> (r: Vec<&'a str>)
    ensures
        str_texts(r@) == selected(pool@, prefix@, pool@.len() as int),
{
    let needle = prefix.to_lowercase();
    let mut r: Vec<&'a str> = Vec::new();
    let mut i: usize = 0;
    assert(str_texts(r@) =~= selected(pool@, prefix@, 0));
    while i < pool.len()
        invariant
            i <= pool@.len(),
            needle@ == strs::lowercase(prefix@),
            str_texts(r@) == selected(pool@, prefix@, i as int),
        decreases pool@.len() - i,
    {
        let name = pool[i].as_str().to_lowercase();
        if begins(name.as_str(), needle.as_str()) {
            let ghost before = str_texts(r@);
            r.push(pool[i].as_str());
            assert(str_texts(r@) =~= before.push(pool@[i as int]@));
        }
        i = i + 1;
    }
    r
}

/// The part of `candidate` still to be typed, given what already has been;
/// `None` when it adds nothing.
pub fn remainder(candidate: &str, prefix: &str) -> (r: Option<String>)
    ensures
        strs::opt_text(r) == left_of(candidate@, prefix@.len() as int),
{
    let c = chars_of(candidate);
    let n: usize = chars_of(prefix).len();
    if n < c.len() {
        let rest = string_of_range(&c, n, c.len());
        assert(rest@ =~= candidate@.skip(n as int));
        Some(rest)
    } else {
        None
    }
}

/// What is left of `candidate` behind its first `n` characters, if anything is.
pub open spec fn left_of(candidate: Seq<char>, n: int) -> Option<Seq<char>> {
    if n < candidate.len() {
        Some(candidate.skip(n))
    } else {
        None
    }
}

/// A text with what stands from `at` to `cur` replaced by a mention of
/// `candidate`.
pub open spec fn spliced(text: Seq<char>, at: int, cur: int, candidate: Seq<char>) -> Seq<char> {
    text.take(at) + "@"@ + candidate + text.skip(cur)
}

/// Replace the in-progress token with `candidate`, returning the new text and
/// where the caret lands: at the end of the inserted name.
pub fn splice(text: &str, query: &Query, cursor: usize, candidate: &str) -> (r: (String, usize))
    requires
        query.at <= text@.len(),
        query.at + 1 + candidate@.len() <= usize::MAX,
    ensures
        r.0@ == spliced(
            text@,
            query.at as int,
            clamp(cursor as int, text@.len() as int),
            candidate@,
        ),
        r.1 == query.at + 1 + candidate@.len(),
{
    let chars = chars_of(text);
    let cur: usize = if cursor < chars.len() {
        cursor
    } else {
        chars.len()
    };
    let mut out = string_of_range(&chars, 0, query.at);
    out.append("@");
    out.append(candidate);
    out.append(string_of_range(&chars, cur, chars.len()).as_str());
    assert(out@ =~= spliced(text@, query.at as int, cur as int, candidate@));
    let caret: usize = query.at + 1 + chars_of(candidate).len();
    (out, caret)
}

// ---------------------------------------------------------------------------
// Laws.
// ---------------------------------------------------------------------------

/// A caret sits in at most one mention token.
pub proof fn law_token_is_unique(s: Seq<char>, cur: int, a: int, b: int)
    requires
        token_at(s, cur, a),
        token_at(s, cur, b),
    ensures
        a == b,
{
    assert(s[a] == '@');
    assert(s[b] == '@');
}

/// Completing a token keeps what stands before the `@` and behind the caret, and
/// leaves the caret right behind the name.
pub proof fn law_splice_keeps_the_rest(text: Seq<char>, at: int, cur: int, candidate: Seq<char>)
    requires
        0 <= at <= cur <= text.len(),
    ensures
        ({
            let out = spliced(text, at, cur, candidate);
            &&& out.take(at) == text.take(at)
            &&& out.subrange(at, at + 1) == "@"@
            &&& out.subrange(at + 1, at + 1 + candidate.len()) == candidate
            &&& out.skip(at + 1 + candidate.len()) == text.skip(cur)
        }),
{
    reveal_strlit("@");
    let out = spliced(text, at, cur, candidate);
    assert(out.take(at) =~= text.take(at));
    assert(out.subrange(at, at + 1) =~= "@"@);
    assert(out.subrange(at + 1, at + 1 + candidate.len()) =~= candidate);
    assert(out.skip(at + 1 + candidate.len()) =~= text.skip(cur));
}

/// After a completion the caret sits in the same mention, now typed in full.
pub proof fn law_completed_mention_is_found_again(
    text: Seq<char>,
    at: int,
    cur: int,
    candidate: Seq<char>,
)
    requires
        token_at(text, cur, at),
        forall|k: int|
            0 <= k < candidate.len() ==> #[trigger] candidate[k] != '@' && !strs::white_space(
                candidate[k],
            ),
    ensures
        ({
            let out = spliced(text, at, cur, candidate);
            let caret = at + 1 + candidate.len();
            &&& token_at(out, caret, at)
            &&& forall|other: int| #[trigger] token_at(out, caret, other) ==> other == at
            &&& out.subrange(at + 1, caret) == candidate
        }),
{
    reveal_strlit("@");
    let out = spliced(text, at, cur, candidate);
    let caret = at + 1 + candidate.len();
    assert(out[at] == '@');
    assert(at > 0 ==> out[at - 1] == text[at - 1]);
    assert forall|k: int| at < k < caret implies #[trigger] out[k] != '@' && !strs::white_space(
        out[k],
    ) by {
        assert(out[k] == candidate[k - at - 1]);
    }
    assert forall|other: int| #[trigger] token_at(out, caret, other) implies other == at by {
        law_token_is_unique(out, caret, at, other);
    }
    law_splice_keeps_the_rest(text, at, cur, candidate);
}

/// A name that a prefix selects begins with it, letters compared in lowercase,
/// and every selected name is in the pool.
pub proof fn law_matches_come_from_the_pool(
    pool: Seq<String>,
    prefix: Seq<char>,
    n: int,
    k: int,
)
    requires
        0 <= n <= pool.len(),
        0 <= k < selected(pool, prefix, n).len(),
    ensures
        selected_by(selected(pool, prefix, n)[k], prefix),
        exists|j: int| 0 <= j < n && (#[trigger] pool[j])@ == selected(pool, prefix, n)[k],
    decreases n,
{
    if n > 0 {
        let before = selected(pool, prefix, n - 1);
        if k < before.len() {
            law_matches_come_from_the_pool(pool, prefix, n - 1, k);
        } else {
            assert(pool[n - 1]@ == selected(pool, prefix, n)[k]);
        }
    }
}

/// Every name of the pool that begins with what was typed, whatever the case, is
/// offered, and the names keep the order of the pool.
pub proof fn law_every_match_is_offered(pool: Seq<String>, prefix: Seq<char>, n: int, i: int)
    requires
        0 <= i < n <= pool.len(),
        strs::starts_with(strs::lowercase(pool[i]@), strs::lowercase(prefix)),
    ensures
        selected(pool, prefix, i).len() < selected(pool, prefix, n).len(),
        selected(pool, prefix, n)[selected(pool, prefix, i).len() as int] == pool[i]@,
        selected(pool, prefix, n).take(selected(pool, prefix, i).len() as int) == selected(
            pool,
            prefix,
            i,
        ),
    decreases n,
{
    let all = selected(pool, prefix, n);
    let front = selected(pool, prefix, i);
    if i < n - 1 {
        law_every_match_is_offered(pool, prefix, n - 1, i);
        let before = selected(pool, prefix, n - 1);
        assert(all.take(front.len() as int) =~= before.take(front.len() as int));
    } else {
        assert(all.take(front.len() as int) =~= front);
    }
}

/// With nothing typed behind the `@` every name is offered.
pub proof fn law_all_names_are_offered_at_first(pool: Seq<String>, n: int)
    requires
        0 <= n <= pool.len(),
    ensures
        selected(pool, Seq::empty(), n).len() == n,
        forall|i: int|
            0 <= i < n ==> #[trigger] selected(pool, Seq::empty(), n)[i] == pool[i]@,
    decreases n,
{
    if n > 0 {
        law_all_names_are_offered_at_first(pool, n - 1);
        let e = Seq::<char>::empty();
        assert(strs::lowercase(e) =~= e);
        let name = strs::lowercase(pool[n - 1]@);
        assert(name.take(0) =~= e);
        let before = selected(pool, e, n - 1);
        assert forall|i: int| 0 <= i < n implies #[trigger] selected(pool, e, n)[i]
            == pool[i]@ by {
            if i < n - 1 {
                assert(before[i] == pool[i]@);
            }
        }
    }
}

/// What was typed of a name and what is left of it make up the name, and something is
/// left until it is typed in full.
pub proof fn law_what_is_left_completes_the_name(typed: Seq<char>, rest: Seq<char>)
    ensures
        rest.len() > 0 ==> left_of(typed + rest, typed.len() as int) == Some(rest),
        left_of(typed, typed.len() as int) is None,
{
    assert((typed + rest).skip(typed.len() as int) =~= rest);
}

/// An `@` at the beginning or behind white space begins a mention, which goes up to the
/// caret while nothing but its name is typed; one inside a word begins none.
pub proof fn law_mentions_begin_words(a: Seq<char>, name: Seq<char>, b: Seq<char>)
    requires
        forall|k: int|
            0 <= k < name.len() ==> #[trigger] name[k] != '@' && !strs::white_space(name[k]),
    ensures
        ({
            let s = a + seq!['@'] + name + b;
            let cur = (a.len() + 1 + name.len()) as int;
            &&& a.len() == 0 || strs::white_space(a.last()) ==> token_at(s, cur, a.len() as int)
                && s.subrange(a.len() as int + 1, cur) == name
            &&& a.len() > 0 && !strs::white_space(a.last()) ==> forall|at: int|
                !#[trigger] token_at(s, cur, at)
        }),
{
    let n = a.len() as int;
    let s = a + seq!['@'] + name + b;
    let cur = (a.len() + 1 + name.len()) as int;
    assert(s[n] == '@');
    assert(s.subrange(n + 1, cur) =~= name);
    assert forall|k: int| n < k < cur implies #[trigger] s[k] != '@' && !strs::white_space(
        s[k],
    ) by {
        assert(s[k] == name[k - n - 1]);
    }
    if a.len() > 0 {
        assert(s[n - 1] == a.last());
        assert forall|at: int| !strs::white_space(a.last()) implies !#[trigger] token_at(
            s,
            cur,
            at,
        ) by {
            if token_at(s, cur, at) {
                if at < n {
                    assert(s[n] != '@');
                } else if at > n {
                    assert(s[at] != '@');
                }
            }
        }
    }
}

} // verus!
