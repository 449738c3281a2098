//! The context map that completed runs produce, and the one-equality condition
//! language evaluated against it.

use vstd::prelude::*;
use crate::text::{text_eq, trim, trimmed};

verus! {

/// Keys such as `review.result` mapped to text. Later insertions shadow
/// earlier ones with the same key.
#[derive(Debug, Clone)]
pub struct ContextMap {
    pub entries: Vec<(String, String)>,
}

/// The value of the last entry with key `k`.
pub open spec fn lookup(entries: Seq<(String, String)>, k: Seq<char>) -> Option<Seq<char>>
    decreases entries.len(),
{
    if entries.len() == 0 {
        None
    } else if entries.last().0@ == k {
        Some(entries.last().1@)
    } else {
        lookup(entries.drop_last(), k)
    }
}

impl ContextMap {
    pub open spec fn get_spec(&self, k: Seq<char>) -> Option<Seq<char>> {
        lookup(self.entries@, k)
    }

    pub fn new() -> (r: ContextMap)
        ensures
            forall|k: Seq<char>| r.get_spec(k) is None,
    {
        ContextMap { entries: Vec::new() }
    }

    /// Sets `k` to `v`, replacing an earlier value.
    pub fn insert(&mut self, k: String, v: String)
        ensures
            final(self).get_spec(k@) == Some(v@),
            forall|j: Seq<char>| j != k@ ==> final(self).get_spec(j) == old(self).get_spec(j),
    {
        self.entries.push((k, v));
        proof {
            assert(self.entries@.drop_last() =~= old(self).entries@);
        }
    }

    pub fn get(&self, k: &str) -> (r: Option<&String>)
        ensures
            match r {
                Some(v) => self.get_spec(k@) == Some(v@),
                None => self.get_spec(k@) is None,
            },
    {
        let mut i: usize = self.entries.len();
        proof {
            assert(self.entries@.subrange(0, i as int) =~= self.entries@);
        }
        while i > 0
            invariant
                i <= self.entries@.len(),
                lookup(self.entries@, k@) == lookup(self.entries@.subrange(0, i as int), k@),
            decreases i,
        {
            let ghost pre = self.entries@.subrange(0, i as int);
            proof {
                assert(pre.drop_last() =~= self.entries@.subrange(0, i - 1));
            }
            if text_eq(self.entries[i - 1].0.as_str(), k) {
                return Some(&self.entries[i - 1].1);
            }
            i = i - 1;
        }
        None
    }
}

/// `==` starts at index `i` of `s`.
pub open spec fn eqeq_at(s: Seq<char>, i: int) -> bool {
    0 <= i && i + 1 < s.len() && s[i] == '=' && s[i + 1] == '='
}

pub open spec fn first_eqeq_at(s: Seq<char>, i: int) -> bool {
    eqeq_at(s, i) && forall|j: int| 0 <= j < i ==> !eqeq_at(s, j)
}

/// The key a condition looks up: the trimmed text before the first `==`.
pub open spec fn condition_key(c: Seq<char>, i: int) -> Seq<char> {
    trimmed(c.subrange(0, i))
}

/// A quoted literal: at least two characters, the first and last the same
/// quote, single or double.
pub open spec fn is_quoted(r: Seq<char>) -> bool {
    r.len() >= 2 && (r[0] == '\'' || r[0] == '"') && r.last() == r[0]
}

/// The trimmed text after the first `==`.
pub open spec fn condition_rhs(c: Seq<char>, i: int) -> Seq<char> {
    trimmed(c.subrange(i + 2, c.len() as int))
}

/// The value a quoted right-hand side expects: the text between its quotes.
pub open spec fn condition_expected(c: Seq<char>, i: int) -> Seq<char> {
    condition_rhs(c, i).subrange(1, condition_rhs(c, i).len() - 1)
}

/// Whether condition `c` holds under `ctx`: false when `c` holds no `==` or
/// its right-hand side is not a quoted literal, else the looked-up value must
/// exist and equal the text between the quotes.
pub open spec fn condition_holds(c: Seq<char>, ctx: ContextMap) -> bool {
    if exists|i: int| first_eqeq_at(c, i) {
        let i = choose|i: int| first_eqeq_at(c, i);
        is_quoted(condition_rhs(c, i)) && ctx.get_spec(condition_key(c, i)) == Some(
            condition_expected(c, i),
        )
    } else {
        false
    }
}

fn find_eqeq(s: &str) -> (r: Option<usize>)
    ensures
        match r {
            Some(i) => first_eqeq_at(s@, i as int),
            None => forall|j: int| !eqeq_at(s@, j),
        },
{
    let n = s.unicode_len();
    let mut i: usize = 0;
    while i < n && i + 1 < n
        invariant
            n == s@.len(),
            i <= n,
            forall|j: int| 0 <= j < i ==> !eqeq_at(s@, j),
        decreases n - i,
    {
        if s.get_char(i) == '=' && s.get_char(i + 1) == '=' {
            return Some(i);
        }
        i = i + 1;
    }
    None
}

/// Evaluates `key == 'value'` (or with double quotes) against `context`.
/// Malformed conditions, unquoted values and unknown keys evaluate to false.
pub fn evaluate_condition(condition: &str, context: &ContextMap) -> (r: bool)
    ensures
        r == condition_holds(condition@, *context),
{
    match find_eqeq(condition) {
        None => {
            proof {
                assert(!exists|i: int| first_eqeq_at(condition@, i));
            }
            false
        },
        Some(i) => {
            let n = condition.unicode_len();
            let ghost c = condition@;
            proof {
                let k = choose|k: int| first_eqeq_at(c, k);
                assert(first_eqeq_at(c, k));
                if k < i {
                    assert(!eqeq_at(c, k));
                }
                if i < k {
                    assert(!eqeq_at(c, i as int));
                }
                assert(k == i);
            }
            let key = trim(condition.substring_char(0, i));
            let rhs = trim(condition.substring_char(i + 2, n));
            let m = rhs.unicode_len();
            if m < 2 {
                return false;
            }
            let q = rhs.get_char(0);
            if !((q == '\'' || q == '"') && rhs.get_char(m - 1) == q) {
                return false;
            }
            let expected = rhs.substring_char(1, m - 1);
            match context.get(key) {
                Some(v) => text_eq(v.as_str(), expected),
                None => false,
            }
        },
    }
}

/// A condition whose key is unknown to the context never holds.
pub proof fn lemma_unknown_key_is_false(c: Seq<char>, ctx: ContextMap)
    requires
        forall|i: int| first_eqeq_at(c, i) ==> ctx.get_spec(condition_key(c, i)) is None,
    ensures
        !condition_holds(c, ctx),
{
}

} // verus!
