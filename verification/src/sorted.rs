//! Lists of strings kept in the order of strings, without repetition.

use crate::text::{lex_lt, str_lt};
use vstd::prelude::*;

verus! {

/// Of two different texts one comes before the other.
pub proof fn lemma_lex_total(a: Seq<char>, b: Seq<char>)
    ensures
        a == b || lex_lt(a, b) || lex_lt(b, a),
        !(lex_lt(a, b) && lex_lt(b, a)),
    decreases a.len(),
{
    if a.len() == 0 || b.len() == 0 {
        if a.len() == 0 && b.len() == 0 {
            assert(a =~= b);
        }
    } else if a[0] == b[0] {
        lemma_lex_total(a.drop_first(), b.drop_first());
        if a.drop_first() == b.drop_first() {
            assert(a =~= seq![a[0]] + a.drop_first());
            assert(b =~= seq![b[0]] + b.drop_first());
        }
    }
}

/// What comes before a text that comes before another comes before that
/// other.
pub proof fn lemma_lex_transitive(a: Seq<char>, b: Seq<char>, c: Seq<char>)
    requires
        lex_lt(a, b),
        lex_lt(b, c),
    ensures
        lex_lt(a, c),
    decreases a.len(),
{
    if a.len() > 0 && a[0] == b[0] && b[0] == c[0] {
        lemma_lex_transitive(a.drop_first(), b.drop_first(), c.drop_first());
    }
}

/// Each string of `v` comes before the one that follows it.
pub open spec fn strictly_ordered(v: Seq<String>) -> bool {
    forall|i: int, j: int| 0 <= i < j < v.len() ==> lex_lt(v[i]@, v[j]@)
}

/// The text `t` is one of the strings of `v`.
pub open spec fn holds_text(v: Seq<String>, t: Seq<char>) -> bool {
    exists|i: int| 0 <= i < v.len() && (#[trigger] v[i])@ == t
}

/// Puts `s` into the ordered list `v`, unless its text is in the list.
pub fn insert_sorted(v: &mut Vec<String>, s: String)
    requires
        strictly_ordered(old(v)@),
    ensures
        strictly_ordered(final(v)@),
        forall|t: Seq<char>| holds_text(final(v)@, t) <==> (holds_text(old(v)@, t) || t == s@),
{
    let mut i: usize = 0;
    while i < v.len() && str_lt(v[i].as_str(), s.as_str())
        invariant
            i <= v.len(),
            v@ == old(v)@,
            forall|k: int| 0 <= k < i ==> lex_lt((#[trigger] v@[k])@, s@),
        decreases v.len() - i,
    {
        i += 1;
    }
    let ghost before = v@;
    if i < v.len() && !str_lt(s.as_str(), v[i].as_str()) {
        proof {
            lemma_lex_total(s@, before[i as int]@);
            assert forall|t: Seq<char>| holds_text(before, t) || t == s@ implies holds_text(
                before,
                t,
            ) by {
                if t == s@ {
                    assert(before[i as int]@ == t);
                }
            }
        }
        return ;
    }
    v.insert(i, s);
    proof {
        let after = v@;
        assert forall|a: int, b: int| 0 <= a < b < after.len() implies lex_lt(
            after[a]@,
            after[b]@,
        ) by {
            if b == i {
                assert(after[a] == before[a]);
            } else if a == i {
                assert(after[b] == before[b - 1]);
                if b - 1 > i {
                    lemma_lex_transitive(s@, before[i as int]@, before[b - 1]@);
                }
            } else {
                let x = if a < i {
                    a
                } else {
                    a - 1
                };
                let y = if b < i {
                    b
                } else {
                    b - 1
                };
                assert(after[a] == before[x]);
                assert(after[b] == before[y]);
            }
        }
        assert forall|t: Seq<char>| holds_text(after, t) <==> (holds_text(before, t) || t
            == s@) by {
            if holds_text(after, t) {
                let k = choose|k: int| 0 <= k < after.len() && (#[trigger] after[k])@ == t;
                if k < i {
                    assert(before[k]@ == t);
                } else if k > i {
                    assert(before[k - 1]@ == t);
                }
            }
            if holds_text(before, t) {
                let k = choose|k: int| 0 <= k < before.len() && (#[trigger] before[k])@ == t;
                if k < i {
                    assert(after[k]@ == t);
                } else {
                    assert(after[k + 1]@ == t);
                }
            }
            if t == s@ {
                assert(after[i as int]@ == t);
            }
        }
    }
}

} // verus!
