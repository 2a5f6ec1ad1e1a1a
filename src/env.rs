//! The environment of the boxed command: assignments applied in order on
//! top of the inherited environment, so a later one wins.
use vstd::prelude::*;

verus! {

/// The character sequences of a list of assignments.
pub open spec fn pairs_view(v: Seq<(String, String)>) -> Seq<(Seq<char>, Seq<char>)> {
    v.map_values(|p: (String, String)| (p.0@, p.1@))
}

/// The assignments of every rule, rule after rule.
pub open spec fn flattened(rules: Seq<Seq<(Seq<char>, Seq<char>)>>) -> Seq<(Seq<char>, Seq<char>)>
    decreases rules.len(),
{
    if rules.len() == 0 {
        seq![]
    } else {
        flattened(rules.drop_last()) + rules.last()
    }
}

/// The value that a run of assignments leaves for `key`: the last one made,
/// or `None` when the inherited value stays.
pub open spec fn last_value(a: Seq<(Seq<char>, Seq<char>)>, key: Seq<char>) -> Option<Seq<char>>
    decreases a.len(),
{
    if a.len() == 0 {
        None
    } else if a.last().0 == key {
        Some(a.last().1)
    } else {
        last_value(a.drop_last(), key)
    }
}

/// Appends copies of `src`'s assignments to `out`.
fn push_pairs(out: &mut Vec<(String, String)>, src: &Vec<(String, String)>)
    ensures
        pairs_view(final(out)@) == pairs_view(old(out)@) + pairs_view(src@),
{
    let mut i: usize = 0;
    while i < src.len()
        invariant
            i <= src@.len(),
            pairs_view(out@) == pairs_view(old(out)@) + pairs_view(src@.subrange(0, i as int)),
        decreases src@.len() - i,
    {
        let k = src[i].0.clone();
        let v = src[i].1.clone();
        let ghost before = out@;
        out.push((k, v));
        assert(pairs_view(out@) =~= pairs_view(before) + seq![(src@[i as int].0@, src@[i as int].1@)]);
        i = i + 1;
        assert(pairs_view(src@.subrange(0, i as int)) =~= pairs_view(src@.subrange(0, i - 1))
            + seq![(src@[i - 1].0@, src@[i - 1].1@)]);
        assert(pairs_view(out@) =~= pairs_view(old(out)@) + pairs_view(src@.subrange(0, i as int)));
    }
    assert(src@.subrange(0, i as int) =~= src@);
}

/// The assignments to apply, in order: the `.env` file's, then each rule's
/// in the order the rules come.
pub fn env_in_order(dotenv: &Vec<(String, String)>, rules: &Vec<Vec<(String, String)>>) -> (r: Vec<
    (String, String),
>)
    ensures
        pairs_view(r@) == pairs_view(dotenv@) + flattened(
            rules@.map_values(|v: Vec<(String, String)>| pairs_view(v@)),
        ),
{
    let ghost rv = rules@.map_values(|v: Vec<(String, String)>| pairs_view(v@));
    let mut r: Vec<(String, String)> = Vec::new();
    push_pairs(&mut r, dotenv);
    assert(pairs_view(r@) =~= pairs_view(dotenv@) + flattened(rv.subrange(0, 0)));
    let mut i: usize = 0;
    while i < rules.len()
        invariant
            i <= rules@.len(),
            rv == rules@.map_values(|v: Vec<(String, String)>| pairs_view(v@)),
            pairs_view(r@) == pairs_view(dotenv@) + flattened(rv.subrange(0, i as int)),
        decreases rules@.len() - i,
    {
        push_pairs(&mut r, &rules[i]);
        assert(rv.subrange(0, i + 1).drop_last() =~= rv.subrange(0, i as int));
        assert(rv.subrange(0, i + 1).last() == pairs_view(rules@[i as int]@));
        i = i + 1;
        assert(pairs_view(r@) =~= pairs_view(dotenv@) + flattened(rv.subrange(0, i as int)));
    }
    assert(rv.subrange(0, i as int) =~= rv);
    r
}

/// The last assignment to a key in two runs is the second run's, if it
/// makes one, else the first's.
pub proof fn lemma_last_value_concat(
    a: Seq<(Seq<char>, Seq<char>)>,
    b: Seq<(Seq<char>, Seq<char>)>,
    key: Seq<char>,
)
    ensures
        last_value(a + b, key) == match last_value(b, key) {
            Some(v) => Some(v),
            None => last_value(a, key),
        },
    decreases b.len(),
{
    if b.len() == 0 {
        assert(a + b =~= a);
    } else {
        assert((a + b).drop_last() =~= a + b.drop_last());
        assert((a + b).last() == b.last());
        lemma_last_value_concat(a, b.drop_last(), key);
    }
}

/// A rule's variable overrides the `.env` file's, and the `.env` file's
/// overrides the inherited one: the value a key ends with comes from the
/// rules if any assigns it, else from the file, else it is inherited.
pub proof fn lemma_rule_env_overrides_dotenv(
    dotenv: Seq<(Seq<char>, Seq<char>)>,
    rules: Seq<Seq<(Seq<char>, Seq<char>)>>,
    key: Seq<char>,
)
    ensures
        last_value(dotenv + flattened(rules), key) == match last_value(flattened(rules), key) {
            Some(v) => Some(v),
            None => last_value(dotenv, key),
        },
{
    lemma_last_value_concat(dotenv, flattened(rules), key);
}

} // verus!
