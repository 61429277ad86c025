//! Operations on lists of tokens: dropping empty tokens, removing duplicates
//! and joining with a separator.

use vstd::prelude::*;
use vstd::string::StringExecFns;

verus! {

/// The texts held by a list of strings.
pub open spec fn views(v: Seq<String>) -> Seq<Seq<char>> {
    Seq::new(v.len(), |i: int| v[i]@)
}

/// `parts` with `sep` between each pair of neighbours.
pub open spec fn joined(parts: Seq<Seq<char>>, sep: Seq<char>) -> Seq<char>
    decreases parts.len(),
{
    if parts.len() == 0 {
        Seq::empty()
    } else if parts.len() == 1 {
        parts[0]
    } else {
        joined(parts.drop_last(), sep) + sep + parts.last()
    }
}

/// `parts` without its empty tokens, the others in their order.
pub open spec fn without_empty(parts: Seq<Seq<char>>) -> Seq<Seq<char>>
    decreases parts.len(),
{
    if parts.len() == 0 {
        parts
    } else if parts.last().len() == 0 {
        without_empty(parts.drop_last())
    } else {
        without_empty(parts.drop_last()).push(parts.last())
    }
}

/// `parts` with every token that already occurred earlier removed.
pub open spec fn deduped(parts: Seq<Seq<char>>) -> Seq<Seq<char>>
    decreases parts.len(),
{
    if parts.len() == 0 {
        parts
    } else if deduped(parts.drop_last()).contains(parts.last()) {
        deduped(parts.drop_last())
    } else {
        deduped(parts.drop_last()).push(parts.last())
    }
}

/// The sum of the lengths of the tokens.
pub open spec fn total_len(parts: Seq<Seq<char>>) -> nat
    decreases parts.len(),
{
    if parts.len() == 0 {
        0
    } else {
        total_len(parts.drop_last()) + parts.last().len()
    }
}

/// The number of separators that joining `parts` puts in: one less than
/// there are tokens, and none where there is no token.
pub open spec fn separator_count(parts: Seq<Seq<char>>) -> nat {
    if parts.len() == 0 {
        0
    } else {
        (parts.len() - 1) as nat
    }
}

/// Whether the token at `i` occurs nowhere before `i`.
pub open spec fn is_first_seen(parts: Seq<Seq<char>>, i: int) -> bool {
    0 <= i < parts.len() && forall|j: int| 0 <= j < i ==> parts[j] != parts[i]
}

/// The positions of the tokens that occur nowhere before, in rising order.
pub open spec fn first_seen(parts: Seq<Seq<char>>) -> Seq<int>
    decreases parts.len(),
{
    if parts.len() == 0 {
        Seq::empty()
    } else if is_first_seen(parts, parts.len() - 1) {
        first_seen(parts.drop_last()).push(parts.len() - 1)
    } else {
        first_seen(parts.drop_last())
    }
}

/// Dropping the empty tokens is filtering by "not empty": every other token
/// stays, in its place among the others.
pub proof fn lemma_without_empty_is_filter(parts: Seq<Seq<char>>)
    ensures
        without_empty(parts) == parts.filter(|t: Seq<char>| t.len() > 0),
    decreases parts.len(),
{
    reveal(Seq::filter);
    if parts.len() > 0 {
        lemma_without_empty_is_filter(parts.drop_last());
    }
}

/// Joining puts the separator between neighbours and nowhere else: the
/// joined text is as long as the tokens together and one separator for each
/// token but the first.
pub proof fn lemma_joined_len(parts: Seq<Seq<char>>, sep: Seq<char>)
    ensures
        joined(parts, sep).len() == total_len(parts) + separator_count(parts) * sep.len(),
    decreases parts.len(),
{
    let m = sep.len() as int;
    if parts.len() == 0 {
        assert(0 * m == 0) by (nonlinear_arith);
    } else if parts.len() == 1 {
        assert(total_len(parts.drop_last()) == 0);
        assert(parts.last() == parts[0]);
        assert(0 * m == 0) by (nonlinear_arith);
    } else {
        let head = parts.drop_last();
        lemma_joined_len(head, sep);
        let n = parts.len() as int;
        assert(separator_count(head) == n - 2);
        assert(separator_count(parts) == n - 1);
        assert((n - 2) * m + m == (n - 1) * m) by (nonlinear_arith);
        assert(joined(parts, sep).len() == joined(head, sep).len() + m + parts.last().len());
    }
}

/// Removing duplicates keeps a token exactly where it is seen first: the
/// result holds the tokens at the positions [`first_seen`], in that order.
/// So nothing occurs twice in it, and everything that occurred still does.
pub proof fn lemma_deduped_first_seen(parts: Seq<Seq<char>>)
    ensures
        deduped(parts).no_duplicates(),
        forall|x: Seq<char>| parts.contains(x) <==> deduped(parts).contains(x),
        deduped(parts).len() == first_seen(parts).len(),
        forall|k: int|
            0 <= k < first_seen(parts).len() ==> is_first_seen(parts, #[trigger] first_seen(parts)[k])
                && deduped(parts)[k] == parts[first_seen(parts)[k]],
        forall|a: int, b: int|
            0 <= a < b < first_seen(parts).len() ==> #[trigger] first_seen(parts)[a]
                < #[trigger] first_seen(parts)[b],
        forall|i: int| is_first_seen(parts, i) ==> first_seen(parts).contains(i),
    decreases parts.len(),
{
    if parts.len() > 0 {
        let head = parts.drop_last();
        let last = parts.last();
        let n = parts.len() - 1;
        lemma_deduped_first_seen(head);
        assert(head.contains(last) <==> !is_first_seen(parts, n)) by {
            if head.contains(last) {
                let j = choose|j: int| 0 <= j < head.len() && head[j] == last;
                assert(parts[j] == parts[n]);
            } else {
                assert forall|j: int| 0 <= j < n implies parts[j] != parts[n] by {
                    assert(head[j] == parts[j]);
                }
            }
        }
        assert forall|i: int| 0 <= i < n implies (is_first_seen(head, i) <==> is_first_seen(
            parts,
            i,
        )) by {
            assert forall|j: int| 0 <= j <= i implies head[j] == parts[j] by {}
        }
        let d = deduped(parts);
        let f = first_seen(parts);
        assert forall|x: Seq<char>| parts.contains(x) <==> d.contains(x) by {
            if parts.contains(x) {
                let j = choose|j: int| 0 <= j < parts.len() && parts[j] == x;
                if j < n {
                    assert(head[j] == x);
                    assert(head.contains(x));
                    assert(deduped(head).contains(x));
                    let k = choose|k: int| 0 <= k < deduped(head).len() && deduped(head)[k] == x;
                    assert(d[k] == x);
                    assert(d.contains(x));
                } else if head.contains(x) {
                    assert(deduped(head).contains(x));
                    let k = choose|k: int| 0 <= k < deduped(head).len() && deduped(head)[k] == x;
                    assert(d[k] == x);
                    assert(d.contains(x));
                } else {
                    assert(!deduped(head).contains(x));
                    assert(d[d.len() - 1] == x);
                    assert(d.contains(x));
                }
            }
            if d.contains(x) {
                let k = choose|k: int| 0 <= k < d.len() && d[k] == x;
                if k < deduped(head).len() {
                    assert(deduped(head)[k] == x);
                    assert(deduped(head).contains(x));
                    assert(head.contains(x));
                    let j = choose|j: int| 0 <= j < head.len() && head[j] == x;
                    assert(head[j] == parts[j]);
                    assert(parts.contains(x));
                } else {
                    assert(parts[n] == x);
                    assert(parts.contains(x));
                }
            }
        }
        assert forall|k: int| 0 <= k < f.len() implies is_first_seen(parts, #[trigger] f[k])
            && d[k] == parts[f[k]] by {
            if k < first_seen(head).len() {
                let i = first_seen(head)[k];
                assert(is_first_seen(head, i));
                assert(head[i] == parts[i]);
            }
        }
        assert forall|a: int, b: int| 0 <= a < b < f.len() implies #[trigger] f[a]
            < #[trigger] f[b] by {
            if b >= first_seen(head).len() {
                assert(is_first_seen(head, first_seen(head)[a]));
            }
        }
        assert forall|i: int| is_first_seen(parts, i) implies f.contains(i) by {
            if i < n {
                assert(first_seen(head).contains(i));
                let k = choose|k: int| 0 <= k < first_seen(head).len() && first_seen(head)[k]
                    == i;
                assert(f[k] == i);
            } else {
                assert(f[f.len() - 1] == i);
            }
        }
        assert(d.no_duplicates()) by {
            assert forall|a: int, b: int|
                0 <= a < d.len() && 0 <= b < d.len() && a != b implies d[a] != d[b] by {
                let m = deduped(head).len();
                if a < m && b < m {
                    assert(deduped(head)[a] != deduped(head)[b]);
                } else if a < m {
                    assert(deduped(head).contains(deduped(head)[a]));
                } else if b < m {
                    assert(deduped(head).contains(deduped(head)[b]));
                }
            }
        }
    }
}

/// Whether `needle` is among the tokens of `parts`.
pub fn contains_text(parts: &Vec<String>, needle: &String) -> (found: bool)
    ensures
        found == views(parts@).contains(needle@),
{
    let mut i: usize = 0;
    while i < parts.len()
        invariant
            i <= parts.len(),
            forall|k: int| 0 <= k < i ==> views(parts@)[k] != needle@,
        decreases parts.len() - i,
    {
        if parts[i] == *needle {
            assert(views(parts@)[i as int] == needle@);
            return true;
        }
        i += 1;
    }
    false
}

/// Joins `parts` with `sep` between neighbours; `sep` is used as it is.
pub fn join(parts: &Vec<String>, sep: &str) -> (line: String)
    ensures
        line@ == joined(views(parts@), sep@),
{
    let mut line = String::new();
    let mut i: usize = 0;
    while i < parts.len()
        invariant
            i <= parts.len(),
            line@ == joined(views(parts@).take(i as int), sep@),
        decreases parts.len() - i,
    {
        let ghost before = views(parts@).take(i as int);
        let ghost after = views(parts@).take(i + 1);
        proof {
            assert(after.drop_last() =~= before);
            assert(after.last() == parts@[i as int]@);
        }
        if i > 0 {
            line.append(sep);
        }
        line.append(parts[i].as_str());
        proof {
            if i == 0 {
                assert(line@ =~= after[0]);
            }
        }
        i += 1;
    }
    proof {
        assert(views(parts@).take(parts.len() as int) =~= views(parts@));
    }
    line
}

/// Drops the empty tokens and keeps the others in their order.
pub fn drop_empty(parts: Vec<String>) -> (kept: Vec<String>)
    ensures
        views(kept@) == without_empty(views(parts@)),
{
    let mut kept: Vec<String> = Vec::new();
    let mut i: usize = 0;
    while i < parts.len()
        invariant
            i <= parts.len(),
            views(kept@) == without_empty(views(parts@).take(i as int)),
        decreases parts.len() - i,
    {
        let ghost before = views(parts@).take(i as int);
        let ghost after = views(parts@).take(i + 1);
        let ghost old_kept = views(kept@);
        proof {
            assert(after.drop_last() =~= before);
            assert(after.last() == parts@[i as int]@);
        }
        if !parts[i].as_str().is_empty() {
            kept.push(parts[i].clone());
            assert(views(kept@) =~= old_kept.push(parts@[i as int]@));
        }
        i += 1;
    }
    proof {
        assert(views(parts@).take(parts.len() as int) =~= views(parts@));
    }
    kept
}

/// Keeps the first occurrence of every token, in the order of those first
/// occurrences.
pub fn unique(parts: Vec<String>) -> (kept: Vec<String>)
    ensures
        views(kept@) == deduped(views(parts@)),
{
    let mut kept: Vec<String> = Vec::new();
    let mut i: usize = 0;
    while i < parts.len()
        invariant
            i <= parts.len(),
            views(kept@) == deduped(views(parts@).take(i as int)),
        decreases parts.len() - i,
    {
        let ghost before = views(parts@).take(i as int);
        let ghost after = views(parts@).take(i + 1);
        let ghost old_kept = views(kept@);
        proof {
            assert(after.drop_last() =~= before);
            assert(after.last() == parts@[i as int]@);
        }
        if !contains_text(&kept, &parts[i]) {
            kept.push(parts[i].clone());
            assert(views(kept@) =~= old_kept.push(parts@[i as int]@));
        }
        i += 1;
    }
    proof {
        assert(views(parts@).take(parts.len() as int) =~= views(parts@));
    }
    kept
}

} // verus!
