//! The order in which proxy rules are tried.

use vstd::prelude::*;

use crate::settings::file::{def_views, Proxy, ProxyView};
use crate::text::{count_char, occurrences};

verus! {

/// How specific a path pattern is: its length in bytes, and its number of `*` wildcards.
pub open spec fn specificity(source: Seq<char>) -> (nat, nat) {
    (vstd::utf8::encode_utf8(source).len(), occurrences(source, '*'))
}

/// A longer pattern is more specific than a shorter one, and of two equally long ones the one with
/// fewer wildcards.
pub open spec fn more_specific(a: (nat, nat), b: (nat, nat)) -> bool {
    a.0 > b.0 || (a.0 == b.0 && a.1 < b.1)
}

/// The rules come from the most specific to the least.
pub open spec fn by_specificity(defs: Seq<ProxyView>) -> bool {
    forall|i: int, j: int|
        0 <= i < j < defs.len() ==> !more_specific(
            specificity((#[trigger] defs[j]).source),
            specificity((#[trigger] defs[i]).source),
        )
}

/// The rules that are as specific as `key`, in the order in which they stand in `defs`.
pub open spec fn with_specificity(defs: Seq<ProxyView>, key: (nat, nat)) -> Seq<ProxyView> {
    defs.filter(|def: ProxyView| specificity(def.source) == key)
}

/// `sorted` with `def` put in behind the rules that are at least as specific.
pub open spec fn placed(sorted: Seq<ProxyView>, def: ProxyView) -> Seq<ProxyView>
    decreases sorted.len(),
{
    if sorted.len() > 0 && more_specific(
        specificity(def.source),
        specificity(sorted.last().source),
    ) {
        placed(sorted.drop_last(), def).push(sorted.last())
    } else {
        sorted.push(def)
    }
}

/// The rules in the order in which they are tried.
pub open spec fn ranked(defs: Seq<ProxyView>) -> Seq<ProxyView>
    decreases defs.len(),
{
    if defs.len() == 0 {
        Seq::empty()
    } else {
        placed(ranked(defs.drop_last()), defs.last())
    }
}

proof fn lemma_placed_at(sorted: Seq<ProxyView>, def: ProxyView, j: int)
    requires
        0 <= j <= sorted.len(),
        forall|k: int|
            j <= k < sorted.len() ==> more_specific(
                specificity(def.source),
                specificity((#[trigger] sorted[k]).source),
            ),
        j > 0 ==> !more_specific(specificity(def.source), specificity(sorted[j - 1].source)),
    ensures
        placed(sorted, def) == sorted.insert(j, def),
    decreases sorted.len(),
{
    if j < sorted.len() {
        assert(sorted[sorted.len() - 1] == sorted.last());
        assert forall|k: int| j <= k < sorted.drop_last().len() implies more_specific(
            specificity(def.source),
            specificity((#[trigger] sorted.drop_last()[k]).source),
        ) by {
            assert(sorted.drop_last()[k] == sorted[k]);
        }
        lemma_placed_at(sorted.drop_last(), def, j);
        assert(sorted.drop_last().insert(j, def).push(sorted.last()) =~= sorted.insert(j, def));
    } else {
        assert(sorted.push(def) =~= sorted.insert(j, def));
    }
}

proof fn lemma_placed(sorted: Seq<ProxyView>, def: ProxyView)
    ensures
        placed(sorted, def).len() == sorted.len() + 1,
        placed(sorted, def).to_multiset() == sorted.to_multiset().insert(def),
        by_specificity(sorted) ==> by_specificity(placed(sorted, def)),
    decreases sorted.len(),
{
    broadcast use vstd::seq_lib::group_to_multiset_ensures;

    if sorted.len() > 0 && more_specific(
        specificity(def.source),
        specificity(sorted.last().source),
    ) {
        let front = sorted.drop_last();
        let out = placed(front, def);
        lemma_placed(front, def);
        assert(front.push(sorted.last()) =~= sorted);
        assert(out.push(sorted.last()).to_multiset() =~= sorted.to_multiset().insert(def));
        if by_specificity(sorted) {
            assert(by_specificity(front)) by {
                assert forall|i: int, j: int| 0 <= i < j < front.len() implies !more_specific(
                    specificity((#[trigger] front[j]).source),
                    specificity((#[trigger] front[i]).source),
                ) by {
                    assert(front[i] == sorted[i] && front[j] == sorted[j]);
                }
            }
            let all = out.push(sorted.last());
            assert forall|i: int, j: int| 0 <= i < j < all.len() implies !more_specific(
                specificity((#[trigger] all[j]).source),
                specificity((#[trigger] all[i]).source),
            ) by {
                if j < out.len() {
                    assert(all[i] == out[i] && all[j] == out[j]);
                } else {
                    assert(out.contains(out[i]));
                    assert(out.to_multiset().count(out[i]) > 0);
                    assert(out[i] == def || front.to_multiset().count(out[i]) > 0);
                    if out[i] != def {
                        assert(front.contains(out[i]));
                        let k = choose|k: int| 0 <= k < front.len() && front[k] == out[i];
                        assert(sorted[k] == out[i]);
                        assert(sorted[sorted.len() - 1] == sorted.last());
                    }
                }
            }
        }
    } else {
        assert(sorted.push(def).to_multiset() =~= sorted.to_multiset().insert(def));
        if by_specificity(sorted) {
            let all = sorted.push(def);
            assert forall|i: int, j: int| 0 <= i < j < all.len() implies !more_specific(
                specificity((#[trigger] all[j]).source),
                specificity((#[trigger] all[i]).source),
            ) by {
                if j < sorted.len() {
                    assert(all[i] == sorted[i] && all[j] == sorted[j]);
                } else if i < sorted.len() - 1 {
                    assert(!more_specific(
                        specificity(sorted[sorted.len() - 1].source),
                        specificity(sorted[i].source),
                    ));
                }
            }
        }
    }
}

/// Ranking rules orders them by specificity, and neither drops nor adds any.
pub proof fn law_ranked_is_sorted(defs: Seq<ProxyView>)
    ensures
        by_specificity(ranked(defs)),
        ranked(defs).to_multiset() == defs.to_multiset(),
        ranked(defs).len() == defs.len(),
    decreases defs.len(),
{
    broadcast use vstd::seq_lib::group_to_multiset_ensures;

    if defs.len() > 0 {
        law_ranked_is_sorted(defs.drop_last());
        lemma_placed(ranked(defs.drop_last()), defs.last());
        assert(defs.drop_last().push(defs.last()) =~= defs);
    } else {
        assert(defs =~= Seq::empty());
    }
}

proof fn lemma_placed_is_stable(sorted: Seq<ProxyView>, def: ProxyView, key: (nat, nat))
    ensures
        with_specificity(placed(sorted, def), key) == with_specificity(sorted.push(def), key),
    decreases sorted.len(),
{
    reveal(Seq::filter);
    assert(sorted.push(def).drop_last() =~= sorted);
    if sorted.len() > 0 && more_specific(
        specificity(def.source),
        specificity(sorted.last().source),
    ) {
        let front = sorted.drop_last();
        let last = sorted.last();
        let keep = |d: ProxyView| specificity(d.source) == key;
        let out = placed(front, def);
        lemma_placed_is_stable(front, def, key);
        assert(front.push(def).drop_last() =~= front);
        assert(out.push(last).drop_last() =~= out);
        assert(!(keep(last) && keep(def)));
        assert(out.push(last).filter(keep) == if keep(last) {
            out.filter(keep).push(last)
        } else {
            out.filter(keep)
        });
        assert(front.push(def).filter(keep) == if keep(def) {
            front.filter(keep).push(def)
        } else {
            front.filter(keep)
        });
        assert(sorted.filter(keep) == if keep(last) {
            front.filter(keep).push(last)
        } else {
            front.filter(keep)
        });
    }
}

/// Rules that are equally specific are tried in the order in which they were given.
pub proof fn law_ranked_is_stable(defs: Seq<ProxyView>, key: (nat, nat))
    ensures
        with_specificity(ranked(defs), key) == with_specificity(defs, key),
    decreases defs.len(),
{
    reveal(Seq::filter);
    if defs.len() > 0 {
        let front = defs.drop_last();
        law_ranked_is_stable(front, key);
        lemma_placed_is_stable(ranked(front), defs.last(), key);
        assert(ranked(front).push(defs.last()).drop_last() =~= ranked(front));
    } else {
        assert(defs =~= Seq::empty());
    }
}

/// Measures how specific a pattern is.
pub fn specificity_key(source: &str) -> (r: (usize, usize))
    ensures
        (r.0 as nat, r.1 as nat) == specificity(source@),
{
    let wildcards = count_char(source, '*');
    (source.as_bytes().len(), wildcards)
}

/// Sorts proxy rules so that the first one that matches a path is the most specific that does:
/// longer patterns first, of equally long ones those with fewer `*` wildcards. Rules that are
/// equally specific keep their order.
pub fn sort_proxy_defs_by_specificity(defs: &mut Vec<Proxy>)
    ensures
        def_views(final(defs)@) == ranked(def_views(old(defs)@)),
        final(defs)@.len() == old(defs)@.len(),
        by_specificity(def_views(final(defs)@)),
        forall|key: (nat, nat)| #[trigger]
            with_specificity(def_views(final(defs)@), key) == with_specificity(
                def_views(old(defs)@),
                key,
            ),
        def_views(final(defs)@).to_multiset() == def_views(old(defs)@).to_multiset(),
{
    let n = defs.len();
    let ghost start = defs@;
    let mut i: usize = 0;
    while i < n
        invariant
            n == defs.len(),
            i <= n,
            start.len() == n,
            def_views(defs@.take(i as int)) == ranked(def_views(start.take(i as int))),
            defs@.skip(i as int) == start.skip(i as int),
        decreases n - i,
    {
        let ghost before = defs@;
        let key = specificity_key(&defs[i].source);
        let mut j: usize = i;
        while j > 0
            invariant_except_break
                j <= i < n,
                n == defs.len(),
                defs@ == before,
                (key.0 as nat, key.1 as nat) == specificity(before[i as int].source@),
                forall|k: int|
                    j <= k < i ==> more_specific(
                        specificity(before[i as int].source@),
                        specificity((#[trigger] before[k]).source@),
                    ),
            ensures
                j <= i < n,
                n == defs.len(),
                defs@ == before,
                forall|k: int|
                    j <= k < i ==> more_specific(
                        specificity(before[i as int].source@),
                        specificity((#[trigger] before[k]).source@),
                    ),
                j > 0 ==> !more_specific(
                    specificity(before[i as int].source@),
                    specificity(before[j - 1].source@),
                ),
            decreases j,
        {
            let other = specificity_key(&defs[j - 1].source);
            if key.0 > other.0 || (key.0 == other.0 && key.1 < other.1) {
                j -= 1;
            } else {
                break;
            }
        }
        let moved = defs.remove(i);
        defs.insert(j, moved);
        proof {
            let sorted = def_views(before.take(i as int));
            assert(before.skip(i as int)[0] == start.skip(i as int)[0]);
            assert(def_views(start.take(i + 1)).drop_last() =~= def_views(start.take(i as int)));
            assert(def_views(start.take(i + 1)).last() == before[i as int]@);
            lemma_placed_at(sorted, before[i as int]@, j as int);
            assert(defs@ =~= before.remove(i as int).insert(j as int, before[i as int]));
            assert(def_views(defs@.take(i + 1)) =~= sorted.insert(j as int, before[i as int]@));
            assert(defs@.skip(i + 1) =~= before.skip(i as int).skip(1));
            assert(start.skip(i + 1) =~= start.skip(i as int).skip(1));
        }
        i += 1;
    }
    proof {
        assert(defs@.take(i as int) =~= defs@);
        assert(start.take(i as int) =~= start);
        let all = def_views(start);
        law_ranked_is_sorted(all);
        assert forall|key: (nat, nat)| #[trigger]
            with_specificity(ranked(all), key) == with_specificity(all, key) by {
            law_ranked_is_stable(all, key);
        }
    }
}

} // verus!
