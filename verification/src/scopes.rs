//! Normalisation of the OAuth scopes that a server advertises.

use vstd::prelude::*;

use crate::text::{
    is_white_space, law_trimming_is_idempotent, push_unique, texts, trim_margin, trimmed, with_unique, Margin,
};

verus! {

/// The scopes of `scopes` without surrounding white space, without blank ones, each kept where
/// it first occurs.
pub open spec fn distinct_scopes(scopes: Seq<Seq<char>>) -> Seq<Seq<char>>
    decreases scopes.len(),
{
    if scopes.len() == 0 {
        scopes
    } else {
        let before = distinct_scopes(scopes.drop_last());
        let scope = trimmed(scopes.last(), Margin::WhiteSpace);
        if scope.len() == 0 {
            before
        } else {
            with_unique(before, scope)
        }
    }
}

/// What `normalize_scopes` makes of an advertised list: nothing where no scope is left.
pub open spec fn normalized(scopes: Option<Seq<Seq<char>>>) -> Option<Seq<Seq<char>>> {
    match scopes {
        Some(list) if distinct_scopes(list).len() > 0 => Some(distinct_scopes(list)),
        _ => None,
    }
}

/// The texts of an optional list of strings.
pub open spec fn optional_texts(list: Option<Vec<String>>) -> Option<Seq<Seq<char>>> {
    match list {
        Some(v) => Some(texts(v@)),
        None => None,
    }
}

/// An optional list has texts where it is there, and they are those of its strings.
pub proof fn law_optional_texts(list: Option<Vec<String>>)
    ensures
        optional_texts(list) is Some <==> list is Some,
        list matches Some(v) ==> optional_texts(list)->0.len() == v@.len() && forall|i: int|
            0 <= i < v@.len() ==> #[trigger] optional_texts(list)->0[i] == v@[i]@,
{
}

/// Trims every scope, drops blank ones and repetitions, and gives `None` for an empty rest.
pub fn normalize_scopes(scopes_supported: Option<Vec<String>>) -> (r: Option<Vec<String>>)
    ensures
        optional_texts(r) == normalized(optional_texts(scopes_supported)),
        match (scopes_supported, r) {
            (None, _) => r is None,
            (Some(list), None) => forall|i: int|
                0 <= i < list@.len() ==> trimmed(
                    #[trigger] list@[i]@,
                    Margin::WhiteSpace,
                ).len() == 0,
            (Some(list), Some(kept)) => {
                &&& kept@.len() > 0
                &&& forall|k: int, m: int|
                    0 <= k < m < kept@.len() ==> #[trigger] kept@[k]@ != #[trigger] kept@[m]@
                &&& forall|i: int|
                    0 <= i < list@.len() ==> trimmed(#[trigger] list@[i]@, Margin::WhiteSpace).len()
                        == 0 || exists|k: int|
                        0 <= k < kept@.len() && #[trigger] kept@[k]@ == trimmed(
                            list@[i]@,
                            Margin::WhiteSpace,
                        )
                &&& forall|k: int|
                    0 <= k < kept@.len() ==> (#[trigger] kept@[k]@).len() > 0 && exists|i: int|
                        0 <= i < list@.len() && trimmed(#[trigger] list@[i]@, Margin::WhiteSpace)
                            == kept@[k]@
            },
        },
{
    let scopes_supported = match scopes_supported {
        Some(scopes) => scopes,
        None => return None,
    };
    let mut result: Vec<String> = Vec::new();
    let ghost all = texts(scopes_supported@);
    assert(all.take(0) =~= Seq::empty());
    assert(texts(result@) =~= Seq::empty());
    for i in 0..scopes_supported.len()
        invariant
            all == texts(scopes_supported@),
            texts(result@) == distinct_scopes(all.take(i as int)),
    {
        let scope = trim_margin(scopes_supported[i].as_str(), Margin::WhiteSpace);
        proof {
            let upto = all.take(i + 1);
            assert(upto.drop_last() =~= all.take(i as int));
            assert(upto.last() == scopes_supported@[i as int]@);
        }
        if !scope.is_empty() {
            push_unique(&mut result, scope.to_string());
        }
    }
    assert(all.take(all.len() as int) =~= all);
    proof {
        law_scopes_are_the_advertised_ones(all);
        law_blank_scopes_are_no_scopes(all);
        let kept = texts(result@);
        assert forall|i: int| 0 <= i < scopes_supported@.len() implies trimmed(
            #[trigger] scopes_supported@[i]@,
            Margin::WhiteSpace,
        ).len() == 0 || exists|k: int|
            0 <= k < result@.len() && #[trigger] result@[k]@ == trimmed(
                scopes_supported@[i]@,
                Margin::WhiteSpace,
            ) by {
            let scope = trimmed(scopes_supported@[i]@, Margin::WhiteSpace);
            assert(all[i] == scopes_supported@[i]@);
            if scope.len() > 0 {
                assert(kept.contains(scope));
                let k = choose|k: int| 0 <= k < kept.len() && kept[k] == scope;
                assert(result@[k]@ == scope);
            }
        }
        assert forall|k: int| 0 <= k < result@.len() implies (#[trigger] result@[k]@).len() > 0
            && exists|i: int|
            0 <= i < scopes_supported@.len() && trimmed(
                #[trigger] scopes_supported@[i]@,
                Margin::WhiteSpace,
            ) == result@[k]@ by {
            assert(kept[k] == result@[k]@);
            assert(kept.contains(kept[k]));
            let i = choose|i: int|
                0 <= i < all.len() && trimmed(#[trigger] all[i], Margin::WhiteSpace) == kept[k];
            assert(all[i] == scopes_supported@[i]@);
        }
        assert forall|k: int, m: int| 0 <= k < m < result@.len() implies #[trigger] result@[k]@
            != #[trigger] result@[m]@ by {
            assert(kept[k] == result@[k]@ && kept[m] == result@[m]@);
        }
        assert forall|i: int| result@.len() == 0 && 0 <= i < scopes_supported@.len() implies trimmed(
            #[trigger] scopes_supported@[i]@,
            Margin::WhiteSpace,
        ).len() == 0 by {
            assert(all[i] == scopes_supported@[i]@);
        }
    }
    if result.is_empty() {
        None
    } else {
        Some(result)
    }
}

/// A normalised list holds exactly the texts that some scope is trimmed to, but for the blank
/// one, and holds each of them once.
pub proof fn law_scopes_are_the_advertised_ones(scopes: Seq<Seq<char>>)
    ensures
        distinct_scopes(scopes).no_duplicates(),
        forall|scope: Seq<char>| #[trigger]
            distinct_scopes(scopes).contains(scope) <==> scope.len() > 0 && exists|i: int|
                0 <= i < scopes.len() && trimmed(#[trigger] scopes[i], Margin::WhiteSpace) == scope,
    decreases scopes.len(),
{
    if scopes.len() > 0 {
        let init = scopes.drop_last();
        let before = distinct_scopes(init);
        let last = trimmed(scopes.last(), Margin::WhiteSpace);
        let all = distinct_scopes(scopes);
        law_scopes_are_the_advertised_ones(init);
        assert forall|scope: Seq<char>| #[trigger] all.contains(scope) <==> scope.len() > 0
            && exists|i: int|
            0 <= i < scopes.len() && trimmed(#[trigger] scopes[i], Margin::WhiteSpace) == scope by {
            let advertised = scope.len() > 0 && exists|i: int|
                0 <= i < scopes.len() && trimmed(#[trigger] scopes[i], Margin::WhiteSpace) == scope;
            if all.contains(scope) {
                if before.contains(scope) {
                    let i = choose|i: int|
                        0 <= i < init.len() && trimmed(#[trigger] init[i], Margin::WhiteSpace)
                            == scope;
                    assert(scopes[i] == init[i]);
                } else {
                    assert(scope == last);
                    assert(scopes[scopes.len() - 1] == scopes.last());
                }
                assert(advertised);
            }
            if advertised {
                let i = choose|i: int|
                    0 <= i < scopes.len() && trimmed(#[trigger] scopes[i], Margin::WhiteSpace)
                        == scope;
                if i < init.len() {
                    assert(init[i] == scopes[i]);
                    assert(before.contains(scope));
                    let k = choose|k: int| 0 <= k < before.len() && before[k] == scope;
                    assert(all[k] == scope);
                } else {
                    assert(scope == last);
                    if !before.contains(last) {
                        assert(all[before.len() as int] == last);
                    }
                }
                assert(all.contains(scope));
            }
        }
    }
}

/// Every scope of a normalised list is trimmed and not blank.
pub proof fn law_scopes_are_clean(scopes: Seq<Seq<char>>)
    ensures
        forall|i: int|
            0 <= i < distinct_scopes(scopes).len() ==> (#[trigger] distinct_scopes(scopes)[i]).len()
                > 0 && trimmed(distinct_scopes(scopes)[i], Margin::WhiteSpace) == distinct_scopes(
                scopes,
            )[i],
    decreases scopes.len(),
{
    if scopes.len() > 0 {
        let before = distinct_scopes(scopes.drop_last());
        let all = distinct_scopes(scopes);
        law_scopes_are_clean(scopes.drop_last());
        law_trimming_is_idempotent(scopes.last(), Margin::WhiteSpace);
        assert forall|i: int| 0 <= i < all.len() implies (#[trigger] all[i]).len() > 0 && trimmed(
            all[i],
            Margin::WhiteSpace,
        ) == all[i] by {
            if i < before.len() {
                assert(all[i] == before[i]);
            }
        }
    }
}

/// A scope keeps the place of its first occurrence: more scopes at the end only ever add to the
/// end of a normalised list.
pub proof fn law_scopes_keep_their_order(scopes: Seq<Seq<char>>, more: Seq<Seq<char>>)
    ensures
        distinct_scopes(scopes).is_prefix_of(distinct_scopes(scopes + more)),
    decreases more.len(),
{
    if more.len() == 0 {
        assert(scopes + more =~= scopes);
    } else {
        law_scopes_keep_their_order(scopes, more.drop_last());
        assert((scopes + more).drop_last() =~= scopes + more.drop_last());
    }
}

/// A list of distinct, trimmed scopes that are not blank is normalised already.
proof fn lemma_clean_scopes_stay(scopes: Seq<Seq<char>>)
    requires
        scopes.no_duplicates(),
        forall|i: int|
            0 <= i < scopes.len() ==> (#[trigger] scopes[i]).len() > 0 && trimmed(
                scopes[i],
                Margin::WhiteSpace,
            ) == scopes[i],
    ensures
        distinct_scopes(scopes) == scopes,
    decreases scopes.len(),
{
    if scopes.len() > 0 {
        let init = scopes.drop_last();
        lemma_clean_scopes_stay(init);
        assert(!init.contains(scopes.last()));
        assert(init.push(scopes.last()) =~= scopes);
    }
}

/// Normalising twice is normalising once.
pub proof fn law_normalizing_is_idempotent(scopes: Option<Seq<Seq<char>>>)
    ensures
        normalized(normalized(scopes)) == normalized(scopes),
{
    if let Some(list) = scopes {
        law_scopes_are_clean(list);
        law_scopes_are_the_advertised_ones(list);
        lemma_clean_scopes_stay(distinct_scopes(list));
    }
}

/// No list is given where every scope is blank, and a list is given where one is not.
pub proof fn law_blank_scopes_are_no_scopes(scopes: Seq<Seq<char>>)
    ensures
        normalized(Some(scopes)) is None <==> forall|i: int|
            0 <= i < scopes.len() ==> trimmed(#[trigger] scopes[i], Margin::WhiteSpace).len() == 0,
{
    let all = distinct_scopes(scopes);
    law_scopes_are_the_advertised_ones(scopes);
    if all.len() > 0 {
        assert(all.contains(all[0]));
    }
    if exists|i: int|
        0 <= i < scopes.len() && trimmed(#[trigger] scopes[i], Margin::WhiteSpace).len() > 0 {
        let i = choose|i: int|
            0 <= i < scopes.len() && trimmed(#[trigger] scopes[i], Margin::WhiteSpace).len() > 0;
        assert(all.contains(trimmed(scopes[i], Margin::WhiteSpace)));
    }
}

/// A scope stands in the normalised list before another one only where it is advertised before it.
proof fn lemma_scopes_in_order(scopes: Seq<Seq<char>>, k: int, m: int, j: int)
    requires
        0 <= k < m < distinct_scopes(scopes).len(),
        0 <= j < scopes.len(),
        trimmed(scopes[j], Margin::WhiteSpace) == distinct_scopes(scopes)[m],
    ensures
        exists|i: int|
            0 <= i < j && trimmed(#[trigger] scopes[i], Margin::WhiteSpace) == distinct_scopes(
                scopes,
            )[k],
    decreases scopes.len(),
{
    let init = scopes.drop_last();
    let before = distinct_scopes(init);
    let all = distinct_scopes(scopes);
    law_scopes_are_the_advertised_ones(init);
    law_scopes_are_clean(scopes);
    assert(before.contains(before[k]));
    assert(all[k] == before[k]);
    if j < init.len() {
        assert(init[j] == scopes[j]);
        assert(all[m].len() > 0);
        assert(before.contains(all[m]));
        if m == before.len() {
            law_scopes_are_the_advertised_ones(scopes);
            let n = choose|n: int| 0 <= n < before.len() && before[n] == all[m];
            assert(all[n] == all[m]);
        }
        lemma_scopes_in_order(init, k, m, j);
        let i = choose|i: int|
            0 <= i < j && trimmed(#[trigger] init[i], Margin::WhiteSpace) == before[k];
        assert(scopes[i] == init[i]);
    } else {
        let i = choose|i: int|
            0 <= i < init.len() && trimmed(#[trigger] init[i], Margin::WhiteSpace) == before[k];
        assert(scopes[i] == init[i]);
    }
}

/// A normalised list holds every advertised scope but blank ones, without the white space around
/// it, once, in the order in which the scopes are first advertised, and nothing else. There is no
/// list where there is no such scope, and none where none was advertised.
pub proof fn law_normalized_scopes(scopes: Seq<Seq<char>>)
    ensures
        normalized(None) is None,
        match normalized(Some(scopes)) {
            None => forall|i: int|
                0 <= i < scopes.len() ==> trimmed(#[trigger] scopes[i], Margin::WhiteSpace).len()
                    == 0,
            Some(kept) => {
                &&& kept.len() > 0
                &&& forall|i: int|
                    0 <= i < scopes.len() ==> trimmed(
                        #[trigger] scopes[i],
                        Margin::WhiteSpace,
                    ).len() == 0 || kept.contains(trimmed(scopes[i], Margin::WhiteSpace))
                &&& forall|k: int|
                    0 <= k < kept.len() ==> (#[trigger] kept[k]).len() > 0 && exists|i: int|
                        0 <= i < scopes.len() && trimmed(#[trigger] scopes[i], Margin::WhiteSpace)
                            == kept[k]
                &&& forall|k: int, m: int|
                    0 <= k < m < kept.len() ==> #[trigger] kept[k] != #[trigger] kept[m] && forall|
                        j: int,
                    |
                        0 <= j < scopes.len() && trimmed(#[trigger] scopes[j], Margin::WhiteSpace)
                            == kept[m] ==> exists|i: int|
                            0 <= i < j && trimmed(#[trigger] scopes[i], Margin::WhiteSpace)
                                == kept[k]
            },
        },
{
    let kept = distinct_scopes(scopes);
    law_scopes_are_the_advertised_ones(scopes);
    law_blank_scopes_are_no_scopes(scopes);
    assert forall|i: int| 0 <= i < scopes.len() implies trimmed(
        #[trigger] scopes[i],
        Margin::WhiteSpace,
    ).len() == 0 || kept.contains(trimmed(scopes[i], Margin::WhiteSpace)) by {
        let scope = trimmed(scopes[i], Margin::WhiteSpace);
        assert(kept.contains(scope) <==> scope.len() > 0 && exists|n: int|
            0 <= n < scopes.len() && trimmed(#[trigger] scopes[n], Margin::WhiteSpace) == scope);
    }
    assert forall|k: int| 0 <= k < kept.len() implies (#[trigger] kept[k]).len() > 0 && exists|
        i: int,
    | 0 <= i < scopes.len() && trimmed(#[trigger] scopes[i], Margin::WhiteSpace) == kept[k] by {
        assert(kept.contains(kept[k]));
    }
    assert forall|k: int, m: int| 0 <= k < m < kept.len() implies #[trigger] kept[k]
        != #[trigger] kept[m] && forall|j: int|
        0 <= j < scopes.len() && trimmed(#[trigger] scopes[j], Margin::WhiteSpace) == kept[m]
            ==> exists|i: int|
            0 <= i < j && trimmed(#[trigger] scopes[i], Margin::WhiteSpace) == kept[k] by {
        assert forall|j: int|
            0 <= j < scopes.len() && trimmed(#[trigger] scopes[j], Margin::WhiteSpace)
                == kept[m] implies exists|i: int|
            0 <= i < j && trimmed(#[trigger] scopes[i], Margin::WhiteSpace) == kept[k] by {
            lemma_scopes_in_order(scopes, k, m, j);
        }
    }
}

/// A list of distinct scopes without white space at their ends, none of them empty, comes back
/// as it is, however long it is.
pub proof fn law_clean_scopes_are_kept(scopes: Seq<Seq<char>>)
    requires
        scopes.len() > 0,
        forall|i: int, j: int|
            0 <= i < j < scopes.len() ==> #[trigger] scopes[i] != #[trigger] scopes[j],
        forall|i: int|
            0 <= i < scopes.len() ==> (#[trigger] scopes[i]).len() > 0 && !is_white_space(
                scopes[i].first(),
            ) && !is_white_space(scopes[i].last()),
    ensures
        normalized(Some(scopes)) == Some(scopes),
{
    assert forall|i: int| 0 <= i < scopes.len() implies (#[trigger] scopes[i]).len() > 0 && trimmed(
        scopes[i],
        Margin::WhiteSpace,
    ) == scopes[i] by {
        assert(!Margin::WhiteSpace.has(scopes[i].first()));
    }
    lemma_clean_scopes_stay(scopes);
}

} // verus!
