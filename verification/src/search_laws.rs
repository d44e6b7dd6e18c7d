//! Properties of search planning, result filtering and merging that hold for
//! every input.

use vstd::prelude::*;

use crate::perplexity::{
    domain_entries, entry_domain, excluded_sites, first_by_url, has_url, included_sites,
    interleaved, is_exclusion, is_prefix, lemma_first_by_url_prefix, lemma_interleaved_prefix, is_valid_domain, is_web_scheme, kept_results, labels, lens_allows, lens_of, host_matches,
    matches_any, merged, plan_of, rank_items, request_admits, to_search_result, trim_trailing_dots,
    lemma_labels_nonempty, valid_label, validation_error, KagiResultView, LensView, SearchRequestView,
};
use crate::text::{ascii_lower, is_ascii_alnum, lower};

verus! {

/// Every valid request becomes one upstream request per query (1 to 5 of them),
/// each with the plan's limit (1 to 20), the JSON format and the web workflow.
pub proof fn law_one_request_per_query(v: SearchRequestView)
    requires
        validation_error(v) is None,
    ensures
        plan_of(v).requests.len() == v.queries.len(),
        1 <= plan_of(v).requests.len() <= 5,
        1 <= plan_of(v).limit <= 20,
        forall|i: int|
            0 <= i < plan_of(v).requests.len() ==> {
                &&& (#[trigger] plan_of(v).requests[i]).limit == plan_of(v).limit
                &&& plan_of(v).requests[i].format == "json"
                &&& plan_of(v).requests[i].workflow == "search"
                &&& plan_of(v).requests[i].lens == lens_of(domain_entries(v))
            },
{
}

/// `max_tokens_per_page` is validated and otherwise ignored: two requests that
/// differ only in it are planned alike.
pub proof fn law_token_budget_ignored(v: SearchRequestView, w: SearchRequestView)
    requires
        v.queries == w.queries,
        v.max_results == w.max_results,
        v.domains == w.domains,
        v.country == w.country,
        validation_error(v) is None,
        validation_error(w) is None,
    ensures
        plan_of(v) == plan_of(w),
{
    assert(plan_of(v).requests =~= plan_of(w).requests);
}

proof fn lemma_lower_keeps_alnum(c: char)
    ensures
        is_ascii_alnum(ascii_lower(c)) == is_ascii_alnum(c),
        ascii_lower(ascii_lower(c)) == ascii_lower(c),
        ascii_lower(c) == '-' <==> c == '-',
        ascii_lower(c) == '.' <==> c == '.',
{
}

proof fn lemma_labels_of_lower(d: Seq<char>)
    ensures
        labels(lower(d)).len() == labels(d).len(),
        forall|k: int| 0 <= k < labels(d).len() ==> #[trigger] labels(lower(d))[k] == lower(labels(d)[k]),
    decreases d.len(),
{
    if d.len() > 0 {
        let ld = lower(d);
        lemma_labels_of_lower(d.drop_last());
        assert(ld.drop_last() =~= lower(d.drop_last()));
        assert(ld.last() == ascii_lower(d.last()));
        lemma_lower_keeps_alnum(d.last());
        lemma_labels_nonempty(d.drop_last());
        let prev = labels(d.drop_last());
        let lprev = labels(ld.drop_last());
        assert(lprev.len() == prev.len());
        if d.last() == '.' {
            assert(labels(ld) == lprev.push(Seq::<char>::empty()));
            assert(labels(d) == prev.push(Seq::<char>::empty()));
            assert(lower(Seq::<char>::empty()) =~= Seq::<char>::empty());
            assert forall|k: int| 0 <= k < labels(d).len() implies #[trigger] labels(ld)[k] == lower(
                labels(d)[k],
            ) by {
                if k < prev.len() {
                    assert(lprev[k] == lower(prev[k]));
                }
            }
        } else {
            let n = prev.len() - 1;
            assert(labels(ld) == lprev.update(n, lprev.last().push(ld.last())));
            assert(labels(d) == prev.update(n, prev.last().push(d.last())));
            assert(lprev.last() == lower(prev.last()));
            assert(lower(prev.last().push(d.last())) =~= lower(prev.last()).push(ascii_lower(d.last())));
            assert forall|k: int| 0 <= k < labels(d).len() implies #[trigger] labels(ld)[k] == lower(
                labels(d)[k],
            ) by {
                if k < n {
                    assert(lprev[k] == lower(prev[k]));
                }
            }
        }
    }
}

/// Lower-casing a valid host name leaves it valid.
pub proof fn law_lower_keeps_domain_valid(d: Seq<char>)
    requires
        is_valid_domain(d),
    ensures
        is_valid_domain(lower(d)),
        lower(lower(d)) == lower(d),
{
    lemma_labels_of_lower(d);
    assert forall|k: int| 0 <= k < labels(lower(d)).len() implies valid_label(
        #[trigger] labels(lower(d))[k],
    ) by {
        let l = labels(d)[k];
        assert(valid_label(l));
        lemma_lower_keeps_alnum(l[0]);
        lemma_lower_keeps_alnum(l.last());
        assert forall|m: int| 0 <= m < l.len() implies is_ascii_alnum(#[trigger] lower(l)[m])
            || lower(l)[m] == '-' by {
            lemma_lower_keeps_alnum(l[m]);
        }
    }
    assert forall|i: int| 0 <= i < d.len() implies #[trigger] lower(lower(d))[i] == lower(d)[i] by {
        lemma_lower_keeps_alnum(d[i]);
    }
    assert(lower(lower(d)) =~= lower(d));
}

proof fn lemma_sites_valid(es: Seq<Seq<char>>)
    requires
        forall|j: int| 0 <= j < es.len() ==> is_valid_domain(entry_domain(#[trigger] es[j])),
    ensures
        forall|i: int|
            0 <= i < included_sites(es).len() ==> is_valid_domain(#[trigger] included_sites(es)[i])
                && lower(included_sites(es)[i]) == included_sites(es)[i],
        forall|i: int|
            0 <= i < excluded_sites(es).len() ==> is_valid_domain(#[trigger] excluded_sites(es)[i])
                && lower(excluded_sites(es)[i]) == excluded_sites(es)[i],
    decreases es.len(),
{
    if es.len() > 0 {
        let p = es.drop_last();
        assert forall|j: int| 0 <= j < p.len() implies is_valid_domain(entry_domain(#[trigger] p[j])) by {
            assert(p[j] == es[j]);
        }
        lemma_sites_valid(p);
        assert(is_valid_domain(entry_domain(es[es.len() - 1])));
        let e = entry_domain(es.last());
        law_lower_keeps_domain_valid(e);
        if !is_exclusion(es.last()) {
            assert(e == es.last());
            let ip = included_sites(p);
            assert(included_sites(es) == ip.push(lower(es.last())));
            assert forall|i: int| 0 <= i < included_sites(es).len() implies is_valid_domain(
                #[trigger] included_sites(es)[i],
            ) && lower(included_sites(es)[i]) == included_sites(es)[i] by {
                if i < ip.len() {
                    assert(included_sites(es)[i] == ip[i]);
                }
            }
        } else {
            let xp = excluded_sites(p);
            assert(excluded_sites(es) == xp.push(lower(e)));
            assert forall|i: int| 0 <= i < excluded_sites(es).len() implies is_valid_domain(
                #[trigger] excluded_sites(es)[i],
            ) && lower(excluded_sites(es)[i]) == excluded_sites(es)[i] by {
                if i < xp.len() {
                    assert(excluded_sites(es)[i] == xp[i]);
                }
            }
        }
    }
}

/// The lens of a valid request names only valid, lower-case host names.
pub proof fn law_lens_domains_normalized(v: SearchRequestView)
    requires
        validation_error(v) is None,
    ensures
        lens_of(domain_entries(v)) matches Some(l) ==> {
            &&& l.included.len() + l.excluded.len() <= 20
            &&& forall|i: int|
                0 <= i < l.included.len() ==> is_valid_domain(#[trigger] l.included[i]) && lower(
                    l.included[i],
                ) == l.included[i]
            &&& forall|i: int|
                0 <= i < l.excluded.len() ==> is_valid_domain(#[trigger] l.excluded[i]) && lower(
                    l.excluded[i],
                ) == l.excluded[i]
        },
{
    let es = domain_entries(v);
    lemma_sites_valid(es);
    lemma_sites_len(es);
}

proof fn lemma_sites_len(es: Seq<Seq<char>>)
    ensures
        included_sites(es).len() + excluded_sites(es).len() == es.len(),
    decreases es.len(),
{
    if es.len() > 0 {
        lemma_sites_len(es.drop_last());
    }
}

/// Without a lens every result is kept.
pub proof fn law_no_lens_keeps_all(rs: Seq<KagiResultView>)
    ensures
        kept_results(None, rs) == rs,
    decreases rs.len(),
{
    if rs.len() > 0 {
        law_no_lens_keeps_all(rs.drop_last());
        assert(rs.drop_last().push(rs.last()) =~= rs);
    }
}

/// Filtering keeps only admitted results, each one an input result, at most as
/// many as there were.
pub proof fn law_filter_keeps_admitted(lens: Option<LensView>, rs: Seq<KagiResultView>)
    ensures
        kept_results(lens, rs).len() <= rs.len(),
        forall|i: int|
            0 <= i < kept_results(lens, rs).len() ==> request_admits(
                lens,
                (#[trigger] kept_results(lens, rs)[i]).url,
            ) && rs.contains(kept_results(lens, rs)[i]),
    decreases rs.len(),
{
    if rs.len() > 0 {
        law_filter_keeps_admitted(lens, rs.drop_last());
        let p = kept_results(lens, rs.drop_last());
        assert forall|i: int| 0 <= i < kept_results(lens, rs).len() implies request_admits(
            lens,
            (#[trigger] kept_results(lens, rs)[i]).url,
        ) && rs.contains(kept_results(lens, rs)[i]) by {
            if i < p.len() {
                let x = p[i];
                assert(rs.drop_last().contains(x));
                let j = choose|j: int| 0 <= j < rs.drop_last().len() && rs.drop_last()[j] == x;
                assert(rs[j] == x);
            } else {
                assert(rs[rs.len() - 1] == rs.last());
            }
        }
    }
}

/// A lens rejects every URL that is not `http` or `https`, and every URL whose
/// host falls under an excluded domain.
pub proof fn law_lens_rejects_excluded(l: LensView, parts: Option<(Seq<char>, Option<Seq<char>>)>)
    ensures
        lens_allows(l, parts) ==> (parts matches Some((scheme, Some(host))) && is_web_scheme(scheme)
            && !matches_any(trim_trailing_dots(host), l.excluded)),
        lens_allows(l, parts) && l.included.len() > 0 ==> (parts matches Some((_, Some(host)))
            && matches_any(trim_trailing_dots(host), l.included)),
{
}

proof fn lemma_first_by_url_distinct(s: Seq<KagiResultView>)
    ensures
        forall|i: int, j: int|
            0 <= i < j < first_by_url(s).len() ==> (#[trigger] first_by_url(s)[i]).url != (
            #[trigger] first_by_url(s)[j]).url,
        forall|i: int| 0 <= i < first_by_url(s).len() ==> s.contains(#[trigger] first_by_url(s)[i]),
        first_by_url(s).len() <= s.len(),
    decreases s.len(),
{
    if s.len() > 0 {
        let p = s.drop_last();
        lemma_first_by_url_distinct(p);
        let d = first_by_url(p);
        assert forall|i: int| 0 <= i < first_by_url(s).len() implies s.contains(
            #[trigger] first_by_url(s)[i],
        ) by {
            if i < d.len() {
                let x = d[i];
                assert(p.contains(x));
                let j = choose|j: int| 0 <= j < p.len() && p[j] == x;
                assert(s[j] == x);
            } else {
                assert(s[s.len() - 1] == s.last());
            }
        }
        if !has_url(d, s.last().url) {
            assert forall|i: int, j: int|
                0 <= i < j < first_by_url(s).len() implies (#[trigger] first_by_url(s)[i]).url != (
            #[trigger] first_by_url(s)[j]).url by {
                if j == d.len() {
                    if first_by_url(s)[i].url == s.last().url {
                        assert(d[i].url == s.last().url);
                    }
                }
            }
        }
    }
}

proof fn lemma_rank_items_from_batches(batches: Seq<Seq<KagiResultView>>, rank: int, k: int)
    requires
        0 <= rank,
        k <= batches.len(),
    ensures
        forall|x: KagiResultView|
            rank_items(batches, rank, k).contains(x) ==> exists|b: int, j: int|
                0 <= b < batches.len() && 0 <= j < batches[b].len() && #[trigger] batches[b][j] == x,
    decreases k,
{
    if k > 0 {
        lemma_rank_items_from_batches(batches, rank, k - 1);
        let p = rank_items(batches, rank, k - 1);
        assert forall|x: KagiResultView| rank_items(batches, rank, k).contains(x) implies exists|
            b: int,
            j: int,
        | 0 <= b < batches.len() && 0 <= j < batches[b].len() && #[trigger] batches[b][j] == x by {
            let m = choose|m: int|
                0 <= m < rank_items(batches, rank, k).len() && rank_items(batches, rank, k)[m] == x;
            if m < p.len() {
                assert(p.contains(x));
            } else {
                assert(batches[k - 1][rank] == x);
            }
        }
    }
}

proof fn lemma_interleaved_from_batches(batches: Seq<Seq<KagiResultView>>, rounds: nat)
    ensures
        forall|x: KagiResultView|
            interleaved(batches, rounds).contains(x) ==> exists|b: int, j: int|
                0 <= b < batches.len() && 0 <= j < batches[b].len() && #[trigger] batches[b][j] == x,
    decreases rounds,
{
    if rounds > 0 {
        lemma_interleaved_from_batches(batches, (rounds - 1) as nat);
        lemma_rank_items_from_batches(batches, rounds - 1, batches.len() as int);
        let a = interleaved(batches, (rounds - 1) as nat);
        let c = rank_items(batches, rounds - 1, batches.len() as int);
        assert forall|x: KagiResultView| interleaved(batches, rounds).contains(x) implies exists|
            b: int,
            j: int,
        | 0 <= b < batches.len() && 0 <= j < batches[b].len() && #[trigger] batches[b][j] == x by {
            let m = choose|m: int| 0 <= m < (a + c).len() && (a + c)[m] == x;
            if m < a.len() {
                assert(a.contains(x));
            } else {
                assert(c[m - a.len()] == x);
                assert(c.contains(x));
            }
        }
    }
}

/// Raising the limit only extends the merged response: the results merged under
/// a smaller limit come first, in the same order, under a larger one.
pub proof fn law_merge_limit_extends(batches: Seq<Seq<KagiResultView>>, small: nat, large: nat)
    requires
        small <= large,
    ensures
        is_prefix(merged(batches, small), merged(batches, large)),
{
    let s = interleaved(batches, small);
    let l = interleaved(batches, large);
    lemma_interleaved_prefix(batches, small, large);
    let rest = l.skip(s.len() as int);
    assert(s + rest =~= l);
    lemma_first_by_url_prefix(s, rest);
    let ds = first_by_url(s);
    let dl = first_by_url(l);
    let a = merged(batches, small);
    let b = merged(batches, large);
    assert(a.len() <= b.len());
    assert forall|i: int| 0 <= i < a.len() implies b[i] == a[i] by {
        assert(dl[i] == ds.take(ds.len() as int)[i]);
    }
    assert(b.take(a.len() as int) =~= a);
}

/// Every result ranked within the limit is accounted for by the merge: either
/// the response is full, or it holds a result with that result's URL (the
/// result itself, or one interleaved before it with the same URL).
pub proof fn law_merge_complete(batches: Seq<Seq<KagiResultView>>, limit: nat, b: int, j: int)
    requires
        0 <= b < batches.len(),
        0 <= j < batches[b].len(),
        j < limit,
    ensures
        merged(batches, limit).len() == limit || exists|i: int|
            0 <= i < merged(batches, limit).len() && (#[trigger] merged(batches, limit)[i]).url
                == batches[b][j].url,
{
    let s = interleaved(batches, limit);
    let d = first_by_url(s);
    lemma_interleaved_contains(batches, limit, b, j);
    lemma_first_by_url_covers(s);
    let x = batches[b][j];
    let k = choose|k: int| 0 <= k < s.len() && s[k] == x;
    assert(s.contains(s[k]));
    assert(has_url(d, x.url));
    lemma_first_by_url_distinct(s);
    let m = merged(batches, limit);
    if d.len() < limit {
        let i = choose|i: int| 0 <= i < d.len() && (#[trigger] d[i]).url == x.url;
        assert(m[i] == to_search_result(d[i]));
        assert(m[i].url == x.url);
    }
}

/// Rank comes before batch: when every batch has a result, their top results
/// have distinct URLs, and the limit reaches the number of batches, the merge
/// opens with each batch's top result, in batch order.
pub proof fn law_merge_top_results_first(batches: Seq<Seq<KagiResultView>>, limit: nat)
    requires
        batches.len() <= limit,
        forall|b: int| 0 <= b < batches.len() ==> (#[trigger] batches[b]).len() > 0,
        forall|b: int, c: int|
            0 <= b < c < batches.len() ==> (#[trigger] batches[b])[0].url != (#[trigger] batches[c])[0].url,
    ensures
        merged(batches, limit).len() >= batches.len(),
        forall|b: int|
            0 <= b < batches.len() ==> #[trigger] merged(batches, limit)[b] == to_search_result(
                batches[b][0],
            ),
{
    let n = batches.len() as int;
    if n > 0 {
        lemma_rank_zero_items(batches, n);
        let top = interleaved(batches, 1);
        assert(interleaved(batches, 0) =~= Seq::<KagiResultView>::empty());
        assert(top =~= rank_items(batches, 0, n));
        assert forall|i: int, j: int| 0 <= i < j < top.len() implies (#[trigger] top[i]).url != (
        #[trigger] top[j]).url by {
            assert(top[i] == batches[i][0] && top[j] == batches[j][0]);
        }
        lemma_first_by_url_of_distinct(top);
        let all = interleaved(batches, limit);
        lemma_interleaved_prefix(batches, 1, limit);
        let rest = all.skip(top.len() as int);
        assert(top + rest =~= all);
        lemma_first_by_url_prefix(top, rest);
        let d = first_by_url(all);
        assert forall|b: int| 0 <= b < n implies #[trigger] merged(batches, limit)[b] == to_search_result(
            batches[b][0],
        ) by {
            assert(d.take(top.len() as int)[b] == top[b]);
        }
    }
}

/// The top results of the first `k` batches, when each has one.
proof fn lemma_rank_zero_items(batches: Seq<Seq<KagiResultView>>, k: int)
    requires
        0 <= k <= batches.len(),
        forall|b: int| 0 <= b < batches.len() ==> (#[trigger] batches[b]).len() > 0,
    ensures
        rank_items(batches, 0, k).len() == k,
        forall|b: int| 0 <= b < k ==> #[trigger] rank_items(batches, 0, k)[b] == batches[b][0],
    decreases k,
{
    if k > 0 {
        lemma_rank_zero_items(batches, k - 1);
        assert(batches[k - 1].len() > 0);
    }
}

/// A single batch whose URLs are distinct is passed on unchanged, in its order,
/// up to the limit.
pub proof fn law_merge_single_batch(batch: Seq<KagiResultView>, limit: nat)
    requires
        forall|i: int, j: int| 0 <= i < j < batch.len() ==> (#[trigger] batch[i]).url != (#[trigger] batch[j]).url,
    ensures
        merged(seq![batch], limit).len() == if batch.len() < limit { batch.len() as int } else { limit as int },
        forall|i: int|
            0 <= i < merged(seq![batch], limit).len() ==> #[trigger] merged(seq![batch], limit)[i]
                == to_search_result(batch[i]),
{
    let bs = seq![batch];
    lemma_interleaved_single(batch, limit);
    let s = interleaved(bs, limit);
    assert forall|i: int, j: int| 0 <= i < j < s.len() implies (#[trigger] s[i]).url != (
    #[trigger] s[j]).url by {
        assert(s[i] == batch[i] && s[j] == batch[j]);
    }
    lemma_first_by_url_of_distinct(s);
}

/// Ranked results: the result ranked `rank` in batch `b` is among those of
/// that rank in the first `k` batches, for every `k` past `b`.
proof fn lemma_rank_items_contains(batches: Seq<Seq<KagiResultView>>, rank: int, k: int, b: int)
    requires
        0 <= b < k <= batches.len(),
        0 <= rank < batches[b].len(),
    ensures
        rank_items(batches, rank, k).contains(batches[b][rank]),
    decreases k,
{
    if b < k - 1 {
        lemma_rank_items_contains(batches, rank, k - 1, b);
        let p = rank_items(batches, rank, k - 1);
        let i = choose|i: int| 0 <= i < p.len() && p[i] == batches[b][rank];
        if rank < batches[k - 1].len() {
            assert(rank_items(batches, rank, k)[i] == p[i]);
        }
    } else {
        let q = rank_items(batches, rank, k);
        assert(q[q.len() - 1] == batches[b][rank]);
    }
}

proof fn lemma_interleaved_contains(batches: Seq<Seq<KagiResultView>>, rounds: nat, b: int, j: int)
    requires
        0 <= b < batches.len(),
        0 <= j < batches[b].len(),
        j < rounds,
    ensures
        interleaved(batches, rounds).contains(batches[b][j]),
    decreases rounds,
{
    let a = interleaved(batches, (rounds - 1) as nat);
    let c = rank_items(batches, rounds - 1, batches.len() as int);
    if j < rounds - 1 {
        lemma_interleaved_contains(batches, (rounds - 1) as nat, b, j);
        let i = choose|i: int| 0 <= i < a.len() && a[i] == batches[b][j];
        assert((a + c)[i] == a[i]);
    } else {
        lemma_rank_items_contains(batches, j, batches.len() as int, b);
        let i = choose|i: int| 0 <= i < c.len() && c[i] == batches[b][j];
        assert((a + c)[a.len() + i] == c[i]);
    }
}

/// Deduplication keeps some result for every URL it saw.
proof fn lemma_first_by_url_covers(s: Seq<KagiResultView>)
    ensures
        forall|k: int| 0 <= k < s.len() ==> has_url(first_by_url(s), (#[trigger] s[k]).url),
    decreases s.len(),
{
    if s.len() > 0 {
        let p = s.drop_last();
        lemma_first_by_url_covers(p);
        let d = first_by_url(p);
        let e = first_by_url(s);
        assert forall|k: int| 0 <= k < s.len() implies has_url(e, (#[trigger] s[k]).url) by {
            if k < s.len() - 1 {
                assert(p[k] == s[k]);
                assert(has_url(d, p[k].url));
                let i = choose|i: int| 0 <= i < d.len() && (#[trigger] d[i]).url == p[k].url;
                if !has_url(d, s.last().url) {
                    assert(e[i] == d[i]);
                }
            } else {
                if !has_url(d, s.last().url) {
                    assert(e[e.len() - 1] == s.last());
                }
            }
        }
    }
}

/// Deduplication leaves a sequence of distinct URLs as it is.
proof fn lemma_first_by_url_of_distinct(s: Seq<KagiResultView>)
    requires
        forall|i: int, j: int| 0 <= i < j < s.len() ==> (#[trigger] s[i]).url != (#[trigger] s[j]).url,
    ensures
        first_by_url(s) == s,
    decreases s.len(),
{
    if s.len() > 0 {
        let p = s.drop_last();
        assert forall|i: int, j: int| 0 <= i < j < p.len() implies (#[trigger] p[i]).url != (
        #[trigger] p[j]).url by {
            assert(p[i] == s[i] && p[j] == s[j]);
        }
        lemma_first_by_url_of_distinct(p);
        if has_url(p, s.last().url) {
            let i = choose|i: int| 0 <= i < p.len() && (#[trigger] p[i]).url == s.last().url;
            assert(s[i] == p[i]);
            assert(s[s.len() - 1] == s.last());
        }
        assert(p.push(s.last()) =~= s);
    }
}

/// Interleaving one batch over `rounds` ranks gives its first `rounds` results.
proof fn lemma_interleaved_single(batch: Seq<KagiResultView>, rounds: nat)
    ensures
        interleaved(seq![batch], rounds) == batch.take(
            if batch.len() < rounds { batch.len() as int } else { rounds as int },
        ),
    decreases rounds,
{
    let bs = seq![batch];
    if rounds > 0 {
        lemma_interleaved_single(batch, (rounds - 1) as nat);
        let r = rounds - 1;
        assert(bs[0] == batch);
        assert(rank_items(bs, r, 0) =~= Seq::<KagiResultView>::empty());
        if r < batch.len() {
            assert(rank_items(bs, r, 1) =~= seq![batch[r]]);
        } else {
            assert(rank_items(bs, r, 1) =~= Seq::<KagiResultView>::empty());
        }
        let want = batch.take(if batch.len() < rounds { batch.len() as int } else { rounds as int });
        assert(interleaved(bs, rounds) =~= want);
    } else {
        assert(batch.take(0) =~= Seq::<KagiResultView>::empty());
    }
}

/// A host name label is 1 to 63 ASCII letters, digits or hyphens that neither
/// starts nor ends with a hyphen.
pub proof fn law_label_characters(l: Seq<char>)
    ensures
        valid_label(l) <==> (0 < l.len() <= 63 && l[0] != '-' && l[l.len() - 1] != '-' && forall|k: int|
            0 <= k < l.len() ==> ('a' <= #[trigger] l[k] <= 'z') || ('A' <= l[k] <= 'Z') || ('0'
                <= l[k] <= '9') || l[k] == '-'),
{
}

/// A name of one label is valid when the label is: 1 to 63 ASCII letters,
/// digits or hyphens, not starting or ending with a hyphen.
pub proof fn law_one_label_domain(l: Seq<char>)
    requires
        0 < l.len() <= 63,
        l[0] != '-',
        l[l.len() - 1] != '-',
        forall|k: int|
            0 <= k < l.len() ==> ('a' <= #[trigger] l[k] <= 'z') || ('A' <= l[k] <= 'Z') || ('0'
                <= l[k] <= '9') || l[k] == '-',
    ensures
        is_valid_domain(l),
{
    lemma_labels_of_dot_free(l);
    assert(labels(l)[0] == l);
}

/// Two valid names joined by a dot make a valid name, within 253 characters.
pub proof fn law_joined_domain(a: Seq<char>, b: Seq<char>)
    requires
        is_valid_domain(a),
        is_valid_domain(b),
        a.len() + 1 + b.len() <= 253,
    ensures
        is_valid_domain(a + seq!['.'] + b),
{
    lemma_labels_join(a, b);
    let ls = labels(a + seq!['.'] + b);
    assert forall|k: int| 0 <= k < ls.len() implies valid_label(#[trigger] ls[k]) by {
        if k < labels(a).len() {
            assert(ls[k] == labels(a)[k]);
        } else {
            assert(ls[k] == labels(b)[k - labels(a).len()]);
        }
    }
}

proof fn lemma_labels_of_dot_free(l: Seq<char>)
    requires
        forall|k: int| 0 <= k < l.len() ==> #[trigger] l[k] != '.',
    ensures
        labels(l) == seq![l],
    decreases l.len(),
{
    if l.len() == 0 {
        assert(l =~= Seq::<char>::empty());
        assert(labels(l) =~= seq![l]);
    } else {
        let p = l.drop_last();
        assert forall|k: int| 0 <= k < p.len() implies #[trigger] p[k] != '.' by {
            assert(p[k] == l[k]);
        }
        lemma_labels_of_dot_free(p);
        assert(l[l.len() - 1] != '.');
        assert(p.push(l.last()) =~= l);
        assert(labels(l) =~= seq![l]);
    }
}

/// The labels of two names joined by a dot are the labels of each.
proof fn lemma_labels_join(a: Seq<char>, b: Seq<char>)
    ensures
        labels(a + seq!['.'] + b) == labels(a) + labels(b),
    decreases b.len(),
{
    let x = a + seq!['.'] + b;
    lemma_labels_nonempty(a);
    lemma_labels_nonempty(b);
    if b.len() == 0 {
        assert(x.drop_last() =~= a);
        assert(x.last() == '.');
        assert(labels(x) =~= labels(a) + labels(b));
    } else {
        let bp = b.drop_last();
        lemma_labels_join(a, bp);
        lemma_labels_nonempty(bp);
        assert(x.drop_last() =~= a + seq!['.'] + bp);
        assert(x.last() == b.last());
        assert(labels(x) =~= labels(a) + labels(b));
    }
}

/// A domain matches itself and each of its subdomains, at any depth.
pub proof fn law_subdomains_match(p: Seq<char>, domain: Seq<char>)
    ensures
        host_matches(domain, domain),
        host_matches(p + seq!['.'] + domain, domain),
{
    let h = p + seq!['.'] + domain;
    assert(h.subrange(h.len() - domain.len(), h.len() as int) =~= domain);
    assert(h[h.len() - domain.len() - 1] == '.');
}

/// A host matches a domain only as the domain itself or as a name that ends
/// with a dot followed by the domain.
pub proof fn law_matches_are_subdomains(host: Seq<char>, domain: Seq<char>)
    requires
        host_matches(host, domain),
        host != domain,
    ensures
        host.len() > domain.len(),
        host == host.take(host.len() - domain.len() - 1) + seq!['.'] + domain,
{
    let n = host.len() - domain.len();
    assert(host.subrange(n, host.len() as int) == domain);
    assert(host =~= host.take(n - 1) + seq!['.'] + domain) by {
        assert forall|i: int| n <= i < host.len() implies host[i] == domain[i - n] by {
            assert(host.subrange(n, host.len() as int)[i - n] == host[i]);
        }
    }
}

/// Whatever matches a domain, every name under it matches it too.
pub proof fn law_subdomain_closure(host: Seq<char>, domain: Seq<char>, p: Seq<char>)
    requires
        host_matches(host, domain),
    ensures
        host_matches(p + seq!['.'] + host, domain),
{
    if host == domain {
        law_subdomains_match(p, domain);
    } else {
        law_matches_are_subdomains(host, domain);
        let q = host.take(host.len() - domain.len() - 1);
        let r = p + seq!['.'] + q;
        assert(p + seq!['.'] + host =~= r + seq!['.'] + domain);
        law_subdomains_match(r, domain);
    }
}

/// A lens without exclusions admits, over http or https, an included domain
/// and every name under it.
pub proof fn law_lens_admits_subdomains(l: LensView, scheme: Seq<char>, p: Seq<char>, i: int)
    requires
        0 <= i < l.included.len(),
        l.excluded.len() == 0,
        is_web_scheme(scheme),
        l.included[i].len() > 0,
        l.included[i].last() != '.',
    ensures
        lens_allows(l, Some((scheme, Some(l.included[i])))),
        lens_allows(l, Some((scheme, Some(p + seq!['.'] + l.included[i])))),
{
    let d = l.included[i];
    let h = p + seq!['.'] + d;
    law_subdomains_match(p, d);
    assert(h.last() == d.last());
    assert(trim_trailing_dots(d) == d);
    assert(trim_trailing_dots(h) == h);
    assert(matches_any(d, l.included));
    assert(matches_any(h, l.included));
}

/// A lens never admits an excluded domain or any name under it.
pub proof fn law_lens_rejects_excluded_subdomains(l: LensView, scheme: Seq<char>, p: Seq<char>, i: int)
    requires
        0 <= i < l.excluded.len(),
        l.excluded[i].len() > 0,
        l.excluded[i].last() != '.',
    ensures
        !lens_allows(l, Some((scheme, Some(l.excluded[i])))),
        !lens_allows(l, Some((scheme, Some(p + seq!['.'] + l.excluded[i])))),
{
    let d = l.excluded[i];
    let h = p + seq!['.'] + d;
    law_subdomains_match(p, d);
    assert(h.last() == d.last());
    assert(trim_trailing_dots(d) == d);
    assert(trim_trailing_dots(h) == h);
    assert(matches_any(d, l.excluded));
    assert(matches_any(h, l.excluded));
}

/// The merged response has at most `limit` results, no two with the same URL,
/// each the Perplexity form of a result from one of the batches.
pub proof fn law_merge_distinct_capped(batches: Seq<Seq<KagiResultView>>, limit: nat)
    ensures
        merged(batches, limit).len() <= limit,
        forall|i: int, j: int|
            0 <= i < j < merged(batches, limit).len() ==> (#[trigger] merged(batches, limit)[i]).url
                != (#[trigger] merged(batches, limit)[j]).url,
        forall|i: int|
            0 <= i < merged(batches, limit).len() ==> exists|b: int, k: int|
                0 <= b < batches.len() && 0 <= k < batches[b].len() && #[trigger] merged(
                    batches,
                    limit,
                )[i] == to_search_result(batches[b][k]),
{
    let s = interleaved(batches, limit);
    let d = first_by_url(s);
    lemma_first_by_url_distinct(s);
    lemma_interleaved_from_batches(batches, limit);
    let m = merged(batches, limit);
    assert forall|i: int| 0 <= i < m.len() implies exists|b: int, k: int|
        0 <= b < batches.len() && 0 <= k < batches[b].len() && #[trigger] m[i] == to_search_result(
            batches[b][k],
        ) by {
        assert(s.contains(d[i]));
        let (b, k) = choose|b: int, k: int|
            0 <= b < batches.len() && 0 <= k < batches[b].len() && #[trigger] batches[b][k] == d[i];
        assert(m[i] == to_search_result(batches[b][k]));
    }
    assert forall|i: int, j: int| 0 <= i < j < m.len() implies (#[trigger] m[i]).url != (
    #[trigger] m[j]).url by {
        assert(m[i].url == d[i].url);
        assert(m[j].url == d[j].url);
    }
}

/// Merging no batches gives no results.
pub proof fn law_merge_empty(limit: nat)
    ensures
        merged(Seq::<Seq<KagiResultView>>::empty(), limit).len() == 0,
    decreases limit,
{
    if limit > 0 {
        law_merge_empty((limit - 1) as nat);
        lemma_interleaved_empty(limit);
    }
}

proof fn lemma_interleaved_empty(rounds: nat)
    ensures
        interleaved(Seq::<Seq<KagiResultView>>::empty(), rounds).len() == 0,
    decreases rounds,
{
    if rounds > 0 {
        lemma_interleaved_empty((rounds - 1) as nat);
    }
}

/// A valid country becomes a two-letter lower-case region on every request.
pub proof fn law_region_is_lower_case_code(v: SearchRequestView, c: Seq<char>, i: int)
    requires
        validation_error(v) is None,
        v.country == Some(c),
        0 <= i < v.queries.len(),
    ensures
        plan_of(v).requests[i].region == Some(lower(c)),
        lower(c).len() == 2,
        'a' <= lower(c)[0] <= 'z',
        'a' <= lower(c)[1] <= 'z',
{
}

/// Every character of a name is a dot or a character of one of its labels.
proof fn lemma_chars_in_labels(s: Seq<char>)
    ensures
        forall|i: int|
            0 <= i < s.len() ==> s[i] == '.' || exists|k: int, j: int|
                0 <= k < labels(s).len() && 0 <= j < labels(s)[k].len() && #[trigger] labels(s)[k][j]
                    == s[i],
    decreases s.len(),
{
    if s.len() > 0 {
        let p = s.drop_last();
        lemma_chars_in_labels(p);
        lemma_labels_nonempty(p);
        let prev = labels(p);
        let n = prev.len();
        assert forall|i: int| 0 <= i < s.len() implies s[i] == '.' || exists|k: int, j: int|
            0 <= k < labels(s).len() && 0 <= j < labels(s)[k].len() && #[trigger] labels(s)[k][j]
                == s[i] by {
            if s[i] != '.' {
                if i < s.len() - 1 {
                    assert(p[i] == s[i]);
                    let (k, j) = choose|k: int, j: int|
                        0 <= k < prev.len() && 0 <= j < prev[k].len() && #[trigger] prev[k][j] == p[i];
                    if s.last() == '.' {
                        assert(labels(s)[k] == prev[k]);
                    } else if k < n - 1 {
                        assert(labels(s)[k] == prev[k]);
                    } else {
                        assert(labels(s)[k] == prev[k].push(s.last()));
                        assert(labels(s)[k][j] == prev[k][j]);
                    }
                } else {
                    assert(labels(s)[n - 1] == prev[n - 1].push(s.last()));
                    assert(labels(s)[n - 1][prev[n - 1].len() as int] == s[i]);
                }
            }
        }
    }
}

/// A valid lens domain is made of ASCII letters, digits, hyphens and dots
/// alone, so it cannot hold a scheme, a path, a port, credentials or a search
/// operator, and its length in characters is its length in bytes.
pub proof fn law_valid_domain_is_plain_host_name(d: Seq<char>)
    requires
        is_valid_domain(d),
    ensures
        forall|i: int| 0 <= i < d.len() ==> is_ascii_alnum(#[trigger] d[i]) || d[i] == '-' || d[i] == '.',
{
    lemma_chars_in_labels(d);
    assert forall|i: int| 0 <= i < d.len() implies is_ascii_alnum(#[trigger] d[i]) || d[i] == '-' || d[i]
        == '.' by {
        if d[i] != '.' {
            let (k, j) = choose|k: int, j: int|
                0 <= k < labels(d).len() && 0 <= j < labels(d)[k].len() && #[trigger] labels(d)[k][j]
                    == d[i];
            assert(valid_label(labels(d)[k]));
        }
    }
}

} // verus!
