//! What holds of the library across its operations.
use vstd::prelude::*;
use crate::cloud::{Cloud, Content, as_unsigned, sizes_fit, sizes_sum};
use crate::outside::{byte_size_shape, shown_tenths, shown_unit, thousand_pow, unit_exponent};
use crate::listing::{labelled, all_labelled, dated, lemma_dated_add, lemma_dated_none, lemma_dated_one, newest_first, sorted_newest_first};
use crate::login::{Login, LoginCheck};
use crate::text::{lex_lt, lemma_lex_irreflexive, lemma_lex_total};

verus! {

/// A check in which every field is accepted has no error: a fresh check refuses nothing.
pub proof fn lemma_fresh_check_has_no_error(check: LoginCheck)
    requires
        check.all_accepted(),
    ensures
        !check.spec_has_error(),
{
}

/// Refusing the API key, the service instance id or the endpoint makes the check an
/// error, whatever the message.
pub proof fn lemma_refusal_is_an_error(check: LoginCheck, message: Seq<char>)
    requires
        check.ibm_api_key_id.is_refused_with(message)
            || check.ibm_service_instance_id.is_refused_with(message)
            || check.endpoint_url.is_refused_with(message),
    ensures
        check.spec_has_error(),
{
}

/// The check of a login form is an error exactly when the API key, the service instance
/// id or the endpoint is missing; the bucket name is never required.
pub proof fn lemma_check_refuses_exactly_missing_fields(login: Login, check: LoginCheck)
    requires
        login.checked_by(check),
    ensures
        check.spec_has_error() <==> !login.has_required_fields(),
        check.bucket.is_accepted(),
{
}

/// Setting the links of an object a second time gives the same links and changes
/// nothing else.
pub proof fn lemma_links_settle(first: Content, second: Content, third: Content)
    requires
        Content::links_set(first, second),
        Content::links_set(second, third),
    ensures
        Content::same_but_links(second, third),
        third.url@ == second.url@,
        third.deleteurl@ == second.deleteurl@,
{
}

/// Setting the links of every listed object a second time gives the same links and
/// changes nothing else.
pub proof fn lemma_set_urls_settles(first: Cloud, second: Cloud, third: Cloud)
    requires
        Cloud::all_links_set(first, second),
        Cloud::all_links_set(second, third),
    ensures
        Cloud::same_but_contents(second, third),
        third.objectList.contents@.len() == second.objectList.contents@.len(),
        forall|i: int|
            0 <= i < second.objectList.contents@.len() ==> {
                &&& Content::same_but_links(
                    second.objectList.contents@[i],
                    #[trigger] third.objectList.contents@[i],
                )
                &&& third.objectList.contents@[i].url@ == second.objectList.contents@[i].url@
                &&& third.objectList.contents@[i].deleteurl@
                    == second.objectList.contents@[i].deleteurl@
            },
{
    assert forall|i: int| 0 <= i < second.objectList.contents@.len() implies {
        &&& Content::same_but_links(
            second.objectList.contents@[i],
            #[trigger] third.objectList.contents@[i],
        )
        &&& third.objectList.contents@[i].url@ == second.objectList.contents@[i].url@
        &&& third.objectList.contents@[i].deleteurl@ == second.objectList.contents@[i].deleteurl@
    } by {
        lemma_links_settle(
            first.objectList.contents@[i],
            second.objectList.contents@[i],
            third.objectList.contents@[i],
        );
    }
}

proof fn lemma_dated_witness(s: Seq<Content>, date: Seq<char>) -> (i: int)
    requires
        dated(s, date).len() > 0,
    ensures
        0 <= i < s.len(),
        s[i].last_modified@ == date,
    decreases s.len(),
{
    if s.last().last_modified@ == date {
        s.len() - 1
    } else {
        lemma_dated_witness(s.drop_last(), date)
    }
}

proof fn lemma_sorted_unique(a: Seq<Content>, b: Seq<Content>)
    requires
        newest_first(a),
        newest_first(b),
        a.len() == b.len(),
        forall|date: Seq<char>| #[trigger] dated(a, date) == dated(b, date),
    ensures
        a == b,
    decreases a.len(),
{
    if a.len() == 0 {
        assert(a =~= b);
    } else {
        let n = a.len() - 1;
        let x = a.last();
        let y = b.last();
        let dx = x.last_modified@;
        let dy = y.last_modified@;
        assert(dated(a, dx).len() > 0);
        assert(dated(b, dx) == dated(a, dx));
        let j = lemma_dated_witness(b, dx);
        if j < n {
            assert(!lex_lt(b[j].last_modified@, b[n].last_modified@));
        }
        lemma_lex_irreflexive(dx);
        assert(!lex_lt(dx, dy));
        assert(dated(b, dy).len() > 0);
        assert(dated(a, dy) == dated(b, dy));
        let k = lemma_dated_witness(a, dy);
        if k < n {
            assert(!lex_lt(a[k].last_modified@, a[n].last_modified@));
        }
        lemma_lex_irreflexive(dy);
        assert(!lex_lt(dy, dx));
        lemma_lex_total(dx, dy);
        assert(dx == dy);
        assert(dated(a, dx).last() == x);
        assert(dated(b, dx).last() == y);
        let a2 = a.drop_last();
        let b2 = b.drop_last();
        assert forall|date: Seq<char>| #[trigger] dated(a2, date) == dated(b2, date) by {
            if date == dx {
                assert(dated(a2, date) =~= dated(a, date).drop_last());
                assert(dated(b2, date) =~= dated(b, date).drop_last());
            } else {
                assert(dated(a2, date) == dated(a, date));
                assert(dated(b2, date) == dated(b, date));
            }
        }
        assert forall|i: int, j: int| 0 <= i < j < a2.len() implies !lex_lt(
            #[trigger] a2[i].last_modified@,
            #[trigger] a2[j].last_modified@,
        ) by {
            assert(a2[i] == a[i] && a2[j] == a[j]);
        }
        assert forall|i: int, j: int| 0 <= i < j < b2.len() implies !lex_lt(
            #[trigger] b2[i].last_modified@,
            #[trigger] b2[j].last_modified@,
        ) by {
            assert(b2[i] == b[i] && b2[j] == b[j]);
        }
        lemma_sorted_unique(a2, b2);
        assert(a =~= a2.push(x));
        assert(b =~= b2.push(y));
    }
}

/// Ordering a listing newest first has one outcome: two orderings of the same objects
/// are equal.
pub proof fn lemma_newest_first_is_unique(src: Seq<Content>, out1: Seq<Content>, out2: Seq<Content>)
    requires
        sorted_newest_first(src, out1),
        sorted_newest_first(src, out2),
    ensures
        out1 == out2,
{
    assert forall|date: Seq<char>| #[trigger] dated(out1, date) == dated(out2, date) by {
        assert(dated(out1, date) == dated(src, date));
        assert(dated(out2, date) == dated(src, date));
    }
    lemma_sorted_unique(out1, out2);
}

/// Ordering a listing that is already newest first leaves it as it is, so ordering twice
/// is ordering once.
pub proof fn lemma_newest_first_keeps_sorted(src: Seq<Content>, out: Seq<Content>)
    requires
        newest_first(src),
        sorted_newest_first(src, out),
    ensures
        out == src,
{
    lemma_sorted_unique(out, src);
}

proof fn lemma_sizes_sum_add(a: Seq<Content>, b: Seq<Content>)
    ensures
        sizes_sum(a + b) == sizes_sum(a) + sizes_sum(b),
    decreases b.len(),
{
    if b.len() == 0 {
        assert(a + b =~= a);
    } else {
        lemma_sizes_sum_add(a, b.drop_last());
        assert((a + b).drop_last() =~= a + b.drop_last());
        assert((a + b).last() == b.last());
    }
}

proof fn lemma_last_of_date(s: Seq<Content>, date: Seq<char>) -> (j: int)
    requires
        dated(s, date).len() > 0,
    ensures
        0 <= j < s.len(),
        s[j].last_modified@ == date,
        forall|k: int| j < k < s.len() ==> #[trigger] s[k].last_modified@ != date,
    decreases s.len(),
{
    if s.last().last_modified@ == date {
        s.len() - 1
    } else {
        let j = lemma_last_of_date(s.drop_last(), date);
        assert forall|k: int| j < k < s.len() implies #[trigger] s[k].last_modified@ != date by {
            if k < s.len() - 1 {
                assert(s[k] == s.drop_last()[k]);
            }
        }
        j
    }
}

/// The objects of `a` and `b` of one date have, in order, the same sizes.
pub open spec fn same_sizes(a: Seq<Content>, b: Seq<Content>) -> bool {
    &&& a.len() == b.len()
    &&& forall|i: int| 0 <= i < a.len() ==> #[trigger] a[i].size == b[i].size
}

/// Two sequences whose objects of each date have, in order, the same sizes have the
/// same total size, whatever order the dates come in.
pub proof fn lemma_same_dated_sizes_same_total(a: Seq<Content>, b: Seq<Content>)
    requires
        a.len() == b.len(),
        forall|date: Seq<char>| same_sizes(#[trigger] dated(a, date), dated(b, date)),
    ensures
        sizes_sum(a) == sizes_sum(b),
    decreases a.len(),
{
    if a.len() > 0 {
        let x = a.last();
        let d = x.last_modified@;
        let a2 = a.drop_last();
        assert(dated(a, d) == dated(a2, d).push(x));
        assert(same_sizes(dated(a, d), dated(b, d)));
        let j = lemma_last_of_date(b, d);
        let y = b[j];
        let front = b.take(j);
        let back = b.skip(j + 1);
        let b2 = front + back;
        assert(b =~= front + seq![y] + back);
        assert forall|k: int| 0 <= k < back.len() implies #[trigger] back[k].last_modified@ != d by {
            assert(back[k] == b[j + 1 + k]);
        }
        lemma_dated_none(back, d);
        lemma_dated_one(y, d);
        lemma_dated_add(front + seq![y], back, d);
        lemma_dated_add(front, seq![y], d);
        assert(dated(front, d) + seq![y] + Seq::<Content>::empty() =~= dated(front, d) + seq![y]);
        assert(dated(b, d) =~= dated(front, d) + seq![y]);
        assert forall|date: Seq<char>| same_sizes(#[trigger] dated(a2, date), dated(b2, date)) by {
            lemma_dated_add(front + seq![y], back, date);
            lemma_dated_add(front, seq![y], date);
            lemma_dated_add(front, back, date);
            lemma_dated_one(y, date);
            assert(same_sizes(dated(a, date), dated(b, date)));
            if date == d {
                let db = dated(b, date);
                assert(db.drop_last() =~= dated(front, date));
                assert(dated(front, date) + Seq::<Content>::empty() =~= dated(front, date));
                let da = dated(a, date);
                assert(da.drop_last() =~= dated(a2, date));
                assert forall|i: int| 0 <= i < dated(a2, date).len() implies #[trigger] dated(a2, date)[i].size == dated(b2, date)[i].size by {
                    assert(da[i].size == db[i].size);
                }
            } else {
                assert(dated(a, date) == dated(a2, date));
                assert(dated(front, date) + Seq::<Content>::empty() =~= dated(front, date));
                assert(dated(b, date) =~= dated(b2, date));
            }
        }
        lemma_same_dated_sizes_same_total(a2, b2);
        lemma_sizes_sum_add(front + seq![y], back);
        lemma_sizes_sum_add(front, seq![y]);
        lemma_sizes_sum_add(front, back);
        assert(seq![y].drop_last() =~= Seq::<Content>::empty());
        assert(dated(a, d).last() == x);
        assert(dated(b, d).last() == y);
        assert(x.size == y.size);
        assert(sizes_sum(Seq::<Content>::empty()) == 0);
        assert(sizes_sum(seq![y]) == y.size);
        assert(sizes_sum(a) == sizes_sum(a2) + x.size);
        assert(sizes_sum(b) == sizes_sum(front + seq![y] + back));
    }
}

/// Ordering the objects newest first keeps their total size.
pub proof fn lemma_ordering_keeps_total(src: Seq<Content>, out: Seq<Content>)
    requires
        sorted_newest_first(src, out),
    ensures
        sizes_sum(out) == sizes_sum(src),
{
    assert forall|date: Seq<char>| same_sizes(#[trigger] dated(out, date), dated(src, date)) by {
        assert(dated(out, date) == dated(src, date));
    }
    lemma_same_dated_sizes_same_total(out, src);
}

/// The listing that `accept_listing` keeps has the total size of the listing it was
/// given: ordering and labelling change no size.
pub proof fn lemma_accepted_listing_keeps_total(listing: Seq<Content>, kept: Seq<Content>)
    requires
        kept.len() == listing.len(),
        forall|date: Seq<char>| all_labelled(dated(listing, date), #[trigger] dated(kept, date)),
    ensures
        sizes_sum(kept) == sizes_sum(listing),
{
    assert forall|date: Seq<char>| same_sizes(#[trigger] dated(kept, date), dated(listing, date)) by {
        let l = dated(listing, date);
        let k = dated(kept, date);
        assert(all_labelled(l, k));
        assert forall|i: int| 0 <= i < k.len() implies #[trigger] k[i].size == l[i].size by {
            assert(crate::listing::labelled(l[i], k[i]));
        }
    }
    lemma_same_dated_sizes_same_total(kept, listing);
}

/// The total size of a sequence of objects does not depend on their order: two
/// sequences holding the same objects have the same total.
pub proof fn lemma_total_ignores_order(a: Seq<Content>, b: Seq<Content>)
    requires
        a.to_multiset() == b.to_multiset(),
    ensures
        sizes_sum(a) == sizes_sum(b),
    decreases a.len(),
{
    broadcast use vstd::seq_lib::group_to_multiset_ensures, vstd::multiset::group_multiset_axioms;

    if a.len() == 0 {
        assert(b.to_multiset().len() == 0);
        assert(b.len() == 0);
    } else {
        let x = a.last();
        let a2 = a.drop_last();
        assert(a =~= a2.push(x));
        assert(a.to_multiset() == a2.to_multiset().insert(x));
        assert(b.to_multiset().count(x) > 0);
        assert(b.contains(x));
        let j = choose|j: int| 0 <= j < b.len() && b[j] == x;
        let b2 = b.remove(j);
        assert(b2.to_multiset() == b.to_multiset().remove(x));
        assert(a2.to_multiset() =~= a2.to_multiset().insert(x).remove(x));
        lemma_total_ignores_order(a2, b2);
        let front = b.take(j);
        let back = b.skip(j + 1);
        assert(b =~= front + seq![x] + back);
        assert(b2 =~= front + back);
        lemma_sizes_sum_add(front + seq![x], back);
        lemma_sizes_sum_add(front, seq![x]);
        lemma_sizes_sum_add(front, back);
        assert(seq![x].drop_last() =~= Seq::<Content>::empty());
        assert(sizes_sum(Seq::<Content>::empty()) == 0);
        assert(sizes_sum(seq![x]) == x.size);
        assert(sizes_sum(a) == sizes_sum(a2) + x.size);
    }
}

/// No object has a negative size.
pub open spec fn sizes_not_negative(s: Seq<Content>) -> bool {
    forall|i: int| 0 <= i < s.len() ==> #[trigger] s[i].size >= 0
}

proof fn lemma_total_not_negative(s: Seq<Content>)
    requires
        sizes_not_negative(s),
    ensures
        sizes_sum(s) >= 0,
    decreases s.len(),
{
    if s.len() > 0 {
        assert(s.last().size >= 0);
        lemma_total_not_negative(s.drop_last());
    }
}

/// With no negative size, the sums stay in `i64` exactly when the total does.
proof fn lemma_fit_is_total_fit(s: Seq<Content>)
    requires
        sizes_not_negative(s),
    ensures
        sizes_fit(s) <==> sizes_sum(s) <= i64::MAX,
{
    assert(s.take(s.len() as int) =~= s);
    assert forall|k: int| 0 <= k <= s.len() implies 0 <= #[trigger] sizes_sum(s.take(k)) <= sizes_sum(s) by {
        let front = s.take(k);
        let back = s.skip(k);
        assert(s =~= front + back);
        lemma_sizes_sum_add(front, back);
        assert forall|i: int| 0 <= i < front.len() implies #[trigger] front[i].size >= 0 by {
            assert(front[i] == s[i]);
        }
        assert forall|i: int| 0 <= i < back.len() implies #[trigger] back[i].size >= 0 by {
            assert(back[i] == s[k + i]);
        }
        lemma_total_not_negative(front);
        lemma_total_not_negative(back);
    }
}

/// Reordering the objects of a listing, none of negative size, changes neither whether
/// its total size can be computed nor the total: `total_size_bytes` and
/// `get_total_size` see the same sum.
pub proof fn lemma_reordering_keeps_total(a: Seq<Content>, b: Seq<Content>)
    requires
        a.to_multiset() == b.to_multiset(),
        sizes_not_negative(a),
    ensures
        sizes_not_negative(b),
        sizes_fit(a) <==> sizes_fit(b),
        sizes_sum(a) == sizes_sum(b),
{
    broadcast use vstd::seq_lib::group_to_multiset_ensures;

    assert forall|i: int| 0 <= i < b.len() implies #[trigger] b[i].size >= 0 by {
        assert(b.contains(b[i]));
        assert(b.to_multiset().count(b[i]) > 0);
        assert(a.contains(b[i]));
        let j = choose|j: int| 0 <= j < a.len() && a[j] == b[i];
        assert(a[j].size >= 0);
    }
    lemma_total_ignores_order(a, b);
    lemma_fit_is_total_fit(a);
    lemma_fit_is_total_fit(b);
}

proof fn lemma_thousand_pow_positive(e: nat)
    ensures
        thousand_pow(e) >= 1,
    decreases e,
{
    if e > 0 {
        lemma_thousand_pow_positive((e - 1) as nat);
    }
}

/// A size of a thousand bytes or more is shown in a unit no larger than the size, and
/// the number shown reads between 1.0 and 1200.0 of that unit: never `0.0` of a unit
/// too large, never thousands of a unit too small.
pub proof fn lemma_scaled_size_reads_in_range(bytes: u64, t: Seq<char>)
    requires
        bytes >= 1000,
        byte_size_shape(bytes, t),
    ensures
        shown_unit(t) <= bytes,
        10 <= shown_tenths(t) <= 12000,
{
    let e = unit_exponent(t[t.len() - 2]);
    let u = thousand_pow(e) as int;
    let tenths = shown_tenths(t);
    let b = bytes as int;
    lemma_thousand_pow_positive(e);
    assert(thousand_pow(e + 1) == 1000 * thousand_pow(e));
    assert(u <= b);
    assert(10 * b < 12 * (1000 * u));
    assert(-6 * u <= 10 * (tenths * u - 10 * b) <= 6 * u);
    assert(10 <= tenths) by (nonlinear_arith)
        requires
            u >= 1,
            u <= b,
            -6 * u <= 10 * (tenths * u - 10 * b),
    {
        if tenths <= 9 {
            assert(tenths * u <= 9 * u);
        }
    }
    assert(tenths <= 12000) by (nonlinear_arith)
        requires
            u >= 1,
            10 * b < 12000 * u,
            10 * (tenths * u - 10 * b) <= 6 * u,
    {
        if tenths >= 12001 {
            assert(tenths * u >= 12001 * u);
        }
    }
}

/// Every object of a thousand bytes or more that `label_sizes` (or `accept_listing`)
/// labels is shown in a unit no larger than its size, reading between 1.0 and 1200.0.
pub proof fn lemma_size_labels_read_in_range(before: Seq<Content>, after: Seq<Content>)
    requires
        all_labelled(before, after),
    ensures
        forall|i: int|
            0 <= i < before.len() && before[i].size >= 1000 ==> {
                &&& shown_unit(#[trigger] after[i].size_label@) <= before[i].size
                &&& 10 <= shown_tenths(after[i].size_label@) <= 12000
            },
{
    assert forall|i: int| 0 <= i < before.len() && before[i].size >= 1000 implies {
        &&& shown_unit(#[trigger] after[i].size_label@) <= before[i].size
        &&& 10 <= shown_tenths(after[i].size_label@) <= 12000
    } by {
        assert(labelled(before[i], after[i]));
        assert(as_unsigned(before[i].size as int) == before[i].size);
        lemma_scaled_size_reads_in_range(before[i].size as u64, after[i].size_label@);
    }
}

/// The total that `get_total_size` shows for a listing of a thousand bytes or more is in
/// a unit no larger than the total, reading between 1.0 and 1200.0.
pub proof fn lemma_total_size_reads_in_range(contents: Seq<Content>, shown: Seq<char>)
    requires
        1000 <= sizes_sum(contents) <= i64::MAX,
        byte_size_shape(as_unsigned(sizes_sum(contents)) as u64, shown),
    ensures
        shown_unit(shown) <= sizes_sum(contents),
        10 <= shown_tenths(shown) <= 12000,
{
    lemma_scaled_size_reads_in_range(sizes_sum(contents) as u64, shown);
}

/// Adding a bucket and then removing the last one gives back the buckets there were.
pub proof fn lemma_save_then_remove_last(buckets: Seq<Login>, added: Login)
    ensures
        buckets.push(added).remove(buckets.len() as int) == buckets,
{
    assert(buckets.push(added).remove(buckets.len() as int) =~= buckets);
}

} // verus!
