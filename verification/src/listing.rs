//! A fresh listing of a bucket: its objects, newest first, each with its size label.
use vstd::prelude::*;
use crate::cloud::{Cloud, Content, ListBucketResult, as_unsigned, unsigned_bits};
use crate::outside::{byte_size_label, byte_size_shape};
use crate::text::{lex_lt, text_less, lemma_lex_irreflexive, lemma_lex_transitive, lemma_lex_total};

verus! {

/// The objects of `s` last modified at `date`, in their order in `s`.
pub open spec fn dated(s: Seq<Content>, date: Seq<char>) -> Seq<Content>
    decreases s.len(),
{
    if s.len() == 0 {
        Seq::empty()
    } else {
        let rest = dated(s.drop_last(), date);
        if s.last().last_modified@ == date {
            rest.push(s.last())
        } else {
            rest
        }
    }
}

/// No object comes after one that was modified earlier.
pub open spec fn newest_first(s: Seq<Content>) -> bool {
    forall|i: int, j: int|
        0 <= i < j < s.len() ==> !lex_lt(#[trigger] s[i].last_modified@, #[trigger] s[j].last_modified@)
}

/// `out` is `src` ordered newest first, the objects of one date in their order in `src`.
pub open spec fn sorted_newest_first(src: Seq<Content>, out: Seq<Content>) -> bool {
    &&& out.len() == src.len()
    &&& newest_first(out)
    &&& forall|date: Seq<char>| #[trigger] dated(out, date) == dated(src, date)
}

/// Taking the objects of one date distributes over concatenation.
pub proof fn lemma_dated_add(a: Seq<Content>, b: Seq<Content>, date: Seq<char>)
    ensures
        dated(a + b, date) == dated(a, date) + dated(b, date),
    decreases b.len(),
{
    if b.len() == 0 {
        assert(a + b =~= a);
        assert(dated(a, date) + dated(b, date) =~= dated(a, date));
    } else {
        lemma_dated_add(a, b.drop_last(), date);
        assert((a + b).drop_last() =~= a + b.drop_last());
        assert((a + b).last() == b.last());
        if b.last().last_modified@ == date {
            assert(dated(a, date) + dated(b.drop_last(), date).push(b.last()) =~= (dated(a, date)
                + dated(b.drop_last(), date)).push(b.last()));
        }
    }
}

/// A sequence without objects of a date has none to give.
pub proof fn lemma_dated_none(s: Seq<Content>, date: Seq<char>)
    requires
        forall|i: int| 0 <= i < s.len() ==> #[trigger] s[i].last_modified@ != date,
    ensures
        dated(s, date) == Seq::<Content>::empty(),
    decreases s.len(),
{
    if s.len() > 0 {
        assert(s.last() == s[s.len() - 1]);
        lemma_dated_none(s.drop_last(), date);
    }
}

/// One object gives itself for its date and nothing for another.
pub proof fn lemma_dated_one(x: Content, date: Seq<char>)
    ensures
        dated(seq![x], date) == (if x.last_modified@ == date {
            seq![x]
        } else {
            Seq::<Content>::empty()
        }),
{
    let e = Seq::<Content>::empty();
    assert(seq![x].drop_last() =~= e);
    assert(dated(e, date) == e);
    assert(e.push(x) =~= seq![x]);
    assert(seq![x].last() == x);
}

/// Orders the objects newest first; objects of one date keep their order.
pub fn sort_newest_first(v: Vec<Content>) -> (r: Vec<Content>)
    ensures
        sorted_newest_first(v@, r@),
{
    let ghost src = v@;
    let mut v = v;
    let mut res: Vec<Content> = Vec::new();
    assert(src.skip(src.len() as int) =~= Seq::<Content>::empty());
    assert(src.take(src.len() as int) =~= src);
    while v.len() > 0
        invariant
            v.len() <= src.len(),
            v@ == src.take(v.len() as int),
            res.len() + v.len() == src.len(),
            newest_first(res@),
            forall|date: Seq<char>| #[trigger]
                dated(res@, date) == dated(src.skip(v.len() as int), date),
        decreases v.len(),
    {
        let ghost i = v.len() as int;
        let x = v.pop().unwrap();
        assert(x == src[i - 1]);
        assert(v@ =~= src.take(i - 1));
        let mut p: usize = 0;
        while p < res.len() && text_less(x.last_modified.as_str(), res[p].last_modified.as_str())
            invariant
                p <= res.len(),
                forall|q: int| 0 <= q < p ==> lex_lt(x.last_modified@, #[trigger] res@[q].last_modified@),
            decreases res.len() - p,
        {
            p = p + 1;
        }
        let ghost old_res = res@;
        let ghost kx = x.last_modified@;
        proof {
            // Every object from `p` on is no newer than `x`.
            assert forall|q: int| p <= q < old_res.len() implies !lex_lt(kx, #[trigger] old_res[q].last_modified@) by {
                let kp = old_res[p as int].last_modified@;
                let kq = old_res[q].last_modified@;
                assert(!lex_lt(kx, kp));
                if q > p {
                    assert(!lex_lt(kp, kq));
                }
                if lex_lt(kx, kq) {
                    lemma_lex_total(kp, kq);
                    if lex_lt(kq, kp) {
                        lemma_lex_transitive(kx, kq, kp);
                    }
                }
            }
        }
        res.insert(p, x);
        proof {
            let new_res = res@;
            assert(new_res =~= old_res.take(p as int) + seq![x] + old_res.skip(p as int));
            assert forall|a: int, b: int| 0 <= a < b < new_res.len() implies !lex_lt(
                #[trigger] new_res[a].last_modified@,
                #[trigger] new_res[b].last_modified@,
            ) by {
                if b < p {
                    assert(new_res[a] == old_res[a] && new_res[b] == old_res[b]);
                } else if b == p {
                    assert(new_res[a] == old_res[a]);
                    lemma_lex_irreflexive(kx);
                    if lex_lt(old_res[a].last_modified@, kx) {
                        lemma_lex_transitive(kx, old_res[a].last_modified@, kx);
                    }
                } else if a == p {
                    assert(new_res[b] == old_res[b - 1]);
                } else if a < p {
                    assert(new_res[a] == old_res[a] && new_res[b] == old_res[b - 1]);
                    let ka = old_res[a].last_modified@;
                    let kb = old_res[b - 1].last_modified@;
                    if lex_lt(ka, kb) {
                        lemma_lex_transitive(kx, ka, kb);
                    }
                } else {
                    assert(new_res[a] == old_res[a - 1] && new_res[b] == old_res[b - 1]);
                }
            }
            assert(src.skip(i - 1) =~= seq![x] + src.skip(i));
            assert forall|date: Seq<char>| #[trigger]
                dated(new_res, date) == dated(src.skip(i - 1), date) by {
                let front = old_res.take(p as int);
                let back = old_res.skip(p as int);
                assert(old_res =~= front + back);
                lemma_dated_add(front, back, date);
                lemma_dated_add(front + seq![x], back, date);
                lemma_dated_add(front, seq![x], date);
                lemma_dated_add(seq![x], src.skip(i), date);
                lemma_dated_one(x, date);
                if kx == date {
                    assert forall|q: int| 0 <= q < front.len() implies #[trigger] front[q].last_modified@ != date by {
                        lemma_lex_irreflexive(kx);
                    }
                    lemma_dated_none(front, date);
                    assert(dated(front, date) + seq![x] + dated(back, date) =~= seq![x] + (dated(
                        front,
                        date,
                    ) + dated(back, date)));
                } else {
                    assert(dated(front, date) + Seq::<Content>::empty() =~= dated(front, date));
                    assert(Seq::<Content>::empty() + dated(src.skip(i), date) =~= dated(src.skip(i), date));
                }
            }
        }
    }
    assert(src.skip(0) =~= src);
    res
}

/// `after` is `before` with its size label set from its size: exact below a thousand
/// bytes, from there on a scaled text within a tenth of a unit of the size.
pub open spec fn labelled(before: Content, after: Content) -> bool {
    &&& after.key == before.key
    &&& after.last_modified == before.last_modified
    &&& after.etag == before.etag
    &&& after.size == before.size
    &&& after.owner == before.owner
    &&& after.storage_class == before.storage_class
    &&& after.url == before.url
    &&& after.deleteurl == before.deleteurl
    &&& byte_size_shape(as_unsigned(before.size as int) as u64, after.size_label@)
}

/// Each object of `after` is the one of `before` at its place, labelled.
pub open spec fn all_labelled(before: Seq<Content>, after: Seq<Content>) -> bool {
    &&& after.len() == before.len()
    &&& forall|i: int| 0 <= i < before.len() ==> labelled(before[i], #[trigger] after[i])
}

/// Labelling keeps the dates, so it keeps which objects each date holds.
pub proof fn lemma_labelled_dated(before: Seq<Content>, after: Seq<Content>, date: Seq<char>)
    requires
        all_labelled(before, after),
    ensures
        all_labelled(dated(before, date), dated(after, date)),
    decreases before.len(),
{
    if before.len() > 0 {
        let b = before.drop_last();
        let a = after.drop_last();
        assert(labelled(before[before.len() - 1], after[after.len() - 1]));
        assert forall|i: int| 0 <= i < b.len() implies labelled(b[i], #[trigger] a[i]) by {
            assert(labelled(before[i], after[i]));
        }
        lemma_labelled_dated(b, a, date);
        let db = dated(b, date);
        let da = dated(a, date);
        if before.last().last_modified@ == date {
            assert forall|i: int| 0 <= i < db.len() + 1 implies labelled(
                db.push(before.last())[i],
                #[trigger] da.push(after.last())[i],
            ) by {
                if i < db.len() {
                    assert(labelled(db[i], da[i]));
                }
            }
        }
    }
}

impl Cloud {
    /// Sets the size label of every listed object from its size.
    pub fn label_sizes(&mut self)
        ensures
            Cloud::same_but_contents(*old(self), *final(self)),
            all_labelled(old(self).objectList.contents@, final(self).objectList.contents@),
    {
        let n = self.objectList.contents.len();
        for i in 0..n
            invariant
                n == old(self).objectList.contents@.len(),
                Cloud::same_but_contents(*old(self), *self),
                self.objectList.contents@.len() == n,
                forall|j: int|
                    0 <= j < i ==> labelled(
                        old(self).objectList.contents@[j],
                        #[trigger] self.objectList.contents@[j],
                    ),
                forall|j: int|
                    i <= j < n ==> #[trigger] self.objectList.contents@[j]
                        == old(self).objectList.contents@[j],
        {
            let bits = unsigned_bits(self.objectList.contents[i].size);
            self.objectList.contents[i].size_label = byte_size_label(bits);
        }
    }

    /// Takes in what the listing request gave: a listing replaces the current one, its
    /// objects ordered newest first; without one the current listing stays. Either way
    /// every listed object then gets its size label.
    pub fn accept_listing(&mut self, parsed: Option<ListBucketResult>)
        ensures
            final(self).token == old(self).token,
            final(self).credentials == old(self).credentials,
            match parsed {
                Some(listing) => {
                    &&& final(self).objectList.name == listing.name
                    &&& final(self).objectList.prefix == listing.prefix
                    &&& final(self).objectList.marker == listing.marker
                    &&& final(self).objectList.max_keys == listing.max_keys
                    &&& final(self).objectList.delimiter == listing.delimiter
                    &&& final(self).objectList.is_truncated == listing.is_truncated
                    &&& final(self).objectList.contents@.len() == listing.contents@.len()
                    &&& newest_first(final(self).objectList.contents@)
                    &&& forall|date: Seq<char>|
                        all_labelled(
                            dated(listing.contents@, date),
                            #[trigger] dated(final(self).objectList.contents@, date),
                        )
                },
                None => {
                    &&& Cloud::same_but_contents(*old(self), *final(self))
                    &&& all_labelled(
                        old(self).objectList.contents@,
                        final(self).objectList.contents@,
                    )
                },
            },
    {
        match parsed {
            Some(listing) => {
                let ListBucketResult {
                    name,
                    prefix,
                    marker,
                    max_keys,
                    delimiter,
                    is_truncated,
                    contents,
                } = listing;
                let ghost listed = contents@;
                let sorted = sort_newest_first(contents);
                self.objectList = ListBucketResult {
                    name,
                    prefix,
                    marker,
                    max_keys,
                    delimiter,
                    is_truncated,
                    contents: sorted,
                };
                let ghost before = self.objectList.contents@;
                self.label_sizes();
                proof {
                    let after = self.objectList.contents@;
                    assert forall|i: int, j: int| 0 <= i < j < after.len() implies !lex_lt(
                        #[trigger] after[i].last_modified@,
                        #[trigger] after[j].last_modified@,
                    ) by {
                        assert(labelled(before[i], after[i]));
                        assert(labelled(before[j], after[j]));
                        assert(!lex_lt(before[i].last_modified@, before[j].last_modified@));
                    }
                    assert forall|date: Seq<char>|
                        all_labelled(dated(listed, date), #[trigger] dated(after, date)) by {
                        lemma_labelled_dated(before, after, date);
                        assert(dated(before, date) == dated(listed, date));
                    }
                }
            },
            None => {
                self.label_sizes();
            },
        }
    }
}

} // verus!
