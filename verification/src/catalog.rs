//! Lists of formats without repeats: one format per MIME type, the first one given,
//! in MIME order.
use vstd::prelude::*;
use crate::format::{FormatId, FormatSpec, formats_view};
use crate::order::{str_lt, str_less, lemma_str_lt_irreflexive, lemma_str_lt_transitive, lemma_str_lt_total};
use crate::text::str_eq;

verus! {

/// No format before position `j` has the MIME type of the format at `j`.
pub open spec fn first_of_mime(s: Seq<FormatSpec>, j: int) -> bool {
    0 <= j < s.len() && forall|i: int| 0 <= i < j ==> (#[trigger] s[i]).mime != s[j].mime
}

/// `x` is the format at some position below `n` of `s`, the first there with its MIME type.
pub open spec fn came_first(s: Seq<FormatSpec>, n: int, x: FormatSpec) -> bool {
    exists|j: int| #[trigger] first_of_mime(s, j) && j < n && s[j] == x
}

/// Some format of `r` has the MIME type `mime`.
pub open spec fn mime_listed(r: Seq<FormatSpec>, mime: Seq<char>) -> bool {
    exists|k: int| 0 <= k < r.len() && (#[trigger] r[k]).mime == mime
}

/// The formats of `r` are in strictly increasing MIME order.
pub open spec fn sorted_mimes(r: Seq<FormatSpec>) -> bool {
    forall|i: int, j: int| 0 <= i < j < r.len() ==> str_lt((#[trigger] r[i]).mime, (#[trigger] r[j]).mime)
}

/// `r` lists the first `n` formats of `s` without repeats: in MIME order, each the
/// first of `s` with its MIME type, and each MIME type of `s` listed.
pub open spec fn unique_prefix(s: Seq<FormatSpec>, n: int, r: Seq<FormatSpec>) -> bool {
    &&& sorted_mimes(r)
    &&& forall|k: int| 0 <= k < r.len() ==> came_first(s, n, #[trigger] r[k])
    &&& forall|j: int| 0 <= j < n ==> #[trigger] mime_listed(r, s[j].mime)
}

/// `r` lists `s` without repeats: one format per MIME type, the first such format
/// of `s`, in MIME order.
pub open spec fn unique_formats(s: Seq<FormatSpec>, r: Seq<FormatSpec>) -> bool {
    unique_prefix(s, s.len() as int, r)
}

proof fn lemma_unique_seen(s: Seq<FormatSpec>, n: int, r: Seq<FormatSpec>, p: int)
    requires
        unique_prefix(s, n, r),
        0 <= n < s.len(),
        0 <= p < r.len(),
        r[p].mime == s[n].mime,
    ensures
        unique_prefix(s, n + 1, r),
{
    assert forall|k: int| 0 <= k < r.len() implies came_first(s, n + 1, #[trigger] r[k]) by {
        assert(came_first(s, n, r[k]));
    }
    assert(mime_listed(r, s[n].mime));
}

proof fn lemma_insert_sorted(r: Seq<FormatSpec>, p: int, x: FormatSpec)
    requires
        sorted_mimes(r),
        0 <= p <= r.len(),
        forall|i: int| 0 <= i < p ==> str_lt((#[trigger] r[i]).mime, x.mime),
        p < r.len() ==> str_lt(x.mime, r[p].mime),
    ensures
        sorted_mimes(r.insert(p, x)),
{
    let nv = r.insert(p, x);
    assert forall|i: int, j: int| 0 <= i < j < nv.len() implies str_lt((#[trigger] nv[i]).mime, (#[trigger] nv[j]).mime) by {
        if j < p {
            assert(nv[i] == r[i] && nv[j] == r[j]);
        } else if j == p {
            assert(nv[i] == r[i]);
        } else if i < p {
            assert(nv[i] == r[i] && nv[j] == r[j - 1]);
            lemma_str_lt_transitive(r[i].mime, x.mime, r[p].mime);
            if j - 1 > p {
                lemma_str_lt_transitive(r[i].mime, r[p].mime, r[j - 1].mime);
            }
        } else if i == p {
            assert(nv[j] == r[j - 1]);
            if j - 1 > p {
                lemma_str_lt_transitive(x.mime, r[p].mime, r[j - 1].mime);
            }
        } else {
            assert(nv[i] == r[i - 1] && nv[j] == r[j - 1]);
        }
    }
}

proof fn lemma_unique_insert(s: Seq<FormatSpec>, n: int, r: Seq<FormatSpec>, p: int)
    requires
        unique_prefix(s, n, r),
        0 <= n < s.len(),
        0 <= p <= r.len(),
        forall|i: int| 0 <= i < p ==> str_lt((#[trigger] r[i]).mime, s[n].mime),
        p < r.len() ==> !str_lt(r[p].mime, s[n].mime) && r[p].mime != s[n].mime,
    ensures
        unique_prefix(s, n + 1, r.insert(p, s[n])),
{
    let x = s[n];
    if p < r.len() {
        lemma_str_lt_total(r[p].mime, x.mime);
    }
    assert forall|k: int| 0 <= k < r.len() implies (#[trigger] r[k]).mime != x.mime by {
        if k < p {
            lemma_str_lt_irreflexive(x.mime);
        } else if k > p {
            lemma_str_lt_transitive(x.mime, r[p].mime, r[k].mime);
            lemma_str_lt_irreflexive(x.mime);
        }
    }
    assert forall|i: int| 0 <= i < n implies (#[trigger] s[i]).mime != s[n].mime by {
        assert(mime_listed(r, s[i].mime));
    }
    assert(first_of_mime(s, n));
    lemma_insert_sorted(r, p, x);
    let nv = r.insert(p, x);
    assert forall|k: int| 0 <= k < nv.len() implies came_first(s, n + 1, #[trigger] nv[k]) by {
        if k < p {
            assert(nv[k] == r[k]);
            assert(came_first(s, n, r[k]));
        } else if k == p {
            assert(nv[k] == s[n]);
        } else {
            assert(nv[k] == r[k - 1]);
            assert(came_first(s, n, r[k - 1]));
        }
    }
    assert forall|j: int| 0 <= j < n + 1 implies #[trigger] mime_listed(nv, s[j].mime) by {
        if j == n {
            assert(nv[p] == x);
        } else {
            assert(mime_listed(r, s[j].mime));
            let k = choose|k: int| 0 <= k < r.len() && (#[trigger] r[k]).mime == s[j].mime;
            if k < p {
                assert(nv[k] == r[k]);
            } else {
                assert(nv[k + 1] == r[k]);
            }
        }
    }
}

/// Appends copies of `fs` to `acc`.
pub fn append_formats(acc: &mut Vec<FormatId>, fs: &Vec<FormatId>)
    ensures
        formats_view(final(acc)@) == formats_view(old(acc)@) + formats_view(fs@),
{
    let ghost start = formats_view(acc@);
    let mut i: usize = 0;
    proof {
        assert(start + formats_view(fs@.take(0)) =~= start);
    }
    while i < fs.len()
        invariant
            i <= fs@.len(),
            formats_view(acc@) == start + formats_view(fs@.take(i as int)),
        decreases fs@.len() - i,
    {
        let ghost before = formats_view(acc@);
        acc.push(fs[i].clone());
        proof {
            assert(formats_view(acc@) =~= before.push(fs@[i as int]@));
            assert(formats_view(fs@.take(i + 1)) =~= formats_view(fs@.take(i as int)).push(fs@[i as int]@));
            assert(formats_view(acc@) =~= start + formats_view(fs@.take(i + 1)));
        }
        i = i + 1;
    }
    proof {
        assert(fs@.take(fs@.len() as int) =~= fs@);
    }
}

/// Keeps the first format of each MIME type and orders the result by MIME type.
pub fn unique_by_mime(formats: Vec<FormatId>) -> (r: Vec<FormatId>)
    ensures
        unique_formats(formats_view(formats@), formats_view(r@)),
{
    let ghost s = formats_view(formats@);
    let mut r: Vec<FormatId> = Vec::new();
    let mut n: usize = 0;
    proof {
        assert(formats_view(r@) =~= Seq::<FormatSpec>::empty());
    }
    while n < formats.len()
        invariant
            n <= formats.len(),
            s == formats_view(formats@),
            unique_prefix(s, n as int, formats_view(r@)),
        decreases formats.len() - n,
    {
        let x = &formats[n];
        let ghost rv = formats_view(r@);
        let mut p: usize = 0;
        while p < r.len() && str_less(r[p].mime.as_str(), x.mime.as_str())
            invariant
                p <= r@.len(),
                rv == formats_view(r@),
                s[n as int] == x@,
                forall|i: int| 0 <= i < p ==> str_lt((#[trigger] rv[i]).mime, s[n as int].mime),
            decreases r@.len() - p,
        {
            p = p + 1;
        }
        if p < r.len() && str_eq(r[p].mime.as_str(), x.mime.as_str()) {
            proof {
                lemma_unique_seen(s, n as int, rv, p as int);
            }
        } else {
            proof {
                lemma_unique_insert(s, n as int, rv, p as int);
            }
            r.insert(p, x.clone());
            proof {
                assert(formats_view(r@) =~= rv.insert(p as int, s[n as int]));
            }
        }
        n = n + 1;
    }
    r
}

} // verus!
