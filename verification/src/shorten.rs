//! Shortening of the working directory against the home directory.
//!
//! When the home directory is a component-wise prefix of the path — not
//! merely a prefix of its bytes — the home prefix is replaced by the `~`
//! marker; otherwise the path is returned unchanged.

use vstd::prelude::*;
use crate::bytes::{copy_bytes, extend_bytes};

verus! {

/// Split a byte path into its non-empty components, with `cur` the
/// component read so far.
pub open spec fn split_acc(s: Seq<u8>, cur: Seq<u8>) -> Seq<Seq<u8>>
    decreases s.len(),
{
    if s.len() == 0 {
        if cur.len() == 0 {
            Seq::<Seq<u8>>::empty()
        } else {
            seq![cur]
        }
    } else if s[0] == 47 {
        (if cur.len() == 0 {
            Seq::<Seq<u8>>::empty()
        } else {
            seq![cur]
        }) + split_acc(s.skip(1), Seq::<u8>::empty())
    } else {
        split_acc(s.skip(1), cur.push(s[0]))
    }
}

/// The components of a byte path: its maximal runs of non-separator bytes,
/// so that repeated or trailing separators do not matter.
pub open spec fn path_components(s: Seq<u8>) -> Seq<Seq<u8>> {
    split_acc(s, Seq::<u8>::empty())
}

/// Whether a byte path is absolute.
pub open spec fn is_absolute(s: Seq<u8>) -> bool {
    s.len() > 0 && s[0] == 47
}

/// `home` is a component-wise path prefix of `path`.
pub open spec fn component_prefix(home: Seq<u8>, path: Seq<u8>) -> bool {
    is_absolute(home) == is_absolute(path) && path_components(home).is_prefix_of(
        path_components(path),
    )
}

/// The given components, each preceded by one separator.
pub open spec fn join_tail(comps: Seq<Seq<u8>>) -> Seq<u8>
    decreases comps.len(),
{
    if comps.len() == 0 {
        Seq::<u8>::empty()
    } else {
        seq![47u8] + comps[0] + join_tail(comps.skip(1))
    }
}

/// Joining distributes over appending one component at the end.
proof fn lemma_join_tail_push(comps: Seq<Seq<u8>>, c: Seq<u8>)
    ensures
        join_tail(comps.push(c)) == join_tail(comps) + seq![47u8] + c,
    decreases comps.len(),
{
    if comps.len() == 0 {
        assert(comps.push(c)[0] == c);
        assert(comps.push(c).skip(1) =~= Seq::<Seq<u8>>::empty());
        assert(join_tail(comps.push(c)) == seq![47u8] + c + join_tail(
            Seq::<Seq<u8>>::empty(),
        ));
        assert(join_tail(comps.push(c)) =~= join_tail(comps) + seq![47u8] + c);
    } else {
        assert(comps.push(c).skip(1) =~= comps.skip(1).push(c));
        assert(comps.push(c)[0] == comps[0]);
        lemma_join_tail_push(comps.skip(1), c);
        assert(join_tail(comps.push(c)) =~= join_tail(comps) + seq![47u8] + c);
    }
}

/// What shortening yields: the `~` marker followed by the suffix
/// components when the home directory is present and a component-wise
/// prefix of the path, and the path unchanged otherwise.
pub open spec fn spec_shorten(path: Seq<u8>, home: Option<Seq<u8>>) -> Seq<u8> {
    match home {
        Option::Some(h) => if component_prefix(h, path) {
            seq![126u8] + join_tail(path_components(path).skip(path_components(h).len() as int))
        } else {
            path
        },
        Option::None => path,
    }
}

/// Split a byte path into its non-empty components.
fn split_components(s: &Vec<u8>) -> (r: Vec<Vec<u8>>)
    ensures
        r@.map_values(|v: Vec<u8>| v@) == path_components(s@),
{
    let n = s.len();
    let mut comps: Vec<Vec<u8>> = Vec::new();
    let mut cur: Vec<u8> = Vec::new();
    let mut i: usize = 0;
    proof {
        assert(s@.skip(0) =~= s@);
        assert(comps@.map_values(|v: Vec<u8>| v@) + split_acc(s@.skip(0), cur@) =~= split_acc(
            s@,
            Seq::<u8>::empty(),
        ));
    }
    while i < n
        invariant
            0 <= i <= n,
            n == s@.len(),
            comps@.map_values(|v: Vec<u8>| v@) + split_acc(s@.skip(i as int), cur@)
                == path_components(s@),
        decreases n - i,
    {
        let ghost pre_comps = comps@.map_values(|v: Vec<u8>| v@);
        let ghost pre_cur = cur@;
        let b = s[i];
        if b == 47 {
            if cur.len() > 0 {
                comps.push(cur);
                cur = Vec::new();
                proof {
                    assert(comps@.map_values(|v: Vec<u8>| v@) =~= pre_comps.push(pre_cur));
                }
            }
        } else {
            cur.push(b);
        }
        proof {
            assert(s@.skip(i as int)[0] == s@[i as int]);
            assert(s@.skip(i as int).skip(1) =~= s@.skip(i + 1 as int));
            if s@[i as int] == 47 {
                if pre_cur.len() == 0 {
                    assert(pre_cur =~= Seq::<u8>::empty());
                    assert(cur@ =~= Seq::<u8>::empty());
                    assert(pre_comps + split_acc(s@.skip(i as int), pre_cur) =~= pre_comps
                        + split_acc(s@.skip(i + 1 as int), Seq::<u8>::empty()));
                } else {
                    assert(pre_comps + split_acc(s@.skip(i as int), pre_cur) =~= pre_comps.push(
                        pre_cur,
                    ) + split_acc(s@.skip(i + 1 as int), Seq::<u8>::empty()));
                    assert(cur@ =~= Seq::<u8>::empty());
                }
            } else {
                assert(split_acc(s@.skip(i as int), pre_cur) == split_acc(
                    s@.skip(i + 1 as int),
                    pre_cur.push(s@[i as int]),
                ));
            }
        }
        i += 1;
    }
    proof {
        assert(s@.skip(n as int) =~= Seq::<u8>::empty());
    }
    if cur.len() > 0 {
        let ghost pre_comps = comps@.map_values(|v: Vec<u8>| v@);
        let ghost pre_cur = cur@;
        comps.push(cur);
        proof {
            assert(comps@.map_values(|v: Vec<u8>| v@) =~= pre_comps.push(pre_cur));
            assert(pre_comps.push(pre_cur) =~= pre_comps + split_acc(
                Seq::<u8>::empty(),
                pre_cur,
            ));
        }
    }
    comps
}

/// Replace a home-directory prefix of `path` with the `~` marker.
///
/// The prefix test is component-wise: `/home/alice` is a prefix of
/// `/home/alice/projects` but not of `/home/alice2`. Without a home
/// directory, or without such a prefix, the path comes back unchanged.
#[verifier::loop_isolation(false)]
pub fn shorted_path_buf(path: &Vec<u8>, home: Option<&Vec<u8>>) -> (r: Vec<u8>)
    ensures
        home matches Some(h) ==> r@ == spec_shorten(path@, Some(h@)),
        home is None ==> r@ == spec_shorten(path@, Option::<Seq<u8>>::None),
{
    let h = match home {
        Some(h) => h,
        None => {
            return copy_bytes(path);
        },
    };
    let path_abs = path.len() > 0 && path[0] == 47;
    let home_abs = h.len() > 0 && h[0] == 47;
    if path_abs != home_abs {
        return copy_bytes(path);
    }
    let pc = split_components(path);
    let hc = split_components(h);
    let ghost pcv = pc@.map_values(|v: Vec<u8>| v@);
    let ghost hcv = hc@.map_values(|v: Vec<u8>| v@);
    let hn = hc.len();
    if hn > pc.len() {
        proof {
            assert(!hcv.is_prefix_of(pcv));
        }
        return copy_bytes(path);
    }
    let mut i: usize = 0;
    while i < hn
        invariant
            0 <= i <= hn,
            hn == hc@.len(),
            hn <= pc@.len(),
            pcv == pc@.map_values(|v: Vec<u8>| v@),
            hcv == hc@.map_values(|v: Vec<u8>| v@),
            forall|j: int| 0 <= j < i ==> hcv[j] == pcv[j],
        decreases hn - i,
    {
        if !vecs_equal(&hc[i], &pc[i]) {
            proof {
                assert(hcv[i as int] != pcv[i as int]);
                assert(!hcv.is_prefix_of(pcv)) by {
                    if hcv.is_prefix_of(pcv) {
                        assert(hcv[i as int] == pcv.subrange(0, hcv.len() as int)[i as int]);
                    }
                }
            }
            return copy_bytes(path);
        }
        i += 1;
    }
    proof {
        assert(hcv =~= pcv.subrange(0, hn as int));
        assert(hcv.is_prefix_of(pcv));
    }
    let mut out: Vec<u8> = Vec::new();
    out.push(126);
    let pn = pc.len();
    let mut j: usize = hn;
    while j < pn
        invariant
            hn <= j <= pn,
            pn == pc@.len(),
            pcv == pc@.map_values(|v: Vec<u8>| v@),
            out@ == seq![126u8] + join_tail(pcv.subrange(hn as int, j as int)),
        decreases pn - j,
    {
        let ghost pre = pcv.subrange(hn as int, j as int);
        out.push(47);
        extend_bytes(&mut out, &pc[j]);
        proof {
            lemma_join_tail_push(pre, pcv[j as int]);
            assert(pcv.subrange(hn as int, j + 1 as int) =~= pre.push(pcv[j as int]));
            assert(out@ =~= seq![126u8] + join_tail(pcv.subrange(hn as int, j + 1 as int)));
        }
        j += 1;
    }
    proof {
        assert(pcv.subrange(hn as int, pn as int) =~= pcv.skip(hn as int));
    }
    out
}

/// Whether two byte vectors hold the same bytes.
fn vecs_equal(a: &Vec<u8>, b: &Vec<u8>) -> (r: bool)
    ensures
        r == (a@ == b@),
{
    if a.len() != b.len() {
        return false;
    }
    let n = a.len();
    let mut i: usize = 0;
    while i < n
        invariant
            0 <= i <= n,
            n == a@.len(),
            n == b@.len(),
            forall|j: int| 0 <= j < i ==> a@[j] == b@[j],
        decreases n - i,
    {
        if a[i] != b[i] {
            return false;
        }
        i += 1;
    }
    proof {
        assert(a@ =~= b@);
    }
    true
}

} // verus!
