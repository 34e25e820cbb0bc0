//! Small collection helpers.
use vstd::prelude::*;

verus! {

/// The elements of `vs`, one run after the other.
pub open spec fn flat<T>(vs: Seq<Seq<T>>) -> Seq<T>
    decreases vs.len(),
{
    if vs.len() == 0 {
        Seq::empty()
    } else {
        vs[0] + flat(vs.drop_first())
    }
}

/// Joins vectors into one, keeping their order and the order within each.
pub fn flatten<T>(vs: Vec<Vec<T>>) -> (r: Vec<T>)
    ensures
        r@ == flat(vs@.map_values(|v: Vec<T>| v@)),
{
    let ghost all = vs@.map_values(|v: Vec<T>| v@);
    let mut rest = vs;
    let mut out: Vec<T> = Vec::new();
    while rest.len() > 0
        invariant
            out@ + flat(rest@.map_values(|v: Vec<T>| v@)) == flat(all),
        decreases rest@.len(),
    {
        let ghost before = rest@.map_values(|v: Vec<T>| v@);
        let mut head = rest.remove(0);
        proof {
            assert(rest@.map_values(|v: Vec<T>| v@) =~= before.drop_first());
            assert(before[0] == head@);
        }
        let ghost o = out@;
        out.append(&mut head);
        proof {
            assert(out@ + flat(rest@.map_values(|v: Vec<T>| v@)) =~= o + flat(before));
        }
    }
    proof {
        assert(rest@.map_values(|v: Vec<T>| v@) =~= Seq::<Seq<T>>::empty());
        assert(out@ + Seq::<T>::empty() =~= out@);
    }
    out
}

/// The first `n` elements of the joined runs, padded with `fill` when they
/// hold fewer.
pub open spec fn flat_prefix<T>(vs: Seq<Seq<T>>, n: nat, fill: T) -> Seq<T> {
    let f = flat(vs);
    Seq::new(n, |i: int| if i < f.len() { f[i] } else { fill })
}

/// Copies the elements of the runs, in order, into a vector of exactly `n`
/// elements: extra elements are dropped, missing ones are `fill`.
pub fn flatten_array<T: Copy>(vs: &Vec<Vec<T>>, n: usize, fill: T) -> (r: Vec<T>)
    ensures
        r@ == flat_prefix(vs@.map_values(|v: Vec<T>| v@), n as nat, fill),
{
    let ghost all = vs@.map_values(|v: Vec<T>| v@);
    let mut out: Vec<T> = Vec::new();
    let mut i: usize = 0;
    while i < vs.len() && out.len() < n
        invariant
            i <= vs@.len(),
            all == vs@.map_values(|v: Vec<T>| v@),
            out@.len() <= n,
            out@.len() < n ==> out@ == flat(all.take(i as int)),
            out@.len() == n ==> out@ == flat(all).take(n as int),
            out@.len() == n ==> flat(all).len() >= n,
        decreases vs@.len() - i,
    {
        let mut j: usize = 0;
        let ghost o = out@;
        proof {
            lemma_flat_take_push(all, i as int);
            lemma_flat_prefix_of(all, i as int + 1);
        }
        while j < vs[i].len() && out.len() < n
            invariant
                j <= vs@[i as int]@.len(),
                i < vs@.len(),
                all == vs@.map_values(|v: Vec<T>| v@),
                out@.len() <= n,
                out@ == o + vs@[i as int]@.take(j as int),
                o == flat(all.take(i as int)),
                flat(all.take(i + 1)) == o + all[i as int],
                flat(all.take(i + 1)).len() <= flat(all).len(),
                flat(all) .take(flat(all.take(i + 1)).len() as int) == flat(all.take(i + 1)),
            decreases vs@[i as int]@.len() - j,
        {
            out.push(vs[i][j]);
            j += 1;
            assert(out@ =~= o + vs@[i as int]@.take(j as int));
        }
        proof {
            if out@.len() < n {
                assert(vs@[i as int]@.take(j as int) =~= all[i as int]);
            } else {
                let p = flat(all.take(i + 1));
                assert(out@ =~= p.take(n as int));
                assert(flat(all).take(n as int) =~= flat(all).take(p.len() as int).take(n as int));
            }
        }
        i += 1;
    }
    proof {
        lemma_flat_prefix_of(all, i as int);
        if out@.len() < n {
            assert(all.take(i as int) =~= all) by {
                if i < vs@.len() {
                    assert(false);
                }
            }
        }
    }
    while out.len() < n
        invariant
            out@.len() <= n,
            out@.len() >= flat(all).len() ==> out@ == flat(all) + Seq::new((out@.len() - flat(all).len()) as nat, |k: int| fill),
            out@.len() < flat(all).len() ==> out@.len() == n && out@ == flat(all).take(n as int),
            out@.len() == n ==> out@ == flat(all).take(n as int) || out@.len() >= flat(all).len(),
        decreases n - out@.len(),
    {
        out.push(fill);
    }
    proof {
        assert(out@ =~= flat_prefix(all, n as nat, fill));
    }
    out
}

proof fn lemma_flat_take_push<T>(vs: Seq<Seq<T>>, i: int)
    requires
        0 <= i < vs.len(),
    ensures
        flat(vs.take(i + 1)) == flat(vs.take(i)) + vs[i],
    decreases i,
{
    if i == 0 {
        assert(vs.take(1).drop_first() =~= Seq::<Seq<T>>::empty());
        assert(vs.take(0) =~= Seq::<Seq<T>>::empty());
        assert(flat(vs.take(1)) =~= vs[0] + Seq::<T>::empty());
        assert(flat(vs.take(0)) + vs[0] =~= vs[0]);
    } else {
        let d = vs.drop_first();
        lemma_flat_take_push(d, i - 1);
        assert(vs.take(i + 1).drop_first() =~= d.take(i));
        assert(vs.take(i).drop_first() =~= d.take(i - 1));
        assert(flat(vs.take(i + 1)) =~= vs[0] + flat(d.take(i)));
        assert(flat(vs.take(i)) =~= vs[0] + flat(d.take(i - 1)));
        assert(vs[0] + (flat(d.take(i - 1)) + d[i - 1]) =~= (vs[0] + flat(d.take(i - 1))) + vs[i]);
    }
}

proof fn lemma_flat_prefix_of<T>(vs: Seq<Seq<T>>, i: int)
    requires
        0 <= i <= vs.len(),
    ensures
        flat(vs.take(i)).len() <= flat(vs).len(),
        flat(vs).take(flat(vs.take(i)).len() as int) == flat(vs.take(i)),
    decreases i,
{
    if i == 0 {
        assert(vs.take(0) =~= Seq::<Seq<T>>::empty());
        assert(flat(vs).take(0) =~= Seq::<T>::empty());
    } else {
        let d = vs.drop_first();
        lemma_flat_prefix_of(d, i - 1);
        assert(vs.take(i).drop_first() =~= d.take(i - 1));
        assert(flat(vs.take(i)) =~= vs[0] + flat(d.take(i - 1)));
        assert(flat(vs) =~= vs[0] + flat(d));
        assert(flat(vs).take(flat(vs.take(i)).len() as int) =~= vs[0] + flat(d).take(flat(d.take(i - 1)).len() as int));
    }
}

} // verus!
