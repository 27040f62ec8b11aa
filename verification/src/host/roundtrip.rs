//! What comes back when a value that was brought into the host is taken out again:
//! the value itself.
use crate::host::conversion::{
    lemma_to_host_val_evolves, lemma_to_host_vals_evolves, lemma_to_host_vals_len, spec_from_host_val,
    spec_from_host_vals, DEFAULT_HOST_DEPTH_LIMIT,
};
use crate::host::HostView;
use crate::host_object::HostObjectView;
use crate::val::{HostError, RawVal};
use crate::xdr::{ScValView, SCVEC_LIMIT};
use vstd::prelude::*;

verus! {

/// A host value that stands for a self-contained value goes on standing for it when
/// objects are added to the store.
pub proof fn lemma_from_host_val_stable(
    objects: Seq<HostObjectView>,
    more: Seq<HostObjectView>,
    v: RawVal,
    depth: nat,
)
    requires
        objects.is_prefix_of(more),
    ensures
        spec_from_host_val(objects, v, depth) is Ok ==> spec_from_host_val(more, v, depth)
            == spec_from_host_val(objects, v, depth),
    decreases depth, 0nat,
{
    match v {
        RawVal::Object(o) => {
            if o.handle < objects.len() {
                assert(more[o.handle as int] == objects[o.handle as int]);
                match objects[o.handle as int] {
                    HostObjectView::Vec(items) => {
                        if depth > 0 {
                            lemma_from_host_vals_stable(objects, more, items, (depth - 1) as nat);
                        }
                    },
                    HostObjectView::OrdMap(pairs) => {
                        if depth > 0 {
                            lemma_from_host_vals_stable(
                                objects,
                                more,
                                pairs.map_values(|p: (RawVal, RawVal)| p.0),
                                (depth - 1) as nat,
                            );
                            lemma_from_host_vals_stable(
                                objects,
                                more,
                                pairs.map_values(|p: (RawVal, RawVal)| p.1),
                                (depth - 1) as nat,
                            );
                        }
                    },
                    _ => {},
                }
            }
        },
        _ => {},
    }
}

/// See [`lemma_from_host_val_stable`].
pub proof fn lemma_from_host_vals_stable(
    objects: Seq<HostObjectView>,
    more: Seq<HostObjectView>,
    items: Seq<RawVal>,
    depth: nat,
)
    requires
        objects.is_prefix_of(more),
    ensures
        spec_from_host_vals(objects, items, depth) is Ok ==> spec_from_host_vals(more, items, depth)
            == spec_from_host_vals(objects, items, depth),
    decreases depth, items.len() + 1,
{
    if items.len() > 0 {
        lemma_from_host_vals_stable(objects, more, items.drop_last(), depth);
        lemma_from_host_val_stable(objects, more, items.last(), depth);
    }
}

/// A value that was brought into the host is what the host value stands for that
/// was handed out for it.
pub proof fn lemma_to_host_val_round_trip<C>(h: HostView<C>, v: ScValView, depth: nat)
    ensures
        h.to_host_val(v, depth).1 matches Ok(raw) ==> spec_from_host_val(
            h.to_host_val(v, depth).0.objects,
            raw,
            depth,
        ) == Ok::<ScValView, HostError>(v),
    decreases depth, 0nat,
{
    if h.to_host_val(v, depth).1 is Ok {
        match v {
            ScValView::Vec(items) => {
                let below = (depth - 1) as nat;
                let h1 = h.to_host_vals(items, below).0;
                let raws = h.to_host_vals(items, below).1->Ok_0;
                let h2 = h.to_host_val(v, depth).0;
                lemma_to_host_vals_round_trip(h, items, below);
                assert(h2.objects == h1.objects.push(HostObjectView::Vec(raws)));
                lemma_from_host_vals_stable(h1.objects, h2.objects, raws, below);
            },
            ScValView::OrdMap(pairs) => {
                let below = (depth - 1) as nat;
                let ks = pairs.map_values(|p: (ScValView, ScValView)| p.0);
                let vs = pairs.map_values(|p: (ScValView, ScValView)| p.1);
                let h1 = h.to_host_vals(ks, below).0;
                let raw_ks = h.to_host_vals(ks, below).1->Ok_0;
                let h2 = h1.to_host_vals(vs, below).0;
                let raw_vs = h1.to_host_vals(vs, below).1->Ok_0;
                let h3 = h.to_host_val(v, depth).0;
                let stored = raw_ks.zip_with(raw_vs);
                lemma_to_host_vals_round_trip(h, ks, below);
                lemma_to_host_vals_round_trip(h1, vs, below);
                lemma_to_host_vals_len(h, ks, below);
                lemma_to_host_vals_len(h1, vs, below);
                lemma_to_host_vals_evolves(h1, vs, below);
                assert(h3.objects == h2.objects.push(HostObjectView::OrdMap(stored)));
                assert(h1.objects.is_prefix_of(h3.objects));
                lemma_from_host_vals_stable(h1.objects, h3.objects, raw_ks, below);
                lemma_from_host_vals_stable(h2.objects, h3.objects, raw_vs, below);
                assert(stored.map_values(|p: (RawVal, RawVal)| p.0) =~= raw_ks);
                assert(stored.map_values(|p: (RawVal, RawVal)| p.1) =~= raw_vs);
                assert(ks.zip_with(vs) =~= pairs);
            },
            _ => {},
        }
    }
}

/// See [`lemma_to_host_val_round_trip`].
pub proof fn lemma_to_host_vals_round_trip<C>(h: HostView<C>, items: Seq<ScValView>, depth: nat)
    ensures
        h.to_host_vals(items, depth).1 matches Ok(raws) ==> spec_from_host_vals(
            h.to_host_vals(items, depth).0.objects,
            raws,
            depth,
        ) == Ok::<Seq<ScValView>, HostError>(items),
    decreases depth, items.len() + 1,
{
    if items.len() == 0 {
        assert(items =~= Seq::<ScValView>::empty());
    } else if h.to_host_vals(items, depth).1 is Ok {
        let h1 = h.to_host_vals(items.drop_last(), depth).0;
        let raws = h.to_host_vals(items.drop_last(), depth).1->Ok_0;
        let h2 = h1.to_host_val(items.last(), depth).0;
        let raw = h1.to_host_val(items.last(), depth).1->Ok_0;
        lemma_to_host_vals_round_trip(h, items.drop_last(), depth);
        lemma_to_host_val_round_trip(h1, items.last(), depth);
        lemma_to_host_val_evolves(h1, items.last(), depth);
        lemma_from_host_vals_stable(h1.objects, h2.objects, raws, depth);
        let all = raws.push(raw);
        assert(h.to_host_vals(items, depth) == (h2, Ok::<Seq<RawVal>, HostError>(all)));
        assert(all.drop_last() =~= raws);
        assert(all.last() == raw);
        assert(spec_from_host_vals(h2.objects, all.drop_last(), depth) == Ok::<
            Seq<ScValView>,
            HostError,
        >(items.drop_last()));
        assert(spec_from_host_val(h2.objects, all.last(), depth) == Ok::<ScValView, HostError>(
            items.last(),
        ));
        assert(items.drop_last().push(items.last()) =~= items);
    }
}

/// Round trip: a run of self-contained values that was brought into the host and is
/// converted back right away is the run that was brought in, and converting it back
/// leaves the host as it is.
pub proof fn lemma_scvals_round_trip<C>(h: HostView<C>, items: Seq<ScValView>)
    requires
        items.len() <= SCVEC_LIMIT,
    ensures
        h.to_host_vals(items, DEFAULT_HOST_DEPTH_LIMIT as nat).1 matches Ok(raws) ==> h.to_host_vals(
            items,
            DEFAULT_HOST_DEPTH_LIMIT as nat,
        ).0.rawvals_to_scvec(raws) == (
            h.to_host_vals(items, DEFAULT_HOST_DEPTH_LIMIT as nat).0,
            Ok::<Seq<ScValView>, HostError>(items),
        ),
{
    lemma_to_host_vals_round_trip(h, items, DEFAULT_HOST_DEPTH_LIMIT as nat);
}

} // verus!
