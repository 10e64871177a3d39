//! Laws of component clips in a layer tree.

use crate::layer_tree::{first_occurrences, requests, spliced, stripped, LayerView};
use vstd::prelude::*;

verus! {

/// The components of requests, in order.
pub open spec fn component_names<P>(requests: Seq<(Seq<char>, P)>) -> Seq<Seq<char>> {
    requests.map_values(|q: (Seq<char>, P)| q.0)
}

proof fn lemma_names_concat<P>(a: Seq<(Seq<char>, P)>, b: Seq<(Seq<char>, P)>)
    ensures
        component_names(a + b) == component_names(a) + component_names(b),
{
    assert(component_names(a + b) =~= component_names(a) + component_names(b));
}

proof fn lemma_first_rest<T>(first: T, rest: Seq<T>)
    ensures
        (seq![first] + rest)[0] == first,
        (seq![first] + rest).drop_first() == rest,
{
    assert((seq![first] + rest).drop_first() =~= rest);
}

/// Once the components are hidden, none is left, inside groups either.
pub proof fn law_stripped_has_no_components<S, P, O>(layers: Seq<LayerView<S, P, O>>)
    ensures
        requests(stripped(layers)) == Seq::<(Seq<char>, P)>::empty(),
    decreases layers,
{
    if layers.len() > 0 {
        let rest = stripped(layers.drop_first());
        law_stripped_has_no_components(layers.drop_first());
        match layers[0] {
            LayerView::Group { shell, children } => {
                law_stripped_has_no_components(children);
                let first = LayerView::Group { shell, children: stripped(children) };
                lemma_first_rest(first, rest);
                assert(requests(seq![first] + rest) =~= requests(stripped(children)) + requests(
                    rest,
                ));
            },
            LayerView::Missing { .. } => {},
            LayerView::Other { shell, content } => {
                let first = LayerView::<S, P, O>::Other { shell, content };
                lemma_first_rest(first, rest);
                assert(requests(seq![first] + rest) =~= Seq::<(Seq<char>, P)>::empty() + requests(
                    rest,
                ));
            },
        }
    } else {
        assert(stripped(layers) =~= Seq::<LayerView<S, P, O>>::empty());
    }
}

/// Without any resolution, splicing hides every component exactly as
/// hiding them does, and reports each of them, in drawing order.
pub proof fn law_unresolved_splice_hides_everything<S, P, O>(layers: Seq<LayerView<S, P, O>>)
    ensures
        spliced(layers, Seq::empty()) == (
            stripped(layers),
            Seq::<Option<Seq<LayerView<S, P, O>>>>::empty(),
            component_names(requests(layers)),
        ),
    decreases layers,
{
    let none = Seq::<Option<Seq<LayerView<S, P, O>>>>::empty();
    if layers.len() > 0 {
        let tail = layers.drop_first();
        law_unresolved_splice_hides_everything(tail);
        match layers[0] {
            LayerView::Group { shell, children } => {
                law_unresolved_splice_hides_everything(children);
                lemma_names_concat(requests(children), requests(tail));
            },
            LayerView::Missing { shell, component, props } => {
                assert(requests(layers) == seq![(component, props)] + requests(tail));
                lemma_names_concat(seq![(component, props)], requests(tail));
                assert(component_names(seq![(component, props)]) =~= seq![component]);
            },
            LayerView::Other { .. } => {
                assert(requests(layers) =~= requests(tail));
            },
        }
    } else {
        assert(requests(layers) =~= Seq::<(Seq<char>, P)>::empty());
        assert(component_names(requests(layers)) =~= Seq::<Seq<char>>::empty());
        assert(stripped(layers) =~= Seq::<LayerView<S, P, O>>::empty());
    }
}

/// Each component takes the next resolution: splicing uses up one
/// resolution per component clip, in order, as long as there are any.
pub proof fn law_one_resolution_per_component<S, P, O>(
    layers: Seq<LayerView<S, P, O>>,
    resolutions: Seq<Option<Seq<LayerView<S, P, O>>>>,
)
    ensures
        ({
            let used = if requests(layers).len() < resolutions.len() {
                requests(layers).len() as int
            } else {
                resolutions.len() as int
            };
            spliced(layers, resolutions).1 == resolutions.skip(used)
        }),
    decreases layers,
{
    if layers.len() > 0 {
        let tail = layers.drop_first();
        match layers[0] {
            LayerView::Group { shell, children } => {
                law_one_resolution_per_component(children, resolutions);
                let after = spliced(children, resolutions).1;
                law_one_resolution_per_component(tail, after);
                let n1 = requests(children).len();
                let n2 = requests(tail).len();
                assert(requests(layers).len() == n1 + n2);
                let u1 = if n1 < resolutions.len() {
                    n1 as int
                } else {
                    resolutions.len() as int
                };
                assert(after == resolutions.skip(u1));
                let u2 = if n2 < after.len() {
                    n2 as int
                } else {
                    after.len() as int
                };
                assert(resolutions.skip(u1).skip(u2) =~= resolutions.skip(u1 + u2));
            },
            LayerView::Missing { shell, component, props } => {
                assert(requests(layers) == seq![(component, props)] + requests(tail));
                if resolutions.len() > 0 {
                    let remaining = resolutions.drop_first();
                    law_one_resolution_per_component(tail, remaining);
                    let n2 = requests(tail).len();
                    let u2 = if n2 < remaining.len() {
                        n2 as int
                    } else {
                        remaining.len() as int
                    };
                    assert(remaining.skip(u2) =~= resolutions.skip(u2 + 1));
                } else {
                    law_one_resolution_per_component(tail, resolutions);
                    assert(resolutions.skip(0) =~= resolutions);
                }
            },
            LayerView::Other { .. } => {
                law_one_resolution_per_component(tail, resolutions);
                assert(requests(layers) =~= requests(tail));
            },
        }
    } else {
        assert(requests(layers) =~= Seq::<(Seq<char>, P)>::empty());
        assert(resolutions.skip(0) =~= resolutions);
    }
}

/// The distinct components name each component once, and every component
/// named in the list.
pub proof fn law_first_occurrences_are_distinct(names: Seq<Seq<char>>)
    ensures
        first_occurrences(names).no_duplicates(),
        forall|name: Seq<char>| first_occurrences(names).contains(name) <==> names.contains(name),
    decreases names.len(),
{
    if names.len() > 0 {
        let rest = names.drop_last();
        law_first_occurrences_are_distinct(rest);
        let kept = first_occurrences(rest);
        let last = names.last();
        assert forall|name: Seq<char>| first_occurrences(names).contains(name) <==> names.contains(name) by {
            if names.contains(name) && name != last {
                let k = choose|k: int| 0 <= k < names.len() && names[k] == name;
                assert(rest[k] == name);
                assert(rest.contains(name));
            }
            if rest.contains(name) {
                let k = choose|k: int| 0 <= k < rest.len() && rest[k] == name;
                assert(names[k] == name);
            }
            if !kept.contains(last) {
                assert(kept.push(last)[kept.len() as int] == last);
                if kept.push(last).contains(name) {
                    let k = choose|k: int| 0 <= k < kept.len() + 1 && kept.push(last)[k] == name;
                    if k < kept.len() {
                        assert(kept[k] == name);
                    }
                }
                if kept.contains(name) {
                    let k = choose|k: int| 0 <= k < kept.len() && kept[k] == name;
                    assert(kept.push(last)[k] == name);
                }
            }
            assert(names[names.len() - 1] == last);
        }
        if !kept.contains(last) {
            assert forall|a: int, b: int|
                0 <= a < b < kept.push(last).len() implies kept.push(last)[a] != kept.push(last)[b] by {
                if b == kept.len() {
                    assert(kept.push(last)[a] == kept[a]);
                }
            }
        }
    } else {
        assert(first_occurrences(names) =~= Seq::<Seq<char>>::empty());
    }
}

} // verus!
