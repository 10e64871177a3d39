//! Component clips in an evaluated layer tree. A component clip evaluates
//! to a placeholder layer that the React entry resolves; the preview lists
//! the placeholders, splices in what the entry resolved them to, and hides
//! the ones it could not resolve.

use vstd::prelude::*;

verus! {

/// A layer of an evaluated scene: `shell` is what places it (its id,
/// transform and opacity), the rest what it draws.
pub enum LayerNode<S, P, O> {
    /// A group of layers drawn together.
    Group { shell: S, children: Vec<LayerNode<S, P, O>> },
    /// A component clip still to be resolved, with its props.
    Missing { shell: S, component: String, props: P },
    /// Any other layer.
    Other { shell: S, content: O },
}

/// A layer as a mathematical value.
pub enum LayerView<S, P, O> {
    Group { shell: S, children: Seq<LayerView<S, P, O>> },
    Missing { shell: S, component: Seq<char>, props: P },
    Other { shell: S, content: O },
}

pub open spec fn view_layers<S, P, O>(nodes: Seq<LayerNode<S, P, O>>) -> Seq<LayerView<S, P, O>>
    decreases nodes,
{
    if nodes.len() == 0 {
        Seq::empty()
    } else {
        seq![view_layer(nodes[0])] + view_layers(nodes.drop_first())
    }
}

pub open spec fn view_layer<S, P, O>(node: LayerNode<S, P, O>) -> LayerView<S, P, O>
    decreases node,
{
    match node {
        LayerNode::Group { shell, children } => LayerView::Group {
            shell,
            children: view_layers(children@),
        },
        LayerNode::Missing { shell, component, props } => LayerView::Missing {
            shell,
            component: component@,
            props,
        },
        LayerNode::Other { shell, content } => LayerView::Other { shell, content },
    }
}

/// The component clips of `layers`, depth first in drawing order, as
/// `(component, props)`.
pub open spec fn requests<S, P, O>(layers: Seq<LayerView<S, P, O>>) -> Seq<(Seq<char>, P)>
    decreases layers,
{
    if layers.len() == 0 {
        Seq::empty()
    } else {
        let here = match layers[0] {
            LayerView::Group { children, .. } => requests(children),
            LayerView::Missing { component, props, .. } => seq![(component, props)],
            LayerView::Other { .. } => Seq::empty(),
        };
        here + requests(layers.drop_first())
    }
}

/// `layers` with every component clip dropped, inside groups too.
pub open spec fn stripped<S, P, O>(layers: Seq<LayerView<S, P, O>>) -> Seq<LayerView<S, P, O>>
    decreases layers,
{
    if layers.len() == 0 {
        Seq::empty()
    } else {
        let rest = stripped(layers.drop_first());
        match layers[0] {
            LayerView::Group { shell, children } => seq![
                LayerView::Group { shell, children: stripped(children) },
            ] + rest,
            LayerView::Missing { .. } => rest,
            LayerView::Other { shell, content } => seq![LayerView::Other { shell, content }] + rest,
        }
    }
}


/// `layers` with each component clip replaced by a group of the layers the
/// next resolution gave it, in the shell of the clip, or dropped when there
/// is no resolution for it (also when the resolutions ran out): the layers,
/// the resolutions left over, and the components dropped, in order.
pub open spec fn spliced<S, P, O>(
    layers: Seq<LayerView<S, P, O>>,
    resolutions: Seq<Option<Seq<LayerView<S, P, O>>>>,
) -> (Seq<LayerView<S, P, O>>, Seq<Option<Seq<LayerView<S, P, O>>>>, Seq<Seq<char>>)
    decreases layers,
{
    if layers.len() == 0 {
        (Seq::empty(), resolutions, Seq::empty())
    } else {
        match layers[0] {
            LayerView::Group { shell, children } => {
                let (inner, after_inner, dropped_inner) = spliced(children, resolutions);
                let (rest, left, dropped) = spliced(layers.drop_first(), after_inner);
                (
                    seq![LayerView::Group { shell, children: inner }] + rest,
                    left,
                    dropped_inner + dropped,
                )
            },
            LayerView::Missing { shell, component, .. } => {
                let next = if resolutions.len() > 0 {
                    resolutions[0]
                } else {
                    None
                };
                let remaining = if resolutions.len() > 0 {
                    resolutions.drop_first()
                } else {
                    resolutions
                };
                let (rest, left, dropped) = spliced(layers.drop_first(), remaining);
                match next {
                    Some(resolved) => (
                        seq![LayerView::Group { shell, children: resolved }] + rest,
                        left,
                        dropped,
                    ),
                    None => (rest, left, seq![component] + dropped),
                }
            },
            LayerView::Other { shell, content } => {
                let (rest, left, dropped) = spliced(layers.drop_first(), resolutions);
                (seq![LayerView::Other { shell, content }] + rest, left, dropped)
            },
        }
    }
}

/// The resolutions as mathematical values.
pub open spec fn view_resolutions<S, P, O>(resolutions: Seq<Option<Vec<LayerNode<S, P, O>>>>) -> Seq<
    Option<Seq<LayerView<S, P, O>>>,
> {
    resolutions.map_values(
        |r: Option<Vec<LayerNode<S, P, O>>>|
            match r {
                Some(layers) => Some(view_layers(layers@)),
                None => None,
            },
    )
}

/// Requests as mathematical values.
pub open spec fn view_requests<P>(requests: Seq<(&String, &P)>) -> Seq<(Seq<char>, P)> {
    requests.map_values(|r: (&String, &P)| (r.0@, *r.1))
}

/// Names as character sequences.
pub open spec fn view_names(names: Seq<String>) -> Seq<Seq<char>> {
    names.map_values(|n: String| n@)
}

proof fn lemma_view_layers_push<S, P, O>(layers: Seq<LayerNode<S, P, O>>, node: LayerNode<S, P, O>)
    ensures
        view_layers(layers.push(node)) == view_layers(layers).push(view_layer(node)),
    decreases layers.len(),
{
    if layers.len() > 0 {
        assert(layers.push(node).drop_first() =~= layers.drop_first().push(node));
        lemma_view_layers_push(layers.drop_first(), node);
        assert(view_layers(layers.push(node)) =~= view_layers(layers).push(view_layer(node)));
    } else {
        assert(layers.push(node).drop_first() =~= Seq::<LayerNode<S, P, O>>::empty());
        assert(view_layers(Seq::<LayerNode<S, P, O>>::empty()) =~= Seq::empty());
        assert(layers =~= Seq::<LayerNode<S, P, O>>::empty());
        assert(view_layers(layers.push(node)) =~= seq![view_layer(node)]);
    }
}

/// The component clips of `layers`, depth first in drawing order (see
/// [`requests`]).
pub fn component_requests<'a, S, P, O>(layers: &'a Vec<LayerNode<S, P, O>>) -> (r: Vec<
    (&'a String, &'a P),
>)
    ensures
        view_requests(r@) == requests(view_layers(layers@)),
    decreases layers,
{
    let mut out: Vec<(&'a String, &'a P)> = Vec::new();
    let mut i: usize = 0;
    assert(layers@.skip(0) =~= layers@);
    while i < layers.len()
        invariant
            i <= layers@.len(),
            requests(view_layers(layers@)) == view_requests(out@) + requests(
                view_layers(layers@.skip(i as int)),
            ),
        decreases layers.len() - i,
    {
        let ghost tail = layers@.skip(i as int);
        assert(tail[0] == layers@[i as int]);
        assert(tail.drop_first() =~= layers@.skip(i + 1));
        let ghost v = view_layers(tail);
        assert(v[0] == view_layer(layers@[i as int]));
        assert(v.drop_first() == view_layers(layers@.skip(i + 1)));
        match &layers[i] {
            LayerNode::Group { children, .. } => {
                proof {
                    assert(decreases_to!(layers => layers@));
                    assert(decreases_to!(layers@ => layers@[i as int]));
                }
                let inner = component_requests(children);
                let ghost before = out@;
                let mut k: usize = 0;
                while k < inner.len()
                    invariant
                        k <= inner@.len(),
                        view_requests(out@) == view_requests(before) + view_requests(
                            inner@.take(k as int),
                        ),
                    decreases inner.len() - k,
                {
                    let ghost prior = out@;
                    out.push(inner[k]);
                    assert(inner@.take(k + 1) =~= inner@.take(k as int).push(inner@[k as int]));
                    assert(view_requests(out@) =~= view_requests(prior).push(
                        (inner@[k as int].0@, *inner@[k as int].1),
                    ));
                    assert(view_requests(inner@.take(k + 1)) =~= view_requests(
                        inner@.take(k as int),
                    ).push((inner@[k as int].0@, *inner@[k as int].1)));
                    k = k + 1;
                }
                assert(inner@.take(k as int) =~= inner@);
            },
            LayerNode::Missing { component, props, .. } => {
                let ghost prior = out@;
                out.push((component, props));
                assert(view_requests(out@) =~= view_requests(prior) + seq![(component@, *props)]);
            },
            LayerNode::Other { .. } => {},
        }
        i = i + 1;
    }
    assert(view_layers(layers@.skip(i as int)) =~= Seq::<LayerView<S, P, O>>::empty());
    out
}


/// `layers` with every component clip dropped, inside groups too (see
/// [`stripped`]).
pub fn strip_missing_components<S, P, O>(layers: Vec<LayerNode<S, P, O>>) -> (r: Vec<
    LayerNode<S, P, O>,
>)
    ensures
        view_layers(r@) == stripped(view_layers(layers@)),
    decreases layers,
{
    let ghost whole = layers;
    let ghost initial = layers@;
    let count = layers.len();
    let mut rest = layers;
    let mut out: Vec<LayerNode<S, P, O>> = Vec::new();
    let mut taken: usize = 0;
    assert(initial.skip(0) =~= initial);
    while rest.len() > 0
        invariant
            taken <= initial.len() == count,
            rest@ == initial.skip(taken as int),
            whole@ == initial,
            whole == layers,
            stripped(view_layers(initial)) == view_layers(out@) + stripped(view_layers(rest@)),
        decreases rest@.len(),
    {
        let ghost tail = rest@;
        let node = rest.remove(0);
        assert(tail[0] == node);
        assert(tail.drop_first() =~= rest@);
        assert(rest@ =~= initial.skip(taken + 1));
        let ghost v = view_layers(tail);
        assert(v[0] == view_layer(node));
        assert(v.drop_first() == view_layers(rest@));
        let ghost prior = out@;
        let ghost n = node;
        match node {
            LayerNode::Group { shell, children } => {
                proof {
                    assert(decreases_to!(whole => whole@));
                    assert(initial[taken as int] == n);
                    assert(decreases_to!(initial => initial[taken as int]));
                    assert(decreases_to!(n => n->children));
                    assert(n->children == children);
                    assert(decreases_to!(whole => children));
                }
                let inner = strip_missing_components(children);
                let group = LayerNode::Group { shell, children: inner };
                out.push(group);
                proof {
                    lemma_view_layers_push(prior, group);
                }
                assert(view_layers(out@) =~= view_layers(prior) + seq![view_layer(group)]);
            },
            LayerNode::Missing { .. } => {},
            LayerNode::Other { shell, content } => {
                let other = LayerNode::Other { shell, content };
                out.push(other);
                proof {
                    lemma_view_layers_push(prior, other);
                }
                assert(view_layers(out@) =~= view_layers(prior) + seq![view_layer(other)]);
            },
        }
        taken = taken + 1;
    }
    assert(view_layers(rest@) =~= Seq::<LayerView<S, P, O>>::empty());
    assert(stripped(view_layers(rest@)) =~= Seq::<LayerView<S, P, O>>::empty());
    assert(view_layers(out@) + Seq::<LayerView<S, P, O>>::empty() =~= view_layers(out@));
    out
}


/// Replaces each component clip of `layers` by the next of `resolutions`,
/// taken from the front, and drops the clips left unresolved, noting their
/// components in `unresolved` (see [`spliced`]).
pub fn splice_resolved_components<S, P, O>(
    layers: Vec<LayerNode<S, P, O>>,
    resolutions: &mut Vec<Option<Vec<LayerNode<S, P, O>>>>,
    unresolved: &mut Vec<String>,
) -> (r: Vec<LayerNode<S, P, O>>)
    ensures
        ({
            let (spliced_layers, left, dropped) = spliced(
                view_layers(layers@),
                view_resolutions(old(resolutions)@),
            );
            &&& view_layers(r@) == spliced_layers
            &&& view_resolutions(final(resolutions)@) == left
            &&& view_names(final(unresolved)@) == view_names(old(unresolved)@) + dropped
        }),
    decreases layers,
{
    let ghost whole = layers;
    let ghost initial = layers@;
    let ghost first_resolutions = view_resolutions(resolutions@);
    let ghost first_names = view_names(unresolved@);
    let count = layers.len();
    let mut rest = layers;
    let mut out: Vec<LayerNode<S, P, O>> = Vec::new();
    let mut taken: usize = 0;
    assert(initial.skip(0) =~= initial);
    assert(view_names(unresolved@) + spliced(view_layers(initial), first_resolutions).2 =~= first_names
        + spliced(view_layers(initial), first_resolutions).2);
    while rest.len() > 0
        invariant
            taken <= initial.len() == count,
            rest@ == initial.skip(taken as int),
            whole@ == initial,
            whole == layers,
            ({
                let (all_layers, all_left, all_dropped) = spliced(view_layers(initial), first_resolutions);
                let (rest_layers, rest_left, rest_dropped) = spliced(
                    view_layers(rest@),
                    view_resolutions(resolutions@),
                );
                &&& all_layers == view_layers(out@) + rest_layers
                &&& all_left == rest_left
                &&& first_names + all_dropped == view_names(unresolved@) + rest_dropped
            }),
        decreases rest@.len(),
    {
        let ghost tail = rest@;
        let ghost res = view_resolutions(resolutions@);
        let ghost names_before = view_names(unresolved@);
        let node = rest.remove(0);
        assert(tail[0] == node);
        assert(tail.drop_first() =~= rest@);
        assert(rest@ =~= initial.skip(taken + 1));
        let ghost v = view_layers(tail);
        assert(v[0] == view_layer(node));
        assert(v.drop_first() == view_layers(rest@));
        let ghost prior = out@;
        let ghost n = node;
        match node {
            LayerNode::Group { shell, children } => {
                proof {
                    assert(decreases_to!(whole => whole@));
                    assert(initial[taken as int] == n);
                    assert(decreases_to!(initial => initial[taken as int]));
                    assert(decreases_to!(n => n->children));
                    assert(decreases_to!(whole => children));
                }
                let inner = splice_resolved_components(children, resolutions, unresolved);
                let group = LayerNode::Group { shell, children: inner };
                out.push(group);
                proof {
                    lemma_view_layers_push(prior, group);
                    let (inner_layers, inner_left, inner_dropped) = spliced(view_layers(n->children@), res);
                    let (rest_layers, rest_left, rest_dropped) = spliced(view_layers(rest@), inner_left);
                    assert(spliced(v, res) == (
                        seq![LayerView::Group { shell, children: inner_layers }] + rest_layers,
                        rest_left,
                        inner_dropped + rest_dropped,
                    ));
                    assert(view_layers(out@) =~= view_layers(prior) + seq![view_layer(group)]);
                    assert(names_before + (inner_dropped + rest_dropped) =~= view_names(unresolved@)
                        + rest_dropped);
                }
            },
            LayerNode::Missing { shell, component, props } => {
                let next = if resolutions.len() > 0 {
                    let ghost before = resolutions@;
                    let taken_resolution = resolutions.remove(0);
                    assert(view_resolutions(resolutions@) =~= view_resolutions(before).drop_first());
                    taken_resolution
                } else {
                    None
                };
                match next {
                    Some(resolved) => {
                        let group = LayerNode::Group { shell, children: resolved };
                        out.push(group);
                        proof {
                            lemma_view_layers_push(prior, group);
                            assert(view_layers(out@) =~= view_layers(prior) + seq![view_layer(group)]);
                        }
                    },
                    None => {
                        unresolved.push(component);
                        assert(view_names(unresolved@) =~= names_before.push(component@));
                        proof {
                            let (rest_layers, rest_left, rest_dropped) = spliced(
                                view_layers(rest@),
                                view_resolutions(resolutions@),
                            );
                            assert(names_before + (seq![component@] + rest_dropped) =~= view_names(
                                unresolved@,
                            ) + rest_dropped);
                        }
                    },
                }
            },
            LayerNode::Other { shell, content } => {
                let other = LayerNode::Other { shell, content };
                out.push(other);
                proof {
                    lemma_view_layers_push(prior, other);
                }
                assert(view_layers(out@) =~= view_layers(prior) + seq![view_layer(other)]);
            },
        }
        taken = taken + 1;
    }
    assert(view_layers(rest@) =~= Seq::<LayerView<S, P, O>>::empty());
    assert(view_layers(out@) + Seq::<LayerView<S, P, O>>::empty() =~= view_layers(out@));
    assert(view_names(unresolved@) + Seq::<Seq<char>>::empty() =~= view_names(unresolved@));
    out
}


/// The names of `names` without repeats, each where it first occurs.
pub open spec fn first_occurrences(names: Seq<Seq<char>>) -> Seq<Seq<char>>
    decreases names.len(),
{
    if names.len() == 0 {
        Seq::empty()
    } else {
        let kept = first_occurrences(names.drop_last());
        if kept.contains(names.last()) {
            kept
        } else {
            kept.push(names.last())
        }
    }
}

/// The components of `requests`, each once, in the order they first occur.
pub fn distinct_components<P>(requests: &Vec<(&String, &P)>) -> (r: Vec<String>)
    ensures
        view_names(r@) == first_occurrences(view_requests(requests@).map_values(|q: (Seq<char>, P)| q.0)),
{
    let ghost names = view_requests(requests@).map_values(|q: (Seq<char>, P)| q.0);
    let mut seen: Vec<String> = Vec::new();
    let mut i: usize = 0;
    while i < requests.len()
        invariant
            i <= requests@.len(),
            names == view_requests(requests@).map_values(|q: (Seq<char>, P)| q.0),
            view_names(seen@) == first_occurrences(names.take(i as int)),
        decreases requests.len() - i,
    {
        let component: &String = requests[i].0;
        assert(names[i as int] == component@);
        assert(names.take(i + 1).drop_last() =~= names.take(i as int));
        assert(names.take(i + 1).last() == component@);
        let mut found = false;
        let mut k: usize = 0;
        while k < seen.len()
            invariant
                k <= seen@.len(),
                found == exists|m: int| 0 <= m < k && (#[trigger] seen@[m])@ == component@,
            decreases seen.len() - k,
        {
            if crate::text::str_eq(seen[k].as_str(), component.as_str()) {
                found = true;
            }
            k = k + 1;
        }
        assert(found == view_names(seen@).contains(component@)) by {
            if found {
                let m = choose|m: int| 0 <= m < k && (#[trigger] seen@[m])@ == component@;
                assert(view_names(seen@)[m] == component@);
            }
            if view_names(seen@).contains(component@) {
                let m = choose|m: int| 0 <= m < view_names(seen@).len() && view_names(seen@)[m] == component@;
                assert(seen@[m]@ == component@);
            }
        }
        if !found {
            let ghost prior = seen@;
            seen.push(component.clone());
            assert(view_names(seen@) =~= view_names(prior).push(component@));
        }
        i = i + 1;
    }
    assert(names.take(i as int) =~= names);
    seen
}

} // verus!
