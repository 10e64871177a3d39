use celesta::layer_tree::{
    component_requests, distinct_components, splice_resolved_components, strip_missing_components,
    LayerNode,
};

type Layer = LayerNode<&'static str, u32, char>;

fn other(id: &'static str) -> Layer {
    LayerNode::Other { shell: id, content: 'x' }
}

fn missing(id: &'static str, component: &str, props: u32) -> Layer {
    LayerNode::Missing { shell: id, component: component.to_owned(), props }
}

fn group(id: &'static str, children: Vec<Layer>) -> Layer {
    LayerNode::Group { shell: id, children }
}

fn scene() -> Vec<Layer> {
    vec![
        other("background"),
        missing("title", "Title", 1),
        group("dialogue", vec![other("portrait"), missing("badge", "Badge", 2)]),
        missing("title-2", "Title", 3),
    ]
}

/// The shells of a tree, depth first, with `/` for entering a group and
/// `.` for leaving it.
fn outline(layers: &[Layer]) -> String {
    let mut out = String::new();
    for layer in layers {
        match layer {
            LayerNode::Group { shell, children } => {
                out.push_str(shell);
                out.push('/');
                out.push_str(&outline(children));
                out.push('.');
            }
            LayerNode::Missing { shell, .. } => {
                out.push('?');
                out.push_str(shell);
            }
            LayerNode::Other { shell, .. } => out.push_str(shell),
        }
        out.push(' ');
    }
    out
}

#[test]
fn component_requests_are_collected_depth_first() {
    let layers = scene();
    let requests = component_requests(&layers);
    let listed: Vec<(&str, u32)> = requests.iter().map(|(c, p)| (c.as_str(), **p)).collect();
    assert_eq!(listed, vec![("Title", 1), ("Badge", 2), ("Title", 3)]);
    assert_eq!(distinct_components(&requests), vec!["Title".to_owned(), "Badge".to_owned()]);
}

#[test]
fn stripping_hides_component_clips_inside_groups_too() {
    let stripped = strip_missing_components(scene());
    assert_eq!(outline(&stripped), "background dialogue/portrait . ");
    assert!(component_requests(&stripped).is_empty());
}

#[test]
fn resolutions_replace_components_in_order_and_the_rest_are_reported() {
    let mut resolutions = vec![Some(vec![other("title-text")]), None];
    let mut unresolved = Vec::new();
    let spliced = splice_resolved_components(scene(), &mut resolutions, &mut unresolved);
    assert_eq!(outline(&spliced), "background title/title-text . dialogue/portrait . ");
    assert_eq!(unresolved, vec!["Badge".to_owned(), "Title".to_owned()]);
    assert!(resolutions.is_empty());

    let mut none = Vec::new();
    let mut unresolved = Vec::new();
    let hidden = splice_resolved_components(scene(), &mut none, &mut unresolved);
    assert_eq!(outline(&hidden), outline(&strip_missing_components(scene())));
    assert_eq!(unresolved, vec!["Title".to_owned(), "Badge".to_owned(), "Title".to_owned()]);

    let mut extra = vec![None, None, None, Some(vec![other("spare")])];
    let mut unresolved = Vec::new();
    splice_resolved_components(scene(), &mut extra, &mut unresolved);
    assert_eq!(extra.len(), 1);
}
