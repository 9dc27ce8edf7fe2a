//! Accessibility snapshots: the tree of nodes a traversal collects, the text
//! rendering shown to the agent, and the element references it hands out.
use vstd::prelude::*;
use vstd::string::*;
use vstd::utf8::{decode_utf8, encode_utf8, encode_utf8_decode_utf8, is_char_boundary};
use crate::refmap::{element_views, format_ref_id, ref_id};
use crate::text::{opt_view, str_equal, views};
use crate::types::{
    duplicate_opt, duplicate_path, duplicate_strings, path_view, ElementRef, ElementRefView,
    is_interactive_role, interactive_roles, PathSegment, PathSegmentView, Rect, RefSource,
};

verus! {

/// A node of the accessibility tree.
pub struct AXNode {
    pub role: String,
    pub title: Option<String>,
    pub description: Option<String>,
    pub value: Option<String>,
    pub frame: Option<Rect>,
    pub actions: Vec<String>,
    pub is_interactive: bool,
    pub children: Vec<AXNode>,
    pub depth: usize,
    pub path_segment: PathSegment,
}

/// Whether the node or one of its descendants is interactive.
pub open spec fn has_interactive(node: AXNode) -> bool
    decreases node, 1nat,
{
    node.is_interactive || any_interactive(node.children@)
}

/// Whether one of the subtrees has an interactive node.
pub open spec fn any_interactive(nodes: Seq<AXNode>) -> bool
    decreases nodes, 0nat,
{
    if nodes.len() == 0 {
        false
    } else {
        any_interactive(nodes.subrange(0, nodes.len() - 1)) || has_interactive(nodes[nodes.len() - 1])
    }
}

/// Extending a run of subtrees by one adds that subtree's answer.
pub proof fn lemma_any_interactive_step(nodes: Seq<AXNode>, i: int)
    requires
        0 <= i < nodes.len(),
    ensures
        any_interactive(nodes.take(i + 1)) == (any_interactive(nodes.take(i)) || has_interactive(nodes[i])),
{
    assert(nodes.take(i + 1).subrange(0, i) =~= nodes.take(i));
}

/// An interactive subtree in a prefix is an interactive subtree of the whole run.
pub proof fn lemma_any_interactive_prefix(nodes: Seq<AXNode>, k: int)
    requires
        0 <= k <= nodes.len(),
        any_interactive(nodes.take(k)),
    ensures
        any_interactive(nodes),
    decreases nodes.len(),
{
    if k == nodes.len() {
        assert(nodes.take(k) =~= nodes);
    } else {
        let init = nodes.subrange(0, nodes.len() - 1);
        assert(init.take(k) =~= nodes.take(k));
        lemma_any_interactive_prefix(init, k);
    }
}

/// Whether the node or one of its descendants is interactive.
pub fn node_has_interactive_descendants(node: &AXNode) -> (r: bool)
    ensures
        r == has_interactive(*node),
    decreases node,
{
    if node.is_interactive {
        return true;
    }
    let n = node.children.len();
    let mut i: usize = 0;
    assert(node.children@.take(0) =~= Seq::<AXNode>::empty());
    while i < n
        invariant
            n == node.children@.len(),
            i <= n,
            !any_interactive(node.children@.take(i as int)),
        decreases n - i,
    {
        proof {
            lemma_any_interactive_step(node.children@, i as int);
        }
        if node_has_interactive_descendants(&node.children[i]) {
            proof {
                lemma_any_interactive_prefix(node.children@, i + 1);
            }
            return true;
        }
        i = i + 1;
    }
    assert(node.children@.take(n as int) =~= node.children@);
    false
}

/// The structural roles that are shown for context when the whole tree is rendered.
pub open spec fn context_roles() -> Set<Seq<char>> {
    set![
        "AXWindow"@, "AXToolbar"@, "AXGroup"@, "AXScrollArea"@, "AXSplitGroup"@,
        "AXTabGroup"@, "AXSheet"@, "AXMenuBar"@, "AXList"@, "AXOutline"@,
        "AXTable"@, "AXBrowser"@, "AXWebArea"@, "AXApplication"@
    ]
}

/// Whether `role` is a structural role shown for context.
pub fn is_context_role(role: &str) -> (r: bool)
    ensures
        r == context_roles().contains(role@),
{
    str_equal(role, "AXWindow") || str_equal(role, "AXToolbar") || str_equal(role, "AXGroup")
        || str_equal(role, "AXScrollArea") || str_equal(role, "AXSplitGroup")
        || str_equal(role, "AXTabGroup") || str_equal(role, "AXSheet") || str_equal(role, "AXMenuBar")
        || str_equal(role, "AXList") || str_equal(role, "AXOutline") || str_equal(role, "AXTable")
        || str_equal(role, "AXBrowser") || str_equal(role, "AXWebArea")
        || str_equal(role, "AXApplication")
}

/// `n` levels of two-space indentation.
pub open spec fn spaces(n: nat) -> Seq<char> {
    Seq::new(2 * n, |i: int| ' ')
}

/// A label cut to `keep` bytes plus `...` when its UTF-8 encoding is longer than `max` bytes.
pub open spec fn truncated(l: Seq<char>, max: nat, keep: int) -> Seq<char> {
    if encode_utf8(l).len() > max {
        decode_utf8(encode_utf8(l).subrange(0, keep)) + "..."@
    } else {
        l
    }
}

/// The label's encoding fits in memory, and the cut of `truncated` falls on a
/// character boundary (else the cut would panic).
pub open spec fn cuttable(l: Seq<char>, max: nat, keep: int) -> bool {
    &&& encode_utf8(l).len() <= usize::MAX
    &&& encode_utf8(l).len() > max ==> is_char_boundary(encode_utf8(l), keep)
}

/// A quoted label after the role, or nothing for a missing or empty label.
pub open spec fn label_suffix(label: Option<Seq<char>>, max: nat, keep: int) -> Seq<char> {
    match label {
        Some(l) => if l.len() > 0 { " \""@ + truncated(l, max, keep) + "\""@ } else { Seq::empty() },
        None => Seq::empty(),
    }
}

/// The label of an interactive node: its title, else its description, else its value.
pub open spec fn element_label(node: AXNode) -> Option<Seq<char>> {
    match node.title {
        Some(t) => Some(t@),
        None => match node.description {
            Some(d) => Some(d@),
            None => opt_view(node.value),
        },
    }
}

/// The reference handed out for an interactive node carries its title,
/// else its description, else its value as the label.
pub proof fn law_reference_label(node: AXNode, indent: nat, path: Seq<PathSegmentView>, start: nat, interactive_only: bool, pid: i32)
    requires
        node.is_interactive,
    ensures
        render_node(node, indent, path, start, interactive_only, pid).1.len() > 0,
        node.title matches Some(t) ==> render_node(node, indent, path, start, interactive_only, pid).1[0].label == Some(t@),
        node.title is None ==> (node.description matches Some(d)
            ==> render_node(node, indent, path, start, interactive_only, pid).1[0].label == Some(d@)),
        node.title is None && node.description is None ==> (node.value matches Some(v)
            ==> render_node(node, indent, path, start, interactive_only, pid).1[0].label == Some(v@)),
        node.title is None && node.description is None && node.value is None
            ==> render_node(node, indent, path, start, interactive_only, pid).1[0].label is None,
{
    let cur = path.push(node.path_segment@);
    let here = seq![node_ref(node, ref_id(start), cur, pid)];
    let rest = render_list(node.children@, indent + 1, cur, start + 1, interactive_only, pid);
    assert(render_node(node, indent, path, start, interactive_only, pid).1 == here + rest.1);
    assert((here + rest.1)[0] == here[0]);
}

/// The label of a context node: its title, else its description.
pub open spec fn context_label(node: AXNode) -> Option<Seq<char>> {
    match node.title {
        Some(t) => Some(t@),
        None => opt_view(node.description),
    }
}

/// Whether the node is shown as a context line.
pub open spec fn shows_context(node: AXNode, interactive_only: bool) -> bool {
    !node.is_interactive && !interactive_only && context_roles().contains(node.role@) && has_interactive(node)
}

/// The labels this node shows can be cut where the renderer cuts them.
pub open spec fn labels_cuttable_here(node: AXNode, interactive_only: bool) -> bool {
    &&& node.is_interactive ==> (element_label(node) matches Some(l) ==> cuttable(l, 60, 57))
    &&& shows_context(node, interactive_only) ==> (context_label(node) matches Some(l) ==> cuttable(l, 40, 37))
}

/// Every label the tree shows can be cut where the renderer cuts it.
pub open spec fn labels_cuttable(node: AXNode, interactive_only: bool) -> bool
    decreases node, 1nat,
{
    labels_cuttable_here(node, interactive_only) && list_labels_cuttable(node.children@, interactive_only)
}

/// Every label the subtrees show can be cut where the renderer cuts it.
pub open spec fn list_labels_cuttable(nodes: Seq<AXNode>, interactive_only: bool) -> bool
    decreases nodes, 0nat,
{
    nodes.len() == 0 || (list_labels_cuttable(nodes.subrange(0, nodes.len() - 1), interactive_only)
        && labels_cuttable(nodes[nodes.len() - 1], interactive_only))
}

/// A run of subtrees whose labels can be cut holds only such subtrees.
pub proof fn lemma_list_labels_cuttable(nodes: Seq<AXNode>, interactive_only: bool)
    requires
        list_labels_cuttable(nodes, interactive_only),
    ensures
        forall|i: int| 0 <= i < nodes.len() ==> #[trigger] labels_cuttable(nodes[i], interactive_only),
    decreases nodes.len(),
{
    if nodes.len() > 0 {
        let init = nodes.subrange(0, nodes.len() - 1);
        lemma_list_labels_cuttable(init, interactive_only);
        assert forall|i: int| 0 <= i < nodes.len() implies #[trigger] labels_cuttable(nodes[i], interactive_only) by {
            if i < nodes.len() - 1 {
                assert(init[i] == nodes[i]);
            }
        }
    }
}

/// The tree is at most `levels` levels deep.
pub open spec fn depth_within(node: AXNode, levels: nat) -> bool
    decreases node, 1nat,
{
    levels >= 1 && list_depth_within(node.children@, (levels - 1) as nat)
}

/// Each subtree is at most `levels` levels deep.
pub open spec fn list_depth_within(nodes: Seq<AXNode>, levels: nat) -> bool
    decreases nodes, 0nat,
{
    nodes.len() == 0 || (list_depth_within(nodes.subrange(0, nodes.len() - 1), levels)
        && depth_within(nodes[nodes.len() - 1], levels))
}

/// A run of shallow subtrees holds only shallow subtrees.
pub proof fn lemma_list_depth_within(nodes: Seq<AXNode>, levels: nat)
    requires
        list_depth_within(nodes, levels),
    ensures
        forall|i: int| 0 <= i < nodes.len() ==> #[trigger] depth_within(nodes[i], levels),
    decreases nodes.len(),
{
    if nodes.len() > 0 {
        let init = nodes.subrange(0, nodes.len() - 1);
        lemma_list_depth_within(init, levels);
        assert forall|i: int| 0 <= i < nodes.len() implies #[trigger] depth_within(nodes[i], levels) by {
            if i < nodes.len() - 1 {
                assert(init[i] == nodes[i]);
            }
        }
    }
}

/// The reference handed out for an interactive node.
pub open spec fn node_ref(node: AXNode, id: Seq<char>, path: Seq<PathSegmentView>, pid: i32) -> ElementRefView {
    ElementRefView {
        id,
        source: RefSource::AX,
        role: node.role@,
        label: element_label(node),
        frame: node.frame,
        ax_path: Some(path),
        ax_actions: Some(views(node.actions@)),
        ax_pid: Some(pid),
        cdp_node_id: None,
        cdp_backend_node_id: None,
        cdp_port: None,
        ab_ref: None,
        ab_session: None,
    }
}

/// The rendering of one node and its subtree: the text lines and the
/// references, numbered from `start`, that it produces.
pub open spec fn render_node(node: AXNode, indent: nat, path: Seq<PathSegmentView>, start: nat, interactive_only: bool, pid: i32) -> (Seq<char>, Seq<ElementRefView>)
    decreases node, 1nat,
{
    let cur = path.push(node.path_segment@);
    let line: Seq<char> = if node.is_interactive {
        spaces(indent) + "@"@ + ref_id(start) + " "@ + node.role@ + label_suffix(element_label(node), 60, 57) + "\n"@
    } else if shows_context(node, interactive_only) {
        spaces(indent) + node.role@ + label_suffix(context_label(node), 40, 37) + "\n"@
    } else {
        Seq::empty()
    };
    let here: Seq<ElementRefView> = if node.is_interactive {
        seq![node_ref(node, ref_id(start), cur, pid)]
    } else {
        Seq::empty()
    };
    let next = if node.is_interactive || !interactive_only { indent + 1 } else { indent };
    let rest = render_list(node.children@, next, cur, start + here.len(), interactive_only, pid);
    (line + rest.0, here + rest.1)
}

/// The rendering of sibling subtrees in order, numbering references from `start`.
pub open spec fn render_list(nodes: Seq<AXNode>, indent: nat, path: Seq<PathSegmentView>, start: nat, interactive_only: bool, pid: i32) -> (Seq<char>, Seq<ElementRefView>)
    decreases nodes, 0nat,
{
    if nodes.len() == 0 {
        (Seq::empty(), Seq::empty())
    } else {
        let init = nodes.subrange(0, nodes.len() - 1);
        let first = render_list(init, indent, path, start, interactive_only, pid);
        let last = render_node(nodes[nodes.len() - 1], indent, path, start + first.1.len(), interactive_only, pid);
        (first.0 + last.0, first.1 + last.1)
    }
}


/// Rendering one more sibling appends its lines and references.
pub proof fn lemma_render_list_step(nodes: Seq<AXNode>, i: int, indent: nat, path: Seq<PathSegmentView>, start: nat, interactive_only: bool, pid: i32)
    requires
        0 <= i < nodes.len(),
    ensures
        ({
            let before = render_list(nodes.take(i), indent, path, start, interactive_only, pid);
            let one = render_node(nodes[i], indent, path, start + before.1.len(), interactive_only, pid);
            render_list(nodes.take(i + 1), indent, path, start, interactive_only, pid) == (before.0 + one.0, before.1 + one.1)
        }),
{
    assert(nodes.take(i + 1).subrange(0, i) =~= nodes.take(i));
    assert(nodes.take(i + 1)[i] == nodes[i]);
}

/// A prefix of the siblings hands out no more references than all of them.
pub proof fn lemma_render_list_prefix_len(nodes: Seq<AXNode>, k: int, indent: nat, path: Seq<PathSegmentView>, start: nat, interactive_only: bool, pid: i32)
    requires
        0 <= k <= nodes.len(),
    ensures
        render_list(nodes.take(k), indent, path, start, interactive_only, pid).1.len()
            <= render_list(nodes, indent, path, start, interactive_only, pid).1.len(),
    decreases nodes.len(),
{
    if k == nodes.len() {
        assert(nodes.take(k) =~= nodes);
    } else {
        let init = nodes.subrange(0, nodes.len() - 1);
        assert(init.take(k) =~= nodes.take(k));
        lemma_render_list_prefix_len(init, k, indent, path, start, interactive_only, pid);
    }
}

/// The references a subtree hands out are numbered consecutively from `start`.
pub proof fn lemma_render_node_ids(node: AXNode, indent: nat, path: Seq<PathSegmentView>, start: nat, interactive_only: bool, pid: i32)
    ensures
        forall|k: int| 0 <= k < render_node(node, indent, path, start, interactive_only, pid).1.len()
            ==> (#[trigger] render_node(node, indent, path, start, interactive_only, pid).1[k]).id == ref_id((start + k) as nat),
    decreases node, 1nat,
{
    let cur = path.push(node.path_segment@);
    let here_len: nat = if node.is_interactive { 1 } else { 0 };
    let next = if node.is_interactive || !interactive_only { indent + 1 } else { indent };
    lemma_render_list_ids(node.children@, next, cur, start + here_len, interactive_only, pid);
}

/// The references a run of subtrees hands out are numbered consecutively from `start`.
pub proof fn lemma_render_list_ids(nodes: Seq<AXNode>, indent: nat, path: Seq<PathSegmentView>, start: nat, interactive_only: bool, pid: i32)
    ensures
        forall|k: int| 0 <= k < render_list(nodes, indent, path, start, interactive_only, pid).1.len()
            ==> (#[trigger] render_list(nodes, indent, path, start, interactive_only, pid).1[k]).id == ref_id((start + k) as nat),
    decreases nodes, 0nat,
{
    if nodes.len() > 0 {
        let init = nodes.subrange(0, nodes.len() - 1);
        let first = render_list(init, indent, path, start, interactive_only, pid);
        lemma_render_list_ids(init, indent, path, start, interactive_only, pid);
        lemma_render_node_ids(nodes[nodes.len() - 1], indent, path, start + first.1.len(), interactive_only, pid);
    }
}

/// A snapshot numbers its references `e1`, `e2`, ... in the order it hands
/// them out, with no gap and no repeat.
pub proof fn law_snapshot_refs_numbered(tree: Seq<AXNode>, interactive_only: bool, pid: i32)
    ensures
        forall|k: int| 0 <= k < render_list(tree, 1, Seq::empty(), 1, interactive_only, pid).1.len()
            ==> (#[trigger] render_list(tree, 1, Seq::empty(), 1, interactive_only, pid).1[k]).id == ref_id((k + 1) as nat),
{
    lemma_render_list_ids(tree, 1, Seq::empty(), 1, interactive_only, pid);
}

/// `n` levels of indentation.
pub fn indent_spaces(n: usize) -> (r: String)
    ensures
        r@ == spaces(n as nat),
{
    let mut s = String::new();
    let mut i: usize = 0;
    while i < n
        invariant
            i <= n,
            s@ == spaces(i as nat),
        decreases n - i,
    {
        crate::text::push_char(&mut s, ' ');
        crate::text::push_char(&mut s, ' ');
        assert(s@ =~= spaces((i + 1) as nat));
        i = i + 1;
    }
    s
}

/// Appends the quoted, possibly cut, label to `line`.
fn push_label(line: &mut String, label: Option<&str>, max: usize, keep: usize)
    requires
        keep <= max,
        label matches Some(l) ==> cuttable(l@, max as nat, keep as int),
    ensures
        final(line)@ == old(line)@ + label_suffix(
            match label {
                Some(l) => Some(l@),
                None => None,
            },
            max as nat,
            keep as int,
        ),
{
    if let Some(l) = label {
        if !l.is_empty() {
            let ghost start = line@;
            line.append(" \"");
            if l.len() > max {
                let (head, _tail) = l.split_at(keep);
                proof {
                    encode_utf8_decode_utf8(head@);
                    assert(encode_utf8(l@).subrange(0, keep as int) =~= head.spec_bytes());
                    assert(head@ == decode_utf8(encode_utf8(l@).subrange(0, keep as int)));
                }
                line.append(head);
                line.append("...");
                line.append("\"");
                assert(line@ =~= start + (" \""@ + truncated(l@, max as nat, keep as int) + "\""@));
            } else {
                line.append(l);
                line.append("\"");
                assert(line@ =~= start + (" \""@ + truncated(l@, max as nat, keep as int) + "\""@));
            }
        } else {
            assert(line@ =~= old(line)@ + Seq::<char>::empty());
        }
    } else {
        assert(line@ =~= old(line)@ + Seq::<char>::empty());
    }
}

/// The label an interactive node shows.
fn element_label_of(node: &AXNode) -> (r: Option<&str>)
    ensures
        (match r {
            Some(l) => Some(l@),
            None => None,
        }) == element_label(*node),
{
    match &node.title {
        Some(t) => Some(t.as_str()),
        None => match &node.description {
            Some(d) => Some(d.as_str()),
            None => match &node.value {
                Some(v) => Some(v.as_str()),
                None => None,
            },
        },
    }
}

/// The label a context node shows.
fn context_label_of(node: &AXNode) -> (r: Option<&str>)
    ensures
        (match r {
            Some(l) => Some(l@),
            None => None,
        }) == context_label(*node),
{
    match &node.title {
        Some(t) => Some(t.as_str()),
        None => match &node.description {
            Some(d) => Some(d.as_str()),
            None => None,
        },
    }
}

/// Renders one node and its subtree onto `output` and `refs`.
fn format_node(
    node: &AXNode,
    indent: usize,
    levels: Ghost<nat>,
    path: &Vec<PathSegment>,
    output: &mut String,
    refs: &mut Vec<ElementRef>,
    ref_counter: &mut u32,
    interactive_only: bool,
    pid: i32,
)
    requires
        labels_cuttable(*node, interactive_only),
        depth_within(*node, levels@),
        indent + levels@ <= usize::MAX,
        *old(ref_counter) + render_node(*node, indent as nat, path_view(path@), *old(ref_counter) as nat, interactive_only, pid).1.len() <= u32::MAX,
    ensures
        ({
            let out = render_node(*node, indent as nat, path_view(path@), *old(ref_counter) as nat, interactive_only, pid);
            &&& final(output)@ == old(output)@ + out.0
            &&& element_views(final(refs)@) == element_views(old(refs)@) + out.1
            &&& *final(ref_counter) == *old(ref_counter) + out.1.len()
        }),
    decreases node, 1nat,
{
    let ghost start = *ref_counter as nat;
    let ghost old_output = output@;
    let ghost old_refs = element_views(refs@);
    let mut current_path = duplicate_path(path);
    current_path.push(node.path_segment.duplicate());
    let ghost cur = path_view(path@).push(node.path_segment@);
    assert(path_view(current_path@) =~= cur);
    let indent_str = indent_spaces(indent);
    let ghost here: Seq<ElementRefView> = if node.is_interactive {
        seq![node_ref(*node, ref_id(start), cur, pid)]
    } else {
        Seq::empty()
    };
    let ghost whole = render_node(*node, indent as nat, path_view(path@), start, interactive_only, pid);
    if node.is_interactive {
        let ref_id_str = format_ref_id(*ref_counter as usize);
        *ref_counter = *ref_counter + 1;
        let label = element_label_of(node);
        let mut line = String::from_str(indent_str.as_str());
        line.append("@");
        line.append(ref_id_str.as_str());
        line.append(" ");
        line.append(node.role.as_str());
        push_label(&mut line, label, 60, 57);
        line.append("\n");
        output.append(line.as_str());
        let label_owned = match label {
            Some(l) => Some(String::from_str(l)),
            None => None,
        };
        let r = ElementRef {
            id: ref_id_str,
            source: RefSource::AX,
            role: node.role.clone(),
            label: label_owned,
            frame: node.frame,
            ax_path: Some(duplicate_path(&current_path)),
            ax_actions: Some(duplicate_strings(&node.actions)),
            ax_pid: Some(pid),
            cdp_node_id: None,
            cdp_backend_node_id: None,
            cdp_port: None,
            ab_ref: None,
            ab_session: None,
        };
        let ghost before = refs@;
        refs.push(r);
        proof {
            assert(r@ == node_ref(*node, ref_id(start), cur, pid));
            assert(element_views(refs@) =~= element_views(before).push(r@));
        }
    } else if !interactive_only {
        let has_interactive = node_has_interactive_descendants(node);
        if is_context_role(node.role.as_str()) && has_interactive {
            let label = context_label_of(node);
            let mut line = String::from_str(indent_str.as_str());
            line.append(node.role.as_str());
            push_label(&mut line, label, 40, 37);
            line.append("\n");
            output.append(line.as_str());
        }
    }
    let next_indent: usize = if node.is_interactive || !interactive_only { indent + 1 } else { indent };
    let ghost line_part = output@.subrange(old_output.len() as int, output@.len() as int);
    assert(output@ =~= old_output + line_part);
    assert(element_views(refs@) =~= old_refs + here);
    proof {
        assert(whole.1 == here + render_list(node.children@, next_indent as nat, cur, start + here.len(), interactive_only, pid).1);
        assert(whole.0 == line_part + render_list(node.children@, next_indent as nat, cur, start + here.len(), interactive_only, pid).0);
    }
    format_list(
        node.children.as_slice(),
        next_indent,
        Ghost((levels@ - 1) as nat),
        &current_path,
        output,
        refs,
        ref_counter,
        interactive_only,
        pid,
    );
}

/// Renders sibling subtrees in order onto `output` and `refs`.
fn format_list(
    nodes: &[AXNode],
    indent: usize,
    levels: Ghost<nat>,
    path: &Vec<PathSegment>,
    output: &mut String,
    refs: &mut Vec<ElementRef>,
    ref_counter: &mut u32,
    interactive_only: bool,
    pid: i32,
)
    requires
        list_labels_cuttable(nodes@, interactive_only),
        list_depth_within(nodes@, levels@),
        indent + levels@ <= usize::MAX,
        *old(ref_counter) + render_list(nodes@, indent as nat, path_view(path@), *old(ref_counter) as nat, interactive_only, pid).1.len() <= u32::MAX,
    ensures
        ({
            let out = render_list(nodes@, indent as nat, path_view(path@), *old(ref_counter) as nat, interactive_only, pid);
            &&& final(output)@ == old(output)@ + out.0
            &&& element_views(final(refs)@) == element_views(old(refs)@) + out.1
            &&& *final(ref_counter) == *old(ref_counter) + out.1.len()
        }),
    decreases nodes@, 0nat,
{
    let ghost start = *ref_counter as nat;
    let ghost p = path_view(path@);
    let ghost old_output = output@;
    let ghost old_refs = element_views(refs@);
    proof {
        lemma_list_labels_cuttable(nodes@, interactive_only);
        lemma_list_depth_within(nodes@, levels@);
        assert(nodes@.take(0) =~= Seq::<AXNode>::empty());
    }
    let n = nodes.len();
    let mut i: usize = 0;
    while i < n
        invariant
            n == nodes@.len(),
            i <= n,
            p == path_view(path@),
            indent + levels@ <= usize::MAX,
            forall|j: int| 0 <= j < n ==> #[trigger] labels_cuttable(nodes@[j], interactive_only),
            forall|j: int| 0 <= j < n ==> #[trigger] depth_within(nodes@[j], levels@),
            start + render_list(nodes@, indent as nat, p, start, interactive_only, pid).1.len() <= u32::MAX,
            output@ == old_output + render_list(nodes@.take(i as int), indent as nat, p, start, interactive_only, pid).0,
            element_views(refs@) == old_refs + render_list(nodes@.take(i as int), indent as nat, p, start, interactive_only, pid).1,
            *ref_counter == start + render_list(nodes@.take(i as int), indent as nat, p, start, interactive_only, pid).1.len(),
        decreases n - i,
    {
        proof {
            lemma_render_list_step(nodes@, i as int, indent as nat, p, start, interactive_only, pid);
            lemma_render_list_prefix_len(nodes@, i + 1, indent as nat, p, start, interactive_only, pid);
        }
        format_node(&nodes[i], indent, levels, path, output, refs, ref_counter, interactive_only, pid);
        i = i + 1;
    }
    assert(nodes@.take(n as int) =~= nodes@);
}

/// The first line of a rendering: the app name, and the window title when there is one.
pub open spec fn header(app_name: Seq<char>, window_title: Option<Seq<char>>) -> Seq<char> {
    match window_title {
        Some(t) => if t.len() > 0 {
            "["@ + app_name + " — "@ + t + "]\n"@
        } else {
            "["@ + app_name + "]\n"@
        },
        None => "["@ + app_name + "]\n"@,
    }
}

/// Renders a snapshot as text and hands out references `e1`, `e2`, ... to its
/// interactive elements in document order. With `interactive_only`, only
/// interactive elements are shown; otherwise structural context roles that
/// hold interactive elements are shown too.
pub fn format_snapshot_text(
    tree: &[AXNode],
    app_name: &str,
    window_title: &Option<String>,
    interactive_only: bool,
    pid: i32,
) -> (r: (String, Vec<ElementRef>))
    requires
        list_labels_cuttable(tree@, interactive_only),
        list_depth_within(tree@, (usize::MAX - 1) as nat),
        render_list(tree@, 1, Seq::empty(), 1, interactive_only, pid).1.len() < u32::MAX,
    ensures
        r.0@ == header(app_name@, opt_view(*window_title)) + render_list(tree@, 1, Seq::empty(), 1, interactive_only, pid).0,
        element_views(r.1@) == render_list(tree@, 1, Seq::empty(), 1, interactive_only, pid).1,
{
    let mut output = String::new();
    let mut refs: Vec<ElementRef> = Vec::new();
    let mut ref_counter: u32 = 1;
    let mut head = String::from_str("[");
    head.append(app_name);
    match window_title {
        Some(t) => {
            if !t.as_str().is_empty() {
                head.append(" — ");
                head.append(t.as_str());
            }
        },
        None => {},
    }
    head.append("]\n");
    output.append(head.as_str());
    let path: Vec<PathSegment> = Vec::new();
    proof {
        assert(path_view(path@) =~= Seq::<PathSegmentView>::empty());
        assert(element_views(refs@) =~= Seq::<ElementRefView>::empty());
    }
    format_list(tree, 1, Ghost((usize::MAX - 1) as nat), &path, &mut output, &mut refs, &mut ref_counter, interactive_only, pid);
    proof {
        assert(element_views(refs@) =~= Seq::<ElementRefView>::empty() + render_list(tree@, 1, Seq::empty(), 1, interactive_only, pid).1);
    }
    (output, refs)
}

/// Whether a traversal goes on to a node at `depth`: only while it is not
/// past its deadline and not deeper than `max_depth`.
pub fn within_traversal(past_deadline: bool, depth: usize, max_depth: usize) -> (r: bool)
    ensures
        r == (!past_deadline && depth <= max_depth),
{
    !past_deadline && depth <= max_depth
}

/// The node built from what was read of an element: its role (`AXUnknown`
/// when it has none), whether that role is interactive, the value only for
/// an interactive node, and the path segment that finds it again among its
/// siblings (its role and its index among the siblings of that role).
pub fn build_node(
    role: Option<String>,
    title: Option<String>,
    description: Option<String>,
    value: Option<String>,
    frame: Option<Rect>,
    actions: Vec<String>,
    children: Vec<AXNode>,
    depth: usize,
    index_in_parent: usize,
) -> (r: AXNode)
    ensures
        r.role@ == match role {
            Some(x) => x@,
            None => "AXUnknown"@,
        },
        r.is_interactive == interactive_roles().contains(r.role@),
        r.value == if r.is_interactive { value } else { None::<String> },
        r.title == title,
        r.description == description,
        r.frame == frame,
        r.actions == actions,
        r.children == children,
        r.depth == depth,
        r.path_segment@ == (PathSegmentView { role: r.role@, index: index_in_parent }),
{
    let role = match role {
        Some(x) => x,
        None => String::from_str("AXUnknown"),
    };
    let is_interactive = is_interactive_role(role.as_str());
    let segment = PathSegment { role: role.clone(), index: index_in_parent };
    AXNode {
        role,
        title,
        description,
        value: if is_interactive { value } else { None },
        frame,
        actions,
        is_interactive,
        children,
        depth,
        path_segment: segment,
    }
}

/// The largest duration, in nanoseconds, that a `std::time::Duration` holds.
pub open spec fn max_duration_nanos() -> nat {
    18_446_744_073_709_551_615nat * 1_000_000_000 + 999_999_999
}

/// Timing and element count of one depth level of a traversal.
#[derive(Clone, Copy, Debug, PartialEq, Eq, Structural)]
pub struct DepthStats {
    pub depth: usize,
    /// Time spent at this depth, in nanoseconds.
    pub duration: u128,
    pub element_count: usize,
}

/// The sum of the element counts of `stats`.
pub open spec fn counted_elements(stats: Seq<DepthStats>) -> int
    decreases stats.len(),
{
    if stats.len() == 0 {
        0
    } else {
        counted_elements(stats.drop_last()) + stats.last().element_count
    }
}

/// Appending entries that count no element leaves the sum unchanged.
proof fn lemma_counted_append_empty(s: Seq<DepthStats>, t: Seq<DepthStats>)
    requires
        forall|i: int| 0 <= i < t.len() ==> #[trigger] t[i].element_count == 0,
    ensures
        counted_elements(s + t) == counted_elements(s),
    decreases t.len(),
{
    if t.len() > 0 {
        assert((s + t).drop_last() =~= s + t.drop_last());
        lemma_counted_append_empty(s, t.drop_last());
    } else {
        assert(s + t =~= s);
    }
}

/// Replacing the entry at `d` changes the sum by the change of its count.
proof fn lemma_counted_update(s: Seq<DepthStats>, d: int, x: DepthStats)
    requires
        0 <= d < s.len(),
    ensures
        counted_elements(s.update(d, x)) == counted_elements(s) - s[d].element_count + x.element_count,
    decreases s.len(),
{
    if d == s.len() - 1 {
        assert(s.update(d, x).drop_last() =~= s.drop_last());
    } else {
        assert(s.update(d, x).drop_last() =~= s.drop_last().update(d, x));
        lemma_counted_update(s.drop_last(), d, x);
    }
}

/// Profiling data collected during a snapshot.
pub struct SnapshotProfile {
    /// Per-depth statistics; entry `d` describes depth `d`.
    pub depth_stats: Vec<DepthStats>,
    /// Accessibility attribute queries made.
    pub total_ax_queries: usize,
    /// Elements visited.
    pub total_elements: usize,
    /// Wall-clock duration of the whole snapshot, in nanoseconds.
    pub total_duration: u128,
}

impl SnapshotProfile {
    /// Entry `d` of the per-depth statistics describes depth `d`, and the
    /// element total is the sum of the per-depth counts.
    pub open spec fn consistent(&self) -> bool {
        &&& forall|i: int| 0 <= i < self.depth_stats@.len() ==> #[trigger] self.depth_stats@[i].depth == i
        &&& self.total_elements == counted_elements(self.depth_stats@)
    }

    /// `next` is this profile after one element visited at `depth` that took
    /// `duration` nanoseconds was recorded: entries are added up to `depth`,
    /// the entry at `depth` counts one more element and the duration, and the
    /// element total grows by one.
    pub open spec fn records(&self, next: SnapshotProfile, depth: usize, duration: u128) -> bool {
        let before = self.depth_stats@;
        let after = next.depth_stats@;
        &&& after.len() == if before.len() > depth { before.len() as int } else { depth + 1 }
        &&& forall|i: int| 0 <= i < after.len() && i != depth ==> #[trigger] after[i] == if i < before.len() {
            before[i]
        } else {
            DepthStats { depth: i as usize, duration: 0, element_count: 0 }
        }
        &&& after[depth as int] == if depth < before.len() {
            DepthStats {
                depth: before[depth as int].depth,
                duration: (before[depth as int].duration + duration) as u128,
                element_count: (before[depth as int].element_count + 1) as usize,
            }
        } else {
            DepthStats { depth, duration, element_count: 1 }
        }
        &&& next.total_elements == self.total_elements + 1
        &&& next.total_ax_queries == self.total_ax_queries
        &&& next.total_duration == self.total_duration
    }

    /// Recording an element keeps a profile consistent: entries stay
    /// numbered by depth and the element total stays the sum of the
    /// per-depth counts.
    pub proof fn law_record_keeps_profile_consistent(p: SnapshotProfile, q: SnapshotProfile, depth: usize, duration: u128)
        requires
            p.consistent(),
            p.records(q, depth, duration),
            depth < p.depth_stats@.len() ==> p.depth_stats@[depth as int].element_count < usize::MAX,
        ensures
            q.consistent(),
    {
        let before = p.depth_stats@;
        let after = q.depth_stats@;
        let zero = |i: int| DepthStats { depth: i as usize, duration: 0, element_count: 0 };
        let extra = Seq::new((after.len() - before.len()) as nat, |k: int| zero(before.len() + k));
        let mid = before + extra;
        assert(mid.len() == after.len());
        lemma_counted_append_empty(before, extra);
        assert(after =~= mid.update(depth as int, after[depth as int]));
        lemma_counted_update(mid, depth as int, after[depth as int]);
        assert forall|i: int| 0 <= i < after.len() implies #[trigger] after[i].depth == i by {
            if i != depth {
                if i < before.len() {
                    assert(before[i].depth == i);
                }
            } else if depth < before.len() {
                assert(before[depth as int].depth == depth);
            }
        }
    }

    /// An empty profile.
    pub fn new() -> (r: SnapshotProfile)
        ensures
            r.depth_stats@.len() == 0,
            r.total_ax_queries == 0,
            r.total_elements == 0,
            r.total_duration == 0,
            r.consistent(),
    {
        SnapshotProfile { depth_stats: Vec::new(), total_ax_queries: 0, total_elements: 0, total_duration: 0 }
    }

    /// Makes sure there is an entry for `depth`, adding empty entries for the
    /// missing depths in order.
    pub fn ensure_depth(&mut self, depth: usize)
        requires
            depth < usize::MAX,
        ensures
            final(self).depth_stats@.len() == if old(self).depth_stats@.len() > depth {
                old(self).depth_stats@.len() as int
            } else {
                depth + 1
            },
            forall|i: int| 0 <= i < old(self).depth_stats@.len() ==> #[trigger] final(self).depth_stats@[i] == old(self).depth_stats@[i],
            forall|i: int| old(self).depth_stats@.len() <= i < final(self).depth_stats@.len()
                ==> #[trigger] final(self).depth_stats@[i] == (DepthStats { depth: i as usize, duration: 0, element_count: 0 }),
            final(self).total_ax_queries == old(self).total_ax_queries,
            final(self).total_elements == old(self).total_elements,
            final(self).total_duration == old(self).total_duration,
            old(self).consistent() ==> final(self).consistent(),
    {
        while self.depth_stats.len() <= depth
            invariant
                depth < usize::MAX,
                old(self).depth_stats@.len() <= self.depth_stats@.len(),
                self.depth_stats@.len() <= if old(self).depth_stats@.len() > depth {
                    old(self).depth_stats@.len() as int
                } else {
                    depth + 1
                },
                forall|i: int| 0 <= i < old(self).depth_stats@.len() ==> #[trigger] self.depth_stats@[i] == old(self).depth_stats@[i],
                forall|i: int| old(self).depth_stats@.len() <= i < self.depth_stats@.len()
                    ==> #[trigger] self.depth_stats@[i] == (DepthStats { depth: i as usize, duration: 0, element_count: 0 }),
                self.total_ax_queries == old(self).total_ax_queries,
                self.total_elements == old(self).total_elements,
                self.total_duration == old(self).total_duration,
            decreases depth + 1 - self.depth_stats@.len(),
        {
            let d = self.depth_stats.len();
            self.depth_stats.push(DepthStats { depth: d, duration: 0, element_count: 0 });
        }
        proof {
            if old(self).consistent() {
                let before = old(self).depth_stats@;
                let t = self.depth_stats@.subrange(before.len() as int, self.depth_stats@.len() as int);
                assert(self.depth_stats@ =~= before + t);
                assert forall|i: int| 0 <= i < t.len() implies #[trigger] t[i].element_count == 0 by {
                    assert(t[i] == self.depth_stats@[before.len() + i]);
                }
                lemma_counted_append_empty(before, t);
                assert forall|i: int| 0 <= i < self.depth_stats@.len() implies #[trigger] self.depth_stats@[i].depth == i by {
                    if i < before.len() {
                        assert(before[i].depth == i);
                    }
                }
            }
        }
    }

    /// Records one element visited at `depth` that took `duration` nanoseconds.
    pub fn record(&mut self, depth: usize, duration: u128)
        requires
            depth < usize::MAX,
            old(self).total_elements < usize::MAX,
            depth < old(self).depth_stats@.len() ==> old(self).depth_stats@[depth as int].element_count < usize::MAX
                && old(self).depth_stats@[depth as int].duration + duration <= max_duration_nanos(),
            depth >= old(self).depth_stats@.len() ==> duration <= max_duration_nanos(),
        ensures
            old(self).records(*final(self), depth, duration),
            old(self).consistent() ==> final(self).consistent(),
    {
        self.ensure_depth(depth);
        let mut s = self.depth_stats[depth];
        assert(max_duration_nanos() < u128::MAX);
        s.duration = s.duration + duration;
        s.element_count = s.element_count + 1;
        self.depth_stats.set(depth, s);
        self.total_elements = self.total_elements + 1;
        proof {
            if old(self).consistent() {
                Self::law_record_keeps_profile_consistent(*old(self), *self, depth, duration);
            }
        }
    }

    /// Counts `n` more accessibility attribute queries.
    pub fn count_queries(&mut self, n: usize)
        requires
            old(self).total_ax_queries + n <= usize::MAX,
        ensures
            final(self).total_ax_queries == old(self).total_ax_queries + n,
            final(self).depth_stats@ == old(self).depth_stats@,
            final(self).total_elements == old(self).total_elements,
            final(self).total_duration == old(self).total_duration,
            old(self).consistent() ==> final(self).consistent(),
    {
        self.total_ax_queries = self.total_ax_queries + n;
    }
}

/// The number of earlier siblings that share the role of sibling `i`.
pub open spec fn same_role_before(roles: Seq<Seq<char>>, i: int) -> nat {
    roles.take(i).filter(|r: Seq<char>| r == roles[i]).len()
}

/// The path index of each child: its position among the earlier siblings with
/// the same role.
pub fn sibling_indices(roles: &Vec<String>) -> (r: Vec<usize>)
    ensures
        r@.len() == roles@.len(),
        forall|i: int| 0 <= i < roles@.len() ==> #[trigger] r@[i] as nat == same_role_before(views(roles@), i),
{
    let ghost v = views(roles@);
    let n = roles.len();
    let mut out: Vec<usize> = Vec::new();
    let mut i: usize = 0;
    while i < n
        invariant
            n == roles@.len(),
            v == views(roles@),
            i <= n,
            out@.len() == i,
            forall|k: int| 0 <= k < i ==> #[trigger] out@[k] as nat == same_role_before(v, k),
        decreases n - i,
    {
        let mut count: usize = 0;
        let mut j: usize = 0;
        while j < i
            invariant
                n == roles@.len(),
                v == views(roles@),
                i < n,
                j <= i,
                count <= j,
                count as nat == v.take(j as int).filter(|r: Seq<char>| r == v[i as int]).len(),
            decreases i - j,
        {
            proof {
                let f = |r: Seq<char>| r == v[i as int];
                assert(v.take(j + 1).drop_last() =~= v.take(j as int));
                assert(v.take(j + 1).last() == v[j as int]);
                v.take(j as int).lemma_filter_len_push(f, v[j as int]);
                assert(v.take(j as int).push(v[j as int]) =~= v.take(j + 1));
            }
            if roles[j] == roles[i] {
                count = count + 1;
            }
            j = j + 1;
        }
        out.push(count);
        i = i + 1;
    }
    out
}

/// The child that a path segment designates: the `seg.index`-th child (from
/// zero) among those whose role is `seg.role`.
pub open spec fn designated_child(roles: Seq<Seq<char>>, seg: PathSegmentView, i: int) -> bool {
    0 <= i < roles.len() && roles[i] == seg.role && same_role_before(roles, i) == seg.index
}

/// Finds the child that `seg` designates among children with the given roles.
pub fn find_child_by_segment(roles: &Vec<String>, seg: &PathSegment) -> (r: Option<usize>)
    ensures
        r matches Some(i) ==> designated_child(views(roles@), seg@, i as int),
        r is None ==> forall|i: int| !designated_child(views(roles@), seg@, i),
{
    let ghost v = views(roles@);
    let n = roles.len();
    let mut role_count: usize = 0;
    let mut i: usize = 0;
    while i < n
        invariant
            n == roles@.len(),
            v == views(roles@),
            i <= n,
            role_count <= i,
            role_count as nat == v.take(i as int).filter(|r: Seq<char>| r == seg.role@).len(),
            role_count <= seg.index,
            forall|k: int| 0 <= k < i ==> !designated_child(v, seg@, k),
        decreases n - i,
    {
        let ghost f = |r: Seq<char>| r == seg.role@;
        proof {
            assert(v.take(i as int).push(v[i as int]) =~= v.take(i + 1));
            v.take(i as int).lemma_filter_len_push(f, v[i as int]);
        }
        if roles[i] == seg.role {
            proof {
                let g = |r: Seq<char>| r == v[i as int];
                assert(f =~= g);
            }
            if role_count == seg.index {
                return Some(i);
            }
            role_count = role_count + 1;
        }
        i = i + 1;
    }
    None
}

/// A child found by the segment that the traversal recorded for it is that
/// child: re-walking a recorded path reaches the recorded element.
pub proof fn law_recorded_segment_finds_child(roles: Seq<Seq<char>>, i: int, j: int)
    requires
        0 <= i < roles.len(),
        designated_child(roles, PathSegmentView { role: roles[i], index: same_role_before(roles, i) as usize }, j),
        same_role_before(roles, i) <= usize::MAX,
    ensures
        j == i,
{
    let f = |r: Seq<char>| r == roles[i];
    assert(roles[j] == roles[i]);
    if j < i {
        lemma_filter_count_grows(roles, f, j, i);
    } else if i < j {
        lemma_filter_count_grows(roles, f, i, j);
    }
}

/// Among elements satisfying `f`, a later one has seen strictly more before it.
proof fn lemma_filter_count_grows(s: Seq<Seq<char>>, f: spec_fn(Seq<char>) -> bool, a: int, b: int)
    requires
        0 <= a < b <= s.len(),
        f(s[a]),
    ensures
        s.take(a).filter(f).len() < s.take(b).filter(f).len(),
    decreases b - a,
{
    s.take(b - 1).lemma_filter_len_push(f, s[b - 1]);
    assert(s.take(b - 1).push(s[b - 1]) =~= s.take(b));
    if b - 1 > a {
        lemma_filter_count_grows(s, f, a, b - 1);
    } else {
        assert(s.take(a).push(s[a]) =~= s.take(a + 1));
        s.take(a).lemma_filter_len_push(f, s[a]);
    }
}
} // verus!
