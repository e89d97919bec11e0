//! The selector stage: each rule re-parses the current text, marks the
//! elements its CSS selector matches, and writes the tree back out with the
//! rule's action applied to them.

use vstd::prelude::*;

use ego_tree::NodeId;

use crate::sanitizer::dom::{
    child_ids, fragment_of, node_content, parse_fragment, parse_selector, root_id, same_node,
    select_ids, selection_of, selector_parses, ContentView, FragmentView, NodeContent,
    ParsedFragment, attrs_view,
};

verus! {

/// What a selector rule does to the elements it matches.
#[derive(Clone, Debug)]
pub enum SelectorAction {
    /// Drop the attribute of this name from each matched element.
    RemoveAttr(String),
    /// Drop each matched element with everything inside it.
    RemoveElement,
    /// Write this text in place of each matched element's children.
    ReplaceText(String),
}

pub enum ActionView {
    RemoveAttr(Seq<char>),
    RemoveElement,
    ReplaceText(Seq<char>),
}

impl View for SelectorAction {
    type V = ActionView;

    open spec fn view(&self) -> ActionView {
        match self {
            SelectorAction::RemoveAttr(a) => ActionView::RemoveAttr(a@),
            SelectorAction::RemoveElement => ActionView::RemoveElement,
            SelectorAction::ReplaceText(t) => ActionView::ReplaceText(t@),
        }
    }
}

/// The elements that never have children or a closing tag.
pub open spec fn is_void_element(name: Seq<char>) -> bool {
    ||| name == "area"@
    ||| name == "base"@
    ||| name == "br"@
    ||| name == "col"@
    ||| name == "embed"@
    ||| name == "hr"@
    ||| name == "img"@
    ||| name == "input"@
    ||| name == "link"@
    ||| name == "meta"@
    ||| name == "param"@
    ||| name == "source"@
    ||| name == "track"@
    ||| name == "wbr"@
}

/// Whether the node is left out of the output, with its whole subtree.
pub open spec fn is_skipped(marked: Seq<NodeId>, action: ActionView, id: NodeId) -> bool {
    action is RemoveElement && marked.contains(id)
}

/// The attribute to leave out of the node's opening tag, if any.
pub open spec fn dropped_attr(marked: Seq<NodeId>, action: ActionView, id: NodeId) -> Option<Seq<char>> {
    match action {
        ActionView::RemoveAttr(a) => if marked.contains(id) { Some(a) } else { None },
        _ => None,
    }
}

/// The text written in place of the node's children, if any.
pub open spec fn replacement(marked: Seq<NodeId>, action: ActionView, id: NodeId) -> Option<Seq<char>> {
    match action {
        ActionView::ReplaceText(t) => if marked.contains(id) { Some(t) } else { None },
        _ => None,
    }
}

/// The attributes as written in an opening tag, in order, without `dropped`.
pub open spec fn render_attrs(attrs: Seq<(Seq<char>, Seq<char>)>, dropped: Option<Seq<char>>) -> Seq<char>
    decreases attrs.len(),
{
    if attrs.len() == 0 {
        Seq::empty()
    } else {
        let (k, v) = attrs.last();
        render_attrs(attrs.drop_last(), dropped) + if dropped == Some(k) {
            Seq::empty()
        } else {
            " "@ + k + "=\""@ + v + "\""@
        }
    }
}

/// The text of node `id` and its subtree, descending at most `fuel` levels.
pub open spec fn render_node(
    t: FragmentView,
    marked: Seq<NodeId>,
    action: ActionView,
    id: NodeId,
    fuel: nat,
) -> Seq<char>
    decreases fuel, 0nat,
{
    if fuel == 0 || is_skipped(marked, action, id) {
        Seq::empty()
    } else {
        match t.nodes[id].content {
            ContentView::Container => render_children(t, marked, action, t.nodes[id].children, (fuel - 1) as nat),
            ContentView::Element { name, attrs } => {
                let open = "<"@ + name + render_attrs(attrs, dropped_attr(marked, action, id)) + ">"@;
                if is_void_element(name) {
                    open
                } else {
                    let inner = match replacement(marked, action, id) {
                        Some(x) => x,
                        None => render_children(t, marked, action, t.nodes[id].children, (fuel - 1) as nat),
                    };
                    open + inner + "</"@ + name + ">"@
                }
            },
            ContentView::Text(x) => x,
            ContentView::Comment(x) => "<!--"@ + x + "-->"@,
            ContentView::Other => Seq::empty(),
        }
    }
}

/// The texts of the nodes `ids`, one after the other.
pub open spec fn render_children(
    t: FragmentView,
    marked: Seq<NodeId>,
    action: ActionView,
    ids: Seq<NodeId>,
    fuel: nat,
) -> Seq<char>
    decreases fuel, ids.len() + 1,
{
    if ids.len() == 0 {
        Seq::empty()
    } else {
        render_children(t, marked, action, ids.drop_last(), fuel)
            + render_node(t, marked, action, ids.last(), fuel)
    }
}

/// The whole fragment as text. The depth bound cannot bind on a tree that
/// fits in memory.
pub open spec fn render_fragment(t: FragmentView, marked: Seq<NodeId>, action: ActionView) -> Seq<char> {
    render_node(t, marked, action, t.root, usize::MAX as nat)
}

/// One rule applied to `html`: unchanged when the selector does not parse.
pub open spec fn apply_rule(html: Seq<char>, selector: Seq<char>, action: ActionView) -> Seq<char> {
    if selector_parses(selector) {
        render_fragment(fragment_of(html), selection_of(selector, html), action)
    } else {
        html
    }
}

/// The rules applied in order, each to the previous one's output.
pub open spec fn apply_rules(rules: Seq<(Seq<char>, ActionView)>, html: Seq<char>) -> Seq<char>
    decreases rules.len(),
{
    if rules.len() == 0 {
        html
    } else {
        apply_rule(apply_rules(rules.drop_last(), html), rules.last().0, rules.last().1)
    }
}

fn text_is(s: &String, lit: &str) -> (r: bool)
    ensures
        r == (s@ == lit@),
{
    *s == lit.to_owned()
}

fn is_void(name: &String) -> (r: bool)
    ensures
        r == is_void_element(name@),
{
    text_is(name, "area") || text_is(name, "base") || text_is(name, "br") || text_is(name, "col")
        || text_is(name, "embed") || text_is(name, "hr") || text_is(name, "img")
        || text_is(name, "input") || text_is(name, "link") || text_is(name, "meta")
        || text_is(name, "param") || text_is(name, "source") || text_is(name, "track")
        || text_is(name, "wbr")
}

fn is_marked(marked: &Vec<NodeId>, id: NodeId) -> (r: bool)
    ensures
        r == marked@.contains(id),
{
    let mut k: usize = 0;
    while k < marked.len()
        invariant
            k <= marked.len(),
            forall|j: int| 0 <= j < k ==> marked@[j] != id,
        decreases marked.len() - k,
    {
        if same_node(marked[k], id) {
            return true;
        }
        k += 1;
    }
    false
}

fn write_attrs(attrs: &Vec<(String, String)>, dropped: Option<&String>, out: &mut String)
    ensures
        final(out)@ == old(out)@ + render_attrs(
            attrs_view(attrs@),
            match dropped {
                Some(a) => Some(a@),
                None => None,
            },
        ),
{
    let ghost dv = match dropped {
        Some(a) => Some(a@),
        None => None,
    };
    let ghost av = attrs_view(attrs@);
    let ghost start = out@;
    let mut k: usize = 0;
    assert(av.take(0) =~= Seq::<(Seq<char>, Seq<char>)>::empty());
    while k < attrs.len()
        invariant
            k <= attrs.len(),
            av == attrs_view(attrs@),
            dv == match dropped {
                Some(a) => Some(a@),
                None => None,
            },
            out@ == start + render_attrs(av.take(k as int), dv),
        decreases attrs.len() - k,
    {
        let (key, value) = &attrs[k];
        assert(av.take(k + 1).drop_last() =~= av.take(k as int));
        assert(av.take(k + 1).last() == (key@, value@));
        let keep = match dropped {
            Some(a) => !(*key == *a),
            None => true,
        };
        if keep {
            out.append(" ");
            out.append(key.as_str());
            out.append("=\"");
            out.append(value.as_str());
            out.append("\"");
        }
        k += 1;
    }
    assert(av.take(attrs.len() as int) =~= av);
}

fn write_children(
    doc: &ParsedFragment,
    marked: &Vec<NodeId>,
    action: &SelectorAction,
    ids: &Vec<NodeId>,
    fuel: usize,
    out: &mut String,
)
    requires
        forall|k: int| 0 <= k < ids@.len() ==> doc.tree().nodes.contains_key(#[trigger] ids@[k]),
    ensures
        final(out)@ == old(out)@ + render_children(doc.tree(), marked@, action@, ids@, fuel as nat),
    decreases fuel, 1nat,
{
    let ghost start = out@;
    let mut k: usize = 0;
    assert(ids@.take(0) =~= Seq::<NodeId>::empty());
    while k < ids.len()
        invariant
            k <= ids.len(),
            forall|j: int| 0 <= j < ids@.len() ==> doc.tree().nodes.contains_key(#[trigger] ids@[j]),
            out@ == start + render_children(doc.tree(), marked@, action@, ids@.take(k as int), fuel as nat),
        decreases ids.len() - k,
    {
        assert(ids@.take(k + 1).drop_last() =~= ids@.take(k as int));
        write_node(doc, marked, action, ids[k], fuel, out);
        k += 1;
    }
    assert(ids@.take(ids.len() as int) =~= ids@);
}

fn write_node(
    doc: &ParsedFragment,
    marked: &Vec<NodeId>,
    action: &SelectorAction,
    id: NodeId,
    fuel: usize,
    out: &mut String,
)
    requires
        doc.tree().nodes.contains_key(id),
    ensures
        final(out)@ == old(out)@ + render_node(doc.tree(), marked@, action@, id, fuel as nat),
    decreases fuel, 0nat,
{
    if fuel == 0 {
        return;
    }
    let is_hit = is_marked(marked, id);
    if is_hit && matches!(action, SelectorAction::RemoveElement) {
        return;
    }
    match node_content(doc, id) {
        NodeContent::Container => {
            let kids = child_ids(doc, id);
            write_children(doc, marked, action, &kids, fuel - 1, out);
        },
        NodeContent::Element { name, attrs } => {
            out.append("<");
            out.append(name.as_str());
            let dropped = match action {
                SelectorAction::RemoveAttr(a) => if is_hit { Some(a) } else { None },
                _ => None,
            };
            write_attrs(&attrs, dropped, out);
            out.append(">");
            if is_void(&name) {
                return;
            }
            match action {
                SelectorAction::ReplaceText(x) if is_hit => {
                    out.append(x.as_str());
                },
                _ => {
                    let kids = child_ids(doc, id);
                    write_children(doc, marked, action, &kids, fuel - 1, out);
                },
            }
            out.append("</");
            out.append(name.as_str());
            out.append(">");
        },
        NodeContent::Text(x) => {
            out.append(x.as_str());
        },
        NodeContent::Comment(x) => {
            out.append("<!--");
            out.append(x.as_str());
            out.append("-->");
        },
        NodeContent::Other => {},
    }
}

/// Writes the fragment out with `action` applied to the `marked` nodes.
fn serialize_tree(doc: &ParsedFragment, marked: &Vec<NodeId>, action: &SelectorAction) -> (r: String)
    ensures
        r@ == render_fragment(doc.tree(), marked@, action@),
{
    let mut out = String::new();
    let root = root_id(doc);
    write_node(doc, marked, action, root, usize::MAX, &mut out);
    out
}

/// Applies one rule to `html`.
pub fn apply_selector_rule(html: &str, selector: &str, action: &SelectorAction) -> (r: String)
    ensures
        r@ == apply_rule(html@, selector@, action@),
{
    match parse_selector(selector) {
        None => html.to_owned(),
        Some(compiled) => {
            let doc = parse_fragment(html);
            let marked = select_ids(&doc, &compiled);
            serialize_tree(&doc, &marked, action)
        },
    }
}

/// Sanitizer that rewrites elements picked by CSS selectors.
///
/// Each rule is a `(selector, action)` pair. Rules run in order, and each
/// parses the output of the one before, so a rule sees what earlier rules
/// removed. A rule whose selector does not parse is skipped.
pub struct SelectorSanitizer {
    rules: Vec<(String, SelectorAction)>,
}

pub open spec fn selector_rules_view(rules: Seq<(String, SelectorAction)>) -> Seq<(Seq<char>, ActionView)> {
    rules.map_values(|r: (String, SelectorAction)| (r.0@, r.1@))
}

pub open spec fn given_rules_view(rules: Seq<(&str, SelectorAction)>) -> Seq<(Seq<char>, ActionView)> {
    rules.map_values(|p: (&str, SelectorAction)| (p.0@, p.1@))
}

impl View for SelectorSanitizer {
    type V = Seq<(Seq<char>, ActionView)>;

    closed spec fn view(&self) -> Seq<(Seq<char>, ActionView)> {
        selector_rules_view(self.rules@)
    }
}

impl SelectorSanitizer {
    /// Creates a sanitizer from `(css_selector, action)` pairs.
    pub fn new(rules: Vec<(&str, SelectorAction)>) -> (r: Self)
        ensures
            r@ == given_rules_view(rules@),
    {
        let mut owned: Vec<(String, SelectorAction)> = Vec::new();
        let mut k: usize = 0;
        assert(selector_rules_view(owned@) =~= given_rules_view(rules@.take(0)));
        while k < rules.len()
            invariant
                k <= rules.len(),
                owned@.len() == k,
                selector_rules_view(owned@) == given_rules_view(rules@.take(k as int)),
            decreases rules.len() - k,
        {
            let (sel, action) = &rules[k];
            let ghost before = owned@;
            owned.push(((*sel).to_owned(), clone_action(action)));
            proof {
                let lhs = selector_rules_view(owned@);
                let rhs = given_rules_view(rules@.take(k + 1));
                assert forall|j: int| 0 <= j < lhs.len() implies lhs[j] == rhs[j] by {
                    if j < k {
                        assert(owned@[j] == before[j]);
                        assert(rules@.take(k + 1)[j] == rules@.take(k as int)[j]);
                        assert(selector_rules_view(before)[j] == given_rules_view(
                            rules@.take(k as int),
                        )[j]);
                    } else {
                        assert(rules@.take(k + 1)[j] == rules@[k as int]);
                    }
                }
                assert(lhs =~= rhs);
            }
            k += 1;
        }
        assert(rules@.take(rules.len() as int) =~= rules@);
        SelectorSanitizer { rules: owned }
    }

    pub(crate) fn rewrite(&self, html: &str) -> (r: String)
        ensures
            r@ == apply_rules(self@, html@),
    {
        let mut out = html.to_owned();
        let ghost rv = selector_rules_view(self.rules@);
        let mut k: usize = 0;
        assert(rv.take(0) =~= Seq::<(Seq<char>, ActionView)>::empty());
        while k < self.rules.len()
            invariant
                k <= self.rules.len(),
                rv == selector_rules_view(self.rules@),
                out@ == apply_rules(rv.take(k as int), html@),
            decreases self.rules.len() - k,
        {
            let (sel, action) = &self.rules[k];
            assert(rv.take(k + 1).drop_last() =~= rv.take(k as int));
            out = apply_selector_rule(out.as_str(), sel.as_str(), action);
            k += 1;
        }
        assert(rv.take(self.rules.len() as int) =~= rv);
        out
    }
}

/// A copy of `action`.
pub(crate) fn clone_action(action: &SelectorAction) -> (r: SelectorAction)
    ensures
        r@ == action@,
{
    match action {
        SelectorAction::RemoveAttr(a) => SelectorAction::RemoveAttr(a.clone()),
        SelectorAction::RemoveElement => SelectorAction::RemoveElement,
        SelectorAction::ReplaceText(t) => SelectorAction::ReplaceText(t.clone()),
    }
}

/// A node matched by a `RemoveElement` rule contributes nothing to the
/// output: not its tags, text or attributes, nor anything of its
/// descendants, at whatever depth.
pub proof fn lemma_removed_element_renders_nothing(
    t: FragmentView,
    marked: Seq<NodeId>,
    id: NodeId,
    fuel: nat,
)
    requires
        marked.contains(id),
    ensures
        render_node(t, marked, ActionView::RemoveElement, id, fuel) == Seq::<char>::empty(),
{
}

/// Siblings that a `RemoveElement` rule matched leave no trace: a run of
/// siblings renders exactly as its unmatched members alone.
pub proof fn lemma_removed_siblings_leave_no_trace(
    t: FragmentView,
    marked: Seq<NodeId>,
    ids: Seq<NodeId>,
    fuel: nat,
)
    ensures
        render_children(t, marked, ActionView::RemoveElement, ids, fuel) == render_children(
            t,
            marked,
            ActionView::RemoveElement,
            ids.filter(|i: NodeId| !marked.contains(i)),
            fuel,
        ),
    decreases ids.len(),
{
    reveal(Seq::filter);
    let keep = |i: NodeId| !marked.contains(i);
    if ids.len() > 0 {
        lemma_removed_siblings_leave_no_trace(t, marked, ids.drop_last(), fuel);
        let kept = ids.drop_last().filter(keep);
        if keep(ids.last()) {
            assert(kept.push(ids.last()).drop_last() =~= kept);
        } else {
            lemma_removed_element_renders_nothing(t, marked, ids.last(), fuel);
            assert(render_children(t, marked, ActionView::RemoveElement, ids, fuel)
                =~= render_children(t, marked, ActionView::RemoveElement, ids.drop_last(), fuel));
        }
    }
}

/// Each rule works on the previous rule's output: the rules `first + second`
/// have the effect of `first`, then `second` on its output.
pub proof fn lemma_selector_rules_chain(
    first: Seq<(Seq<char>, ActionView)>,
    second: Seq<(Seq<char>, ActionView)>,
    html: Seq<char>,
)
    ensures
        apply_rules(first + second, html) == apply_rules(second, apply_rules(first, html)),
    decreases second.len(),
{
    if second.len() == 0 {
        assert(first + second =~= first);
    } else {
        lemma_selector_rules_chain(first, second.drop_last(), html);
        assert((first + second).drop_last() =~= first + second.drop_last());
        assert((first + second).last() == second.last());
    }
}
} // verus!
