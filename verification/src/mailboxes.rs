//! The folder tree: mailbox names split on the server's delimiter, sorted with
//! the well-known folders first, and flattened into rows for a list.

use vstd::prelude::*;
use vstd::string::*;
use crate::imap::{MailboxInfo, MailboxInfoModel, SpecialUse};
use crate::text;
use crate::text::Text;

verus! {

broadcast use vstd::string::group_string_axioms;

// ── Nodes ───────────────────────────────────────────────────────────────────

/// One node of the folder tree.
#[derive(Debug, PartialEq, Eq)]
pub struct MailboxNode {
    /// This node's own path segment, `"Invoices"` for `"Work/Invoices"`.
    pub label: String,
    /// The name to send back to the server. `None` for a node that only holds
    /// other mailboxes.
    pub full_name: Option<String>,
    pub special_use: Option<SpecialUse>,
    pub children: Vec<MailboxNode>,
}

/// What a [`MailboxNode`] holds.
#[verifier::ext_equal]
pub struct NodeModel {
    pub label: Text,
    pub full_name: Option<Text>,
    pub special_use: Option<SpecialUse>,
    pub children: Seq<NodeModel>,
}

impl MailboxNode {
    /// The node with its whole subtree.
    pub open spec fn model(self) -> NodeModel
        decreases self,
    {
        NodeModel {
            label: self.label@,
            full_name: self.full_name.deep_view(),
            special_use: self.special_use,
            children: Seq::new(
                self.children@.len(),
                |i: int|
                    if 0 <= i < self.children@.len() {
                        self.children@[i].model()
                    } else {
                        arbitrary()
                    },
            ),
        }
    }
}

impl View for MailboxNode {
    type V = NodeModel;

    open spec fn view(&self) -> NodeModel {
        self.model()
    }
}

impl DeepView for MailboxNode {
    type V = NodeModel;

    open spec fn deep_view(&self) -> NodeModel {
        self.model()
    }
}

/// A list of nodes with their subtrees.
pub open spec fn models(nodes: Seq<MailboxNode>) -> Seq<NodeModel> {
    Seq::new(nodes.len(), |i: int| nodes[i].model())
}

/// A node's children are the models of its child nodes.
pub proof fn lemma_children(node: MailboxNode)
    ensures
        node.model().children == models(node.children@),
{
    assert(node.model().children =~= models(node.children@));
}

// ── Building the tree ───────────────────────────────────────────────────────

/// The pieces that hold any character.
pub open spec fn non_empty(pieces: Seq<Text>) -> Seq<Text>
    decreases pieces.len(),
{
    if pieces.len() == 0 {
        seq![]
    } else if pieces.last().len() == 0 {
        non_empty(pieces.drop_last())
    } else {
        non_empty(pieces.drop_last()).push(pieces.last())
    }
}

/// The path of a mailbox: its name split on the delimiter, without empty
/// segments. A name on a server without hierarchy is one segment.
pub open spec fn path_of(mb: MailboxInfoModel) -> Seq<Text> {
    match mb.delimiter {
        Some(d) if d.len() > 0 => non_empty(text::split(mb.name, d)),
        _ => seq![mb.name],
    }
}

/// The position of the first node with the given label, or -1.
pub open spec fn label_index(nodes: Seq<NodeModel>, label: Text) -> int
    decreases nodes.len(),
{
    if nodes.len() == 0 {
        -1
    } else {
        let before = label_index(nodes.drop_last(), label);
        if before >= 0 {
            before
        } else if nodes.last().label == label {
            nodes.len() - 1
        } else {
            -1
        }
    }
}

/// A node that no mailbox has been put into yet.
pub open spec fn bare_node(label: Text) -> NodeModel {
    NodeModel { label, full_name: None, special_use: None, children: seq![] }
}

/// The node list with a bare node for `label` at its end if it had none.
pub open spec fn with_label(nodes: Seq<NodeModel>, label: Text) -> Seq<NodeModel> {
    if label_index(nodes, label) >= 0 {
        nodes
    } else {
        nodes.push(bare_node(label))
    }
}

/// The position of `label` in [`with_label`].
pub open spec fn label_slot(nodes: Seq<NodeModel>, label: Text) -> int {
    if label_index(nodes, label) >= 0 {
        label_index(nodes, label)
    } else {
        nodes.len() as int
    }
}

/// A node after a mailbox with this exact path was put into it: a `\Noselect`
/// mailbox gives no name to select.
pub open spec fn filled(node: NodeModel, mb: MailboxInfoModel) -> NodeModel {
    NodeModel {
        full_name: if mb.noselect {
            node.full_name
        } else {
            Some(mb.name)
        },
        special_use: mb.special_use,
        ..node
    }
}

/// The node list after a mailbox was put in at `path`.
pub open spec fn inserted(nodes: Seq<NodeModel>, path: Seq<Text>, mb: MailboxInfoModel) -> Seq<
    NodeModel,
>
    decreases path.len(),
{
    if path.len() == 0 {
        nodes
    } else {
        let base = with_label(nodes, path.first());
        let i = label_slot(nodes, path.first());
        let node = base[i];
        base.update(
            i,
            if path.len() == 1 {
                filled(node, mb)
            } else {
                NodeModel { children: inserted(node.children, path.drop_first(), mb), ..node }
            },
        )
    }
}

/// The unsorted tree of the first mailboxes of a list.
pub open spec fn grown(mailboxes: Seq<MailboxInfoModel>) -> Seq<NodeModel>
    decreases mailboxes.len(),
{
    if mailboxes.len() == 0 {
        seq![]
    } else {
        inserted(grown(mailboxes.drop_last()), path_of(mailboxes.last()), mailboxes.last())
    }
}

// ── Sorting ─────────────────────────────────────────────────────────────────

/// The place of a role among siblings: the inbox first, folders without a
/// role last.
pub open spec fn rank(special_use: Option<SpecialUse>) -> int {
    match special_use {
        Some(SpecialUse::Inbox) => 0,
        Some(SpecialUse::Sent) => 1,
        Some(SpecialUse::Drafts) => 2,
        Some(SpecialUse::Archive) => 3,
        Some(SpecialUse::Junk) => 4,
        Some(SpecialUse::Trash) => 5,
        None => 6,
    }
}

/// Lexicographic order of texts by code point.
pub open spec fn text_less(a: Text, b: Text) -> bool
    decreases a.len(),
{
    if b.len() == 0 {
        false
    } else if a.len() == 0 {
        true
    } else if a.first() != b.first() {
        a.first() < b.first()
    } else {
        text_less(a.drop_first(), b.drop_first())
    }
}

/// Whether node `a` sorts strictly before node `b`: by role, and within a role
/// by label, ASCII case aside.
pub open spec fn sorts_before(a: NodeModel, b: NodeModel) -> bool {
    ||| rank(a.special_use) < rank(b.special_use)
    ||| rank(a.special_use) == rank(b.special_use) && text_less(
        text::lower(a.label),
        text::lower(b.label),
    )
}

/// How many leading nodes sort strictly before `node`.
pub open spec fn slot_for(node: NodeModel, sorted: Seq<NodeModel>) -> int
    decreases sorted.len(),
{
    if sorted.len() == 0 || !sorts_before(sorted.first(), node) {
        0
    } else {
        1 + slot_for(node, sorted.drop_first())
    }
}

/// A node with its subtree sorted.
pub open spec fn sorted_node(node: NodeModel) -> NodeModel
    decreases node, 0nat,
{
    NodeModel { children: sorted_nodes(node.children), ..node }
}

/// The nodes and their subtrees in sorted order; of nodes that sort alike the
/// earlier one stays first.
pub open spec fn sorted_nodes(nodes: Seq<NodeModel>) -> Seq<NodeModel>
    decreases nodes, nodes.len(),
{
    if nodes.len() == 0 {
        seq![]
    } else {
        let rest = sorted_nodes(nodes.drop_first());
        let node = sorted_node(nodes.first());
        rest.insert(slot_for(node, rest), node)
    }
}

/// The number of levels of a tree.
pub open spec fn height(nodes: Seq<NodeModel>) -> nat
    decreases nodes, nodes.len(),
{
    if nodes.len() == 0 {
        0
    } else {
        let before = height(nodes.drop_last());
        let here = 1 + height(nodes.last().children);
        if before > here {
            before
        } else {
            here
        }
    }
}

/// Every node's subtree fits under the tree's height.
proof fn lemma_height_member(nodes: Seq<NodeModel>, i: int)
    requires
        0 <= i < nodes.len(),
    ensures
        1 + height(nodes[i].children) <= height(nodes),
    decreases nodes.len(),
{
    if i < nodes.len() - 1 {
        lemma_height_member(nodes.drop_last(), i);
    }
}

/// A bound on every node's subtree bounds the tree.
proof fn lemma_height_bound(nodes: Seq<NodeModel>, n: nat)
    requires
        forall|i: int| 0 <= i < nodes.len() ==> 1 + height((#[trigger] nodes[i]).children) <= n,
    ensures
        height(nodes) <= n,
    decreases nodes.len(),
{
    if nodes.len() > 0 {
        assert forall|i: int| 0 <= i < nodes.drop_last().len() implies 1 + height(
            (#[trigger] nodes.drop_last()[i]).children,
        ) <= n by {
            assert(nodes.drop_last()[i] == nodes[i]);
        }
        lemma_height_bound(nodes.drop_last(), n);
        assert(nodes[nodes.len() - 1] == nodes.last());
    }
}

/// Putting a mailbox in makes the tree no higher than its path is long.
proof fn lemma_height_inserted(nodes: Seq<NodeModel>, path: Seq<Text>, mb: MailboxInfoModel, n: nat)
    requires
        height(nodes) <= n,
        path.len() <= n,
    ensures
        height(inserted(nodes, path, mb)) <= n,
    decreases path.len(),
{
    if path.len() > 0 {
        let base = with_label(nodes, path.first());
        let i = label_slot(nodes, path.first());
        let out = inserted(nodes, path, mb);
        lemma_label_index_range(nodes, path.first());
        assert forall|j: int| 0 <= j < out.len() implies 1 + height((#[trigger] out[j]).children)
            <= n by {
            if j < nodes.len() {
                lemma_height_member(nodes, j);
            }
            if j == i {
                assert(height(Seq::<NodeModel>::empty()) == 0);
                if path.len() > 1 {
                    lemma_height_inserted(base[i].children, path.drop_first(), mb, (n - 1) as nat);
                }
            }
        }
        lemma_height_bound(out, n);
    }
}

/// [`label_index`] is -1 or a position of the label.
pub proof fn lemma_label_index_range(nodes: Seq<NodeModel>, label: Text)
    ensures
        -1 <= label_index(nodes, label) < nodes.len(),
        label_index(nodes, label) >= 0 ==> nodes[label_index(nodes, label)].label == label,
        label_index(nodes, label) < 0 ==> forall|i: int|
            0 <= i < nodes.len() ==> (#[trigger] nodes[i]).label != label,
    decreases nodes.len(),
{
    if nodes.len() > 0 {
        lemma_label_index_range(nodes.drop_last(), label);
        if label_index(nodes, label) < 0 {
            assert forall|i: int| 0 <= i < nodes.len() implies (#[trigger] nodes[i]).label
                != label by {
                if i < nodes.len() - 1 {
                    assert(nodes.drop_last()[i] == nodes[i]);
                }
            }
        }
    }
}

/// A node's slot is a position of the list or its end.
pub proof fn lemma_slot_range(node: NodeModel, sorted: Seq<NodeModel>)
    ensures
        0 <= slot_for(node, sorted) <= sorted.len(),
    decreases sorted.len(),
{
    if sorted.len() > 0 {
        lemma_slot_range(node, sorted.drop_first());
    }
}

/// Sorting leaves the height as it is.
proof fn lemma_height_sorted(nodes: Seq<NodeModel>, n: nat)
    requires
        height(nodes) <= n,
    ensures
        height(sorted_nodes(nodes)) <= n,
    decreases nodes, nodes.len(),
{
    if nodes.len() > 0 {
        let rest = sorted_nodes(nodes.drop_first());
        let node = sorted_node(nodes.first());
        assert forall|i: int| 0 <= i < nodes.drop_first().len() implies 1 + height(
            (#[trigger] nodes.drop_first()[i]).children,
        ) <= n by {
            assert(nodes.drop_first()[i] == nodes[i + 1]);
            lemma_height_member(nodes, i + 1);
        }
        lemma_height_bound(nodes.drop_first(), n);
        lemma_height_sorted(nodes.drop_first(), n);
        lemma_height_member(nodes, 0);
        assert(decreases_to!(nodes => nodes[0]));
        lemma_height_sorted(nodes.first().children, (n - 1) as nat);
        lemma_slot_range(node, rest);
        let slot = slot_for(node, rest);
        let out = rest.insert(slot, node);
        assert forall|i: int| 0 <= i < out.len() implies 1 + height((#[trigger] out[i]).children)
            <= n by {
            if i < slot {
                lemma_height_member(rest, i);
            } else if i > slot {
                lemma_height_member(rest, i - 1);
            }
        }
        lemma_height_bound(out, n);
    }
}

/// The folder tree of a `LIST` response.
pub open spec fn tree_of(mailboxes: Seq<MailboxInfoModel>) -> Seq<NodeModel> {
    sorted_nodes(grown(mailboxes))
}

// ── Building, executable ────────────────────────────────────────────────────

/// The path of a mailbox.
fn path_segments(mb: &MailboxInfo) -> (r: Vec<String>)
    ensures
        r.deep_view() == path_of(mb@),
{
    let mut r: Vec<String> = Vec::new();
    match &mb.delimiter {
        Some(d) if !d.as_str().is_empty() => {
            let pieces = text::split_at(mb.name.as_str(), d.as_str());
            let ghost all = pieces.deep_view();
            let mut i: usize = 0;
            assert(r.deep_view() =~= non_empty(all.take(0)));
            while i < pieces.len()
                invariant
                    i <= pieces@.len(),
                    all == pieces.deep_view(),
                    r.deep_view() == non_empty(all.take(i as int)),
                decreases pieces@.len() - i,
            {
                let ghost held = r.deep_view();
                assert(all.take(i + 1).drop_last() =~= all.take(i as int));
                if !pieces[i].as_str().is_empty() {
                    r.push(pieces[i].clone());
                    assert(r.deep_view() =~= held.push(all[i as int]));
                }
                i += 1;
            }
            assert(all.take(all.len() as int) =~= all);
        },
        _ => {
            r.push(mb.name.clone());
            assert(r.deep_view() =~= seq![mb.name@]);
        },
    }
    r
}

/// The position of the first node with the given label.
fn find_label(nodes: &Vec<MailboxNode>, label: &String) -> (r: Option<usize>)
    ensures
        match r {
            Some(i) => i < nodes@.len() && label_index(models(nodes@), label@) == i,
            None => label_index(models(nodes@), label@) == -1,
        },
{
    let ghost all = models(nodes@);
    let mut i: usize = 0;
    assert(label_index(all.take(0), label@) == -1);
    while i < nodes.len()
        invariant
            i <= nodes@.len(),
            all == models(nodes@),
            label_index(all.take(i as int), label@) == -1,
        decreases nodes@.len() - i,
    {
        assert(all.take(i + 1).drop_last() =~= all.take(i as int));
        if nodes[i].label == *label {
            proof {
                assert(label_index(all.take(i + 1), label@) == i);
                lemma_label_index_stays(all, label@, i + 1);
            }
            return Some(i);
        }
        i += 1;
    }
    assert(all.take(all.len() as int) =~= all);
    None
}

/// A label found in a prefix of the list is found at the same place in the list.
proof fn lemma_label_index_stays(nodes: Seq<NodeModel>, label: Text, n: int)
    requires
        0 <= n <= nodes.len(),
        label_index(nodes.take(n), label) >= 0,
    ensures
        label_index(nodes, label) == label_index(nodes.take(n), label),
    decreases nodes.len(),
{
    if n == nodes.len() {
        assert(nodes.take(n) =~= nodes);
    } else {
        assert(nodes.drop_last().take(n) =~= nodes.take(n));
        lemma_label_index_stays(nodes.drop_last(), label, n);
    }
}

/// Puts a mailbox into the tree at the path `segments[at..]`.
fn insert_path(nodes: &mut Vec<MailboxNode>, segments: &Vec<String>, at: usize, mb: &MailboxInfo)
    requires
        at <= segments@.len(),
    ensures
        models(final(nodes)@) == inserted(
            models(old(nodes)@),
            segments.deep_view().skip(at as int),
            mb@,
        ),
    decreases segments@.len() - at,
{
    let ghost path = segments.deep_view().skip(at as int);
    let ghost start = models(nodes@);
    if at == segments.len() {
        return;
    }
    assert(path.first() == segments@[at as int]@);
    let i: usize = match find_label(nodes, &segments[at]) {
        Some(i) => i,
        None => {
            let i: usize = nodes.len();
            let node = MailboxNode {
                label: segments[at].clone(),
                full_name: None,
                special_use: None,
                children: Vec::new(),
            };
            assert(node.model() == bare_node(path.first())) by {
                lemma_children(node);
                assert(models(node.children@) =~= Seq::<NodeModel>::empty());
            }
            nodes.push(node);
            assert(models(nodes@) =~= start.push(bare_node(path.first())));
            i
        },
    };
    let ghost base = with_label(start, path.first());
    assert(models(nodes@) == base);
    assert(i == label_slot(start, path.first()));
    let ghost before = nodes@;
    let node = &mut nodes[i];
    let ghost old_node = *node;
    if at + 1 == segments.len() {
        if !mb.noselect {
            node.full_name = Some(mb.name.clone());
        }
        node.special_use = mb.special_use;
        proof {
            lemma_children(old_node);
            lemma_children(*node);
            assert(node.model() =~= filled(old_node.model(), mb@));
        }
    } else {
        insert_path(&mut node.children, segments, at + 1, mb);
        proof {
            assert(segments.deep_view().skip(at + 1) =~= path.drop_first());
            lemma_children(old_node);
            lemma_children(*node);
        }
    }
    proof {
        assert(path.len() == segments@.len() - at);
        assert(models(nodes@) =~= inserted(start, path, mb@));
    }
}

/// Whether `a` comes before `b` by code point.
fn less(a: &str, b: &str) -> (r: bool)
    ensures
        r == text_less(a@, b@),
{
    let x = text::chars_of(a);
    let y = text::chars_of(b);
    let mut i: usize = 0;
    assert(x@.skip(0) =~= x@);
    assert(y@.skip(0) =~= y@);
    while i < x.len() && i < y.len()
        invariant
            i <= x@.len(),
            i <= y@.len(),
            x@ == a@,
            y@ == b@,
            text_less(x@, y@) == text_less(x@.skip(i as int), y@.skip(i as int)),
        decreases x@.len() - i,
    {
        if x[i] != y[i] {
            return x[i] < y[i];
        }
        assert(x@.skip(i as int).drop_first() =~= x@.skip(i + 1));
        assert(y@.skip(i as int).drop_first() =~= y@.skip(i + 1));
        i += 1;
    }
    i < y.len()
}

/// The place of a role among siblings.
fn rank_of(special_use: Option<SpecialUse>) -> (r: u8)
    ensures
        r == rank(special_use),
{
    match special_use {
        Some(SpecialUse::Inbox) => 0,
        Some(SpecialUse::Sent) => 1,
        Some(SpecialUse::Drafts) => 2,
        Some(SpecialUse::Archive) => 3,
        Some(SpecialUse::Junk) => 4,
        Some(SpecialUse::Trash) => 5,
        None => 6,
    }
}

/// Whether node `a` sorts strictly before node `b`.
fn comes_before(a: &MailboxNode, b: &MailboxNode) -> (r: bool)
    ensures
        r == sorts_before(a.model(), b.model()),
{
    let ra: u8 = rank_of(a.special_use);
    let rb: u8 = rank_of(b.special_use);
    if ra != rb {
        ra < rb
    } else {
        let la = text::to_lower(a.label.as_str());
        let lb = text::to_lower(b.label.as_str());
        less(la.as_str(), lb.as_str())
    }
}

/// The position at which `node` goes into a sorted list.
fn find_slot(node: &MailboxNode, sorted: &Vec<MailboxNode>) -> (r: usize)
    ensures
        r <= sorted@.len(),
        r == slot_for(node.model(), models(sorted@)),
{
    let ghost all = models(sorted@);
    let mut i: usize = 0;
    assert(all.skip(0) =~= all);
    while i < sorted.len()
        invariant
            i <= sorted@.len(),
            all == models(sorted@),
            slot_for(node.model(), all) == i + slot_for(node.model(), all.skip(i as int)),
        decreases sorted@.len() - i,
    {
        if !comes_before(&sorted[i], node) {
            return i;
        }
        assert(all.skip(i as int).drop_first() =~= all.skip(i + 1));
        i += 1;
    }
    i
}

/// Sorts the nodes and their subtrees.
fn sort_tree(nodes: &mut Vec<MailboxNode>)
    ensures
        models(final(nodes)@) == sorted_nodes(models(old(nodes)@)),
    decreases *old(nodes),
{
    let ghost all = nodes@;
    let mut sorted: Vec<MailboxNode> = Vec::new();
    assert(models(sorted@) =~= sorted_nodes(models(all).skip(all.len() as int)));
    assert(nodes@ =~= all.take(nodes@.len() as int));
    while nodes.len() > 0
        invariant
            all == old(nodes)@,
            nodes@.len() <= all.len(),
            nodes@ == all.take(nodes@.len() as int),
            models(sorted@) == sorted_nodes(models(all).skip(nodes@.len() as int)),
        decreases nodes@.len(),
    {
        let ghost k = nodes@.len() - 1;
        let ghost held = models(sorted@);
        let ghost tail = models(all).skip(k);
        if let Some(node) = nodes.pop() {
            let mut node = node;
            let ghost fresh = node;
            assert(node == all[k]);
            proof {
                assert(decreases_to!(*old(nodes) => old(nodes)@));
                assert(decreases_to!(old(nodes)@ => old(nodes)@[k]));
                assert(decreases_to!(node => node.children));
            }
            sort_tree(&mut node.children);
            proof {
                lemma_children(fresh);
                lemma_children(node);
                assert(node.model() =~= sorted_node(fresh.model()));
            }
            let slot: usize = find_slot(&node, &sorted);
            sorted.insert(slot, node);
            proof {
                assert(tail.drop_first() =~= models(all).skip(k + 1));
                assert(tail.first() == fresh.model());
                assert(models(sorted@) =~= held.insert(slot as int, node.model()));
                assert(nodes@ =~= all.take(nodes@.len() as int));
            }
        }
    }
    proof {
        assert(models(all).skip(0) =~= models(all));
    }
    *nodes = sorted;
}

/// Turns the mailboxes of a `LIST` response into a tree: names are split on
/// their delimiter, and siblings are sorted with the well-known folders first.
pub fn mailbox_tree(mailboxes: &[MailboxInfo]) -> (r: Vec<MailboxNode>)
    ensures
        models(r@) == tree_of(mailboxes.deep_view()),
        height(models(r@)) <= usize::MAX,
{
    let ghost all = mailboxes.deep_view();
    let mut roots: Vec<MailboxNode> = Vec::new();
    let mut i: usize = 0;
    assert(models(roots@) =~= grown(all.take(0)));
    while i < mailboxes.len()
        invariant
            i <= mailboxes@.len(),
            all == mailboxes.deep_view(),
            models(roots@) == grown(all.take(i as int)),
            height(models(roots@)) <= usize::MAX,
        decreases mailboxes@.len() - i,
    {
        let segments = path_segments(&mailboxes[i]);
        let levels: usize = segments.len();
        proof {
            assert(segments.deep_view().len() == levels);
            lemma_height_inserted(
                models(roots@),
                segments.deep_view(),
                mailboxes@[i as int]@,
                usize::MAX as nat,
            );
        }
        insert_path(&mut roots, &segments, 0, &mailboxes[i]);
        assert(segments.deep_view().skip(0) =~= segments.deep_view());
        assert(all.take(i + 1).drop_last() =~= all.take(i as int));
        i += 1;
    }
    assert(all.take(all.len() as int) =~= all);
    proof {
        lemma_height_sorted(models(roots@), usize::MAX as nat);
    }
    sort_tree(&mut roots);
    roots
}

// ── Rows ────────────────────────────────────────────────────────────────────

/// One row of the folder list.
#[derive(Debug, PartialEq, Eq)]
pub struct MailboxRow {
    pub depth: usize,
    /// The labels from the root down to this node, tab-separated: what a
    /// folded folder is remembered by.
    pub key: String,
    pub label: String,
    /// `None` for a node with no mailbox of its own, which cannot be selected.
    pub full_name: Option<String>,
    pub special_use: Option<SpecialUse>,
    pub has_children: bool,
}

/// What a [`MailboxRow`] holds.
#[verifier::ext_equal]
pub struct RowModel {
    pub depth: nat,
    pub key: Text,
    pub label: Text,
    pub full_name: Option<Text>,
    pub special_use: Option<SpecialUse>,
    pub has_children: bool,
}

impl View for MailboxRow {
    type V = RowModel;

    open spec fn view(&self) -> RowModel {
        RowModel {
            depth: self.depth as nat,
            key: self.key@,
            label: self.label@,
            full_name: self.full_name.deep_view(),
            special_use: self.special_use,
            has_children: self.has_children,
        }
    }
}

impl DeepView for MailboxRow {
    type V = RowModel;

    open spec fn deep_view(&self) -> RowModel {
        self.view()
    }
}

impl Clone for MailboxRow {
    fn clone(&self) -> (r: Self)
        ensures
            r@ == self@,
    {
        MailboxRow {
            depth: self.depth,
            key: self.key.clone(),
            label: self.label.clone(),
            full_name: match &self.full_name {
                Some(name) => Some(name.clone()),
                None => None,
            },
            special_use: self.special_use,
            has_children: self.has_children,
        }
    }
}

/// A node's key under its parent's key.
pub open spec fn key_of(parent: Option<Text>, label: Text) -> Text {
    match parent {
        Some(p) => p + "\t"@ + label,
        None => label,
    }
}

/// The row of one node.
pub open spec fn row_of(node: NodeModel, depth: nat, parent: Option<Text>) -> RowModel {
    RowModel {
        depth,
        key: key_of(parent, node.label),
        label: node.label,
        full_name: node.full_name,
        special_use: node.special_use,
        has_children: node.children.len() > 0,
    }
}

/// The rows of a node and its subtree, the node first.
pub open spec fn node_rows(node: NodeModel, depth: nat, parent: Option<Text>) -> Seq<RowModel>
    decreases node, 0nat,
{
    seq![row_of(node, depth, parent)] + rows_of(
        node.children,
        depth + 1,
        Some(key_of(parent, node.label)),
    )
}

/// The rows of a list of nodes, depth first, in the order of the list.
pub open spec fn rows_of(nodes: Seq<NodeModel>, depth: nat, parent: Option<Text>) -> Seq<RowModel>
    decreases nodes, nodes.len(),
{
    if nodes.len() == 0 {
        seq![]
    } else {
        rows_of(nodes.drop_last(), depth, parent) + node_rows(nodes.last(), depth, parent)
    }
}

/// Flattens a tree depth first, in the order the tree is in.
pub fn flatten_tree(nodes: &[MailboxNode]) -> (r: Vec<MailboxRow>)
    requires
        height(models(nodes@)) <= usize::MAX,
    ensures
        r.deep_view() == rows_of(models(nodes@), 0, None),
{
    let mut rows: Vec<MailboxRow> = Vec::new();
    assert(rows.deep_view() =~= Seq::<RowModel>::empty());
    flatten_into(nodes, 0, None, &mut rows);
    assert(rows.deep_view() =~= rows_of(models(nodes@), 0, None));
    rows
}

/// Appends the rows of a list of nodes.
fn flatten_into(
    nodes: &[MailboxNode],
    depth: usize,
    parent: Option<&String>,
    rows: &mut Vec<MailboxRow>,
)
    requires
        depth + height(models(nodes@)) <= usize::MAX,
    ensures
        final(rows).deep_view() == old(rows).deep_view() + rows_of(
            models(nodes@),
            depth as nat,
            match parent {
                Some(p) => Some(p@),
                None => None,
            },
        ),
    decreases nodes@,
{
    let ghost all = models(nodes@);
    let ghost start = rows.deep_view();
    let ghost up: Option<Text> = match parent {
        Some(p) => Some(p@),
        None => None,
    };
    let mut i: usize = 0;
    assert(start + rows_of(all.take(0), depth as nat, up) =~= start);
    while i < nodes.len()
        invariant
            i <= nodes@.len(),
            all == models(nodes@),
            depth + height(all) <= usize::MAX,
            up == (match parent {
                Some(p) => Some(p@),
                None => None::<Text>,
            }),
            rows.deep_view() == start + rows_of(all.take(i as int), depth as nat, up),
        decreases nodes@.len() - i,
    {
        let ghost held = rows.deep_view();
        let node = &nodes[i];
        let mut key = String::new();
        if let Some(p) = parent {
            key.append(p.as_str());
            key.append("\t");
        }
        key.append(node.label.as_str());
        assert(key@ =~= key_of(up, node.label@));
        let row = MailboxRow {
            depth,
            key: key.clone(),
            label: node.label.clone(),
            full_name: match &node.full_name {
                Some(name) => Some(name.clone()),
                None => None,
            },
            special_use: node.special_use,
            has_children: node.children.len() > 0,
        };
        proof {
            lemma_children(*node);
            lemma_height_member(all, i as int);
        }
        assert(row@ =~= row_of(node.model(), depth as nat, up));
        rows.push(row);
        assert(rows.deep_view() =~= held.push(row@));
        assert(decreases_to!(nodes@ => nodes@[i as int]));
        assert(decreases_to!(*node => node.children));
        assert(decreases_to!(node.children => node.children@));
        flatten_into(node.children.as_slice(), depth + 1, Some(&key), rows);
        proof {
            assert(all.take(i + 1).drop_last() =~= all.take(i as int));
            let below = rows_of(node.model().children, (depth + 1) as nat, Some(key@));
            assert(held.push(row@) + below =~= held + (seq![row@] + below));
            assert(held + node_rows(node.model(), depth as nat, up) =~= start + (rows_of(
                all.take(i as int),
                depth as nat,
                up,
            ) + node_rows(node.model(), depth as nat, up)));
        }
        i += 1;
    }
    assert(all.take(all.len() as int) =~= all);
}

// ── Folding and lookup ──────────────────────────────────────────────────────

/// Whether row `i` lies in the subtree of row `j`.
pub open spec fn is_below(rows: Seq<RowModel>, j: int, i: int) -> bool {
    0 <= j < i < rows.len() && forall|k: int|
        j < k <= i ==> (#[trigger] rows[k]).depth > rows[j].depth
}

/// Whether a row is a folder that the user has folded.
pub open spec fn is_folded(row: RowModel, folded: Seq<Text>) -> bool {
    row.has_children && folded.contains(row.key)
}

/// Whether row `i` lies under a folded folder.
pub open spec fn is_hidden(rows: Seq<RowModel>, folded: Seq<Text>, i: int) -> bool {
    exists|j: int| #[trigger] is_below(rows, j, i) && is_folded(rows[j], folded)
}

/// The positions below `n` of the rows that no folded folder hides.
pub open spec fn visible(rows: Seq<RowModel>, folded: Seq<Text>, n: nat) -> Seq<int>
    decreases n,
{
    if n == 0 {
        seq![]
    } else if is_hidden(rows, folded, n - 1) {
        visible(rows, folded, (n - 1) as nat)
    } else {
        visible(rows, folded, (n - 1) as nat).push(n - 1)
    }
}

/// Whether a list of strings holds a text.
pub fn lists(v: &Vec<String>, s: &String) -> (r: bool)
    ensures
        r == v.deep_view().contains(s@),
{
    let ghost all = v.deep_view();
    let mut i: usize = 0;
    while i < v.len()
        invariant
            i <= v@.len(),
            all == v.deep_view(),
            forall|j: int| 0 <= j < i ==> #[trigger] all[j] != s@,
        decreases v@.len() - i,
    {
        if v[i] == *s {
            assert(all[i as int] == s@);
            return true;
        }
        i += 1;
    }
    false
}

/// The positions of the rows to show when the folders with the keys `folded`
/// are folded: every row but those under a folded folder.
pub fn visible_rows(rows: &Vec<MailboxRow>, folded: &Vec<String>) -> (r: Vec<usize>)
    ensures
        Seq::new(r@.len(), |i: int| r@[i] as int) == visible(
            rows.deep_view(),
            folded.deep_view(),
            rows@.len(),
        ),
{
    let ghost all = rows.deep_view();
    let ghost keys = folded.deep_view();
    let mut r: Vec<usize> = Vec::new();
    // The depth of the outermost folded folder whose subtree goes on here.
    let mut under: Option<usize> = None;
    let ghost mut top: int = -1;
    let mut i: usize = 0;
    assert(Seq::new(r@.len(), |i: int| r@[i] as int) =~= visible(all, keys, 0));
    while i < rows.len()
        invariant
            i <= rows@.len(),
            all == rows.deep_view(),
            keys == folded.deep_view(),
            Seq::new(r@.len(), |i: int| r@[i] as int) == visible(all, keys, i as nat),
            under is Some ==> 0 <= top < i && is_folded(all[top], keys) && all[top].depth == under->0
                && forall|k: int| top < k < i ==> (#[trigger] all[k]).depth > all[top].depth,
            forall|j: int|
                0 <= j < i && is_folded(#[trigger] all[j], keys) && (forall|k: int|
                    j < k < i ==> (#[trigger] all[k]).depth > all[j].depth) ==> under is Some
                    && all[j].depth >= under->0,
        decreases rows@.len() - i,
    {
        let row = &rows[i];
        let ghost held = Seq::new(r@.len(), |i: int| r@[i] as int);
        let hidden = match under {
            Some(d) => row.depth > d,
            None => false,
        };
        proof {
            assert(all[i as int] == row@);
            if hidden {
                assert(is_below(all, top, i as int));
            } else {
                assert forall|j: int| !(#[trigger] is_below(all, j, i as int) && is_folded(
                    all[j],
                    keys,
                )) by {
                    if is_below(all, j, i as int) && is_folded(all[j], keys) {
                        assert(all[i as int].depth > all[j].depth);
                    }
                }
            }
            assert(hidden == is_hidden(all, keys, i as int));
        }
        if !hidden {
            r.push(i);
            assert(Seq::new(r@.len(), |i: int| r@[i] as int) =~= held.push(i as int));
            if row.has_children && lists(folded, &row.key) {
                under = Some(row.depth);
                proof {
                    top = i as int;
                }
            } else {
                under = None;
            }
        }
        i += 1;
    }
    r
}

/// Where the subtree of row `index` ends: the first later row that is not
/// deeper, or the end of the list.
pub open spec fn subtree_end(rows: Seq<RowModel>, index: int, from: int) -> int
    decreases rows.len() - from,
{
    if from >= rows.len() || rows[from].depth <= rows[index].depth {
        from
    } else {
        subtree_end(rows, index, from + 1)
    }
}

/// The end of the subtree of row `index`: its descendants are the rows from
/// `index + 1` up to there.
pub fn descendants_end(rows: &Vec<MailboxRow>, index: usize) -> (r: usize)
    requires
        index < rows@.len(),
    ensures
        index < r <= rows@.len(),
        r == subtree_end(rows.deep_view(), index as int, index + 1),
{
    let n: usize = rows.len();
    let mut i: usize = index + 1;
    while i < n && rows[i].depth > rows[index].depth
        invariant
            n == rows@.len(),
            index < i <= rows@.len(),
            subtree_end(rows.deep_view(), index as int, index + 1) == subtree_end(
                rows.deep_view(),
                index as int,
                i as int,
            ),
        ensures
            index < i <= rows@.len(),
            subtree_end(rows.deep_view(), index as int, index + 1) == subtree_end(
                rows.deep_view(),
                index as int,
                i as int,
            ),
            i < rows@.len() ==> rows@[i as int].depth <= rows@[index as int].depth,
        decreases rows@.len() - i,
    {
        i += 1;
    }
    i
}

/// The mailbox of the first row with the role `want`, or `default` if there is
/// no such row or it names no mailbox.
pub open spec fn mailbox_for(rows: Seq<RowModel>, want: SpecialUse, default: Text) -> Text
    decreases rows.len(),
{
    if rows.len() == 0 {
        default
    } else if rows.first().special_use == Some(want) {
        match rows.first().full_name {
            Some(name) => name,
            None => default,
        }
    } else {
        mailbox_for(rows.drop_first(), want, default)
    }
}

/// The mailbox that has a special role, falling back to a conventional name
/// when no row has it.
pub fn find_special_use_mailbox(rows: &[MailboxRow], want: SpecialUse, default: &str) -> (r: String)
    ensures
        r@ == mailbox_for(rows.deep_view(), want, default@),
{
    let ghost all = rows.deep_view();
    let mut i: usize = 0;
    assert(all.skip(0) =~= all);
    while i < rows.len()
        invariant
            i <= rows@.len(),
            all == rows.deep_view(),
            mailbox_for(all, want, default@) == mailbox_for(all.skip(i as int), want, default@),
        decreases rows@.len() - i,
    {
        assert(all.skip(i as int).first() == rows@[i as int]@);
        let found = match rows[i].special_use {
            Some(u) => u == want,
            None => false,
        };
        if found {
            return match &rows[i].full_name {
                Some(name) => name.clone(),
                None => default.to_owned(),
            };
        }
        assert(all.skip(i as int).drop_first() =~= all.skip(i + 1));
        i += 1;
    }
    default.to_owned()
}

} // verus!
