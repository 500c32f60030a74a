//! What holds of every folder tree: siblings are sorted and distinct, it has the
//! folders on the way to each mailbox and no other, each selectable mailbox is
//! found at its path, and rows name nothing else.

use vstd::prelude::*;
use crate::imap::{MailboxInfoModel, SpecialUse};
use crate::mailboxes;
use crate::mailboxes::{NodeModel, RowModel};
use crate::text;
use crate::text::Text;

verus! {

// ── Order ───────────────────────────────────────────────────────────────────

/// Text order is asymmetric.
proof fn lemma_less_asymmetric(a: Text, b: Text)
    requires
        mailboxes::text_less(a, b),
    ensures
        !mailboxes::text_less(b, a),
    decreases a.len(),
{
    if a.len() > 0 && a.first() == b.first() {
        lemma_less_asymmetric(a.drop_first(), b.drop_first());
    }
}

/// What is less than `b` is less than everything that is not less than `b`.
proof fn lemma_less_cotransitive(a: Text, b: Text, c: Text)
    requires
        mailboxes::text_less(a, b),
        !mailboxes::text_less(c, b),
    ensures
        mailboxes::text_less(a, c),
    decreases a.len(),
{
    if a.len() > 0 && c.len() > 0 && a.first() == b.first() && b.first() == c.first() {
        lemma_less_cotransitive(a.drop_first(), b.drop_first(), c.drop_first());
    }
}

/// Sibling order is asymmetric.
proof fn lemma_before_asymmetric(a: NodeModel, b: NodeModel)
    requires
        mailboxes::sorts_before(a, b),
    ensures
        !mailboxes::sorts_before(b, a),
{
    if mailboxes::rank(a.special_use) == mailboxes::rank(b.special_use) {
        lemma_less_asymmetric(text::lower(a.label), text::lower(b.label));
    }
}

/// What sorts before `b` sorts before everything that does not.
proof fn lemma_before_cotransitive(a: NodeModel, b: NodeModel, c: NodeModel)
    requires
        mailboxes::sorts_before(a, b),
        !mailboxes::sorts_before(c, b),
    ensures
        mailboxes::sorts_before(a, c),
{
    if mailboxes::rank(a.special_use) == mailboxes::rank(b.special_use) && mailboxes::rank(
        b.special_use,
    ) == mailboxes::rank(c.special_use) {
        lemma_less_cotransitive(
            text::lower(a.label),
            text::lower(b.label),
            text::lower(c.label),
        );
    }
}

/// No later sibling sorts before an earlier one.
pub open spec fn siblings_sorted(nodes: Seq<NodeModel>) -> bool {
    forall|i: int, j: int|
        0 <= i < j < nodes.len() ==> !mailboxes::sorts_before(#[trigger] nodes[j], #[trigger] nodes[i])
}

/// Siblings are sorted on every level.
pub open spec fn all_sorted(nodes: Seq<NodeModel>) -> bool
    decreases nodes,
{
    &&& siblings_sorted(nodes)
    &&& forall|i: int| 0 <= i < nodes.len() ==> all_sorted((#[trigger] nodes[i]).children)
}

/// Everything before a node's slot sorts before it; what stands there does not.
proof fn lemma_slot(node: NodeModel, sorted: Seq<NodeModel>)
    ensures
        0 <= mailboxes::slot_for(node, sorted) <= sorted.len(),
        forall|i: int|
            0 <= i < mailboxes::slot_for(node, sorted) ==> mailboxes::sorts_before(
                #[trigger] sorted[i],
                node,
            ),
        mailboxes::slot_for(node, sorted) < sorted.len() ==> !mailboxes::sorts_before(
            sorted[mailboxes::slot_for(node, sorted)],
            node,
        ),
    decreases sorted.len(),
{
    if sorted.len() > 0 && mailboxes::sorts_before(sorted.first(), node) {
        let rest = sorted.drop_first();
        lemma_slot(node, rest);
        assert forall|i: int| 0 <= i < mailboxes::slot_for(node, sorted) implies mailboxes::sorts_before(
            #[trigger] sorted[i],
            node,
        ) by {
            if i > 0 {
                assert(sorted[i] == rest[i - 1]);
            }
        }
    }
}

proof fn lemma_sorted_nodes(nodes: Seq<NodeModel>)
    ensures
        all_sorted(mailboxes::sorted_nodes(nodes)),
    decreases nodes, nodes.len(),
{
    if nodes.len() > 0 {
        let rest = mailboxes::sorted_nodes(nodes.drop_first());
        let node = mailboxes::sorted_node(nodes.first());
        lemma_sorted_nodes(nodes.drop_first());
        assert(decreases_to!(nodes => nodes[0]));
        lemma_sorted_nodes(nodes.first().children);
        lemma_slot(node, rest);
        let slot = mailboxes::slot_for(node, rest);
        let out = rest.insert(slot, node);
        assert forall|i: int, j: int| 0 <= i < j < out.len() implies !mailboxes::sorts_before(
            #[trigger] out[j],
            #[trigger] out[i],
        ) by {
            let oi = if i < slot { i } else { i - 1 };
            let oj = if j < slot { j } else { j - 1 };
            if i != slot && j != slot {
                assert(!mailboxes::sorts_before(rest[oj], rest[oi]));
            } else if j == slot {
                lemma_before_asymmetric(rest[i], node);
            } else {
                if mailboxes::sorts_before(rest[oj], node) {
                    lemma_before_cotransitive(rest[oj], node, rest[slot]);
                    if oj > slot {
                        assert(!mailboxes::sorts_before(rest[oj], rest[slot]));
                    }
                }
            }
        }
        assert forall|i: int| 0 <= i < out.len() implies all_sorted(
            (#[trigger] out[i]).children,
        ) by {
            if i < slot {
                assert(all_sorted(rest[i].children));
            } else if i > slot {
                assert(all_sorted(rest[i - 1].children));
            }
        }
    }
}

/// In every folder tree the siblings of each level are sorted: the inbox
/// first, then the other well-known folders in their fixed order, then the
/// rest by label.
pub proof fn law_tree_is_sorted(mailboxes: Seq<MailboxInfoModel>)
    ensures
        all_sorted(mailboxes::tree_of(mailboxes)),
{
    lemma_sorted_nodes(mailboxes::grown(mailboxes));
}

// ── Distinct labels ─────────────────────────────────────────────────────────

/// No two siblings share a label.
pub open spec fn labels_distinct(nodes: Seq<NodeModel>) -> bool {
    forall|i: int, j: int|
        0 <= i < j < nodes.len() ==> (#[trigger] nodes[i]).label != (#[trigger] nodes[j]).label
}

/// No two siblings share a label on any level.
pub open spec fn all_distinct(nodes: Seq<NodeModel>) -> bool
    decreases nodes,
{
    &&& labels_distinct(nodes)
    &&& forall|i: int| 0 <= i < nodes.len() ==> all_distinct((#[trigger] nodes[i]).children)
}

proof fn lemma_distinct_inserted(nodes: Seq<NodeModel>, path: Seq<Text>, mb: MailboxInfoModel)
    requires
        all_distinct(nodes),
    ensures
        all_distinct(mailboxes::inserted(nodes, path, mb)),
    decreases path.len(),
{
    if path.len() > 0 {
        let base = mailboxes::with_label(nodes, path.first());
        let slot = mailboxes::label_slot(nodes, path.first());
        let out = mailboxes::inserted(nodes, path, mb);
        mailboxes::lemma_label_index_range(nodes, path.first());
        assert(all_distinct(Seq::<NodeModel>::empty()));
        assert(all_distinct(base[slot].children));
        if path.len() > 1 {
            lemma_distinct_inserted(base[slot].children, path.drop_first(), mb);
        }
        assert forall|i: int, j: int| 0 <= i < j < out.len() implies (#[trigger] out[i]).label != (
        #[trigger] out[j]).label by {
            assert(out[i].label == base[i].label);
            assert(out[j].label == base[j].label);
            if j < nodes.len() {
                assert(nodes[i].label != nodes[j].label);
            }
        }
        assert forall|i: int| 0 <= i < out.len() implies all_distinct(
            (#[trigger] out[i]).children,
        ) by {
            if i != slot {
                assert(all_distinct(nodes[i].children));
            }
        }
    }
}

proof fn lemma_distinct_grown(mailboxes: Seq<MailboxInfoModel>)
    ensures
        all_distinct(mailboxes::grown(mailboxes)),
    decreases mailboxes.len(),
{
    if mailboxes.len() > 0 {
        lemma_distinct_grown(mailboxes.drop_last());
        lemma_distinct_inserted(
            mailboxes::grown(mailboxes.drop_last()),
            mailboxes::path_of(mailboxes.last()),
            mailboxes.last(),
        );
    }
}

/// The sibling with the given label.
pub open spec fn child(nodes: Seq<NodeModel>, label: Text) -> Option<NodeModel> {
    if mailboxes::label_index(nodes, label) >= 0 {
        Some(nodes[mailboxes::label_index(nodes, label)])
    } else {
        None
    }
}

/// Among siblings with distinct labels each is found by its own label.
proof fn lemma_child_at(nodes: Seq<NodeModel>, i: int)
    requires
        labels_distinct(nodes),
        0 <= i < nodes.len(),
    ensures
        child(nodes, nodes[i].label) == Some(nodes[i]),
{
    mailboxes::lemma_label_index_range(nodes, nodes[i].label);
}

/// Sorting siblings with distinct labels keeps the labels distinct and finds
/// the same node under each label.
proof fn lemma_sorted_child(nodes: Seq<NodeModel>, label: Text)
    requires
        labels_distinct(nodes),
    ensures
        labels_distinct(mailboxes::sorted_nodes(nodes)),
        child(mailboxes::sorted_nodes(nodes), label) == match child(nodes, label) {
            Some(n) => Some(mailboxes::sorted_node(n)),
            None => None,
        },
    decreases nodes.len(),
{
    if nodes.len() > 0 {
        let tail = nodes.drop_first();
        let rest = mailboxes::sorted_nodes(tail);
        let node = mailboxes::sorted_node(nodes.first());
        let out = mailboxes::sorted_nodes(nodes);
        assert forall|i: int, j: int| 0 <= i < j < tail.len() implies (#[trigger] tail[i]).label != (
        #[trigger] tail[j]).label by {
            assert(nodes[i + 1].label != nodes[j + 1].label);
        }
        lemma_sorted_child(tail, label);
        lemma_sorted_child(tail, node.label);
        lemma_slot(node, rest);
        let slot = mailboxes::slot_for(node, rest);
        assert(out == rest.insert(slot, node));
        mailboxes::lemma_label_index_range(tail, node.label);
        if mailboxes::label_index(tail, node.label) >= 0 {
            let k = mailboxes::label_index(tail, node.label);
            assert(nodes[0].label != nodes[k + 1].label);
        }
        mailboxes::lemma_label_index_range(rest, node.label);
        assert forall|i: int, j: int| 0 <= i < j < out.len() implies (#[trigger] out[i]).label != (
        #[trigger] out[j]).label by {
            let oi = if i < slot { i } else { i - 1 };
            let oj = if j < slot { j } else { j - 1 };
            if i == slot {
                assert(rest[oj].label != node.label);
            } else if j == slot {
                assert(rest[oi].label != node.label);
            } else {
                assert(rest[oi].label != rest[oj].label);
            }
        }
        if label == node.label {
            lemma_child_at(nodes, 0);
            assert(out[slot] == node);
            lemma_child_at(out, slot);
        } else {
            mailboxes::lemma_label_index_range(tail, label);
            mailboxes::lemma_label_index_range(rest, label);
            mailboxes::lemma_label_index_range(nodes, label);
            mailboxes::lemma_label_index_range(out, label);
            if child(tail, label) is Some {
                let k = mailboxes::label_index(tail, label);
                lemma_child_at(nodes, k + 1);
                let m = mailboxes::label_index(rest, label);
                let o = if m < slot { m } else { m + 1 };
                assert(out[o] == rest[m]);
                lemma_child_at(out, o);
            } else {
                if mailboxes::label_index(nodes, label) >= 0 {
                    let k = mailboxes::label_index(nodes, label);
                    assert(tail[k - 1].label == label);
                }
                if mailboxes::label_index(out, label) >= 0 {
                    let o = mailboxes::label_index(out, label);
                    let m = if o < slot { o } else { o - 1 };
                    assert(o != slot);
                    assert(rest[m].label == label);
                }
            }
        }
    }
}

proof fn lemma_distinct_sorted(nodes: Seq<NodeModel>)
    requires
        all_distinct(nodes),
    ensures
        all_distinct(mailboxes::sorted_nodes(nodes)),
    decreases nodes, nodes.len(),
{
    lemma_sorted_child(nodes, seq![]);
    if nodes.len() > 0 {
        let tail = nodes.drop_first();
        let rest = mailboxes::sorted_nodes(tail);
        let node = mailboxes::sorted_node(nodes.first());
        assert forall|i: int, j: int| 0 <= i < j < tail.len() implies (#[trigger] tail[i]).label != (
        #[trigger] tail[j]).label by {
            assert(nodes[i + 1].label != nodes[j + 1].label);
        }
        assert forall|i: int| 0 <= i < tail.len() implies all_distinct(
            (#[trigger] tail[i]).children,
        ) by {
            assert(all_distinct(nodes[i + 1].children));
        }
        lemma_distinct_sorted(tail);
        assert(decreases_to!(nodes => nodes[0]));
        assert(all_distinct(nodes[0].children));
        lemma_distinct_sorted(nodes.first().children);
        lemma_slot(node, rest);
        let slot = mailboxes::slot_for(node, rest);
        let out = rest.insert(slot, node);
        assert forall|i: int| 0 <= i < out.len() implies all_distinct(
            (#[trigger] out[i]).children,
        ) by {
            if i < slot {
                assert(all_distinct(rest[i].children));
            } else if i > slot {
                assert(all_distinct(rest[i - 1].children));
            }
        }
    }
}

/// In every folder tree no two siblings share a label: mailboxes with a common
/// path prefix share the nodes of that prefix.
pub proof fn law_tree_labels_are_distinct(mailboxes: Seq<MailboxInfoModel>)
    ensures
        all_distinct(mailboxes::tree_of(mailboxes)),
{
    lemma_distinct_grown(mailboxes);
    lemma_distinct_sorted(mailboxes::grown(mailboxes));
}

// ── Every mailbox at its path ───────────────────────────────────────────────

/// The node at a path.
pub open spec fn node_at(nodes: Seq<NodeModel>, path: Seq<Text>) -> Option<NodeModel>
    decreases path.len(),
{
    if path.len() == 0 {
        None
    } else if path.len() == 1 {
        child(nodes, path.first())
    } else {
        match child(nodes, path.first()) {
            Some(n) => node_at(n.children, path.drop_first()),
            None => None,
        }
    }
}

/// The mailbox that can be selected at a path.
pub open spec fn name_at(nodes: Seq<NodeModel>, path: Seq<Text>) -> Option<Text> {
    match node_at(nodes, path) {
        Some(n) => n.full_name,
        None => None,
    }
}

/// The role of the mailbox at a path.
pub open spec fn use_at(nodes: Seq<NodeModel>, path: Seq<Text>) -> Option<SpecialUse> {
    match node_at(nodes, path) {
        Some(n) => n.special_use,
        None => None,
    }
}

/// The name of the last selectable mailbox listed with a path.
pub open spec fn listed_name(mailboxes: Seq<MailboxInfoModel>, path: Seq<Text>) -> Option<Text>
    decreases mailboxes.len(),
{
    if mailboxes.len() == 0 {
        None
    } else if mailboxes::path_of(mailboxes.last()) == path && !mailboxes.last().noselect {
        Some(mailboxes.last().name)
    } else {
        listed_name(mailboxes.drop_last(), path)
    }
}

/// The role of the last mailbox listed with a path.
pub open spec fn listed_use(mailboxes: Seq<MailboxInfoModel>, path: Seq<Text>) -> Option<SpecialUse>
    decreases mailboxes.len(),
{
    if mailboxes.len() == 0 {
        None
    } else if mailboxes::path_of(mailboxes.last()) == path {
        mailboxes.last().special_use
    } else {
        listed_use(mailboxes.drop_last(), path)
    }
}

/// Putting a mailbox in changes what stands at its own path and nothing else.
proof fn lemma_inserted_at(
    nodes: Seq<NodeModel>,
    path: Seq<Text>,
    mb: MailboxInfoModel,
    at: Seq<Text>,
)
    requires
        all_distinct(nodes),
        at.len() > 0,
    ensures
        name_at(mailboxes::inserted(nodes, path, mb), at) == if at == path && !mb.noselect {
            Some(mb.name)
        } else {
            name_at(nodes, at)
        },
        use_at(mailboxes::inserted(nodes, path, mb), at) == if at == path {
            mb.special_use
        } else {
            use_at(nodes, at)
        },
    decreases path.len(),
{
    if path.len() > 0 {
        let base = mailboxes::with_label(nodes, path.first());
        let slot = mailboxes::label_slot(nodes, path.first());
        let out = mailboxes::inserted(nodes, path, mb);
        mailboxes::lemma_label_index_range(nodes, path.first());
        lemma_distinct_inserted(nodes, path, mb);
        assert(out[slot].label == path.first());
        lemma_child_at(out, slot);
        if at.first() != path.first() {
            mailboxes::lemma_label_index_range(nodes, at.first());
            mailboxes::lemma_label_index_range(out, at.first());
            if child(nodes, at.first()) is Some {
                let k = mailboxes::label_index(nodes, at.first());
                assert(out[k] == nodes[k]);
                lemma_child_at(out, k);
            } else {
                if mailboxes::label_index(out, at.first()) >= 0 {
                    let k = mailboxes::label_index(out, at.first());
                    assert(k != slot);
                    assert(out[k] == nodes[k]);
                }
            }
        } else {
            assert(child(out, at.first()) == Some(out[slot]));
            if path.len() == 1 {
                assert(at.len() == 1 ==> at =~= path);
                if at.len() > 1 {
                    assert(out[slot].children == base[slot].children);
                    lemma_bare_below(nodes, path.first(), at);
                }
            } else {
                assert(all_distinct(base[slot].children)) by {
                    assert(all_distinct(Seq::<NodeModel>::empty()));
                }
                if at.len() == 1 {
                    assert(out[slot].full_name == base[slot].full_name);
                } else {
                    lemma_inserted_at(base[slot].children, path.drop_first(), mb, at.drop_first());
                    lemma_bare_below(nodes, path.first(), at);
                    if at.drop_first() == path.drop_first() {
                        assert forall|k: int| 0 <= k < at.len() implies at[k] == path[k] by {
                            if k > 0 {
                                assert(at[k] == at.drop_first()[k - 1]);
                                assert(path[k] == path.drop_first()[k - 1]);
                            }
                        }
                        assert(at =~= path);
                    }
                }
            }
        }
    }
}

/// A node made for a label has nothing below it.
proof fn lemma_bare_below(nodes: Seq<NodeModel>, label: Text, at: Seq<Text>)
    requires
        at.len() > 1,
        at.first() == label,
    ensures
        node_at(nodes, at) == node_at(
            mailboxes::with_label(nodes, label)[mailboxes::label_slot(nodes, label)].children,
            at.drop_first(),
        ),
{
    mailboxes::lemma_label_index_range(nodes, label);
    if mailboxes::label_index(nodes, label) < 0 {
        let none = Seq::<NodeModel>::empty();
        assert(child(none, at.drop_first().first()) is None);
    }
}

proof fn lemma_grown_at(mailboxes: Seq<MailboxInfoModel>, at: Seq<Text>)
    requires
        at.len() > 0,
    ensures
        name_at(mailboxes::grown(mailboxes), at) == listed_name(mailboxes, at),
        use_at(mailboxes::grown(mailboxes), at) == listed_use(mailboxes, at),
    decreases mailboxes.len(),
{
    if mailboxes.len() == 0 {
        assert(child(seq![], at.first()) is None);
    } else {
        lemma_grown_at(mailboxes.drop_last(), at);
        lemma_distinct_grown(mailboxes.drop_last());
        lemma_inserted_at(
            mailboxes::grown(mailboxes.drop_last()),
            mailboxes::path_of(mailboxes.last()),
            mailboxes.last(),
            at,
        );
    }
}

proof fn lemma_sorted_at(nodes: Seq<NodeModel>, at: Seq<Text>)
    requires
        all_distinct(nodes),
    ensures
        node_at(mailboxes::sorted_nodes(nodes), at) == match node_at(nodes, at) {
            Some(n) => Some(mailboxes::sorted_node(n)),
            None => None,
        },
    decreases at.len(),
{
    if at.len() > 0 {
        lemma_sorted_child(nodes, at.first());
        if at.len() > 1 && child(nodes, at.first()) is Some {
            mailboxes::lemma_label_index_range(nodes, at.first());
            let n = nodes[mailboxes::label_index(nodes, at.first())];
            assert(all_distinct(n.children));
            lemma_sorted_at(n.children, at.drop_first());
        }
    }
}

/// At each path the folder tree has the name of the last selectable mailbox
/// that was listed with that path, and no name where there is none: a
/// `\Noselect` mailbox is treated like one that was never listed. The role is
/// that of the last mailbox listed with the path.
pub proof fn law_tree_finds_each_mailbox(mailboxes: Seq<MailboxInfoModel>, path: Seq<Text>)
    requires
        path.len() > 0,
    ensures
        name_at(mailboxes::tree_of(mailboxes), path) == listed_name(mailboxes, path),
        use_at(mailboxes::tree_of(mailboxes), path) == listed_use(mailboxes, path),
{
    lemma_distinct_grown(mailboxes);
    lemma_grown_at(mailboxes, path);
    lemma_sorted_at(mailboxes::grown(mailboxes), path);
}

/// Whether a path leads to another or is that other: a part of it from its
/// start, and not nothing.
pub open spec fn leads_to(at: Seq<Text>, path: Seq<Text>) -> bool {
    0 < at.len() <= path.len() && path.take(at.len() as int) == at
}

/// Putting a mailbox in makes the nodes on the way to it and no other.
proof fn lemma_inserted_exists(
    nodes: Seq<NodeModel>,
    path: Seq<Text>,
    mb: MailboxInfoModel,
    at: Seq<Text>,
)
    requires
        all_distinct(nodes),
        at.len() > 0,
    ensures
        node_at(mailboxes::inserted(nodes, path, mb), at) is Some <==> node_at(nodes, at) is Some
            || leads_to(at, path),
    decreases path.len(),
{
    if path.len() > 0 {
        let base = mailboxes::with_label(nodes, path.first());
        let slot = mailboxes::label_slot(nodes, path.first());
        let out = mailboxes::inserted(nodes, path, mb);
        mailboxes::lemma_label_index_range(nodes, path.first());
        lemma_distinct_inserted(nodes, path, mb);
        assert(out[slot].label == path.first());
        lemma_child_at(out, slot);
        if at.first() != path.first() {
            if leads_to(at, path) {
                assert(path.take(at.len() as int)[0] == path[0]);
            }
            mailboxes::lemma_label_index_range(nodes, at.first());
            mailboxes::lemma_label_index_range(out, at.first());
            if child(nodes, at.first()) is Some {
                let k = mailboxes::label_index(nodes, at.first());
                assert(out[k] == nodes[k]);
                lemma_child_at(out, k);
            } else {
                if mailboxes::label_index(out, at.first()) >= 0 {
                    let k = mailboxes::label_index(out, at.first());
                    assert(k != slot);
                    assert(out[k] == nodes[k]);
                }
            }
        } else {
            assert(child(out, at.first()) == Some(out[slot]));
            if at.len() == 1 {
                assert(path.take(1) =~= at);
            } else {
                lemma_bare_below(nodes, path.first(), at);
                if path.len() == 1 {
                    assert(out[slot].children == base[slot].children);
                } else {
                    assert(all_distinct(base[slot].children)) by {
                        assert(all_distinct(Seq::<NodeModel>::empty()));
                    }
                    let below = path.drop_first();
                    let rest = at.drop_first();
                    lemma_inserted_exists(base[slot].children, below, mb, rest);
                    if leads_to(rest, below) {
                        assert forall|k: int| 0 <= k < at.len() implies at[k] == path[k] by {
                            if k > 0 {
                                assert(rest[k - 1] == below.take(rest.len() as int)[k - 1]);
                            }
                        }
                        assert(path.take(at.len() as int) =~= at);
                    }
                    if leads_to(at, path) {
                        assert forall|k: int| 0 <= k < rest.len() implies rest[k] == below[k] by {
                            assert(at[k + 1] == path.take(at.len() as int)[k + 1]);
                        }
                        assert(below.take(rest.len() as int) =~= rest);
                    }
                }
            }
        }
    }
}

proof fn lemma_grown_exists(list: Seq<MailboxInfoModel>, at: Seq<Text>)
    requires
        at.len() > 0,
    ensures
        node_at(mailboxes::grown(list), at) is Some <==> exists|i: int|
            0 <= i < list.len() && leads_to(at, mailboxes::path_of(#[trigger] list[i])),
    decreases list.len(),
{
    if list.len() == 0 {
        assert(child(seq![], at.first()) is None);
    } else {
        let few = list.drop_last();
        lemma_grown_exists(few, at);
        lemma_distinct_grown(few);
        lemma_inserted_exists(
            mailboxes::grown(few),
            mailboxes::path_of(list.last()),
            list.last(),
            at,
        );
        if node_at(mailboxes::grown(few), at) is Some {
            let i = choose|i: int|
                0 <= i < few.len() && leads_to(at, mailboxes::path_of(#[trigger] few[i]));
            assert(leads_to(at, mailboxes::path_of(list[i])));
        }
        if leads_to(at, mailboxes::path_of(list.last())) {
            assert(leads_to(at, mailboxes::path_of(list[list.len() - 1])));
        }
        if exists|i: int|
            0 <= i < list.len() && leads_to(at, mailboxes::path_of(#[trigger] list[i])) {
            let i = choose|i: int|
                0 <= i < list.len() && leads_to(at, mailboxes::path_of(#[trigger] list[i]));
            if i < few.len() {
                assert(leads_to(at, mailboxes::path_of(few[i])));
            }
        }
    }
}

/// The folder tree has a node at a path exactly when the path leads to a mailbox
/// that was listed, whether or not that mailbox can be selected: each folder on
/// the way to one, and nothing else.
pub proof fn law_tree_has_the_folders_on_the_way(list: Seq<MailboxInfoModel>, path: Seq<Text>)
    requires
        path.len() > 0,
    ensures
        node_at(mailboxes::tree_of(list), path) is Some <==> exists|i: int|
            0 <= i < list.len() && leads_to(path, mailboxes::path_of(#[trigger] list[i])),
{
    lemma_distinct_grown(list);
    lemma_grown_exists(list, path);
    lemma_sorted_at(mailboxes::grown(list), path);
}

// ── Rows ────────────────────────────────────────────────────────────────────

/// Whether a name belongs to a selectable mailbox of the list.
pub open spec fn selectable(mailboxes: Seq<MailboxInfoModel>, name: Text) -> bool {
    exists|k: int|
        0 <= k < mailboxes.len() && (#[trigger] mailboxes[k]).name == name && !mailboxes[k].noselect
}

/// Every name in the tree belongs to a selectable mailbox.
pub open spec fn names_selectable(
    nodes: Seq<NodeModel>,
    mailboxes: Seq<MailboxInfoModel>,
) -> bool
    decreases nodes,
{
    forall|i: int|
        0 <= i < nodes.len() ==> ((#[trigger] nodes[i]).full_name matches Some(name) ==> selectable(
            mailboxes,
            name,
        )) && names_selectable(nodes[i].children, mailboxes)
}

proof fn lemma_names_inserted(
    nodes: Seq<NodeModel>,
    path: Seq<Text>,
    mb: MailboxInfoModel,
    mailboxes: Seq<MailboxInfoModel>,
)
    requires
        names_selectable(nodes, mailboxes),
        !mb.noselect ==> selectable(mailboxes, mb.name),
    ensures
        names_selectable(mailboxes::inserted(nodes, path, mb), mailboxes),
    decreases path.len(),
{
    if path.len() > 0 {
        let base = mailboxes::with_label(nodes, path.first());
        let slot = mailboxes::label_slot(nodes, path.first());
        let out = mailboxes::inserted(nodes, path, mb);
        mailboxes::lemma_label_index_range(nodes, path.first());
        assert(names_selectable(Seq::<NodeModel>::empty(), mailboxes));
        assert(names_selectable(base[slot].children, mailboxes));
        if path.len() > 1 {
            lemma_names_inserted(base[slot].children, path.drop_first(), mb, mailboxes);
        }
        assert forall|i: int| 0 <= i < out.len() implies ((#[trigger] out[i]).full_name matches Some(
            name,
        ) ==> selectable(mailboxes, name)) && names_selectable(out[i].children, mailboxes) by {
            if i < nodes.len() {
                assert(nodes[i].full_name matches Some(name) ==> selectable(mailboxes, name));
            }
        }
    }
}

proof fn lemma_names_more(nodes: Seq<NodeModel>, few: Seq<MailboxInfoModel>, more: MailboxInfoModel)
    requires
        names_selectable(nodes, few),
    ensures
        names_selectable(nodes, few.push(more)),
    decreases nodes,
{
    let all = few.push(more);
    assert forall|i: int| 0 <= i < nodes.len() implies ((#[trigger] nodes[i]).full_name matches Some(
        name,
    ) ==> selectable(all, name)) && names_selectable(nodes[i].children, all) by {
        if let Some(name) = nodes[i].full_name {
            let k = choose|k: int|
                0 <= k < few.len() && (#[trigger] few[k]).name == name && !few[k].noselect;
            assert(all[k] == few[k]);
        }
        assert(decreases_to!(nodes => nodes[i]));
        lemma_names_more(nodes[i].children, few, more);
    }
}

proof fn lemma_names_grown(mailboxes: Seq<MailboxInfoModel>)
    ensures
        names_selectable(mailboxes::grown(mailboxes), mailboxes),
    decreases mailboxes.len(),
{
    if mailboxes.len() > 0 {
        let few = mailboxes.drop_last();
        lemma_names_grown(few);
        lemma_names_more(mailboxes::grown(few), few, mailboxes.last());
        assert(few.push(mailboxes.last()) =~= mailboxes);
        if !mailboxes.last().noselect {
            assert(mailboxes[mailboxes.len() - 1] == mailboxes.last());
        }
        lemma_names_inserted(
            mailboxes::grown(few),
            mailboxes::path_of(mailboxes.last()),
            mailboxes.last(),
            mailboxes,
        );
    }
}

proof fn lemma_names_sorted(nodes: Seq<NodeModel>, mailboxes: Seq<MailboxInfoModel>)
    requires
        names_selectable(nodes, mailboxes),
    ensures
        names_selectable(mailboxes::sorted_nodes(nodes), mailboxes),
    decreases nodes, nodes.len(),
{
    if nodes.len() > 0 {
        let tail = nodes.drop_first();
        let rest = mailboxes::sorted_nodes(tail);
        let node = mailboxes::sorted_node(nodes.first());
        assert forall|i: int| 0 <= i < tail.len() implies ((
        #[trigger] tail[i]).full_name matches Some(name) ==> selectable(mailboxes, name))
            && names_selectable(tail[i].children, mailboxes) by {
            assert(nodes[i + 1] == tail[i]);
        }
        lemma_names_sorted(tail, mailboxes);
        assert(decreases_to!(nodes => nodes[0]));
        assert(nodes[0].full_name matches Some(name) ==> selectable(mailboxes, name));
        lemma_names_sorted(nodes.first().children, mailboxes);
        lemma_slot(node, rest);
        let slot = mailboxes::slot_for(node, rest);
        let out = rest.insert(slot, node);
        assert forall|i: int| 0 <= i < out.len() implies ((#[trigger] out[i]).full_name matches Some(
            name,
        ) ==> selectable(mailboxes, name)) && names_selectable(out[i].children, mailboxes) by {
            if i < slot {
                assert(rest[i] == out[i]);
            } else if i > slot {
                assert(rest[i - 1] == out[i]);
            }
        }
    }
}

proof fn lemma_names_rows(
    nodes: Seq<NodeModel>,
    depth: nat,
    parent: Option<Text>,
    mailboxes: Seq<MailboxInfoModel>,
    i: int,
)
    requires
        names_selectable(nodes, mailboxes),
        0 <= i < mailboxes::rows_of(nodes, depth, parent).len(),
    ensures
        mailboxes::rows_of(nodes, depth, parent)[i].full_name matches Some(name) ==> selectable(
            mailboxes,
            name,
        ),
        mailboxes::rows_of(nodes, depth, parent)[i].depth >= depth,
    decreases nodes, nodes.len(),
{
    if nodes.len() > 0 {
        let before = mailboxes::rows_of(nodes.drop_last(), depth, parent);
        let last = nodes[nodes.len() - 1];
        assert(last.full_name matches Some(name) ==> selectable(mailboxes, name));
        let key = mailboxes::key_of(parent, last.label);
        let below = mailboxes::rows_of(last.children, depth + 1, Some(key));
        assert(mailboxes::node_rows(last, depth, parent) == seq![
            mailboxes::row_of(last, depth, parent),
        ] + below);
        assert(mailboxes::rows_of(nodes, depth, parent) == before + mailboxes::node_rows(
            last,
            depth,
            parent,
        ));
        if i < before.len() {
            assert forall|i: int| 0 <= i < nodes.drop_last().len() implies ((
            #[trigger] nodes.drop_last()[i]).full_name matches Some(name) ==> selectable(
                mailboxes,
                name,
            )) && names_selectable(nodes.drop_last()[i].children, mailboxes) by {
                assert(nodes[i] == nodes.drop_last()[i]);
            }
            lemma_names_rows(nodes.drop_last(), depth, parent, mailboxes, i);
        } else if i > before.len() {
            assert(decreases_to!(nodes => nodes[nodes.len() - 1]));
            lemma_names_rows(
                last.children,
                depth + 1,
                Some(key),
                mailboxes,
                i - before.len() - 1,
            );
        }
    }
}

/// A row of the folder list only ever names a mailbox that the server listed
/// and that can be selected.
pub proof fn law_rows_name_selectable_mailboxes(mailboxes: Seq<MailboxInfoModel>, i: int)
    requires
        0 <= i < mailboxes::rows_of(mailboxes::tree_of(mailboxes), 0, None).len(),
    ensures
        mailboxes::rows_of(mailboxes::tree_of(mailboxes), 0, None)[i].full_name matches Some(name)
            ==> selectable(mailboxes, name),
{
    lemma_names_grown(mailboxes);
    lemma_names_sorted(mailboxes::grown(mailboxes), mailboxes);
    lemma_names_rows(mailboxes::tree_of(mailboxes), 0, None, mailboxes, i);
}

/// The key of the node at a path under `parent`.
pub open spec fn key_down(parent: Option<Text>, path: Seq<Text>) -> Option<Text>
    decreases path.len(),
{
    if path.len() == 0 {
        parent
    } else {
        key_down(Some(mailboxes::key_of(parent, path.first())), path.drop_first())
    }
}

/// The rows of each node of a list are among the rows of the list.
proof fn lemma_rows_of_member(nodes: Seq<NodeModel>, depth: nat, parent: Option<Text>, k: int, i: int)
    requires
        0 <= k < nodes.len(),
        0 <= i < mailboxes::node_rows(nodes[k], depth, parent).len(),
    ensures
        mailboxes::rows_of(nodes, depth, parent).contains(
            mailboxes::node_rows(nodes[k], depth, parent)[i],
        ),
    decreases nodes.len(),
{
    let before = mailboxes::rows_of(nodes.drop_last(), depth, parent);
    let here = mailboxes::node_rows(nodes.last(), depth, parent);
    let all = mailboxes::rows_of(nodes, depth, parent);
    assert(all == before + here);
    if k == nodes.len() - 1 {
        assert(all[before.len() + i] == here[i]);
    } else {
        let row = mailboxes::node_rows(nodes[k], depth, parent)[i];
        lemma_rows_of_member(nodes.drop_last(), depth, parent, k, i);
        let j = choose|j: int| 0 <= j < before.len() && before[j] == row;
        assert(all[j] == row);
    }
}

proof fn lemma_rows_show_node(
    nodes: Seq<NodeModel>,
    depth: nat,
    parent: Option<Text>,
    path: Seq<Text>,
)
    requires
        node_at(nodes, path) is Some,
    ensures
        mailboxes::rows_of(nodes, depth, parent).contains(
            mailboxes::row_of(
                node_at(nodes, path)->0,
                (depth + path.len() - 1) as nat,
                key_down(parent, path.drop_last()),
            ),
        ),
    decreases path.len(),
{
    mailboxes::lemma_label_index_range(nodes, path.first());
    let k = mailboxes::label_index(nodes, path.first());
    let node = nodes[k];
    let key = mailboxes::key_of(parent, node.label);
    let below = mailboxes::rows_of(node.children, depth + 1, Some(key));
    let here = mailboxes::node_rows(node, depth, parent);
    assert(here == seq![mailboxes::row_of(node, depth, parent)] + below);
    if path.len() == 1 {
        assert(here[0] == mailboxes::row_of(node, depth, parent));
        lemma_rows_of_member(nodes, depth, parent, k, 0);
    } else {
        lemma_rows_show_node(node.children, depth + 1, Some(key), path.drop_first());
        assert(path.drop_last().drop_first() =~= path.drop_first().drop_last());
        let row = mailboxes::row_of(
            node_at(nodes, path)->0,
            (depth + path.len() - 1) as nat,
            key_down(parent, path.drop_last()),
        );
        let i = choose|i: int| 0 <= i < below.len() && below[i] == row;
        assert(here[i + 1] == row);
        lemma_rows_of_member(nodes, depth, parent, k, i + 1);
    }
}

/// The folder list shows every node of the tree: at the depth of its path,
/// with its own label, name and role, under the key of its path.
pub proof fn law_rows_show_every_node(mailboxes: Seq<MailboxInfoModel>, path: Seq<Text>)
    requires
        node_at(mailboxes::tree_of(mailboxes), path) is Some,
    ensures
        mailboxes::rows_of(mailboxes::tree_of(mailboxes), 0, None).contains(
            mailboxes::row_of(
                node_at(mailboxes::tree_of(mailboxes), path)->0,
                (path.len() - 1) as nat,
                key_down(None, path.drop_last()),
            ),
        ),
{
    lemma_rows_show_node(mailboxes::tree_of(mailboxes), 0, None, path);
}

/// Folding hides exactly what lies below a folded folder: with nothing folded
/// every row is visible.
pub proof fn law_nothing_folded_hides_nothing(rows: Seq<RowModel>, n: nat)
    requires
        n <= rows.len(),
    ensures
        mailboxes::visible(rows, seq![], n) == Seq::new(n, |i: int| i),
    decreases n,
{
    if n > 0 {
        law_nothing_folded_hides_nothing(rows, (n - 1) as nat);
        assert(!mailboxes::is_hidden(rows, seq![], n - 1));
        assert(Seq::new(n, |i: int| i) =~= Seq::new((n - 1) as nat, |i: int| i).push(n - 1));
    } else {
        assert(Seq::new(n, |i: int| i) =~= seq![]);
    }
}

// ── Paths, order and rows in plain terms ────────────────────────────────────

/// The path of a mailbox is its name at each delimiter, without the parts that are
/// empty: no part is empty or holds the delimiter, and where the name has no empty
/// part the delimiter joins the path to the name again. Without a delimiter the
/// name is the whole path.
pub proof fn law_a_path_is_the_name_at_its_delimiters(mb: MailboxInfoModel, d: Text)
    requires
        d.len() > 0,
    ensures
        mb.delimiter is None ==> mailboxes::path_of(mb) == seq![mb.name],
        mb.delimiter == Some(d) ==> {
            let path = mailboxes::path_of(mb);
            &&& forall|i: int|
                0 <= i < path.len() ==> (#[trigger] path[i]).len() > 0 && !text::contains(path[i], d)
            &&& (forall|i: int|
                0 <= i < text::split(mb.name, d).len() ==> (#[trigger] text::split(mb.name, d)[i]).len()
                    > 0) ==> text::join(path, d) == mb.name
        },
{
    if mb.delimiter == Some(d) {
        let pieces = text::split(mb.name, d);
        text::lemma_join_split(mb.name, d);
        text::lemma_split_pieces(mb.name, d);
        lemma_non_empty(pieces);
        let path = mailboxes::path_of(mb);
        assert forall|i: int| 0 <= i < path.len() implies (#[trigger] path[i]).len() > 0
            && !text::contains(path[i], d) by {
            assert(pieces.contains(path[i]));
            let k = choose|k: int| 0 <= k < pieces.len() && pieces[k] == path[i];
            assert(!text::contains(pieces[k], d));
        }
    }
}

proof fn lemma_non_empty(pieces: Seq<Text>)
    ensures
        forall|i: int|
            0 <= i < mailboxes::non_empty(pieces).len() ==> (#[trigger] mailboxes::non_empty(
                pieces,
            )[i]).len() > 0 && pieces.contains(mailboxes::non_empty(pieces)[i]),
        (forall|i: int| 0 <= i < pieces.len() ==> (#[trigger] pieces[i]).len() > 0)
            ==> mailboxes::non_empty(pieces) == pieces,
    decreases pieces.len(),
{
    if pieces.len() > 0 {
        let few = pieces.drop_last();
        lemma_non_empty(few);
        let all = mailboxes::non_empty(pieces);
        let before = mailboxes::non_empty(few);
        assert forall|i: int| 0 <= i < all.len() implies (#[trigger] all[i]).len() > 0
            && pieces.contains(all[i]) by {
            if i < before.len() {
                assert(all[i] == before[i]);
                assert(few.contains(before[i]));
                let k = choose|k: int| 0 <= k < few.len() && few[k] == before[i];
                assert(pieces[k] == all[i]);
            } else {
                assert(pieces[pieces.len() - 1] == all[i]);
            }
        }
        if forall|i: int| 0 <= i < pieces.len() ==> (#[trigger] pieces[i]).len() > 0 {
            assert forall|i: int| 0 <= i < few.len() implies (#[trigger] few[i]).len() > 0 by {
                assert(few[i] == pieces[i]);
            }
            assert(pieces[pieces.len() - 1].len() > 0);
            assert(all =~= pieces);
        }
    } else {
        assert(mailboxes::non_empty(pieces) =~= pieces);
    }
}

/// The parts of a name that are not empty keep their order.
pub proof fn law_empty_parts_are_left_out(a: Seq<Text>, b: Seq<Text>, one: Text)
    ensures
        mailboxes::non_empty(a + b) == mailboxes::non_empty(a) + mailboxes::non_empty(b),
        one.len() > 0 ==> mailboxes::non_empty(seq![one]) == seq![one],
        one.len() == 0 ==> mailboxes::non_empty(seq![one]) == Seq::<Text>::empty(),
    decreases b.len(),
{
    let none = Seq::<Text>::empty();
    let single = seq![one];
    assert(single.drop_last() =~= none);
    assert(mailboxes::non_empty(none) =~= none);
    assert(single.last() == one);
    assert(mailboxes::non_empty(single) =~= if one.len() > 0 {
        seq![one]
    } else {
        none
    });
    if b.len() == 0 {
        assert(a + b =~= a);
        assert(mailboxes::non_empty(a) + mailboxes::non_empty(b) =~= mailboxes::non_empty(a));
    } else {
        law_empty_parts_are_left_out(a, b.drop_last(), one);
        assert((a + b).drop_last() =~= a + b.drop_last());
        assert((a + b).last() == b.last());
        assert(mailboxes::non_empty(a + b) =~= mailboxes::non_empty(a) + mailboxes::non_empty(b));
    }
}

/// Folders are ordered by their role, the inbox first, then sent messages, drafts,
/// the archive, junk and the trash, and then those without one; folders of one role
/// by their labels, in any case.
pub proof fn law_folders_are_ordered_by_role_and_label(a: NodeModel, b: NodeModel)
    ensures
        a.special_use == b.special_use ==> mailboxes::sorts_before(a, b) == mailboxes::text_less(
            text::lower(a.label),
            text::lower(b.label),
        ),
        a.special_use == Some(SpecialUse::Inbox) && b.special_use != Some(SpecialUse::Inbox)
            ==> mailboxes::sorts_before(a, b),
        a.special_use == Some(SpecialUse::Sent) && b.special_use == Some(SpecialUse::Drafts)
            ==> mailboxes::sorts_before(a, b),
        a.special_use == Some(SpecialUse::Drafts) && b.special_use == Some(SpecialUse::Archive)
            ==> mailboxes::sorts_before(a, b),
        a.special_use == Some(SpecialUse::Archive) && b.special_use == Some(SpecialUse::Junk)
            ==> mailboxes::sorts_before(a, b),
        a.special_use == Some(SpecialUse::Junk) && b.special_use == Some(SpecialUse::Trash)
            ==> mailboxes::sorts_before(a, b),
        a.special_use is Some && b.special_use is None ==> mailboxes::sorts_before(a, b),
        mailboxes::sorts_before(a, b) ==> !mailboxes::sorts_before(b, a),
{
    lemma_less_one_way(text::lower(a.label), text::lower(b.label));
}

proof fn lemma_less_one_way(a: Text, b: Text)
    ensures
        !(mailboxes::text_less(a, b) && mailboxes::text_less(b, a)),
    decreases a.len(),
{
    if a.len() > 0 && b.len() > 0 && a.first() == b.first() {
        lemma_less_one_way(a.drop_first(), b.drop_first());
    }
}

/// A text comes before another if it is a beginning of it, or if they are the same
/// up to a place where its character comes first.
pub proof fn law_labels_are_ordered_by_their_first_difference(same: Text, a: Text, b: Text)
    ensures
        a.len() > 0 && b.len() > 0 && a[0] < b[0] ==> mailboxes::text_less(same + a, same + b)
            && !mailboxes::text_less(same + b, same + a),
        b.len() > 0 ==> mailboxes::text_less(same, same + b) && !mailboxes::text_less(same + b, same),
        !mailboxes::text_less(same, same),
    decreases same.len(),
{
    if same.len() == 0 {
        assert(same + a =~= a);
        assert(same + b =~= b);
    } else {
        let rest = same.drop_first();
        law_labels_are_ordered_by_their_first_difference(rest, a, b);
        assert((same + a).drop_first() =~= rest + a);
        assert((same + b).drop_first() =~= rest + b);
    }
}

/// A row says of its folder how deep it lies, its label, its name, its role and
/// whether there is anything below it; its key is its parent's with its label
/// behind. The rows of what is below follow, one deeper.
pub proof fn law_a_row_tells_its_folder(a: Seq<NodeModel>, b: Seq<NodeModel>, node: NodeModel, depth: nat, parent: Text)
    ensures
        ({
            let row = mailboxes::row_of(node, depth, Some(parent));
            let top = mailboxes::row_of(node, depth, None);
            &&& row.depth == depth
            &&& row.label == node.label
            &&& row.full_name == node.full_name
            &&& row.special_use == node.special_use
            &&& row.has_children == (node.children.len() > 0)
            &&& row.key == parent + "\t"@ + node.label
            &&& top == (RowModel { key: node.label, ..row })
            &&& mailboxes::rows_of(seq![node], depth, None) == seq![top] + mailboxes::rows_of(
                node.children,
                depth + 1,
                Some(node.label),
            )
            &&& mailboxes::rows_of(seq![node], depth, Some(parent)) == seq![row] + mailboxes::rows_of(
                node.children,
                depth + 1,
                Some(row.key),
            )
        }),
        mailboxes::rows_of(a + b, depth, Some(parent)) == mailboxes::rows_of(a, depth, Some(parent))
            + mailboxes::rows_of(b, depth, Some(parent)),
        mailboxes::rows_of(a + b, depth, None) == mailboxes::rows_of(a, depth, None)
            + mailboxes::rows_of(b, depth, None),
{
    lemma_rows_add(a, b, depth, Some(parent));
    lemma_rows_add(a, b, depth, None);
    lemma_rows_one(node, depth, Some(parent));
    lemma_rows_one(node, depth, None);
}

proof fn lemma_rows_one(node: NodeModel, depth: nat, parent: Option<Text>)
    ensures
        mailboxes::rows_of(seq![node], depth, parent) == mailboxes::node_rows(node, depth, parent),
{
    let none = Seq::<NodeModel>::empty();
    let one = seq![node];
    assert(one.drop_last() =~= none);
    assert(one.last() == node);
    assert(mailboxes::rows_of(none, depth, parent) =~= Seq::<RowModel>::empty());
    assert(mailboxes::rows_of(one, depth, parent) =~= mailboxes::node_rows(node, depth, parent));
}

proof fn lemma_rows_add(a: Seq<NodeModel>, b: Seq<NodeModel>, depth: nat, parent: Option<Text>)
    ensures
        mailboxes::rows_of(a + b, depth, parent) == mailboxes::rows_of(a, depth, parent)
            + mailboxes::rows_of(b, depth, parent),
    decreases b.len(),
{
    if b.len() == 0 {
        assert(a + b =~= a);
        assert(mailboxes::rows_of(a, depth, parent) + mailboxes::rows_of(b, depth, parent)
            =~= mailboxes::rows_of(a, depth, parent));
    } else {
        lemma_rows_add(a, b.drop_last(), depth, parent);
        assert((a + b).drop_last() =~= a + b.drop_last());
        assert((a + b).last() == b.last());
        assert(mailboxes::rows_of(a + b, depth, parent) =~= mailboxes::rows_of(a, depth, parent)
            + mailboxes::rows_of(b, depth, parent));
    }
}

/// A row is shown exactly if no folded folder lies above it: one before it, with
/// only deeper rows from there up to it. The rows that are shown keep their order.
pub proof fn law_rows_below_a_folded_folder_are_hidden(rows: Seq<RowModel>, folded: Seq<Text>, n: nat, i: int)
    requires
        n <= rows.len(),
        0 <= i < n,
    ensures
        mailboxes::visible(rows, folded, n).contains(i) <==> !exists|j: int|
            0 <= j < i && (#[trigger] rows[j]).has_children && folded.contains(rows[j].key) && forall|
                k: int,
            |
                j < k <= i ==> (#[trigger] rows[k]).depth > rows[j].depth,
        forall|a: int, b: int|
            0 <= a < b < mailboxes::visible(rows, folded, n).len() ==> #[trigger] mailboxes::visible(
                rows,
                folded,
                n,
            )[a] < #[trigger] mailboxes::visible(rows, folded, n)[b],
{
    lemma_visible(rows, folded, n);
    if mailboxes::is_hidden(rows, folded, i) {
        let j = choose|j: int|
            #[trigger] mailboxes::is_below(rows, j, i) && mailboxes::is_folded(rows[j], folded);
        assert(rows[j].has_children && folded.contains(rows[j].key));
    }
    if exists|j: int|
        0 <= j < i && (#[trigger] rows[j]).has_children && folded.contains(rows[j].key) && forall|k: int|
            j < k <= i ==> (#[trigger] rows[k]).depth > rows[j].depth {
        let j = choose|j: int|
            0 <= j < i && (#[trigger] rows[j]).has_children && folded.contains(rows[j].key) && forall|
                k: int,
            |
                j < k <= i ==> (#[trigger] rows[k]).depth > rows[j].depth;
        assert(mailboxes::is_below(rows, j, i));
        assert(mailboxes::is_folded(rows[j], folded));
    }
}

proof fn lemma_visible(rows: Seq<RowModel>, folded: Seq<Text>, n: nat)
    requires
        n <= rows.len(),
    ensures
        forall|i: int|
            #[trigger] mailboxes::visible(rows, folded, n).contains(i) <==> 0 <= i < n
                && !mailboxes::is_hidden(rows, folded, i),
        forall|a: int, b: int|
            0 <= a < b < mailboxes::visible(rows, folded, n).len() ==> #[trigger] mailboxes::visible(
                rows,
                folded,
                n,
            )[a] < #[trigger] mailboxes::visible(rows, folded, n)[b],
    decreases n,
{
    let all = mailboxes::visible(rows, folded, n);
    if n > 0 {
        let m = (n - 1) as nat;
        lemma_visible(rows, folded, m);
        let before = mailboxes::visible(rows, folded, m);
        assert forall|i: int| #[trigger] all.contains(i) <==> 0 <= i < n && !mailboxes::is_hidden(
            rows,
            folded,
            i,
        ) by {
            if all.contains(i) {
                let k = choose|k: int| 0 <= k < all.len() && all[k] == i;
                if k < before.len() {
                    assert(before[k] == i);
                    assert(before.contains(i));
                }
            }
            if 0 <= i < n && !mailboxes::is_hidden(rows, folded, i) {
                if i < m {
                    assert(before.contains(i));
                    let k = choose|k: int| 0 <= k < before.len() && before[k] == i;
                    assert(all[k] == i);
                } else {
                    assert(all[before.len() as int] == i);
                }
            }
        }
        assert forall|a: int, b: int| 0 <= a < b < all.len() implies #[trigger] all[a]
            < #[trigger] all[b] by {
            if b < before.len() {
                assert(before[a] < before[b]);
            } else {
                assert(all[a] == before[a]);
                assert(before.contains(before[a]));
            }
        }
    }
}

} // verus!
