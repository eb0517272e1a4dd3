//! The message tree of a thread: the transactions it started, which of them
//! are still open, and which transaction is the root of the tree.
use vstd::prelude::*;
use vstd::wrapping::u32_specs::wrapping_add;
use crate::transaction::TransactionKind;

verus! {

/// Where a thread's message tree is reported from, and its root.
pub struct MessageTree {
    m_ip: String,
    m_host: String,
    m_domain: String,
    m_message: Option<usize>,
}

/// The abstract state of a message tree.
pub struct MessageTreeView {
    pub ip: Seq<char>,
    pub host: Seq<char>,
    pub domain: Seq<char>,
    /// The transaction at the root of the tree, by its index in the context.
    pub message: Option<usize>,
}

impl View for MessageTree {
    type V = MessageTreeView;

    closed spec fn view(&self) -> MessageTreeView {
        MessageTreeView {
            ip: self.m_ip@,
            host: self.m_host@,
            domain: self.m_domain@,
            message: self.m_message,
        }
    }
}

impl MessageTree {
    /// A tree without a root yet.
    pub fn new(ip: String, host: String, domain: String) -> (r: Self)
        ensures
            r@ == (MessageTreeView { ip: ip@, host: host@, domain: domain@, message: None }),
    {
        MessageTree { m_ip: ip, m_host: host, m_domain: domain, m_message: None }
    }

    /// Makes `message` the root of the tree.
    pub fn set_message(&mut self, message: usize)
        ensures
            final(self)@ == (MessageTreeView { message: Some(message), ..old(self)@ }),
    {
        self.m_message = Some(message);
    }

    pub fn get_message(&self) -> (r: Option<usize>)
        ensures
            r == self@.message,
    {
        self.m_message
    }
}

/// A transaction that a context started: its kind and the transactions that
/// were added to it as children, by index.
pub struct TransactionNode {
    pub kind: TransactionKind,
    pub children: Vec<usize>,
}

/// The abstract state of a context.
pub struct ContextView {
    pub tree: MessageTreeView,
    /// The open transactions, innermost last.
    pub stack: Seq<usize>,
    /// How many children were added to transactions.
    pub length: u32,
    /// Every transaction started, with its children.
    pub nodes: Seq<(TransactionKind, Seq<usize>)>,
}

impl ContextView {
    /// Every index refers to a started transaction.
    pub open spec fn wf(self) -> bool {
        &&& forall|i: int| 0 <= i < self.stack.len() ==> self.stack[i] < self.nodes.len()
        &&& forall|i: int, j: int|
            0 <= i < self.nodes.len() && 0 <= j < self.nodes[i].1.len() ==> self.nodes[i].1[j]
                < self.nodes.len()
        &&& (self.tree.message matches Some(m) ==> m < self.nodes.len())
    }

    /// Starting a transaction of `kind` does not add a child to a forked
    /// transaction, whose children cannot be added.
    pub open spec fn can_start(self, kind: TransactionKind) -> bool {
        self.stack.len() > 0 && kind != TransactionKind::DefaultForked ==> self.nodes[self.stack.last() as int].0
            != TransactionKind::DefaultForked
    }

    /// The context after starting a transaction of `kind`: it gets the next
    /// index; with no open transaction it becomes the root of the tree,
    /// otherwise, unless it is forked, a child of the innermost open one; a
    /// transaction that is not started as forked is opened.
    pub open spec fn start(self, kind: TransactionKind, forked: bool) -> Self {
        let id = self.nodes.len() as usize;
        let nodes = self.nodes.push((kind, Seq::empty()));
        let (tree, nodes, length) = if self.stack.len() != 0 {
            if kind != TransactionKind::DefaultForked {
                let parent = self.stack.last() as int;
                let nodes = if nodes[parent].0 == TransactionKind::Default {
                    nodes.update(parent, (nodes[parent].0, nodes[parent].1.push(id)))
                } else {
                    nodes
                };
                (self.tree, nodes, wrapping_add(self.length, 1))
            } else {
                (self.tree, nodes, self.length)
            }
        } else {
            (MessageTreeView { message: Some(id), ..self.tree }, nodes, self.length)
        };
        ContextView {
            tree,
            stack: if forked {
                self.stack
            } else {
                self.stack.push(id)
            },
            length,
            nodes,
        }
    }
}

/// What starting a transaction does to a context, for every context and
/// every kind: the transaction gets the next index and is recorded with its
/// kind and no children; with no open transaction it becomes the root of
/// the tree, forked or not, and otherwise the root stays; unless it is
/// forked it is opened as the innermost transaction, and otherwise the open
/// transactions stay; with an open transaction, a transaction that is not
/// forked is appended to the children of the innermost one where that one is
/// a default transaction, and no other transaction's children change.
pub proof fn lemma_context_start(c: ContextView, kind: TransactionKind, forked: bool)
    requires
        c.wf(),
        c.nodes.len() < usize::MAX,
    ensures
        ({
            let n = c.start(kind, forked);
            let id = c.nodes.len() as usize;
            &&& n.nodes.len() == c.nodes.len() + 1
            &&& n.nodes[id as int] == (kind, Seq::<usize>::empty())
            &&& c.stack.len() == 0 ==> n.tree.message == Some(id)
            &&& c.stack.len() != 0 ==> n.tree.message == c.tree.message
            &&& n.tree.ip == c.tree.ip && n.tree.host == c.tree.host && n.tree.domain == c.tree.domain
            &&& forked ==> n.stack == c.stack
            &&& !forked ==> n.stack == c.stack.push(id)
            &&& forall|i: int| 0 <= i < c.nodes.len() ==> (#[trigger] n.nodes[i]).0 == c.nodes[i].0
            &&& forall|i: int|
                0 <= i < c.nodes.len() ==> (#[trigger] n.nodes[i]).1 == (if c.stack.len() != 0 && kind
                    != TransactionKind::DefaultForked && i == c.stack.last() && c.nodes[i].0
                    == TransactionKind::Default {
                    c.nodes[i].1.push(id)
                } else {
                    c.nodes[i].1
                })
            &&& n.length == (if c.stack.len() != 0 && kind != TransactionKind::DefaultForked {
                wrapping_add(c.length, 1)
            } else {
                c.length
            })
        }),
{
}

/// The transactions of one thread.
pub struct Context {
    m_tree: MessageTree,
    m_stack: Vec<usize>,
    m_length: u32,
    nodes: Vec<TransactionNode>,
}

/// The abstract state of the started transactions.
pub open spec fn nodes_view(v: Seq<TransactionNode>) -> Seq<(TransactionKind, Seq<usize>)> {
    v.map_values(|n: TransactionNode| (n.kind, n.children@))
}

impl View for Context {
    type V = ContextView;

    closed spec fn view(&self) -> ContextView {
        ContextView {
            tree: self.m_tree@,
            stack: self.m_stack@,
            length: self.m_length,
            nodes: nodes_view(self.nodes@),
        }
    }
}

impl Context {
    /// Every index refers to a started transaction.
    #[verifier::type_invariant]
    spec fn inv(self) -> bool {
        self@.wf()
    }

    /// A context with nothing started.
    pub fn new(ip: String, host: String, domain: String) -> (r: Context)
        ensures
            r@.tree == (MessageTreeView { ip: ip@, host: host@, domain: domain@, message: None }),
            r@.stack == Seq::<usize>::empty(),
            r@.length == 0,
            r@.nodes == Seq::<(TransactionKind, Seq<usize>)>::empty(),
            r@.wf(),
    {
        let r = Context {
            m_tree: MessageTree::new(ip, host, domain),
            m_stack: Vec::new(),
            m_length: 0,
            nodes: Vec::new(),
        };
        assert(r@.nodes =~= Seq::<(TransactionKind, Seq<usize>)>::empty());
        r
    }

    /// Starts a transaction of `kind` and returns its index.
    pub fn start(&mut self, kind: TransactionKind, forked: bool) -> (id: usize)
        requires
            old(self)@.can_start(kind),
            old(self)@.nodes.len() < usize::MAX,
        ensures
            id == old(self)@.nodes.len(),
            final(self)@ == old(self)@.start(kind, forked),
            final(self)@.wf(),
    {
        proof {
            use_type_invariant(&*self);
        }
        let ghost before = self@;
        // Every index must refer to a started transaction at each step: the
        // open transactions and the root are set aside while the started
        // transactions are updated, and put back after.
        let mut stack: Vec<usize> = Vec::new();
        std::mem::swap(&mut stack, &mut self.m_stack);
        let mut root = self.m_tree.m_message;
        self.m_tree.m_message = None;
        let mut nodes: Vec<TransactionNode> = Vec::new();
        std::mem::swap(&mut nodes, &mut self.nodes);
        let mut length = self.m_length;

        let id = nodes.len();
        nodes.push(TransactionNode { kind, children: Vec::new() });
        assert(nodes_view(nodes@) =~= before.nodes.push((kind, Seq::empty())));
        if stack.len() != 0 {
            if kind != TransactionKind::DefaultForked {
                let parent = stack[stack.len() - 1];
                Self::add_transaction_child(&mut nodes, id, parent);
                length = length.wrapping_add(1);
            }
        } else {
            root = Some(id);
        }
        if !forked {
            stack.push(id);
        }
        let ghost after = ContextView {
            tree: MessageTreeView { message: root, ..before.tree },
            stack: stack@,
            length,
            nodes: nodes_view(nodes@),
        };
        assert(after.nodes =~= before.start(kind, forked).nodes);
        assert(after.stack =~= before.start(kind, forked).stack);
        assert(after.wf()) by {
            assert forall|i: int, j: int|
                0 <= i < after.nodes.len() && 0 <= j < after.nodes[i].1.len() implies after.nodes[i].1[j]
                < after.nodes.len() by {
                if i < before.nodes.len() && j < before.nodes[i].1.len() {
                    assert(before.nodes[i].1[j] < before.nodes.len());
                }
            }
        }

        std::mem::swap(&mut nodes, &mut self.nodes);
        self.m_tree.m_message = root;
        std::mem::swap(&mut stack, &mut self.m_stack);
        self.m_length = length;
        assert(self@ == after);
        id
    }

    /// Adds the transaction `message` as a child of the transaction `parent`
    /// of `nodes`.
    fn add_transaction_child(nodes: &mut Vec<TransactionNode>, message: usize, parent: usize)
        requires
            parent < old(nodes)@.len(),
            old(nodes)@[parent as int].kind != TransactionKind::DefaultForked,
        ensures
            final(nodes)@.len() == old(nodes)@.len(),
            nodes_view(final(nodes)@) == (if old(nodes)@[parent as int].kind
                == TransactionKind::Default {
                nodes_view(old(nodes)@).update(
                    parent as int,
                    (TransactionKind::Default, old(nodes)@[parent as int].children@.push(message)),
                )
            } else {
                nodes_view(old(nodes)@)
            }),
    {
        if nodes[parent].kind == TransactionKind::Default {
            let ghost before = nodes@;
            let mut node = nodes.remove(parent);
            node.children.push(message);
            nodes.insert(parent, node);
            assert(nodes_view(nodes@) =~= nodes_view(before).update(
                parent as int,
                (TransactionKind::Default, before[parent as int].children@.push(message)),
            ));
        }
    }

    pub fn get_tree(&self) -> (r: &MessageTree)
        ensures
            r@ == self@.tree,
    {
        &self.m_tree
    }

    pub fn get_length(&self) -> (r: u32)
        ensures
            r == self@.length,
    {
        self.m_length
    }

    /// Every transaction started, by index.
    pub fn get_nodes(&self) -> (r: &Vec<TransactionNode>)
        ensures
            nodes_view(r@) == self@.nodes,
    {
        &self.nodes
    }

    /// The open transactions, innermost last.
    pub fn get_stack(&self) -> (r: &Vec<usize>)
        ensures
            r@ == self@.stack,
    {
        &self.m_stack
    }
}

} // verus!
