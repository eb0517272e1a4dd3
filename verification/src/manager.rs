//! The message manager of a thread and the producer that starts
//! transactions through it.
use vstd::prelude::*;
use crate::context::{Context, ContextView};
use crate::transaction::TransactionKind;

verus! {

/// Holds where messages come from and the context of the current thread.
pub struct MessageManager {
    domain: String,
    host: String,
    ip: String,
    m_first_message: bool,
    context: Option<Context>,
}

/// The abstract state of a message manager.
pub struct MessageManagerView {
    pub domain: Seq<char>,
    pub host: Seq<char>,
    pub ip: Seq<char>,
    pub first_message: bool,
    pub context: Option<ContextView>,
}

impl View for MessageManager {
    type V = MessageManagerView;

    closed spec fn view(&self) -> MessageManagerView {
        MessageManagerView {
            domain: self.domain@,
            host: self.host@,
            ip: self.ip@,
            first_message: self.m_first_message,
            context: match self.context {
                Some(c) => Some(c@),
                None => None,
            },
        }
    }
}

impl MessageManagerView {
    pub open spec fn wf(self) -> bool {
        self.context matches Some(c) ==> c.wf()
    }

    /// A transaction of `kind` can be started in the current context.
    pub open spec fn can_start(self, kind: TransactionKind) -> bool {
        self.context matches Some(c) ==> c.can_start(kind) && c.nodes.len() < usize::MAX
    }
}

impl MessageManager {
    /// A manager for messages of `domain` sent from `host` at `ip`, with no
    /// context yet.
    pub fn new(domain: String, host: String, ip: String) -> (r: MessageManager)
        ensures
            r@ == (MessageManagerView {
                domain: domain@,
                host: host@,
                ip: ip@,
                first_message: true,
                context: None,
            }),
    {
        MessageManager { domain, host, ip, m_first_message: true, context: None }
    }

    /// Takes the context of the thread out; where there was none, a fresh
    /// one for this manager's address, host and domain takes its place,
    /// where there was one, the thread is left without.
    pub fn set_up(&mut self)
        ensures
            final(self)@.domain == old(self)@.domain,
            final(self)@.host == old(self)@.host,
            final(self)@.ip == old(self)@.ip,
            final(self)@.first_message == old(self)@.first_message,
            old(self)@.context is None ==> final(self)@.context == Some(
                ContextView {
                    tree: crate::context::MessageTreeView {
                        ip: old(self)@.ip,
                        host: old(self)@.host,
                        domain: old(self)@.domain,
                        message: None,
                    },
                    stack: Seq::empty(),
                    length: 0,
                    nodes: Seq::empty(),
                },
            ),
            old(self)@.context is Some ==> final(self)@.context is None,
            final(self)@.wf(),
    {
        if let None = self.context.take() {
            self.context = Some(Context::new(self.ip.clone(), self.host.clone(), self.domain.clone()));
        }
    }

    /// The context of the thread, if it has one.
    pub fn get_context(&self) -> (r: Option<&Context>)
        ensures
            r matches Some(c) ==> self@.context == Some(c@),
            r is None <==> self@.context is None,
    {
        match &self.context {
            Some(c) => Some(c),
            None => None,
        }
    }

    /// Whether no message was noted yet without a context.
    pub fn is_first_message(&self) -> (r: bool)
        ensures
            r == self@.first_message,
    {
        self.m_first_message
    }

    /// Starts a transaction of `kind` in the thread's context and returns
    /// its index there; without a context, the first message is only noted.
    pub fn start(&mut self, kind: TransactionKind, forked: bool) -> (r: Option<usize>)
        requires
            old(self)@.can_start(kind),
        ensures
            final(self)@.domain == old(self)@.domain,
            final(self)@.host == old(self)@.host,
            final(self)@.ip == old(self)@.ip,
            final(self)@.wf(),
            match old(self)@.context {
                Some(c) => {
                    &&& r == Some(c.nodes.len() as usize)
                    &&& final(self)@.context == Some(c.start(kind, forked))
                    &&& final(self)@.first_message == old(self)@.first_message
                },
                None => {
                    &&& r is None
                    &&& final(self)@.context is None
                    &&& final(self)@.first_message == false
                },
            },
    {
        match &mut self.context {
            Some(context) => Some(context.start(kind, forked)),
            None => {
                if self.m_first_message {
                    self.m_first_message = false;
                }
                None
            },
        }
    }
}

/// Starts transactions for the application.
pub struct MessageProducer {
    manager: MessageManager,
    is_message_enable: bool,
}

impl View for MessageProducer {
    type V = (MessageManagerView, bool);

    closed spec fn view(&self) -> (MessageManagerView, bool) {
        (self.manager@, self.is_message_enable)
    }
}

/// No open transaction of a context is forked, so any transaction can be
/// added to the innermost one.
pub open spec fn no_forked_open(m: MessageManagerView) -> bool {
    m.context matches Some(c) ==> forall|i: int|
        0 <= i < c.stack.len() ==> c.nodes[c.stack[i] as int].0 != TransactionKind::DefaultForked
}

impl MessageProducer {
    /// No open transaction is forked.
    #[verifier::type_invariant]
    spec fn inv(self) -> bool {
        no_forked_open(self.manager@)
    }

    /// A producer with messages enabled, for domain `domain`, host `host`
    /// and address `ip`.
    pub fn new() -> (r: MessageProducer)
        ensures
            r@.0.domain == "domain"@,
            r@.0.host == "host"@,
            r@.0.ip == "ip"@,
            r@.0.first_message,
            r@.0.context is None,
            r@.1,
    {
        MessageProducer {
            manager: MessageManager::new("domain".to_owned(), "host".to_owned(), "ip".to_owned()),
            is_message_enable: true,
        }
    }

    pub fn get_manager(&self) -> (r: &MessageManager)
        ensures
            r@ == self@.0,
    {
        &self.manager
    }

    /// Sets the context up and, when messages are enabled, starts a default
    /// transaction in it; returns the transaction handed out: its kind and,
    /// where it was started in the thread's context, its index there.
    pub fn new_transaction(&mut self) -> (r: (TransactionKind, Option<usize>))
        requires
            old(self)@.0.context matches Some(c) ==> c.nodes.len() < usize::MAX,
        ensures
            final(self)@.0.wf(),
            no_forked_open(final(self)@.0),
            final(self)@.1 == old(self)@.1,
            r.0 == (if old(self)@.1 {
                TransactionKind::Default
            } else {
                TransactionKind::Null
            }),
            r.1 == (if old(self)@.1 && old(self)@.0.context is None {
                Some(0usize)
            } else {
                None
            }),
            r.1 matches Some(i) ==> (final(self)@.0.context matches Some(c) && c.nodes[i as int].0
                == r.0 && c.stack.last() == i),
            old(self)@.1 && old(self)@.0.context is None ==> (final(self)@.0.context matches Some(c)
                && c.nodes == seq![(TransactionKind::Default, Seq::<usize>::empty())] && c.stack
                == seq![0usize] && c.tree.message == Some(0usize)),
            !old(self)@.1 && old(self)@.0.context is None ==> (final(self)@.0.context matches Some(c)
                && c.nodes.len() == 0 && c.stack.len() == 0 && c.tree.message is None),
            old(self)@.0.context is None ==> (final(self)@.0.context matches Some(c) && c.tree.ip
                == old(self)@.0.ip && c.tree.host == old(self)@.0.host && c.tree.domain == old(
                self,
            )@.0.domain && c.length == 0),
            old(self)@.0.context is Some ==> final(self)@.0.context is None,
            final(self)@.0.first_message == (old(self)@.0.first_message && !(old(self)@.1
                && old(self)@.0.context is Some)),
            final(self)@.0.domain == old(self)@.0.domain,
            final(self)@.0.host == old(self)@.0.host,
            final(self)@.0.ip == old(self)@.0.ip,
    {
        proof {
            use_type_invariant(&*self);
        }
        // No open transaction may be forked at any step: the manager is set
        // aside while it changes, and put back after.
        let mut manager = MessageManager::new(String::new(), String::new(), String::new());
        std::mem::swap(&mut manager, &mut self.manager);
        manager.set_up();
        let r = if self.is_message_enable {
            let r = manager.start(TransactionKind::Default, false);
            proof {
                if old(self)@.0.context is None {
                    let c = manager@.context->Some_0;
                    assert(c.nodes =~= seq![(TransactionKind::Default, Seq::<usize>::empty())]);
                    assert(c.stack =~= seq![0usize]);
                }
            }
            (TransactionKind::Default, r)
        } else {
            (TransactionKind::Null, None)
        };
        std::mem::swap(&mut manager, &mut self.manager);
        r
    }
}

} // verus!
