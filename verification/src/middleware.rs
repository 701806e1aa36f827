//! Middleware: decorator chains around command and event handlers.
//!
//! Middlewares are applied at wiring time, innermost last: the first
//! middleware in the configured list becomes the outermost wrapper, so a
//! call runs every middleware's before-step in list order, then the
//! terminal handler, then the after-steps in reverse order.  A chain
//! here carries labels and a trace, which pins the decorator order; a
//! middleware that computes — say, one that retries a conflicted save —
//! is a loop around the terminal handler and belongs to the caller that
//! owns the repository and the command.

use vstd::prelude::*;

verus! {

/// A terminal handler of commands, as the middleware chain sees it.
pub trait CommandHandler {
    fn handle_command(&mut self, command: &str);
}

/// A middleware chain wrapped around a terminal command handler.  Each
/// label stands for one middleware; the trace records the order the
/// steps ran in.
pub struct CommandHandlerMiddlewareStruct<H> {
    pub labels: Vec<String>,
    pub trace: Vec<String>,
    pub inner: H,
}

impl<H: CommandHandler> CommandHandlerMiddlewareStruct<H> {
    /// Wraps `inner` with the single middleware named `label`.
    pub fn new(label: String, inner: H) -> (w: CommandHandlerMiddlewareStruct<H>)
        ensures
            w.labels@ == seq![label],
            w.trace@ == Seq::<String>::empty(),
            w.inner == inner,
    {
        let mut labels: Vec<String> = Vec::new();
        labels.push(label);
        proof {
            assert(labels@ =~= seq![label]);
        }
        CommandHandlerMiddlewareStruct { labels, trace: Vec::new(), inner }
    }
}

impl<H: CommandHandler> CommandHandler for CommandHandlerMiddlewareStruct<H> {
    /// Runs the chain: before-steps outermost first, the terminal
    /// handler, then after-steps innermost first.
    fn handle_command(&mut self, command: &str)
        ensures
            final(self).labels == old(self).labels,
            final(self).trace@.len() == old(self).trace@.len() + 2 * old(self).labels@.len(),
            forall|i: int|
                0 <= i < old(self).labels@.len() ==> final(self).trace@[old(
                    self,
                ).trace@.len() + i]@ == (#[trigger] old(self).labels@[i])@ + " before"@,
            forall|i: int|
                0 <= i < old(self).labels@.len() ==> final(self).trace@[old(self).trace@.len()
                    + old(self).labels@.len() + i]@ == (#[trigger] old(self).labels@[old(
                    self,
                ).labels@.len() - 1 - i])@ + " after"@,
            forall|i: int|
                0 <= i < old(self).trace@.len() ==> (#[trigger] final(self).trace@[i]) == old(
                    self,
                ).trace@[i],
    {
        let n = self.labels.len();
        let ghost base = self.trace@;
        let mut i: usize = 0;
        while i < n
            invariant
                n == self.labels@.len(),
                i <= n,
                self.labels == old(self).labels,
                self.inner == old(self).inner,
                self.trace@.len() == base.len() + i,
                forall|j: int| 0 <= j < base.len() ==> (#[trigger] self.trace@[j]) == base[j],
                forall|j: int|
                    0 <= j < i ==> self.trace@[base.len() + j]@ == (#[trigger] self.labels@[j])@
                        + " before"@,
            decreases n - i,
        {
            let line = self.labels[i].clone().concat(" before");
            self.trace.push(line);
            i = i + 1;
        }
        self.inner.handle_command(command);
        let ghost mid = self.trace@;
        let mut k: usize = 0;
        while k < n
            invariant
                n == self.labels@.len(),
                k <= n,
                self.labels == old(self).labels,
                mid.len() == base.len() + n,
                self.trace@.len() == mid.len() + k,
                forall|j: int| 0 <= j < mid.len() ==> (#[trigger] self.trace@[j]) == mid[j],
                forall|j: int|
                    0 <= j < k ==> self.trace@[mid.len() + j]@ == (#[trigger] self.labels@[n - 1
                        - j])@ + " after"@,
            decreases n - k,
        {
            let line = self.labels[n - 1 - k].clone().concat(" after");
            self.trace.push(line);
            k = k + 1;
        }
    }
}

/// Builds the decorator chain for a command handler: the middlewares are
/// applied so that the first of the list runs outermost.
pub fn use_command_handler_middleware<H: CommandHandler>(handler: H, middlewares: Vec<String>)
    -> (w: CommandHandlerMiddlewareStruct<H>)
    ensures
        w.labels == middlewares,
        w.trace@ == Seq::<String>::empty(),
        w.inner == handler,
{
    CommandHandlerMiddlewareStruct { labels: middlewares, trace: Vec::new(), inner: handler }
}

/// A terminal handler of events, as the middleware chain sees it.
pub trait EventHandler {
    fn handle_event(&mut self, event: &str);
}

/// A middleware chain wrapped around a terminal event handler.
pub struct EventHandlerMiddlewareStruct<H> {
    pub labels: Vec<String>,
    pub trace: Vec<String>,
    pub inner: H,
}

impl<H: EventHandler> EventHandlerMiddlewareStruct<H> {
    /// Wraps `inner` with the single middleware named `label`.
    pub fn new(label: String, inner: H) -> (w: EventHandlerMiddlewareStruct<H>)
        ensures
            w.labels@ == seq![label],
            w.trace@ == Seq::<String>::empty(),
            w.inner == inner,
    {
        let mut labels: Vec<String> = Vec::new();
        labels.push(label);
        proof {
            assert(labels@ =~= seq![label]);
        }
        EventHandlerMiddlewareStruct { labels, trace: Vec::new(), inner }
    }
}

impl<H: EventHandler> EventHandler for EventHandlerMiddlewareStruct<H> {
    /// Runs the chain: before-steps outermost first, the terminal
    /// handler, then after-steps innermost first.
    fn handle_event(&mut self, event: &str)
        ensures
            final(self).labels == old(self).labels,
            final(self).trace@.len() == old(self).trace@.len() + 2 * old(self).labels@.len(),
            forall|i: int|
                0 <= i < old(self).labels@.len() ==> final(self).trace@[old(
                    self,
                ).trace@.len() + i]@ == (#[trigger] old(self).labels@[i])@ + " before"@,
            forall|i: int|
                0 <= i < old(self).labels@.len() ==> final(self).trace@[old(self).trace@.len()
                    + old(self).labels@.len() + i]@ == (#[trigger] old(self).labels@[old(
                    self,
                ).labels@.len() - 1 - i])@ + " after"@,
            forall|i: int|
                0 <= i < old(self).trace@.len() ==> (#[trigger] final(self).trace@[i]) == old(
                    self,
                ).trace@[i],
    {
        let n = self.labels.len();
        let ghost base = self.trace@;
        let mut i: usize = 0;
        while i < n
            invariant
                n == self.labels@.len(),
                i <= n,
                self.labels == old(self).labels,
                self.inner == old(self).inner,
                self.trace@.len() == base.len() + i,
                forall|j: int| 0 <= j < base.len() ==> (#[trigger] self.trace@[j]) == base[j],
                forall|j: int|
                    0 <= j < i ==> self.trace@[base.len() + j]@ == (#[trigger] self.labels@[j])@
                        + " before"@,
            decreases n - i,
        {
            let line = self.labels[i].clone().concat(" before");
            self.trace.push(line);
            i = i + 1;
        }
        self.inner.handle_event(event);
        let ghost mid = self.trace@;
        let mut k: usize = 0;
        while k < n
            invariant
                n == self.labels@.len(),
                k <= n,
                self.labels == old(self).labels,
                mid.len() == base.len() + n,
                self.trace@.len() == mid.len() + k,
                forall|j: int| 0 <= j < mid.len() ==> (#[trigger] self.trace@[j]) == mid[j],
                forall|j: int|
                    0 <= j < k ==> self.trace@[mid.len() + j]@ == (#[trigger] self.labels@[n - 1
                        - j])@ + " after"@,
            decreases n - k,
        {
            let line = self.labels[n - 1 - k].clone().concat(" after");
            self.trace.push(line);
            k = k + 1;
        }
    }
}

/// Builds the decorator chain for an event handler: the middlewares are
/// applied so that the first of the list runs outermost.
pub fn use_event_handler_middleware<H: EventHandler>(handler: H, middlewares: Vec<String>) -> (w:
    EventHandlerMiddlewareStruct<H>)
    ensures
        w.labels == middlewares,
        w.trace@ == Seq::<String>::empty(),
        w.inner == handler,
{
    EventHandlerMiddlewareStruct { labels: middlewares, trace: Vec::new(), inner: handler }
}

} // verus!
