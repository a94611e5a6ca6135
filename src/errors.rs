//! Errors as the host sees them: a cause chain rendered as numbered lines.
use vstd::prelude::*;
use crate::corpus::texts;
use crate::text::{decimal, push_decimal, push_text};

verus! {

/// A chain of messages, outermost first, rendered as `"{i}: {message}\n"` per message.
pub open spec fn chain_text(msgs: Seq<Seq<char>>) -> Seq<char>
    decreases msgs.len(),
{
    if msgs.len() == 0 {
        Seq::empty()
    } else {
        chain_text(msgs.drop_last()) + decimal((msgs.len() - 1) as nat) + ": "@ + msgs.last() + "\n"@
    }
}

fn render_chain(msgs: &Vec<String>) -> (r: String)
    ensures
        r@ == chain_text(texts(msgs@)),
{
    let mut out = String::new();
    let mut i: usize = 0;
    while i < msgs.len()
        invariant
            i <= msgs@.len(),
            out@ == chain_text(texts(msgs@.take(i as int))),
        decreases msgs@.len() - i,
    {
        assert(texts(msgs@.take(i + 1)).drop_last() =~= texts(msgs@.take(i as int)));
        assert(texts(msgs@.take(i + 1)).last() == msgs@[i as int]@);
        push_decimal(&mut out, i as u64);
        push_text(&mut out, ": ");
        push_text(&mut out, msgs[i].as_str());
        push_text(&mut out, "\n");
        i = i + 1;
    }
    assert(msgs@.take(msgs@.len() as int) =~= msgs@);
    out
}

/// An error handed to the host: the rendered cause chain.
#[derive(Debug, Clone)]
pub struct CommandError(pub String);

impl CommandError {
    /// Renders a cause chain, outermost message first.
    pub fn from_chain(msgs: &Vec<String>) -> (r: CommandError)
        ensures
            r.0@ == chain_text(texts(msgs@)),
    {
        CommandError(render_chain(msgs))
    }

    /// The rendered text.
    pub fn message(&self) -> (r: String)
        ensures
            r@ == self.0@,
    {
        self.0.clone()
    }
}

/// A cause chain of messages, outermost first.
#[derive(Debug, Clone)]
pub struct ErrorChain {
    pub messages: Vec<String>,
}

/// Rendering a cause chain as numbered lines.
pub trait AnyhowErrorToStringChain {
    /// The messages of the chain, outermost first.
    spec fn chain_messages(&self) -> Seq<Seq<char>>;

    /// `"0: top\n1: context\n2: root cause\n"`; see `chain_text`.
    fn to_string_chain(&self) -> (r: String)
        ensures
            r@ == chain_text(self.chain_messages()),
    ;
}

impl AnyhowErrorToStringChain for ErrorChain {
    open spec fn chain_messages(&self) -> Seq<Seq<char>> {
        texts(self.messages@)
    }

    fn to_string_chain(&self) -> (r: String) {
        render_chain(&self.messages)
    }
}

} // verus!
