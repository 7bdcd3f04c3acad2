use vstd::prelude::*;
use vstd::string::*;

use crate::config::default_config;
use crate::decimal::{decimal, decimal_string, lemma_decimal_injective};

verus! {

/// The key expression on which the hello examples publish and subscribe.
pub const KEY: &'static str = "hello/world";

/// The configuration of the hello examples: zenoh's default one.
pub fn get_config() -> zenoh::Config {
    default_config()
}

/// How many messages a hello publisher sends, and a hello queryable answers.
pub const HELLO_COUNT: u32 = 10;

/// The text of the `i`-th hello message: `HELLO#` and `i` in decimal.
pub open spec fn hello_text(i: nat) -> Seq<char> {
    "HELLO#"@ + decimal(i)
}

/// The numbering of the hello messages: the next message to send, until
/// `HELLO_COUNT` have gone out.
pub struct HelloSequence {
    next: u32,
}

impl View for HelloSequence {
    type V = nat;

    /// The number of messages already handed out.
    closed spec fn view(&self) -> nat {
        self.next as nat
    }
}

impl HelloSequence {
    /// A sequence that has handed out no message yet.
    pub fn new() -> (res: HelloSequence)
        ensures
            res@ == 0,
    {
        HelloSequence { next: 0 }
    }

    /// The next hello message, `HELLO#0` first; `None` once `HELLO_COUNT`
    /// messages have been handed out, and the sequence then stays as it is.
    pub fn next_message(&mut self) -> (res: Option<String>)
        ensures
            old(self)@ < HELLO_COUNT ==> (res matches Some(text) && text@ == hello_text(
                old(self)@,
            )) && final(self)@ == old(self)@ + 1,
            old(self)@ >= HELLO_COUNT ==> res is None && final(self)@ == old(self)@,
    {
        if self.next < HELLO_COUNT {
            let mut text = String::from_str("HELLO#");
            let number = decimal_string(self.next);
            text.append(number.as_str());
            proof {
                reveal_strlit("HELLO#");
            }
            self.next = self.next + 1;
            Some(text)
        } else {
            None
        }
    }
}

/// Hello messages with distinct numbers have distinct texts, so a receiver
/// can tell every message of a run from the others.
pub proof fn lemma_hello_texts_distinct(i: nat, j: nat)
    requires
        i != j,
    ensures
        hello_text(i) != hello_text(j),
{
    reveal_strlit("HELLO#");
    if hello_text(i) == hello_text(j) {
        let p = "HELLO#"@;
        assert(hello_text(i).skip(p.len() as int) =~= decimal(i));
        assert(hello_text(j).skip(p.len() as int) =~= decimal(j));
        lemma_decimal_injective(i, j);
    }
}

} // verus!
