//! The scrolling console: the last `CONSLINES` messages, oldest first, each
//! with an age of the caller's choosing.

use vstd::prelude::*;
use crate::consts::CONSLINES;

verus! {

pub struct Console<A> {
    pub age: Vec<A>,
    pub next: usize,
    pub buf: Vec<String>,
}

/// The console holds `CONSLINES` slots, of which the first `next` are used.
pub open spec fn console_wf<A>(c: Console<A>) -> bool {
    &&& c.age@.len() == CONSLINES
    &&& c.buf@.len() == CONSLINES
    &&& c.next <= CONSLINES
}

impl<A: Copy> Console<A> {
    /// An empty console whose slots have age `fill`.
    pub fn new(fill: A) -> (c: Self)
        ensures
            console_wf(c),
            c.next == 0,
            forall|i: int| 0 <= i < CONSLINES ==> #[trigger] c.age@[i] == fill,
            forall|i: int| 0 <= i < CONSLINES ==> (#[trigger] c.buf@[i])@.len() == 0,
    {
        let mut age: Vec<A> = Vec::new();
        let mut buf: Vec<String> = Vec::new();
        let mut i: usize = 0;
        while i < CONSLINES
            invariant
                i <= CONSLINES,
                age@.len() == i,
                buf@.len() == i,
                forall|j: int| 0 <= j < i ==> #[trigger] age@[j] == fill,
                forall|j: int| 0 <= j < i ==> (#[trigger] buf@[j])@.len() == 0,
            decreases CONSLINES - i,
        {
            let blank = String::new();
            age.push(fill);
            buf.push(blank);
            i += 1;
        }
        Console { age, next: 0, buf }
    }

    /// Adds message `msg` with age `zero`; when the console is full, the
    /// oldest message scrolls off first.
    pub fn add(&mut self, msg: String, zero: A)
        requires
            console_wf(*old(self)),
        ensures
            console_wf(*final(self)),
            old(self).next < CONSLINES ==> {
                &&& final(self).next == old(self).next + 1
                &&& final(self).buf@ == old(self).buf@.update(old(self).next as int, msg)
                &&& final(self).age@ == old(self).age@.update(old(self).next as int, zero)
            },
            old(self).next == CONSLINES ==> {
                &&& final(self).next == CONSLINES
                &&& final(self).buf@ == old(self).buf@.drop_first().push(msg)
                &&& final(self).age@ == old(self).age@.drop_first().push(zero)
            },
    {
        if self.next >= CONSLINES {
            let _dropped = self.buf.remove(0);
            let _gone = self.age.remove(0);
            self.buf.push(msg);
            self.age.push(zero);
            assert(self.buf@ =~= old(self).buf@.drop_first().push(msg));
            assert(self.age@ =~= old(self).age@.drop_first().push(zero));
        } else {
            let n = self.next;
            self.buf.set(n, msg);
            self.age.set(n, zero);
            self.next += 1;
        }
    }
}

/// What the message key does to the message line `text`: a shown message is
/// dismissed; with none shown, the last message `last_text` comes back, if
/// there was one. Returns whether it came back (its age then starts again).
pub fn toggle_message(text: &mut String, last_text: &str) -> (recalled: bool)
    ensures
        old(text)@.len() > 0 ==> final(text)@.len() == 0 && !recalled,
        old(text)@.len() == 0 && last_text@.len() > 0 ==> final(text)@ == last_text@ && recalled,
        old(text)@.len() == 0 && last_text@.len() == 0 ==> final(text)@ == old(text)@ && !recalled,
{
    if !text.as_str().is_empty() {
        *text = String::new();
        false
    } else if !last_text.is_empty() {
        *text = last_text.to_owned();
        true
    } else {
        false
    }
}

} // verus!
