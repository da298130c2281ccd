use vstd::prelude::*;
use std::collections::VecDeque;

verus! {

/// The last `cap` entries of `s`, or all of them when there are fewer.
pub open spec fn newest(s: Seq<Seq<char>>, cap: nat) -> Seq<Seq<char>> {
    if s.len() <= cap {
        s
    } else {
        s.subrange(s.len() - cap, s.len() as int)
    }
}

/// The most recent game messages, oldest first, bounded in number.
#[derive(Debug)]
pub struct MessageLog {
    messages: VecDeque<String>,
    max_messages: usize,
}

impl MessageLog {
    /// The stored messages, oldest first.
    pub closed spec fn view_messages(&self) -> Seq<Seq<char>> {
        self.messages@.map_values(|m: String| m@)
    }

    pub closed spec fn capacity(&self) -> nat {
        self.max_messages as nat
    }

    pub closed spec fn wf(&self) -> bool {
        self.max_messages > 0 && self.messages@.len() <= self.max_messages
    }

    /// An empty log that keeps the five most recent messages.
    pub fn new() -> (r: MessageLog)
        ensures
            r.wf(),
            r.capacity() == 5,
            r.view_messages() == Seq::<Seq<char>>::empty(),
    {
        let r = MessageLog { messages: VecDeque::new(), max_messages: 5 };
        assert(r.view_messages() =~= Seq::<Seq<char>>::empty());
        r
    }

    /// Appends a message, dropping the oldest one when the log is full.
    pub fn add_message(&mut self, message: String)
        requires
            old(self).wf(),
        ensures
            final(self).wf(),
            final(self).capacity() == old(self).capacity(),
            final(self).view_messages() == if old(self).view_messages().len() >= old(self).capacity() {
                old(self).view_messages().drop_first().push(message@)
            } else {
                old(self).view_messages().push(message@)
            },
    {
        let ghost before = self.view_messages();
        let ghost text = message@;
        if self.messages.len() >= self.max_messages {
            self.messages.pop_front();
            self.messages.push_back(message);
            assert(self.view_messages() =~= before.drop_first().push(text));
        } else {
            self.messages.push_back(message);
            assert(self.view_messages() =~= before.push(text));
        }
    }

    /// Appends messages in order, each as `add_message` does: the log ends up
    /// with the newest of its old messages followed by the new ones.
    pub fn add_all(&mut self, messages: &Vec<String>)
        requires
            old(self).wf(),
        ensures
            final(self).wf(),
            final(self).capacity() == old(self).capacity(),
            final(self).view_messages() == newest(
                old(self).view_messages() + messages@.map_values(|m: String| m@),
                old(self).capacity(),
            ),
    {
        let ghost start = self.view_messages();
        let ghost cap = self.capacity();
        let ghost all = messages@.map_values(|m: String| m@);
        let mut i: usize = 0;
        assert(start + all.subrange(0, 0) =~= start);
        while i < messages.len()
            invariant
                self.wf(),
                self.capacity() == cap,
                cap == old(self).capacity(),
                start == old(self).view_messages(),
                start.len() <= cap,
                all == messages@.map_values(|m: String| m@),
                i <= messages@.len(),
                self.view_messages() == newest(start + all.subrange(0, i as int), cap),
            decreases messages@.len() - i,
        {
            let ghost before = self.view_messages();
            let ghost t = start + all.subrange(0, i as int);
            let m = messages[i].clone();
            let ghost text = m@;
            self.add_message(m);
            i += 1;
            proof {
                let t2 = start + all.subrange(0, i as int);
                assert(t2 =~= t.push(text));
                if t.len() < cap {
                    assert(newest(t2, cap) =~= before.push(text));
                } else if t.len() == cap {
                    assert(newest(t2, cap) =~= before.drop_first().push(text));
                } else {
                    assert(newest(t2, cap) =~= before.drop_first().push(text));
                }
            }
        }
        assert(all.subrange(0, i as int) =~= all);
    }

    /// A copy of the stored messages, oldest first.
    pub fn get_messages(&self) -> (r: Vec<String>)
        ensures
            r@.map_values(|m: String| m@) == self.view_messages(),
    {
        let mut r: Vec<String> = Vec::with_capacity(self.messages.len());
        let mut i: usize = 0;
        while i < self.messages.len()
            invariant
                i <= self.messages@.len(),
                r@ == self.messages@.subrange(0, i as int),
            decreases self.messages@.len() - i,
        {
            r.push(self.messages[i].clone());
            i += 1;
            assert(r@ =~= self.messages@.subrange(0, i as int));
        }
        assert(self.messages@.subrange(0, i as int) =~= self.messages@);
        assert(r@.map_values(|m: String| m@) =~= self.view_messages());
        r
    }

    pub fn clear(&mut self)
        requires
            old(self).wf(),
        ensures
            final(self).wf(),
            final(self).capacity() == old(self).capacity(),
            final(self).view_messages() == Seq::<Seq<char>>::empty(),
    {
        self.messages.clear();
        assert(self.view_messages() =~= Seq::<Seq<char>>::empty());
    }

    pub fn len(&self) -> (r: usize)
        ensures
            r == self.view_messages().len(),
    {
        self.messages.len()
    }

    pub fn is_empty(&self) -> (r: bool)
        ensures
            r == (self.view_messages().len() == 0),
    {
        self.messages.len() == 0
    }
}

impl Default for MessageLog {
    fn default() -> (r: MessageLog)
        ensures
            r.wf(),
            r.capacity() == 5,
            r.view_messages() == Seq::<Seq<char>>::empty(),
    {
        MessageLog::new()
    }
}

} // verus!
