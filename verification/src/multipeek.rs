use vstd::prelude::*;
use vstd::pervasive::cloned;

verus! {

/// A lookahead buffer over a finite sequence of items.
///
/// `next` hands every item out exactly once, in the original order.
/// `peek` looks one item deeper into the upcoming items on each call
/// without disturbing the order in which `next` will return them.
pub struct Multipeek<T> {
    /// The items `next` has not yet handed out, front first.
    source: Vec<T>,
    /// How many of the upcoming items peeking has already fetched.
    buffered: usize,
    /// A copy of the first item of the sequence, captured at construction.
    pub current: Option<T>,
}

impl<T: Clone> Multipeek<T> {
    /// The items not yet handed out by `next`, in their original order.
    pub closed spec fn remaining(&self) -> Seq<T> {
        self.source@
    }

    /// How many upcoming items peeking has already fetched ahead.
    pub closed spec fn fetched(&self) -> int {
        self.buffered as int
    }

    /// The first item captured at construction, as the contracts see it.
    pub closed spec fn spec_current(&self) -> Option<T> {
        self.current
    }

    /// The buffer never fetches ahead of what remains to be consumed.
    pub closed spec fn wf(&self) -> bool {
        self.buffered <= self.source.len()
    }

    /// Wraps a sequence of items, keeping a copy of its first item as
    /// `current`; the pending queue starts empty, so the first `peek` looks
    /// at the first item of the sequence.
    pub fn new(source: Vec<T>) -> (mp: Self)
        ensures
            mp.wf(),
            mp.remaining() == source@,
            mp.fetched() == 0,
            source@.len() == 0 ==> mp.spec_current() is None,
            source@.len() > 0 ==> (mp.spec_current() matches Some(c) && cloned::<T>(source@[0], c)),
    {
        let current = if source.len() > 0 {
            Some(source[0].clone())
        } else {
            None
        };
        Multipeek { source, buffered: 0, current }
    }

    /// Returns the next item not yet fetched by peeking, without removing
    /// any item from the stream that `next` consumes.
    pub fn peek(&mut self) -> (r: Option<&T>)
        ensures
            old(self).wf() ==> final(self).wf(),
            final(self).remaining() == old(self).remaining(),
            final(self).spec_current() == old(self).spec_current(),
            old(self).fetched() < old(self).remaining().len() ==> {
                &&& final(self).fetched() == old(self).fetched() + 1
                &&& (r matches Some(t) && *t == old(self).remaining()[old(self).fetched()])
            },
            old(self).fetched() >= old(self).remaining().len() ==> {
                &&& final(self).fetched() == old(self).fetched()
                &&& r is None
            },
    {
        if self.buffered < self.source.len() {
            self.buffered = self.buffered + 1;
            Some(&self.source[self.buffered - 1])
        } else {
            None
        }
    }

    /// Hands out the next item in the original order, whether or not it
    /// was fetched ahead by peeking.
    pub fn next(&mut self) -> (r: Option<T>)
        ensures
            old(self).wf() ==> final(self).wf(),
            final(self).spec_current() == old(self).spec_current(),
            old(self).remaining().len() == 0 ==> {
                &&& r is None
                &&& final(self).remaining() == old(self).remaining()
                &&& final(self).fetched() == old(self).fetched()
            },
            old(self).remaining().len() > 0 ==> {
                &&& (r matches Some(t) && t == old(self).remaining()[0])
                &&& final(self).remaining() == old(self).remaining().drop_first()
                &&& final(self).fetched() == if old(self).fetched() > 0 {
                    (old(self).fetched() - 1) as int
                } else {
                    0int
                }
            },
    {
        if self.source.len() > 0 {
            let t = self.source.remove(0);
            if self.buffered > 0 {
                self.buffered = self.buffered - 1;
            }
            proof {
                assert(self.source@ =~= old(self).source@.drop_first());
            }
            Some(t)
        } else {
            None
        }
    }

    /// Consumes and returns the next item only when it satisfies the
    /// given predicate; otherwise leaves the stream untouched.
    pub fn next_if<F: Fn(&T) -> bool>(&mut self, pred: F) -> (r: Option<T>)
        requires
            forall|t: &T| #[trigger] call_requires(pred, (t,)),
        ensures
            old(self).wf() ==> final(self).wf(),
            final(self).spec_current() == old(self).spec_current(),
            match r {
                Some(t) => {
                    &&& old(self).remaining().len() > 0
                    &&& t == old(self).remaining()[0]
                    &&& call_ensures(pred, (&old(self).remaining()[0],), true)
                    &&& final(self).remaining() == old(self).remaining().drop_first()
                    &&& final(self).fetched() == if old(self).fetched() > 0 {
                        (old(self).fetched() - 1) as int
                    } else {
                        0int
                    }
                },
                None => {
                    &&& final(self).remaining() == old(self).remaining()
                    &&& final(self).fetched() == old(self).fetched()
                    &&& (old(self).remaining().len() > 0 ==> call_ensures(
                        pred,
                        (&old(self).remaining()[0],),
                        false,
                    ))
                },
            },
    {
        if self.source.len() > 0 {
            let take = pred(&self.source[0]);
            if take {
                let t = self.source.remove(0);
                if self.buffered > 0 {
                    self.buffered = self.buffered - 1;
                }
                proof {
                    assert(self.source@ =~= old(self).source@.drop_first());
                }
                Some(t)
            } else {
                None
            }
        } else {
            None
        }
    }
}

/// Peeking capability over a stream of items.
pub trait Multipeeker {
    type Item;

    /// Returns an upcoming item without consuming it from the stream.
    fn peek(&mut self) -> Option<Self::Item>;
}

impl<T: Clone> Multipeeker for Multipeek<T> {
    type Item = T;

    fn peek(&mut self) -> Option<T> {
        match Multipeek::peek(self) {
            Some(t) => Some(t.clone()),
            None => None,
        }
    }
}

} // verus!
