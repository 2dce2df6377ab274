//! The time window of one upstream exchange: every answer that arrives
//! before the window closes is looked at, and the one kept is the last
//! successful answer, or the last error where nothing succeeded.

use vstd::prelude::*;

verus! {

/// What is kept after `item` arrives while `held` was kept: a success
/// always replaces what was kept, an error only replaces nothing or
/// another error.
pub open spec fn settle<R, E>(held: Option<Result<R, E>>, item: Result<R, E>) -> Option<Result<R, E>> {
    match item {
        Ok(_) => Some(item),
        Err(_) => match held {
            Some(Ok(_)) => held,
            _ => Some(item),
        },
    }
}

/// What is kept after `items` arrive in order, starting from `held`.
pub open spec fn settle_all<R, E>(held: Option<Result<R, E>>, items: Seq<Result<R, E>>) -> Option<
    Result<R, E>,
>
    decreases items.len(),
{
    if items.len() == 0 {
        held
    } else {
        settle(settle_all(held, items.drop_last()), items.last())
    }
}

/// Over a whole window, the answer kept is the last success where there is
/// one (no later answer is a success), the last error where every answer
/// was an error, and nothing where no answer came.
pub proof fn law_last_success_wins<R, E>(items: Seq<Result<R, E>>)
    ensures
        (exists|i: int| 0 <= i < items.len() && items[i] is Ok) ==> exists|j: int|
            0 <= j < items.len() && items[j] is Ok && settle_all(None, items) == Some(items[j])
                && forall|k: int| j < k < items.len() ==> #[trigger] items[k] is Err,
        (forall|i: int| 0 <= i < items.len() ==> #[trigger] items[i] is Err) && items.len() > 0
            ==> settle_all(None, items) == Some(items.last()),
        items.len() == 0 ==> settle_all(None, items) is None,
    decreases items.len(),
{
    if items.len() > 0 {
        let t = items.drop_last();
        let n = items.len() - 1;
        law_last_success_wins(t);
        assert forall|i: int| 0 <= i < t.len() implies t[i] == items[i] by {}
        if items.last() is Ok {
            assert(items[n] is Ok);
        } else {
            if exists|i: int| 0 <= i < t.len() && t[i] is Ok {
                let j = choose|j: int|
                    0 <= j < t.len() && t[j] is Ok && settle_all(None, t) == Some(t[j]) && forall|
                        k: int,
                    | j < k < t.len() ==> #[trigger] t[k] is Err;
                assert(items[j] is Ok);
                assert forall|k: int| j < k < items.len() implies #[trigger] items[k] is Err by {
                    if k < n {
                        assert(t[k] is Err);
                    }
                }
            } else {
                assert forall|i: int| 0 <= i < items.len() implies #[trigger] items[i] is Err by {
                    if i < n {
                        assert(!(t[i] is Ok));
                    }
                }
                if t.len() > 0 {
                    assert(t[t.len() - 1] is Err);
                }
            }
        }
    }
}

/// A success that is kept is never replaced by a later error.
pub proof fn law_error_keeps_success<R, E>(held: Option<Result<R, E>>, e: E)
    requires
        held matches Some(Ok(_)),
    ensures
        settle(held, Err(e)) == held,
{
}

/// The answers collected from one upstream stream while its window is open.
pub struct ConnectionWindow<R, E> {
    stream_open: bool,
    received: Option<Result<R, E>>,
}

impl<R, E> ConnectionWindow<R, E> {
    /// Whether the upstream stream may still yield answers.
    pub closed spec fn spec_open(&self) -> bool {
        self.stream_open
    }

    /// The answer kept so far.
    pub closed spec fn spec_held(&self) -> Option<Result<R, E>> {
        self.received
    }

    pub fn new() -> (r: Self)
        ensures
            r.spec_open(),
            r.spec_held() is None,
    {
        ConnectionWindow { stream_open: true, received: None }
    }

    pub fn is_open(&self) -> (r: bool)
        ensures
            r == self.spec_open(),
    {
        self.stream_open
    }

    /// Takes in what the open stream yielded: an answer, or its end.
    pub fn on_item(&mut self, item: Option<Result<R, E>>)
        requires
            old(self).spec_open(),
        ensures
            match item {
                Some(x) => final(self).spec_open() && final(self).spec_held() == settle(
                    old(self).spec_held(),
                    x,
                ),
                None => !final(self).spec_open() && final(self).spec_held() == old(
                    self,
                ).spec_held(),
            },
    {
        match item {
            Some(Ok(r)) => {
                self.received = Some(Ok(r));
            },
            Some(Err(e)) => {
                let keep = match &self.received {
                    Some(Ok(_)) => true,
                    _ => false,
                };
                if !keep {
                    self.received = Some(Err(e));
                }
            },
            None => {
                self.stream_open = false;
            },
        }
    }

    /// Closes the window: hands out the kept answer and keeps nothing.
    pub fn finish(&mut self) -> (r: Option<Result<R, E>>)
        ensures
            r == old(self).spec_held(),
            final(self).spec_held() is None,
            final(self).spec_open() == old(self).spec_open(),
    {
        self.received.take()
    }
}

} // verus!
