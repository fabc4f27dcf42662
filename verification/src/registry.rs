//! The subscription registry: the topics the controller must keep
//! subscribed, in insertion order, each at most once. The controller
//! replays the registry on every (re)connection.

use vstd::prelude::*;
use crate::types::{Topic, TopicV};

verus! {

/// No topic appears twice.
pub open spec fn no_dup(s: Seq<TopicV>) -> bool {
    forall|i: int, j: int| 0 <= i < j < s.len() ==> s[i] != s[j]
}

/// The sequence with every occurrence of `t` taken out, order kept.
pub open spec fn remove_topic(s: Seq<TopicV>, t: TopicV) -> Seq<TopicV>
    decreases s.len(),
{
    if s.len() == 0 {
        s
    } else {
        let rest = remove_topic(s.drop_last(), t);
        if s.last() == t {
            rest
        } else {
            rest.push(s.last())
        }
    }
}

pub proof fn lemma_remove_topic_not_contains(s: Seq<TopicV>, t: TopicV)
    ensures
        !remove_topic(s, t).contains(t),
        forall|u: TopicV| u != t ==> (remove_topic(s, t).contains(u) <==> s.contains(u)),
        remove_topic(s, t).len() <= s.len(),
        no_dup(s) ==> no_dup(remove_topic(s, t)),
    decreases s.len(),
{
    if s.len() == 0 {
    } else {
        lemma_remove_topic_not_contains(s.drop_last(), t);
        let rest = remove_topic(s.drop_last(), t);
        assert(forall|u: TopicV| s.drop_last().contains(u) || u == s.last() ==> s.contains(u));
        assert(forall|u: TopicV|
            s.contains(u) ==> s.drop_last().contains(u) || u == s.last()) by {
            assert forall|u: TopicV| s.contains(u) implies s.drop_last().contains(u) || u
                == s.last() by {
                let i = choose|i: int| 0 <= i < s.len() && s[i] == u;
                if i < s.len() - 1 {
                    assert(s.drop_last()[i] == u);
                }
            }
        }
        if s.last() == t {
        } else {
            assert forall|u: TopicV| u != t implies (rest.push(s.last()).contains(u) <==> s
                .contains(u)) by {
                if rest.push(s.last()).contains(u) {
                    let i = choose|i: int|
                        0 <= i < rest.push(s.last()).len() && rest.push(s.last())[i] == u;
                    if i < rest.len() {
                        assert(rest.contains(u));
                    }
                }
                if s.contains(u) {
                    if u == s.last() {
                        assert(rest.push(s.last())[rest.len() as int] == u);
                    } else {
                        assert(s.drop_last().contains(u));
                        assert(rest.contains(u));
                        let i = choose|i: int| 0 <= i < rest.len() && rest[i] == u;
                        assert(rest.push(s.last())[i] == u);
                    }
                }
            }
            if no_dup(s) {
                assert forall|i: int| 0 <= i < rest.len() implies rest[i] != s.last() by {
                    assert(rest.contains(rest[i]));
                    assert(s.drop_last().contains(rest[i]));
                    let j = choose|j: int|
                        0 <= j < s.drop_last().len() && s.drop_last()[j] == rest[i];
                    assert(s[j] == rest[i]);
                    assert(s[j] != s[s.len() - 1]);
                }
                assert(no_dup(s.drop_last()));
                assert(no_dup(rest.push(s.last())));
            }
        }
    }
}

/// The set of desired topics, insertion order preserved.
pub struct Registry {
    pub topics: Vec<Topic>,
}

impl View for Registry {
    type V = Seq<TopicV>;

    open spec fn view(&self) -> Seq<TopicV> {
        self.topics@.map_values(|t: Topic| t@)
    }
}

impl Registry {
    pub open spec fn wf(&self) -> bool {
        no_dup(self@)
    }

    pub fn new() -> (r: Registry)
        ensures
            r@ == Seq::<TopicV>::empty(),
            r.wf(),
    {
        let r = Registry { topics: Vec::new() };
        proof {
            assert(r@ =~= Seq::<TopicV>::empty());
        }
        r
    }

    pub fn len(&self) -> (n: usize)
        ensures
            n == self@.len(),
    {
        self.topics.len()
    }

    pub fn contains(&self, t: &Topic) -> (b: bool)
        ensures
            b == self@.contains(t@),
    {
        let n = self.topics.len();
        let mut i: usize = 0;
        while i < n
            invariant
                i <= n,
                n == self.topics@.len(),
                forall|j: int| 0 <= j < i ==> self@[j] != t@,
            decreases n - i,
        {
            if self.topics[i].topic_eq(t) {
                proof {
                    assert(self@[i as int] == t@);
                }
                return true;
            }
            i += 1;
        }
        false
    }

    /// Add a topic; a topic already present is left alone. Returns whether
    /// the registry grew.
    pub fn add(&mut self, t: Topic) -> (added: bool)
        requires
            old(self).wf(),
        ensures
            final(self).wf(),
            added == !old(self)@.contains(t@),
            added ==> final(self)@ == old(self)@.push(t@),
            !added ==> final(self)@ == old(self)@,
    {
        if self.contains(&t) {
            false
        } else {
            let ghost pre = self@;
            let ghost tv = t@;
            self.topics.push(t);
            proof {
                assert(self@ =~= pre.push(tv));
                assert forall|i: int, j: int| 0 <= i < j < self@.len() implies self@[i]
                    != self@[j] by {
                    if j == self@.len() - 1 {
                        assert(pre.contains(pre[i]));
                    }
                }
            }
            true
        }
    }

    /// Take a topic out; a topic not present is a no-op.
    pub fn remove(&mut self, t: &Topic)
        requires
            old(self).wf(),
        ensures
            final(self).wf(),
            final(self)@ == remove_topic(old(self)@, t@),
            !final(self)@.contains(t@),
            forall|u: TopicV| u != t@ ==> (final(self)@.contains(u) <==> old(self)@.contains(u)),
    {
        let ghost pre = self@;
        let n = self.topics.len();
        let mut out: Vec<Topic> = Vec::new();
        let mut i: usize = 0;
        proof {
            assert(out@.map_values(|x: Topic| x@) =~= remove_topic(pre.take(0), t@));
        }
        while i < n
            invariant
                i <= n,
                n == self.topics@.len(),
                pre == self@,
                pre.len() == n,
                out@.map_values(|x: Topic| x@) == remove_topic(pre.take(i as int), t@),
            decreases n - i,
        {
            let ghost pre_out = out@.map_values(|x: Topic| x@);
            if !self.topics[i].topic_eq(t) {
                let item = self.topics[i].duplicate();
                out.push(item);
            }
            proof {
                assert(pre.take(i + 1).drop_last() =~= pre.take(i as int));
                assert(pre.take(i + 1).last() == pre[i as int]);
                if pre[i as int] != t@ {
                    assert(out@.map_values(|x: Topic| x@) =~= pre_out.push(pre[i as int]));
                }
            }
            i += 1;
        }
        proof {
            assert(pre.take(n as int) =~= pre);
            lemma_remove_topic_not_contains(pre, t@);
        }
        self.topics = out;
    }

    /// An exact copy of the registry's topics, in order.
    pub fn snapshot(&self) -> (v: Vec<Topic>)
        ensures
            v@.map_values(|x: Topic| x@) == self@,
    {
        let n = self.topics.len();
        let mut out: Vec<Topic> = Vec::new();
        let mut i: usize = 0;
        proof {
            assert(out@.map_values(|x: Topic| x@) =~= self@.take(0));
        }
        while i < n
            invariant
                i <= n,
                n == self.topics@.len(),
                out@.map_values(|x: Topic| x@) == self@.take(i as int),
            decreases n - i,
        {
            let ghost pre_out = out@.map_values(|x: Topic| x@);
            let item = self.topics[i].duplicate();
            out.push(item);
            proof {
                assert(self@.take(i + 1).drop_last() =~= self@.take(i as int));
                assert(out@.map_values(|x: Topic| x@) =~= pre_out.push(self@[i as int]));
                assert(out@.map_values(|x: Topic| x@) =~= self@.take(i + 1));
            }
            i += 1;
        }
        proof {
            assert(self@.take(n as int) =~= self@);
        }
        out
    }
}

} // verus!
