//! Token-count bookkeeping around an external tokenizer.
//!
//! Counting tokens is the tokenizer's business; this module owns what sits
//! around it: a bounded most-recent cache of counts keyed by the exact
//! content bytes, and the fixed arithmetic of the chat message format,
//! which charges a constant overhead per message, one count for its name
//! or role, one for its content, and a constant for the reply priming.

use vstd::prelude::*;

verus! {

/// How many entries the count cache keeps before the oldest is dropped.
pub const TOKEN_CACHE_CAPACITY: usize = 100;

/// First cached count for `key`, scanning from the oldest entry.
pub open spec fn cache_lookup(s: Seq<(Seq<u8>, usize)>, key: Seq<u8>) -> Option<usize>
    decreases s.len(),
{
    if s.len() == 0 {
        None
    } else if s.first().0 == key {
        Some(s.first().1)
    } else {
        cache_lookup(s.drop_first(), key)
    }
}

/// Bounded cache of token counts, oldest first.
pub struct TokenCountCache {
    entries: Vec<(Vec<u8>, usize)>,
}

impl TokenCountCache {
    /// The cached pairs, oldest first.
    pub closed spec fn view(self) -> Seq<(Seq<u8>, usize)> {
        self.entries@.map(|i: int, p: (Vec<u8>, usize)| (p.0@, p.1))
    }

    pub fn new() -> (c: TokenCountCache)
        ensures
            c.view() == Seq::<(Seq<u8>, usize)>::empty(),
    {
        let c = TokenCountCache { entries: Vec::new() };
        proof {
            assert(c.view() =~= Seq::<(Seq<u8>, usize)>::empty());
        }
        c
    }

    /// The cached count for exactly these content bytes, if any.
    pub fn lookup(&self, key: &[u8]) -> (r: Option<usize>)
        ensures
            r == cache_lookup(self.view(), key@),
    {
        let n = self.entries.len();
        let mut i: usize = 0;
        proof {
            assert(self.view().skip(0) =~= self.view());
        }
        while i < n
            invariant
                n == self.entries@.len(),
                i <= n,
                forall|j: int| 0 <= j < i ==> self.view()[j].0 != key@,
                cache_lookup(self.view(), key@) == cache_lookup(
                    self.view().skip(i as int),
                    key@,
                ),
            decreases n - i,
        {
            let ghost pre = self.view().skip(i as int);
            if vec_eq_slice(&self.entries[i].0, key) {
                proof {
                    assert(pre.first() == self.view()[i as int]);
                }
                return Some(self.entries[i].1);
            }
            proof {
                assert(pre.first() == self.view()[i as int]);
                assert(pre.drop_first() =~= self.view().skip(i + 1));
            }
            i = i + 1;
        }
        proof {
            assert(self.view().skip(n as int) =~= Seq::<(Seq<u8>, usize)>::empty());
        }
        None
    }

    /// Remember a count: appended as the newest entry, and once the cache
    /// is over capacity the oldest entry falls out.
    pub fn insert(&mut self, key: Vec<u8>, count: usize)
        ensures
            ({
                let pushed = old(self).view().push((key@, count));
                final(self).view() == if pushed.len() > TOKEN_CACHE_CAPACITY {
                    pushed.drop_first()
                } else {
                    pushed
                }
            }),
    {
        let ghost pushed = self.view().push((key@, count));
        self.entries.push((key, count));
        proof {
            assert(self.view() =~= pushed);
        }
        if self.entries.len() > TOKEN_CACHE_CAPACITY {
            self.entries.remove(0);
            proof {
                assert(self.view() =~= pushed.drop_first());
            }
        }
    }
}

/// Whether a vector holds exactly the bytes of a slice.
fn vec_eq_slice(v: &Vec<u8>, s: &[u8]) -> (r: bool)
    ensures
        r == (v@ == s@),
{
    if v.len() != s.len() {
        proof {
            assert(v@ != s@);
        }
        return false;
    }
    let n = v.len();
    let mut i: usize = 0;
    while i < n
        invariant
            n == v@.len(),
            n == s@.len(),
            i <= n,
            forall|j: int| 0 <= j < i ==> v@[j] == s@[j],
        decreases n - i,
    {
        if v[i] != s[i] {
            return false;
        }
        i = i + 1;
    }
    proof {
        assert(v@ =~= s@);
    }
    true
}

/// The chat-format total over per-message counts: each message costs a
/// fixed overhead of four tokens plus its two counted fields, and the
/// priming of the reply costs two more.
pub open spec fn spec_chat_format_total(counts: Seq<(usize, usize)>) -> int
    decreases counts.len(),
{
    if counts.len() == 0 {
        2
    } else {
        spec_chat_format_total(counts.drop_last()) + 4 + counts.last().0 + counts.last().1
    }
}

/// The total never shrinks as messages are appended.
proof fn lemma_chat_total_prefix(counts: Seq<(usize, usize)>, i: int)
    requires
        0 <= i <= counts.len(),
    ensures
        spec_chat_format_total(counts.take(i)) <= spec_chat_format_total(counts),
    decreases counts.len() - i,
{
    if i < counts.len() {
        lemma_chat_total_prefix(counts, i + 1);
        assert(counts.take(i + 1).drop_last() =~= counts.take(i));
        assert(counts.take(i + 1).last() == counts[i]);
    } else {
        assert(counts.take(i) =~= counts);
    }
}

/// Total tokens of a chat-format conversation, given each message's two
/// field counts (its name-or-role count and its content count). `None`
/// exactly when the exact total does not fit the machine word.
pub fn chat_format_token_total(per_message: &Vec<(usize, usize)>) -> (r: Option<usize>)
    ensures
        match r {
            Some(total) => total == spec_chat_format_total(per_message@),
            None => spec_chat_format_total(per_message@) > usize::MAX,
        },
{
    let n = per_message.len();
    let mut total: usize = 2;
    let mut i: usize = 0;
    proof {
        assert(per_message@.take(0) =~= Seq::<(usize, usize)>::empty());
    }
    while i < n
        invariant
            n == per_message@.len(),
            i <= n,
            total == spec_chat_format_total(per_message@.take(i as int)),
        decreases n - i,
    {
        let (a, b) = per_message[i];
        let step = match total.checked_add(4) {
            Some(t) => t,
            None => {
                proof {
                    overflow_means_total_exceeds(per_message@, i as int);
                }
                return None;
            },
        };
        let step = match step.checked_add(a) {
            Some(t) => t,
            None => {
                proof {
                    overflow_means_total_exceeds(per_message@, i as int);
                }
                return None;
            },
        };
        let step = match step.checked_add(b) {
            Some(t) => t,
            None => {
                proof {
                    overflow_means_total_exceeds(per_message@, i as int);
                }
                return None;
            },
        };
        proof {
            assert(per_message@.take(i + 1).drop_last() =~= per_message@.take(i as int));
            assert(per_message@.take(i + 1).last() == per_message@[i as int]);
        }
        total = step;
        i = i + 1;
    }
    proof {
        assert(per_message@.take(n as int) =~= per_message@);
    }
    Some(total)
}

/// If one message's addition overflows the running total, the exact total
/// of the whole conversation is out of range too.
proof fn overflow_means_total_exceeds(counts: Seq<(usize, usize)>, i: int)
    requires
        0 <= i < counts.len(),
        spec_chat_format_total(counts.take(i)) + 4 + counts[i].0 + counts[i].1 > usize::MAX,
    ensures
        spec_chat_format_total(counts) > usize::MAX,
{
    assert(counts.take(i + 1).drop_last() =~= counts.take(i));
    assert(counts.take(i + 1).last() == counts[i]);
    lemma_chat_total_prefix(counts, i + 1);
}

} // verus!
