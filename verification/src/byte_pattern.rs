//! Streaming byte-pattern search with a precomputed failure table, used to
//! find multipart boundaries and header terminators without buffering.

use vstd::prelude::*;

verus! {

/// The last `k` bytes of `text` spell the first `k` bytes of `pattern`.
pub open spec fn ends_with_prefix(text: Seq<u8>, pattern: Seq<u8>, k: int) -> bool {
    &&& 0 <= k <= text.len()
    &&& k <= pattern.len()
    &&& text.subrange(text.len() - k, text.len() as int) == pattern.subrange(0, k)
}

/// `text` ends with the whole of `pattern`.
pub open spec fn ends_with(text: Seq<u8>, pattern: Seq<u8>) -> bool {
    ends_with_prefix(text, pattern, pattern.len() as int)
}

/// `k` is the longest length below `bound` for which `text` ends with that
/// prefix of `pattern`.
pub open spec fn longest_prefix_suffix(text: Seq<u8>, pattern: Seq<u8>, k: int, bound: int) -> bool {
    &&& 0 <= k < bound
    &&& ends_with_prefix(text, pattern, k)
    &&& forall|j: int| k < j < bound ==> !#[trigger] ends_with_prefix(text, pattern, j)
}

/// Entry `i` of the failure table is the longest proper border of the first
/// `i + 1` bytes of the pattern.
pub open spec fn failure_table(pattern: Seq<u8>, table: Seq<usize>, count: int) -> bool {
    forall|i: int|
        0 <= i < count ==> longest_prefix_suffix(
            pattern.take(i + 1),
            pattern,
            #[trigger] table[i] as int,
            i + 1,
        )
}

proof fn lemma_empty_prefix(text: Seq<u8>, pattern: Seq<u8>)
    ensures
        ends_with_prefix(text, pattern, 0),
        text.len() == 0 ==> longest_prefix_suffix(text, pattern, 0, pattern.len() + 1 as int),
        pattern.len() > 0 ==> longest_prefix_suffix(pattern.take(1), pattern, 0, 1),
{
    assert(text.subrange(text.len() as int, text.len() as int) =~= pattern.subrange(0, 0));
    if pattern.len() > 0 {
        assert(pattern.take(1).subrange(1, 1) =~= pattern.subrange(0, 0));
    }
}

proof fn lemma_extend(text: Seq<u8>, pattern: Seq<u8>, byte: u8, k: int)
    requires
        0 <= k < pattern.len(),
    ensures
        ends_with_prefix(text.push(byte), pattern, k + 1) == (ends_with_prefix(text, pattern, k)
            && pattern[k] == byte),
{
    let pushed = text.push(byte);
    let n = text.len() as int;
    if ends_with_prefix(pushed, pattern, k + 1) {
        assert(pushed.subrange(n + 1 - (k + 1), n + 1)[k] == pattern.subrange(0, k + 1)[k]);
        assert(text.subrange(n - k, n) =~= pattern.subrange(0, k)) by {
            assert forall|i: int| 0 <= i < k implies #[trigger] text.subrange(n - k, n)[i] == pattern.subrange(
                0,
                k,
            )[i] by {
                assert(pushed.subrange(n + 1 - (k + 1), n + 1)[i] == pattern.subrange(0, k + 1)[i]);
            }
        }
    }
    if ends_with_prefix(text, pattern, k) && pattern[k] == byte {
        assert(pushed.subrange(n + 1 - (k + 1), n + 1) =~= pattern.subrange(0, k + 1)) by {
            assert forall|i: int| 0 <= i < k + 1 implies #[trigger] pushed.subrange(n + 1 - (k + 1), n + 1)[i]
                == pattern.subrange(0, k + 1)[i] by {
                if i < k {
                    assert(text.subrange(n - k, n)[i] == pattern.subrange(0, k)[i]);
                }
            }
        }
    }
}

proof fn lemma_border_down(text: Seq<u8>, pattern: Seq<u8>, j: int, k: int)
    requires
        ends_with_prefix(text, pattern, j),
        ends_with_prefix(text, pattern, k),
        0 <= k <= j,
    ensures
        ends_with_prefix(pattern.take(j), pattern, k),
{
    let n = text.len() as int;
    let head = pattern.take(j);
    assert(head.subrange(j - k, j) =~= pattern.subrange(0, k)) by {
        assert forall|i: int| 0 <= i < k implies #[trigger] head.subrange(j - k, j)[i] == pattern.subrange(
            0,
            k,
        )[i] by {
            assert(text.subrange(n - j, n)[j - k + i] == pattern.subrange(0, j)[j - k + i]);
            assert(text.subrange(n - k, n)[i] == pattern.subrange(0, k)[i]);
        }
    }
}

proof fn lemma_border_up(text: Seq<u8>, pattern: Seq<u8>, j: int, k: int)
    requires
        ends_with_prefix(text, pattern, j),
        ends_with_prefix(pattern.take(j), pattern, k),
        0 <= k <= j,
    ensures
        ends_with_prefix(text, pattern, k),
{
    let n = text.len() as int;
    let head = pattern.take(j);
    assert(text.subrange(n - k, n) =~= pattern.subrange(0, k)) by {
        assert forall|i: int| 0 <= i < k implies #[trigger] text.subrange(n - k, n)[i] == pattern.subrange(
            0,
            k,
        )[i] by {
            assert(text.subrange(n - j, n)[j - k + i] == pattern.subrange(0, j)[j - k + i]);
            assert(head.subrange(j - k, j)[i] == pattern.subrange(0, k)[i]);
        }
    }
}

/// One step of the search: the longest prefix that `text` followed by `byte`
/// ends with, given the longest one below `bound` that `text` ends with.
fn advance(
    pattern: &Vec<u8>,
    table: &Vec<usize>,
    matched: usize,
    byte: u8,
    Ghost(text): Ghost<Seq<u8>>,
    Ghost(bound): Ghost<int>,
) -> (next: usize)
    requires
        bound <= pattern.len(),
        table.len() + 1 >= bound,
        failure_table(pattern@, table@, bound - 1),
        longest_prefix_suffix(text, pattern@, matched as int, bound),
    ensures
        next <= bound,
        ends_with_prefix(text.push(byte), pattern@, next as int),
        forall|j: int| next < j <= bound ==> !#[trigger] ends_with_prefix(text.push(byte), pattern@, j),
{
    let ghost p = pattern@;
    let mut j = matched;
    while j > 0 && byte != pattern[j]
        invariant
            j <= matched < bound <= p.len(),
            p == pattern@,
            table.len() + 1 >= bound,
            failure_table(p, table@, bound - 1),
            longest_prefix_suffix(text, p, matched as int, bound),
            ends_with_prefix(text, p, j as int),
            forall|k: int|
                j < k < bound && #[trigger] ends_with_prefix(text, p, k) ==> p[k] != byte,
        decreases j,
    {
        let ghost old_j = j as int;
        let shorter = table[j - 1];
        proof {
            assert(longest_prefix_suffix(p.take(old_j), p, shorter as int, old_j));
            lemma_border_up(text, p, old_j, shorter as int);
            assert forall|k: int|
                shorter < k < bound && #[trigger] ends_with_prefix(text, p, k) implies p[k]
                != byte by {
                if k < old_j {
                    lemma_border_down(text, p, old_j, k);
                }
            }
        }
        j = shorter;
    }
    let next = if byte == pattern[j] {
        j + 1
    } else {
        0
    };
    proof {
        lemma_empty_prefix(text.push(byte), p);
        if byte == p[j as int] {
            lemma_extend(text, p, byte, j as int);
        }
        assert forall|q: int| next < q <= bound implies !#[trigger] ends_with_prefix(
            text.push(byte),
            p,
            q,
        ) by {
            lemma_extend(text, p, byte, q - 1);
        }
    }
    next
}

/// Finds non-overlapping occurrences of a fixed byte pattern in a stream.
pub struct BytePatternMatcher {
    pattern: Vec<u8>,
    prefix: Vec<usize>,
    matched: usize,
    consumed: Ghost<Seq<u8>>,
}

impl BytePatternMatcher {
    /// The pattern being searched for.
    pub closed spec fn pattern_spec(&self) -> Seq<u8> {
        self.pattern@
    }

    /// The bytes pushed since the last reported match or reset.
    pub closed spec fn consumed(&self) -> Seq<u8> {
        self.consumed@
    }

    /// Length of the longest proper prefix of the pattern that the consumed
    /// bytes end with.
    pub closed spec fn progress(&self) -> int {
        self.matched as int
    }

    pub closed spec fn wf(&self) -> bool {
        let n = self.pattern@.len();
        &&& n > 0
        &&& self.prefix@.len() == n
        &&& failure_table(self.pattern@, self.prefix@, n as int)
        &&& self.matched < n
        &&& longest_prefix_suffix(self.consumed@, self.pattern@, self.matched as int, n + 1 as int)
    }

    pub fn new(pattern: Vec<u8>) -> (matcher: Self)
        requires
            pattern@.len() > 0,
        ensures
            matcher.wf(),
            matcher.pattern_spec() == pattern@,
            matcher.consumed() == Seq::<u8>::empty(),
            matcher.progress() == 0,
    {
        let n = pattern.len();
        let ghost p = pattern@;
        let mut prefix: Vec<usize> = Vec::new();
        prefix.push(0);
        proof {
            lemma_empty_prefix(p.take(1), p);
        }
        let mut index: usize = 1;
        while index < n
            invariant
                1 <= index <= n,
                n == p.len(),
                p == pattern@,
                prefix@.len() == index,
                failure_table(p, prefix@, index as int),
            decreases n - index,
        {
            let matched = prefix[index - 1];
            proof {
                assert(longest_prefix_suffix(p.take(index as int), p, matched as int, index as int));
            }
            let next = advance(
                &pattern,
                &prefix,
                matched,
                pattern[index],
                Ghost(p.take(index as int)),
                Ghost(index as int),
            );
            proof {
                assert(p.take(index as int).push(p[index as int]) =~= p.take(index + 1));
            }
            let ghost before = prefix@;
            prefix.push(next);
            proof {
                assert forall|i: int| 0 <= i < index + 1 implies longest_prefix_suffix(
                    p.take(i + 1),
                    p,
                    #[trigger] prefix@[i] as int,
                    i + 1,
                ) by {
                    if i < index {
                        assert(prefix@[i] == before[i]);
                    }
                }
            }
            index += 1;
        }
        let matcher = BytePatternMatcher {
            pattern,
            prefix,
            matched: 0,
            consumed: Ghost(Seq::empty()),
        };
        proof {
            lemma_empty_prefix(Seq::<u8>::empty(), p);
        }
        matcher
    }

    /// Consumes one byte. Returns `true` exactly when the consumed bytes now
    /// end with the pattern; the search then starts afresh.
    pub fn push(&mut self, byte: u8) -> (found: bool)
        requires
            old(self).wf(),
        ensures
            final(self).wf(),
            final(self).pattern_spec() == old(self).pattern_spec(),
            found == ends_with(old(self).consumed().push(byte), old(self).pattern_spec()),
            final(self).consumed() == if found {
                Seq::<u8>::empty()
            } else {
                old(self).consumed().push(byte)
            },
    {
        let n = self.pattern.len();
        let next = advance(
            &self.pattern,
            &self.prefix,
            self.matched,
            byte,
            Ghost(self.consumed@),
            Ghost(n as int),
        );
        if next == n {
            self.matched = 0;
            self.consumed = Ghost(Seq::empty());
            proof {
                lemma_empty_prefix(Seq::<u8>::empty(), self.pattern@);
            }
            true
        } else {
            self.matched = next;
            self.consumed = Ghost(self.consumed@.push(byte));
            false
        }
    }

    /// Length of the partial match carried between pushes.
    pub fn matched(&self) -> (length: usize)
        requires
            self.wf(),
        ensures
            length == self.progress(),
            length < self.pattern_spec().len(),
            longest_prefix_suffix(
                self.consumed(),
                self.pattern_spec(),
                length as int,
                self.pattern_spec().len() + 1 as int,
            ),
    {
        self.matched
    }

    /// Forgets any partial match.
    pub fn reset(&mut self)
        requires
            old(self).wf(),
        ensures
            final(self).wf(),
            final(self).pattern_spec() == old(self).pattern_spec(),
            final(self).consumed() == Seq::<u8>::empty(),
            final(self).progress() == 0,
    {
        self.matched = 0;
        self.consumed = Ghost(Seq::empty());
        proof {
            lemma_empty_prefix(Seq::<u8>::empty(), self.pattern@);
        }
    }
}

} // verus!
