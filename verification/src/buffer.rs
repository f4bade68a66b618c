//! The rolling output buffer: an append-only accumulator of application
//! text, capped by truncation from the front so that prompts split across
//! several frames can still be matched as one string.
use vstd::prelude::*;

verus! {

/// Upper bound, in characters, on the rolling output buffer.
pub const BUFFER_CAP: usize = 10000;

/// What the buffer holds after appending `chunk` to `buf`: the whole
/// concatenation when it fits, otherwise its last `BUFFER_CAP` characters.
pub open spec fn rolled(buf: Seq<char>, chunk: Seq<char>) -> Seq<char> {
    let all = buf + chunk;
    if all.len() <= BUFFER_CAP {
        all
    } else {
        all.skip(all.len() - BUFFER_CAP)
    }
}

/// Bounded rolling accumulator of all application output seen so far.
/// Holding characters rather than bytes, a front cut can never split a
/// character.
pub struct RollingBuffer {
    data: Vec<char>,
}

impl View for RollingBuffer {
    type V = Seq<char>;

    closed spec fn view(&self) -> Seq<char> {
        self.data@
    }
}

impl RollingBuffer {
    /// The buffer never exceeds its cap.
    pub open spec fn wf(&self) -> bool {
        self@.len() <= BUFFER_CAP
    }

    /// A fresh session starts with an empty buffer.
    pub fn new() -> (r: Self)
        ensures
            r@ == Seq::<char>::empty(),
            r.wf(),
    {
        RollingBuffer { data: Vec::new() }
    }

    pub fn len(&self) -> (r: usize)
        ensures
            r == self@.len(),
    {
        self.data.len()
    }

    /// Read access for the scanning rules.
    pub fn as_slice(&self) -> (r: &[char])
        ensures
            r@ == self@,
    {
        self.data.as_slice()
    }

    /// Appends a chunk of output, then cuts from the front down to the cap.
    pub fn append(&mut self, chunk: &[char])
        requires
            old(self).wf(),
        ensures
            final(self).wf(),
            final(self)@ == rolled(old(self)@, chunk@),
            final(self)@.len() <= BUFFER_CAP,
    {
        let ghost before = self.data@;
        let mut j: usize = 0;
        while j < chunk.len()
            invariant
                j <= chunk@.len(),
                self.data@ == before + chunk@.subrange(0, j as int),
            decreases chunk@.len() - j,
        {
            self.data.push(chunk[j]);
            proof {
                assert(before + chunk@.subrange(0, j as int) + seq![chunk@[j as int]] =~= before
                    + chunk@.subrange(0, j as int + 1));
            }
            j += 1;
        }
        proof {
            assert(self.data@ =~= before + chunk@);
        }
        if self.data.len() > BUFFER_CAP {
            let cut = self.data.len() - BUFFER_CAP;
            let ghost all = self.data@;
            let mut kept: Vec<char> = Vec::new();
            let mut i: usize = cut;
            while i < self.data.len()
                invariant
                    cut <= i <= self.data@.len(),
                    self.data@ == all,
                    kept@ == all.subrange(cut as int, i as int),
                decreases self.data@.len() - i,
            {
                let ch = self.data[i];
                kept.push(ch);
                proof {
                    assert(all.subrange(cut as int, i as int) + seq![all[i as int]]
                        =~= all.subrange(cut as int, i as int + 1));
                }
                i += 1;
            }
            proof {
                assert(kept@ =~= all.skip(cut as int));
            }
            self.data = kept;
        }
        proof {
            assert(self.data@ =~= rolled(before, chunk@));
        }
    }

    /// Replaces every occurrence of a trigger phrase by the sentinel.
    pub fn consume(&mut self, phrase: &[char], sentinel: char)
        requires
            old(self).wf(),
            phrase@.len() >= 1,
        ensures
            final(self).wf(),
            final(self)@ == crate::text::replace_all(old(self)@, phrase@, sentinel),
    {
        let replaced = crate::text::replace_all_exec(self.data.as_slice(), phrase, sentinel);
        proof {
            crate::text::lemma_replace_all_len(self.data@, phrase@, sentinel);
        }
        self.data = replaced;
    }
}

} // verus!
