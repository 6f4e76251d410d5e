//! The breakpoint store and the step-over-breakpoint decisions.
//!
//! The store is the single source of truth for which addresses of the traced
//! child currently hold a trap byte and which original byte each trap
//! displaced.  Pending addresses (requested, not yet patched into a live
//! process) are kept apart from installed ones, because original bytes are
//! only meaningful for the lifetime of one process image: when the child
//! dies, the addresses are carried back to the pending side and the bytes
//! are dropped.
//!
//! The actual peeks and pokes of the child's memory happen outside this
//! crate; the methods here take the word that was read and hand back the
//! word to write, so every byte of every write is accounted for by a
//! contract.

use vstd::prelude::*;

use crate::words::TRAP_OPCODE;
use crate::words::WORD_SIZE;
use crate::words::byte_of_word;
use crate::words::byte_offset_in_word;
use crate::words::extract_byte;
use crate::words::lemma_patch_restore_roundtrip;
use crate::words::lemma_word_with_byte;
use crate::words::replace_byte;
use crate::words::word_with_byte;

verus! {

/// The addresses of a sequence of installed-breakpoint entries, in order.
pub open spec fn keys_of(s: Seq<(usize, u8)>) -> Seq<usize> {
    s.map_values(|e: (usize, u8)| e.0)
}

/// No two entries of `s` carry the same address.
pub open spec fn distinct_keys(s: Seq<(usize, u8)>) -> bool {
    forall|i: int, j: int|
        0 <= i < s.len() && 0 <= j < s.len() && i != j ==> (#[trigger] s[i]).0 != (#[trigger] s[j]).0
}

/// Some entry of `s` carries the address `addr`.
pub open spec fn installed_in(s: Seq<(usize, u8)>, addr: usize) -> bool {
    exists|i: int| 0 <= i < s.len() && (#[trigger] s[i]).0 == addr
}

/// The byte recorded for `addr` in `s` (meaningful when `addr` is installed
/// and the entry addresses are distinct).
pub open spec fn byte_in(s: Seq<(usize, u8)>, addr: usize) -> u8 {
    s[choose|i: int| 0 <= i < s.len() && (#[trigger] s[i]).0 == addr].1
}

/// An entry with address `addr` at index `i` pins down `byte_in`: with
/// distinct addresses, the recorded byte for `addr` is that entry's byte.
proof fn lemma_byte_at_index(s: Seq<(usize, u8)>, addr: usize, i: int)
    requires
        distinct_keys(s),
        0 <= i < s.len(),
        s[i].0 == addr,
    ensures
        installed_in(s, addr),
        byte_in(s, addr) == s[i].1,
{
    assert(installed_in(s, addr));
    let j = choose|j: int| 0 <= j < s.len() && (#[trigger] s[j]).0 == addr;
    assert(j == i);
}

/// Breakpoints of one debugging session: the addresses still waiting to be
/// patched into a live process, and for each currently patched address the
/// original byte the trap displaced.
pub struct BreakpointStore {
    pending: Vec<usize>,
    installed: Vec<(usize, u8)>,
}

impl BreakpointStore {
    /// The pending addresses, oldest first.
    pub closed spec fn pending_addrs(self) -> Seq<usize> {
        self.pending@
    }

    /// The installed entries: address and displaced original byte.
    pub closed spec fn installed_entries(self) -> Seq<(usize, u8)> {
        self.installed@
    }

    /// Each installed address appears exactly once.
    pub open spec fn wf(self) -> bool {
        distinct_keys(self.installed_entries())
    }

    /// A trap byte currently occupies `addr` in the traced process.
    pub open spec fn is_installed_at(self, addr: usize) -> bool {
        installed_in(self.installed_entries(), addr)
    }

    /// The original byte displaced by the trap at `addr`.
    pub open spec fn original_byte(self, addr: usize) -> u8 {
        byte_in(self.installed_entries(), addr)
    }

    /// An empty store: nothing pending, nothing installed.
    pub fn new() -> (r: Self)
        ensures
            r.wf(),
            r.pending_addrs() == Seq::<usize>::empty(),
            r.installed_entries() == Seq::<(usize, u8)>::empty(),
    {
        BreakpointStore { pending: Vec::new(), installed: Vec::new() }
    }

    /// Queues `addr` to be patched before the next resume.
    pub fn add_pending(&mut self, addr: usize)
        ensures
            final(self).pending_addrs() == old(self).pending_addrs().push(addr),
            final(self).installed_entries() == old(self).installed_entries(),
    {
        self.pending.push(addr);
    }

    /// Hands out one pending address, or `None` when none are left.
    pub fn pop_pending(&mut self) -> (r: Option<usize>)
        ensures
            final(self).installed_entries() == old(self).installed_entries(),
            old(self).pending_addrs().len() == 0 ==> r == None::<usize>
                && final(self).pending_addrs() == old(self).pending_addrs(),
            old(self).pending_addrs().len() > 0 ==> r == Some(
                old(self).pending_addrs().last(),
            ) && final(self).pending_addrs() == old(self).pending_addrs().drop_last(),
    {
        self.pending.pop()
    }

    /// Index of the installed entry for `addr`, if any.
    fn find_installed(&self, addr: usize) -> (r: Option<usize>)
        ensures
            match r {
                Some(i) => 0 <= i < self.installed_entries().len() && self.installed_entries()[
                    i as int
                ].0 == addr,
                None => !self.is_installed_at(addr),
            },
    {
        let n = self.installed.len();
        let mut i: usize = 0;
        while i < n
            invariant
                i <= n,
                n == self.installed_entries().len(),
                forall|j: int| 0 <= j < i ==> (#[trigger] self.installed_entries()[j]).0 != addr,
            decreases n - i,
        {
            if self.installed[i].0 == addr {
                return Some(i);
            }
            i += 1;
        }
        None
    }

    /// Whether a trap is currently installed at `addr`.
    pub fn is_installed(&self, addr: usize) -> (r: bool)
        ensures
            r == self.is_installed_at(addr),
    {
        self.find_installed(addr).is_some()
    }

    /// Patches a trap over the byte at `addr`.  `word` is the machine word
    /// read from the child at `addr`'s aligned address; the result is the
    /// word to write back: identical except that the byte at `addr` is now
    /// the trap opcode.  The displaced byte is recorded under `addr`, and no
    /// other entry moves.
    pub fn install_patch(&mut self, addr: usize, word: u64) -> (r: u64)
        requires
            old(self).wf(),
            !old(self).is_installed_at(addr),
        ensures
            final(self).wf(),
            r == word_with_byte(word, addr % WORD_SIZE, TRAP_OPCODE),
            final(self).is_installed_at(addr),
            final(self).original_byte(addr) == byte_of_word(word, addr % WORD_SIZE),
            forall|a: usize|
                a != addr ==> final(self).is_installed_at(a) == old(self).is_installed_at(a),
            forall|a: usize|
                a != addr && old(self).is_installed_at(a) ==> final(self).original_byte(a)
                    == old(self).original_byte(a),
            final(self).pending_addrs() == old(self).pending_addrs(),
    {
        let off = byte_offset_in_word(addr);
        let orig = extract_byte(word, off);
        self.installed.push((addr, orig));
        proof {
            let s0 = old(self).installed_entries();
            let s1 = self.installed_entries();
            assert(forall|k: int| 0 <= k < s0.len() ==> (#[trigger] s0[k]).0 != addr);
            assert(s1 == s0.push((addr, orig)));
            assert forall|i: int, j: int|
                0 <= i < s1.len() && 0 <= j < s1.len() && i != j implies (#[trigger] s1[i]).0 != (
            #[trigger] s1[j]).0 by {
                if i < s0.len() && j < s0.len() {
                    assert(s1[i] == s0[i] && s1[j] == s0[j]);
                } else if i == s0.len() {
                    assert(s1[j] == s0[j]);
                } else {
                    assert(s1[i] == s0[i]);
                }
            }
            lemma_byte_at_index(s1, addr, s0.len() as int);
            assert forall|a: usize| a != addr implies installed_in(s1, a) == installed_in(
                s0,
                a,
            ) by {
                if installed_in(s0, a) {
                    let i = choose|i: int| 0 <= i < s0.len() && (#[trigger] s0[i]).0 == a;
                    assert(s1[i] == s0[i]);
                }
                if installed_in(s1, a) {
                    let i = choose|i: int| 0 <= i < s1.len() && (#[trigger] s1[i]).0 == a;
                    assert(i < s0.len() && s1[i] == s0[i]);
                }
            }
            assert forall|a: usize| a != addr && installed_in(s0, a) implies byte_in(s1, a)
                == byte_in(s0, a) by {
                let i = choose|i: int| 0 <= i < s0.len() && (#[trigger] s0[i]).0 == a;
                assert(s1[i] == s0[i]);
                lemma_byte_at_index(s0, a, i);
                lemma_byte_at_index(s1, a, i);
            }
        }
        replace_byte(word, off, TRAP_OPCODE)
    }

    /// Removes the trap at `addr`.  `word` is the word read from the child
    /// at `addr`'s aligned address; on success the result is the word to
    /// write back, identical except that the recorded original byte replaces
    /// the trap byte, and the entry leaves the store.  When no breakpoint is
    /// installed at `addr` this is a no-op: it returns `None`, never errs,
    /// and leaves the store as it was.
    pub fn restore_patch(&mut self, addr: usize, word: u64) -> (r: Option<u64>)
        requires
            old(self).wf(),
        ensures
            final(self).wf(),
            final(self).pending_addrs() == old(self).pending_addrs(),
            !old(self).is_installed_at(addr) ==> r == None::<u64>
                && final(self).installed_entries() == old(self).installed_entries(),
            old(self).is_installed_at(addr) ==> {
                &&& r == Some(
                    word_with_byte(word, addr % WORD_SIZE, old(self).original_byte(addr)),
                )
                &&& !final(self).is_installed_at(addr)
                &&& forall|a: usize|
                    a != addr ==> final(self).is_installed_at(a) == old(self).is_installed_at(a)
                &&& forall|a: usize|
                    a != addr && old(self).is_installed_at(a) ==> final(self).original_byte(a)
                        == old(self).original_byte(a)
            },
    {
        match self.find_installed(addr) {
            None => None,
            Some(i) => {
                let entry = self.installed.remove(i);
                proof {
                    let s0 = old(self).installed_entries();
                    let s1 = self.installed_entries();
                    s0.remove_ensures(i as int);
                    lemma_byte_at_index(s0, addr, i as int);
                    assert forall|p: int, q: int|
                        0 <= p < s1.len() && 0 <= q < s1.len() && p != q implies (
                    #[trigger] s1[p]).0 != (#[trigger] s1[q]).0 by {
                        let p0 = if p < i { p } else { p + 1 };
                        let q0 = if q < i { q } else { q + 1 };
                        assert(s1[p] == s0[p0] && s1[q] == s0[q0]);
                    }
                    assert forall|k: int| 0 <= k < s1.len() implies (#[trigger] s1[k]).0
                        != addr by {
                        let k0 = if k < i { k } else { k + 1 };
                        assert(s1[k] == s0[k0]);
                        assert(k0 != i);
                    }
                    assert forall|a: usize| a != addr implies installed_in(s1, a) == installed_in(
                        s0,
                        a,
                    ) by {
                        if installed_in(s0, a) {
                            let j = choose|j: int| 0 <= j < s0.len() && (#[trigger] s0[j]).0 == a;
                            assert(j != i);
                            let j1 = if j < i { j } else { j - 1 };
                            assert(s1[j1] == s0[j]);
                        }
                        if installed_in(s1, a) {
                            let j = choose|j: int| 0 <= j < s1.len() && (#[trigger] s1[j]).0 == a;
                            let j0 = if j < i { j } else { j + 1 };
                            assert(s1[j] == s0[j0]);
                        }
                    }
                    assert forall|a: usize| a != addr && installed_in(s0, a) implies byte_in(s1, a)
                        == byte_in(s0, a) by {
                        let j = choose|j: int| 0 <= j < s0.len() && (#[trigger] s0[j]).0 == a;
                        assert(j != i);
                        let j1 = if j < i { j } else { j - 1 };
                        assert(s1[j1] == s0[j]);
                        lemma_byte_at_index(s0, a, j);
                        lemma_byte_at_index(s1, a, j1);
                    }
                }
                let off = byte_offset_in_word(addr);
                Some(replace_byte(word, off, entry.1))
            },
        }
    }

    /// The addresses currently patched, in store order.
    pub fn installed_addresses(&self) -> (r: Vec<usize>)
        ensures
            r@ == keys_of(self.installed_entries()),
    {
        let n = self.installed.len();
        let mut r: Vec<usize> = Vec::new();
        let mut i: usize = 0;
        while i < n
            invariant
                i <= n,
                n == self.installed_entries().len(),
                r@ == keys_of(self.installed_entries().take(i as int)),
            decreases n - i,
        {
            r.push(self.installed[i].0);
            proof {
                let s = self.installed_entries();
                assert(keys_of(s.take(i + 1 as int)) =~= keys_of(s.take(i as int)).push(s[i as int].0));
            }
            i += 1;
        }
        proof {
            assert(self.installed_entries().take(n as int) =~= self.installed_entries());
        }
        r
    }

    /// Called when the traced process has been killed or has died: the
    /// installed addresses (not their bytes, which belong to the dead image)
    /// move back to the pending side, so that the next spawned process gets
    /// a breakpoint at every one of them again.
    pub fn on_process_killed(&mut self)
        requires
            old(self).wf(),
        ensures
            final(self).wf(),
            final(self).installed_entries() == Seq::<(usize, u8)>::empty(),
            final(self).pending_addrs() == old(self).pending_addrs() + keys_of(
                old(self).installed_entries(),
            ),
            forall|a: usize|
                old(self).is_installed_at(a) ==> final(self).pending_addrs().contains(a),
            forall|a: usize|
                old(self).pending_addrs().contains(a) ==> final(self).pending_addrs().contains(a),
    {
        let mut addrs = self.installed_addresses();
        self.pending.append(&mut addrs);
        self.installed.clear();
        proof {
            let s0 = old(self).installed_entries();
            let p0 = old(self).pending_addrs();
            let p1 = self.pending_addrs();
            assert forall|a: usize| installed_in(s0, a) implies p1.contains(a) by {
                let i = choose|i: int| 0 <= i < s0.len() && (#[trigger] s0[i]).0 == a;
                assert(keys_of(s0)[i] == a);
                assert(p1[p0.len() + i] == a);
            }
            assert forall|a: usize| p0.contains(a) implies p1.contains(a) by {
                let i = choose|i: int| 0 <= i < p0.len() && p0[i] == a;
                assert(p1[i] == a);
            }
        }
    }

    /// The step-over decision after a stop.  A trap that fired leaves the
    /// reported instruction pointer one byte past the trap, so the address
    /// the trap occupied is `rip - 1`; that address is the step-over
    /// candidate exactly when a breakpoint is installed there.
    pub fn step_over_candidate(&self, rip: usize) -> (r: Option<usize>)
        ensures
            r == if rip >= 1 && self.is_installed_at((rip - 1) as usize) {
                Some((rip - 1) as usize)
            } else {
                None::<usize>
            },
    {
        if rip >= 1 {
            let cand = rip - 1;
            if self.is_installed(cand) {
                Some(cand)
            } else {
                None
            }
        } else {
            None
        }
    }
}

/// Patch/restore round trip.  `install_patch` at any address, aligned or
/// not, turns the containing word `word` into
/// `word_with_byte(word, off, TRAP_OPCODE)` while recording
/// `byte_of_word(word, off)`; `restore_patch` immediately after writes the
/// recorded byte back over the trap — and that word equals `word` exactly,
/// byte for byte.
pub proof fn lemma_install_restore_roundtrip(word: u64, addr: usize)
    ensures
        ({
            let off = addr % WORD_SIZE;
            word_with_byte(word_with_byte(word, off, TRAP_OPCODE), off, byte_of_word(word, off))
                == word
        }),
{
    lemma_patch_restore_roundtrip(word, addr % WORD_SIZE, TRAP_OPCODE);
}

/// Step-over re-arm.  Let `word` be the word that contained the breakpoint
/// address before installation, so the child traps while
/// `word_with_byte(word, off, TRAP_OPCODE)` is in place.  Restoring for the
/// single step yields `word` itself — the child steps over the genuine
/// original instruction, not a remnant of the trap — and re-patching
/// afterwards re-creates the trapped word exactly and records the same
/// original byte, so the breakpoint keeps firing on later passes.
pub proof fn lemma_step_over_rearm(word: u64, addr: usize)
    ensures
        ({
            let off = addr % WORD_SIZE;
            let trapped = word_with_byte(word, off, TRAP_OPCODE);
            &&& word_with_byte(trapped, off, byte_of_word(word, off)) == word
            &&& byte_of_word(trapped, off) == TRAP_OPCODE
            &&& byte_of_word(word_with_byte(trapped, off, byte_of_word(word, off)), off)
                == byte_of_word(word, off)
        }),
{
    let off = addr % WORD_SIZE;
    lemma_patch_restore_roundtrip(word, off, TRAP_OPCODE);
    lemma_word_with_byte(word, off, TRAP_OPCODE);
}

} // verus!
