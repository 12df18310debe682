//! String interning: a deduplicating registry of immutable text blocks on
//! top of a bump allocator.
//!
//! Interned memory is deliberately never reclaimed: the registry serves
//! symbol-table-like workloads where the set of distinct strings is bounded
//! over a bounded process lifetime, so blocks are created on first use and
//! kept until the process ends.

use vstd::prelude::*;

verus! {

/// Nominal byte size of one slab.
pub const SLAB_ALLOC_SIZE: usize = 4096;

/// Byte width of one allocator element: a pointer-sized word, so that a
/// length header and the payload that follows it share one alignment.
pub const WORD_BYTES: usize = 8;

/// Number of elements a fresh slab holds.  `SLAB_ALLOC_SIZE` is a multiple
/// of `WORD_BYTES`, so plain division is already the rounded-up count.
pub const SLAB_CAPACITY: usize = SLAB_ALLOC_SIZE / WORD_BYTES;

/// Ceiling division: the least `r` with `a <= r * b`.
pub open spec fn spec_div_round_up(a: nat, b: nat) -> nat
    recommends
        1 <= b,
{
    if a % b == 0 {
        a / b
    } else {
        a / b + 1
    }
}

/// Ceiling division, used to size word allocations for byte payloads.
pub fn div_round_up(a: usize, b: usize) -> (r: usize)
    requires
        1 <= b,
    ensures
        r == spec_div_round_up(a as nat, b as nat),
{
    proof {
        if a % b != 0 {
            assert(a != 0) by {
                vstd::arithmetic::div_mod::lemma_small_mod(0, b as nat);
            }
            assert(b != 1) by {
                vstd::arithmetic::div_mod::lemma_mod_multiples_basic(a as int, 1);
            }
            vstd::arithmetic::div_mod::lemma_div_nonincreasing(a as int, b as int);
            vstd::arithmetic::div_mod::lemma_div_decreases(a as int, b as int);
        }
    }
    a / b + if a % b == 0 {
        0
    } else {
        1
    }
}

/// A bump allocator that carves word regions off one active slab and
/// serves oversized requests from dedicated buffers.
///
/// Only the accounting of the active slab is observable: how many elements
/// of it are still free, and how many elements were discarded when earlier
/// slabs were retired with room left over.  Every region the allocator
/// hands out is owned by the caller and stays valid for as long as the
/// caller keeps it; the allocator never reclaims one.
pub struct SlabAllocator {
    /// Elements still free in the active slab; zero before the first slab
    /// is acquired.
    free: usize,
    /// Elements discarded over all retired slabs.
    lost: usize,
}

impl SlabAllocator {
    /// Elements still free in the active slab.
    pub closed spec fn free_elems(self) -> nat {
        self.free as nat
    }

    /// Elements discarded over all retired slabs.
    pub closed spec fn lost_elems(self) -> nat {
        self.lost as nat
    }

    /// The free suffix never exceeds one slab.
    pub open spec fn wf(self) -> bool {
        self.free_elems() <= SLAB_CAPACITY
    }

    /// Free elements left in the active slab after a request of `len`
    /// elements: unchanged for a large request, the remainder of a fresh
    /// slab when the active one is retired, the remainder of the active
    /// slab otherwise.
    pub open spec fn spec_free_after(self, len: nat) -> nat {
        if len >= SLAB_CAPACITY {
            self.free_elems()
        } else if len > self.free_elems() {
            (SLAB_CAPACITY - len) as nat
        } else {
            (self.free_elems() - len) as nat
        }
    }

    /// Discarded elements after a request of `len` elements: the free
    /// suffix of the active slab is added exactly when that slab is
    /// retired.
    pub open spec fn spec_lost_after(self, len: nat) -> nat {
        if len < SLAB_CAPACITY && len > self.free_elems() {
            self.lost_elems() + self.free_elems()
        } else {
            self.lost_elems()
        }
    }

    /// A fresh allocator: no slab yet, nothing discarded.
    pub fn new() -> (r: SlabAllocator)
        ensures
            r.wf(),
            r.free_elems() == 0,
            r.lost_elems() == 0,
    {
        SlabAllocator { free: 0, lost: 0 }
    }

    /// Cumulative count of elements discarded when slabs were retired
    /// before being fully consumed.  Purely observational.
    pub fn get_discarded_bytes(&self) -> (r: usize)
        ensures
            r == self.lost_elems(),
    {
        self.lost
    }

    /// Elements still free in the active slab.
    pub fn slab_free_size(&self) -> (r: usize)
        ensures
            r == self.free_elems(),
    {
        self.free
    }

    /// Element capacity of a full slab.
    pub fn slab_size(&self) -> (r: usize)
        ensures
            r == SLAB_CAPACITY,
    {
        div_round_up(SLAB_ALLOC_SIZE, WORD_BYTES)
    }

    /// Hand out a zero-initialized region of `len` elements.
    ///
    /// A request of at least a full slab is served by a dedicated buffer
    /// and leaves the slab accounting untouched.  A smaller request that
    /// does not fit the active slab's free suffix retires that slab —
    /// its free suffix is counted as lost — and carves from a fresh one.
    /// The returned buffer is owned by the caller; nothing the allocator
    /// does later invalidates it.
    pub fn allocate(&mut self, len: usize) -> (buf: Vec<usize>)
        requires
            1 <= len,
            old(self).wf(),
            old(self).lost_elems() + SLAB_CAPACITY <= usize::MAX,
        ensures
            final(self).wf(),
            final(self).free_elems() == old(self).spec_free_after(len as nat),
            final(self).lost_elems() == old(self).spec_lost_after(len as nat),
            buf@.len() == len,
            forall|i: int| 0 <= i < len ==> buf@[i] == 0,
    {
        if len < SLAB_CAPACITY {
            if len > self.free {
                // Retire the active slab: whatever is left of it is never
                // reused, only counted.
                self.lost = self.lost + self.free;
                self.free = SLAB_CAPACITY;
            }
            self.free = self.free - len;
        }
        zeroed_words(len)
    }
}

/// Whether some entry of `texts` is `s`.
pub open spec fn contains_text(texts: Seq<Seq<char>>, s: Seq<char>) -> bool {
    exists|i: int| 0 <= i < texts.len() && texts[i] == s
}

/// Whether no two entries of `texts` are equal.
pub open spec fn no_duplicate_texts(texts: Seq<Seq<char>>) -> bool {
    forall|i: int, j: int| 0 <= i < j < texts.len() ==> texts[i] != texts[j]
}

/// The index of `s` in `texts`; meaningful when `contains_text` holds, and
/// unique when `no_duplicate_texts` holds.
pub open spec fn spec_index_of(texts: Seq<Seq<char>>, s: Seq<char>) -> int {
    choose|i: int| 0 <= i < texts.len() && texts[i] == s
}

/// The registry contents after interning `s`: unchanged when `s` is
/// already present, extended by one block otherwise.
pub open spec fn spec_intern(texts: Seq<Seq<char>>, s: Seq<char>) -> Seq<Seq<char>> {
    if contains_text(texts, s) {
        texts
    } else {
        texts.push(s)
    }
}

/// The block index the handle for `s` carries after interning `s`.
pub open spec fn spec_intern_id(texts: Seq<Seq<char>>, s: Seq<char>) -> int {
    if contains_text(texts, s) {
        spec_index_of(texts, s)
    } else {
        texts.len() as int
    }
}

/// One interned string: a word buffer whose first word is the length
/// header, and the payload itself.
///
/// The payload bytes are held as an owned, never-mutated string beside the
/// header word rather than packed into the remaining words, so decoding a
/// block needs no reinterpretation of raw memory.
struct Block {
    words: Vec<usize>,
    text: String,
}

impl Block {
    /// The header word holds the payload's byte length, and the buffer has
    /// one header word plus enough whole words for the payload.
    spec fn wf(self) -> bool {
        &&& self.words@.len() == 1 + spec_div_round_up(
            (vstd::utf8::encode_utf8(self.text@).len() as usize) as nat,
            WORD_BYTES as nat,
        )
        &&& self.words@[0] == vstd::utf8::encode_utf8(self.text@).len() as usize
    }
}

/// A deduplicating registry of interned strings.
///
/// Blocks are append-only: once a string is interned, its block and the
/// handle pointing at it stay valid for as long as the registry lives, and
/// the block's text is never changed.  There is deliberately no way to
/// remove a single block: the registry serves workloads whose set of
/// distinct strings is bounded, and reclaiming nothing keeps every handle
/// valid forever.
pub struct Interner {
    allocator: SlabAllocator,
    blocks: Vec<Block>,
}

/// A handle to one interned string: a copyable token carrying the index of
/// the block it denotes.  Because the registry never holds two blocks with
/// equal text, two handles from the same registry are equal exactly when
/// the texts they decode to are equal.
#[derive(Clone, Copy, PartialEq, Eq, Structural, Debug)]
pub struct Atom {
    id: usize,
}

impl Atom {
    /// The index of the block this handle denotes.
    pub closed spec fn spec_id(self) -> int {
        self.id as int
    }

    /// Get-or-create the handle for `s` in `interner`.
    pub fn new(interner: &mut Interner, s: &str) -> (a: Atom)
        requires
            old(interner).wf(),
            old(interner).spec_allocator().lost_elems() + SLAB_CAPACITY <= usize::MAX,
        ensures
            final(interner).wf(),
            final(interner).texts() == spec_intern(old(interner).texts(), s@),
            a.spec_id() == spec_intern_id(old(interner).texts(), s@),
            0 <= a.spec_id() < final(interner).texts().len(),
            final(interner).texts()[a.spec_id()] == s@,
            contains_text(old(interner).texts(), s@) ==> *final(interner) == *old(interner),
    {
        interner.intern(s)
    }

    /// The handle for `s` if one exists; never creates a block.
    pub fn try_new(interner: &Interner, s: &str) -> (r: Option<Atom>)
        requires
            interner.wf(),
        ensures
            r is Some == contains_text(interner.texts(), s@),
            r matches Some(a) ==> 0 <= a.spec_id() < interner.texts().len()
                && interner.texts()[a.spec_id()] == s@,
    {
        interner.get_if_interned(s)
    }

    /// The text this handle was created for, valid as long as the registry.
    pub fn as_str<'a>(self, interner: &'a Interner) -> (r: &'a str)
        requires
            interner.wf(),
            0 <= self.spec_id() < interner.texts().len(),
        ensures
            r@ == interner.texts()[self.spec_id()],
    {
        interner.decode(self)
    }

    /// The registry's cumulative waste counter.
    pub fn get_discarded_bytes(interner: &Interner) -> (r: usize)
        ensures
            r == interner.spec_allocator().lost_elems(),
    {
        interner.allocator.get_discarded_bytes()
    }
}

impl Interner {
    /// The texts of all blocks, in creation order.
    pub closed spec fn texts(self) -> Seq<Seq<char>> {
        self.blocks@.map(|i: int, b: Block| b.text@)
    }

    /// The state of the registry's allocator.
    pub closed spec fn spec_allocator(self) -> SlabAllocator {
        self.allocator
    }

    /// Every block is well formed.
    pub closed spec fn blocks_wf(self) -> bool {
        forall|i: int| 0 <= i < self.blocks@.len() ==> (#[trigger] self.blocks@[i]).wf()
    }

    /// The registry's invariant: the allocator is well formed, no two
    /// blocks hold equal text, and each block's header matches its payload.
    pub open spec fn wf(self) -> bool {
        &&& self.spec_allocator().wf()
        &&& no_duplicate_texts(self.texts())
        &&& self.blocks_wf()
    }

    /// A fresh, empty registry.
    pub fn new() -> (r: Interner)
        ensures
            r.wf(),
            r.texts() =~= Seq::<Seq<char>>::empty(),
            r.spec_allocator().free_elems() == 0,
            r.spec_allocator().lost_elems() == 0,
    {
        Interner { allocator: SlabAllocator::new(), blocks: Vec::new() }
    }

    /// The handle for `s` if `s` was interned before, and nothing
    /// otherwise; never creates a block and never changes the registry.
    pub fn get_if_interned(&self, s: &str) -> (r: Option<Atom>)
        requires
            self.wf(),
        ensures
            r is Some == contains_text(self.texts(), s@),
            r matches Some(a) ==> 0 <= a.spec_id() < self.texts().len() && self.texts()[a.spec_id()]
                == s@,
    {
        let owned: String = s.to_owned();
        let n = self.blocks.len();
        let mut i: usize = 0;
        while i < n
            invariant
                self.wf(),
                owned@ == s@,
                n == self.blocks@.len(),
                i <= n,
                forall|j: int| 0 <= j < i ==> self.texts()[j] != s@,
            decreases n - i,
        {
            if self.blocks[i].text == owned {
                proof {
                    assert(self.texts()[i as int] == self.blocks@[i as int].text@);
                    assert(contains_text(self.texts(), s@));
                }
                return Some(Atom { id: i });
            }
            i = i + 1;
        }
        proof {
            assert forall|k: int| 0 <= k < self.texts().len() implies self.texts()[k] != s@ by {
                assert(self.texts()[k] == self.blocks@[k].text@);
            }
        }
        None
    }

    /// Get-or-create: the handle for `s`, creating a block exactly when
    /// `s` was not interned before.  Re-interning an already-present text
    /// returns the original handle and leaves the whole registry — blocks
    /// and allocator accounting alike — unchanged.
    pub fn intern(&mut self, s: &str) -> (a: Atom)
        requires
            old(self).wf(),
            old(self).spec_allocator().lost_elems() + SLAB_CAPACITY <= usize::MAX,
        ensures
            final(self).wf(),
            final(self).texts() == spec_intern(old(self).texts(), s@),
            a.spec_id() == spec_intern_id(old(self).texts(), s@),
            0 <= a.spec_id() < final(self).texts().len(),
            final(self).texts()[a.spec_id()] == s@,
            contains_text(old(self).texts(), s@) ==> *final(self) == *old(self),
            !contains_text(old(self).texts(), s@) ==> final(self).texts() == old(
                self,
            ).texts().push(s@) && final(self).spec_allocator().free_elems() == old(
                self,
            ).spec_allocator().spec_free_after(
                1 + spec_div_round_up((vstd::utf8::encode_utf8(s@).len() as usize) as nat, WORD_BYTES as nat),
            ) && final(self).spec_allocator().lost_elems() == old(
                self,
            ).spec_allocator().spec_lost_after(
                1 + spec_div_round_up((vstd::utf8::encode_utf8(s@).len() as usize) as nat, WORD_BYTES as nat),
            ),
    {
        if let Some(atom) = self.get_if_interned(s) {
            proof {
                lemma_index_of_unique(self.texts(), s@, atom.spec_id());
            }
            return atom;
        }
        self.alloc_interned_string(s)
    }

    /// Create the block for a text not interned yet: ask the allocator for
    /// one header word plus enough whole words for the payload, write the
    /// length header, and append the block.
    fn alloc_interned_string(&mut self, s: &str) -> (a: Atom)
        requires
            old(self).wf(),
            !contains_text(old(self).texts(), s@),
            old(self).spec_allocator().lost_elems() + SLAB_CAPACITY <= usize::MAX,
        ensures
            final(self).wf(),
            final(self).texts() == old(self).texts().push(s@),
            a.spec_id() == old(self).texts().len(),
            final(self).spec_allocator().free_elems() == old(self).spec_allocator().spec_free_after(
                1 + spec_div_round_up((vstd::utf8::encode_utf8(s@).len() as usize) as nat, WORD_BYTES as nat),
            ),
            final(self).spec_allocator().lost_elems() == old(self).spec_allocator().spec_lost_after(
                1 + spec_div_round_up((vstd::utf8::encode_utf8(s@).len() as usize) as nat, WORD_BYTES as nat),
            ),
    {
        let len = s.len();
        let mut words = self.allocator.allocate(1 + div_round_up(len, WORD_BYTES));
        words[0] = len;
        let text: String = s.to_owned();
        let id = self.blocks.len();
        self.blocks.push(Block { words, text });
        proof {
            assert(final(self).texts() =~= old(self).texts().push(s@));
        }
        Atom { id }
    }

    /// The text of the block `a` denotes; the inverse of interning.
    pub fn decode<'a>(&'a self, a: Atom) -> (r: &'a str)
        requires
            self.wf(),
            0 <= a.spec_id() < self.texts().len(),
        ensures
            r@ == self.texts()[a.spec_id()],
    {
        self.blocks[a.id].text.as_str()
    }
}

/// In a duplicate-free registry the index of a text is unique: any index
/// holding `s` is the index `spec_index_of` picks.
pub proof fn lemma_index_of_unique(texts: Seq<Seq<char>>, s: Seq<char>, i: int)
    requires
        no_duplicate_texts(texts),
        0 <= i < texts.len(),
        texts[i] == s,
    ensures
        spec_index_of(texts, s) == i,
{
    assert(contains_text(texts, s));
    let j = spec_index_of(texts, s);
    assert(0 <= j < texts.len() && texts[j] == s);
}

/// Interning keeps the registry duplicate-free, and the new handle's
/// block holds exactly the interned text.
pub proof fn lemma_intern_wf(texts: Seq<Seq<char>>, s: Seq<char>)
    requires
        no_duplicate_texts(texts),
    ensures
        no_duplicate_texts(spec_intern(texts, s)),
        contains_text(spec_intern(texts, s), s),
        0 <= spec_intern_id(texts, s) < spec_intern(texts, s).len(),
        spec_intern(texts, s)[spec_intern_id(texts, s)] == s,
{
    if contains_text(texts, s) {
    } else {
        let t2 = texts.push(s);
        assert(t2[texts.len() as int] == s);
        assert forall|i: int, j: int| 0 <= i < j < t2.len() implies t2[i] != t2[j] by {
            if j < texts.len() {
            } else {
                assert(t2[i] == texts[i]);
            }
        }
    }
}

/// Handle equality is content equality: in a duplicate-free registry two
/// block indices coincide exactly when the texts of their blocks are
/// equal, so comparing handles decides text equality.
pub proof fn lemma_handle_eq_is_text_eq(texts: Seq<Seq<char>>, i: int, j: int)
    requires
        no_duplicate_texts(texts),
        0 <= i < texts.len(),
        0 <= j < texts.len(),
    ensures
        (i == j) <==> (texts[i] == texts[j]),
{
}

/// Idempotence: interning a text a second time changes nothing and
/// returns the same handle, and that handle decodes to the text itself.
pub proof fn lemma_intern_idempotent(texts: Seq<Seq<char>>, s: Seq<char>)
    requires
        no_duplicate_texts(texts),
    ensures
        spec_intern(spec_intern(texts, s), s) == spec_intern(texts, s),
        spec_intern_id(spec_intern(texts, s), s) == spec_intern_id(texts, s),
        spec_intern(texts, s)[spec_intern_id(texts, s)] == s,
{
    lemma_intern_wf(texts, s);
    let t1 = spec_intern(texts, s);
    lemma_index_of_unique(t1, s, spec_intern_id(texts, s));
}

/// Negative lookup: a text is found exactly when it was interned before,
/// and after interning it the lookup yields the handle interning returned.
pub proof fn lemma_lookup_after_intern(texts: Seq<Seq<char>>, s: Seq<char>)
    requires
        no_duplicate_texts(texts),
    ensures
        contains_text(spec_intern(texts, s), s),
        spec_index_of(spec_intern(texts, s), s) == spec_intern_id(texts, s),
{
    lemma_intern_wf(texts, s);
    lemma_index_of_unique(spec_intern(texts, s), s, spec_intern_id(texts, s));
}

/// Cross-text distinctness: interning two different texts, one after the
/// other, yields different handles.
pub proof fn lemma_intern_distinct(texts: Seq<Seq<char>>, s1: Seq<char>, s2: Seq<char>)
    requires
        no_duplicate_texts(texts),
        s1 != s2,
    ensures
        spec_intern_id(texts, s1) != spec_intern_id(spec_intern(texts, s1), s2),
{
    lemma_intern_wf(texts, s1);
    let t1 = spec_intern(texts, s1);
    let i1 = spec_intern_id(texts, s1);
    lemma_intern_wf(t1, s2);
    let i2 = spec_intern_id(t1, s2);
    let t2 = spec_intern(t1, s2);
    assert(t2[i1] == s1);
    assert(t2[i2] == s2);
}

/// A buffer of `len` zeroed words, freshly obtained from the underlying
/// memory manager.
fn zeroed_words(len: usize) -> (buf: Vec<usize>)
    ensures
        buf@.len() == len,
        forall|i: int| 0 <= i < len ==> buf@[i] == 0,
{
    let mut buf: Vec<usize> = Vec::with_capacity(len);
    let mut i: usize = 0;
    while i < len
        invariant
            i <= len,
            buf@.len() == i,
            forall|j: int| 0 <= j < i ==> buf@[j] == 0,
        decreases len - i,
    {
        buf.push(0);
        i = i + 1;
    }
    buf
}

} // verus!

