use atoms::interning::{Atom, Interner, SlabAllocator};

#[test]
fn interning() {
    let mut i = Interner::new();
    let foo = Atom::new(&mut i, "foo");
    assert_eq!(foo.as_str(&i), "foo");
    assert_eq!(Atom::try_new(&i, "foo"), Some(foo));
    assert_eq!(Atom::try_new(&i, "bar"), None);
}

fn alloc_and_test_mem(alloc: &mut SlabAllocator, size: usize) {
    let mut slice = alloc.allocate(size);
    for i in 0..size {
        slice[i] = i;
    }
    assert_eq!(slice.iter().cloned().sum::<usize>(), (size * (size - 1)) / 2);
}

#[test]
fn allocator() {
    let mut alloc = SlabAllocator::new();
    let slab_size = alloc.slab_size();

    // An empty slab gets correctly used.
    alloc_and_test_mem(&mut alloc, 100);
    alloc_and_test_mem(&mut alloc, 200);
    alloc_and_test_mem(&mut alloc, slab_size);
    assert_eq!(alloc.slab_free_size(), slab_size - 300);
    assert_eq!(alloc.get_discarded_bytes(), 0);

    // Huge requests are served outside the slab.
    alloc_and_test_mem(&mut alloc, slab_size);
    assert_eq!(alloc.get_discarded_bytes(), 0);

    // Slab replacement counts the discarded free suffix.
    alloc_and_test_mem(&mut alloc, slab_size - 1);
    assert_eq!(alloc.get_discarded_bytes(), slab_size - 300);
    assert_eq!(alloc.slab_free_size(), 1);
}

#[test]
fn intern_is_idempotent() {
    let mut i = Interner::new();
    let a = i.intern("hello");
    let b = i.intern("hello");
    assert_eq!(a, b);
    assert_eq!(i.decode(a), "hello");
    assert_eq!(i.decode(b), "hello");
}

#[test]
fn intern_deduplicates_without_new_blocks() {
    let mut i = Interner::new();
    let a = Atom::new(&mut i, "foo");
    let waste = Atom::get_discarded_bytes(&i);
    let b = Atom::new(&mut i, "foo");
    assert_eq!(a, b);
    assert_eq!(Atom::get_discarded_bytes(&i), waste);
}

#[test]
fn negative_lookup_then_positive() {
    let mut i = Interner::new();
    assert_eq!(i.get_if_interned("token"), None);
    let a = i.intern("token");
    assert_eq!(i.get_if_interned("token"), Some(a));
}

#[test]
fn distinct_texts_get_distinct_handles() {
    let mut i = Interner::new();
    let a = i.intern("foo");
    let b = i.intern("bar");
    assert_ne!(a, b);
    assert_eq!(i.decode(a), "foo");
    assert_eq!(i.decode(b), "bar");
}

#[test]
fn empty_string_interns() {
    let mut i = Interner::new();
    let a = i.intern("");
    assert_eq!(i.decode(a), "");
    assert_eq!(i.intern(""), a);
    assert_eq!(i.get_if_interned(""), Some(a));
}

#[test]
fn huge_string_takes_large_object_path() {
    let mut i = Interner::new();
    let waste_before = Atom::get_discarded_bytes(&i);
    let big = "x".repeat(5000);
    let a = i.intern(big.as_str());
    assert_eq!(i.decode(a), big.as_str());
    // A request of at least a whole slab bypasses the slab, so nothing is
    // retired or discarded.
    assert_eq!(Atom::get_discarded_bytes(&i), waste_before);
}

#[test]
fn many_strings_share_slabs() {
    let mut i = Interner::new();
    let mut atoms = Vec::new();
    for n in 0..200 {
        let s = format!("name_{}", n);
        atoms.push((s.clone(), i.intern(s.as_str())));
    }
    for (s, a) in &atoms {
        assert_eq!(i.decode(*a), s.as_str());
        assert_eq!(i.get_if_interned(s.as_str()), Some(*a));
    }
}

#[test]
fn div_round_up_values() {
    assert_eq!(atoms::interning::div_round_up(0, 8), 0);
    assert_eq!(atoms::interning::div_round_up(1, 8), 1);
    assert_eq!(atoms::interning::div_round_up(8, 8), 1);
    assert_eq!(atoms::interning::div_round_up(9, 8), 2);
    assert_eq!(atoms::interning::div_round_up(4096, 8), 512);
}

