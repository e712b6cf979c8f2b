//! Building blocks shared by the backends: an index from keys to positions,
//! a string table with one offset per distinct string, and byte buffers.

use vstd::prelude::*;
use vstd::string::StringSliceAdditionalSpecFns;
use vstd::utf8::encode_utf8;
use indexmap::IndexMap;
use crate::artifact::distinct_names;
use crate::interner::{
    has_key, index_entries, index_get, index_insert, index_len, index_new, interned,
    interner_get, interner_get_or_intern, interner_len, interner_new, interner_resolve, Interner,
};

verus! {

/// Append `src` to `dst`
pub fn append_bytes(dst: &mut Vec<u8>, src: &[u8])
    ensures
        final(dst)@ == old(dst)@ + src@,
{
    let mut i: usize = 0;
    while i < src.len()
        invariant
            i <= src@.len(),
            dst@ == old(dst)@ + src@.subrange(0, i as int),
        decreases src@.len() - i,
    {
        dst.push(src[i]);
        i += 1;
        assert(dst@ =~= old(dst)@ + src@.subrange(0, i as int));
    }
    assert(src@.subrange(0, src@.len() as int) =~= src@);
}

/// `n` zero bytes.
pub open spec fn zeros(n: nat) -> Seq<u8> {
    Seq::new(n, |i: int| 0u8)
}

/// The number of bytes that bring `offset` to the next multiple of `align`.
pub open spec fn padding(offset: nat, align: nat) -> nat
    recommends
        align > 0,
{
    if offset % align == 0 {
        0
    } else {
        (align - offset % align) as nat
    }
}

/// Append zero bytes to `dst` until its length is `len`
pub fn pad_to(dst: &mut Vec<u8>, len: usize)
    requires
        old(dst)@.len() <= len,
    ensures
        final(dst)@ == old(dst)@ + zeros((len - old(dst)@.len()) as nat),
{
    while dst.len() < len
        invariant
            old(dst)@.len() <= dst@.len() <= len,
            dst@ == old(dst)@ + zeros((dst@.len() - old(dst)@.len()) as nat),
        decreases len - dst@.len(),
    {
        dst.push(0u8);
        assert(dst@ =~= old(dst)@ + zeros((dst@.len() - old(dst)@.len()) as nat));
    }
}

/// An index from keys to the order in which they were first added: the
/// position of a key is the number of keys added before it.
pub struct KeyIndex {
    map: IndexMap<usize, usize>,
}

impl KeyIndex {
    /// The keys, in the order in which they were added.
    pub closed spec fn keys(&self) -> Seq<usize> {
        Seq::new(index_entries(self.map).len(), |i: int| index_entries(self.map)[i].0)
    }

    /// Every key is stored with its position, and no key occurs twice.
    pub closed spec fn wf(&self) -> bool {
        &&& forall|i: int|
            0 <= i < index_entries(self.map).len() ==> (#[trigger] index_entries(self.map)[i]).1 == i
        &&& forall|i: int, j: int|
            0 <= i < index_entries(self.map).len() && 0 <= j < index_entries(self.map).len() && i
                != j ==> (#[trigger] index_entries(self.map)[i]).0 != (#[trigger] index_entries(
                self.map,
            )[j]).0
    }

    /// In a well-formed index no key occurs twice.
    pub proof fn lemma_distinct(&self)
        requires
            self.wf(),
        ensures
            forall|i: int, j: int|
                0 <= i < self.keys().len() && 0 <= j < self.keys().len() && i != j
                    ==> #[trigger] self.keys()[i] != #[trigger] self.keys()[j],
    {
        assert forall|i: int, j: int|
            0 <= i < self.keys().len() && 0 <= j < self.keys().len() && i != j implies #[trigger] self.keys()[i]
            != #[trigger] self.keys()[j] by {
            assert(index_entries(self.map)[i].0 != index_entries(self.map)[j].0);
        }
    }

    /// An index without keys
    pub fn new() -> (r: Self)
        ensures
            r.wf(),
            r.keys() == Seq::<usize>::empty(),
    {
        let r = KeyIndex { map: index_new() };
        assert(r.keys() =~= Seq::<usize>::empty());
        r
    }

    /// The number of keys
    pub fn len(&self) -> (r: usize)
        ensures
            r == self.keys().len(),
    {
        index_len(&self.map)
    }

    /// The position of `key`, if it was added
    pub fn position(&self, key: usize) -> (r: Option<usize>)
        requires
            self.wf(),
        ensures
            r is Some <==> self.keys().contains(key),
            r matches Some(i) ==> i < self.keys().len() && self.keys()[i as int] == key,
    {
        let r = index_get(&self.map, key);
        proof {
            let entries = index_entries(self.map);
            if has_key(entries, key) {
                let i = choose|i: int| 0 <= i < entries.len() && (#[trigger] entries[i]).0 == key;
                assert(self.keys()[i] == key);
            }
            if self.keys().contains(key) {
                let i = choose|i: int| 0 <= i < self.keys().len() && self.keys()[i] == key;
                assert(entries[i].0 == key);
            }
        }
        r
    }

    /// Add `key` last, unless it was added before; says whether it was new
    pub fn append(&mut self, key: usize) -> (r: bool)
        requires
            old(self).wf(),
        ensures
            final(self).wf(),
            r == !old(self).keys().contains(key),
            r ==> final(self).keys() == old(self).keys().push(key),
            !r ==> final(self).keys() == old(self).keys(),
    {
        if self.position(key).is_some() {
            return false;
        }
        let n = index_len(&self.map);
        proof {
            let entries = index_entries(self.map);
            if has_key(entries, key) {
                let i = choose|i: int| 0 <= i < entries.len() && (#[trigger] entries[i]).0 == key;
                assert(self.keys()[i] == key);
            }
        }
        let ghost before = index_entries(self.map);
        index_insert(&mut self.map, key, n);
        proof {
            let after = index_entries(self.map);
            assert(after == before.push((key, n)));
            assert forall|i: int, j: int|
                0 <= i < after.len() && 0 <= j < after.len() && i != j implies (#[trigger] after[i]).0
                != (#[trigger] after[j]).0 by {
                if i < before.len() && j < before.len() {
                    assert(before[i].0 != before[j].0);
                } else if i < before.len() {
                    assert(old(self).keys()[i] == before[i].0);
                } else {
                    assert(old(self).keys()[j] == before[j].0);
                }
            }
            assert(self.keys() =~= old(self).keys().push(key));
        }
        true
    }
}

/// The string table of the first `n` names: a zero byte, then each name in
/// UTF-8 with a zero byte after it.
pub open spec fn strtab_first(names: Seq<Seq<char>>, n: nat) -> Seq<u8>
    decreases n,
{
    if n == 0 {
        seq![0u8]
    } else {
        strtab_first(names, (n - 1) as nat) + encode_utf8(names[n - 1]) + seq![0u8]
    }
}

/// The string table of `names`.
pub open spec fn strtab_of(names: Seq<Seq<char>>) -> Seq<u8> {
    strtab_first(names, names.len())
}

/// The offset of name `i` in the string table: where the table of the names
/// before it ends.
pub open spec fn strtab_offset(names: Seq<Seq<char>>, i: nat) -> nat {
    strtab_first(names, i).len()
}

/// The table of the first `n` names starts the table of the first `m`, for `n <= m`.
pub proof fn lemma_strtab_grows(names: Seq<Seq<char>>, n: nat, m: nat)
    requires
        n <= m,
    ensures
        strtab_first(names, n).len() <= strtab_first(names, m).len(),
        strtab_first(names, m).subrange(0, strtab_first(names, n).len() as int) == strtab_first(
            names,
            n,
        ),
    decreases m,
{
    if n == m {
        assert(strtab_first(names, m).subrange(0, strtab_first(names, n).len() as int)
            =~= strtab_first(names, n));
    } else {
        lemma_strtab_grows(names, n, (m - 1) as nat);
        assert(strtab_first(names, m).subrange(0, strtab_first(names, n).len() as int)
            =~= strtab_first(names, n));
    }
}

/// A string table starts with a zero byte, and at the offset of each name
/// stand the name's bytes with a zero byte after them.
pub proof fn lemma_strtab_entry(names: Seq<Seq<char>>, i: nat)
    requires
        i < names.len(),
    ensures
        strtab_of(names)[0] == 0u8,
        strtab_offset(names, i) + encode_utf8(names[i as int]).len() < strtab_of(names).len(),
        strtab_of(names).subrange(
            strtab_offset(names, i) as int,
            (strtab_offset(names, i) + encode_utf8(names[i as int]).len()) as int,
        ) == encode_utf8(names[i as int]),
        strtab_of(names)[(strtab_offset(names, i) + encode_utf8(names[i as int]).len()) as int]
            == 0u8,
{
    let whole = strtab_of(names);
    let upto = strtab_first(names, i + 1);
    let before = strtab_first(names, i);
    let text = encode_utf8(names[i as int]);
    assert(upto == before + text + seq![0u8]);
    lemma_strtab_grows(names, i + 1, names.len());
    lemma_strtab_grows(names, 0, names.len());
    assert(whole.subrange(0, upto.len() as int) == upto);
    assert(whole.subrange(0, 1)[0] == whole[0]);
    assert(strtab_first(names, 0)[0] == 0u8);
    assert forall|k: int| 0 <= k < upto.len() implies whole[k] == upto[k] by {
        assert(whole.subrange(0, upto.len() as int)[k] == whole[k]);
    }
    assert(whole.subrange(before.len() as int, (before.len() + text.len()) as int) =~= text);
    assert(upto[(before.len() + text.len()) as int] == 0u8);
}

/// A string table under construction: distinct strings, each with the offset
/// at which it will stand in the table.
pub struct StringTable {
    strings: Interner,
    offsets: Vec<usize>,
    size: usize,
}

impl StringTable {
    /// The strings, in the order in which they were added.
    pub closed spec fn names(&self) -> Seq<Seq<char>> {
        interned(self.strings)
    }

    /// No string occurs twice, every string has its offset, and the size is
    /// that of the finished table.
    pub closed spec fn wf(&self) -> bool {
        &&& distinct_names(self.names())
        &&& self.offsets@.len() == self.names().len()
        &&& forall|i: int|
            0 <= i < self.offsets@.len() ==> #[trigger] self.offsets@[i] == strtab_offset(
                self.names(),
                i as nat,
            )
        &&& self.size == strtab_of(self.names()).len()
    }

    /// In a well-formed table no string occurs twice.
    pub proof fn lemma_distinct(&self)
        requires
            self.wf(),
        ensures
            distinct_names(self.names()),
            strtab_of(self.names()).len() <= usize::MAX,
    {
    }

    /// A table without strings
    pub fn new() -> (r: Self)
        ensures
            r.wf(),
            r.names() == Seq::<Seq<char>>::empty(),
    {
        StringTable { strings: interner_new(), offsets: Vec::new(), size: 1 }
    }

    /// The size of the finished table in bytes
    pub fn size(&self) -> (r: usize)
        requires
            self.wf(),
        ensures
            r == strtab_of(self.names()).len(),
    {
        self.size
    }

    /// The number of strings
    pub fn len(&self) -> (r: usize)
        requires
            self.wf(),
        ensures
            r == self.names().len(),
    {
        self.offsets.len()
    }

    /// The position of a string, if the table holds it
    pub fn lookup(&self, name: &str) -> (r: Option<usize>)
        requires
            self.wf(),
        ensures
            r is Some <==> self.names().contains(name@),
            r matches Some(i) ==> i < self.names().len() && self.names()[i as int] == name@,
    {
        interner_get(&self.strings, name)
    }

    /// The string at a position
    pub fn resolve(&self, id: usize) -> (r: Option<&str>)
        requires
            self.wf(),
        ensures
            r is Some <==> id < self.names().len(),
            r matches Some(s) ==> s@ == self.names()[id as int],
    {
        interner_resolve(&self.strings, id)
    }

    /// The offset of the string at a position
    pub fn offset(&self, id: usize) -> (r: usize)
        requires
            self.wf(),
            id < self.names().len(),
        ensures
            r == strtab_offset(self.names(), id as nat),
    {
        self.offsets[id]
    }

    /// Add a string, unless the table holds it, and return its position and
    /// its offset; nothing where the table would grow beyond what a `usize`
    /// can count, in which case the table is as before.
    pub fn new_string(&mut self, name: &str) -> (r: Option<(usize, usize)>)
        requires
            old(self).wf(),
        ensures
            final(self).wf(),
            old(self).names().contains(name@) ==> r is Some && final(self).names() == old(self).names(),
            !old(self).names().contains(name@) ==> (r is Some <==> strtab_of(
                old(self).names().push(name@),
            ).len() <= usize::MAX),
            !old(self).names().contains(name@) && r is Some ==> final(self).names() == old(self).names().push(name@),
            r is None ==> final(self).names() == old(self).names(),
            r matches Some((id, offset)) ==> id < final(self).names().len() && final(self).names()[id as int] == name@ && offset == strtab_offset(
                final(self).names(),
                id as nat,
            ),
    {
        let ghost before = self.names();
        match interner_get(&self.strings, name) {
            Some(id) => Some((id, self.offsets[id])),
            None => {
                let len = name.as_bytes().len();
                assert(len == encode_utf8(name@).len());
                proof {
                    let grown = before.push(name@);
                    assert(grown.len() == before.len() + 1);
                    lemma_strtab_same(before, grown, before.len());
                    assert(strtab_of(grown) == strtab_of(before) + encode_utf8(name@) + seq![0u8]);
                    assert(strtab_of(grown).len() == strtab_of(before).len() + len + 1);
                }
                if len >= usize::MAX - self.size {
                    return None;
                }
                let id = interner_get_or_intern(&mut self.strings, name);
                let offset = self.size;
                self.offsets.push(offset);
                self.size = self.size + len + 1;
                proof {
                    let grown = self.names();
                    assert(grown == before.push(name@));
                    assert(strtab_of(grown).len() == strtab_of(before).len() + len + 1);
                    assert forall|i: int| 0 <= i < self.offsets@.len() implies #[trigger] self.offsets@[i]
                        == strtab_offset(grown, i as nat) by {
                        lemma_strtab_same(before, grown, i as nat);
                    }
                }
                Some((id, offset))
            },
        }
    }

    /// The finished table
    pub fn bytes(&self) -> (r: Vec<u8>)
        requires
            self.wf(),
        ensures
            r@ == strtab_of(self.names()),
    {
        let mut out: Vec<u8> = Vec::new();
        out.push(0u8);
        let n = interner_len(&self.strings);
        let mut i: usize = 0;
        assert(out@ =~= strtab_first(self.names(), 0));
        while i < n
            invariant
                self.wf(),
                n == self.names().len(),
                i <= n,
                out@ == strtab_first(self.names(), i as nat),
            decreases n - i,
        {
            match interner_resolve(&self.strings, i) {
                Some(s) => {
                    append_bytes(&mut out, s.as_bytes());
                    out.push(0u8);
                },
                None => {},
            }
            i += 1;
        }
        out
    }
}

/// Two lists of names that agree on their first `n` names have the same
/// table of those names.
pub proof fn lemma_strtab_same(a: Seq<Seq<char>>, b: Seq<Seq<char>>, n: nat)
    requires
        n <= a.len(),
        n <= b.len(),
        forall|i: int| 0 <= i < n ==> a[i] == b[i],
    ensures
        strtab_first(a, n) == strtab_first(b, n),
    decreases n,
{
    if n > 0 {
        lemma_strtab_same(a, b, (n - 1) as nat);
    }
}

} // verus!
