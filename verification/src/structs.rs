//! Structure layouts guessed from memory accesses: accesses within the
//! same 16-byte-aligned block are taken as fields of one structure.
use vstd::prelude::*;
use crate::codegen::emit::hex8;
use crate::text::append_hex;
use crate::dvd::{store, store_entry, unique_keys};

verus! {

/// A field: its offset and size.
pub struct StructField {
    pub offset: usize,
    pub size: usize,
    pub field_type: Option<String>,
}

/// A structure: its name, base address, fields and size.
pub struct StructLayout {
    pub name: String,
    pub base_address: Option<u32>,
    pub fields: Vec<StructField>,
    pub size: usize,
}

/// The data of a field: offset, size and type name.
pub type FieldView = (usize, usize, Option<Seq<char>>);

impl View for StructField {
    type V = FieldView;

    open spec fn view(&self) -> FieldView {
        (
            self.offset,
            self.size,
            match self.field_type {
                Some(t) => Some(t@),
                None => None,
            },
        )
    }
}

/// The data of a structure layout.
pub struct LayoutView {
    pub name: Seq<char>,
    pub base_address: Option<u32>,
    pub fields: Seq<FieldView>,
    pub size: usize,
}

impl View for StructLayout {
    type V = LayoutView;

    open spec fn view(&self) -> LayoutView {
        LayoutView {
            name: self.name@,
            base_address: self.base_address,
            fields: self.fields@.map_values(|f: StructField| f@),
            size: self.size,
        }
    }
}

/// The views of a sequence of layouts.
pub open spec fn layout_views(ls: Seq<StructLayout>) -> Seq<LayoutView> {
    ls.map_values(|l: StructLayout| l@)
}

/// Layouts recorded by name in order, a later one replacing an earlier
/// one of the same name.
pub open spec fn record_layouts(m: Seq<(Seq<char>, LayoutView)>, ls: Seq<LayoutView>) -> Seq<
    (Seq<char>, LayoutView),
>
    decreases ls.len(),
{
    if ls.len() == 0 {
        m
    } else {
        store(record_layouts(m, ls.drop_last()), ls.last().name, ls.last())
    }
}

impl StructField {
    /// A copy.
    pub fn duplicate(&self) -> (r: StructField)
        ensures
            r@ == self@,
    {
        StructField {
            offset: self.offset,
            size: self.size,
            field_type: match &self.field_type {
                Some(t) => Some(t.clone()),
                None => None,
            },
        }
    }
}

impl StructLayout {
    /// A copy.
    pub fn duplicate(&self) -> (r: StructLayout)
        ensures
            r@ == self@,
    {
        let mut fields: Vec<StructField> = Vec::new();
        let mut i: usize = 0;
        while i < self.fields.len()
            invariant
                i <= self.fields@.len(),
                fields@.map_values(|f: StructField| f@) == self.fields@.take(i as int).map_values(
                    |f: StructField| f@,
                ),
            decreases self.fields@.len() - i,
        {
            let f = self.fields[i].duplicate();
            let ghost before = fields@;
            fields.push(f);
            assert(self.fields@.take(i + 1) =~= self.fields@.take(i as int).push(self.fields@[i as int]));
            assert(fields@.map_values(|f: StructField| f@) =~= before.map_values(|f: StructField| f@).push(
                f@,
            ));
            assert(self.fields@.take(i + 1).map_values(|f: StructField| f@) =~= self.fields@.take(
                i as int,
            ).map_values(|f: StructField| f@).push(self.fields@[i as int]@));
            i = i + 1;
        }
        assert(self.fields@.take(i as int) =~= self.fields@);
        StructLayout { name: self.name.clone(), base_address: self.base_address, fields, size: self.size }
    }
}

/// The base of the 16-byte block holding an address.
pub open spec fn block_base(a: u32) -> u32 {
    ((a / 16) * 16) as u32
}

/// The distinct bases of the first `n` accesses, in order of first
/// appearance.
pub open spec fn bases(acc: Seq<(u32, usize)>, n: int) -> Seq<u32>
    decreases n,
{
    if n <= 0 || n > acc.len() {
        seq![]
    } else {
        let b = bases(acc, n - 1);
        let x = block_base(acc[n - 1].0);
        if b.contains(x) {
            b
        } else {
            b.push(x)
        }
    }
}

/// The fields, in access order, of the accesses in the block at `base`.
pub open spec fn fields_at(acc: Seq<(u32, usize)>, base: u32, n: int) -> Seq<(int, int)>
    decreases n,
{
    if n <= 0 || n > acc.len() {
        seq![]
    } else {
        let f = fields_at(acc, base, n - 1);
        if block_base(acc[n - 1].0) == base {
            f.push((acc[n - 1].0 - base, acc[n - 1].1 as int))
        } else {
            f
        }
    }
}

/// The end of the furthest field.
pub open spec fn layout_size(fs: Seq<(int, int)>) -> int
    decreases fs.len(),
{
    if fs.len() == 0 {
        0
    } else {
        let s = layout_size(fs.drop_last());
        let e = fs.last().0 + fs.last().1;
        if e > s {
            e
        } else {
            s
        }
    }
}

/// Whether a layout is the one for the block at `base`.
pub open spec fn layout_for(l: StructLayout, acc: Seq<(u32, usize)>, base: u32) -> bool {
    let fs = fields_at(acc, base, acc.len() as int);
    &&& l.name@ == "Struct_0x"@ + hex8(base)
    &&& l.base_address == Some(base)
    &&& l.fields@.len() == fs.len()
    &&& forall|i: int|
        0 <= i < fs.len() ==> (#[trigger] l.fields@[i]).offset == fs[i].0 && l.fields@[i].size
            == fs[i].1 && l.fields@[i].field_type is None
    &&& l.size == layout_size(fs)
}

/// The `(address, size)` of each access.
pub open spec fn access_pairs(accesses: Seq<(u32, usize, &str)>) -> Seq<(u32, usize)> {
    accesses.map_values(|a: (u32, usize, &str)| (a.0, a.1))
}

proof fn lemma_fields_bounded(acc: Seq<(u32, usize)>, base: u32, n: int)
    requires
        0 <= n <= acc.len(),
        forall|i: int| 0 <= i < acc.len() ==> acc[i].1 + 16 <= usize::MAX,
    ensures
        forall|i: int|
            0 <= i < fields_at(acc, base, n).len() ==> 0 <= fields_at(acc, base, n)[i].0 < 16
                && 0 <= fields_at(acc, base, n)[i].1 && fields_at(acc, base, n)[i].0 + fields_at(acc, base, n)[i].1 <= usize::MAX,
        0 <= layout_size(fields_at(acc, base, n)) <= usize::MAX,
    decreases n,
{
    if n > 0 {
        lemma_fields_bounded(acc, base, n - 1);
        let a = acc[n - 1].0;
        lemma_block_base(a);
        if block_base(a) == base {
            assert(fields_at(acc, base, n).drop_last() =~= fields_at(acc, base, n - 1));
        }
    }
}

/// The base of an address's block lies at most 15 below it.
proof fn lemma_block_base(a: u32)
    ensures
        block_base(a) <= a,
        a - block_base(a) < 16,
        block_base(a) == a / 16 * 16,
{
    assert((a / 16) * 16 <= a && a - (a / 16) * 16 < 16) by (nonlinear_arith);
}

/// `y` is in `s` with `x` pushed when it is `x` or already in `s`.
proof fn lemma_contains_push(s: Seq<u32>, x: u32, y: u32)
    ensures
        s.push(x).contains(y) == (s.contains(y) || x == y),
{
    if s.contains(y) {
        let i = choose|i: int| 0 <= i < s.len() && s[i] == y;
        assert(s.push(x)[i] == y);
    }
    if x == y {
        assert(s.push(x)[s.len() as int] == y);
    }
    if s.push(x).contains(y) {
        let i = choose|i: int| 0 <= i < s.push(x).len() && s.push(x)[i] == y;
        if i < s.len() {
            assert(s[i] == y);
        }
    }
}

/// Guesses structures from memory accesses.
pub struct StructDetector {
    structs: Vec<(String, StructLayout)>,
}

impl StructDetector {
    /// The detected layouts, by name.
    pub closed spec fn kept(&self) -> Seq<(Seq<char>, LayoutView)> {
        self.structs@.map_values(|e: (String, StructLayout)| (e.0@, e.1@))
    }

    /// Each name is kept once.
    pub closed spec fn wf(&self) -> bool {
        unique_keys(self.kept())
    }

    /// A detector that keeps no layouts.
    pub fn new() -> (d: StructDetector)
        ensures
            d.wf(),
            d.kept().len() == 0,
    {
        let d = StructDetector { structs: Vec::new() };
        assert(d.kept() =~= Seq::<(Seq<char>, LayoutView)>::empty());
        d
    }

    /// The layout of the block at `base`: one field per access in the
    /// block, at its offset from the base, and a size reaching the end of
    /// the furthest field.
    fn infer_struct_layout(&self, base_address: u32, accesses: &[(u32, usize, &str)]) -> (l: StructLayout)
        requires
            forall|i: int| 0 <= i < accesses@.len() ==> accesses@[i].1 + 16 <= usize::MAX,
        ensures
            layout_for(l, access_pairs(accesses@), base_address),
    {
        let ghost acc = access_pairs(accesses@);
        proof {
            assert forall|i: int| 0 <= i < acc.len() implies acc[i].1 + 16 <= usize::MAX by {
                assert(acc[i].1 == accesses@[i].1);
            }
            lemma_fields_bounded(acc, base_address, acc.len() as int);
        }
        let mut fields: Vec<StructField> = Vec::new();
        let mut size: usize = 0;
        let mut i: usize = 0;
        while i < accesses.len()
            invariant
                i <= accesses@.len(),
                acc == access_pairs(accesses@),
                forall|k: int| 0 <= k < acc.len() ==> acc[k].1 + 16 <= usize::MAX,
                ({
                    let fs = fields_at(acc, base_address, i as int);
                    &&& fields@.len() == fs.len()
                    &&& forall|k: int|
                        0 <= k < fs.len() ==> (#[trigger] fields@[k]).offset == fs[k].0
                            && fields@[k].size == fs[k].1 && fields@[k].field_type is None
                    &&& size == layout_size(fs)
                }),
            decreases accesses@.len() - i,
        {
            let (address, sz, _kind) = accesses[i];
            assert(acc[i as int] == (address, sz));
            proof {
                lemma_fields_bounded(acc, base_address, i + 1);
            }
            proof {
                lemma_block_base(address);
            }
            if address / 16 * 16 == base_address {
                assert(block_base(address) == base_address);
                let offset: usize = (address - base_address) as usize;
                let ghost fs1 = fields_at(acc, base_address, i + 1);
                assert(fs1.last() == (offset as int, sz as int));
                assert(fs1.drop_last() =~= fields_at(acc, base_address, i as int));
                fields.push(StructField { offset, size: sz, field_type: None });
                let end = offset + sz;
                if end > size {
                    size = end;
                }
            } else {
                assert(block_base(address) != base_address);
            }
            i = i + 1;
        }
        StructLayout {
            name: {
                let mut n = String::from_str("Struct_0x");
                append_hex(&mut n, base_address, 8);
                n
            },
            base_address: Some(base_address),
            fields,
            size,
        }
    }

    /// One layout per 16-byte block that is accessed, in order of the
    /// block's first access; each is also kept by its name, replacing a
    /// layout kept earlier under that name.
    pub fn detect_structs(&mut self, accesses: &[(u32, usize, &str)]) -> (r: Vec<StructLayout>)
        requires
            old(self).wf(),
            forall|i: int| 0 <= i < accesses@.len() ==> accesses@[i].1 + 16 <= usize::MAX,
        ensures
            final(self).wf(),
            final(self).kept() == record_layouts(old(self).kept(), layout_views(r@)),
            ({
                let acc = access_pairs(accesses@);
                let bs = bases(acc, acc.len() as int);
                &&& r@.len() == bs.len()
                &&& forall|i: int| 0 <= i < bs.len() ==> layout_for(#[trigger] r@[i], acc, bs[i])
            }),
    {
        let ghost acc = access_pairs(accesses@);
        let mut seen: Vec<u32> = Vec::new();
        let mut i: usize = 0;
        while i < accesses.len()
            invariant
                i <= accesses@.len(),
                acc == access_pairs(accesses@),
                seen@ == bases(acc, i as int),
            decreases accesses@.len() - i,
        {
            let (address, _sz, _kind) = accesses[i];
            assert(acc[i as int].0 == address);
            let base = address / 16 * 16;
            proof {
                lemma_block_base(address);
            }
            assert(base == block_base(address));
            let mut found = false;
            let mut k: usize = 0;
            while k < seen.len()
                invariant
                    k <= seen@.len(),
                    found == seen@.take(k as int).contains(base),
                decreases seen@.len() - k,
            {
                assert(seen@.take(k + 1) =~= seen@.take(k as int).push(seen@[k as int]));
                proof {
                    lemma_contains_push(seen@.take(k as int), seen@[k as int], base);
                }
                if seen[k] == base {
                    found = true;
                }
                k = k + 1;
            }
            assert(seen@.take(k as int) =~= seen@);
            if !found {
                seen.push(base);
            }
            i = i + 1;
        }
        let mut detected: Vec<StructLayout> = Vec::new();
        let mut j: usize = 0;
        while j < seen.len()
            invariant
                j <= seen@.len(),
                acc == access_pairs(accesses@),
                seen@ == bases(acc, acc.len() as int),
                forall|t: int| 0 <= t < accesses@.len() ==> accesses@[t].1 + 16 <= usize::MAX,
                detected@.len() == j,
                forall|t: int| 0 <= t < j ==> layout_for(#[trigger] detected@[t], acc, seen@[t]),
            decreases seen@.len() - j,
        {
            detected.push(self.infer_struct_layout(seen[j], accesses));
            j = j + 1;
        }
        let ghost k0 = self.kept();
        let mut t: usize = 0;
        while t < detected.len()
            invariant
                t <= detected@.len(),
                unique_keys(self.kept()),
                self.kept() == record_layouts(k0, layout_views(detected@.take(t as int))),
            decreases detected@.len() - t,
        {
            let d = detected[t].duplicate();
            let key = d.name.clone();
            proof {
                let ls = layout_views(detected@.take(t + 1));
                assert(ls.drop_last() =~= layout_views(detected@.take(t as int)));
                assert(ls.last() == detected@[t as int]@);
            }
            store_entry(&mut self.structs, key, d);
            t = t + 1;
        }
        assert(detected@.take(t as int) =~= detected@);
        detected
    }

    /// The layouts kept by name.
    pub fn structs(&self) -> (s: &Vec<(String, StructLayout)>)
        ensures
            s@.map_values(|e: (String, StructLayout)| (e.0@, e.1@)) == self.kept(),
    {
        &self.structs
    }
}

impl Default for StructDetector {
    fn default() -> (d: StructDetector)
        ensures
            d.wf(),
            d.kept().len() == 0,
    {
        StructDetector::new()
    }
}

} // verus!
