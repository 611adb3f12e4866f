//! Extraction decisions for Calabiyau (Strinova) frame-analysis dumps.
//!
//! The game binds bone indices and weights directly in its trianglelist draws,
//! so data types are matched against single trianglelist draws ("unreal_vs"
//! matching). The file system work (listing dump files, reading sizes and
//! buffers, writing the workspace) happens outside; this module holds what is
//! decided from what was read: which data types a draw IB matches, which draw
//! supplies the slot layout, which hash names a category buffer, how a category
//! buffer is cut, and how each submesh is named.
use vstd::prelude::*;
use crate::registry::{first_index_from, lemma_first_index_from};
use crate::text::{chars_of, concat2, concat3, decimal, decimal_text, push_char, string_of};

verus! {

broadcast use vstd::string::group_string_axioms;

// ---------------------------------------------------------------------------
// Data types

/// One category of a data type: its name, the vertex-buffer slot it is read
/// from (`vb0`, ...), its stride in bytes and the draw category it maps to.
pub struct CamiCategory {
    pub name: String,
    pub slot: String,
    pub stride: u64,
    pub draw_category: String,
}

/// A data type that a draw may be recognised as: its name, whether it is a
/// GPU pre-skinning type, its own stride, and its categories in order.
pub struct CamiGameType {
    pub name: String,
    pub gpu_pre_skinning: bool,
    pub self_stride: u64,
    pub categories: Vec<CamiCategory>,
}

/// The names of the categories, in order.
pub open spec fn category_names(cats: Seq<CamiCategory>) -> Seq<Seq<char>> {
    Seq::new(cats.len(), |k: int| cats[k].name@)
}

/// Where the category called `name` stands among `cats` (the first such).
pub open spec fn category_index(cats: Seq<CamiCategory>, name: Seq<char>) -> Option<int> {
    first_index_from(category_names(cats), name, 0)
}

fn find_category(cats: &Vec<CamiCategory>, name: &str) -> (r: Option<usize>)
    ensures
        match r {
            Some(k) => k < cats@.len() && category_index(cats@, name@) == Some(k as int),
            None => category_index(cats@, name@) is None,
        },
{
    let ghost names = category_names(cats@);
    let mut k: usize = 0;
    while k < cats.len()
        invariant
            k <= cats@.len(),
            names == category_names(cats@),
            first_index_from(names, name@, 0) == first_index_from(names, name@, k as int),
        decreases cats.len() - k,
    {
        if crate::text::str_eq(cats[k].name.as_str(), name) {
            return Some(k);
        }
        k += 1;
    }
    None
}

// ---------------------------------------------------------------------------
// Category hashes

/// The number of UTF-8 bytes of `s`, or `cap` when there are more.
fn utf8_len_capped(s: &str, cap: usize) -> (n: usize)
    ensures
        n as int == if vstd::utf8::encode_utf8(s@).len() < cap { vstd::utf8::encode_utf8(s@).len() as int } else { cap as int },
{
    if cap == 0 {
        return 0;
    }
    let chars = chars_of(s);
    let mut total: usize = 0;
    let mut i: usize = 0;
    assert(s@.take(0) =~= Seq::<char>::empty());
    assert(vstd::utf8::encode_utf8(Seq::<char>::empty()) =~= Seq::<u8>::empty());
    while i < chars.len()
        invariant
            chars@ == s@,
            i <= chars@.len(),
            total < cap,
            total == vstd::utf8::encode_utf8(s@.take(i as int)).len(),
        decreases chars.len() - i,
    {
        let c = chars[i];
        let u = c as u32;
        let w: usize = if u <= 0x7F { 1 } else if u <= 0x7FF { 2 } else if u <= 0xFFFF { 3 } else { 4 };
        proof {
            crate::text::lemma_encode_char_width(c);
            assert(s@.take(i + 1) =~= s@.take(i as int) + seq![c]);
            crate::text::lemma_encode_utf8_concat(s@.take(i as int), seq![c]);
        }
        if w >= cap - total {
            proof { lemma_encode_prefix_le(s@, i + 1); }
            return cap;
        }
        total = total + w;
        i += 1;
    }
    assert(s@.take(i as int) =~= s@);
    total
}

proof fn lemma_encode_prefix_le(s: Seq<char>, i: int)
    requires
        0 <= i <= s.len(),
    ensures
        vstd::utf8::encode_utf8(s.take(i)).len() <= vstd::utf8::encode_utf8(s).len(),
{
    assert(s =~= s.take(i) + s.skip(i));
    crate::text::lemma_encode_utf8_concat(s.take(i), s.skip(i));
}

/// The eight characters of a category buffer's file name that follow the
/// draw index (six characters and `-`), the slot name and `=`: the category's
/// hash. The name holds one only if those are eight bytes.
pub open spec fn category_hash_outcome(cats: Seq<CamiCategory>, category: Seq<char>, buf_file_name: Seq<char>) -> Result<Seq<char>, Seq<char>> {
    match category_index(cats, category) {
        None => Err("Category slot not found for category: "@ + category),
        Some(k) => {
            let slot = cats[k].slot@;
            let n = buf_file_name.len() as int;
            let start: int = 8 + vstd::utf8::encode_utf8(slot).len() as int;
            let from = if start < n { start } else { n };
            let to = if start + 8 < n { start + 8 } else { n };
            let hash = buf_file_name.subrange(from, to);
            if vstd::utf8::encode_utf8(hash).len() == 8 {
                Ok(hash)
            } else {
                Err("Cannot parse hash from buf file name: "@ + buf_file_name + " (category="@ + category + ", slot="@
                    + slot + ")"@)
            }
        },
    }
}

impl CamiGameType {
    /// The hash of `category_name`'s buffer, read from the buffer's file name.
    pub fn build_category_hash_from_buf_file_name(&self, category_name: &str, buf_file_name: &str) -> (r: Result<String, String>)
        ensures
            match (r, category_hash_outcome(self.categories@, category_name@, buf_file_name@)) {
                (Ok(h), Ok(s)) => h@ == s,
                (Err(e), Err(s)) => e@ == s,
                _ => false,
            },
    {
        match find_category(&self.categories, category_name) {
            None => {
                proof { reveal_strlit("Category slot not found for category: "); }
                Err(concat2("Category slot not found for category: ", category_name))
            },
            Some(k) => {
                let slot = self.categories[k].slot.as_str();
                let chars = chars_of(buf_file_name);
                let n = chars.len();
                let slot_len = utf8_len_capped(slot, n);
                let from: usize = if slot_len >= n { n } else {
                    match slot_len.checked_add(8) {
                        Some(x) => if x < n { x } else { n },
                        None => n,
                    }
                };
                let to: usize = match from.checked_add(8) {
                    Some(x) => if x < n { x } else { n },
                    None => n,
                };
                let hash = string_of(chars.as_slice(), from, to);
                if utf8_len_capped(hash.as_str(), 9) == 8 {
                    Ok(hash)
                } else {
                    proof {
                        reveal_strlit("Cannot parse hash from buf file name: ");
                        reveal_strlit(" (category=");
                        reveal_strlit(", slot=");
                        reveal_strlit(")");
                    }
                    let mut e = concat2("Cannot parse hash from buf file name: ", buf_file_name);
                    e.append(" (category=");
                    e.append(category_name);
                    e.append(", slot=");
                    e.append(slot);
                    e.append(")");
                    Err(e)
                }
            },
        }
    }
}

// ---------------------------------------------------------------------------
// Matching data types against trianglelist draws

/// What the dump holds for one category's slot in one trianglelist draw.
pub struct SlotProbe {
    /// A `.buf` file for the draw and slot is listed in the dump.
    pub buf_listed: bool,
    /// The deduplicated path of that buffer is known.
    pub buf_path_known: bool,
    /// A `.txt` description for the draw and slot is listed and its deduplicated path is known.
    pub txt_known: bool,
    /// The size of the buffer file, or why it could not be read.
    pub buf_size: Result<u64, String>,
    /// The byte size that the `.txt` description gives, or why it could not be read.
    pub txt_size: Result<u64, String>,
}

pub open spec fn size_view(r: Result<u64, String>) -> Result<u64, Seq<char>> {
    match r {
        Ok(n) => Ok(n),
        Err(e) => Err(e@),
    }
}

/// The byte size that counts for a slot: the buffer file's own size, unless a
/// description is known and the type is not GPU pre-skinning.
pub open spec fn slot_size(gpu_pre_skinning: bool, p: SlotProbe) -> Result<u64, Seq<char>> {
    if !p.txt_known || gpu_pre_skinning {
        size_view(p.buf_size)
    } else {
        size_view(p.txt_size)
    }
}

/// How checking a data type against draws ends.
pub enum ScanOutcome {
    Matched,
    Skipped,
    Failed(Seq<char>),
}

/// Each category's slot has a buffer in the draw, and no two categories share a slot.
pub open spec fn slots_complete(cats: Seq<CamiCategory>, probes: Seq<SlotProbe>) -> bool {
    &&& forall|k: int| 0 <= k < cats.len() ==> #[trigger] probes[k].buf_listed
    &&& forall|i: int, j: int| 0 <= i < j < cats.len() ==> #[trigger] cats[i].slot@ != #[trigger] cats[j].slot@
}

/// The categories from `k` on, given the vertex count seen so far (`0`: none yet):
/// every category needs a stride and a known buffer, and all vertex counts
/// (size / stride) must agree.
pub open spec fn draw_scan(cats: Seq<CamiCategory>, probes: Seq<SlotProbe>, gpu_pre_skinning: bool, k: int, count: u64) -> ScanOutcome
    decreases cats.len() - k,
{
    if k < 0 || k >= cats.len() {
        ScanOutcome::Matched
    } else if cats[k].stride == 0 || !probes[k].buf_path_known {
        ScanOutcome::Skipped
    } else {
        match slot_size(gpu_pre_skinning, probes[k]) {
            Err(e) => ScanOutcome::Failed(e),
            Ok(size) => {
                let n = (size / cats[k].stride) as u64;
                if count == 0 {
                    draw_scan(cats, probes, gpu_pre_skinning, k + 1, n)
                } else if count != n {
                    ScanOutcome::Skipped
                } else {
                    draw_scan(cats, probes, gpu_pre_skinning, k + 1, count)
                }
            },
        }
    }
}

/// Whether one draw carries the data type.
pub open spec fn draw_outcome(ty: CamiGameType, probes: Seq<SlotProbe>) -> ScanOutcome {
    if slots_complete(ty.categories@, probes) {
        draw_scan(ty.categories@, probes, ty.gpu_pre_skinning, 0, 0)
    } else {
        ScanOutcome::Skipped
    }
}

/// The draws from `j` on, in order: the first that carries the type decides.
pub open spec fn type_scan(ty: CamiGameType, draws: Seq<Vec<SlotProbe>>, j: int) -> ScanOutcome
    decreases draws.len() - j,
{
    if j < 0 || j >= draws.len() {
        ScanOutcome::Skipped
    } else {
        match draw_outcome(ty, draws[j]@) {
            ScanOutcome::Skipped => type_scan(ty, draws, j + 1),
            other => other,
        }
    }
}

/// The data types from `i` on, with those matched so far: once a GPU
/// pre-skinning type matched, CPU types are not checked any more.
pub open spec fn match_scan(types: Seq<CamiGameType>, probes: Seq<Vec<Vec<SlotProbe>>>, i: int, acc: Seq<usize>, gpu_found: bool) -> Result<Seq<usize>, Seq<char>>
    decreases types.len() - i,
{
    if i < 0 || i >= types.len() {
        Ok(acc)
    } else if gpu_found && !types[i].gpu_pre_skinning {
        match_scan(types, probes, i + 1, acc, gpu_found)
    } else {
        match type_scan(types[i], probes[i]@, 0) {
            ScanOutcome::Failed(e) => Err(e),
            ScanOutcome::Matched => match_scan(types, probes, i + 1, acc.push(i as usize), gpu_found || types[i].gpu_pre_skinning),
            ScanOutcome::Skipped => match_scan(types, probes, i + 1, acc, gpu_found),
        }
    }
}

pub open spec fn all_gpu(types: Seq<CamiGameType>, acc: Seq<usize>) -> bool {
    forall|m: int| 0 <= m < acc.len() ==> #[trigger] types[acc[m] as int].gpu_pre_skinning
}

proof fn lemma_all_gpu_push(types: Seq<CamiGameType>, acc: Seq<usize>, x: usize)
    ensures
        all_gpu(types, acc.push(x)) == (all_gpu(types, acc) && types[x as int].gpu_pre_skinning),
{
    let q = acc.push(x);
    if all_gpu(types, q) {
        assert(types[q[acc.len() as int] as int].gpu_pre_skinning);
        assert forall|m: int| 0 <= m < acc.len() implies #[trigger] types[acc[m] as int].gpu_pre_skinning by {
            assert(q[m] == acc[m]);
            assert(types[q[m] as int].gpu_pre_skinning);
        }
    }
    if all_gpu(types, acc) && types[x as int].gpu_pre_skinning {
        assert forall|m: int| 0 <= m < q.len() implies #[trigger] types[q[m] as int].gpu_pre_skinning by {
            if m < acc.len() {
                assert(q[m] == acc[m]);
            }
        }
    }
}

/// The largest own stride among the matched types (`0` for none).
pub open spec fn max_stride(types: Seq<CamiGameType>, acc: Seq<usize>) -> u64
    decreases acc.len(),
{
    if acc.len() == 0 {
        0
    } else {
        let rest = max_stride(types, acc.drop_last());
        let s = types[acc.last() as int].self_stride;
        if s > rest { s } else { rest }
    }
}

/// The matched types whose own stride is `stride`, in order.
pub open spec fn with_stride(types: Seq<CamiGameType>, acc: Seq<usize>, stride: u64) -> Seq<usize>
    decreases acc.len(),
{
    if acc.len() == 0 {
        Seq::empty()
    } else {
        let rest = with_stride(types, acc.drop_last(), stride);
        if types[acc.last() as int].self_stride == stride { rest.push(acc.last()) } else { rest }
    }
}

/// The data types (by position) a draw IB may be: those that some draw
/// carries, and, where all of them are GPU pre-skinning types, only those
/// with the largest own stride.
pub open spec fn possible_types(types: Seq<CamiGameType>, probes: Seq<Vec<Vec<SlotProbe>>>) -> Result<Seq<usize>, Seq<char>> {
    match match_scan(types, probes, 0, Seq::empty(), false) {
        Err(e) => Err(e),
        Ok(acc) => if all_gpu(types, acc) {
            Ok(with_stride(types, acc, max_stride(types, acc)))
        } else {
            Ok(acc)
        },
    }
}

/// The probes line up with the data types, the draws and the categories.
pub open spec fn probes_fit(types: Seq<CamiGameType>, draws: int, probes: Seq<Vec<Vec<SlotProbe>>>) -> bool {
    &&& probes.len() == types.len()
    &&& forall|i: int| 0 <= i < types.len() ==> (#[trigger] probes[i])@.len() == draws
    &&& forall|i: int, d: int| 0 <= i < types.len() && 0 <= d < draws ==> (#[trigger] probes[i]@[d])@.len() == types[i].categories@.len()
}

fn slot_size_of(gpu_pre_skinning: bool, p: &SlotProbe) -> (r: Result<u64, String>)
    ensures
        size_view(r) == slot_size(gpu_pre_skinning, *p),
{
    let chosen = if !p.txt_known || gpu_pre_skinning { &p.buf_size } else { &p.txt_size };
    match chosen {
        Ok(n) => Ok(*n),
        Err(e) => Err(e.clone()),
    }
}

fn slots_complete_in(cats: &Vec<CamiCategory>, probes: &Vec<SlotProbe>) -> (b: bool)
    requires
        probes@.len() == cats@.len(),
    ensures
        b == slots_complete(cats@, probes@),
{
    let mut i: usize = 0;
    while i < cats.len()
        invariant
            probes@.len() == cats@.len(),
            i <= cats@.len(),
            forall|k: int| 0 <= k < i ==> #[trigger] probes@[k].buf_listed,
            forall|a: int, b: int| 0 <= a < b < cats@.len() && a < i ==> #[trigger] cats@[a].slot@ != #[trigger] cats@[b].slot@,
        decreases cats.len() - i,
    {
        if !probes[i].buf_listed {
            return false;
        }
        let mut j: usize = i + 1;
        while j < cats.len()
            invariant
                i < cats@.len(),
                i < j <= cats@.len(),
                forall|b: int| i < b < j ==> cats@[i as int].slot@ != #[trigger] cats@[b].slot@,
            decreases cats.len() - j,
        {
            if crate::text::str_eq(cats[i].slot.as_str(), cats[j].slot.as_str()) {
                assert(cats@[i as int].slot@ == cats@[j as int].slot@);
                return false;
            }
            j += 1;
        }
        i += 1;
    }
    true
}

fn scan_draw(ty: &CamiGameType, probes: &Vec<SlotProbe>) -> (r: Result<bool, String>)
    requires
        probes@.len() == ty.categories@.len(),
    ensures
        match (r, draw_outcome(*ty, probes@)) {
            (Ok(true), ScanOutcome::Matched) => true,
            (Ok(false), ScanOutcome::Skipped) => true,
            (Err(e), ScanOutcome::Failed(s)) => e@ == s,
            _ => false,
        },
{
    if !slots_complete_in(&ty.categories, probes) {
        return Ok(false);
    }
    let cats = &ty.categories;
    let gpu = ty.gpu_pre_skinning;
    let mut count: u64 = 0;
    let mut k: usize = 0;
    while k < cats.len()
        invariant
            probes@.len() == cats@.len(),
            cats@ == ty.categories@,
            gpu == ty.gpu_pre_skinning,
            k <= cats@.len(),
            draw_outcome(*ty, probes@) == draw_scan(cats@, probes@, gpu, k as int, count),
        decreases cats.len() - k,
    {
        let stride = cats[k].stride;
        if stride == 0 || !probes[k].buf_path_known {
            return Ok(false);
        }
        match slot_size_of(gpu, &probes[k]) {
            Err(e) => {
                return Err(e);
            },
            Ok(size) => {
                let n = size / stride;
                if count == 0 {
                    count = n;
                } else if count != n {
                    return Ok(false);
                }
            },
        }
        k += 1;
    }
    Ok(true)
}

fn scan_type(ty: &CamiGameType, draws: &Vec<Vec<SlotProbe>>) -> (r: Result<bool, String>)
    requires
        forall|d: int| 0 <= d < draws@.len() ==> (#[trigger] draws@[d])@.len() == ty.categories@.len(),
    ensures
        match (r, type_scan(*ty, draws@, 0)) {
            (Ok(true), ScanOutcome::Matched) => true,
            (Ok(false), ScanOutcome::Skipped) => true,
            (Err(e), ScanOutcome::Failed(s)) => e@ == s,
            _ => false,
        },
{
    let mut j: usize = 0;
    while j < draws.len()
        invariant
            forall|d: int| 0 <= d < draws@.len() ==> (#[trigger] draws@[d])@.len() == ty.categories@.len(),
            j <= draws@.len(),
            type_scan(*ty, draws@, 0) == type_scan(*ty, draws@, j as int),
        decreases draws.len() - j,
    {
        match scan_draw(ty, &draws[j]) {
            Ok(true) => {
                return Ok(true);
            },
            Err(e) => {
                return Err(e);
            },
            Ok(false) => {},
        }
        j += 1;
    }
    Ok(false)
}

/// The data types (by position in `types`) that a draw IB may be, checked
/// draw by draw; `probes[t][d][k]` is what the dump holds for category `k` of
/// type `t` in the `d`-th trianglelist draw.
pub fn possible_game_types(types: &Vec<CamiGameType>, draw_count: usize, probes: &Vec<Vec<Vec<SlotProbe>>>) -> (r: Result<Vec<usize>, String>)
    requires
        probes_fit(types@, draw_count as int, probes@),
    ensures
        match (r, possible_types(types@, probes@)) {
            (Ok(v), Ok(s)) => v@ == s,
            (Err(e), Err(s)) => e@ == s,
            _ => false,
        },
{
    let mut matched: Vec<usize> = Vec::new();
    let mut gpu_found = false;
    let mut i: usize = 0;
    while i < types.len()
        invariant
            probes_fit(types@, draw_count as int, probes@),
            i <= types@.len(),
            match_scan(types@, probes@, 0, Seq::empty(), false) == match_scan(types@, probes@, i as int, matched@, gpu_found),
            forall|m: int| 0 <= m < matched@.len() ==> #[trigger] matched@[m] < i,
        decreases types.len() - i,
    {
        let ty = &types[i];
        if gpu_found && !ty.gpu_pre_skinning {
            i += 1;
            continue;
        }
        assert(forall|d: int| 0 <= d < probes@[i as int]@.len() ==> (#[trigger] probes@[i as int]@[d])@.len() == types@[i as int].categories@.len());
        match scan_type(ty, &probes[i]) {
            Err(e) => {
                return Err(e);
            },
            Ok(true) => {
                matched.push(i);
                gpu_found = gpu_found || ty.gpu_pre_skinning;
            },
            Ok(false) => {},
        }
        i += 1;
    }
    let ghost acc = matched@;
    assert(match_scan(types@, probes@, i as int, matched@, gpu_found) == Ok::<Seq<usize>, Seq<char>>(acc));
    // Where every match is a GPU pre-skinning type, keep those with the largest own stride.
    let mut every_gpu = true;
    let mut top: u64 = 0;
    let mut m: usize = 0;
    while m < matched.len()
        invariant
            acc == matched@,
            forall|x: int| 0 <= x < acc.len() ==> (#[trigger] acc[x]) < types@.len(),
            m <= acc.len(),
            every_gpu == all_gpu(types@, acc.take(m as int)),
            top == max_stride(types@, acc.take(m as int)),
        decreases matched.len() - m,
    {
        let t = &types[matched[m]];
        assert(acc.take(m + 1).drop_last() =~= acc.take(m as int));
        proof {
            assert(acc.take(m + 1) =~= acc.take(m as int).push(acc[m as int]));
            lemma_all_gpu_push(types@, acc.take(m as int), acc[m as int]);
        }
        if !t.gpu_pre_skinning {
            every_gpu = false;
        }
        if t.self_stride > top {
            top = t.self_stride;
        }
        m += 1;
    }
    assert(acc.take(acc.len() as int) =~= acc);
    if !every_gpu {
        return Ok(matched);
    }
    let mut kept: Vec<usize> = Vec::new();
    let mut m: usize = 0;
    while m < matched.len()
        invariant
            acc == matched@,
            forall|x: int| 0 <= x < acc.len() ==> (#[trigger] acc[x]) < types@.len(),
            m <= acc.len(),
            kept@ == with_stride(types@, acc.take(m as int), top),
        decreases matched.len() - m,
    {
        assert(acc.take(m + 1).drop_last() =~= acc.take(m as int));
        if types[matched[m]].self_stride == top {
            kept.push(matched[m]);
        }
        m += 1;
    }
    Ok(kept)
}

// ---------------------------------------------------------------------------
// The draw that lays out the slots

pub open spec fn string_views(v: Seq<String>) -> Seq<Seq<char>> {
    Seq::new(v.len(), |i: int| v[i]@)
}

/// The first `i` draws, keeping the one that sets the most vertex-buffer
/// slots (a later one wins a tie): its slot count and its index.
pub open spec fn max_slot_pick(names: Seq<Seq<char>>, counts: Seq<usize>, i: int) -> (usize, Seq<char>)
    decreases i,
{
    if i <= 0 {
        (0, Seq::empty())
    } else {
        let best = max_slot_pick(names, counts, i - 1);
        if counts[i - 1] >= best.0 { (counts[i - 1], names[i - 1]) } else { best }
    }
}

/// The trianglelist draw that sets the most vertex-buffer slots (the last of
/// several); `slot_counts[i]` is how many slots draw `i` sets.
pub fn max_slot_trianglelist_index(trianglelist_index_list: &Vec<String>, slot_counts: &Vec<usize>) -> (r: String)
    requires
        slot_counts@.len() == trianglelist_index_list@.len(),
    ensures
        r@ == max_slot_pick(string_views(trianglelist_index_list@), slot_counts@, trianglelist_index_list@.len() as int).1,
{
    let ghost names = string_views(trianglelist_index_list@);
    let mut best_count: usize = 0;
    let mut best = String::new();
    let mut i: usize = 0;
    while i < trianglelist_index_list.len()
        invariant
            slot_counts@.len() == trianglelist_index_list@.len(),
            names == string_views(trianglelist_index_list@),
            i <= trianglelist_index_list@.len(),
            (best_count, best@) == max_slot_pick(names, slot_counts@, i as int),
        decreases trianglelist_index_list.len() - i,
    {
        if slot_counts[i] >= best_count {
            best_count = slot_counts[i];
            best = trianglelist_index_list[i].clone();
        }
        i += 1;
    }
    best
}

// ---------------------------------------------------------------------------
// Which draw IBs, and what to do with each

/// One entry of a workspace's DrawIB configuration.
pub struct DrawIBEntry {
    pub draw_ib: String,
    pub alias: String,
}

/// The configured draw IBs, trimmed, without blank ones.
pub open spec fn configured_draw_ibs(entries: Seq<DrawIBEntry>) -> Seq<Seq<char>>
    decreases entries.len(),
{
    if entries.len() == 0 {
        Seq::empty()
    } else {
        let rest = configured_draw_ibs(entries.drop_last());
        let t = crate::launch_events::trim_seq(entries.last().draw_ib@);
        if t.len() == 0 { rest } else { rest.push(t) }
    }
}

/// What the dump holds for one draw IB: its trianglelist draws, how many
/// vertex-buffer slots each sets, and the slot probes per data type and draw.
pub struct DrawIbProbe {
    pub trianglelist_index_list: Vec<String>,
    pub slot_counts: Vec<usize>,
    pub probes: Vec<Vec<Vec<SlotProbe>>>,
}

/// What to do with one draw IB.
pub enum DrawIbStep {
    /// No trianglelist draw uses the IB: skip it.
    NoTrianglelistData,
    /// No data type that the filter lets through matched: skip it.
    NoDataTypeMatched,
    /// Export its submeshes for these data types, with the slot files of this draw.
    Export { max_slot_trianglelist_index: String, game_types: Vec<usize> },
}

pub enum StepView {
    NoTrianglelistData,
    NoDataTypeMatched,
    Export(Seq<char>, Seq<usize>),
}

pub open spec fn step_view(s: DrawIbStep) -> StepView {
    match s {
        DrawIbStep::NoTrianglelistData => StepView::NoTrianglelistData,
        DrawIbStep::NoDataTypeMatched => StepView::NoDataTypeMatched,
        DrawIbStep::Export { max_slot_trianglelist_index, game_types } => StepView::Export(max_slot_trianglelist_index@, game_types@),
    }
}

/// Whether the extraction's data-type filter lets a type through.
pub open spec fn filter_allows(ty: CamiGameType, allow_gpu: bool, allow_cpu: bool) -> bool {
    if ty.gpu_pre_skinning { allow_gpu } else { allow_cpu }
}

/// The matched types that the filter lets through, in order.
pub open spec fn allowed_types(types: Seq<CamiGameType>, acc: Seq<usize>, allow_gpu: bool, allow_cpu: bool) -> Seq<usize>
    decreases acc.len(),
{
    if acc.len() == 0 {
        Seq::empty()
    } else {
        let rest = allowed_types(types, acc.drop_last(), allow_gpu, allow_cpu);
        if filter_allows(types[acc.last() as int], allow_gpu, allow_cpu) { rest.push(acc.last()) } else { rest }
    }
}

/// The decision for one draw IB; an error in matching stops the whole run.
pub open spec fn draw_ib_step(types: Seq<CamiGameType>, probe: DrawIbProbe, allow_gpu: bool, allow_cpu: bool) -> Result<StepView, Seq<char>> {
    if probe.trianglelist_index_list@.len() == 0 {
        Ok(StepView::NoTrianglelistData)
    } else {
        match possible_types(types, probe.probes@) {
            Err(e) => Err(e),
            Ok(acc) => {
                let kept = allowed_types(types, acc, allow_gpu, allow_cpu);
                if kept.len() == 0 {
                    Ok(StepView::NoDataTypeMatched)
                } else {
                    Ok(StepView::Export(
                        max_slot_pick(string_views(probe.trianglelist_index_list@), probe.slot_counts@,
                            probe.trianglelist_index_list@.len() as int).1,
                        kept,
                    ))
                }
            },
        }
    }
}

/// The probe lines up with its draws and with the data types.
pub open spec fn draw_ib_probe_fits(types: Seq<CamiGameType>, probe: DrawIbProbe) -> bool {
    &&& probe.slot_counts@.len() == probe.trianglelist_index_list@.len()
    &&& probes_fit(types, probe.trianglelist_index_list@.len() as int, probe.probes@)
}

/// The extractor's settings: where the workspace is, which draw IBs were
/// chosen (when extracting chosen ones) and the data types it knows.
pub struct CamiNewExtractor {
    pub workspace_path: String,
    pub drawib_config: Vec<DrawIBEntry>,
    pub specify_drawib_extract: bool,
    pub game_types: Vec<CamiGameType>,
}

fn clone_entry(e: &DrawIBEntry) -> (c: DrawIBEntry)
    ensures
        c.draw_ib@ == e.draw_ib@,
        c.alias@ == e.alias@,
{
    DrawIBEntry { draw_ib: e.draw_ib.clone(), alias: e.alias.clone() }
}

impl CamiNewExtractor {
    /// The draw IBs to extract: the configured ones, trimmed and without blank
    /// ones, when extracting chosen draw IBs; else every draw IB of the dump.
    pub fn draw_ib_list(&self, dump_draw_ibs: Vec<String>) -> (v: Vec<String>)
        ensures
            string_views(v@) == if self.specify_drawib_extract {
                configured_draw_ibs(self.drawib_config@)
            } else {
                string_views(dump_draw_ibs@)
            },
    {
        if !self.specify_drawib_extract {
            return dump_draw_ibs;
        }
        let mut out: Vec<String> = Vec::new();
        let mut i: usize = 0;
        while i < self.drawib_config.len()
            invariant
                i <= self.drawib_config@.len(),
                string_views(out@) == configured_draw_ibs(self.drawib_config@.take(i as int)),
            decreases self.drawib_config.len() - i,
        {
            assert(self.drawib_config@.take(i + 1).drop_last() =~= self.drawib_config@.take(i as int));
            let t = crate::launch_events::trim_text(self.drawib_config[i].draw_ib.as_str());
            if !t.as_str().is_empty() {
                let ghost before = out@;
                out.push(t);
                assert(string_views(out@) =~= string_views(before).push(t@));
            }
            i += 1;
        }
        assert(self.drawib_config@.take(self.drawib_config@.len() as int) =~= self.drawib_config@);
        out
    }

    /// What to do with one draw IB, given what the dump holds for it and which
    /// kinds of data type (GPU pre-skinning or not) the extraction wants.
    pub fn plan_draw_ib(&self, probe: &DrawIbProbe, allow_gpu: bool, allow_cpu: bool) -> (r: Result<DrawIbStep, String>)
        requires
            draw_ib_probe_fits(self.game_types@, *probe),
        ensures
            match (r, draw_ib_step(self.game_types@, *probe, allow_gpu, allow_cpu)) {
                (Ok(s), Ok(v)) => step_view(s) == v,
                (Err(e), Err(v)) => e@ == v,
                _ => false,
            },
    {
        if probe.trianglelist_index_list.len() == 0 {
            return Ok(DrawIbStep::NoTrianglelistData);
        }
        let max_slot = max_slot_trianglelist_index(&probe.trianglelist_index_list, &probe.slot_counts);
        let possible = match self.get_possible_gametype_list_unreal_vs(&probe.trianglelist_index_list, &probe.probes) {
            Ok(v) => v,
            Err(e) => {
                return Err(e);
            },
        };
        let ghost acc = possible@;
        proof { lemma_possible_in_range(self.game_types@, probe.probes@); }
        let mut kept: Vec<usize> = Vec::new();
        let mut m: usize = 0;
        while m < possible.len()
            invariant
                acc == possible@,
                forall|x: int| 0 <= x < acc.len() ==> (#[trigger] acc[x]) < self.game_types@.len(),
                m <= acc.len(),
                kept@ == allowed_types(self.game_types@, acc.take(m as int), allow_gpu, allow_cpu),
            decreases possible.len() - m,
        {
            assert(acc.take(m + 1).drop_last() =~= acc.take(m as int));
            let gpu = self.game_types[possible[m]].gpu_pre_skinning;
            if (gpu && allow_gpu) || (!gpu && allow_cpu) {
                kept.push(possible[m]);
            }
            m += 1;
        }
        assert(acc.take(acc.len() as int) =~= acc);
        if kept.len() == 0 {
            Ok(DrawIbStep::NoDataTypeMatched)
        } else {
            Ok(DrawIbStep::Export { max_slot_trianglelist_index: max_slot, game_types: kept })
        }
    }
}

proof fn lemma_match_scan_in_range(types: Seq<CamiGameType>, probes: Seq<Vec<Vec<SlotProbe>>>, i: int, acc: Seq<usize>, gpu_found: bool)
    requires
        0 <= i,
        forall|x: int| 0 <= x < acc.len() ==> (#[trigger] acc[x]) < types.len(),
    ensures
        match match_scan(types, probes, i, acc, gpu_found) {
            Ok(r) => forall|x: int| 0 <= x < r.len() ==> (#[trigger] r[x]) < types.len(),
            Err(_) => true,
        },
    decreases types.len() - i,
{
    if i < types.len() {
        if gpu_found && !types[i].gpu_pre_skinning {
            lemma_match_scan_in_range(types, probes, i + 1, acc, gpu_found);
        } else {
            let pushed = acc.push(i as usize);
            assert forall|x: int| 0 <= x < pushed.len() implies (#[trigger] pushed[x]) < types.len() by {
                if x < acc.len() {
                    assert(pushed[x] == acc[x]);
                }
            }
            lemma_match_scan_in_range(types, probes, i + 1, pushed, gpu_found || types[i].gpu_pre_skinning);
            lemma_match_scan_in_range(types, probes, i + 1, acc, gpu_found);
        }
    }
}

proof fn lemma_with_stride_in(types: Seq<CamiGameType>, acc: Seq<usize>, stride: u64)
    ensures
        forall|x: int| 0 <= x < with_stride(types, acc, stride).len() ==>
            exists|y: int| 0 <= y < acc.len() && #[trigger] with_stride(types, acc, stride)[x] == acc[y],
    decreases acc.len(),
{
    if acc.len() > 0 {
        let rest = with_stride(types, acc.drop_last(), stride);
        lemma_with_stride_in(types, acc.drop_last(), stride);
        let w = with_stride(types, acc, stride);
        assert forall|x: int| 0 <= x < w.len() implies exists|y: int| 0 <= y < acc.len() && #[trigger] w[x] == acc[y] by {
            if x < rest.len() {
                assert(w[x] == rest[x]);
                let y = choose|y: int| 0 <= y < acc.drop_last().len() && rest[x] == acc.drop_last()[y];
                assert(acc.drop_last()[y] == acc[y]);
            } else {
                assert(w[x] == acc[acc.len() - 1]);
            }
        }
    }
}

/// Every type that matching yields is one of `types`.
proof fn lemma_possible_in_range(types: Seq<CamiGameType>, probes: Seq<Vec<Vec<SlotProbe>>>)
    ensures
        match possible_types(types, probes) {
            Ok(r) => forall|x: int| 0 <= x < r.len() ==> (#[trigger] r[x]) < types.len(),
            Err(_) => true,
        },
{
    lemma_match_scan_in_range(types, probes, 0, Seq::empty(), false);
    match match_scan(types, probes, 0, Seq::empty(), false) {
        Ok(acc) => {
            let top = max_stride(types, acc);
            lemma_with_stride_in(types, acc, top);
            let w = with_stride(types, acc, top);
            assert forall|x: int| 0 <= x < w.len() implies (#[trigger] w[x]) < types.len() by {
                let y = choose|y: int| 0 <= y < acc.len() && w[x] == acc[y];
            }
        },
        Err(_) => {},
    }
}

// ---------------------------------------------------------------------------
// Setting up and running an extraction

pub open spec fn unit_error(r: Result<(), String>) -> Option<Seq<char>> {
    match r {
        Ok(_) => None,
        Err(e) => Some(e@),
    }
}

/// Why setting up fails, checked in this order: the dump folder is missing,
/// the dump cannot be read, the DrawIB configuration cannot be read (only
/// needed when extracting chosen draw IBs), the data types cannot be loaded.
pub open spec fn new_error(
    frame_analysis_folder: Seq<char>,
    is_full_extract: bool,
    folder_exists: bool,
    frame_analysis: Result<(), String>,
    drawib_config: Result<Vec<DrawIBEntry>, String>,
    game_types: Result<Vec<CamiGameType>, String>,
) -> Option<Seq<char>> {
    if !folder_exists {
        Some("FrameAnalysis 文件夹未找到: "@ + frame_analysis_folder)
    } else if frame_analysis is Err {
        unit_error(frame_analysis)
    } else if !is_full_extract && drawib_config is Err {
        Some("Failed to read DrawIB config: "@ + drawib_config->Err_0@)
    } else if game_types is Err {
        Some(game_types->Err_0@)
    } else {
        None
    }
}

/// One draw IB's steps and whether the run stops there.
pub open spec fn run_scan(types: Seq<CamiGameType>, probes: Seq<DrawIbProbe>, j: int, allow_gpu: bool, allow_cpu: bool) -> (Seq<StepView>, Option<Seq<char>>)
    decreases probes.len() - j,
{
    if j < 0 || j >= probes.len() {
        (Seq::empty(), None)
    } else {
        match draw_ib_step(types, probes[j], allow_gpu, allow_cpu) {
            Err(e) => (Seq::empty(), Some(e)),
            Ok(s) => {
                let rest = run_scan(types, probes, j + 1, allow_gpu, allow_cpu);
                (seq![s] + rest.0, rest.1)
            },
        }
    }
}

/// An extraction run: the step for each draw IB, in order, as far as the run
/// goes; then either the error that stops it, or the DrawIB entries whose
/// textures and settings are synced into the workspace.
pub struct CamiExtractPlan {
    pub steps: Vec<DrawIbStep>,
    pub outcome: Result<Vec<DrawIBEntry>, String>,
}

pub open spec fn step_views(s: Seq<DrawIbStep>) -> Seq<StepView> {
    Seq::new(s.len(), |i: int| step_view(s[i]))
}

pub open spec fn entry_views(s: Seq<DrawIBEntry>) -> Seq<(Seq<char>, Seq<char>)> {
    Seq::new(s.len(), |i: int| (s[i].draw_ib@, s[i].alias@))
}

/// The entries synced after a full run: the configured ones when extracting
/// chosen draw IBs, else each extracted draw IB under its own name.
pub open spec fn sync_entries(extractor: CamiNewExtractor, draw_ib_list: Seq<String>) -> Seq<(Seq<char>, Seq<char>)> {
    if extractor.specify_drawib_extract {
        entry_views(extractor.drawib_config@)
    } else {
        Seq::new(draw_ib_list.len(), |i: int| (draw_ib_list[i]@, draw_ib_list[i]@))
    }
}

impl CamiNewExtractor {
    /// Sets up an extractor for the dump in `frame_analysis_folder`, given what
    /// was read: whether the folder exists, whether the dump could be read, the
    /// workspace's DrawIB configuration and the known data types.
    pub fn new(
        frame_analysis_folder: &String,
        workspace_path: &String,
        is_full_extract: bool,
        folder_exists: bool,
        frame_analysis: Result<(), String>,
        drawib_config: Result<Vec<DrawIBEntry>, String>,
        game_types: Result<Vec<CamiGameType>, String>,
    ) -> (r: Result<Self, String>)
        ensures
            match r {
                Ok(x) => {
                    &&& new_error(frame_analysis_folder@, is_full_extract, folder_exists, frame_analysis, drawib_config, game_types) is None
                    &&& x.workspace_path@ == workspace_path@
                    &&& x.specify_drawib_extract == !is_full_extract
                    &&& x.drawib_config@ == if is_full_extract { Seq::empty() } else { drawib_config->Ok_0@ }
                    &&& x.game_types@ == game_types->Ok_0@
                },
                Err(e) => new_error(frame_analysis_folder@, is_full_extract, folder_exists, frame_analysis, drawib_config, game_types) == Some(e@),
            },
    {
        if !folder_exists {
            proof { reveal_strlit("FrameAnalysis 文件夹未找到: "); }
            return Err(concat2("FrameAnalysis 文件夹未找到: ", frame_analysis_folder.as_str()));
        }
        match frame_analysis {
            Ok(_) => {},
            Err(e) => {
                return Err(e);
            },
        }
        let specify_drawib_extract = !is_full_extract;
        let entries: Vec<DrawIBEntry> = if specify_drawib_extract {
            match drawib_config {
                Ok(v) => v,
                Err(e) => {
                    proof { reveal_strlit("Failed to read DrawIB config: "); }
                    return Err(concat2("Failed to read DrawIB config: ", e.as_str()));
                },
            }
        } else {
            Vec::new()
        };
        let types = match game_types {
            Ok(v) => v,
            Err(e) => {
                return Err(e);
            },
        };
        Ok(CamiNewExtractor {
            workspace_path: workspace_path.clone(),
            drawib_config: entries,
            specify_drawib_extract,
            game_types: types,
        })
    }

    /// Plans a run over `draw_ib_list` (what `draw_ib_list` chose), given what
    /// the dump holds for each draw IB and which kinds of data type are wanted.
    pub fn run_extract(&self, draw_ib_list: &Vec<String>, probes: &Vec<DrawIbProbe>, allow_gpu: bool, allow_cpu: bool) -> (plan: CamiExtractPlan)
        requires
            probes@.len() == draw_ib_list@.len(),
            forall|j: int| 0 <= j < probes@.len() ==> draw_ib_probe_fits(self.game_types@, #[trigger] probes@[j]),
        ensures
            step_views(plan.steps@) == run_scan(self.game_types@, probes@, 0, allow_gpu, allow_cpu).0,
            match (plan.outcome, run_scan(self.game_types@, probes@, 0, allow_gpu, allow_cpu).1) {
                (Err(e), Some(s)) => e@ == s,
                (Ok(v), None) => entry_views(v@) == sync_entries(*self, draw_ib_list@),
                _ => false,
            },
    {
        let ghost total = run_scan(self.game_types@, probes@, 0, allow_gpu, allow_cpu);
        let mut steps: Vec<DrawIbStep> = Vec::new();
        let mut j: usize = 0;
        while j < probes.len()
            invariant
                j <= probes@.len(),
                forall|k: int| 0 <= k < probes@.len() ==> draw_ib_probe_fits(self.game_types@, #[trigger] probes@[k]),
                total == run_scan(self.game_types@, probes@, 0, allow_gpu, allow_cpu),
                total.0 == step_views(steps@) + run_scan(self.game_types@, probes@, j as int, allow_gpu, allow_cpu).0,
                total.1 == run_scan(self.game_types@, probes@, j as int, allow_gpu, allow_cpu).1,
            decreases probes.len() - j,
        {
            match self.plan_draw_ib(&probes[j], allow_gpu, allow_cpu) {
                Err(e) => {
                    assert(run_scan(self.game_types@, probes@, j as int, allow_gpu, allow_cpu).0 =~= Seq::<StepView>::empty());
                    assert(total.0 =~= step_views(steps@));
                    return CamiExtractPlan { steps, outcome: Err(e) };
                },
                Ok(step) => {
                    let ghost before = steps@;
                    let ghost rest = run_scan(self.game_types@, probes@, j + 1, allow_gpu, allow_cpu);
                    steps.push(step);
                    assert(step_views(steps@) =~= step_views(before).push(step_view(step)));
                    assert(step_views(before) + (seq![step_view(step)] + rest.0) =~= step_views(steps@) + rest.0);
                },
            }
            j += 1;
        }
        assert(run_scan(self.game_types@, probes@, j as int, allow_gpu, allow_cpu).0 =~= Seq::<StepView>::empty());
        assert(total.0 =~= step_views(steps@));
        let mut entries: Vec<DrawIBEntry> = Vec::new();
        if self.specify_drawib_extract {
            let mut i: usize = 0;
            while i < self.drawib_config.len()
                invariant
                    i <= self.drawib_config@.len(),
                    entries@.len() == i,
                    entry_views(entries@) =~= entry_views(self.drawib_config@.take(i as int)),
                decreases self.drawib_config.len() - i,
            {
                let ghost before = entries@;
                entries.push(clone_entry(&self.drawib_config[i]));
                assert forall|k: int| 0 <= k < i + 1 implies #[trigger] entry_views(entries@)[k] == entry_views(self.drawib_config@.take(i + 1))[k] by {
                    if k < i {
                        assert(entries@[k] == before[k]);
                        assert(entry_views(before)[k] == entry_views(self.drawib_config@.take(i as int))[k]);
                    }
                }
                assert(entry_views(entries@) =~= entry_views(self.drawib_config@.take(i + 1)));
                i += 1;
            }
            assert(self.drawib_config@.take(self.drawib_config@.len() as int) =~= self.drawib_config@);
        } else {
            let mut i: usize = 0;
            while i < draw_ib_list.len()
                invariant
                    i <= draw_ib_list@.len(),
                    entries@.len() == i,
                    entry_views(entries@) =~= Seq::new(i as nat, |k: int| (draw_ib_list@[k]@, draw_ib_list@[k]@)),
                decreases draw_ib_list.len() - i,
            {
                let ghost before = entries@;
                entries.push(DrawIBEntry { draw_ib: draw_ib_list[i].clone(), alias: draw_ib_list[i].clone() });
                assert forall|k: int| 0 <= k < i + 1 implies #[trigger] entry_views(entries@)[k] == (draw_ib_list@[k]@, draw_ib_list@[k]@) by {
                    if k < i {
                        assert(entries@[k] == before[k]);
                        assert(entry_views(before)[k] == (draw_ib_list@[k]@, draw_ib_list@[k]@));
                    }
                }
                assert(entry_views(entries@) =~= Seq::new((i + 1) as nat, |k: int| (draw_ib_list@[k]@, draw_ib_list@[k]@)));
                i += 1;
            }
        }
        CamiExtractPlan { steps, outcome: Ok(entries) }
    }
}

// ---------------------------------------------------------------------------
// Cutting a category buffer

/// The part of a `.txt` buffer description that says where the vertices are.
pub struct BufferMetadata {
    pub stride: usize,
    pub vertex_count: usize,
    pub byte_offset: usize,
}

/// How a category buffer is written into the workspace.
pub enum CategoryBufferAction {
    /// Copy the deduplicated buffer file as it is.
    Copy,
    /// Write bytes `start..end` of the deduplicated buffer file.
    Slice { start: usize, end: usize },
}

pub enum BufferActionView {
    Copy,
    Slice(int, int),
}

pub open spec fn action_view(a: CategoryBufferAction) -> BufferActionView {
    match a {
        CategoryBufferAction::Copy => BufferActionView::Copy,
        CategoryBufferAction::Slice { start, end } => BufferActionView::Slice(start as int, end as int),
    }
}

/// The decision for one category buffer. A GPU pre-skinning type copies the
/// file; otherwise a readable description with a stride and vertices cuts
/// the vertices out (where the range fits in `usize`), and anything else copies.
pub open spec fn category_buffer_action(
    category_name: Seq<char>,
    category_buf_filename: Seq<char>,
    deduped_path_known: bool,
    gpu_pre_skinning: bool,
    metadata: Option<Result<BufferMetadata, String>>,
) -> Result<BufferActionView, Seq<char>> {
    if !deduped_path_known {
        Err("Category "@ + category_name + " deduped path is empty: "@ + category_buf_filename)
    } else if gpu_pre_skinning {
        Ok(BufferActionView::Copy)
    } else {
        match metadata {
            None => Ok(BufferActionView::Copy),
            Some(Err(e)) => Err(e@),
            Some(Ok(m)) => if m.stride > 0 && m.vertex_count > 0 {
                let read_len = m.vertex_count * m.stride;
                if read_len > usize::MAX {
                    Err("Category "@ + category_name + " slice length overflow: vertex_count="@ + decimal(m.vertex_count as nat)
                        + " stride="@ + decimal(m.stride as nat))
                } else if m.byte_offset + read_len > usize::MAX {
                    Err("Category "@ + category_name + " slice end overflow: byte_offset="@ + decimal(m.byte_offset as nat)
                        + " read_len="@ + decimal(read_len as nat))
                } else {
                    Ok(BufferActionView::Slice(m.byte_offset as int, m.byte_offset + read_len))
                }
            } else {
                Ok(BufferActionView::Copy)
            },
        }
    }
}

/// How to write one category buffer; `metadata` is the buffer's `.txt`
/// description as read (`None` when there is none).
pub fn export_category_buffer_action(
    category_name: &str,
    category_buf_filename: &str,
    deduped_path_known: bool,
    gpu_pre_skinning: bool,
    metadata: Option<Result<BufferMetadata, String>>,
) -> (r: Result<CategoryBufferAction, String>)
    ensures
        match (r, category_buffer_action(category_name@, category_buf_filename@, deduped_path_known, gpu_pre_skinning, metadata)) {
            (Ok(a), Ok(v)) => action_view(a) == v,
            (Err(e), Err(v)) => e@ == v,
            _ => false,
        },
{
    proof { reveal_strlit("Category "); }
    if !deduped_path_known {
        proof { reveal_strlit(" deduped path is empty: "); }
        let mut e = concat3("Category ", category_name, " deduped path is empty: ");
        e.append(category_buf_filename);
        return Err(e);
    }
    if gpu_pre_skinning {
        return Ok(CategoryBufferAction::Copy);
    }
    match metadata {
        None => Ok(CategoryBufferAction::Copy),
        Some(Err(e)) => Err(e),
        Some(Ok(m)) => {
            if m.stride > 0 && m.vertex_count > 0 {
                let read_len = match m.vertex_count.checked_mul(m.stride) {
                    Some(x) => x,
                    None => {
                        proof {
                            reveal_strlit(" slice length overflow: vertex_count=");
                            reveal_strlit(" stride=");
                        }
                        let mut e = concat3("Category ", category_name, " slice length overflow: vertex_count=");
                        e.append(decimal_text(m.vertex_count as u64).as_str());
                        e.append(" stride=");
                        e.append(decimal_text(m.stride as u64).as_str());
                        return Err(e);
                    },
                };
                match m.byte_offset.checked_add(read_len) {
                    Some(end) => Ok(CategoryBufferAction::Slice { start: m.byte_offset, end }),
                    None => {
                        proof {
                            reveal_strlit(" slice end overflow: byte_offset=");
                            reveal_strlit(" read_len=");
                        }
                        let mut e = concat3("Category ", category_name, " slice end overflow: byte_offset=");
                        e.append(decimal_text(m.byte_offset as u64).as_str());
                        e.append(" read_len=");
                        e.append(decimal_text(read_len as u64).as_str());
                        Err(e)
                    },
                }
            } else {
                Ok(CategoryBufferAction::Copy)
            }
        },
    }
}

// ---------------------------------------------------------------------------
// Naming the submeshes

/// The index buffer format of a submesh: 32-bit where the dump says so, else 16-bit.
pub fn ib_file_format(read_dxgi_format: &str) -> (f: &'static str)
    ensures
        f@ == if read_dxgi_format@ == "DXGI_FORMAT_R32_UINT"@ { "DXGI_FORMAT_R32_UINT"@ } else { "DXGI_FORMAT_R16_UINT"@ },
{
    if crate::text::str_eq(read_dxgi_format, "DXGI_FORMAT_R32_UINT") {
        "DXGI_FORMAT_R32_UINT"
    } else {
        "DXGI_FORMAT_R16_UINT"
    }
}

/// `s` without its first `skip` characters, cut to at most `take` characters.
pub open spec fn chars_window(s: Seq<char>, skip: int, take: int) -> Seq<char> {
    let from = if skip < s.len() { skip } else { s.len() as int };
    let to = if from + take < s.len() { from + take } else { s.len() as int };
    s.subrange(from, to)
}

fn window_of(s: &str, skip: usize, take: usize) -> (out: String)
    ensures
        out@ == chars_window(s@, skip as int, take as int),
{
    let chars = chars_of(s);
    let n = chars.len();
    let from: usize = if skip < n { skip } else { n };
    let to: usize = if take < n - from { from + take } else { n };
    string_of(chars.as_slice(), from, to)
}

/// The vertex-limit hash of a submesh: characters 12 to 19 of the draw's
/// `vb0` description file name (nothing when there is none).
pub fn vertex_limit_vb(vb0_file_name: &str) -> (v: String)
    ensures
        v@ == chars_window(vb0_file_name@, 11, 8),
{
    window_of(vb0_file_name, 11, 8)
}

/// The draw a submesh belongs to: the first six characters of its IB description's file name.
pub fn owner_trianglelist_index(ib_txt_file_name: &str) -> (v: String)
    ensures
        v@ == chars_window(ib_txt_file_name@, 0, 6),
{
    window_of(ib_txt_file_name, 0, 6)
}

/// The folder (and file-name prefix) of a submesh: `{draw_ib}-{index_count}-{first_index}`.
pub fn submesh_folder_name(draw_ib: &str, index_count: &str, first_index: &str) -> (v: String)
    ensures
        v@ == draw_ib@ + "-"@ + index_count@ + "-"@ + first_index@,
{
    proof { reveal_strlit("-"); }
    let mut v = concat3(draw_ib, "-", index_count);
    v.append("-");
    v.append(first_index);
    v
}

/// The folder of a data type inside a submesh folder: `TYPE_{name}`.
pub fn game_type_folder_name(game_type_name: &str) -> (v: String)
    ensures
        v@ == "TYPE_"@ + game_type_name@,
{
    proof { reveal_strlit("TYPE_"); }
    concat2("TYPE_", game_type_name)
}

/// The file of one category's buffer in a submesh folder: `{prefix}-{category}.buf`.
pub fn category_buffer_file_name(prefix: &str, category_name: &str) -> (v: String)
    ensures
        v@ == prefix@ + "-"@ + category_name@ + ".buf"@,
{
    proof {
        reveal_strlit("-");
        reveal_strlit(".buf");
    }
    let mut v = concat3(prefix, "-", category_name);
    v.append(".buf");
    v
}

/// The hash of each category of `ty`, in order, read from the names of the
/// category buffers that the submesh's draw binds (`buf_file_names[k]` for
/// category `k`, empty where none); the first that holds no hash stops it.
pub open spec fn category_hashes_from(ty: CamiGameType, names: Seq<String>, k: int) -> Result<Seq<Seq<char>>, Seq<char>>
    decreases ty.categories@.len() - k,
{
    if k < 0 || k >= ty.categories@.len() {
        Ok(Seq::empty())
    } else {
        match category_hash_outcome(ty.categories@, ty.categories@[k].name@, names[k]@) {
            Err(e) => Err(e),
            Ok(h) => match category_hashes_from(ty, names, k + 1) {
                Err(e) => Err(e),
                Ok(rest) => Ok(seq![h] + rest),
            },
        }
    }
}

impl CamiGameType {
    /// The category hashes of a submesh, as its description lists them.
    pub fn submesh_category_hashes(&self, buf_file_names: &Vec<String>) -> (r: Result<Vec<String>, String>)
        requires
            buf_file_names@.len() == self.categories@.len(),
        ensures
            match (r, category_hashes_from(*self, buf_file_names@, 0)) {
                (Ok(v), Ok(s)) => string_views(v@) == s,
                (Err(e), Err(s)) => e@ == s,
                _ => false,
            },
    {
        let mut out: Vec<String> = Vec::new();
        let mut k: usize = 0;
        while k < self.categories.len()
            invariant
                buf_file_names@.len() == self.categories@.len(),
                k <= self.categories@.len(),
                category_hashes_from(*self, buf_file_names@, 0) == match category_hashes_from(*self, buf_file_names@, k as int) {
                    Err(e) => Err(e),
                    Ok(rest) => Ok(string_views(out@) + rest),
                },
            decreases self.categories.len() - k,
        {
            match self.build_category_hash_from_buf_file_name(self.categories[k].name.as_str(), buf_file_names[k].as_str()) {
                Err(e) => {
                    return Err(e);
                },
                Ok(h) => {
                    let ghost before = out@;
                    out.push(h);
                    proof {
                        assert(string_views(out@) =~= string_views(before).push(h@));
                        match category_hashes_from(*self, buf_file_names@, k + 1) {
                            Err(_) => {},
                            Ok(rest) => {
                                assert(string_views(before) + (seq![h@] + rest) =~= string_views(out@) + rest);
                            },
                        }
                    }
                },
            }
            k += 1;
        }
        assert(string_views(out@) + Seq::<Seq<char>>::empty() =~= string_views(out@));
        Ok(out)
    }
}

// ---------------------------------------------------------------------------
// Decimal numbers in the dump's descriptions

pub open spec fn is_digit(c: char) -> bool {
    '0' <= c && c <= '9'
}

/// The value of a string of decimal digits.
pub open spec fn digits_value(s: Seq<char>) -> nat
    decreases s.len(),
{
    if s.len() == 0 {
        0
    } else {
        digits_value(s.drop_last()) * 10 + ((s.last() as u32) - ('0' as u32)) as nat
    }
}

/// The text after an optional leading `+`.
pub open spec fn unsigned_digits(s: Seq<char>) -> Seq<char> {
    if s.len() > 0 && s[0] == '+' { s.drop_first() } else { s }
}

/// What `str::parse` gives for an unsigned integer of at most `max`: an
/// optional `+` and then one or more decimal digits, of a value that fits.
pub open spec fn parsed_unsigned(s: Seq<char>, max: nat) -> Option<nat> {
    let d = unsigned_digits(s);
    if d.len() > 0 && (forall|i: int| 0 <= i < d.len() ==> is_digit(#[trigger] d[i])) && digits_value(d) <= max {
        Some(digits_value(d))
    } else {
        None
    }
}

proof fn lemma_digits_value_grows(d: Seq<char>, i: int)
    requires
        0 <= i <= d.len(),
        forall|k: int| 0 <= k < d.len() ==> is_digit(#[trigger] d[k]),
    ensures
        digits_value(d.take(i)) <= digits_value(d),
    decreases d.len() - i,
{
    if i < d.len() {
        lemma_digits_value_grows(d, i + 1);
        assert(d.take(i + 1).drop_last() =~= d.take(i));
    } else {
        assert(d.take(i) =~= d);
    }
}

/// Parses an unsigned decimal number of at most `max`, as `str::parse` does.
pub fn parse_unsigned(s: &str, max: u64) -> (r: Option<u64>)
    ensures
        match (r, parsed_unsigned(s@, max as nat)) {
            (Some(n), Some(v)) => n as nat == v,
            (None, None) => true,
            _ => false,
        },
{
    let chars = chars_of(s);
    let start: usize = if chars.len() > 0 && chars[0] == '+' { 1 } else { 0 };
    let ghost d = unsigned_digits(s@);
    assert(d =~= chars@.subrange(start as int, chars@.len() as int));
    if start >= chars.len() {
        return None;
    }
    let mut value: u64 = 0;
    let mut i: usize = start;
    while i < chars.len()
        invariant
            chars@ == s@,
            start <= i <= chars@.len(),
            d == unsigned_digits(s@),
            d =~= chars@.subrange(start as int, chars@.len() as int),
            forall|k: int| 0 <= k < i - start ==> is_digit(#[trigger] d[k]),
            value as nat == digits_value(d.take(i - start)),
            value <= max,
        decreases chars.len() - i,
    {
        let c = chars[i];
        if !('0' <= c && c <= '9') {
            assert(!is_digit(d[i - start]));
            assert(!(forall|k: int| 0 <= k < d.len() ==> is_digit(#[trigger] d[k])));
            return None;
        }
        let digit: u64 = (c as u32 - '0' as u32) as u64;
        assert(d.take(i - start + 1).drop_last() =~= d.take(i - start));
        assert(d.take(i - start + 1).last() == c);
        let next = match value.checked_mul(10) {
            Some(x) => x.checked_add(digit),
            None => None,
        };
        match next {
            Some(x) if x <= max => {
                value = x;
            },
            _ => {
                proof {
                    let t = d.take(i - start + 1);
                    assert(digits_value(t) == digits_value(t.drop_last()) * 10 + ((t.last() as u32) - ('0' as u32)) as nat);
                    assert(digits_value(t) == value * 10 + digit);
                    assert(digits_value(t) > max);
                    if forall|k: int| 0 <= k < d.len() ==> is_digit(#[trigger] d[k]) {
                        lemma_digits_value_grows(d, i - start + 1);
                    }
                }
                return None;
            },
        }
        i += 1;
    }
    assert(d.take(i - start) =~= d);
    Some(value)
}

// ---------------------------------------------------------------------------
// The submeshes of a draw IB, by first index

/// The header of an IB `.txt` description: its topology and its first index.
pub struct IbTxtHeader {
    pub topology: String,
    pub first_index: String,
}

/// What the dump holds for the IB of one trianglelist draw.
pub struct IbTxtProbe {
    /// The file name of the `.txt` description (empty when none is listed).
    pub file_name: String,
    /// Its deduplicated path is known.
    pub path_known: bool,
    /// Its header, or why it could not be read.
    pub header: Result<IbTxtHeader, String>,
}

/// A table ordered by key, with `name` under `key` (replacing what was there).
pub open spec fn key_insert(s: Seq<(u64, Seq<char>)>, key: u64, name: Seq<char>) -> Seq<(u64, Seq<char>)>
    decreases s.len(),
{
    if s.len() == 0 {
        seq![(key, name)]
    } else if s[0].0 == key {
        seq![(key, name)] + s.drop_first()
    } else if s[0].0 > key {
        seq![(key, name)] + s
    } else {
        seq![s[0]] + key_insert(s.drop_first(), key, name)
    }
}

/// The keys of the table rise strictly.
pub open spec fn keys_rise(s: Seq<(u64, Seq<char>)>) -> bool {
    forall|i: int, j: int| 0 <= i < j < s.len() ==> #[trigger] s[i].0 < #[trigger] s[j].0
}

/// The trianglelist submeshes of the draws from `j` on, added to `acc` by
/// first index (an unreadable first index counts as 0; a later draw with the
/// same first index replaces an earlier one).
pub open spec fn first_index_table(probes: Seq<IbTxtProbe>, j: int, acc: Seq<(u64, Seq<char>)>) -> Result<Seq<(u64, Seq<char>)>, Seq<char>>
    decreases probes.len() - j,
{
    if j < 0 || j >= probes.len() {
        Ok(acc)
    } else if probes[j].file_name@.len() == 0 || !probes[j].path_known {
        first_index_table(probes, j + 1, acc)
    } else {
        match probes[j].header {
            Err(e) => Err(e@),
            Ok(h) => if h.topology@ != "trianglelist"@ {
                first_index_table(probes, j + 1, acc)
            } else {
                let key: u64 = match parsed_unsigned(h.first_index@, u64::MAX as nat) {
                    Some(v) => v as u64,
                    None => 0,
                };
                first_index_table(probes, j + 1, key_insert(acc, key, probes[j].file_name@))
            },
        }
    }
}

pub open spec fn table_views(t: Seq<(u64, String)>) -> Seq<(u64, Seq<char>)> {
    Seq::new(t.len(), |i: int| (t[i].0, t[i].1@))
}

proof fn lemma_key_insert_rises(s: Seq<(u64, Seq<char>)>, key: u64, name: Seq<char>)
    requires
        keys_rise(s),
    ensures
        keys_rise(key_insert(s, key, name)),
        key_insert(s, key, name).len() > 0,
        forall|i: int| 0 <= i < key_insert(s, key, name).len() ==>
            (#[trigger] key_insert(s, key, name)[i]).0 == key || (exists|j: int| 0 <= j < s.len() && s[j].0 == key_insert(s, key, name)[i].0),
    decreases s.len(),
{
    let r = key_insert(s, key, name);
    if s.len() == 0 {
    } else if s[0].0 == key {
        assert forall|i: int| 0 <= i < r.len() implies (#[trigger] r[i]).0 == key || (exists|j: int| 0 <= j < s.len() && s[j].0 == r[i].0) by {
            if i > 0 {
                assert(r[i] == s[i]);
            }
        }
    } else if s[0].0 > key {
        assert forall|i: int| 0 <= i < r.len() implies (#[trigger] r[i]).0 == key || (exists|j: int| 0 <= j < s.len() && s[j].0 == r[i].0) by {
            if i > 0 {
                assert(r[i] == s[i - 1]);
            }
        }
    } else {
        let t = s.drop_first();
        lemma_key_insert_rises(t, key, name);
        let rt = key_insert(t, key, name);
        assert(r == seq![s[0]] + rt);
        assert forall|i: int| 0 <= i < r.len() implies (#[trigger] r[i]).0 == key || (exists|j: int| 0 <= j < s.len() && s[j].0 == r[i].0) by {
            if i > 0 {
                assert(r[i] == rt[i - 1]);
                if rt[i - 1].0 != key {
                    let j = choose|j: int| 0 <= j < t.len() && t[j].0 == rt[i - 1].0;
                    assert(s[j + 1] == t[j]);
                }
            } else {
                assert(s[0].0 == r[0].0);
            }
        }
        assert forall|i: int, j: int| 0 <= i < j < r.len() implies #[trigger] r[i].0 < #[trigger] r[j].0 by {
            if i == 0 {
                assert(r[j] == rt[j - 1]);
                if rt[j - 1].0 != key {
                    let k = choose|k: int| 0 <= k < t.len() && t[k].0 == rt[j - 1].0;
                    assert(t[k] == s[k + 1]);
                }
            } else {
                assert(r[i] == rt[i - 1]);
                assert(r[j] == rt[j - 1]);
            }
        }
    }
}

/// Files `name` under `key` in the table.
fn insert_key(table: &mut Vec<(u64, String)>, key: u64, name: String)
    ensures
        table_views(final(table)@) == key_insert(table_views(old(table)@), key, name@),
{
    let ghost s = table_views(table@);
    let mut p: usize = 0;
    assert(s.take(0) + s.skip(0) =~= s);
    assert(s.skip(0) =~= s);
    assert(s.take(0) + key_insert(s, key, name@) =~= key_insert(s, key, name@));
    while p < table.len() && table[p].0 < key
        invariant
            s == table_views(table@),
            p <= table@.len(),
            key_insert(s, key, name@) == s.take(p as int) + key_insert(s.skip(p as int), key, name@),
        decreases table.len() - p,
    {
        proof {
            let rest = s.skip(p as int);
            assert(rest[0] == s[p as int]);
            assert(rest.drop_first() =~= s.skip(p + 1));
            assert(s.take(p as int) + (seq![s[p as int]] + key_insert(s.skip(p + 1), key, name@))
                =~= s.take(p + 1) + key_insert(s.skip(p + 1), key, name@));
        }
        p += 1;
    }
    let rest = Ghost(s.skip(p as int));
    if p < table.len() && table[p].0 == key {
        proof {
            assert(rest@[0] == s[p as int]);
            assert(rest@.drop_first() =~= s.skip(p + 1));
        }
        table.set(p, (key, name));
        assert(table_views(table@) =~= s.take(p as int) + (seq![(key, name@)] + rest@.drop_first()));
    } else {
        proof {
            if p < s.len() {
                assert(rest@[0] == s[p as int]);
            } else {
                assert(rest@ =~= Seq::<(u64, Seq<char>)>::empty());
            }
        }
        table.insert(p, (key, name));
        assert(table_views(table@) =~= s.take(p as int) + (seq![(key, name@)] + rest@));
    }
}

/// The trianglelist submeshes of a draw IB, by first index, from what the
/// dump holds for the IB of each of its draws; draws whose description cannot
/// be read stop it.
pub fn match_first_index_table(probes: &Vec<IbTxtProbe>) -> (r: Result<Vec<(u64, String)>, String>)
    ensures
        match (r, first_index_table(probes@, 0, Seq::empty())) {
            (Ok(t), Ok(s)) => table_views(t@) == s && keys_rise(s),
            (Err(e), Err(s)) => e@ == s,
            _ => false,
        },
{
    let mut table: Vec<(u64, String)> = Vec::new();
    let mut j: usize = 0;
    assert(table_views(table@) =~= Seq::<(u64, Seq<char>)>::empty());
    while j < probes.len()
        invariant
            j <= probes@.len(),
            keys_rise(table_views(table@)),
            first_index_table(probes@, 0, Seq::empty()) == first_index_table(probes@, j as int, table_views(table@)),
        decreases probes.len() - j,
    {
        let p = &probes[j];
        if !p.file_name.as_str().is_empty() && p.path_known {
            match &p.header {
                Err(e) => {
                    return Err(e.clone());
                },
                Ok(h) => {
                    if crate::text::str_eq(h.topology.as_str(), "trianglelist") {
                        let key: u64 = match parse_unsigned(h.first_index.as_str(), u64::MAX) {
                            Some(v) => v,
                            None => 0,
                        };
                        proof { lemma_key_insert_rises(table_views(table@), key, p.file_name@); }
                        insert_key(&mut table, key, p.file_name.clone());
                    }
                },
            }
        }
        j += 1;
    }
    Ok(table)
}

impl CamiNewExtractor {
    /// The data types (by position in `game_types`) that a draw IB may be,
    /// given what the dump holds for each data type in each of the IB's
    /// trianglelist draws (`probes[t][d][k]`: category `k` of type `t` in draw `d`).
    pub fn get_possible_gametype_list_unreal_vs(&self, trianglelist_index_list: &Vec<String>, probes: &Vec<Vec<Vec<SlotProbe>>>) -> (r: Result<Vec<usize>, String>)
        requires
            probes_fit(self.game_types@, trianglelist_index_list@.len() as int, probes@),
        ensures
            match (r, possible_types(self.game_types@, probes@)) {
                (Ok(v), Ok(s)) => v@ == s,
                (Err(e), Err(s)) => e@ == s,
                _ => false,
            },
    {
        possible_game_types(&self.game_types, trianglelist_index_list.len(), probes)
    }
}

/// What each type listed by matching satisfies: it stands among the types,
/// after the ones listed before it, and one draw carries it on its own.
pub open spec fn listed_types_match(types: Seq<CamiGameType>, probes: Seq<Vec<Vec<SlotProbe>>>, r: Seq<usize>) -> bool {
    &&& forall|x: int| 0 <= x < r.len() ==> (#[trigger] r[x]) < types.len()
    &&& forall|x: int, y: int| 0 <= x < y < r.len() ==> #[trigger] r[x] < #[trigger] r[y]
    &&& forall|x: int| 0 <= x < r.len() ==> type_scan(types[#[trigger] r[x] as int], probes[r[x] as int]@, 0) == ScanOutcome::Matched
}

proof fn lemma_match_scan_listed(types: Seq<CamiGameType>, probes: Seq<Vec<Vec<SlotProbe>>>, i: int, acc: Seq<usize>, gpu_found: bool)
    requires
        0 <= i,
        types.len() <= usize::MAX,
        listed_types_match(types, probes, acc),
        forall|x: int| 0 <= x < acc.len() ==> (#[trigger] acc[x]) < i,
    ensures
        match match_scan(types, probes, i, acc, gpu_found) {
            Ok(r) => listed_types_match(types, probes, r),
            Err(_) => true,
        },
    decreases types.len() - i,
{
    if i < types.len() {
        if gpu_found && !types[i].gpu_pre_skinning {
            lemma_match_scan_listed(types, probes, i + 1, acc, gpu_found);
        } else {
            match type_scan(types[i], probes[i]@, 0) {
                ScanOutcome::Matched => {
                    let pushed = acc.push(i as usize);
                    assert forall|x: int| 0 <= x < pushed.len() implies (#[trigger] pushed[x]) < i + 1 by {
                        if x < acc.len() {
                            assert(pushed[x] == acc[x]);
                        }
                    }
                    assert forall|x: int, y: int| 0 <= x < y < pushed.len() implies #[trigger] pushed[x] < #[trigger] pushed[y] by {
                        assert(pushed[x] == acc[x]);
                        if y < acc.len() {
                            assert(pushed[y] == acc[y]);
                        } else {
                            assert(pushed[y] == i as usize);
                            assert(acc[x] < i);
                        }
                    }
                    assert forall|x: int| 0 <= x < pushed.len() implies type_scan(types[#[trigger] pushed[x] as int], probes[pushed[x] as int]@, 0) == ScanOutcome::Matched by {
                        if x < acc.len() {
                            assert(pushed[x] == acc[x]);
                        } else {
                            assert(pushed[x] as int == i);
                        }
                    }
                    lemma_match_scan_listed(types, probes, i + 1, pushed, gpu_found || types[i].gpu_pre_skinning);
                },
                _ => {
                    lemma_match_scan_listed(types, probes, i + 1, acc, gpu_found);
                },
            }
        }
    }
}

proof fn lemma_with_stride_listed(types: Seq<CamiGameType>, probes: Seq<Vec<Vec<SlotProbe>>>, acc: Seq<usize>, stride: u64)
    requires
        listed_types_match(types, probes, acc),
    ensures
        listed_types_match(types, probes, with_stride(types, acc, stride)),
        forall|x: int| 0 <= x < with_stride(types, acc, stride).len() ==>
            types[#[trigger] with_stride(types, acc, stride)[x] as int].self_stride == stride,
        forall|x: int| 0 <= x < with_stride(types, acc, stride).len() ==>
            exists|y: int| 0 <= y < acc.len() && #[trigger] with_stride(types, acc, stride)[x] == acc[y],
    decreases acc.len(),
{
    if acc.len() > 0 {
        let init = acc.drop_last();
        assert forall|x: int, y: int| 0 <= x < y < init.len() implies #[trigger] init[x] < #[trigger] init[y] by {
            assert(init[x] == acc[x] && init[y] == acc[y]);
        }
        assert forall|x: int| 0 <= x < init.len() implies type_scan(types[#[trigger] init[x] as int], probes[init[x] as int]@, 0) == ScanOutcome::Matched by {
            assert(init[x] == acc[x]);
        }
        assert forall|x: int| 0 <= x < init.len() implies (#[trigger] init[x]) < types.len() by {
            assert(init[x] == acc[x]);
        }
        lemma_with_stride_listed(types, probes, init, stride);
        let rest = with_stride(types, init, stride);
        let w = with_stride(types, acc, stride);
        assert forall|x: int| 0 <= x < w.len() implies exists|y: int| 0 <= y < acc.len() && #[trigger] w[x] == acc[y] by {
            if x < rest.len() {
                let y = choose|y: int| 0 <= y < init.len() && rest[x] == init[y];
                assert(w[x] == rest[x]);
                assert(init[y] == acc[y]);
            } else {
                assert(w[x] == acc[acc.len() - 1]);
            }
        }
        assert forall|x: int, y: int| 0 <= x < y < w.len() implies #[trigger] w[x] < #[trigger] w[y] by {
            assert(w[x] == rest[x]);
            if y < rest.len() {
                assert(w[y] == rest[y]);
            } else {
                let z = choose|z: int| 0 <= z < init.len() && rest[x] == init[z];
                assert(init[z] == acc[z]);
                assert(w[y] == acc[acc.len() - 1]);
            }
        }
        assert forall|x: int| 0 <= x < w.len() implies type_scan(types[#[trigger] w[x] as int], probes[w[x] as int]@, 0) == ScanOutcome::Matched by {
            if x < rest.len() {
                assert(w[x] == rest[x]);
            } else {
                assert(w[x] == acc[acc.len() - 1]);
            }
        }
        assert forall|x: int| 0 <= x < w.len() implies types[#[trigger] w[x] as int].self_stride == stride by {
            if x < rest.len() {
                assert(w[x] == rest[x]);
            }
        }
    }
}

/// Matching lists data types in their order, each of which one trianglelist
/// draw carries completely on its own; and when every listed type is a GPU
/// pre-skinning type, the listed ones share one own stride.
pub proof fn law_possible_types_match_single_draws(types: Seq<CamiGameType>, probes: Seq<Vec<Vec<SlotProbe>>>)
    requires
        types.len() <= usize::MAX,
    ensures
        match possible_types(types, probes) {
            Ok(r) => {
                &&& listed_types_match(types, probes, r)
                &&& all_gpu(types, r) ==> forall|x: int, y: int| 0 <= x < r.len() && 0 <= y < r.len() ==>
                    types[#[trigger] r[x] as int].self_stride == types[#[trigger] r[y] as int].self_stride
            },
            Err(_) => true,
        },
{
    lemma_match_scan_listed(types, probes, 0, Seq::empty(), false);
    match match_scan(types, probes, 0, Seq::empty(), false) {
        Ok(acc) => {
            if all_gpu(types, acc) {
                lemma_with_stride_listed(types, probes, acc, max_stride(types, acc));
            } else {
                assert(!all_gpu(types, acc));
                let m = choose|m: int| 0 <= m < acc.len() && !types[acc[m] as int].gpu_pre_skinning;
            }
        },
        Err(_) => {},
    }
}

// ---------------------------------------------------------------------------
// One submesh of a data type

/// Where and under which names one submesh of a data type is written.
pub struct SubmeshPlan {
    /// `{draw_ib}-{index_count}-{first_index}`: the submesh's folder and the prefix of its files.
    pub folder_name: String,
    /// `TYPE_{name}`: the data type's folder inside it.
    pub game_type_folder: String,
    /// `{prefix}.ib`: the submesh's own index buffer.
    pub ib_file_name: String,
    /// Where the submesh's indices start in the draw IB's index buffer (0 when unreadable).
    pub ib_first_index: usize,
    /// `{prefix}-{category}.buf` for each category, in order.
    pub category_buffer_files: Vec<String>,
    /// `{prefix}.json`: the submesh's description.
    pub json_file_name: String,
}

pub open spec fn submesh_prefix(draw_ib: Seq<char>, index_count: Seq<char>, first_index: Seq<char>) -> Seq<char> {
    draw_ib + "-"@ + index_count + "-"@ + first_index
}

impl CamiGameType {
    /// The names of one submesh of this data type: the draw IB, and the index
    /// count and first index from the submesh's IB description.
    pub fn plan_submesh(&self, draw_ib: &str, index_count: &str, first_index: &str) -> (p: SubmeshPlan)
        ensures
            p.folder_name@ == submesh_prefix(draw_ib@, index_count@, first_index@),
            p.game_type_folder@ == "TYPE_"@ + self.name@,
            p.ib_file_name@ == submesh_prefix(draw_ib@, index_count@, first_index@) + ".ib"@,
            p.ib_first_index as nat == match parsed_unsigned(first_index@, usize::MAX as nat) {
                Some(v) => v,
                None => 0,
            },
            string_views(p.category_buffer_files@) == Seq::new(self.categories@.len(), |k: int|
                submesh_prefix(draw_ib@, index_count@, first_index@) + "-"@ + self.categories@[k].name@ + ".buf"@),
            p.json_file_name@ == submesh_prefix(draw_ib@, index_count@, first_index@) + ".json"@,
    {
        proof {
            reveal_strlit(".ib");
            reveal_strlit(".json");
        }
        let prefix = submesh_folder_name(draw_ib, index_count, first_index);
        let ib_first_index: usize = match parse_unsigned(first_index, usize::MAX as u64) {
            Some(v) => v as usize,
            None => 0,
        };
        let mut files: Vec<String> = Vec::new();
        let mut k: usize = 0;
        while k < self.categories.len()
            invariant
                k <= self.categories@.len(),
                prefix@ == submesh_prefix(draw_ib@, index_count@, first_index@),
                string_views(files@) == Seq::new(k as nat, |i: int| prefix@ + "-"@ + self.categories@[i].name@ + ".buf"@),
            decreases self.categories.len() - k,
        {
            let f = category_buffer_file_name(prefix.as_str(), self.categories[k].name.as_str());
            let ghost before = files@;
            files.push(f);
            assert(string_views(files@) =~= Seq::new((k + 1) as nat, |i: int| prefix@ + "-"@ + self.categories@[i].name@ + ".buf"@)) by {
                assert(string_views(files@) =~= string_views(before).push(f@));
            }
            k += 1;
        }
        SubmeshPlan {
            folder_name: prefix.clone(),
            game_type_folder: game_type_folder_name(self.name.as_str()),
            ib_file_name: concat2(prefix.as_str(), ".ib"),
            ib_first_index,
            category_buffer_files: files,
            json_file_name: concat2(prefix.as_str(), ".json"),
        }
    }
}

/// The positions, in a data type's ordered list of elements, of the elements
/// of `category`; `element_categories[i]` is the category of element `i`, or
/// `None` where the data type does not describe it.
pub open spec fn elements_of(element_categories: Seq<Option<String>>, category: Seq<char>) -> Seq<usize>
    decreases element_categories.len(),
{
    if element_categories.len() == 0 {
        Seq::empty()
    } else {
        let rest = elements_of(element_categories.drop_last(), category);
        match element_categories.last() {
            Some(c) => if c@ == category { rest.push((element_categories.len() - 1) as usize) } else { rest },
            None => rest,
        }
    }
}

/// The elements that a submesh's description lists for one category buffer, in order.
pub fn submesh_elements_for_category(element_categories: &Vec<Option<String>>, category_name: &str) -> (v: Vec<usize>)
    ensures
        v@ == elements_of(element_categories@, category_name@),
{
    let mut out: Vec<usize> = Vec::new();
    let mut i: usize = 0;
    while i < element_categories.len()
        invariant
            i <= element_categories@.len(),
            out@ == elements_of(element_categories@.take(i as int), category_name@),
        decreases element_categories.len() - i,
    {
        assert(element_categories@.take(i + 1).drop_last() =~= element_categories@.take(i as int));
        match &element_categories[i] {
            Some(c) => {
                if crate::text::str_eq(c.as_str(), category_name) {
                    out.push(i);
                }
            },
            None => {},
        }
        i += 1;
    }
    assert(element_categories@.take(i as int) =~= element_categories@);
    out
}

} // verus!
