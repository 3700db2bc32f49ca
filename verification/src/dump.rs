//! The text of a memory dump: the line that shows an allocation's bytes, size,
//! alignment and kind, and the line of marks under the pointers it holds.
use vstd::prelude::*;
use std::collections::HashSet;
use crate::allocation::{Allocation, MemoryKind, Mutability};
use crate::memory::Instance;
use crate::ordered_keys::lemma_u64_keys_ordered;
use crate::pointer::{AllocId, AllocIdKind, spec_id_to_kind};
use crate::text::{decimal, to_decimal};
use vstd::relations::injective_on;
use vstd::set_lib::{lemma_int_range, lemma_len_subset, lemma_map_size, set_int_range};

verus! {

broadcast use vstd::std_specs::hash::group_hash_axioms, vstd::std_specs::btree::group_btree_axioms;

/// One line of a dump.
#[derive(Clone, Debug, PartialEq, Eq)]
pub enum DumpLine {
    /// A finished line.
    Text(String),
    /// The line of a function: its text up to the function, and the function,
    /// whose name the caller writes after it.
    Function(String, Instance),
}

/// A dump line as values.
pub enum DumpLineView {
    Text(Seq<char>),
    Function(Seq<char>, Instance),
}

impl View for DumpLine {
    type V = DumpLineView;

    open spec fn view(&self) -> DumpLineView {
        match self {
            DumpLine::Text(s) => DumpLineView::Text(s@),
            DumpLine::Function(s, i) => DumpLineView::Function(s@, *i),
        }
    }
}

/// `piece` written `n` times.
pub open spec fn repeat(piece: Seq<char>, n: nat) -> Seq<char>
    decreases n,
{
    if n == 0 {
        Seq::empty()
    } else {
        repeat(piece, (n - 1) as nat) + piece
    }
}

/// Appends `piece` to `out` `n` times.
pub fn push_repeated(out: &mut String, piece: &str, n: u64)
    ensures
        final(out)@ == old(out)@ + repeat(piece@, n as nat),
{
    let mut k: u64 = 0;
    while k < n
        invariant
            k <= n,
            out@ == old(out)@ + repeat(piece@, k as nat),
        decreases n - k,
    {
        out.append(piece);
        k = k + 1;
        assert(out@ =~= old(out)@ + repeat(piece@, k as nat));
    }
}

/// The hexadecimal digit of `d`, in lower case.
pub open spec fn hex_digit(d: int) -> Seq<char> {
    if d == 0 { "0"@ } else if d == 1 { "1"@ } else if d == 2 { "2"@ } else if d == 3 { "3"@ }
    else if d == 4 { "4"@ } else if d == 5 { "5"@ } else if d == 6 { "6"@ } else if d == 7 { "7"@ }
    else if d == 8 { "8"@ } else if d == 9 { "9"@ } else if d == 10 { "a"@ } else if d == 11 { "b"@ }
    else if d == 12 { "c"@ } else if d == 13 { "d"@ } else if d == 14 { "e"@ } else { "f"@ }
}

fn hex_digit_str(d: u8) -> (r: &'static str)
    requires
        d < 16,
    ensures
        r@ == hex_digit(d as int),
{
    if d == 0 { "0" } else if d == 1 { "1" } else if d == 2 { "2" } else if d == 3 { "3" }
    else if d == 4 { "4" } else if d == 5 { "5" } else if d == 6 { "6" } else if d == 7 { "7" }
    else if d == 8 { "8" } else if d == 9 { "9" } else if d == 10 { "a" } else if d == 11 { "b" }
    else if d == 12 { "c" } else if d == 13 { "d" } else if d == 14 { "e" } else { "f" }
}

/// A byte as two hexadecimal digits.
pub open spec fn hex_byte(b: u8) -> Seq<char> {
    hex_digit((b / 16) as int) + hex_digit((b % 16) as int)
}

/// How an id is written: its kind and index.
pub open spec fn id_text(id: AllocId) -> Seq<char> {
    match spec_id_to_kind(id@) {
        AllocIdKind::Function(n) => "Function("@ + decimal(n as nat) + ")"@,
        AllocIdKind::Runtime(i) => "Runtime("@ + decimal(i as nat) + ")"@,
    }
}

/// Writes an id.
pub fn id_string(id: AllocId) -> (r: String)
    ensures
        r@ == id_text(id),
{
    let mut s;
    match id.into_alloc_id_kind() {
        AllocIdKind::Function(n) => {
            s = String::from_str("Function(");
            s.append(to_decimal(n as u128).as_str());
        },
        AllocIdKind::Runtime(i) => {
            s = String::from_str("Runtime(");
            s.append(to_decimal(i as u128).as_str());
        },
    }
    s.append(")");
    s
}

/// The text that starts the line of `id`.
pub open spec fn line_prefix(id: AllocId) -> Seq<char> {
    "Alloc "@ + id_text(id) + ": "@
}

/// What the line of an allocation says of its kind.
pub open spec fn kind_note(kind: MemoryKind, mutable: Mutability) -> Seq<char> {
    match kind {
        MemoryKind::UninitializedStatic => " (static in the process of initialization)"@,
        MemoryKind::Static => if mutable == Mutability::Mutable {
            " (static mut)"@
        } else {
            " (immutable)"@
        },
        MemoryKind::Machine(m) => " ("@ + decimal(m as nat) + ")"@,
        MemoryKind::Stack => " (stack)"@,
    }
}

/// What ends the line of an allocation: its size, alignment and kind.
pub open spec fn alloc_tail(a: Allocation) -> Seq<char> {
    "("@ + decimal(a.bytes@.len()) + " bytes, alignment "@ + decimal(a.align as nat) + ")"@
        + kind_note(a.kind, a.mutable)
}

/// Appends the end of the line of `a`.
pub fn push_alloc_tail(msg: &mut String, a: &Allocation)
    ensures
        final(msg)@ == old(msg)@ + alloc_tail(*a),
{
    msg.append("(");
    msg.append(to_decimal(a.bytes.len() as u128).as_str());
    msg.append(" bytes, alignment ");
    msg.append(to_decimal(a.align as u128).as_str());
    msg.append(")");
    match a.kind {
        MemoryKind::UninitializedStatic => msg.append(" (static in the process of initialization)"),
        MemoryKind::Static => match a.mutable {
            Mutability::Mutable => msg.append(" (static mut)"),
            Mutability::Immutable => msg.append(" (immutable)"),
        },
        MemoryKind::Machine(m) => {
            msg.append(" (");
            msg.append(to_decimal(m as u128).as_str());
            msg.append(")");
        },
        MemoryKind::Stack => msg.append(" (stack)"),
    }
    assert(msg@ =~= old(msg)@ + alloc_tail(*a));
}

/// `t` centered in a field of `w` characters filled with rules, the odd one on the right.
pub open spec fn centered(t: Seq<char>, w: nat) -> Seq<char> {
    if t.len() >= w {
        t
    } else {
        let pad = (w - t.len()) as nat;
        repeat("─"@, pad / 2) + t + repeat("─"@, (pad - pad / 2) as nat)
    }
}

/// Appends `t` centered in a field of `w` characters.
fn push_centered(out: &mut String, t: &String, w: u64)
    ensures
        final(out)@ == old(out)@ + centered(t@, w as nat),
{
    let len = t.as_str().unicode_len() as u64;
    if len >= w {
        out.append(t.as_str());
    } else {
        let pad = w - len;
        push_repeated(out, "─", pad / 2);
        out.append(t.as_str());
        push_repeated(out, "─", pad - pad / 2);
        assert(out@ =~= old(out)@ + centered(t@, w as nat));
    }
}

/// The marks under the pointers `rs` (offset and target, by offset), the
/// previous one ending before offset `pos`, for pointers of `ps` bytes: three
/// columns per byte, and each pointer drawn as a bracket with its target inside.
pub open spec fn reloc_marks(rs: Seq<(u64, AllocId)>, pos: int, ps: nat) -> Seq<char>
    decreases rs.len(),
{
    if rs.len() == 0 {
        Seq::empty()
    } else {
        let i = rs[0].0;
        repeat("   "@, (i - pos) as nat) + "└"@ + centered(
            "("@ + id_text(rs[0].1) + ")"@,
            ((ps - 1) * 3) as nat,
        ) + "┘ "@ + reloc_marks(rs.drop_first(), i + ps, ps)
    }
}

/// Appends the marks under the pointers `rs`.
#[verifier::rlimit(40)]
pub fn push_marks(out: &mut String, rs: &Vec<(u64, AllocId)>, ps: u64)
    requires
        1 <= ps <= 15,
        forall|k: int| 0 <= k < rs@.len() ==> rs@[k].0 + ps <= u64::MAX,
        forall|k: int| 0 <= k < rs@.len() - 1 ==> #[trigger] rs@[k].0 + ps <= rs@[k + 1].0,
    ensures
        final(out)@ == old(out)@ + reloc_marks(rs@, 0, ps as nat),
{
    let mut k: usize = 0;
    let mut pos: u64 = 0;
    assert(rs@.skip(0) =~= rs@);
    while k < rs.len()
        invariant
            1 <= ps <= 15,
            k <= rs@.len(),
            forall|j: int| 0 <= j < rs@.len() ==> rs@[j].0 + ps <= u64::MAX,
            forall|j: int| 0 <= j < rs@.len() - 1 ==> #[trigger] rs@[j].0 + ps <= rs@[j + 1].0,
            k < rs@.len() ==> pos <= rs@[k as int].0,
            out@ + reloc_marks(rs@.skip(k as int), pos as int, ps as nat) == old(out)@
                + reloc_marks(rs@, 0, ps as nat),
        decreases rs@.len() - k,
    {
        let (i, target) = rs[k];
        let ghost before = out@;
        push_repeated(out, "   ", i - pos);
        out.append("└");
        let mut t = String::from_str("(");
        t.append(id_string(target).as_str());
        t.append(")");
        push_centered(out, &t, (ps - 1) * 3);
        out.append("┘ ");
        proof {
            let rest = rs@.skip(k as int);
            assert(rest[0] == rs@[k as int]);
            assert(rest.drop_first() =~= rs@.skip(k + 1));
            assert(out@ =~= before + repeat("   "@, (i - pos) as nat) + "└"@ + centered(
                t@,
                ((ps - 1) * 3) as nat,
            ) + "┘ "@);
            assert(out@ + reloc_marks(rs@.skip(k + 1), (i + ps) as int, ps as nat) =~= before
                + reloc_marks(rest, pos as int, ps as nat));
        }
        pos = i + ps;
        k = k + 1;
    }
    assert(rs@.skip(k as int) =~= Seq::<(u64, AllocId)>::empty());
}

/// Where the scan of an allocation's bytes stands: the ids still to print, the
/// ids met as pointer targets, the pointers found (offset and target), and the
/// line so far.
#[verifier::ext_equal]
pub struct ScanState {
    pub queue: Seq<AllocId>,
    pub seen: Set<u64>,
    pub relocs: Seq<(u64, AllocId)>,
    pub text: Seq<char>,
}

/// How byte `i` of `a` is shown: two hexadecimal digits, or `__` where undefined.
pub open spec fn byte_text(a: Allocation, i: int) -> Seq<char> {
    if a.undef_mask@[i] {
        hex_byte(a.bytes@[i]) + " "@
    } else {
        "__ "@
    }
}

/// The scan after byte `i` of `a`: a pointer that starts there is noted, and
/// its target queued the first time it is met; then the byte is shown.
pub open spec fn scan_byte(a: Allocation, i: int, s: ScanState) -> ScanState {
    if a.relocations@.contains_key(i as u64) {
        let t = a.relocations@[i as u64];
        ScanState {
            queue: if s.seen.contains(t@) { s.queue } else { s.queue.push(t) },
            seen: s.seen.insert(t@),
            relocs: s.relocs.push((i as u64, t)),
            text: s.text + byte_text(a, i),
        }
    } else {
        ScanState { queue: s.queue, seen: s.seen, relocs: s.relocs, text: s.text + byte_text(a, i) }
    }
}

/// The scan of the bytes of `a` from `i` on.
pub open spec fn scan_from(a: Allocation, i: int, s: ScanState) -> ScanState
    decreases a.bytes@.len() - i,
{
    if i < 0 || i >= a.bytes@.len() {
        s
    } else {
        scan_from(a, i + 1, scan_byte(a, i, s))
    }
}

/// Each id of `ids` from index `start` on is the target of a pointer in `a`.
pub open spec fn pointer_targets(a: Allocation, ids: Seq<AllocId>, start: int) -> bool {
    forall|q: int|
        start <= q < ids.len() ==> exists|o: u64| #[trigger]
            a.relocations@.contains_key(o) && a.relocations@[o] == #[trigger] ids[q]
}

/// Scans the bytes of `a`: appends them to `msg`, queues the targets of its
/// pointers that were not met before, and returns its pointers by offset.
pub fn scan_alloc(
    a: &Allocation,
    queue: &mut Vec<AllocId>,
    seen: &mut HashSet<u64>,
    msg: &mut String,
) -> (relocs: Vec<(u64, AllocId)>)
    requires
        a.undef_mask.wf(),
        a.undef_mask@.len() >= a.bytes@.len(),
        old(seen)@.finite(),
    ensures
        scan_from(
            *a,
            0,
            ScanState { queue: old(queue)@, seen: old(seen)@, relocs: Seq::empty(), text: old(msg)@ },
        ) == (ScanState { queue: final(queue)@, seen: final(seen)@, relocs: relocs@, text: final(msg)@ }),
        final(seen)@.finite(),
        old(queue)@.len() <= final(queue)@.len(),
        final(queue)@.len() + old(seen)@.len() == old(queue)@.len() + final(seen)@.len(),
        final(queue)@.subrange(0, old(queue)@.len() as int) == old(queue)@,
        pointer_targets(*a, final(queue)@, old(queue)@.len() as int),
        forall|k: int| 0 <= k < relocs@.len() ==> #[trigger] a.relocations@.contains_key(relocs@[k].0),
        forall|k: int, l: int| 0 <= k < l < relocs@.len() ==> #[trigger] relocs@[k].0 < #[trigger] relocs@[l].0,
{
    let ghost s0 = ScanState { queue: queue@, seen: seen@, relocs: Seq::empty(), text: msg@ };
    let mut relocs: Vec<(u64, AllocId)> = Vec::new();
    let len: usize = a.bytes.len();
    let n = len as u64;
    let mut i: u64 = 0;
    while i < n
        invariant
            n == len,
            len == a.bytes@.len(),
            s0.queue == old(queue)@,
            i <= n,
            a.undef_mask.wf(),
            a.undef_mask@.len() >= a.bytes@.len(),
            seen@.finite(),
            scan_from(*a, 0, s0) == scan_from(
                *a,
                i as int,
                ScanState { queue: queue@, seen: seen@, relocs: relocs@, text: msg@ },
            ),
            queue@.len() + s0.seen.len() == s0.queue.len() + seen@.len(),
            s0.queue.len() <= queue@.len(),
            queue@.subrange(0, s0.queue.len() as int) == s0.queue,
            pointer_targets(*a, queue@, s0.queue.len() as int),
            forall|k: int| 0 <= k < relocs@.len() ==> #[trigger] a.relocations@.contains_key(relocs@[k].0),
            forall|k: int| 0 <= k < relocs@.len() ==> #[trigger] relocs@[k].0 < i,
            forall|k: int, l: int| 0 <= k < l < relocs@.len() ==> #[trigger] relocs@[k].0 < #[trigger] relocs@[l].0,
        decreases n - i,
    {
        let ghost cur = ScanState { queue: queue@, seen: seen@, relocs: relocs@, text: msg@ };
        let ghost q0 = queue@;
        proof {
            lemma_u64_keys_ordered();
        }
        match a.relocations.get(&i) {
            Some(t) => {
                let target = *t;
                if seen.insert(target.0) {
                    queue.push(target);
                    assert(queue@[queue@.len() - 1] == target);
                }
                relocs.push((i, target));
            },
            None => {},
        }
        let defined = a.undef_mask.get(i);
        if defined {
            let b = a.bytes[i as usize];
            assert(b == a.bytes@[i as int]);
            msg.append(hex_digit_str(b / 16));
            msg.append(hex_digit_str(b % 16));
            msg.append(" ");
        } else {
            msg.append("__ ");
        }
        proof {
            let next = scan_byte(*a, i as int, cur);
            assert(defined == a.undef_mask@[i as int]);
            assert(msg@ =~= cur.text + byte_text(*a, i as int));
            assert(msg@ =~= next.text);
            assert(queue@ =~= next.queue);
            assert(relocs@ =~= next.relocs);
            assert(seen@ =~= next.seen);
            assert(scan_from(*a, i as int, cur) == scan_from(*a, i + 1, next));
            assert(queue@.subrange(0, s0.queue.len() as int) =~= s0.queue) by {
                assert(q0.subrange(0, s0.queue.len() as int) == s0.queue);
            }
            assert forall|q: int| s0.queue.len() <= q < queue@.len() implies exists|o: u64| #[trigger]
                a.relocations@.contains_key(o) && a.relocations@[o] == #[trigger] queue@[q] by {
                let e = queue@[q];
                if q < q0.len() {
                    let e0 = q0[q];
                    assert(queue@[q] == q0[q]);
                } else {
                    assert(a.relocations@.contains_key(i) && a.relocations@[i] == queue@[q]);
                }
            }
        }
        i = i + 1;
    }
    relocs
}

/// `x` put into the ids `s`, which are in increasing order, unless it is there already.
pub open spec fn insert_sorted(s: Seq<AllocId>, x: AllocId) -> Seq<AllocId>
    decreases s.len(),
{
    if s.len() == 0 {
        seq![x]
    } else if x@ < s[0]@ {
        seq![x] + s
    } else if x@ == s[0]@ {
        s
    } else {
        seq![s[0]] + insert_sorted(s.drop_first(), x)
    }
}

/// The ids of `s` in increasing order, each once.
pub open spec fn sorted_ids(s: Seq<AllocId>) -> Seq<AllocId>
    decreases s.len(),
{
    if s.len() == 0 {
        Seq::empty()
    } else {
        insert_sorted(sorted_ids(s.drop_last()), s.last())
    }
}

/// Inserting past a prefix of smaller ids keeps the prefix.
proof fn lemma_insert_past(s: Seq<AllocId>, x: AllocId, j: int)
    requires
        0 <= j <= s.len(),
        forall|m: int| 0 <= m < j ==> #[trigger] s[m]@ < x@,
    ensures
        insert_sorted(s, x) == s.take(j) + insert_sorted(s.skip(j), x),
    decreases j,
{
    if j == 0 {
        assert(s.skip(0) =~= s);
        assert(s.take(0) + insert_sorted(s, x) =~= insert_sorted(s, x));
    } else {
        assert(s[0]@ < x@);
        let d = s.drop_first();
        assert forall|m: int| 0 <= m < j - 1 implies #[trigger] d[m]@ < x@ by {
            assert(d[m] == s[m + 1]);
        }
        lemma_insert_past(d, x, j - 1);
        assert(d.skip(j - 1) =~= s.skip(j));
        assert(seq![s[0]] + d.take(j - 1) =~= s.take(j));
        assert(seq![s[0]] + (d.take(j - 1) + insert_sorted(s.skip(j), x)) =~= s.take(j) + insert_sorted(
            s.skip(j),
            x,
        ));
    }
}

/// Puts `x` into the increasing ids `v` unless it is there already.
fn insert_id(v: &mut Vec<AllocId>, x: AllocId)
    ensures
        final(v)@ == insert_sorted(old(v)@, x),
{
    let mut j: usize = 0;
    while j < v.len() && v[j].0 < x.0
        invariant
            j <= v@.len(),
            v@ == old(v)@,
            forall|m: int| 0 <= m < j ==> #[trigger] v@[m]@ < x@,
        decreases v@.len() - j,
    {
        j = j + 1;
    }
    proof {
        lemma_insert_past(v@, x, j as int);
    }
    if j == v.len() {
        assert(v@.skip(j as int) =~= Seq::<AllocId>::empty());
        assert(v@.take(j as int) =~= v@);
        v.push(x);
    } else if v[j].0 == x.0 {
        assert(v@.skip(j as int)[0] == v@[j as int]);
        assert(v@.take(j as int) + v@.skip(j as int) =~= v@);
    } else {
        assert(v@.skip(j as int)[0] == v@[j as int]);
        let ghost before = v@;
        v.insert(j, x);
        assert(v@ =~= before.take(j as int) + (seq![x] + before.skip(j as int)));
    }
}

/// The ids of `allocs` in increasing order, each once.
pub fn sorted_ids_of(allocs: &Vec<AllocId>) -> (r: Vec<AllocId>)
    ensures
        r@ == sorted_ids(allocs@),
{
    let mut r: Vec<AllocId> = Vec::new();
    let mut k: usize = 0;
    assert(allocs@.take(0) =~= Seq::<AllocId>::empty());
    while k < allocs.len()
        invariant
            k <= allocs@.len(),
            r@ == sorted_ids(allocs@.take(k as int)),
        decreases allocs@.len() - k,
    {
        proof {
            let t = allocs@.take(k + 1);
            assert(t.drop_last() =~= allocs@.take(k as int));
            assert(t.last() == allocs@[k as int]);
        }
        insert_id(&mut r, allocs[k]);
        k = k + 1;
    }
    assert(allocs@.take(k as int) =~= allocs@);
    r
}

/// Putting an id in adds at most one.
proof fn lemma_insert_sorted_len(s: Seq<AllocId>, x: AllocId)
    ensures
        insert_sorted(s, x).len() <= s.len() + 1,
    decreases s.len(),
{
    if s.len() > 0 {
        lemma_insert_sorted_len(s.drop_first(), x);
    }
}

/// Sorting never adds ids.
pub proof fn lemma_sorted_ids_len(s: Seq<AllocId>)
    ensures
        sorted_ids(s).len() <= s.len(),
    decreases s.len(),
{
    if s.len() > 0 {
        lemma_sorted_ids_len(s.drop_last());
        lemma_insert_sorted_len(sorted_ids(s.drop_last()), s.last());
    }
}

/// A set of `u64` values has at most 2^64 of them.
pub proof fn lemma_u64_set_len(s: Set<u64>)
    requires
        s.finite(),
    ensures
        s.len() <= 0x1_0000_0000_0000_0000,
{
    let f = |x: u64| x as int;
    let t = s.map(f);
    assert(injective_on(f, s));
    lemma_map_size(s, t, f);
    lemma_int_range(0, 0x1_0000_0000_0000_0000);
    assert forall|y: int| t.contains(y) implies set_int_range(0, 0x1_0000_0000_0000_0000).contains(y) by {
        let x = choose|x: u64| s.contains(x) && y == f(x);
    }
    lemma_len_subset(t, set_int_range(0, 0x1_0000_0000_0000_0000));
}

/// Each id of `insert_sorted(s, x)` is `x` or one of `s`.
proof fn lemma_insert_sorted_from(s: Seq<AllocId>, x: AllocId)
    ensures
        forall|q: int|
            0 <= q < insert_sorted(s, x).len() ==> #[trigger] insert_sorted(s, x)[q] == x || s.contains(
                insert_sorted(s, x)[q],
            ),
    decreases s.len(),
{
    let t = insert_sorted(s, x);
    if s.len() == 0 {
    } else if x@ < s[0]@ {
        assert forall|q: int| 0 <= q < t.len() implies #[trigger] t[q] == x || s.contains(t[q]) by {
            if q > 0 {
                assert(t[q] == s[q - 1]);
            }
        }
    } else if x@ == s[0]@ {
        assert forall|q: int| 0 <= q < t.len() implies #[trigger] t[q] == x || s.contains(t[q]) by {
            assert(t[q] == s[q]);
        }
    } else {
        let d = s.drop_first();
        let u = insert_sorted(d, x);
        lemma_insert_sorted_from(d, x);
        assert forall|q: int| 0 <= q < t.len() implies #[trigger] t[q] == x || s.contains(t[q]) by {
            if q == 0 {
                assert(t[0] == s[0]);
            } else {
                assert(t[q] == u[q - 1]);
                if u[q - 1] != x {
                    let j = choose|j: int| 0 <= j < d.len() && d[j] == u[q - 1];
                    assert(s[j + 1] == t[q]);
                }
            }
        }
    }
}

/// Each id of `sorted_ids(s)` is one of `s`.
pub proof fn lemma_sorted_ids_from(s: Seq<AllocId>, q: int)
    requires
        0 <= q < sorted_ids(s).len(),
    ensures
        s.contains(sorted_ids(s)[q]),
    decreases s.len(),
{
    let d = s.drop_last();
    let t = sorted_ids(d);
    lemma_insert_sorted_from(t, s.last());
    let e = sorted_ids(s)[q];
    if e == s.last() {
        assert(s[s.len() - 1] == e);
    } else {
        let j = choose|j: int| 0 <= j < t.len() && t[j] == e;
        lemma_sorted_ids_from(d, j);
        let k = choose|k: int| 0 <= k < d.len() && d[k] == e;
        assert(s[k] == e);
    }
}

/// The ids of `s` are in strictly increasing order.
pub open spec fn increasing(s: Seq<AllocId>) -> bool {
    forall|i: int, j: int| 0 <= i < j < s.len() ==> #[trigger] s[i]@ < #[trigger] s[j]@
}

/// Putting an id into increasing ids keeps them increasing, and adds just that id.
proof fn lemma_insert_sorted(s: Seq<AllocId>, x: AllocId)
    requires
        increasing(s),
    ensures
        increasing(insert_sorted(s, x)),
        forall|y: AllocId| #[trigger] insert_sorted(s, x).contains(y) <==> (s.contains(y) || y == x),
    decreases s.len(),
{
    let t = insert_sorted(s, x);
    if s.len() == 0 {
        assert(t =~= seq![x]);
        assert forall|y: AllocId| #[trigger] t.contains(y) <==> (s.contains(y) || y == x) by {
            if t.contains(y) {
                let i = choose|i: int| 0 <= i < t.len() && t[i] == y;
            }
            if y == x {
                assert(t[0] == y);
            }
        }
    } else if x@ < s[0]@ {
        assert forall|i: int, j: int| 0 <= i < j < t.len() implies #[trigger] t[i]@ < #[trigger] t[j]@ by {
            if i > 0 {
                assert(t[i] == s[i - 1] && t[j] == s[j - 1]);
            } else {
                assert(t[j] == s[j - 1]);
                if j > 1 {
                    assert(s[0]@ < s[j - 1]@);
                }
            }
        }
        assert forall|y: AllocId| #[trigger] t.contains(y) <==> (s.contains(y) || y == x) by {
            if t.contains(y) {
                let i = choose|i: int| 0 <= i < t.len() && t[i] == y;
                if i > 0 {
                    assert(s[i - 1] == y);
                }
            }
            if s.contains(y) {
                let i = choose|i: int| 0 <= i < s.len() && s[i] == y;
                assert(t[i + 1] == y);
            }
            if y == x {
                assert(t[0] == y);
            }
        }
    } else if x@ == s[0]@ {
        assert(x == AllocId(x.0));
        assert(s[0] == AllocId(s[0].0));
        assert forall|y: AllocId| #[trigger] t.contains(y) <==> (s.contains(y) || y == x) by {
            if y == x {
                assert(s[0] == y);
            }
        }
    } else {
        let d = s.drop_first();
        let u = insert_sorted(d, x);
        assert forall|i: int, j: int| 0 <= i < j < d.len() implies #[trigger] d[i]@ < #[trigger] d[j]@ by {
            assert(d[i] == s[i + 1] && d[j] == s[j + 1]);
        }
        lemma_insert_sorted(d, x);
        assert(t =~= seq![s[0]] + u);
        assert forall|k: int| 0 <= k < u.len() implies s[0]@ < #[trigger] u[k]@ by {
            assert(u.contains(u[k]));
            if u[k] != x {
                let m = choose|m: int| 0 <= m < d.len() && d[m] == u[k];
                assert(s[m + 1] == u[k]);
            }
        }
        assert forall|i: int, j: int| 0 <= i < j < t.len() implies #[trigger] t[i]@ < #[trigger] t[j]@ by {
            assert(t[j] == u[j - 1]);
            if i > 0 {
                assert(t[i] == u[i - 1]);
            }
        }
        assert forall|y: AllocId| #[trigger] t.contains(y) <==> (s.contains(y) || y == x) by {
            if t.contains(y) {
                let i = choose|i: int| 0 <= i < t.len() && t[i] == y;
                if i > 0 {
                    assert(u[i - 1] == y);
                    assert(u.contains(y));
                    if d.contains(y) {
                        let m = choose|m: int| 0 <= m < d.len() && d[m] == y;
                        assert(s[m + 1] == y);
                    }
                }
            }
            if s.contains(y) {
                let i = choose|i: int| 0 <= i < s.len() && s[i] == y;
                if i > 0 {
                    assert(d[i - 1] == y);
                    assert(d.contains(y));
                    assert(u.contains(y));
                    let k = choose|k: int| 0 <= k < u.len() && u[k] == y;
                    assert(t[k + 1] == y);
                } else {
                    assert(t[0] == y);
                }
            }
            if y == x {
                assert(u.contains(y));
                let k = choose|k: int| 0 <= k < u.len() && u[k] == y;
                assert(t[k + 1] == y);
            }
        }
    }
}

/// The ids a dump starts from are those given, in strictly increasing order,
/// each once.
pub proof fn law_sorted_ids(s: Seq<AllocId>)
    ensures
        increasing(sorted_ids(s)),
        forall|y: AllocId| #[trigger] sorted_ids(s).contains(y) <==> s.contains(y),
    decreases s.len(),
{
    if s.len() == 0 {
    } else {
        let d = s.drop_last();
        law_sorted_ids(d);
        lemma_insert_sorted(sorted_ids(d), s.last());
        assert forall|y: AllocId| #[trigger] sorted_ids(s).contains(y) <==> s.contains(y) by {
            if d.contains(y) {
                let m = choose|m: int| 0 <= m < d.len() && d[m] == y;
                assert(s[m] == y);
            }
            if s.contains(y) && y != s.last() {
                let m = choose|m: int| 0 <= m < s.len() && s[m] == y;
                assert(d[m] == y);
            }
            if y == s.last() {
                assert(s[s.len() - 1] == y);
            }
        }
    }
}

} // verus!
