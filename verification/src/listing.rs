use vstd::prelude::*;
use vstd::string::{StringSliceAdditionalSpecFns, StrSliceExecFns};
use vstd::utf8::encode_utf8;
use vstd::seq_lib::{to_multiset_insert, to_multiset_remove};
use vstd::multiset::Multiset;
use crate::error::ChannelError;
use crate::shm_chan::ShmInfo;

verus! {

/// Byte-wise lexicographic order, the order of `str` comparison.
pub open spec fn lex_le(a: Seq<u8>, b: Seq<u8>) -> bool
    decreases a.len(),
{
    if a.len() == 0 {
        true
    } else if b.len() == 0 {
        false
    } else if a[0] != b[0] {
        a[0] < b[0]
    } else {
        lex_le(a.drop_first(), b.drop_first())
    }
}

/// Any two byte strings are ordered one way or the other.
pub proof fn lemma_lex_total(a: Seq<u8>, b: Seq<u8>)
    ensures
        lex_le(a, b) || lex_le(b, a),
    decreases a.len(),
{
    if a.len() > 0 && b.len() > 0 && a[0] == b[0] {
        lemma_lex_total(a.drop_first(), b.drop_first());
    }
}

/// The order is transitive.
pub proof fn lemma_lex_transitive(a: Seq<u8>, b: Seq<u8>, c: Seq<u8>)
    requires
        lex_le(a, b),
        lex_le(b, c),
    ensures
        lex_le(a, c),
    decreases a.len(),
{
    if a.len() > 0 && b.len() > 0 && c.len() > 0 && a[0] == b[0] && b[0] == c[0] {
        lemma_lex_transitive(a.drop_first(), b.drop_first(), c.drop_first());
    }
}

/// A common prefix does not change the order.
proof fn lemma_lex_skip(a: Seq<u8>, b: Seq<u8>, i: int)
    requires
        0 <= i <= a.len(),
        i <= b.len(),
        forall|j: int| 0 <= j < i ==> a[j] == b[j],
    ensures
        lex_le(a, b) == lex_le(a.subrange(i, a.len() as int), b.subrange(i, b.len() as int)),
    decreases i,
{
    if i == 0 {
        assert(a.subrange(0, a.len() as int) =~= a);
        assert(b.subrange(0, b.len() as int) =~= b);
    } else {
        lemma_lex_skip(a.drop_first(), b.drop_first(), i - 1);
        assert(a.drop_first().subrange(i - 1, a.len() - 1) =~= a.subrange(i, a.len() as int));
        assert(b.drop_first().subrange(i - 1, b.len() - 1) =~= b.subrange(i, b.len() as int));
    }
}

/// The order is the byte order of `str` comparison: at the first byte where two strings
/// differ, the smaller byte comes first; a string comes before what it is a proper prefix of.
pub proof fn law_lex_le_is_byte_order(a: Seq<u8>, b: Seq<u8>)
    ensures
        forall|i: int|
            0 <= i < a.len() && i < b.len() && a[i] != b[i] && (forall|j: int| 0 <= j < i ==> a[j] == b[j])
                ==> (lex_le(a, b) <==> a[i] < b[i]),
        a.len() <= b.len() && a == b.subrange(0, a.len() as int) ==> lex_le(a, b),
        b.len() < a.len() && b == a.subrange(0, b.len() as int) ==> !lex_le(a, b),
{
    assert forall|i: int|
        0 <= i < a.len() && i < b.len() && a[i] != b[i] && (forall|j: int| 0 <= j < i ==> a[j] == b[j])
            implies (lex_le(a, b) <==> a[i] < b[i]) by {
        lemma_lex_skip(a, b, i);
        let x = a.subrange(i, a.len() as int);
        let y = b.subrange(i, b.len() as int);
        assert(x[0] == a[i] && y[0] == b[i]);
    }
    if a.len() <= b.len() && a == b.subrange(0, a.len() as int) {
        assert forall|j: int| 0 <= j < a.len() implies a[j] == b[j] by {
            assert(b.subrange(0, a.len() as int)[j] == b[j]);
        }
        lemma_lex_skip(a, b, a.len() as int);
    }
    if b.len() < a.len() && b == a.subrange(0, b.len() as int) {
        assert forall|j: int| 0 <= j < b.len() implies a[j] == b[j] by {
            assert(a.subrange(0, b.len() as int)[j] == a[j]);
        }
        lemma_lex_skip(a, b, b.len() as int);
    }
}

/// Whether `a` comes no later than `b` in byte-wise lexicographic order.
pub fn bytes_le(a: &[u8], b: &[u8]) -> (r: bool)
    ensures
        r == lex_le(a@, b@),
        forall|i: int|
            0 <= i < a@.len() && i < b@.len() && a@[i] != b@[i] && (forall|j: int| 0 <= j < i ==> a@[j] == b@[j])
                ==> (r <==> a@[i] < b@[i]),
        a@.len() <= b@.len() && a@ == b@.subrange(0, a@.len() as int) ==> r,
        b@.len() < a@.len() && b@ == a@.subrange(0, b@.len() as int) ==> !r,
{
    proof {
        law_lex_le_is_byte_order(a@, b@);
    }
    let mut i: usize = 0;
    while i < a.len() && i < b.len() && a[i] == b[i]
        invariant
            0 <= i <= a@.len(),
            i <= b@.len(),
            forall|j: int| 0 <= j < i ==> a@[j] == b@[j],
        decreases a@.len() - i,
    {
        i = i + 1;
    }
    proof {
        lemma_lex_skip(a@, b@, i as int);
    }
    if i == a.len() {
        true
    } else if i == b.len() {
        false
    } else {
        a[i] < b[i]
    }
}

/// The key rings are listed by: the UTF-8 bytes of their names.
pub open spec fn name_key(info: ShmInfo) -> Seq<u8> {
    encode_utf8(info.name@)
}

/// Listed in ascending name order.
pub open spec fn sorted_by_name(s: Seq<ShmInfo>) -> bool {
    forall|i: int, j: int| 0 <= i < j < s.len() ==> lex_le(name_key(s[i]), name_key(s[j]))
}

/// The reports of `s` whose name key is `k`, in their order in `s`.
pub open spec fn with_key(s: Seq<ShmInfo>, k: Seq<u8>) -> Seq<ShmInfo>
    decreases s.len(),
{
    if s.len() == 0 {
        Seq::empty()
    } else if name_key(s.last()) == k {
        with_key(s.drop_last(), k).push(s.last())
    } else {
        with_key(s.drop_last(), k)
    }
}

/// No two reports share a name.
pub open spec fn distinct_names(s: Seq<ShmInfo>) -> bool {
    forall|i: int, j: int| 0 <= i < j < s.len() ==> s[i].name@ != s[j].name@
}

proof fn lemma_lex_reflexive(a: Seq<u8>)
    ensures
        lex_le(a, a),
    decreases a.len(),
{
    if a.len() > 0 {
        lemma_lex_reflexive(a.drop_first());
    }
}

proof fn lemma_with_key_add(a: Seq<ShmInfo>, b: Seq<ShmInfo>, k: Seq<u8>)
    ensures
        with_key(a + b, k) == with_key(a, k) + with_key(b, k),
    decreases b.len(),
{
    if b.len() == 0 {
        assert(a + b =~= a);
        assert(with_key(a, k) + with_key(b, k) =~= with_key(a, k));
    } else {
        lemma_with_key_add(a, b.drop_last(), k);
        assert((a + b).drop_last() =~= a + b.drop_last());
        assert((a + b).last() == b.last());
        assert(with_key(a, k) + with_key(b.drop_last(), k).push(b.last())
            =~= (with_key(a, k) + with_key(b.drop_last(), k)).push(b.last()));
    }
}

proof fn lemma_with_key_none(b: Seq<ShmInfo>, k: Seq<u8>)
    requires
        forall|i: int| 0 <= i < b.len() ==> name_key(b[i]) != k,
    ensures
        with_key(b, k) == Seq::<ShmInfo>::empty(),
    decreases b.len(),
{
    if b.len() > 0 {
        lemma_with_key_none(b.drop_last(), k);
    }
}

proof fn lemma_with_key_single(x: ShmInfo, k: Seq<u8>)
    ensures
        with_key(seq![x], k) == (if name_key(x) == k { seq![x] } else { Seq::<ShmInfo>::empty() }),
{
    assert(seq![x].drop_last() =~= Seq::<ShmInfo>::empty());
    assert(seq![x].last() == x);
    assert(with_key(Seq::<ShmInfo>::empty(), k) == Seq::<ShmInfo>::empty());
    assert(Seq::<ShmInfo>::empty().push(x) =~= seq![x]);
}

/// Inserting `x` before reports whose keys all differ from its own appends it to the
/// reports of its key and leaves the others as they were.
proof fn lemma_with_key_insert(out: Seq<ShmInfo>, p: int, x: ShmInfo, k: Seq<u8>)
    requires
        0 <= p <= out.len(),
        forall|q: int| p <= q < out.len() ==> name_key(out[q]) != name_key(x),
    ensures
        with_key(out.insert(p, x), k) == (if name_key(x) == k {
            with_key(out, k).push(x)
        } else {
            with_key(out, k)
        }),
{
    let a = out.subrange(0, p);
    let b = out.subrange(p, out.len() as int);
    assert(out =~= a + b);
    assert(out.insert(p, x) =~= (a + seq![x]) + b);
    lemma_with_key_add(a + seq![x], b, k);
    lemma_with_key_add(a, seq![x], k);
    lemma_with_key_add(a, b, k);
    lemma_with_key_single(x, k);
    if name_key(x) == k {
        lemma_with_key_none(b, k);
        assert(with_key(a, k) + seq![x] =~= with_key(a, k).push(x));
        assert(with_key(a, k) + Seq::<ShmInfo>::empty() =~= with_key(a, k));
        assert(with_key(a, k).push(x) + Seq::<ShmInfo>::empty() =~= with_key(a, k).push(x));
    } else {
        assert(with_key(a, k) + Seq::<ShmInfo>::empty() =~= with_key(a, k));
    }
}

/// Taking the first report off `rest` splits its reports of each key the same way.
proof fn lemma_with_key_front(rest: Seq<ShmInfo>, k: Seq<u8>)
    requires
        rest.len() > 0,
    ensures
        with_key(rest, k) == with_key(seq![rest[0]], k) + with_key(rest.subrange(1, rest.len() as int), k),
{
    assert(rest =~= seq![rest[0]] + rest.subrange(1, rest.len() as int));
    lemma_with_key_add(seq![rest[0]], rest.subrange(1, rest.len() as int), k);
}

/// Sorts ring reports by name. The sort is stable: reports with equal names keep their
/// order. Reports with pairwise different names come out with strictly increasing names.
pub fn sort_by_name(v: Vec<ShmInfo>) -> (r: Vec<ShmInfo>)
    ensures
        r@.to_multiset() == v@.to_multiset(),
        sorted_by_name(r@),
        forall|k: Seq<u8>| #[trigger] with_key(r@, k) == with_key(v@, k),
        distinct_names(v@) ==> distinct_names(r@),
{
    broadcast use vstd::seq_lib::group_to_multiset_ensures, vstd::multiset::group_multiset_axioms;
    let ghost given = v@;
    let ghost distinct = distinct_names(v@);
    let mut rest = v;
    let mut out: Vec<ShmInfo> = Vec::new();
    proof {
        assert(out@.to_multiset() =~= Multiset::<ShmInfo>::empty());
        assert(out@.to_multiset().add(rest@.to_multiset()) =~= given.to_multiset());
        assert forall|k: Seq<u8>| with_key(out@, k) + with_key(rest@, k) == #[trigger] with_key(given, k) by {
            assert(with_key(out@, k) + with_key(rest@, k) =~= with_key(given, k));
        }
    }
    while rest.len() > 0
        invariant
            sorted_by_name(out@),
            out@.to_multiset().add(rest@.to_multiset()) == given.to_multiset(),
            forall|k: Seq<u8>| with_key(out@, k) + with_key(rest@, k) == #[trigger] with_key(given, k),
            distinct == distinct_names(given),
            distinct ==> distinct_names(out@) && distinct_names(rest@),
            distinct ==> forall|i: int, j: int| 0 <= i < out@.len() && 0 <= j < rest@.len()
                ==> out@[i].name@ != rest@[j].name@,
        decreases rest@.len(),
    {
        let ghost before_rest = rest@;
        let x = rest.remove(0);
        proof {
            to_multiset_remove(before_rest, 0);
            assert(before_rest[0] == x);
            vstd::seq_lib::to_multiset_contains(before_rest, x);
            assert(before_rest.to_multiset().contains(x));
            assert(before_rest.to_multiset().remove(x).insert(x) =~= before_rest.to_multiset());
            assert(rest@ =~= before_rest.subrange(1, before_rest.len() as int));
        }
        let key = x.name.as_str().as_bytes();
        let mut p: usize = 0;
        while p < out.len() && bytes_le(out[p].name.as_str().as_bytes(), key)
            invariant
                0 <= p <= out@.len(),
                key@ == name_key(x),
                sorted_by_name(out@),
                forall|q: int| 0 <= q < p ==> lex_le(name_key(out@[q]), name_key(x)),
            decreases out@.len() - p,
        {
            p = p + 1;
        }
        let ghost before_out = out@;
        proof {
            if p < out.len() {
                lemma_lex_total(name_key(before_out[p as int]), name_key(x));
            }
            assert forall|q: int| p <= q < before_out.len() implies name_key(before_out[q]) != name_key(x) by {
                lemma_lex_reflexive(name_key(x));
                if q > p && lex_le(name_key(before_out[q]), name_key(x)) {
                    lemma_lex_transitive(name_key(before_out[p as int]), name_key(before_out[q]), name_key(x));
                }
            }
        }
        out.insert(p, x);
        proof {
            to_multiset_insert(before_out, p as int, x);
            assert forall|i: int, j: int| 0 <= i < j < out@.len() implies lex_le(
                name_key(out@[i]),
                name_key(out@[j]),
            ) by {
                if j == p {
                } else if i == p {
                    assert(out@[j] == before_out[j - 1]);
                    if j - 1 > p {
                        lemma_lex_transitive(name_key(x), name_key(before_out[p as int]), name_key(out@[j]));
                    }
                } else if i < p && j < p {
                    assert(out@[i] == before_out[i] && out@[j] == before_out[j]);
                } else if i < p {
                    assert(out@[i] == before_out[i] && out@[j] == before_out[j - 1]);
                } else {
                    assert(out@[i] == before_out[i - 1] && out@[j] == before_out[j - 1]);
                }
            }
            assert(out@.to_multiset().add(rest@.to_multiset()) =~= given.to_multiset());
            assert forall|k: Seq<u8>| with_key(out@, k) + with_key(rest@, k) == #[trigger] with_key(given, k) by {
                assert(with_key(before_out, k) + with_key(before_rest, k) == with_key(given, k));
                lemma_with_key_insert(before_out, p as int, x, k);
                lemma_with_key_front(before_rest, k);
                lemma_with_key_single(x, k);
                if name_key(x) == k {
                    assert(with_key(before_out, k).push(x) + with_key(rest@, k)
                        =~= with_key(before_out, k) + (seq![x] + with_key(rest@, k)));
                } else {
                    assert(Seq::<ShmInfo>::empty() + with_key(rest@, k) =~= with_key(rest@, k));
                }
            }
            if distinct {
                assert forall|i: int, j: int| 0 <= i < j < out@.len() implies out@[i].name@ != out@[j].name@ by {
                    if i == p {
                        assert(out@[j] == before_out[j - 1]);
                        assert(x == before_rest[0]);
                    } else if j == p {
                        assert(out@[i] == before_out[i]);
                        assert(x == before_rest[0]);
                    } else if j < p {
                        assert(out@[i] == before_out[i] && out@[j] == before_out[j]);
                    } else if i < p {
                        assert(out@[i] == before_out[i] && out@[j] == before_out[j - 1]);
                    } else {
                        assert(out@[i] == before_out[i - 1] && out@[j] == before_out[j - 1]);
                    }
                }
                assert forall|i: int, j: int| 0 <= i < j < rest@.len() implies rest@[i].name@ != rest@[j].name@ by {
                    assert(rest@[i] == before_rest[i + 1] && rest@[j] == before_rest[j + 1]);
                }
                assert forall|i: int, j: int| 0 <= i < out@.len() && 0 <= j < rest@.len()
                    implies out@[i].name@ != rest@[j].name@ by {
                    assert(rest@[j] == before_rest[j + 1]);
                    if i == p {
                        assert(x == before_rest[0]);
                    } else if i < p {
                        assert(out@[i] == before_out[i]);
                    } else {
                        assert(out@[i] == before_out[i - 1]);
                    }
                }
            }
        }
    }
    proof {
        assert(rest@ =~= Seq::<ShmInfo>::empty());
        assert(out@.to_multiset().add(rest@.to_multiset()) =~= out@.to_multiset());
        assert forall|k: Seq<u8>| #[trigger] with_key(out@, k) == with_key(given, k) by {
            assert(with_key(out@, k) + with_key(rest@, k) == with_key(given, k));
            assert(with_key(rest@, k) =~= Seq::<ShmInfo>::empty());
            assert(with_key(out@, k) + Seq::<ShmInfo>::empty() =~= with_key(out@, k));
        }
    }
    out
}

/// A directory entry names a ring candidate unless it is empty or hidden.
pub open spec fn is_listable(name: Seq<char>) -> bool {
    name.len() > 0 && name[0] != '.'
}

/// `name` is one of the names in `raw`.
pub open spec fn named_in(name: Seq<char>, raw: Seq<String>) -> bool {
    exists|j: int| 0 <= j < raw.len() && #[trigger] raw[j]@ == name
}

/// Every non-empty directory entry that does not start with `.` is a candidate, whatever
/// its length or other characters.
pub proof fn law_listable_entries(name: Seq<char>)
    ensures
        is_listable(name) <==> (name.len() > 0 && name[0] != '.'),
{
}

/// Whether a shared-memory directory entry is worth inspecting.
pub fn listable_name(name: &str) -> (b: bool)
    ensures
        b == is_listable(name@),
        b == (name@.len() > 0 && name@[0] != '.'),
{
    if name.unicode_len() == 0 {
        false
    } else {
        name.get_char(0) != '.'
    }
}

/// The entries to inspect: the listable ones, each name once, in first-seen order.
pub fn listable_names(raw: &Vec<String>) -> (names: Vec<String>)
    ensures
        forall|i: int| 0 <= i < names.len() ==> is_listable(#[trigger] names[i]@),
        forall|i: int| 0 <= i < names.len() ==> named_in(#[trigger] names[i]@, raw@),
        forall|j: int| 0 <= j < raw.len() && is_listable(#[trigger] raw[j]@) ==> exists|i: int|
            0 <= i < names.len() && names[i]@ == raw[j]@,
        forall|i: int, k: int| 0 <= i < k < names.len() ==> names[i]@ != names[k]@,
{
    let mut names: Vec<String> = Vec::new();
    let mut j: usize = 0;
    while j < raw.len()
        invariant
            0 <= j <= raw.len(),
            forall|i: int| 0 <= i < names.len() ==> is_listable(#[trigger] names[i]@),
            forall|i: int| 0 <= i < names.len() ==> exists|m: int| 0 <= m < j && raw[m]@ == #[trigger] names[i]@,
            forall|m: int| 0 <= m < j && is_listable(#[trigger] raw[m]@) ==> exists|i: int|
                0 <= i < names.len() && names[i]@ == raw[m]@,
            forall|i: int, k: int| 0 <= i < k < names.len() ==> names[i]@ != names[k]@,
        decreases raw.len() - j,
    {
        let name = &raw[j];
        if listable_name(name.as_str()) {
            let mut seen = false;
            let mut k: usize = 0;
            while k < names.len()
                invariant
                    0 <= k <= names.len(),
                    seen <==> exists|i: int| 0 <= i < k && names[i]@ == name@,
                decreases names.len() - k,
            {
                if names[k] == *name {
                    seen = true;
                }
                k = k + 1;
            }
            if !seen {
                let ghost before = names@;
                names.push(name.clone());
                proof {
                    assert(names[names.len() - 1]@ == raw[j as int]@);
                    assert forall|i: int| 0 <= i < names.len() implies exists|m: int|
                        0 <= m < j + 1 && raw[m]@ == #[trigger] names[i]@ by {
                        if i < before.len() {
                            assert(names[i] == before[i]);
                        } else {
                            assert(raw[j as int]@ == names[i]@);
                        }
                    }
                    assert forall|m: int| 0 <= m < j + 1 && is_listable(#[trigger] raw[m]@) implies exists|i: int|
                        0 <= i < names.len() && names[i]@ == raw[m]@ by {
                        if m < j {
                            let i = choose|i: int| 0 <= i < before.len() && before[i]@ == raw[m]@;
                            assert(names[i] == before[i]);
                        } else {
                            assert(names[before.len() as int]@ == raw[m]@);
                        }
                    }
                }
            } else {
                proof {
                    assert forall|m: int| 0 <= m < j + 1 && is_listable(#[trigger] raw[m]@) implies exists|i: int|
                        0 <= i < names.len() && names[i]@ == raw[m]@ by {
                        if m == j {
                            let i = choose|i: int| 0 <= i < names.len() && names[i]@ == name@;
                        }
                    }
                }
            }
        }
        j = j + 1;
    }
    proof {
        assert forall|i: int| 0 <= i < names.len() implies named_in(#[trigger] names[i]@, raw@) by {
            let m = choose|m: int| 0 <= m < j && raw[m]@ == names[i]@;
            assert(0 <= m < raw@.len() && raw@[m]@ == names[i]@);
        }
    }
    names
}

/// The other name a ring may have been created under: the same with a leading `/`,
/// unless it already starts with one.
pub fn slash_alternative(name: &str) -> (alt: Option<String>)
    ensures
        name@.len() > 0 && name@[0] == '/' ==> alt is None,
        !(name@.len() > 0 && name@[0] == '/') ==> match alt {
            Some(s) => s@ == "/"@ + name@,
            None => false,
        },
{
    if name.unicode_len() > 0 && name.get_char(0) == '/' {
        None
    } else {
        Some("/".to_owned().concat(name))
    }
}

/// After inspecting a name: nothing more when a ring was found, else the name with a
/// leading `/` when it lacks one.
pub fn next_probe(name: &str, found: bool) -> (alt: Option<String>)
    ensures
        found ==> alt is None,
        !found && name@.len() > 0 && name@[0] == '/' ==> alt is None,
        !found && !(name@.len() > 0 && name@[0] == '/') ==> match alt {
            Some(s) => s@ == "/"@ + name@,
            None => false,
        },
{
    if found { None } else { slash_alternative(name) }
}

/// What the listing has gathered so far: the reports, and the last inspection error
/// that was not merely "no ring here".
pub struct ListAccum {
    pub infos: Vec<ShmInfo>,
    pub last_shm_err: Option<ChannelError>,
}

/// Inspection errors that only mean "no ring under this name".
pub open spec fn is_absent_ring(e: ChannelError) -> bool {
    e matches ChannelError::SharedMemory(_) || e matches ChannelError::NotInitialized
}

impl ListAccum {
    pub fn new() -> (a: Self)
        ensures
            a.infos@.len() == 0,
            a.last_shm_err is None,
    {
        ListAccum { infos: Vec::new(), last_shm_err: None }
    }

    /// Takes in the outcome of inspecting one name; true when it found a ring.
    pub fn absorb(&mut self, result: Result<ShmInfo, ChannelError>) -> (found: bool)
        ensures
            found == result is Ok,
            match result {
                Ok(info) => {
                    &&& final(self).infos@ == old(self).infos@.push(info)
                    &&& final(self).last_shm_err == old(self).last_shm_err
                },
                Err(e) => {
                    &&& final(self).infos@ == old(self).infos@
                    &&& is_absent_ring(e) ==> final(self).last_shm_err == old(self).last_shm_err
                    &&& !is_absent_ring(e) ==> final(self).last_shm_err == Some(e)
                },
            },
    {
        match result {
            Ok(info) => {
                self.infos.push(info);
                true
            },
            Err(ChannelError::SharedMemory(e)) => false,
            Err(ChannelError::NotInitialized) => false,
            Err(e) => {
                self.last_shm_err = Some(e);
                false
            },
        }
    }
}

/// The listing's result: the reports sorted by name; with no report, the last
/// inspection error, else the last directory error, else an empty list.
pub fn finish_listing(accum: ListAccum, last_io_err: Option<std::io::Error>) -> (r: Result<
    Vec<ShmInfo>,
    ChannelError,
>)
    ensures
        accum.infos@.len() > 0 ==> match r {
            Ok(v) => {
                &&& v@.to_multiset() == accum.infos@.to_multiset()
                &&& sorted_by_name(v@)
                &&& forall|k: Seq<u8>| #[trigger] with_key(v@, k) == with_key(accum.infos@, k)
                &&& distinct_names(accum.infos@) ==> distinct_names(v@)
            },
            Err(_) => false,
        },
        accum.infos@.len() == 0 ==> match (accum.last_shm_err, last_io_err) {
            (Some(e), _) => r == Err::<Vec<ShmInfo>, ChannelError>(e),
            (None, Some(io)) => r == Err::<Vec<ShmInfo>, ChannelError>(ChannelError::ListShm(io)),
            (None, None) => match r {
                Ok(v) => v@.len() == 0,
                Err(_) => false,
            },
        },
{
    let ListAccum { infos, last_shm_err } = accum;
    if infos.len() == 0 {
        if let Some(e) = last_shm_err {
            return Err(e);
        }
        if let Some(io) = last_io_err {
            return Err(ChannelError::ListShm(io));
        }
        return Ok(infos);
    }
    Ok(sort_by_name(infos))
}

/// The name a probe of `base` inspects: the name itself, or with a leading `/`.
pub open spec fn probe_name(base: Seq<char>, slash: bool) -> Seq<char> {
    if slash { "/"@ + base } else { base }
}

/// A report's name is one of the two probes of `base`.
pub open spec fn reported_for(info: ShmInfo, base: Seq<char>) -> bool {
    info.name@ == probe_name(base, false) || info.name@ == probe_name(base, true)
}

/// No name starts with `/` (directory entries never do).
pub open spec fn no_leading_slash(names: Seq<String>) -> bool {
    forall|a: int| 0 <= a < names.len() ==> !(names[a]@.len() > 0 && names[a]@[0] == '/')
}

/// A listing in progress: the names to probe, the one being probed (and whether its
/// `/` variant is pending), what was gathered, and, for each report, the index of the
/// name it was found for.
pub struct Listing {
    pub names: Vec<String>,
    pub index: usize,
    pub alt: Option<String>,
    pub accum: ListAccum,
    pub sources: Ghost<Seq<int>>,
}

impl Listing {
    /// Each name once; names probed in order, each report found for a name already
    /// probed, at most one report per name, and each report named after a probe of its name.
    pub open spec fn wf(&self) -> bool {
        &&& forall|i: int, k: int| 0 <= i < k < self.names@.len() ==> self.names@[i]@ != self.names@[k]@
        &&& self.index <= self.names@.len()
        &&& match self.alt {
            Some(a) => self.index < self.names@.len() && a@ == probe_name(self.names@[self.index as int]@, true),
            None => true,
        }
        &&& self.sources@.len() == self.accum.infos@.len()
        &&& forall|i: int| 0 <= i < self.sources@.len() ==> 0 <= #[trigger] self.sources@[i] < self.index
        &&& forall|i: int, j: int| 0 <= i < j < self.sources@.len() ==> self.sources@[i] < self.sources@[j]
        &&& forall|i: int| 0 <= i < self.sources@.len() ==> reported_for(
            #[trigger] self.accum.infos@[i],
            self.names@[self.sources@[i]]@,
        )
    }

    /// Every name was probed.
    pub open spec fn done(&self) -> bool {
        self.alt is None && self.index == self.names@.len()
    }

    /// The name the next probe inspects.
    pub open spec fn current_probe(&self) -> Seq<char> {
        match self.alt {
            Some(a) => a@,
            None => self.names@[self.index as int]@,
        }
    }

    /// A listing of the listable entries of `raw`, each name once, nothing probed yet.
    pub fn new(raw: &Vec<String>) -> (l: Self)
        ensures
            l.wf(),
            l.index == 0,
            l.alt is None,
            l.accum.infos@.len() == 0,
            l.accum.last_shm_err is None,
            forall|i: int| 0 <= i < l.names@.len() ==> is_listable(#[trigger] l.names@[i]@),
            forall|i: int| 0 <= i < l.names@.len() ==> named_in(#[trigger] l.names@[i]@, raw@),
            forall|j: int| 0 <= j < raw.len() && is_listable(#[trigger] raw[j]@) ==> exists|i: int|
                0 <= i < l.names@.len() && l.names@[i]@ == raw[j]@,
    {
        let names = listable_names(raw);
        let l = Listing { names, index: 0, alt: None, accum: ListAccum::new(), sources: Ghost(Seq::empty()) };
        proof {
            assert forall|j: int| 0 <= j < raw.len() && is_listable(#[trigger] raw[j]@) implies exists|i: int|
                0 <= i < l.names@.len() && l.names@[i]@ == raw[j]@ by {
                let i = choose|i: int| 0 <= i < names@.len() && names@[i]@ == raw[j]@;
                assert(l.names@[i]@ == raw[j]@);
            }
        }
        l
    }

    /// The name to inspect next, or `None` when every name was probed.
    pub fn next_name(&self) -> (r: Option<String>)
        requires
            self.wf(),
        ensures
            r is None <==> self.done(),
            match r {
                Some(n) => n@ == self.current_probe(),
                None => true,
            },
    {
        match &self.alt {
            Some(a) => Some(a.clone()),
            None => {
                if self.index < self.names.len() {
                    Some(self.names[self.index].clone())
                } else {
                    None
                }
            },
        }
    }

    /// Takes in the outcome of inspecting the current probe: a ring found ends the name;
    /// a miss on the name itself leads to its `/` variant when it lacks one; a miss on
    /// the variant ends the name.
    pub fn record(&mut self, result: Result<ShmInfo, ChannelError>)
        requires
            old(self).wf(),
            !old(self).done(),
            match result {
                Ok(info) => info.name@ == old(self).current_probe(),
                Err(_) => true,
            },
        ensures
            final(self).wf(),
            final(self).names@ == old(self).names@,
            final(self).index >= old(self).index,
            final(self).index < old(self).names@.len() ==> final(self).alt is Some || final(self).index > old(self).index,
            match result {
                Ok(info) => {
                    &&& final(self).accum.infos@ == old(self).accum.infos@.push(info)
                    &&& final(self).accum.last_shm_err == old(self).accum.last_shm_err
                    &&& final(self).alt is None
                    &&& final(self).index == old(self).index + 1
                },
                Err(e) => {
                    let name = old(self).names@[old(self).index as int]@;
                    &&& final(self).accum.infos@ == old(self).accum.infos@
                    &&& (is_absent_ring(e) ==> final(self).accum.last_shm_err == old(self).accum.last_shm_err)
                    &&& (!is_absent_ring(e) ==> final(self).accum.last_shm_err == Some(e))
                    &&& (old(self).alt is Some ==> final(self).alt is None && final(self).index == old(self).index + 1)
                    &&& (old(self).alt is None && name.len() > 0 && name[0] == '/' ==> final(self).alt is None
                        && final(self).index == old(self).index + 1)
                    &&& (old(self).alt is None && !(name.len() > 0 && name[0] == '/') ==> final(self).index
                        == old(self).index && match final(self).alt {
                        Some(a) => a@ == "/"@ + name,
                        None => false,
                    })
                },
            },
    {
        let ghost old_self = *self;
        assert(self.index < self.names.len());
        let slash = self.alt.is_some();
        let found = self.accum.absorb(result);
        proof {
            reveal_strlit("/");
        }
        if found {
            proof {
                self.sources@ = self.sources@.push(self.index as int);
                assert(self.accum.infos@.last().name@ == old_self.current_probe());
                assert(reported_for(self.accum.infos@.last(), self.names@[self.index as int]@));
            }
            self.alt = None;
            self.index = self.index + 1;
        } else if slash {
            self.alt = None;
            self.index = self.index + 1;
        } else {
            let alt = next_probe(self.names[self.index].as_str(), false);
            if alt.is_none() {
                self.index = self.index + 1;
            }
            self.alt = alt;
        }
        proof {
            assert forall|i: int| 0 <= i < self.sources@.len() implies reported_for(
                #[trigger] self.accum.infos@[i],
                self.names@[self.sources@[i]]@,
            ) by {
                if i < old_self.sources@.len() {
                    assert(self.accum.infos@[i] == old_self.accum.infos@[i]);
                    assert(self.sources@[i] == old_self.sources@[i]);
                }
            }
        }
    }

    /// The listing's result, as `finish_listing` gives it. The reports are the ones
    /// gathered, each named after a probe of a listed name; when no name starts with `/`,
    /// their names strictly increase.
    pub fn finish(self, last_io_err: Option<std::io::Error>) -> (r: Result<Vec<ShmInfo>, ChannelError>)
        requires
            self.wf(),
        ensures
            self.accum.infos@.len() > 0 ==> match r {
                Ok(v) => {
                    &&& v@.to_multiset() == self.accum.infos@.to_multiset()
                    &&& sorted_by_name(v@)
                    &&& forall|k: Seq<u8>| #[trigger] with_key(v@, k) == with_key(self.accum.infos@, k)
                    &&& forall|i: int| 0 <= i < v@.len() ==> exists|a: int|
                        0 <= a < self.names@.len() && reported_for(#[trigger] v@[i], self.names@[a]@)
                    &&& no_leading_slash(self.names@) ==> distinct_names(v@)
                },
                Err(_) => false,
            },
            self.accum.infos@.len() == 0 ==> match (self.accum.last_shm_err, last_io_err) {
                (Some(e), _) => r == Err::<Vec<ShmInfo>, ChannelError>(e),
                (None, Some(io)) => r == Err::<Vec<ShmInfo>, ChannelError>(ChannelError::ListShm(io)),
                (None, None) => match r {
                    Ok(v) => v@.len() == 0,
                    Err(_) => false,
                },
            },
    {
        let ghost infos = self.accum.infos@;
        let ghost names = self.names@;
        let ghost sources = self.sources@;
        proof {
            if no_leading_slash(names) {
                lemma_reports_distinct(infos, names, sources);
            }
        }
        let r = finish_listing(self.accum, last_io_err);
        proof {
            if infos.len() > 0 {
                if let Ok(v) = &r {
                    broadcast use vstd::seq_lib::group_to_multiset_ensures;
                    assert forall|i: int| 0 <= i < v@.len() implies exists|a: int|
                        0 <= a < names.len() && reported_for(#[trigger] v@[i], names[a]@) by {
                        vstd::seq_lib::to_multiset_contains(v@, v@[i]);
                        vstd::seq_lib::to_multiset_contains(infos, v@[i]);
                        assert(v@.contains(v@[i]));
                        assert(infos.contains(v@[i]));
                        let k = choose|k: int| 0 <= k < infos.len() && infos[k] == v@[i];
                        assert(reported_for(infos[k], names[sources[k]]@));
                    }
                }
            }
        }
        r
    }
}

/// Reports found for different names, none of which starts with `/`, have different names.
proof fn lemma_reports_distinct(infos: Seq<ShmInfo>, names: Seq<String>, sources: Seq<int>)
    requires
        no_leading_slash(names),
        forall|i: int, k: int| 0 <= i < k < names.len() ==> names[i]@ != names[k]@,
        sources.len() == infos.len(),
        forall|i: int| 0 <= i < sources.len() ==> 0 <= #[trigger] sources[i] < names.len(),
        forall|i: int, j: int| 0 <= i < j < sources.len() ==> sources[i] < sources[j],
        forall|i: int| 0 <= i < sources.len() ==> reported_for(#[trigger] infos[i], names[sources[i]]@),
    ensures
        distinct_names(infos),
{
    reveal_strlit("/");
    assert forall|i: int, j: int| 0 <= i < j < infos.len() implies infos[i].name@ != infos[j].name@ by {
        let a = sources[i];
        let b = sources[j];
        let na = names[a]@;
        let nb = names[b]@;
        assert(reported_for(infos[i], na));
        assert(reported_for(infos[j], nb));
        assert(na != nb);
        if infos[i].name@ == infos[j].name@ {
            let x = infos[i].name@;
            if x == na && x == nb {
            } else if x == "/"@ + na && x == "/"@ + nb {
                assert(na =~= x.subrange(1, x.len() as int));
                assert(nb =~= x.subrange(1, x.len() as int));
            } else if x == na {
                assert(x[0] == '/');
            } else {
                assert(x[0] == '/');
            }
        }
    }
}

/// One report per name: the reports a listing has gathered were found for names probed
/// in order, no two for the same name, each named after a probe (the name itself or with
/// a leading `/`) of its own name.
pub proof fn law_one_report_per_name(l: &Listing)
    requires
        l.wf(),
    ensures
        forall|i: int, j: int| 0 <= i < j < l.accum.infos@.len() ==> l.sources@[i] != l.sources@[j],
        forall|i: int| 0 <= i < l.accum.infos@.len() ==> 0 <= l.sources@[i] < l.names@.len()
            && reported_for(#[trigger] l.accum.infos@[i], l.names@[l.sources@[i]]@),
{
    assert forall|i: int| 0 <= i < l.accum.infos@.len() implies 0 <= l.sources@[i] < l.names@.len()
        && reported_for(#[trigger] l.accum.infos@[i], l.names@[l.sources@[i]]@) by {
        assert(0 <= l.sources@[i] < l.index);
    }
}

} // verus!
