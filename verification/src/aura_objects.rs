//! Which bus objects the Aura page drives, and in what order.

use vstd::prelude::*;
use vstd::string::StringSliceAdditionalSpecFns;

verus! {

/// The UTF-8 bytes of a text.
pub open spec fn text_bytes(s: Seq<char>) -> Seq<u8> {
    vstd::utf8::encode_utf8(s)
}

/// Byte-wise lexicographic order, as strings compare.
pub open spec fn lex_lt(a: Seq<u8>, b: Seq<u8>) -> bool
    decreases a.len(),
{
    if a.len() == 0 {
        b.len() > 0
    } else if b.len() == 0 {
        false
    } else if a[0] != b[0] {
        a[0] < b[0]
    } else {
        lex_lt(a.drop_first(), b.drop_first())
    }
}

pub proof fn lemma_lex_transitive(a: Seq<u8>, b: Seq<u8>, c: Seq<u8>)
    requires
        lex_lt(a, b),
        lex_lt(b, c),
    ensures
        lex_lt(a, c),
    decreases a.len(),
{
    if a.len() > 0 && b.len() > 0 && c.len() > 0 && a[0] == b[0] && b[0] == c[0] {
        lemma_lex_transitive(a.drop_first(), b.drop_first(), c.drop_first());
    }
}

pub proof fn lemma_lex_total(a: Seq<u8>, b: Seq<u8>)
    ensures
        a == b || lex_lt(a, b) || lex_lt(b, a),
        !(lex_lt(a, b) && lex_lt(b, a)),
        !lex_lt(a, a),
    decreases a.len(),
{
    if a.len() > 0 && b.len() > 0 && a[0] == b[0] {
        lemma_lex_total(a.drop_first(), b.drop_first());
        if a.drop_first() == b.drop_first() {
            assert(a =~= seq![a[0]] + a.drop_first());
            assert(b =~= seq![b[0]] + b.drop_first());
        }
    }
    if a.len() > 0 {
        lemma_lex_total(a.drop_first(), a.drop_first());
    }
    if a.len() == 0 && b.len() == 0 {
        assert(a =~= b);
    }
}

/// The interface that marks an Aura device.
pub open spec fn aura_interface() -> Seq<char> {
    "xyz.ljones.Aura"@
}

/// Whether an object with these interfaces is an Aura device.
pub open spec fn carries_aura(interfaces: Seq<String>) -> bool {
    exists|k: int| 0 <= k < interfaces.len() && #[trigger] interfaces[k]@ == aura_interface()
}

/// The page's order of two objects: by path bytes, and by position among
/// equal paths.
pub open spec fn listed_before(objects: Seq<(String, Vec<String>)>, i: int, j: int) -> bool {
    let a = text_bytes(objects[i].0@);
    let b = text_bytes(objects[j].0@);
    lex_lt(a, b) || (a == b && i < j)
}

fn bytes_equal(a: &[u8], b: &[u8]) -> (r: bool)
    ensures
        r == (a@ == b@),
{
    if a.len() != b.len() {
        return false;
    }
    let mut i: usize = 0;
    while i < a.len()
        invariant
            a@.len() == b@.len(),
            i <= a@.len(),
            forall|j: int| 0 <= j < i ==> a@[j] == b@[j],
        decreases a@.len() - i,
    {
        if a[i] != b[i] {
            return false;
        }
        i += 1;
    }
    assert(a@ =~= b@);
    true
}

fn bytes_less(a: &[u8], b: &[u8]) -> (r: bool)
    ensures
        r == lex_lt(a@, b@),
{
    let mut i: usize = 0;
    assert(a@.skip(0) =~= a@ && b@.skip(0) =~= b@);
    while i < a.len() && i < b.len() && a[i] == b[i]
        invariant
            i <= a@.len(),
            i <= b@.len(),
            lex_lt(a@, b@) == lex_lt(a@.skip(i as int), b@.skip(i as int)),
        decreases a@.len() - i,
    {
        let ghost sa = a@.skip(i as int);
        let ghost sb = b@.skip(i as int);
        assert(sa.drop_first() =~= a@.skip(i + 1));
        assert(sb.drop_first() =~= b@.skip(i + 1));
        i += 1;
    }
    if i == a.len() {
        i < b.len()
    } else if i == b.len() {
        false
    } else {
        a[i] < b[i]
    }
}

fn has_aura_interface(interfaces: &Vec<String>) -> (r: bool)
    ensures
        r == carries_aura(interfaces@),
{
    let target = "xyz.ljones.Aura".as_bytes();
    let mut k: usize = 0;
    while k < interfaces.len()
        invariant
            k <= interfaces@.len(),
            target@ == text_bytes(aura_interface()),
            forall|j: int| 0 <= j < k ==> interfaces@[j]@ != aura_interface(),
        decreases interfaces@.len() - k,
    {
        let name = interfaces[k].as_str();
        let same = bytes_equal(name.as_bytes(), target);
        proof {
            vstd::utf8::encode_utf8_decode_utf8(name@);
            vstd::utf8::encode_utf8_decode_utf8(aura_interface());
        }
        if same {
            assert(interfaces@[k as int]@ == aura_interface());
            return true;
        }
        k += 1;
    }
    false
}

/// The objects the page drives, as positions in `objects` (each a path and
/// its interfaces): those that carry the Aura interface, ordered by path.
/// An empty result means there is no Aura device.
pub fn aura_object_order(objects: &Vec<(String, Vec<String>)>) -> (order: Vec<usize>)
    ensures
        forall|k: int|
            0 <= k < order@.len() ==> #[trigger] order@[k] < objects@.len() && carries_aura(
                objects@[order@[k] as int].1@,
            ),
        forall|i: usize|
            i < objects@.len() && carries_aura(objects@[i as int].1@) ==> #[trigger] order@.contains(
                i,
            ),
        forall|j: int, k: int|
            0 <= j < k < order@.len() ==> listed_before(
                objects@,
                order@[j] as int,
                order@[k] as int,
            ),
{
    let mut order: Vec<usize> = Vec::new();
    let mut i: usize = 0;
    while i < objects.len()
        invariant
            i <= objects@.len(),
            forall|k: int|
                0 <= k < order@.len() ==> #[trigger] order@[k] < i && carries_aura(
                    objects@[order@[k] as int].1@,
                ),
            forall|m: usize|
                m < i && carries_aura(objects@[m as int].1@) ==> #[trigger] order@.contains(m),
            forall|j: int, k: int|
                0 <= j < k < order@.len() ==> listed_before(
                    objects@,
                    order@[j] as int,
                    order@[k] as int,
                ),
        decreases objects@.len() - i,
    {
        if has_aura_interface(&objects[i].1) {
            let path = objects[i].0.as_str().as_bytes();
            let ghost pi = text_bytes(objects@[i as int].0@);
            let mut pos: usize = 0;
            while pos < order.len() && !bytes_less(path, objects[order[pos]].0.as_str().as_bytes())
                invariant
                    pos <= order@.len(),
                    i < objects@.len(),
                    path@ == pi,
                    forall|k: int| 0 <= k < order@.len() ==> #[trigger] order@[k] < i,
                    forall|j: int|
                        0 <= j < pos ==> !lex_lt(pi, text_bytes(objects@[order@[j] as int].0@)),
                decreases order@.len() - pos,
            {
                pos += 1;
            }
            let ghost before = order@;
            proof {
                assert forall|j: int, k: int|
                    0 <= j < k < before.len() + 1 implies listed_before(
                    objects@,
                    before.insert(pos as int, i)[j] as int,
                    before.insert(pos as int, i)[k] as int,
                ) by {
                    let s = before.insert(pos as int, i);
                    if j < pos && k < pos {
                        assert(s[j] == before[j] && s[k] == before[k]);
                    } else if j > pos && k > pos {
                        assert(s[j] == before[j - 1] && s[k] == before[k - 1]);
                    } else if j < pos && k > pos {
                        assert(s[j] == before[j] && s[k] == before[k - 1]);
                    } else if k == pos {
                        let pj = text_bytes(objects@[before[j] as int].0@);
                        lemma_lex_total(pi, pj);
                        assert(s[j] == before[j]);
                        assert(!lex_lt(pi, pj));
                        assert(before[j] < i);
                    } else {
                        assert(j == pos);
                        let e = before[k - 1];
                        let pe = text_bytes(objects@[e as int].0@);
                        let pf = text_bytes(objects@[before[pos as int] as int].0@);
                        assert(lex_lt(pi, pf));
                        if k - 1 > pos {
                            assert(listed_before(objects@, before[pos as int] as int, e as int));
                            if lex_lt(pf, pe) {
                                lemma_lex_transitive(pi, pf, pe);
                            }
                        }
                        assert(s[k] == e);
                    }
                }
            }
            order.insert(pos, i);
            assert(order@ == before.insert(pos as int, i));
            assert forall|k: int| 0 <= k < order@.len() implies #[trigger] order@[k] < i + 1
                && carries_aura(objects@[order@[k] as int].1@) by {
                if k < pos {
                    assert(order@[k] == before[k]);
                } else if k > pos {
                    assert(order@[k] == before[k - 1]);
                }
            }
            assert forall|m: usize|
                m < i + 1 && carries_aura(objects@[m as int].1@) implies #[trigger] order@.contains(
                m,
            ) by {
                if m < i {
                    assert(before.contains(m));
                    let k = choose|k: int| 0 <= k < before.len() && before[k] == m;
                    if k < pos {
                        assert(order@[k] == m);
                    } else {
                        assert(order@[k + 1] == m);
                    }
                } else {
                    assert(order@[pos as int] == m);
                }
            }
        }
        i += 1;
    }
    order
}

} // verus!
