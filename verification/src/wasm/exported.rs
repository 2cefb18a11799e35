//! The signatures of the functions that can be called from outside a module.
use vstd::prelude::*;

use super::index::{FuncIndex, SignatureIndex};
use super::maps::FunctionMap;
use super::module::FunctionType;

verus! {

/// Whether `signatures` are in order, none of them twice.
pub open spec fn strictly_sorted(signatures: Seq<SignatureIndex>) -> bool {
    forall|i: int, j: int| 0 <= i < j < signatures.len() ==> signatures[i].0 < signatures[j].0
}

/// Whether one of the functions that escape has the signature `signature`.
pub open spec fn is_exported(functions: Seq<FunctionType>, signature: SignatureIndex) -> bool {
    exists|f: int|
        0 <= f < functions.len() && (#[trigger] functions[f]).escapes() && functions[f].signature
            == signature
}

/// Whether `signatures` are the signatures of the functions that escape, in
/// order, none of them twice.
pub open spec fn lists_exported(
    signatures: Seq<SignatureIndex>,
    functions: Seq<FunctionType>,
) -> bool {
    &&& strictly_sorted(signatures)
    &&& forall|s: SignatureIndex| #[trigger]
        signatures.contains(s) <==> is_exported(functions, s)
}

/// The signatures of the functions that escape, in order, none of them twice.
pub open spec fn exported(functions: Seq<FunctionType>) -> Seq<SignatureIndex> {
    choose|signatures: Seq<SignatureIndex>| lists_exported(signatures, functions)
}

/// There is only one way to list what is exported.
pub proof fn exported_is_unique(
    a: Seq<SignatureIndex>,
    b: Seq<SignatureIndex>,
    functions: Seq<FunctionType>,
)
    requires
        lists_exported(a, functions),
        lists_exported(b, functions),
    ensures
        a == b,
{
    assert forall|s: SignatureIndex| #[trigger] a.contains(s) <==> b.contains(s) by {
        assert(a.contains(s) <==> is_exported(functions, s));
        assert(b.contains(s) <==> is_exported(functions, s));
    }
    lemma_same_set(a, b);
}

/// Ordered sequences with the same items are the same.
proof fn lemma_same_set(a: Seq<SignatureIndex>, b: Seq<SignatureIndex>)
    requires
        strictly_sorted(a),
        strictly_sorted(b),
        forall|s: SignatureIndex| #[trigger] a.contains(s) <==> b.contains(s),
    ensures
        a == b,
    decreases a.len(),
{
    if a.len() == 0 {
        if b.len() > 0 {
            assert(b.contains(b[0]));
            assert(a.contains(b[0]));
        }
        assert(a =~= b);
    } else {
        let last = a.last();
        assert(a[a.len() - 1] == last);
        assert(a.contains(last));
        assert(b.contains(last));
        let k = choose|k: int| 0 <= k < b.len() && b[k] == last;
        assert(b.contains(b.last()));
        assert(a.contains(b.last()));
        let m = choose|m: int| 0 <= m < a.len() && a[m] == b.last();
        assert(b.last() == last);
        let x = a.drop_last();
        let y = b.drop_last();
        assert forall|s: SignatureIndex| #[trigger] x.contains(s) <==> y.contains(s) by {
            if x.contains(s) {
                let i = choose|i: int| 0 <= i < x.len() && x[i] == s;
                assert(a[i] == s);
                assert(a.contains(s));
                assert(b.contains(s));
                let j = choose|j: int| 0 <= j < b.len() && b[j] == s;
                assert(j < b.len() - 1);
                assert(y[j] == s);
            }
            if y.contains(s) {
                let j = choose|j: int| 0 <= j < y.len() && y[j] == s;
                assert(b[j] == s);
                assert(b.contains(s));
                assert(a.contains(s));
                let i = choose|i: int| 0 <= i < a.len() && a[i] == s;
                assert(i < a.len() - 1);
                assert(x[i] == s);
            }
        }
        lemma_same_set(x, y);
        assert(a =~= x.push(last));
        assert(b =~= y.push(last));
    }
}

/// `signatures` with `signature` where it belongs, unless it is there already.
spec fn inserted(signatures: Seq<SignatureIndex>, signature: SignatureIndex) -> Seq<SignatureIndex>
    decreases signatures.len(),
{
    if signatures.len() == 0 || signatures.last().0 < signature.0 {
        signatures.push(signature)
    } else if signatures.last() == signature {
        signatures
    } else {
        inserted(signatures.drop_last(), signature).push(signatures.last())
    }
}

/// An ordered sequence with one more item is ordered and has that item more.
proof fn lemma_inserted(signatures: Seq<SignatureIndex>, signature: SignatureIndex)
    requires
        strictly_sorted(signatures),
    ensures
        strictly_sorted(inserted(signatures, signature)),
        forall|s: SignatureIndex| #[trigger]
            inserted(signatures, signature).contains(s) <==> signatures.contains(s) || s
                == signature,
    decreases signatures.len(),
{
    let after = inserted(signatures, signature);
    if signatures.len() == 0 || signatures.last().0 < signature.0 {
        lemma_contains_push(signatures, signature);
    } else if signatures.last() == signature {
        assert(signatures.contains(signature));
    } else {
        let rest = signatures.drop_last();
        let last = signatures.last();
        lemma_inserted(rest, signature);
        lemma_contains_push(inserted(rest, signature), last);
        lemma_contains_push(rest, last);
        assert(signatures =~= rest.push(last));
        assert forall|i: int| 0 <= i < inserted(rest, signature).len() implies (
        #[trigger] inserted(rest, signature)[i]).0 < last.0 by {
            let s = inserted(rest, signature)[i];
            assert(inserted(rest, signature).contains(s));
            if rest.contains(s) {
                let j = choose|j: int| 0 <= j < rest.len() && rest[j] == s;
                assert(signatures[j] == s);
            }
        }
    }
}

/// What a sequence with one more item contains.
proof fn lemma_contains_push(signatures: Seq<SignatureIndex>, signature: SignatureIndex)
    ensures
        forall|s: SignatureIndex| #[trigger]
            signatures.push(signature).contains(s) <==> signatures.contains(s) || s == signature,
{
    let after = signatures.push(signature);
    assert(after[signatures.len() as int] == signature);
    assert forall|s: SignatureIndex| #[trigger]
        after.contains(s) <==> signatures.contains(s) || s == signature by {
        if after.contains(s) && s != signature {
            let i = choose|i: int| 0 <= i < after.len() && after[i] == s;
            assert(signatures[i] == s);
        }
        if signatures.contains(s) {
            let i = choose|i: int| 0 <= i < signatures.len() && signatures[i] == s;
            assert(after[i] == s);
        }
    }
}

/// One more function exports its signature if it escapes, and nothing else.
proof fn lemma_one_more_function(
    functions: Seq<FunctionType>,
    function: FunctionType,
    s: SignatureIndex,
)
    ensures
        is_exported(functions.push(function), s) <==> is_exported(functions, s) || (
        function.escapes() && function.signature == s),
{
    let after = functions.push(function);
    if is_exported(functions, s) {
        let g = choose|g: int|
            0 <= g < functions.len() && (#[trigger] functions[g]).escapes()
                && functions[g].signature == s;
        assert(after[g] == functions[g]);
    }
    if function.escapes() && function.signature == s {
        assert(after[functions.len() as int] == function);
    }
    if is_exported(after, s) {
        let g = choose|g: int|
            0 <= g < after.len() && (#[trigger] after[g]).escapes() && after[g].signature == s;
        if g < functions.len() {
            assert(functions[g] == after[g]);
        }
    }
}

/// What is exported can be listed.
proof fn lemma_can_be_listed(functions: Seq<FunctionType>) -> (signatures: Seq<SignatureIndex>)
    ensures
        lists_exported(signatures, functions),
    decreases functions.len(),
{
    if functions.len() == 0 {
        Seq::empty()
    } else {
        let rest = functions.drop_last();
        let last = functions.last();
        let before = lemma_can_be_listed(rest);
        let signatures = if last.escapes() {
            inserted(before, last.signature)
        } else {
            before
        };
        lemma_inserted(before, last.signature);
        assert(functions =~= rest.push(last));
        assert forall|s: SignatureIndex| #[trigger]
            signatures.contains(s) <==> is_exported(functions, s) by {
            lemma_one_more_function(rest, last, s);
            assert(before.contains(s) <==> is_exported(rest, s));
        }
        signatures
    }
}

/// The exported signatures are in order, none of them twice, and they are
/// exactly the signatures of the functions that escape.
pub proof fn exported_lists_what_escapes(functions: Seq<FunctionType>)
    ensures
        lists_exported(exported(functions), functions),
{
    let signatures = lemma_can_be_listed(functions);
    assert(lists_exported(signatures, functions));
}

/// Puts `signature` where it belongs, unless it is there already.
fn insert_signature(signatures: &mut Vec<SignatureIndex>, signature: SignatureIndex)
    requires
        strictly_sorted(old(signatures)@),
    ensures
        strictly_sorted(final(signatures)@),
        forall|s: SignatureIndex| #[trigger]
            final(signatures)@.contains(s) <==> old(signatures)@.contains(s) || s == signature,
{
    let mut at: usize = 0;
    while at < signatures.len() && signatures[at].0 < signature.0
        invariant
            at <= signatures@.len(),
            *signatures == *old(signatures),
            forall|i: int| 0 <= i < at ==> (#[trigger] signatures@[i]).0 < signature.0,
        decreases signatures@.len() - at,
    {
        at = at + 1;
    }
    let ghost before = signatures@;
    if at < signatures.len() && signatures[at].0 == signature.0 {
        assert(before[at as int] == signature);
        assert(before.contains(signature));
        return;
    }
    signatures.insert(at, signature);
    let ghost after = signatures@;
    assert(after[at as int] == signature);
    assert forall|s: SignatureIndex| #[trigger]
        after.contains(s) <==> before.contains(s) || s == signature by {
        if after.contains(s) && s != signature {
            let i = choose|i: int| 0 <= i < after.len() && after[i] == s;
            assert(before[if i < at { i } else { i - 1 }] == s);
        }
        if before.contains(s) {
            let i = choose|i: int| 0 <= i < before.len() && before[i] == s;
            assert(after[if i < at { i } else { i + 1 }] == s);
        }
    }
}

/// The signatures of the functions that escape, in order, none of them twice.
pub fn exported_signatures(functions: &FunctionMap) -> (signatures: Vec<SignatureIndex>)
    requires
        functions@.len() <= u32::MAX,
    ensures
        signatures@ == exported(functions@),
        lists_exported(signatures@, functions@),
{
    let mut signatures: Vec<SignatureIndex> = Vec::new();
    let n: usize = functions.len();
    let mut f: usize = 0;
    while f < n
        invariant
            f <= n,
            n == functions@.len(),
            n <= u32::MAX,
            strictly_sorted(signatures@),
            forall|s: SignatureIndex| #[trigger]
                signatures@.contains(s) <==> is_exported(functions@.take(f as int), s),
        decreases n - f,
    {
        let function: FunctionType = functions.get(FuncIndex(f as u32));
        let ghost before = signatures@;
        if function.is_escaping() {
            insert_signature(&mut signatures, function.signature);
        }
        let ghost seen = functions@.take(f as int);
        let ghost now = functions@.take(f + 1);
        assert(now =~= seen.push(function));
        assert forall|s: SignatureIndex| #[trigger]
            signatures@.contains(s) <==> is_exported(now, s) by {
            lemma_one_more_function(seen, function, s);
            assert(before.contains(s) <==> is_exported(seen, s));
        }
        f = f + 1;
    }
    assert(functions@.take(f as int) =~= functions@);
    proof {
        assert(lists_exported(signatures@, functions@));
        exported_is_unique(signatures@, exported(functions@), functions@);
    }
    signatures
}

} // verus!
