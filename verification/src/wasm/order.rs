//! The order in which the payloads of an input come.
use vstd::prelude::*;

use super::error::ReadErrorView;
use super::payload::Encoding;
use super::raw::{ContentView, RawView};

verus! {

/// The payloads that are validated: all but the custom sections.
pub open spec fn to_validate(found: Seq<Result<RawView, ReadErrorView>>) -> Seq<RawView>
    decreases found.len(),
{
    if found.len() == 0 {
        Seq::empty()
    } else {
        match found.last() {
            Ok(raw) if !(raw.content is CustomSection) => to_validate(found.drop_last()).push(raw),
            _ => to_validate(found.drop_last()),
        }
    }
}

/// The number of functions that a payload declares: those of a function section.
pub open spec fn functions_in_payload(content: ContentView) -> nat {
    match content {
        ContentView::FunctionSection(entries) => entries.len(),
        _ => 0,
    }
}

/// The number of functions that are declared.
pub open spec fn functions_declared(payloads: Seq<RawView>) -> nat
    decreases payloads.len(),
{
    if payloads.len() == 0 {
        0
    } else {
        functions_declared(payloads.drop_last()) + functions_in_payload(payloads.last().content)
    }
}

/// The number of function bodies that code sections announce.
pub open spec fn bodies_announced(payloads: Seq<RawView>) -> nat
    decreases payloads.len(),
{
    if payloads.len() == 0 {
        0
    } else {
        bodies_announced(payloads.drop_last()) + match payloads.last().content {
            ContentView::CodeSectionStart { start, count } => count as nat,
            _ => 0,
        }
    }
}

/// The number of function bodies in a payload.
pub open spec fn bodies_in_payload(content: ContentView) -> nat {
    if content is CodeSectionEntry {
        1
    } else {
        0
    }
}

/// The number of function bodies.
pub open spec fn bodies_found(payloads: Seq<RawView>) -> nat
    decreases payloads.len(),
{
    if payloads.len() == 0 {
        0
    } else {
        bodies_found(payloads.drop_last()) + bodies_in_payload(payloads.last().content)
    }
}

/// Whether `next` can come after `before`: the header comes first, and
/// function bodies come where a code section has announced them, all of them
/// before anything else.
pub open spec fn comes_in_order(before: Seq<RawView>, next: RawView) -> bool {
    &&& before.len() == 0 ==> next.content is Version
    &&& next.content is CodeSectionEntry ==> bodies_found(before) < bodies_announced(before)
    &&& !(next.content is CodeSectionEntry) ==> bodies_found(before) == bodies_announced(before)
}

/// Whether payloads come in order.
pub open spec fn come_in_order(found: Seq<Result<RawView, ReadErrorView>>) -> bool {
    forall|k: int|
        0 <= k < found.len() ==> (#[trigger] found[k] matches Ok(next) ==> comes_in_order(
            to_validate(found.take(k)),
            next,
        ))
}

/// Whether the payloads end with an error or with the end of the input.
pub open spec fn ends_with_end(payloads: Seq<Result<RawView, ReadErrorView>>) -> bool {
    payloads.len() > 0 && match payloads.last() {
        Ok(last) => last.content is End,
        Err(_) => true,
    }
}

/// Whether these are payloads of a module, as far as there are any.
pub open spec fn are_of_a_module(payloads: Seq<RawView>) -> bool {
    payloads.len() > 0 ==> payloads[0].content == (ContentView::Version {
        encoding: Encoding::Module,
    })
}

/// One more payload, and what is validated then.
pub proof fn lemma_one_more_payload(found: Seq<Result<RawView, ReadErrorView>>, k: int)
    requires
        0 <= k < found.len(),
    ensures
        to_validate(found.take(k + 1)) == (match found[k] {
            Ok(raw) if !(raw.content is CustomSection) => to_validate(found.take(k)).push(raw),
            _ => to_validate(found.take(k)),
        }),
{
    assert(found.take(k + 1).drop_last() =~= found.take(k));
}

/// One more payload, and what is counted then.
pub proof fn lemma_counts_of_one_more(before: Seq<RawView>, next: RawView)
    ensures
        functions_declared(before.push(next)) == functions_declared(before) + functions_in_payload(
            next.content,
        ),
        bodies_found(before.push(next)) == bodies_found(before) + bodies_in_payload(next.content),
        !(next.content is CodeSectionStart) ==> bodies_announced(before.push(next))
            == bodies_announced(before),
{
    assert(before.push(next).drop_last() =~= before);
}

} // verus!
