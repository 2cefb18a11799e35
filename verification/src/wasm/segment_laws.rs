//! What element segments add to a module.
use vstd::prelude::*;

use super::debuginfo::WasmTranslationConfig;
use super::elements::{
    element_step, element_steps, expression_elements, function_element, function_elements,
    with_elements, Elements,
};
use super::error::{fold, lemma_fold_entry, lemma_fold_push, ErrorView, Outcome, ReadErrorView};
use super::index::{FuncIndex, GlobalIndex};
use super::module::{lemma_number_left, with_escaped, ModuleView, SegmentView};
use super::module_env::{payload_step, EnvView};
use super::payload::{
    ConstOp, ConstOperatorView, ElementListView, ElementView, PayloadView, PlaceView,
};
use super::section_laws::lets_escape;
use super::translation::TranslationView;

verus! {

/// Whether an element that is a function can be taken, when there are `n`
/// functions.
pub open spec fn function_is_fine(entry: Result<u32, ReadErrorView>, n: nat) -> bool {
    entry matches Ok(func) && func < n
}

/// Whether an element that is an expression can be taken, when there are `n`
/// functions: it is null, or a reference to one of them.
pub open spec fn expression_is_fine(
    entry: Result<ConstOperatorView, ReadErrorView>,
    n: nat,
) -> bool {
    entry matches Ok(expression) && match expression.op {
        ConstOp::RefNull => true,
        ConstOp::RefFunc(func) => func < n,
        _ => false,
    }
}

/// Whether all elements of a segment can be taken, when there are `n` functions.
pub open spec fn items_are_fine(items: ElementListView, n: nat) -> bool {
    match items {
        ElementListView::Functions(functions) => forall|i: int|
            0 <= i < functions.len() ==> function_is_fine(#[trigger] functions[i], n),
        ElementListView::Expressions(expressions) => forall|i: int|
            0 <= i < expressions.len() ==> expression_is_fine(#[trigger] expressions[i], n),
    }
}

/// Whether `elements` are what the items of a segment give: the functions with
/// those numbers, in their order, and the largest number for null.
pub open spec fn lists(items: ElementListView, elements: Seq<FuncIndex>) -> bool {
    match items {
        ElementListView::Functions(functions) => {
            &&& elements.len() == functions.len()
            &&& forall|i: int|
                0 <= i < functions.len() ==> #[trigger] functions[i] == Ok::<u32, ReadErrorView>(
                    elements[i].0,
                )
        },
        ElementListView::Expressions(expressions) => {
            &&& elements.len() == expressions.len()
            &&& forall|i: int|
                0 <= i < expressions.len() ==> (#[trigger] expressions[i] matches Ok(expression)
                    && match expression.op {
                    ConstOp::RefNull => elements[i].0 == u32::MAX,
                    ConstOp::RefFunc(func) => elements[i].0 == func,
                    _ => false,
                })
        },
    }
}

/// Whether `after` is `before`, but for which functions escape.
pub open spec fn same_but_for_escapes(before: ModuleView, after: ModuleView) -> bool {
    &&& after == (ModuleView {
        functions: after.functions,
        num_escaped_funcs: after.num_escaped_funcs,
        ..before
    })
    &&& after.functions.len() == before.functions.len()
    &&& forall|i: int|
        0 <= i < before.functions.len() ==> (#[trigger] after.functions[i]).signature
            == before.functions[i].signature
}

/// Whether `after` is `before`, but for which functions of the module escape.
spec fn same_rest(before: TranslationView, after: TranslationView) -> bool {
    &&& after == (TranslationView { module: after.module, ..before })
    &&& same_but_for_escapes(before.module, after.module)
}

/// Functions that can be taken are listed.
proof fn lemma_functions(t: TranslationView, functions: Seq<Result<u32, ReadErrorView>>)
    ensures
        fold((t, Seq::empty()), functions, function_elements()) is Next <==> forall|i: int|
            0 <= i < functions.len() ==> function_is_fine(
                #[trigger] functions[i],
                t.module.functions.len(),
            ),
        fold((t, Seq::empty()), functions, function_elements()) matches Outcome::Next(
            (after, elements),
        ) ==> lists(ElementListView::Functions(functions), elements) && same_rest(t, after),
    decreases functions.len(),
{
    if functions.len() > 0 {
        let rest = functions.drop_last();
        let n = t.module.functions.len();
        let start: Elements = (t, Seq::empty());
        lemma_functions(t, rest);
        assert(functions.last() == functions[functions.len() - 1]);
        assert(forall|i: int| 0 <= i < rest.len() ==> #[trigger] rest[i] == functions[i]);
        if fold(start, functions, function_elements()) is Next {
            assert forall|i: int| 0 <= i < functions.len() implies function_is_fine(
                #[trigger] functions[i],
                n,
            ) by {
                if i < rest.len() {
                    assert(function_is_fine(rest[i], n));
                }
            }
        }
        if forall|i: int|
            0 <= i < functions.len() ==> function_is_fine(#[trigger] functions[i], n) {
            assert forall|i: int| 0 <= i < rest.len() implies function_is_fine(
                #[trigger] rest[i],
                n,
            ) by {
                assert(function_is_fine(functions[i], n));
            }
            assert(function_is_fine(functions[functions.len() - 1], n));
        }
        if let Outcome::Next((after, elements)) = fold(start, functions, function_elements()) {
            let (before, listed) = fold(start, rest, function_elements())->Next_0;
            assert forall|i: int| 0 <= i < functions.len() implies #[trigger] functions[i] == Ok::<
                u32,
                ReadErrorView,
            >(elements[i].0) by {
                if i < rest.len() {
                    assert(rest[i] == Ok::<u32, ReadErrorView>(listed[i].0));
                }
            }
        }
    }
}

/// Expressions that can be taken are listed.
proof fn lemma_expressions(
    t: TranslationView,
    expressions: Seq<Result<ConstOperatorView, ReadErrorView>>,
)
    ensures
        fold((t, Seq::empty()), expressions, expression_elements()) is Next <==> forall|i: int|
            0 <= i < expressions.len() ==> expression_is_fine(
                #[trigger] expressions[i],
                t.module.functions.len(),
            ),
        fold((t, Seq::empty()), expressions, expression_elements()) matches Outcome::Next(
            (after, elements),
        ) ==> lists(ElementListView::Expressions(expressions), elements) && same_rest(t, after),
    decreases expressions.len(),
{
    if expressions.len() > 0 {
        let rest = expressions.drop_last();
        let n = t.module.functions.len();
        let start: Elements = (t, Seq::empty());
        lemma_expressions(t, rest);
        assert(expressions.last() == expressions[expressions.len() - 1]);
        assert(forall|i: int| 0 <= i < rest.len() ==> #[trigger] rest[i] == expressions[i]);
        if fold(start, expressions, expression_elements()) is Next {
            assert forall|i: int| 0 <= i < expressions.len() implies expression_is_fine(
                #[trigger] expressions[i],
                n,
            ) by {
                if i < rest.len() {
                    assert(expression_is_fine(rest[i], n));
                }
            }
        }
        if forall|i: int|
            0 <= i < expressions.len() ==> expression_is_fine(#[trigger] expressions[i], n) {
            assert forall|i: int| 0 <= i < rest.len() implies expression_is_fine(
                #[trigger] rest[i],
                n,
            ) by {
                assert(expression_is_fine(expressions[i], n));
            }
            assert(expression_is_fine(expressions[expressions.len() - 1], n));
        }
        if let Outcome::Next((after, elements)) = fold(start, expressions, expression_elements()) {
            let (before, listed) = fold(start, rest, expression_elements())->Next_0;
            assert forall|i: int| 0 <= i < expressions.len() implies (
            #[trigger] expressions[i] matches Ok(expression) && match expression.op {
                ConstOp::RefNull => elements[i].0 == u32::MAX,
                ConstOp::RefFunc(func) => elements[i].0 == func,
                _ => false,
            }) by {
                if i < rest.len() {
                    assert(rest[i] is Ok);
                    assert(elements[i] == listed[i]);
                }
            }
        }
    }
}

/// The elements of a segment are listed exactly when all of them can be taken.
proof fn lemma_items(t: TranslationView, items: ElementListView)
    ensures
        with_elements(t, items) is Next <==> items_are_fine(items, t.module.functions.len()),
        with_elements(t, items) matches Outcome::Next((after, elements)) ==> lists(items, elements)
            && same_rest(t, after),
{
    match items {
        ElementListView::Functions(functions) => lemma_functions(t, functions),
        ElementListView::Expressions(expressions) => lemma_expressions(t, expressions),
    }
}

/// The number of a segment is the number of segments before it.
proof fn lemma_numbers(t: TranslationView, entries: Seq<Result<ElementView, ReadErrorView>>)
    ensures
        fold((t, 0nat), entries, element_steps()) matches Outcome::Next((after, n)) ==> n
            == entries.len(),
    decreases entries.len(),
{
    if entries.len() > 0 {
        lemma_numbers(t, entries.drop_last());
    }
}

/// Whether a segment of a table starts where the expression `offset` says: at a
/// constant, whose 32 bits are taken as they are, or at the value of a global.
pub open spec fn starts_at(
    segment: SegmentView,
    offset: Result<ConstOperatorView, ReadErrorView>,
) -> bool {
    offset matches Ok(expression) && match expression.op {
        ConstOp::I32Const(value) => {
            &&& segment.base is None
            &&& segment.offset == if value >= 0 {
                value as int
            } else {
                value + 0x1_0000_0000
            }
        },
        ConstOp::GlobalGet(global) => {
            &&& segment.base == Some(GlobalIndex(global))
            &&& segment.offset == 0
        },
        _ => false,
    }
}

/// Whether `after` has one more segment for a table than `before`: with these
/// elements, for the table with the number `table_index`, or for the first one
/// if there is no number, from where `offset` says.
pub open spec fn fills_table(
    before: ModuleView,
    after: ModuleView,
    table_index: Option<u32>,
    offset: Result<ConstOperatorView, ReadErrorView>,
    elements: Seq<FuncIndex>,
) -> bool {
    &&& after.segments.len() == before.segments.len() + 1
    &&& after.segments.drop_last() == before.segments
    &&& after.segments.last().elements == elements
    &&& after.segments.last().table_index.0 == (match table_index {
        Some(table) => table,
        None => 0u32,
    })
    &&& starts_at(after.segments.last(), offset)
}

/// Whether `after` has one more passive segment than `before`, which is found
/// under the number `n` and has these elements.
pub open spec fn keeps_for_later(
    before: ModuleView,
    after: ModuleView,
    n: nat,
    elements: Seq<FuncIndex>,
) -> bool {
    &&& after.passive_elements == before.passive_elements.push(elements)
    &&& after.passive_elements_map == before.passive_elements_map.insert(
        n as u32,
        before.passive_elements.len() as usize,
    )
}

/// One more element segment that is translated lists its functions, in their
/// order, and null as the largest number: an active one as one more segment for
/// the table that it numbers, or for the first table, from where it says; a
/// passive one for later, under its number among all segments; a declared one
/// nowhere. Nothing else changes but which functions escape.
pub proof fn a_segment_goes_where_it_says(
    env: EnvView,
    config: WasmTranslationConfig,
    memory64: bool,
    entries: Seq<Result<ElementView, ReadErrorView>>,
    segment: ElementView,
    before: EnvView,
    after: EnvView,
)
    requires
        payload_step(env, config, memory64, PayloadView::ElementSection(entries)) == Outcome::Next(
            before,
        ),
        payload_step(env, config, memory64, PayloadView::ElementSection(entries.push(Ok(segment))))
            == Outcome::Next(after),
    ensures
        ({
            let old = before.result.module;
            let new = after.result.module;
            &&& exists|elements: Seq<FuncIndex>| #[trigger]
                lists(segment.items, elements) && match segment.place {
                    PlaceView::Active { table_index, offset } => {
                        &&& fills_table(old, new, table_index, offset, elements)
                        &&& new.passive_elements == old.passive_elements
                        &&& new.passive_elements_map == old.passive_elements_map
                    },
                    PlaceView::Passive => {
                        &&& keeps_for_later(old, new, entries.len(), elements)
                        &&& new.segments == old.segments
                    },
                    PlaceView::Declared => {
                        &&& new.segments == old.segments
                        &&& new.passive_elements == old.passive_elements
                        &&& new.passive_elements_map == old.passive_elements_map
                    },
                }
            &&& same_but_for_escapes(
                ModuleView {
                    segments: new.segments,
                    passive_elements: new.passive_elements,
                    passive_elements_map: new.passive_elements_map,
                    ..old
                },
                new,
            )
            &&& after == (EnvView {
                result: TranslationView { module: new, ..before.result },
                ..before
            })
        }),
{
    let t = env.result;
    lemma_numbers(t, entries);
    let n = entries.len();
    lemma_fold_push((t, 0nat), entries, Ok(segment), element_steps(), (before.result, n));
    lemma_items(before.result, segment.items);
    let (listed, elements) = with_elements(before.result, segment.items)->Next_0;
    assert(lists(segment.items, elements));
    assert(element_step((before.result, n), segment) == Outcome::Next((after.result, n + 1)));
    if let PlaceView::Active { table_index, offset } = segment.place {
        let old = before.result.module;
        let new = after.result.module;
        assert(new.segments.drop_last() =~= old.segments);
        assert(fills_table(old, new, table_index, offset, elements));
    }
}

/// One more element that is a function lets that function escape, after those
/// before it; null lets none escape. Where the segment goes does not matter.
pub proof fn elements_escape_one_after_the_other(
    env: EnvView,
    config: WasmTranslationConfig,
    memory64: bool,
    entries: Seq<Result<ElementView, ReadErrorView>>,
    place: PlaceView,
    functions: Seq<Result<u32, ReadErrorView>>,
    func: u32,
    expressions: Seq<Result<ConstOperatorView, ReadErrorView>>,
    expression: ConstOperatorView,
)
    ensures
        ({
            let with_items = |items: ElementListView|
                payload_step(
                    env,
                    config,
                    memory64,
                    PayloadView::ElementSection(entries.push(Ok(ElementView { place, items }))),
                );
            let some = with_items(ElementListView::Functions(functions));
            let more = with_items(ElementListView::Functions(functions.push(Ok(func))));
            let given = with_items(ElementListView::Expressions(expressions));
            let longer = with_items(ElementListView::Expressions(expressions.push(Ok(expression))));
            &&& some matches Outcome::Next(a) ==> more matches Outcome::Next(b) ==> a.wf()
                ==> lets_escape(a.result.module, b.result.module, func)
            &&& given matches Outcome::Next(a) ==> longer matches Outcome::Next(b) ==> a.wf()
                ==> match expression.op {
                ConstOp::RefFunc(f) => lets_escape(a.result.module, b.result.module, f),
                _ => b.result.module.functions == a.result.module.functions
                    && b.result.module.num_escaped_funcs == a.result.module.num_escaped_funcs,
            }
        }),
{
    let t = env.result;
    let some = ElementView { place, items: ElementListView::Functions(functions) };
    let more = ElementView { place, items: ElementListView::Functions(functions.push(Ok(func))) };
    let given = ElementView { place, items: ElementListView::Expressions(expressions) };
    let longer = ElementView {
        place,
        items: ElementListView::Expressions(expressions.push(Ok(expression))),
    };
    let steps = element_steps();
    assert(entries.push(Ok(some)).drop_last() =~= entries);
    assert(entries.push(Ok(more)).drop_last() =~= entries);
    assert(entries.push(Ok(given)).drop_last() =~= entries);
    assert(entries.push(Ok(longer)).drop_last() =~= entries);
    if let Outcome::Next((before, n)) = fold((t, 0nat), entries, steps) {
        let start: Elements = (before, Seq::empty());
        if let Outcome::Next(state) = fold(start, functions, function_elements()) {
            lemma_fold_push(start, functions, Ok(func), function_elements(), state);
            lemma_escape_after(before, n, some, more, state, func);
        }
        if let Outcome::Next(state) = fold(start, expressions, expression_elements()) {
            lemma_fold_push(start, expressions, Ok(expression), expression_elements(), state);
            if let ConstOp::RefFunc(f) = expression.op {
                lemma_escape_after(before, n, given, longer, state, f);
            }
        }
    }
}

/// One more element that is a function lets that function escape.
proof fn lemma_escape_after(
    before: TranslationView,
    n: nat,
    some: ElementView,
    more: ElementView,
    state: Elements,
    func: u32,
)
    requires
        some.place == more.place,
        with_elements(before, some.items) == Outcome::Next(state),
        with_elements(before, more.items) == function_element(state, func),
    ensures
        element_step((before, n), some) matches Outcome::Next(a) ==> element_step(
            (before, n),
            more,
        ) matches Outcome::Next(b) ==> a.0.wf() ==> lets_escape(a.0.module, b.0.module, func),
{
    if let Outcome::Next(a) = element_step((before, n), some) {
        if let Outcome::Next(b) = element_step((before, n), more) {
            let module = state.0.module;
            assert(a.0.module.functions == module.functions);
            assert(a.0.module.num_escaped_funcs == module.num_escaped_funcs);
            let after = with_escaped(module, FuncIndex(func));
            assert(b.0.module.functions == after.functions);
            if a.0.wf() && !module.functions[func as int].escapes() {
                lemma_number_left(a.0.module, FuncIndex(func));
            }
        }
    }
}

/// Whether a place for a segment can be taken: that of an active one starts at a
/// constant or at a global.
pub open spec fn place_is_fine(place: PlaceView) -> bool {
    match place {
        PlaceView::Active { table_index, offset } => {
            &&& table_index != Some(u32::MAX)
            &&& offset matches Ok(expression) && match expression.op {
                ConstOp::I32Const(_) => true,
                ConstOp::GlobalGet(global) => global != u32::MAX,
                _ => false,
            }
        },
        PlaceView::Passive => true,
        PlaceView::Declared => true,
    }
}

/// An element segment is translated exactly when its elements are null or
/// functions that exist, and its place can be taken.
pub proof fn a_segment_of_functions_is_translated(
    env: EnvView,
    config: WasmTranslationConfig,
    memory64: bool,
    entries: Seq<Result<ElementView, ReadErrorView>>,
    segment: ElementView,
    before: EnvView,
)
    requires
        payload_step(env, config, memory64, PayloadView::ElementSection(entries)) == Outcome::Next(
            before,
        ),
        entries.len() < u32::MAX,
    ensures
        payload_step(
            env,
            config,
            memory64,
            PayloadView::ElementSection(entries.push(Ok(segment))),
        ) is Next <==> items_are_fine(segment.items, before.result.module.functions.len())
            && place_is_fine(segment.place),
{
    let t = env.result;
    lemma_numbers(t, entries);
    let n = entries.len();
    lemma_fold_push((t, 0nat), entries, Ok(segment), element_steps(), (before.result, n));
    lemma_items(before.result, segment.items);
}

/// The elements of a segment behind the first `k`, left out.
pub open spec fn first_items(items: ElementListView, k: int) -> ElementListView {
    match items {
        ElementListView::Functions(functions) => ElementListView::Functions(functions.take(k)),
        ElementListView::Expressions(expressions) => ElementListView::Expressions(
            expressions.take(k),
        ),
    }
}

/// The error that the element `k` of a segment is, if it is one: it cannot be
/// read, or it is neither null nor a function.
pub open spec fn item_error(items: ElementListView, k: int) -> Option<ErrorView> {
    match items {
        ElementListView::Functions(functions) => if 0 <= k < functions.len() {
            match functions[k] {
                Err(error) => Some(
                    ErrorView::InvalidWebAssembly { message: error.message, offset: error.offset },
                ),
                Ok(_) => None,
            }
        } else {
            None
        },
        ElementListView::Expressions(expressions) => if 0 <= k < expressions.len() {
            match expressions[k] {
                Err(error) => Some(
                    ErrorView::InvalidWebAssembly { message: error.message, offset: error.offset },
                ),
                Ok(expression) => if expression.op is RefNull || expression.op is RefFunc {
                    None
                } else {
                    Some(
                        ErrorView::Unsupported(
                            "unsupported init expr in element section: "@ + expression.text,
                        ),
                    )
                },
            }
        } else {
            None
        },
    }
}

/// The first element of a segment that cannot be read, or is neither null nor a
/// function, ends the translation with that error.
pub proof fn the_first_bad_element_is_the_error(
    env: EnvView,
    config: WasmTranslationConfig,
    memory64: bool,
    entries: Seq<Result<ElementView, ReadErrorView>>,
    segment: ElementView,
    before: EnvView,
    k: int,
)
    requires
        payload_step(env, config, memory64, PayloadView::ElementSection(entries)) == Outcome::Next(
            before,
        ),
        items_are_fine(first_items(segment.items, k), before.result.module.functions.len()),
        item_error(segment.items, k) is Some,
    ensures
        payload_step(
            env,
            config,
            memory64,
            PayloadView::ElementSection(entries.push(Ok(segment))),
        ) matches Outcome::Fails(after, error) && error == item_error(segment.items, k)->Some_0
            && same_but_for_escapes(before.result.module, after.result.module),
{
    let t = env.result;
    lemma_numbers(t, entries);
    let n = entries.len();
    lemma_fold_push((t, 0nat), entries, Ok(segment), element_steps(), (before.result, n));
    lemma_items(before.result, first_items(segment.items, k));
    let start: Elements = (before.result, Seq::empty());
    match segment.items {
        ElementListView::Functions(functions) => {
            let state = fold(start, functions.take(k), function_elements())->Next_0;
            lemma_fold_entry(start, functions, k, function_elements(), state);
        },
        ElementListView::Expressions(expressions) => {
            let state = fold(start, expressions.take(k), expression_elements())->Next_0;
            lemma_fold_entry(start, expressions, k, expression_elements(), state);
        },
    }
}

/// An active segment whose start cannot be read, or is neither a constant nor a
/// global, ends the translation with that error.
pub proof fn a_bad_start_of_a_segment_is_the_error(
    env: EnvView,
    config: WasmTranslationConfig,
    memory64: bool,
    entries: Seq<Result<ElementView, ReadErrorView>>,
    segment: ElementView,
    before: EnvView,
    table_index: Option<u32>,
    offset: Result<ConstOperatorView, ReadErrorView>,
)
    requires
        payload_step(env, config, memory64, PayloadView::ElementSection(entries)) == Outcome::Next(
            before,
        ),
        items_are_fine(segment.items, before.result.module.functions.len()),
        segment.place == (PlaceView::Active { table_index, offset }),
        table_index != Some(u32::MAX),
        offset matches Ok(expression) ==> !(expression.op is I32Const) && !(
        expression.op is GlobalGet),
    ensures
        payload_step(
            env,
            config,
            memory64,
            PayloadView::ElementSection(entries.push(Ok(segment))),
        ) matches Outcome::Fails(after, error) && error == (match offset {
            Err(error) => ErrorView::InvalidWebAssembly {
                message: error.message,
                offset: error.offset,
            },
            Ok(expression) => ErrorView::Unsupported(
                "unsupported init expr in element section: "@ + expression.text,
            ),
        }) && same_but_for_escapes(before.result.module, after.result.module),
{
    let t = env.result;
    lemma_numbers(t, entries);
    let n = entries.len();
    lemma_fold_push((t, 0nat), entries, Ok(segment), element_steps(), (before.result, n));
    lemma_items(before.result, segment.items);
}

} // verus!
