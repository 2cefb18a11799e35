//! The element section of a module.
use vstd::prelude::*;

use super::error::{
    fold, invalid, lemma_fold_entry, read_failure, read_view, read_views, unsupported, ErrorView,
    Outcome, Read, ReadErrorView, Step,
};
use super::index::{index_fits, ElemIndex, FuncIndex, GlobalIndex, TableIndex};
use super::module::{lemma_views_push, with_escaped, ModuleView, SegmentView, TableSegment};
use super::payload::{
    ConstOp, ConstOperator, ConstOperatorView, ElementEntry, ElementList, ElementListView,
    ElementPlace, ElementView, PlaceView,
};
use super::sections::with_module;
use super::translation::{ModuleTranslation, TranslationView};

verus! {

/// The elements of a segment so far, and the translation with them.
pub type Elements = (TranslationView, Seq<FuncIndex>);

/// What an element that is a function comes to: the function escapes.
pub open spec fn function_element(state: Elements, func: u32) -> Outcome<Elements> {
    let (t, elements) = state;
    if func < t.module.functions.len() {
        Outcome::Next(
            (
                with_module(t, with_escaped(t.module, FuncIndex(func))),
                elements.push(FuncIndex(func)),
            ),
        )
    } else {
        Outcome::Halts
    }
}

/// [`function_element`], for a fold.
pub open spec fn function_elements() -> spec_fn(Elements, u32) -> Outcome<Elements> {
    |state: Elements, func: u32| function_element(state, func)
}

/// The error for an expression that an element segment may not have.
pub open spec fn unsupported_element(expression: ConstOperatorView) -> ErrorView {
    ErrorView::Unsupported("unsupported init expr in element section: "@ + expression.text)
}

/// What an element that is an expression comes to. A null reference is the
/// reserved function.
pub open spec fn expression_element(
    state: Elements,
    expression: ConstOperatorView,
) -> Outcome<Elements> {
    match expression.op {
        ConstOp::RefNull => Outcome::Next((state.0, state.1.push(FuncIndex::reserved()))),
        ConstOp::RefFunc(func) => function_element(state, func),
        _ => Outcome::Fails(state, unsupported_element(expression)),
    }
}

/// [`expression_element`], for a fold.
pub open spec fn expression_elements() -> spec_fn(Elements, ConstOperatorView) -> Outcome<
    Elements,
> {
    |state: Elements, expression: ConstOperatorView| expression_element(state, expression)
}

/// What the elements of a segment come to.
pub open spec fn with_elements(t: TranslationView, items: ElementListView) -> Outcome<Elements> {
    match items {
        ElementListView::Functions(functions) => fold(
            (t, Seq::empty()),
            functions,
            function_elements(),
        ),
        ElementListView::Expressions(expressions) => fold(
            (t, Seq::empty()),
            expressions,
            expression_elements(),
        ),
    }
}

/// The number whose 32 bits are those of `value`.
pub open spec fn bits_of(value: i32) -> u32 {
    if value < 0 {
        (value + 0x1_0000_0000) as u32
    } else {
        value as u32
    }
}

/// What a segment that initializes a table comes to.
pub open spec fn with_active_segment(
    t: TranslationView,
    table_index: Option<u32>,
    offset: Result<ConstOperatorView, ReadErrorView>,
    elements: Seq<FuncIndex>,
) -> Outcome<TranslationView> {
    let table = match table_index {
        Some(table) => table,
        None => 0,
    };
    if !index_fits(table as nat) {
        Outcome::Halts
    } else {
        match offset {
            Err(error) => Outcome::Fails(t, invalid(error)),
            Ok(expression) => {
                let start: Option<(Option<GlobalIndex>, u32)> = match expression.op {
                    ConstOp::I32Const(value) => Some((None, bits_of(value))),
                    ConstOp::GlobalGet(global) => Some((Some(GlobalIndex(global)), 0)),
                    _ => None,
                };
                match start {
                    None => Outcome::Fails(t, unsupported_element(expression)),
                    Some((Some(global), _)) if !index_fits(global.0 as nat) => Outcome::Halts,
                    Some((base, offset)) => {
                        let segment = SegmentView {
                            table_index: TableIndex(table),
                            base,
                            offset,
                            elements,
                        };
                        Outcome::Next(
                            with_module(
                                t,
                                ModuleView {
                                    segments: t.module.segments.push(segment),
                                    ..t.module
                                },
                            ),
                        )
                    },
                }
            },
        }
    }
}

/// What a segment with the number `n` and these elements comes to.
pub open spec fn with_segment(
    t: TranslationView,
    n: nat,
    place: PlaceView,
    elements: Seq<FuncIndex>,
) -> Outcome<TranslationView> {
    match place {
        PlaceView::Active { table_index, offset } => with_active_segment(
            t,
            table_index,
            offset,
            elements,
        ),
        PlaceView::Passive => if index_fits(n) {
            Outcome::Next(
                with_module(
                    t,
                    ModuleView {
                        passive_elements: t.module.passive_elements.push(elements),
                        passive_elements_map: t.module.passive_elements_map.insert(
                            n as u32,
                            t.module.passive_elements.len() as usize,
                        ),
                        ..t.module
                    },
                ),
            )
        } else {
            Outcome::Halts
        },
        PlaceView::Declared => Outcome::Next(t),
    }
}

/// The number of segments so far, and the translation with them.
pub type Segments = (TranslationView, nat);

/// What a segment comes to.
pub open spec fn element_step(state: Segments, segment: ElementView) -> Outcome<Segments> {
    let (t, n) = state;
    match with_elements(t, segment.items) {
        Outcome::Next((t, elements)) => match with_segment(t, n, segment.place, elements) {
            Outcome::Next(t) => Outcome::Next((t, n + 1)),
            Outcome::Fails(t, error) => Outcome::Fails((t, n), error),
            Outcome::Halts => Outcome::Halts,
        },
        Outcome::Fails((t, elements), error) => Outcome::Fails((t, n), error),
        Outcome::Halts => Outcome::Halts,
    }
}

/// [`element_step`], for a fold.
pub open spec fn element_steps() -> spec_fn(Segments, ElementView) -> Outcome<Segments> {
    |state: Segments, segment: ElementView| element_step(state, segment)
}

/// What the element section comes to.
pub open spec fn element_section(
    t: TranslationView,
    entries: Seq<Result<ElementView, ReadErrorView>>,
) -> Outcome<TranslationView> {
    match fold((t, 0nat), entries, element_steps()) {
        Outcome::Next((t, n)) => Outcome::Next(t),
        Outcome::Fails((t, n), error) => Outcome::Fails(t, error),
        Outcome::Halts => Outcome::Halts,
    }
}

/// The number whose 32 bits are those of `value`.
fn bits(value: i32) -> (bits: u32)
    ensures
        bits == bits_of(value),
{
    assert(value < 0 ==> value as u32 == value + 0x1_0000_0000) by (bit_vector);
    value as u32
}

impl<'data> ModuleTranslation<'data> {
    /// Takes an element that is a function.
    fn function_element(&mut self, elements: &mut Vec<FuncIndex>, func: u32) -> (step: Step)
        requires
            old(self)@.wf(),
        ensures
            step.came_to(
                function_element((old(self)@, old(elements)@), func),
                (final(self)@, final(elements)@),
            ),
            !(step is Halt) ==> final(self)@.wf(),
    {
        if func as usize >= self.module.functions.len() {
            return Step::Halt;
        }
        let func: FuncIndex = FuncIndex::from_u32(func);
        self.module.flag_func_escaped(func);
        elements.push(func);
        Step::Continue
    }

    /// Takes the elements of a segment that holds functions.
    fn functions(&mut self, elements: &mut Vec<FuncIndex>, functions: &Vec<Read<u32>>) -> (step:
        Step)
        requires
            old(self)@.wf(),
        ensures
            step.came_to(
                fold(
                    (old(self)@, old(elements)@),
                    read_views(functions@),
                    function_elements(),
                ),
                (final(self)@, final(elements)@),
            ),
            !(step is Halt) ==> final(self)@.wf(),
    {
        let ghost start = (self@, elements@);
        let ghost all = read_views(functions@);
        let mut i: usize = 0;
        while i < functions.len()
            invariant
                i <= functions@.len(),
                all == read_views(functions@),
                self@.wf(),
                start == (old(self)@, old(elements)@),
                fold(start, all.take(i as int), function_elements()) == Outcome::Next(
                    (self@, elements@),
                ),
            decreases functions@.len() - i,
        {
            proof {
                lemma_fold_entry(start, all, i as int, function_elements(), (self@, elements@));
            }
            match &functions[i] {
                Ok(func) => match self.function_element(elements, *func) {
                    Step::Continue => {},
                    stuck => return stuck,
                },
                Err(error) => return Step::Fail(read_failure(error)),
            }
            i = i + 1;
        }
        assert(all.take(i as int) =~= all);
        Step::Continue
    }

    /// Takes the elements of a segment that holds expressions.
    fn expressions(
        &mut self,
        elements: &mut Vec<FuncIndex>,
        expressions: &Vec<Read<ConstOperator>>,
    ) -> (step: Step)
        requires
            old(self)@.wf(),
        ensures
            step.came_to(
                fold(
                    (old(self)@, old(elements)@),
                    read_views(expressions@),
                    expression_elements(),
                ),
                (final(self)@, final(elements)@),
            ),
            !(step is Halt) ==> final(self)@.wf(),
    {
        let ghost start = (self@, elements@);
        let ghost all = read_views(expressions@);
        let mut i: usize = 0;
        while i < expressions.len()
            invariant
                i <= expressions@.len(),
                all == read_views(expressions@),
                self@.wf(),
                start == (old(self)@, old(elements)@),
                fold(start, all.take(i as int), expression_elements()) == Outcome::Next(
                    (self@, elements@),
                ),
            decreases expressions@.len() - i,
        {
            proof {
                lemma_fold_entry(start, all, i as int, expression_elements(), (self@, elements@));
            }
            match &expressions[i] {
                Ok(expression) => match expression.op {
                    ConstOp::RefNull => elements.push(FuncIndex::reserved_value()),
                    ConstOp::RefFunc(func) => match self.function_element(elements, func) {
                        Step::Continue => {},
                        stuck => return stuck,
                    },
                    _ => return Step::Fail(
                        unsupported(
                            "unsupported init expr in element section: ",
                            expression.text.as_str(),
                        ),
                    ),
                },
                Err(error) => return Step::Fail(read_failure(error)),
            }
            i = i + 1;
        }
        assert(all.take(i as int) =~= all);
        Step::Continue
    }

    /// Takes a segment that initializes a table.
    fn active_segment(
        &mut self,
        table_index: Option<u32>,
        offset: &Read<ConstOperator>,
        elements: Vec<FuncIndex>,
    ) -> (step: Step)
        requires
            old(self)@.wf(),
        ensures
            step.came_to(
                with_active_segment(old(self)@, table_index, read_view(*offset), elements@),
                final(self)@,
            ),
            !(step is Halt) ==> final(self)@.wf(),
    {
        let table: u32 = match table_index {
            Some(table) => table,
            None => 0,
        };
        if table == u32::MAX {
            return Step::Halt;
        }
        let expression = match offset {
            Err(error) => return Step::Fail(read_failure(error)),
            Ok(expression) => expression,
        };
        let (base, start): (Option<GlobalIndex>, u32) = match expression.op {
            ConstOp::I32Const(value) => (None, bits(value)),
            ConstOp::GlobalGet(global) => {
                if global == u32::MAX {
                    return Step::Halt;
                }
                (Some(GlobalIndex::from_u32(global)), 0)
            },
            _ => return Step::Fail(
                unsupported(
                    "unsupported init expr in element section: ",
                    expression.text.as_str(),
                ),
            ),
        };
        let segment = TableSegment {
            table_index: TableIndex::from_u32(table),
            base,
            offset: start,
            elements,
        };
        proof {
            lemma_views_push(self.module.table_initialization.segments@, segment);
        }
        self.module.table_initialization.segments.push(segment);
        Step::Continue
    }

    /// Takes the segment with the number `n`, which holds `elements`.
    fn segment(&mut self, n: usize, place: &ElementPlace, elements: Vec<FuncIndex>) -> (step: Step)
        requires
            old(self)@.wf(),
        ensures
            step.came_to(with_segment(old(self)@, n as nat, place@, elements@), final(self)@),
            !(step is Halt) ==> final(self)@.wf(),
    {
        match place {
            ElementPlace::Active { table_index, offset } => {
                self.active_segment(*table_index, offset, elements)
            },
            ElementPlace::Passive => {
                if n >= u32::MAX as usize {
                    return Step::Halt;
                }
                let index: ElemIndex = ElemIndex::from_u32(n as u32);
                proof {
                    lemma_views_push(self.module.passive_elements@, elements);
                }
                let at: usize = self.module.passive_elements.len();
                self.module.passive_elements.push(elements);
                self.module.passive_elements_map.insert(index.0, at);
                Step::Continue
            },
            ElementPlace::Declared => Step::Continue,
        }
    }

    /// Takes the element segment with the number `n`.
    fn element(&mut self, n: usize, entry: &ElementEntry) -> (step: Step)
        requires
            old(self)@.wf(),
            n < usize::MAX,
        ensures
            match element_step((old(self)@, n as nat), entry@) {
                Outcome::Next(state) => step is Continue && final(self)@ == state.0 && state.1 == n
                    + 1,
                Outcome::Fails(state, error) => (step matches Step::Fail(failure) && failure@
                    == error) && final(self)@ == state.0,
                Outcome::Halts => step is Halt,
            },
            !(step is Halt) ==> final(self)@.wf(),
    {
        let mut elements: Vec<FuncIndex> = Vec::new();
        let listed = match &entry.items {
            ElementList::Functions(functions) => self.functions(&mut elements, functions),
            ElementList::Expressions(expressions) => self.expressions(&mut elements, expressions),
        };
        match listed {
            Step::Continue => self.segment(n, &entry.place, elements),
            stuck => stuck,
        }
    }

    /// Takes the element section.
    pub fn element_section(&mut self, entries: &Vec<Read<ElementEntry>>) -> (step: Step)
        requires
            old(self)@.wf(),
        ensures
            step.came_to(element_section(old(self)@, read_views(entries@)), final(self)@),
            !(step is Halt) ==> final(self)@.wf(),
    {
        let ghost start = (self@, 0nat);
        let ghost all = read_views(entries@);
        let mut i: usize = 0;
        while i < entries.len()
            invariant
                i <= entries@.len(),
                all == read_views(entries@),
                self@.wf(),
                start == (old(self)@, 0nat),
                fold(start, all.take(i as int), element_steps()) == Outcome::Next(
                    (self@, i as nat),
                ),
            decreases entries@.len() - i,
        {
            proof {
                lemma_fold_entry(start, all, i as int, element_steps(), (self@, i as nat));
            }
            match &entries[i] {
                Ok(entry) => match self.element(i, entry) {
                    Step::Continue => {},
                    stuck => return stuck,
                },
                Err(error) => return Step::Fail(read_failure(error)),
            }
            i = i + 1;
        }
        assert(all.take(i as int) =~= all);
        Step::Continue
    }
}

} // verus!
