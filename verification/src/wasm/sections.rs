//! The sections that declare the entities of a module.
//!
//! For each section there is a function that says what one entry comes to, and
//! one that says what the section comes to: its entries, one after the other.
use vstd::prelude::*;

use super::debuginfo::WasmFileView;
use super::error::{
    fold, invalid, lemma_fold_entry, read_failure, read_views, unsupported, ErrorView, Outcome,
    Read, ReadErrorView, Step,
};
use super::index::{index_fits, FuncIndex, GlobalIndex, MemoryIndex, TableIndex, TypeIndex};
use super::module::{
    lemma_views_push, with_escaped, with_export, with_function, with_import, EntityIndex,
    EntityType, GlobalInit, InitialValueView, ModuleType, ModuleView, TableInitialValue,
};
use super::payload::{
    ConstOp, ConstOperatorView, ExportEntry, ExportKind, ExportView, GlobalEntry, GlobalEntryView,
    ImportEntry, ImportKind, ImportView, TableEntry, TableEntryView,
};
use super::translation::{ModuleTranslation, TranslationView};
use super::types::MemoryPlan;

verus! {

/// The module of `t`, replaced.
pub open spec fn with_module(t: TranslationView, module: ModuleView) -> TranslationView {
    TranslationView { module, ..t }
}

/// What an import comes to. An import of a memory or of a tag has no result,
/// nor has one of a function whose type the module does not have.
pub open spec fn import_step(t: TranslationView, import: ImportView) -> Outcome<TranslationView> {
    let module = t.module;
    match import.ty {
        ImportKind::Func(ty) => if ty < module.types.len() {
            match module.types[ty as int] {
                ModuleType::Function(signature) => match with_import(
                    module,
                    import.module,
                    import.name,
                    EntityType::Function(signature),
                ) {
                    Some(after) => Outcome::Next(
                        TranslationView {
                            module: ModuleView {
                                num_imported_funcs: after.num_imported_funcs + 1,
                                ..after
                            },
                            wasm_file: WasmFileView {
                                imported_func_count: (t.wasm_file.imported_func_count + 1) as u32,
                                ..t.wasm_file
                            },
                            ..t
                        },
                    ),
                    None => Outcome::Halts,
                },
            }
        } else {
            Outcome::Halts
        },
        ImportKind::Table(table) => match with_import(
            module,
            import.module,
            import.name,
            EntityType::Table(table),
        ) {
            Some(after) => Outcome::Next(
                with_module(
                    t,
                    ModuleView { num_imported_tables: after.num_imported_tables + 1, ..after },
                ),
            ),
            None => Outcome::Halts,
        },
        ImportKind::Global(global) => match with_import(
            module,
            import.module,
            import.name,
            EntityType::Global(global),
        ) {
            Some(after) => Outcome::Next(
                with_module(
                    t,
                    ModuleView { num_imported_globals: after.num_imported_globals + 1, ..after },
                ),
            ),
            None => Outcome::Halts,
        },
        ImportKind::Memory(_) => Outcome::Halts,
        ImportKind::Tag(_) => Outcome::Halts,
    }
}

/// [`import_step`], for a fold.
pub open spec fn import_steps() -> spec_fn(TranslationView, ImportView) -> Outcome<
    TranslationView,
> {
    |t: TranslationView, import: ImportView| import_step(t, import)
}

/// What the import section comes to.
pub open spec fn import_section(
    t: TranslationView,
    entries: Seq<Result<ImportView, ReadErrorView>>,
) -> Outcome<TranslationView> {
    fold(t, entries, import_steps())
}

/// What a function of the type with the number `ty` comes to.
pub open spec fn function_step(t: TranslationView, ty: u32) -> Outcome<TranslationView> {
    if ty < t.module.types.len() && index_fits(t.module.functions.len()) {
        match t.module.types[ty as int] {
            ModuleType::Function(signature) => Outcome::Next(
                with_module(t, with_function(t.module, signature)),
            ),
        }
    } else {
        Outcome::Halts
    }
}

/// [`function_step`], for a fold.
pub open spec fn function_steps() -> spec_fn(TranslationView, u32) -> Outcome<TranslationView> {
    |t: TranslationView, ty: u32| function_step(t, ty)
}

/// What the function section comes to.
pub open spec fn function_section(
    t: TranslationView,
    entries: Seq<Result<u32, ReadErrorView>>,
) -> Outcome<TranslationView> {
    fold(t, entries, function_steps())
}

/// What the initial value of the table that was declared last comes to.
pub open spec fn with_initial_value(
    t: TranslationView,
    value: InitialValueView,
) -> Outcome<TranslationView> {
    Outcome::Next(
        with_module(
            t,
            ModuleView { initial_values: t.module.initial_values.push(value), ..t.module },
        ),
    )
}

/// What a table comes to.
pub open spec fn table_step(t: TranslationView, table: TableEntryView) -> Outcome<TranslationView> {
    if !index_fits(t.module.tables.len()) {
        Outcome::Halts
    } else {
        let t = with_module(
            t,
            ModuleView { tables: t.module.tables.push(table.ty), ..t.module },
        );
        let null = InitialValueView::Null { precomputed: Seq::empty() };
        match table.init {
            None => with_initial_value(t, null),
            Some(Err(error)) => Outcome::Fails(t, invalid(error)),
            Some(Ok(init)) => match init.op {
                ConstOp::RefNull => with_initial_value(t, null),
                ConstOp::RefFunc(func) => if func < t.module.functions.len() {
                    with_initial_value(
                        with_module(t, with_escaped(t.module, FuncIndex(func))),
                        InitialValueView::FuncRef(FuncIndex(func)),
                    )
                } else {
                    Outcome::Halts
                },
                _ => Outcome::Fails(
                    t,
                    ErrorView::Unsupported("unsupported init expr in table section: "@ + init.text),
                ),
            },
        }
    }
}

/// [`table_step`], for a fold.
pub open spec fn table_steps() -> spec_fn(TranslationView, TableEntryView) -> Outcome<
    TranslationView,
> {
    |t: TranslationView, table: TableEntryView| table_step(t, table)
}

/// What the table section comes to.
pub open spec fn table_section(
    t: TranslationView,
    entries: Seq<Result<TableEntryView, ReadErrorView>>,
) -> Outcome<TranslationView> {
    fold(t, entries, table_steps())
}

/// A memory changes nothing.
pub open spec fn memory_steps() -> spec_fn(TranslationView, MemoryPlan) -> Outcome<
    TranslationView,
> {
    |t: TranslationView, memory: MemoryPlan| Outcome::Next(t)
}

/// What the memory section comes to.
pub open spec fn memory_section(
    t: TranslationView,
    entries: Seq<Result<MemoryPlan, ReadErrorView>>,
) -> Outcome<TranslationView> {
    fold(t, entries, memory_steps())
}

/// What a global starts as, or the error for an expression that is not
/// supported. There is nothing for an expression that gives a reference.
pub open spec fn global_init(init: ConstOperatorView) -> Option<Result<GlobalInit, ErrorView>> {
    match init.op {
        ConstOp::I32Const(value) => Some(Ok(GlobalInit::I32Const(value))),
        ConstOp::I64Const(value) => Some(Ok(GlobalInit::I64Const(value))),
        ConstOp::F32Const(bits) => Some(Ok(GlobalInit::F32Const(bits))),
        ConstOp::F64Const(bits) => Some(Ok(GlobalInit::F64Const(bits))),
        ConstOp::V128Const(bits) => Some(Ok(GlobalInit::V128Const(bits))),
        ConstOp::RefNull => None,
        ConstOp::RefFunc(_) => None,
        ConstOp::GlobalGet(global) => if index_fits(global as nat) {
            Some(Ok(GlobalInit::GetGlobal(GlobalIndex(global))))
        } else {
            None
        },
        ConstOp::Other => Some(
            Err(ErrorView::Unsupported("unsupported init expr in global section: "@ + init.text)),
        ),
    }
}

/// What a global comes to.
pub open spec fn global_step(t: TranslationView, global: GlobalEntryView) -> Outcome<
    TranslationView,
> {
    match global.init {
        Err(error) => Outcome::Fails(t, invalid(error)),
        Ok(init) => match global_init(init) {
            Some(Ok(value)) => if index_fits(t.module.globals.len()) {
                Outcome::Next(
                    with_module(
                        t,
                        ModuleView {
                            globals: t.module.globals.push(global.ty),
                            global_initializers: t.module.global_initializers.push(value),
                            ..t.module
                        },
                    ),
                )
            } else {
                Outcome::Halts
            },
            Some(Err(error)) => Outcome::Fails(t, error),
            None => Outcome::Halts,
        },
    }
}

/// [`global_step`], for a fold.
pub open spec fn global_steps() -> spec_fn(TranslationView, GlobalEntryView) -> Outcome<
    TranslationView,
> {
    |t: TranslationView, global: GlobalEntryView| global_step(t, global)
}

/// What the global section comes to.
pub open spec fn global_section(
    t: TranslationView,
    entries: Seq<Result<GlobalEntryView, ReadErrorView>>,
) -> Outcome<TranslationView> {
    fold(t, entries, global_steps())
}

/// What an export comes to. A function that is exported escapes. An export of
/// a tag has no result.
pub open spec fn export_step(t: TranslationView, export: ExportView) -> Outcome<TranslationView> {
    let n = export.index;
    let module = match export.kind {
        ExportKind::Func => with_escaped(t.module, FuncIndex(n)),
        _ => t.module,
    };
    let entity = match export.kind {
        ExportKind::Func => if n < t.module.functions.len() {
            Some(EntityIndex::Function(FuncIndex(n)))
        } else {
            None
        },
        ExportKind::Table => if index_fits(n as nat) {
            Some(EntityIndex::Table(TableIndex(n)))
        } else {
            None
        },
        ExportKind::Memory => if index_fits(n as nat) {
            Some(EntityIndex::Memory(MemoryIndex(n)))
        } else {
            None
        },
        ExportKind::Global => if index_fits(n as nat) {
            Some(EntityIndex::Global(GlobalIndex(n)))
        } else {
            None
        },
        ExportKind::Tag => None,
    };
    match entity {
        Some(entity) => Outcome::Next(
            with_module(
                t,
                ModuleView { exports: with_export(module.exports, export.name, entity), ..module },
            ),
        ),
        None => Outcome::Halts,
    }
}

/// [`export_step`], for a fold.
pub open spec fn export_steps() -> spec_fn(TranslationView, ExportView) -> Outcome<
    TranslationView,
> {
    |t: TranslationView, export: ExportView| export_step(t, export)
}

/// What the export section comes to.
pub open spec fn export_section(
    t: TranslationView,
    entries: Seq<Result<ExportView, ReadErrorView>>,
) -> Outcome<TranslationView> {
    fold(t, entries, export_steps())
}

/// What the start section comes to. The start function escapes. A module has
/// one start function at most.
pub open spec fn start_section(t: TranslationView, func: u32) -> Outcome<TranslationView> {
    if func < t.module.functions.len() && t.module.start_func is None {
        Outcome::Next(
            with_module(
                t,
                ModuleView {
                    start_func: Some(FuncIndex(func)),
                    ..with_escaped(t.module, FuncIndex(func))
                },
            ),
        )
    } else {
        Outcome::Halts
    }
}

/// What a data segment comes to: its bytes are listed.
pub open spec fn data_steps() -> spec_fn(TranslationView, Seq<u8>) -> Outcome<TranslationView> {
    |t: TranslationView, bytes: Seq<u8>|
        Outcome::Next(TranslationView { data: t.data.push(bytes), ..t })
}

/// What the data section comes to.
pub open spec fn data_section(
    t: TranslationView,
    entries: Seq<Result<Seq<u8>, ReadErrorView>>,
) -> Outcome<TranslationView> {
    fold(t, entries, data_steps())
}

/// A data section that is translated lists the bytes of its segments, in their
/// order, after those that are listed already, and changes nothing else.
pub proof fn data_segments_are_listed(
    t: TranslationView,
    entries: Seq<Result<Seq<u8>, ReadErrorView>>,
)
    ensures
        data_section(t, entries) matches Outcome::Next(after) ==> {
            &&& after == (TranslationView { data: after.data, ..t })
            &&& after.data.len() == t.data.len() + entries.len()
            &&& forall|i: int| 0 <= i < t.data.len() ==> #[trigger] after.data[i] == t.data[i]
            &&& forall|i: int|
                0 <= i < entries.len() ==> #[trigger] entries[i] == Ok::<Seq<u8>, ReadErrorView>(
                    after.data[t.data.len() + i],
                )
        },
    decreases entries.len(),
{
    if entries.len() > 0 {
        let rest = entries.drop_last();
        data_segments_are_listed(t, rest);
        if let Outcome::Next(after) = data_section(t, entries) {
            if let Outcome::Next(before) = data_section(t, rest) {
                assert forall|i: int| 0 <= i < entries.len() implies #[trigger] entries[i] == Ok::<
                    Seq<u8>,
                    ReadErrorView,
                >(after.data[t.data.len() + i]) by {
                    if i < rest.len() {
                        assert(rest[i] == entries[i]);
                    }
                }
            }
        }
    }
}

impl<'data> ModuleTranslation<'data> {
    /// Takes an import.
    fn import(&mut self, import: &ImportEntry<'data>) -> (step: Step)
        requires
            old(self)@.wf(),
        ensures
            step.came_to(import_step(old(self)@, import@), final(self)@),
            !(step is Halt) ==> final(self)@.wf(),
    {
        match import.ty {
            ImportKind::Func(ty) => {
                if ty as usize >= self.module.types.len() {
                    return Step::Halt;
                }
                let signature = self.module.types.get(TypeIndex::from_u32(ty)).unwrap_function();
                let ty = EntityType::Function(signature);
                if !self.module.has_entity(&ty) {
                    return Step::Halt;
                }
                self.module.declare_import(import.module, import.name, ty);
                self.module.num_imported_funcs = self.module.num_imported_funcs + 1;
                self.debuginfo.wasm_file.imported_func_count =
                self.debuginfo.wasm_file.imported_func_count + 1;
            },
            ImportKind::Table(table) => {
                let ty = EntityType::Table(table);
                if !self.module.has_entity(&ty) {
                    return Step::Halt;
                }
                self.module.declare_import(import.module, import.name, ty);
                self.module.num_imported_tables = self.module.num_imported_tables + 1;
            },
            ImportKind::Global(global) => {
                let ty = EntityType::Global(global);
                if !self.module.has_entity(&ty) {
                    return Step::Halt;
                }
                self.module.declare_import(import.module, import.name, ty);
                self.module.num_imported_globals = self.module.num_imported_globals + 1;
            },
            ImportKind::Memory(_) => return Step::Halt,
            ImportKind::Tag(_) => return Step::Halt,
        }
        Step::Continue
    }

    /// Takes the import section.
    pub fn import_section(&mut self, entries: &Vec<Read<ImportEntry<'data>>>) -> (step: Step)
        requires
            old(self)@.wf(),
        ensures
            step.came_to(import_section(old(self)@, read_views(entries@)), final(self)@),
            !(step is Halt) ==> final(self)@.wf(),
    {
        let ghost all = read_views(entries@);
        let mut i: usize = 0;
        while i < entries.len()
            invariant
                i <= entries@.len(),
                all == read_views(entries@),
                self@.wf(),
                fold(old(self)@, all.take(i as int), import_steps()) == Outcome::Next(self@),
            decreases entries@.len() - i,
        {
            proof {
                lemma_fold_entry(old(self)@, all, i as int, import_steps(), self@);
            }
            match &entries[i] {
                Ok(import) => match self.import(import) {
                    Step::Continue => {},
                    stuck => return stuck,
                },
                Err(error) => return Step::Fail(read_failure(error)),
            }
            i = i + 1;
        }
        assert(all.take(i as int) =~= all);
        Step::Continue
    }

    /// Takes the function section.
    pub fn function_section(&mut self, entries: &Vec<Read<u32>>) -> (step: Step)
        requires
            old(self)@.wf(),
        ensures
            step.came_to(function_section(old(self)@, read_views(entries@)), final(self)@),
            !(step is Halt) ==> final(self)@.wf(),
    {
        let ghost all = read_views(entries@);
        let mut i: usize = 0;
        while i < entries.len()
            invariant
                i <= entries@.len(),
                all == read_views(entries@),
                self@.wf(),
                fold(old(self)@, all.take(i as int), function_steps()) == Outcome::Next(self@),
            decreases entries@.len() - i,
        {
            proof {
                lemma_fold_entry(old(self)@, all, i as int, function_steps(), self@);
            }
            match &entries[i] {
                Ok(ty) => {
                    if *ty as usize >= self.module.types.len() || self.module.functions.len()
                        >= u32::MAX as usize {
                        return Step::Halt;
                    }
                    let ty: TypeIndex = TypeIndex::from_u32(*ty);
                    let signature = self.module.types.get(ty).unwrap_function();
                    let _ = self.module.push_function(signature);
                },
                Err(error) => return Step::Fail(read_failure(error)),
            }
            i = i + 1;
        }
        assert(all.take(i as int) =~= all);
        Step::Continue
    }

    /// Takes a table.
    fn table(&mut self, table: &TableEntry) -> (step: Step)
        requires
            old(self)@.wf(),
        ensures
            step.came_to(table_step(old(self)@, table@), final(self)@),
            !(step is Halt) ==> final(self)@.wf(),
    {
        if self.module.tables.len() >= u32::MAX as usize {
            return Step::Halt;
        }
        let _ = self.module.tables.push(table.ty);
        let init = match &table.init {
            None => TableInitialValue::Null { precomputed: Vec::new() },
            Some(Err(error)) => return Step::Fail(read_failure(error)),
            Some(Ok(init)) => match init.op {
                ConstOp::RefNull => TableInitialValue::Null { precomputed: Vec::new() },
                ConstOp::RefFunc(func) => {
                    if func as usize >= self.module.functions.len() {
                        return Step::Halt;
                    }
                    let func: FuncIndex = FuncIndex::from_u32(func);
                    self.module.flag_func_escaped(func);
                    TableInitialValue::FuncRef(func)
                },
                _ => return Step::Fail(
                    unsupported("unsupported init expr in table section: ", init.text.as_str()),
                ),
            },
        };
        let _ = self.module.table_initialization.initial_values.push(init);
        Step::Continue
    }

    /// Takes the table section.
    pub fn table_section(&mut self, entries: &Vec<Read<TableEntry>>) -> (step: Step)
        requires
            old(self)@.wf(),
        ensures
            step.came_to(table_section(old(self)@, read_views(entries@)), final(self)@),
            !(step is Halt) ==> final(self)@.wf(),
    {
        let ghost all = read_views(entries@);
        let mut i: usize = 0;
        while i < entries.len()
            invariant
                i <= entries@.len(),
                all == read_views(entries@),
                self@.wf(),
                fold(old(self)@, all.take(i as int), table_steps()) == Outcome::Next(self@),
            decreases entries@.len() - i,
        {
            proof {
                lemma_fold_entry(old(self)@, all, i as int, table_steps(), self@);
            }
            match &entries[i] {
                Ok(table) => match self.table(table) {
                    Step::Continue => {},
                    stuck => return stuck,
                },
                Err(error) => return Step::Fail(read_failure(error)),
            }
            i = i + 1;
        }
        assert(all.take(i as int) =~= all);
        Step::Continue
    }

    /// Takes the memory section.
    pub fn memory_section(&mut self, entries: &Vec<Read<MemoryPlan>>) -> (step: Step)
        requires
            old(self)@.wf(),
        ensures
            step.came_to(memory_section(old(self)@, read_views(entries@)), final(self)@),
            !(step is Halt) ==> final(self)@.wf(),
    {
        let ghost all = read_views(entries@);
        let mut i: usize = 0;
        while i < entries.len()
            invariant
                i <= entries@.len(),
                all == read_views(entries@),
                self@.wf(),
                fold(old(self)@, all.take(i as int), memory_steps()) == Outcome::Next(self@),
            decreases entries@.len() - i,
        {
            proof {
                lemma_fold_entry(old(self)@, all, i as int, memory_steps(), self@);
            }
            match &entries[i] {
                Ok(_) => {},
                Err(error) => return Step::Fail(read_failure(error)),
            }
            i = i + 1;
        }
        assert(all.take(i as int) =~= all);
        Step::Continue
    }

    /// Takes a global.
    fn global(&mut self, global: &GlobalEntry) -> (step: Step)
        requires
            old(self)@.wf(),
        ensures
            step.came_to(global_step(old(self)@, global@), final(self)@),
            !(step is Halt) ==> final(self)@.wf(),
    {
        let init = match &global.init {
            Err(error) => return Step::Fail(read_failure(error)),
            Ok(init) => init,
        };
        let value = match init.op {
            ConstOp::I32Const(value) => GlobalInit::I32Const(value),
            ConstOp::I64Const(value) => GlobalInit::I64Const(value),
            ConstOp::F32Const(bits) => GlobalInit::F32Const(bits),
            ConstOp::F64Const(bits) => GlobalInit::F64Const(bits),
            ConstOp::V128Const(bits) => GlobalInit::V128Const(bits),
            ConstOp::RefNull => return Step::Halt,
            ConstOp::RefFunc(_) => return Step::Halt,
            ConstOp::GlobalGet(global) => {
                if global == u32::MAX {
                    return Step::Halt;
                }
                GlobalInit::GetGlobal(GlobalIndex::from_u32(global))
            },
            ConstOp::Other => return Step::Fail(
                unsupported("unsupported init expr in global section: ", init.text.as_str()),
            ),
        };
        if self.module.globals.len() >= u32::MAX as usize {
            return Step::Halt;
        }
        let _ = self.module.globals.push(global.ty);
        let _ = self.module.global_initializers.push(value);
        Step::Continue
    }

    /// Takes the global section.
    pub fn global_section(&mut self, entries: &Vec<Read<GlobalEntry>>) -> (step: Step)
        requires
            old(self)@.wf(),
        ensures
            step.came_to(global_section(old(self)@, read_views(entries@)), final(self)@),
            !(step is Halt) ==> final(self)@.wf(),
    {
        let ghost all = read_views(entries@);
        let mut i: usize = 0;
        while i < entries.len()
            invariant
                i <= entries@.len(),
                all == read_views(entries@),
                self@.wf(),
                fold(old(self)@, all.take(i as int), global_steps()) == Outcome::Next(self@),
            decreases entries@.len() - i,
        {
            proof {
                lemma_fold_entry(old(self)@, all, i as int, global_steps(), self@);
            }
            match &entries[i] {
                Ok(global) => match self.global(global) {
                    Step::Continue => {},
                    stuck => return stuck,
                },
                Err(error) => return Step::Fail(read_failure(error)),
            }
            i = i + 1;
        }
        assert(all.take(i as int) =~= all);
        Step::Continue
    }

    /// Takes an export.
    fn export(&mut self, export: &ExportEntry<'data>) -> (step: Step)
        requires
            old(self)@.wf(),
        ensures
            step.came_to(export_step(old(self)@, export@), final(self)@),
            !(step is Halt) ==> final(self)@.wf(),
    {
        let index: u32 = export.index;
        if index == u32::MAX {
            return Step::Halt;
        }
        let entity = match export.kind {
            ExportKind::Func => {
                if index as usize >= self.module.functions.len() {
                    return Step::Halt;
                }
                let func: FuncIndex = FuncIndex::from_u32(index);
                self.module.flag_func_escaped(func);
                EntityIndex::Function(func)
            },
            ExportKind::Table => EntityIndex::Table(TableIndex::from_u32(index)),
            ExportKind::Memory => EntityIndex::Memory(MemoryIndex::from_u32(index)),
            ExportKind::Global => EntityIndex::Global(GlobalIndex::from_u32(index)),
            ExportKind::Tag => return Step::Halt,
        };
        self.module.declare_export(export.name, entity);
        Step::Continue
    }

    /// Takes the export section.
    pub fn export_section(&mut self, entries: &Vec<Read<ExportEntry<'data>>>) -> (step: Step)
        requires
            old(self)@.wf(),
        ensures
            step.came_to(export_section(old(self)@, read_views(entries@)), final(self)@),
            !(step is Halt) ==> final(self)@.wf(),
    {
        let ghost all = read_views(entries@);
        let mut i: usize = 0;
        while i < entries.len()
            invariant
                i <= entries@.len(),
                all == read_views(entries@),
                self@.wf(),
                fold(old(self)@, all.take(i as int), export_steps()) == Outcome::Next(self@),
            decreases entries@.len() - i,
        {
            proof {
                lemma_fold_entry(old(self)@, all, i as int, export_steps(), self@);
            }
            match &entries[i] {
                Ok(export) => match self.export(export) {
                    Step::Continue => {},
                    stuck => return stuck,
                },
                Err(error) => return Step::Fail(read_failure(error)),
            }
            i = i + 1;
        }
        assert(all.take(i as int) =~= all);
        Step::Continue
    }

    /// Takes the start section.
    pub fn start_section(&mut self, func: u32) -> (step: Step)
        requires
            old(self)@.wf(),
        ensures
            step.came_to(start_section(old(self)@, func), final(self)@),
            !(step is Halt) ==> final(self)@.wf(),
    {
        if func as usize >= self.module.functions.len() || self.module.start_func.is_some() {
            return Step::Halt;
        }
        let func: FuncIndex = FuncIndex::from_u32(func);
        self.module.flag_func_escaped(func);
        self.module.start_func = Some(func);
        Step::Continue
    }

    /// Takes the data section.
    pub fn data_section(&mut self, entries: &Vec<Read<&'data [u8]>>) -> (step: Step)
        requires
            old(self)@.wf(),
        ensures
            step.came_to(data_section(old(self)@, read_views(entries@)), final(self)@),
            !(step is Halt) ==> final(self)@.wf(),
    {
        let ghost all = read_views(entries@);
        let mut i: usize = 0;
        while i < entries.len()
            invariant
                i <= entries@.len(),
                all == read_views(entries@),
                self@.wf(),
                fold(old(self)@, all.take(i as int), data_steps()) == Outcome::Next(self@),
            decreases entries@.len() - i,
        {
            proof {
                lemma_fold_entry(old(self)@, all, i as int, data_steps(), self@);
            }
            match &entries[i] {
                Ok(bytes) => {
                    proof {
                        lemma_views_push(self.data@, *bytes);
                    }
                    self.data.push(*bytes);
                },
                Err(error) => return Step::Fail(read_failure(error)),
            }
            i = i + 1;
        }
        assert(all.take(i as int) =~= all);
        Step::Continue
    }
}

} // verus!
