//! Errors of a translation, and what a step of it can come to.
use vstd::prelude::*;

verus! {

/// What went wrong, and where, while bytes were read.
#[derive(Debug)]
pub struct ReadError {
    /// What went wrong.
    pub message: String,
    /// The offset in the input at which it was noticed.
    pub offset: usize,
}

/// What a [`ReadError`] says.
pub struct ReadErrorView {
    pub message: Seq<char>,
    pub offset: usize,
}

impl View for ReadError {
    type V = ReadErrorView;

    open spec fn view(&self) -> ReadErrorView {
        ReadErrorView { message: self.message@, offset: self.offset }
    }
}

/// An entry of the input, or the error that was met in its place.
pub type Read<T> = Result<T, ReadError>;

/// What an entry of the input holds.
pub open spec fn read_view<T: View>(entry: Read<T>) -> Result<T::V, ReadErrorView> {
    match entry {
        Ok(item) => Ok(item@),
        Err(error) => Err(error@),
    }
}

/// What the entries of a section hold.
pub open spec fn read_views<T: View>(entries: Seq<Read<T>>) -> Seq<Result<T::V, ReadErrorView>> {
    Seq::new(entries.len(), |i: int| read_view(entries[i]))
}

/// Why a module was not translated.
#[derive(Debug)]
pub enum WasmError {
    /// The input is not a valid WebAssembly module.
    InvalidWebAssembly {
        /// What is wrong with it.
        message: String,
        /// The offset in the input at which it was noticed.
        offset: usize,
    },
    /// The module uses a feature that is not translated.
    Unsupported(String),
}

/// What a [`WasmError`] says.
pub enum ErrorView {
    InvalidWebAssembly { message: Seq<char>, offset: usize },
    Unsupported(Seq<char>),
}

impl View for WasmError {
    type V = ErrorView;

    open spec fn view(&self) -> ErrorView {
        match self {
            WasmError::InvalidWebAssembly { message, offset } => ErrorView::InvalidWebAssembly {
                message: message@,
                offset: *offset,
            },
            WasmError::Unsupported(message) => ErrorView::Unsupported(message@),
        }
    }
}

impl WasmError {
    /// A copy.
    pub(crate) fn copy(&self) -> (copy: WasmError)
        ensures
            copy@ == self@,
    {
        match self {
            WasmError::InvalidWebAssembly { message, offset } => WasmError::InvalidWebAssembly {
                message: message.clone(),
                offset: *offset,
            },
            WasmError::Unsupported(message) => WasmError::Unsupported(message.clone()),
        }
    }
}

/// The result of a translation.
pub type WasmResult<T> = Result<T, WasmError>;

impl From<ReadError> for WasmError {
    fn from(error: ReadError) -> (wrapped: WasmError) {
        WasmError::InvalidWebAssembly { message: error.message, offset: error.offset }
    }
}

impl vstd::std_specs::convert::FromSpecImpl<ReadError> for WasmError {
    open spec fn obeys_from_spec() -> bool {
        true
    }

    open spec fn from_spec(error: ReadError) -> WasmError {
        WasmError::InvalidWebAssembly { message: error.message, offset: error.offset }
    }
}

/// What a read error becomes in the result of a translation.
pub open spec fn invalid(error: ReadErrorView) -> ErrorView {
    ErrorView::InvalidWebAssembly { message: error.message, offset: error.offset }
}

/// The error of a translation that `error` ends.
pub fn read_failure(error: &ReadError) -> (failure: WasmError)
    ensures
        failure@ == invalid(error@),
{
    WasmError::from(ReadError { message: error.message.clone(), offset: error.offset })
}

/// The error of a translation that met `what` followed by `text`.
pub fn unsupported(what: &str, text: &str) -> (failure: WasmError)
    ensures
        failure@ == ErrorView::Unsupported(what@ + text@),
{
    let mut message: String = what.to_owned();
    message.append(text);
    WasmError::Unsupported(message)
}

/// What a step of the translation comes to, from a state of type `S`.
pub enum Outcome<S> {
    /// The translation goes on in this state.
    Next(S),
    /// The translation ends in this state, with this error.
    Fails(S, ErrorView),
    /// The step is one that no translation of a module may take: it has no
    /// result. A translation is never started on an input that leads here.
    Halts,
}

/// How a step ended.
pub enum Step {
    /// The translation goes on.
    Continue,
    /// The translation ends with this error.
    Fail(WasmError),
    /// There is no next state.
    Halt,
}

impl Step {
    /// Whether a step that ended like this, in the state `state`, came to `outcome`.
    pub open spec fn came_to<S>(self, outcome: Outcome<S>, state: S) -> bool {
        match outcome {
            Outcome::Next(next) => self is Continue && state == next,
            Outcome::Fails(last, error) => (self matches Step::Fail(failure) && failure@ == error)
                && state == last,
            Outcome::Halts => self is Halt,
        }
    }
}

/// `step`, taken for one entry after the other: an entry that could not be
/// read ends the translation, as does the first step that does not go on.
pub open spec fn fold<S, T>(
    start: S,
    entries: Seq<Result<T, ReadErrorView>>,
    step: spec_fn(S, T) -> Outcome<S>,
) -> Outcome<S>
    decreases entries.len(),
{
    if entries.len() == 0 {
        Outcome::Next(start)
    } else {
        match fold(start, entries.drop_last(), step) {
            Outcome::Next(state) => match entries.last() {
                Ok(item) => step(state, item),
                Err(error) => Outcome::Fails(state, invalid(error)),
            },
            stuck => stuck,
        }
    }
}

/// Entries after the one that ended the translation change nothing.
pub proof fn entries_after_the_end_are_ignored<S, T>(
    start: S,
    entries: Seq<Result<T, ReadErrorView>>,
    n: int,
    step: spec_fn(S, T) -> Outcome<S>,
)
    requires
        0 <= n <= entries.len(),
        !(fold(start, entries.take(n), step) is Next),
    ensures
        fold(start, entries, step) == fold(start, entries.take(n), step),
    decreases entries.len(),
{
    if n == entries.len() {
        assert(entries.take(n) =~= entries);
    } else {
        assert(entries.drop_last().take(n) =~= entries.take(n));
        entries_after_the_end_are_ignored(start, entries.drop_last(), n, step);
    }
}

/// One more entry, after a translation that went on for the `n` before it.
pub proof fn lemma_fold_entry<S, T>(
    start: S,
    entries: Seq<Result<T, ReadErrorView>>,
    n: int,
    step: spec_fn(S, T) -> Outcome<S>,
    state: S,
)
    requires
        0 <= n < entries.len(),
        fold(start, entries.take(n), step) == Outcome::Next(state),
    ensures
        ({
            let after = match entries[n] {
                Ok(item) => step(state, item),
                Err(error) => Outcome::Fails(state, invalid(error)),
            };
            &&& fold(start, entries.take(n + 1), step) == after
            &&& !(after is Next) ==> fold(start, entries, step) == after
        }),
{
    assert(entries.take(n + 1).drop_last() =~= entries.take(n));
    if !(fold(start, entries.take(n + 1), step) is Next) {
        entries_after_the_end_are_ignored(start, entries, n + 1, step);
    }
}

/// One more entry behind entries that went on.
pub proof fn lemma_fold_push<S, T>(
    start: S,
    entries: Seq<Result<T, ReadErrorView>>,
    entry: Result<T, ReadErrorView>,
    step: spec_fn(S, T) -> Outcome<S>,
    state: S,
)
    requires
        fold(start, entries, step) == Outcome::Next(state),
    ensures
        fold(start, entries.push(entry), step) == (match entry {
            Ok(item) => step(state, item),
            Err(error) => Outcome::Fails(state, invalid(error)),
        }),
{
    assert(entries.push(entry).drop_last() =~= entries);
}

/// A read error ends a translation as invalid WebAssembly, with the message and
/// the offset that it came with.
pub proof fn a_read_error_is_invalid_webassembly(error: ReadErrorView)
    ensures
        invalid(error) == (ErrorView::InvalidWebAssembly {
            message: error.message,
            offset: error.offset,
        }),
{
}

/// Whether the state that a step came to, if there is one, is as `keeps` says.
pub open spec fn outcome_keeps<S>(outcome: Outcome<S>, keeps: spec_fn(S) -> bool) -> bool {
    match outcome {
        Outcome::Next(state) => keeps(state),
        Outcome::Fails(state, error) => keeps(state),
        Outcome::Halts => true,
    }
}

/// What every step keeps, all steps together keep.
pub proof fn lemma_fold_keeps<S, T>(
    start: S,
    entries: Seq<Result<T, ReadErrorView>>,
    step: spec_fn(S, T) -> Outcome<S>,
    keeps: spec_fn(S) -> bool,
)
    requires
        keeps(start),
        forall|state: S, item: T|
            keeps(state) ==> outcome_keeps(#[trigger] step(state, item), keeps),
    ensures
        outcome_keeps(fold(start, entries, step), keeps),
    decreases entries.len(),
{
    if entries.len() > 0 {
        lemma_fold_keeps(start, entries.drop_last(), step, keeps);
    }
}

/// Where every step has a result, all steps together have one.
pub proof fn lemma_fold_goes_on<S, T>(
    start: S,
    entries: Seq<Result<T, ReadErrorView>>,
    step: spec_fn(S, T) -> Outcome<S>,
)
    requires
        forall|state: S, item: T| !(#[trigger] step(state, item) is Halts),
    ensures
        !(fold(start, entries, step) is Halts),
    decreases entries.len(),
{
    if entries.len() > 0 {
        lemma_fold_goes_on(start, entries.drop_last(), step);
    }
}

/// What every step that goes on keeps, all steps together keep if they go on.
pub proof fn lemma_fold_next_keeps<S, T>(
    start: S,
    entries: Seq<Result<T, ReadErrorView>>,
    step: spec_fn(S, T) -> Outcome<S>,
    keeps: spec_fn(S) -> bool,
)
    requires
        keeps(start),
        forall|state: S, item: T|
            keeps(state) ==> (#[trigger] step(state, item) matches Outcome::Next(after) ==> keeps(
                after,
            )),
    ensures
        fold(start, entries, step) matches Outcome::Next(after) ==> keeps(after),
    decreases entries.len(),
{
    if entries.len() > 0 {
        lemma_fold_next_keeps(start, entries.drop_last(), step, keeps);
    }
}

/// What the step for `item` brings about, and every step that goes on keeps,
/// all steps together bring about if they go on.
pub proof fn lemma_fold_reaches<S, T>(
    start: S,
    entries: Seq<Result<T, ReadErrorView>>,
    step: spec_fn(S, T) -> Outcome<S>,
    item: T,
    keeps: spec_fn(S) -> bool,
    reached: spec_fn(S) -> bool,
)
    requires
        keeps(start),
        forall|state: S, other: T|
            keeps(state) ==> (#[trigger] step(state, other) matches Outcome::Next(after) ==> keeps(
                after,
            )),
        forall|state: S|
            keeps(state) ==> (#[trigger] step(state, item) matches Outcome::Next(after) ==> reached(
                after,
            )),
        forall|state: S, other: T|
            reached(state) ==> (#[trigger] step(state, other) matches Outcome::Next(after)
                ==> reached(after)),
        entries.contains(Ok::<T, ReadErrorView>(item)),
    ensures
        fold(start, entries, step) matches Outcome::Next(after) ==> reached(after),
    decreases entries.len(),
{
    let rest = entries.drop_last();
    if entries.last() == Ok::<T, ReadErrorView>(item) {
        lemma_fold_next_keeps(start, rest, step, keeps);
    } else {
        let i = choose|i: int|
            0 <= i < entries.len() && entries[i] == Ok::<T, ReadErrorView>(item);
        assert(rest[i] == Ok::<T, ReadErrorView>(item));
        lemma_fold_reaches(start, rest, step, item, keeps, reached);
    }
}

/// What every step for one of the entries keeps, all steps together keep.
pub proof fn lemma_fold_keeps_for<S, T>(
    start: S,
    entries: Seq<Result<T, ReadErrorView>>,
    step: spec_fn(S, T) -> Outcome<S>,
    keeps: spec_fn(S) -> bool,
)
    requires
        keeps(start),
        forall|state: S, item: T|
            keeps(state) && entries.contains(Ok::<T, ReadErrorView>(item)) ==> outcome_keeps(
                #[trigger] step(state, item),
                keeps,
            ),
    ensures
        outcome_keeps(fold(start, entries, step), keeps),
    decreases entries.len(),
{
    if entries.len() > 0 {
        let rest = entries.drop_last();
        assert forall|item: T| rest.contains(Ok::<T, ReadErrorView>(item)) implies entries.contains(
            Ok::<T, ReadErrorView>(item),
        ) by {
            let i = choose|i: int|
                0 <= i < rest.len() && rest[i] == Ok::<T, ReadErrorView>(item);
            assert(entries[i] == Ok::<T, ReadErrorView>(item));
        }
        lemma_fold_keeps_for(start, rest, step, keeps);
        assert(entries.contains(entries[entries.len() - 1]));
    }
}

/// What the entry `k` comes to, when the ones before it went on.
pub open spec fn entry_outcome<S, T>(
    start: S,
    entries: Seq<Result<T, ReadErrorView>>,
    k: int,
    step: spec_fn(S, T) -> Outcome<S>,
) -> Outcome<S> {
    match fold(start, entries.take(k), step) {
        Outcome::Next(state) => match entries[k] {
            Ok(item) => step(state, item),
            Err(error) => Outcome::Fails(state, invalid(error)),
        },
        stuck => stuck,
    }
}

/// All entries together go on exactly when each of them could be read and its
/// step goes on; otherwise they come to what the first one comes to that does
/// not.
pub proof fn the_first_failure_decides<S, T>(
    start: S,
    entries: Seq<Result<T, ReadErrorView>>,
    step: spec_fn(S, T) -> Outcome<S>,
)
    ensures
        fold(start, entries, step) is Next <==> forall|k: int|
            0 <= k < entries.len() ==> #[trigger] entry_outcome(start, entries, k, step) is Next,
        !(fold(start, entries, step) is Next) ==> exists|k: int|
            0 <= k < entries.len() && fold(start, entries.take(k), step) is Next && fold(
                start,
                entries,
                step,
            ) == #[trigger] entry_outcome(start, entries, k, step),
    decreases entries.len(),
{
    if entries.len() > 0 {
        let rest = entries.drop_last();
        let last = entries.len() - 1;
        the_first_failure_decides(start, rest, step);
        assert(entries.take(last) =~= rest);
        assert forall|k: int| 0 <= k < rest.len() implies #[trigger] entry_outcome(
            start,
            entries,
            k,
            step,
        ) == entry_outcome(start, rest, k, step) by {
            assert(entries.take(k) =~= rest.take(k));
        }
        assert(entry_outcome(start, entries, last, step) == fold(start, entries, step));
        if !(fold(start, rest, step) is Next) {
            let k = choose|k: int|
                0 <= k < rest.len() && fold(start, rest.take(k), step) is Next && fold(
                    start,
                    rest,
                    step,
                ) == #[trigger] entry_outcome(start, rest, k, step);
            assert(entries.take(k) =~= rest.take(k));
            assert(fold(start, entries, step) == entry_outcome(start, entries, k, step));
        }
    }
}

} // verus!
