//! Debug information that a module carries in custom sections.
use std::path::PathBuf;
use vstd::prelude::*;

use super::module::views;
use super::text::{begins_with, has_prefix, same_text};
use super::types::WasmType;

verus! {

/// What to do with a module beyond translating it.
#[derive(Clone, Copy, Debug)]
pub struct WasmTranslationConfig {
    /// Whether to generate native debug information.
    pub generate_native_debuginfo: bool,
    /// Whether to keep the debug information of the module.
    pub parse_wasm_debuginfo: bool,
}

/// A place for the bytes of a section with debug information.
#[derive(Clone, Copy, Debug, PartialEq, Eq, Structural)]
pub enum DwarfSlot {
    Abbrev,
    Addr,
    Info,
    Line,
    LineStr,
    Str,
    StrOffsets,
    /// The strings of a supplementary file. There are none until they are set.
    StrSup,
    Types,
    Loc,
    LocLists,
    Ranges,
    RngLists,
    /// `Loc`, as the location lists have it.
    LocationsLoc,
    /// `LocLists`, as the location lists have it.
    LocationsLocLists,
    /// `Ranges`, as the range lists have it.
    RangesRanges,
    /// `RngLists`, as the range lists have it.
    RangesRngLists,
}

/// The debug sections of a module, ready to be read: what `gimli` keeps of
/// them. `gimli` cannot be seen through here; [`dwarf_sections`] says what
/// bytes it holds.
#[verifier::external_body]
pub struct DwarfData<'a> {
    /// The sections that units are read from.
    pub dwarf: gimli::Dwarf<gimli::EndianSlice<'a, gimli::LittleEndian>>,
    debug_loc: gimli::DebugLoc<gimli::EndianSlice<'a, gimli::LittleEndian>>,
    debug_loclists: gimli::DebugLocLists<gimli::EndianSlice<'a, gimli::LittleEndian>>,
    /// The ranges of the units.
    pub debug_ranges: gimli::DebugRanges<gimli::EndianSlice<'a, gimli::LittleEndian>>,
    /// The range lists of the units.
    pub debug_rnglists: gimli::DebugRngLists<gimli::EndianSlice<'a, gimli::LittleEndian>>,
}

/// The bytes that each place holds.
pub uninterp spec fn dwarf_sections(data: DwarfData<'_>) -> Map<DwarfSlot, Seq<u8>>;

/// Every place holds no bytes, and there is no supplementary file.
pub open spec fn no_sections() -> Map<DwarfSlot, Seq<u8>> {
    Map::new(|slot: DwarfSlot| slot != DwarfSlot::StrSup, |slot: DwarfSlot| Seq::<u8>::empty())
}

impl<'a> DwarfData<'a> {
    /// `gimli::Dwarf::default`, and `default` of the four sections beside it:
    /// every section is empty, and there is no supplementary file.
    #[verifier::external_body]
    fn new() -> (data: Self)
        ensures
            dwarf_sections(data) == no_sections(),
    {
        DwarfData {
            dwarf: Default::default(),
            debug_loc: Default::default(),
            debug_loclists: Default::default(),
            debug_ranges: Default::default(),
            debug_rnglists: Default::default(),
        }
    }

    /// `gimli::DebugAbbrev::new`: the section is the bytes it is given.
    #[verifier::external_body]
    fn set_abbrev(&mut self, bytes: &'a [u8])
        ensures
            dwarf_sections(*final(self)) == dwarf_sections(*old(self)).insert(
                DwarfSlot::Abbrev,
                bytes@,
            ),
    {
        self.dwarf.debug_abbrev = gimli::DebugAbbrev::new(bytes, gimli::LittleEndian);
    }

    /// `gimli::DebugAddr::from`: the section is the bytes it is given.
    #[verifier::external_body]
    fn set_addr(&mut self, bytes: &'a [u8])
        ensures
            dwarf_sections(*final(self)) == dwarf_sections(*old(self)).insert(
                DwarfSlot::Addr,
                bytes@,
            ),
    {
        let slice = gimli::EndianSlice::new(bytes, gimli::LittleEndian);
        self.dwarf.debug_addr = gimli::DebugAddr::from(slice);
    }

    /// `gimli::DebugInfo::new`: the section is the bytes it is given.
    #[verifier::external_body]
    fn set_info(&mut self, bytes: &'a [u8])
        ensures
            dwarf_sections(*final(self)) == dwarf_sections(*old(self)).insert(
                DwarfSlot::Info,
                bytes@,
            ),
    {
        self.dwarf.debug_info = gimli::DebugInfo::new(bytes, gimli::LittleEndian);
    }

    /// `gimli::DebugLine::new`: the section is the bytes it is given.
    #[verifier::external_body]
    fn set_line(&mut self, bytes: &'a [u8])
        ensures
            dwarf_sections(*final(self)) == dwarf_sections(*old(self)).insert(
                DwarfSlot::Line,
                bytes@,
            ),
    {
        self.dwarf.debug_line = gimli::DebugLine::new(bytes, gimli::LittleEndian);
    }

    /// `gimli::DebugLineStr::from`: the section is the bytes it is given.
    #[verifier::external_body]
    fn set_line_str(&mut self, bytes: &'a [u8])
        ensures
            dwarf_sections(*final(self)) == dwarf_sections(*old(self)).insert(
                DwarfSlot::LineStr,
                bytes@,
            ),
    {
        let slice = gimli::EndianSlice::new(bytes, gimli::LittleEndian);
        self.dwarf.debug_line_str = gimli::DebugLineStr::from(slice);
    }

    /// `gimli::DebugStr::new`: the section is the bytes it is given.
    #[verifier::external_body]
    fn set_str(&mut self, bytes: &'a [u8])
        ensures
            dwarf_sections(*final(self)) == dwarf_sections(*old(self)).insert(
                DwarfSlot::Str,
                bytes@,
            ),
    {
        self.dwarf.debug_str = gimli::DebugStr::new(bytes, gimli::LittleEndian);
    }

    /// `gimli::DebugStrOffsets::from`: the section is the bytes it is given.
    #[verifier::external_body]
    fn set_str_offsets(&mut self, bytes: &'a [u8])
        ensures
            dwarf_sections(*final(self)) == dwarf_sections(*old(self)).insert(
                DwarfSlot::StrOffsets,
                bytes@,
            ),
    {
        let slice = gimli::EndianSlice::new(bytes, gimli::LittleEndian);
        self.dwarf.debug_str_offsets = gimli::DebugStrOffsets::from(slice);
    }

    /// `gimli::DebugStr::from`, in a supplementary file of its own: the
    /// strings of the file are the bytes it is given.
    #[verifier::external_body]
    fn set_str_sup(&mut self, bytes: &'a [u8])
        ensures
            dwarf_sections(*final(self)) == dwarf_sections(*old(self)).insert(
                DwarfSlot::StrSup,
                bytes@,
            ),
    {
        let slice = gimli::EndianSlice::new(bytes, gimli::LittleEndian);
        let mut sup = gimli::Dwarf::default();
        sup.debug_str = gimli::DebugStr::from(slice);
        self.dwarf.sup = Some(std::sync::Arc::new(sup));
    }

    /// `gimli::DebugTypes::from`: the section is the bytes it is given.
    #[verifier::external_body]
    fn set_types(&mut self, bytes: &'a [u8])
        ensures
            dwarf_sections(*final(self)) == dwarf_sections(*old(self)).insert(
                DwarfSlot::Types,
                bytes@,
            ),
    {
        let slice = gimli::EndianSlice::new(bytes, gimli::LittleEndian);
        self.dwarf.debug_types = gimli::DebugTypes::from(slice);
    }

    /// `gimli::DebugLoc::from`: the section is the bytes it is given.
    #[verifier::external_body]
    fn set_loc(&mut self, bytes: &'a [u8])
        ensures
            dwarf_sections(*final(self)) == dwarf_sections(*old(self)).insert(
                DwarfSlot::Loc,
                bytes@,
            ),
    {
        let slice = gimli::EndianSlice::new(bytes, gimli::LittleEndian);
        self.debug_loc = gimli::DebugLoc::from(slice);
    }

    /// `gimli::DebugLocLists::from`: the section is the bytes it is given.
    #[verifier::external_body]
    fn set_loclists(&mut self, bytes: &'a [u8])
        ensures
            dwarf_sections(*final(self)) == dwarf_sections(*old(self)).insert(
                DwarfSlot::LocLists,
                bytes@,
            ),
    {
        let slice = gimli::EndianSlice::new(bytes, gimli::LittleEndian);
        self.debug_loclists = gimli::DebugLocLists::from(slice);
    }

    /// `gimli::DebugRanges::new`: the section is the bytes it is given.
    #[verifier::external_body]
    fn set_ranges(&mut self, bytes: &'a [u8])
        ensures
            dwarf_sections(*final(self)) == dwarf_sections(*old(self)).insert(
                DwarfSlot::Ranges,
                bytes@,
            ),
    {
        self.debug_ranges = gimli::DebugRanges::new(bytes, gimli::LittleEndian);
    }

    /// `gimli::DebugRngLists::new`: the section is the bytes it is given.
    #[verifier::external_body]
    fn set_rnglists(&mut self, bytes: &'a [u8])
        ensures
            dwarf_sections(*final(self)) == dwarf_sections(*old(self)).insert(
                DwarfSlot::RngLists,
                bytes@,
            ),
    {
        self.debug_rnglists = gimli::DebugRngLists::new(bytes, gimli::LittleEndian);
    }

    /// `gimli::RangeLists::new`: the range lists hold the two sections they
    /// are made of.
    #[verifier::external_body]
    fn join_ranges(&mut self)
        ensures
            dwarf_sections(*final(self)) == with_range_lists(dwarf_sections(*old(self))),
    {
        self.dwarf.ranges = gimli::RangeLists::new(self.debug_ranges, self.debug_rnglists);
    }

    /// `gimli::LocationLists::new`: the location lists hold the two sections
    /// they are made of.
    #[verifier::external_body]
    fn join_locations(&mut self)
        ensures
            dwarf_sections(*final(self)) == with_location_lists(dwarf_sections(*old(self))),
    {
        self.dwarf.locations = gimli::LocationLists::new(self.debug_loc, self.debug_loclists);
    }
}

/// The range lists hold what `Ranges` and `RngLists` hold.
pub open spec fn with_range_lists(sections: Map<DwarfSlot, Seq<u8>>) -> Map<DwarfSlot, Seq<u8>> {
    sections.insert(DwarfSlot::RangesRanges, sections[DwarfSlot::Ranges]).insert(
        DwarfSlot::RangesRngLists,
        sections[DwarfSlot::RngLists],
    )
}

/// The location lists hold what `Loc` and `LocLists` hold.
pub open spec fn with_location_lists(sections: Map<DwarfSlot, Seq<u8>>) -> Map<DwarfSlot, Seq<u8>> {
    sections.insert(DwarfSlot::LocationsLoc, sections[DwarfSlot::Loc]).insert(
        DwarfSlot::LocationsLocLists,
        sections[DwarfSlot::LocLists],
    )
}

/// The place for the section with the name `name`. There is none for sections
/// that are not used.
pub open spec fn slot_of(name: Seq<char>) -> Option<DwarfSlot> {
    if name == ".debug_abbrev"@ {
        Some(DwarfSlot::Abbrev)
    } else if name == ".debug_addr"@ {
        Some(DwarfSlot::Addr)
    } else if name == ".debug_info"@ {
        Some(DwarfSlot::Info)
    } else if name == ".debug_line"@ {
        Some(DwarfSlot::Line)
    } else if name == ".debug_line_str"@ {
        Some(DwarfSlot::LineStr)
    } else if name == ".debug_str"@ {
        Some(DwarfSlot::Str)
    } else if name == ".debug_str_offsets"@ {
        Some(DwarfSlot::StrOffsets)
    } else if name == ".debug_str_sup"@ {
        Some(DwarfSlot::StrSup)
    } else if name == ".debug_types"@ {
        Some(DwarfSlot::Types)
    } else if name == ".debug_loc"@ {
        Some(DwarfSlot::Loc)
    } else if name == ".debug_loclists"@ {
        Some(DwarfSlot::LocLists)
    } else if name == ".debug_ranges"@ {
        Some(DwarfSlot::Ranges)
    } else if name == ".debug_rnglists"@ {
        Some(DwarfSlot::RngLists)
    } else {
        None
    }
}

/// What the translation keeps of the debug sections: their bytes, and whether
/// there were some that it was not told to keep.
pub struct DebugView {
    pub sections: Map<DwarfSlot, Seq<u8>>,
    pub has_unparsed: bool,
}

/// What a custom section adds to the debug sections.
pub open spec fn with_dwarf_section(
    debug: DebugView,
    config: WasmTranslationConfig,
    name: Seq<char>,
    data: Seq<u8>,
) -> DebugView {
    if !begins_with(name, ".debug_"@) {
        debug
    } else if !config.generate_native_debuginfo && !config.parse_wasm_debuginfo {
        DebugView { has_unparsed: true, ..debug }
    } else {
        match slot_of(name) {
            Some(slot) => DebugView {
                sections: with_location_lists(with_range_lists(debug.sections.insert(slot, data))),
                ..debug
            },
            None => debug,
        }
    }
}

/// Whether the name is that of a debug section that is known, but not used.
pub open spec fn is_unused(name: Seq<char>) -> bool {
    name == ".debug_aranges"@ || name == ".debug_pubnames"@ || name == ".debug_pubtypes"@
}

/// Whether the section is a debug section that was to be kept, but of an
/// unknown name.
pub open spec fn is_unknown_section(config: WasmTranslationConfig, name: Seq<char>) -> bool {
    &&& begins_with(name, ".debug_"@)
    &&& config.generate_native_debuginfo || config.parse_wasm_debuginfo
    &&& slot_of(name) is None
    &&& !is_unused(name)
}

/// What there is to note of a custom section.
#[derive(Clone, Copy, Debug, PartialEq, Eq, Structural)]
pub enum DebugNote {
    Nothing,
    /// It is a debug section that was not to be kept.
    Unparsed,
    /// It is a debug section of an unknown name.
    Unknown,
}

/// `std::path::PathBuf`. Nothing is claimed of it.
#[verifier::external_type_specification]
#[verifier::external_body]
pub struct ExPathBuf(std::path::PathBuf);

/// The locals of a function and the parameters among them.
#[derive(Debug)]
pub struct FunctionMetadata {
    /// The types of the parameters.
    pub params: Vec<WasmType>,
    /// The types of the other locals, each with the number of locals that have it.
    pub locals: Vec<(u32, WasmType)>,
}

/// What a [`FunctionMetadata`] says.
pub struct FunctionMetadataView {
    pub params: Seq<WasmType>,
    pub locals: Seq<(u32, WasmType)>,
}

impl View for FunctionMetadata {
    type V = FunctionMetadataView;

    open spec fn view(&self) -> FunctionMetadataView {
        FunctionMetadataView { params: self.params@, locals: self.locals@ }
    }
}

/// The input, as debug information refers to it.
#[derive(Debug)]
pub struct WasmFileInfo {
    /// Where it was read from.
    pub path: Option<PathBuf>,
    /// Where in it the code section starts.
    pub code_section_offset: u64,
    /// The number of functions that it imports.
    pub imported_func_count: u32,
    /// The functions that it defines, if debug information is generated.
    pub funcs: Vec<FunctionMetadata>,
}

/// What a [`WasmFileInfo`] says.
pub struct WasmFileView {
    pub path: Option<PathBuf>,
    pub code_section_offset: u64,
    pub imported_func_count: u32,
    pub funcs: Seq<FunctionMetadataView>,
}

impl View for WasmFileInfo {
    type V = WasmFileView;

    open spec fn view(&self) -> WasmFileView {
        WasmFileView {
            path: self.path,
            code_section_offset: self.code_section_offset,
            imported_func_count: self.imported_func_count,
            funcs: views(self.funcs@),
        }
    }
}

impl WasmFileView {
    /// Nothing is known of the input.
    pub open spec fn empty() -> WasmFileView {
        WasmFileView {
            path: None,
            code_section_offset: 0,
            imported_func_count: 0,
            funcs: Seq::empty(),
        }
    }
}

/// The debug information of a module.
pub struct DebugInfoData<'a> {
    /// The debug sections.
    pub dwarf: DwarfData<'a>,
    /// The input.
    pub wasm_file: WasmFileInfo,
}

impl<'a> DebugInfoData<'a> {
    /// There is no debug information yet.
    pub fn new() -> (info: Self)
        ensures
            dwarf_sections(info.dwarf) == no_sections(),
            info.wasm_file@ == WasmFileView::empty(),
    {
        DebugInfoData { dwarf: DwarfData::new(), wasm_file: WasmFileInfo::default() }
    }

    /// Keeps the bytes of a debug section, if the section is used. Says what
    /// there is to note of it.
    pub fn register_dwarf_section(
        &mut self,
        config: &WasmTranslationConfig,
        name: &str,
        data: &'a [u8],
    ) -> (note: DebugNote)
        ensures
            final(self).wasm_file == old(self).wasm_file,
            ({
                let before = DebugView {
                    sections: dwarf_sections(old(self).dwarf),
                    has_unparsed: false,
                };
                let after = with_dwarf_section(before, *config, name@, data@);
                &&& dwarf_sections(final(self).dwarf) == after.sections
                &&& note is Unparsed <==> after.has_unparsed
            }),
            note is Unknown <==> is_unknown_section(*config, name@),
    {
        if !has_prefix(name, ".debug_") {
            return DebugNote::Nothing;
        }
        if !config.generate_native_debuginfo && !config.parse_wasm_debuginfo {
            return DebugNote::Unparsed;
        }
        let dwarf = &mut self.dwarf;
        if same_text(name, ".debug_abbrev") {
            dwarf.set_abbrev(data);
        } else if same_text(name, ".debug_addr") {
            dwarf.set_addr(data);
        } else if same_text(name, ".debug_info") {
            dwarf.set_info(data);
        } else if same_text(name, ".debug_line") {
            dwarf.set_line(data);
        } else if same_text(name, ".debug_line_str") {
            dwarf.set_line_str(data);
        } else if same_text(name, ".debug_str") {
            dwarf.set_str(data);
        } else if same_text(name, ".debug_str_offsets") {
            dwarf.set_str_offsets(data);
        } else if same_text(name, ".debug_str_sup") {
            dwarf.set_str_sup(data);
        } else if same_text(name, ".debug_types") {
            dwarf.set_types(data);
        } else if same_text(name, ".debug_loc") {
            dwarf.set_loc(data);
        } else if same_text(name, ".debug_loclists") {
            dwarf.set_loclists(data);
        } else if same_text(name, ".debug_ranges") {
            dwarf.set_ranges(data);
        } else if same_text(name, ".debug_rnglists") {
            dwarf.set_rnglists(data);
        } else if same_text(name, ".debug_aranges") || same_text(name, ".debug_pubnames")
            || same_text(name, ".debug_pubtypes") {
            return DebugNote::Nothing;
        } else {
            return DebugNote::Unknown;
        }
        dwarf.join_ranges();
        dwarf.join_locations();
        DebugNote::Nothing
    }
}

impl<'a> Default for DebugInfoData<'a> {
    fn default() -> (info: Self)
        ensures
            dwarf_sections(info.dwarf) == no_sections(),
            info.wasm_file@ == WasmFileView::empty(),
    {
        DebugInfoData::new()
    }
}

impl Default for WasmFileInfo {
    fn default() -> (info: Self)
        ensures
            info@ == WasmFileView::empty(),
    {
        let info = WasmFileInfo {
            path: None,
            code_section_offset: 0,
            imported_func_count: 0,
            funcs: Vec::new(),
        };
        assert(info@.funcs =~= Seq::<FunctionMetadataView>::empty());
        info
    }
}

/// Sections that are not debug sections leave everything as it is, whatever
/// the configuration.
pub proof fn other_sections_are_ignored(
    debug: DebugView,
    config: WasmTranslationConfig,
    name: Seq<char>,
    data: Seq<u8>,
)
    requires
        !begins_with(name, ".debug_"@),
    ensures
        with_dwarf_section(debug, config, name, data) == debug,
{
}

/// The lists of ranges and of locations hold the sections that they are made of.
pub open spec fn lists_are_current(sections: Map<DwarfSlot, Seq<u8>>) -> bool {
    &&& sections[DwarfSlot::RangesRanges] == sections[DwarfSlot::Ranges]
    &&& sections[DwarfSlot::RangesRngLists] == sections[DwarfSlot::RngLists]
    &&& sections[DwarfSlot::LocationsLoc] == sections[DwarfSlot::Loc]
    &&& sections[DwarfSlot::LocationsLocLists] == sections[DwarfSlot::LocLists]
}

/// The lists of ranges and of locations are current when there are no sections
/// yet, and stay so whatever sections come.
pub proof fn lists_stay_current(
    debug: DebugView,
    config: WasmTranslationConfig,
    name: Seq<char>,
    data: Seq<u8>,
)
    requires
        lists_are_current(debug.sections),
    ensures
        lists_are_current(with_dwarf_section(debug, config, name, data).sections),
        lists_are_current(no_sections()),
{
}

/// That a debug section was not kept is noted exactly when one comes and debug
/// information is neither generated nor kept, and the note stays.
pub proof fn skipped_debug_sections_are_noted(
    debug: DebugView,
    config: WasmTranslationConfig,
    name: Seq<char>,
    data: Seq<u8>,
)
    ensures
        with_dwarf_section(debug, config, name, data).has_unparsed <==> debug.has_unparsed || (
        begins_with(name, ".debug_"@) && !config.generate_native_debuginfo
            && !config.parse_wasm_debuginfo),
{
}

/// A section that is kept holds the bytes it came with, and no other section
/// changes.
pub proof fn a_kept_section_is_what_came(
    debug: DebugView,
    config: WasmTranslationConfig,
    name: Seq<char>,
    data: Seq<u8>,
    slot: DwarfSlot,
    other: Seq<char>,
    other_slot: DwarfSlot,
)
    requires
        config.generate_native_debuginfo || config.parse_wasm_debuginfo,
        begins_with(name, ".debug_"@),
        slot_of(name) == Some(slot),
        slot_of(other) == Some(other_slot),
        slot != other_slot,
    ensures
        with_dwarf_section(debug, config, name, data).sections[slot] == data,
        with_dwarf_section(debug, config, name, data).sections[other_slot]
            == debug.sections[other_slot],
{
}

} // verus!
