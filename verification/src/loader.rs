//! Finding a function that a module loaded into the game's process exports: the
//! loader walks the module's export table in the other process one read at a
//! time, and these are the addresses it reads and the decisions it takes.
use vstd::prelude::*;

verus! {

/// The magic number that opens a module's DOS header ("MZ").
pub const DOS_MAGIC: u16 = 0x5a4d;

/// The signature that opens a module's NT headers ("PE").
pub const NT_SIGNATURE: u32 = 0x4550;

/// The address of the item at relative address `rva` in the module loaded at
/// `base`.
pub fn module_address(base: u32, rva: u32) -> (address: u32)
    requires
        base + rva <= u32::MAX,
    ensures
        address == base + rva,
{
    base + rva
}

/// The address of the `index`-th four-byte entry of the export table at relative
/// address `table_rva` in the module loaded at `base`.
pub fn table_entry_address(base: u32, table_rva: u32, index: u32) -> (address: u32)
    requires
        base + table_rva + 4 * index <= u32::MAX,
    ensures
        address == base + table_rva + 4 * index,
{
    base + table_rva + 4 * index
}

/// The state of the search for an exported function among the module's export
/// names.
#[derive(Debug, Clone, Copy, PartialEq, Eq, Structural)]
pub enum ExportSearch {
    /// The name with this index is to be read and compared next.
    ReadName(u32),
    /// The function is the export with this index.
    Found(u32),
    /// No export has the function's name.
    NotFound,
}

/// The index of the first of `names`, from `i` on, that is `function_name`.
pub open spec fn first_export(names: Seq<Seq<char>>, function_name: Seq<char>, i: int) -> Option<int>
    decreases names.len() - i,
{
    if i < 0 || i >= names.len() {
        None
    } else if names[i] == function_name {
        Some(i)
    } else {
        first_export(names, function_name, i + 1)
    }
}

/// Where the search starts in a module with `number_of_names` export names.
pub open spec fn export_search_start_spec(number_of_names: u32) -> ExportSearch {
    if number_of_names > 0 {
        ExportSearch::ReadName(0)
    } else {
        ExportSearch::NotFound
    }
}

/// Starts the search in a module with `number_of_names` export names.
pub fn export_search_start(number_of_names: u32) -> (search: ExportSearch)
    ensures
        search == export_search_start_spec(number_of_names),
{
    if number_of_names > 0 {
        ExportSearch::ReadName(0)
    } else {
        ExportSearch::NotFound
    }
}

/// The search's next state once the name with index `i` of `number_of_names`
/// has been read as `name`: found if it is `function_name`, otherwise on to the
/// next name, if any.
pub open spec fn export_step(i: u32, number_of_names: u32, name: Seq<char>, function_name: Seq<char>) -> ExportSearch {
    if name == function_name {
        ExportSearch::Found(i)
    } else if i + 1 < number_of_names {
        ExportSearch::ReadName((i + 1) as u32)
    } else {
        ExportSearch::NotFound
    }
}

/// Steps the search once the name with index `i` has been read as `name`.
pub fn export_search_step(i: u32, number_of_names: u32, name: &String, function_name: &String) -> (search:
    ExportSearch)
    requires
        i < number_of_names,
    ensures
        search == export_step(i, number_of_names, name@, function_name@),
{
    if *name == *function_name {
        ExportSearch::Found(i)
    } else if i + 1 < number_of_names {
        ExportSearch::ReadName(i + 1)
    } else {
        ExportSearch::NotFound
    }
}

/// The search, from the name with index `i` on, over the export names `names`.
pub open spec fn search_from(names: Seq<Seq<char>>, function_name: Seq<char>, i: int) -> ExportSearch
    decreases names.len() - i,
{
    if i < 0 || i >= names.len() {
        ExportSearch::NotFound
    } else if names[i] == function_name {
        ExportSearch::Found(i as u32)
    } else {
        search_from(names, function_name, i + 1)
    }
}

/// Stepping the search with the name that it asked for carries on the search
/// over all the names: a step that asks for the next name leaves the outcome
/// to the rest of the names, and any other step is the outcome.
pub proof fn lemma_export_search_step(names: Seq<Seq<char>>, function_name: Seq<char>, i: u32)
    requires
        i < names.len() <= u32::MAX,
    ensures
        search_from(names, function_name, i as int) == match export_step(
            i,
            names.len() as u32,
            names[i as int],
            function_name,
        ) {
            ExportSearch::ReadName(j) => search_from(names, function_name, j as int),
            other => other,
        },
        export_search_start_spec(names.len() as u32) matches ExportSearch::ReadName(j) ==> j == 0,
        export_search_start_spec(names.len() as u32) is NotFound ==> search_from(names, function_name, 0)
            is NotFound,
{
    assert((names.len() as u32) as int == names.len());
    if names[i as int] != function_name {
        assert(search_from(names, function_name, i as int) == search_from(names, function_name, i + 1));
        if i + 1 >= names.len() {
            assert(search_from(names, function_name, i + 1) == ExportSearch::NotFound);
        }
    }
}

/// Reading the export names in order and stepping the search with each one ends
/// at the first export that has the function's name, or at `NotFound` if none
/// has it.
pub proof fn lemma_export_search_finds_first(names: Seq<Seq<char>>, function_name: Seq<char>, i: int)
    requires
        0 <= i,
        names.len() <= u32::MAX,
    ensures
        search_from(names, function_name, i) == match first_export(names, function_name, i) {
            Some(k) => ExportSearch::Found(k as u32),
            None => ExportSearch::NotFound,
        },
        first_export(names, function_name, i) matches Some(k) ==> i <= k < names.len() && names[k]
            == function_name && forall|j: int| i <= j < k ==> names[j] != function_name,
    decreases names.len() - i,
{
    if i < names.len() && names[i] != function_name {
        lemma_export_search_finds_first(names, function_name, i + 1);
    }
}

} // verus!
