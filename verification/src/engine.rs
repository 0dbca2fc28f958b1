//! What the monitor decides about the Lua side: where the widget registry
//! lives, what each lookup and call made there means for the panel, and how
//! errors are reported.  The lookups and calls themselves run the user's Lua
//! code, which may never return, so the program makes them and hands their
//! outcomes to the functions here.
use vstd::prelude::*;
use crate::widgets::{RenderOutcome, WidgetInfo, assemble_widgets, rows_of, arranged_by_name, entry_rows};

verus! {

/// An error the Lua state reported, as its text.
#[derive(Debug)]
pub struct EngineError {
    pub message: String,
}

impl EngineError {
    /// The error's text.
    pub fn message(&self) -> (m: &str)
        ensures
            m@ == self.message@,
    {
        self.message.as_str()
    }
}

/// What running a configuration came to, as the engine reports it: success,
/// or the error's text.
pub fn config_outcome(outcome: Result<(), String>) -> (result: Result<(), EngineError>)
    ensures
        match outcome {
            Ok(()) => result is Ok,
            Err(text) => result matches Err(e) && e.message@ == text@,
        },
{
    match outcome {
        Ok(()) => Ok(()),
        Err(text) => Err(EngineError { message: text }),
    }
}

/// The key under which a widget's configuration holds its render function.
pub fn render_key() -> (key: &'static str)
    ensures
        key@ == "render"@,
{
    "render"
}

/// The path of keys from the global table to the widget registry:
/// `package.loaded.sysmon._widgets`.
pub open spec fn registry_path() -> Seq<Seq<char>> {
    seq!["package"@, "loaded"@, "sysmon"@, "_widgets"@]
}

/// The keys of [`registry_path`], in order.
pub fn registry_keys() -> (keys: Vec<&'static str>)
    ensures
        keys@.len() == 4,
        forall|i: int| 0 <= i < 4 ==> #[trigger] keys@[i]@ == registry_path()[i],
        keys@[0]@ == "package"@,
        keys@[1]@ == "loaded"@,
        keys@[2]@ == "sysmon"@,
        keys@[3]@ == "_widgets"@,
{
    let keys = vec!["package", "loaded", "sysmon", "_widgets"];
    assert(keys@[0]@ == "package"@ && keys@[1]@ == "loaded"@ && keys@[2]@ == "sysmon"@
        && keys@[3]@ == "_widgets"@);
    keys
}

/// The outcome of a widget's rendering, given what looking up its render
/// function under [`render_key`] came to: an error when its configuration
/// holds no function there (the error's text is not shown), else what
/// calling that function came to, the text and colour it returned or the
/// text of the error it raised.
pub fn render_outcome(lookup: Result<Result<(String, String), String>, String>) -> (outcome: RenderOutcome)
    ensures
        outcome == match lookup {
            Err(_) => RenderOutcome::Missing,
            Ok(Ok((text, color))) => RenderOutcome::Rendered { text, color },
            Ok(Err(message)) => RenderOutcome::Failed { message },
        },
{
    match lookup {
        Err(_) => RenderOutcome::Missing,
        Ok(Ok((text, color))) => RenderOutcome::Rendered { text, color },
        Ok(Err(message)) => RenderOutcome::Failed { message },
    }
}

/// What reading the widget registry out of the Lua state came to.
pub enum RegistryRead {
    /// `package.loaded.sysmon` is no table: the module was never loaded.
    NoModule,
    /// A table on the way to the registry could not be read; the error's text.
    Unreadable { message: String },
    /// The registry's entries in the order they were walked: each a widget's
    /// name with what its rendering came to, or, last, the text of the error
    /// that stopped the walk.
    Entries(Vec<Result<(String, RenderOutcome), String>>),
}

/// Every entry of the walk was read.
pub open spec fn all_read(entries: Seq<Result<(String, RenderOutcome), String>>) -> bool {
    forall|i: int| 0 <= i < entries.len() ==> #[trigger] entries[i] is Ok
}

/// The entry an item of the walk holds, when it holds one.
pub open spec fn read_entry(item: Result<(String, RenderOutcome), String>) -> (String, RenderOutcome) {
    match item {
        Ok(entry) => entry,
        Err(_) => vstd::pervasive::arbitrary(),
    }
}

/// The entries that the items of a walk hold.
pub open spec fn read_entries(entries: Seq<Result<(String, RenderOutcome), String>>) -> Seq<
    (String, RenderOutcome),
> {
    entries.map_values(|item: Result<(String, RenderOutcome), String>| read_entry(item))
}

/// The text of the error an item of the walk holds, when it holds one.
pub open spec fn read_error(item: Result<(String, RenderOutcome), String>) -> Seq<char> {
    match item {
        Ok(_) => Seq::empty(),
        Err(text) => text@,
    }
}

/// Item `i` of the walk is its first error.
pub open spec fn first_error_at(entries: Seq<Result<(String, RenderOutcome), String>>, i: int) -> bool {
    &&& 0 <= i < entries.len()
    &&& entries[i] is Err
    &&& forall|j: int| 0 <= j < i ==> #[trigger] entries[j] is Ok
}

/// An item of the walk holds the entry or the error text it was made of; a
/// walk's first error is an error that only read items come before, and a
/// walk has at most one.
pub proof fn lemma_walk_items(
    entries: Seq<Result<(String, RenderOutcome), String>>,
    entry: (String, RenderOutcome),
    text: String,
    i: int,
    j: int,
)
    ensures
        read_entry(Ok(entry)) == entry,
        read_error(Err(text)) == text@,
        first_error_at(entries, i) ==> entries[i] is Err && forall|m: int|
            0 <= m < i ==> #[trigger] entries[m] is Ok,
        first_error_at(entries, i) && first_error_at(entries, j) ==> i == j,
        all_read(entries) ==> !first_error_at(entries, i),
{
    if first_error_at(entries, i) && first_error_at(entries, j) && i != j {
        if i < j {
            assert(entries[i] is Ok);
        } else {
            assert(entries[j] is Ok);
        }
    }
}

/// The widget panel that a read of the registry gives: no rows when the
/// module was never loaded; the error when the registry could not be
/// reached or its walk stopped on an error, the first such; otherwise one
/// row for each entry, sorted by name.
pub fn panel_from_registry(read: RegistryRead) -> (result: Result<Vec<WidgetInfo>, EngineError>)
    ensures
        match read {
            RegistryRead::NoModule => result matches Ok(ws) && ws@.len() == 0,
            RegistryRead::Unreadable { message } => result matches Err(e) && e.message@ == message@,
            RegistryRead::Entries(items) => if all_read(items@) {
                result matches Ok(ws) && arranged_by_name(
                    rows_of(ws@),
                    entry_rows(read_entries(items@)),
                )
            } else {
                result matches Err(e) && exists|i: int|
                    first_error_at(items@, i) && e.message@ == read_error(items@[i])
            },
        },
{
    match read {
        RegistryRead::NoModule => Ok(Vec::new()),
        RegistryRead::Unreadable { message } => Err(EngineError { message }),
        RegistryRead::Entries(items) => {
            let ghost all = items@;
            let mut rest = items;
            let mut entries: Vec<(String, RenderOutcome)> = Vec::new();
            let ghost mut done: int = 0;
            assert(rest@ =~= all.subrange(0, all.len() as int));
            assert(entries@ =~= read_entries(all.take(0)));
            while rest.len() > 0
                invariant
                    read matches RegistryRead::Entries(v) && v@ == all,
                    0 <= done <= all.len(),
                    all.len() == done + rest@.len(),
                    rest@ == all.subrange(done, all.len() as int),
                    forall|j: int| 0 <= j < done ==> #[trigger] all[j] is Ok,
                    entries@ == read_entries(all.take(done)),
                decreases rest.len(),
            {
                let item = rest.remove(0);
                assert(item == all[done]);
                match item {
                    Err(text) => {
                        assert(first_error_at(all, done));
                        return Err(EngineError { message: text });
                    },
                    Ok(entry) => {
                        entries.push(entry);
                        proof {
                            assert(entries@ =~= read_entries(all.take(done + 1)));
                            assert(rest@ =~= all.subrange(done + 1, all.len() as int));
                            done = done + 1;
                        }
                    },
                }
            }
            assert(all.take(done) =~= all);
            Ok(assemble_widgets(entries))
        },
    }
}

/// The position in [`registry_path`] of the key of the `sysmon` module.
pub open spec fn module_key_index() -> int {
    2
}

/// What reading the registry came to, given where the lookup along
/// [`registry_keys`] failed, if it did (the position of the key and the
/// error's text), and otherwise the items of the registry's walk.  A failed
/// lookup of the `sysmon` module means the module was never loaded; any
/// other failed lookup means the registry could not be reached.
pub fn registry_read_of(
    failed: Option<(usize, String)>,
    walk: Vec<Result<(String, RenderOutcome), String>>,
) -> (read: RegistryRead)
    ensures
        match failed {
            None => read == RegistryRead::Entries(walk),
            Some((at, text)) => if at == module_key_index() {
                read is NoModule
            } else {
                read matches RegistryRead::Unreadable { message } && message@ == text@
            },
        },
        failed matches Some((at, _)) && at == 2 ==> read is NoModule,
        match failed {
            Some((at, text)) => at != 2 ==> (read matches RegistryRead::Unreadable { message }
                && message@ == text@),
            None => true,
        },
{
    match failed {
        None => RegistryRead::Entries(walk),
        Some((at, text)) => if at == 2 {
            RegistryRead::NoModule
        } else {
            RegistryRead::Unreadable { message: text }
        },
    }
}

} // verus!
