use vstd::prelude::*;
use crate::file_name::{extension_of, split_file_name, stem_of};

verus! {

/// What qualifies a file for registration and how the query engine is to
/// list it.
#[derive(Clone, Debug)]
pub struct ListingSettings {
    pub file_extension: String,
    pub collect_stat: bool,
    pub target_partitions: usize,
}

/// One entry of the scanned directory, as listed.
#[derive(Clone, Debug)]
pub struct DirEntryInfo {
    pub file_name: String,
    pub is_file: bool,
}

/// A table to register: its name and its source path relative to the root.
#[derive(Clone, Debug, PartialEq, Eq)]
pub struct TableEntry {
    pub name: String,
    pub source_path: String,
}

impl View for TableEntry {
    type V = (Seq<char>, Seq<char>);

    open spec fn view(&self) -> (Seq<char>, Seq<char>) {
        (self.name@, self.source_path@)
    }
}

/// What to do with one directory entry.
#[derive(Debug, PartialEq, Eq)]
pub enum EntryDecision {
    Skip,
    Register(TableEntry),
}

/// Why the directory cannot be registered.
#[derive(Debug, PartialEq, Eq)]
pub enum RegisterError {
    /// A regular file whose name has no extension.
    MissingExtension(String),
}

/// Path of `file_name` inside directory `dir`, both relative to the root.
pub open spec fn relative_path(dir: Seq<char>, file_name: Seq<char>) -> Seq<char> {
    dir + seq!['/'] + file_name
}

/// A regular file whose extension is exactly `ext`.
pub open spec fn is_eligible(e: DirEntryInfo, ext: Seq<char>) -> bool {
    e.is_file && extension_of(e.file_name@) == Some(ext)
}

/// A regular file with no extension at all.
pub open spec fn lacks_extension(e: DirEntryInfo) -> bool {
    e.is_file && extension_of(e.file_name@) is None
}

/// The table that an eligible entry of `dir` becomes.
pub open spec fn table_for(dir: Seq<char>, e: DirEntryInfo) -> (Seq<char>, Seq<char>) {
    (stem_of(e.file_name@), relative_path(dir, e.file_name@))
}

/// The tables for the eligible ones among `entries`, in listing order.
pub open spec fn planned(dir: Seq<char>, entries: Seq<DirEntryInfo>, ext: Seq<char>) -> Seq<
    (Seq<char>, Seq<char>),
>
    decreases entries.len(),
{
    if entries.len() == 0 {
        Seq::empty()
    } else {
        let rest = planned(dir, entries.drop_last(), ext);
        if is_eligible(entries.last(), ext) {
            rest.push(table_for(dir, entries.last()))
        } else {
            rest
        }
    }
}

/// The planned tables as (name, source path) pairs.
pub open spec fn tables_view(tables: Seq<TableEntry>) -> Seq<(Seq<char>, Seq<char>)> {
    tables.map_values(|t: TableEntry| t@)
}

/// Decides what becomes of one entry of directory `dir`: registered under its
/// stem when it is a regular file with the configured extension, refused when
/// it is a regular file without an extension, skipped otherwise.
pub fn decide_entry(dir: &str, entry: &DirEntryInfo, settings: &ListingSettings) -> (r: Result<
    EntryDecision,
    RegisterError,
>)
    ensures
        r is Err <==> lacks_extension(*entry),
        match r {
            Ok(EntryDecision::Register(t)) => is_eligible(*entry, settings.file_extension@) && t@
                == table_for(dir@, *entry),
            Ok(EntryDecision::Skip) => !is_eligible(*entry, settings.file_extension@),
            Err(RegisterError::MissingExtension(n)) => n@ == entry.file_name@,
        },
{
    if !entry.is_file {
        return Ok(EntryDecision::Skip);
    }
    let (stem, ext) = split_file_name(entry.file_name.as_str());
    match ext {
        None => Err(RegisterError::MissingExtension(entry.file_name.clone())),
        Some(e) => {
            if e == settings.file_extension {
                let path = dir.to_owned().concat("/").concat(entry.file_name.as_str());
                proof {
                    reveal_strlit("/");
                    assert(path@ =~= relative_path(dir@, entry.file_name@));
                }
                Ok(EntryDecision::Register(TableEntry { name: stem, source_path: path }))
            } else {
                Ok(EntryDecision::Skip)
            }
        },
    }
}

/// Decides for every entry of directory `dir`, in listing order, which tables
/// to register; fails on the first regular file without an extension.
pub fn plan_registrations(
    dir: &str,
    entries: &Vec<DirEntryInfo>,
    settings: &ListingSettings,
) -> (r: Result<Vec<TableEntry>, RegisterError>)
    ensures
        r is Err <==> exists|i: int| 0 <= i < entries@.len() && lacks_extension(#[trigger] entries@[i]),
        match r {
            Ok(tables) => tables_view(tables@) == planned(dir@, entries@, settings.file_extension@),
            Err(RegisterError::MissingExtension(n)) => exists|i: int|
                0 <= i < entries@.len() && lacks_extension(#[trigger] entries@[i]) && n@
                    == entries@[i].file_name@ && forall|j: int|
                    0 <= j < i ==> !lacks_extension(#[trigger] entries@[j]),
        },
{
    let mut tables: Vec<TableEntry> = Vec::new();
    let mut i: usize = 0;
    while i < entries.len()
        invariant
            i <= entries@.len(),
            forall|j: int| 0 <= j < i ==> !lacks_extension(#[trigger] entries@[j]),
            tables_view(tables@) == planned(
                dir@,
                entries@.subrange(0, i as int),
                settings.file_extension@,
            ),
        decreases entries@.len() - i,
    {
        let ghost before = tables@;
        assert(entries@.subrange(0, i + 1).drop_last() =~= entries@.subrange(0, i as int));
        match decide_entry(dir, &entries[i], settings) {
            Err(e) => {
                return Err(e);
            },
            Ok(EntryDecision::Skip) => {},
            Ok(EntryDecision::Register(t)) => {
                tables.push(t);
                assert(tables_view(tables@) =~= tables_view(before).push(tables@.last()@));
            },
        }
        i = i + 1;
    }
    assert(entries@.subrange(0, i as int) =~= entries@);
    Ok(tables)
}

/// The line announcing that a table is registered from its file.
pub open spec fn notice_text(t: (Seq<char>, Seq<char>)) -> Seq<char> {
    "- register file "@ + t.1 + " as table `"@ + t.0 + "`"@
}

/// The line to show when `t` is registered.
pub fn registration_notice(t: &TableEntry) -> (r: String)
    ensures
        r@ == notice_text(t@),
{
    let r = "- register file ".to_owned().concat(t.source_path.as_str()).concat(
        " as table `",
    ).concat(t.name.as_str()).concat("`");
    r
}

/// The tables planned for a listing are exactly those of its eligible
/// entries: each eligible entry yields its table, and each planned table is
/// that of some eligible entry.
pub proof fn lemma_planned_exactly_eligible(
    dir: Seq<char>,
    entries: Seq<DirEntryInfo>,
    ext: Seq<char>,
)
    ensures
        forall|i: int|
            0 <= i < entries.len() && is_eligible(#[trigger] entries[i], ext) ==> planned(
                dir,
                entries,
                ext,
            ).contains(table_for(dir, entries[i])),
        forall|t: (Seq<char>, Seq<char>)| #[trigger]
            planned(dir, entries, ext).contains(t) ==> exists|i: int|
                0 <= i < entries.len() && is_eligible(#[trigger] entries[i], ext) && t
                    == table_for(dir, entries[i]),
    decreases entries.len(),
{
    if entries.len() > 0 {
        let rest = entries.drop_last();
        let last = entries.last();
        lemma_planned_exactly_eligible(dir, rest, ext);
        let p = planned(dir, entries, ext);
        let pr = planned(dir, rest, ext);
        assert forall|i: int|
            0 <= i < entries.len() && is_eligible(#[trigger] entries[i], ext) implies p.contains(
            table_for(dir, entries[i]),
        ) by {
            if i < entries.len() - 1 {
                assert(rest[i] == entries[i]);
                let k = choose|k: int| 0 <= k < pr.len() && pr[k] == table_for(dir, rest[i]);
                assert(p[k] == pr[k]);
            } else {
                assert(p[p.len() - 1] == table_for(dir, last));
            }
        }
        assert forall|t: (Seq<char>, Seq<char>)| #[trigger] p.contains(t) implies exists|i: int|
            0 <= i < entries.len() && is_eligible(#[trigger] entries[i], ext) && t == table_for(
                dir,
                entries[i],
            ) by {
            let k = choose|k: int| 0 <= k < p.len() && p[k] == t;
            if k < pr.len() {
                assert(pr[k] == t);
                assert(pr.contains(t));
                let j = choose|j: int|
                    0 <= j < rest.len() && is_eligible(#[trigger] rest[j], ext) && t == table_for(
                        dir,
                        rest[j],
                    );
                assert(entries[j] == rest[j]);
            } else {
                assert(is_eligible(entries[entries.len() - 1], ext));
            }
        }
    }
}

/// No planned table is read from an entry that is not eligible (a directory,
/// or a file with another extension or none), given that the listing names
/// each entry once.
pub proof fn lemma_ineligible_entry_not_registered(
    dir: Seq<char>,
    entries: Seq<DirEntryInfo>,
    ext: Seq<char>,
    k: int,
)
    requires
        0 <= k < entries.len(),
        !is_eligible(entries[k], ext),
        forall|i: int, j: int|
            0 <= i < entries.len() && 0 <= j < entries.len() && i != j ==> (#[trigger] entries[i]).file_name@
                != (#[trigger] entries[j]).file_name@,
    ensures
        forall|t: (Seq<char>, Seq<char>)| #[trigger]
            planned(dir, entries, ext).contains(t) ==> t.1 != relative_path(
                dir,
                entries[k].file_name@,
            ),
{
    lemma_planned_exactly_eligible(dir, entries, ext);
    assert forall|t: (Seq<char>, Seq<char>)| #[trigger]
        planned(dir, entries, ext).contains(t) implies t.1 != relative_path(
        dir,
        entries[k].file_name@,
    ) by {
        let i = choose|i: int|
            0 <= i < entries.len() && is_eligible(#[trigger] entries[i], ext) && t == table_for(
                dir,
                entries[i],
            );
        let a = entries[i].file_name@;
        let b = entries[k].file_name@;
        if relative_path(dir, a) == relative_path(dir, b) {
            let n: int = dir.len() as int + 1;
            assert(relative_path(dir, a).subrange(n, n + a.len() as int) =~= a);
            assert(relative_path(dir, b).subrange(n, n + b.len() as int) =~= b);
        }
    }
}

} // verus!
