//! From the listing of a migration directory to a set of migrations. Each
//! entry of the directory is one step: its name begins with the step's
//! number and a `-`, and it holds the forward script and, where the step can
//! be reverted, the reverse script.

use vstd::prelude::*;
use vstd::set_lib::{lemma_int_range, lemma_subset_equality, set_int_range};
use crate::engine::Migrations;
use crate::error::{FileLoadError, MigrationError};
use crate::step::{MView, M};
use crate::text::{
    chars_of, ends_with, ends_with_spec, find, first_at, lemma_first_at_is_unique, occurs,
    parse_usize, parse_usize_spec,
};

verus! {

/// One entry of a migration directory, read.
#[derive(Debug, Clone)]
pub struct MigrationFile {
    /// The number of the step, counted from 1.
    pub id: usize,
    /// The name of the entry.
    pub name: String,
    /// The forward script.
    pub up: String,
    /// The reverse script, where the entry holds one.
    pub down: Option<String>,
}

/// What the name of an entry says of the step's number.
pub enum IdReading {
    /// The name holds no `-`.
    Missing,
    /// What stands before the first `-` is no number that fits a `usize`.
    Invalid,
    /// The number is 0.
    Zero,
    /// The number.
    Id(usize),
}

/// Reads the number of a step from the name of its entry: the decimal number
/// that stands before the first `-`.
pub open spec fn read_id(name: Seq<char>) -> IdReading {
    if !occurs(name, '-') {
        IdReading::Missing
    } else {
        let at = choose|at: int| first_at(name, '-', at);
        match parse_usize_spec(name.take(at)) {
            None => IdReading::Invalid,
            Some(id) => if id == 0 {
                IdReading::Zero
            } else {
                IdReading::Id(id)
            },
        }
    }
}

/// The error that stands for a name from which no number can be had.
pub open spec fn id_error(name: Seq<char>, e: MigrationError) -> bool {
    match read_id(name) {
        IdReading::Missing => e matches MigrationError::FileLoad(
            FileLoadError::MissingId { file_name },
        ) && file_name@ == name,
        IdReading::Invalid => e matches MigrationError::FileLoad(
            FileLoadError::InvalidId { file_name },
        ) && file_name@ == name,
        IdReading::Zero => e matches MigrationError::FileLoad(FileLoadError::ZeroId { file_name })
            && file_name@ == name,
        IdReading::Id(_) => false,
    }
}

/// The number of the step that the entry named `file_name` holds.
pub fn get_id(file_name: &str) -> (r: Result<usize, MigrationError>)
    ensures
        r matches Ok(id) ==> read_id(file_name@) == IdReading::Id(id),
        r matches Err(e) ==> id_error(file_name@, e),
{
    let chars = chars_of(file_name);
    let at = find(&chars, '-');
    if at == chars.len() {
        return Err(
            MigrationError::FileLoad(FileLoadError::MissingId { file_name: file_name.to_owned() }),
        );
    }
    proof {
        assert(occurs(chars@, '-'));
        let chosen = choose|at: int| first_at(chars@, '-', at);
        lemma_first_at_is_unique(chars@, '-', chosen, at as int);
    }
    match parse_usize(&chars, at) {
        None => Err(
            MigrationError::FileLoad(FileLoadError::InvalidId { file_name: file_name.to_owned() }),
        ),
        Some(id) => {
            if id == 0 {
                Err(
                    MigrationError::FileLoad(
                        FileLoadError::ZeroId { file_name: file_name.to_owned() },
                    ),
                )
            } else {
                Ok(id)
            }
        },
    }
}

/// What a file inside an entry holds, going by the file's name.
#[derive(Debug, PartialEq, Eq, Clone, Copy, Structural)]
pub enum ScriptKind {
    /// The forward script: the name ends in `up.sql`.
    Up,
    /// The reverse script: the name ends in `down.sql`, and not in `up.sql`.
    Down,
    /// Neither.
    Other,
}

/// What the file named `file_name` holds.
pub fn script_kind(file_name: &str) -> (kind: ScriptKind)
    ensures
        kind == (if ends_with_spec(file_name@, "up.sql"@) {
            ScriptKind::Up
        } else if ends_with_spec(file_name@, "down.sql"@) {
            ScriptKind::Down
        } else {
            ScriptKind::Other
        }),
{
    let chars = chars_of(file_name);
    if ends_with(&chars, &chars_of("up.sql")) {
        ScriptKind::Up
    } else if ends_with(&chars, &chars_of("down.sql")) {
        ScriptKind::Down
    } else {
        ScriptKind::Other
    }
}

impl MigrationFile {
    /// The entry named `name` that holds the scripts `up` and `down`. Its
    /// number is read from its name.
    pub fn new(name: String, up: String, down: Option<String>) -> (r: Result<
        MigrationFile,
        MigrationError,
    >)
        ensures
            r matches Ok(file) ==> read_id(name@) == IdReading::Id(file.id) && file.name == name
                && file.up == up && file.down == down,
            r matches Err(e) ==> id_error(name@, e),
    {
        let id = get_id(name.as_str())?;
        Ok(MigrationFile { id, name, up, down })
    }

    /// The step that an entry holds: its scripts, named as the entry is. An
    /// entry without a reverse script makes a step without one: a step that
    /// cannot be reverted.
    pub open spec fn step(&self) -> MView {
        MView {
            up: self.up@,
            up_hook: None,
            down: match self.down {
                Some(sql) => Some(sql@),
                None => None,
            },
            down_hook: None,
            foreign_key_check: false,
            comment: Some(self.name@),
        }
    }
}

impl<'a> From<&'a MigrationFile> for M {
    fn from(value: &'a MigrationFile) -> (m: M)
        ensures
            m@ == value.step(),
    {
        let m = M::up(value.up.clone()).comment(value.name.clone());
        match &value.down {
            Some(sql) => m.down(sql.clone()),
            None => m,
        }
    }
}

impl<'a> vstd::std_specs::convert::FromSpecImpl<&'a MigrationFile> for M {
    open spec fn obeys_from_spec() -> bool {
        false
    }

    open spec fn from_spec(v: &'a MigrationFile) -> M {
        arbitrary()
    }
}

/// Whether the entry at `k` cannot be placed: its number is 0, or larger
/// than the number of entries, or that of an entry before it.
pub open spec fn bad_entry(files: Seq<MigrationFile>, k: int) -> bool {
    ||| files[k].id == 0
    ||| files[k].id > files.len()
    ||| exists|j: int| 0 <= j < k && (#[trigger] files[j]).id == files[k].id
}

/// Whether the entry at `k` is the first that cannot be placed.
pub open spec fn first_bad_entry(files: Seq<MigrationFile>, k: int) -> bool {
    &&& 0 <= k < files.len()
    &&& bad_entry(files, k)
    &&& forall|j: int| 0 <= j < k ==> !bad_entry(files, j)
}

/// The error that stands for an entry that cannot be placed.
pub open spec fn entry_error(files: Seq<MigrationFile>, k: int, e: MigrationError) -> bool {
    if files[k].id == 0 {
        e matches MigrationError::FileLoad(FileLoadError::ZeroId { file_name }) && file_name@
            == files[k].name@
    } else if files[k].id > files.len() {
        e == MigrationError::FileLoad(FileLoadError::NotConsecutive)
    } else {
        e == MigrationError::FileLoad(FileLoadError::Duplicate { id: files[k].id })
    }
}

/// Whether `slots` holds the step of every entry at the place of its number,
/// and nothing else.
pub open spec fn placed(files: Seq<MigrationFile>, slots: Seq<Option<M>>) -> bool {
    &&& slots.len() == files.len()
    &&& forall|i: int| 0 <= i < slots.len() ==> (#[trigger] slots[i]) is Some
    &&& forall|k: int|
        0 <= k < files.len() ==> 1 <= (#[trigger] files[k]).id <= files.len() && (slots[files[k].id
            - 1] matches Some(m) && m@ == files[k].step())
}

/// As many places as a directory has entries, each of them empty.
pub fn empty_slots(n: usize) -> (slots: Vec<Option<M>>)
    ensures
        slots@.len() == n,
        forall|i: int| 0 <= i < n ==> (#[trigger] slots@[i]) is None,
{
    let mut slots: Vec<Option<M>> = Vec::new();
    while slots.len() < n
        invariant
            slots.len() <= n,
            forall|i: int| 0 <= i < slots.len() ==> (#[trigger] slots@[i]) is None,
        decreases n - slots.len(),
    {
        slots.push(None);
    }
    slots
}

/// Whether the step of `file` can be put at the place of its number: the
/// number is one of the places, and the place is empty.
pub open spec fn can_place(slots: Seq<Option<M>>, file: MigrationFile) -> bool {
    1 <= file.id <= slots.len() && slots[file.id - 1] is None
}

/// The error that stands for an entry that cannot be placed: its number is
/// 0, or beyond the places, or its place is taken.
pub open spec fn place_error(
    slots: Seq<Option<M>>,
    file: MigrationFile,
    e: MigrationError,
) -> bool {
    if file.id == 0 {
        e matches MigrationError::FileLoad(FileLoadError::ZeroId { file_name }) && file_name@
            == file.name@
    } else if file.id > slots.len() {
        e == MigrationError::FileLoad(FileLoadError::NotConsecutive)
    } else {
        e == MigrationError::FileLoad(FileLoadError::Duplicate { id: file.id })
    }
}

/// Puts the step of `file` at the place of its number, and leaves every
/// other place as it is. Where it cannot be put there, nothing changes.
pub fn place(slots: &mut Vec<Option<M>>, file: &MigrationFile) -> (r: Result<(), MigrationError>)
    ensures
        r is Ok <==> can_place(old(slots)@, *file),
        r is Ok ==> {
            &&& final(slots)@.len() == old(slots)@.len()
            &&& final(slots)@[file.id - 1] matches Some(m) && m@ == file.step()
            &&& forall|i: int|
                0 <= i < old(slots)@.len() && i != file.id - 1 ==> final(slots)@[i] == old(
                    slots,
                )@[i]
        },
        r matches Err(e) ==> final(slots)@ == old(slots)@ && place_error(old(slots)@, *file, e),
{
    if file.id == 0 {
        return Err(
            MigrationError::FileLoad(FileLoadError::ZeroId { file_name: file.name.clone() }),
        );
    }
    let id: usize = file.id - 1;
    if slots.len() <= id {
        return Err(MigrationError::FileLoad(FileLoadError::NotConsecutive));
    }
    if slots[id].is_some() {
        return Err(MigrationError::FileLoad(FileLoadError::Duplicate { id: file.id }));
    }
    slots.set(id, Some(M::from(file)));
    Ok(())
}

/// Whether every place is empty.
pub open spec fn all_empty(slots: Seq<Option<M>>) -> bool {
    forall|i: int| 0 <= i < slots.len() ==> (#[trigger] slots[i]) is None
}

/// Whether every place is taken.
pub open spec fn all_taken(slots: Seq<Option<M>>) -> bool {
    forall|i: int| 0 <= i < slots.len() ==> (#[trigger] slots[i]) is Some
}

/// Whether the places make a set of migrations: there is a place, and every
/// place is taken. Where every place is empty, there are no migrations.
/// Where some are, a number is missing.
pub fn check_slots(slots: &Vec<Option<M>>) -> (r: Result<(), MigrationError>)
    ensures
        r is Ok <==> slots@.len() > 0 && all_taken(slots@),
        all_empty(slots@) ==> r == Err::<(), MigrationError>(
            MigrationError::FileLoad(FileLoadError::NoMigrationFiles),
        ),
        !all_empty(slots@) && !all_taken(slots@) ==> r == Err::<(), MigrationError>(
            MigrationError::FileLoad(FileLoadError::NotConsecutive),
        ),
{
    let mut some_taken = false;
    let mut some_empty = false;
    let mut i: usize = 0;
    while i < slots.len()
        invariant
            i <= slots.len(),
            some_taken <==> exists|j: int| 0 <= j < i && (#[trigger] slots@[j]) is Some,
            some_empty <==> exists|j: int| 0 <= j < i && (#[trigger] slots@[j]) is None,
        decreases slots.len() - i,
    {
        if slots[i].is_some() {
            some_taken = true;
        } else {
            some_empty = true;
        }
        proof {
            assert(slots@[i as int] is Some || slots@[i as int] is None);
        }
        i = i + 1;
    }
    proof {
        if slots@.len() > 0 && all_taken(slots@) {
            assert(slots@[0] is Some);
        }
        if !some_empty {
            assert forall|j: int| 0 <= j < slots@.len() implies (#[trigger] slots@[j]) is Some by {
                assert(!(slots@[j] is None));
            }
        }
        if !some_taken {
            assert forall|j: int| 0 <= j < slots@.len() implies (#[trigger] slots@[j]) is None by {
                assert(!(slots@[j] is Some));
            }
        }
    }
    if !some_taken {
        Err(MigrationError::FileLoad(FileLoadError::NoMigrationFiles))
    } else if some_empty {
        Err(MigrationError::FileLoad(FileLoadError::NotConsecutive))
    } else {
        Ok(())
    }
}

/// Puts the entries of a directory in the order of their numbers. `files`
/// holds the entries in the order of their names.
///
/// With `n` entries the numbers must be 1 to `n`, each once. The first entry
/// that breaks this decides the error.
pub fn from_directory(files: Vec<MigrationFile>) -> (r: Result<Vec<Option<M>>, MigrationError>)
    ensures
        files@.len() == 0 ==> r == Err::<Vec<Option<M>>, MigrationError>(
            MigrationError::FileLoad(FileLoadError::NoMigrationFiles),
        ),
        forall|k: int|
            first_bad_entry(files@, k) ==> (r matches Err(e) && entry_error(files@, k, e)),
        files@.len() > 0 && (forall|k: int| 0 <= k < files@.len() ==> !bad_entry(files@, k))
            ==> r is Ok,
        r matches Ok(slots) ==> placed(files@, slots@),
{
    let n = files.len();
    let mut migrations = empty_slots(n);
    let ghost mut taken: Set<int> = Set::empty();
    let ghost mut owner: Map<int, int> = Map::empty();
    let mut k: usize = 0;
    while k < n
        invariant
            n == files@.len(),
            migrations@.len() == n,
            k <= n,
            forall|j: int| 0 <= j < k ==> !bad_entry(files@, j),
            taken.finite(),
            taken.len() == k,
            forall|i: int| taken.contains(i) ==> 0 <= i < n,
            forall|i: int|
                0 <= i < n ==> ((#[trigger] migrations@[i]) is Some <==> taken.contains(i)),
            forall|i: int|
                taken.contains(i) ==> owner.dom().contains(i) && 0 <= (#[trigger] owner[i]) < k
                    && files@[owner[i]].id == i + 1,
            forall|j: int|
                0 <= j < k ==> 1 <= (#[trigger] files@[j]).id <= n && taken.contains(
                    files@[j].id - 1,
                ) && (migrations@[files@[j].id - 1] matches Some(m) && m@ == files@[j].step()),
        decreases n - k,
    {
        let file = &files[k];
        let ghost before = migrations@;
        let ghost id = file.id - 1;
        proof {
            if 1 <= file.id <= n {
                if before[id] is Some {
                    assert(taken.contains(id));
                    assert(files@[owner[id]].id == files@[k as int].id);
                } else {
                    assert(!taken.contains(id));
                    if exists|j: int| 0 <= j < k && (#[trigger] files@[j]).id == files@[k as int].id {
                        let j = choose|j: int|
                            0 <= j < k && (#[trigger] files@[j]).id == files@[k as int].id;
                        assert(taken.contains(files@[j].id - 1));
                    }
                }
            }
            assert(bad_entry(files@, k as int) <==> !can_place(before, *file));
        }
        if let Err(e) = place(&mut migrations, file) {
            assert(first_bad_entry(files@, k as int));
            return Err(e);
        }
        proof {
            taken = taken.insert(id);
            owner = owner.insert(id, k as int);
            assert forall|j: int| 0 <= j < k + 1 implies 1 <= (#[trigger] files@[j]).id <= n
                && taken.contains(files@[j].id - 1) && (migrations@[files@[j].id - 1] matches Some(
                m,
            ) && m@ == files@[j].step()) by {
                if j < k {
                    assert(files@[j].id - 1 != id);
                    assert(migrations@[files@[j].id - 1] == before[files@[j].id - 1]);
                }
            }
            assert forall|i: int| 0 <= i < n implies ((#[trigger] migrations@[i]) is Some
                <==> taken.contains(i)) by {
                if i != id {
                    assert(migrations@[i] == before[i]);
                }
            }
        }
        k = k + 1;
    }
    proof {
        lemma_int_range(0, n as int);
        assert(taken.subset_of(set_int_range(0, n as int)));
        lemma_subset_equality(taken, set_int_range(0, n as int));
        assert forall|i: int| 0 <= i < n implies (#[trigger] migrations@[i]) is Some by {
            assert(set_int_range(0, n as int).contains(i));
        }
    }
    match check_slots(&migrations) {
        Ok(()) => Ok(migrations),
        Err(e) => Err(e),
    }
}

impl Migrations {
    /// The set of migrations that stands in `slots`, place by place. There
    /// must be a place, and every place must be taken: see [`check_slots`].
    pub fn from_slots(slots: Vec<Option<M>>) -> (r: Result<Migrations, MigrationError>)
        ensures
            r is Ok <==> slots@.len() > 0 && all_taken(slots@),
            all_empty(slots@) ==> (r matches Err(e) && e == MigrationError::FileLoad(
                FileLoadError::NoMigrationFiles,
            )),
            !all_empty(slots@) && !all_taken(slots@) ==> (r matches Err(e) && e
                == MigrationError::FileLoad(FileLoadError::NotConsecutive)),
            r matches Ok(migrations) ==> migrations@.len() == slots@.len() && forall|i: int|
                0 <= i < slots@.len() ==> (#[trigger] slots@[i] matches Some(m) && m@
                    == migrations@[i]),
    {
        if let Err(e) = check_slots(&slots) {
            return Err(e);
        }
        let ghost taken_slots = slots@;
        let mut ms: Vec<M> = Vec::new();
        for slot in it: slots
            invariant
                it.seq() == taken_slots,
                ms@.len() == it.index(),
                all_taken(taken_slots),
                forall|i: int| 0 <= i < ms@.len() ==> Some(#[trigger] ms@[i]) == taken_slots[i],
        {
            ms.push(slot.unwrap());
        }
        Ok(Migrations::new(ms))
    }

    /// The set of migrations that a directory holds. `files` holds the
    /// entries of the directory in the order of their names.
    pub fn from_directory(files: Vec<MigrationFile>) -> (r: Result<Migrations, MigrationError>)
        ensures
            files@.len() == 0 ==> (r matches Err(e) && e == MigrationError::FileLoad(
                FileLoadError::NoMigrationFiles,
            )),
            forall|k: int|
                first_bad_entry(files@, k) ==> (r matches Err(e) && entry_error(files@, k, e)),
            files@.len() > 0 && (forall|k: int| 0 <= k < files@.len() ==> !bad_entry(files@, k))
                ==> r is Ok,
            r matches Ok(migrations) ==> migrations@.len() == files@.len() && forall|k: int|
                0 <= k < files@.len() ==> 1 <= (#[trigger] files@[k]).id <= files@.len()
                    && migrations@[files@[k].id - 1] == files@[k].step(),
    {
        match self::from_directory(files) {
            Ok(slots) => Migrations::from_slots(slots),
            Err(e) => Err(e),
        }
    }
}

} // verus!
