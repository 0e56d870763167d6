use vstd::prelude::*;
use crate::text::{concat_str, copy_str, decimal, decimal_string};

verus! {

/// The size from which the log file is rotated, in bytes (10 MiB).
pub const MAX_LOG_FILE_SIZE: u64 = 10485760;

/// How many rotated log files are kept.
pub const MAX_LOG_FILES: u64 = 5;

/// The name of the current log file.
pub const LOG_FILE_NAME: &'static str = "discordinator.log";

/// The name of the `i`-th rotated log file: "discordinator.<i>.log".
pub open spec fn rotated_name(i: nat) -> Seq<char> {
    "discordinator."@ + decimal(i) + ".log"@
}

/// A change to the files of the log directory.
#[derive(Debug)]
pub enum LogFileOp {
    /// Delete a file, if it is there.
    Remove(String),
    /// Rename a file, if it is there.
    Rename { from: String, to: String },
}

/// The model of a change to the log directory: names as characters.
pub enum FileChange {
    Remove(Seq<char>),
    Rename(Seq<char>, Seq<char>),
}

/// The model of a change.
pub open spec fn op_view(op: LogFileOp) -> FileChange {
    match op {
        LogFileOp::Remove(n) => FileChange::Remove(n@),
        LogFileOp::Rename { from, to } => FileChange::Rename(from@, to@),
    }
}

/// Whether the current log file must be rotated: it exists and is not known to be smaller
/// than the limit (a size that cannot be read does not stop the rotation).
pub open spec fn needs_rotation(present: bool, size: Option<u64>) -> bool {
    present && !(size matches Some(n) && n < MAX_LOG_FILE_SIZE)
}

/// The rotation, step by step: the oldest kept file is deleted, every other rotated file moves
/// one place up, newest last, and the current file becomes the first rotated one.
pub open spec fn rotation_step(k: int) -> FileChange {
    if k == 0 {
        FileChange::Remove(rotated_name(MAX_LOG_FILES as nat))
    } else if k < MAX_LOG_FILES {
        FileChange::Rename(
            rotated_name((MAX_LOG_FILES - k) as nat),
            rotated_name((MAX_LOG_FILES - k + 1) as nat),
        )
    } else {
        FileChange::Rename(LOG_FILE_NAME@, rotated_name(1))
    }
}

fn rotated_file(i: u64) -> (r: String)
    ensures
        r@ == rotated_name(i as nat),
{
    let d = decimal_string(i);
    let head = concat_str("discordinator.", d.as_str());
    concat_str(head.as_str(), ".log")
}

/// The changes that rotate the log files before logging starts, given whether the current
/// log file exists and its size (if it could be read): none when no rotation is due.
pub fn rotation_plan(present: bool, size: Option<u64>) -> (ops: Vec<LogFileOp>)
    ensures
        !needs_rotation(present, size) ==> ops@.len() == 0,
        needs_rotation(present, size) ==> ops@.len() == MAX_LOG_FILES + 1,
        needs_rotation(present, size) ==> forall|k: int|
            0 <= k < ops@.len() ==> op_view(#[trigger] ops@[k]) == rotation_step(k),
{
    let mut ops: Vec<LogFileOp> = Vec::new();
    let big = match size {
        Some(n) => n >= MAX_LOG_FILE_SIZE,
        None => true,
    };
    if !present || !big {
        return ops;
    }
    ops.push(LogFileOp::Remove(rotated_file(MAX_LOG_FILES)));
    let mut i: u64 = MAX_LOG_FILES - 1;
    while i >= 1
        invariant
            0 <= i < MAX_LOG_FILES,
            ops@.len() == MAX_LOG_FILES - i,
            forall|k: int| 0 <= k < ops@.len() ==> op_view(#[trigger] ops@[k]) == rotation_step(k),
        decreases i,
    {
        ops.push(LogFileOp::Rename { from: rotated_file(i), to: rotated_file(i + 1) });
        i = i - 1;
    }
    ops.push(LogFileOp::Rename { from: copy_str(LOG_FILE_NAME), to: rotated_file(1) });
    ops
}

/// A log directory as the rotation sees it: each file name with its contents.
pub open spec fn apply_change(d: Map<Seq<char>, Seq<u8>>, c: FileChange) -> Map<Seq<char>, Seq<u8>> {
    match c {
        FileChange::Remove(n) => d.remove(n),
        FileChange::Rename(a, b) => if d.contains_key(a) {
            d.remove(a).insert(b, d[a])
        } else {
            d
        },
    }
}

/// A directory after a run of changes, in order.
pub open spec fn apply_changes(d: Map<Seq<char>, Seq<u8>>, cs: Seq<FileChange>) -> Map<
    Seq<char>,
    Seq<u8>,
>
    decreases cs.len(),
{
    if cs.len() == 0 {
        d
    } else {
        apply_change(apply_changes(d, cs.drop_last()), cs.last())
    }
}

proof fn lemma_rotated_names(i: nat, j: nat)
    requires
        1 <= i <= 5,
        1 <= j <= 5,
    ensures
        i != j ==> rotated_name(i) != rotated_name(j),
        rotated_name(i) != LOG_FILE_NAME@,
        rotated_name(i).len() == 19,
{
    reveal_strlit("discordinator.");
    reveal_strlit(".log");
    reveal_strlit("discordinator.log");
    assert(decimal(i) == seq![crate::text::digit_char(i)]);
    assert(decimal(j) == seq![crate::text::digit_char(j)]);
    assert(rotated_name(i)[14] == crate::text::digit_char(i));
    assert(rotated_name(j)[14] == crate::text::digit_char(j));
    assert(LOG_FILE_NAME@.len() == 17);
}

proof fn lemma_apply_prefix(d: Map<Seq<char>, Seq<u8>>, cs: Seq<FileChange>, k: int)
    requires
        0 <= k < cs.len(),
    ensures
        apply_changes(d, cs.take(k + 1)) == apply_change(apply_changes(d, cs.take(k)), cs[k]),
{
    assert(cs.take(k + 1).drop_last() =~= cs.take(k));
    assert(cs.take(k + 1).last() == cs[k]);
}

/// Rotating the logs shifts them by one: the current log becomes the first rotated one, each
/// rotated log moves one place up, the oldest kept one is dropped, and other files stay.
pub proof fn law_rotation_shifts_logs(d: Map<Seq<char>, Seq<u8>>, cs: Seq<FileChange>)
    requires
        cs.len() == MAX_LOG_FILES + 1,
        forall|k: int| 0 <= k < cs.len() ==> #[trigger] cs[k] == rotation_step(k),
    ensures
        ({
            let r = apply_changes(d, cs);
            &&& !r.contains_key(LOG_FILE_NAME@)
            &&& r.contains_key(rotated_name(1)) == d.contains_key(LOG_FILE_NAME@)
            &&& d.contains_key(LOG_FILE_NAME@) ==> r[rotated_name(1)] == d[LOG_FILE_NAME@]
            &&& forall|i: nat|
                1 <= i < MAX_LOG_FILES ==> r.contains_key(#[trigger] rotated_name(i + 1))
                    == d.contains_key(rotated_name(i)) && (d.contains_key(rotated_name(i))
                    ==> r[rotated_name(i + 1)] == d[rotated_name(i)])
            &&& forall|n: Seq<char>|
                n != LOG_FILE_NAME@ && (forall|i: nat| 1 <= i <= MAX_LOG_FILES ==> n
                    != #[trigger] rotated_name(i)) ==> r.contains_key(n) == d.contains_key(n)
                    && (d.contains_key(n) ==> r[n] == d[n])
        }),
{
    let n1 = rotated_name(1);
    let n2 = rotated_name(2);
    let n3 = rotated_name(3);
    let n4 = rotated_name(4);
    let n5 = rotated_name(5);
    let cur = LOG_FILE_NAME@;
    lemma_rotated_names(1, 2);
    lemma_rotated_names(1, 3);
    lemma_rotated_names(1, 4);
    lemma_rotated_names(1, 5);
    lemma_rotated_names(2, 3);
    lemma_rotated_names(2, 4);
    lemma_rotated_names(2, 5);
    lemma_rotated_names(3, 4);
    lemma_rotated_names(3, 5);
    lemma_rotated_names(4, 5);
    lemma_rotated_names(5, 1);
    assert(cs[0] == FileChange::Remove(n5));
    assert(cs[1] == FileChange::Rename(n4, n5));
    assert(cs[2] == FileChange::Rename(n3, n4));
    assert(cs[3] == FileChange::Rename(n2, n3));
    assert(cs[4] == FileChange::Rename(n1, n2));
    assert(cs[5] == FileChange::Rename(cur, n1));
    let d0 = d.remove(n5);
    let d1 = apply_change(d0, cs[1]);
    let d2 = apply_change(d1, cs[2]);
    let d3 = apply_change(d2, cs[3]);
    let d4 = apply_change(d3, cs[4]);
    let r = apply_change(d4, cs[5]);
    assert(apply_changes(d, cs.take(0)) == d) by {
        assert(cs.take(0).len() == 0);
    }
    lemma_apply_prefix(d, cs, 0);
    lemma_apply_prefix(d, cs, 1);
    lemma_apply_prefix(d, cs, 2);
    lemma_apply_prefix(d, cs, 3);
    lemma_apply_prefix(d, cs, 4);
    lemma_apply_prefix(d, cs, 5);
    assert(cs.take(6) =~= cs);
    assert(apply_changes(d, cs) == r);
    assert forall|i: nat|
        1 <= i < MAX_LOG_FILES implies r.contains_key(#[trigger] rotated_name(i + 1))
        == d.contains_key(rotated_name(i)) && (d.contains_key(rotated_name(i))
        ==> r[rotated_name(i + 1)] == d[rotated_name(i)]) by {
        assert(i == 1 || i == 2 || i == 3 || i == 4);
    }
    assert forall|n: Seq<char>|
        n != cur && (forall|i: nat| 1 <= i <= MAX_LOG_FILES ==> n != #[trigger] rotated_name(i))
            implies r.contains_key(n) == d.contains_key(n) && (d.contains_key(n) ==> r[n] == d[n]) by {
        assert(n != rotated_name(1));
        assert(n != rotated_name(2));
        assert(n != rotated_name(3));
        assert(n != rotated_name(4));
        assert(n != rotated_name(5));
    }
}

} // verus!
