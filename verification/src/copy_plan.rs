use vstd::prelude::*;

verus! {

/// The terminal state of the copy step for one file.
#[derive(Clone, Copy, Debug, PartialEq, Eq, Structural)]
pub enum CopyOutcome {
    /// The destination already holds exactly the source bytes: nothing
    /// to do.
    AlreadyDone,
    /// The destination was absent: the source bytes are to be copied.
    Copied,
    /// The destination exists with different bytes: fatal, nothing may
    /// be overwritten.
    Conflict,
}

/// The destination is modeled as either absent or holding some bytes.
/// The outcome of one copy step over that state and the source bytes.
pub open spec fn spec_copy_outcome(dest: Option<Seq<u8>>, src: Seq<u8>) -> CopyOutcome {
    match dest {
        Option::None => CopyOutcome::Copied,
        Option::Some(b) => if b == src {
            CopyOutcome::AlreadyDone
        } else {
            CopyOutcome::Conflict
        },
    }
}

/// The destination state after one copy step: an absent destination
/// receives the source bytes; an existing destination is never written,
/// whether the step ends `AlreadyDone` or aborts in `Conflict`.
pub open spec fn spec_dest_after(dest: Option<Seq<u8>>, src: Seq<u8>) -> Option<Seq<u8>> {
    match dest {
        Option::None => Option::Some(src),
        Option::Some(b) => Option::Some(b),
    }
}

/// The decision of the copy executor, as a function of the two facts the
/// filesystem answers: does the target exist, and if so, is its content
/// byte-identical to the source.
pub open spec fn spec_plan_copy(dest_exists: bool, same_content: bool) -> CopyOutcome {
    if !dest_exists {
        CopyOutcome::Copied
    } else if same_content {
        CopyOutcome::AlreadyDone
    } else {
        CopyOutcome::Conflict
    }
}

/// Decide the copy step. The caller performs the byte copy exactly when
/// the outcome is `Copied`, logs and moves on at `AlreadyDone`, and
/// aborts the run at `Conflict`.
pub fn plan_copy(dest_exists: bool, same_content: bool) -> (r: CopyOutcome)
    ensures
        r == spec_plan_copy(dest_exists, same_content),
{
    if !dest_exists {
        CopyOutcome::Copied
    } else if same_content {
        CopyOutcome::AlreadyDone
    } else {
        CopyOutcome::Conflict
    }
}

/// The decision over the two filesystem answers agrees with the modeled
/// step over the destination state, whenever the answers are truthful.
pub proof fn lemma_plan_copy_models_step(
    dest: Option<Seq<u8>>,
    src: Seq<u8>,
    dest_exists: bool,
    same_content: bool,
)
    requires
        dest_exists == (dest is Some),
        dest matches Some(b) ==> same_content == (b == src),
    ensures
        spec_plan_copy(dest_exists, same_content) == spec_copy_outcome(dest, src),
{
}

/// Idempotence: once a file's copy step has ended without conflict, a
/// second run over the unchanged pair finds the destination equal to the
/// source, performs zero writes, and ends `AlreadyDone`.
pub proof fn lemma_rerun_is_already_done(dest: Option<Seq<u8>>, src: Seq<u8>)
    requires
        spec_copy_outcome(dest, src) != CopyOutcome::Conflict,
    ensures
        spec_dest_after(dest, src) == Option::Some(src),
        spec_copy_outcome(spec_dest_after(dest, src), src) == CopyOutcome::AlreadyDone,
        spec_dest_after(spec_dest_after(dest, src), src) == spec_dest_after(dest, src),
{
}

/// Conflict safety: a destination whose bytes differ from the source
/// makes the step end in `Conflict`, and the destination is unmodified.
pub proof fn lemma_conflict_keeps_destination(existing: Seq<u8>, src: Seq<u8>)
    requires
        existing != src,
    ensures
        spec_copy_outcome(Option::Some(existing), src) == CopyOutcome::Conflict,
        spec_dest_after(Option::Some(existing), src) == Option::Some(existing),
{
}

/// The destination tree is modeled as a map from paths to file bytes.
pub open spec fn fs_dest(fs: Map<Seq<char>, Seq<u8>>, target: Seq<char>) -> Option<Seq<u8>> {
    if fs.contains_key(target) {
        Option::Some(fs[target])
    } else {
        Option::None
    }
}

/// A whole run of the organizer over its planned files, each a target
/// path with the source bytes destined for it, processed in order. The
/// result is the destination tree afterwards, the number of copies
/// performed, and whether the run completed; a `Conflict` aborts it on
/// the spot, writing nothing.
pub open spec fn spec_run(
    fs: Map<Seq<char>, Seq<u8>>,
    files: Seq<(Seq<char>, Seq<u8>)>,
) -> (Map<Seq<char>, Seq<u8>>, nat, bool)
    decreases files.len(),
{
    if files.len() == 0 {
        (fs, 0, true)
    } else {
        let target = files[0].0;
        let src = files[0].1;
        if spec_copy_outcome(fs_dest(fs, target), src) == CopyOutcome::Conflict {
            (fs, 0, false)
        } else {
            let fs1 = if fs_dest(fs, target) is None {
                fs.insert(target, src)
            } else {
                fs
            };
            let rest = spec_run(fs1, files.drop_first());
            (
                rest.0,
                rest.1 + if spec_copy_outcome(fs_dest(fs, target), src) == CopyOutcome::Copied {
                    1nat
                } else {
                    0nat
                },
                rest.2,
            )
        }
    }
}

/// A run never touches a file that already exists: whatever the
/// outcome, every destination present before the run holds the same
/// bytes after it. In particular a conflicting destination is left
/// unmodified.
pub proof fn lemma_run_never_overwrites(
    fs: Map<Seq<char>, Seq<u8>>,
    files: Seq<(Seq<char>, Seq<u8>)>,
    k: Seq<char>,
)
    requires
        fs.contains_key(k),
    ensures
        spec_run(fs, files).0.contains_key(k),
        spec_run(fs, files).0[k] == fs[k],
    decreases files.len(),
{
    if files.len() > 0 {
        let target = files[0].0;
        let src = files[0].1;
        if spec_copy_outcome(fs_dest(fs, target), src) != CopyOutcome::Conflict {
            let fs1 = if fs_dest(fs, target) is None {
                fs.insert(target, src)
            } else {
                fs
            };
            lemma_run_never_overwrites(fs1, files.drop_first(), k);
        }
    }
}

/// Idempotence of the whole pipeline: after a run that completed
/// without conflict, a second run over the same planned files finds
/// every destination already holding its source bytes, performs zero
/// copies, ends every file `AlreadyDone`, and leaves the tree as it
/// was.
pub proof fn lemma_second_run_copies_nothing(
    fs: Map<Seq<char>, Seq<u8>>,
    files: Seq<(Seq<char>, Seq<u8>)>,
)
    requires
        spec_run(fs, files).2,
    ensures
        spec_run(spec_run(fs, files).0, files).0 == spec_run(fs, files).0,
        spec_run(spec_run(fs, files).0, files).1 == 0,
        spec_run(spec_run(fs, files).0, files).2,
    decreases files.len(),
{
    if files.len() > 0 {
        let target = files[0].0;
        let src = files[0].1;
        let fs1 = if fs_dest(fs, target) is None {
            fs.insert(target, src)
        } else {
            fs
        };
        assert(fs1.contains_key(target) && fs1[target] == src);
        let fs_final = spec_run(fs1, files.drop_first()).0;
        lemma_run_never_overwrites(fs1, files.drop_first(), target);
        assert(fs_dest(fs_final, target) == Option::Some(src));
        lemma_second_run_copies_nothing(fs1, files.drop_first());
    }
}

} // verus!
