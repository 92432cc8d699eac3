//! The guard that backs a project's lock file up before a destructive update
//! and puts the saved bytes back afterwards, exactly once.
use vstd::prelude::*;

verus! {

/// A change to the file system that the caller carries out.
#[derive(Debug)]
pub enum FileOp {
    /// Write `contents` to `path`, creating or replacing the file.
    Write { path: String, contents: Vec<u8> },
    /// Delete the file at `path`.
    Remove { path: String },
}

/// The mathematical value of a `FileOp`.
pub enum FileOpModel {
    Write(Seq<char>, Seq<u8>),
    Remove(Seq<char>),
}

impl View for FileOp {
    type V = FileOpModel;

    open spec fn view(&self) -> FileOpModel {
        match self {
            FileOp::Write { path, contents } => FileOpModel::Write(path@, contents@),
            FileOp::Remove { path } => FileOpModel::Remove(path@),
        }
    }
}

/// Files by path, with their bytes.
pub type Files = Map<Seq<char>, Seq<u8>>;

/// The files after one operation.
pub open spec fn apply_op(fs: Files, op: FileOpModel) -> Files {
    match op {
        FileOpModel::Write(p, c) => fs.insert(p, c),
        FileOpModel::Remove(p) => fs.remove(p),
    }
}

/// The files after a sequence of operations, carried out in order.
pub open spec fn apply_ops(fs: Files, ops: Seq<FileOpModel>) -> Files
    decreases ops.len(),
{
    if ops.len() == 0 {
        fs
    } else {
        apply_ops(apply_op(fs, ops[0]), ops.skip(1))
    }
}

/// The models of a sequence of operations.
pub open spec fn op_models(ops: Seq<FileOp>) -> Seq<FileOpModel> {
    ops.map_values(|o: FileOp| o@)
}

/// A path with its extension replaced by `ext`.
pub uninterp spec fn path_with_extension(p: Seq<char>, ext: Seq<char>) -> Seq<char>;

/// `ext` holds no path separator.
pub open spec fn no_separator(ext: Seq<char>) -> bool {
    forall|i: int| 0 <= i < ext.len() ==> ext[i] != '/' && ext[i] != '\\'
}

/// Relies on `std::path::Path::with_extension`: the path with its extension
/// replaced by `ext` (the path comes back unchanged where it has no file
/// name). It panics where `ext` holds a path separator, which `requires`
/// leaves out. Both parts are UTF-8, so the conversion back loses nothing.
#[verifier::external_body]
fn with_extension(p: &str, ext: &str) -> (r: String)
    requires
        no_separator(ext@),
    ensures
        r@ == path_with_extension(p@, ext@),
{
    std::path::Path::new(p).with_extension(ext).to_string_lossy().into_owned()
}

/// The path of the backup kept beside a lock file: the lock file's path with
/// its extension replaced by `.lock.back`.
pub open spec fn backup_path_of(lock: Seq<char>) -> Seq<char> {
    path_with_extension(lock, ".lock.back"@)
}

/// The state of a guard.
pub struct LockModel {
    pub lock_path: Seq<char>,
    pub backup_path: Seq<char>,
    pub contents: Seq<u8>,
    pub restored: bool,
}

/// A guard over a lock file: holds the bytes it had when the guard was
/// taken, and whether they were put back.
#[derive(Debug)]
pub struct LockGuard {
    lock_path: String,
    backup_path: String,
    contents: Vec<u8>,
    restored: bool,
}

impl View for LockGuard {
    type V = LockModel;

    closed spec fn view(&self) -> LockModel {
        LockModel {
            lock_path: self.lock_path@,
            backup_path: self.backup_path@,
            contents: self.contents@,
            restored: self.restored,
        }
    }
}

/// Why no guard can be taken.
#[derive(Debug)]
pub enum LockError {
    /// The lock file's path has no file name, so no backup path beside it.
    NoBackupPath { path: String },
}

/// What restoring does: write the captured bytes back over the lock file,
/// then delete the backup.
pub open spec fn restore_plan(g: LockModel) -> Seq<FileOpModel> {
    seq![FileOpModel::Write(g.lock_path, g.contents), FileOpModel::Remove(g.backup_path)]
}

/// A copy of a byte buffer.
fn copy_bytes(v: &Vec<u8>) -> (r: Vec<u8>)
    ensures
        r@ == v@,
{
    let r = v.clone();
    assert(r@ =~= v@);
    r
}

impl LockGuard {
    /// Takes a guard over the lock file at `lock_path`, whose bytes are
    /// `contents`. Returns the guard and the write that saves the backup.
    pub fn acquire(lock_path: String, contents: Vec<u8>) -> (r: Result<(LockGuard, FileOp), LockError>)
        ensures
            match r {
                Ok((g, op)) => {
                    &&& g@ == (LockModel {
                        lock_path: lock_path@,
                        backup_path: backup_path_of(lock_path@),
                        contents: contents@,
                        restored: false,
                    })
                    &&& g@.lock_path != g@.backup_path
                    &&& op@ == FileOpModel::Write(g@.backup_path, contents@)
                },
                Err(LockError::NoBackupPath { path }) => {
                    &&& path@ == lock_path@
                    &&& backup_path_of(lock_path@) == lock_path@
                },
            },
    {
        proof {
            reveal_strlit(".lock.back");
        }
        let backup = with_extension(lock_path.as_str(), ".lock.back");
        if backup == lock_path {
            return Err(LockError::NoBackupPath { path: lock_path });
        }
        let op = FileOp::Write { path: backup.clone(), contents: copy_bytes(&contents) };
        Ok((LockGuard { lock_path, backup_path: backup, contents, restored: false }, op))
    }

    /// Whether the lock file was put back.
    pub fn is_restored(&self) -> (r: bool)
        ensures
            r == self@.restored,
    {
        self.restored
    }

    /// The path of the guarded lock file.
    pub fn lock_path(&self) -> (r: &String)
        ensures
            r@ == self@.lock_path,
    {
        &self.lock_path
    }

    /// The bytes the lock file had when the guard was taken.
    pub fn contents(&self) -> (r: &Vec<u8>)
        ensures
            r@ == self@.contents,
    {
        &self.contents
    }

    /// Marks the guard restored and returns what restoring does: the first
    /// time, the writes of `restore_plan`; after that, nothing.
    pub fn restore(&mut self) -> (r: Vec<FileOp>)
        ensures
            final(self)@ == (LockModel { restored: true, ..old(self)@ }),
            op_models(r@) == (if old(self)@.restored {
                Seq::<FileOpModel>::empty()
            } else {
                restore_plan(old(self)@)
            }),
    {
        let mut r: Vec<FileOp> = Vec::new();
        if !self.restored {
            self.restored = true;
            r.push(FileOp::Write { path: self.lock_path.clone(), contents: copy_bytes(&self.contents) });
            r.push(FileOp::Remove { path: self.backup_path.clone() });
            assert(op_models(r@) =~= restore_plan(old(self)@));
        } else {
            assert(op_models(r@) =~= Seq::<FileOpModel>::empty());
        }
        r
    }
}

/// Whatever happened to the files while the guard was held, carrying out
/// what the first restore returns leaves the lock file with the bytes
/// captured when the guard was taken, and no backup file.
pub proof fn lemma_restore_puts_lock_back(g: LockModel, fs: Files)
    requires
        g.lock_path != g.backup_path,
    ensures
        apply_ops(fs, restore_plan(g)).contains_key(g.lock_path),
        apply_ops(fs, restore_plan(g))[g.lock_path] == g.contents,
        !apply_ops(fs, restore_plan(g)).contains_key(g.backup_path),
{
    let ops = restore_plan(g);
    let fs1 = apply_op(fs, ops[0]);
    let fs2 = apply_op(fs1, ops[1]);
    assert(ops.skip(1).skip(1) =~= Seq::<FileOpModel>::empty());
    assert(apply_ops(fs1, ops.skip(1)) == apply_ops(fs2, ops.skip(1).skip(1)));
}

/// Taking a guard saves the lock file's bytes in the backup and leaves the
/// lock file as it was.
pub proof fn lemma_acquire_saves_backup(g: LockModel, fs: Files)
    requires
        g.lock_path != g.backup_path,
        fs.contains_key(g.lock_path),
        fs[g.lock_path] == g.contents,
    ensures
        apply_op(fs, FileOpModel::Write(g.backup_path, g.contents))[g.backup_path] == g.contents,
        apply_op(fs, FileOpModel::Write(g.backup_path, g.contents))[g.lock_path] == g.contents,
{
}

} // verus!
