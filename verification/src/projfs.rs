//! The projected filesystem: what each filesystem operation has to do.
//!
//! Nothing here touches a file. Each function takes what the caller has
//! learnt from the operating system so far and says what the answer is, or
//! what has to be done next: which file to look at, or which transformation
//! to run.

use vstd::prelude::*;
use crate::config::ProjectionSpecification;
use crate::libc_bridge::{
    entry_type_of,
    file_type_of,
    merge_attr,
    merged,
    ttl,
    type_of_entry,
    type_of_mode,
    FileAttr,
    FileType,
    Stat,
    Timespec,
    EINVAL,
    EIO,
    EROFS,
};
use crate::manager::{
    answer,
    classified,
    AccessType,
    Materialization,
    ProjectionError,
    ProjectionManager,
    Projections,
    Step,
};
use crate::media::guessed_mime;
use crate::path::{
    absolute,
    base_name,
    file_name,
    is_absolute,
    join,
    joined,
    lemma_resolved_entry_name,
    lemma_resolved_keeps_name,
    parent,
    parent_dir,
    real_path,
    resolved,
    SEPARATOR,
};
use crate::text::{copy, lines};

verus! {

/// The open flags that tell how a file is accessed.
pub const O_ACCMODE: u32 = 0x3;

/// Open flag: create the file.
pub const O_CREAT: u32 = 0x40;

/// Open flag: cut the file to length zero.
pub const O_TRUNC: u32 = 0x200;

/// Open flag: write at the end.
pub const O_APPEND: u32 = 0x400;

/// A transformation to run: what to make, from what, and how.
#[derive(Clone, Debug, PartialEq, Eq)]
pub struct Transformation {
    /// The path that was asked for.
    pub source: Vec<u8>,
    /// The cached path that it is projected to.
    pub destination: Vec<u8>,
    /// The file to transform.
    pub input: Vec<u8>,
    /// The file to write.
    pub output: Vec<u8>,
    /// The directory that has to exist before the file is written.
    pub directory: Vec<u8>,
    /// The command line to run, program first.
    pub command: Vec<Vec<u8>>,
}

/// A [`Transformation`], as mathematical values.
pub struct TransformationView {
    pub source: Seq<u8>,
    pub destination: Seq<u8>,
    pub input: Seq<u8>,
    pub output: Seq<u8>,
    pub directory: Seq<u8>,
    pub command: Seq<Seq<u8>>,
}

impl View for Transformation {
    type V = TransformationView;

    open spec fn view(&self) -> TransformationView {
        TransformationView {
            source: self.source@,
            destination: self.destination@,
            input: self.input@,
            output: self.output@,
            directory: self.directory@,
            command: lines(self.command@),
        }
    }
}

/// Where a file is found, or what has to happen before it is.
#[derive(Clone, Debug, PartialEq, Eq)]
pub enum Located {
    /// The file is at this real path.
    Real(Vec<u8>),
    /// Somebody else is making the file: wait, then ask for the outcome.
    Wait,
    /// The caller is to run this transformation and to report how it ended.
    Run(Transformation),
    /// The file cannot be had.
    Refused,
}

/// A [`Located`], as mathematical values.
pub enum LocatedView {
    Real(Seq<u8>),
    Wait,
    Run(TransformationView),
    Refused,
}

impl View for Located {
    type V = LocatedView;

    open spec fn view(&self) -> LocatedView {
        match self {
            Located::Real(p) => LocatedView::Real(p@),
            Located::Wait => LocatedView::Wait,
            Located::Run(t) => LocatedView::Run(t@),
            Located::Refused => LocatedView::Refused,
        }
    }
}

/// One entry of a directory listing.
#[derive(Clone, Debug, PartialEq, Eq)]
pub struct DirectoryEntry {
    pub name: Vec<u8>,
    pub kind: FileType,
}

/// What a query for the attributes of an unmapped path comes to.
#[derive(Debug, PartialEq, Eq)]
pub enum AttrStep {
    /// This is the answer.
    Reply(Result<(Timespec, FileAttr), i32>),
    /// The file is projected: its cached file has to be found first.
    Project(Located),
}

/// Whether open flags ask for more than reading.
pub open spec fn asks_to_write(flags: u32) -> bool {
    flags & O_ACCMODE != 0 || flags & O_CREAT != 0 || flags & O_TRUNC != 0 || flags & O_APPEND
        != 0
}

/// The error code that a failed projection is reported with: an input/output
/// error.
pub open spec fn errno_of(e: ProjectionError) -> i32 {
    EIO
}

/// The answer to a query for attributes. `found` is what was found at the
/// path that the query resolved to; `source` is what was found at the
/// source file of a projected file. A pass-through file is reported as found.
/// A projected file is reported with the size and the number of blocks of
/// its cached file, and with everything else from its source file.
pub open spec fn attributes(
    access: AccessType,
    found: Result<FileAttr, i32>,
    source: Result<FileAttr, i32>,
) -> Result<(Timespec, FileAttr), i32> {
    match found {
        Err(e) => Err(e),
        Ok(stat) => match access {
            AccessType::PassThrough => Ok((Timespec { sec: 1, nsec: 0 }, stat)),
            AccessType::Projected => match source {
                Ok(stat_real) => Ok((Timespec { sec: 1, nsec: 0 }, merged(stat, stat_real))),
                Err(e) => Err(e),
            },
        },
    }
}

/// The projected filesystem over a source directory and a cache directory.
pub struct ProjectionFS<P: ProjectionSpecification> {
    source_dir: Vec<u8>,
    cache_dir: Vec<u8>,
    pm: ProjectionManager<P>,
}

impl<P: ProjectionSpecification> ProjectionFS<P> {
    /// The directory that holds the source files.
    pub closed spec fn source_root(&self) -> Seq<u8> {
        self.source_dir@
    }

    /// The directory that holds the cached files.
    pub closed spec fn cache_root(&self) -> Seq<u8> {
        self.cache_dir@
    }

    /// What is mapped and what is being materialized.
    pub closed spec fn projections(&self) -> Projections {
        self.pm@
    }

    /// The policy in force.
    pub closed spec fn policy(&self) -> P {
        self.pm.policy()
    }

    /// What is known is consistent.
    pub open spec fn wf(&self) -> bool {
        self.projections().wf()
    }

    /// The name that the projection of `partial` gets.
    pub open spec fn destination(&self, partial: Seq<u8>) -> Seq<u8> {
        self.policy().converted(partial)
    }

    /// The transformation that makes the projection of `partial`.
    pub open spec fn transformation(&self, partial: Seq<u8>) -> TransformationView {
        let input = resolved(self.source_root(), partial);
        let output = resolved(self.cache_root(), self.destination(partial));
        TransformationView {
            source: partial,
            destination: self.destination(partial),
            input,
            output,
            directory: parent(output),
            command: self.policy().command(input, output),
        }
    }

    /// How the entry at `partial`, which is of the kind `kind`, is served:
    /// only regular files are ever projected, and those by their guessed
    /// content type.
    pub open spec fn access(&self, partial: Seq<u8>, kind: FileType) -> AccessType {
        if kind == FileType::RegularFile {
            classified(self.policy(), guessed_mime(resolved(self.source_root(), partial)))
        } else {
            AccessType::PassThrough
        }
    }

    /// What asking for the projection of `partial` gives.
    pub open spec fn requested(&self, partial: Seq<u8>) -> LocatedView {
        match self.projections().request(partial, self.destination(partial)) {
            Step::Ready(dest) => LocatedView::Real(resolved(self.cache_root(), dest)),
            Step::Pending => LocatedView::Wait,
            Step::Start(dest) => LocatedView::Run(self.transformation(partial)),
            Step::Refused => LocatedView::Refused,
        }
    }

    /// Where the entry at `partial`, which is of the kind `kind`, is found: in
    /// the source directory if it is passed through, and where asking for
    /// its projection leads if it is projected.
    pub open spec fn located(&self, partial: Seq<u8>, kind: FileType) -> LocatedView {
        match self.access(partial, kind) {
            AccessType::PassThrough => LocatedView::Real(resolved(self.source_root(), partial)),
            AccessType::Projected => self.requested(partial),
        }
    }

    /// What is known after that entry has been looked for: what was known
    /// before if it is passed through, and what asking for its projection
    /// leaves if it is projected.
    pub open spec fn after_locating(&self, partial: Seq<u8>, kind: FileType) -> Projections {
        match self.access(partial, kind) {
            AccessType::PassThrough => self.projections(),
            AccessType::Projected => self.projections().after_request(
                partial,
                self.destination(partial),
            ),
        }
    }

    /// Where the virtual path `partial` leads: into the cache if it is the
    /// cached path of a projected file, into the source directory otherwise.
    pub open spec fn resolution(&self, partial: Seq<u8>) -> (AccessType, Seq<u8>) {
        if self.projections().lookup_by_cache(partial).is_some() {
            (AccessType::Projected, resolved(self.cache_root(), partial))
        } else {
            (AccessType::PassThrough, resolved(self.source_root(), partial))
        }
    }

    /// The two filesystems have the same directories and the same policy.
    pub open spec fn same_setup(&self, other: &Self) -> bool {
        &&& self.policy() == other.policy()
        &&& self.source_root() == other.source_root()
        &&& self.cache_root() == other.cache_root()
    }

    /// A filesystem in which nothing is projected yet.
    pub fn new(source_dir: Vec<u8>, cache_dir: Vec<u8>, policy: P) -> (r: Self)
        ensures
            r.source_root() == source_dir@,
            r.cache_root() == cache_dir@,
            r.policy() == policy,
            r.projections() == Projections::empty(),
            r.wf(),
    {
        ProjectionFS { source_dir, cache_dir, pm: ProjectionManager::new(policy) }
    }

    /// The directory that holds the source files.
    pub fn source_dir(&self) -> (r: &Vec<u8>)
        ensures
            r@ == self.source_root(),
    {
        &self.source_dir
    }

    /// The directory that holds the cached files.
    pub fn cache_dir(&self) -> (r: &Vec<u8>)
        ensures
            r@ == self.cache_root(),
    {
        &self.cache_dir
    }

    /// The real path of `partial` in the source directory.
    pub fn source_path(&self, partial: &Vec<u8>) -> (r: Vec<u8>)
        requires
            is_absolute(partial@),
        ensures
            r@ == resolved(self.source_root(), partial@),
    {
        real_path(&self.source_dir, partial)
    }

    /// The real path of `partial` in the cache directory.
    pub fn cache_path(&self, partial: &Vec<u8>) -> (r: Vec<u8>)
        requires
            is_absolute(partial@),
        ensures
            r@ == resolved(self.cache_root(), partial@),
    {
        real_path(&self.cache_dir, partial)
    }

    /// Where the virtual path `partial` leads: into the cache if it is the
    /// cached path of a projected file, into the source directory otherwise.
    pub fn resolve(&self, partial: &Vec<u8>) -> (r: (AccessType, Vec<u8>))
        requires
            self.wf(),
            is_absolute(partial@),
        ensures
            (r.0, r.1@) == self.resolution(partial@),
    {
        match self.pm.source(partial) {
            Some(_source) => (AccessType::Projected, self.cache_path(partial)),
            None => (AccessType::PassThrough, self.source_path(partial)),
        }
    }

    /// The real path of the source file of the projected file whose cached path
    /// is `partial`, if it is one.
    pub fn origin(&self, partial: &Vec<u8>) -> (r: Option<Vec<u8>>)
        requires
            self.wf(),
        ensures
            r.is_some() == self.projections().lookup_by_cache(partial@).is_some(),
            r.is_some() ==> r.unwrap()@ == resolved(
                self.source_root(),
                self.projections().lookup_by_cache(partial@).unwrap(),
            ),
    {
        match self.pm.source(partial) {
            Some(source) => Some(self.source_path(&source)),
            None => None,
        }
    }

    /// How the entry at `partial`, which is of the kind `kind`, is served.
    pub fn classify(&self, partial: &Vec<u8>, kind: FileType) -> (r: AccessType)
        requires
            is_absolute(partial@),
        ensures
            r == self.access(partial@, kind),
    {
        match kind {
            FileType::RegularFile => {
                let found = self.source_path(partial);
                self.pm.access_type(&found)
            },
            _ => AccessType::PassThrough,
        }
    }

    /// Asks for the projection of `partial`: gives the real path of the
    /// cached file where it is there, tells the caller to wait where somebody
    /// is making it, and otherwise to make it, unless that cannot be done.
    pub fn materialize(&mut self, partial: &Vec<u8>) -> (r: Located)
        requires
            old(self).wf(),
        ensures
            r@ == old(self).requested(partial@),
            final(self).projections() == old(self).projections().after_request(
                partial@,
                old(self).destination(partial@),
            ),
            final(self).same_setup(old(self)),
            final(self).wf(),
    {
        match self.pm.project(partial) {
            Materialization::Ready(dest) => Located::Real(self.cache_path(&dest)),
            Materialization::Pending => Located::Wait,
            Materialization::Refused => Located::Refused,
            Materialization::Start(dest) => {
                let input = self.source_path(partial);
                let output = self.cache_path(&dest);
                let directory = parent_dir(&output);
                let command = self.pm.command(&input, &output);
                Located::Run(
                    Transformation {
                        source: copy(partial),
                        destination: dest,
                        input,
                        output,
                        directory,
                        command,
                    },
                )
            },
        }
    }

    /// Where the entry at `partial`, which is of the kind `kind`, is found.
    /// A pass-through entry is found in the source directory, and nothing
    /// changes; a projected one is asked for.
    pub fn locate(&mut self, partial: &Vec<u8>, kind: FileType) -> (r: Located)
        requires
            old(self).wf(),
            is_absolute(partial@),
        ensures
            r@ == old(self).located(partial@, kind),
            final(self).projections() == old(self).after_locating(partial@, kind),
            final(self).same_setup(old(self)),
            final(self).wf(),
    {
        match self.classify(partial, kind) {
            AccessType::PassThrough => Located::Real(self.source_path(partial)),
            AccessType::Projected => self.materialize(partial),
        }
    }

    /// Where the regular file `filename` of the directory `dir_path` is
    /// found.
    pub fn sniff_projection(&mut self, dir_path: &Vec<u8>, filename: &Vec<u8>) -> (r: Located)
        requires
            old(self).wf(),
            is_absolute(dir_path@),
        ensures
            r@ == old(self).located(joined(dir_path@, filename@), FileType::RegularFile),
            final(self).projections() == old(self).after_locating(
                joined(dir_path@, filename@),
                FileType::RegularFile,
            ),
            final(self).same_setup(old(self)),
            final(self).wf(),
    {
        let partial = join(dir_path, filename);
        self.locate(&partial, FileType::RegularFile)
    }

    /// Reports that the transformation of `partial` has ended, and how. Where
    /// it succeeded, the real path of the cached file is handed back.
    pub fn complete(&mut self, partial: &Vec<u8>, succeeded: bool) -> (r: Result<
        Vec<u8>,
        ProjectionError,
    >)
        requires
            old(self).wf(),
        ensures
            answer(r) == match old(self).projections().completion(partial@, succeeded) {
                Ok(dest) => Ok(resolved(old(self).cache_root(), dest)),
                Err(e) => Err(e),
            },
            final(self).projections() == old(self).projections().after_completion(
                partial@,
                succeeded,
            ),
            final(self).same_setup(old(self)),
            final(self).wf(),
    {
        match self.pm.complete(partial, succeeded) {
            Ok(dest) => Ok(self.cache_path(&dest)),
            Err(e) => Err(e),
        }
    }

    /// What a caller that was told to wait for the projection of `partial`
    /// finds when it looks again: nothing yet, the real path of the cached
    /// file, or the failure.
    pub fn outcome(&self, partial: &Vec<u8>) -> (r: Option<Result<Vec<u8>, ProjectionError>>)
        requires
            self.wf(),
        ensures
            match r {
                Some(found) => Some(answer(found)),
                None => None,
            } == match self.projections().outcome(partial@) {
                Some(Ok(dest)) => Some(Ok(resolved(self.cache_root(), dest))),
                Some(Err(e)) => Some(Err(e)),
                None => None,
            },
    {
        match self.pm.outcome(partial) {
            Some(Ok(dest)) => Some(Ok(self.cache_path(&dest))),
            Some(Err(e)) => Some(Err(e)),
            None => None,
        }
    }

    /// Nothing has to be set up.
    pub fn init(&self) -> (r: Result<(), i32>)
        ensures
            r.is_ok(),
    {
        Ok(())
    }

    /// The answer to a query for attributes.
    pub fn getattr(
        &self,
        access: AccessType,
        found: Result<FileAttr, i32>,
        source: Result<FileAttr, i32>,
    ) -> (r: Result<(Timespec, FileAttr), i32>)
        ensures
            r == attributes(access, found, source),
    {
        match found {
            Ok(stat) => match access {
                AccessType::PassThrough => Ok((ttl(), stat)),
                AccessType::Projected => match source {
                    Ok(stat_real) => Ok((ttl(), merge_attr(stat, stat_real))),
                    Err(e) => Err(e),
                },
            },
            Err(e) => Err(e),
        }
    }

    /// What a query for the attributes of the unmapped path `path` comes to,
    /// once its file in the source directory has been looked at. Where that
    /// failed, the error is the answer. A file that is passed through is
    /// reported as found. A file that is projected is asked for; its
    /// attributes are then those of [`ProjectionFS::getattr`] for its cached
    /// file and `found`.
    pub fn getattr_unmapped(&mut self, path: &Vec<u8>, found: Result<FileAttr, i32>) -> (r:
        AttrStep)
        requires
            old(self).wf(),
            is_absolute(path@),
        ensures
            match found {
                Err(e) => r == AttrStep::Reply(Err(e)) && final(self).projections()
                    == old(self).projections(),
                Ok(attr) => final(self).projections() == old(self).after_locating(path@, attr.kind)
                    && match old(self).access(path@, attr.kind) {
                    AccessType::PassThrough => r == AttrStep::Reply(
                        attributes(AccessType::PassThrough, found, found),
                    ),
                    AccessType::Projected => r is Project && r->Project_0@ == old(self).requested(
                        path@,
                    ),
                },
            },
            final(self).same_setup(old(self)),
            final(self).wf(),
    {
        match found {
            Err(e) => AttrStep::Reply(Err(e)),
            Ok(attr) => match self.classify(path, attr.kind) {
                AccessType::PassThrough => AttrStep::Reply(Ok((ttl(), attr))),
                AccessType::Projected => AttrStep::Project(self.materialize(path)),
            },
        }
    }

    /// Where the file to open for the unmapped path `path` is found, once
    /// its file in the source directory has been looked at: nowhere where
    /// that failed, and otherwise where [`ProjectionFS::locate`] finds an
    /// entry of that kind.
    pub fn open_unmapped(&mut self, path: &Vec<u8>, found: Result<FileAttr, i32>) -> (r: Result<
        Located,
        i32,
    >)
        requires
            old(self).wf(),
            is_absolute(path@),
        ensures
            match found {
                Err(e) => r == Err::<Located, i32>(e) && final(self).projections()
                    == old(self).projections(),
                Ok(attr) => r.is_ok() && r.unwrap()@ == old(self).located(path@, attr.kind)
                    && final(self).projections() == old(self).after_locating(path@, attr.kind),
            },
            final(self).same_setup(old(self)),
            final(self).wf(),
    {
        match found {
            Err(e) => Err(e),
            Ok(attr) => Ok(self.locate(path, attr.kind)),
        }
    }

    /// The real path of the directory to open for the virtual path `path`:
    /// directories are always those of the source directory.
    pub fn opendir(&self, path: &Vec<u8>) -> (r: Result<Vec<u8>, i32>)
        ensures
            is_absolute(path@) ==> r.is_ok() && r.unwrap()@ == resolved(self.source_root(), path@),
            !is_absolute(path@) ==> r == Err::<Vec<u8>, i32>(EINVAL),
    {
        if absolute(path) {
            Ok(self.source_path(path))
        } else {
            Err(EINVAL)
        }
    }

    /// Whether a directory can be listed through the handle `fh`: a listing
    /// needs a handle, and zero is none.
    pub fn readdir(&self, fh: u64) -> (r: Result<(), i32>)
        ensures
            fh != 0 ==> r.is_ok(),
            fh == 0 ==> r == Err::<(), i32>(EINVAL),
    {
        if fh == 0 {
            Err(EINVAL)
        } else {
            Ok(())
        }
    }

    /// The kind of the entry `name` of the directory `path`, which the
    /// directory lists with the type `d_type`: the kind that the type stands
    /// for, or, where it stands for none, the real path of the file to look
    /// at to find out.
    pub fn entry_kind(&self, path: &Vec<u8>, name: &Vec<u8>, d_type: u8) -> (r: Result<
        FileType,
        Vec<u8>,
    >)
        requires
            is_absolute(path@),
        ensures
            entry_type_of(d_type).is_some() ==> r == Ok::<FileType, Vec<u8>>(
                entry_type_of(d_type).unwrap(),
            ),
            entry_type_of(d_type).is_none() ==> r.is_err() && r.unwrap_err()@ == resolved(
                self.source_root(),
                joined(path@, name@),
            ),
    {
        match type_of_entry(d_type) {
            Some(kind) => Ok(kind),
            None => {
                let partial = join(path, name);
                Err(self.source_path(&partial))
            },
        }
    }

    /// The kind of an entry from what looking at its file gave: the error
    /// where that failed, an input/output error where the mode stands for no
    /// kind of file.
    pub fn queried_kind(&self, lstat: Result<Stat, i32>) -> (r: Result<FileType, i32>)
        ensures
            r == match lstat {
                Ok(stat) => if file_type_of(stat.st_mode).is_some() {
                    Ok(file_type_of(stat.st_mode).unwrap())
                } else {
                    Err(EIO)
                },
                Err(e) => Err(e),
            },
    {
        match lstat {
            Ok(stat) => match type_of_mode(stat.st_mode) {
                Some(kind) => Ok(kind),
                None => Err(EIO),
            },
            Err(e) => Err(e),
        }
    }

    /// Where the entry `name` of the directory `path`, which is of the kind
    /// `kind`, is found.
    pub fn list_entry(&mut self, path: &Vec<u8>, name: &Vec<u8>, kind: FileType) -> (r: Located)
        requires
            old(self).wf(),
            is_absolute(path@),
        ensures
            r@ == old(self).located(joined(path@, name@), kind),
            final(self).projections() == old(self).after_locating(joined(path@, name@), kind),
            final(self).same_setup(old(self)),
            final(self).wf(),
    {
        let partial = join(path, name);
        self.locate(&partial, kind)
    }

    /// The entry that is listed for the entry `name` of the kind `kind`, once
    /// it has been found at the real path `found`: a regular file is listed
    /// under the name of the file that is served for it, everything else
    /// under its own name.
    pub fn directory_entry(&self, name: Vec<u8>, kind: FileType, found: &Vec<u8>) -> (r:
        DirectoryEntry)
        ensures
            r.kind == kind,
            r.name@ == if kind == FileType::RegularFile {
                file_name(found@)
            } else {
                name@
            },
    {
        match kind {
            FileType::RegularFile => DirectoryEntry { name: base_name(found), kind },
            _ => DirectoryEntry { name, kind },
        }
    }

    /// What to open for the virtual path `path`: nothing, where the flags ask
    /// for more than reading or the path is not absolute; otherwise the file
    /// that the path leads to.
    pub fn open(&self, path: &Vec<u8>, flags: u32) -> (r: Result<(AccessType, Vec<u8>), i32>)
        requires
            self.wf(),
        ensures
            asks_to_write(flags) ==> r == Err::<(AccessType, Vec<u8>), i32>(EROFS),
            !asks_to_write(flags) && !is_absolute(path@) ==> r == Err::<(AccessType, Vec<u8>), i32>(
                EINVAL,
            ),
            !asks_to_write(flags) && is_absolute(path@) ==> r.is_ok() && (
                r.unwrap().0,
                r.unwrap().1@,
            ) == self.resolution(path@),
    {
        if flags & O_ACCMODE != 0 || flags & O_CREAT != 0 || flags & O_TRUNC != 0 || flags
            & O_APPEND != 0 {
            return Err(EROFS);
        }
        if !absolute(path) {
            return Err(EINVAL);
        }
        Ok(self.resolve(path))
    }

    /// The bytes to hand back for a read into `data` that gave `n` bytes:
    /// exactly those that were read.
    pub fn read(&self, data: Vec<u8>, n: usize) -> (r: Vec<u8>)
        ensures
            n <= data.len() ==> r@ == data@.subrange(0, n as int),
            n > data.len() ==> r@ == data@,
    {
        let mut data = data;
        data.truncate(n);
        data
    }
}

/// The error code that a failed projection is reported with.
pub fn errno(e: ProjectionError) -> (r: i32)
    ensures
        r == errno_of(e),
{
    EIO
}

/// An entry that is passed through is listed under its own name: that is the
/// file name of the path it is found at in the source directory.
pub proof fn law_pass_through_keeps_name<P: ProjectionSpecification>(
    fs: ProjectionFS<P>,
    path: Seq<u8>,
    name: Seq<u8>,
)
    requires
        is_absolute(path),
        !name.contains(SEPARATOR),
    ensures
        file_name(resolved(fs.source_root(), joined(path, name))) == name,
{
    lemma_resolved_entry_name(fs.source_root(), path, name);
}

/// A projected entry is listed under the file name that the policy gives
/// it: that is the file name of its cached file.
pub proof fn law_projected_takes_new_name<P: ProjectionSpecification>(
    fs: ProjectionFS<P>,
    partial: Seq<u8>,
)
    requires
        is_absolute(fs.destination(partial)),
    ensures
        file_name(fs.transformation(partial).output) == file_name(fs.destination(partial)),
        file_name(resolved(fs.cache_root(), fs.destination(partial))) == file_name(
            fs.destination(partial),
        ),
{
    lemma_resolved_keeps_name(fs.cache_root(), fs.destination(partial));
}

/// Nothing is ever run for an entry that is passed through, and nothing is
/// put into the cache for it: it is found in the source directory, under the
/// path it was asked for, and what is known stays as it is. Whatever is not
/// a regular file is passed through.
pub proof fn law_pass_through_is_served_from_source<P: ProjectionSpecification>(
    fs: ProjectionFS<P>,
    partial: Seq<u8>,
    kind: FileType,
)
    requires
        fs.access(partial, kind) == AccessType::PassThrough,
    ensures
        fs.located(partial, kind) == LocatedView::Real(resolved(fs.source_root(), partial)),
        fs.after_locating(partial, kind) == fs.projections(),
        forall|other: FileType|
            other != FileType::RegularFile ==> #[trigger] fs.access(partial, other)
                == AccessType::PassThrough,
{
}

/// A transformation is run for unmapped paths only. A path that is mapped
/// is found in the cache, at its cached path.
pub proof fn law_only_unmapped_projections_run<P: ProjectionSpecification>(
    fs: ProjectionFS<P>,
    partial: Seq<u8>,
)
    requires
        fs.wf(),
    ensures
        fs.requested(partial) is Run <==> fs.projections().request(
            partial,
            fs.destination(partial),
        ) is Start,
        fs.requested(partial) is Run ==> fs.projections().state(partial) is Unmapped,
        fs.projections().state(partial) is Mapped ==> fs.requested(partial) == LocatedView::Real(
            resolved(fs.cache_root(), fs.projections().mapped[partial]),
        ),
{
}

} // verus!
