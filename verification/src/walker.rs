//! The decisions of a directory walk, one step of reading at a time.
//!
//! A [`Walker`] never reads a directory. It names the directory that is to be
//! opened ([`Walker::opening`]) or of which the next entry is to be read
//! ([`Walker::reading`]), is handed what the reader met ([`Walker::feed`]),
//! and so on until the walk is over ([`Walker::finish`]). Whoever drives it
//! does the reading, and keeps the directories open that the walk is inside
//! of.
//!
//! The walk is depth first. The entries of a directory are taken in the order
//! in which they are read. A file is reported as it is met. A directory is
//! passed over when the walk is not recursive; when it is, the directory is
//! read before the next entry of its parent, what is found inside it is
//! reported, and then the directory itself is reported too, so a recursive
//! walk reports the directories it went into after their contents. The root
//! is never reported. The first failure ends the walk at once: nothing is read
//! after it, and nothing that was found before it is handed out.
//!
//! Paths are of any type `P`: the walker moves them and never looks inside.

use crate::error::{failure_error, Error, IoFailure};
use vstd::prelude::*;

verus! {

/// What an entry of a directory was seen to be when it was read.
#[derive(Clone, Copy, Debug, PartialEq, Eq, Structural)]
pub enum EntryKind {
    /// Anything that is not a directory.
    File,
    /// A directory.
    Directory,
}

/// One entry of a directory: its path, and what it is, or how asking for its
/// type was refused.
#[derive(Debug, PartialEq, Eq)]
pub struct Entry<P> {
    pub path: P,
    pub kind: Result<EntryKind, IoFailure>,
}

/// What the reader met when it did what the walk asked for.
#[derive(Debug, PartialEq, Eq)]
pub enum Event<P> {
    /// The directory was opened.
    Opened,
    /// The directory could not be opened.
    OpenFailed(IoFailure),
    /// The next entry of the directory.
    Entry(Entry<P>),
    /// Reading the next entry of the directory failed.
    ReadFailed(IoFailure),
    /// The directory has no further entry.
    End,
}

/// The state of a walk. Where it is inside `dir`, `above` holds the
/// directories that `dir` was reached through, outermost first, and `found`
/// what has been reported so far.
pub enum Walk<P> {
    /// `dir` is to be opened.
    Opening { recursive: bool, found: Seq<P>, above: Seq<P>, dir: P },
    /// The next entry of `dir` is to be read.
    Reading { recursive: bool, found: Seq<P>, above: Seq<P>, dir: P },
    /// The walk is over and reports `found`.
    Done { found: Seq<P> },
    /// The walk failed.
    Failed { error: Error },
}

impl<P> Walk<P> {
    /// A walk of `root` that has read nothing yet.
    pub open spec fn start(root: P, recursive: bool) -> Walk<P> {
        Walk::Opening { recursive, found: Seq::empty(), above: Seq::empty(), dir: root }
    }

    /// The state after the reader met `event`.
    ///
    /// A failure to open a directory or to read its next entry ends the walk
    /// with the error of that failure, and an entry of which the type could
    /// not be told ends it with the failure of that request. An event that
    /// answers nothing the walk asked for leaves it as it is. So does any
    /// event once the walk is over.
    pub open spec fn feed(self, event: Event<P>) -> Walk<P> {
        match self {
            Walk::Opening { recursive, found, above, dir } => match event {
                Event::Opened => Walk::Reading { recursive, found, above, dir },
                Event::OpenFailed(failure) => Walk::Failed { error: failure_error(failure) },
                _ => self,
            },
            Walk::Reading { recursive, found, above, dir } => match event {
                Event::Entry(entry) => match entry.kind {
                    Err(failure) => Walk::Failed { error: Error::TypeQueryFailure(failure) },
                    Ok(EntryKind::File) => Walk::Reading {
                        recursive,
                        found: found.push(entry.path),
                        above,
                        dir,
                    },
                    Ok(EntryKind::Directory) => if recursive {
                        Walk::Opening { recursive, found, above: above.push(dir), dir: entry.path }
                    } else {
                        self
                    },
                },
                Event::ReadFailed(failure) => Walk::Failed { error: failure_error(failure) },
                Event::End => if above.len() == 0 {
                    Walk::Done { found }
                } else {
                    Walk::Reading {
                        recursive,
                        found: found.push(dir),
                        above: above.drop_last(),
                        dir: above.last(),
                    }
                },
                _ => self,
            },
            _ => self,
        }
    }

    /// The directory that is to be opened, if that is what the walk needs.
    pub open spec fn opening(self) -> Option<P> {
        match self {
            Walk::Opening { dir, .. } => Some(dir),
            _ => None,
        }
    }

    /// The directory of which the next entry is to be read, if that is what
    /// the walk needs.
    pub open spec fn reading(self) -> Option<P> {
        match self {
            Walk::Reading { dir, .. } => Some(dir),
            _ => None,
        }
    }

    /// What the walk ended with, if it is over.
    pub open spec fn outcome(self) -> Option<Result<Seq<P>, Error>> {
        match self {
            Walk::Done { found } => Some(Ok(found)),
            Walk::Failed { error } => Some(Err(error)),
            _ => None,
        }
    }
}

enum Stage<P> {
    Opening(P),
    Reading(P),
    Done,
    Failed(Error),
}

/// A walk in progress.
pub struct Walker<P> {
    recursive: bool,
    found: Vec<P>,
    above: Vec<P>,
    stage: Stage<P>,
}

impl<P> View for Walker<P> {
    type V = Walk<P>;

    closed spec fn view(&self) -> Walk<P> {
        match self.stage {
            Stage::Opening(dir) => Walk::Opening {
                recursive: self.recursive,
                found: self.found@,
                above: self.above@,
                dir,
            },
            Stage::Reading(dir) => Walk::Reading {
                recursive: self.recursive,
                found: self.found@,
                above: self.above@,
                dir,
            },
            Stage::Done => Walk::Done { found: self.found@ },
            Stage::Failed(error) => Walk::Failed { error },
        }
    }
}

impl<P> Walker<P> {
    /// Begins a walk of `root`, which is the first directory to be opened.
    pub fn new(root: P, recursive: bool) -> (walker: Walker<P>)
        ensures
            walker@ == Walk::start(root, recursive),
    {
        Walker { recursive, found: Vec::new(), above: Vec::new(), stage: Stage::Opening(root) }
    }

    /// The directory to open next, if the walk needs one opened.
    pub fn opening(&self) -> (dir: Option<&P>)
        ensures
            match dir {
                Some(dir) => self@.opening() == Some(*dir),
                None => self@.opening() is None,
            },
    {
        match &self.stage {
            Stage::Opening(dir) => Some(dir),
            _ => None,
        }
    }

    /// The directory whose next entry is to be read, if the walk needs one
    /// read. It is the directory that was opened last and has not come to its
    /// end.
    pub fn reading(&self) -> (dir: Option<&P>)
        ensures
            match dir {
                Some(dir) => self@.reading() == Some(*dir),
                None => self@.reading() is None,
            },
    {
        match &self.stage {
            Stage::Reading(dir) => Some(dir),
            _ => None,
        }
    }

    /// Takes what the reader met and decides how the walk goes on.
    pub fn feed(self, event: Event<P>) -> (next: Walker<P>)
        ensures
            next@ == self@.feed(event),
    {
        let Walker { recursive, found, above, stage } = self;
        let mut found = found;
        let mut above = above;
        match stage {
            Stage::Opening(dir) => match event {
                Event::Opened => Walker { recursive, found, above, stage: Stage::Reading(dir) },
                Event::OpenFailed(failure) => Walker {
                    recursive,
                    found,
                    above,
                    stage: Stage::Failed(Error::from_failure(failure)),
                },
                _ => Walker { recursive, found, above, stage: Stage::Opening(dir) },
            },
            Stage::Reading(dir) => match event {
                Event::Entry(entry) => match entry.kind {
                    Err(failure) => Walker {
                        recursive,
                        found,
                        above,
                        stage: Stage::Failed(Error::TypeQueryFailure(failure)),
                    },
                    Ok(EntryKind::File) => {
                        found.push(entry.path);
                        Walker { recursive, found, above, stage: Stage::Reading(dir) }
                    },
                    Ok(EntryKind::Directory) => {
                        if recursive {
                            above.push(dir);
                            Walker { recursive, found, above, stage: Stage::Opening(entry.path) }
                        } else {
                            Walker { recursive, found, above, stage: Stage::Reading(dir) }
                        }
                    },
                },
                Event::ReadFailed(failure) => Walker {
                    recursive,
                    found,
                    above,
                    stage: Stage::Failed(Error::from_failure(failure)),
                },
                Event::End => match above.pop() {
                    None => Walker { recursive, found, above, stage: Stage::Done },
                    Some(parent) => {
                        found.push(dir);
                        Walker { recursive, found, above, stage: Stage::Reading(parent) }
                    },
                },
                _ => Walker { recursive, found, above, stage: Stage::Reading(dir) },
            },
            Stage::Done => Walker { recursive, found, above, stage: Stage::Done },
            Stage::Failed(error) => Walker { recursive, found, above, stage: Stage::Failed(error) },
        }
    }

    /// Ends the walk: what it reports, or the failure that stopped it.
    /// `None` while the walk still needs something read.
    pub fn finish(self) -> (end: Option<Result<Vec<P>, Error>>)
        ensures
            match end {
                None => self@.outcome() is None,
                Some(Ok(found)) => self@.outcome() == Some(Ok::<Seq<P>, Error>(found@)),
                Some(Err(error)) => self@.outcome() == Some(Err::<Seq<P>, Error>(error)),
            },
    {
        match self.stage {
            Stage::Done => Some(Ok(self.found)),
            Stage::Failed(error) => Some(Err(error)),
            _ => None,
        }
    }
}

} // verus!
