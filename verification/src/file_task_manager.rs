//! The task catalog, loaded from a file once and then served from
//! memory.
//!
//! Reading and decoding the catalog file is the application's job; the
//! repository records the path, remembers whether the catalog was
//! installed yet, and serves the records unchanged afterwards.

use vstd::prelude::*;
use crate::task::Task;

verus! {

/// A source of the task catalog.
pub trait TaskRepository {
    /// The catalog is available to be read.
    spec fn ready(&self) -> bool;

    /// The catalog's records.
    spec fn task_list(&self) -> Seq<Task>;

    /// All tasks of the catalog.
    fn get_all(&self) -> (r: &Vec<Task>)
        requires
            self.ready(),
        ensures
            r@ == self.task_list(),
    ;
}

/// A task catalog persisted as a file, decoded at most once.
#[derive(Debug)]
pub struct FileTaskRepository {
    tasks: Option<Vec<Task>>,
    file_path: String,
}

impl FileTaskRepository {
    /// The path of the catalog file.
    pub closed spec fn spec_file_path(&self) -> Seq<char> {
        self.file_path@
    }

    /// Whether the catalog was installed already.
    pub closed spec fn loaded(&self) -> bool {
        self.tasks is Some
    }

    /// The installed catalog.
    pub closed spec fn spec_tasks(&self) -> Seq<Task> {
        self.tasks->Some_0@
    }

    /// A repository for the catalog file at `file_path`; nothing is
    /// read yet.
    pub fn new(file_path: String) -> (r: Self)
        ensures
            !r.loaded(),
            r.spec_file_path() == file_path@,
    {
        FileTaskRepository { tasks: None, file_path }
    }

    /// Does the catalog file still have to be read and decoded?
    pub fn needs_load(&self) -> (b: bool)
        ensures
            b == !self.loaded(),
    {
        self.tasks.is_none()
    }

    /// Where to read the catalog from.
    pub fn file_path(&self) -> (r: &String)
        ensures
            r@ == self.spec_file_path(),
    {
        &self.file_path
    }

    /// Install the decoded catalog. A file that could not be read or
    /// decoded installs the empty catalog, and the failure is only
    /// reported, so that a broken catalog never aborts the run.
    pub fn set_tasks(&mut self, tasks: Vec<Task>)
        ensures
            final(self).loaded(),
            final(self).spec_tasks() == tasks@,
            final(self).spec_file_path() == old(self).spec_file_path(),
    {
        self.tasks = Some(tasks);
    }
}

impl TaskRepository for FileTaskRepository {
    open spec fn ready(&self) -> bool {
        self.loaded()
    }

    open spec fn task_list(&self) -> Seq<Task> {
        self.spec_tasks()
    }

    fn get_all(&self) -> (r: &Vec<Task>) {
        self.tasks.as_ref().unwrap()
    }
}

} // verus!
