use vstd::prelude::*;

verus! {

/// The state of the interpreter that the operations share: the current
/// directory.
pub struct Executor {
    current_dir: String,
}

impl Executor {
    /// The current directory.
    pub closed spec fn current_dir(&self) -> Seq<char> {
        self.current_dir@
    }

    /// An interpreter that stands in `current_dir`.
    pub fn new(current_dir: String) -> (executor: Self)
        ensures
            executor.current_dir() == current_dir@,
    {
        Self { current_dir }
    }

    /// Makes `path` the current directory.
    pub fn set_current_dir(&mut self, path: String)
        ensures
            final(self).current_dir() == path@,
    {
        self.current_dir = path;
    }

    /// The current directory.
    pub fn get_current_dir(&self) -> (path: &str)
        ensures
            path@ == self.current_dir(),
    {
        self.current_dir.as_str()
    }
}

} // verus!
