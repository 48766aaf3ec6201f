use vstd::prelude::*;

verus! {

/// What a walk is asked to do.
#[derive(Debug, Clone, PartialEq, Eq)]
pub struct Args {
    /// Required path to analyze
    pub path_to_analyze: String,
    /// Just look at the files in the current directory
    pub no_recurse: bool,
    /// Gather statistics per file extension, such as count and size
    pub file_info: bool,
    /// Follow symlinks as if they were a normal object
    pub follow_symlinks: bool,
    /// Count symlinks found, following them or not
    pub count_symlinks: bool,
    /// Report each object as it is found
    pub verbose: bool,
    /// Export the result to a spreadsheet at this location
    pub export_xlsx: Option<String>,
    /// Show paths in full rather than as found
    pub full_path: bool,
    /// Comma separated list of directories and files left out of the analysis
    pub ignore_entries: Option<String>,
    /// Seconds between progress reports, if any
    pub updates: Option<u64>,
    /// Report how long the analysis took
    pub time: bool,
}

impl Args {
    pub fn new(
        path_to_analyze: String,
        no_recurse: bool,
        file_info: bool,
        follow_symlinks: bool,
        verbose: bool,
        export_xlsx: Option<String>,
        full_path: bool,
        ignore_entries: Option<String>,
        updates: Option<u64>,
        count_symlinks: bool,
        time: bool,
    ) -> (r: Args)
        ensures
            r == (Args {
                path_to_analyze,
                no_recurse,
                file_info,
                follow_symlinks,
                count_symlinks,
                verbose,
                export_xlsx,
                full_path,
                ignore_entries,
                updates,
                time,
            }),
    {
        Args {
            path_to_analyze,
            no_recurse,
            file_info,
            follow_symlinks,
            count_symlinks,
            verbose,
            export_xlsx,
            full_path,
            ignore_entries,
            updates,
            time,
        }
    }

    /// Required path to analyze
    pub fn path_to_analyze(&self) -> (r: &String)
        ensures
            *r == self.path_to_analyze,
    {
        &self.path_to_analyze
    }

    /// Just look at the files in the current directory
    pub fn no_recurse(&self) -> (r: bool)
        ensures
            r == self.no_recurse,
    {
        self.no_recurse
    }

    /// Gather statistics per file extension, such as count and size
    pub fn file_info(&self) -> (r: bool)
        ensures
            r == self.file_info,
    {
        self.file_info
    }

    /// Follow symlinks as if they were a normal object
    pub fn follow_symlinks(&self) -> (r: bool)
        ensures
            r == self.follow_symlinks,
    {
        self.follow_symlinks
    }

    /// Report each object as it is found
    pub fn verbose(&self) -> (r: bool)
        ensures
            r == self.verbose,
    {
        self.verbose
    }

    /// Export the result to a spreadsheet at this location
    pub fn export_xlsx(&self) -> (r: Option<&String>)
        ensures
            r is Some <==> self.export_xlsx is Some,
            r is Some ==> *r->0 == self.export_xlsx->0,
    {
        self.export_xlsx.as_ref()
    }

    /// Show paths in full rather than as found
    pub fn full_path(&self) -> (r: bool)
        ensures
            r == self.full_path,
    {
        self.full_path
    }

    /// Comma separated list of directories and files left out of the analysis
    pub fn ignore_entries(&self) -> (r: Option<&String>)
        ensures
            r is Some <==> self.ignore_entries is Some,
            r is Some ==> *r->0 == self.ignore_entries->0,
    {
        self.ignore_entries.as_ref()
    }

    /// Seconds between progress reports, if any
    pub fn updates(&self) -> (r: Option<u64>)
        ensures
            r == self.updates,
    {
        self.updates
    }

    /// Count symlinks found, following them or not
    pub fn count_symlinks(&self) -> (r: bool)
        ensures
            r == self.count_symlinks,
    {
        self.count_symlinks
    }

    /// Report how long the analysis took
    pub fn time(&self) -> (r: bool)
        ensures
            r == self.time,
    {
        self.time
    }
}

} // verus!
