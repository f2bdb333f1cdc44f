//! Alias resolution, layered like `git config`: a project file wins over the
//! personal one, key by key, and every resolution carries the file it came from.

use std::path::{Path, PathBuf};

use vstd::prelude::*;
use vstd::string::*;

use crate::text::{decimal, u64_to_decimal};

verus! {

#[verifier::external_type_specification]
#[verifier::external_body]
pub struct ExPathBuf(std::path::PathBuf);

#[verifier::external_type_specification]
#[verifier::external_body]
pub struct ExPath(std::path::Path);

/// The path that a `PathBuf` holds, borrowed.
pub uninterp spec fn path_of(p: &PathBuf) -> &Path;

/// `PathBuf::as_path`: borrows the path the buffer holds. Claimed of it:
/// the same buffer always gives the same path.
#[verifier::external_body]
fn path_buf_as_path(p: &PathBuf) -> (r: &Path)
    ensures
        r == path_of(p),
{
    p.as_path()
}

/// Which file an alias came from.
#[derive(Debug, Clone, Copy, PartialEq, Eq, Structural)]
pub enum Source {
    Project,
    Global,
}

/// The wording used for each source in the line that reports a switch.
pub open spec fn source_wording(source: Source) -> Seq<char> {
    match source {
        Source::Project => "this project"@,
        Source::Global => "your personal aliases"@,
    }
}

impl Source {
    /// Wording for the line that reports a switch.
    pub fn describe(self) -> (text: &'static str)
        ensures
            text@ == source_wording(self),
    {
        match self {
            Source::Project => "this project",
            Source::Global => "your personal aliases",
        }
    }
}


/// Where the search for the project file goes next. The search starts in
/// the working directory, at depth 0, and climbs one parent per step.
#[derive(Debug, Clone, Copy, PartialEq, Eq, Structural)]
pub enum ProjectSearch {
    /// The directory at this depth holds the project file: read it.
    Found(usize),
    /// Not here: look in the parent, at this depth.
    Up(usize),
    /// Not here and there is no parent: there is no project file.
    NotFound,
}

/// One step of the search for the project file, at the directory `depth`
/// levels above the working directory: stop at the first directory that
/// holds the file, climb while there is a parent, and give up at the root.
/// Running from a subdirectory of a checkout therefore finds the checkout's
/// file.
pub fn project_search_step(depth: usize, is_file: bool, has_parent: bool) -> (s: ProjectSearch)
    requires
        depth < usize::MAX,
    ensures
        is_file ==> s == ProjectSearch::Found(depth),
        !is_file && has_parent ==> s == ProjectSearch::Up((depth + 1) as usize),
        !is_file && !has_parent ==> s is NotFound,
{
    if is_file {
        ProjectSearch::Found(depth)
    } else if has_parent {
        ProjectSearch::Up(depth + 1)
    } else {
        ProjectSearch::NotFound
    }
}

/// Whether the personal file is read: only from a home directory that the
/// platform names, and only when the file exists there. With no home
/// directory there is no personal file, never one in the working directory.
pub fn personal_file_read(home_given: bool, home_file_exists: bool) -> (b: bool)
    ensures
        b == (home_given && home_file_exists),
{
    home_given && home_file_exists
}

/// One alias file as written on disk: each alias name with the user id it
/// stands for.
#[derive(Debug)]
pub struct AliasFile {
    pub aliases: Vec<(String, u64)>,
}

/// The id that `aliases` gives `name`; when a name occurs twice, the later
/// occurrence counts, as it would in a map filled in order.
pub open spec fn file_alias(aliases: Seq<(String, u64)>, name: Seq<char>) -> Option<u64>
    decreases aliases.len(),
{
    if aliases.len() == 0 {
        None
    } else if aliases.last().0@ == name {
        Some(aliases.last().1)
    } else {
        file_alias(aliases.drop_last(), name)
    }
}

/// Within one file the last occurrence of a name decides: a name gets the
/// id of its last occurrence, and nothing when it does not occur.
pub proof fn law_file_alias_last_occurrence(aliases: Seq<(String, u64)>, name: Seq<char>)
    ensures
        (forall|i: int| 0 <= i < aliases.len() ==> (#[trigger] aliases[i]).0@ != name)
            ==> file_alias(aliases, name) is None,
        forall|i: int|
            0 <= i < aliases.len() && (#[trigger] aliases[i]).0@ == name && (forall|j: int|
                i < j < aliases.len() ==> aliases[j].0@ != name) ==> file_alias(aliases, name)
                == Some(aliases[i].1),
    decreases aliases.len(),
{
    if aliases.len() > 0 {
        let rest = aliases.drop_last();
        law_file_alias_last_occurrence(rest, name);
        assert forall|i: int| 0 <= i < rest.len() implies #[trigger] rest[i] == aliases[i] by {}
        assert forall|i: int|
            0 <= i < aliases.len() && (#[trigger] aliases[i]).0@ == name && (forall|j: int|
                i < j < aliases.len() ==> aliases[j].0@ != name) implies file_alias(aliases, name)
            == Some(aliases[i].1) by {
            if i < aliases.len() - 1 {
                assert(aliases.last() == aliases[aliases.len() - 1]);
                assert(rest[i] == aliases[i]);
                assert(forall|j: int| i < j < rest.len() ==> #[trigger] rest[j] == aliases[j]);
            }
        }
        if forall|i: int| 0 <= i < aliases.len() ==> (#[trigger] aliases[i]).0@ != name {
            assert(aliases[aliases.len() - 1].0@ != name);
            assert(forall|i: int| 0 <= i < rest.len() ==> #[trigger] rest[i] == aliases[i]);
        }
    }
}

/// The aliases of a file that may be absent.
pub open spec fn present_aliases(file: Option<(PathBuf, AliasFile)>) -> Seq<(String, u64)> {
    match file {
        Some((_, f)) => f.aliases@,
        None => Seq::empty(),
    }
}

/// What the merged files say of `name`: the project file's id where it names
/// it, else the personal file's, each with the file it came from.
pub open spec fn merged_alias(
    project: Option<(PathBuf, AliasFile)>,
    global: Option<(PathBuf, AliasFile)>,
    name: Seq<char>,
) -> Option<(u64, Source)> {
    match file_alias(present_aliases(project), name) {
        Some(id) => Some((id, Source::Project)),
        None => match file_alias(present_aliases(global), name) {
            Some(id) => Some((id, Source::Global)),
            None => None,
        },
    }
}

#[derive(Debug)]
struct AliasEntry {
    name: String,
    id: u64,
    source: Source,
}

/// The entry that decides `name`: the last one with that name.
spec fn entry_lookup(entries: Seq<AliasEntry>, name: Seq<char>) -> Option<(u64, Source)>
    decreases entries.len(),
{
    if entries.len() == 0 {
        None
    } else if entries.last().name@ == name {
        Some((entries.last().id, entries.last().source))
    } else {
        entry_lookup(entries.drop_last(), name)
    }
}

/// The merged view of the project file and the personal one.
#[derive(Debug)]
pub struct Config {
    entries: Vec<AliasEntry>,
    project_path: Option<PathBuf>,
    global_path: Option<PathBuf>,
}

impl Config {
    /// The id `name` stands for, and the file that says so.
    pub closed spec fn alias(&self, name: Seq<char>) -> Option<(u64, Source)> {
        entry_lookup(self.entries@, name)
    }

    /// The path of the project file the aliases were read from.
    pub closed spec fn project_file(&self) -> Option<PathBuf> {
        self.project_path
    }

    /// The path of the personal file the aliases were read from.
    pub closed spec fn personal_file(&self) -> Option<PathBuf> {
        self.global_path
    }

    /// Whether the aliases include a project file.
    pub open spec fn has_project_file(&self) -> bool {
        self.project_file() is Some
    }

    /// Whether the aliases include a personal file.
    pub open spec fn has_personal_file(&self) -> bool {
        self.personal_file() is Some
    }

    /// Build the aliases from the project file and the personal one, each
    /// given with the path it was read from. The personal aliases go in
    /// first and the project's over them, so that for every name the project
    /// file wins and a personal alias the project does not mention survives.
    pub fn from_alias_files(
        project: Option<(PathBuf, AliasFile)>,
        global: Option<(PathBuf, AliasFile)>,
    ) -> (config: Config)
        ensures
            forall|name: Seq<char>| #[trigger] config.alias(name) == merged_alias(project, global, name),
            config.project_file() == match project {
                Some((path, _)) => Some(path),
                None => None::<PathBuf>,
            },
            config.personal_file() == match global {
                Some((path, _)) => Some(path),
                None => None::<PathBuf>,
            },
    {
        let ghost project_aliases = present_aliases(project);
        let ghost global_aliases = present_aliases(global);
        let mut config = Config { entries: Vec::new(), project_path: None, global_path: None };
        assert forall|name: Seq<char>| #[trigger] config.alias(name) is None by {
            assert(config.entries@.len() == 0);
        }
        match global {
            Some((path, file)) => {
                assert(global_aliases == file.aliases@);
                config.global_path = Some(path);
                config.add_file(&file.aliases, Source::Global);
            },
            None => {},
        }
        assert forall|name: Seq<char>| #[trigger] config.alias(name) == match file_alias(global_aliases, name) {
            Some(id) => Some((id, Source::Global)),
            None => None,
        } by {
            if global is None {
                assert(global_aliases.len() == 0);
            }
        }
        match project {
            Some((path, file)) => {
                assert(project_aliases == file.aliases@);
                config.project_path = Some(path);
                config.add_file(&file.aliases, Source::Project);
            },
            None => {},
        }
        assert forall|name: Seq<char>| #[trigger] config.alias(name) == merged_alias(project, global, name) by {
            if project is None {
                assert(project_aliases.len() == 0);
            }
        }
        config
    }

    /// A config that knows the one alias `name`, from `source`, and no file.
    pub fn with_alias(name: &str, id: u64, source: Source) -> (config: Config)
        ensures
            forall|other: Seq<char>| #[trigger] config.alias(other) == if other == name@ {
                Some((id, source))
            } else {
                None
            },
            !config.has_project_file(),
            !config.has_personal_file(),
    {
        let mut entries: Vec<AliasEntry> = Vec::new();
        entries.push(AliasEntry { name: String::from_str(name), id, source });
        let config = Config { entries, project_path: None, global_path: None };
        assert forall|other: Seq<char>| #[trigger] config.alias(other) == if other == name@ {
            Some((id, source))
        } else {
            None
        } by {
            assert(entry_lookup(config.entries@.drop_last(), other) is None);
        }
        config
    }

    /// The account this name points at, as a decimal user id, and which file
    /// said so.
    pub fn resolve_alias(&self, name: &str) -> (r: Option<(String, Source)>)
        ensures
            match r {
                Some((id, source)) => self.alias(name@) matches Some((n, s)) && id@ == decimal(
                    n as nat,
                ) && source == s,
                None => self.alias(name@) is None,
            },
    {
        let wanted = String::from_str(name);
        let mut i: usize = self.entries.len();
        assert(self.entries@.take(i as int) =~= self.entries@);
        while i > 0
            invariant
                i <= self.entries.len(),
                wanted@ == name@,
                entry_lookup(self.entries@, name@) == entry_lookup(self.entries@.take(i as int), name@),
            decreases i,
        {
            let ghost prefix = self.entries@.take(i as int);
            assert(prefix.drop_last() =~= self.entries@.take(i - 1));
            if self.entries[i - 1].name == wanted {
                let entry = &self.entries[i - 1];
                return Some((u64_to_decimal(entry.id), entry.source));
            }
            i = i - 1;
        }
        None
    }

    /// The project file the aliases were read from, if there was one.
    pub fn project_path(&self) -> (r: Option<&Path>)
        ensures
            r is Some == self.has_project_file(),
            r matches Some(p) ==> self.project_file() matches Some(q) && p == path_of(&q),
    {
        match &self.project_path {
            Some(p) => Some(path_buf_as_path(p)),
            None => None,
        }
    }

    /// The personal file the aliases were read from, if there was one.
    pub fn global_path(&self) -> (r: Option<&Path>)
        ensures
            r is Some == self.has_personal_file(),
            r matches Some(p) ==> self.personal_file() matches Some(q) && p == path_of(&q),
    {
        match &self.global_path {
            Some(p) => Some(path_buf_as_path(p)),
            None => None,
        }
    }

    /// Add every alias of `aliases`, marked with `source`, over the ones
    /// already there.
    fn add_file(&mut self, aliases: &Vec<(String, u64)>, source: Source)
        ensures
            final(self).project_path == old(self).project_path,
            final(self).global_path == old(self).global_path,
            forall|name: Seq<char>| #[trigger] final(self).alias(name) == match file_alias(aliases@, name) {
                Some(id) => Some((id, source)),
                None => old(self).alias(name),
            },
    {
        let mut i: usize = 0;
        assert forall|name: Seq<char>| #[trigger] file_alias(aliases@.take(0), name) is None by {
            assert(aliases@.take(0).len() == 0);
        }
        while i < aliases.len()
            invariant
                i <= aliases.len(),
                self.project_path == old(self).project_path,
                self.global_path == old(self).global_path,
                forall|name: Seq<char>| #[trigger] self.alias(name) == match file_alias(aliases@.take(i as int), name) {
                    Some(id) => Some((id, source)),
                    None => old(self).alias(name),
                },
            decreases aliases.len() - i,
        {
            let entry = AliasEntry { name: aliases[i].0.clone(), id: aliases[i].1, source };
            let ghost prev = self.entries@;
            let ghost before = *self;
            self.entries.push(entry);
            assert(self.entries@.drop_last() =~= prev);
            assert(aliases@.take(i + 1).drop_last() =~= aliases@.take(i as int));
            assert forall|name: Seq<char>| #[trigger] self.alias(name) == match file_alias(aliases@.take(i + 1), name) {
                Some(id) => Some((id, source)),
                None => old(self).alias(name),
            } by {
                assert(before.alias(name) == match file_alias(aliases@.take(i as int), name) {
                    Some(id) => Some((id, source)),
                    None => old(self).alias(name),
                });
            }
            i = i + 1;
        }
        assert(aliases@.take(aliases.len() as int) =~= aliases@);
    }
}

/// The project file wins: a name the project file gives an id resolves to
/// that id, marked as the project's, whatever the personal file says.
pub proof fn law_project_file_wins(
    project: Option<(PathBuf, AliasFile)>,
    global: Option<(PathBuf, AliasFile)>,
    name: Seq<char>,
    id: u64,
)
    requires
        file_alias(present_aliases(project), name) == Some(id),
    ensures
        merged_alias(project, global, name) == Some((id, Source::Project)),
{
}

/// The files merge rather than replace each other: a personal alias the
/// project file does not mention survives, marked as personal.
pub proof fn law_personal_alias_survives(
    project: Option<(PathBuf, AliasFile)>,
    global: Option<(PathBuf, AliasFile)>,
    name: Seq<char>,
    id: u64,
)
    requires
        file_alias(present_aliases(project), name) is None,
        file_alias(present_aliases(global), name) == Some(id),
    ensures
        merged_alias(project, global, name) == Some((id, Source::Global)),
{
}

/// With neither file there are no aliases, and that is not an error.
pub proof fn law_no_files_no_aliases(name: Seq<char>)
    ensures
        merged_alias(None, None, name) is None,
{
}

impl Default for AliasFile {
    /// A file with no aliases.
    fn default() -> (file: AliasFile)
        ensures
            file.aliases@.len() == 0,
    {
        AliasFile { aliases: Vec::new() }
    }
}

impl Default for Config {
    /// No aliases and no file.
    fn default() -> (config: Config)
        ensures
            forall|name: Seq<char>| #[trigger] config.alias(name) is None,
            !config.has_project_file(),
            !config.has_personal_file(),
    {
        Config { entries: Vec::new(), project_path: None, global_path: None }
    }
}

} // verus!
