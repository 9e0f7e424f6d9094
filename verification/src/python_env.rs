//! A Python environment on disk: where its tools live, what pip is asked to
//! install, and what `pip freeze` reports.

use vstd::prelude::*;
use crate::paths::{join, join_path};
use crate::text::{chars_of, lines_of, line_bounds, push_text, split_bounds, split_on, string_of_range, trim, trim_text};
use vstd::string::StringExecFns;

verus! {

/// A Python environment; the Python version is held as its text.
#[derive(Debug, Clone)]
pub struct PythonEnvironment {
    path: String,
    python_version: String,
    name: Option<String>,
}

impl PythonEnvironment {
    /// The environment directory.
    pub closed spec fn path_spec(&self) -> Seq<char> {
        self.path@
    }

    /// The Python version.
    pub closed spec fn version_spec(&self) -> Seq<char> {
        self.python_version@
    }

    /// The name, if one was set.
    pub closed spec fn name_spec(&self) -> Option<Seq<char>> {
        match self.name {
            Some(n) => Some(n@),
            None => None,
        }
    }

    /// An environment at `path` for `python_version`, with no name yet.
    pub fn new(path: String, python_version: String) -> (e: Self)
        ensures
            e.path_spec() == path@,
            e.version_spec() == python_version@,
            e.name_spec() is None,
    {
        PythonEnvironment { path, python_version, name: None }
    }

    /// The pip executable of the environment (`bin/pip` inside it).
    pub fn pip_executable(&self) -> (p: String)
        ensures
            p@ == join_path(join_path(self.path_spec(), "bin"@), "pip"@),
    {
        let bin = join(self.path.as_str(), "bin");
        join(bin.as_str(), "pip")
    }

    /// The environment directory.
    pub fn path(&self) -> (p: &str)
        ensures
            p@ == self.path_spec(),
    {
        self.path.as_str()
    }

    /// The Python version.
    pub fn python_version(&self) -> (v: &str)
        ensures
            v@ == self.version_spec(),
    {
        self.python_version.as_str()
    }

    /// Names the environment.
    pub fn set_name(&mut self, name: String)
        ensures
            final(self).name_spec() == Some(name@),
            final(self).path_spec() == old(self).path_spec(),
            final(self).version_spec() == old(self).version_spec(),
    {
        self.name = Some(name);
    }

    /// The name, if one was set.
    pub fn name(&self) -> (n: Option<&str>)
        ensures
            match n {
                Some(s) => self.name_spec() == Some(s@),
                None => self.name_spec() is None,
            },
    {
        match &self.name {
            Some(s) => Some(s.as_str()),
            None => None,
        }
    }
}

/// The requirement pip is asked to install: `name==version`.
pub fn pip_install_spec(name: &str, version: &str) -> (s: String)
    ensures
        s@ == name@ + "=="@ + version@,
{
    let mut s = String::from_str(name);
    push_text(&mut s, "==");
    push_text(&mut s, version);
    s
}

/// The package of one line of `pip freeze` output: split at `=`, the
/// trimmed first piece is the name and the trimmed second piece the
/// version (empty for `name==version`, whose second piece is empty); a line
/// without `=` names nothing.
pub open spec fn freeze_entry(line: Seq<char>) -> Option<(Seq<char>, Seq<char>)> {
    let parts = split_on(line, '=');
    if parts.len() >= 2 {
        Some((trim(parts[0]), trim(parts[1])))
    } else {
        None
    }
}

/// The packages of `pip freeze` output, line by line.
pub open spec fn freeze_entries(lines: Seq<Seq<char>>) -> Seq<(Seq<char>, Seq<char>)>
    decreases lines.len(),
{
    if lines.len() == 0 {
        Seq::empty()
    } else {
        let r = freeze_entries(lines.drop_last());
        match freeze_entry(lines.last()) {
            Some(e) => r.push(e),
            None => r,
        }
    }
}

/// The packages that `pip freeze` reported (see `freeze_entries`).
pub fn parse_freeze(output: &str) -> (r: Vec<(String, String)>)
    ensures
        r@.map_values(|p: (String, String)| (p.0@, p.1@)) == freeze_entries(lines_of(output@)),
{
    let v = chars_of(output);
    let bounds = line_bounds(&v);
    let ghost lines = lines_of(v@);
    let mut r: Vec<(String, String)> = Vec::new();
    let mut k: usize = 0;
    while k < bounds.len()
        invariant
            lines == lines_of(v@),
            v@ == output@,
            bounds@.len() == lines.len(),
            forall|j: int|
                0 <= j < bounds@.len() ==> (#[trigger] bounds@[j]).0 <= bounds@[j].1 <= v@.len() && v@.subrange(
                    bounds@[j].0 as int,
                    bounds@[j].1 as int,
                ) == lines[j],
            k <= bounds@.len(),
            r@.map_values(|p: (String, String)| (p.0@, p.1@)) == freeze_entries(lines.take(k as int)),
        decreases bounds@.len() - k,
    {
        let (a, b) = bounds[k];
        let parts = split_bounds(&v, a, b, '=');
        let ghost line = v@.subrange(a as int, b as int);
        proof {
            assert(lines.take(k + 1).drop_last() =~= lines.take(k as int));
            assert(lines.take(k + 1).last() == lines[k as int]);
        }
        if parts.len() >= 2 {
            let name = trim_text(string_of_range(&v, parts[0].0, parts[0].1).as_str());
            let version = trim_text(string_of_range(&v, parts[1].0, parts[1].1).as_str());
            let ghost before = r@;
            r.push((name, version));
            assert(r@.map_values(|p: (String, String)| (p.0@, p.1@)) =~= before.map_values(
                |p: (String, String)| (p.0@, p.1@),
            ).push((r@.last().0@, r@.last().1@)));
        }
        k += 1;
    }
    assert(lines.take(bounds@.len() as int) =~= lines);
    r
}

} // verus!
