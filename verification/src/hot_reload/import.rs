//! Python import statements: reading them from a line of source, finding
//! the package each one needs, and collecting the packages a whole source
//! file imports.
//!
//! A `from` line has the shape `from <path> import <names>`: the word
//! `from`, whitespace, a path of word characters and dots, whitespace, the
//! word `import`, whitespace, and the rest of the line (no line break). An
//! `import` line has the shape `import <modules>`. Word characters are those
//! of Unicode's word class (letters, marks, decimal digits, connector
//! punctuation, join controls); whitespace is Unicode white space.

use vstd::prelude::*;
use crate::text::{
    chars_of, char_is_whitespace, has_prefix, lemma_split_nonempty, line_bounds, lines_of, skip_space,
    skip_space_at, skip_word, skip_word_at, split_bounds, split_on, starts_with, starts_with_at, string_of_range,
    texts_of, trim, trim_text,
};
use vstd::string::StringExecFns;

verus! {

/// Whether `c` is in Unicode's word class (`\w` of regular expressions).
pub uninterp spec fn regex_word_char(c: char) -> bool;

/// `regex_syntax::is_word_character`: whether `c` is a Unicode word
/// character (Alphabetic, Join_Control, Decimal_Number, Mark or
/// Connector_Punctuation), the class `\w` of the `regex` crate. The result
/// is the named class of `c`. It panics only when the crate is built without
/// its Unicode tables, which the default features include.
#[verifier::external_body]
fn is_word_char(c: char) -> (b: bool)
    ensures
        b == regex_word_char(c),
{
    regex_syntax::is_word_character(c)
}

/// A character of a module path: a word character or a dot.
pub open spec fn path_char(c: char) -> bool {
    c == '.' || regex_word_char(c)
}

/// The first position at or after `i` that holds no path character (or the end).
pub open spec fn skip_path(s: Seq<char>, i: int) -> int
    decreases s.len() - i,
{
    if 0 <= i < s.len() && path_char(s[i]) {
        skip_path(s, i + 1)
    } else {
        i
    }
}

proof fn lemma_skip_path_bounds(s: Seq<char>, i: int)
    requires
        0 <= i <= s.len(),
    ensures
        i <= skip_path(s, i) <= s.len(),
    decreases s.len() - i,
{
    if i < s.len() {
        lemma_skip_path_bounds(s, i + 1);
    }
}

/// Skips path characters in `v` from `i`.
fn skip_path_at(v: &Vec<char>, i: usize) -> (j: usize)
    requires
        i <= v@.len(),
    ensures
        j == skip_path(v@, i as int),
        i <= j <= v@.len(),
{
    proof {
        lemma_skip_path_bounds(v@, i as int);
    }
    let mut j = i;
    while j < v.len() && (v[j] == '.' || is_word_char(v[j]))
        invariant
            i <= j <= v@.len(),
            skip_path(v@, j as int) == skip_path(v@, i as int),
        decreases v@.len() - j,
    {
        j += 1;
    }
    j
}

/// Whether `c` occurs in `v` from position `start` on.
fn has_char_from(v: &Vec<char>, start: usize, c: char) -> (b: bool)
    requires
        start <= v@.len(),
    ensures
        b == v@.subrange(start as int, v@.len() as int).contains(c),
{
    let mut i = start;
    while i < v.len()
        invariant
            start <= i <= v@.len(),
            forall|j: int| start <= j < i ==> v@[j] != c,
        decreases v@.len() - i,
    {
        if v[i] == c {
            assert(v@.subrange(start as int, v@.len() as int)[i - start] == c);
            return true;
        }
        i += 1;
    }
    assert forall|j: int| 0 <= j < v@.len() - start implies v@.subrange(start as int, v@.len() as int)[j] != c by {
        assert(v@.subrange(start as int, v@.len() as int)[j] == v@[start + j]);
    }
    false
}

/// The module path and the imported text of a `from` line `t`, or `None`
/// when `t` does not have that shape.
pub open spec fn from_captures(t: Seq<char>) -> Option<(Seq<char>, Seq<char>)> {
    if !has_prefix(t, "from"@) {
        None
    } else {
        let a = skip_space(t, 4);
        let b = skip_path(t, a);
        let c = skip_space(t, b);
        if a == 4 || b == a || c == b || !has_prefix(t.skip(c), "import"@) {
            None
        } else {
            let e = skip_space(t, c + 6);
            if e == c + 6 || e >= t.len() || t.subrange(e, t.len() as int).contains('\n') {
                None
            } else {
                Some((t.subrange(a, b), t.subrange(e, t.len() as int)))
            }
        }
    }
}

/// The imported text of an `import` line `t`, or `None` when `t` does not
/// have that shape.
pub open spec fn import_captures(t: Seq<char>) -> Option<Seq<char>> {
    if !has_prefix(t, "import"@) {
        None
    } else {
        let a = skip_space(t, 6);
        if a == 6 || a >= t.len() || t.subrange(a, t.len() as int).contains('\n') {
            None
        } else {
            Some(t.subrange(a, t.len() as int))
        }
    }
}

/// Matches a `from` line (see `from_captures`).
fn match_from(t: &Vec<char>) -> (r: Option<(String, String)>)
    ensures
        match from_captures(t@) {
            Some(c) => r matches Some(p) && p.0@ == c.0 && p.1@ == c.1,
            None => r is None,
        },
{
    proof {
        reveal_strlit("from");
        reveal_strlit("import");
    }
    if !starts_with(t, "from") {
        return None;
    }
    let a = skip_space_at(t, 4);
    let b = skip_path_at(t, a);
    let c = skip_space_at(t, b);
    if a == 4 || b == a || c == b {
        return None;
    }
    if !starts_with_at(t, c, "import") {
        return None;
    }
    assert(t@.skip(c as int).len() == t@.len() - c);
    assert("import"@.len() == 6);
    assert(has_prefix(t@.skip(c as int), "import"@));
    let n = t.len();
    assert(c + 6 <= n);
    let d = c + 6;
    let e = skip_space_at(t, d);
    if e == d || e >= t.len() || has_char_from(t, e, '\n') {
        return None;
    }
    Some((string_of_range(t, a, b), string_of_range(t, e, t.len())))
}

/// Matches an `import` line (see `import_captures`).
fn match_import(t: &Vec<char>) -> (r: Option<String>)
    ensures
        match import_captures(t@) {
            Some(c) => r matches Some(p) && p@ == c,
            None => r is None,
        },
{
    proof {
        reveal_strlit("import");
    }
    if !starts_with(t, "import") {
        return None;
    }
    let a = skip_space_at(t, 6);
    if a == 6 || a >= t.len() || has_char_from(t, a, '\n') {
        return None;
    }
    Some(string_of_range(t, a, t.len()))
}

/// An import statement as the texts of its parts: module, imported names,
/// whether it is a `from` import, and the path it imports from.
pub type ImportView = (Seq<char>, Seq<Seq<char>>, bool, Option<Seq<char>>);

/// The pieces of `pieces` that are not blank, trimmed.
pub open spec fn nonblank_trimmed(pieces: Seq<Seq<char>>) -> Seq<Seq<char>>
    decreases pieces.len(),
{
    if pieces.len() == 0 {
        Seq::empty()
    } else {
        let r = nonblank_trimmed(pieces.drop_last());
        if trim(pieces.last()).len() > 0 {
            r.push(trim(pieces.last()))
        } else {
            r
        }
    }
}

/// The first word of `m`.
pub open spec fn first_word(m: Seq<char>) -> Seq<char> {
    m.subrange(0, skip_word(m, 0))
}

/// The statements of a `from` line with path `path` and imported text
/// `names`: one statement whose module is the first name, when any name is
/// given.
pub open spec fn from_statement(path: Seq<char>, names: Seq<char>) -> Seq<ImportView> {
    let ns = nonblank_trimmed(split_on(names, ','));
    if ns.len() > 0 {
        seq![(ns[0], ns, true, Some(path))]
    } else {
        Seq::empty()
    }
}

/// The statements of an `import` line whose modules are the comma-separated
/// `pieces`: one per non-blank piece, named by its first word (dropping an
/// `as` alias).
pub open spec fn plain_statements(pieces: Seq<Seq<char>>) -> Seq<ImportView>
    decreases pieces.len(),
{
    if pieces.len() == 0 {
        Seq::empty()
    } else {
        let r = plain_statements(pieces.drop_last());
        let m = trim(pieces.last());
        if m.len() > 0 {
            r.push((first_word(m), Seq::empty(), false, None))
        } else {
            r
        }
    }
}

/// The import statements of one line of Python source: none for a comment,
/// a blank line or the opening line of a parenthesized import; the `from`
/// or `import` statements otherwise.
pub open spec fn parsed_imports(line: Seq<char>) -> Seq<ImportView> {
    let t = trim(line);
    if t.len() == 0 || t[0] == '#' {
        Seq::empty()
    } else if t.contains('(') && !t.contains(')') {
        Seq::empty()
    } else if has_prefix(t, "from "@) {
        match from_captures(t) {
            Some(c) => from_statement(c.0, c.1),
            None => Seq::empty(),
        }
    } else if has_prefix(t, "import "@) {
        match import_captures(t) {
            Some(c) => plain_statements(split_on(c, ',')),
            None => Seq::empty(),
        }
    } else {
        Seq::empty()
    }
}

/// Represents a Python import statement
#[derive(Debug, Clone, PartialEq, Eq)]
pub struct ImportStatement {
    /// The module being imported
    pub module: String,
    /// Specific names being imported (for 'from' imports)
    pub names: Vec<String>,
    /// Whether this is a 'from' import
    pub is_from: bool,
    /// The full module path for 'from' imports
    pub from_path: Option<String>,
}

/// The statement as texts.
pub open spec fn import_view(i: ImportStatement) -> ImportView {
    (
        i.module@,
        texts_of(i.names@),
        i.is_from,
        match i.from_path {
            Some(p) => Some(p@),
            None => None,
        },
    )
}

/// The statements as texts.
pub open spec fn imports_view(s: Seq<ImportStatement>) -> Seq<ImportView> {
    s.map_values(|i: ImportStatement| import_view(i))
}

/// The root package an import needs: the first dotted segment of the path
/// of a `from` import, or of the module of a plain import.
pub open spec fn package_name_spec(i: ImportView) -> Seq<char> {
    if i.2 {
        match i.3 {
            Some(p) => split_on(p, '.')[0],
            None => i.0,
        }
    } else {
        split_on(i.0, '.')[0]
    }
}

/// The text of `s` up to its first dot.
fn first_segment(s: &str) -> (r: String)
    ensures
        r@ == split_on(s@, '.')[0],
{
    let v = chars_of(s);
    proof {
        lemma_split_nonempty(s@, '.');
        assert(v@.subrange(0, v@.len() as int) =~= v@);
    }
    let b = split_bounds(&v, 0, v.len(), '.');
    string_of_range(&v, b[0].0, b[0].1)
}

/// Pushes `s` onto `v`.
fn push_view(v: &mut Vec<ImportStatement>, s: ImportStatement)
    ensures
        imports_view(final(v)@) == imports_view(old(v)@).push(import_view(s)),
{
    v.push(s);
    assert(imports_view(v@) =~= imports_view(old(v)@).push(import_view(s)));
}

impl ImportStatement {
    /// A plain import of `module`.
    pub fn new(module: String) -> (s: Self)
        ensures
            s.module == module,
            s.names@.len() == 0,
            !s.is_from,
            s.from_path is None,
    {
        ImportStatement { module, names: Vec::new(), is_from: false, from_path: None }
    }

    /// A `from` import of `names` out of `from_path`, with `module` as its module.
    pub fn with_names(module: String, names: Vec<String>, from_path: String) -> (s: Self)
        ensures
            s.module == module,
            s.names == names,
            s.is_from,
            s.from_path == Some(from_path),
    {
        ImportStatement { module, names, is_from: true, from_path: Some(from_path) }
    }

    /// Get the root package name that needs to be installed
    pub fn get_package_name(&self) -> (r: String)
        ensures
            r@ == package_name_spec(import_view(*self)),
    {
        if self.is_from {
            match &self.from_path {
                Some(p) => first_segment(p.as_str()),
                None => self.module.clone(),
            }
        } else {
            first_segment(self.module.as_str())
        }
    }

    /// The statement of a `from` line with path `path` and imported text
    /// `names` (see `from_statement`).
    pub fn from_captures(path: &str, names: &str) -> (r: Vec<Self>)
        ensures
            imports_view(r@) == from_statement(path@, names@),
    {
        let v = chars_of(names);
        proof {
            assert(v@.subrange(0, v@.len() as int) =~= v@);
        }
        let pieces = split_bounds(&v, 0, v.len(), ',');
        let ghost ps = split_on(v@, ',');
        let mut ns: Vec<String> = Vec::new();
        let mut k: usize = 0;
        while k < pieces.len()
            invariant
                ps == split_on(v@, ','),
                pieces@.len() == ps.len(),
                forall|j: int|
                    0 <= j < pieces@.len() ==> (#[trigger] pieces@[j]).0 <= pieces@[j].1 <= v@.len()
                        && v@.subrange(pieces@[j].0 as int, pieces@[j].1 as int) == ps[j],
                k <= pieces@.len(),
                texts_of(ns@) == nonblank_trimmed(ps.take(k as int)),
            decreases pieces@.len() - k,
        {
            let (a, b) = pieces[k];
            let piece = string_of_range(&v, a, b);
            let m = trim_text(piece.as_str());
            proof {
                assert(ps.take(k + 1).drop_last() =~= ps.take(k as int));
                assert(ps.take(k + 1).last() == ps[k as int]);
            }
            if m.unicode_len() > 0 {
                let ghost before = ns@;
                ns.push(m);
                assert(texts_of(ns@) =~= texts_of(before).push(ns@.last()@));
            }
            k += 1;
        }
        assert(ps.take(pieces@.len() as int) =~= ps);
        let mut r: Vec<Self> = Vec::new();
        if ns.len() > 0 {
            let first = ns[0].clone();
            let s = ImportStatement::with_names(first, ns, String::from_str(path));
            push_view(&mut r, s);
        }
        assert(imports_view(r@) =~= from_statement(path@, names@));
        r
    }

    /// The statements of an `import` line with imported text `modules`
    /// (see `plain_statements`).
    pub fn from_module_list(modules: &str) -> (r: Vec<Self>)
        ensures
            imports_view(r@) == plain_statements(split_on(modules@, ',')),
    {
        let v = chars_of(modules);
        proof {
            assert(v@.subrange(0, v@.len() as int) =~= v@);
        }
        let pieces = split_bounds(&v, 0, v.len(), ',');
        let ghost ps = split_on(v@, ',');
        let mut r: Vec<Self> = Vec::new();
        let mut k: usize = 0;
        while k < pieces.len()
            invariant
                ps == split_on(v@, ','),
                pieces@.len() == ps.len(),
                forall|j: int|
                    0 <= j < pieces@.len() ==> (#[trigger] pieces@[j]).0 <= pieces@[j].1 <= v@.len()
                        && v@.subrange(pieces@[j].0 as int, pieces@[j].1 as int) == ps[j],
                k <= pieces@.len(),
                imports_view(r@) == plain_statements(ps.take(k as int)),
            decreases pieces@.len() - k,
        {
            let (a, b) = pieces[k];
            let piece = string_of_range(&v, a, b);
            let m = trim_text(piece.as_str());
            proof {
                assert(ps.take(k + 1).drop_last() =~= ps.take(k as int));
                assert(ps.take(k + 1).last() == ps[k as int]);
            }
            if m.unicode_len() > 0 {
                let mv = chars_of(m.as_str());
                let w = skip_word_at(&mv, 0);
                let name = string_of_range(&mv, 0, w);
                let st = ImportStatement::new(name);
                assert(texts_of(st.names@) =~= Seq::<Seq<char>>::empty());
                push_view(&mut r, st);
            }
            k += 1;
        }
        assert(ps.take(pieces@.len() as int) =~= ps);
        r
    }

    /// Parse Python imports from a line of code (see `parsed_imports`).
    pub fn parse_from_line(line: &str) -> (r: Vec<Self>)
        ensures
            imports_view(r@) == parsed_imports(line@),
    {
        let t = trim_text(line);
        let tv = chars_of(t.as_str());
        if tv.len() == 0 || tv[0] == '#' {
            return Vec::new();
        }
        if crate::text::contains_char(&tv, '(') && !crate::text::contains_char(&tv, ')') {
            return Vec::new();
        }
        if starts_with(&tv, "from ") {
            match match_from(&tv) {
                Some((path, names)) => Self::from_captures(path.as_str(), names.as_str()),
                None => Vec::new(),
            }
        } else if starts_with(&tv, "import ") {
            match match_import(&tv) {
                Some(modules) => Self::from_module_list(modules.as_str()),
                None => Vec::new(),
            }
        } else {
            Vec::new()
        }
    }
}

/// `x` added to the distinct texts `s` unless already there.
pub open spec fn add_unique(s: Seq<Seq<char>>, x: Seq<char>) -> Seq<Seq<char>> {
    if s.contains(x) {
        s
    } else {
        s.push(x)
    }
}

/// The package names of `imports` added to `s` in order.
pub open spec fn add_packages(s: Seq<Seq<char>>, imports: Seq<ImportView>) -> Seq<Seq<char>>
    decreases imports.len(),
{
    if imports.len() == 0 {
        s
    } else {
        add_unique(add_packages(s, imports.drop_last()), package_name_spec(imports.last()))
    }
}

/// The packages found and whether a parenthesized import is open, after
/// reading `lines` of a source file. Comments and blank lines are skipped;
/// the line that closes a parenthesized import is read on its own, the
/// lines inside it are not; a line that opens one starts it.
pub open spec fn scan_imports(lines: Seq<Seq<char>>) -> (Seq<Seq<char>>, bool)
    decreases lines.len(),
{
    if lines.len() == 0 {
        (Seq::empty(), false)
    } else {
        let (found, open) = scan_imports(lines.drop_last());
        let t = trim(lines.last());
        if t.len() == 0 || t[0] == '#' {
            (found, open)
        } else if open {
            if t.contains(')') {
                (add_packages(found, parsed_imports(t)), false)
            } else {
                (found, true)
            }
        } else if t.contains('(') && !t.contains(')') {
            (found, true)
        } else {
            (add_packages(found, parsed_imports(t)), false)
        }
    }
}

/// Adds the package names of `imports` to `found`, keeping them distinct.
fn add_package_names(found: &mut Vec<String>, imports: &Vec<ImportStatement>)
    ensures
        texts_of(final(found)@) == add_packages(texts_of(old(found)@), imports_view(imports@)),
{
    let ghost start = texts_of(found@);
    let mut i: usize = 0;
    while i < imports.len()
        invariant
            i <= imports@.len(),
            texts_of(found@) == add_packages(start, imports_view(imports@).take(i as int)),
        decreases imports@.len() - i,
    {
        let name = imports[i].get_package_name();
        let mut present = false;
        let mut j: usize = 0;
        while j < found.len()
            invariant
                j <= found@.len(),
                present == (exists|q: int| 0 <= q < j && found@[q]@ == name@),
            decreases found@.len() - j,
        {
            if crate::text::same_text(found[j].as_str(), name.as_str()) {
                present = true;
            }
            j += 1;
        }
        proof {
            let iv = imports_view(imports@);
            assert(iv.take(i + 1).drop_last() =~= iv.take(i as int));
            assert(iv.take(i + 1).last() == import_view(imports@[i as int]));
            let tf = texts_of(found@);
            if present {
                let q = choose|q: int| 0 <= q < found@.len() && found@[q]@ == name@;
                assert(tf[q] == name@);
                assert(tf.contains(name@));
            } else {
                assert(!tf.contains(name@)) by {
                    if tf.contains(name@) {
                        let q = choose|q: int| 0 <= q < tf.len() && tf[q] == name@;
                        assert(found@[q]@ == name@);
                    }
                }
            }
        }
        if !present {
            let ghost before = found@;
            found.push(name);
            assert(texts_of(found@) =~= texts_of(before).push(found@.last()@));
        }
        i += 1;
    }
    assert(imports_view(imports@).take(imports@.len() as int) =~= imports_view(imports@));
}

/// The root packages a Python source file imports, each once, in the order
/// first met (see `scan_imports`).
pub fn imported_packages(content: &str) -> (r: Vec<String>)
    ensures
        texts_of(r@) == scan_imports(lines_of(content@)).0,
{
    let v = chars_of(content);
    let bounds = line_bounds(&v);
    let ghost lines = lines_of(v@);
    let mut found: Vec<String> = Vec::new();
    let mut open = false;
    let mut k: usize = 0;
    while k < bounds.len()
        invariant
            lines == lines_of(v@),
            v@ == content@,
            bounds@.len() == lines.len(),
            forall|j: int|
                0 <= j < bounds@.len() ==> (#[trigger] bounds@[j]).0 <= bounds@[j].1 <= v@.len() && v@.subrange(
                    bounds@[j].0 as int,
                    bounds@[j].1 as int,
                ) == lines[j],
            k <= bounds@.len(),
            scan_imports(lines.take(k as int)) == (texts_of(found@), open),
        decreases bounds@.len() - k,
    {
        let (a, b) = bounds[k];
        let line = string_of_range(&v, a, b);
        let t = trim_text(line.as_str());
        let tv = chars_of(t.as_str());
        proof {
            assert(lines.take(k + 1).drop_last() =~= lines.take(k as int));
            assert(lines.take(k + 1).last() == lines[k as int]);
        }
        if tv.len() == 0 || tv[0] == '#' {
        } else if open {
            if crate::text::contains_char(&tv, ')') {
                open = false;
                let imports = ImportStatement::parse_from_line(t.as_str());
                add_package_names(&mut found, &imports);
            }
        } else if crate::text::contains_char(&tv, '(') && !crate::text::contains_char(&tv, ')') {
            open = true;
        } else {
            let imports = ImportStatement::parse_from_line(t.as_str());
            add_package_names(&mut found, &imports);
        }
        k += 1;
    }
    assert(lines.take(bounds@.len() as int) =~= lines);
    found
}

/// A `from` line that imports anything gives one statement, a `from`
/// import whose package is the first dotted segment of the path it imports
/// from.
pub proof fn law_from_line_package(line: Seq<char>)
    requires
        has_prefix(trim(line), "from "@),
        parsed_imports(line).len() > 0,
    ensures
        from_captures(trim(line)) is Some,
        parsed_imports(line).len() == 1,
        parsed_imports(line)[0].2,
        package_name_spec(parsed_imports(line)[0]) == split_on((from_captures(trim(line))->0).0, '.')[0],
{
    reveal_strlit("from ");
    let t = trim(line);
    assert(t.take(5) == "from "@);
    assert(t[0] == t.take(5)[0]);
}

/// Adding package names keeps them distinct.
proof fn lemma_add_packages_distinct(s: Seq<Seq<char>>, imports: Seq<ImportView>)
    requires
        s.no_duplicates(),
    ensures
        add_packages(s, imports).no_duplicates(),
    decreases imports.len(),
{
    if imports.len() > 0 {
        lemma_add_packages_distinct(s, imports.drop_last());
        let r = add_packages(s, imports.drop_last());
        let x = package_name_spec(imports.last());
        if !r.contains(x) {
            let w = r.push(x);
            assert forall|a: int, b: int| 0 <= a < w.len() && 0 <= b < w.len() && a != b implies w[a] != w[b] by {
                if a == r.len() as int {
                    assert(r.contains(w[b]));
                } else if b == r.len() as int {
                    assert(r.contains(w[a]));
                }
            }
        }
    }
}

/// The packages found in a source file are each named once.
pub proof fn law_packages_distinct(lines: Seq<Seq<char>>)
    ensures
        scan_imports(lines).0.no_duplicates(),
    decreases lines.len(),
{
    if lines.len() > 0 {
        law_packages_distinct(lines.drop_last());
        let t = trim(lines.last());
        lemma_add_packages_distinct(scan_imports(lines.drop_last()).0, parsed_imports(t));
    }
}

} // verus!
