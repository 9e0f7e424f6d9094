//! Diagnostics: findings about an environment with their level, category,
//! suggestions and context, and a collection that selects them.

use vstd::prelude::*;
use crate::text::same_text;
use crate::error::BlastResult;
use crate::time::{clock_now, no_randomness, random_id, random_source_error};
pub use crate::time::{not_later, Timestamp};
use vstd::string::StringExecFns;

verus! {

/// Diagnostic severity level
#[derive(Debug, Clone, Copy, PartialEq, Eq, Structural)]
pub enum DiagnosticLevel {
    Error,
    Warning,
    Info,
    Debug,
    Trace,
}

/// Diagnostic category
#[derive(Debug, Clone, PartialEq, Eq)]
pub enum DiagnosticCategory {
    Version,
    Dependency,
    Transaction,
    Environment,
    Package,
    Performance,
    Security,
    Configuration,
    Custom(String),
}

/// The text a category is shown as: its name, or the custom text.
pub open spec fn category_text(c: DiagnosticCategory) -> Seq<char> {
    match c {
        DiagnosticCategory::Version => "Version"@,
        DiagnosticCategory::Dependency => "Dependency"@,
        DiagnosticCategory::Transaction => "Transaction"@,
        DiagnosticCategory::Environment => "Environment"@,
        DiagnosticCategory::Package => "Package"@,
        DiagnosticCategory::Performance => "Performance"@,
        DiagnosticCategory::Security => "Security"@,
        DiagnosticCategory::Configuration => "Configuration"@,
        DiagnosticCategory::Custom(s) => s@,
    }
}

/// Two categories are the same: the same named category, or custom ones
/// with the same text.
pub open spec fn same_category(a: DiagnosticCategory, b: DiagnosticCategory) -> bool {
    match (a, b) {
        (DiagnosticCategory::Custom(x), DiagnosticCategory::Custom(y)) => x@ == y@,
        (DiagnosticCategory::Custom(_), _) => false,
        (_, DiagnosticCategory::Custom(_)) => false,
        _ => a == b,
    }
}

impl DiagnosticCategory {
    /// The text the category is shown as.
    pub fn to_text(&self) -> (r: String)
        ensures
            r@ == category_text(*self),
    {
        match self {
            DiagnosticCategory::Version => String::from_str("Version"),
            DiagnosticCategory::Dependency => String::from_str("Dependency"),
            DiagnosticCategory::Transaction => String::from_str("Transaction"),
            DiagnosticCategory::Environment => String::from_str("Environment"),
            DiagnosticCategory::Package => String::from_str("Package"),
            DiagnosticCategory::Performance => String::from_str("Performance"),
            DiagnosticCategory::Security => String::from_str("Security"),
            DiagnosticCategory::Configuration => String::from_str("Configuration"),
            DiagnosticCategory::Custom(s) => s.clone(),
        }
    }

    /// Whether `self` and `other` are the same category.
    pub fn same_as(&self, other: &DiagnosticCategory) -> (b: bool)
        ensures
            b == same_category(*self, *other),
    {
        match (self, other) {
            (DiagnosticCategory::Custom(x), DiagnosticCategory::Custom(y)) => same_text(x.as_str(), y.as_str()),
            (DiagnosticCategory::Custom(_), _) => false,
            (_, DiagnosticCategory::Custom(_)) => false,
            (DiagnosticCategory::Version, DiagnosticCategory::Version) => true,
            (DiagnosticCategory::Dependency, DiagnosticCategory::Dependency) => true,
            (DiagnosticCategory::Transaction, DiagnosticCategory::Transaction) => true,
            (DiagnosticCategory::Environment, DiagnosticCategory::Environment) => true,
            (DiagnosticCategory::Package, DiagnosticCategory::Package) => true,
            (DiagnosticCategory::Performance, DiagnosticCategory::Performance) => true,
            (DiagnosticCategory::Security, DiagnosticCategory::Security) => true,
            (DiagnosticCategory::Configuration, DiagnosticCategory::Configuration) => true,
            _ => false,
        }
    }
}

/// Where in the code a diagnostic points
#[derive(Debug, Clone)]
pub struct CodeContext {
    pub file: String,
    pub line: Option<u32>,
    pub column: Option<u32>,
    pub snippet: Option<String>,
    pub function: Option<String>,
}

/// A suggested fix
#[derive(Debug, Clone)]
pub struct DiagnosticSuggestion {
    pub description: String,
    pub fix: Option<String>,
    pub context: Option<String>,
    pub estimated_time: Option<String>,
    pub auto_fixable: bool,
}

/// A diagnostic
pub struct Diagnostic {
    pub level: DiagnosticLevel,
    pub message: String,
    pub category: DiagnosticCategory,
    pub details: Option<String>,
    pub suggestions: Vec<DiagnosticSuggestion>,
    pub code_context: Option<CodeContext>,
    pub operation_context: Option<String>,
    pub timestamp: Timestamp,
    pub id: String,
}

impl Diagnostic {
    /// A diagnostic stamped now, with a fresh id and nothing else attached;
    /// refused where the operating system's random source fails.
    pub fn new(level: DiagnosticLevel, message: String, category: DiagnosticCategory) -> (r: BlastResult<Self>)
        ensures
            r matches Ok(d) ==> {
                &&& d.level == level
                &&& d.message == message
                &&& d.category == category
                &&& d.details is None
                &&& d.suggestions@.len() == 0
                &&& d.code_context is None
                &&& d.operation_context is None
                &&& d.id@.len() == 36
            },
            r matches Err(e) ==> no_randomness(e),
    {
        let id = match random_id() {
            Some(id) => id,
            None => {
                return Err(random_source_error());
            },
        };
        Ok(Diagnostic {
            level,
            message,
            category,
            details: None,
            suggestions: Vec::new(),
            code_context: None,
            operation_context: None,
            timestamp: clock_now(),
            id,
        })
    }

    /// The diagnostic with `details` attached.
    pub fn with_details(self, details: String) -> (d: Self)
        ensures
            d == (Diagnostic { details: Some(details), ..self }),
    {
        let mut d = self;
        d.details = Some(details);
        d
    }

    /// The diagnostic with `suggestion` added last.
    pub fn with_suggestion(self, suggestion: DiagnosticSuggestion) -> (d: Self)
        ensures
            d.suggestions@ == self.suggestions@.push(suggestion),
            d.level == self.level && d.message == self.message && d.category == self.category,
            d.details == self.details && d.code_context == self.code_context,
            d.operation_context == self.operation_context,
            d.timestamp == self.timestamp && d.id == self.id,
    {
        let mut d = self;
        d.suggestions.push(suggestion);
        d
    }

    /// The diagnostic with `context` as its code context.
    pub fn with_code_context(self, context: CodeContext) -> (d: Self)
        ensures
            d == (Diagnostic { code_context: Some(context), ..self }),
    {
        let mut d = self;
        d.code_context = Some(context);
        d
    }

    /// The diagnostic with `context` as its operation context.
    pub fn with_operation_context(self, context: String) -> (d: Self)
        ensures
            d == (Diagnostic { operation_context: Some(context), ..self }),
    {
        let mut d = self;
        d.operation_context = Some(context);
        d
    }
}

/// A collection of diagnostics in the order they were added
pub struct DiagnosticCollection {
    diagnostics: Vec<Diagnostic>,
}

impl DiagnosticCollection {
    /// The diagnostics in the order they were added.
    pub closed spec fn view(&self) -> Seq<Diagnostic> {
        self.diagnostics@
    }

    /// An empty collection.
    pub fn new() -> (c: Self)
        ensures
            c@ == Seq::<Diagnostic>::empty(),
    {
        DiagnosticCollection { diagnostics: Vec::new() }
    }

    /// Adds `diagnostic` last.
    pub fn add(&mut self, diagnostic: Diagnostic)
        ensures
            final(self)@ == old(self)@.push(diagnostic),
    {
        self.diagnostics.push(diagnostic);
    }

    /// All diagnostics.
    pub fn all(&self) -> (r: &[Diagnostic])
        ensures
            r@ == self@,
    {
        self.diagnostics.as_slice()
    }

    /// Removes every diagnostic.
    pub fn clear(&mut self)
        ensures
            final(self)@ == Seq::<Diagnostic>::empty(),
    {
        self.diagnostics.clear();
    }

    /// The diagnostics at `level`, in order.
    pub fn by_level(&self, level: DiagnosticLevel) -> (r: Vec<&Diagnostic>)
        ensures
            r@.map_values(|d: &Diagnostic| *d) == self@.filter(|d: Diagnostic| d.level == level),
    {
        let mut r: Vec<&Diagnostic> = Vec::new();
        let mut i: usize = 0;
        while i < self.diagnostics.len()
            invariant
                i <= self@.len(),
                r@.map_values(|d: &Diagnostic| *d) == self@.take(i as int).filter(|d: Diagnostic| d.level == level),
            decreases self@.len() - i,
        {
            let d = &self.diagnostics[i];
            proof {
                assert(self@.take(i + 1).drop_last() =~= self@.take(i as int));
                reveal(Seq::filter);
            }
            if d.level == level {
                r.push(d);
            }
            assert(r@.map_values(|d: &Diagnostic| *d) =~= self@.take(i + 1).filter(|d: Diagnostic| d.level == level));
            i += 1;
        }
        assert(self@.take(self@.len() as int) =~= self@);
        r
    }

    /// The diagnostics in the same category as `category`, in order.
    pub fn by_category(&self, category: &DiagnosticCategory) -> (r: Vec<&Diagnostic>)
        ensures
            r@.map_values(|d: &Diagnostic| *d) == self@.filter(|d: Diagnostic| same_category(d.category, *category)),
    {
        let mut r: Vec<&Diagnostic> = Vec::new();
        let mut i: usize = 0;
        while i < self.diagnostics.len()
            invariant
                i <= self@.len(),
                r@.map_values(|d: &Diagnostic| *d) == self@.take(i as int).filter(
                    |d: Diagnostic| same_category(d.category, *category),
                ),
            decreases self@.len() - i,
        {
            let d = &self.diagnostics[i];
            proof {
                assert(self@.take(i + 1).drop_last() =~= self@.take(i as int));
                reveal(Seq::filter);
            }
            if d.category.same_as(category) {
                r.push(d);
            }
            assert(r@.map_values(|d: &Diagnostic| *d) =~= self@.take(i + 1).filter(
                |d: Diagnostic| same_category(d.category, *category),
            ));
            i += 1;
        }
        assert(self@.take(self@.len() as int) =~= self@);
        r
    }

    /// The diagnostics stamped from `start` to `end`, both included, in order.
    pub fn in_time_range(&self, start: Timestamp, end: Timestamp) -> (r: Vec<&Diagnostic>)
        ensures
            r@.map_values(|d: &Diagnostic| *d) == self@.filter(
                |d: Diagnostic| not_later(start, d.timestamp) && not_later(d.timestamp, end),
            ),
    {
        let mut r: Vec<&Diagnostic> = Vec::new();
        let mut i: usize = 0;
        while i < self.diagnostics.len()
            invariant
                i <= self@.len(),
                r@.map_values(|d: &Diagnostic| *d) == self@.take(i as int).filter(
                    |d: Diagnostic| not_later(start, d.timestamp) && not_later(d.timestamp, end),
                ),
            decreases self@.len() - i,
        {
            let d = &self.diagnostics[i];
            proof {
                assert(self@.take(i + 1).drop_last() =~= self@.take(i as int));
                reveal(Seq::filter);
            }
            if start.not_later_than(&d.timestamp) && d.timestamp.not_later_than(&end) {
                r.push(d);
            }
            assert(r@.map_values(|d: &Diagnostic| *d) =~= self@.take(i + 1).filter(
                |d: Diagnostic| not_later(start, d.timestamp) && not_later(d.timestamp, end),
            ));
            i += 1;
        }
        assert(self@.take(self@.len() as int) =~= self@);
        r
    }
}

/// A diagnostic just added shows up last among those of its level, after
/// the ones that were there, and the other levels' selections are unchanged.
pub proof fn law_added_diagnostic_listed(s: Seq<Diagnostic>, d: Diagnostic, level: DiagnosticLevel)
    ensures
        d.level == level ==> s.push(d).filter(|x: Diagnostic| x.level == level) == s.filter(
            |x: Diagnostic| x.level == level,
        ).push(d),
        d.level != level ==> s.push(d).filter(|x: Diagnostic| x.level == level) == s.filter(
            |x: Diagnostic| x.level == level,
        ),
{
    reveal(Seq::filter);
    assert(s.push(d).drop_last() =~= s);
}

} // verus!
