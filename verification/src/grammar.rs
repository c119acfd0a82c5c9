//! The directive string: its grammar, and the compiler from a string to a
//! filter set.
//!
//! A directive string is a list of clauses separated by commas. A clause is
//! `target=level`, `=level`, or a bare word: a bare word that names a level
//! is a level for every target, and any other bare word is a target under
//! which everything is let through. A clause is cut at its first `=`, and
//! nothing is trimmed. The empty string is the empty list; an empty clause
//! anywhere else is an error, and so is a clause with nothing behind its
//! `=`.

use crate::directive::{directives_view, optional_text, Directive, DirectiveModel};
use crate::filter::{FilterSet, FilterSetModel};
use crate::level::{level_filter_from_str, level_token, Severity, Threshold};
use crate::text::{first_index_of, lemma_first_index_of, lemma_first_index_of_is, split_once};
use vstd::prelude::*;
use vstd::utf8::encode_utf8;

verus! {

/// The byte of the character that separates clauses, `,`.
pub const COMMA: u8 = 0x2c;

/// The byte of the character that separates a target from its level, `=`.
pub const EQUALS: u8 = 0x3d;

/// Why a clause is not a directive.
#[derive(Clone, Copy, Debug, PartialEq, Eq, Structural)]
pub enum ParseErrorKind {
    /// The clause is empty, or nothing follows its `=`.
    MalformedClause,
    /// What follows the `=` names no level.
    UnknownLevel,
}

/// The first clause of a directive string that is not a directive, counted
/// from 0, and what is wrong with it.
#[derive(Clone, Copy, Debug, PartialEq, Eq, Structural)]
pub struct ParseError {
    pub kind: ParseErrorKind,
    pub clause: usize,
}

/// The clauses of a directive string: the parts between its commas.
pub open spec fn clauses_of(s: Seq<char>) -> Seq<Seq<char>>
    decreases s.len(),
{
    let i = first_index_of(s, ',');
    if 0 <= i < s.len() {
        seq![s.subrange(0, i)] + clauses_of(s.subrange(i + 1, s.len() as int))
    } else {
        seq![s]
    }
}

/// The directive that a clause writes, or what is wrong with the clause.
pub open spec fn parse_clause(c: Seq<char>) -> Result<DirectiveModel, ParseErrorKind> {
    let eq = first_index_of(c, '=');
    if c.len() == 0 {
        Err(ParseErrorKind::MalformedClause)
    } else if eq == c.len() {
        match level_token(c) {
            Some(level) => Ok(DirectiveModel { target_prefix: None, level }),
            None => Ok(
                DirectiveModel {
                    target_prefix: Some(c),
                    level: Threshold::AtLeast(Severity::Trace),
                },
            ),
        }
    } else {
        let target = c.subrange(0, eq);
        let token = c.subrange(eq + 1, c.len() as int);
        if token.len() == 0 {
            Err(ParseErrorKind::MalformedClause)
        } else {
            match level_token(token) {
                Some(level) => Ok(
                    DirectiveModel {
                        target_prefix: if target.len() == 0 {
                            None
                        } else {
                            Some(target)
                        },
                        level,
                    },
                ),
                None => Err(ParseErrorKind::UnknownLevel),
            }
        }
    }
}

/// The directives that a list of clauses writes, in order, or the first
/// clause that is not a directive.
pub open spec fn parse_clauses(clauses: Seq<Seq<char>>) -> Result<Seq<DirectiveModel>, ParseError>
    decreases clauses.len(),
{
    if clauses.len() == 0 {
        Ok(Seq::empty())
    } else {
        match parse_clauses(clauses.drop_last()) {
            Err(e) => Err(e),
            Ok(directives) => match parse_clause(clauses.last()) {
                Ok(d) => Ok(directives.push(d)),
                Err(kind) => Err(ParseError { kind, clause: (clauses.len() - 1) as usize }),
            },
        }
    }
}

/// The filter set that a directive string writes: its directives in the
/// order of the clauses, and nothing let through where none applies.
pub open spec fn parse_spec(s: Seq<char>) -> Result<FilterSetModel, ParseError> {
    if s.len() == 0 {
        Ok(FilterSetModel::empty())
    } else {
        match parse_clauses(clauses_of(s)) {
            Ok(directives) => Ok(FilterSetModel { directives, default: Threshold::Off }),
            Err(e) => Err(e),
        }
    }
}

/// The first clause that is not a directive decides the outcome, whatever
/// follows it.
pub proof fn lemma_first_bad_clause(
    done: Seq<Seq<char>>,
    clause: Seq<char>,
    rest: Seq<Seq<char>>,
    kind: ParseErrorKind,
)
    requires
        parse_clauses(done) is Ok,
        parse_clause(clause) == Err::<DirectiveModel, ParseErrorKind>(kind),
    ensures
        parse_clauses(done.push(clause) + rest) == Err::<Seq<DirectiveModel>, ParseError>(
            ParseError { kind, clause: done.len() as usize },
        ),
    decreases rest.len(),
{
    let all = done.push(clause) + rest;
    if rest.len() == 0 {
        assert(all.drop_last() =~= done);
    } else {
        assert(all.drop_last() =~= done.push(clause) + rest.drop_last());
        lemma_first_bad_clause(done, clause, rest.drop_last(), kind);
    }
}

/// A directive string compiles exactly if each of its clauses is a
/// directive, and then to the directives that the clauses write, in their
/// order; otherwise the error is that of the first clause that is none.
pub proof fn law_clauses_are_read_one_by_one(clauses: Seq<Seq<char>>)
    requires
        clauses.len() <= usize::MAX,
    ensures
        match parse_clauses(clauses) {
            Ok(directives) => {
                &&& directives.len() == clauses.len()
                &&& forall|i: int|
                    0 <= i < clauses.len() ==> parse_clause(#[trigger] clauses[i]) == Ok::<
                        DirectiveModel,
                        ParseErrorKind,
                    >(directives[i])
            },
            Err(e) => {
                &&& e.clause < clauses.len()
                &&& parse_clause(clauses[e.clause as int]) == Err::<
                    DirectiveModel,
                    ParseErrorKind,
                >(e.kind)
                &&& forall|j: int| 0 <= j < e.clause ==> parse_clause(#[trigger] clauses[j]) is Ok
            },
        },
    decreases clauses.len(),
{
    if clauses.len() > 0 {
        let init = clauses.drop_last();
        law_clauses_are_read_one_by_one(init);
        assert forall|i: int| 0 <= i < init.len() implies init[i] == clauses[i] by {}
    }
}

/// Reads one clause.
pub fn parse_directive(clause: &str) -> (r: Result<Directive, ParseErrorKind>)
    ensures
        r matches Ok(d) ==> parse_clause(clause@) == Ok::<DirectiveModel, ParseErrorKind>(d@),
        r matches Err(kind) ==> parse_clause(clause@) == Err::<DirectiveModel, ParseErrorKind>(
            kind,
        ),
{
    if clause.is_empty() {
        return Err(ParseErrorKind::MalformedClause);
    }
    match split_once(clause, EQUALS) {
        None => match level_filter_from_str(clause) {
            Some(level) => Ok(Directive { target_prefix: None, level }),
            None => Ok(
                Directive {
                    target_prefix: Some(clause.to_owned()),
                    level: Threshold::AtLeast(Severity::Trace),
                },
            ),
        },
        Some((target, token)) => {
            if token.is_empty() {
                return Err(ParseErrorKind::MalformedClause);
            }
            match level_filter_from_str(token) {
                None => Err(ParseErrorKind::UnknownLevel),
                Some(level) => {
                    if target.is_empty() {
                        Ok(Directive { target_prefix: None, level })
                    } else {
                        Ok(Directive { target_prefix: Some(target.to_owned()), level })
                    }
                },
            }
        },
    }
}

/// Compiles a directive string into a filter set.
///
/// The result is `Ok` exactly when every clause is a directive; the filter
/// set then holds the directives in the order of the clauses and lets
/// nothing through where none applies. Otherwise the error names the first
/// clause that is not a directive.
pub fn compile(spec: &str) -> (r: Result<FilterSet, ParseError>)
    ensures
        r matches Ok(fs) ==> parse_spec(spec@) == Ok::<FilterSetModel, ParseError>(fs@),
        r matches Err(e) ==> parse_spec(spec@) == Err::<FilterSetModel, ParseError>(e),
{
    if spec.is_empty() {
        return Ok(FilterSet::empty());
    }
    let n: usize = spec.as_bytes().len();
    let mut directives: Vec<Directive> = Vec::new();
    let mut rest: &str = spec;
    let mut index: usize = 0;
    let ghost mut done: Seq<Seq<char>> = Seq::empty();
    assert(directives_view(directives@) =~= Seq::empty());
    loop
        invariant
            spec@.len() > 0,
            n == encode_utf8(spec@).len(),
            index + encode_utf8(rest@).len() <= n,
            done.len() == index,
            clauses_of(spec@) == done + clauses_of(rest@),
            parse_clauses(done) == Ok::<Seq<DirectiveModel>, ParseError>(
                directives_view(directives@),
            ),
        decreases encode_utf8(rest@).len(),
    {
        let (clause, tail): (&str, Option<&str>) = match split_once(rest, COMMA) {
            Some((head, tail)) => (head, Some(tail)),
            None => (rest, None),
        };
        let ghost behind = match tail {
            Some(t) => clauses_of(t@),
            None => Seq::empty(),
        };
        proof {
            lemma_first_index_of(rest@, ',');
            assert(clauses_of(spec@) =~= done.push(clause@) + behind);
        }
        match parse_directive(clause) {
            Err(kind) => {
                proof {
                    lemma_first_bad_clause(done, clause@, behind, kind);
                }
                return Err(ParseError { kind, clause: index });
            },
            Ok(d) => {
                let ghost before = directives_view(directives@);
                directives.push(d);
                proof {
                    assert(directives_view(directives@) =~= before.push(d@));
                    assert(done.push(clause@).drop_last() =~= done);
                    done = done.push(clause@);
                }
            },
        }
        match tail {
            None => {
                return Ok(FilterSet::new(directives, Threshold::Off));
            },
            Some(t) => {
                rest = t;
                index += 1;
            },
        }
    }
}

/// The directive string used where none is given or the given one does not
/// compile: everything passes, but under `noisy` only errors.
pub const DEFAULT_RUST_LOG: &'static str = "trace,noisy=error";

/// Where the filter set of a start-up comes from.
#[derive(Clone, Copy, Debug, PartialEq, Eq, Structural)]
pub enum FilterSource {
    /// The directive string that was given.
    Given,
    /// The fallback string, because none was given or the given one did not
    /// compile.
    Fallback,
    /// Neither: the fallback string did not compile either, and the filter
    /// set is empty.
    Empty,
}

/// The outcome of compiling with a fallback: the filter set to use, where it
/// comes from, and the errors met on the way, which are warnings to report
/// and no reason to stop.
#[derive(Debug)]
pub struct Compiled {
    pub filter: FilterSet,
    pub source: FilterSource,
    /// The given string did not compile.
    pub filter_spec_parse_error: Option<ParseError>,
    /// The fallback string did not compile.
    pub fallback_parse_error: Option<ParseError>,
}

/// The model of a [`Compiled`].
pub struct CompiledModel {
    pub filter: FilterSetModel,
    pub source: FilterSource,
    pub filter_spec_parse_error: Option<ParseError>,
    pub fallback_parse_error: Option<ParseError>,
}

impl View for Compiled {
    type V = CompiledModel;

    open spec fn view(&self) -> CompiledModel {
        CompiledModel {
            filter: self.filter@,
            source: self.source,
            filter_spec_parse_error: self.filter_spec_parse_error,
            fallback_parse_error: self.fallback_parse_error,
        }
    }
}

/// The error with which a given directive string fails to compile, if it is
/// given and fails.
pub open spec fn given_error(spec: Option<Seq<char>>) -> Option<ParseError> {
    match spec {
        Some(s) => match parse_spec(s) {
            Ok(_) => None,
            Err(e) => Some(e),
        },
        None => None,
    }
}

/// The outcome of compiling `spec` with `fallback` behind it: the filter set
/// of `spec` if it is given and compiles; else that of `fallback` if that
/// compiles; else the empty filter set.
pub open spec fn resolve(spec: Option<Seq<char>>, fallback: Seq<char>) -> CompiledModel {
    if spec is Some && parse_spec(spec->0) is Ok {
        CompiledModel {
            filter: parse_spec(spec->0)->Ok_0,
            source: FilterSource::Given,
            filter_spec_parse_error: None,
            fallback_parse_error: None,
        }
    } else {
        match parse_spec(fallback) {
            Ok(filter) => CompiledModel {
                filter,
                source: FilterSource::Fallback,
                filter_spec_parse_error: given_error(spec),
                fallback_parse_error: None,
            },
            Err(e) => CompiledModel {
                filter: FilterSetModel::empty(),
                source: FilterSource::Empty,
                filter_spec_parse_error: given_error(spec),
                fallback_parse_error: Some(e),
            },
        }
    }
}

/// Compiles `spec`, and `fallback` in its place where `spec` is absent or
/// does not compile. This never fails: where `fallback` does not compile
/// either, the filter set is empty and lets nothing through. The errors met
/// are handed back for the caller to report.
pub fn compile_or_fallback(spec: Option<&str>, fallback: &str) -> (out: Compiled)
    ensures
        out@ == resolve(optional_text(spec), fallback@),
{
    let mut given: Option<ParseError> = None;
    if let Some(s) = spec {
        match compile(s) {
            Ok(filter) => {
                return Compiled {
                    filter,
                    source: FilterSource::Given,
                    filter_spec_parse_error: None,
                    fallback_parse_error: None,
                };
            },
            Err(e) => {
                given = Some(e);
            },
        }
    }
    match compile(fallback) {
        Ok(filter) => Compiled {
            filter,
            source: FilterSource::Fallback,
            filter_spec_parse_error: given,
            fallback_parse_error: None,
        },
        Err(e) => Compiled {
            filter: FilterSet::empty(),
            source: FilterSource::Empty,
            filter_spec_parse_error: given,
            fallback_parse_error: Some(e),
        },
    }
}

/// A directive string that does not compile is answered with the filter set
/// of the fallback string, the very one that an absent string is answered
/// with, and the error is kept for the report.
pub proof fn law_invalid_spec_yields_fallback(spec: Seq<char>, fallback: Seq<char>)
    requires
        parse_spec(spec) is Err,
    ensures
        resolve(Some(spec), fallback).filter == resolve(None, fallback).filter,
        resolve(Some(spec), fallback).source == resolve(None, fallback).source,
        resolve(Some(spec), fallback).source != FilterSource::Given,
        resolve(Some(spec), fallback).filter_spec_parse_error == Some(parse_spec(spec)->Err_0),
        parse_spec(fallback) matches Ok(filter) ==> resolve(Some(spec), fallback).filter == filter,
{
}

/// The filter set that [`DEFAULT_RUST_LOG`] writes: every event passes, but
/// under `noisy` only errors do.
pub open spec fn default_filter() -> FilterSetModel {
    FilterSetModel {
        directives: seq![
            DirectiveModel { target_prefix: None, level: Threshold::AtLeast(Severity::Trace) },
            DirectiveModel {
                target_prefix: Some(seq!['n', 'o', 'i', 's', 'y']),
                level: Threshold::AtLeast(Severity::Error),
            },
        ],
        default: Threshold::Off,
    }
}

/// The fallback string compiles, and to [`default_filter`].
pub proof fn lemma_default_spec_compiles()
    ensures
        parse_spec(DEFAULT_RUST_LOG@) == Ok::<FilterSetModel, ParseError>(default_filter()),
{
    reveal_strlit("trace,noisy=error");
    let s = DEFAULT_RUST_LOG@;
    let first = seq!['t', 'r', 'a', 'c', 'e'];
    let second = seq!['n', 'o', 'i', 's', 'y', '=', 'e', 'r', 'r', 'o', 'r'];
    lemma_first_index_of_is(s, ',', 5);
    assert(s.subrange(0, 5) =~= first);
    assert(s.subrange(6, 17) =~= second);
    lemma_first_index_of_is(second, ',', 11);
    assert(clauses_of(second) == seq![second]);
    assert(clauses_of(s) =~= seq![first, second]);

    lemma_first_index_of_is(first, '=', 5);
    lemma_first_index_of_is(second, '=', 5);
    assert(second.subrange(0, 5) =~= seq!['n', 'o', 'i', 's', 'y']);

    let clauses = seq![first, second];
    assert(clauses.drop_last() =~= seq![first]);
    assert(seq![first].drop_last() =~= Seq::<Seq<char>>::empty());
    assert(parse_clauses(seq![first]) == Ok::<Seq<DirectiveModel>, ParseError>(
        seq![DirectiveModel { target_prefix: None, level: Threshold::AtLeast(Severity::Trace) }],
    )) by {
        assert(parse_clauses(Seq::<Seq<char>>::empty()) == Ok::<Seq<DirectiveModel>, ParseError>(
            Seq::empty(),
        ));
    }
    assert(parse_clauses(clauses) matches Ok(ds) && ds =~= default_filter().directives);
}

/// A directive string that does not compile is answered as
/// [`DEFAULT_RUST_LOG`] would be.
pub proof fn law_invalid_spec_yields_default(spec: Seq<char>)
    requires
        parse_spec(spec) is Err,
    ensures
        resolve(Some(spec), DEFAULT_RUST_LOG@).filter == default_filter(),
        resolve(Some(spec), DEFAULT_RUST_LOG@).source == FilterSource::Fallback,
{
    lemma_default_spec_compiles();
}

} // verus!
