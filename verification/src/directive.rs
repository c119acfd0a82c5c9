//! A directive binds a target prefix, or every target, to a threshold.

use crate::level::Threshold;
use crate::text::{has_prefix, lemma_encoding_grows};
use vstd::prelude::*;
use vstd::utf8::encode_utf8;

verus! {

/// One clause of a filter: events whose target starts with `target_prefix`
/// (every event, if there is none) pass at `level` or above.
#[derive(Clone, Debug, PartialEq, Eq)]
pub struct Directive {
    pub target_prefix: Option<String>,
    pub level: Threshold,
}

/// The model of a [`Directive`].
pub struct DirectiveModel {
    pub target_prefix: Option<Seq<char>>,
    pub level: Threshold,
}

impl View for Directive {
    type V = DirectiveModel;

    open spec fn view(&self) -> DirectiveModel {
        DirectiveModel {
            target_prefix: match self.target_prefix {
                Some(p) => Some(p@),
                None => None,
            },
            level: self.level,
        }
    }
}

/// The models of a list of directives, in the same order.
pub open spec fn directives_view(directives: Seq<Directive>) -> Seq<DirectiveModel> {
    directives.map_values(|d: Directive| d@)
}

/// The model of an optional text.
pub open spec fn optional_text(s: Option<&str>) -> Option<Seq<char>> {
    match s {
        Some(s) => Some(s@),
        None => None,
    }
}

impl DirectiveModel {
    /// The prefix as text; the empty text for a directive without one.
    pub open spec fn prefix_text(self) -> Seq<char> {
        match self.target_prefix {
            Some(p) => p,
            None => Seq::empty(),
        }
    }

    /// The length of the prefix; 0 for a directive without one.
    pub open spec fn prefix_len(self) -> nat {
        self.prefix_text().len()
    }

    /// The directive applies to `target`: it has no prefix, or its prefix is
    /// one of `target`.
    pub open spec fn matches(self, target: Seq<char>) -> bool {
        self.prefix_text().is_prefix_of(target)
    }
}

/// Of two directives that apply to one target, the one with the longer
/// prefix is the one whose prefix takes more bytes.
pub proof fn lemma_longer_prefix_takes_more_bytes(
    a: DirectiveModel,
    b: DirectiveModel,
    target: Seq<char>,
)
    requires
        a.matches(target),
        b.matches(target),
    ensures
        a.prefix_len() <= b.prefix_len() <==> encode_utf8(a.prefix_text()).len() <= encode_utf8(
            b.prefix_text(),
        ).len(),
{
    let p = a.prefix_text();
    let q = b.prefix_text();
    if p.len() <= q.len() {
        lemma_encoding_grows(p, q);
    } else {
        lemma_encoding_grows(q, p);
    }
}

impl Directive {
    /// A directive for the targets that start with `target_prefix`, or for
    /// every target.
    pub fn new(target_prefix: Option<&str>, level: Threshold) -> (d: Directive)
        ensures
            d@ == (DirectiveModel { target_prefix: optional_text(target_prefix), level }),
    {
        Directive {
            target_prefix: match target_prefix {
                Some(p) => Some(p.to_owned()),
                None => None,
            },
            level,
        }
    }

    /// The number of bytes that the prefix takes; 0 for a directive without
    /// one.
    pub fn prefix_bytes(&self) -> (n: usize)
        ensures
            n == encode_utf8(self@.prefix_text()).len(),
    {
        match &self.target_prefix {
            Some(p) => p.as_str().as_bytes().len(),
            None => 0,
        }
    }

    /// Whether the directive applies to `target`.
    pub fn matches(&self, target: &str) -> (r: bool)
        ensures
            r == self@.matches(target@),
    {
        match &self.target_prefix {
            Some(p) => has_prefix(target, p.as_str()),
            None => true,
        }
    }
}

} // verus!
