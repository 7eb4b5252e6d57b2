//! Routing rules: which requests a rule matches, where it sends them and
//! what it allows.
use vstd::prelude::*;

use crate::text::copy_strings;

verus! {

/// Storage formats a routing rule can permit.
#[derive(Clone, Copy, Debug, PartialEq, Eq, Structural)]
pub enum Format {
    Bam,
    Cram,
    Vcf,
    Bcf,
}

/// The canonical file ending of a format.
pub open spec fn spec_file_ending(format: Format) -> Seq<char> {
    match format {
        Format::Bam => seq!['.', 'b', 'a', 'm'],
        Format::Cram => seq!['.', 'c', 'r', 'a', 'm'],
        Format::Vcf => seq!['.', 'v', 'c', 'f', '.', 'g', 'z'],
        Format::Bcf => seq!['.', 'b', 'c', 'f'],
    }
}

impl Format {
    /// The canonical file ending of the format.
    pub fn file_ending(&self) -> (r: &'static str)
        ensures
            r@ == spec_file_ending(*self),
    {
        match self {
            Format::Bam => {
                proof {
                    reveal_strlit(".bam");
                }
                ".bam"
            },
            Format::Cram => {
                proof {
                    reveal_strlit(".cram");
                }
                ".cram"
            },
            Format::Vcf => {
                proof {
                    reveal_strlit(".vcf.gz");
                }
                ".vcf.gz"
            },
            Format::Bcf => {
                proof {
                    reveal_strlit(".bcf");
                }
                ".bcf"
            },
        }
    }
}

/// A genomic interval; an absent bound is unbounded in that direction.
#[derive(Clone, Copy, Debug, PartialEq, Eq, Structural)]
pub struct Interval {
    pub start: Option<u32>,
    pub end: Option<u32>,
}

impl Interval {
    pub fn new(start: Option<u32>, end: Option<u32>) -> (r: Interval)
        ensures
            r.start == start,
            r.end == end,
    {
        Interval { start, end }
    }
}

/// A routing rule: requests whose id matches `regex` are served from
/// `bucket`, at the object named by `substitution_string`, within the
/// formats, reference names and interval that the rule allows.
#[derive(Debug)]
pub struct Resolver {
    regex: String,
    substitution_string: String,
    bucket: String,
    allow_formats: Vec<Format>,
    allow_reference_names: Vec<String>,
    allow_interval: Interval,
}

/// The mathematical content of a routing rule.
pub struct ResolverView {
    pub regex: Seq<char>,
    pub substitution: Seq<char>,
    pub bucket: Seq<char>,
    pub formats: Seq<Format>,
    pub reference_names: Seq<Seq<char>>,
    pub interval: Interval,
}

impl View for Resolver {
    type V = ResolverView;

    closed spec fn view(&self) -> ResolverView {
        ResolverView {
            regex: self.regex@,
            substitution: self.substitution_string@,
            bucket: self.bucket@,
            formats: self.allow_formats@,
            reference_names: self.allow_reference_names@.map_values(|s: String| s@),
            interval: self.allow_interval,
        }
    }
}

/// The views of a sequence of rules.
pub open spec fn views(rules: Seq<Resolver>) -> Seq<ResolverView> {
    rules.map_values(|r: Resolver| r@)
}

impl Resolver {
    pub fn new(
        regex: String,
        substitution_string: String,
        bucket: String,
        allow_formats: Vec<Format>,
        allow_reference_names: Vec<String>,
        allow_interval: Interval,
    ) -> (r: Resolver)
        ensures
            r@ == (ResolverView {
                regex: regex@,
                substitution: substitution_string@,
                bucket: bucket@,
                formats: allow_formats@,
                reference_names: allow_reference_names@.map_values(|s: String| s@),
                interval: allow_interval,
            }),
    {
        Resolver {
            regex,
            substitution_string,
            bucket,
            allow_formats,
            allow_reference_names,
            allow_interval,
        }
    }

    pub fn regex(&self) -> (r: &str)
        ensures
            r@ == self@.regex,
    {
        self.regex.as_str()
    }

    pub fn substitution_string(&self) -> (r: &str)
        ensures
            r@ == self@.substitution,
    {
        self.substitution_string.as_str()
    }

    pub fn bucket(&self) -> (r: &str)
        ensures
            r@ == self@.bucket,
    {
        self.bucket.as_str()
    }

    pub fn allow_formats(&self) -> (r: &[Format])
        ensures
            r@ == self@.formats,
    {
        self.allow_formats.as_slice()
    }

    pub fn allow_reference_names(&self) -> (r: &Vec<String>)
        ensures
            r@.map_values(|s: String| s@) == self@.reference_names,
    {
        &self.allow_reference_names
    }

    pub fn allow_interval(&self) -> (r: Interval)
        ensures
            r == self@.interval,
    {
        self.allow_interval
    }

    /// A copy of the rule with the same content.
    pub fn duplicate(&self) -> (r: Resolver)
        ensures
            r@ == self@,
    {
        let mut formats: Vec<Format> = Vec::new();
        let mut i: usize = 0;
        while i < self.allow_formats.len()
            invariant
                i <= self.allow_formats@.len(),
                formats@ == self.allow_formats@.take(i as int),
            decreases self.allow_formats@.len() - i,
        {
            formats.push(self.allow_formats[i]);
            assert(self.allow_formats@.take(i + 1) == self.allow_formats@.take(i as int).push(
                self.allow_formats@[i as int],
            ));
            i = i + 1;
        }
        assert(self.allow_formats@.take(i as int) == self.allow_formats@);
        Resolver {
            regex: self.regex.clone(),
            substitution_string: self.substitution_string.clone(),
            bucket: self.bucket.clone(),
            allow_formats: formats,
            allow_reference_names: copy_strings(&self.allow_reference_names),
            allow_interval: self.allow_interval,
        }
    }
}

/// A copy of a sequence of rules with the same content.
pub fn duplicate_all(rules: &Vec<Resolver>) -> (r: Vec<Resolver>)
    ensures
        views(r@) == views(rules@),
{
    let mut out: Vec<Resolver> = Vec::new();
    let mut i: usize = 0;
    while i < rules.len()
        invariant
            i <= rules@.len(),
            views(out@) == views(rules@.take(i as int)),
        decreases rules@.len() - i,
    {
        let r = rules[i].duplicate();
        let ghost prev = out@;
        out.push(r);
        assert(views(out@) =~= views(prev).push(r@));
        assert(rules@.take(i + 1) =~= rules@.take(i as int).push(rules@[i as int]));
        assert(views(rules@.take(i + 1)) =~= views(rules@.take(i as int)).push(rules@[i as int]@));
        i = i + 1;
    }
    assert(rules@.take(i as int) == rules@);
    out
}

} // verus!
