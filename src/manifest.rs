//! Manifest documents and their translation into routing rules.
use vstd::prelude::*;

use crate::resolver::{spec_file_ending, views, Format, Interval, Resolver, ResolverView};
use crate::text::{
    decimal, decimal_string, ends_with, find_char, first_index, is_prefix, is_suffix, same_text,
    starts_with,
};
use crate::Error;

verus! {

/// Where the manifest of a release is stored.
#[derive(Debug)]
pub struct ElsaLocation {
    pub bucket: String,
    pub key: String,
}

/// The manifest service's answer: the manifest's location and how many
/// seconds the rules derived from it may be trusted.
#[derive(Debug)]
pub struct ElsaResponse {
    pub location: ElsaLocation,
    pub max_age: u64,
}

/// A region that one entry of a manifest may be read in.
#[derive(Clone, Copy, Debug, PartialEq, Eq, Structural)]
pub struct ElsaRestrictionManifest {
    pub chromosome: u8,
    pub start: Option<u32>,
    pub end: Option<u32>,
}

/// An alignment entry of a manifest.
#[derive(Debug)]
pub struct ElsaReadsManifest {
    pub url: String,
    pub format: Option<Format>,
    pub restrictions: Vec<ElsaRestrictionManifest>,
}

/// A variant entry of a manifest.
#[derive(Debug)]
pub struct ElsaVariantsManifest {
    pub url: String,
    pub format: Option<Format>,
    pub variant_sample_id: String,
    pub restrictions: Vec<ElsaRestrictionManifest>,
}

/// A release manifest: its entries, each under its entry id. Within the
/// alignment entries, and within the variant entries, no id occurs twice.
#[derive(Debug)]
pub struct ElsaManifest {
    release_key: String,
    reads: Vec<(String, ElsaReadsManifest)>,
    variants: Vec<(String, ElsaVariantsManifest)>,
}

/// Why an entry of a manifest cannot be translated.
pub enum ManifestFault {
    /// The entry's URI does not use the object-storage scheme.
    Unsupported,
    /// The entry's URI lacks a bucket or an object key, or its pattern is
    /// no valid regular expression.
    Invalid,
}

impl Error {
    /// The error reports the given fault.
    pub open spec fn reports(&self, f: ManifestFault) -> bool {
        match f {
            ManifestFault::Unsupported => self is UnsupportedManifestFeature,
            ManifestFault::Invalid => self is InvalidManifest,
        }
    }
}

/// One entry of a manifest, as the translation reads it.
pub struct EntryView {
    pub id: Seq<char>,
    pub url: Seq<char>,
    pub format: Format,
    pub restrictions: Seq<ElsaRestrictionManifest>,
}

/// The entry's format, or `default` where it names none.
pub open spec fn format_or(format: Option<Format>, default: Format) -> Format {
    match format {
        Some(f) => f,
        None => default,
    }
}

pub open spec fn reads_view(p: (String, ElsaReadsManifest)) -> EntryView {
    EntryView {
        id: p.0@,
        url: p.1.url@,
        format: format_or(p.1.format, Format::Bam),
        restrictions: p.1.restrictions@,
    }
}

pub open spec fn variants_view(p: (String, ElsaVariantsManifest)) -> EntryView {
    EntryView {
        id: p.0@,
        url: p.1.url@,
        format: format_or(p.1.format, Format::Vcf),
        restrictions: p.1.restrictions@,
    }
}

/// No two of the entries share an id.
pub open spec fn ids_unique(entries: Seq<EntryView>) -> bool {
    forall|i: int, j: int| 0 <= i < j < entries.len() ==> entries[i].id != entries[j].id
}

/// No two entries of the vector share an id.
fn ids_distinct<T>(entries: &Vec<(String, T)>) -> (r: bool)
    ensures
        r == forall|i: int, j: int|
            0 <= i < j < entries@.len() ==> entries@[i].0@ != entries@[j].0@,
{
    let n = entries.len();
    let mut i: usize = 0;
    while i < n
        invariant
            n == entries@.len(),
            i <= n,
            forall|a: int, b: int| 0 <= a < i && a < b < n ==> entries@[a].0@ != entries@[b].0@,
        decreases n - i,
    {
        let mut j: usize = i + 1;
        while j < n
            invariant
                n == entries@.len(),
                i < n,
                i + 1 <= j <= n,
                forall|a: int, b: int| 0 <= a < i && a < b < n ==> entries@[a].0@ != entries@[b].0@,
                forall|b: int| i < b < j ==> entries@[i as int].0@ != entries@[b].0@,
            decreases n - j,
        {
            if same_text(entries[i].0.as_str(), entries[j].0.as_str()) {
                return false;
            }
            j = j + 1;
        }
        i = i + 1;
    }
    true
}

impl ElsaManifest {
    /// The release key the manifest is for.
    pub closed spec fn key(&self) -> Seq<char> {
        self.release_key@
    }

    /// The alignment entries, in order.
    pub closed spec fn reads_entries(&self) -> Seq<EntryView> {
        self.reads@.map_values(|p: (String, ElsaReadsManifest)| reads_view(p))
    }

    /// The variant entries, in order.
    pub closed spec fn variants_entries(&self) -> Seq<EntryView> {
        self.variants@.map_values(|p: (String, ElsaVariantsManifest)| variants_view(p))
    }

    /// Entry ids are unique within each kind of entry.
    pub open spec fn wf(&self) -> bool {
        ids_unique(self.reads_entries()) && ids_unique(self.variants_entries())
    }

    /// A manifest of the given entries; `InvalidManifest` where an id occurs
    /// twice among the alignment entries or twice among the variant entries.
    pub fn new(
        release_key: String,
        reads: Vec<(String, ElsaReadsManifest)>,
        variants: Vec<(String, ElsaVariantsManifest)>,
    ) -> (r: Result<ElsaManifest, Error>)
        ensures
            ({
                let rs = reads@.map_values(|p: (String, ElsaReadsManifest)| reads_view(p));
                let vs = variants@.map_values(|p: (String, ElsaVariantsManifest)| variants_view(p));
                &&& (ids_unique(rs) && ids_unique(vs)) ==> (r matches Ok(m) && m.wf() && m.key()
                    == release_key@ && m.reads_entries() == rs && m.variants_entries() == vs)
                &&& !(ids_unique(rs) && ids_unique(vs)) ==> r matches Err(Error::InvalidManifest(_))
            }),
    {
        let ghost rs = reads@.map_values(|p: (String, ElsaReadsManifest)| reads_view(p));
        let ghost vs = variants@.map_values(|p: (String, ElsaVariantsManifest)| variants_view(p));
        let reads_ok = ids_distinct(&reads);
        let variants_ok = ids_distinct(&variants);
        assert(reads_ok == ids_unique(rs)) by {
            assert forall|i: int| 0 <= i < rs.len() implies #[trigger] rs[i].id == reads@[i].0@ by {}
            if reads_ok {
                assert forall|i: int, j: int| 0 <= i < j < rs.len() implies rs[i].id != rs[j].id by {
                    assert(rs[i].id == reads@[i].0@);
                    assert(rs[j].id == reads@[j].0@);
                }
            } else {
                let (i, j) = choose|i: int, j: int|
                    0 <= i < j < reads@.len() && reads@[i].0@ == reads@[j].0@;
                assert(rs[i].id == reads@[i].0@);
                assert(rs[j].id == reads@[j].0@);
            }
        }
        assert(variants_ok == ids_unique(vs)) by {
            assert forall|i: int| 0 <= i < vs.len() implies #[trigger] vs[i].id == variants@[i].0@ by {}
            if variants_ok {
                assert forall|i: int, j: int| 0 <= i < j < vs.len() implies vs[i].id != vs[j].id by {
                    assert(vs[i].id == variants@[i].0@);
                    assert(vs[j].id == variants@[j].0@);
                }
            } else {
                let (i, j) = choose|i: int, j: int|
                    0 <= i < j < variants@.len() && variants@[i].0@ == variants@[j].0@;
                assert(vs[i].id == variants@[i].0@);
                assert(vs[j].id == variants@[j].0@);
            }
        }
        if !(reads_ok && variants_ok) {
            return Err(Error::InvalidManifest(String::from_str("an entry id occurs twice")));
        }
        Ok(ElsaManifest { release_key, reads, variants })
    }

    /// The release key the manifest is for.
    pub fn release_key(&self) -> (r: &str)
        ensures
            r@ == self.key(),
    {
        self.release_key.as_str()
    }

    /// The alignment entries and the variant entries, each with its id.
    pub fn into_parts(self) -> (r: (
        String,
        Vec<(String, ElsaReadsManifest)>,
        Vec<(String, ElsaVariantsManifest)>,
    ))
        ensures
            r.0@ == self.key(),
            r.1@.map_values(|p: (String, ElsaReadsManifest)| reads_view(p)) == self.reads_entries(),
            r.2@.map_values(|p: (String, ElsaVariantsManifest)| variants_view(p))
                == self.variants_entries(),
    {
        (self.release_key, self.reads, self.variants)
    }
}

/// The object-storage URI with its scheme removed, in either case.
pub open spec fn without_scheme(url: Seq<char>) -> Option<Seq<char>> {
    if is_prefix(seq!['s', '3', ':', '/', '/'], url) || is_prefix(seq!['S', '3', ':', '/', '/'], url) {
        Some(url.skip(5))
    } else {
        None
    }
}

/// `s` without `suffix` where it ends in it, else `s`.
pub open spec fn strip_suffix(s: Seq<char>, suffix: Seq<char>) -> Seq<char> {
    if is_suffix(suffix, s) {
        s.take(s.len() - suffix.len())
    } else {
        s
    }
}

/// The bucket and the substitution template named by an entry's URI.
pub open spec fn spec_location(url: Seq<char>, format: Format) -> Result<
    (Seq<char>, Seq<char>),
    ManifestFault,
> {
    match without_scheme(url) {
        None => Err(ManifestFault::Unsupported),
        Some(rest) => match first_index(rest, '/') {
            None => Err(ManifestFault::Invalid),
            Some(i) => {
                let bucket = rest.take(i);
                let key = rest.skip(i + 1);
                if bucket.len() == 0 || key.len() == 0 {
                    Err(ManifestFault::Invalid)
                } else {
                    Ok((bucket, strip_suffix(key, spec_file_ending(format))))
                }
            },
        },
    }
}

/// The pattern matching the ids of one entry of a release.
pub open spec fn spec_pattern(release_key: Seq<char>, id: Seq<char>) -> Seq<char> {
    seq!['^'] + release_key + seq!['/'] + id + seq!['$']
}

/// Whether the pattern compiles as a regular expression.
pub uninterp spec fn regex_compiles(pattern: Seq<char>) -> bool;

/// Relies on regex::Regex::new: whether the pattern is a valid regular
/// expression.
#[verifier::external_body]
fn compiles_as_regex(pattern: &str) -> (r: bool)
    ensures
        r == regex_compiles(pattern@),
{
    regex::Regex::new(pattern).is_ok()
}

/// The rule for one restriction of an entry stored at `bucket`/`template`.
pub open spec fn rule_view(
    release_key: Seq<char>,
    id: Seq<char>,
    bucket: Seq<char>,
    template: Seq<char>,
    format: Format,
    restriction: ElsaRestrictionManifest,
) -> ResolverView {
    ResolverView {
        regex: spec_pattern(release_key, id),
        substitution: template,
        bucket,
        formats: seq![format],
        reference_names: seq![decimal(restriction.chromosome as nat)],
        interval: Interval { start: restriction.start, end: restriction.end },
    }
}

/// The rule for one restriction of an entry, or why there is none, given
/// whether the entry's pattern is a valid regular expression.
pub open spec fn spec_rule_from_parts(
    release_key: Seq<char>,
    url: Seq<char>,
    id: Seq<char>,
    format: Format,
    restriction: ElsaRestrictionManifest,
    pattern_valid: bool,
) -> Result<ResolverView, ManifestFault> {
    match spec_location(url, format) {
        Err(f) => Err(f),
        Ok((bucket, template)) => if pattern_valid {
            Ok(rule_view(release_key, id, bucket, template, format, restriction))
        } else {
            Err(ManifestFault::Invalid)
        },
    }
}

/// The rule for one restriction of an entry, or why there is none.
pub open spec fn spec_resolver_from_parts(
    release_key: Seq<char>,
    url: Seq<char>,
    id: Seq<char>,
    format: Format,
    restriction: ElsaRestrictionManifest,
) -> Result<ResolverView, ManifestFault> {
    spec_rule_from_parts(
        release_key,
        url,
        id,
        format,
        restriction,
        regex_compiles(spec_pattern(release_key, id)),
    )
}

/// The rules of one entry: one per restriction, in order. The entry's URI
/// is read first, whatever its restrictions: an entry whose URI cannot be
/// used fails. An entry with a usable URI and no restrictions has no rules.
pub open spec fn spec_entry_rules(release_key: Seq<char>, e: EntryView) -> Result<
    Seq<ResolverView>,
    ManifestFault,
> {
    match spec_location(e.url, e.format) {
        Err(f) => Err(f),
        Ok((bucket, template)) => if e.restrictions.len() == 0 {
            Ok(Seq::empty())
        } else if regex_compiles(spec_pattern(release_key, e.id)) {
            Ok(
                e.restrictions.map_values(
                    |r: ElsaRestrictionManifest|
                        rule_view(release_key, e.id, bucket, template, e.format, r),
                ),
            )
        } else {
            Err(ManifestFault::Invalid)
        },
    }
}

/// The rules of the first `n` entries, in order; the first entry that
/// fails decides the fault.
pub open spec fn rules_upto(release_key: Seq<char>, entries: Seq<EntryView>, n: nat) -> Result<
    Seq<ResolverView>,
    ManifestFault,
>
    decreases n,
{
    if n == 0 {
        Ok(Seq::empty())
    } else {
        match rules_upto(release_key, entries, (n - 1) as nat) {
            Err(f) => Err(f),
            Ok(a) => match spec_entry_rules(release_key, entries[n - 1]) {
                Err(f) => Err(f),
                Ok(b) => Ok(a + b),
            },
        }
    }
}

/// The rules of all the entries.
pub open spec fn spec_entries_rules(release_key: Seq<char>, entries: Seq<EntryView>) -> Result<
    Seq<ResolverView>,
    ManifestFault,
> {
    rules_upto(release_key, entries, entries.len())
}

/// The rules of a manifest: those of its alignment entries, then those of
/// its variant entries.
pub open spec fn spec_translate(
    release_key: Seq<char>,
    reads: Seq<EntryView>,
    variants: Seq<EntryView>,
) -> Result<Seq<ResolverView>, ManifestFault> {
    match spec_entries_rules(release_key, reads) {
        Err(f) => Err(f),
        Ok(a) => match spec_entries_rules(release_key, variants) {
            Err(f) => Err(f),
            Ok(b) => Ok(a + b),
        },
    }
}

/// Once a prefix of the entries fails, every longer prefix fails alike.
pub proof fn lemma_fault_persists(
    release_key: Seq<char>,
    entries: Seq<EntryView>,
    n: nat,
    m: nat,
    f: ManifestFault,
)
    requires
        n <= m,
        rules_upto(release_key, entries, n) == Err::<Seq<ResolverView>, ManifestFault>(f),
    ensures
        rules_upto(release_key, entries, m) == Err::<Seq<ResolverView>, ManifestFault>(f),
    decreases m - n,
{
    if n < m {
        lemma_fault_persists(release_key, entries, n, (m - 1) as nat, f);
    }
}

/// Splits an object-storage URI into its bucket and its substitution
/// template, the object key without the format's file ending.
fn parse_location(url: &str, format: Format) -> (r: Result<(String, String), Error>)
    ensures
        match (r, spec_location(url@, format)) {
            (Ok((b, t)), Ok((sb, st))) => b@ == sb && t@ == st,
            (Err(e), Err(f)) => e.reports(f),
            _ => false,
        },
{
    let lower = "s3://";
    let upper = "S3://";
    proof {
        reveal_strlit("s3://");
        reveal_strlit("S3://");
    }
    assert(lower@ == seq!['s', '3', ':', '/', '/']);
    assert(upper@ == seq!['S', '3', ':', '/', '/']);
    if !(starts_with(url, lower) || starts_with(url, upper)) {
        return Err(Error::UnsupportedManifestFeature(String::from_str("only S3 manifest uris are supported")));
    }
    let n = url.unicode_len();
    let rest = url.substring_char(5, n);
    assert(rest@ =~= url@.skip(5));
    match find_char(rest, '/') {
        None => Err(
            Error::InvalidManifest(String::from_str("could not split url into bucket and object key")),
        ),
        Some(i) => {
            let len = rest.unicode_len();
            let bucket = rest.substring_char(0, i);
            let key = rest.substring_char(i + 1, len);
            assert(bucket@ =~= rest@.take(i as int));
            assert(key@ =~= rest@.skip(i + 1));
            let klen = key.unicode_len();
            if i == 0 || klen == 0 {
                return Err(Error::InvalidManifest(String::from_str("bucket or key is empty")));
            }
            let ending = format.file_ending();
            let template = if ends_with(key, ending) {
                let elen = ending.unicode_len();
                let t = key.substring_char(0, klen - elen);
                assert(t@ =~= key@.take(key@.len() - ending@.len()));
                t
            } else {
                key
            };
            Ok((String::from_str(bucket), String::from_str(template)))
        },
    }
}

/// The pattern `^<release key>/<entry id>$`.
fn match_pattern(release_key: &str, id: &str) -> (r: String)
    ensures
        r@ == spec_pattern(release_key@, id@),
{
    proof {
        reveal_strlit("^");
        reveal_strlit("/");
        reveal_strlit("$");
    }
    let mut r = String::from_str("^");
    r.append(release_key);
    r.append("/");
    r.append(id);
    r.append("$");
    r
}

/// Builds the rule for one restriction of the entry `id` of a release,
/// whose data is stored in `bucket` under `template` in `format`.
fn rule_for(
    release_key: &str,
    id: &str,
    bucket: &String,
    template: &String,
    format: Format,
    restriction: &ElsaRestrictionManifest,
) -> (r: Resolver)
    ensures
        r@ == rule_view(release_key@, id@, bucket@, template@, format, *restriction),
{
    let mut formats: Vec<Format> = Vec::new();
    formats.push(format);
    let mut names: Vec<String> = Vec::new();
    names.push(decimal_string(restriction.chromosome));
    let r = Resolver::new(
        match_pattern(release_key, id),
        template.clone(),
        bucket.clone(),
        formats,
        names,
        Interval::new(restriction.start, restriction.end),
    );
    assert(names@.map_values(|s: String| s@) =~= seq![decimal(restriction.chromosome as nat)]);
    assert(formats@ =~= seq![format]);
    r
}

/// The rule for one restriction of the entry `id` of a release, whose
/// data is stored at `url` in `format`, given whether the entry's pattern
/// `^<release key>/<id>$` is a valid regular expression.
pub fn rule_from_parts(
    release_key: &str,
    url: &str,
    id: &str,
    format: Format,
    restriction: &ElsaRestrictionManifest,
    pattern_valid: bool,
) -> (r: Result<Resolver, Error>)
    ensures
        match (
            r,
            spec_rule_from_parts(release_key@, url@, id@, format, *restriction, pattern_valid),
        ) {
            (Ok(res), Ok(v)) => res@ == v,
            (Err(e), Err(f)) => e.reports(f),
            _ => false,
        },
{
    match parse_location(url, format) {
        Err(e) => Err(e),
        Ok((bucket, template)) => {
            if !pattern_valid {
                return Err(Error::InvalidManifest(String::from_str("failed to construct regex")));
            }
            Ok(rule_for(release_key, id, &bucket, &template, format, restriction))
        },
    }
}

impl ElsaManifest {
    /// The rule for one restriction of the entry `id` of a release, whose
    /// data is stored at `url` in `format`.
    pub fn resolver_from_manifest_parts(
        release_key: &str,
        url: &str,
        id: &str,
        format: Format,
        restriction: &ElsaRestrictionManifest,
    ) -> (r: Result<Resolver, Error>)
        ensures
            match (r, spec_resolver_from_parts(release_key@, url@, id@, format, *restriction)) {
                (Ok(res), Ok(v)) => res@ == v,
                (Err(e), Err(f)) => e.reports(f),
                _ => false,
            },
    {
        let pattern = match_pattern(release_key, id);
        let valid = compiles_as_regex(pattern.as_str());
        rule_from_parts(release_key, url, id, format, restriction, valid)
    }
}

/// Appends the rules of one entry to `out`: one per restriction, in order.
fn append_entry_rules(
    release_key: &str,
    id: &str,
    url: &str,
    format: Format,
    restrictions: &Vec<ElsaRestrictionManifest>,
    out: &mut Vec<Resolver>,
) -> (r: Result<(), Error>)
    ensures
        match (
            r,
            spec_entry_rules(
                release_key@,
                EntryView { id: id@, url: url@, format, restrictions: restrictions@ },
            ),
        ) {
            (Ok(_), Ok(v)) => views(final(out)@) == views(old(out)@) + v,
            (Err(e), Err(f)) => e.reports(f),
            _ => false,
        },
{
    let ghost start = views(out@);
    if let Err(e) = parse_location(url, format) {
        return Err(e);
    }
    if restrictions.len() == 0 {
        assert(views(out@) =~= start + Seq::<ResolverView>::empty());
        return Ok(());
    }
    let ghost loc = spec_location(url@, format);
    let mut i: usize = 0;
    while i < restrictions.len()
        invariant
            0 < restrictions@.len(),
            i <= restrictions@.len(),
            i > 0 ==> loc is Ok && regex_compiles(spec_pattern(release_key@, id@)),
            loc == spec_location(url@, format),
            loc matches Ok((b, t)) ==> views(out@) == start + restrictions@.take(i as int).map_values(
                |r: ElsaRestrictionManifest| rule_view(release_key@, id@, b, t, format, r),
            ),
            i == 0 ==> views(out@) == start,
        decreases restrictions@.len() - i,
    {
        match ElsaManifest::resolver_from_manifest_parts(release_key, url, id, format, &restrictions[i]) {
            Err(err) => {
                return Err(err);
            },
            Ok(rule) => {
                let ghost prev = out@;
                out.push(rule);
                proof {
                    let (b, t) = loc->Ok_0;
                    let f = |r: ElsaRestrictionManifest| rule_view(release_key@, id@, b, t, format, r);
                    assert(views(out@) =~= views(prev).push(rule@));
                    assert(restrictions@.take(i + 1) =~= restrictions@.take(i as int).push(restrictions@[i as int]));
                    assert(restrictions@.take(i + 1).map_values(f) =~= restrictions@.take(i as int).map_values(f).push(f(restrictions@[i as int])));
                    if i == 0 {
                        assert(restrictions@.take(0).map_values(f) =~= Seq::<ResolverView>::empty());
                        assert(start + Seq::<ResolverView>::empty() =~= start);
                    }
                    assert(views(out@) =~= start + restrictions@.take(i + 1).map_values(f));
                }
            },
        }
        i = i + 1;
    }
    assert(restrictions@.take(i as int) == restrictions@);
    Ok(())
}

impl ElsaManifest {
    /// The routing rules of the manifest: for each alignment entry and then
    /// each variant entry, one rule per restriction. The first entry whose
    /// URI or pattern cannot be used fails the whole translation.
    pub fn resolvers(&self) -> (r: Result<Vec<Resolver>, Error>)
        ensures
            match (
                r,
                spec_translate(self.key(), self.reads_entries(), self.variants_entries()),
            ) {
                (Ok(rules), Ok(v)) => views(rules@) == v,
                (Err(e), Err(f)) => e.reports(f),
                _ => false,
            },
    {
        let release_key = self.release_key.as_str();
        let ghost rk = self.release_key@;
        let ghost reads = self.reads_entries();
        let ghost variants = self.variants_entries();
        let mut out: Vec<Resolver> = Vec::new();
        let mut i: usize = 0;
        assert(views(out@) =~= Seq::<ResolverView>::empty());
        while i < self.reads.len()
            invariant
                rk == release_key@,
                rk == self.key(),
                reads == self.reads_entries(),
                i <= self.reads@.len(),
                rules_upto(rk, reads, i as nat) == Ok::<Seq<ResolverView>, ManifestFault>(views(out@)),
            decreases self.reads@.len() - i,
        {
            let entry = &self.reads[i].1;
            let format = match entry.format {
                Some(f) => f,
                None => Format::Bam,
            };
            assert(reads[i as int] == reads_view(self.reads@[i as int]));
            match append_entry_rules(release_key, self.reads[i].0.as_str(), entry.url.as_str(), format, &entry.restrictions, &mut out) {
                Err(e) => {
                    proof {
                        let ev = EntryView { id: self.reads@[i as int].0@, url: entry.url@, format, restrictions: entry.restrictions@ };
                        assert(ev == reads[i as int]);
                        let f = spec_entry_rules(rk, ev)->Err_0;
                        assert(rules_upto(rk, reads, (i + 1) as nat) == Err::<Seq<ResolverView>, ManifestFault>(f));
                        lemma_fault_persists(rk, reads, (i + 1) as nat, reads.len(), f);
                        assert(e.reports(f));
                        assert(spec_translate(self.key(), self.reads_entries(), self.variants_entries()) == Err::<Seq<ResolverView>, ManifestFault>(f));
                    }
                    return Err(e);
                },
                Ok(_) => {},
            }
            i = i + 1;
        }
        let ghost a = views(out@);
        let mut j: usize = 0;
        assert(a + Seq::<ResolverView>::empty() =~= a);
        while j < self.variants.len()
            invariant
                rk == release_key@,
                rk == self.key(),
                reads == self.reads_entries(),
                variants == self.variants_entries(),
                spec_entries_rules(rk, reads) == Ok::<Seq<ResolverView>, ManifestFault>(a),
                j <= self.variants@.len(),
                rules_upto(rk, variants, j as nat) matches Ok(b) && views(out@) == a + b,
            decreases self.variants@.len() - j,
        {
            let entry = &self.variants[j].1;
            let format = match entry.format {
                Some(f) => f,
                None => Format::Vcf,
            };
            let ghost b = rules_upto(rk, variants, j as nat)->Ok_0;
            assert(variants[j as int] == variants_view(self.variants@[j as int]));
            match append_entry_rules(release_key, self.variants[j].0.as_str(), entry.url.as_str(), format, &entry.restrictions, &mut out) {
                Err(e) => {
                    proof {
                        let ev = EntryView { id: self.variants@[j as int].0@, url: entry.url@, format, restrictions: entry.restrictions@ };
                        assert(ev == variants[j as int]);
                        let f = spec_entry_rules(rk, ev)->Err_0;
                        assert(rules_upto(rk, variants, (j + 1) as nat) == Err::<Seq<ResolverView>, ManifestFault>(f));
                        lemma_fault_persists(rk, variants, (j + 1) as nat, variants.len(), f);
                        assert(e.reports(f));
                        assert(spec_translate(self.key(), self.reads_entries(), self.variants_entries()) == Err::<Seq<ResolverView>, ManifestFault>(f));
                    }
                    return Err(e);
                },
                Ok(_) => {
                    let ghost c = spec_entry_rules(rk, variants[j as int])->Ok_0;
                    assert(views(out@) =~= a + (b + c));
                },
            }
            j = j + 1;
        }
        Ok(out)
    }
}

} // verus!
