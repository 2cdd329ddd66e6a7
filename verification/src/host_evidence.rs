//! Host-neutral assessment of a host evidence report.
//!
//! The assessment compares rule files named in a report with what the filesystem
//! shows now, in two passes. A matching local file does not prove that a host loaded
//! it, nor that the rules are complete: an assessment never verifies the host claim
//! and never allows reuse.
use vstd::prelude::*;
use vstd::string::StringSliceAdditionalSpecFns;
use vstd::utf8::encode_utf8;

use crate::digest::{hex_lower, sha256_hex, spec_sha256};
use crate::error::{opt_view, AppError, AppResult};
use crate::hooks::{json_str, push_json_str, push_str};
use crate::path_safety::{ExistingPathIdentityRecord, FileObjectId};
use crate::text::{str_equal, string_from_chars};

verus! {

/// Largest rule file read, in bytes (256 KiB).
pub const RULE_FILE_LIMIT: usize = 262144;

/// Largest total of rule bytes read in one pass (4 MiB).
pub const RULE_PASS_LIMIT: usize = 4194304;

/// The outcome of an assessment. It counts what was checked; it never verifies the
/// host claim and never allows reuse.
#[derive(Debug, Clone)]
pub struct HostEvidenceAssessment {
    pub report_sha256: String,
    pub checked_rule_files: usize,
    pub checked_missing_paths: usize,
    pub reported_tools: usize,
    pub host_claim_verified: bool,
    pub reuse_allowed: bool,
}

/// What a non-following metadata read of a path showed.
#[derive(Debug, Clone, Copy, PartialEq, Eq, Structural)]
pub enum PathObservation {
    /// Nothing exists at the path.
    Missing,
    /// A regular file.
    Regular,
    /// A directory.
    Directory,
    /// Something else: a link, a device, a pipe.
    Other,
    /// The read failed for another reason than absence.
    Uninspectable,
}

/// How a rule named in a report is checked.
#[derive(Debug, Clone, Copy, PartialEq, Eq, Structural)]
pub enum RuleCheck {
    /// The report declares the rule absent; its nearest existing ancestor is checked.
    Missing,
    /// The report declares the rule present; its object and bytes are checked.
    Present,
}

pub open spec fn vanished_reason() -> Seq<char> {
    "rule file cannot be inspected or disappeared"@
}

pub open spec fn not_regular_reason() -> Seq<char> {
    "rule appeared or is not a direct regular file"@
}

/// How a rule is checked, given what its path shows and whether the report gives
/// its content digest; `None` when the observation contradicts the report.
pub open spec fn spec_rule_check(observed: PathObservation, has_digest: bool) -> Option<RuleCheck> {
    match observed {
        PathObservation::Missing => if has_digest {
            None
        } else {
            Some(RuleCheck::Missing)
        },
        PathObservation::Regular => if has_digest {
            Some(RuleCheck::Present)
        } else {
            None
        },
        _ => None,
    }
}

/// Decides how a rule is checked. A rule reported without a digest must be absent;
/// a rule reported with one must be a direct regular file.
pub fn classify_rule(observed: PathObservation, has_digest: bool) -> (r: AppResult<RuleCheck>)
    ensures
        match spec_rule_check(observed, has_digest) {
            Some(c) => r == Ok::<RuleCheck, AppError>(c),
            None => r matches Err(e) && e.is_invalid(
                "hostEvidence"@,
                if observed == PathObservation::Missing || observed
                    == PathObservation::Uninspectable {
                    vanished_reason()
                } else {
                    not_regular_reason()
                },
            ),
        },
{
    match observed {
        PathObservation::Missing => if has_digest {
            Err(AppError::invalid("hostEvidence", "rule file cannot be inspected or disappeared"))
        } else {
            Ok(RuleCheck::Missing)
        },
        PathObservation::Uninspectable => Err(
            AppError::invalid("hostEvidence", "rule file cannot be inspected or disappeared"),
        ),
        PathObservation::Regular => if has_digest {
            Ok(RuleCheck::Present)
        } else {
            Err(AppError::invalid("hostEvidence", "rule appeared or is not a direct regular file"))
        },
        _ => Err(AppError::invalid("hostEvidence", "rule appeared or is not a direct regular file")),
    }
}

/// One step of the walk from a missing rule towards its nearest existing ancestor.
#[derive(Debug, Clone, Copy, PartialEq, Eq, Structural)]
pub enum AncestorStep {
    /// The ancestor is a directory: the walk ends here.
    Found,
    /// The ancestor is missing too: go on with its parent.
    Climb,
}

pub open spec fn ancestor_reason(observed: PathObservation) -> Seq<char> {
    match observed {
        PathObservation::Missing => "missing rule has no existing ancestor"@,
        PathObservation::Uninspectable => "cannot inspect missing rule ancestor"@,
        _ => "missing rule ancestor is not a direct directory"@,
    }
}

/// Decides one step of the ancestor walk; `has_parent` tells whether the ancestor
/// has a parent to climb to.
pub fn ancestor_step(observed: PathObservation, has_parent: bool) -> (r: AppResult<AncestorStep>)
    ensures
        observed == PathObservation::Directory ==> r == Ok::<AncestorStep, AppError>(
            AncestorStep::Found,
        ),
        observed == PathObservation::Missing && has_parent ==> r == Ok::<AncestorStep, AppError>(
            AncestorStep::Climb,
        ),
        observed != PathObservation::Directory && !(observed == PathObservation::Missing
            && has_parent) ==> (r matches Err(e) && e.is_invalid(
            "hostEvidence"@,
            ancestor_reason(observed),
        )),
{
    match observed {
        PathObservation::Directory => Ok(AncestorStep::Found),
        PathObservation::Missing => if has_parent {
            Ok(AncestorStep::Climb)
        } else {
            Err(AppError::invalid("hostEvidence", "missing rule has no existing ancestor"))
        },
        PathObservation::Uninspectable => Err(
            AppError::invalid("hostEvidence", "cannot inspect missing rule ancestor"),
        ),
        _ => Err(AppError::invalid("hostEvidence", "missing rule ancestor is not a direct directory")),
    }
}

/// Refuses a missing rule whose nearest existing ancestor is not spelled canonically.
pub fn check_ancestor_canonical(canonical: &str, ancestor: &str) -> (r: AppResult<()>)
    ensures
        canonical@ == ancestor@ ==> r is Ok,
        canonical@ != ancestor@ ==> (r matches Err(e) && e.is_invalid(
            "hostEvidence"@,
            "missing rule path uses an alias"@,
        )),
{
    if str_equal(canonical, ancestor) {
        Ok(())
    } else {
        Err(AppError::invalid("hostEvidence", "missing rule path uses an alias"))
    }
}

/// The decimal digits of `n`.
pub open spec fn decimal(n: nat) -> Seq<char>
    decreases n,
{
    if n < 10 {
        seq![digit(n)]
    } else {
        decimal(n / 10) + seq![digit(n % 10)]
    }
}

pub open spec fn digit(n: nat) -> char {
    if n == 0 { '0' } else if n == 1 { '1' } else if n == 2 { '2' } else if n == 3 { '3' }
    else if n == 4 { '4' } else if n == 5 { '5' } else if n == 6 { '6' } else if n == 7 { '7' }
    else if n == 8 { '8' } else { '9' }
}

fn digit_exec(n: u64) -> (c: char)
    requires
        n < 10,
    ensures
        c == digit(n as nat),
{
    match n {
        0 => '0',
        1 => '1',
        2 => '2',
        3 => '3',
        4 => '4',
        5 => '5',
        6 => '6',
        7 => '7',
        8 => '8',
        _ => '9',
    }
}

pub(crate) fn push_decimal(out: &mut Vec<char>, n: u64)
    ensures
        final(out)@ == old(out)@ + decimal(n as nat),
    decreases n,
{
    if n >= 10 {
        push_decimal(out, n / 10);
    }
    out.push(digit_exec(n % 10));
    proof {
        if n < 10 {
            assert(n % 10 == n);
        }
    }
}

/// The compact JSON under which an identity record is stored and hashed.
pub open spec fn identity_json(path: Seq<char>, object: FileObjectId) -> Seq<char> {
    "{\"canonical_path\":"@ + json_str(path) + ",\"object\":{\"first\":"@ + decimal(
        object.first as nat,
    ) + ",\"second\":"@ + decimal(object.second as nat) + "}}"@
}

/// The digest that a report gives for the object identity of a present rule.
pub open spec fn identity_digest(path: Seq<char>, object: FileObjectId) -> Seq<char> {
    hex_lower(spec_sha256(encode_utf8(identity_json(path, object))))
}

/// Lowercase hex SHA-256 of the compact JSON of an identity record.
pub fn identity_sha256(identity: &ExistingPathIdentityRecord) -> (r: String)
    ensures
        r@ == identity_digest(identity.canonical_path@, identity.object),
{
    let mut out: Vec<char> = Vec::new();
    push_str(&mut out, "{\"canonical_path\":");
    push_json_str(&mut out, identity.canonical_path.as_str());
    push_str(&mut out, ",\"object\":{\"first\":");
    push_decimal(&mut out, identity.object.first);
    push_str(&mut out, ",\"second\":");
    push_decimal(&mut out, identity.object.second);
    push_str(&mut out, "}}");
    assert(out@ =~= identity_json(identity.canonical_path@, identity.object));
    let text = string_from_chars(out.as_slice());
    sha256_hex(text.as_str().as_bytes())
}

fn opt_is(a: &Option<String>, b: &str) -> (r: bool)
    ensures
        r == (opt_view(*a) == Some(b@)),
{
    match a {
        Some(x) => str_equal(x.as_str(), b),
        None => false,
    }
}

/// Refuses a present rule whose path is not canonical or whose object identity does
/// not hash to the digest the report gives.
pub fn check_rule_object(
    path: &str,
    identity: &ExistingPathIdentityRecord,
    object_sha256: &Option<String>,
) -> (r: AppResult<()>)
    ensures
        identity.canonical_path@ == path@ && opt_view(*object_sha256) == Some(
            identity_digest(identity.canonical_path@, identity.object),
        ) ==> r is Ok,
        !(identity.canonical_path@ == path@ && opt_view(*object_sha256) == Some(
            identity_digest(identity.canonical_path@, identity.object),
        )) ==> (r matches Err(e) && e.is_invalid(
            "hostEvidence"@,
            "rule file object or canonical path changed"@,
        )),
{
    if !str_equal(identity.canonical_path.as_str(), path) {
        return Err(AppError::invalid("hostEvidence", "rule file object or canonical path changed"));
    }
    let digest = identity_sha256(identity);
    if !opt_is(object_sha256, digest.as_str()) {
        return Err(AppError::invalid("hostEvidence", "rule file object or canonical path changed"));
    }
    Ok(())
}

pub open spec fn rule_size_reason() -> Seq<char> {
    "rule input exceeds 256 KiB/file or 4 MiB/pass"@
}

/// Adds the size of one rule file to the bytes read in this pass, refusing a file
/// over 256 KiB or a pass over 4 MiB; the new total on success.
pub fn admit_rule_bytes(total: usize, len: usize) -> (r: AppResult<usize>)
    ensures
        len <= RULE_FILE_LIMIT && total + len <= RULE_PASS_LIMIT ==> r == Ok::<usize, AppError>(
            (total + len) as usize,
        ),
        !(len <= RULE_FILE_LIMIT && total + len <= RULE_PASS_LIMIT) ==> (r matches Err(e)
            && e.is_invalid("hostEvidence"@, rule_size_reason())),
{
    if len > RULE_FILE_LIMIT || total > RULE_PASS_LIMIT - len {
        return Err(AppError::invalid("hostEvidence", "rule input exceeds 256 KiB/file or 4 MiB/pass"));
    }
    Ok(total + len)
}

/// Refuses rule bytes whose digest differs from the one the report gives.
pub fn check_rule_bytes(bytes: &[u8], sha256: &Option<String>) -> (r: AppResult<()>)
    ensures
        opt_view(*sha256) == Some(hex_lower(spec_sha256(bytes@))) ==> r is Ok,
        opt_view(*sha256) != Some(hex_lower(spec_sha256(bytes@))) ==> (r matches Err(e)
            && e.is_invalid("hostEvidence"@, "loaded rule bytes differ from current file"@)),
{
    let digest = sha256_hex(bytes);
    if opt_is(sha256, digest.as_str()) {
        Ok(())
    } else {
        Err(AppError::invalid("hostEvidence", "loaded rule bytes differ from current file"))
    }
}

pub open spec fn pass_reason(check: RuleCheck) -> Seq<char> {
    match check {
        RuleCheck::Missing => "missing rule ancestor changed between passes"@,
        RuleCheck::Present => "rule object changed between passes"@,
    }
}

/// Refuses a rule whose observation in the second pass differs from the first one:
/// another canonical path or another object.
pub fn check_same_across_passes(
    check: RuleCheck,
    first: &ExistingPathIdentityRecord,
    second: &ExistingPathIdentityRecord,
) -> (r: AppResult<()>)
    ensures
        first.canonical_path@ == second.canonical_path@ && first.object == second.object ==> r is Ok,
        !(first.canonical_path@ == second.canonical_path@ && first.object == second.object) ==> (
        r matches Err(e) && e.is_invalid("hostEvidence"@, pass_reason(check))),
{
    if first.same_record(second) {
        return Ok(());
    }
    match check {
        RuleCheck::Missing => Err(
            AppError::invalid("hostEvidence", "missing rule ancestor changed between passes"),
        ),
        RuleCheck::Present => Err(
            AppError::invalid("hostEvidence", "rule object changed between passes"),
        ),
    }
}

/// What a rule observation is compared by: the canonical path and the object.
pub open spec fn record_view(r: ExistingPathIdentityRecord) -> (Seq<char>, FileObjectId) {
    (r.canonical_path@, r.object)
}

/// Where the two passes over a report's rules stand. Every rule is observed once in
/// each pass, in order; the first pass's observations are kept, and each second
/// observation must match the first one of the same rule. Rule bytes are counted per
/// pass.
pub struct EvidencePasses {
    rule_count: usize,
    pass: usize,
    index: usize,
    total: usize,
    first: Vec<(RuleCheck, ExistingPathIdentityRecord)>,
}

/// What the caller does next.
#[derive(Debug, Clone, Copy, PartialEq, Eq, Structural)]
pub enum EvidenceStep {
    /// Observe the rule at this index, in the current pass.
    Observe(usize),
    /// Both passes are done: check the clock and build the assessment.
    Finish,
}

/// The pass and rule index after one more observation of `count` rules.
pub open spec fn advance(pass: nat, index: nat, count: nat) -> (nat, nat) {
    if index + 1 == count {
        ((pass + 1) as nat, 0)
    } else {
        (pass, (index + 1) as nat)
    }
}

impl EvidencePasses {
    pub closed spec fn wf(&self) -> bool {
        &&& self.pass <= 2
        &&& self.pass < 2 ==> self.index < self.rule_count
        &&& self.pass == 2 ==> self.index == 0
        &&& self.pass == 0 ==> self.first@.len() == self.index
        &&& self.pass >= 1 ==> self.first@.len() == self.rule_count
        &&& self.total <= RULE_PASS_LIMIT
    }

    /// The number of rules in the report.
    pub closed spec fn rules(&self) -> nat {
        self.rule_count as nat
    }

    /// The current pass: 0, 1, or 2 once both are done.
    pub closed spec fn pass(&self) -> nat {
        self.pass as nat
    }

    /// The rule observed next in the current pass.
    pub closed spec fn index(&self) -> nat {
        self.index as nat
    }

    /// Rule bytes read so far in the current pass.
    pub closed spec fn total(&self) -> nat {
        self.total as nat
    }

    /// The first pass's observations, in rule order.
    pub closed spec fn first_pass(&self) -> Seq<(RuleCheck, (Seq<char>, FileObjectId))> {
        self.first@.map_values(|e: (RuleCheck, ExistingPathIdentityRecord)| (e.0, record_view(e.1)))
    }

    /// How many observations have been recorded over both passes.
    pub open spec fn done(&self) -> nat {
        if self.pass() == 0 {
            self.index()
        } else if self.pass() == 1 {
            self.rules() + self.index()
        } else {
            2 * self.rules() + self.index()
        }
    }

    /// Nothing observed yet; with no rules both passes are already done.
    pub fn new(rule_count: usize) -> (r: Self)
        ensures
            r.wf(),
            r.rules() == rule_count,
            r.index() == 0,
            r.total() == 0,
            r.first_pass() == Seq::<(RuleCheck, (Seq<char>, FileObjectId))>::empty(),
            r.pass() == (if rule_count == 0 { 2nat } else { 0nat }),
    {
        let r = EvidencePasses {
            rule_count,
            pass: if rule_count == 0 { 2 } else { 0 },
            index: 0,
            total: 0,
            first: Vec::new(),
        };
        assert(r.first_pass() =~= Seq::<(RuleCheck, (Seq<char>, FileObjectId))>::empty());
        r
    }

    /// The next thing to do: observe the current rule, or finish once every rule was
    /// observed in both passes.
    pub fn next(&self) -> (r: EvidenceStep)
        requires
            self.wf(),
        ensures
            self.pass() < 2 ==> r == EvidenceStep::Observe(self.index() as usize) && self.index() < self.rules(),
            self.pass() == 2 ==> r == EvidenceStep::Finish,
            (r == EvidenceStep::Finish) <==> self.done() == 2 * self.rules(),
    {
        if self.pass < 2 {
            EvidenceStep::Observe(self.index)
        } else {
            EvidenceStep::Finish
        }
    }

    /// Counts the bytes of the current rule against the per-file and per-pass limits.
    pub fn count_bytes(&mut self, len: usize) -> (r: AppResult<()>)
        requires
            old(self).wf(),
        ensures
            final(self).wf(),
            final(self).rules() == old(self).rules(),
            final(self).pass() == old(self).pass(),
            final(self).index() == old(self).index(),
            final(self).first_pass() == old(self).first_pass(),
            len <= RULE_FILE_LIMIT && old(self).total() + len <= RULE_PASS_LIMIT ==> r is Ok
                && final(self).total() == old(self).total() + len,
            !(len <= RULE_FILE_LIMIT && old(self).total() + len <= RULE_PASS_LIMIT) ==> (r matches Err(e)
                && e.is_invalid("hostEvidence"@, rule_size_reason())),
    {
        let total = admit_rule_bytes(self.total, len)?;
        self.total = total;
        Ok(())
    }

    /// Records the observation of the current rule and moves on. In the first pass the
    /// observation is kept; in the second it must match the first one of the same rule,
    /// else the assessment is refused. After a rule's last observation in a pass the
    /// next pass starts with no bytes counted.
    pub fn record(&mut self, check: RuleCheck, observed: ExistingPathIdentityRecord) -> (r: AppResult<()>)
        requires
            old(self).wf(),
            old(self).pass() < 2,
        ensures
            final(self).wf(),
            final(self).rules() == old(self).rules(),
            old(self).pass() == 0 ==> r is Ok && final(self).first_pass() == old(self).first_pass().push(
                (check, record_view(observed)),
            ),
            old(self).pass() == 1 ==> final(self).first_pass() == old(self).first_pass(),
            old(self).pass() == 1 && old(self).first_pass()[old(self).index() as int].1 == record_view(observed)
                ==> r is Ok,
            old(self).pass() == 1 && old(self).first_pass()[old(self).index() as int].1 != record_view(observed)
                ==> (r matches Err(e) && e.is_invalid(
                "hostEvidence"@,
                pass_reason(old(self).first_pass()[old(self).index() as int].0),
            )),
            r is Ok ==> (final(self).pass(), final(self).index()) == advance(
                old(self).pass(),
                old(self).index(),
                old(self).rules(),
            ) && final(self).done() == old(self).done() + 1,
            r is Ok ==> final(self).total() == (if old(self).index() + 1 == old(self).rules() {
                0
            } else {
                old(self).total()
            }),
    {
        let ghost before = self.first_pass();
        if self.pass == 0 {
            self.first.push((check, observed));
            assert(self.first_pass() =~= before.push((check, record_view(observed))));
        } else {
            let i = self.index;
            assert(self.first_pass()[i as int] == (self.first@[i as int].0, record_view(self.first@[i as int].1)));
            check_same_across_passes(self.first[i].0, &self.first[i].1, &observed)?;
        }
        if self.index + 1 == self.rule_count {
            self.pass = self.pass + 1;
            self.index = 0;
            self.total = 0;
        } else {
            self.index = self.index + 1;
        }
        Ok(())
    }
}

pub open spec fn evidence_clock_reason() -> Seq<char> {
    "clock moved backwards during host evidence assessment"@
}

/// Refuses an assessment during which the clock moved backwards.
pub fn check_evidence_clock(started: u64, ended: u64) -> (r: AppResult<()>)
    ensures
        ended >= started ==> r is Ok,
        ended < started ==> (r matches Err(e) && e.is_invalid(
            "hostEvidence"@,
            evidence_clock_reason(),
        )),
{
    if ended < started {
        Err(
            AppError::invalid(
                "hostEvidence",
                "clock moved backwards during host evidence assessment",
            ),
        )
    } else {
        Ok(())
    }
}

/// How many of a report's rules give a content digest (`digest == true`) or not.
pub open spec fn count_rules(rules_with_digest: Seq<bool>, digest: bool) -> nat
    decreases rules_with_digest.len(),
{
    if rules_with_digest.len() == 0 {
        0
    } else {
        count_rules(rules_with_digest.drop_last(), digest) + if rules_with_digest.last() == digest {
            1nat
        } else {
            0nat
        }
    }
}

proof fn lemma_counts_add_up(rules_with_digest: Seq<bool>)
    ensures
        count_rules(rules_with_digest, true) + count_rules(rules_with_digest, false)
            == rules_with_digest.len(),
    decreases rules_with_digest.len(),
{
    if rules_with_digest.len() > 0 {
        lemma_counts_add_up(rules_with_digest.drop_last());
    }
}

/// Every rule a report names is checked in exactly one way, decided by the report:
/// one with a content digest only as a present regular file, one without only as a
/// missing path.
pub proof fn law_rule_check_follows_report(observed: PathObservation, has_digest: bool)
    ensures
        spec_rule_check(observed, has_digest) == Some(RuleCheck::Present) ==> has_digest,
        spec_rule_check(observed, has_digest) == Some(RuleCheck::Missing) ==> !has_digest,
        has_digest ==> spec_rule_check(observed, has_digest) != Some(RuleCheck::Missing),
{
}

/// The assessment of a report whose rules all checked out, given for each of the
/// report's rules, in order, whether it gives a content digest: the digest of the
/// report's compact JSON, the rules checked as present files (those with a digest)
/// and as missing paths (the others), which together are all the report's rules,
/// and the number of reported tools. It never verifies the host claim and never
/// allows reuse, whatever the report says.
pub fn assessment(
    report_json: &[u8],
    rules_with_digest: &Vec<bool>,
    reported_tools: usize,
) -> (r: HostEvidenceAssessment)
    ensures
        r.report_sha256@ == hex_lower(spec_sha256(report_json@)),
        r.checked_rule_files == count_rules(rules_with_digest@, true),
        r.checked_missing_paths == count_rules(rules_with_digest@, false),
        r.checked_rule_files + r.checked_missing_paths == rules_with_digest@.len(),
        r.reported_tools == reported_tools,
        !r.host_claim_verified,
        !r.reuse_allowed,
{
    let mut present: usize = 0;
    let mut missing: usize = 0;
    let mut i: usize = 0;
    while i < rules_with_digest.len()
        invariant
            i <= rules_with_digest@.len(),
            present == count_rules(rules_with_digest@.take(i as int), true),
            missing == count_rules(rules_with_digest@.take(i as int), false),
            present + missing == i,
        decreases rules_with_digest@.len() - i,
    {
        proof {
            lemma_counts_add_up(rules_with_digest@.take(i as int));
            assert(rules_with_digest@.take(i + 1).drop_last() =~= rules_with_digest@.take(i as int));
            assert(rules_with_digest@.take(i + 1).last() == rules_with_digest@[i as int]);
        }
        if rules_with_digest[i] {
            present = present + 1;
        } else {
            missing = missing + 1;
        }
        i = i + 1;
    }
    proof {
        assert(rules_with_digest@.take(rules_with_digest@.len() as int) =~= rules_with_digest@);
    }
    HostEvidenceAssessment {
        report_sha256: sha256_hex(report_json),
        checked_rule_files: present,
        checked_missing_paths: missing,
        reported_tools,
        host_claim_verified: false,
        reuse_allowed: false,
    }
}

} // verus!
