//! Local history of approved schema migrations: bounded records with a SHA-256 fingerprint
//! of the script, their validation, de-duplication, ordering and outcome updates.

use vstd::prelude::*;

use crate::domain::DriverKind;
use crate::migration::MigrationScript;
use crate::text::{
    cat3, chars_of, contains_text, decimal, push_char, push_str, spec_decimal, spec_utf8_len, str_eq,
    strings_view, utf8_len, utf8_width,
};

verus! {

/// Most approval records kept.
pub const MAX_MIGRATION_APPROVAL_RECORDS: usize = 50;

/// Largest stored approval history, in bytes of JSON.
pub const MAX_MIGRATION_APPROVAL_PREF_BYTES: usize = 131072;

/// Longest text field of a record, in bytes.
pub const MAX_MIGRATION_APPROVAL_TEXT_BYTES: usize = 1024;

/// Longest stored error of a record, in bytes.
pub const MAX_MIGRATION_APPROVAL_ERROR_BYTES: usize = 8192;

// ---------------------------------------------------------------------------------------------
// Fingerprint
// ---------------------------------------------------------------------------------------------

/// SHA-256 of the UTF-8 bytes of a text.
pub uninterp spec fn sha256_of_utf8(text: Seq<char>) -> Seq<u8>;

/// SHA-256 digest of the UTF-8 bytes of `text` (`sha2::Sha256::digest` over `str::as_bytes`).
/// The contract claims only that the result is the digest of the text, 32 bytes long.
#[verifier::external_body]
fn sha256_digest(text: &str) -> (r: Vec<u8>)
    ensures
        r@ == sha256_of_utf8(text@),
        r@.len() == 32,
{
    <sha2::Sha256 as sha2::Digest>::digest(text.as_bytes()).to_vec()
}

/// Lowercase hexadecimal digit of `d < 16`.
pub open spec fn spec_hex_digit(d: nat) -> char {
    if d < 10 {
        ((d + 48) as u32) as char
    } else {
        ((d + 87) as u32) as char
    }
}

/// Lowercase hexadecimal text of bytes, two digits per byte, high half first.
pub open spec fn spec_hex(bytes: Seq<u8>) -> Seq<char>
    decreases bytes.len(),
{
    if bytes.len() == 0 {
        Seq::empty()
    } else {
        spec_hex(bytes.drop_last()) + seq![
            spec_hex_digit((bytes.last() / 16) as nat),
            spec_hex_digit((bytes.last() % 16) as nat),
        ]
    }
}

fn hex_digit(d: u8) -> (c: char)
    requires
        d < 16,
    ensures
        c == spec_hex_digit(d as nat),
{
    if d < 10 {
        (d + 48) as char
    } else {
        (d + 87) as char
    }
}

/// Lowercase hexadecimal text of `bytes`, as `hex::encode` writes it: each byte becomes two
/// digits, `0-9` then `a-f`, high half first.
fn hex_encode(bytes: &[u8]) -> (r: String)
    ensures
        r@ == spec_hex(bytes@),
{
    let mut out = String::new();
    let mut i: usize = 0;
    while i < bytes.len()
        invariant
            i <= bytes@.len(),
            out@ == spec_hex(bytes@.take(i as int)),
        decreases bytes@.len() - i,
    {
        let b = bytes[i];
        assert(bytes@.take(i + 1).drop_last() =~= bytes@.take(i as int));
        assert(bytes@.take(i + 1).last() == b);
        push_char(&mut out, hex_digit(b / 16));
        push_char(&mut out, hex_digit(b % 16));
        assert(out@ =~= spec_hex(bytes@.take(i + 1)));
        i = i + 1;
    }
    assert(bytes@.take(bytes@.len() as int) =~= bytes@);
    out
}

/// Whether `c` is an ASCII hexadecimal digit of either case.
pub open spec fn spec_is_hex_digit(c: char) -> bool {
    ('0' <= c && c <= '9') || ('a' <= c && c <= 'f') || ('A' <= c && c <= 'F')
}

/// Hex text has two characters per byte, all of them hexadecimal digits.
pub proof fn lemma_hex_shape(bytes: Seq<u8>)
    ensures
        spec_hex(bytes).len() == 2 * bytes.len(),
        forall|i: int| 0 <= i < spec_hex(bytes).len() ==> spec_is_hex_digit(#[trigger] spec_hex(bytes)[i]),
    decreases bytes.len(),
{
    if bytes.len() > 0 {
        lemma_hex_shape(bytes.drop_last());
        let b = bytes.last();
        assert(b / 16 < 16);
        assert(b % 16 < 16);
        let prev = spec_hex(bytes.drop_last());
        let h = spec_hex(bytes);
        assert forall|i: int| 0 <= i < h.len() implies spec_is_hex_digit(#[trigger] h[i]) by {
            if i < prev.len() {
                assert(h[i] == prev[i]);
            }
        }
    }
}

/// Fingerprint of a migration script: lowercase hex SHA-256 of its SQL.
pub open spec fn spec_migration_sql_digest(sql: Seq<char>) -> Seq<char> {
    spec_hex(sha256_of_utf8(sql))
}

/// Fingerprint of a migration script, so history and copies never hold the SQL itself.
pub fn migration_sql_digest(sql: &str) -> (r: String)
    ensures
        r@ == spec_migration_sql_digest(sql@),
        r@.len() == 64,
        forall|i: int| 0 <= i < r@.len() ==> spec_is_hex_digit(#[trigger] r@[i]),
{
    let digest = sha256_digest(sql);
    let r = hex_encode(digest.as_slice());
    proof {
        lemma_hex_shape(digest@);
    }
    r
}

// ---------------------------------------------------------------------------------------------
// Records
// ---------------------------------------------------------------------------------------------

/// Where a migration approval stands.
#[derive(Clone, Copy, Debug, PartialEq, Eq, Structural)]
pub enum MigrationApprovalStatus {
    Approved,
    Executed,
    Failed,
}

/// A UTC instant: seconds since the Unix epoch and nanoseconds within that second.
#[derive(Clone, Copy, Debug, PartialEq, Eq, Structural)]
pub struct UtcTime {
    pub seconds: i64,
    pub nanos: u32,
}

/// Whether `a` is strictly earlier than `b`.
pub open spec fn spec_time_lt(a: UtcTime, b: UtcTime) -> bool {
    a.seconds < b.seconds || (a.seconds == b.seconds && a.nanos < b.nanos)
}

fn time_lt(a: UtcTime, b: UtcTime) -> (r: bool)
    ensures
        r == spec_time_lt(a, b),
{
    a.seconds < b.seconds || (a.seconds == b.seconds && a.nanos < b.nanos)
}

/// One approved migration, stored locally without its SQL.
#[derive(Debug)]
pub struct MigrationApprovalRecord {
    pub approval_id: String,
    pub source_connection_id: String,
    pub source_connection_name: String,
    pub target_connection_id: String,
    pub target_connection_name: String,
    pub source_schema: String,
    pub source_table: String,
    pub target_schema: String,
    pub target_table: String,
    pub driver: DriverKind,
    pub statement_count: usize,
    pub destructive_statements: usize,
    /// Lowercase hex SHA-256 of the approved SQL.
    pub sql_sha256: String,
    pub approved_at: UtcTime,
    pub updated_at: UtcTime,
    pub status: MigrationApprovalStatus,
    pub elapsed_ms: Option<u64>,
    pub warning_count: usize,
    pub error: Option<String>,
}

/// Ghost model of a record.
pub struct SpecApproval {
    pub approval_id: Seq<char>,
    pub source_connection_id: Seq<char>,
    pub source_connection_name: Seq<char>,
    pub target_connection_id: Seq<char>,
    pub target_connection_name: Seq<char>,
    pub source_schema: Seq<char>,
    pub source_table: Seq<char>,
    pub target_schema: Seq<char>,
    pub target_table: Seq<char>,
    pub driver: DriverKind,
    pub statement_count: usize,
    pub destructive_statements: usize,
    pub sql_sha256: Seq<char>,
    pub approved_at: UtcTime,
    pub updated_at: UtcTime,
    pub status: MigrationApprovalStatus,
    pub elapsed_ms: Option<u64>,
    pub warning_count: usize,
    pub error: Option<Seq<char>>,
}

impl View for MigrationApprovalRecord {
    type V = SpecApproval;

    open spec fn view(&self) -> SpecApproval {
        SpecApproval {
            approval_id: self.approval_id@,
            source_connection_id: self.source_connection_id@,
            source_connection_name: self.source_connection_name@,
            target_connection_id: self.target_connection_id@,
            target_connection_name: self.target_connection_name@,
            source_schema: self.source_schema@,
            source_table: self.source_table@,
            target_schema: self.target_schema@,
            target_table: self.target_table@,
            driver: self.driver,
            statement_count: self.statement_count,
            destructive_statements: self.destructive_statements,
            sql_sha256: self.sql_sha256@,
            approved_at: self.approved_at,
            updated_at: self.updated_at,
            status: self.status,
            elapsed_ms: self.elapsed_ms,
            warning_count: self.warning_count,
            error: crate::domain::opt_view(self.error),
        }
    }
}

/// Views of records.
pub open spec fn approvals_view(v: Seq<MigrationApprovalRecord>) -> Seq<SpecApproval> {
    v.map_values(|r: MigrationApprovalRecord| r@)
}

// ---------------------------------------------------------------------------------------------
// Bounded text
// ---------------------------------------------------------------------------------------------

/// Number of leading characters kept when `v` is cut to `max` bytes: scanning from `i`, the
/// first character that would pass the limit and everything after it are dropped.
pub open spec fn spec_fit_from(v: Seq<char>, max: int, i: int) -> int
    decreases v.len() - i,
{
    if i < 0 || i >= v.len() {
        v.len() as int
    } else if spec_utf8_len(v.take(i + 1)) > max {
        i
    } else {
        spec_fit_from(v, max, i + 1)
    }
}

/// `value` cut to at most `max_bytes` UTF-8 bytes on a character boundary.
pub open spec fn spec_bounded_text(value: Seq<char>, max_bytes: int) -> Seq<char> {
    if spec_utf8_len(value) <= max_bytes {
        value
    } else {
        value.take(spec_fit_from(value, max_bytes, 0))
    }
}

proof fn lemma_fit_from_fits(v: Seq<char>, max: int, i: int)
    requires
        0 <= i <= v.len(),
        spec_utf8_len(v.take(i)) <= max,
    ensures
        i <= spec_fit_from(v, max, i) <= v.len(),
        spec_utf8_len(v.take(spec_fit_from(v, max, i))) <= max,
    decreases v.len() - i,
{
    if i < v.len() && spec_utf8_len(v.take(i + 1)) <= max {
        lemma_fit_from_fits(v, max, i + 1);
    } else if i == v.len() {
        assert(v.take(i) =~= v.take(v.len() as int));
    }
}

/// A bounded text never passes the limit and is a prefix of the value.
pub proof fn lemma_bounded_text_fits(value: Seq<char>, max_bytes: int)
    requires
        0 <= max_bytes,
    ensures
        spec_utf8_len(spec_bounded_text(value, max_bytes)) <= max_bytes,
        spec_bounded_text(value, max_bytes).len() <= value.len(),
        spec_bounded_text(value, max_bytes) =~= value.take(spec_bounded_text(value, max_bytes).len() as int),
{
    if spec_utf8_len(value) > max_bytes {
        assert(value.take(0) =~= Seq::<char>::empty());
        lemma_fit_from_fits(value, max_bytes, 0);
    } else {
        assert(value.take(value.len() as int) =~= value);
    }
}

proof fn lemma_utf8_prefix_le(s: Seq<char>, k: int)
    requires
        0 <= k <= s.len(),
    ensures
        spec_utf8_len(s.take(k)) <= spec_utf8_len(s),
    decreases s.len() - k,
{
    if k < s.len() {
        lemma_utf8_prefix_le(s, k + 1);
        assert(s.take(k + 1).drop_last() =~= s.take(k));
    } else {
        assert(s.take(k) =~= s);
    }
}

/// Cuts `value` to at most `max_bytes` bytes without splitting a character.
pub fn bounded_text(value: &str, max_bytes: usize) -> (r: String)
    ensures
        r@ == spec_bounded_text(value@, max_bytes as int),
{
    let cs = chars_of(value);
    let mut i: usize = 0;
    let mut used: usize = 0;
    let mut stop = false;
    assert(cs@.take(0) =~= Seq::<char>::empty());
    while i < cs.len() && !stop
        invariant
            i <= cs.len(),
            cs@ == value@,
            used == spec_utf8_len(cs@.take(i as int)),
            used <= max_bytes,
            spec_fit_from(cs@, max_bytes as int, 0) == spec_fit_from(cs@, max_bytes as int, i as int),
            stop ==> i < cs.len() && spec_utf8_len(cs@.take(i + 1)) > max_bytes
                && spec_fit_from(cs@, max_bytes as int, i as int) == i,
        decreases cs.len() - i + (if stop { 0int } else { 1int }),
    {
        let w = utf8_width(cs[i]);
        assert(cs@.take(i + 1).drop_last() =~= cs@.take(i as int));
        if w > max_bytes - used {
            stop = true;
        } else {
            used = used + w;
            i = i + 1;
        }
    }
    proof {
        if stop {
            lemma_utf8_prefix_le(cs@, i + 1);
        } else {
            assert(cs@.take(i as int) =~= cs@);
        }
    }
    let mut out: Vec<char> = Vec::new();
    let mut k: usize = 0;
    while k < i
        invariant
            k <= i <= cs.len(),
            out@ == cs@.take(k as int),
        decreases i - k,
    {
        out.push(cs[k]);
        assert(cs@.take(k + 1) =~= cs@.take(k as int).push(cs@[k as int]));
        k = k + 1;
    }
    crate::text::string_from_chars(out.as_slice())
}

/// Checks one text field of a record: present and at most the text limit.
pub open spec fn spec_validate_text(label: Seq<char>, value: Seq<char>) -> Option<Seq<char>> {
    if value.len() == 0 || spec_utf8_len(value) > MAX_MIGRATION_APPROVAL_TEXT_BYTES {
        Some(label + "为空或超过 "@ + spec_decimal(MAX_MIGRATION_APPROVAL_TEXT_BYTES as nat) + " bytes"@)
    } else {
        None
    }
}

/// Rejects an empty text field or one longer than the limit.
pub fn validate_text(label: &str, value: &str) -> (r: Result<(), String>)
    ensures
        match r {
            Ok(()) => spec_validate_text(label@, value@) is None,
            Err(e) => spec_validate_text(label@, value@) == Some(e@),
        },
{
    if value.is_empty() || utf8_len(value) > MAX_MIGRATION_APPROVAL_TEXT_BYTES {
        let n = decimal(MAX_MIGRATION_APPROVAL_TEXT_BYTES as u64);
        let mut e = cat3(label, "为空或超过 ", n.as_str());
        push_str(&mut e, " bytes");
        return Err(e);
    }
    Ok(())
}

/// Whether text is a SHA-256 fingerprint: 64 hexadecimal digits.
pub open spec fn spec_is_sha256_text(s: Seq<char>) -> bool {
    s.len() == 64 && forall|i: int| 0 <= i < s.len() ==> spec_is_hex_digit(#[trigger] s[i])
}

fn is_sha256_text(s: &str) -> (r: bool)
    ensures
        r == spec_is_sha256_text(s@),
{
    let cs = chars_of(s);
    if cs.len() != 64 {
        return false;
    }
    let mut i: usize = 0;
    while i < cs.len()
        invariant
            i <= cs.len(),
            cs@ == s@,
            forall|j: int| 0 <= j < i ==> spec_is_hex_digit(#[trigger] cs@[j]),
        decreases cs.len() - i,
    {
        let c = cs[i];
        if !(('0' <= c && c <= '9') || ('a' <= c && c <= 'f') || ('A' <= c && c <= 'F')) {
            return false;
        }
        i = i + 1;
    }
    true
}

/// The first problem of a record, in field order, or none.
pub open spec fn spec_validate_record(r: SpecApproval) -> Option<Seq<char>> {
    let checks = seq![
        spec_validate_text("审批记录 ID"@, r.approval_id),
        spec_validate_text("源连接 ID"@, r.source_connection_id),
        spec_validate_text("源连接名称"@, r.source_connection_name),
        spec_validate_text("目标连接 ID"@, r.target_connection_id),
        spec_validate_text("目标连接名称"@, r.target_connection_name),
        spec_validate_text("源 schema"@, r.source_schema),
        spec_validate_text("源表名"@, r.source_table),
        spec_validate_text("目标 schema"@, r.target_schema),
        spec_validate_text("目标表名"@, r.target_table),
    ];
    if checks[0] is Some {
        checks[0]
    } else if checks[1] is Some {
        checks[1]
    } else if checks[2] is Some {
        checks[2]
    } else if checks[3] is Some {
        checks[3]
    } else if checks[4] is Some {
        checks[4]
    } else if checks[5] is Some {
        checks[5]
    } else if checks[6] is Some {
        checks[6]
    } else if checks[7] is Some {
        checks[7]
    } else if checks[8] is Some {
        checks[8]
    } else if !spec_is_sha256_text(r.sql_sha256) {
        Some("迁移脚本指纹不是有效的 SHA-256 值"@)
    } else if r.error is Some && spec_utf8_len(r.error->0) > MAX_MIGRATION_APPROVAL_ERROR_BYTES {
        Some("迁移审批错误信息过长"@)
    } else {
        None
    }
}

impl MigrationApprovalRecord {
    /// Validates stored fields before they re-enter the dialog or are written back.
    pub fn validate(&self) -> (r: Result<(), String>)
        ensures
            match r {
                Ok(()) => spec_validate_record(self@) is None,
                Err(e) => spec_validate_record(self@) == Some(e@),
            },
    {
        validate_text("审批记录 ID", self.approval_id.as_str())?;
        validate_text("源连接 ID", self.source_connection_id.as_str())?;
        validate_text("源连接名称", self.source_connection_name.as_str())?;
        validate_text("目标连接 ID", self.target_connection_id.as_str())?;
        validate_text("目标连接名称", self.target_connection_name.as_str())?;
        validate_text("源 schema", self.source_schema.as_str())?;
        validate_text("源表名", self.source_table.as_str())?;
        validate_text("目标 schema", self.target_schema.as_str())?;
        validate_text("目标表名", self.target_table.as_str())?;
        if !is_sha256_text(self.sql_sha256.as_str()) {
            return Err(String::from_str("迁移脚本指纹不是有效的 SHA-256 值"));
        }
        match &self.error {
            Some(e) => if utf8_len(e.as_str()) > MAX_MIGRATION_APPROVAL_ERROR_BYTES {
                return Err(String::from_str("迁移审批错误信息过长"));
            },
            None => {},
        }
        Ok(())
    }

    /// Cuts the stored error to the error limit.
    pub fn enforce_limits(&mut self)
        ensures
            final(self)@ == (SpecApproval {
                error: match old(self)@.error {
                    Some(e) => Some(spec_bounded_text(e, MAX_MIGRATION_APPROVAL_ERROR_BYTES as int)),
                    None => None,
                },
                ..old(self)@
            }),
    {
        let bounded = match &self.error {
            Some(e) => Some(bounded_text(e.as_str(), MAX_MIGRATION_APPROVAL_ERROR_BYTES)),
            None => None,
        };
        self.error = bounded;
    }

    /// Records an execution result at time `now`, the error cut to the error limit.
    pub fn apply_outcome_at(
        &mut self,
        status: MigrationApprovalStatus,
        elapsed_ms: Option<u64>,
        warning_count: usize,
        error: Option<&str>,
        now: UtcTime,
    )
        ensures
            final(self)@ == (SpecApproval {
                status,
                updated_at: now,
                elapsed_ms,
                warning_count,
                error: match error {
                    Some(e) => Some(spec_bounded_text(e@, MAX_MIGRATION_APPROVAL_ERROR_BYTES as int)),
                    None => None,
                },
                ..old(self)@
            }),
    {
        self.status = status;
        self.updated_at = now;
        self.elapsed_ms = elapsed_ms;
        self.warning_count = warning_count;
        self.error = match error {
            Some(e) => Some(bounded_text(e, MAX_MIGRATION_APPROVAL_ERROR_BYTES)),
            None => None,
        };
    }

    /// A copy of the record.
    pub fn duplicate(&self) -> (r: MigrationApprovalRecord)
        ensures
            r@ == self@,
    {
        MigrationApprovalRecord {
            approval_id: self.approval_id.clone(),
            source_connection_id: self.source_connection_id.clone(),
            source_connection_name: self.source_connection_name.clone(),
            target_connection_id: self.target_connection_id.clone(),
            target_connection_name: self.target_connection_name.clone(),
            source_schema: self.source_schema.clone(),
            source_table: self.source_table.clone(),
            target_schema: self.target_schema.clone(),
            target_table: self.target_table.clone(),
            driver: self.driver,
            statement_count: self.statement_count,
            destructive_statements: self.destructive_statements,
            sql_sha256: self.sql_sha256.clone(),
            approved_at: self.approved_at,
            updated_at: self.updated_at,
            status: self.status,
            elapsed_ms: self.elapsed_ms,
            warning_count: self.warning_count,
            error: crate::domain::copy_opt_text(&self.error),
        }
    }
}


// ---------------------------------------------------------------------------------------------
// Lists of records
// ---------------------------------------------------------------------------------------------

/// Approval IDs of records.
pub open spec fn approval_ids(v: Seq<SpecApproval>) -> Seq<Seq<char>> {
    v.map_values(|r: SpecApproval| r.approval_id)
}

/// The first `n` records with later records of an already seen ID dropped.
pub open spec fn spec_dedup_by_id(v: Seq<SpecApproval>, n: int) -> Seq<SpecApproval>
    decreases n,
{
    if n <= 0 {
        Seq::empty()
    } else {
        let prev = spec_dedup_by_id(v, n - 1);
        if approval_ids(prev).contains(v[n - 1].approval_id) {
            prev
        } else {
            prev.push(v[n - 1])
        }
    }
}

/// Position from `i` of the first record updated strictly before `t`.
pub open spec fn spec_first_older(v: Seq<SpecApproval>, t: UtcTime, i: int) -> int
    decreases v.len() - i,
{
    if i < 0 || i >= v.len() {
        v.len() as int
    } else if spec_time_lt(v[i].updated_at, t) {
        i
    } else {
        spec_first_older(v, t, i + 1)
    }
}

/// The first `n` records ordered newest update first; records updated at the same time keep
/// their order.
pub open spec fn spec_sort_by_recency(v: Seq<SpecApproval>, n: int) -> Seq<SpecApproval>
    decreases n,
{
    if n <= 0 {
        Seq::empty()
    } else {
        let prev = spec_sort_by_recency(v, n - 1);
        prev.insert(spec_first_older(prev, v[n - 1].updated_at, 0), v[n - 1])
    }
}

/// Whether records are ordered newest update first.
pub open spec fn spec_newest_first(v: Seq<SpecApproval>) -> bool {
    forall|i: int, j: int| 0 <= i < j < v.len() ==> !spec_time_lt(#[trigger] v[i].updated_at, #[trigger] v[j].updated_at)
}

proof fn lemma_first_older_bounds(v: Seq<SpecApproval>, t: UtcTime, i: int)
    requires
        0 <= i <= v.len(),
    ensures
        i <= spec_first_older(v, t, i) <= v.len(),
        forall|k: int| i <= k < spec_first_older(v, t, i) ==> !spec_time_lt(#[trigger] v[k].updated_at, t),
        spec_first_older(v, t, i) < v.len() ==> spec_time_lt(v[spec_first_older(v, t, i)].updated_at, t),
    decreases v.len() - i,
{
    if i < v.len() && !spec_time_lt(v[i].updated_at, t) {
        lemma_first_older_bounds(v, t, i + 1);
    }
}

/// Sorting by recency leaves the records newest first.
pub proof fn lemma_sort_by_recency_sorted(v: Seq<SpecApproval>, n: int)
    requires
        0 <= n <= v.len(),
    ensures
        spec_newest_first(spec_sort_by_recency(v, n)),
        spec_sort_by_recency(v, n).len() == n,
    decreases n,
{
    if n > 0 {
        lemma_sort_by_recency_sorted(v, n - 1);
        let prev = spec_sort_by_recency(v, n - 1);
        let x = v[n - 1];
        let p = spec_first_older(prev, x.updated_at, 0);
        lemma_first_older_bounds(prev, x.updated_at, 0);
        let r = prev.insert(p, x);
        assert forall|i: int, j: int| 0 <= i < j < r.len() implies !spec_time_lt(
            #[trigger] r[i].updated_at,
            #[trigger] r[j].updated_at,
        ) by {
            if j < p {
                assert(r[i] == prev[i] && r[j] == prev[j]);
            } else if j == p {
                assert(r[i] == prev[i]);
                assert(!spec_time_lt(prev[i].updated_at, x.updated_at));
            } else if i < p {
                assert(r[i] == prev[i] && r[j] == prev[j - 1]);
            } else if i == p {
                assert(r[j] == prev[j - 1]);
                assert(spec_time_lt(prev[p].updated_at, x.updated_at));
                if p < j - 1 {
                    assert(!spec_time_lt(prev[p].updated_at, prev[j - 1].updated_at));
                }
            } else {
                assert(r[i] == prev[i - 1] && r[j] == prev[j - 1]);
            }
        }
    }
}

/// The first `n` records, or all when there are fewer.
pub open spec fn spec_take_at_most<T>(v: Seq<T>, n: int) -> Seq<T> {
    if v.len() > n {
        v.take(n)
    } else {
        v
    }
}

/// Records read back from storage: each error cut to the limit, repeated IDs dropped (first
/// kept), at most 50 kept, every record validated, then ordered newest first. The flag
/// tells whether anything was dropped.
pub open spec fn spec_normalize_approvals(records: Seq<SpecApproval>) -> Result<(Seq<SpecApproval>, bool), Seq<char>> {
    let limited = records.map_values(|r: SpecApproval| spec_limited(r));
    let unique = spec_dedup_by_id(limited, limited.len() as int);
    let kept = spec_take_at_most(unique, MAX_MIGRATION_APPROVAL_RECORDS as int);
    let adjusted = unique.len() != records.len() || unique.len() > MAX_MIGRATION_APPROVAL_RECORDS;
    match spec_first_invalid(kept, 0) {
        Some(e) => Err(e),
        None => Ok((spec_sort_by_recency(kept, kept.len() as int), adjusted)),
    }
}

/// A record with its error cut to the limit.
pub open spec fn spec_limited(r: SpecApproval) -> SpecApproval {
    SpecApproval {
        error: match r.error {
            Some(e) => Some(spec_bounded_text(e, MAX_MIGRATION_APPROVAL_ERROR_BYTES as int)),
            None => None,
        },
        ..r
    }
}

/// The problem of the first invalid record from position `i`.
pub open spec fn spec_first_invalid(v: Seq<SpecApproval>, i: int) -> Option<Seq<char>>
    decreases v.len() - i,
{
    if i < 0 || i >= v.len() {
        None
    } else {
        match spec_validate_record(v[i]) {
            Some(e) => Some(e),
            None => spec_first_invalid(v, i + 1),
        }
    }
}

fn dedup_by_id(v: Vec<MigrationApprovalRecord>) -> (r: Vec<MigrationApprovalRecord>)
    ensures
        approvals_view(r@) == spec_dedup_by_id(approvals_view(v@), v@.len() as int),
{
    let ghost vv = approvals_view(v@);
    let mut out: Vec<MigrationApprovalRecord> = Vec::new();
    let mut ids: Vec<String> = Vec::new();
    let mut i: usize = 0;
    while i < v.len()
        invariant
            i <= v.len(),
            vv == approvals_view(v@),
            approvals_view(out@) == spec_dedup_by_id(vv, i as int),
            strings_view(ids@) == approval_ids(approvals_view(out@)),
        decreases v.len() - i,
    {
        assert(vv[i as int] == v@[i as int]@);
        let ghost prev = approvals_view(out@);
        if !contains_text(ids.as_slice(), v[i].approval_id.as_str()) {
            let rec = v[i].duplicate();
            let id = v[i].approval_id.clone();
            let ghost rv = rec@;
            let ghost idv = id@;
            let ghost prev_ids = strings_view(ids@);
            out.push(rec);
            ids.push(id);
            assert(approvals_view(out@) =~= prev.push(rv));
            assert(strings_view(ids@) =~= prev_ids.push(idv));
            assert(approval_ids(approvals_view(out@)) =~= approval_ids(prev).push(idv));
        }
        i = i + 1;
    }
    out
}

fn first_older(v: &Vec<MigrationApprovalRecord>, t: UtcTime) -> (r: usize)
    ensures
        r == spec_first_older(approvals_view(v@), t, 0),
        r <= v.len(),
{
    let ghost vv = approvals_view(v@);
    let mut i: usize = 0;
    while i < v.len()
        invariant
            i <= v.len(),
            vv == approvals_view(v@),
            spec_first_older(vv, t, 0) == spec_first_older(vv, t, i as int),
        decreases v.len() - i,
    {
        assert(vv[i as int] == v@[i as int]@);
        if time_lt(v[i].updated_at, t) {
            return i;
        }
        i = i + 1;
    }
    i
}

/// Orders records newest update first; equal times keep their order.
pub fn sort_by_recency(v: Vec<MigrationApprovalRecord>) -> (r: Vec<MigrationApprovalRecord>)
    ensures
        approvals_view(r@) == spec_sort_by_recency(approvals_view(v@), v@.len() as int),
{
    let ghost vv = approvals_view(v@);
    let mut sorted: Vec<MigrationApprovalRecord> = Vec::new();
    let mut i: usize = 0;
    while i < v.len()
        invariant
            i <= v.len(),
            vv == approvals_view(v@),
            approvals_view(sorted@) == spec_sort_by_recency(vv, i as int),
        decreases v.len() - i,
    {
        assert(vv[i as int] == v@[i as int]@);
        let rec = v[i].duplicate();
        let p = first_older(&sorted, rec.updated_at);
        let ghost prev = approvals_view(sorted@);
        let ghost rv = rec@;
        sorted.insert(p, rec);
        assert(approvals_view(sorted@) =~= prev.insert(p as int, rv));
        i = i + 1;
    }
    sorted
}

fn truncate_records(v: &mut Vec<MigrationApprovalRecord>, n: usize)
    ensures
        approvals_view(final(v)@) == spec_take_at_most(approvals_view(old(v)@), n as int),
{
    let ghost before = approvals_view(v@);
    v.truncate(n);
    proof {
        if before.len() > n {
            assert(approvals_view(v@) =~= before.take(n as int));
        } else {
            assert(approvals_view(v@) =~= before);
        }
    }
}

/// The size check of a stored history before it is parsed.
pub open spec fn spec_check_approval_pref_size(json_bytes: nat) -> Option<Seq<char>> {
    if json_bytes > MAX_MIGRATION_APPROVAL_PREF_BYTES {
        Some("迁移审批记录过大："@ + spec_decimal(json_bytes) + " bytes"@)
    } else {
        None
    }
}

/// Refuses a stored history larger than the limit before it is parsed.
pub fn check_approval_pref_size(json: &str) -> (r: Result<(), String>)
    ensures
        spec_utf8_len(json@) <= usize::MAX ==> match r {
            Ok(()) => spec_check_approval_pref_size(spec_utf8_len(json@)) is None,
            Err(e) => spec_check_approval_pref_size(spec_utf8_len(json@)) == Some(e@),
        },
        spec_utf8_len(json@) > usize::MAX ==> r is Err,
{
    let n = utf8_len(json);
    if n > MAX_MIGRATION_APPROVAL_PREF_BYTES {
        let d = decimal(n as u64);
        return Err(cat3("迁移审批记录过大：", d.as_str(), " bytes"));
    }
    Ok(())
}

/// Normalizes the records read back from storage.
pub fn normalize_approvals(records: Vec<MigrationApprovalRecord>) -> (r: Result<
    (Vec<MigrationApprovalRecord>, bool),
    String,
>)
    ensures
        match r {
            Ok((v, adjusted)) => spec_normalize_approvals(approvals_view(records@)) == Ok::<
                (Seq<SpecApproval>, bool),
                Seq<char>,
            >((approvals_view(v@), adjusted)),
            Err(e) => spec_normalize_approvals(approvals_view(records@)) == Err::<
                (Seq<SpecApproval>, bool),
                Seq<char>,
            >(e@),
        },
{
    let ghost rv = approvals_view(records@);
    let original_len = records.len();
    let mut records = records;
    let mut i: usize = 0;
    while i < records.len()
        invariant
            i <= records.len() == original_len,
            rv.len() == original_len,
            forall|k: int| 0 <= k < i ==> #[trigger] records@[k]@ == spec_limited(rv[k]),
            forall|k: int| i <= k < records.len() ==> #[trigger] records@[k]@ == rv[k],
        decreases records.len() - i,
    {
        let mut rec = records.remove(i);
        rec.enforce_limits();
        records.insert(i, rec);
        i = i + 1;
    }
    let ghost limited = rv.map_values(|r: SpecApproval| spec_limited(r));
    assert(approvals_view(records@) =~= limited);
    let unique = dedup_by_id(records);
    let unique_len = unique.len();
    let mut adjusted = unique_len != original_len;
    let mut kept = unique;
    if kept.len() > MAX_MIGRATION_APPROVAL_RECORDS {
        adjusted = true;
    }
    truncate_records(&mut kept, MAX_MIGRATION_APPROVAL_RECORDS);
    match first_invalid(&kept) {
        Some(e) => Err(e),
        None => {
            let sorted = sort_by_recency(kept);
            Ok((sorted, adjusted))
        },
    }
}

fn first_invalid(kept: &Vec<MigrationApprovalRecord>) -> (r: Option<String>)
    ensures
        match r {
            Some(e) => spec_first_invalid(approvals_view(kept@), 0) == Some(e@),
            None => spec_first_invalid(approvals_view(kept@), 0) is None,
        },
{
    let ghost kv = approvals_view(kept@);
    let mut j: usize = 0;
    while j < kept.len()
        invariant
            j <= kept.len(),
            kv == approvals_view(kept@),
            spec_first_invalid(kv, 0) == spec_first_invalid(kv, j as int),
        decreases kept.len() - j,
    {
        assert(kv[j as int] == kept@[j as int]@);
        match kept[j].validate() {
            Err(e) => return Some(e),
            Ok(()) => {},
        }
        j = j + 1;
    }
    None
}

/// Records loaded from storage merged with those created meanwhile: current records first
/// win repeated IDs, then newest first, at most 50.
pub open spec fn spec_merge_approvals(loaded: Seq<SpecApproval>, current: Seq<SpecApproval>) -> Seq<SpecApproval> {
    let all = current + loaded;
    let unique = spec_dedup_by_id(all, all.len() as int);
    spec_take_at_most(spec_sort_by_recency(unique, unique.len() as int), MAX_MIGRATION_APPROVAL_RECORDS as int)
}

/// Merges loaded records with those created while loading.
pub fn merge_migration_approvals(
    loaded: Vec<MigrationApprovalRecord>,
    current: Vec<MigrationApprovalRecord>,
) -> (r: Vec<MigrationApprovalRecord>)
    ensures
        approvals_view(r@) == spec_merge_approvals(approvals_view(loaded@), approvals_view(current@)),
{
    let ghost lv = approvals_view(loaded@);
    let ghost cv = approvals_view(current@);
    let mut all = current;
    let mut loaded = loaded;
    all.append(&mut loaded);
    assert(approvals_view(all@) =~= cv + lv);
    let unique = dedup_by_id(all);
    let mut sorted = sort_by_recency(unique);
    truncate_records(&mut sorted, MAX_MIGRATION_APPROVAL_RECORDS);
    sorted
}

/// Puts a new record in front and keeps at most 50.
pub fn push_migration_approval(records: &mut Vec<MigrationApprovalRecord>, record: MigrationApprovalRecord)
    ensures
        approvals_view(final(records)@) == spec_take_at_most(
            seq![record@] + approvals_view(old(records)@),
            MAX_MIGRATION_APPROVAL_RECORDS as int,
        ),
{
    let ghost before = approvals_view(records@);
    let ghost rv = record@;
    records.insert(0, record);
    assert(approvals_view(records@) =~= seq![rv] + before);
    truncate_records(records, MAX_MIGRATION_APPROVAL_RECORDS);
}

/// Position of the first record with approval ID `id`.
pub open spec fn spec_find_approval(v: Seq<SpecApproval>, id: Seq<char>, i: int) -> Option<int>
    decreases v.len() - i,
{
    if i < 0 || i >= v.len() {
        None
    } else if v[i].approval_id == id {
        Some(i)
    } else {
        spec_find_approval(v, id, i + 1)
    }
}

/// The history after an execution outcome is recorded at time `now` on the first record
/// with ID `id`; unchanged without such a record.
pub open spec fn spec_record_outcome(
    v: Seq<SpecApproval>,
    id: Seq<char>,
    status: MigrationApprovalStatus,
    elapsed_ms: Option<u64>,
    warning_count: usize,
    error: Option<Seq<char>>,
    now: UtcTime,
) -> Seq<SpecApproval> {
    match spec_find_approval(v, id, 0) {
        None => v,
        Some(k) => v.update(
            k,
            SpecApproval {
                status,
                updated_at: now,
                elapsed_ms,
                warning_count,
                error: match error {
                    Some(e) => Some(spec_bounded_text(e, MAX_MIGRATION_APPROVAL_ERROR_BYTES as int)),
                    None => None,
                },
                ..v[k]
            },
        ),
    }
}

/// Records an execution outcome at time `now` on the first record with the ID; returns
/// whether one was found. Other records are untouched.
pub fn record_migration_outcome_at(
    records: &mut Vec<MigrationApprovalRecord>,
    approval_id: &str,
    status: MigrationApprovalStatus,
    elapsed_ms: Option<u64>,
    warning_count: usize,
    error: Option<&str>,
    now: UtcTime,
) -> (found: bool)
    ensures
        match spec_find_approval(approvals_view(old(records)@), approval_id@, 0) {
            None => !found && final(records)@ == old(records)@,
            Some(k) => found && approvals_view(final(records)@) == approvals_view(old(records)@).update(
                k,
                SpecApproval {
                    status,
                    updated_at: now,
                    elapsed_ms,
                    warning_count,
                    error: match error {
                        Some(e) => Some(spec_bounded_text(e@, MAX_MIGRATION_APPROVAL_ERROR_BYTES as int)),
                        None => None,
                    },
                    ..approvals_view(old(records)@)[k]
                },
            ),
        },
        approvals_view(final(records)@) == spec_record_outcome(
            approvals_view(old(records)@),
            approval_id@,
            status,
            elapsed_ms,
            warning_count,
            match error {
                Some(e) => Some(e@),
                None => None,
            },
            now,
        ),
{
    let ghost vv = approvals_view(records@);
    let mut i: usize = 0;
    while i < records.len()
        invariant
            i <= records.len(),
            records@ == old(records)@,
            vv == approvals_view(records@),
            spec_find_approval(vv, approval_id@, 0) == spec_find_approval(vv, approval_id@, i as int),
        decreases records.len() - i,
    {
        assert(vv[i as int] == records@[i as int]@);
        if str_eq(records[i].approval_id.as_str(), approval_id) {
            let mut rec = records.remove(i);
            rec.apply_outcome_at(status, elapsed_ms, warning_count, error, now);
            let ghost recv = rec@;
            records.insert(i, rec);
            assert(approvals_view(records@) =~= vv.update(i as int, recv));
            return true;
        }
        i = i + 1;
    }
    false
}

/// A new approval record for a script about to run: names, schemas and tables are cut to
/// the text limit and only the script's fingerprint is kept.
pub fn new_migration_approval(
    approval_id: String,
    source_connection_id: String,
    source_connection_name: &str,
    target_connection_id: String,
    target_connection_name: &str,
    source_schema: &str,
    source_table: &str,
    target_schema: &str,
    target_table: &str,
    driver: DriverKind,
    script: &MigrationScript,
    now: UtcTime,
) -> (r: MigrationApprovalRecord)
    ensures
        r@ == (SpecApproval {
            approval_id: approval_id@,
            source_connection_id: source_connection_id@,
            source_connection_name: spec_bounded_text(source_connection_name@, MAX_MIGRATION_APPROVAL_TEXT_BYTES as int),
            target_connection_id: target_connection_id@,
            target_connection_name: spec_bounded_text(target_connection_name@, MAX_MIGRATION_APPROVAL_TEXT_BYTES as int),
            source_schema: spec_bounded_text(source_schema@, MAX_MIGRATION_APPROVAL_TEXT_BYTES as int),
            source_table: spec_bounded_text(source_table@, MAX_MIGRATION_APPROVAL_TEXT_BYTES as int),
            target_schema: spec_bounded_text(target_schema@, MAX_MIGRATION_APPROVAL_TEXT_BYTES as int),
            target_table: spec_bounded_text(target_table@, MAX_MIGRATION_APPROVAL_TEXT_BYTES as int),
            driver,
            statement_count: script.statement_count,
            destructive_statements: script.destructive_statements,
            sql_sha256: spec_migration_sql_digest(script.sql@),
            approved_at: now,
            updated_at: now,
            status: MigrationApprovalStatus::Approved,
            elapsed_ms: None,
            warning_count: 0,
            error: None,
        }),
{
    MigrationApprovalRecord {
        approval_id,
        source_connection_id,
        source_connection_name: bounded_text(source_connection_name, MAX_MIGRATION_APPROVAL_TEXT_BYTES),
        target_connection_id,
        target_connection_name: bounded_text(target_connection_name, MAX_MIGRATION_APPROVAL_TEXT_BYTES),
        source_schema: bounded_text(source_schema, MAX_MIGRATION_APPROVAL_TEXT_BYTES),
        source_table: bounded_text(source_table, MAX_MIGRATION_APPROVAL_TEXT_BYTES),
        target_schema: bounded_text(target_schema, MAX_MIGRATION_APPROVAL_TEXT_BYTES),
        target_table: bounded_text(target_table, MAX_MIGRATION_APPROVAL_TEXT_BYTES),
        driver,
        statement_count: script.statement_count,
        destructive_statements: script.destructive_statements,
        sql_sha256: migration_sql_digest(script.sql.as_str()),
        approved_at: now,
        updated_at: now,
        status: MigrationApprovalStatus::Approved,
        elapsed_ms: None,
        warning_count: 0,
        error: None,
    }
}


// ---------------------------------------------------------------------------------------------
// Laws
// ---------------------------------------------------------------------------------------------

proof fn lemma_dedup_ids_unique(v: Seq<SpecApproval>, n: int)
    requires
        0 <= n <= v.len(),
    ensures
        approval_ids(spec_dedup_by_id(v, n)).no_duplicates(),
        spec_dedup_by_id(v, n).len() <= n,
    decreases n,
{
    if n > 0 {
        lemma_dedup_ids_unique(v, n - 1);
        let prev = spec_dedup_by_id(v, n - 1);
        if !approval_ids(prev).contains(v[n - 1].approval_id) {
            assert(approval_ids(prev.push(v[n - 1])) =~= approval_ids(prev).push(v[n - 1].approval_id));
        }
    }
}

proof fn lemma_sort_same_elements(v: Seq<SpecApproval>, n: int)
    requires
        0 <= n <= v.len(),
    ensures
        spec_sort_by_recency(v, n).len() == n,
        forall|y: SpecApproval| spec_sort_by_recency(v, n).contains(y) <==> v.take(n).contains(y),
    decreases n,
{
    if n > 0 {
        lemma_sort_same_elements(v, n - 1);
        let prev = spec_sort_by_recency(v, n - 1);
        lemma_first_older_bounds(prev, v[n - 1].updated_at, 0);
        let p = spec_first_older(prev, v[n - 1].updated_at, 0);
        let r = prev.insert(p, v[n - 1]);
        let t = v.take(n);
        let t0 = v.take(n - 1);
        assert(t =~= t0.push(v[n - 1]));
        assert forall|y: SpecApproval| r.contains(y) <==> t.contains(y) by {
            if r.contains(y) {
                let k = choose|k: int| 0 <= k < r.len() && r[k] == y;
                if k < p {
                    assert(prev[k] == y && prev.contains(y));
                    let m = choose|m: int| 0 <= m < t0.len() && t0[m] == y;
                    assert(t[m] == y);
                } else if k == p {
                    assert(t[n - 1] == y);
                } else {
                    assert(prev[k - 1] == y && prev.contains(y));
                    let m = choose|m: int| 0 <= m < t0.len() && t0[m] == y;
                    assert(t[m] == y);
                }
            }
            if t.contains(y) {
                let k = choose|k: int| 0 <= k < n && t[k] == y;
                if k < n - 1 {
                    assert(t0[k] == y);
                    assert(prev.contains(y));
                    let m = choose|m: int| 0 <= m < prev.len() && prev[m] == y;
                    if m < p {
                        assert(r[m] == y);
                    } else {
                        assert(r[m + 1] == y);
                    }
                } else {
                    assert(r[p] == y);
                }
            }
        }
    }
}

proof fn lemma_sort_keeps_unique_ids(v: Seq<SpecApproval>, n: int)
    requires
        0 <= n <= v.len(),
        approval_ids(v).no_duplicates(),
    ensures
        approval_ids(spec_sort_by_recency(v, n)).no_duplicates(),
    decreases n,
{
    if n > 0 {
        lemma_sort_keeps_unique_ids(v, n - 1);
        lemma_sort_same_elements(v, n - 1);
        let prev = spec_sort_by_recency(v, n - 1);
        lemma_first_older_bounds(prev, v[n - 1].updated_at, 0);
        let p = spec_first_older(prev, v[n - 1].updated_at, 0);
        let x = v[n - 1];
        let r = prev.insert(p, x);
        let t0 = v.take(n - 1);
        assert(approval_ids(r) =~= approval_ids(prev).insert(p, x.approval_id));
        assert forall|k: int| 0 <= k < prev.len() implies prev[k].approval_id != x.approval_id by {
            assert(prev.contains(prev[k]));
            let m = choose|m: int| 0 <= m < t0.len() && t0[m] == prev[k];
            assert(approval_ids(v)[m] == prev[k].approval_id);
            assert(approval_ids(v)[n - 1] == x.approval_id);
        }
        let ids = approval_ids(r);
        assert forall|i: int, j: int| 0 <= i < ids.len() && 0 <= j < ids.len() && i != j implies ids[i] != ids[j] by {
            let pi = approval_ids(prev);
            if i != p && j != p {
                let a = if i < p { i } else { i - 1 };
                let b = if j < p { j } else { j - 1 };
                assert(ids[i] == pi[a] && ids[j] == pi[b]);
            } else if i == p {
                let b = if j < p { j } else { j - 1 };
                assert(ids[j] == prev[b].approval_id);
            } else {
                let a = if i < p { i } else { i - 1 };
                assert(ids[i] == prev[a].approval_id);
            }
        }
    }
}

proof fn lemma_take_at_most_keeps_shape(v: Seq<SpecApproval>, n: int)
    requires
        0 <= n,
        spec_newest_first(v),
        approval_ids(v).no_duplicates(),
    ensures
        spec_take_at_most(v, n).len() <= n,
        spec_newest_first(spec_take_at_most(v, n)),
        approval_ids(spec_take_at_most(v, n)).no_duplicates(),
{
    if v.len() > n {
        let t = v.take(n);
        assert forall|i: int, j: int| 0 <= i < j < t.len() implies !spec_time_lt(
            #[trigger] t[i].updated_at,
            #[trigger] t[j].updated_at,
        ) by {
            assert(t[i] == v[i] && t[j] == v[j]);
        }
        assert(approval_ids(t) =~= approval_ids(v).take(n));
        let ids = approval_ids(t);
        assert forall|i: int, j: int| 0 <= i < ids.len() && 0 <= j < ids.len() && i != j implies ids[i] != ids[j] by {
            assert(ids[i] == approval_ids(v)[i] && ids[j] == approval_ids(v)[j]);
        }
    }
}

/// Stored history read back is bounded, newest first, and has each approval ID once.
pub proof fn lemma_normalized_history_is_bounded_sorted_unique(records: Seq<SpecApproval>)
    requires
        spec_normalize_approvals(records) is Ok,
    ensures
        ({
            let v = spec_normalize_approvals(records)->Ok_0.0;
            &&& v.len() <= MAX_MIGRATION_APPROVAL_RECORDS
            &&& spec_newest_first(v)
            &&& approval_ids(v).no_duplicates()
        }),
{
    let limited = records.map_values(|r: SpecApproval| spec_limited(r));
    let unique = spec_dedup_by_id(limited, limited.len() as int);
    lemma_dedup_ids_unique(limited, limited.len() as int);
    let kept = spec_take_at_most(unique, MAX_MIGRATION_APPROVAL_RECORDS as int);
    if unique.len() > MAX_MIGRATION_APPROVAL_RECORDS {
        let ids = approval_ids(kept);
        assert(ids =~= approval_ids(unique).take(MAX_MIGRATION_APPROVAL_RECORDS as int));
        assert forall|i: int, j: int| 0 <= i < ids.len() && 0 <= j < ids.len() && i != j implies ids[i] != ids[j] by {
            assert(ids[i] == approval_ids(unique)[i] && ids[j] == approval_ids(unique)[j]);
        }
    }
    lemma_sort_by_recency_sorted(kept, kept.len() as int);
    lemma_sort_keeps_unique_ids(kept, kept.len() as int);
}

/// Merged history is bounded, newest first, and has each approval ID once.
pub proof fn lemma_merged_history_is_bounded_sorted_unique(loaded: Seq<SpecApproval>, current: Seq<SpecApproval>)
    ensures
        ({
            let v = spec_merge_approvals(loaded, current);
            &&& v.len() <= MAX_MIGRATION_APPROVAL_RECORDS
            &&& spec_newest_first(v)
            &&& approval_ids(v).no_duplicates()
        }),
{
    let all = current + loaded;
    let unique = spec_dedup_by_id(all, all.len() as int);
    lemma_dedup_ids_unique(all, all.len() as int);
    let sorted = spec_sort_by_recency(unique, unique.len() as int);
    lemma_sort_by_recency_sorted(unique, unique.len() as int);
    lemma_sort_keeps_unique_ids(unique, unique.len() as int);
    lemma_take_at_most_keeps_shape(sorted, MAX_MIGRATION_APPROVAL_RECORDS as int);
}

/// A recorded error never exceeds the error limit.
pub proof fn lemma_outcome_error_is_bounded(error: Seq<char>)
    ensures
        spec_utf8_len(spec_bounded_text(error, MAX_MIGRATION_APPROVAL_ERROR_BYTES as int))
            <= MAX_MIGRATION_APPROVAL_ERROR_BYTES,
{
    lemma_bounded_text_fits(error, MAX_MIGRATION_APPROVAL_ERROR_BYTES as int);
}

} // verus!
