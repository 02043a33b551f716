//! The APatch provider: parsing of the comma-separated package
//! authorization table and the per-uid queries over it, the helper version
//! classification, and the manager ownership test.
//!
//! The table's first line is a header and is discarded; every following line
//! must hold exactly six comma-separated fields
//! `package, exclude, allow, uid, to_uid, context`, with the two uid fields
//! decimal integers. Any malformed line is a hard parse error: no partial
//! table is ever returned, and the boolean queries degrade to `false`.

use vstd::prelude::*;
use crate::bytes::{
    bytes_eq, seqs_of, spec_lines, spec_split, spec_tokens, spec_trim, split_bytes, split_lines,
    tokens, trim_ascii,
};
use crate::num::{parse_i32, spec_parse_i32};

verus! {

/// Outcome of the provider version probe when the helper answered: the
/// reported version is either at or above the configured minimum, or below
/// it. A helper that cannot be run or answers nonsense yields no outcome.
#[derive(Clone, Copy, Debug, PartialEq, Eq, Structural)]
pub enum Version {
    Supported,
    TooOld,
}

/// One row of the provider's package authorization table.
pub struct PackageInfo {
    pub pkg: Vec<u8>,
    pub exclude: bool,
    pub allow: bool,
    pub uid: i32,
    pub to_uid: i32,
    pub sctx: Vec<u8>,
}

/// The mathematical content of one table row.
pub ghost struct PackageInfoView {
    pub pkg: Seq<u8>,
    pub exclude: bool,
    pub allow: bool,
    pub uid: i32,
    pub to_uid: i32,
    pub sctx: Seq<u8>,
}

impl View for PackageInfo {
    type V = PackageInfoView;

    open spec fn view(&self) -> PackageInfoView {
        PackageInfoView {
            pkg: self.pkg@,
            exclude: self.exclude,
            allow: self.allow,
            uid: self.uid,
            to_uid: self.to_uid,
            sctx: self.sctx@,
        }
    }
}

/// The views of a sequence of rows.
pub open spec fn views_of(rows: Seq<PackageInfo>) -> Seq<PackageInfoView> {
    rows.map_values(|p: PackageInfo| p@)
}

/// A structurally bad table line: wrong field count or a non-integer uid
/// field. The payload is the index of the offending line, counted from the
/// start of the file (the header is line zero).
#[derive(Clone, Copy, Debug, PartialEq, Eq, Structural)]
pub enum TableError {
    MalformedRow(usize),
}

/// One table row read from `line`: the line trimmed of ASCII whitespace,
/// split on commas into exactly six fields, with both uid fields decimal
/// integers; anything else is rejected.
pub open spec fn spec_parse_row(line: Seq<u8>) -> Option<PackageInfoView> {
    let fields = spec_split(spec_trim(line), 44);
    if fields.len() != 6 {
        Option::None
    } else {
        match (spec_parse_i32(fields[3]), spec_parse_i32(fields[4])) {
            (Option::Some(uid), Option::Some(to_uid)) => Option::Some(
                PackageInfoView {
                    pkg: fields[0],
                    exclude: fields[1] == seq![49u8],
                    allow: fields[2] == seq![49u8],
                    uid,
                    to_uid,
                    sctx: fields[5],
                },
            ),
            _ => Option::None,
        }
    }
}

/// All of `lines` parsed as rows, in order; any bad line rejects the whole
/// sequence.
pub open spec fn spec_parse_rows(lines: Seq<Seq<u8>>) -> Option<Seq<PackageInfoView>>
    decreases lines.len(),
{
    if lines.len() == 0 {
        Option::Some(Seq::<PackageInfoView>::empty())
    } else {
        match (spec_parse_rows(lines.drop_last()), spec_parse_row(lines.last())) {
            (Option::Some(rest), Option::Some(row)) => Option::Some(rest.push(row)),
            _ => Option::None,
        }
    }
}

/// The whole table: the first line is a header and is discarded, every
/// following line is a row. An empty file is an empty table.
pub open spec fn spec_parse_table(content: Seq<u8>) -> Option<Seq<PackageInfoView>> {
    let lines = spec_lines(content);
    if lines.len() == 0 {
        Option::Some(Seq::<PackageInfoView>::empty())
    } else {
        spec_parse_rows(lines.drop_first())
    }
}

proof fn lemma_parse_rows_prefix_none(lines: Seq<Seq<u8>>, i: int)
    requires
        0 <= i <= lines.len(),
        spec_parse_rows(lines.take(i)) is None,
    ensures
        spec_parse_rows(lines) is None,
    decreases lines.len() - i,
{
    if i == lines.len() {
        assert(lines.take(i) =~= lines);
    } else {
        assert(lines.take(i + 1).drop_last() =~= lines.take(i));
        lemma_parse_rows_prefix_none(lines, i + 1);
    }
}

/// Parses a whole configuration table. Returns the rows in file order, or
/// the index of the first malformed line; no partial table is returned.
pub fn parse_config_table(content: &[u8]) -> (r: Result<Vec<PackageInfo>, TableError>)
    ensures
        r matches Ok(rows) ==> spec_parse_table(content@) == Option::Some(views_of(rows@)),
        r matches Err(e) ==> spec_parse_table(content@) is None && (e matches
            TableError::MalformedRow(k) && 1 <= k < spec_lines(content@).len() && spec_parse_row(
            spec_lines(content@)[k as int],
        ) is None && spec_parse_rows(
            spec_lines(content@).drop_first().take(k - 1),
        ) is Some),
{
    let lines = split_lines(content);
    let ghost lv = seqs_of(lines@);
    if lines.len() == 0 {
        let r: Vec<PackageInfo> = Vec::new();
        assert(views_of(r@) =~= Seq::<PackageInfoView>::empty());
        return Result::Ok(r);
    }
    let ghost data = lv.drop_first();
    let mut rows: Vec<PackageInfo> = Vec::new();
    let mut i: usize = 1;
    while i < lines.len()
        invariant
            1 <= i <= lines@.len(),
            seqs_of(lines@) == spec_lines(content@),
            lv == seqs_of(lines@),
            lv.len() >= 1,
            data == lv.drop_first(),
            spec_parse_table(content@) == spec_parse_rows(data),
            spec_parse_rows(data.take(i - 1)) == Option::Some(views_of(rows@)),
        decreases lines@.len() - i,
    {
        let ghost pre_rows = rows@;
        match parse_row(lines[i].as_slice()) {
            Option::Some(p) => {
                rows.push(p);
                proof {
                    let t1 = data.take(i as int);
                    assert(t1.drop_last() =~= data.take(i - 1));
                    assert(t1.last() == lv[i as int]);
                    assert(views_of(rows@) =~= views_of(pre_rows).push(p@));
                }
            },
            Option::None => {
                proof {
                    let t1 = data.take(i as int);
                    assert(t1.drop_last() =~= data.take(i - 1));
                    assert(t1.last() == lv[i as int]);
                    assert(spec_parse_rows(t1) is None);
                    lemma_parse_rows_prefix_none(data, i as int);
                }
                return Result::Err(TableError::MalformedRow(i));
            },
        }
        i += 1;
    }
    proof {
        assert(data.take(lv.len() - 1) =~= data);
    }
    Result::Ok(rows)
}

/// Parses one table row.
fn parse_row(line: &[u8]) -> (r: Option<PackageInfo>)
    ensures
        r matches Option::Some(p) ==> spec_parse_row(line@) == Option::Some(p@),
        r is None ==> spec_parse_row(line@) is None,
{
    let trimmed = trim_ascii(line);
    let mut fields = split_bytes(trimmed.as_slice(), 44);
    let ghost fv = seqs_of(fields@);
    if fields.len() != 6 {
        return Option::None;
    }
    let sctx = fields.pop().unwrap();
    let to_uid_b = fields.pop().unwrap();
    let uid_b = fields.pop().unwrap();
    let allow_b = fields.pop().unwrap();
    let exclude_b = fields.pop().unwrap();
    let pkg = fields.pop().unwrap();
    proof {
        assert(sctx@ == fv[5]);
        assert(to_uid_b@ == fv[4]);
        assert(uid_b@ == fv[3]);
        assert(allow_b@ == fv[2]);
        assert(exclude_b@ == fv[1]);
        assert(pkg@ == fv[0]);
    }
    let uid = match parse_i32(uid_b.as_slice()) {
        Option::Some(v) => v,
        Option::None => {
            return Option::None;
        },
    };
    let to_uid = match parse_i32(to_uid_b.as_slice()) {
        Option::Some(v) => v,
        Option::None => {
            return Option::None;
        },
    };
    let one: Vec<u8> = vec![49u8];
    assert(one@ =~= seq![49u8]);
    let exclude = bytes_eq(exclude_b.as_slice(), one.as_slice());
    let allow = bytes_eq(allow_b.as_slice(), one.as_slice());
    let p = PackageInfo { pkg, exclude, allow, uid, to_uid, sctx };
    proof {
        assert(spec_parse_row(line@) == Option::Some(p@));
    }
    Option::Some(p)
}

/// The first row whose uid equals `uid`, if any.
pub open spec fn spec_first_match(rows: Seq<PackageInfoView>, uid: i32) -> Option<PackageInfoView>
    decreases rows.len(),
{
    if rows.len() == 0 {
        Option::None
    } else if rows[0].uid == uid {
        Option::Some(rows[0])
    } else {
        spec_first_match(rows.drop_first(), uid)
    }
}

/// First-match law: when row `i` carries the queried uid and no earlier row
/// does, the table lookup answers with exactly row `i`.
pub proof fn lemma_first_match_found(rows: Seq<PackageInfoView>, uid: i32, i: int)
    requires
        0 <= i < rows.len(),
        rows[i].uid == uid,
        forall|j: int| 0 <= j < i ==> (#[trigger] rows[j]).uid != uid,
    ensures
        spec_first_match(rows, uid) == Option::Some(rows[i]),
    decreases i,
{
    if i > 0 {
        lemma_first_match_found(rows.drop_first(), uid, i - 1);
    }
}

/// Absence law: when no row carries the queried uid, the table lookup
/// answers with no row at all.
pub proof fn lemma_first_match_absent(rows: Seq<PackageInfoView>, uid: i32)
    requires
        forall|j: int| 0 <= j < rows.len() ==> (#[trigger] rows[j]).uid != uid,
    ensures
        spec_first_match(rows, uid) is None,
    decreases rows.len(),
{
    if rows.len() > 0 {
        lemma_first_match_absent(rows.drop_first(), uid);
    }
}

/// The allow flag of the first row matching `uid`, `false` when no row
/// matches.
pub open spec fn spec_granted(rows: Seq<PackageInfoView>, uid: i32) -> bool {
    match spec_first_match(rows, uid) {
        Option::Some(p) => p.allow,
        Option::None => false,
    }
}

/// The exclude flag of the first row matching `uid`, `false` when no row
/// matches.
pub open spec fn spec_excluded(rows: Seq<PackageInfoView>, uid: i32) -> bool {
    match spec_first_match(rows, uid) {
        Option::Some(p) => p.exclude,
        Option::None => false,
    }
}

/// The allow flag of the first matching row of a well-formed table, `false`
/// on a malformed table or when no row matches.
pub open spec fn spec_uid_granted_root(content: Seq<u8>, uid: i32) -> bool {
    match spec_parse_table(content) {
        Option::Some(rows) => spec_granted(rows, uid),
        Option::None => false,
    }
}

/// The exclude flag of the first matching row of a well-formed table,
/// `false` on a malformed table or when no row matches.
pub open spec fn spec_uid_should_umount(content: Seq<u8>, uid: i32) -> bool {
    match spec_parse_table(content) {
        Option::Some(rows) => spec_excluded(rows, uid),
        Option::None => false,
    }
}

/// First-match law for the queries: on a well-formed table, the grant and
/// exclusion answers are exactly the flags of the first row matching the
/// queried uid, and `false` for a uid absent from the table.
pub proof fn lemma_queries_follow_first_match(
    content: Seq<u8>,
    uid: i32,
    rows: Seq<PackageInfoView>,
)
    requires
        spec_parse_table(content) == Option::Some(rows),
    ensures
        spec_uid_granted_root(content, uid) == (match spec_first_match(rows, uid) {
            Option::Some(p) => p.allow,
            Option::None => false,
        }),
        spec_uid_should_umount(content, uid) == (match spec_first_match(rows, uid) {
            Option::Some(p) => p.exclude,
            Option::None => false,
        }),
{
}

/// Scans parsed rows for the first uid match and hands back its flags.
fn first_match_flags(rows: &Vec<PackageInfo>, uid: i32) -> (r: Option<(bool, bool)>)
    ensures
        r matches Option::Some(f) ==> spec_first_match(views_of(rows@), uid) matches Option::Some(
            p,
        ) && f.0 == p.allow && f.1 == p.exclude,
        r is None ==> spec_first_match(views_of(rows@), uid) is None,
{
    let ghost rv = views_of(rows@);
    let mut i: usize = 0;
    while i < rows.len()
        invariant
            0 <= i <= rows@.len(),
            rv == views_of(rows@),
            forall|j: int| 0 <= j < i ==> (#[trigger] rv[j]).uid != uid,
        decreases rows@.len() - i,
    {
        if rows[i].uid == uid {
            proof {
                lemma_first_match_found(rv, uid, i as int);
            }
            return Option::Some((rows[i].allow, rows[i].exclude));
        }
        i += 1;
    }
    proof {
        lemma_first_match_absent(rv, uid);
    }
    Option::None
}

/// Whether `uid` is granted root by the table in `content`: the allow flag
/// of the first matching row. Distinguishes a malformed table (`Err`) from
/// a missing or denying row (`Ok(false)`).
pub fn query_granted_root(content: &[u8], uid: i32) -> (r: Result<bool, TableError>)
    ensures
        r matches Ok(b) ==> spec_parse_table(content@) is Some && b == spec_uid_granted_root(
            content@,
            uid,
        ),
        r is Err ==> spec_parse_table(content@) is None,
{
    let rows = match parse_config_table(content) {
        Result::Ok(rows) => rows,
        Result::Err(e) => {
            return Result::Err(e);
        },
    };
    match first_match_flags(&rows, uid) {
        Option::Some(f) => Result::Ok(f.0),
        Option::None => Result::Ok(false),
    }
}

/// Whether `uid`'s mounts should be hidden by the table in `content`: the
/// exclude flag of the first matching row. Distinguishes a malformed table
/// (`Err`) from a missing or non-excluding row (`Ok(false)`).
pub fn query_should_umount(content: &[u8], uid: i32) -> (r: Result<bool, TableError>)
    ensures
        r matches Ok(b) ==> spec_parse_table(content@) is Some && b == spec_uid_should_umount(
            content@,
            uid,
        ),
        r is Err ==> spec_parse_table(content@) is None,
{
    let rows = match parse_config_table(content) {
        Result::Ok(rows) => rows,
        Result::Err(e) => {
            return Result::Err(e);
        },
    };
    match first_match_flags(&rows, uid) {
        Option::Some(f) => Result::Ok(f.1),
        Option::None => Result::Ok(false),
    }
}

/// Whether `uid` is granted root: the allow flag of the first matching row,
/// with a malformed table degrading to `false` (deny).
pub fn uid_granted_root(content: &[u8], uid: i32) -> (r: bool)
    ensures
        r == spec_uid_granted_root(content@, uid),
{
    match query_granted_root(content, uid) {
        Result::Ok(b) => b,
        Result::Err(_) => false,
    }
}

/// Whether `uid`'s view of the filesystem should exclude module mounts: the
/// exclude flag of the first matching row, with a malformed table degrading
/// to `false`.
pub fn uid_should_umount(content: &[u8], uid: i32) -> (r: bool)
    ensures
        r == spec_uid_should_umount(content@, uid),
{
    match query_should_umount(content, uid) {
        Result::Ok(b) => b,
        Result::Err(_) => false,
    }
}

/// The provider version read from the helper's output: exactly two
/// whitespace-separated tokens, the second a decimal integer, compared
/// against the configured minimum; anything else yields no outcome.
pub open spec fn spec_classify_version(output: Seq<u8>, min_version: i32) -> Option<Version> {
    let t = spec_tokens(output);
    if t.len() != 2 {
        Option::None
    } else {
        match spec_parse_i32(t[1]) {
            Option::Some(v) => Option::Some(
                if v >= min_version {
                    Version::Supported
                } else {
                    Version::TooOld
                },
            ),
            Option::None => Option::None,
        }
    }
}

/// Classifies the version helper's standard output against the configured
/// minimum version. `None` stands for an unsupported or absent provider.
pub fn classify_helper_output(output: &[u8], min_version: i32) -> (r: Option<Version>)
    ensures
        r == spec_classify_version(output@, min_version),
{
    let t = tokens(output);
    if t.len() != 2 {
        return Option::None;
    }
    assert(t@[1]@ == spec_tokens(output@)[1]);
    match parse_i32(t[1].as_slice()) {
        Option::Some(v) => Option::Some(
            if v >= min_version {
                Version::Supported
            } else {
                Version::TooOld
            },
        ),
        Option::None => Option::None,
    }
}

/// The queried uid read as the kernel reads file owners: as an unsigned
/// 32-bit value, with negative uids wrapping.
pub open spec fn spec_uid_as_u32(uid: i32) -> int {
    if uid >= 0 {
        uid as int
    } else {
        uid + 0x1_0000_0000
    }
}

/// Whether `uid` is the manager application: the owner uid of the manager's
/// data directory, when it could be read at all, equals the queried uid.
pub fn uid_is_manager(owner_uid: Option<u32>, uid: i32) -> (r: bool)
    ensures
        r == (owner_uid matches Option::Some(o) && o == spec_uid_as_u32(uid)),
{
    match owner_uid {
        Option::Some(o) => {
            if uid >= 0 {
                o == (uid as u32)
            } else {
                (o as i64) == (uid as i64) + 0x1_0000_0000
            }
        },
        Option::None => false,
    }
}

} // verus!
